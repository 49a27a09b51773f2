//! Text operations on slices of characters, each proved against its meaning
//! in `model`.

use crate::model;
use vstd::prelude::*;
use vstd::slice::slice_subrange;
use vstd::std_specs::iter::IteratorSpec;

verus! {

/// `String::push` of the standard library: the string afterwards is the
/// string before with `c` added at its end.
pub assume_specification[ String::push ](s: &mut String, c: char)
    ensures
        final(s)@ == old(s)@.push(c),
;

/// The characters of `s`, in order.
pub fn chars_of(s: &str) -> (v: Vec<char>)
    ensures
        v@ == s@,
{
    let mut v: Vec<char> = Vec::new();
    for c in it: s.chars()
        invariant
            v@ == it.seq().take(it.index() as int),
            it.seq() == s@,
    {
        v.push(c);
    }
    v
}

/// The string that holds the characters of `s`, in order.
pub fn string_of(s: &[char]) -> (r: String)
    ensures
        r@ == s@,
{
    let mut r = String::new();
    let mut i: usize = 0;
    while i < s.len()
        invariant
            i <= s@.len(),
            r@ == s@.take(i as int),
        decreases s.len() - i,
    {
        r.push(s[i]);
        i += 1;
    }
    r
}

/// Adds the characters of `s` at the end of `out`.
pub fn append(out: &mut Vec<char>, s: &[char])
    ensures
        final(out)@ == old(out)@ + s@,
{
    let mut i: usize = 0;
    while i < s.len()
        invariant
            i <= s@.len(),
            out@ == old(out)@ + s@.take(i as int),
        decreases s.len() - i,
    {
        out.push(s[i]);
        i += 1;
    }
}

/// `str::to_lowercase` of the standard library, which follows Unicode's
/// rules for putting a text into lower case. The result depends on the text
/// alone and is known by the name `model::lowercase`; nothing more is claimed
/// of it.
#[verifier::external_body]
fn to_lowercase(s: &str) -> (lowered: String)
    ensures
        lowered@ == model::lowercase(s@),
{
    s.to_lowercase()
}

/// `s` in lower case.
pub fn lowercase(s: &[char]) -> (lowered: Vec<char>)
    ensures
        lowered@ == model::lowercase(s@),
{
    let plain = string_of(s);
    let lowered = to_lowercase(plain.as_str());
    chars_of(lowered.as_str())
}

/// Whether `s` holds the characters of `word`.
pub fn equals(s: &[char], word: &str) -> (r: bool)
    ensures
        r == (s@ == word@),
{
    let mut i: usize = 0;
    for c in it: word.chars()
        invariant
            i == it.index(),
            it.seq() == word@,
            i <= s@.len(),
            s@.take(i as int) == word@.take(i as int),
    {
        if i >= s.len() || s[i] != c {
            assert(s@.len() == i || s@[i as int] != word@[i as int]);
            return false;
        }
        proof {
            assert(s@.take(i + 1) =~= s@.take(i as int).push(s@[i as int]));
            assert(word@.take(i + 1) =~= word@.take(i as int).push(word@[i as int]));
        }
        i += 1;
    }
    proof {
        assert(word@.take(word@.len() as int) =~= word@);
        assert(s@.take(s@.len() as int) =~= s@);
    }
    i == s.len()
}

/// Whether `c` is white space.
pub fn is_space(c: char) -> (b: bool)
    ensures
        b == model::is_space(c),
{
    let n: u32 = c as u32;
    (0x09 <= n && n <= 0x0D) || n == 0x20 || n == 0x85 || n == 0xA0 || n == 0x1680 || (0x2000 <= n
        && n <= 0x200A) || n == 0x2028 || n == 0x2029 || n == 0x202F || n == 0x205F || n == 0x3000
}

/// `s` without its leading white space.
pub fn trim_start<'a>(s: &'a [char]) -> (r: &'a [char])
    ensures
        r@ == model::trim_start(s@),
{
    let mut i: usize = 0;
    proof {
        assert(s@.skip(0) =~= s@);
    }
    while i < s.len() && is_space(s[i])
        invariant
            i <= s@.len(),
            model::trim_start(s@) == model::trim_start(s@.skip(i as int)),
        decreases s.len() - i,
    {
        proof {
            assert(s@.skip(i as int).skip(1) =~= s@.skip(i + 1));
        }
        i += 1;
    }
    slice_subrange(s, i, s.len())
}

/// `s` without its trailing white space.
pub fn trim_end<'a>(s: &'a [char]) -> (r: &'a [char])
    ensures
        r@ == model::trim_end(s@),
{
    let mut j: usize = s.len();
    proof {
        assert(s@.take(j as int) =~= s@);
    }
    while j > 0 && is_space(s[j - 1])
        invariant
            j <= s@.len(),
            model::trim_end(s@) == model::trim_end(s@.take(j as int)),
        decreases j,
    {
        proof {
            assert(s@.take(j as int).drop_last() =~= s@.take(j - 1));
        }
        j -= 1;
    }
    slice_subrange(s, 0, j)
}

/// `s` without its leading and trailing white space.
pub fn trim<'a>(s: &'a [char]) -> (r: &'a [char])
    ensures
        r@ == model::trim(s@),
{
    trim_end(trim_start(s))
}

/// The position of the first `c` in `s`, or the length of `s` where there is
/// none.
pub fn find(s: &[char], c: char) -> (k: usize)
    ensures
        k == model::index_of(s@, c),
        k <= s@.len(),
{
    let mut i: usize = 0;
    proof {
        assert(s@.skip(0) =~= s@);
    }
    while i < s.len() && s[i] != c
        invariant
            i <= s@.len(),
            model::index_of(s@, c) == i + model::index_of(s@.skip(i as int), c),
        decreases s.len() - i,
    {
        proof {
            assert(s@.skip(i as int).skip(1) =~= s@.skip(i + 1));
        }
        i += 1;
    }
    i
}

/// The pieces of `s` between the occurrences of `sep`, in order.
pub fn split<'a>(s: &'a [char], sep: char) -> (r: Vec<&'a [char]>)
    ensures
        r@.len() == model::split(s@, sep).len(),
        r@.len() >= 1,
        forall|k: int| 0 <= k < r@.len() ==> (#[trigger] r@[k])@ == model::split(s@, sep)[k],
{
    let mut out: Vec<&'a [char]> = Vec::new();
    let mut start: usize = 0;
    let mut finished = false;
    proof {
        assert(s@.skip(0) =~= s@);
    }
    while !finished
        invariant
            start <= s@.len(),
            finished ==> out@.len() >= 1 && model::split(s@, sep).len() == out@.len(),
            !finished ==> model::split(s@, sep).len() == out@.len() + model::split(
                s@.skip(start as int),
                sep,
            ).len(),
            forall|k: int| 0 <= k < out@.len() ==> (#[trigger] out@[k])@ == model::split(s@, sep)[k],
            !finished ==> forall|k: int|
                0 <= k < model::split(s@.skip(start as int), sep).len() ==> model::split(
                    s@,
                    sep,
                )[out@.len() + k] == #[trigger] model::split(s@.skip(start as int), sep)[k],
        decreases s@.len() - start + (if finished { 0int } else { 1int }),
    {
        let rest = slice_subrange(s, start, s.len());
        let end = find(rest, sep);
        let piece = slice_subrange(rest, 0, end);
        proof {
            assert(rest@ =~= s@.skip(start as int));
            assert(piece@ =~= rest@.take(end as int));
            let pieces = model::split(rest@, sep);
            assert(pieces[0] == piece@);
            if end < rest@.len() {
                let tail = model::split(rest@.skip(end + 1), sep);
                assert(rest@.skip(end + 1) =~= s@.skip(start + end + 1));
                assert(pieces == seq![piece@] + tail);
                assert forall|k: int| 0 <= k < tail.len() implies model::split(s@, sep)[out@.len()
                    + 1 + k] == #[trigger] tail[k] by {
                    assert(pieces[k + 1] == tail[k]);
                }
            } else {
                assert(pieces.len() == 1);
            }
        }
        out.push(piece);
        if end < rest.len() {
            start = start + end + 1;
        } else {
            finished = true;
        }
    }
    out
}

/// The maximal runs of characters of `s` that hold no white space, in order.
pub fn words<'a>(s: &'a [char]) -> (r: Vec<&'a [char]>)
    ensures
        r@.len() == model::words(s@).len(),
        forall|k: int| 0 <= k < r@.len() ==> (#[trigger] r@[k])@ == model::words(s@)[k],
{
    let mut out: Vec<&'a [char]> = Vec::new();
    let mut i: usize = 0;
    proof {
        assert(s@.skip(0) =~= s@);
    }
    while i < s.len()
        invariant
            i <= s@.len(),
            model::words(s@).len() == out@.len() + model::words(s@.skip(i as int)).len(),
            forall|k: int| 0 <= k < out@.len() ==> (#[trigger] out@[k])@ == model::words(s@)[k],
            forall|k: int|
                0 <= k < model::words(s@.skip(i as int)).len() ==> model::words(s@)[out@.len() + k]
                    == #[trigger] model::words(s@.skip(i as int))[k],
        decreases s.len() - i,
    {
        let ghost rest = s@.skip(i as int);
        if is_space(s[i]) {
            proof {
                assert(rest.skip(1) =~= s@.skip(i + 1));
            }
            i += 1;
        } else {
            let mut j: usize = i;
            proof {
                assert(rest.skip(0) =~= rest);
            }
            while j < s.len() && !is_space(s[j])
                invariant
                    i <= j <= s@.len(),
                    rest == s@.skip(i as int),
                    model::word_len(rest) == (j - i) + model::word_len(rest.skip(j - i)),
                decreases s.len() - j,
            {
                proof {
                    assert(rest.skip(j - i).skip(1) =~= rest.skip(j - i + 1));
                }
                j += 1;
            }
            let word = slice_subrange(s, i, j);
            proof {
                let n = (j - i) as int;
                assert(model::word_len(rest) == n);
                assert(rest.take(n) =~= word@);
                assert(rest.skip(n) =~= s@.skip(j as int));
                let tail = model::words(s@.skip(j as int));
                assert(model::words(rest) == seq![word@] + tail);
                assert forall|k: int| 0 <= k < tail.len() implies model::words(s@)[out@.len() + 1
                    + k] == #[trigger] tail[k] by {
                    assert(model::words(rest)[k + 1] == tail[k]);
                }
                assert(model::words(rest)[0] == word@);
            }
            out.push(word);
            i = j;
        }
    }
    out
}

/// `s` with every occurrence of `%` followed by `token` replaced by `value`.
pub fn substitute(s: &[char], token: char, value: &[char]) -> (r: Vec<char>)
    ensures
        r@ == model::substitute(s@, token, value@),
{
    let mut out: Vec<char> = Vec::new();
    let mut i: usize = 0;
    proof {
        assert(s@.skip(0) =~= s@);
    }
    while i < s.len()
        invariant
            i <= s@.len(),
            model::substitute(s@, token, value@) == out@ + model::substitute(
                s@.skip(i as int),
                token,
                value@,
            ),
        decreases s.len() - i,
    {
        let ghost rest = s@.skip(i as int);
        let ghost before = out@;
        if i + 1 < s.len() && s[i] == '%' && s[i + 1] == token {
            append(&mut out, value);
            proof {
                assert(rest.skip(2) =~= s@.skip(i + 2));
                assert(before + (value@ + model::substitute(rest.skip(2), token, value@)) =~= out@
                    + model::substitute(rest.skip(2), token, value@));
            }
            i += 2;
        } else {
            out.push(s[i]);
            proof {
                assert(rest.skip(1) =~= s@.skip(i + 1));
                if rest.len() < 2 {
                    assert(rest =~= seq![rest[0]]);
                    assert(model::substitute(rest.skip(1), token, value@) =~= Seq::<char>::empty());
                }
                assert(before + (seq![rest[0]] + model::substitute(rest.skip(1), token, value@))
                    =~= out@ + model::substitute(rest.skip(1), token, value@));
            }
            i += 1;
        }
    }
    proof {
        assert(s@.skip(s@.len() as int) =~= Seq::<char>::empty());
    }
    out
}

/// The character that writes the digit `d`.
fn digit_char(d: u16) -> (c: char)
    requires
        d < 10,
    ensures
        c == model::digit_char(d as nat),
{
    if d == 0 {
        '0'
    } else if d == 1 {
        '1'
    } else if d == 2 {
        '2'
    } else if d == 3 {
        '3'
    } else if d == 4 {
        '4'
    } else if d == 5 {
        '5'
    } else if d == 6 {
        '6'
    } else if d == 7 {
        '7'
    } else if d == 8 {
        '8'
    } else {
        '9'
    }
}

/// Adds `n`, written in decimal without leading zeros, at the end of `out`.
pub fn push_decimal(out: &mut Vec<char>, n: u16)
    ensures
        final(out)@ == old(out)@ + model::decimal(n as nat),
    decreases n,
{
    if n >= 10 {
        push_decimal(out, n / 10);
    }
    out.push(digit_char(n % 10));
    proof {
        if n >= 10 {
            assert(old(out)@ + model::decimal((n / 10) as nat).push(
                model::digit_char((n % 10) as nat),
            ) =~= out@);
        } else {
            assert(old(out)@ + seq![model::digit_char(n as nat)] =~= out@);
        }
    }
}

/// `n` written in decimal, without leading zeros.
pub fn decimal(n: u16) -> (r: Vec<char>)
    ensures
        r@ == model::decimal(n as nat),
{
    let mut out: Vec<char> = Vec::new();
    push_decimal(&mut out, n);
    proof {
        assert(Seq::<char>::empty() + model::decimal(n as nat) =~= model::decimal(n as nat));
    }
    out
}

/// A number is no smaller than the number that a prefix of its digits writes.
pub proof fn lemma_decimal_value_grows(s: Seq<char>, i: int)
    requires
        0 <= i <= s.len(),
    ensures
        model::decimal_value(s.take(i)) <= model::decimal_value(s),
    decreases s.len(),
{
    if i == s.len() {
        assert(s.take(i) =~= s);
    } else {
        lemma_decimal_value_grows(s.drop_last(), i);
        assert(s.drop_last().take(i) =~= s.take(i));
    }
}

/// The 16-bit number that `s` writes in decimal, or `None` where it writes
/// none.
pub fn parse_u16(s: &[char]) -> (r: Option<u16>)
    ensures
        r == model::parse_u16(s@),
{
    let start: usize = if s.len() > 0 && s[0] == '+' {
        1
    } else {
        0
    };
    let digits = slice_subrange(s, start, s.len());
    proof {
        assert(s@.skip(0) =~= s@);
        assert(digits@ =~= s@.skip(start as int));
    }
    if digits.len() == 0 {
        return None;
    }
    let mut acc: u32 = 0;
    let mut i: usize = 0;
    while i < digits.len()
        invariant
            i <= digits@.len(),
            digits@.len() > 0,
            digits@ == if s@.len() > 0 && s@[0] == '+' {
                s@.skip(1)
            } else {
                s@
            },
            acc == model::decimal_value(digits@.take(i as int)),
            acc <= u16::MAX,
            model::all_digits(digits@.take(i as int)),
        decreases digits.len() - i,
    {
        let c = digits[i];
        if !(c >= '0' && c <= '9') {
            assert(!model::is_digit(digits@[i as int]));
            return None;
        }
        let d: u32 = c as u32 - '0' as u32;
        acc = acc * 10 + d;
        proof {
            assert(digits@.take(i + 1).drop_last() =~= digits@.take(i as int));
            assert(digits@.take(i + 1).last() == c);
            assert forall|k: int| 0 <= k < i + 1 implies model::is_digit(
                #[trigger] digits@.take(i + 1)[k],
            ) by {
                if k < i {
                    assert(digits@.take(i as int)[k] == digits@.take(i + 1)[k]);
                }
            }
        }
        if acc > 65535 {
            proof {
                lemma_decimal_value_grows(digits@, i + 1);
            }
            return None;
        }
        i += 1;
    }
    proof {
        assert(digits@.take(digits@.len() as int) =~= digits@);
    }
    Some(acc as u16)
}

} // verus!
