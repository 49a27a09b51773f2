use russh_config::{first_resolved, Config, Error, Transport};

fn profile(user: &str, host_name: &str, port: u16) -> Config {
    let mut config = Config::with_user(user, host_name);
    config.port = port;
    config
}

#[test]
fn tokens_are_replaced_from_the_profile() {
    let config = profile("bob", "x.example", 2222);
    assert_eq!(config.expand_tokens("%u@%h:%p"), "bob@x.example:2222");
    assert_eq!(config.expand_tokens("100%%"), "100%");
    assert_eq!(config.expand_tokens("%H"), "x.example");
    assert_eq!(config.expand_tokens(""), "");
    assert_eq!(config.expand_tokens("plain text"), "plain text");
    assert_eq!(config.expand_tokens("%"), "%");
    assert_eq!(config.expand_tokens("%x %U %P"), "%x %U %P");
    assert_eq!(config.expand_tokens("%u%u"), "bobbob");
}

#[test]
fn the_port_is_written_in_decimal() {
    assert_eq!(profile("u", "h", 22).expand_tokens("%p"), "22");
    assert_eq!(profile("u", "h", 0).expand_tokens("%p"), "0");
    assert_eq!(profile("u", "h", 65535).expand_tokens("[%p]"), "[65535]");
    assert_eq!(profile("u", "h", 8).expand_tokens("%p%p"), "88");
}

#[test]
fn the_passes_follow_one_another() {
    assert_eq!(profile("%h", "example", 22).expand_tokens("%u"), "example");
    assert_eq!(profile("bob", "%p", 22).expand_tokens("%h"), "22");
    assert_eq!(profile("bob", "%u", 22).expand_tokens("%h"), "%u");
    assert_eq!(profile("bob", "host", 22).expand_tokens("%%u"), "%bob");
    assert_eq!(profile("bob", "host", 22).expand_tokens("%%%%"), "%%");
    assert_eq!(profile("%", "%", 22).expand_tokens("%u%h"), "%");
}

#[test]
fn expansion_agrees_with_replacing_one_token_after_the_other() {
    let templates = ["%u@%h:%p", "100%%", "%%h", "%%%u", "%h%H%p%u%%", "nc %h %p", "%%%%%", ""];
    let users = ["bob", "%h", "%%", "%p", ""];
    let hosts = ["x.example", "%p", "%u", "%"];
    for template in templates {
        for user in users {
            for host in hosts {
                for port in [0u16, 22, 2222, 65535] {
                    let expected = template
                        .replace("%u", user)
                        .replace("%h", host)
                        .replace("%H", host)
                        .replace("%p", &format!("{}", port))
                        .replace("%%", "%");
                    assert_eq!(profile(user, host, port).expand_tokens(template), expected);
                }
            }
        }
    }
}

#[test]
fn a_proxy_command_is_expanded_and_cut_at_spaces() {
    let mut config = profile("bob", "x.example", 2222);
    config.proxy_command = Some(String::from("ssh -W %h:%p %u@jump"));
    match config.transport() {
        Transport::Proxy { command, args } => {
            assert_eq!(command, "ssh");
            assert_eq!(args, vec!["-W", "x.example:2222", "bob@jump"]);
        }
        other => panic!("{:?}", other),
    }
}

#[test]
fn a_proxy_command_without_arguments() {
    let mut config = profile("bob", "x.example", 22);
    config.proxy_command = Some(String::from("connect"));
    match config.transport() {
        Transport::Proxy { command, args } => {
            assert_eq!(command, "connect");
            assert!(args.is_empty());
        }
        other => panic!("{:?}", other),
    }
}

#[test]
fn an_empty_proxy_command_is_handed_on() {
    let mut config = profile("bob", "x.example", 22);
    config.proxy_command = Some(String::new());
    match config.transport() {
        Transport::Proxy { command, args } => {
            assert_eq!(command, "");
            assert!(args.is_empty());
        }
        other => panic!("{:?}", other),
    }
    config.proxy_command = Some(String::from(" nc  %h"));
    match config.transport() {
        Transport::Proxy { command, args } => {
            assert_eq!(command, "");
            assert_eq!(args, vec!["nc", "", "x.example"]);
        }
        other => panic!("{:?}", other),
    }
}

#[test]
fn without_a_proxy_command_the_host_is_reached_directly() {
    let config = profile("bob", "x.example", 2222);
    match config.transport() {
        Transport::Direct { host_name, port } => {
            assert_eq!(host_name, "x.example");
            assert_eq!(port, 2222);
        }
        other => panic!("{:?}", other),
    }
}

#[test]
fn the_first_address_is_taken() {
    assert!(matches!(first_resolved(vec![7, 8, 9]), Ok(7)));
    assert!(matches!(first_resolved(vec!["only"]), Ok("only")));
    assert!(matches!(first_resolved(Vec::<u8>::new()), Err(Error::NotResolvable)));
}

#[test]
fn errors_describe_themselves() {
    assert_eq!(Error::HostNotFound.message(), "Host not found");
    assert_eq!(Error::NoHome.message(), "No home directory");
    assert_eq!(Error::NotResolvable.message(), "Cannot resolve the address");
    let cause = std::io::Error::new(std::io::ErrorKind::NotFound, "no such file");
    assert_eq!(Error::Io(cause).message(), "no such file");
}
