use wotto::irc::parsing::{command, command_name, host, identifier, nickname, user, user_prefix};
use wotto::irc::parsing::{BotCommand, CommandName};

fn expect_err(cmd: &str) {
    let result = command(cmd);
    assert!(matches!(command(cmd), Err(_)), "{result:?}");
}

fn expect_plain(cmd: &str, x: &str, expected_args: &str) {
    let result = command(cmd);
    match result {
        Ok(BotCommand {
            ref args,
            command: CommandName::Plain(ref command),
        }) if command == x && args == expected_args => {}
        _ => panic!("{result:?}"),
    }
}

fn expect_namespaced(cmd: &str, ns: &str, x: &str, expected_args: &str) {
    let result = command(cmd);
    match result {
        Ok(BotCommand {
            ref args,
            command: CommandName::Namespaced(ref namespace, ref command),
        }) if namespace == ns && command == x && args == expected_args => {}
        _ => panic!("{result:?}"),
    }
}

#[test]
fn parse_command() {
    expect_err("");
    expect_err("hello");
    expect_err("!");
    expect_plain("!abc", "abc", "");
    expect_plain("! abc", "abc", "");
    expect_plain("!  abc", "abc", "");
    expect_plain(" !abc", "abc", "");
    expect_plain(" ! abc", "abc", "");
    expect_plain("!abc hello world", "abc", "hello world");
    expect_plain("!abc   hello world", "abc", "hello world");
    expect_plain(" !abc   hello world", "abc", "hello world");
    expect_namespaced("!abc.cde", "abc", "cde", "");
    expect_namespaced("! abc.cde", "abc", "cde", "");
    expect_namespaced("!  abc.cde", "abc", "cde", "");
    expect_namespaced(" !abc.cde", "abc", "cde", "");
    expect_namespaced(" ! abc.cde", "abc", "cde", "");
    expect_namespaced("!abc.cde hello world", "abc", "cde", "hello world");
    expect_namespaced("!abc.cde   hello world", "abc", "cde", "hello world");
    expect_namespaced(" !abc.cde   hello world", "abc", "cde", "hello world");
}

#[test]
fn parse_nickname() {
    assert_eq!(nickname("hello"), Ok(("", "hello")));
    assert_eq!(nickname("hello "), Ok((" ", "hello")));
    assert_eq!(nickname("hello!"), Ok(("!", "hello")));
    assert!(matches!(nickname(""), Err(_)));
}

#[test]
fn parse_user() {
    assert_eq!(user("hello"), Ok(("", "hello")));
    assert_eq!(user("hello "), Ok((" ", "hello")));
    assert_eq!(user("hello@"), Ok(("@", "hello")));
    assert!(matches!(user(""), Err(_)));
}

#[test]
fn parse_host() {
    assert_eq!(host("hello"), Ok(("", "hello")));
    assert_eq!(host("example.com"), Ok(("", "example.com")));
    assert_eq!(host("0:0:0:0:0:0:0:0"), Ok(("", "0:0:0:0:0:0:0:0")));
}

#[test]
fn parse_user_prefix() {
    assert_eq!(
        user_prefix("abc!def@example.com"),
        Ok(("abc", "def", "example.com"))
    );
}

#[test]
fn identifier_reads_letters_digits_and_underscores() {
    assert_eq!(identifier("_a1 rest"), Ok((" rest", "_a1")));
    assert_eq!(identifier("abc.def"), Ok((".def", "abc")));
    assert!(identifier("1abc").is_err());
    assert!(identifier("").is_err());
    assert_eq!(identifier("x\u{e9}"), Ok(("\u{e9}", "x")));
}

#[test]
fn command_with_dot_but_no_second_identifier_is_plain() {
    expect_plain("!abc. x", "abc", ". x");
    expect_plain("!abc.1", "abc", ".1");
    expect_plain("!abc-def", "abc", "-def");
    expect_plain("!\tabc\t x", "abc", "x");
    expect_err("! .abc");
    expect_err("x !abc");
}

#[test]
fn nickname_takes_special_characters_after_the_first() {
    assert_eq!(nickname("a[b]{c}|^_`\\ "), Ok((" ", "a[b]{c}|^_`\\")));
    assert_eq!(nickname("9lives"), Ok(("", "9lives")));
    assert_eq!(nickname("a-b"), Ok(("-b", "a")));
    assert!(nickname("_a").is_err());
    assert!(nickname("[a").is_err());
}

#[test]
fn user_stops_at_at_sign_and_at_what_is_not_printable() {
    assert_eq!(user("a!b~c@d"), Ok(("@d", "a!b~c")));
    assert_eq!(user("ab\tcd"), Ok(("\tcd", "ab")));
    assert_eq!(user("ab\u{e9}"), Ok(("\u{e9}", "ab")));
    assert!(user("@a").is_err());
    assert!(user(" a").is_err());
}

#[test]
fn host_takes_names_and_addresses_whole() {
    assert_eq!(host("a-b.c-"), Ok(("", "a-b.c-")));
    assert_eq!(host("1.2.3.4"), Ok(("", "1.2.3.4")));
    assert_eq!(host("999.2.3.4"), Ok(("", "999.2.3.4")));
    assert_eq!(host("fe80:0:0:0:0:0:0:1"), Ok(("", "fe80:0:0:0:0:0:0:1")));
    assert_eq!(host("0:0:0:0:0:0127.0.0.1"), Ok(("", "0:0:0:0:0:0127.0.0.1")));
    assert_eq!(host("0:0:0:0:0:ffff127.0.0.1"), Ok(("", "0:0:0:0:0:ffff127.0.0.1")));
    assert!(host("").is_err());
    assert!(host("a..b").is_err());
    assert!(host("a.b.").is_err());
    assert!(host("-a").is_err());
    assert!(host("a b").is_err());
    assert!(host("0:0:0:0:0:0:0").is_err());
    assert!(host("0:0:0:0:0:0:0:0:0").is_err());
    assert!(host("0:0:0:0:0:0256.0.0.1").is_err());
    assert!(host("0:0:0:0:0:FFFF127.0.0.1").is_err());
    assert!(host("0:0:0:0:0:0127.0.0").is_err());
    assert!(host("g:0:0:0:0:0:0:0").is_err());
}

#[test]
fn user_prefix_needs_all_three_parts() {
    assert_eq!(
        user_prefix("n!u!v@0:0:0:0:0:0:0:1"),
        Ok(("n", "u!v", "0:0:0:0:0:0:0:1"))
    );
    assert!(user_prefix("abc").is_err());
    assert!(user_prefix("abc!def").is_err());
    assert!(user_prefix("abc!@example.com").is_err());
    assert!(user_prefix("!def@example.com").is_err());
    assert!(user_prefix("abc!def@").is_err());
    assert!(user_prefix("abc!def@exa mple").is_err());
    assert!(user_prefix("abc def@example.com").is_err());
}

#[test]
fn command_names_are_plain_or_in_a_namespace() {
    assert_eq!(
        command_name("abc rest"),
        Ok((" rest", CommandName::Plain("abc".to_string())))
    );
    assert_eq!(
        command_name("abc.cde.fgh"),
        Ok((
            ".fgh",
            CommandName::Namespaced("abc".to_string(), "cde".to_string())
        ))
    );
    assert_eq!(
        command_name("abc."),
        Ok((".", CommandName::Plain("abc".to_string())))
    );
    assert!(command_name(".abc").is_err());
    assert!(command_name("").is_err());
}
