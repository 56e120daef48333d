use wotto::repl::parse_command;
use wotto::service::Command;

fn parse(line: &str) -> Option<Command> {
    parse_command(line.to_string())
}

#[test]
fn load_takes_one_name() {
    assert_eq!(parse("load math"), Some(Command::LoadModule("math".to_string())));
    assert_eq!(
        parse("  load \t user/math \n"),
        Some(Command::LoadModule("user/math".to_string()))
    );
    assert_eq!(parse("load"), None);
    assert_eq!(parse("load a b"), None);
    assert_eq!(parse("Load a"), None);
    assert_eq!(parse("loadx a"), None);
}

#[test]
fn run_takes_a_module_an_entry_point_and_arguments() {
    assert_eq!(
        parse("run math add"),
        Some(Command::RunModule {
            module: "math".to_string(),
            entry_point: "add".to_string(),
            args: String::new(),
        })
    );
    assert_eq!(
        parse("run math add  1 \t 2\u{a0}3 "),
        Some(Command::RunModule {
            module: "math".to_string(),
            entry_point: "add".to_string(),
            args: "1 2 3".to_string(),
        })
    );
    assert_eq!(parse("run math"), None);
    assert_eq!(parse("run"), None);
}

#[test]
fn other_lines_are_no_commands() {
    assert_eq!(parse(""), None);
    assert_eq!(parse("   "), None);
    assert_eq!(parse("quit"), None);
    assert_eq!(parse("unload math"), None);
}

#[test]
fn lines_are_split_as_the_standard_library_splits_them() {
    for line in ["run a b c  d", "run\u{2003}a\u{3000}b \u{85}c", "run a b \u{200b}c"] {
        let words: Vec<&str> = line.split_whitespace().collect();
        let expected = Command::RunModule {
            module: words[1].to_string(),
            entry_point: words[2].to_string(),
            args: words[3..].join(" "),
        };
        assert_eq!(parse(line), Some(expected), "{line:?}");
    }
}
