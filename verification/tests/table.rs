use console_prompt::{build_help_str, lookup, Command};

type Handler = fn(&[String]) -> String;

fn first(_args: &[String]) -> String {
    String::from("first")
}

fn second(_args: &[String]) -> String {
    String::from("second")
}

fn table() -> Vec<Command<'static, Handler>> {
    vec![
        Command { command: "hello", func: first, help_output: "hello - say hello" },
        Command { command: "change", func: second, help_output: "change <name> - change the name" },
        Command { command: "hello", func: second, help_output: "hello - say hello again" },
    ]
}

#[test]
fn help_of_empty_table_is_header_and_exit_line() {
    let commands: Vec<Command<'static, Handler>> = Vec::new();
    assert_eq!(
        build_help_str(&commands),
        "---help output------------\nexit - exit the current prompt"
    );
}

#[test]
fn help_has_one_line_per_entry_in_table_order() {
    assert_eq!(
        build_help_str(&table()),
        "---help output------------\nhello - say hello\nchange <name> - change the name\nhello - say hello again\nexit - exit the current prompt"
    );
}

#[test]
fn help_lines_are_header_entries_and_exit() {
    let help = build_help_str(&table());
    let lines: Vec<&str> = help.split('\n').collect();
    assert_eq!(lines.len(), 3 + 2);
    assert_eq!(lines[0], "---help output------------");
    assert_eq!(lines[1], "hello - say hello");
    assert_eq!(lines[2], "change <name> - change the name");
    assert_eq!(lines[3], "hello - say hello again");
    assert_eq!(lines[4], "exit - exit the current prompt");
}

#[test]
fn help_does_not_describe_help_itself() {
    let help = build_help_str(&table());
    assert!(!help.contains("help -"));
    assert!(!help.contains("? -"));
}

#[test]
fn lookup_finds_every_entry_of_the_name_in_table_order() {
    assert_eq!(lookup(&table(), "hello"), vec![0, 2]);
    assert_eq!(lookup(&table(), "change"), vec![1]);
}

#[test]
fn lookup_of_unknown_name_is_empty() {
    assert_eq!(lookup(&table(), "nothing"), Vec::<usize>::new());
    assert_eq!(lookup(&table(), ""), Vec::<usize>::new());
    assert_eq!(lookup(&table(), "hell"), Vec::<usize>::new());
    assert_eq!(lookup(&table(), "hello "), Vec::<usize>::new());
}

#[test]
fn lookup_in_empty_table_is_empty() {
    let commands: Vec<Command<'static, Handler>> = Vec::new();
    assert_eq!(lookup(&commands, "hello"), Vec::<usize>::new());
}

#[test]
fn lookup_leaves_the_handlers_in_place() {
    let commands = table();
    let found = lookup(&commands, "hello");
    let outputs: Vec<String> = found.iter().map(|&i| (commands[i].func)(&[])).collect();
    assert_eq!(outputs, vec![String::from("first"), String::from("second")]);
}
