use console_prompt::{parse_line, Request};

fn words(list: &[&str]) -> Vec<String> {
    list.iter().map(|w| w.to_string()).collect()
}

fn run(name: &str, args: &[&str]) -> Request<String, Vec<String>> {
    Request::Run { name: name.to_string(), args: words(args) }
}

#[test]
fn empty_line_asks_for_nothing() {
    assert_eq!(parse_line(""), Request::Skip);
}

#[test]
fn help_and_question_mark_ask_for_help() {
    assert_eq!(parse_line("help"), Request::Help);
    assert_eq!(parse_line("?"), Request::Help);
    assert_eq!(parse_line("help me please"), Request::Help);
    assert_eq!(parse_line("? x"), Request::Help);
}

#[test]
fn exit_asks_to_leave() {
    assert_eq!(parse_line("exit"), Request::Exit);
    assert_eq!(parse_line("exit now"), Request::Exit);
}

#[test]
fn built_in_words_must_stand_alone_as_first_word() {
    assert_eq!(parse_line("helper"), run("helper", &[]));
    assert_eq!(parse_line("exits"), run("exits", &[]));
    assert_eq!(parse_line("Help"), run("Help", &[]));
    assert_eq!(parse_line(" help"), run("", &["help"]));
    assert_eq!(parse_line("say exit"), run("say", &["exit"]));
}

#[test]
fn first_word_is_the_name_and_the_rest_are_arguments() {
    assert_eq!(parse_line("hello"), run("hello", &[]));
    assert_eq!(parse_line("change Carol"), run("change", &["Carol"]));
    assert_eq!(parse_line("converse Ada Lovelace"), run("converse", &["Ada", "Lovelace"]));
}

#[test]
fn repeated_spaces_give_empty_arguments() {
    assert_eq!(parse_line("say  hi"), run("say", &["", "hi"]));
    assert_eq!(parse_line("say "), run("say", &[""]));
}

#[test]
fn line_of_spaces_names_the_empty_command() {
    assert_eq!(parse_line(" "), run("", &[""]));
    assert_eq!(parse_line("   "), run("", &["", "", ""]));
}

#[test]
fn tabs_do_not_separate_words() {
    assert_eq!(parse_line("\t"), run("\t", &[]));
    assert_eq!(parse_line("say\thi there"), run("say\thi", &["there"]));
}
