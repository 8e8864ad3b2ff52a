use console_prompt::{Action, Command, Context, Ending, Event, Session};
use std::cell::RefCell;
use std::collections::VecDeque;
use std::rc::Rc;

type Handler = Box<dyn Fn(&[String], &mut Context) -> Result<String, String>>;

/// A terminal that plays back lines and keeps what was shown.
struct Terminal {
    lines: VecDeque<String>,
    shown: Vec<String>,
}

type Shared = Rc<RefCell<Terminal>>;

fn terminal(lines: &[&str]) -> Shared {
    Rc::new(RefCell::new(Terminal {
        lines: lines.iter().map(|line| line.to_string()).collect(),
        shown: Vec::new(),
    }))
}

/// One loop on the shared terminal: it ends at `exit` or when the lines run
/// out.
fn command_loop(commands: &Vec<Command<Handler>>, context: &mut Context, shared: &Shared) -> Ending<String> {
    let mut session = Session::new(commands);
    let mut action = session.pending();
    loop {
        let step = match action {
            Action::SetupScreen => session.step(Event::Screen(Ok(()))),
            Action::ReadLine(_) => {
                let line = shared.borrow_mut().lines.pop_front();
                match line {
                    Some(line) => session.step(Event::Line(line)),
                    None => session.step(Event::InputFailed(String::from("eof"))),
                }
            },
            Action::Invoke(_) => session.run_handler(context),
            Action::Render(text) => {
                shared.borrow_mut().shown.push(text);
                session.step(Event::Rendered(Ok(())))
            },
            Action::Leave(ending) => return ending,
        };
        action = step.action;
    }
}

fn hello() -> Handler {
    Box::new(|_args, context| match context.get::<String>() {
        Some(name) => Ok(format!("You said hello to {} I guess", name)),
        None => Ok(String::from("you are not in a conversation with a person")),
    })
}

fn change() -> Handler {
    Box::new(|args, context| {
        if context.is_empty() {
            return Ok(String::from("you are not in a conversation with a person"));
        }
        if let Some(name) = context.get_mut::<String>() {
            *name = args[0].clone();
        }
        match context.get::<String>() {
            Some(name) => Ok(format!("You changed their name to {}", name)),
            None => Ok(String::from("You could not get a name to change")),
        }
    })
}

/// Enters a conversation: a nested loop with its own table and a fresh
/// context that holds the name.
fn converse(shared: Shared) -> Handler {
    Box::new(move |args, _context| {
        if args.is_empty() {
            return Ok(String::from("no name provided"));
        }
        let commands: Vec<Command<Handler>> = vec![
            Command { command: "hello", func: hello(), help_output: "hello - say hello" },
            Command {
                command: "change",
                func: change(),
                help_output: "change <name> - change the name of the person with whom you're speaking",
            },
        ];
        let mut name = Context::new();
        name.set::<String>(args[0].clone());
        match command_loop(&commands, &mut name, &shared) {
            Ending::Success => Ok(String::new()),
            other => Err(format!("{:?}", other)),
        }
    })
}

fn top_level(shared: &Shared) -> Vec<Command<'static, Handler>> {
    vec![
        Command {
            command: "converse",
            func: converse(shared.clone()),
            help_output: "converse <name> - interact with a person",
        },
        Command { command: "hello", func: hello(), help_output: "hello - say hello" },
    ]
}

#[test]
fn nested_loop_sees_its_own_context_change() {
    let shared = terminal(&["converse Bob", "change Carol", "hello", "exit", "exit"]);
    let commands = top_level(&shared);
    let mut context = Context::new();
    let ending = command_loop(&commands, &mut context, &shared);
    assert_eq!(ending, Ending::Success);
    assert_eq!(
        shared.borrow().shown,
        vec![
            String::from("You changed their name to Carol"),
            String::from("You said hello to Carol I guess"),
            String::new(),
        ]
    );
    assert!(shared.borrow().lines.is_empty());
}

#[test]
fn nested_context_does_not_reach_the_outer_loop() {
    let shared = terminal(&["hello", "converse Bob", "hello", "exit", "hello", "exit"]);
    let commands = top_level(&shared);
    let mut context = Context::new();
    let ending = command_loop(&commands, &mut context, &shared);
    assert_eq!(ending, Ending::Success);
    assert_eq!(
        shared.borrow().shown,
        vec![
            String::from("you are not in a conversation with a person"),
            String::from("You said hello to Bob I guess"),
            String::new(),
            String::from("you are not in a conversation with a person"),
        ]
    );
    assert!(context.is_empty());
}

#[test]
fn nested_loop_has_its_own_table() {
    let shared = terminal(&["change Zed", "converse Bob", "converse Eve", "help", "exit", "exit"]);
    let commands = top_level(&shared);
    let mut context = Context::new();
    command_loop(&commands, &mut context, &shared);
    assert_eq!(
        shared.borrow().shown,
        vec![
            String::from(
                "---help output------------\nhello - say hello\nchange <name> - change the name of the person with whom you're speaking\nexit - exit the current prompt"
            ),
            String::new(),
        ]
    );
}

#[test]
fn converse_without_a_name_stays_in_the_outer_loop() {
    let shared = terminal(&["converse", "exit"]);
    let commands = top_level(&shared);
    let mut context = Context::new();
    let ending = command_loop(&commands, &mut context, &shared);
    assert_eq!(ending, Ending::Success);
    assert_eq!(shared.borrow().shown, vec![String::from("no name provided")]);
}

#[test]
fn a_nested_loop_that_runs_out_of_input_fails_only_its_handler() {
    let shared = terminal(&["converse Bob", "hello"]);
    let commands = top_level(&shared);
    let mut context = Context::new();
    let mut session = Session::new(&commands);
    session.step(Event::Screen(Ok(())));
    session.step(Event::Screen(Ok(())));
    let line = shared.borrow_mut().lines.pop_front().unwrap();
    assert_eq!(session.step(Event::Line(line)).action, Action::Invoke(0));
    let after = session.run_handler(&mut context);
    assert_eq!(after.action, Action::SetupScreen);
    assert!(after.note.is_some());
    assert_eq!(shared.borrow().shown, vec![String::from("You said hello to Bob I guess")]);
}
