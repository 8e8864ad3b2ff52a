//! The dispatch loop as a state machine. A session never touches a terminal:
//! it is told what happened (an [`Event`]) and answers with what to do next (a
//! [`Step`]). Whoever drives it performs the action and reports the outcome.

use vstd::prelude::*;
use crate::request::{interpret, parse_line, Request};
use crate::context::Context;
use crate::table::{
    as_ints, build_help_str, entries, help_text, lemma_matching, lookup, matching, Command, Entry,
};
use crate::text::{copy_texts, texts};

verus! {

/// Why a loop ended with a failure. `S` is the type of a text: `String` in
/// running code, a sequence of characters in contracts.
#[derive(Debug, PartialEq, Eq)]
pub enum LoopError<S> {
    /// The screen could not be set up when the loop started.
    Screen(S),
    /// The input source failed.
    Input(S),
    /// The renderer failed.
    Render(S),
}

/// How a loop ended.
#[derive(Debug, PartialEq, Eq)]
pub enum Ending<S> {
    /// The user typed `exit`.
    Success,
    /// A failure that the caller of the loop gets to see.
    Failed(LoopError<S>),
    /// The user interrupted the prompt: the whole process is to end at once.
    Terminated,
}

/// What the driver reports to the session.
#[derive(Debug, PartialEq, Eq)]
pub enum Event<S> {
    /// The screen setup ran, with this outcome.
    Screen(Result<(), S>),
    /// A line was read.
    Line(S),
    /// The user interrupted the read.
    Interrupted,
    /// The input source failed for another reason.
    InputFailed(S),
    /// A handler returned its output or its error.
    Handled(Result<S, S>),
    /// The renderer ran, with this outcome.
    Rendered(Result<(), S>),
}

/// A line for the user that needs no answer.
#[derive(Debug, PartialEq, Eq)]
pub enum Note<S> {
    /// Goes to the ordinary output.
    Info(S),
    /// Goes to the diagnostic stream.
    Diagnostic(S),
}

/// What the driver is to do next. Each action but `Leave` is answered with
/// one event.
#[derive(Debug, PartialEq, Eq)]
pub enum Action<S> {
    /// Put the prompt on the last row; answer with `Event::Screen`.
    SetupScreen,
    /// Ask for a line with this prompt; answer with `Event::Line`,
    /// `Event::Interrupted` or `Event::InputFailed`.
    ReadLine(S),
    /// Run the handler of the entry at this position of the table with the
    /// session's arguments; answer with `Event::Handled`.
    Invoke(usize),
    /// Hand this text to the renderer; answer with `Event::Rendered`.
    Render(S),
    /// Stop: the loop is over.
    Leave(Ending<S>),
}

/// The session's answer to an event: a note to print first, if any, and the
/// action to perform.
#[derive(Debug, PartialEq, Eq)]
pub struct Step<S> {
    pub note: Option<Note<S>>,
    pub action: Action<S>,
}

impl View for LoopError<String> {
    type V = LoopError<Seq<char>>;

    open spec fn view(&self) -> LoopError<Seq<char>> {
        match self {
            LoopError::Screen(e) => LoopError::Screen(e@),
            LoopError::Input(e) => LoopError::Input(e@),
            LoopError::Render(e) => LoopError::Render(e@),
        }
    }
}

impl View for Ending<String> {
    type V = Ending<Seq<char>>;

    open spec fn view(&self) -> Ending<Seq<char>> {
        match self {
            Ending::Success => Ending::Success,
            Ending::Failed(e) => Ending::Failed(e@),
            Ending::Terminated => Ending::Terminated,
        }
    }
}

impl View for Event<String> {
    type V = Event<Seq<char>>;

    open spec fn view(&self) -> Event<Seq<char>> {
        match self {
            Event::Screen(Ok(_)) => Event::Screen(Ok(())),
            Event::Screen(Err(e)) => Event::Screen(Err(e@)),
            Event::Line(line) => Event::Line(line@),
            Event::Interrupted => Event::Interrupted,
            Event::InputFailed(e) => Event::InputFailed(e@),
            Event::Handled(Ok(text)) => Event::Handled(Ok(text@)),
            Event::Handled(Err(e)) => Event::Handled(Err(e@)),
            Event::Rendered(Ok(_)) => Event::Rendered(Ok(())),
            Event::Rendered(Err(e)) => Event::Rendered(Err(e@)),
        }
    }
}

impl View for Note<String> {
    type V = Note<Seq<char>>;

    open spec fn view(&self) -> Note<Seq<char>> {
        match self {
            Note::Info(text) => Note::Info(text@),
            Note::Diagnostic(text) => Note::Diagnostic(text@),
        }
    }
}

impl View for Action<String> {
    type V = Action<Seq<char>>;

    open spec fn view(&self) -> Action<Seq<char>> {
        match self {
            Action::SetupScreen => Action::SetupScreen,
            Action::ReadLine(prompt) => Action::ReadLine(prompt@),
            Action::Invoke(entry) => Action::Invoke(*entry),
            Action::Render(text) => Action::Render(text@),
            Action::Leave(ending) => Action::Leave(ending@),
        }
    }
}

impl View for Step<String> {
    type V = Step<Seq<char>>;

    open spec fn view(&self) -> Step<Seq<char>> {
        Step {
            note: match self.note {
                Some(note) => Some(note@),
                None => None,
            },
            action: self.action@,
        }
    }
}

/// Where a loop stands: which answer it is waiting for.
pub ghost enum Stage {
    /// The first screen setup is under way.
    Starting,
    /// The screen setup at the top of a round is under way.
    Refreshing,
    /// Idle: a line is awaited.
    Idle,
    /// The help text is with the renderer.
    ShowingHelp,
    /// Processing: the handler of the entry at position `pos` of those
    /// called `name` is running.
    Processing { name: Seq<char>, args: Seq<Seq<char>>, pos: nat },
    /// The output `text` of that handler is with the renderer.
    Emitting { name: Seq<char>, args: Seq<Seq<char>>, pos: nat, text: Seq<char> },
    /// The loop is over.
    Exited(Ending<Seq<char>>),
}

/// The hint that is printed once, when a loop starts.
pub open spec fn usage_hint() -> Seq<char> {
    "info: type 'help' to for a list of commands"@
}

/// The prompt that stands before the user's input.
pub open spec fn prompt() -> Seq<char> {
    ">> "@
}

/// The diagnostic line for a screen setup that failed with `error`.
pub open spec fn screen_warning(error: Seq<char>) -> Seq<char> {
    "error during screen setup: "@ + error
}

/// The diagnostic line for an input source that failed with `error`.
pub open spec fn input_warning(error: Seq<char>) -> Seq<char> {
    "error during readline: "@ + error
}

/// The diagnostic line for a handler of the command `name` that failed with
/// `error`.
pub open spec fn handler_warning(name: Seq<char>, error: Seq<char>) -> Seq<char> {
    "error executing '"@ + name + "': "@ + error
}

/// A step without a note.
pub open spec fn quiet(action: Action<Seq<char>>) -> Step<Seq<char>> {
    Step { note: None, action }
}

/// True when a stage makes sense for a table: a running handler is one of
/// those that the command's name selects.
pub open spec fn stage_fits(table: Seq<Entry>, stage: Stage) -> bool {
    match stage {
        Stage::Processing { name, args, pos } => pos < matching(table, name).len(),
        Stage::Emitting { name, args, pos, text } => pos < matching(table, name).len(),
        _ => true,
    }
}

/// The action that a stage is waiting on.
pub open spec fn pending(table: Seq<Entry>, stage: Stage) -> Action<Seq<char>> {
    match stage {
        Stage::Starting => Action::SetupScreen,
        Stage::Refreshing => Action::SetupScreen,
        Stage::Idle => Action::ReadLine(prompt()),
        Stage::ShowingHelp => Action::Render(help_text(table)),
        Stage::Processing { name, args, pos } => Action::Invoke(
            matching(table, name)[pos as int] as usize,
        ),
        Stage::Emitting { name, args, pos, text } => Action::Render(text),
        Stage::Exited(ending) => Action::Leave(ending),
    }
}

/// Back to the top of the loop: the screen is set up again before the next
/// line is read.
pub open spec fn next_round(note: Option<Note<Seq<char>>>) -> (Stage, Step<Seq<char>>) {
    (Stage::Refreshing, Step { note, action: Action::SetupScreen })
}

/// The end of the loop.
pub open spec fn leave(note: Option<Note<Seq<char>>>, ending: Ending<Seq<char>>) -> (
    Stage,
    Step<Seq<char>>,
) {
    (Stage::Exited(ending), Step { note, action: Action::Leave(ending) })
}

/// Runs the handler at position `pos` of those called `name`, or goes back
/// to the top of the loop when there is none left.
pub open spec fn proceed(
    table: Seq<Entry>,
    name: Seq<char>,
    args: Seq<Seq<char>>,
    pos: nat,
    note: Option<Note<Seq<char>>>,
) -> (Stage, Step<Seq<char>>) {
    if pos < matching(table, name).len() {
        (
            Stage::Processing { name, args, pos },
            Step { note, action: Action::Invoke(matching(table, name)[pos as int] as usize) },
        )
    } else {
        next_round(note)
    }
}

/// The answer to a line that was read.
pub open spec fn on_line(table: Seq<Entry>, line: Seq<char>) -> (Stage, Step<Seq<char>>) {
    match interpret(line) {
        Request::Skip => next_round(None),
        Request::Help => (Stage::ShowingHelp, quiet(Action::Render(help_text(table)))),
        Request::Exit => leave(None, Ending::Success),
        Request::Run { name, args } => proceed(table, name, args, 0, None),
    }
}

/// The rule of the loop: the stage that follows `stage` when `event` is
/// reported, and the step that the driver is handed. An event that does not
/// answer what the stage is waiting on changes nothing: the pending action
/// is handed out again.
pub open spec fn transition(table: Seq<Entry>, stage: Stage, event: Event<Seq<char>>) -> (
    Stage,
    Step<Seq<char>>,
) {
    match (stage, event) {
        (Stage::Starting, Event::Screen(Ok(_))) => next_round(Some(Note::Info(usage_hint()))),
        (Stage::Starting, Event::Screen(Err(e))) => leave(
            None,
            Ending::Failed(LoopError::Screen(e)),
        ),
        (Stage::Refreshing, Event::Screen(Ok(_))) => (
            Stage::Idle,
            quiet(Action::ReadLine(prompt())),
        ),
        (Stage::Refreshing, Event::Screen(Err(e))) => (
            Stage::Idle,
            Step {
                note: Some(Note::Diagnostic(screen_warning(e))),
                action: Action::ReadLine(prompt()),
            },
        ),
        (Stage::Idle, Event::Line(line)) => on_line(table, line),
        (Stage::Idle, Event::Interrupted) => leave(None, Ending::Terminated),
        (Stage::Idle, Event::InputFailed(e)) => leave(
            Some(Note::Diagnostic(input_warning(e))),
            Ending::Failed(LoopError::Input(e)),
        ),
        (Stage::ShowingHelp, Event::Rendered(Ok(_))) => next_round(None),
        (Stage::ShowingHelp, Event::Rendered(Err(e))) => leave(
            None,
            Ending::Failed(LoopError::Render(e)),
        ),
        (Stage::Processing { name, args, pos }, Event::Handled(Ok(text))) => (
            Stage::Emitting { name, args, pos, text },
            quiet(Action::Render(text)),
        ),
        (Stage::Processing { name, args, pos }, Event::Handled(Err(e))) => proceed(
            table,
            name,
            args,
            pos + 1,
            Some(Note::Diagnostic(handler_warning(name, e))),
        ),
        (Stage::Emitting { name, args, pos, text }, Event::Rendered(Ok(_))) => proceed(
            table,
            name,
            args,
            pos + 1,
            None,
        ),
        (Stage::Emitting { name, args, pos, text }, Event::Rendered(Err(e))) => leave(
            None,
            Ending::Failed(LoopError::Render(e)),
        ),
        _ => (stage, quiet(pending(table, stage))),
    }
}

/// The data behind a stage.
enum Phase {
    Starting,
    Refreshing,
    Idle,
    ShowingHelp,
    Processing { name: String, args: Vec<String>, queue: Vec<usize>, pos: usize },
    Emitting { name: String, args: Vec<String>, queue: Vec<usize>, pos: usize, text: String },
    Exited(Ending<String>),
}

impl Phase {
    spec fn stage(self) -> Stage {
        match self {
            Phase::Starting => Stage::Starting,
            Phase::Refreshing => Stage::Refreshing,
            Phase::Idle => Stage::Idle,
            Phase::ShowingHelp => Stage::ShowingHelp,
            Phase::Processing { name, args, queue, pos } => Stage::Processing {
                name: name@,
                args: texts(args@),
                pos: pos as nat,
            },
            Phase::Emitting { name, args, queue, pos, text } => Stage::Emitting {
                name: name@,
                args: texts(args@),
                pos: pos as nat,
                text: text@,
            },
            Phase::Exited(ending) => Stage::Exited(ending@),
        }
    }

    /// The queue of a running command is the list of entries that its name
    /// selects, and the position lies in it.
    spec fn fits(self, table: Seq<Entry>) -> bool {
        match self {
            Phase::Processing { name, args, queue, pos } => as_ints(queue@) == matching(
                table,
                name@,
            ) && pos < queue.len(),
            Phase::Emitting { name, args, queue, pos, text } => as_ints(queue@) == matching(
                table,
                name@,
            ) && pos < queue.len(),
            _ => true,
        }
    }
}

/// The handlers of a table's entries, in table order.
pub open spec fn handlers_of<F>(commands: Seq<Command<'_, F>>) -> Seq<F> {
    Seq::new(commands.len(), |i: int| commands[i].func)
}

/// One dispatch loop over a command table.
pub struct Session<'a, F> {
    commands: &'a Vec<Command<'a, F>>,
    help: String,
    phase: Phase,
}

fn copy_error(error: &LoopError<String>) -> (copy: LoopError<String>)
    ensures
        copy@ == error@,
{
    match error {
        LoopError::Screen(e) => LoopError::Screen(e.clone()),
        LoopError::Input(e) => LoopError::Input(e.clone()),
        LoopError::Render(e) => LoopError::Render(e.clone()),
    }
}

fn copy_ending(ending: &Ending<String>) -> (copy: Ending<String>)
    ensures
        copy@ == ending@,
{
    match ending {
        Ending::Success => Ending::Success,
        Ending::Failed(e) => Ending::Failed(copy_error(e)),
        Ending::Terminated => Ending::Terminated,
    }
}

fn join2(a: &str, b: &str) -> (joined: String)
    ensures
        joined@ == a@ + b@,
{
    let mut joined = a.to_owned();
    joined.append(b);
    joined
}

fn pending_of(help: &String, phase: &Phase, Ghost(table): Ghost<Seq<Entry>>) -> (action:
    Action<String>)
    requires
        help@ == help_text(table),
        phase.fits(table),
    ensures
        action@ == pending(table, phase.stage()),
{
    match phase {
        Phase::Starting => Action::SetupScreen,
        Phase::Refreshing => Action::SetupScreen,
        Phase::Idle => Action::ReadLine(">> ".to_owned()),
        Phase::ShowingHelp => Action::Render(help.clone()),
        Phase::Processing { name, args, queue, pos } => Action::Invoke(queue[*pos]),
        Phase::Emitting { name, args, queue, pos, text } => Action::Render(text.clone()),
        Phase::Exited(ending) => Action::Leave(copy_ending(ending)),
    }
}

fn round(note: Option<Note<String>>) -> (next: (Phase, Step<String>))
    ensures
        (next.0.stage(), next.1@) == next_round(
            match note {
                Some(n) => Some(n@),
                None => None,
            },
        ),
        next.0 is Refreshing,
{
    (Phase::Refreshing, Step { note, action: Action::SetupScreen })
}

fn end(note: Option<Note<String>>, ending: Ending<String>) -> (next: (Phase, Step<String>))
    ensures
        (next.0.stage(), next.1@) == leave(
            match note {
                Some(n) => Some(n@),
                None => None,
            },
            ending@,
        ),
        next.0 is Exited,
{
    let copy = copy_ending(&ending);
    (Phase::Exited(ending), Step { note, action: Action::Leave(copy) })
}

fn run_from(
    name: String,
    args: Vec<String>,
    queue: Vec<usize>,
    pos: usize,
    note: Option<Note<String>>,
    Ghost(table): Ghost<Seq<Entry>>,
) -> (next: (Phase, Step<String>))
    requires
        as_ints(queue@) == matching(table, name@),
        pos <= queue.len(),
    ensures
        next.0.fits(table),
        (next.0.stage(), next.1@) == proceed(
            table,
            name@,
            texts(args@),
            pos as nat,
            match note {
                Some(n) => Some(n@),
                None => None,
            },
        ),
{
    if pos < queue.len() {
        let entry = queue[pos];
        (Phase::Processing { name, args, queue, pos }, Step { note, action: Action::Invoke(entry) })
    } else {
        round(note)
    }
}

fn advance<F>(
    commands: &Vec<Command<'_, F>>,
    help: &String,
    phase: Phase,
    event: Event<String>,
) -> (next: (Phase, Step<String>))
    requires
        help@ == help_text(entries(commands@)),
        phase.fits(entries(commands@)),
    ensures
        next.0.fits(entries(commands@)),
        (next.0.stage(), next.1@) == transition(entries(commands@), phase.stage(), event@),
{
    let ghost table = entries(commands@);
    match phase {
        Phase::Starting => match event {
            Event::Screen(Ok(_)) => round(
                Some(Note::Info("info: type 'help' to for a list of commands".to_owned())),
            ),
            Event::Screen(Err(e)) => end(None, Ending::Failed(LoopError::Screen(e))),
            _ => (Phase::Starting, Step { note: None, action: Action::SetupScreen }),
        },
        Phase::Refreshing => match event {
            Event::Screen(Ok(_)) => (
                Phase::Idle,
                Step { note: None, action: Action::ReadLine(">> ".to_owned()) },
            ),
            Event::Screen(Err(e)) => (
                Phase::Idle,
                Step {
                    note: Some(
                        Note::Diagnostic(join2("error during screen setup: ", e.as_str())),
                    ),
                    action: Action::ReadLine(">> ".to_owned()),
                },
            ),
            _ => (Phase::Refreshing, Step { note: None, action: Action::SetupScreen }),
        },
        Phase::Idle => match event {
            Event::Line(line) => match parse_line(line.as_str()) {
                Request::Skip => round(None),
                Request::Help => (
                    Phase::ShowingHelp,
                    Step { note: None, action: Action::Render(help.clone()) },
                ),
                Request::Exit => end(None, Ending::Success),
                Request::Run { name, args } => {
                    let queue = lookup(commands, name.as_str());
                    run_from(name, args, queue, 0, None, Ghost(table))
                },
            },
            Event::Interrupted => end(None, Ending::Terminated),
            Event::InputFailed(e) => {
                let note = Note::Diagnostic(join2("error during readline: ", e.as_str()));
                end(Some(note), Ending::Failed(LoopError::Input(e)))
            },
            _ => (Phase::Idle, Step { note: None, action: Action::ReadLine(">> ".to_owned()) }),
        },
        Phase::ShowingHelp => match event {
            Event::Rendered(Ok(_)) => round(None),
            Event::Rendered(Err(e)) => end(None, Ending::Failed(LoopError::Render(e))),
            _ => (Phase::ShowingHelp, Step { note: None, action: Action::Render(help.clone()) }),
        },
        Phase::Processing { name, args, queue, pos } => match event {
            Event::Handled(Ok(text)) => {
                let shown = text.clone();
                (
                    Phase::Emitting { name, args, queue, pos, text },
                    Step { note: None, action: Action::Render(shown) },
                )
            },
            Event::Handled(Err(e)) => {
                let mut line = join2("error executing '", name.as_str());
                line.append("': ");
                line.append(e.as_str());
                run_from(name, args, queue, pos + 1, Some(Note::Diagnostic(line)), Ghost(table))
            },
            _ => {
                let entry = queue[pos];
                (
                    Phase::Processing { name, args, queue, pos },
                    Step { note: None, action: Action::Invoke(entry) },
                )
            },
        },
        Phase::Emitting { name, args, queue, pos, text } => match event {
            Event::Rendered(Ok(_)) => run_from(name, args, queue, pos + 1, None, Ghost(table)),
            Event::Rendered(Err(e)) => end(None, Ending::Failed(LoopError::Render(e))),
            _ => {
                let shown = text.clone();
                (
                    Phase::Emitting { name, args, queue, pos, text },
                    Step { note: None, action: Action::Render(shown) },
                )
            },
        },
        Phase::Exited(ending) => end(None, ending),
    }
}

impl<'a, F> Session<'a, F> {
    #[verifier::type_invariant]
    spec fn inv(self) -> bool {
        &&& self.help@ == help_text(entries(self.commands@))
        &&& self.phase.fits(entries(self.commands@))
    }

    /// The table that the loop dispatches over.
    pub closed spec fn table(&self) -> Seq<Entry> {
        entries(self.commands@)
    }

    /// Where the loop stands.
    pub closed spec fn stage(&self) -> Stage {
        self.phase.stage()
    }

    /// The handlers of the table's entries, in table order.
    pub closed spec fn handlers(&self) -> Seq<F> {
        handlers_of(self.commands@)
    }

    /// A loop over `commands` that has just asked for its first screen
    /// setup. The help text is built here, once.
    pub fn new(commands: &'a Vec<Command<'a, F>>) -> (session: Self)
        ensures
            session.table() == entries(commands@),
            session.handlers() == handlers_of(commands@),
            session.stage() == Stage::Starting,
    {
        Session { commands, help: build_help_str(commands), phase: Phase::Starting }
    }

    /// The action that the loop is waiting on. For a new session this is the
    /// first thing to do.
    pub fn pending(&self) -> (action: Action<String>)
        ensures
            action@ == pending(self.table(), self.stage()),
            stage_fits(self.table(), self.stage()),
    {
        proof {
            use_type_invariant(self);
        }
        pending_of(&self.help, &self.phase, Ghost(entries(self.commands@)))
    }

    /// The arguments for the handlers of the command that is running, or
    /// `None` when none is.
    pub fn arguments(&self) -> (args: Option<Vec<String>>)
        ensures
            match args {
                Some(list) => match self.stage() {
                    Stage::Processing { name, args, pos } => texts(list@) == args,
                    Stage::Emitting { name, args, pos, text } => texts(list@) == args,
                    _ => false,
                },
                None => !(self.stage() is Processing) && !(self.stage() is Emitting),
            },
    {
        match &self.phase {
            Phase::Processing { name, args, queue, pos } => Some(copy_texts(args)),
            Phase::Emitting { name, args, queue, pos, text } => Some(copy_texts(args)),
            _ => None,
        }
    }

    /// Takes the outcome of the pending action and says what to do next, by
    /// the rule of the loop.
    pub fn step(&mut self, event: Event<String>) -> (step: Step<String>)
        ensures
            final(self).table() == old(self).table(),
            final(self).handlers() == old(self).handlers(),
            (final(self).stage(), step@) == transition(
                old(self).table(),
                old(self).stage(),
                event@,
            ),
            stage_fits(final(self).table(), final(self).stage()),
    {
        proof {
            use_type_invariant(&*self);
        }
        let mut phase = Phase::Idle;
        std::mem::swap(&mut self.phase, &mut phase);
        let next = advance(self.commands, &self.help, phase, event);
        self.phase = next.0;
        next.1
    }

    /// Runs the handler that the loop is waiting on, with the arguments of
    /// the line and the caller's context, and takes its result as `step`
    /// takes `Event::Handled`. Nothing is known of a handler but its own
    /// contract, so the result is whatever that contract allows. When the
    /// loop is not waiting on a handler, nothing runs and the pending
    /// action is handed out again.
    pub fn run_handler(&mut self, context: &mut Context) -> (step: Step<String>) where
        F: Fn(&[String], &mut Context) -> Result<String, String>,

        requires
            forall|i: int, given: &[String], c: &mut Context|
                0 <= i < old(self).handlers().len() ==> #[trigger] call_requires(
                    old(self).handlers()[i],
                    (given, c),
                ),
        ensures
            final(self).table() == old(self).table(),
            final(self).handlers() == old(self).handlers(),
            stage_fits(final(self).table(), final(self).stage()),
            match old(self).stage() {
                Stage::Processing { name, args, pos } => exists|
                    given: &[String],
                    c: &mut Context,
                    result: Result<String, String>,
                |
                    {
                        &&& texts(given@) == args
                        &&& mut_ref_current(c) == *old(context)
                        &&& mut_ref_future(c) == *final(context)
                        &&& #[trigger] call_ensures(
                            old(self).handlers()[matching(old(self).table(), name)[pos as int]],
                            (given, c),
                            result,
                        )
                        &&& (final(self).stage(), step@) == transition(
                            old(self).table(),
                            old(self).stage(),
                            Event::Handled(result)@,
                        )
                    },
                _ => {
                    &&& *final(context) == *old(context)
                    &&& final(self).stage() == old(self).stage()
                    &&& step@ == quiet(pending(old(self).table(), old(self).stage()))
                },
            },
    {
        proof {
            use_type_invariant(&*self);
        }
        let ghost table = entries(self.commands@);
        let mut phase = Phase::Idle;
        std::mem::swap(&mut self.phase, &mut phase);
        let next = match phase {
            Phase::Processing { name, args, queue, pos } => {
                let entry = queue[pos];
                proof {
                    lemma_matching(table, name@);
                    assert(as_ints(queue@)[pos as int] == entry);
                    assert(old(self).handlers()[entry as int]
                        == self.commands@[entry as int].func);
                }
                let given = args.as_slice();
                let handler = &self.commands[entry].func;
                let result = handler(given, context);
                advance(
                    self.commands,
                    &self.help,
                    Phase::Processing { name, args, queue, pos },
                    Event::Handled(result),
                )
            },
            other => {
                let action = pending_of(&self.help, &other, Ghost(table));
                (other, Step { note: None, action })
            },
        };
        self.phase = next.0;
        next.1
    }
}

} // verus!
