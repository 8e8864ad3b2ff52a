//! What holds of every dispatch loop, proved from the loop's rule.

use vstd::prelude::*;
use crate::request::{argument_words, command_word, is_reserved, lemma_words_of_line};
use crate::session::{
    handler_warning, leave, next_round, prompt, quiet, stage_fits, transition, Action, Ending,
    Event, LoopError, Note, Stage,
};
use crate::table::{help_text, lemma_matching, matching, Entry};
use crate::text::{lemma_split_chars, lemma_split_pieces, split_on};

verus! {

/// White space, as Unicode defines it.
pub open spec fn is_whitespace(c: char) -> bool {
    let n = c as u32;
    ||| 0x09 <= n <= 0x0D
    ||| n == 0x20
    ||| n == 0x85
    ||| n == 0xA0
    ||| n == 0x1680
    ||| 0x2000 <= n <= 0x200A
    ||| n == 0x2028
    ||| n == 0x2029
    ||| n == 0x202F
    ||| n == 0x205F
    ||| n == 0x3000
}

/// True of a line that holds nothing but white space; the empty line is one.
pub open spec fn is_blank(line: Seq<char>) -> bool {
    forall|i: int| 0 <= i < line.len() ==> is_whitespace(#[trigger] line[i])
}

/// True when no entry of the table is called `name`.
pub open spec fn is_unknown(table: Seq<Entry>, name: Seq<char>) -> bool {
    forall|i: int| 0 <= i < table.len() ==> (#[trigger] table[i]).name != name
}

/// A name that no entry carries selects nothing.
pub proof fn lemma_unknown_selects_nothing(table: Seq<Entry>, name: Seq<char>)
    requires
        is_unknown(table, name),
    ensures
        matching(table, name).len() == 0,
{
    lemma_matching(table, name);
    if matching(table, name).len() > 0 {
        let i = matching(table, name)[0];
        assert(table[i].name == name);
    }
}

/// The first word of a blank line is none of the built-in words.
pub proof fn lemma_blank_word(line: Seq<char>)
    requires
        is_blank(line),
    ensures
        !is_reserved(command_word(line)),
{
    let word = command_word(line);
    lemma_split_pieces(line, ' ');
    lemma_split_chars(line, ' ');
    reveal_strlit("help");
    reveal_strlit("?");
    reveal_strlit("exit");
    if is_reserved(word) {
        assert(word.len() > 0);
        assert(line.contains(split_on(line, ' ')[0][0]));
        let k = line.index_of(word[0]);
        assert(is_whitespace(line[k]));
        assert(word[0] == 'h' || word[0] == '?' || word[0] == 'e');
    }
}

/// Whatever is reported, a loop that waits on a handler waits on one that
/// the command's name selects: a stage that fits the table is followed by
/// one that fits it.
pub proof fn lemma_stage_keeps_fitting(table: Seq<Entry>, stage: Stage, event: Event<Seq<char>>)
    requires
        stage_fits(table, stage),
    ensures
        stage_fits(table, transition(table, stage, event).0),
{
}

/// From the top of a round the loop always comes to wait for a line, whether
/// the screen setup worked or not.
pub proof fn lemma_round_awaits_input(table: Seq<Entry>, outcome: Result<(), Seq<char>>)
    ensures
        transition(table, Stage::Refreshing, Event::Screen(outcome)).0 == Stage::Idle,
        transition(table, Stage::Refreshing, Event::Screen(outcome)).1.action == Action::ReadLine(
            prompt(),
        ),
{
}

/// An empty line, and a line of white space alone, runs no handler and shows
/// nothing: the loop goes back to the top of a round, from where it waits
/// for the next line. Such a line could only select an entry whose own name
/// is its first word, so the table must hold none of that name.
pub proof fn lemma_blank_line_is_skipped(table: Seq<Entry>, line: Seq<char>)
    requires
        is_blank(line),
        line.len() > 0 ==> is_unknown(table, command_word(line)),
    ensures
        transition(table, Stage::Idle, Event::Line(line)) == next_round(None),
{
    if line.len() > 0 {
        lemma_blank_word(line);
        lemma_unknown_selects_nothing(table, command_word(line));
    }
}

/// A line whose first word is neither built in nor the name of an entry
/// runs no handler and shows nothing, and the loop goes on with the next
/// round.
pub proof fn lemma_unknown_command_is_ignored(table: Seq<Entry>, line: Seq<char>)
    requires
        line.len() > 0,
        !is_reserved(command_word(line)),
        is_unknown(table, command_word(line)),
    ensures
        transition(table, Stage::Idle, Event::Line(line)) == next_round(None),
{
    lemma_unknown_selects_nothing(table, command_word(line));
}

/// A name that is neither built in nor the name of an entry, typed on a
/// line of its own, runs no handler and shows nothing, and the loop goes on
/// with the next round.
pub proof fn lemma_unknown_name_is_ignored(table: Seq<Entry>, name: Seq<char>)
    requires
        name.len() > 0,
        !name.contains(' '),
        !is_reserved(name),
        is_unknown(table, name),
    ensures
        transition(table, Stage::Idle, Event::Line(name)) == next_round(None),
{
    lemma_words_of_line(name, Seq::empty());
    lemma_unknown_command_is_ignored(table, name);
}

/// A line whose first word is `help` or `?` has the help text shown,
/// whatever the table holds: an entry of that name never runs.
pub proof fn lemma_help_shows_the_help_text(table: Seq<Entry>, line: Seq<char>)
    requires
        command_word(line) == "help"@ || command_word(line) == "?"@,
    ensures
        transition(table, Stage::Idle, Event::Line(line)) == (
            Stage::ShowingHelp,
            quiet(Action::Render(help_text(table))),
        ),
{
    reveal_strlit("help");
    reveal_strlit("?");
    assert(line.len() > 0) by {
        if line.len() == 0 {
            assert(split_on(line, ' ') == seq![Seq::<char>::empty()]);
            assert("help"@.len() == 4);
            assert("?"@.len() == 1);
        }
    }
}

/// A line whose first word is `exit` ends the loop with success, whatever
/// the table holds, and a loop that is over asks for nothing more: whatever
/// is reported to it, it says again how it ended.
pub proof fn lemma_exit_ends_the_loop(table: Seq<Entry>, line: Seq<char>, later: Event<Seq<char>>)
    requires
        command_word(line) == "exit"@,
    ensures
        transition(table, Stage::Idle, Event::Line(line)) == leave(None, Ending::Success),
        transition(table, Stage::Exited(Ending::Success), later) == leave(None, Ending::Success),
{
    reveal_strlit("help");
    reveal_strlit("?");
    reveal_strlit("exit");
    lemma_split_pieces(line, ' ');
    assert(line.len() > 0) by {
        if line.len() == 0 {
            assert(split_on(line, ' ') == seq![Seq::<char>::empty()]);
            assert("exit"@.len() == 4);
        }
    }
    assert("exit"@[0] != "help"@[0]);
    assert("exit"@.len() != "?"@.len());
}

/// The error of a handler never ends the loop: it is noted on the diagnostic
/// stream, nothing goes to the renderer, and the loop goes on with the next
/// handler of that name or, after the last, with the next round.
pub proof fn lemma_handler_error_is_not_fatal(
    table: Seq<Entry>,
    name: Seq<char>,
    args: Seq<Seq<char>>,
    pos: nat,
    error: Seq<char>,
)
    ensures
        ({
            let (next, step) = transition(
                table,
                Stage::Processing { name, args, pos },
                Event::Handled(Err(error)),
            );
            &&& step.note == Some(Note::Diagnostic(handler_warning(name, error)))
            &&& if pos + 1 < matching(table, name).len() {
                &&& next == Stage::Processing { name, args, pos: pos + 1 }
                &&& step.action == Action::<Seq<char>>::Invoke(
                    matching(table, name)[pos as int + 1] as usize,
                )
            } else {
                &&& next == Stage::Refreshing
                &&& step.action == Action::<Seq<char>>::SetupScreen
            }
        }),
{
}

/// A renderer that fails ends the loop with that failure, whether it was
/// given the help text or the output of a handler.
pub proof fn lemma_renderer_failure_ends_the_loop(
    table: Seq<Entry>,
    name: Seq<char>,
    args: Seq<Seq<char>>,
    pos: nat,
    text: Seq<char>,
    error: Seq<char>,
)
    ensures
        transition(table, Stage::ShowingHelp, Event::Rendered(Err(error))) == leave(
            None,
            Ending::Failed(LoopError::Render(error)),
        ),
        transition(
            table,
            Stage::Emitting { name, args, pos, text },
            Event::Rendered(Err(error)),
        ) == leave(None, Ending::Failed(LoopError::Render(error))),
{
}

/// What the driver reports while the handlers of one line run, when they
/// return `results` in turn and the renderer never fails: each result and,
/// after each output, the renderer's success.
pub open spec fn reports(results: Seq<Result<Seq<char>, Seq<char>>>) -> Seq<Event<Seq<char>>>
    decreases results.len(),
{
    if results.len() == 0 {
        Seq::empty()
    } else {
        let first = match results[0] {
            Ok(text) => seq![Event::Handled(Ok(text)), Event::Rendered(Ok(()))],
            Err(e) => seq![Event::Handled(Err(e))],
        };
        first + reports(results.drop_first())
    }
}

/// The outputs among the results, in order.
pub open spec fn outputs(results: Seq<Result<Seq<char>, Seq<char>>>) -> Seq<Seq<char>>
    decreases results.len(),
{
    if results.len() == 0 {
        Seq::empty()
    } else {
        let first = match results[0] {
            Ok(text) => seq![text],
            Err(e) => Seq::empty(),
        };
        first + outputs(results.drop_first())
    }
}

/// The stage that a loop reaches from `stage` when `events` are reported one
/// after another.
pub open spec fn stage_after(
    table: Seq<Entry>,
    stage: Stage,
    events: Seq<Event<Seq<char>>>,
) -> Stage
    decreases events.len(),
{
    if events.len() == 0 {
        stage
    } else {
        stage_after(table, transition(table, stage, events[0]).0, events.drop_first())
    }
}

/// The handler calls that a loop asks for on the way: for each, the entry's
/// position in the table and the arguments that it is given.
pub open spec fn calls(table: Seq<Entry>, stage: Stage, events: Seq<Event<Seq<char>>>) -> Seq<
    (int, Seq<Seq<char>>),
>
    decreases events.len(),
{
    if events.len() == 0 {
        Seq::empty()
    } else {
        let (next, step) = transition(table, stage, events[0]);
        let rest = calls(table, next, events.drop_first());
        match (step.action, next) {
            (Action::Invoke(entry), Stage::Processing { name, args, pos }) => seq![
                (entry as int, args),
            ] + rest,
            _ => rest,
        }
    }
}

/// The texts that a loop hands to the renderer on the way.
pub open spec fn shown(table: Seq<Entry>, stage: Stage, events: Seq<Event<Seq<char>>>) -> Seq<
    Seq<char>,
>
    decreases events.len(),
{
    if events.len() == 0 {
        Seq::empty()
    } else {
        let (next, step) = transition(table, stage, events[0]);
        let rest = shown(table, next, events.drop_first());
        match step.action {
            Action::Render(text) => seq![text] + rest,
            _ => rest,
        }
    }
}

/// The calls that are owed from position `from` on: one for each entry
/// called `name` from there, in table order, each with `args`.
pub open spec fn owed(table: Seq<Entry>, name: Seq<char>, args: Seq<Seq<char>>, from: nat) -> Seq<
    (int, Seq<Seq<char>>),
> {
    Seq::new(
        (matching(table, name).len() - from) as nat,
        |k: int| (matching(table, name)[from as int + k], args),
    )
}

/// While a command runs: once the running handler and those after it have
/// returned `results`, every entry of that name after the running one has
/// been called, in table order and with the same arguments, the outputs
/// have gone to the renderer in that order, and the loop is back at the top.
pub proof fn lemma_rest_of_dispatch(
    table: Seq<Entry>,
    name: Seq<char>,
    args: Seq<Seq<char>>,
    pos: nat,
    results: Seq<Result<Seq<char>, Seq<char>>>,
)
    requires
        table.len() <= usize::MAX,
        pos + results.len() == matching(table, name).len(),
        results.len() > 0,
    ensures
        calls(table, Stage::Processing { name, args, pos }, reports(results)) == owed(
            table,
            name,
            args,
            pos + 1,
        ),
        shown(table, Stage::Processing { name, args, pos }, reports(results)) == outputs(results),
        stage_after(table, Stage::Processing { name, args, pos }, reports(results))
            == Stage::Refreshing,
    decreases results.len(),
{
    let stage = Stage::Processing { name, args, pos };
    let rest = results.drop_first();
    let events = reports(results);
    let later = reports(rest);
    let found = matching(table, name);
    lemma_matching(table, name);
    // Where the loop stands once the first result, and its rendering, are through.
    let reached = if pos + 1 < found.len() {
        Stage::Processing { name, args, pos: pos + 1 }
    } else {
        Stage::Refreshing
    };
    let first_call: Seq<(int, Seq<Seq<char>>)> = if pos + 1 < found.len() {
        seq![(found[pos as int + 1], args)]
    } else {
        Seq::empty()
    };
    match results[0] {
        Ok(text) => {
            let middle = Stage::Emitting { name, args, pos, text };
            assert(events.drop_first() == seq![Event::<Seq<char>>::Rendered(Ok(()))] + later);
            assert(events.drop_first().drop_first() == later);
            assert(events[0] == Event::Handled(Ok(text)));
            assert(events.drop_first()[0] == Event::<Seq<char>>::Rendered(Ok(())));
            assert(transition(table, stage, events[0]).0 == middle);
            assert(transition(table, middle, events.drop_first()[0]).0 == reached);
            assert(calls(table, stage, events) == calls(table, middle, events.drop_first()));
            assert(calls(table, middle, events.drop_first()) == first_call + calls(
                table,
                reached,
                later,
            ));
            assert(shown(table, stage, events) == seq![text] + shown(
                table,
                middle,
                events.drop_first(),
            ));
            assert(shown(table, middle, events.drop_first()) == shown(table, reached, later));
            assert(stage_after(table, stage, events) == stage_after(
                table,
                middle,
                events.drop_first(),
            ));
            assert(stage_after(table, middle, events.drop_first()) == stage_after(
                table,
                reached,
                later,
            ));
            assert(outputs(results) == seq![text] + outputs(rest));
        },
        Err(e) => {
            assert(events.drop_first() == later);
            assert(events[0] == Event::Handled(Err(e)));
            assert(transition(table, stage, events[0]).0 == reached);
            assert(calls(table, stage, events) == first_call + calls(table, reached, later));
            assert(shown(table, stage, events) == shown(table, reached, later));
            assert(stage_after(table, stage, events) == stage_after(table, reached, later));
            assert(outputs(results) == outputs(rest));
        },
    }
    if rest.len() > 0 {
        lemma_rest_of_dispatch(table, name, args, pos + 1, rest);
        assert(first_call + owed(table, name, args, pos + 2) == owed(table, name, args, pos + 1));
    } else {
        assert(later == Seq::<Event<Seq<char>>>::empty());
        assert(outputs(rest) == Seq::<Seq<char>>::empty());
        assert(first_call == owed(table, name, args, pos + 1));
    }
}

/// A line whose first word is the name of entries of the table, and not
/// built in, has every entry of that name called, in table order, each with
/// the words after the first, cut at single spaces, as its arguments. The
/// outputs go to the renderer in the same order, and the loop then goes
/// back to the top. This is stated for handlers that return `results` in
/// turn and a renderer that does not fail; a failing renderer ends the loop
/// before the handlers that are left are called. The table is one that a
/// `Vec` can hold.
pub proof fn lemma_dispatch_calls_every_match(
    table: Seq<Entry>,
    line: Seq<char>,
    results: Seq<Result<Seq<char>, Seq<char>>>,
)
    requires
        table.len() <= usize::MAX,
        line.len() > 0,
        !is_reserved(command_word(line)),
        results.len() == matching(table, command_word(line)).len(),
    ensures
        calls(table, Stage::Idle, seq![Event::Line(line)] + reports(results)) == owed(
            table,
            command_word(line),
            argument_words(line),
            0,
        ),
        shown(table, Stage::Idle, seq![Event::Line(line)] + reports(results)) == outputs(results),
        stage_after(table, Stage::Idle, seq![Event::Line(line)] + reports(results))
            == Stage::Refreshing,
{
    let name = command_word(line);
    let args = argument_words(line);
    let events = seq![Event::Line(line)] + reports(results);
    let found = matching(table, name);
    assert(events[0] == Event::Line(line));
    assert(events.drop_first() == reports(results));
    let answer = transition(table, Stage::Idle, events[0]);
    if found.len() == 0 {
        assert(reports(results) == Seq::<Event<Seq<char>>>::empty());
        assert(outputs(results) == Seq::<Seq<char>>::empty());
        assert(owed(table, name, args, 0) == Seq::<(int, Seq<Seq<char>>)>::empty());
        assert(answer == next_round(None));
        assert(calls(table, answer.0, events.drop_first()) == Seq::<
            (int, Seq<Seq<char>>),
        >::empty());
        assert(shown(table, answer.0, events.drop_first()) == Seq::<Seq<char>>::empty());
        assert(stage_after(table, answer.0, events.drop_first()) == answer.0);
    } else {
        let first = Stage::Processing { name, args, pos: 0 };
        lemma_matching(table, name);
        assert(answer.0 == first);
        assert(answer.1.action == Action::<Seq<char>>::Invoke(found[0] as usize));
        lemma_rest_of_dispatch(table, name, args, 0, results);
        assert(calls(table, Stage::Idle, events) == seq![(found[0], args)] + calls(
            table,
            first,
            events.drop_first(),
        ));
        assert(shown(table, Stage::Idle, events) == shown(table, first, events.drop_first()));
        assert(stage_after(table, Stage::Idle, events) == stage_after(
            table,
            first,
            events.drop_first(),
        ));
        assert(seq![(found[0], args)] + owed(table, name, args, 1) == owed(table, name, args, 0));
    }
}

/// A name and, after one space, its arguments: every entry called by that
/// name is called, in table order, each with the arguments cut at single
/// spaces. The outputs go to the renderer in the same order, and the loop
/// then goes on with the next round. The name holds no space and is not
/// built in, the handlers return `results` in turn, the renderer does not
/// fail, and the table is one that a `Vec` can hold.
pub proof fn lemma_named_command_calls_every_entry(
    table: Seq<Entry>,
    name: Seq<char>,
    rest: Seq<char>,
    results: Seq<Result<Seq<char>, Seq<char>>>,
)
    requires
        table.len() <= usize::MAX,
        !name.contains(' '),
        !is_reserved(name),
        results.len() == matching(table, name).len(),
    ensures
        calls(table, Stage::Idle, seq![Event::Line(name.push(' ') + rest)] + reports(results))
            == owed(table, name, split_on(rest, ' '), 0),
        shown(table, Stage::Idle, seq![Event::Line(name.push(' ') + rest)] + reports(results))
            == outputs(results),
        stage_after(
            table,
            Stage::Idle,
            seq![Event::Line(name.push(' ') + rest)] + reports(results),
        ) == Stage::Refreshing,
{
    lemma_words_of_line(name, rest);
    lemma_dispatch_calls_every_match(table, name.push(' ') + rest, results);
}

} // verus!
