//! The command table: named entries in a fixed order, the search for the
//! entries that a name selects, and the help text.

use vstd::prelude::*;
use crate::text::{free_of, join_with, lemma_join_push, lemma_split_join, same_text, split_on};

verus! {

/// One entry of a command table: the word that selects it, the handler that
/// runs for it, and one line of help.
pub struct Command<'r, F> {
    pub command: &'r str,
    pub func: F,
    pub help_output: &'r str,
}

/// What the dispatch rules read of an entry: its name and its help line.
pub ghost struct Entry {
    pub name: Seq<char>,
    pub help: Seq<char>,
}

impl<'r, F> View for Command<'r, F> {
    type V = Entry;

    open spec fn view(&self) -> Entry {
        Entry { name: self.command@, help: self.help_output@ }
    }
}

/// A table as the sequence of its entries' names and help lines.
pub open spec fn entries<F>(commands: Seq<Command<'_, F>>) -> Seq<Entry> {
    Seq::new(commands.len(), |i: int| commands[i]@)
}

/// The positions `0, 1, .., n - 1`.
pub open spec fn positions(n: nat) -> Seq<int> {
    Seq::new(n, |i: int| i)
}

/// The positions of the entries called `name`, in table order.
pub open spec fn matching(table: Seq<Entry>, name: Seq<char>) -> Seq<int> {
    positions(table.len()).filter(|i: int| table[i].name == name)
}

/// `matching` lists exactly the entries called `name`: each listed position
/// holds that name, every position that holds it is listed, and the list
/// ascends, so that it follows table order and names no entry twice.
pub proof fn lemma_matching(table: Seq<Entry>, name: Seq<char>)
    ensures
        forall|k: int|
            0 <= k < matching(table, name).len() ==> 0 <= #[trigger] matching(table, name)[k]
                < table.len() && table[matching(table, name)[k]].name == name,
        forall|i: int|
            0 <= i < table.len() && table[i].name == name ==> matching(table, name).contains(i),
        forall|j: int, k: int|
            0 <= j < k < matching(table, name).len() ==> matching(table, name)[j] < matching(
                table,
                name,
            )[k],
        matching(table, name).len() <= table.len(),
    decreases table.len(),
{
    let found = matching(table, name);
    if table.len() == 0 {
        assert(positions(0) == Seq::<int>::empty());
        reveal(Seq::filter);
    } else {
        let rest = table.drop_last();
        let last = table.len() - 1;
        lemma_matching(rest, name);
        lemma_matching_step(table, name);
        let before = matching(rest, name);
        if table[last].name == name {
            assert(found == before.push(last));
            assert forall|i: int|
                0 <= i < table.len() && table[i].name == name implies found.contains(i) by {
                if i < last {
                    assert(rest[i].name == name);
                    assert(before.contains(i));
                    let k = before.index_of(i);
                    assert(found[k] == i);
                } else {
                    assert(found[before.len() as int] == i);
                }
            }
            assert forall|k: int| 0 <= k < found.len() implies 0 <= #[trigger] found[k]
                < table.len() && table[found[k]].name == name by {
                if k < before.len() {
                    assert(rest[before[k]].name == name);
                }
            }
        } else {
            assert(found == before);
            assert forall|i: int|
                0 <= i < table.len() && table[i].name == name implies found.contains(i) by {
                assert(rest[i].name == name);
                assert(before.contains(i));
            }
            assert forall|k: int| 0 <= k < found.len() implies 0 <= #[trigger] found[k]
                < table.len() && table[found[k]].name == name by {
                assert(rest[before[k]].name == name);
            }
        }
    }
}

/// How `matching` grows with the table: the last entry is listed last when it
/// is called `name`, and left out when it is not.
pub proof fn lemma_matching_step(table: Seq<Entry>, name: Seq<char>)
    requires
        table.len() > 0,
    ensures
        matching(table, name) == if table.last().name == name {
            matching(table.drop_last(), name).push(table.len() - 1)
        } else {
            matching(table.drop_last(), name)
        },
{
    let rest = table.drop_last();
    let last = table.len() - 1;
    let wanted = |i: int| table[i].name == name;
    let wanted_rest = |i: int| rest[i].name == name;
    assert(positions(table.len()).drop_last() == positions(rest.len()));
    reveal(Seq::filter);
    lemma_filter_agrees(positions(rest.len()), wanted, wanted_rest, rest.len() as int);
}

/// Two tests that agree below `bound` select the same items from a list of
/// positions below `bound`.
proof fn lemma_filter_agrees(
    s: Seq<int>,
    f: spec_fn(int) -> bool,
    g: spec_fn(int) -> bool,
    bound: int,
)
    requires
        forall|k: int| 0 <= k < s.len() ==> 0 <= #[trigger] s[k] < bound,
        forall|i: int| 0 <= i < bound ==> #[trigger] f(i) == g(i),
    ensures
        s.filter(f) == s.filter(g),
    decreases s.len(),
{
    reveal(Seq::filter);
    if s.len() > 0 {
        lemma_filter_agrees(s.drop_last(), f, g, bound);
        assert(0 <= s[s.len() - 1] < bound);
    }
}

/// The positions as plain integers.
pub open spec fn as_ints(found: Seq<usize>) -> Seq<int> {
    Seq::new(found.len(), |k: int| found[k] as int)
}

/// Finds every entry called `name`, in table order. An empty result means
/// that the table has no such command.
pub fn lookup<F>(commands: &Vec<Command<'_, F>>, name: &str) -> (found: Vec<usize>)
    ensures
        as_ints(found@) == matching(entries(commands@), name@),
{
    let mut found: Vec<usize> = Vec::new();
    let mut i: usize = 0;
    while i < commands.len()
        invariant
            i <= commands.len(),
            as_ints(found@) == matching(entries(commands@).take(i as int), name@),
        decreases commands.len() - i,
    {
        proof {
            let table = entries(commands@);
            assert(table.take(i + 1).drop_last() == table.take(i as int));
            lemma_matching_step(table.take(i + 1), name@);
        }
        let ghost before = found@;
        if same_text(commands[i].command, name) {
            found.push(i);
            assert(as_ints(found@) == as_ints(before).push(i as int));
        }
        i += 1;
    }
    proof {
        let table = entries(commands@);
        assert(table.take(table.len() as int) == table);
    }
    found
}

/// The first line of the help text.
pub open spec fn help_header() -> Seq<char> {
    "---help output------------"@
}

/// The line of the help text that describes the built-in `exit`.
pub open spec fn exit_help() -> Seq<char> {
    "exit - exit the current prompt"@
}

/// The help lines of the entries, in table order.
pub open spec fn help_of(table: Seq<Entry>) -> Seq<Seq<char>> {
    Seq::new(table.len(), |i: int| table[i].help)
}

/// The lines of the help text: the header, one line for each entry in table
/// order, and the line for `exit`.
pub open spec fn help_lines(table: Seq<Entry>) -> Seq<Seq<char>> {
    seq![help_header()] + help_of(table) + seq![exit_help()]
}

/// The help text: its lines with a line feed between each two.
pub open spec fn help_text(table: Seq<Entry>) -> Seq<char> {
    join_with(help_lines(table), '\n')
}

/// Builds the help text of a table.
pub fn build_help_str<F>(commands: &Vec<Command<'_, F>>) -> (help: String)
    ensures
        help@ == help_text(entries(commands@)),
{
    let ghost table = entries(commands@);
    let mut help = "---help output------------".to_owned();
    let mut i: usize = 0;
    while i < commands.len()
        invariant
            i <= commands.len(),
            table == entries(commands@),
            help@ == join_with(seq![help_header()] + help_of(table).take(i as int), '\n'),
        decreases commands.len() - i,
    {
        proof {
            let lines = seq![help_header()] + help_of(table).take(i as int);
            lemma_join_push(lines, table[i as int].help, '\n');
            assert(lines.push(table[i as int].help) == seq![help_header()] + help_of(table).take(
                i + 1,
            ));
        }
        help.push('\n');
        help.append(commands[i].help_output);
        i += 1;
    }
    proof {
        let lines = seq![help_header()] + help_of(table);
        assert(help_of(table).take(table.len() as int) == help_of(table));
        lemma_join_push(lines, exit_help(), '\n');
        assert(lines.push(exit_help()) == help_lines(table));
    }
    help.push('\n');
    help.append("exit - exit the current prompt");
    help
}

/// When no help line of an entry holds a line feed, the help text read line
/// by line is the header, then exactly one line for each entry in table
/// order, then the one line for `exit`.
pub proof fn lemma_help_lines(table: Seq<Entry>)
    requires
        free_of(help_of(table), '\n'),
    ensures
        split_on(help_text(table), '\n') == help_lines(table),
        help_lines(table).len() == table.len() + 2,
        help_lines(table).first() == help_header(),
        help_lines(table).last() == exit_help(),
        forall|i: int| 0 <= i < table.len() ==> help_lines(table)[i + 1] == table[i].help,
{
    let lines = help_lines(table);
    lemma_fixed_lines();
    assert forall|k: int| 0 <= k < lines.len() implies !(#[trigger] lines[k]).contains('\n') by {
        if 1 <= k <= table.len() {
            assert(lines[k] == help_of(table)[k - 1]);
        }
    }
    lemma_split_join(lines, '\n');
}

/// Neither the header nor the line for `exit` holds a line feed.
proof fn lemma_fixed_lines()
    ensures
        !help_header().contains('\n'),
        !exit_help().contains('\n'),
{
    reveal_strlit("---help output------------");
    reveal_strlit("exit - exit the current prompt");
    let header = help_header();
    let exit = exit_help();
    assert forall|i: int| 0 <= i < header.len() implies header[i] != '\n' by {
        assert(header =~= seq![
            '-', '-', '-', 'h', 'e', 'l', 'p', ' ', 'o', 'u', 't', 'p', 'u', 't', '-', '-', '-',
            '-', '-', '-', '-', '-', '-', '-', '-', '-',
        ]);
    }
    assert forall|i: int| 0 <= i < exit.len() implies exit[i] != '\n' by {
        assert(exit =~= seq![
            'e', 'x', 'i', 't', ' ', '-', ' ', 'e', 'x', 'i', 't', ' ', 't', 'h', 'e', ' ', 'c',
            'u', 'r', 'r', 'e', 'n', 't', ' ', 'p', 'r', 'o', 'm', 'p', 't',
        ]);
    }
}

} // verus!
