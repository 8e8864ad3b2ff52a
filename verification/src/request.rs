//! What a line of input asks for.

use vstd::prelude::*;
use crate::text::{
    free_of, lemma_join_front, lemma_join_split, lemma_split_join, lemma_split_pieces, same_text,
    split_on, texts, tokenize,
};

verus! {

/// What a line of input asks for. `S` is the type of a text and `A` the type
/// of an argument list: `String` and `Vec<String>` in running code, sequences
/// of characters in contracts.
#[derive(Debug, PartialEq, Eq)]
pub enum Request<S, A> {
    /// Nothing: the line is empty.
    Skip,
    /// The help text: the first word is `help` or `?`.
    Help,
    /// To leave the prompt: the first word is `exit`.
    Exit,
    /// To run the commands called `name` with the words that follow it.
    Run { name: S, args: A },
}

impl View for Request<String, Vec<String>> {
    type V = Request<Seq<char>, Seq<Seq<char>>>;

    open spec fn view(&self) -> Request<Seq<char>, Seq<Seq<char>>> {
        match self {
            Request::Skip => Request::Skip,
            Request::Help => Request::Help,
            Request::Exit => Request::Exit,
            Request::Run { name, args } => Request::Run { name: name@, args: texts(args@) },
        }
    }
}

/// The first word of a line: what stands before its first space.
pub open spec fn command_word(line: Seq<char>) -> Seq<char> {
    split_on(line, ' ').first()
}

/// The words after the first, cut at every single space. Two spaces in a row
/// give an empty word.
pub open spec fn argument_words(line: Seq<char>) -> Seq<Seq<char>> {
    split_on(line, ' ').skip(1)
}

/// The words that the prompt answers itself, whatever the table holds.
pub open spec fn is_reserved(word: Seq<char>) -> bool {
    word == "help"@ || word == "?"@ || word == "exit"@
}

/// What `line` asks for. The built-in words are looked for before any table
/// is consulted, so a command of the same name can never run.
pub open spec fn interpret(line: Seq<char>) -> Request<Seq<char>, Seq<Seq<char>>> {
    if line.len() == 0 {
        Request::Skip
    } else if command_word(line) == "help"@ || command_word(line) == "?"@ {
        Request::Help
    } else if command_word(line) == "exit"@ {
        Request::Exit
    } else {
        Request::Run { name: command_word(line), args: argument_words(line) }
    }
}

/// A line made of a name without a space, one space, and the rest has the
/// name for its first word and the rest, cut at every single space, for its
/// arguments. The name alone is a line without arguments.
pub proof fn lemma_words_of_line(name: Seq<char>, rest: Seq<char>)
    requires
        !name.contains(' '),
    ensures
        command_word(name.push(' ') + rest) == name,
        argument_words(name.push(' ') + rest) == split_on(rest, ' '),
        command_word(name) == name,
        argument_words(name) == Seq::<Seq<char>>::empty(),
{
    let tail = split_on(rest, ' ');
    let words = seq![name] + tail;
    lemma_split_pieces(rest, ' ');
    lemma_join_split(rest, ' ');
    lemma_join_front(name, tail, ' ');
    assert(free_of(words, ' ')) by {
        assert forall|i: int| 0 <= i < words.len() implies !(#[trigger] words[i]).contains(
            ' ',
        ) by {
            if i > 0 {
                assert(words[i] == tail[i - 1]);
            }
        }
    }
    lemma_split_join(words, ' ');
    assert(words.skip(1) == tail);
    assert(free_of(seq![name], ' '));
    lemma_split_join(seq![name], ' ');
    assert(seq![name].skip(1) == Seq::<Seq<char>>::empty());
}

/// Reads a line: cuts it into words and recognises the built-in ones.
pub fn parse_line(line: &str) -> (request: Request<String, Vec<String>>)
    ensures
        request@ == interpret(line@),
{
    if line.is_empty() {
        return Request::Skip;
    }
    let mut words = tokenize(line);
    proof {
        lemma_split_pieces(line@, ' ');
    }
    let ghost all = words@;
    let name = words.remove(0);
    assert(texts(words@) == texts(all).skip(1));
    if same_text(name.as_str(), "help") || same_text(name.as_str(), "?") {
        Request::Help
    } else if same_text(name.as_str(), "exit") {
        Request::Exit
    } else {
        Request::Run { name, args: words }
    }
}

} // verus!
