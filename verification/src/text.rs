//! Text helpers: splitting a line into tokens, joining lines, comparing and
//! copying strings, and writing small numbers in decimal.

use vstd::prelude::*;
use vstd::std_specs::iter::IteratorSpec;

verus! {

/// `String::push` of the standard library: the string afterwards is the
/// string before with `ch` appended as its last character.
pub assume_specification[ String::push ](s: &mut String, ch: char)
    ensures
        final(s)@ == old(s)@.push(ch),
;

/// The character sequences of a list of strings, in order.
pub open spec fn texts(v: Seq<String>) -> Seq<Seq<char>> {
    Seq::new(v.len(), |i: int| v[i]@)
}

/// The pieces of `s` between occurrences of `sep`. There is always at least
/// one piece; two separators in a row, or a separator at either end, give an
/// empty piece.
pub open spec fn split_on(s: Seq<char>, sep: char) -> Seq<Seq<char>>
    decreases s.len(),
{
    if s.len() == 0 {
        seq![Seq::empty()]
    } else {
        let head = split_on(s.drop_last(), sep);
        if s.last() == sep {
            head.push(Seq::empty())
        } else {
            head.drop_last().push(head.last().push(s.last()))
        }
    }
}

/// The pieces written one after another with `sep` between neighbours.
pub open spec fn join_with(parts: Seq<Seq<char>>, sep: char) -> Seq<char>
    decreases parts.len(),
{
    if parts.len() == 0 {
        Seq::empty()
    } else if parts.len() == 1 {
        parts[0]
    } else {
        join_with(parts.drop_last(), sep).push(sep) + parts.last()
    }
}

/// True when no piece holds the separator.
pub open spec fn free_of(parts: Seq<Seq<char>>, sep: char) -> bool {
    forall|i: int| 0 <= i < parts.len() ==> !(#[trigger] parts[i]).contains(sep)
}

/// Splitting always yields at least one piece, and no piece holds the
/// separator.
pub proof fn lemma_split_pieces(s: Seq<char>, sep: char)
    ensures
        split_on(s, sep).len() >= 1,
        free_of(split_on(s, sep), sep),
    decreases s.len(),
{
    if s.len() > 0 {
        lemma_split_pieces(s.drop_last(), sep);
        let head = split_on(s.drop_last(), sep);
        if s.last() != sep {
            let grown = head.last().push(s.last());
            assert forall|j: int| 0 <= j < grown.len() implies grown[j] != sep by {
                if j < head.last().len() {
                    assert(head.last().contains(head.last()[j]));
                }
            }
        }
    }
}

/// Joining the pieces of a split gives the text back.
pub proof fn lemma_join_split(s: Seq<char>, sep: char)
    ensures
        join_with(split_on(s, sep), sep) == s,
    decreases s.len(),
{
    if s.len() > 0 {
        let t = s.drop_last();
        let head = split_on(t, sep);
        lemma_join_split(t, sep);
        lemma_split_pieces(t, sep);
        if s.last() == sep {
            lemma_join_push(head, Seq::empty(), sep);
            assert(t.push(sep) + Seq::<char>::empty() == s);
        } else {
            let grown = head.last().push(s.last());
            let init = head.drop_last();
            if head.len() == 1 {
                assert(init.push(grown) == seq![grown]);
                assert(grown == s);
            } else {
                lemma_join_push(init, grown, sep);
                assert(join_with(init, sep).push(sep) + grown == (join_with(init, sep).push(sep)
                    + head.last()).push(s.last()));
                assert(t.push(s.last()) == s);
            }
        }
    }
}

/// Splitting a joined list of separator-free pieces gives the pieces back:
/// the split of a text is the only way to cut it into such pieces.
pub proof fn lemma_split_join(parts: Seq<Seq<char>>, sep: char)
    requires
        parts.len() >= 1,
        free_of(parts, sep),
    ensures
        split_on(join_with(parts, sep), sep) == parts,
    decreases parts.len(), parts.last().len(),
{
    let s = join_with(parts, sep);
    let last = parts.last();
    let init = parts.drop_last();
    if last.len() > 0 {
        let c = last.last();
        assert(last.contains(c));
        let shorter = init.push(last.drop_last());
        assert forall|i: int| 0 <= i < shorter.len() implies !(#[trigger] shorter[i]).contains(
            sep,
        ) by {
            if i < init.len() {
                assert(shorter[i] == parts[i]);
            } else {
                assert forall|j: int| 0 <= j < shorter[i].len() implies shorter[i][j] != sep by {
                    assert(last.contains(last[j]));
                }
            }
        }
        assert(shorter.drop_last() == init);
        if parts.len() == 1 {
            assert(join_with(shorter, sep).push(c) == s);
        } else {
            assert(join_with(shorter, sep).push(c) == s) by {
                assert((join_with(init, sep).push(sep) + last.drop_last()).push(c) == join_with(
                    init,
                    sep,
                ).push(sep) + last);
            }
        }
        assert(s.drop_last() == join_with(shorter, sep));
        lemma_split_join(shorter, sep);
        assert(last.drop_last().push(c) == last);
        assert(shorter.drop_last().push(shorter.last().push(c)) == parts);
    } else if parts.len() == 1 {
        assert(last == Seq::<char>::empty());
        assert(parts == seq![Seq::<char>::empty()]);
    } else {
        assert(last == Seq::<char>::empty());
        assert(s == join_with(init, sep).push(sep));
        assert(s.drop_last() == join_with(init, sep));
        assert forall|i: int| 0 <= i < init.len() implies !(#[trigger] init[i]).contains(sep) by {
            assert(init[i] == parts[i]);
        }
        lemma_split_join(init, sep);
        assert(init.push(Seq::empty()) == parts);
    }
}

/// Every character of a piece is a character of the text that was split.
pub proof fn lemma_split_chars(s: Seq<char>, sep: char)
    ensures
        forall|i: int, j: int|
            0 <= i < split_on(s, sep).len() && 0 <= j < split_on(s, sep)[i].len() ==> s.contains(
                #[trigger] split_on(s, sep)[i][j],
            ),
    decreases s.len(),
{
    let pieces = split_on(s, sep);
    if s.len() > 0 {
        let t = s.drop_last();
        let head = split_on(t, sep);
        lemma_split_chars(t, sep);
        lemma_split_pieces(t, sep);
        assert forall|i: int, j: int|
            0 <= i < pieces.len() && 0 <= j < pieces[i].len() implies s.contains(
            #[trigger] pieces[i][j],
        ) by {
            if s.last() != sep && i == pieces.len() - 1 && j == pieces[i].len() - 1 {
                assert(s[s.len() - 1] == pieces[i][j]);
            } else {
                assert(pieces[i][j] == head[i][j]);
                assert(t.contains(head[i][j]));
                let k = t.index_of(head[i][j]);
                assert(s[k] == head[i][j]);
            }
        }
    }
}

/// Joining a non-empty list with one more piece appends the separator and
/// that piece.
pub proof fn lemma_join_push(parts: Seq<Seq<char>>, piece: Seq<char>, sep: char)
    requires
        parts.len() >= 1,
    ensures
        join_with(parts.push(piece), sep) == join_with(parts, sep).push(sep) + piece,
{
    assert(parts.push(piece).drop_last() == parts);
}

/// Joining a list that has a piece put in front of it puts that piece and
/// the separator in front of the joined list.
pub proof fn lemma_join_front(first: Seq<char>, parts: Seq<Seq<char>>, sep: char)
    requires
        parts.len() >= 1,
    ensures
        join_with(seq![first] + parts, sep) == first.push(sep) + join_with(parts, sep),
    decreases parts.len(),
{
    let all = seq![first] + parts;
    assert(all.drop_last() == seq![first] + parts.drop_last());
    assert(all.last() == parts.last());
    if parts.len() == 1 {
        assert(all.drop_last() == seq![first]);
        assert(join_with(seq![first], sep) == first);
        assert(join_with(parts, sep) == parts[0]);
    } else {
        lemma_join_front(first, parts.drop_last(), sep);
        assert((first.push(sep) + join_with(parts.drop_last(), sep)).push(sep) + parts.last()
            == first.push(sep) + (join_with(parts.drop_last(), sep).push(sep) + parts.last()));
    }
}

/// Cuts a line into tokens at every single space.
pub fn tokenize(line: &str) -> (tokens: Vec<String>)
    ensures
        texts(tokens@) == split_on(line@, ' '),
{
    let mut done: Vec<String> = Vec::new();
    let mut current = String::new();
    for c in it: line.chars()
        invariant
            it.seq() == line@,
            texts(done@).push(current@) == split_on(line@.take(it.index() as int), ' '),
    {
        proof {
            let k = it.index() as int;
            assert(line@.take(k + 1).drop_last() == line@.take(k));
            assert(line@.take(k + 1).last() == c);
            assert(texts(done@).push(current@).drop_last() == texts(done@));
            assert(texts(done@.push(current)) == texts(done@).push(current@));
        }
        if c == ' ' {
            done.push(current);
            current = String::new();
        } else {
            current.push(c);
        }
    }
    proof {
        assert(line@.take(line@.len() as int) == line@);
        assert(texts(done@.push(current)) == texts(done@).push(current@));
    }
    done.push(current);
    done
}

/// Tells whether two strings hold the same characters.
pub fn same_text(a: &str, b: &str) -> (same: bool)
    ensures
        same == (a@ == b@),
{
    let mut left = a.chars();
    let mut right = b.chars();
    let ghost mut common: Seq<char> = Seq::empty();
    loop
        invariant
            a@ == common + left.remaining(),
            b@ == common + right.remaining(),
            left.decrease() is Some,
        decreases left.decrease()->0,
    {
        let x = left.next();
        let y = right.next();
        match (x, y) {
            (None, None) => {
                return true;
            },
            (Some(p), Some(q)) => {
                if p != q {
                    assert(a@[common.len() as int] == p);
                    assert(b@[common.len() as int] == q);
                    return false;
                }
                proof {
                    common = common.push(p);
                }
            },
            _ => {
                assert(a@.len() != b@.len());
                return false;
            },
        }
    }
}

/// A copy of a list of strings.
pub fn copy_texts(list: &Vec<String>) -> (copy: Vec<String>)
    ensures
        texts(copy@) == texts(list@),
{
    let mut copy: Vec<String> = Vec::new();
    let mut i: usize = 0;
    while i < list.len()
        invariant
            i <= list.len(),
            copy.len() == i,
            forall|k: int| 0 <= k < i ==> copy[k]@ == list[k]@,
        decreases list.len() - i,
    {
        copy.push(list[i].clone());
        i += 1;
    }
    copy
}

/// The character for a digit below ten.
pub open spec fn digit(d: nat) -> char {
    (48 + d) as char
}

/// A number written in decimal, without leading zeros.
pub open spec fn decimal(n: nat) -> Seq<char>
    decreases n,
{
    if n < 10 {
        seq![digit(n)]
    } else {
        decimal(n / 10).push(digit(n % 10))
    }
}

/// Appends `n` in decimal to `out`.
pub fn push_decimal(out: &mut String, n: u16)
    ensures
        final(out)@ == old(out)@ + decimal(n as nat),
    decreases n,
{
    if n >= 10 {
        push_decimal(out, n / 10);
    }
    let d: u8 = (n % 10) as u8;
    out.push((48u8 + d) as char);
    proof {
        if n >= 10 {
            assert(old(out)@ + decimal(n as nat) == (old(out)@ + decimal((n / 10) as nat)).push(
                digit((n % 10) as nat),
            ));
        } else {
            assert(old(out)@ + decimal(n as nat) == old(out)@.push(digit(n as nat)));
        }
    }
}

} // verus!
