//! Cutting text at a separator.
//!
//! [`split`] cuts a text at every occurrence of one character, as
//! `str::split` does: a text with `n` separators gives `n + 1` pieces, some of
//! which may be empty. [`join`] is the way back, and the proofs below show
//! that the two fit.

use vstd::prelude::*;

verus! {

/// The pieces of `text` between the occurrences of `sep`, in order.
///
/// Read from the left, every separator ends a piece and starts an empty one;
/// every other character goes to the end of the piece that is open.
pub open spec fn split_text(text: Seq<char>, sep: char) -> Seq<Seq<char>>
    decreases text.len(),
{
    if text.len() == 0 {
        seq![Seq::empty()]
    } else {
        let before = split_text(text.drop_last(), sep);
        if text.last() == sep {
            before.push(Seq::empty())
        } else {
            before.update(before.len() - 1, before.last().push(text.last()))
        }
    }
}

/// The pieces put together again with `sep` between them.
pub open spec fn join(pieces: Seq<Seq<char>>, sep: char) -> Seq<char>
    decreases pieces.len(),
{
    if pieces.len() == 0 {
        Seq::empty()
    } else if pieces.len() == 1 {
        pieces[0]
    } else {
        join(pieces.drop_last(), sep).push(sep) + pieces.last()
    }
}

/// How often `sep` occurs in `text`.
pub open spec fn occurrences(text: Seq<char>, sep: char) -> nat
    decreases text.len(),
{
    if text.len() == 0 {
        0
    } else {
        occurrences(text.drop_last(), sep) + if text.last() == sep {
            1nat
        } else {
            0nat
        }
    }
}

/// What `split_text` gives, said without recursion: one piece more than
/// there are separators, no separator inside a piece, and the text again
/// when the pieces are joined.
pub proof fn lemma_split_text(text: Seq<char>, sep: char)
    ensures
        split_text(text, sep).len() == occurrences(text, sep) + 1,
        forall|i: int|
            0 <= i < split_text(text, sep).len() ==> !(#[trigger] split_text(text, sep)[i]).contains(
                sep,
            ),
        join(split_text(text, sep), sep) == text,
    decreases text.len(),
{
    let pieces = split_text(text, sep);
    if text.len() == 0 {
        assert(join(pieces, sep) == text);
    } else {
        let before = split_text(text.drop_last(), sep);
        lemma_split_text(text.drop_last(), sep);
        if text.last() == sep {
            assert(pieces.drop_last() == before);
            assert(join(pieces, sep) == text.drop_last().push(sep) + Seq::<char>::empty());
            assert(text.drop_last().push(sep) + Seq::<char>::empty() == text);
            assert forall|i: int| 0 <= i < pieces.len() implies !(#[trigger] pieces[i]).contains(
                sep,
            ) by {
                if i < before.len() {
                    assert(pieces[i] == before[i]);
                }
            }
        } else {
            let last = before.last().push(text.last());
            assert forall|i: int| 0 <= i < pieces.len() implies !(#[trigger] pieces[i]).contains(
                sep,
            ) by {
                if i < before.len() - 1 {
                    assert(pieces[i] == before[i]);
                } else {
                    assert(pieces[i] == last);
                    assert(!before.last().contains(sep));
                    if last.contains(sep) {
                        let k = choose|k: int| 0 <= k < last.len() && last[k] == sep;
                        assert(before.last()[k] == sep);
                    }
                }
            }
            if before.len() == 1 {
                assert(join(before, sep) == before[0]);
                assert(join(pieces, sep) == last);
                assert(last == text);
            } else {
                assert(pieces.drop_last() == before.drop_last());
                let head = join(before.drop_last(), sep).push(sep);
                assert(join(before, sep) == head + before.last());
                assert(join(pieces, sep) == head + last);
                assert(head + last == (head + before.last()).push(text.last()));
                assert(text.drop_last().push(text.last()) == text);
            }
        }
    }
}

/// A text without the separator is its own single piece.
pub proof fn lemma_split_without_separator(text: Seq<char>, sep: char)
    requires
        !text.contains(sep),
    ensures
        split_text(text, sep) == seq![text],
    decreases text.len(),
{
    if text.len() == 0 {
        assert(text == Seq::<char>::empty());
    } else {
        let head = text.drop_last();
        assert(text[text.len() - 1] != sep);
        assert forall|i: int| 0 <= i < head.len() implies head[i] != sep by {
            assert(text[i] == head[i]);
        }
        lemma_split_without_separator(head, sep);
        assert(head.push(text.last()) == text);
        assert(split_text(text, sep) == seq![text]);
    }
}

/// Adding characters other than the separator to a text adds them to its
/// last piece.
pub proof fn lemma_split_grows_last_piece(text: Seq<char>, more: Seq<char>, sep: char)
    requires
        !more.contains(sep),
    ensures
        split_text(text + more, sep) == split_text(text, sep).update(
            split_text(text, sep).len() - 1,
            split_text(text, sep).last() + more,
        ),
    decreases more.len(),
{
    let pieces = split_text(text, sep);
    lemma_split_text(text, sep);
    if more.len() == 0 {
        assert(text + more == text);
        assert(pieces.last() + more == pieces.last());
        assert(pieces.update(pieces.len() - 1, pieces.last()) == pieces);
    } else {
        let head = more.drop_last();
        assert(more[more.len() - 1] != sep);
        assert forall|i: int| 0 <= i < head.len() implies head[i] != sep by {
            assert(more[i] == head[i]);
        }
        lemma_split_grows_last_piece(text, head, sep);
        assert((text + more).drop_last() == text + head);
        assert((text + more).last() == more.last());
        let grown = pieces.update(pieces.len() - 1, pieces.last() + head);
        assert(grown.update(grown.len() - 1, grown.last().push(more.last())) == pieces.update(
            pieces.len() - 1,
            pieces.last() + more,
        )) by {
            assert((pieces.last() + head).push(more.last()) == pieces.last() + more);
        }
    }
}

/// The pieces of a text are the only way to cut it: whatever pieces without
/// a separator are joined, at least one of them, cutting the joined text
/// gives them back.
pub proof fn lemma_split_of_join(pieces: Seq<Seq<char>>, sep: char)
    requires
        pieces.len() > 0,
        forall|i: int| 0 <= i < pieces.len() ==> !(#[trigger] pieces[i]).contains(sep),
    ensures
        split_text(join(pieces, sep), sep) == pieces,
    decreases pieces.len(),
{
    if pieces.len() == 1 {
        lemma_split_without_separator(pieces[0], sep);
        assert(seq![pieces[0]] == pieces);
    } else {
        let before = pieces.drop_last();
        assert forall|i: int| 0 <= i < before.len() implies !(#[trigger] before[i]).contains(
            sep,
        ) by {
            assert(before[i] == pieces[i]);
        }
        lemma_split_of_join(before, sep);
        let head = join(before, sep).push(sep);
        assert(head.drop_last() == join(before, sep));
        assert(split_text(head, sep) == before.push(Seq::<char>::empty()));
        lemma_split_grows_last_piece(head, pieces.last(), sep);
        assert(Seq::<char>::empty() + pieces.last() == pieces.last());
        assert(before.push(Seq::<char>::empty()).update(before.len() as int, pieces.last())
            == pieces);
    }
}

/// The texts that the strings of a vector hold.
pub open spec fn texts(strings: Seq<String>) -> Seq<Seq<char>> {
    Seq::new(strings.len(), |i: int| strings[i]@)
}

/// Cuts `text` at every `sep`.
pub fn split(text: &str, sep: char) -> (pieces: Vec<String>)
    ensures
        texts(pieces@) == split_text(text@, sep),
{
    let total = text.unicode_len();
    let mut pieces: Vec<String> = Vec::new();
    let mut start: usize = 0;
    let mut at: usize = 0;
    proof {
        assert(text@.take(0) == Seq::<char>::empty());
        assert(texts(pieces@).push(text@.subrange(0, 0)) == seq![Seq::<char>::empty()]);
    }
    for c in it: text.chars()
        invariant
            at == it.index(),
            it.seq() == text@,
            total == text@.len(),
            start <= at <= total,
            split_text(text@.take(at as int), sep) == texts(pieces@).push(
                text@.subrange(start as int, at as int),
            ),
    {
        let ghost seen = text@.take(at as int);
        let ghost more = text@.take(at + 1);
        let ghost open = text@.subrange(start as int, at as int);
        let ghost closed = texts(pieces@);
        proof {
            assert(more.drop_last() == seen);
            assert(more.last() == c);
        }
        if c == sep {
            pieces.push(text.substring_char(start, at).to_owned());
            start = at + 1;
            proof {
                assert(texts(pieces@) == closed.push(open));
                assert(text@.subrange(start as int, at + 1) == Seq::<char>::empty());
            }
        } else {
            proof {
                assert(open.push(c) == text@.subrange(start as int, at + 1));
                assert(closed.push(open).update(closed.len() as int, open.push(c))
                    == closed.push(open.push(c)));
            }
        }
        at = at + 1;
    }
    proof {
        assert(text@.take(total as int) == text@);
    }
    pieces.push(text.substring_char(start, total).to_owned());
    proof {
        assert(texts(pieces@) == split_text(text@, sep));
    }
    pieces
}

} // verus!
