//! The text form of a block list: one name per line, the lines separated by
//! newlines. The functions here are the mathematical account of that form;
//! `BlockList::parse` and `BlockList::render` are the code that follows it.

use vstd::prelude::*;

verus! {

/// The character that separates two lines.
pub const NEWLINE: char = '\n';

/// A text that can stand on one line.
pub open spec fn newline_free(line: Seq<char>) -> bool {
    forall|i: int| 0 <= i < line.len() ==> line[i] != NEWLINE
}

/// The pieces into which the newlines cut a text. There is always one more
/// piece than there are newlines; a piece may be empty.
pub open spec fn split_lines(text: Seq<char>) -> Seq<Seq<char>>
    decreases text.len(),
{
    if text.len() == 0 {
        seq![Seq::empty()]
    } else {
        let before = split_lines(text.drop_last());
        if text.last() == NEWLINE {
            before.push(Seq::empty())
        } else {
            before.drop_last().push(before.last().push(text.last()))
        }
    }
}

/// The names that a record holds: the pieces of its text, but for an empty
/// piece at the very end, which a final newline (or an empty text) leaves
/// behind and which names nobody.
pub open spec fn lines(text: Seq<char>) -> Seq<Seq<char>> {
    let pieces = split_lines(text);
    if pieces.last().len() == 0 {
        pieces.drop_last()
    } else {
        pieces
    }
}

/// The text of a record that holds `names`: the names in order, with one
/// newline between each two neighbours and none at the end.
pub open spec fn join_lines(names: Seq<Seq<char>>) -> Seq<char>
    decreases names.len(),
{
    if names.len() == 0 {
        Seq::empty()
    } else if names.len() == 1 {
        names[0]
    } else {
        join_lines(names.drop_last()) + seq![NEWLINE] + names.last()
    }
}

/// Every name of the list can stand on one line.
pub open spec fn all_newline_free(names: Seq<Seq<char>>) -> bool {
    forall|k: int| 0 <= k < names.len() ==> newline_free(#[trigger] names[k])
}

/// Cutting never yields nothing, and no piece holds a newline.
pub proof fn lemma_split_pieces(text: Seq<char>)
    ensures
        split_lines(text).len() >= 1,
        all_newline_free(split_lines(text)),
    decreases text.len(),
{
    if text.len() > 0 {
        lemma_split_pieces(text.drop_last());
    }
}

/// The names of a record can each stand on one line.
pub proof fn lemma_lines_newline_free(text: Seq<char>)
    ensures
        all_newline_free(lines(text)),
{
    lemma_split_pieces(text);
}

/// A text without a newline is a single piece.
pub proof fn lemma_split_single(line: Seq<char>)
    requires
        newline_free(line),
    ensures
        split_lines(line) == seq![line],
    decreases line.len(),
{
    if line.len() == 0 {
        assert(line =~= Seq::empty());
    } else {
        let shorter = line.drop_last();
        lemma_split_single(shorter);
        assert(shorter.push(line.last()) =~= line);
        assert(seq![shorter].drop_last().push(line) =~= seq![line]);
    }
}

/// Cutting goes piece by piece: the pieces of two texts with a newline
/// between them are the pieces of the first, then those of the second.
pub proof fn lemma_split_concat(text: Seq<char>, rest: Seq<char>)
    ensures
        split_lines(text + seq![NEWLINE] + rest) == split_lines(text) + split_lines(rest),
    decreases rest.len(),
{
    let whole = text + seq![NEWLINE] + rest;
    if rest.len() == 0 {
        assert(whole.drop_last() =~= text);
        assert(split_lines(text).push(Seq::empty()) =~= split_lines(text) + split_lines(rest));
    } else {
        let shorter = rest.drop_last();
        let tail = split_lines(shorter);
        let before = split_lines(text) + tail;
        lemma_split_concat(text, shorter);
        lemma_split_pieces(shorter);
        assert(whole.drop_last() =~= text + seq![NEWLINE] + shorter);
        if rest.last() == NEWLINE {
            assert(before.push(Seq::empty()) =~= split_lines(text) + tail.push(Seq::empty()));
        } else {
            assert(before.drop_last().push(before.last().push(rest.last())) =~= split_lines(text)
                + tail.drop_last().push(tail.last().push(rest.last())));
        }
    }
}

/// Cutting the text of a list gives the list back, as long as the list is
/// not empty and none of its names holds a newline.
pub proof fn lemma_split_of_join(names: Seq<Seq<char>>)
    requires
        names.len() >= 1,
        all_newline_free(names),
    ensures
        split_lines(join_lines(names)) == names,
    decreases names.len(),
{
    if names.len() == 1 {
        lemma_split_single(names[0]);
        assert(seq![names[0]] =~= names);
    } else {
        let front = names.drop_last();
        assert(all_newline_free(front)) by {
            assert forall|k: int| 0 <= k < front.len() implies newline_free(#[trigger] front[k]) by {
                assert(front[k] == names[k]);
            }
        }
        lemma_split_of_join(front);
        lemma_split_concat(join_lines(front), names.last());
        lemma_split_single(names.last());
        assert(front + seq![names.last()] =~= names);
    }
}

/// Joining the pieces of a text gives the text back.
pub proof fn lemma_join_of_split(text: Seq<char>)
    ensures
        join_lines(split_lines(text)) == text,
    decreases text.len(),
{
    if text.len() == 0 {
        assert(text =~= Seq::empty());
    } else {
        let shorter = text.drop_last();
        let before = split_lines(shorter);
        lemma_join_of_split(shorter);
        lemma_split_pieces(shorter);
        if text.last() == NEWLINE {
            assert(before.push(Seq::empty()).drop_last() =~= before);
            assert(shorter + seq![NEWLINE] + Seq::<char>::empty() =~= text);
        } else {
            let grown = before.drop_last().push(before.last().push(text.last()));
            assert(shorter.push(text.last()) =~= text);
            if before.len() == 1 {
                assert(before[0] == shorter);
            } else {
                assert(grown.drop_last() =~= before.drop_last());
                assert(join_lines(before.drop_last()) + seq![NEWLINE] + before.last().push(
                    text.last(),
                ) =~= (join_lines(before.drop_last()) + seq![NEWLINE] + before.last()).push(
                    text.last(),
                ));
            }
        }
    }
}

/// What is read is what was written: the names of a text, joined again,
/// give the text back, but for a newline at its very end.
pub proof fn lemma_join_of_lines(text: Seq<char>)
    ensures
        join_lines(lines(text)) == if text.len() > 0 && text.last() == NEWLINE {
            text.drop_last()
        } else {
            text
        },
{
    if text.len() == 0 {
        assert(seq![Seq::<char>::empty()].drop_last() =~= Seq::<Seq<char>>::empty());
        assert(text =~= Seq::empty());
    } else if text.last() == NEWLINE {
        let before = split_lines(text.drop_last());
        assert(before.push(Seq::empty()).drop_last() =~= before);
        lemma_join_of_split(text.drop_last());
    } else {
        lemma_split_pieces(text.drop_last());
        lemma_join_of_split(text);
    }
}

/// What is written is what is read: a list whose names hold no newline, and
/// whose last name is not empty, is the list of names of its own text.
pub proof fn lemma_lines_of_join(names: Seq<Seq<char>>)
    requires
        all_newline_free(names),
        names.len() > 0 ==> names.last().len() > 0,
    ensures
        lines(join_lines(names)) == names,
{
    if names.len() == 0 {
        assert(seq![Seq::<char>::empty()].drop_last() =~= names);
    } else {
        lemma_split_of_join(names);
    }
}

/// A newline after the last name is of no account: where a text ends in a
/// line that is not empty, a newline behind it leaves the names as they are.
pub proof fn lemma_trailing_newline(text: Seq<char>)
    requires
        split_lines(text).last().len() > 0,
    ensures
        lines(text.push(NEWLINE)) == lines(text),
{
    assert(text.push(NEWLINE).drop_last() =~= text);
    assert(split_lines(text).push(Seq::empty()).drop_last() =~= split_lines(text));
}

} // verus!
