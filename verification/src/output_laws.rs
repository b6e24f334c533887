//! Laws of what is read from the output of `tmux`.

use crate::kill::current_name;
use crate::split_window::shown_value;
use crate::text::{is_white, lines_of, pieces, trimmed, without};
use crate::text_laws::{
    law_lines_in_order, law_pieces_at_separator, law_pieces_whole, law_trimmed_between, law_without,
    law_without_parts,
};
use vstd::prelude::*;

verus! {

/// What is printed for a single value, with quotes around it or without.
#[verifier::opaque]
pub open spec fn shown_as(value: Seq<char>, quoted: bool) -> Seq<char> {
    if quoted {
        seq!['\''] + value + seq!['\'', '\n']
    } else {
        value + seq!['\n']
    }
}

/// There is no white space at the ends.
pub open spec fn bare(value: Seq<char>) -> bool {
    value.len() > 0 ==> !is_white(value.first()) && !is_white(value.last())
}

/// A value that was printed is read without the white space around it and without quotes, every other
/// character being kept.
pub proof fn law_shown_value(left: Seq<char>, text: Seq<char>, right: Seq<char>)
    requires
        forall|i: int| 0 <= i < left.len() ==> is_white(#[trigger] left[i]),
        forall|i: int| 0 <= i < right.len() ==> is_white(#[trigger] right[i]),
        bare(text),
    ensures
        shown_value(left + text + right) == without(text, '\''),
{
    law_trimmed_between(left, text, right);
}

/// Quotes around a text, or before it, are taken away.
pub proof fn lemma_unquoted(value: Seq<char>)
    requires
        !value.contains('\''),
    ensures
        without(seq!['\''] + value, '\'') == value,
        without(seq!['\''] + value + seq!['\''], '\'') == value,
{
    let quote = seq!['\''];
    let none = Seq::<char>::empty();
    law_without(value, '\'');
    law_without_parts(quote, value, '\'', '\'');
    law_without_parts(quote + value, quote, '\'', '\'');
    assert(none + value == value);
    assert(value + none == value);
}

/// A value without quotes is read back from what is printed for it.
pub proof fn law_value_is_read_back(value: Seq<char>, quoted: bool)
    requires
        bare(value),
        !value.contains('\''),
    ensures
        shown_value(shown_as(value, quoted)) == value,
{
    reveal(shown_as);
    let none = Seq::<char>::empty();
    let feed = seq!['\n'];
    assert(is_white('\n'));
    assert(forall|i: int| 0 <= i < feed.len() ==> #[trigger] feed[i] == '\n');
    if quoted {
        let text = seq!['\''] + value + seq!['\''];
        assert(text.first() == '\'' && text.last() == '\'');
        law_shown_value(none, text, feed);
        assert(none + text + feed == shown_as(value, quoted));
        lemma_unquoted(value);
    } else {
        law_shown_value(none, value, feed);
        assert(none + value + feed == shown_as(value, quoted));
        law_without(value, '\'');
    }
}

/// `a` and `b` are one text.
spec fn same(a: Seq<char>, b: Seq<char>) -> bool {
    a == b
}

/// Two removals after each other read the name of the current session.
proof fn lemma_current_name(output: Seq<char>)
    ensures
        same(current_name(output), without(without(output, '\''), '\n')),
{
}

/// The name of a session without quotes and line feeds is read back from what is printed for it.
pub proof fn law_current_name_is_read_back(name: Seq<char>, quoted: bool)
    requires
        !name.contains('\''),
        !name.contains('\n'),
    ensures
        current_name(shown_as(name, quoted)) == name,
{
    reveal(shown_as);
    let feed = seq!['\n'];
    let text = if quoted {
        seq!['\''] + name + seq!['\'']
    } else {
        name
    };
    lemma_current_name(shown_as(name, quoted));
    assert(shown_as(name, quoted) == text + feed);
    assert(without(text, '\'') == name) by {
        lemma_unquoted(name);
        law_without(name, '\'');
    }
    law_without_parts(text, feed, '\n', '\'');
    law_without_parts(name, feed, '\n', '\n');
    law_without(name, '\n');
    assert(name + Seq::<char>::empty() == name);
}

/// The current session is read from each part of the output by itself.
pub proof fn law_current_name_parts(a: Seq<char>, b: Seq<char>)
    ensures
        current_name(a + b) == current_name(a) + current_name(b),
{
    lemma_current_name(a + b);
    lemma_current_name(a);
    lemma_current_name(b);
    law_without_parts(a, b, 'x', '\'');
    law_without_parts(without(a, '\''), without(b, '\''), 'x', '\n');
}

/// What is printed for `rows`, one on each line.
#[verifier::opaque]
pub open spec fn printed(rows: Seq<Seq<char>>) -> Seq<char>
    decreases rows.len(),
{
    if rows.len() == 0 {
        Seq::<char>::empty()
    } else {
        rows[0] + seq!['\n'] + printed(rows.drop_first())
    }
}

/// Each of `rows` is on one line.
#[verifier::opaque]
pub open spec fn on_lines(rows: Seq<Seq<char>>) -> bool {
    forall|i: int| 0 <= i < rows.len() ==> !(#[trigger] rows[i]).contains('\n')
}

/// None of `rows` ends with a carriage return.
#[verifier::opaque]
pub open spec fn no_return(rows: Seq<Seq<char>>) -> bool {
    forall|i: int| 0 <= i < rows.len() ==> (#[trigger] rows[i]).len() > 0 ==> rows[i].last() != '\r'
}

/// What holds of all rows holds of all but the first.
pub proof fn lemma_fewer_rows(rows: Seq<Seq<char>>)
    requires
        rows.len() > 0,
    ensures
        on_lines(rows) ==> on_lines(rows.drop_first()),
        no_return(rows) ==> no_return(rows.drop_first()),
        rows == seq![rows[0]] + rows.drop_first(),
{
    reveal(on_lines);
    reveal(no_return);
    let rest = rows.drop_first();
    assert(forall|i: int| 0 <= i < rest.len() ==> #[trigger] rest[i] == rows[i + 1]);
    assert(rows =~= seq![rows[0]] + rest);
}

/// The lines of what is printed are what was printed.
pub proof fn law_printed_lines(rows: Seq<Seq<char>>)
    requires
        on_lines(rows),
        no_return(rows),
    ensures
        lines_of(printed(rows)) == rows,
        rows.len() > 0 ==> printed(rows).len() > 0,
    decreases rows.len(),
{
    reveal(printed);
    reveal(on_lines);
    reveal(no_return);
    if rows.len() == 0 {
        law_lines_in_order(Seq::<char>::empty(), Seq::<char>::empty());
        assert(lines_of(printed(rows)) == rows);
    } else {
        let first = rows[0];
        let rest = rows.drop_first();
        lemma_fewer_rows(rows);
        law_printed_lines(rest);
        assert(!first.contains('\n'));
        assert(first.len() > 0 ==> first.last() != '\r');
        law_lines_in_order(first, printed(rest));
    }
}

/// The pieces of what is printed are what was printed, and an empty one behind the last line feed.
pub proof fn law_printed_pieces(rows: Seq<Seq<char>>)
    requires
        on_lines(rows),
    ensures
        pieces(printed(rows), '\n') == rows.push(Seq::<char>::empty()),
    decreases rows.len(),
{
    reveal(printed);
    reveal(on_lines);
    if rows.len() == 0 {
        assert(pieces(printed(rows), '\n') == rows.push(Seq::<char>::empty()));
    } else {
        let first = rows[0];
        let rest = rows.drop_first();
        lemma_fewer_rows(rows);
        law_printed_pieces(rest);
        assert(!first.contains('\n'));
        law_pieces_whole(first, '\n');
        law_pieces_at_separator(first, '\n', printed(rest));
        assert(seq![first] + rest.push(Seq::<char>::empty()) == rows.push(Seq::<char>::empty()));
    }
}

/// What is printed ends with the last row and a line feed.
proof fn lemma_printed_end(rows: Seq<Seq<char>>)
    requires
        rows.len() > 0,
        rows.last().len() > 0,
    ensures
        printed(rows).len() >= 2,
        printed(rows).last() == '\n',
        printed(rows)[printed(rows).len() - 2] == rows.last().last(),
    decreases rows.len(),
{
    reveal(printed);
    let rest = rows.drop_first();
    let head = rows[0] + seq!['\n'];
    if rest.len() == 0 {
        assert(printed(rest) == Seq::<char>::empty());
        assert(printed(rows) == head);
    } else {
        assert(rest.last() == rows.last());
        lemma_printed_end(rest);
        assert(printed(rows) == head + printed(rest));
    }
}

/// Trimmed, what is printed has the rows as its pieces, where there is no white space before the first
/// or behind the last.
pub proof fn law_printed_and_trimmed(rows: Seq<Seq<char>>)
    requires
        rows.len() > 0,
        on_lines(rows),
        rows[0].len() > 0,
        !is_white(rows[0].first()),
        rows.last().len() > 0,
        !is_white(rows.last().last()),
    ensures
        pieces(trimmed(printed(rows)), '\n') == rows,
{
    let all = printed(rows);
    let body = all.drop_last();
    let none = Seq::<char>::empty();
    let feed = seq!['\n'];
    lemma_printed_end(rows);
    assert(all[0] == rows[0][0]) by {
        reveal(printed);
    }
    assert(is_white('\n'));
    assert(body.first() == rows[0].first());
    assert(body.last() == rows.last().last());
    assert(forall|i: int| 0 <= i < feed.len() ==> #[trigger] feed[i] == '\n');
    law_trimmed_between(none, body, feed);
    assert(none + body + feed == all);
    law_printed_pieces(rows);
    lemma_last_piece(all);
}

/// What stands before a line feed at the end has the pieces but the last, which is empty.
proof fn lemma_last_piece(s: Seq<char>)
    requires
        s.len() > 0,
        s.last() == '\n',
    ensures
        pieces(s.drop_last(), '\n') == pieces(s, '\n').drop_last(),
{
    assert(pieces(s, '\n') == pieces(s.drop_last(), '\n').push(Seq::<char>::empty()));
    assert(pieces(s, '\n').drop_last() =~= pieces(s.drop_last(), '\n'));
}

} // verus!
