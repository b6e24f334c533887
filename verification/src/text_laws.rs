//! Laws of the text operations.

use crate::text::{
    char_replaced, is_white, joined, lemma_pieces_nonempty, lines_of, other_than, pieces, replaced,
    trimmed, trimmed_end, trimmed_start, without, without_cr,
};
use vstd::prelude::*;

verus! {

/// Splitting loses nothing: the pieces, put together again, are the text.
pub proof fn law_pieces_join(s: Seq<char>, c: char)
    ensures
        joined(pieces(s, c), c) == s,
    decreases s.len(),
{
    if s.len() > 0 {
        let before = pieces(s.drop_last(), c);
        law_pieces_join(s.drop_last(), c);
        lemma_pieces_nonempty(s.drop_last(), c);
        let after = pieces(s, c);
        if s.last() == c {
            assert(after.drop_last() =~= before);
            assert(joined(after, c) =~= s);
        } else {
            assert(after.drop_last() =~= before.drop_last());
            assert(joined(after, c) =~= joined(before, c).push(s.last()));
            assert(joined(after, c) =~= s);
        }
    }
}

/// No piece holds the character at which the text was split.
pub proof fn law_pieces_clean(s: Seq<char>, c: char)
    ensures
        forall|i: int| 0 <= i < pieces(s, c).len() ==> !(#[trigger] pieces(s, c)[i]).contains(c),
    decreases s.len(),
{
    if s.len() > 0 {
        let before = pieces(s.drop_last(), c);
        law_pieces_clean(s.drop_last(), c);
        lemma_pieces_nonempty(s.drop_last(), c);
        assert forall|i: int| 0 <= i < pieces(s, c).len() implies !(#[trigger] pieces(
            s,
            c,
        )[i]).contains(c) by {
            let piece = pieces(s, c)[i];
            if s.last() == c {
                if i < before.len() {
                    assert(piece == before[i]);
                }
            } else if i < before.len() - 1 {
                assert(piece == before[i]);
            } else {
                assert(piece == before.last().push(s.last()));
                assert(!before[before.len() - 1].contains(c));
                if piece.contains(c) {
                    let k = choose|k: int| 0 <= k < piece.len() && piece[k] == c;
                    assert(before.last()[k] == c);
                }
            }
        }
    }
}

/// A text without the character is its own only piece.
pub proof fn law_pieces_whole(s: Seq<char>, c: char)
    requires
        !s.contains(c),
    ensures
        pieces(s, c) == seq![s],
    decreases s.len(),
{
    if s.len() > 0 {
        assert(s.last() != c) by {
            assert(s[s.len() - 1] == s.last());
        }
        assert forall|i: int| 0 <= i < s.drop_last().len() implies s.drop_last()[i] != c by {
            assert(s[i] != c);
        }
        law_pieces_whole(s.drop_last(), c);
        assert(s.drop_last().push(s.last()) =~= s);
        assert(pieces(s, c) =~= seq![s]);
    } else {
        assert(s =~= Seq::<char>::empty());
        assert(pieces(s, c) =~= seq![s]);
    }
}

/// No line holds a line feed.
pub proof fn law_lines_clean(s: Seq<char>)
    ensures
        forall|i: int| 0 <= i < lines_of(s).len() ==> !(#[trigger] lines_of(s)[i]).contains('\n'),
{
    law_pieces_clean(s, '\n');
    lemma_pieces_nonempty(s, '\n');
    assert forall|i: int| 0 <= i < lines_of(s).len() implies !(#[trigger] lines_of(s)[i]).contains(
        '\n',
    ) by {
        let piece = pieces(s, '\n')[i];
        assert(!piece.contains('\n'));
        let line = lines_of(s)[i];
        assert(line == piece || line == without_cr(piece));
        if line.contains('\n') {
            let k = choose|k: int| 0 <= k < line.len() && line[k] == '\n';
            assert(piece[k] == '\n');
        }
    }
}

/// Only an empty text has no line.
pub proof fn law_lines_empty(s: Seq<char>)
    ensures
        lines_of(s).len() == 0 <==> s.len() == 0,
{
    lemma_pieces_nonempty(s, '\n');
    law_pieces_join(s, '\n');
    let parts = pieces(s, '\n');
    if lines_of(s).len() == 0 {
        assert(parts.len() == 1);
        assert(joined(parts, '\n') == parts[0]);
    }
}

/// Trimming takes away white space only, and leaves none at the ends.
pub proof fn law_trimmed(s: Seq<char>)
    ensures
        exists|from: int, to: int|
            0 <= from <= to <= s.len() && trimmed(s) == #[trigger] s.subrange(from, to) && (forall|
                i: int,
            |
                0 <= i < from || to <= i < s.len() ==> is_white(#[trigger] s[i])),
        trimmed(s).len() > 0 ==> !is_white(trimmed(s).first()) && !is_white(trimmed(s).last()),
{
    lemma_trimmed_start(s);
    let rest = trimmed_start(s);
    lemma_trimmed_end(rest);
    let from = s.len() - rest.len();
    let to = from + trimmed(s).len();
    assert(trimmed(s) =~= s.subrange(from, to));
    assert forall|i: int| 0 <= i < from || to <= i < s.len() implies is_white(#[trigger] s[i]) by {
        if to <= i {
            assert(rest[i - from] == s[i]);
        }
    }
}

proof fn lemma_trimmed_start(s: Seq<char>)
    ensures
        trimmed_start(s).len() <= s.len(),
        trimmed_start(s) == s.skip(s.len() - trimmed_start(s).len()),
        forall|i: int| 0 <= i < s.len() - trimmed_start(s).len() ==> is_white(#[trigger] s[i]),
        trimmed_start(s).len() > 0 ==> !is_white(trimmed_start(s).first()),
    decreases s.len(),
{
    if s.len() > 0 && is_white(s.first()) {
        let rest = s.drop_first();
        lemma_trimmed_start(rest);
        let gone = s.len() - trimmed_start(s).len();
        assert(trimmed_start(s) =~= s.skip(gone));
        assert forall|i: int| 0 <= i < gone implies is_white(#[trigger] s[i]) by {
            if i > 0 {
                assert(rest[i - 1] == s[i]);
            }
        }
    } else {
        assert(s.skip(0) =~= s);
    }
}

proof fn lemma_trimmed_end(s: Seq<char>)
    ensures
        trimmed_end(s).len() <= s.len(),
        trimmed_end(s) == s.take(trimmed_end(s).len() as int),
        forall|i: int| trimmed_end(s).len() <= i < s.len() ==> is_white(#[trigger] s[i]),
        trimmed_end(s).len() > 0 ==> !is_white(trimmed_end(s).last()),
    decreases s.len(),
{
    if s.len() > 0 && is_white(s.last()) {
        let rest = s.drop_last();
        lemma_trimmed_end(rest);
        assert(trimmed_end(s) =~= s.take(trimmed_end(s).len() as int));
        assert forall|i: int| trimmed_end(s).len() <= i < s.len() implies is_white(
            #[trigger] s[i],
        ) by {
            if i < rest.len() {
                assert(rest[i] == s[i]);
            }
        }
    } else {
        assert(s.take(s.len() as int) =~= s);
    }
}

/// What has been removed does not occur any more, and what was not there is not missed.
pub proof fn law_without(s: Seq<char>, c: char)
    ensures
        !without(s, c).contains(c),
        !s.contains(c) ==> without(s, c) == s,
    decreases s.len(),
{
    reveal(Seq::filter);
    if s.len() > 0 {
        let rest = s.drop_last();
        law_without(rest, c);
        let kept = without(rest, c);
        if s.last() != c {
            assert(without(s, c) == kept.push(s.last()));
            if without(s, c).contains(c) {
                let k = choose|k: int|
                    0 <= k < without(s, c).len() && without(s, c)[k] == c;
                assert(kept[k] == c);
            }
        }
        if !s.contains(c) {
            assert(s[s.len() - 1] == s.last());
            assert forall|i: int| 0 <= i < rest.len() implies rest[i] != c by {
                assert(s[i] != c);
            }
            assert(rest.push(s.last()) =~= s);
        }
    }
}

/// A character that has been replaced by another does not occur any more.
pub proof fn law_char_replaced(s: Seq<char>, from: char, to: char)
    requires
        from != to,
    ensures
        !char_replaced(s, from, to).contains(from),
        char_replaced(s, from, to).len() == s.len(),
        !s.contains(from) ==> char_replaced(s, from, to) == s,
{
    if !s.contains(from) {
        assert(char_replaced(s, from, to) =~= s);
    }
}

/// Where the pattern does not occur, nothing is replaced.
pub proof fn law_replaced_absent(s: Seq<char>, pattern: Seq<char>, with: Seq<char>)
    requires
        pattern.len() > 0,
        forall|i: int| 0 <= i <= s.len() ==> !pattern.is_prefix_of(#[trigger] s.skip(i)),
    ensures
        replaced(s, pattern, with) == s,
    decreases s.len(),
{
    if s.len() > 0 {
        assert(s.skip(0) =~= s);
        let rest = s.drop_first();
        assert forall|i: int| 0 <= i <= rest.len() implies !pattern.is_prefix_of(
            #[trigger] rest.skip(i),
        ) by {
            assert(rest.skip(i) =~= s.skip(i + 1));
        }
        law_replaced_absent(rest, pattern, with);
        assert(seq![s[0]] + rest =~= s);
    }
}

/// Replacing a text by itself changes nothing.
pub proof fn law_replaced_by_itself(s: Seq<char>, pattern: Seq<char>)
    ensures
        replaced(s, pattern, pattern) == s,
    decreases s.len(),
{
    if s.len() > 0 {
        if pattern.len() > 0 && pattern.is_prefix_of(s) {
            law_replaced_by_itself(s.skip(pattern.len() as int), pattern);
            assert(pattern + s.skip(pattern.len() as int) =~= s);
        } else {
            law_replaced_by_itself(s.drop_first(), pattern);
            assert(seq![s[0]] + s.drop_first() =~= s);
            assert(pattern.len() == 0 ==> pattern + seq![s[0]] + s.drop_first() =~= s);
        }
    } else {
        assert(pattern.len() == 0 ==> pattern =~= s);
    }
}

/// Holds of every text but the empty one.
pub open spec fn not_empty() -> spec_fn(Seq<char>) -> bool {
    |s: Seq<char>| s.len() > 0
}

/// The pieces that are not empty, in order.
pub open spec fn filled_pieces(s: Seq<char>, c: char) -> Seq<Seq<char>> {
    pieces(s, c).filter(not_empty())
}

/// A character in front belongs to the first piece, or opens one of its own.
pub proof fn law_pieces_from_the_left(x: char, s: Seq<char>, c: char)
    ensures
        x == c ==> pieces(seq![x] + s, c) == seq![Seq::<char>::empty()] + pieces(s, c),
        x != c ==> pieces(seq![x] + s, c) == seq![seq![x] + pieces(s, c)[0]] + pieces(
            s,
            c,
        ).drop_first(),
    decreases s.len(),
{
    let all = seq![x] + s;
    reveal_with_fuel(pieces, 2);
    lemma_pieces_nonempty(s, c);
    if s.len() == 0 {
        assert(all.drop_last() =~= Seq::<char>::empty());
        assert(s =~= Seq::<char>::empty());
        let first = seq![Seq::<char>::empty()];
        assert(pieces(s, c) =~= first);
        if x == c {
            assert(pieces(all, c) =~= first + first);
        } else {
            assert(first.last().push(x) =~= seq![x] + first[0]);
            assert(pieces(all, c) =~= seq![seq![x] + first[0]] + first.drop_first());
        }
    } else {
        let rest = s.drop_last();
        law_pieces_from_the_left(x, rest, c);
        lemma_pieces_nonempty(rest, c);
        assert(all.drop_last() =~= seq![x] + rest);
        assert(all.last() == s.last());
        let before = pieces(rest, c);
        let after = pieces(s, c);
        let longer = pieces(seq![x] + rest, c);
        if x == c {
            assert(longer.last() == before.last());
            assert(pieces(all, c) =~= seq![Seq::<char>::empty()] + after);
        } else if s.last() == c {
            assert(after[0] == before[0]);
            assert(pieces(all, c) =~= seq![seq![x] + after[0]] + after.drop_first());
        } else if before.len() == 1 {
            assert((seq![x] + before[0]).push(s.last()) =~= seq![x] + before[0].push(s.last()));
            assert(pieces(all, c) =~= seq![seq![x] + after[0]] + after.drop_first());
        } else {
            assert(longer.last() == before.last());
            assert(after[0] == before[0]);
            assert(pieces(all, c) =~= seq![seq![x] + after[0]] + after.drop_first());
        }
    }
}

/// The filled pieces of a text with a character in front.
proof fn lemma_filled_from_the_left(x: char, s: Seq<char>, c: char)
    ensures
        x == c ==> filled_pieces(seq![x] + s, c) == filled_pieces(s, c),
        x != c ==> filled_pieces(seq![x] + s, c) == seq![seq![x] + pieces(s, c)[0]] + pieces(
            s,
            c,
        ).drop_first().filter(not_empty()),
        filled_pieces(s, c) == (if pieces(s, c)[0].len() > 0 {
            seq![pieces(s, c)[0]]
        } else {
            Seq::<Seq<char>>::empty()
        }) + pieces(s, c).drop_first().filter(not_empty()),
{
    law_pieces_from_the_left(x, s, c);
    lemma_pieces_nonempty(s, c);
    let all = pieces(s, c);
    let empty = seq![Seq::<char>::empty()];
    let longer = seq![seq![x] + all[0]];
    assert(all =~= seq![all[0]] + all.drop_first());
    Seq::filter_distributes_over_add(seq![all[0]], all.drop_first(), not_empty());
    Seq::filter_distributes_over_add(empty, all, not_empty());
    Seq::filter_distributes_over_add(longer, all.drop_first(), not_empty());
    reveal(Seq::filter);
    let none = Seq::<Seq<char>>::empty();
    assert(none.filter(not_empty()) =~= none);
    assert(empty.drop_last() =~= none);
    assert(empty.filter(not_empty()) =~= none);
    assert(longer.drop_last() =~= none);
    assert(longer.filter(not_empty()) =~= longer);
    assert(seq![all[0]].drop_last() =~= none);
    assert(seq![all[0]].filter(not_empty()) =~= (if all[0].len() > 0 {
        seq![all[0]]
    } else {
        none
    }));
    assert(none + filled_pieces(s, c) =~= filled_pieces(s, c));
}

/// Making one of two separators in a row takes away empty pieces only.
pub proof fn law_closing_up_keeps_filled_pieces(s: Seq<char>, c: char)
    ensures
        filled_pieces(replaced(s, seq![c, c], seq![c]), c) == filled_pieces(s, c),
        pieces(replaced(s, seq![c, c], seq![c]), c)[0] == pieces(s, c)[0],
    decreases s.len(),
{
    let two = seq![c, c];
    let one = seq![c];
    if s.len() > 0 {
        if two.is_prefix_of(s) {
            let rest = s.skip(2);
            law_closing_up_keeps_filled_pieces(rest, c);
            assert(s[0] == two[0] && s[1] == two[1]);
            assert(s =~= one + (one + rest));
            lemma_filled_from_the_left(c, rest, c);
            lemma_filled_from_the_left(c, one + rest, c);
            lemma_filled_from_the_left(c, replaced(rest, two, one), c);
            law_pieces_from_the_left(c, one + rest, c);
            law_pieces_from_the_left(c, replaced(rest, two, one), c);
        } else {
            let x = s[0];
            let rest = s.drop_first();
            law_closing_up_keeps_filled_pieces(rest, c);
            assert(s =~= seq![x] + rest);
            let closed = replaced(rest, two, one);
            lemma_filled_from_the_left(x, rest, c);
            lemma_filled_from_the_left(x, closed, c);
            law_pieces_from_the_left(x, rest, c);
            law_pieces_from_the_left(x, closed, c);
            let a = pieces(rest, c).drop_first().filter(not_empty());
            let b = pieces(closed, c).drop_first().filter(not_empty());
            assert(a =~= b) by {
                let head = if pieces(rest, c)[0].len() > 0 {
                    seq![pieces(rest, c)[0]]
                } else {
                    Seq::<Seq<char>>::empty()
                };
                assert((head + a).skip(head.len() as int) =~= a);
                assert((head + b).skip(head.len() as int) =~= b);
            }
        }
    }
}

/// There are no three `c` in a row.
pub open spec fn no_three(s: Seq<char>, c: char) -> bool {
    forall|i: int| 1 < i < s.len() ==> !(s[i - 2] == c && s[i - 1] == c && #[trigger] s[i] == c)
}

/// There are no two `c` in a row.
pub open spec fn no_two(s: Seq<char>, c: char) -> bool {
    forall|i: int| 0 < i < s.len() ==> !(s[i - 1] == c && #[trigger] s[i] == c)
}

/// Where there are no three separators in a row, making one of two leaves no two in a row.
pub proof fn law_closing_up_leaves_no_pair(s: Seq<char>, c: char)
    requires
        no_three(s, c),
    ensures
        ({
            let t = replaced(s, seq![c, c], seq![c]);
            &&& no_two(t, c)
            &&& t.len() == 0 <==> s.len() == 0
            &&& s.len() > 0 ==> t[0] == s[0]
        }),
    decreases s.len(),
{
    let two = seq![c, c];
    let one = seq![c];
    if s.len() > 0 {
        let gone: int = if two.is_prefix_of(s) {
            2
        } else {
            1
        };
        let rest = s.skip(gone);
        assert(s.skip(1) =~= s.drop_first());
        assert forall|i: int| 1 < i < rest.len() implies !(rest[i - 2] == c && rest[i - 1] == c
            && #[trigger] rest[i] == c) by {
            assert(s[i + gone] == rest[i]);
        }
        law_closing_up_leaves_no_pair(rest, c);
        let t = replaced(s, two, one);
        let u = replaced(rest, two, one);
        assert(t =~= seq![s[0]] + u) by {
            if gone == 2 {
                assert(s[0] == two[0]);
            }
        }
        if u.len() > 0 && s[0] == c {
            if gone == 2 {
                assert(s[0] == two[0] && s[1] == two[1]);
                assert(rest[0] == s[2]);
            } else {
                if rest[0] == c {
                    assert(two =~= s.subrange(0, 2));
                }
            }
            assert(u[0] != c);
        }
        assert forall|i: int| 0 < i < t.len() implies !(t[i - 1] == c && #[trigger] t[i] == c) by {
            if i > 1 {
                assert(t[i] == u[i - 1] && t[i - 1] == u[i - 2]);
            }
        }
    }
}

/// No filled piece has white space at its ends.
pub open spec fn tight(s: Seq<char>, c: char) -> bool {
    forall|i: int|
        0 <= i < filled_pieces(s, c).len() ==> !is_white((#[trigger] filled_pieces(
            s,
            c,
        )[i]).first()) && !is_white(filled_pieces(s, c)[i].last())
}

/// Trimming a text whose filled pieces have no white space at their ends takes away separators only.
pub proof fn law_trimming_keeps_filled_pieces(s: Seq<char>, c: char)
    requires
        is_white(c),
        tight(s, c),
    ensures
        filled_pieces(trimmed(s), c) == filled_pieces(s, c),
{
    lemma_trimming_start(s, c);
    lemma_trimming_end(trimmed_start(s), c);
}

/// The same, at the start.
proof fn lemma_trimming_start(s: Seq<char>, c: char)
    requires
        is_white(c),
        tight(s, c),
    ensures
        filled_pieces(trimmed_start(s), c) == filled_pieces(s, c),
    decreases s.len(),
{
    if s.len() > 0 && is_white(s.first()) {
        let x = s[0];
        let rest = s.drop_first();
        assert(s =~= seq![x] + rest);
        lemma_filled_from_the_left(x, rest, c);
        if x != c {
            let piece = filled_pieces(s, c)[0];
            assert(piece.first() == x);
        }
        lemma_trimming_start(rest, c);
    }
}

/// The same, at the end.
proof fn lemma_trimming_end(s: Seq<char>, c: char)
    requires
        is_white(c),
        tight(s, c),
    ensures
        filled_pieces(trimmed_end(s), c) == filled_pieces(s, c),
    decreases s.len(),
{
    if s.len() > 0 && is_white(s.last()) {
        let rest = s.drop_last();
        reveal(Seq::filter);
        let all = pieces(s, c);
        if s.last() == c {
            assert(all.drop_last() =~= pieces(rest, c));
            assert(all.last().len() == 0);
            assert(filled_pieces(s, c) == filled_pieces(rest, c));
        } else {
            assert(all.last().last() == s.last());
            let filled = filled_pieces(s, c);
            assert(filled == all.drop_last().filter(not_empty()).push(all.last()));
            assert(is_white(filled_pieces(s, c)[filled.len() - 1].last()));
        }
        lemma_trimming_end(rest, c);
    }
}

/// A text without separators at its ends and without two in a row has filled pieces only.
pub proof fn law_all_pieces_filled(s: Seq<char>, c: char)
    requires
        s.len() > 0,
        s.first() != c,
        s.last() != c,
        no_two(s, c),
    ensures
        filled_pieces(s, c) == pieces(s, c),
{
    lemma_pieces_but_last(s, c);
    let all = pieces(s, c);
    lemma_pieces_nonempty(s, c);
    assert(all[all.len() - 1] == all.last());
    lemma_all_kept(all);
}

/// All pieces are filled, but for the last where a separator stands at the end.
proof fn lemma_pieces_but_last(s: Seq<char>, c: char)
    requires
        s.len() > 0,
        s.first() != c,
        no_two(s, c),
    ensures
        forall|i: int|
            0 <= i < pieces(s, c).len() - 1 ==> (#[trigger] pieces(s, c)[i]).len() > 0,
        s.last() != c ==> pieces(s, c).last().len() > 0,
    decreases s.len(),
{
    let rest = s.drop_last();
    lemma_pieces_nonempty(rest, c);
    if s.len() > 1 {
        assert forall|i: int| 0 < i < rest.len() implies !(rest[i - 1] == c && #[trigger] rest[i]
            == c) by {
            assert(s[i] == rest[i]);
        }
        lemma_pieces_but_last(rest, c);
        let before = pieces(rest, c);
        let all = pieces(s, c);
        if s.last() == c {
            assert(s[s.len() - 1] == c);
            assert(rest.last() != c);
            assert forall|i: int| 0 <= i < all.len() - 1 implies (#[trigger] all[i]).len() > 0 by {
                assert(all[i] == before[i]);
                assert(before[before.len() - 1] == before.last());
            }
        } else {
            assert forall|i: int| 0 <= i < all.len() - 1 implies (#[trigger] all[i]).len() > 0 by {
                assert(all[i] == before[i]);
            }
        }
    } else {
        assert(rest =~= Seq::<char>::empty());
        assert(s.last() == s.first());
        reveal_with_fuel(pieces, 2);
    }
}

/// A list without empty texts keeps all of them.
proof fn lemma_all_kept(list: Seq<Seq<char>>)
    requires
        forall|i: int| 0 <= i < list.len() ==> (#[trigger] list[i]).len() > 0,
    ensures
        list.filter(not_empty()) == list,
    decreases list.len(),
{
    reveal(Seq::filter);
    if list.len() > 0 {
        let rest = list.drop_last();
        assert(list[list.len() - 1] == list.last());
        assert forall|i: int| 0 <= i < rest.len() implies (#[trigger] rest[i]).len() > 0 by {
            assert(list[i] == rest[i]);
        }
        lemma_all_kept(rest);
    }
}

/// Removing a character takes exactly its occurrences away: it works on each part of a text by itself,
/// and of a single character it leaves nothing or all.
pub proof fn law_without_parts(a: Seq<char>, b: Seq<char>, x: char, c: char)
    ensures
        without(a + b, c) == without(a, c) + without(b, c),
        without(seq![x], c) == if x == c {
            Seq::<char>::empty()
        } else {
            seq![x]
        },
{
    Seq::filter_distributes_over_add(a, b, other_than(c));
    reveal(Seq::filter);
    let none = Seq::<char>::empty();
    assert(seq![x].drop_last() =~= none);
    assert(none.filter(other_than(c)) =~= none);
    assert(without(seq![x], c) =~= if x == c {
        none
    } else {
        seq![x]
    });
}

/// Trimming gives back a text that stands between white space, whatever is inside it.
pub proof fn law_trimmed_between(left: Seq<char>, s: Seq<char>, right: Seq<char>)
    requires
        forall|i: int| 0 <= i < left.len() ==> is_white(#[trigger] left[i]),
        forall|i: int| 0 <= i < right.len() ==> is_white(#[trigger] right[i]),
        s.len() > 0 ==> !is_white(s.first()) && !is_white(s.last()),
    ensures
        trimmed(left + s + right) == s,
{
    assert(left + s + right =~= left + (s + right));
    lemma_trims_left(left, s + right);
    if s.len() == 0 {
        assert(s + right =~= right);
        assert(right + Seq::<char>::empty() =~= right);
        lemma_trims_left(right, Seq::<char>::empty());
        assert(trimmed_start(Seq::<char>::empty()) =~= Seq::<char>::empty());
        assert(s =~= Seq::<char>::empty());
        assert(trimmed_end(Seq::<char>::empty()) =~= s);
    } else {
        assert((s + right).first() == s.first());
        lemma_trims_right(s, right);
    }
}

/// White space in front is skipped.
proof fn lemma_trims_left(left: Seq<char>, s: Seq<char>)
    requires
        forall|i: int| 0 <= i < left.len() ==> is_white(#[trigger] left[i]),
    ensures
        trimmed_start(left + s) == trimmed_start(s),
    decreases left.len(),
{
    if left.len() == 0 {
        assert(left + s =~= s);
    } else {
        let rest = left.drop_first();
        assert(is_white(left[0]));
        assert((left + s).first() == left[0]);
        assert((left + s).drop_first() =~= rest + s);
        assert forall|i: int| 0 <= i < rest.len() implies is_white(#[trigger] rest[i]) by {
            assert(is_white(left[i + 1]));
        }
        lemma_trims_left(rest, s);
    }
}

/// White space behind is skipped.
proof fn lemma_trims_right(s: Seq<char>, right: Seq<char>)
    requires
        forall|i: int| 0 <= i < right.len() ==> is_white(#[trigger] right[i]),
        s.len() > 0,
        !is_white(s.last()),
    ensures
        trimmed_end(s + right) == s,
    decreases right.len(),
{
    if right.len() == 0 {
        assert(s + right =~= s);
    } else {
        let rest = right.drop_last();
        assert(is_white(right[right.len() - 1]));
        assert((s + right).last() == right[right.len() - 1]);
        assert((s + right).drop_last() =~= s + rest);
        assert forall|i: int| 0 <= i < rest.len() implies is_white(#[trigger] rest[i]) by {
            assert(is_white(right[i]));
        }
        lemma_trims_right(s, rest);
    }
}

/// Replacing a character keeps every other one in its place.
pub proof fn law_char_replaced_in_place(s: Seq<char>, from: char, to: char)
    ensures
        char_replaced(s, from, to).len() == s.len(),
        forall|i: int|
            0 <= i < s.len() ==> #[trigger] char_replaced(s, from, to)[i] == if s[i] == from {
                to
            } else {
                s[i]
            },
{
}

/// `pattern` stands at `at` in `s`.
pub open spec fn stands_at(s: Seq<char>, pattern: Seq<char>, at: int) -> bool {
    0 <= at <= at + pattern.len() <= s.len() && s.subrange(at, at + pattern.len()) == pattern
}

/// The first occurrence of a pattern is replaced whole by the whole new text, what stands before it
/// is kept, and what stands after it is dealt with in the same way.
pub proof fn law_replaced_first(a: Seq<char>, pattern: Seq<char>, b: Seq<char>, with: Seq<char>)
    requires
        pattern.len() > 0,
        forall|i: int| 0 <= i < a.len() ==> !#[trigger] stands_at(a + pattern + b, pattern, i),
    ensures
        replaced(a + pattern + b, pattern, with) == a + with + replaced(b, pattern, with),
    decreases a.len(),
{
    let s = a + pattern + b;
    if a.len() == 0 {
        assert(s.skip(pattern.len() as int) =~= b);
        assert(pattern =~= s.subrange(0, pattern.len() as int));
        assert(pattern.is_prefix_of(s));
        assert(a + with =~= with);
    } else {
        let rest = a.drop_first();
        let t = rest + pattern + b;
        assert(s.drop_first() =~= t);
        assert(!stands_at(s, pattern, 0));
        assert(!pattern.is_prefix_of(s));
        assert forall|i: int| 0 <= i < rest.len() implies !#[trigger] stands_at(t, pattern, i) by {
            assert(!stands_at(s, pattern, i + 1));
            if stands_at(t, pattern, i) {
                assert(s.subrange(i + 1, i + 1 + pattern.len()) =~= t.subrange(
                    i,
                    i + pattern.len(),
                ));
            }
        }
        law_replaced_first(rest, pattern, b, with);
        assert(seq![s[0]] + (rest + with + replaced(b, pattern, with)) =~= a + with + replaced(
            b,
            pattern,
            with,
        ));
    }
}

/// Where a pattern stands nowhere, replacing changes nothing; where it stands in one place, it is
/// replaced there and everything else is kept.
pub proof fn law_replaced_once(a: Seq<char>, pattern: Seq<char>, b: Seq<char>, with: Seq<char>)
    requires
        pattern.len() > 0,
        forall|i: int| i != a.len() ==> !#[trigger] stands_at(a + pattern + b, pattern, i),
    ensures
        replaced(a + pattern + b, pattern, with) == a + with + b,
{
    law_replaced_first(a, pattern, b, with);
    let s = a + pattern + b;
    assert forall|i: int| !#[trigger] stands_at(b, pattern, i) by {
        let j = i + a.len() + pattern.len();
        assert(j > a.len() || !stands_at(b, pattern, i));
        if stands_at(b, pattern, i) {
            assert(s.subrange(j, j + pattern.len()) =~= b.subrange(i, i + pattern.len()));
            assert(stands_at(s, pattern, j));
        }
    }
    law_replaced_nowhere(b, pattern, with);
}

/// Where a pattern stands nowhere, replacing changes nothing.
pub proof fn law_replaced_nowhere(s: Seq<char>, pattern: Seq<char>, with: Seq<char>)
    requires
        pattern.len() > 0,
        forall|i: int| !#[trigger] stands_at(s, pattern, i),
    ensures
        replaced(s, pattern, with) == s,
{
    assert forall|i: int| 0 <= i <= s.len() implies !pattern.is_prefix_of(
        #[trigger] s.skip(i),
    ) by {
        assert(!stands_at(s, pattern, i));
        if pattern.is_prefix_of(s.skip(i)) {
            assert(s.subrange(i, i + pattern.len()) =~= s.skip(i).subrange(
                0,
                pattern.len() as int,
            ));
        }
    }
    law_replaced_absent(s, pattern, with);
}

/// The empty pattern stands before every character and at the end.
pub proof fn law_replaced_empty(x: char, s: Seq<char>, with: Seq<char>)
    ensures
        replaced(Seq::<char>::empty(), Seq::<char>::empty(), with) == with,
        replaced(seq![x] + s, Seq::<char>::empty(), with) == with + seq![x] + replaced(
            s,
            Seq::<char>::empty(),
            with,
        ),
{
    assert((seq![x] + s).drop_first() =~= s);
}

/// A separator ends the pieces before it and begins those after it.
pub proof fn law_pieces_at_separator(a: Seq<char>, c: char, b: Seq<char>)
    ensures
        pieces(a + seq![c] + b, c) == pieces(a, c) + pieces(b, c),
    decreases b.len(),
{
    let s = a + seq![c] + b;
    lemma_pieces_nonempty(a, c);
    if b.len() == 0 {
        assert(s =~= a.push(c));
        assert(s.drop_last() =~= a);
        assert(b =~= Seq::<char>::empty());
        assert(pieces(s, c) =~= pieces(a, c) + pieces(b, c));
    } else {
        let rest = b.drop_last();
        law_pieces_at_separator(a, c, rest);
        lemma_pieces_nonempty(rest, c);
        assert(s.drop_last() =~= a + seq![c] + rest);
        assert(s.last() == b.last());
        assert(pieces(s, c) =~= pieces(a, c) + pieces(b, c));
    }
}

/// A line is what stands before a line feed, less one carriage return at its end; what follows the
/// line feed has lines of its own.
pub proof fn law_lines_in_order(line: Seq<char>, rest: Seq<char>)
    requires
        !line.contains('\n'),
    ensures
        lines_of(line + seq!['\n'] + rest) == seq![
            if line.len() > 0 && line.last() == '\r' {
                line.drop_last()
            } else {
                line
            },
        ] + lines_of(rest),
        line.len() > 0 ==> lines_of(line) == seq![line],
        lines_of(Seq::<char>::empty()).len() == 0,
{
    law_pieces_at_separator(line, '\n', rest);
    law_pieces_whole(line, '\n');
    lemma_pieces_nonempty(rest, '\n');
    let whole = line + seq!['\n'] + rest;
    let parts = pieces(rest, '\n');
    assert(pieces(whole, '\n').last() == parts.last());
    assert(pieces(whole, '\n').drop_last() =~= seq![line] + parts.drop_last());
    assert(lines_of(whole) =~= seq![without_cr(line)] + lines_of(rest));
    assert(lines_of(line) =~= if line.len() > 0 {
        seq![line]
    } else {
        Seq::<Seq<char>>::empty()
    });
}

} // verus!
