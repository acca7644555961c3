//! Splicing replacement text into the lines of a file.
//!
//! The changes of one file are applied from the highest starting row down,
//! so that a splice never moves the rows of a change that is still to come.
//! The file is patched as it is when it is read: nothing here tells whether
//! it has changed since its items were found, beyond leaving out, and
//! counting, a change whose rows are not in the file.

use vstd::prelude::*;
use crate::code_cleaning::{
    keeps_own_indentation, lemma_same_code_same_lines, normalized, normalized_chars,
};
use crate::search::{
    lemma_located_parts, located, located_text, resolves, text_before, text_behind, CapturedNode,
    ItemChange, ItemDefView, ItemEnd,
};
use crate::text::{
    all_plain, append_from, chars_of, is_plain_line, lemma_last_line_is_not_empty,
    lemma_lines_after_whole_lines, lemma_lines_before_line_feed,
    lemma_rendered_text_has_plain_lines, lines_of, render_lines, rows, same_text, split_lines,
    string_of,
};

verus! {

/// `sorted` with `change` put behind every entry that does not start on a
/// lower row.
pub open spec fn insert_change(sorted: Seq<ItemChange>, change: ItemChange) -> Seq<ItemChange>
    decreases sorted.len(),
{
    if sorted.len() == 0 {
        seq![change]
    } else if sorted.last().before.start_pos >= change.before.start_pos {
        sorted.push(change)
    } else {
        insert_change(sorted.drop_last(), change).push(sorted.last())
    }
}

/// The changes ordered by starting row, highest first; changes that start on
/// the same row keep the order in which they were given.
pub open spec fn by_descending_start(changes: Seq<ItemChange>) -> Seq<ItemChange>
    decreases changes.len(),
{
    if changes.len() == 0 {
        Seq::empty()
    } else {
        insert_change(by_descending_start(changes.drop_last()), changes.last())
    }
}

/// A change is applied when its rows run forwards and its last row lies in
/// the file as it was read, `read_len` lines; and, so that there are rows
/// to replace, in the lines as they now are. That can fail only where
/// changes share rows: see `lemma_disjoint_changes_fit_as_read`.
pub open spec fn change_fits(change: ItemChange, read_len: nat, now_len: nat) -> bool {
    &&& change.before.start_pos <= change.before.end_pos
    &&& change.before.end_pos < read_len
    &&& change.before.end_pos < now_len
}

/// The lines that take the place of the rows of `change`.
pub open spec fn replacement_lines(change: ItemChange) -> Seq<Seq<char>> {
    lines_of(normalized(change.before.definition@, change.after@))
}

/// `lines` with the rows of `change`, first to last, replaced.
pub open spec fn splice_change(lines: Seq<Seq<char>>, change: ItemChange) -> Seq<Seq<char>> {
    lines.take(change.before.start_pos as int) + replacement_lines(change) + lines.skip(
        change.before.end_pos + 1,
    )
}

/// The lines after the changes of `ordered`, taken in that order, and the
/// number of changes that were dropped because they did not fit.
pub open spec fn apply_in_order(lines: Seq<Seq<char>>, ordered: Seq<ItemChange>, read_len: nat) -> (
    Seq<Seq<char>>,
    nat,
)
    decreases ordered.len(),
{
    if ordered.len() == 0 {
        (lines, 0)
    } else {
        let (so_far, dropped) = apply_in_order(lines, ordered.drop_last(), read_len);
        if change_fits(ordered.last(), read_len, so_far.len()) {
            (splice_change(so_far, ordered.last()), dropped)
        } else {
            (so_far, dropped + 1)
        }
    }
}

/// The lines of a file after `changes`, and the number of changes dropped.
pub open spec fn patched_lines(lines: Seq<Seq<char>>, changes: Seq<ItemChange>) -> (
    Seq<Seq<char>>,
    nat,
) {
    apply_in_order(lines, by_descending_start(changes), lines.len())
}

/// The content of a file after `changes`: its patched lines, each followed
/// by a line feed.
pub open spec fn patched_text(contents: Seq<char>, changes: Seq<ItemChange>) -> Seq<char> {
    render_lines(patched_lines(lines_of(contents), changes).0)
}

/// Where `change` goes in `sorted`: behind the last entry that does not
/// start on a lower row.
proof fn lemma_insert_at(sorted: Seq<ItemChange>, change: ItemChange, at: int)
    requires
        0 <= at <= sorted.len(),
        forall|j: int| at <= j < sorted.len() ==> (#[trigger] sorted[j]).before.start_pos
            < change.before.start_pos,
        at > 0 ==> sorted[at - 1].before.start_pos >= change.before.start_pos,
    ensures
        insert_change(sorted, change) == sorted.insert(at, change),
    decreases sorted.len(),
{
    if sorted.len() == 0 {
        assert(sorted.insert(at, change) =~= seq![change]);
    } else if at == sorted.len() {
        assert(sorted.insert(at, change) =~= sorted.push(change));
    } else {
        lemma_insert_at(sorted.drop_last(), change, at);
        assert(sorted.insert(at, change) =~= sorted.drop_last().insert(at, change).push(
            sorted.last(),
        ));
    }
}

/// Orders the changes of one file by starting row, highest first.
pub fn sort_changes(changes: &Vec<ItemChange>) -> (sorted: Vec<ItemChange>)
    ensures
        sorted@ == by_descending_start(changes@),
{
    let mut sorted: Vec<ItemChange> = Vec::new();
    let mut i: usize = 0;
    assert(changes@.take(0) =~= Seq::<ItemChange>::empty());
    while i < changes.len()
        invariant
            i <= changes.len(),
            sorted@ == by_descending_start(changes@.take(i as int)),
            sorted@.len() == i,
        decreases changes.len() - i,
    {
        let change = changes[i].clone();
        let mut at: usize = sorted.len();
        while at > 0 && sorted[at - 1].before.start_pos < change.before.start_pos
            invariant
                at <= sorted.len(),
                forall|j: int| at <= j < sorted.len() ==> (#[trigger] sorted@[j]).before.start_pos
                    < change.before.start_pos,
            decreases at,
        {
            at -= 1;
        }
        proof {
            lemma_insert_at(sorted@, change, at as int);
            let next = changes@.take(i + 1);
            assert(next.last() == change);
            assert(next.drop_last() =~= changes@.take(i as int));
        }
        sorted.insert(at, change);
        i += 1;
    }
    assert(changes@.take(i as int) =~= changes@);
    sorted
}

/// Two changes whose rows have no row in common.
pub open spec fn rows_disjoint(a: ItemChange, b: ItemChange) -> bool {
    a.before.end_pos < b.before.start_pos || b.before.end_pos < a.before.start_pos
}

/// The rows of every change run forwards, and no two changes share a row.
pub open spec fn pairwise_disjoint(changes: Seq<ItemChange>) -> bool {
    &&& forall|i: int| 0 <= i < changes.len() ==> (#[trigger] changes[i]).before.wf()
    &&& forall|i: int, j: int|
        0 <= i < j < changes.len() ==> rows_disjoint(#[trigger] changes[i], #[trigger] changes[j])
}

/// No two of the changes start on the same row.
pub open spec fn distinct_starts(changes: Seq<ItemChange>) -> bool {
    forall|i: int, j: int|
        0 <= i < j < changes.len() ==> (#[trigger] changes[i]).before.start_pos
            != (#[trigger] changes[j]).before.start_pos
}

/// Two changes that start on different rows can be put in place in either
/// order.
proof fn lemma_insert_commutes(sorted: Seq<ItemChange>, a: ItemChange, b: ItemChange)
    requires
        a.before.start_pos != b.before.start_pos,
    ensures
        insert_change(insert_change(sorted, a), b) == insert_change(insert_change(sorted, b), a),
    decreases sorted.len(),
{
    if sorted.len() == 0 {
        assert(seq![a].drop_last() =~= Seq::<ItemChange>::empty());
        assert(seq![b].drop_last() =~= Seq::<ItemChange>::empty());
        assert(insert_change(Seq::<ItemChange>::empty(), a) == seq![a]);
        assert(insert_change(Seq::<ItemChange>::empty(), b) == seq![b]);
        if a.before.start_pos > b.before.start_pos {
            assert(insert_change(seq![a], b) =~= seq![a, b]);
            assert(insert_change(seq![b], a) =~= seq![a, b]);
        } else {
            assert(insert_change(seq![a], b) =~= seq![b, a]);
            assert(insert_change(seq![b], a) =~= seq![b, a]);
        }
    } else {
        let top = sorted.last();
        let front = sorted.drop_last();
        let with_a = insert_change(sorted, a);
        let with_b = insert_change(sorted, b);
        let fits_a = top.before.start_pos >= a.before.start_pos;
        let fits_b = top.before.start_pos >= b.before.start_pos;
        if fits_a {
            assert(with_a.last() == a);
            assert(with_a.drop_last() =~= sorted);
        } else {
            assert(with_a.last() == top);
            assert(with_a.drop_last() =~= insert_change(front, a));
        }
        if fits_b {
            assert(with_b.last() == b);
            assert(with_b.drop_last() =~= sorted);
        } else {
            assert(with_b.last() == top);
            assert(with_b.drop_last() =~= insert_change(front, b));
        }
        if !fits_a && !fits_b {
            lemma_insert_commutes(front, a, b);
        }
    }
}

/// A change that starts on a row of its own can be put in place last.
proof fn lemma_sort_moves_to_end(changes: Seq<ItemChange>, at: int)
    requires
        0 <= at < changes.len(),
        forall|k: int|
            at < k < changes.len() ==> (#[trigger] changes[k]).before.start_pos
                != changes[at].before.start_pos,
    ensures
        by_descending_start(changes) == insert_change(
            by_descending_start(changes.remove(at)),
            changes[at],
        ),
    decreases changes.len(),
{
    let front = changes.drop_last();
    if at == changes.len() - 1 {
        assert(changes.remove(at) =~= front);
    } else {
        let top = changes.last();
        assert forall|k: int| at < k < front.len() implies (#[trigger] front[k]).before.start_pos
            != front[at].before.start_pos by {
            assert(front[k] == changes[k]);
        }
        lemma_sort_moves_to_end(front, at);
        assert(changes[changes.len() - 1].before.start_pos != changes[at].before.start_pos);
        lemma_insert_commutes(by_descending_start(front.remove(at)), changes[at], top);
        let rest = changes.remove(at);
        assert(rest.last() == top);
        assert(rest.drop_last() =~= front.remove(at));
    }
}

/// What one list holds, a list of the same changes holds too.
proof fn lemma_held_in_any_order(first: Seq<ItemChange>, second: Seq<ItemChange>, x: ItemChange)
    requires
        first.to_multiset() == second.to_multiset(),
        first.contains(x),
    ensures
        second.contains(x),
{
    first.to_multiset_ensures();
    second.to_multiset_ensures();
    assert(first.to_multiset().count(x) > 0);
    assert(second.to_multiset().count(x) > 0);
}

/// Changes that start on rows of their own come into one order, however
/// they are listed.
proof fn lemma_same_order(first: Seq<ItemChange>, second: Seq<ItemChange>)
    requires
        first.to_multiset() == second.to_multiset(),
        distinct_starts(first),
        distinct_starts(second),
    ensures
        by_descending_start(first) == by_descending_start(second),
    decreases first.len(),
{
    first.to_multiset_ensures();
    second.to_multiset_ensures();
    if first.len() > 0 {
        let x = first.last();
        let front = first.drop_last();
        assert(first[first.len() - 1] == x);
        lemma_held_in_any_order(first, second, x);
        let at = choose|at: int| 0 <= at < second.len() && second[at] == x;
        lemma_sort_moves_to_end(second, at);
        let rest = second.remove(at);
        assert(front =~= first.remove(first.len() - 1));
        assert(front.to_multiset() == rest.to_multiset());
        assert(distinct_starts(rest)) by {
            assert forall|i: int, j: int| 0 <= i < j < rest.len() implies (
            #[trigger] rest[i]).before.start_pos != (#[trigger] rest[j]).before.start_pos by {
                let i2 = if i < at { i } else { i + 1 };
                let j2 = if j < at { j } else { j + 1 };
                assert(rest[i] == second[i2]);
                assert(rest[j] == second[j2]);
            }
        }
        assert(distinct_starts(front)) by {
            assert forall|i: int, j: int| 0 <= i < j < front.len() implies (
            #[trigger] front[i]).before.start_pos != (#[trigger] front[j]).before.start_pos by {
                assert(front[i] == first[i]);
                assert(front[j] == first[j]);
            }
        }
        lemma_same_order(front, rest);
    }
}

/// Changes that share no row are listed without repetition, and each
/// starts on a row of its own.
proof fn lemma_disjoint_changes_differ(changes: Seq<ItemChange>)
    requires
        pairwise_disjoint(changes),
    ensures
        changes.no_duplicates(),
        distinct_starts(changes),
{
    assert forall|i: int, j: int| 0 <= i < changes.len() && 0 <= j < changes.len() && i
        != j implies changes[i] != changes[j] by {
        if i < j {
            assert(rows_disjoint(changes[i], changes[j]));
        } else {
            assert(rows_disjoint(changes[j], changes[i]));
        }
    }
}

/// The same changes in another order share no row either.
proof fn lemma_disjoint_in_any_order(first: Seq<ItemChange>, second: Seq<ItemChange>)
    requires
        first.to_multiset() == second.to_multiset(),
        pairwise_disjoint(first),
    ensures
        pairwise_disjoint(second),
{
    first.to_multiset_ensures();
    second.to_multiset_ensures();
    lemma_disjoint_changes_differ(first);
    first.lemma_multiset_has_no_duplicates();
    second.lemma_multiset_has_no_duplicates_conv();
    assert forall|i: int| 0 <= i < second.len() implies (#[trigger] second[i]).before.wf() by {
        lemma_held_in_any_order(second, first, second[i]);
    }
    assert forall|i: int, j: int| 0 <= i < j < second.len() implies rows_disjoint(
        #[trigger] second[i],
        #[trigger] second[j],
    ) by {
        lemma_held_in_any_order(second, first, second[i]);
        lemma_held_in_any_order(second, first, second[j]);
        let a = choose|a: int| 0 <= a < first.len() && first[a] == second[i];
        let b = choose|b: int| 0 <= b < first.len() && first[b] == second[j];
        assert(second[i] != second[j]);
        if a < b {
            assert(rows_disjoint(first[a], first[b]));
        } else {
            assert(rows_disjoint(first[b], first[a]));
        }
    }
}

/// Order independence. Changes of one file whose rows run forwards and of
/// which no two share a row give the same lines, and the same number of
/// changes left out, in whatever order they are listed.
pub proof fn lemma_order_independence(
    lines: Seq<Seq<char>>,
    first: Seq<ItemChange>,
    second: Seq<ItemChange>,
)
    requires
        first.to_multiset() == second.to_multiset(),
        pairwise_disjoint(first),
    ensures
        by_descending_start(first) == by_descending_start(second),
        patched_lines(lines, first) == patched_lines(lines, second),
{
    lemma_disjoint_in_any_order(first, second);
    lemma_disjoint_changes_differ(first);
    lemma_disjoint_changes_differ(second);
    lemma_same_order(first, second);
}

/// Order independence for the content of a file: see
/// `lemma_order_independence`.
pub proof fn lemma_order_independence_of_text(
    contents: Seq<char>,
    first: Seq<ItemChange>,
    second: Seq<ItemChange>,
)
    requires
        first.to_multiset() == second.to_multiset(),
        pairwise_disjoint(first),
    ensures
        patched_text(contents, first) == patched_text(contents, second),
{
    lemma_order_independence(lines_of(contents), first, second);
}

/// No change starts on a higher row than a change before it.
pub open spec fn descending(ordered: Seq<ItemChange>) -> bool {
    forall|i: int, j: int|
        0 <= i < j < ordered.len() ==> (#[trigger] ordered[i]).before.start_pos
            >= (#[trigger] ordered[j]).before.start_pos
}

/// Putting a change in place keeps the changes that were there, adds the
/// one, and keeps the order descending.
proof fn lemma_insert_keeps_order(sorted: Seq<ItemChange>, change: ItemChange)
    requires
        descending(sorted),
    ensures
        descending(insert_change(sorted, change)),
        insert_change(sorted, change).to_multiset() == sorted.to_multiset().insert(change),
        insert_change(sorted, change).len() == sorted.len() + 1,
    decreases sorted.len(),
{
    broadcast use vstd::seq_lib::group_to_multiset_ensures;

    if sorted.len() > 0 && sorted.last().before.start_pos < change.before.start_pos {
        let front = sorted.drop_last();
        let top = sorted.last();
        assert forall|i: int, j: int| 0 <= i < j < front.len() implies (
        #[trigger] front[i]).before.start_pos >= (#[trigger] front[j]).before.start_pos by {
            assert(front[i] == sorted[i] && front[j] == sorted[j]);
        }
        lemma_insert_keeps_order(front, change);
        let placed = insert_change(front, change);
        let out = placed.push(top);
        assert(front.push(top) =~= sorted);
        assert(out.to_multiset() =~= sorted.to_multiset().insert(change));
        assert forall|i: int| 0 <= i < placed.len() implies (#[trigger] placed[i]).before.start_pos
            >= top.before.start_pos by {
            assert(placed.contains(placed[i]));
            assert(placed.to_multiset().count(placed[i]) > 0);
            if placed[i] != change {
                assert(front.to_multiset().count(placed[i]) > 0);
                assert(front.contains(placed[i]));
                let k = choose|k: int| 0 <= k < front.len() && front[k] == placed[i];
                assert(sorted[k] == front[k]);
                assert(sorted[sorted.len() - 1] == top);
            }
        }
        assert forall|i: int, j: int| 0 <= i < j < out.len() implies (
        #[trigger] out[i]).before.start_pos >= (#[trigger] out[j]).before.start_pos by {
            if j < placed.len() {
                assert(out[i] == placed[i] && out[j] == placed[j]);
            } else {
                assert(out[i] == placed[i]);
            }
        }
    } else {
        let out = sorted.push(change);
        assert forall|i: int, j: int| 0 <= i < j < out.len() implies (
        #[trigger] out[i]).before.start_pos >= (#[trigger] out[j]).before.start_pos by {
            if j < sorted.len() {
                assert(out[i] == sorted[i] && out[j] == sorted[j]);
            } else {
                assert(out[i] == sorted[i]);
                assert(sorted[sorted.len() - 1] == sorted.last());
                assert(sorted[i].before.start_pos >= sorted.last().before.start_pos);
            }
        }
    }
}

/// The ordered changes are the given changes, each as often as it was
/// given, and none starts on a higher row than one before it.
pub proof fn lemma_ordered_changes(changes: Seq<ItemChange>)
    ensures
        descending(by_descending_start(changes)),
        by_descending_start(changes).to_multiset() == changes.to_multiset(),
        by_descending_start(changes).len() == changes.len(),
    decreases changes.len(),
{
    broadcast use vstd::seq_lib::group_to_multiset_ensures;

    if changes.len() == 0 {
        assert(by_descending_start(changes).to_multiset() =~= changes.to_multiset());
    } else {
        let front = changes.drop_last();
        lemma_ordered_changes(front);
        lemma_insert_keeps_order(by_descending_start(front), changes.last());
        assert(front.push(changes.last()) =~= changes);
    }
}

/// The lines after the changes of `ordered`, where a change is left out
/// only if its rows run backwards or its last row lies outside the file as
/// it was read; and the number of changes left out.
pub open spec fn apply_as_read(lines: Seq<Seq<char>>, ordered: Seq<ItemChange>, read_len: nat) -> (
    Seq<Seq<char>>,
    nat,
)
    decreases ordered.len(),
{
    if ordered.len() == 0 {
        (lines, 0)
    } else {
        let (so_far, dropped) = apply_as_read(lines, ordered.drop_last(), read_len);
        let change = ordered.last();
        if change.before.start_pos <= change.before.end_pos && change.before.end_pos < read_len {
            (splice_change(so_far, change), dropped)
        } else {
            (so_far, dropped + 1)
        }
    }
}

/// A row of the file that lies below the start of every change is still
/// there when the changes have been applied.
proof fn lemma_room_below(lines: Seq<Seq<char>>, ordered: Seq<ItemChange>, read_len: nat, row: nat)
    requires
        row < lines.len(),
        forall|i: int| 0 <= i < ordered.len() ==> row < (#[trigger] ordered[i]).before.start_pos,
    ensures
        row < apply_in_order(lines, ordered, read_len).0.len(),
    decreases ordered.len(),
{
    if ordered.len() > 0 {
        let front = ordered.drop_last();
        assert forall|i: int| 0 <= i < front.len() implies row < (
        #[trigger] front[i]).before.start_pos by {
            assert(front[i] == ordered[i]);
        }
        lemma_room_below(lines, front, read_len, row);
        assert(row < ordered[ordered.len() - 1].before.start_pos);
    }
}

/// Each change ends below the start of every change before it.
pub open spec fn each_below_the_last(ordered: Seq<ItemChange>) -> bool {
    forall|i: int, j: int|
        0 <= i < j < ordered.len() ==> (#[trigger] ordered[j]).before.end_pos
            < (#[trigger] ordered[i]).before.start_pos
}

/// Where each change ends below the start of the one before it, every
/// change whose last row is in the file as read has rows to replace.
proof fn lemma_fits_as_read(lines: Seq<Seq<char>>, ordered: Seq<ItemChange>)
    requires
        each_below_the_last(ordered),
    ensures
        apply_in_order(lines, ordered, lines.len()) == apply_as_read(lines, ordered, lines.len()),
    decreases ordered.len(),
{
    if ordered.len() > 0 {
        let front = ordered.drop_last();
        let change = ordered.last();
        assert forall|i: int, j: int| 0 <= i < j < front.len() implies (
        #[trigger] front[j]).before.end_pos < (#[trigger] front[i]).before.start_pos by {
            assert(front[i] == ordered[i] && front[j] == ordered[j]);
        }
        lemma_fits_as_read(lines, front);
        if change.before.end_pos < lines.len() {
            assert forall|i: int| 0 <= i < front.len() implies change.before.end_pos < (
            #[trigger] front[i]).before.start_pos by {
                assert(front[i] == ordered[i]);
                assert(ordered[ordered.len() - 1] == change);
            }
            lemma_room_below(lines, front, lines.len(), change.before.end_pos as nat);
        }
    }
}

/// Of changes whose rows run forwards and of which no two share a row, one
/// is left out only if its last row lies outside the file as it was read:
/// no splice takes away the rows of a change that is still to come.
pub proof fn lemma_disjoint_changes_fit_as_read(lines: Seq<Seq<char>>, changes: Seq<ItemChange>)
    requires
        pairwise_disjoint(changes),
    ensures
        patched_lines(lines, changes) == apply_as_read(
            lines,
            by_descending_start(changes),
            lines.len(),
        ),
{
    let ordered = by_descending_start(changes);
    lemma_ordered_changes(changes);
    lemma_disjoint_in_any_order(changes, ordered);
    assert forall|i: int, j: int| 0 <= i < j < ordered.len() implies (
    #[trigger] ordered[j]).before.end_pos < (#[trigger] ordered[i]).before.start_pos by {
        assert(rows_disjoint(ordered[i], ordered[j]));
        assert(ordered[i].before.wf());
    }
    lemma_fits_as_read(lines, ordered);
}

/// The item is written in the file exactly: its rows lie in the file, its
/// text is those rows of the file, whole, and its last row is not an empty
/// line behind another row.
pub open spec fn covers_its_rows(item: ItemDefView, contents: Seq<char>) -> bool {
    &&& item.start_pos <= item.end_pos < lines_of(contents).len()
    &&& lines_of(item.definition) == lines_of(contents).subrange(
        item.start_pos as int,
        item.end_pos as int + 1,
    )
    &&& item.start_pos == item.end_pos || lines_of(contents)[item.end_pos as int].len() > 0
}

/// A captured node sits on whole rows of the source: its rows are counted
/// in lines, the first as the number of lines before the line on which the
/// node begins, the last as many lines further as the text of its item
/// has; the item ends where a line ends, with neither a line feed nor a
/// carriage return before a line feed as its last character.
pub open spec fn sits_on_whole_rows(source: Seq<char>, node: CapturedNode, end: ItemEnd) -> bool {
    let text = located_text(source, node, end);
    let behind = text_behind(source, node, end);
    &&& node.start_row == lines_of(text_before(source, node)).len()
    &&& node.end_row + 1 == node.start_row + lines_of(text).len()
    &&& text.len() > 0 && text.last() != '\n'
    &&& behind.len() == 0 || (behind[0] == '\n' && text.last() != '\r')
}

/// The item of a node that sits on whole rows of the source covers its
/// rows there.
pub proof fn lemma_located_item_covers_its_rows(
    source: Seq<char>,
    filename: Seq<char>,
    node: CapturedNode,
    end: ItemEnd,
)
    requires
        resolves(source, node),
        sits_on_whole_rows(source, node, end),
    ensures
        covers_its_rows(located(source, filename, node, end), source),
{
    let before = text_before(source, node);
    let text = located_text(source, node, end);
    let behind = text_behind(source, node, end);
    lemma_located_parts(source, node, end);
    lemma_last_line_is_not_empty(text);
    assert(source =~= before + (text + behind));
    lemma_lines_after_whole_lines(before, text + behind);
    if behind.len() == 0 {
        assert(text + behind =~= text);
        assert(lines_of(source) =~= lines_of(before) + lines_of(text));
    } else {
        let rest = behind.skip(1);
        assert(text + behind =~= text + seq!['\n'] + rest);
        lemma_lines_before_line_feed(text, rest);
        assert(lines_of(source) =~= lines_of(before) + lines_of(text) + lines_of(rest));
    }
    let first = node.start_row as int;
    let last = node.end_row as int;
    assert(lines_of(source).subrange(first, last + 1) =~= lines_of(text));
    assert(lines_of(source)[last] == lines_of(text).last());
}

/// Round trip of an extracted item. The item of a captured node that sits
/// on whole rows of a file, written as this library writes files, and that
/// keeps its own indentation, put in place of itself, leaves the file as
/// it is.
pub proof fn lemma_extracted_item_round_trip(
    source: Seq<char>,
    node: CapturedNode,
    end: ItemEnd,
    change: ItemChange,
)
    requires
        resolves(source, node),
        sits_on_whole_rows(source, node, end),
        change.before@ == located(source, change.before.filename@, node, end),
        change.after@ == change.before.definition@,
        source == render_lines(lines_of(source)),
        keeps_own_indentation(lines_of(change.before.definition@)),
    ensures
        patched_text(source, seq![change]) == source,
{
    lemma_located_item_covers_its_rows(source, change.before.filename@, node, end);
    lemma_unchanged_item_round_trip(source, change);
}

/// Round trip. A change that puts the text of an item in place of the item
/// leaves the file as it is. This holds of a file that is written as this
/// library writes files, each line closed by a line feed and none by a
/// carriage return and a line feed; of an item that covers its rows in the
/// file and keeps its own indentation.
pub proof fn lemma_unchanged_item_round_trip(contents: Seq<char>, change: ItemChange)
    requires
        change.after@ == change.before.definition@,
        contents == render_lines(lines_of(contents)),
        covers_its_rows(change.before@, contents),
        keeps_own_indentation(lines_of(change.before.definition@)),
    ensures
        patched_lines(lines_of(contents), seq![change]) == (lines_of(contents), 0nat),
        patched_text(contents, seq![change]) == contents,
{
    let lines = lines_of(contents);
    let code = change.before.definition@;
    let first = change.before.start_pos as int;
    let last = change.before.end_pos as int;
    let own = lines_of(code);
    assert(own == lines.subrange(first, last + 1));
    assert(all_plain(own)) by {
        lemma_rendered_text_has_plain_lines(contents);
        assert forall|i: int| 0 <= i < own.len() implies is_plain_line(#[trigger] own[i]) by {
            assert(own[i] == lines[first + i]);
        }
    }
    assert(own.len() == 1 || own.last().len() > 0) by {
        assert(own.last() == lines[last]);
    }
    lemma_same_code_same_lines(code);
    assert(replacement_lines(change) == own);
    assert(splice_change(lines, change) =~= lines);
    lemma_one_change(lines, change);
}

/// One change that fits the file is applied, and none is left out.
proof fn lemma_one_change(lines: Seq<Seq<char>>, change: ItemChange)
    requires
        change.before.start_pos <= change.before.end_pos < lines.len(),
    ensures
        patched_lines(lines, seq![change]) == (splice_change(lines, change), 0nat),
{
    let changes = seq![change];
    assert(changes.drop_last() =~= Seq::<ItemChange>::empty());
    assert(by_descending_start(changes) == changes) by {
        reveal_with_fuel(by_descending_start, 2);
    }
    assert(apply_in_order(lines, changes, lines.len()) == (splice_change(lines, change), 0nat))
        by {
        reveal_with_fuel(apply_in_order, 2);
    }
}

/// What patching the content of one file gave.
pub struct PatchOutcome {
    /// The new content of the file.
    pub contents: String,
    /// The number of changes that did not fit the file and were left out.
    pub skipped: usize,
}

/// Applies the changes of one file to its lines, highest starting row
/// first, and counts the changes that did not fit.
pub fn apply_changes_to_lines(lines: Vec<Vec<char>>, changes: &Vec<ItemChange>) -> (patched: (
    Vec<Vec<char>>,
    usize,
))
    ensures
        rows(patched.0@) == patched_lines(rows(lines@), changes@).0,
        patched.1 == patched_lines(rows(lines@), changes@).1,
{
    let ordered = sort_changes(changes);
    let read_len = lines.len();
    let ghost start_rows = rows(lines@);
    let mut lines = lines;
    let mut skipped: usize = 0;
    let mut i: usize = 0;
    assert(ordered@.take(0) =~= Seq::<ItemChange>::empty());
    while i < ordered.len()
        invariant
            i <= ordered.len(),
            skipped <= i,
            read_len == start_rows.len(),
            (rows(lines@), skipped as nat) == apply_in_order(
                start_rows,
                ordered@.take(i as int),
                read_len as nat,
            ),
        decreases ordered.len() - i,
    {
        let change = &ordered[i];
        let first = change.before.start_pos;
        let last = change.before.end_pos;
        proof {
            let next = ordered@.take(i + 1);
            assert(next.last() == *change);
            assert(next.drop_last() =~= ordered@.take(i as int));
        }
        if first <= last && last < read_len && last < lines.len() {
            let ghost so_far = rows(lines@);
            let mut replacement = split_lines(
                &normalized_chars(change.before.definition.as_str(), change.after.as_str()),
            );
            let mut tail = lines.split_off(last + 1);
            lines.truncate(first);
            lines.append(&mut replacement);
            lines.append(&mut tail);
            assert(rows(lines@) =~= splice_change(so_far, *change));
        } else {
            skipped += 1;
        }
        i += 1;
    }
    assert(ordered@.take(i as int) =~= ordered@);
    (lines, skipped)
}

/// The text of a file that holds `lines`: each line followed by a line feed.
pub fn render(lines: &Vec<Vec<char>>) -> (out: Vec<char>)
    ensures
        out@ == render_lines(rows(lines@)),
{
    let mut out: Vec<char> = Vec::new();
    let mut i: usize = 0;
    assert(rows(lines@).take(0) =~= Seq::<Seq<char>>::empty());
    while i < lines.len()
        invariant
            i <= lines.len(),
            out@ == render_lines(rows(lines@).take(i as int)),
        decreases lines.len() - i,
    {
        proof {
            let next = rows(lines@).take(i + 1);
            assert(next.last() == lines@[i as int]@);
            assert(next.drop_last() =~= rows(lines@).take(i as int));
        }
        append_from(&mut out, &lines[i], 0);
        assert(lines@[i as int]@.skip(0) =~= lines@[i as int]@);
        out.push('\n');
        i += 1;
    }
    assert(rows(lines@).take(i as int) =~= rows(lines@));
    out
}

/// Patches the content of one file.
///
/// The content is split into lines, the changes are applied to them from
/// the highest starting row down, each replacement re-indented to the item
/// it replaces, and the lines are written out again, each with a line feed.
/// A change whose last row lies outside the file is left out and counted.
pub fn patch_text(contents: &str, changes: &Vec<ItemChange>) -> (outcome: PatchOutcome)
    ensures
        outcome.contents@ == patched_text(contents@, changes@),
        outcome.skipped == patched_lines(lines_of(contents@), changes@).1,
{
    let lines = split_lines(&chars_of(contents));
    let (patched, skipped) = apply_changes_to_lines(lines, changes);
    PatchOutcome { contents: string_of(&render(&patched)), skipped }
}

/// The changes of one file.
pub struct FileChanges {
    /// The file that the changes are for.
    pub filename: String,
    /// The changes, in the order in which they were given.
    pub changes: Vec<ItemChange>,
}

/// The files that the changes are for, each once, in the order in which
/// the changes name them first.
pub open spec fn file_names(changes: Seq<ItemChange>) -> Seq<Seq<char>>
    decreases changes.len(),
{
    if changes.len() == 0 {
        Seq::empty()
    } else {
        let before = file_names(changes.drop_last());
        if before.contains(changes.last().before.filename@) {
            before
        } else {
            before.push(changes.last().before.filename@)
        }
    }
}

/// The changes for the file `filename`, in the order in which they were
/// given.
pub open spec fn changes_of_file(changes: Seq<ItemChange>, filename: Seq<char>) -> Seq<ItemChange>
    decreases changes.len(),
{
    if changes.len() == 0 {
        Seq::empty()
    } else {
        let before = changes_of_file(changes.drop_last(), filename);
        if changes.last().before.filename@ == filename {
            before.push(changes.last())
        } else {
            before
        }
    }
}

/// A file that is not among the files of the changes has no change.
proof fn lemma_unnamed_file_has_no_change(changes: Seq<ItemChange>, filename: Seq<char>)
    requires
        !file_names(changes).contains(filename),
    ensures
        changes_of_file(changes, filename).len() == 0,
    decreases changes.len(),
{
    if changes.len() > 0 {
        let before = file_names(changes.drop_last());
        let last = changes.last().before.filename@;
        if before.contains(last) {
        } else {
            assert(before.push(last)[before.len() as int] == last);
            assert forall|k: int| 0 <= k < before.len() implies before[k] != filename by {
                assert(before.push(last)[k] == before[k]);
            }
        }
        lemma_unnamed_file_has_no_change(changes.drop_last(), filename);
    }
}

/// The groups hold the changes file by file.
pub open spec fn groups_hold(groups: Seq<FileChanges>, changes: Seq<ItemChange>) -> bool {
    &&& groups.len() == file_names(changes).len()
    &&& forall|g: int|
        0 <= g < groups.len() ==> {
            &&& (#[trigger] groups[g]).filename@ == file_names(changes)[g]
            &&& groups[g].changes@ == changes_of_file(changes, file_names(changes)[g])
        }
}

/// Parts the changes by the file they are for. The files come in the order
/// in which the changes name them first, and the changes of each file in
/// the order in which they were given.
pub fn group_by_file(changes: &Vec<ItemChange>) -> (groups: Vec<FileChanges>)
    ensures
        groups_hold(groups@, changes@),
{
    let mut groups: Vec<FileChanges> = Vec::new();
    let mut i: usize = 0;
    assert(changes@.take(0) =~= Seq::<ItemChange>::empty());
    while i < changes.len()
        invariant
            i <= changes.len(),
            groups_hold(groups@, changes@.take(i as int)),
        decreases changes.len() - i,
    {
        let change = changes[i].clone();
        let ghost seen = changes@.take(i as int);
        let ghost next = changes@.take(i + 1);
        let ghost name = change.before.filename@;
        proof {
            assert(next.last() == change);
            assert(next.drop_last() =~= seen);
        }
        let mut g: usize = 0;
        while g < groups.len() && !same_text(
            groups[g].filename.as_str(),
            change.before.filename.as_str(),
        )
            invariant
                g <= groups.len(),
                forall|k: int| 0 <= k < g ==> (#[trigger] groups@[k]).filename@ != name,
                name == change.before.filename@,
            decreases groups.len() - g,
        {
            g += 1;
        }
        let ghost old_groups = groups@;
        if g < groups.len() {
            let mut group = groups.remove(g);
            group.changes.push(change);
            groups.insert(g, group);
            proof {
                assert(file_names(seen)[g as int] == name);
                assert(file_names(seen).contains(name));
                assert(file_names(next) == file_names(seen));
                assert forall|k: int| 0 <= k < groups@.len() implies {
                    &&& (#[trigger] groups@[k]).filename@ == file_names(next)[k]
                    &&& groups@[k].changes@ == changes_of_file(next, file_names(next)[k])
                } by {
                    if k != g {
                        assert(groups@[k] == old_groups[k]);
                        assert(old_groups[k].filename@ != name) by {
                            lemma_file_names_differ(seen, k, g as int);
                        }
                    }
                }
            }
        } else {
            let filename = change.before.filename.clone();
            let mut list: Vec<ItemChange> = Vec::new();
            list.push(change);
            groups.push(FileChanges { filename, changes: list });
            proof {
                assert forall|k: int| 0 <= k < file_names(seen).len() implies file_names(seen)[k]
                    != name by {
                    assert(old_groups[k].filename@ == file_names(seen)[k]);
                }
                lemma_unnamed_file_has_no_change(seen, name);
                assert(file_names(next) == file_names(seen).push(name));
                assert forall|k: int| 0 <= k < groups@.len() implies {
                    &&& (#[trigger] groups@[k]).filename@ == file_names(next)[k]
                    &&& groups@[k].changes@ == changes_of_file(next, file_names(next)[k])
                } by {
                    if k < old_groups.len() {
                        assert(groups@[k] == old_groups[k]);
                    } else {
                        assert(groups@[k].changes@ =~= changes_of_file(next, name));
                    }
                }
            }
        }
        i += 1;
    }
    assert(changes@.take(i as int) =~= changes@);
    groups
}

/// No file is named twice among the files of the changes.
proof fn lemma_file_names_differ(changes: Seq<ItemChange>, a: int, b: int)
    requires
        0 <= a < file_names(changes).len(),
        0 <= b < file_names(changes).len(),
        a != b,
    ensures
        file_names(changes)[a] != file_names(changes)[b],
    decreases changes.len(),
{
    if changes.len() > 0 {
        let before = file_names(changes.drop_last());
        let last = changes.last().before.filename@;
        if before.contains(last) {
            lemma_file_names_differ(changes.drop_last(), a, b);
        } else if a < before.len() && b < before.len() {
            lemma_file_names_differ(changes.drop_last(), a, b);
        } else if a < before.len() {
            assert(before.contains(before[a]));
        } else {
            assert(before.contains(before[b]));
        }
    }
}

} // verus!
