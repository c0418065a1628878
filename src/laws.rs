//! Properties of the section scanner, stated over grapheme cluster sequences.
use vstd::prelude::*;
use crate::scanner::{emits, run_state, scan_output, selects, step, wildcard_marker, FsmState};
use crate::text::joined;

verus! {

/// Whether the run of markers that ends at position `j` holds, anywhere in it,
/// a marker that selects its section when scanning for `target`.
pub open spec fn run_selected(cs: Seq<Seq<char>>, j: int, target: Seq<char>, index: Set<Seq<char>>) -> bool {
    exists|k: int|
        0 <= k <= j && #[trigger] selects(cs[k], target) && (forall|l: int|
            k <= l <= j ==> index.contains(cs[l]))
}

/// The state after each prefix of the source: the initial state after none; after a
/// marker, whether the run it ends is selected; after content, copying or omitting.
proof fn lemma_state_shape(cs: Seq<Seq<char>>, n: int, target: Seq<char>, index: Set<Seq<char>>)
    requires
        0 <= n <= cs.len(),
    ensures
        n == 0 ==> run_state(cs.take(n), target, index) == FsmState::CopyToOutput,
        n > 0 && index.contains(cs[n - 1]) ==> run_state(cs.take(n), target, index) == if run_selected(
            cs,
            n - 1,
            target,
            index,
        ) {
            FsmState::ReadEmojiSequenceContainingSelected
        } else {
            FsmState::ReadEmojiSequence
        },
        n > 0 && !index.contains(cs[n - 1]) ==> (run_state(cs.take(n), target, index)
            == FsmState::CopyToOutput || run_state(cs.take(n), target, index)
            == FsmState::OmitFromOutput),
    decreases n,
{
    if n == 0 {
        assert(cs.take(0) =~= Seq::<Seq<char>>::empty());
    } else {
        lemma_state_shape(cs, n - 1, target, index);
        assert(cs.take(n).drop_last() =~= cs.take(n - 1));
        assert(cs.take(n).last() == cs[n - 1]);
        if index.contains(cs[n - 1]) {
            if n > 1 && index.contains(cs[n - 2]) {
                if run_selected(cs, n - 1, target, index) && !selects(cs[n - 1], target) {
                    let k = choose|k: int|
                        0 <= k <= n - 1 && #[trigger] selects(cs[k], target) && (forall|l: int|
                            k <= l <= n - 1 ==> index.contains(cs[l]));
                    assert(k <= n - 2);
                    assert(run_selected(cs, n - 2, target, index));
                }
                if selects(cs[n - 1], target) {
                    assert(run_selected(cs, n - 1, target, index));
                }
                if run_selected(cs, n - 2, target, index) {
                    let k = choose|k: int|
                        0 <= k <= n - 2 && #[trigger] selects(cs[k], target) && (forall|l: int|
                            k <= l <= n - 2 ==> index.contains(cs[l]));
                    assert(forall|l: int| k <= l <= n - 1 ==> index.contains(cs[l]));
                    assert(run_selected(cs, n - 1, target, index));
                }
            } else {
                if run_selected(cs, n - 1, target, index) {
                    let k = choose|k: int|
                        0 <= k <= n - 1 && #[trigger] selects(cs[k], target) && (forall|l: int|
                            k <= l <= n - 1 ==> index.contains(cs[l]));
                    if k < n - 1 {
                        assert(index.contains(cs[n - 2]));
                    }
                }
                if selects(cs[n - 1], target) {
                    assert(run_selected(cs, n - 1, target, index));
                }
            }
        }
    }
}

/// The state within the content that follows the run of markers ending at `j`.
proof fn lemma_after_run(cs: Seq<Seq<char>>, j: int, n: int, target: Seq<char>, index: Set<Seq<char>>)
    requires
        0 <= j < n <= cs.len(),
        index.contains(cs[j]),
        forall|l: int| j < l < n ==> !index.contains(#[trigger] cs[l]),
    ensures
        n == j + 1 ==> run_state(cs.take(n), target, index) == if run_selected(cs, j, target, index) {
            FsmState::ReadEmojiSequenceContainingSelected
        } else {
            FsmState::ReadEmojiSequence
        },
        n > j + 1 ==> run_state(cs.take(n), target, index) == if run_selected(cs, j, target, index) {
            FsmState::CopyToOutput
        } else {
            FsmState::OmitFromOutput
        },
    decreases n,
{
    if n == j + 1 {
        lemma_state_shape(cs, n, target, index);
    } else {
        lemma_after_run(cs, j, n - 1, target, index);
        assert(cs.take(n).drop_last() =~= cs.take(n - 1));
        assert(cs.take(n).last() == cs[n - 1]);
        assert(!index.contains(cs[n - 1]));
    }
}

/// A source without markers is copied whole: the output is the source.
pub proof fn lemma_no_markers_copies(cs: Seq<Seq<char>>, target: Seq<char>, index: Set<Seq<char>>)
    requires
        forall|i: int| 0 <= i < cs.len() ==> !index.contains(#[trigger] cs[i]),
    ensures
        run_state(cs, target, index) == FsmState::CopyToOutput,
        scan_output(cs, target, index) == joined(cs),
    decreases cs.len(),
{
    if cs.len() > 0 {
        let prev = cs.drop_last();
        assert forall|i: int| 0 <= i < prev.len() implies !index.contains(#[trigger] prev[i]) by {
            assert(prev[i] == cs[i]);
        }
        lemma_no_markers_copies(prev, target, index);
        assert(!index.contains(cs[cs.len() - 1]));
    }
}

/// A content cluster that follows a run of markers, with only content between them,
/// goes to the output exactly when that run is selected.
pub proof fn lemma_content_follows_run(
    cs: Seq<Seq<char>>,
    j: int,
    i: int,
    target: Seq<char>,
    index: Set<Seq<char>>,
)
    requires
        0 <= j < i < cs.len(),
        index.contains(cs[j]),
        forall|l: int| j < l <= i ==> !index.contains(#[trigger] cs[l]),
    ensures
        emits(run_state(cs.take(i), target, index), cs[i], index) == run_selected(cs, j, target, index),
        run_selected(cs, j, target, index) ==> scan_output(cs.take(i + 1), target, index)
            == scan_output(cs.take(i), target, index) + cs[i],
        !run_selected(cs, j, target, index) ==> scan_output(cs.take(i + 1), target, index)
            == scan_output(cs.take(i), target, index),
{
    lemma_after_run(cs, j, i, target, index);
    assert(cs.take(i + 1).drop_last() =~= cs.take(i));
    assert(cs.take(i + 1).last() == cs[i]);
}

/// A run of markers that holds the wildcard selects the content after it, whatever
/// the target.
pub proof fn lemma_wildcard_selects(
    cs: Seq<Seq<char>>,
    k: int,
    j: int,
    i: int,
    target: Seq<char>,
    index: Set<Seq<char>>,
)
    requires
        0 <= k <= j < i < cs.len(),
        cs[k] == wildcard_marker(),
        forall|l: int| k <= l <= j ==> index.contains(#[trigger] cs[l]),
        forall|l: int| j < l <= i ==> !index.contains(#[trigger] cs[l]),
    ensures
        scan_output(cs.take(i + 1), target, index) == scan_output(cs.take(i), target, index) + cs[i],
{
    assert(selects(cs[k], target));
    assert(run_selected(cs, j, target, index));
    lemma_content_follows_run(cs, j, i, target, index);
}

/// A maximal run of markers is judged as a whole: after it the scanner is in the
/// selected state exactly when some marker of the run, at any position, selects.
pub proof fn lemma_run_as_whole(
    cs: Seq<Seq<char>>,
    s: int,
    e: int,
    target: Seq<char>,
    index: Set<Seq<char>>,
)
    requires
        0 <= s <= e < cs.len(),
        s == 0 || !index.contains(cs[s - 1]),
        forall|l: int| s <= l <= e ==> index.contains(#[trigger] cs[l]),
    ensures
        run_state(cs.take(e + 1), target, index) == if exists|k: int|
            s <= k <= e && #[trigger] selects(cs[k], target) {
            FsmState::ReadEmojiSequenceContainingSelected
        } else {
            FsmState::ReadEmojiSequence
        },
{
    lemma_state_shape(cs, e + 1, target, index);
    if run_selected(cs, e, target, index) {
        let k = choose|k: int|
            0 <= k <= e && #[trigger] selects(cs[k], target) && (forall|l: int|
                k <= l <= e ==> index.contains(cs[l]));
        if k < s {
            assert(index.contains(cs[s - 1]));
        }
        assert(s <= k <= e && selects(cs[k], target));
    }
    if exists|k: int| s <= k <= e && #[trigger] selects(cs[k], target) {
        let k = choose|k: int| s <= k <= e && #[trigger] selects(cs[k], target);
        assert(forall|l: int| k <= l <= e ==> index.contains(cs[l]));
        assert(run_selected(cs, e, target, index));
    }
}

/// The states and output of a scan for a target that no marker selects, on a source
/// that opens with a marker.
proof fn lemma_unselected_prefix(cs: Seq<Seq<char>>, n: int, target: Seq<char>, index: Set<Seq<char>>)
    requires
        1 <= n <= cs.len(),
        index.contains(cs[0]),
        forall|k: int| 0 <= k < cs.len() && index.contains(#[trigger] cs[k]) ==> !selects(cs[k], target),
    ensures
        run_state(cs.take(n), target, index) == FsmState::ReadEmojiSequence || run_state(
            cs.take(n),
            target,
            index,
        ) == FsmState::OmitFromOutput,
        scan_output(cs.take(n), target, index) == Seq::<char>::empty(),
    decreases n,
{
    assert(cs.take(n).drop_last() =~= cs.take(n - 1));
    assert(cs.take(n).last() == cs[n - 1]);
    if n == 1 {
        assert(cs.take(0) =~= Seq::<Seq<char>>::empty());
        assert(scan_output(cs.take(0), target, index) == Seq::<char>::empty());
    } else {
        lemma_unselected_prefix(cs, n - 1, target, index);
    }
    assert(!emits(run_state(cs.take(n - 1), target, index), cs[n - 1], index));
}

/// Scanning for a target that is neither a marker nor the wildcard gives an empty
/// output, on a source that opens with a marker and holds no wildcard marker.
pub proof fn lemma_unknown_target_empty(cs: Seq<Seq<char>>, target: Seq<char>, index: Set<Seq<char>>)
    requires
        !index.contains(target),
        target != wildcard_marker(),
        cs.len() == 0 || index.contains(cs[0]),
        forall|k: int| 0 <= k < cs.len() && index.contains(#[trigger] cs[k]) ==> cs[k] != wildcard_marker(),
    ensures
        scan_output(cs, target, index) == Seq::<char>::empty(),
{
    if cs.len() > 0 {
        assert forall|k: int| 0 <= k < cs.len() && index.contains(#[trigger] cs[k]) implies !selects(
            cs[k],
            target,
        ) by {}
        lemma_unselected_prefix(cs, cs.len() as int, target, index);
        assert(cs.take(cs.len() as int) =~= cs);
    }
}

} // verus!
