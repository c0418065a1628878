//! The section scanner: a four-state machine over grapheme clusters.
use vstd::prelude::*;
use crate::index::EmojiIndex;
use crate::text::{graphemes, graphemes_of, joined, views};

verus! {

/// The marker that selects its section whatever the target is.
pub open spec fn wildcard_marker() -> Seq<char> {
    "\u{2734}\u{fe0f}"@
}

/// The wildcard marker as a string.
pub fn wildcard() -> (r: String)
    ensures
        r@ == wildcard_marker(),
{
    "\u{2734}\u{fe0f}".to_owned()
}

/// The scanner's states.
#[derive(PartialEq, Eq, Structural, Clone, Copy, Debug)]
pub enum FsmState {
    /// Content is copied to the output.
    CopyToOutput,
    /// Inside a run of markers none of which selects the section so far.
    ReadEmojiSequence,
    /// Inside the content of a section that is not selected.
    OmitFromOutput,
    /// Inside a run of markers at least one of which selects the section.
    ReadEmojiSequenceContainingSelected,
}

/// Whether marker `g` selects its section when scanning for `target`.
pub open spec fn selects(g: Seq<char>, target: Seq<char>) -> bool {
    g == wildcard_marker() || g == target
}

/// The state after reading cluster `g` in state `st`.
pub open spec fn step(st: FsmState, g: Seq<char>, target: Seq<char>, index: Set<Seq<char>>) -> FsmState {
    if index.contains(g) {
        if st == FsmState::ReadEmojiSequenceContainingSelected || selects(g, target) {
            FsmState::ReadEmojiSequenceContainingSelected
        } else {
            FsmState::ReadEmojiSequence
        }
    } else {
        match st {
            FsmState::CopyToOutput => FsmState::CopyToOutput,
            FsmState::ReadEmojiSequence => FsmState::OmitFromOutput,
            FsmState::OmitFromOutput => FsmState::OmitFromOutput,
            FsmState::ReadEmojiSequenceContainingSelected => FsmState::CopyToOutput,
        }
    }
}

/// Whether cluster `g`, read in state `st`, goes to the output.
pub open spec fn emits(st: FsmState, g: Seq<char>, index: Set<Seq<char>>) -> bool {
    !index.contains(g) && (st == FsmState::CopyToOutput || st
        == FsmState::ReadEmojiSequenceContainingSelected)
}

/// The state after reading all of `cs` from the initial state.
pub open spec fn run_state(cs: Seq<Seq<char>>, target: Seq<char>, index: Set<Seq<char>>) -> FsmState
    decreases cs.len(),
{
    if cs.len() == 0 {
        FsmState::CopyToOutput
    } else {
        step(run_state(cs.drop_last(), target, index), cs.last(), target, index)
    }
}

/// What scanning `cs` for `target` puts in the output.
pub open spec fn scan_output(cs: Seq<Seq<char>>, target: Seq<char>, index: Set<Seq<char>>) -> Seq<char>
    decreases cs.len(),
{
    if cs.len() == 0 {
        Seq::empty()
    } else {
        let prev = cs.drop_last();
        if emits(run_state(prev, target, index), cs.last(), index) {
            scan_output(prev, target, index) + cs.last()
        } else {
            scan_output(prev, target, index)
        }
    }
}

/// Scans a sequence of grapheme clusters for the section of `target`.
pub fn scan_clusters(clusters: &Vec<String>, target: &String, index: &EmojiIndex) -> (r: String)
    ensures
        r@ == scan_output(views(clusters@), target@, index@),
{
    let wild = wildcard();
    let mut out = String::new();
    let mut state = FsmState::CopyToOutput;
    let ghost cs = views(clusters@);
    let mut i: usize = 0;
    while i < clusters.len()
        invariant
            i <= clusters.len(),
            cs == views(clusters@),
            wild@ == wildcard_marker(),
            state == run_state(cs.take(i as int), target@, index@),
            out@ == scan_output(cs.take(i as int), target@, index@),
        decreases clusters.len() - i,
    {
        let g = &clusters[i];
        assert(cs.take(i + 1).drop_last() =~= cs.take(i as int));
        assert(cs.take(i + 1).last() == g@);
        let is_marker = index.contains(g);
        let is_selecting = *g == wild || *g == *target;
        if is_marker {
            state = match state {
                FsmState::ReadEmojiSequenceContainingSelected => state,
                _ => if is_selecting {
                    FsmState::ReadEmojiSequenceContainingSelected
                } else {
                    FsmState::ReadEmojiSequence
                },
            };
        } else {
            match state {
                FsmState::CopyToOutput => {
                    out.append(g.as_str());
                },
                FsmState::ReadEmojiSequence => {
                    state = FsmState::OmitFromOutput;
                },
                FsmState::OmitFromOutput => {},
                FsmState::ReadEmojiSequenceContainingSelected => {
                    state = FsmState::CopyToOutput;
                    out.append(g.as_str());
                },
            }
        }
        i += 1;
    }
    assert(cs.take(clusters.len() as int) =~= cs);
    out
}

/// Scans a source text, segmented into grapheme clusters, for the section of `target`.
pub fn split_text(text: &str, target: &str, index: &EmojiIndex) -> (r: String)
    ensures
        r@ == scan_output(graphemes_of(text@), target@, index@),
{
    let clusters = graphemes(text);
    let t = target.to_owned();
    scan_clusters(&clusters, &t, index)
}

/// The non-empty sections of `cs` for each marker of `ms`, in the order of `ms`,
/// each paired with its marker.
pub open spec fn sections(cs: Seq<Seq<char>>, ms: Seq<Seq<char>>, index: Set<Seq<char>>) -> Seq<(Seq<char>, Seq<char>)>
    decreases ms.len(),
{
    if ms.len() == 0 {
        Seq::empty()
    } else {
        let prev = sections(cs, ms.drop_last(), index);
        let out = scan_output(cs, ms.last(), index);
        if out.len() == 0 {
            prev
        } else {
            prev.push((ms.last(), out))
        }
    }
}

/// The views of marker and section pairs.
pub open spec fn pair_views(v: Seq<(String, String)>) -> Seq<(Seq<char>, Seq<char>)> {
    v.map_values(|p: (String, String)| (p.0@, p.1@))
}

/// Scans a source text once for each marker of the index, in the index's order,
/// and returns each marker whose section is non-empty with that section.
pub fn split_every(text: &str, index: &EmojiIndex) -> (r: Vec<(String, String)>)
    ensures
        pair_views(r@) == sections(graphemes_of(text@), index.marker_seq(), index@),
{
    let clusters = graphemes(text);
    let markers = index.markers();
    let mut result: Vec<(String, String)> = Vec::new();
    let mut i: usize = 0;
    while i < markers.len()
        invariant
            i <= markers.len(),
            views(clusters@) == graphemes_of(text@),
            views(markers@) == index.marker_seq(),
            pair_views(result@) == sections(
                graphemes_of(text@),
                index.marker_seq().take(i as int),
                index@,
            ),
        decreases markers.len() - i,
    {
        let m = &markers[i];
        assert(index.marker_seq().take(i + 1).drop_last() =~= index.marker_seq().take(i as int));
        assert(index.marker_seq().take(i + 1).last() == m@);
        let out = scan_clusters(&clusters, m, index);
        if !out.as_str().is_empty() {
            let ghost before = pair_views(result@);
            result.push((m.clone(), out));
            assert(pair_views(result@) =~= before.push((m@, scan_output(graphemes_of(text@), m@, index@))));
        }
        i += 1;
    }
    assert(index.marker_seq().take(markers.len() as int) =~= index.marker_seq());
    result
}

} // verus!
