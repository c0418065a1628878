//! The marker index: the set of grapheme clusters that act as section markers.
use vstd::prelude::*;
use crate::text::{graphemes, graphemes_of, lines, split_lines, views};

verus! {

/// The marker a non-empty configuration line defines: its first grapheme cluster.
pub open spec fn first_cluster(line: Seq<char>) -> Seq<char> {
    graphemes_of(line)[0]
}

/// The markers defined by configuration lines, in order of first definition:
/// empty lines define none, and a marker defined again is kept once.
pub open spec fn markers_of_lines(ls: Seq<Seq<char>>) -> Seq<Seq<char>>
    decreases ls.len(),
{
    if ls.len() == 0 {
        Seq::empty()
    } else {
        let prev = markers_of_lines(ls.drop_last());
        let l = ls.last();
        if l.len() == 0 || prev.contains(first_cluster(l)) {
            prev
        } else {
            prev.push(first_cluster(l))
        }
    }
}

/// Whether `g` is one of the strings of `v`.
fn holds(v: &Vec<String>, g: &String) -> (r: bool)
    ensures
        r == views(v@).contains(g@),
{
    let mut k: usize = 0;
    while k < v.len()
        invariant
            k <= v.len(),
            forall|j: int| 0 <= j < k ==> v@[j]@ != g@,
        decreases v.len() - k,
    {
        if v[k] == *g {
            assert(views(v@)[k as int] == g@);
            return true;
        }
        k += 1;
    }
    assert(!views(v@).contains(g@)) by {
        if views(v@).contains(g@) {
            let j = choose|j: int| 0 <= j < views(v@).len() && views(v@)[j] == g@;
            assert(v@[j]@ == g@);
        }
    }
    false
}

/// A set of marker clusters, each kept once, in order of definition.
pub struct EmojiIndex {
    markers: Vec<String>,
}

impl View for EmojiIndex {
    type V = Set<Seq<char>>;

    open spec fn view(&self) -> Set<Seq<char>> {
        Set::new(|g: Seq<char>| self.marker_seq().contains(g))
    }
}

impl EmojiIndex {
    /// The markers, in order of definition.
    pub closed spec fn marker_seq(&self) -> Seq<Seq<char>> {
        views(self.markers@)
    }

    /// No marker is held twice.
    pub open spec fn wf(&self) -> bool {
        self.marker_seq().no_duplicates()
    }

    /// Builds the index from configuration text: each non-empty line defines the
    /// marker that is its first grapheme cluster; the rest of the line is ignored.
    pub fn new(text: &str) -> (r: Self)
        ensures
            r.wf(),
            r.marker_seq() == markers_of_lines(split_lines(text@)),
    {
        let ls = lines(text);
        let mut markers: Vec<String> = Vec::new();
        let mut i: usize = 0;
        while i < ls.len()
            invariant
                i <= ls.len(),
                views(ls@) == split_lines(text@),
                views(markers@) == markers_of_lines(views(ls@).take(i as int)),
                views(markers@).no_duplicates(),
            decreases ls.len() - i,
        {
            let ghost before = views(markers@);
            let line = &ls[i];
            assert(views(ls@).take(i + 1).drop_last() =~= views(ls@).take(i as int));
            assert(views(ls@).take(i + 1).last() == line@);
            if !line.as_str().is_empty() {
                let gs = graphemes(line.as_str());
                if gs.len() == 0 {
                    assert(views(gs@) =~= Seq::<Seq<char>>::empty());
                    assert(false);
                }
                let g = gs[0].clone();
                assert(g@ == first_cluster(line@));
                if !holds(&markers, &g) {
                    markers.push(g);
                    assert(views(markers@) =~= before.push(first_cluster(line@)));
                    assert(views(markers@).no_duplicates()) by {
                        assert forall|a: int, b: int|
                            0 <= a < views(markers@).len() && 0 <= b < views(markers@).len()
                                && a != b implies views(markers@)[a] != views(markers@)[b] by {
                            if a < before.len() && b < before.len() {
                            } else if a < before.len() {
                                assert(before.contains(views(markers@)[a]));
                            } else {
                                assert(before.contains(views(markers@)[b]));
                            }
                        }
                    }
                }
            }
            i += 1;
        }
        assert(views(ls@).take(ls.len() as int) =~= views(ls@));
        EmojiIndex { markers }
    }

    /// Whether `cluster` is one of the markers.
    pub fn contains(&self, cluster: &String) -> (r: bool)
        ensures
            r == self@.contains(cluster@),
    {
        holds(&self.markers, cluster)
    }

    /// The markers, in order of definition.
    pub fn markers(&self) -> (r: &Vec<String>)
        ensures
            views(r@) == self.marker_seq(),
    {
        &self.markers
    }
}

} // verus!
