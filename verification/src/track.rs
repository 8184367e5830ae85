//! Tracks and catalog ordering.
//!
//! A track's `path` is its stable identity: reorderings of the catalog never
//! change which file a track names, so everything that must survive a re-sort
//! is re-located by path.  Sorting is a verified insertion sort over one of
//! four orders; the case-insensitive ones compare `lower_of` foldings.

use vstd::prelude::*;
use vstd::seq_lib::group_to_multiset_ensures;
use vstd::string::StringExecFns;
use crate::text::{lex_le, lower_of, lowercase, str_le, str_eq};
use crate::text::{lemma_lex_le_total, lemma_lex_le_trans, lemma_lex_le_antisymm};

verus! {

#[derive(Debug)]
pub struct Track {
    /// Unique file identifier; the stable identity of the track.
    pub path: String,
    pub title: String,
    pub artist: String,
    /// Whole seconds.
    pub duration: u64,
    pub lyrics: Option<String>,
}

/// How `display_name` lists a track: "artist - title", unless the artist is
/// the unknown-artist placeholder.
pub open spec fn spec_display_name(t: Track) -> Seq<char> {
    if t.artist@ == "Unknown Artist"@ {
        t.title@
    } else {
        t.artist@ + " - "@ + t.title@
    }
}

impl Track {
    /// The human-readable list entry for this track.
    pub fn display_name(&self) -> (r: String)
        ensures
            r@ == spec_display_name(*self),
    {
        if str_eq(self.artist.as_str(), "Unknown Artist") {
            self.title.clone()
        } else {
            let mut r = self.artist.clone();
            r.append(" - ");
            r.append(self.title.as_str());
            r
        }
    }
}

/// The first catalog position whose track has path `p`.
pub open spec fn find_path(s: Seq<Track>, p: Seq<char>) -> Option<int>
    decreases s.len(),
{
    if s.len() == 0 {
        Option::None
    } else if s[0].path@ == p {
        Option::Some(0)
    } else {
        match find_path(s.drop_first(), p) {
            Option::Some(i) => Option::Some(i + 1),
            Option::None => Option::None,
        }
    }
}

/// What `find_path` returns: the first hit when there is one, and nothing
/// exactly when no track has the path.
pub proof fn lemma_find_path_props(s: Seq<Track>, p: Seq<char>)
    ensures
        match find_path(s, p) {
            Option::Some(i) => 0 <= i < s.len() && s[i].path@ == p && (forall|k: int|
                0 <= k < i ==> s[k].path@ != p),
            Option::None => forall|k: int| 0 <= k < s.len() ==> s[k].path@ != p,
        },
    decreases s.len(),
{
    if s.len() > 0 && s[0].path@ != p {
        lemma_find_path_props(s.drop_first(), p);
        match find_path(s.drop_first(), p) {
            Option::Some(i) => {
                assert(s.drop_first()[i] == s[i + 1]);
                assert forall|k: int| 0 <= k < i + 1 implies s[k].path@ != p by {
                    if k > 0 {
                        assert(s.drop_first()[k - 1] == s[k]);
                    }
                }
            },
            Option::None => {
                assert forall|k: int| 0 <= k < s.len() implies s[k].path@ != p by {
                    if k > 0 {
                        assert(s.drop_first()[k - 1] == s[k]);
                    }
                }
            },
        }
    }
}

/// Finds the first catalog index whose track has the given path.
pub fn position_by_path(tracks: &Vec<Track>, path: &str) -> (r: Option<usize>)
    ensures
        match r {
            Option::Some(i) => find_path(tracks@, path@) == Option::Some(i as int),
            Option::None => find_path(tracks@, path@) is None,
        },
{
    let mut i: usize = 0;
    while i < tracks.len()
        invariant
            i <= tracks@.len(),
            forall|k: int| 0 <= k < i ==> tracks@[k].path@ != path@,
        decreases tracks@.len() - i,
    {
        if str_eq(tracks[i].path.as_str(), path) {
            proof {
                lemma_find_path_props(tracks@, path@);
                match find_path(tracks@, path@) {
                    Option::Some(j) => {
                        if j < i as int {
                            assert(tracks@[j].path@ == path@);
                            assert(false);
                        }
                        if j > i as int {
                            assert(tracks@[i as int].path@ != path@);
                            assert(false);
                        }
                    },
                    Option::None => {
                        assert(tracks@[i as int].path@ == path@);
                        assert(false);
                    },
                }
            }
            return Some(i);
        }
        i += 1;
    }
    proof {
        lemma_find_path_props(tracks@, path@);
        match find_path(tracks@, path@) {
            Option::Some(j) => {
                assert(tracks@[j].path@ != path@);
                assert(false);
            },
            Option::None => {},
        }
    }
    None
}

/// The orders a catalog can be sorted by.  Title and artist comparisons are
/// case-insensitive; `ArtistTitle` is the scan-time order, artist first with
/// title as tie-break.
#[derive(Clone, Copy, PartialEq, Eq, Structural, Debug)]
pub enum TrackOrder {
    Path,
    Title,
    Artist,
    ArtistTitle,
}

/// Whether `a` may stand before `b` under order `o`.
pub open spec fn track_le(a: Track, b: Track, o: TrackOrder) -> bool {
    match o {
        TrackOrder::Path => lex_le(a.path@, b.path@),
        TrackOrder::Title => lex_le(lower_of(a.title@), lower_of(b.title@)),
        TrackOrder::Artist => lex_le(lower_of(a.artist@), lower_of(b.artist@)),
        TrackOrder::ArtistTitle => {
            let la = lower_of(a.artist@);
            let lb = lower_of(b.artist@);
            if la == lb {
                lex_le(lower_of(a.title@), lower_of(b.title@))
            } else {
                lex_le(la, lb)
            }
        },
    }
}

/// `track_le` is total in every order.
pub proof fn lemma_track_le_total(a: Track, b: Track, o: TrackOrder)
    ensures
        track_le(a, b, o) || track_le(b, a, o),
{
    match o {
        TrackOrder::Path => lemma_lex_le_total(a.path@, b.path@),
        TrackOrder::Title => lemma_lex_le_total(lower_of(a.title@), lower_of(b.title@)),
        TrackOrder::Artist => lemma_lex_le_total(lower_of(a.artist@), lower_of(b.artist@)),
        TrackOrder::ArtistTitle => {
            lemma_lex_le_total(lower_of(a.artist@), lower_of(b.artist@));
            lemma_lex_le_total(lower_of(a.title@), lower_of(b.title@));
        },
    }
}

/// `track_le` is transitive in every order.
pub proof fn lemma_track_le_trans(a: Track, b: Track, c: Track, o: TrackOrder)
    requires
        track_le(a, b, o),
        track_le(b, c, o),
    ensures
        track_le(a, c, o),
{
    match o {
        TrackOrder::Path => lemma_lex_le_trans(a.path@, b.path@, c.path@),
        TrackOrder::Title => lemma_lex_le_trans(
            lower_of(a.title@),
            lower_of(b.title@),
            lower_of(c.title@),
        ),
        TrackOrder::Artist => lemma_lex_le_trans(
            lower_of(a.artist@),
            lower_of(b.artist@),
            lower_of(c.artist@),
        ),
        TrackOrder::ArtistTitle => {
            let la = lower_of(a.artist@);
            let lb = lower_of(b.artist@);
            let lc = lower_of(c.artist@);
            if la == lb && lb == lc {
                lemma_lex_le_trans(lower_of(a.title@), lower_of(b.title@), lower_of(c.title@));
            } else if la != lb && lb != lc {
                lemma_lex_le_trans(la, lb, lc);
                if la == lc {
                    lemma_lex_le_antisymm(la, lb);
                }
            }
        },
    }
}

/// Every pair of positions respects the order.
pub open spec fn sorted_by(s: Seq<Track>, o: TrackOrder) -> bool {
    forall|i: int, j: int| 0 <= i < j < s.len() ==> track_le(s[i], s[j], o)
}

/// Decides `track_le` on two tracks.
fn track_le_exec(a: &Track, b: &Track, o: TrackOrder) -> (r: bool)
    ensures
        r == track_le(*a, *b, o),
{
    match o {
        TrackOrder::Path => str_le(a.path.as_str(), b.path.as_str()),
        TrackOrder::Title => {
            let la = lowercase(a.title.as_str());
            let lb = lowercase(b.title.as_str());
            str_le(la.as_str(), lb.as_str())
        },
        TrackOrder::Artist => {
            let la = lowercase(a.artist.as_str());
            let lb = lowercase(b.artist.as_str());
            str_le(la.as_str(), lb.as_str())
        },
        TrackOrder::ArtistTitle => {
            let la = lowercase(a.artist.as_str());
            let lb = lowercase(b.artist.as_str());
            if str_eq(la.as_str(), lb.as_str()) {
                let ta = lowercase(a.title.as_str());
                let tb = lowercase(b.title.as_str());
                str_le(ta.as_str(), tb.as_str())
            } else {
                str_le(la.as_str(), lb.as_str())
            }
        },
    }
}

/// Inserting an element adds exactly it to the contents of a sequence.
proof fn lemma_to_multiset_insert(s: Seq<Track>, i: int, x: Track)
    requires
        0 <= i <= s.len(),
    ensures
        s.insert(i, x).to_multiset() == s.to_multiset().insert(x),
{
    broadcast use group_to_multiset_ensures;
    broadcast use vstd::multiset::group_multiset_axioms;

    let t = s.insert(i, x);
    assert(t.remove(i) =~= s);
    assert(t[i] == x);
    assert(t.remove(i).to_multiset() =~= t.to_multiset().remove(x));
    assert(t.contains(x));
    assert(t.to_multiset().count(x) > 0);
    assert forall|y: Track| #[trigger] t.to_multiset().count(y) == s.to_multiset().insert(
        x,
    ).count(y) by {
        assert(s.to_multiset().count(y) == t.to_multiset().remove(x).count(y));
    }
    assert(t.to_multiset() =~= s.to_multiset().insert(x));
}

/// Where a stable insertion puts `x` into the already sorted `s`: after the
/// last element that may precede it, so equal keys keep their order.
pub open spec fn stable_insert(s: Seq<Track>, x: Track, o: TrackOrder) -> Seq<Track>
    decreases s.len(),
{
    if s.len() == 0 {
        seq![x]
    } else if track_le(s.last(), x, o) {
        s.push(x)
    } else {
        stable_insert(s.drop_last(), x, o).push(s.last())
    }
}

/// The stable sort of `s` under `o`: elements inserted one by one from the
/// front, each behind every earlier element with an equal key.
pub open spec fn stable_sort(s: Seq<Track>, o: TrackOrder) -> Seq<Track>
    decreases s.len(),
{
    if s.len() == 0 {
        Seq::empty()
    } else {
        stable_insert(stable_sort(s.drop_last(), o), s.last(), o)
    }
}

/// `stable_insert` is the insertion at `j` whenever `j` sits behind an
/// element that may precede `x` and ahead only of elements that may not.
proof fn lemma_stable_insert_at(s: Seq<Track>, x: Track, o: TrackOrder, j: int)
    requires
        0 <= j <= s.len(),
        j > 0 ==> track_le(s[j - 1], x, o),
        forall|k: int| j <= k < s.len() ==> !track_le(#[trigger] s[k], x, o),
    ensures
        stable_insert(s, x, o) == s.insert(j, x),
    decreases s.len(),
{
    if s.len() == 0 {
        assert(stable_insert(s, x, o) =~= s.insert(0, x));
    } else if track_le(s.last(), x, o) {
        assert(j == s.len()) by {
            if j < s.len() {
                assert(!track_le(s[s.len() - 1], x, o));
            }
        }
        assert(s.push(x) =~= s.insert(j, x));
    } else {
        assert(j < s.len()) by {
            if j == s.len() {
                assert(track_le(s[j - 1], x, o));
            }
        }
        if j > 0 {
            assert(s.drop_last()[j - 1] == s[j - 1]);
        }
        assert forall|k: int| j <= k < s.drop_last().len() implies !track_le(
            #[trigger] s.drop_last()[k],
            x,
            o,
        ) by {
            assert(s.drop_last()[k] == s[k]);
        }
        lemma_stable_insert_at(s.drop_last(), x, o, j);
        assert(stable_insert(s.drop_last(), x, o).push(s.last()) =~= s.insert(j, x));
    }
}

/// Sorts the catalog by `o`: the result is exactly the stable sort of the
/// old contents, so every pair of positions respects the order, the contents
/// are the old ones, and tracks with equal keys keep their relative order.
pub fn sort_catalog(v: &mut Vec<Track>, o: TrackOrder)
    ensures
        sorted_by(final(v)@, o),
        final(v)@.to_multiset() == old(v)@.to_multiset(),
        final(v)@.len() == old(v)@.len(),
        final(v)@ == stable_sort(old(v)@, o),
{
    broadcast use group_to_multiset_ensures;
    broadcast use vstd::multiset::group_multiset_axioms;

    let ghost orig = v@;
    if v.len() < 2 {
        proof {
            if orig.len() == 0 {
                assert(stable_sort(orig, o) =~= orig);
            } else {
                assert(orig.drop_last().len() == 0);
                assert(stable_sort(orig.drop_last(), o) =~= Seq::<Track>::empty());
                assert(stable_insert(Seq::<Track>::empty(), orig.last(), o) =~= seq![orig.last()]);
                assert(stable_sort(orig, o) =~= orig);
            }
        }
        return ;
    }
    proof {
        assert(orig.take(1).drop_last() =~= Seq::<Track>::empty());
        assert(stable_sort(orig.take(1).drop_last(), o) =~= Seq::<Track>::empty());
        assert(orig.take(1).last() == orig[0]);
        assert(stable_sort(orig.take(1), o) =~= seq![orig[0]]);
        assert(stable_sort(orig.take(1), o) + orig.skip(1) =~= orig);
    }
    let mut i: usize = 1;
    while i < v.len()
        invariant
            1 <= i <= v@.len(),
            v@.len() == orig.len(),
            v@.to_multiset() == orig.to_multiset(),
            v@ == stable_sort(orig.take(i as int), o) + orig.skip(i as int),
            forall|a: int, b: int| 0 <= a < b < i && b < v@.len() ==> track_le(
                v@[a],
                v@[b],
                o,
            ),
        decreases v@.len() - i,
    {
        let ghost before = v@;
        let ghost sp = stable_sort(orig.take(i as int), o);
        proof {
            assert(before == sp + orig.skip(i as int));
            assert(orig.skip(i as int).len() == orig.len() - i);
            assert(sp.len() == i);
            assert(before[i as int] == orig.skip(i as int)[0]);
            assert(before[i as int] == orig[i as int]);
        }
        let x = v.remove(i);
        let ghost w = v@;
        proof {
            assert(w == before.remove(i as int));
            assert(before[i as int] == x);
            assert forall|k: int| 0 <= k < w.len() implies w[k] == (sp + orig.skip(i + 1))[k] by {
                if k < i {
                    assert(w[k] == before[k]);
                    assert(before[k] == sp[k]);
                } else {
                    assert(w[k] == before[k + 1]);
                    assert(before[k + 1] == orig.skip(i as int)[k + 1 - i]);
                    assert(orig.skip(i as int)[k + 1 - i] == orig[k + 1]);
                    assert((sp + orig.skip(i + 1))[k] == orig.skip(i + 1)[k - i]);
                    assert(orig.skip(i + 1)[k - i] == orig[k + 1]);
                }
            }
            assert(w =~= sp + orig.skip(i + 1));
            assert(w.take(i as int) =~= sp);
            before.to_multiset_ensures();
            assert(before.remove(i as int).to_multiset() =~= before.to_multiset().remove(
                before[i as int],
            ));
            assert(w.to_multiset() == before.to_multiset().remove(x));
            assert forall|k: int| 0 <= k < i implies w[k] == before[k] by {}
        }
        let mut j: usize = i;
        while j > 0 && !track_le_exec(&v[j - 1], &x, o)
            invariant
                j <= i,
                i <= v@.len(),
                v@ == w,
                forall|k: int| j <= k < i ==> track_le(x, #[trigger] v@[k], o),
                forall|k: int| j <= k < i ==> !track_le(#[trigger] w[k], x, o),
            decreases j,
        {
            proof {
                lemma_track_le_total(v@[j - 1], x, o);
            }
            j -= 1;
        }
        proof {
            if j > 0 {
                assert(track_le(w[j - 1], x, o));
            }
        }
        v.insert(j, x);
        proof {
            assert(v@ == w.insert(j as int, x));
            lemma_to_multiset_insert(w, j as int, x);
            assert(before.contains(x));
            before.to_multiset_ensures();
            assert(before.to_multiset().count(x) > 0);
            assert(before.to_multiset().remove(x).insert(x) =~= before.to_multiset());
            assert(v@.to_multiset() == orig.to_multiset());
            // index map through the insertion
            assert forall|k: int| 0 <= k < j implies v@[k] == w[k] by {}
            assert(v@[j as int] == x);
            assert forall|k: int| j < k < v@.len() implies v@[k] == w[k - 1] by {}
            assert forall|a: int, b: int| 0 <= a < b < i + 1 && b < v@.len() implies track_le(
                v@[a],
                v@[b],
                o,
            ) by {
                if b < j {
                    assert(track_le(w[a], w[b], o));
                } else if b == j {
                    // v@[b] == x and a < j, so w[a] <= w[j-1] <= x
                    assert(track_le(w[j - 1], x, o));
                    if a < j - 1 {
                        assert(track_le(w[a], w[j - 1], o));
                        lemma_track_le_trans(w[a], w[j - 1], x, o);
                    }
                } else {
                    // b > j: v@[b] == w[b-1] with j <= b-1 < i
                    if a < j {
                        if j > 0 {
                            assert(track_le(w[j - 1], x, o));
                            assert(track_le(x, w[b - 1], o));
                            if a == j - 1 {
                                lemma_track_le_trans(w[j - 1], x, w[b - 1], o);
                            } else {
                                assert(track_le(w[a], w[j - 1], o));
                                lemma_track_le_trans(w[a], w[j - 1], x, o);
                                lemma_track_le_trans(w[a], x, w[b - 1], o);
                            }
                        }
                    } else if a == j {
                        assert(track_le(x, w[b - 1], o));
                    } else {
                        assert(track_le(w[a - 1], w[b - 1], o));
                    }
                }
            }
            // the insertion point is exactly where the stable sort puts x
            assert forall|k: int| j <= k < sp.len() implies !track_le(#[trigger] sp[k], x, o) by {
                assert(sp[k] == w[k]);
            }
            if j > 0 {
                assert(sp[j - 1] == w[j - 1]);
            }
            lemma_stable_insert_at(sp, x, o, j as int);
            assert(stable_insert(sp, x, o) == sp.insert(j as int, x));
            assert(orig.take(i + 1).drop_last() =~= orig.take(i as int));
            assert(orig.take(i + 1).last() == orig[i as int]);
            assert(stable_sort(orig.take(i + 1), o) == stable_insert(sp, x, o));
            assert forall|k: int| 0 <= k < v@.len() implies v@[k] == (sp.insert(j as int, x)
                + orig.skip(i + 1))[k] by {
                if k < j {
                    assert(v@[k] == w[k]);
                    assert(w[k] == sp[k]);
                    assert(sp.insert(j as int, x)[k] == sp[k]);
                } else if k == j {
                    assert(v@[k] == x);
                    assert(sp.insert(j as int, x)[k] == x);
                } else if k <= i {
                    assert(v@[k] == w[k - 1]);
                    assert(w[k - 1] == sp[k - 1]);
                    assert(sp.insert(j as int, x)[k] == sp[k - 1]);
                } else {
                    assert(v@[k] == w[k - 1]);
                    assert(w[k - 1] == orig.skip(i + 1)[k - 1 - i]);
                    assert((sp.insert(j as int, x) + orig.skip(i + 1))[k] == orig.skip(i + 1)[k - 1
                        - i]);
                }
            }
            assert(v@ =~= sp.insert(j as int, x) + orig.skip(i + 1));
            assert(v@ == stable_sort(orig.take(i + 1), o) + orig.skip(i + 1));
        }
        i += 1;
    }
    proof {
        assert(i == v@.len());
        assert(sorted_by(v@, o));
        assert(orig.take(orig.len() as int) =~= orig);
        assert(orig.skip(orig.len() as int) =~= Seq::<Track>::empty());
        assert(stable_sort(orig, o) + Seq::<Track>::empty() =~= stable_sort(orig, o));
        assert(v@ == stable_sort(orig, o));
    }
}

} // verus!
