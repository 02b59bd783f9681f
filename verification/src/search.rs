//! Candidate filtering and selection. A candidate is dropped when its type
//! tags touch the exclusion list, kept only when its rating and rating
//! count clear the thresholds, and one survivor is then picked at random.
//! An empty survivor set is the retry signal, not an error.

use vstd::prelude::*;

use rand::seq::SliceRandom;

use crate::model::{Candidate, Place};

verus! {

/// The fixed exclusion list: a candidate tagged with any of these is never
/// selected.
pub open spec fn excluded_type(t: Seq<char>) -> bool {
    ||| t == "hotel"@
    ||| t == "lodge"@
    ||| t == "lodging"@
    ||| t == "gas_station"@
    ||| t == "convenience_store"@
    ||| t == "grocery_or_supermarket"@
    ||| t == "night_club"@
}

/// Whether the candidate's type set intersects the exclusion list.
pub open spec fn is_excluded(c: Candidate) -> bool {
    exists|i: int| 0 <= i < c.types@.len() && excluded_type(c.types@[i]@)
}

/// The inclusion thresholds: at least 3.0 stars and at least 100 ratings.
/// Missing values arrive as 0 and so are excluded automatically.
pub open spec fn meets_thresholds(c: Candidate) -> bool {
    c.rating_tenths >= 30 && c.ratings_count >= 100
}

/// A survivor: not excluded, and over both thresholds.
pub open spec fn qualifies(c: Candidate) -> bool {
    !is_excluded(c) && meets_thresholds(c)
}

/// Whether one type tag is on the exclusion list.
fn type_excluded(t: &String) -> (r: bool)
    ensures
        r == excluded_type(t@),
{
    let tags: [&str; 7] = [
        "hotel",
        "lodge",
        "lodging",
        "gas_station",
        "convenience_store",
        "grocery_or_supermarket",
        "night_club",
    ];
    let mut i: usize = 0;
    while i < 7
        invariant
            i <= 7,
            tags@.len() == 7,
            tags@[0]@ == "hotel"@ && tags@[1]@ == "lodge"@ && tags@[2]@ == "lodging"@,
            tags@[3]@ == "gas_station"@ && tags@[4]@ == "convenience_store"@,
            tags@[5]@ == "grocery_or_supermarket"@ && tags@[6]@ == "night_club"@,
            forall|j: int| 0 <= j < i ==> t@ != #[trigger] tags@[j]@,
        decreases 7 - i,
    {
        let tag = <String as vstd::string::StringExecFns>::from_str(tags[i]);
        if t.eq(&tag) {
            return true;
        }
        i += 1;
    }
    false
}

/// Whether the candidate carries an excluded type tag.
pub fn candidate_excluded(c: &Candidate) -> (r: bool)
    ensures
        r == is_excluded(*c),
{
    let mut i: usize = 0;
    while i < c.types.len()
        invariant
            i <= c.types@.len(),
            forall|j: int| 0 <= j < i ==> !excluded_type(c.types@[j]@),
        decreases c.types@.len() - i,
    {
        if type_excluded(&c.types[i]) {
            return true;
        }
        i += 1;
    }
    false
}

/// Whether the candidate survives both the exclusion and inclusion filters.
pub fn candidate_qualifies(c: &Candidate) -> (r: bool)
    ensures
        r == qualifies(*c),
{
    !candidate_excluded(c) && c.rating_tenths >= 30 && c.ratings_count >= 100
}

/// The subsequence of `s` that survives both filters, in order.
pub open spec fn qualifying(s: Seq<Candidate>) -> Seq<Candidate> {
    s.filter(|c: Candidate| qualifies(c))
}

/// Keeps exactly the candidates that survive both filters, in order.
pub fn survivors(candidates: Vec<Candidate>) -> (r: Vec<Candidate>)
    ensures
        r@ == qualifying(candidates@),
        forall|i: int| 0 <= i < r@.len() ==> candidates@.contains(#[trigger] r@[i]),
{
    let ghost pred = |c: Candidate| qualifies(c);
    let ghost orig = candidates@;
    let mut rest = candidates;
    let mut out: Vec<Candidate> = Vec::new();
    while rest.len() > 0
        invariant
            orig.filter(pred) == out@ + rest@.filter(pred),
            forall|k: int| 0 <= k < rest@.len() ==> orig.contains(#[trigger] rest@[k]),
            forall|k: int| 0 <= k < out@.len() ==> orig.contains(#[trigger] out@[k]),
            pred == (|c: Candidate| qualifies(c)),
        decreases rest@.len(),
    {
        let ghost rest_before = rest@;
        let c = rest.remove(0);
        proof {
            assert(rest_before =~= seq![c] + rest@);
            Seq::<Candidate>::filter_distributes_over_add(seq![c], rest@, pred);
            reveal_with_fuel(Seq::<_>::filter, 3);
            assert(seq![c].drop_last() =~= Seq::<Candidate>::empty());
            assert(orig.contains(rest_before[0]));
        }
        if candidate_qualifies(&c) {
            let ghost out_before = out@;
            out.push(c);
            proof {
                assert(out_before + seq![c] + rest@.filter(pred) =~= out_before + (seq![c]
                    + rest@.filter(pred)));
            }
        } else {
            proof {
                assert(out@ + (Seq::<Candidate>::empty() + rest@.filter(pred)) =~= out@
                    + rest@.filter(pred));
            }
        }
    }
    proof {
        reveal_with_fuel(Seq::<_>::filter, 2);
        assert(rest@ =~= Seq::<Candidate>::empty());
        assert(out@ + rest@.filter(pred) =~= out@);
    }
    out
}

/// Relies on rand's `SliceRandom::shuffle`: it permutes the slice in place,
/// so the length and the multiset of elements are unchanged; the resulting
/// order is random.
#[verifier::external_body]
fn shuffle_candidates(v: &mut Vec<Candidate>)
    ensures
        final(v)@.len() == old(v)@.len(),
        final(v)@.to_multiset() == old(v)@.to_multiset(),
{
    v.shuffle(&mut rand::rng());
}

/// How selection writes a survivor onto the place: identity, position and
/// rating come from the candidate; address and photos are untouched.
pub open spec fn selected_onto(before: Place, after: Place, c: Candidate) -> bool {
    &&& after.name@ == c.name@
    &&& after.lat@ == c.lat@
    &&& after.lng@ == c.lng@
    &&& after.place_id@ == c.place_id@
    &&& after.rating_tenths == c.rating_tenths
    &&& after.address == before.address
    &&& after.photos == before.photos
}

/// Filters the candidates, and when any survive, selects one survivor at
/// random and writes it onto the place, returning the survivor count. With
/// no survivor the place is untouched and `None` signals a retry. A
/// candidate on the exclusion list, or under either threshold, is never
/// selected.
pub fn search_select(candidates: Vec<Candidate>, place: &mut Place) -> (r: Option<usize>)
    ensures
        match r {
            Some(n) => {
                &&& n == qualifying(candidates@).len()
                &&& n >= 1
                &&& exists|c: Candidate|
                    {
                        &&& #[trigger] candidates@.contains(c)
                        &&& qualifies(c)
                        &&& selected_onto(*old(place), *final(place), c)
                    }
            },
            None => {
                &&& *final(place) == *old(place)
                &&& forall|i: int| 0 <= i < candidates@.len() ==> !qualifies(
                    #[trigger] candidates@[i],
                )
            },
        },
{
    let ghost pred = |c: Candidate| qualifies(c);
    let ghost orig = candidates@;
    let mut survs = survivors(candidates);
    if survs.len() == 0 {
        proof {
            assert forall|i: int| 0 <= i < orig.len() implies !qualifies(#[trigger] orig[i]) by {
                if qualifies(orig[i]) {
                    orig.lemma_filter_contains(pred, i);
                }
            }
        }
        return None;
    }
    let n = survs.len();
    let ghost before_shuffle = survs@;
    shuffle_candidates(&mut survs);
    let ghost shuffled = survs@;
    let c = survs.remove(0);
    proof {
        assert(shuffled.contains(c)) by {
            assert(shuffled[0] == c);
        }
        vstd::seq_lib::to_multiset_contains::<Candidate>(shuffled, c);
        vstd::seq_lib::to_multiset_contains::<Candidate>(before_shuffle, c);
        assert(before_shuffle.contains(c));
        let j = choose|j: int| 0 <= j < before_shuffle.len() && before_shuffle[j] == c;
        orig.lemma_filter_pred(pred, j);
        assert(qualifies(c));
        assert(orig.contains(c));
    }
    let Candidate { name, lat, lng, place_id, rating_tenths, ratings_count: _, types: _ } = c;
    place.name = name;
    place.lat = lat;
    place.lng = lng;
    place.place_id = place_id;
    place.rating_tenths = rating_tenths;
    Some(n)
}

} // verus!
