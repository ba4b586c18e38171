//! Ensembles: which of several programs' predictions is the answer.
use vstd::prelude::*;
use crate::example::lookup;
use crate::prediction::Prediction;
use crate::text::str_eq;
use crate::value::ValueModel;

verus! {

/// How the predictions of an ensemble are combined.
#[derive(Debug, Clone)]
pub enum AggregationStrategy {
    /// The first prediction.
    First,
    /// The first prediction whose string value of this field got the most votes.
    MajorityVote(String),
}

/// A prediction's vote: the string value of `field`, if it has one.
pub open spec fn vote_of(p: Prediction, field: Seq<char>) -> Option<Seq<char>> {
    match lookup(p.example@.entries, field) {
        Some(ValueModel::Str(s)) => Some(s),
        _ => None,
    }
}

/// The votes of the predictions.
pub open spec fn votes(ps: Seq<Prediction>, field: Seq<char>) -> Seq<Option<Seq<char>>> {
    ps.map_values(|p: Prediction| vote_of(p, field))
}

/// How many of the votes are for `v`.
pub open spec fn vote_count(vs: Seq<Option<Seq<char>>>, v: Seq<char>) -> nat
    decreases vs.len(),
{
    if vs.len() == 0 {
        0
    } else {
        vote_count(vs.drop_last(), v) + if vs.last() == Some(v) { 1nat } else { 0nat }
    }
}

/// Vote `i` is for a value that no other value beats in votes.
pub open spec fn top_vote(vs: Seq<Option<Seq<char>>>, i: int) -> bool {
    &&& 0 <= i < vs.len()
    &&& vs[i] is Some
    &&& forall|j: int| 0 <= j < vs.len() && (#[trigger] vs[j]) is Some
            ==> vote_count(vs, vs[j]->0) <= vote_count(vs, vs[i]->0)
}

/// The prediction a majority vote picks: the first one whose vote is for a
/// value with the most votes; the first prediction where nobody voted.
pub open spec fn majority_pick(vs: Seq<Option<Seq<char>>>, i: int) -> bool {
    if exists|j: int| 0 <= j < vs.len() && (#[trigger] vs[j]) is Some {
        top_vote(vs, i) && forall|j: int| 0 <= j < i ==> !top_vote(vs, j)
    } else {
        i == 0
    }
}

/// How many of `vs` are for `v`.
fn count_votes(vs: &Vec<Option<String>>, v: &str) -> (r: usize)
    ensures
        r == vote_count(vs@.map_values(|o: Option<String>| match o { Some(s) => Some(s@), None => None }), v@),
{
    let ghost m = vs@.map_values(|o: Option<String>| match o { Some(s) => Some(s@), None => None::<Seq<char>> });
    let mut c: usize = 0;
    let mut k: usize = 0;
    while k < vs.len()
        invariant
            k <= vs@.len(),
            m == vs@.map_values(|o: Option<String>| match o { Some(s) => Some(s@), None => None::<Seq<char>> }),
            c == vote_count(m.take(k as int), v@),
            c <= k,
        decreases vs@.len() - k,
    {
        assert(m.take(k + 1).drop_last() =~= m.take(k as int));
        let same = match &vs[k] {
            Some(s) => str_eq(s.as_str(), v),
            None => false,
        };
        if same {
            c = c + 1;
        }
        k = k + 1;
    }
    assert(m.take(k as int) =~= m);
    c
}

/// The position of the prediction that an ensemble answers with; none where
/// there are no predictions.  `First` picks the first; a majority vote picks
/// as `majority_pick` says.
pub fn aggregate(strategy: &AggregationStrategy, predictions: &[Prediction]) -> (r: Option<usize>)
    ensures
        r is None <==> predictions@.len() == 0,
        r matches Some(i) ==> i < predictions@.len(),
        r matches Some(i) ==> match strategy {
            AggregationStrategy::First => i == 0,
            AggregationStrategy::MajorityVote(field) => majority_pick(votes(predictions@, field@), i as int),
        },
{
    if predictions.len() == 0 {
        return None;
    }
    match strategy {
        AggregationStrategy::First => Some(0),
        AggregationStrategy::MajorityVote(field) => {
            let ghost vm = votes(predictions@, field@);
            let mut vs: Vec<Option<String>> = Vec::new();
            let mut i: usize = 0;
            while i < predictions.len()
                invariant
                    i <= predictions@.len(),
                    vm == votes(predictions@, field@),
                    vs@.len() == i,
                    forall|j: int| 0 <= j < i ==> #[trigger] vs@[j].is_some() == vm[j].is_some(),
                    forall|j: int| 0 <= j < i ==> ((#[trigger] vs@[j]) matches Some(s) ==> vm[j] == Some(s@)),
                decreases predictions@.len() - i,
            {
                let v = match predictions[i].get_str(field.as_str()) {
                    Some(s) => Some(s.to_string()),
                    None => None,
                };
                vs.push(v);
                i = i + 1;
            }
            let ghost m = vs@.map_values(|o: Option<String>| match o { Some(s) => Some(s@), None => None::<Seq<char>> });
            assert(m =~= vm) by {
                assert forall|j: int| 0 <= j < vm.len() implies m[j] == vm[j] by {
                    assert(vs@[j].is_some() == vm[j].is_some());
                }
            }
            let mut best: Option<usize> = None;
            let mut best_count: usize = 0;
            let mut k: usize = 0;
            while k < vs.len()
                invariant
                    k <= vs@.len() == vm.len(),
                    m == vm,
                    m == vs@.map_values(|o: Option<String>| match o { Some(s) => Some(s@), None => None::<Seq<char>> }),
                    match best {
                        Some(b) => {
                            &&& b < k
                            &&& vm[b as int] is Some
                            &&& best_count == vote_count(vm, vm[b as int]->0)
                            &&& forall|j: int| 0 <= j < k && (#[trigger] vm[j]) is Some ==> vote_count(vm, vm[j]->0) <= best_count
                            &&& forall|j: int| 0 <= j < b && (#[trigger] vm[j]) is Some ==> vote_count(vm, vm[j]->0) < best_count
                        },
                        None => forall|j: int| 0 <= j < k ==> (#[trigger] vm[j]) is None,
                    },
                decreases vs@.len() - k,
            {
                match &vs[k] {
                    Some(s) => {
                        let c = count_votes(&vs, s.as_str());
                        assert(vm[k as int] == Some(s@));
                        let better = match best {
                            Some(_) => c > best_count,
                            None => true,
                        };
                        if better {
                            best = Some(k);
                            best_count = c;
                        }
                    },
                    None => {
                        assert(vm[k as int] is None);
                    },
                }
                k = k + 1;
            }
            match best {
                Some(b) => {
                    proof {
                        assert(top_vote(vm, b as int));
                        assert forall|j: int| 0 <= j < b implies !top_vote(vm, j) by {
                            if top_vote(vm, j) {
                                assert(vote_count(vm, vm[b as int]->0) <= vote_count(vm, vm[j]->0));
                            }
                        }
                    }
                    Some(b)
                },
                None => {
                    assert(!exists|j: int| 0 <= j < vm.len() && (#[trigger] vm[j]) is Some);
                    Some(0)
                },
            }
        },
    }
}

} // verus!
