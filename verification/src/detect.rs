//! Detection of candidate events.
//!
//! The diff-polling strategy keeps the set of pool-account addresses seen in
//! the previous snapshot and, on each tick, emits exactly the addresses of
//! the current snapshot that were not in the previous one, then replaces the
//! known set with the current snapshot. The subscription strategy needs no
//! local state: each pushed notification is wrapped directly as a candidate,
//! and dedup is delegated to the store.

use vstd::prelude::*;
use vstd::seq_lib::group_seq_properties;
use crate::model::CandidateEvent;
use crate::model::CandidateEventView;

verus! {

/// What one diff-polling tick emits: the addresses of the current snapshot
/// that the previous snapshot did not hold, in snapshot order.
pub open spec fn tick_emission(known: Seq<Seq<char>>, current: Seq<Seq<char>>) -> Seq<Seq<char>> {
    current.filter(|a: Seq<char>| !known.contains(a))
}

/// Diff-polling detector state: the addresses seen in the previous snapshot.
pub struct DiffDetector {
    known: Vec<String>,
}

impl View for DiffDetector {
    type V = Seq<Seq<char>>;

    closed spec fn view(&self) -> Seq<Seq<char>> {
        self.known.deep_view()
    }
}

/// Is `a` one of the texts in `v`?
pub(crate) fn vec_contains_str(v: &Vec<String>, a: &String) -> (r: bool)
    ensures
        r == v.deep_view().contains(a@),
{
    proof {
        assert(forall|j: int| 0 <= j < v@.len() ==> #[trigger] v.deep_view()[j] == v@[j]@);
    }
    let n = v.len();
    let mut i: usize = 0;
    while i < n
        invariant
            n == v@.len(),
            i <= n,
            forall|j: int| 0 <= j < i ==> #[trigger] v.deep_view()[j] != a@,
            forall|j: int| 0 <= j < v@.len() ==> #[trigger] v.deep_view()[j] == v@[j]@,
        decreases n - i,
    {
        if v[i] == *a {
            proof {
                assert(v.deep_view()[i as int] == a@);
            }
            return true;
        }
        i = i + 1;
    }
    proof {
        assert(v.deep_view().len() == v@.len());
    }
    false
}

impl DiffDetector {
    /// A detector whose known set is the given initial snapshot, so that the
    /// first tick reports only what appears after start.
    pub fn new(initial: Vec<String>) -> (d: DiffDetector)
        ensures
            d@ == initial.deep_view(),
    {
        DiffDetector { known: initial }
    }

    /// How many addresses the detector currently knows.
    pub fn known_len(&self) -> (n: usize)
        ensures
            n == self@.len(),
    {
        self.known.len()
    }

    /// One polling tick: given the current snapshot, emit the addresses that
    /// were not known before, and replace the known set with the snapshot.
    /// An address the previous snapshot held is never emitted again on this
    /// tick, whether or not the current snapshot still holds it.
    pub fn tick(&mut self, current: Vec<String>) -> (fresh: Vec<String>)
        ensures
            final(self)@ == current.deep_view(),
            fresh.deep_view() == tick_emission(old(self)@, current.deep_view()),
    {
        broadcast use group_seq_properties;

        proof {
            assert(forall|j: int|
                0 <= j < current@.len() ==> #[trigger] current.deep_view()[j] == current@[j]@);
        }
        let ghost known_view = self@;
        let ghost cur_view = current.deep_view();
        let ghost pred = |a: Seq<char>| !known_view.contains(a);
        let n = current.len();
        let mut fresh: Vec<String> = Vec::new();
        let mut i: usize = 0;
        proof {
            assert(cur_view.take(0int).filter(pred) =~= Seq::<Seq<char>>::empty());
        }
        while i < n
            invariant
                n == current@.len(),
                i <= n,
                cur_view == current.deep_view(),
                known_view == self.known.deep_view(),
                pred == (|a: Seq<char>| !known_view.contains(a)),
                forall|j: int|
                    0 <= j < current@.len() ==> #[trigger] current.deep_view()[j] == current@[j]@,
                fresh.deep_view() == cur_view.take(i as int).filter(pred),
            decreases n - i,
        {
            let is_known = vec_contains_str(&self.known, &current[i]);
            proof {
                assert(cur_view.take(i + 1int) =~= cur_view.take(i as int) + seq![cur_view[i as int]]);
                reveal_with_fuel(Seq::filter, 2);
                assert(seq![cur_view[i as int]].drop_last() =~= Seq::<Seq<char>>::empty());
                assert(seq![cur_view[i as int]].filter(pred) == if pred(cur_view[i as int]) {
                    seq![cur_view[i as int]]
                } else {
                    Seq::<Seq<char>>::empty()
                });
            }
            if !is_known {
                let a = current[i].clone();
                fresh.push(a);
                proof {
                    assert(fresh.deep_view() =~= cur_view.take(i + 1int).filter(pred));
                }
            } else {
                proof {
                    assert(fresh.deep_view() =~= cur_view.take(i + 1int).filter(pred));
                }
            }
            i = i + 1;
        }
        proof {
            assert(cur_view.take(n as int) =~= cur_view);
        }
        self.known = current;
        fresh
    }
}

/// An address the detector already knew is never emitted by the next tick:
/// once a pool has been reported (or was present at start), a later snapshot
/// that still lists it produces no second candidate for it.
pub proof fn lemma_diff_polling_never_regresses(
    known: Seq<Seq<char>>,
    current: Seq<Seq<char>>,
    a: Seq<char>,
)
    requires
        known.contains(a),
    ensures
        !tick_emission(known, current).contains(a),
{
    let pred = |x: Seq<char>| !known.contains(x);
    let emitted = tick_emission(known, current);
    if emitted.contains(a) {
        let i = choose|i: int| 0 <= i < emitted.len() && emitted[i] == a;
        current.lemma_filter_pred(pred, i);
    }
}

/// Why a pushed notification yields no candidate.
#[derive(PartialEq, Eq, Structural, Clone, Copy, Debug)]
pub enum NotificationError {
    /// The notification payload carried no transaction signature.
    NoSignature,
}

/// Wrap one pushed log notification as a candidate event. The notification
/// yields a candidate exactly when it carries a signature; its raw log lines
/// are kept with the candidate.
pub fn candidate_from_notification(signature: Option<String>, raw_logs: Vec<String>) -> (r: Result<
    CandidateEvent,
    NotificationError,
>)
    ensures
        match signature {
            Option::Some(s) => r is Ok && r->Ok_0@ == (CandidateEventView::Transaction {
                signature: s@,
                raw_logs: raw_logs.deep_view(),
            }),
            Option::None => r == Result::<CandidateEvent, NotificationError>::Err(
                NotificationError::NoSignature,
            ),
        },
{
    match signature {
        Option::Some(s) => {
            let ghost rl = raw_logs.deep_view();
            let ghost sv = s@;
            let c = CandidateEvent::Transaction { signature: s, raw_logs };
            proof {
                assert(c@->Transaction_raw_logs =~= rl);
                assert(c@ == (CandidateEventView::Transaction { signature: sv, raw_logs: rl }));
            }
            Result::Ok(c)
        },
        Option::None => Result::Err(NotificationError::NoSignature),
    }
}

} // verus!
