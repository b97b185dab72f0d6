//! What holds of claims on socket names while locks are held.
//!
//! The locks that are held are a set of lock file paths. The laws say what
//! follows if the system refuses a lock exactly while somebody holds it.

use crate::naming::candidate;
use crate::naming::grants;
use crate::naming::law_candidates_are_distinct;
use crate::naming::law_lock_belongs_to_one_name;
use crate::naming::lock_name;
use crate::naming::search_next;
use crate::naming::LockAttempt;
use crate::naming::SearchState;
use crate::naming::SearchStepView;
use crate::naming::SocketNameErrorView;
use crate::naming::MAX_AUTO_DISPLAY;
use vstd::prelude::*;

verus! {

/// An attempt on a name went as the locks that are held have it: the lock file
/// could be opened, and its lock was refused if and only if somebody holds it.
pub open spec fn obeys_locks<L>(
    held: Set<Seq<char>>,
    socket_path: Seq<char>,
    attempt: LockAttempt<L>,
) -> bool {
    attempt is Flocked && (grants(attempt) <==> !held.contains(lock_name(socket_path)))
}

/// While a claim on a name lives, every other claim on it is refused.
pub proof fn law_live_claim_is_exclusive<L>(
    held: Set<Seq<char>>,
    socket_path: Seq<char>,
    first: LockAttempt<L>,
    second: LockAttempt<L>,
)
    requires
        obeys_locks(held, socket_path, first),
        grants(first),
        obeys_locks(held.insert(lock_name(socket_path)), socket_path, second),
    ensures
        !grants(second),
{
}

/// A name whose claim was given up can be claimed again, though its lock file
/// is still there.
pub proof fn law_released_name_can_be_claimed<L>(
    held: Set<Seq<char>>,
    socket_path: Seq<char>,
    attempt: LockAttempt<L>,
)
    requires
        obeys_locks(held.remove(lock_name(socket_path)), socket_path, attempt),
    ensures
        grants(attempt),
{
}

/// Claims on different names do not affect each other.
pub proof fn law_claims_are_independent<L>(
    held: Set<Seq<char>>,
    one: Seq<char>,
    other: Seq<char>,
    before: LockAttempt<L>,
    after: LockAttempt<L>,
)
    requires
        one != other,
        obeys_locks(held, other, before),
        obeys_locks(held.insert(lock_name(one)), other, after),
    ensures
        grants(before) <==> grants(after),
        held.insert(lock_name(other)).insert(lock_name(one)).contains(lock_name(other)),
{
    if lock_name(one) == lock_name(other) {
        law_lock_belongs_to_one_name(one, other);
    }
}

/// How a search ends that goes on from some state while some locks are held.
pub open spec fn search_from(s: SearchState, held: Set<Seq<char>>) -> SearchStepView<()>
    decreases MAX_AUTO_DISPLAY - s.n,
{
    let attempt = if held.contains(lock_name(candidate(s.runtime_dir, s.n))) {
        None
    } else {
        Some(())
    };
    let next = search_next(s, attempt);
    if s.n < MAX_AUTO_DISPLAY && next.1 is Try {
        search_from(next.0, held)
    } else {
        next.1
    }
}

/// How a search in a directory ends while some locks are held.
pub open spec fn search(runtime_dir: Seq<char>, held: Set<Seq<char>>) -> SearchStepView<()> {
    search_from(SearchState { runtime_dir, n: 0 }, held)
}

/// The locks that are held after `k` searches in a directory, each of which
/// keeps the lock that it claims.
pub open spec fn held_after(
    runtime_dir: Seq<char>,
    held: Set<Seq<char>>,
    k: nat,
) -> Set<Seq<char>>
    decreases k,
{
    if k == 0 {
        held
    } else {
        let before = held_after(runtime_dir, held, (k - 1) as nat);
        match search(runtime_dir, before) {
            SearchStepView::Claimed { socket_path, .. } => before.insert(lock_name(socket_path)),
            _ => before,
        }
    }
}

/// A search ends with the first name that is not held, or with an error.
proof fn lemma_search_from(s: SearchState, held: Set<Seq<char>>, k: nat)
    requires
        s.n <= k,
        s.n <= MAX_AUTO_DISPLAY,
        forall|j: nat|
            s.n <= j <= MAX_AUTO_DISPLAY ==> (held.contains(
                lock_name(#[trigger] candidate(s.runtime_dir, j)),
            ) <==> j < k),
    ensures
        search_from(s, held) == (if k <= MAX_AUTO_DISPLAY {
            SearchStepView::Claimed { socket_path: candidate(s.runtime_dir, k), lock: () }
        } else {
            SearchStepView::Failed(SocketNameErrorView::AllTaken { runtime_dir: s.runtime_dir })
        }),
    decreases MAX_AUTO_DISPLAY - s.n,
{
    assert(held.contains(lock_name(candidate(s.runtime_dir, s.n))) <==> s.n < k);
    if s.n < k && s.n < MAX_AUTO_DISPLAY {
        lemma_search_from(SearchState { n: s.n + 1, ..s }, held, k);
    }
}

/// In a directory in which no name is held, and while every lock that a search
/// claims is kept, the `k`th search claims the name with the number `k - 1`.
/// Once all names are held, a search fails.
pub proof fn law_searches_claim_names_in_turn(
    runtime_dir: Seq<char>,
    held: Set<Seq<char>>,
    k: nat,
)
    requires
        k >= 1,
        forall|j: nat|
            j <= MAX_AUTO_DISPLAY ==> !held.contains(
                lock_name(#[trigger] candidate(runtime_dir, j)),
            ),
    ensures
        search(runtime_dir, held_after(runtime_dir, held, (k - 1) as nat)) == (if k
            <= MAX_AUTO_DISPLAY + 1 {
            SearchStepView::Claimed {
                socket_path: candidate(runtime_dir, (k - 1) as nat),
                lock: (),
            }
        } else {
            SearchStepView::Failed(SocketNameErrorView::AllTaken { runtime_dir })
        }),
{
    lemma_held_after(runtime_dir, held, (k - 1) as nat);
    lemma_search_from(
        SearchState { runtime_dir, n: 0 },
        held_after(runtime_dir, held, (k - 1) as nat),
        (k - 1) as nat,
    );
}

/// After `k` searches the first `k` names are held, and no others.
proof fn lemma_held_after(runtime_dir: Seq<char>, held: Set<Seq<char>>, k: nat)
    requires
        forall|j: nat|
            j <= MAX_AUTO_DISPLAY ==> !held.contains(
                lock_name(#[trigger] candidate(runtime_dir, j)),
            ),
    ensures
        forall|j: nat|
            j <= MAX_AUTO_DISPLAY ==> (held_after(runtime_dir, held, k).contains(
                lock_name(#[trigger] candidate(runtime_dir, j)),
            ) <==> j < k),
    decreases k,
{
    if k > 0 {
        let last = (k - 1) as nat;
        let before = held_after(runtime_dir, held, last);
        lemma_held_after(runtime_dir, held, last);
        lemma_search_from(SearchState { runtime_dir, n: 0 }, before, last);
        assert forall|j: nat| j <= MAX_AUTO_DISPLAY implies (held_after(
            runtime_dir,
            held,
            k,
        ).contains(lock_name(#[trigger] candidate(runtime_dir, j))) <==> j < k) by {
            if lock_name(candidate(runtime_dir, j)) == lock_name(candidate(runtime_dir, last)) {
                law_lock_belongs_to_one_name(
                    candidate(runtime_dir, j),
                    candidate(runtime_dir, last),
                );
                law_candidates_are_distinct(runtime_dir, j, last);
            }
        }
    }
}

} // verus!
