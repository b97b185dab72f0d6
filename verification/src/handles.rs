//! The asynchronous handles that the library passes along.
//!
//! What a handle does happens over time, in other tasks, and is no part of its
//! value. So all that is known of one here is which queue or which
//! cancellation it stands for: two tokens are equal if cancelling either
//! cancels the other.

use tokio_util::sync::CancellationToken;
use vstd::prelude::*;

verus! {

/// The sending half of a bounded queue.
#[verifier::external_type_specification]
#[verifier::external_body]
#[verifier::reject_recursive_types(T)]
pub struct ExSender<T>(tokio::sync::mpsc::Sender<T>);

/// A token by which tasks are told to stop.
#[verifier::external_type_specification]
#[verifier::external_body]
pub struct ExCancellationToken(tokio_util::sync::CancellationToken);

/// `CancellationToken::child_token` gives a token that is not the parent:
/// cancelling the child leaves the parent alone. That cancelling the parent
/// cancels the child is an effect over time, and that each call gives a new
/// token depends on the calls before it: neither is stated.
pub assume_specification[ tokio_util::sync::CancellationToken::child_token ](
    parent: &tokio_util::sync::CancellationToken,
) -> (child: tokio_util::sync::CancellationToken)
    ensures
        child != *parent,
;

/// A token came of a call of `CancellationToken::child_token` on another.
pub open spec fn derives(parent: CancellationToken, child: CancellationToken) -> bool {
    call_ensures(CancellationToken::child_token, (&parent,), child)
}

/// `CancellationToken::clone` gives another handle of the same token:
/// cancelling either cancels both.
pub assume_specification[ <tokio_util::sync::CancellationToken as Clone>::clone ](
    token: &tokio_util::sync::CancellationToken,
) -> (handle: tokio_util::sync::CancellationToken)
    ensures
        handle == *token,
;

} // verus!
