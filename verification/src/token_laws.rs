//! What holds of the tokens of a listener and its clients.
//!
//! The laws say what follows if cancelling a token cancels just that token and
//! those that were derived from it, directly or not.

use crate::client::client_accepts;
use crate::client::client_next;
use crate::client::new_client;
use crate::client::ClientActionView;
use crate::client::ClientEventView;
use crate::client_laws::client_accepts_all;
use crate::client_laws::client_run;
use crate::client_laws::law_compositor_hears_in_order;
use crate::client_laws::lemma_identity_is_kept;
use crate::client_laws::sent;
use crate::client_laws::well_ordered;
use crate::handles::derives;
use crate::messages::SocketMessageView;
use tokio_util::sync::CancellationToken;
use vstd::prelude::*;

verus! {

/// Which token was derived from which, and the order in which they were made.
pub struct TokenTree {
    /// The token that a token was derived from
    pub parent: Map<CancellationToken, CancellationToken>,
    /// How many tokens were made before a token
    pub made: spec_fn(CancellationToken) -> nat,
}

impl TokenTree {
    /// A token is derived from one token, which was made before it.
    pub open spec fn is_tree(self) -> bool {
        forall|token: CancellationToken| #[trigger]
            self.parent.contains_key(token) ==> (self.made)(self.parent[token]) < (self.made)(
                token,
            )
    }

    /// The tree knows that one token was derived from another.
    pub open spec fn knows(self, parent: CancellationToken, child: CancellationToken) -> bool {
        derives(parent, child) ==> self.parent.contains_key(child) && self.parent[child] == parent
    }

    /// Cancelling a token cancels another: it is that token, or it was derived
    /// from one that is cancelled.
    pub open spec fn cancels(self, token: CancellationToken, other: CancellationToken) -> bool
        decreases (self.made)(other),
    {
        ||| other == token
        ||| {
            &&& self.parent.contains_key(other)
            &&& (self.made)(self.parent[other]) < (self.made)(other)
            &&& self.cancels(token, self.parent[other])
        }
    }
}

/// A token that is cancelled with another was not made before it.
proof fn lemma_cancels_no_older(
    tree: TokenTree,
    token: CancellationToken,
    other: CancellationToken,
)
    requires
        tree.cancels(token, other),
    ensures
        (tree.made)(token) <= (tree.made)(other),
    decreases (tree.made)(other),
{
    if other != token {
        lemma_cancels_no_older(tree, token, tree.parent[other]);
    }
}

/// Cancelling a client's token stops just that client: neither the listener's
/// token nor that of another client is cancelled. Cancelling the listener's
/// token cancels those of all its clients.
pub proof fn law_token_stops_just_its_client(
    tree: TokenTree,
    listener: CancellationToken,
    client: CancellationToken,
    other: CancellationToken,
)
    requires
        tree.is_tree(),
        tree.knows(listener, client),
        tree.knows(listener, other),
        derives(listener, client),
        derives(listener, other),
        client != other,
    ensures
        tree.cancels(client, client),
        !tree.cancels(client, listener),
        !tree.cancels(client, other),
        tree.cancels(listener, client),
        tree.cancels(listener, other),
{
    assert(tree.cancels(listener, listener));
    if tree.cancels(client, listener) {
        lemma_cancels_no_older(tree, client, listener);
    }
}

/// A client that is being waited for learns of it when its own token or the
/// listener's is cancelled, tells the compositor that it is gone, and stops
/// with the answer. It had given the compositor that very token.
pub proof fn law_cancellation_ends_a_client<F>(
    tree: TokenTree,
    listener: CancellationToken,
    client_id: u32,
    token: CancellationToken,
    cancelled: CancellationToken,
    events: Seq<ClientEventView<F>>,
    answer: ClientEventView<F>,
)
    requires
        tree.is_tree(),
        tree.knows(listener, token),
        derives(listener, token),
        cancelled == token || cancelled == listener,
        client_accepts_all(new_client(client_id, token), events),
        client_run(new_client(client_id, token), events).0.phase is Waiting,
        answer is Delivered || answer is CompositorGone,
    ensures
        ({
            let run = client_run(new_client(client_id, token), events);
            let leaving = client_next(run.0, ClientEventView::<F>::Cancelled);
            &&& tree.cancels(cancelled, run.0.cancel_token)
            &&& well_ordered(client_id, token, sent(run.1))
            &&& client_accepts(run.0, ClientEventView::<F>::Cancelled)
            &&& leaving.1 == ClientActionView::Send(
                SocketMessageView::<F>::ClientDisconnected { client_id },
            )
            &&& client_accepts(leaving.0, answer)
            &&& client_next(leaving.0, answer).1 is Finish
        }),
{
    law_compositor_hears_in_order(client_id, token, events);
    assert(tree.cancels(listener, listener));
    assert(client_run(new_client(client_id, token), events).0.client_id == client_id) by {
        lemma_identity_is_kept(new_client(client_id, token), events);
    }
}

} // verus!
