use vstd::prelude::*;
use futures::channel::oneshot;
use crate::channels::{outcome_channel, send_outcome};
use crate::custody::Custody;

verus! {

/// The half of a one-shot completion that the engine's callback resolves.
pub type OutcomeSender = oneshot::Sender<bool>;

/// The half of a one-shot completion that the caller awaits.
pub type OutcomeReceiver = oneshot::Receiver<bool>;

/// Opens a one-shot completion for an operation that is about to be issued
/// (bootstrap, put): parks its sender under a fresh token and returns the token,
/// to be handed to the engine, with the receiver, for the caller. Gives `None`,
/// and keeps the table as it was, only once the tokens are used up.
pub fn open_completion(table: &mut Custody<OutcomeSender>) -> (r: Option<(u64, OutcomeReceiver)>)
    requires
        old(table).wf(),
    ensures
        final(table).wf(),
        r is None <==> old(table).next() == u64::MAX,
        r is None ==> final(table)@ == old(table)@ && final(table).next() == old(table).next(),
        r matches Some((t, _)) ==> {
            &&& t == old(table).next()
            &&& final(table).next() == t + 1
            &&& !old(table)@.contains_key(t)
            &&& final(table)@.contains_key(t)
            &&& final(table)@.remove(t) == old(table)@
        },
{
    let (tx, rx) = outcome_channel();
    match table.park(tx) {
        Some(t) => {
            assert(table@.remove(t) =~= old(table)@);
            Some((t, rx))
        },
        None => None,
    }
}

/// The engine's completion callback for `token`: reclaims the parked sender, if
/// it is still pending, and resolves the completion with `success`. A receiver
/// that was dropped meanwhile is no error. Returns whether the token was
/// pending, with the record of the flag sent: `success` exactly when the token
/// was pending, nothing otherwise. The token is never pending afterwards.
pub fn complete(table: &mut Custody<OutcomeSender>, token: u64, success: bool) -> (r: (bool, Ghost<Option<bool>>))
    requires
        old(table).wf(),
    ensures
        final(table).wf(),
        final(table).next() == old(table).next(),
        final(table)@ == old(table)@.remove(token),
        r.0 == old(table)@.contains_key(token),
        r.1@ == (if old(table)@.contains_key(token) { Some(success) } else { None::<bool> }),
{
    match table.reclaim(token) {
        Some(tx) => {
            let ghost sent = Some(success);
            send_outcome(tx, success);
            (true, Ghost(sent))
        },
        None => (false, Ghost(None)),
    }
}

} // verus!
