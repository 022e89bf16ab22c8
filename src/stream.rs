use vstd::prelude::*;
use vstd::slice::slice_to_vec;
use futures::channel::mpsc;
use crate::channels::{bounded_channel, try_send};
use crate::custody::Custody;

verus! {

/// How many values a stream holds before the engine is told to stop.
pub const STREAM_CAPACITY: usize = 10;

/// The half of a value stream that the engine's callbacks feed.
pub type ValueSender = mpsc::Sender<Vec<u8>>;

/// The half of a value stream that the caller reads.
pub type ValueReceiver = mpsc::Receiver<Vec<u8>>;

/// The tokens still pending after a delivery for `token` that answered
/// `keep_going`: a delivery that stops releases the token's sender.
pub open spec fn pending_after_delivery(pending: Set<u64>, token: u64, keep_going: bool) -> Set<u64> {
    if keep_going {
        pending
    } else {
        pending.remove(token)
    }
}

/// The tokens still pending after the terminal event for `token`.
pub open spec fn pending_after_finish(pending: Set<u64>, token: u64) -> Set<u64> {
    pending.remove(token)
}

/// Opens a value stream for a lookup or a subscription: a bounded channel of
/// `STREAM_CAPACITY` values whose sender is parked under a fresh token. Returns
/// the token, to be handed to the engine, with the receiver, for the caller.
/// Gives `None`, and keeps the table as it was, only once the tokens are used up.
pub fn open_stream(table: &mut Custody<ValueSender>) -> (r: Option<(u64, ValueReceiver)>)
    requires
        old(table).wf(),
    ensures
        final(table).wf(),
        r is None <==> old(table).next() == u64::MAX,
        r is None ==> final(table)@ == old(table)@ && final(table).next() == old(table).next(),
        r matches Some((t, _)) ==> {
            &&& t == old(table).next()
            &&& final(table).next() == t + 1
            &&& !old(table)@.contains_key(t)
            &&& final(table)@.contains_key(t)
            &&& final(table)@.remove(t) == old(table)@
        },
{
    let (tx, rx) = bounded_channel(STREAM_CAPACITY);
    match table.park(tx) {
        Some(t) => {
            assert(table@.remove(t) =~= old(table)@);
            Some((t, rx))
        },
        None => None,
    }
}

/// The values of `items`, as byte sequences.
pub open spec fn values_of(items: Seq<&[u8]>) -> Seq<Seq<u8>> {
    items.map_values(|s: &[u8]| s@)
}

/// A record of one batch forwarded to a stream: `offered` holds the copies
/// handed to the stream, one per offer, and `answers` whether the stream took
/// each. The copies are of the first values of the batch, in order, and
/// offering went on past a value only where the stream took it.
pub open spec fn forwarded_in_order(items: Seq<&[u8]>, offered: Seq<Seq<u8>>, answers: Seq<bool>) -> bool {
    &&& answers.len() <= items.len()
    &&& offered == values_of(items.take(answers.len() as int))
    &&& forall|i: int| 0 <= i < answers.len() - 1 ==> #[trigger] answers[i]
    &&& answers.len() < items.len() ==> answers.len() > 0 && !answers.last()
}

/// Every value of the batch was offered, and the stream took each.
pub open spec fn all_taken(items: Seq<&[u8]>, answers: Seq<bool>) -> bool {
    &&& answers.len() == items.len()
    &&& forall|i: int| 0 <= i < answers.len() ==> #[trigger] answers[i]
}

/// Copies each value of a batch into a buffer of its own and offers it to the
/// stream without blocking, in order, until one is refused (the stream is full
/// or its reader is gone). Returns how many were taken, with the record of the
/// copies offered and of the stream's answers: the count is that of the whole
/// batch when every value was taken, and otherwise the place of the one refusal,
/// the last offer.
pub fn forward_batch(tx: &mut ValueSender, items: &[&[u8]]) -> (r: (usize, Ghost<Seq<Seq<u8>>>, Ghost<Seq<bool>>))
    ensures
        forwarded_in_order(items@, r.1@, r.2@),
        r.0 <= items@.len(),
        all_taken(items@, r.2@) <==> r.0 == items@.len(),
        !all_taken(items@, r.2@) ==> r.0 + 1 == r.2@.len() && !r.2@[r.0 as int],
{
    let ghost mut offered: Seq<Seq<u8>> = Seq::empty();
    let ghost mut answers: Seq<bool> = Seq::empty();
    let mut i: usize = 0;
    while i < items.len()
        invariant
            i <= items@.len(),
            answers.len() == i,
            offered == values_of(items@.take(i as int)),
            forall|k: int| 0 <= k < i ==> #[trigger] answers[k],
        decreases items@.len() - i,
    {
        let owned = slice_to_vec(items[i]);
        let ghost copy = owned@;
        let accepted = try_send(tx, owned);
        proof {
            assert(items@.take(i + 1) =~= items@.take(i as int).push(items@[i as int]));
            offered = offered.push(copy);
            answers = answers.push(accepted);
            assert(offered =~= values_of(items@.take(i + 1)));
        }
        if !accepted {
            return (i, Ghost(offered), Ghost(answers));
        }
        i = i + 1;
    }
    assert(items@.take(i as int) =~= items@);
    (i, Ghost(offered), Ghost(answers))
}

/// The end of a delivery for `token`, whose sender `tx` was taken out of the
/// table to forward a batch of `offered` values, of which the stream took
/// `taken`. The engine may go on exactly when the whole batch was taken: the
/// sender is then parked again under its token; otherwise it is released.
pub fn settle(table: &mut Custody<ValueSender>, token: u64, tx: ValueSender, taken: usize, offered: usize) -> (keep_going: bool)
    requires
        old(table).wf(),
        token < old(table).next(),
        !old(table)@.contains_key(token),
        taken <= offered,
    ensures
        final(table).wf(),
        final(table).next() == old(table).next(),
        keep_going == (taken == offered),
        keep_going ==> final(table)@ == old(table)@.insert(token, tx),
        !keep_going ==> final(table)@ == old(table)@,
{
    if taken == offered {
        table.restore(token, tx);
        true
    } else {
        false
    }
}

/// The engine's per-item callback for `token`. Forwards the batch to the
/// token's stream and answers whether the engine may go on delivering. A batch
/// that is refused in part ends the delivery: the sender is released and the
/// answer is to stop. A token that is no longer pending (its stream ended or
/// was stopped before) gets the answer to stop, offers nothing and changes
/// nothing. Returns the answer with the record of what was offered to the
/// stream: on a pending token the engine may go on exactly when every value
/// was offered, in order, and taken (so an empty batch goes on).
pub fn deliver(table: &mut Custody<ValueSender>, token: u64, items: &[&[u8]]) -> (r: (bool, Ghost<Seq<Seq<u8>>>, Ghost<Seq<bool>>))
    requires
        old(table).wf(),
    ensures
        ({
            let (keep_going, offered, answers) = r;
            &&& final(table).wf()
            &&& final(table).next() == old(table).next()
            &&& final(table)@.dom() == pending_after_delivery(old(table)@.dom(), token, keep_going)
            &&& forall|t: u64| t != token ==> final(table)@.get(t) == old(table)@.get(t)
            &&& !old(table)@.contains_key(token) ==> !keep_going && final(table)@ == old(table)@
                && answers@.len() == 0
            &&& old(table)@.contains_key(token) ==> forwarded_in_order(items@, offered@, answers@)
                && (keep_going <==> all_taken(items@, answers@))
        }),
{
    match table.reclaim(token) {
        None => {
            assert(old(table)@.remove(token) =~= old(table)@);
            (false, Ghost(Seq::empty()), Ghost(Seq::empty()))
        },
        Some(tx) => {
            let mut tx = tx;
            let (n, offered, answers) = forward_batch(&mut tx, items);
            let keep_going = settle(table, token, tx, n, items.len());
            assert(table@.dom() =~= pending_after_delivery(old(table)@.dom(), token, keep_going));
            (keep_going, offered, answers)
        },
    }
}

/// The engine's terminal callback for `token`: the lookup has delivered all it
/// found. Releases the sender, which ends the stream for its reader. Returns
/// whether the token was still pending; the token is never pending afterwards.
pub fn finish(table: &mut Custody<ValueSender>, token: u64) -> (r: bool)
    requires
        old(table).wf(),
    ensures
        final(table).wf(),
        final(table).next() == old(table).next(),
        final(table)@ == old(table)@.remove(token),
        final(table)@.dom() == pending_after_finish(old(table)@.dom(), token),
        r == old(table)@.contains_key(token),
{
    let r = table.reclaim(token).is_some();
    assert(table@.dom() =~= old(table)@.dom().remove(token));
    r
}

/// A stream whose delivery stopped has had its sender released, once: the
/// token is no longer pending, no other token is touched, and any later
/// delivery or terminal event for that token releases nothing more.
pub proof fn lemma_stop_releases_once(pending: Set<u64>, token: u64)
    requires
        pending.contains(token),
    ensures
        !pending_after_delivery(pending, token, false).contains(token),
        pending_after_delivery(pending, token, false).insert(token) == pending,
        pending_after_finish(pending_after_delivery(pending, token, false), token)
            == pending_after_delivery(pending, token, false),
        forall|keep_going: bool|
            pending_after_delivery(pending_after_delivery(pending, token, false), token, keep_going)
                == pending_after_delivery(pending, token, false),
{
    assert(pending.remove(token).insert(token) =~= pending);
    assert(pending.remove(token).remove(token) =~= pending.remove(token));
}

/// A stream whose reader went away before the lookup ended: once its terminal
/// event has released the sender, a late delivery for the token releases
/// nothing, and neither a delivery nor a second terminal event can release it
/// again.
pub proof fn lemma_late_delivery_after_finish(pending: Set<u64>, token: u64, keep_going: bool)
    requires
        pending.contains(token),
    ensures
        !pending_after_finish(pending, token).contains(token),
        pending_after_delivery(pending_after_finish(pending, token), token, keep_going)
            == pending_after_finish(pending, token),
        pending_after_finish(pending_after_finish(pending, token), token)
            == pending_after_finish(pending, token),
{
    assert(pending.remove(token).remove(token) =~= pending.remove(token));
}

/// The tokens still pending after one event for `token`: a delivery that
/// answered `keep_going` (`Some(keep_going)`), or the terminal event (`None`).
pub open spec fn pending_after_event(pending: Set<u64>, token: u64, event: Option<bool>) -> Set<u64> {
    match event {
        Some(keep_going) => pending_after_delivery(pending, token, keep_going),
        None => pending_after_finish(pending, token),
    }
}

/// The tokens still pending after a sequence of events for `token`.
pub open spec fn pending_after_events(pending: Set<u64>, token: u64, events: Seq<Option<bool>>) -> Set<u64>
    decreases events.len(),
{
    if events.len() == 0 {
        pending
    } else {
        pending_after_events(pending_after_event(pending, token, events[0]), token, events.drop_first())
    }
}

/// How many of the events for `token` released its sender: took it from
/// pending to not pending.
pub open spec fn releases(pending: Set<u64>, token: u64, events: Seq<Option<bool>>) -> nat
    decreases events.len(),
{
    if events.len() == 0 {
        0
    } else {
        let next = pending_after_event(pending, token, events[0]);
        (if pending.contains(token) && !next.contains(token) { 1nat } else { 0nat }) + releases(
            next,
            token,
            events.drop_first(),
        )
    }
}

/// A token that is no longer pending stays so: no event releases it again.
pub proof fn lemma_released_stays_released(pending: Set<u64>, token: u64, events: Seq<Option<bool>>)
    requires
        !pending.contains(token),
    ensures
        releases(pending, token, events) == 0,
        !pending_after_events(pending, token, events).contains(token),
    decreases events.len(),
{
    if events.len() > 0 {
        lemma_released_stays_released(pending_after_event(pending, token, events[0]), token, events.drop_first());
    }
}

/// Over any run of deliveries and terminal events for one stream (its reader
/// gone or not), the sender is released at most once; and exactly once, and
/// never pending afterwards, when the run holds the terminal event or a
/// delivery that stopped.
pub proof fn lemma_sender_released_once(pending: Set<u64>, token: u64, events: Seq<Option<bool>>)
    requires
        pending.contains(token),
    ensures
        releases(pending, token, events) <= 1,
        (events.contains(None) || events.contains(Some(false))) ==> releases(pending, token, events) == 1
            && !pending_after_events(pending, token, events).contains(token),
    decreases events.len(),
{
    if events.len() > 0 {
        let next = pending_after_event(pending, token, events[0]);
        let rest = events.drop_first();
        if next.contains(token) {
            lemma_sender_released_once(next, token, rest);
            if events.contains(None) || events.contains(Some(false)) {
                assert(events[0] == Some(true));
                if events.contains(None) {
                    let k = choose|k: int| 0 <= k < events.len() && events[k] == None::<bool>;
                    assert(rest[k - 1] == None::<bool>);
                } else {
                    let k = choose|k: int| 0 <= k < events.len() && events[k] == Some(false);
                    assert(rest[k - 1] == Some(false));
                }
            }
        } else {
            lemma_released_stays_released(next, token, rest);
        }
    }
}

} // verus!
