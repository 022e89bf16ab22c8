use vstd::prelude::*;

verus! {

/// The shortest sleep of the maintenance loop, in milliseconds: a deadline that
/// has already passed is retried after this long rather than at once.
pub const MIN_RETRY_MS: u64 = 200;

/// What the maintenance loop does after a tick.
#[derive(PartialEq, Eq, Structural, Debug, Clone, Copy)]
pub enum Wake {
    /// Sleep this many milliseconds, then tick again.
    Sleep(u64),
    /// The engine has stopped, or the loop was cancelled: end the loop.
    Stop,
}

/// The deadline, in milliseconds on the caller's clock, that a tick reports
/// when the engine asks to be called again `wait_ms` from `now_ms`: a negative
/// wait counts as none, and a deadline past the clock's range is held at its end.
pub open spec fn deadline_after(now_ms: u64, wait_ms: i64) -> u64 {
    if wait_ms <= 0 {
        now_ms
    } else if now_ms + wait_ms > u64::MAX {
        u64::MAX
    } else {
        (now_ms + wait_ms) as u64
    }
}

/// What one maintenance tick reports: no deadline once the engine has stopped
/// running; otherwise the time at which it asks to be ticked again.
pub fn tick_deadline(running: bool, now_ms: u64, wait_ms: i64) -> (r: Option<u64>)
    ensures
        !running ==> r is None,
        running ==> r == Some(deadline_after(now_ms, wait_ms)),
{
    if !running {
        None
    } else if wait_ms <= 0 {
        Some(now_ms)
    } else {
        Some(now_ms.saturating_add(wait_ms as u64))
    }
}

/// The sleep that follows a tick at `now_ms`.
pub open spec fn wake_after(deadline: Option<u64>, now_ms: u64, cancelled: bool) -> Wake {
    if cancelled {
        Wake::Stop
    } else {
        match deadline {
            None => Wake::Stop,
            Some(d) => if d > now_ms {
                Wake::Sleep((d - now_ms) as u64)
            } else {
                Wake::Sleep(MIN_RETRY_MS)
            },
        }
    }
}

/// The decision of the maintenance loop after a tick that reported `deadline`
/// at `now_ms`: stop when the engine no longer runs or the owner has cancelled
/// the loop; else sleep until the deadline, or `MIN_RETRY_MS` if it has passed.
pub fn plan_wait(deadline: Option<u64>, now_ms: u64, cancelled: bool) -> (r: Wake)
    ensures
        r == wake_after(deadline, now_ms, cancelled),
        r matches Wake::Sleep(ms) ==> ms > 0,
{
    if cancelled {
        return Wake::Stop;
    }
    match deadline {
        None => Wake::Stop,
        Some(d) => if d > now_ms {
            Wake::Sleep(d - now_ms)
        } else {
            Wake::Sleep(MIN_RETRY_MS)
        },
    }
}

/// How many times the maintenance loop sleeps over the ticks `deadlines`,
/// taken at the times `nows`, before it stops (uncancelled).
pub open spec fn sleeps_until_stop(deadlines: Seq<Option<u64>>, nows: Seq<u64>) -> nat
    decreases deadlines.len(),
{
    if deadlines.len() == 0 || nows.len() == 0 {
        0
    } else {
        match wake_after(deadlines[0], nows[0], false) {
            Wake::Stop => 0,
            Wake::Sleep(_) => 1 + sleeps_until_stop(deadlines.drop_first(), nows.drop_first()),
        }
    }
}

/// A maintenance loop whose ticks report a deadline each time but the last,
/// which reports that the engine stopped, sleeps once after every tick but the
/// last and ends at the last, whatever the deadlines and the clock say.
pub proof fn lemma_loop_ends_at_stop(deadlines: Seq<Option<u64>>, nows: Seq<u64>)
    requires
        deadlines.len() >= 1,
        nows.len() == deadlines.len(),
        deadlines.last() is None,
        forall|i: int| 0 <= i < deadlines.len() - 1 ==> (#[trigger] deadlines[i]) is Some,
    ensures
        sleeps_until_stop(deadlines, nows) == deadlines.len() - 1,
        wake_after(deadlines.last(), nows.last(), false) == Wake::Stop,
    decreases deadlines.len(),
{
    if deadlines.len() > 1 {
        let rest = deadlines.drop_first();
        assert(deadlines[0] is Some);
        assert forall|i: int| 0 <= i < rest.len() - 1 implies (#[trigger] rest[i]) is Some by {
            assert(rest[i] == deadlines[i + 1]);
        }
        lemma_loop_ends_at_stop(rest, nows.drop_first());
    }
}

/// A tick of a running engine that asks to be called again `wait_ms` from now,
/// with the deadline within the clock's range, is followed by a sleep of
/// exactly `wait_ms`; a tick of a stopped engine ends the loop.
pub proof fn lemma_tick_then_sleep(now_ms: u64, wait_ms: i64)
    requires
        wait_ms > 0,
        now_ms + wait_ms <= u64::MAX,
    ensures
        wake_after(Some(deadline_after(now_ms, wait_ms)), now_ms, false) == Wake::Sleep(wait_ms as u64),
        wake_after(None, now_ms, false) == Wake::Stop,
{
}

} // verus!
