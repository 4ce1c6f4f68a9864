//! Rate limiting of raw transfer progress callbacks.
//!
//! During a long transfer the protocol layer reports the remaining byte count
//! once per chunk, far more often than the boundary channel can usefully
//! absorb. The throttler keeps an internal call counter and lets a
//! notification through on the first call of every window of six, and always
//! when the transfer is complete (`remaining == 0`), so the terminal update is
//! never dropped.

use vstd::prelude::*;

verus! {

/// One progress notification crossing the boundary: bytes still to transfer
/// out of a total fixed when the operation started.
#[derive(Clone, Copy, Debug, PartialEq, Eq, Structural)]
pub struct ProgressUpdate {
    pub remaining: u32,
    pub total: u32,
}

/// Number of raw callbacks in one throttling window: one notification is let
/// through per window.
pub const WINDOW: u32 = 6;

/// Whether a raw callback is let through, given the call counter at the time
/// of the call and the reported remaining byte count.
pub open spec fn emits_now(counter: u32, remaining: u32) -> bool {
    counter == 0 || remaining == 0
}

/// Call counter after one more raw callback.
pub open spec fn next_counter(counter: u32) -> u32 {
    if counter >= (WINDOW - 1) as u32 {
        0
    } else {
        (counter + 1) as u32
    }
}

/// Rate limiter for the raw progress callbacks of one transfer.
pub struct Throttler {
    /// Position within the current window, always below `WINDOW` for a
    /// throttler built by `new`.
    counter: u32,
    /// Total byte count of the operation, fixed at construction.
    total: u32,
}

impl Throttler {
    pub closed spec fn counter(self) -> u32 {
        self.counter
    }

    pub closed spec fn total(self) -> u32 {
        self.total
    }

    /// A fresh throttler for an operation of `total` bytes.
    pub fn new(total: u32) -> (t: Throttler)
        ensures
            t.counter() == 0,
            t.total() == total,
    {
        Throttler { counter: 0, total }
    }

    /// One raw callback: returns the notification to post, or `None` when the
    /// callback is suppressed.
    pub fn note(&mut self, remaining: u32) -> (r: Option<ProgressUpdate>)
        ensures
            final(self).total() == old(self).total(),
            final(self).counter() == next_counter(old(self).counter()),
            emits_now(old(self).counter(), remaining) ==> r == Some(ProgressUpdate {
                remaining,
                total: old(self).total(),
            }),
            !emits_now(old(self).counter(), remaining) ==> r is None,
    {
        let r: Option<ProgressUpdate> = if self.counter == 0 || remaining == 0 {
            Some(ProgressUpdate { remaining, total: self.total })
        } else {
            None
        };
        if self.counter >= WINDOW - 1 {
            self.counter = 0;
        } else {
            self.counter = self.counter + 1;
        }
        r
    }
}

/// Call counter after `n` raw callbacks of one transfer.
pub open spec fn counter_after(n: nat) -> u32
    decreases n,
{
    if n == 0 {
        0u32
    } else {
        next_counter(counter_after((n - 1) as nat))
    }
}

/// The counter cycles through one window: after `n` calls it stands at
/// `n % WINDOW`.
pub proof fn lemma_counter_cycles(n: nat)
    ensures
        counter_after(n) == n % (WINDOW as nat),
    decreases n,
{
    if n > 0 {
        lemma_counter_cycles((n - 1) as nat);
    }
}

/// Whether the `k`-th raw callback of a transfer whose reported remaining
/// counts are `raws` is let through.
pub open spec fn emit_at(raws: Seq<u32>, k: int) -> bool {
    counter_after(k as nat) == 0 || raws[k] == 0
}

/// The notifications let through when the raw callbacks of one transfer of
/// `total` bytes report the remaining counts `raws`, in order.
pub open spec fn throttled(total: u32, raws: Seq<u32>) -> Seq<ProgressUpdate>
    decreases raws.len(),
{
    if raws.len() == 0 {
        Seq::empty()
    } else {
        let prefix = throttled(total, raws.drop_last());
        if emit_at(raws, raws.len() - 1) {
            prefix.push(ProgressUpdate { remaining: raws.last(), total })
        } else {
            prefix
        }
    }
}

/// Runs a whole transfer's raw callbacks through one fresh throttler and
/// returns the notifications that are let through, in order.
pub fn run_throttle(total: u32, raws: &Vec<u32>) -> (out: Vec<ProgressUpdate>)
    ensures
        out@ == throttled(total, raws@),
{
    let mut t = Throttler::new(total);
    let mut out: Vec<ProgressUpdate> = Vec::new();
    let mut k: usize = 0;
    while k < raws.len()
        invariant
            k <= raws@.len(),
            t.total() == total,
            t.counter() == counter_after(k as nat),
            out@ == throttled(total, raws@.take(k as int)),
        decreases raws@.len() - k,
    {
        proof {
            assert(raws@.take(k + 1).drop_last() =~= raws@.take(k as int));
            assert(raws@.take(k + 1).last() == raws@[k as int]);
        }
        let r = t.note(raws[k]);
        if let Some(u) = r {
            out.push(u);
        }
        k = k + 1;
    }
    proof {
        assert(raws@.take(raws@.len() as int) =~= raws@);
    }
    out
}

/// Every notification let through carries the total fixed at the start of
/// the operation.
pub proof fn lemma_total_fixed(total: u32, raws: Seq<u32>)
    ensures
        forall|j: int|
            0 <= j < throttled(total, raws).len() ==> #[trigger] throttled(total, raws)[j].total
                == total,
    decreases raws.len(),
{
    if raws.len() > 0 {
        lemma_total_fixed(total, raws.drop_last());
        assert forall|j: int| 0 <= j < throttled(total, raws).len() implies #[trigger] throttled(
            total,
            raws,
        )[j].total == total by {
            if j < throttled(total, raws.drop_last()).len() {
                assert(throttled(total, raws.drop_last())[j].total == total);
            }
        }
    }
}

/// Every notification let through repeats a remaining count that some raw
/// callback reported: the throttler invents none.
pub proof fn lemma_updates_reported(total: u32, raws: Seq<u32>)
    ensures
        forall|j: int|
            0 <= j < throttled(total, raws).len() ==> raws.contains(
                #[trigger] throttled(total, raws)[j].remaining,
            ),
    decreases raws.len(),
{
    if raws.len() > 0 {
        lemma_updates_reported(total, raws.drop_last());
        assert forall|j: int| 0 <= j < throttled(total, raws).len() implies raws.contains(
            #[trigger] throttled(total, raws)[j].remaining,
        ) by {
            if j < throttled(total, raws.drop_last()).len() {
                let r = throttled(total, raws.drop_last())[j].remaining;
                let w = choose|w: int|
                    0 <= w < raws.drop_last().len() && raws.drop_last()[w] == r;
                assert(raws[w] == r);
            } else {
                assert(raws[raws.len() - 1] == throttled(total, raws)[j].remaining);
            }
        }
    }
}

/// When every raw callback reports at most the fixed total, every
/// notification satisfies the progress invariant `remaining <= total`.
pub proof fn lemma_progress_invariant(total: u32, raws: Seq<u32>)
    requires
        forall|k: int| 0 <= k < raws.len() ==> raws[k] <= total,
    ensures
        forall|j: int|
            0 <= j < throttled(total, raws).len() ==> #[trigger] throttled(
                total,
                raws,
            )[j].remaining <= total,
{
    lemma_updates_reported(total, raws);
    assert forall|j: int| 0 <= j < throttled(total, raws).len() implies #[trigger] throttled(
        total,
        raws,
    )[j].remaining <= total by {
        let r = throttled(total, raws)[j].remaining;
        let w = choose|w: int| 0 <= w < raws.len() && raws[w] == r;
        assert(raws[w] <= total);
    }
}

/// If no raw callback ever reports zero remaining bytes, no terminal
/// notification is let through.
pub proof fn lemma_no_terminal_without_zero(total: u32, raws: Seq<u32>)
    requires
        forall|k: int| 0 <= k < raws.len() ==> raws[k] != 0,
    ensures
        forall|j: int|
            0 <= j < throttled(total, raws).len() ==> #[trigger] throttled(
                total,
                raws,
            )[j].remaining != 0,
{
    lemma_updates_reported(total, raws);
}

/// The raw callbacks of one full descending transfer of `total` bytes:
/// `total + 1` callbacks counting down from `total` to zero.
pub open spec fn descending(total: u32) -> Seq<u32> {
    Seq::new((total + 1) as nat, |k: int| (total - k) as u32)
}

/// Over the first `n` callbacks of a descending transfer, none of which is
/// terminal, exactly one notification per started window is let through,
/// the first of them carrying the full total.
proof fn lemma_descending_prefix(total: u32, n: int)
    requires
        0 <= n <= total,
    ensures
        throttled(total, descending(total).take(n)).len() == (n + (WINDOW as int) - 1) / (
        WINDOW as int),
        n >= 1 ==> throttled(total, descending(total).take(n))[0] == (ProgressUpdate {
            remaining: total,
            total,
        }),
    decreases n,
{
    let s = descending(total);
    if n > 0 {
        lemma_descending_prefix(total, n - 1);
        lemma_counter_cycles((n - 1) as nat);
        assert(s.take(n).drop_last() =~= s.take(n - 1));
        assert(s.take(n).last() == (total - (n - 1)) as u32);
    }
}

/// A terminal raw callback is always let through: when the last raw callback
/// reports zero remaining bytes, the last notification does too.
pub proof fn lemma_terminal_kept(total: u32, raws: Seq<u32>)
    requires
        raws.len() > 0,
        raws.last() == 0,
    ensures
        throttled(total, raws).len() > 0,
        throttled(total, raws).last().remaining == 0,
{
}

/// One full descending transfer of `total` bytes: the first raw callback is
/// notified with the full total, the terminal notification is let through
/// exactly once and comes last, and no more than
/// `(total + WINDOW) / WINDOW + 1` notifications pass in all.
pub proof fn lemma_descending_stream(total: u32)
    ensures
        emit_at(descending(total), 0),
        throttled(total, descending(total)).len() > 0,
        throttled(total, descending(total))[0] == (ProgressUpdate { remaining: total, total }),
        throttled(total, descending(total)).last().remaining == 0,
        forall|j: int|
            0 <= j < throttled(total, descending(total)).len() - 1 ==> #[trigger] throttled(
                total,
                descending(total),
            )[j].remaining != 0,
        throttled(total, descending(total)).len() <= (total as int + (WINDOW as int)) / (
        WINDOW as int) + 1,
{
    let s = descending(total);
    let prefix = s.take(total as int);
    assert(s.drop_last() =~= prefix);
    assert(s.last() == 0);
    lemma_descending_prefix(total, total as int);
    assert(forall|k: int| 0 <= k < prefix.len() ==> #[trigger] prefix[k] != 0);
    lemma_no_terminal_without_zero(total, prefix);
    assert(throttled(total, s) == throttled(total, prefix).push(
        ProgressUpdate { remaining: 0u32, total },
    ));
    if total == 0 {
        assert(throttled(total, s)[0] == (ProgressUpdate { remaining: total, total }));
    }
}

} // verus!
