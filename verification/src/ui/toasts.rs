//! Short notifications shown in a corner, each with its own time to live.

use vstd::prelude::*;
use std::time::Instant;

verus! {

#[verifier::external_type_specification]
#[verifier::external_body]
pub struct ExInstant(std::time::Instant);

/// Calls `std::time::Instant::now`. Nothing is stated of the clock.
#[verifier::external_body]
fn instant_now() -> Instant {
    Instant::now()
}

#[derive(Debug, Clone, Copy, PartialEq, Eq, Structural)]
pub enum ToastKind {
    Info,
    Warn,
    Error,
}

/// A notification; it expires `ttl_ms` milliseconds after `created`.
pub struct Toast {
    pub kind: ToastKind,
    pub message: String,
    pub created: Instant,
    pub ttl_ms: u64,
}

/// The notifications on screen, oldest first.
pub struct Toasts {
    items: Vec<Toast>,
}

/// The toasts of `items` whose age (in `ages`, one per toast) is below their
/// time to live.
pub open spec fn unexpired(items: Seq<Toast>, ages: Seq<u64>) -> Seq<Toast>
    decreases items.len(),
{
    if items.len() == 0 || ages.len() != items.len() {
        items
    } else {
        let r = unexpired(items.drop_last(), ages.drop_last());
        if ages.last() < items.last().ttl_ms {
            r.push(items.last())
        } else {
            r
        }
    }
}

/// The items after the indices `idx` are removed one by one, the last index
/// first; an index past the end is skipped.
pub open spec fn dismissed(items: Seq<Toast>, idx: Seq<usize>) -> Seq<Toast>
    decreases idx.len(),
{
    if idx.len() == 0 {
        items
    } else {
        let i = idx.last();
        let after = if i < items.len() { items.remove(i as int) } else { items };
        dismissed(after, idx.drop_last())
    }
}

/// The smallest remaining lifetime, `ttl - age` (zero once expired).
pub open spec fn min_remaining(items: Seq<Toast>, ages: Seq<u64>) -> Option<u64>
    decreases items.len(),
{
    if items.len() == 0 || ages.len() != items.len() {
        None
    } else {
        let rem: u64 = if ages.last() < items.last().ttl_ms {
            (items.last().ttl_ms - ages.last()) as u64
        } else {
            0
        };
        match min_remaining(items.drop_last(), ages.drop_last()) {
            Some(m) => Some(if m < rem { m } else { rem }),
            None => Some(rem),
        }
    }
}

impl Toasts {
    pub closed spec fn spec_items(&self) -> Seq<Toast> {
        self.items@
    }

    pub fn new() -> (t: Toasts)
        ensures
            t.spec_items().len() == 0,
    {
        Toasts { items: Vec::new() }
    }

    /// Adds an information toast that lives four seconds.
    pub fn info(&mut self, msg: String)
        ensures
            final(self).spec_items().len() == old(self).spec_items().len() + 1,
            final(self).spec_items().drop_last() == old(self).spec_items(),
            final(self).spec_items().last().kind == ToastKind::Info,
            final(self).spec_items().last().message == msg,
            final(self).spec_items().last().ttl_ms == 4000,
    {
        self.push(ToastKind::Info, msg, 4000);
    }

    /// Adds a warning toast that lives six seconds.
    pub fn warn(&mut self, msg: String)
        ensures
            final(self).spec_items().len() == old(self).spec_items().len() + 1,
            final(self).spec_items().drop_last() == old(self).spec_items(),
            final(self).spec_items().last().kind == ToastKind::Warn,
            final(self).spec_items().last().message == msg,
            final(self).spec_items().last().ttl_ms == 6000,
    {
        self.push(ToastKind::Warn, msg, 6000);
    }

    /// Adds an error toast that lives nine seconds.
    pub fn error(&mut self, msg: String)
        ensures
            final(self).spec_items().len() == old(self).spec_items().len() + 1,
            final(self).spec_items().drop_last() == old(self).spec_items(),
            final(self).spec_items().last().kind == ToastKind::Error,
            final(self).spec_items().last().message == msg,
            final(self).spec_items().last().ttl_ms == 9000,
    {
        self.push(ToastKind::Error, msg, 9000);
    }

    fn push(&mut self, kind: ToastKind, message: String, ttl_ms: u64)
        ensures
            final(self).spec_items().len() == old(self).spec_items().len() + 1,
            final(self).spec_items().drop_last() == old(self).spec_items(),
            final(self).spec_items().last().kind == kind,
            final(self).spec_items().last().message == message,
            final(self).spec_items().last().ttl_ms == ttl_ms,
    {
        let t = Toast { kind, message, created: instant_now(), ttl_ms };
        self.items.push(t);
        assert(self.items@.drop_last() =~= old(self).items@);
    }

    /// Whether any toast is on screen.
    pub fn has_active(&self) -> (r: bool)
        ensures
            r == (self.spec_items().len() > 0),
    {
        self.items.len() > 0
    }

    /// The toasts on screen.
    pub fn items(&self) -> (r: &Vec<Toast>)
        ensures
            r@ == self.spec_items(),
    {
        &self.items
    }

    /// Drops the toasts whose age (`ages_ms`, one per toast, in milliseconds)
    /// has reached their time to live.
    pub fn prune_expired(&mut self, ages_ms: &Vec<u64>)
        requires
            ages_ms@.len() == old(self).spec_items().len(),
        ensures
            final(self).spec_items() == unexpired(old(self).spec_items(), ages_ms@),
    {
        let ghost items0 = self.items@;
        let mut kept: Vec<Toast> = Vec::new();
        let mut old_items: Vec<Toast> = Vec::new();
        std::mem::swap(&mut old_items, &mut self.items);
        let n = old_items.len();
        let mut rest: Vec<Toast> = Vec::new();
        // Take the toasts from the back, then restore their order.
        let mut i: usize = n;
        while i > 0
            invariant
                i <= n,
                n == items0.len(),
                ages_ms@.len() == n,
                old_items@ == items0.take(i as int),
                rest@.len() == n - i,
                forall|k: int| 0 <= k < n - i ==> #[trigger] rest@[k] == items0[n - 1 - k],
            decreases i,
        {
            let t = old_items.pop().unwrap();
            rest.push(t);
            i = i - 1;
            assert(old_items@ =~= items0.take(i as int));
        }
        let mut j: usize = 0;
        while j < n
            invariant
                j <= n,
                n == items0.len(),
                ages_ms@.len() == n,
                rest@.len() == n - j,
                forall|k: int| 0 <= k < rest@.len() ==> #[trigger] rest@[k] == items0[n - 1 - k],
                kept@ == unexpired(items0.take(j as int), ages_ms@.take(j as int)),
            decreases n - j,
        {
            let t = rest.pop().unwrap();
            assert(t == items0[j as int]);
            assert(items0.take(j + 1).drop_last() =~= items0.take(j as int));
            assert(ages_ms@.take(j + 1).drop_last() =~= ages_ms@.take(j as int));
            if ages_ms[j] < t.ttl_ms {
                kept.push(t);
            }
            j = j + 1;
        }
        assert(items0.take(n as int) =~= items0);
        assert(ages_ms@.take(n as int) =~= ages_ms@);
        self.items = kept;
    }

    /// The time until the next toast expires, given each toast's age.
    pub fn next_expiry_ms(&self, ages_ms: &Vec<u64>) -> (r: Option<u64>)
        requires
            ages_ms@.len() == self.spec_items().len(),
        ensures
            r == min_remaining(self.spec_items(), ages_ms@),
    {
        let n = self.items.len();
        let mut best: Option<u64> = None;
        let mut j: usize = 0;
        while j < n
            invariant
                j <= n,
                n == self.items@.len(),
                ages_ms@.len() == n,
                best == min_remaining(self.items@.take(j as int), ages_ms@.take(j as int)),
            decreases n - j,
        {
            assert(self.items@.take(j + 1).drop_last() =~= self.items@.take(j as int));
            assert(ages_ms@.take(j + 1).drop_last() =~= ages_ms@.take(j as int));
            let ttl = self.items[j].ttl_ms;
            let age = ages_ms[j];
            let rem: u64 = if age < ttl { ttl - age } else { 0 };
            best = match best {
                Some(m) => Some(if m < rem { m } else { rem }),
                None => Some(rem),
            };
            j = j + 1;
        }
        assert(self.items@.take(n as int) =~= self.items@);
        assert(ages_ms@.take(n as int) =~= ages_ms@);
        best
    }

    /// Removes the toasts at `indices` (as listed in ascending order by the
    /// drawing code), last index first; indices past the end are skipped.
    pub fn dismiss(&mut self, indices: Vec<usize>)
        ensures
            final(self).spec_items() == dismissed(old(self).spec_items(), indices@),
    {
        let mut idx = indices;
        while idx.len() > 0
            invariant
                dismissed(self.items@, idx@) == dismissed(old(self).items@, indices@),
            decreases idx@.len(),
        {
            let ghost before = idx@;
            let i = idx.pop().unwrap();
            assert(before.drop_last() =~= idx@);
            if i < self.items.len() {
                let _ = self.items.remove(i);
            }
        }
    }
}

impl Default for Toasts {
    fn default() -> (t: Toasts)
        ensures
            t.spec_items().len() == 0,
    {
        Toasts::new()
    }
}

} // verus!
