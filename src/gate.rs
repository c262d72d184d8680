use vstd::prelude::*;

verus! {

/// How many requests are in flight after one attempt to acquire a slot
/// (`acquire`) or one release, at capacity `cap`.
pub open spec fn gate_step(cap: nat, held: nat, acquire: bool) -> nat {
    if acquire {
        if held < cap {
            held + 1
        } else {
            held
        }
    } else if held > 0 {
        (held - 1) as nat
    } else {
        held
    }
}

/// How many requests are in flight after `events`, in order.
pub open spec fn gate_run(cap: nat, held: nat, events: Seq<bool>) -> nat
    decreases events.len(),
{
    if events.len() == 0 {
        held
    } else {
        gate_run(cap, gate_step(cap, held, events[0]), events.drop_first())
    }
}

/// The counting gate shared by every fetch of one call: it admits a request
/// only while fewer than its capacity are in flight.
pub struct AdmissionGate {
    limit: usize,
    in_flight: usize,
}

impl AdmissionGate {
    /// The number of requests that may be in flight at once.
    pub closed spec fn capacity(&self) -> nat {
        self.limit as nat
    }

    /// The number of requests in flight.
    pub closed spec fn held(&self) -> nat {
        self.in_flight as nat
    }

    pub open spec fn wf(&self) -> bool {
        1 <= self.capacity() && self.held() <= self.capacity()
    }

    /// A gate of capacity `limit` with nothing in flight; `None` for a
    /// capacity of zero, which would admit nothing.
    pub fn new(limit: u32) -> (g: Option<AdmissionGate>)
        ensures
            g.is_none() == (limit == 0),
            g matches Some(g) ==> g.wf() && g.capacity() == limit && g.held() == 0,
    {
        if limit == 0 {
            None
        } else {
            Some(AdmissionGate { limit: limit as usize, in_flight: 0 })
        }
    }

    /// Takes a slot if one is free; says whether it did.
    pub fn try_acquire(&mut self) -> (ok: bool)
        requires
            old(self).wf(),
        ensures
            final(self).wf(),
            final(self).capacity() == old(self).capacity(),
            ok == (old(self).held() < old(self).capacity()),
            final(self).held() == gate_step(old(self).capacity(), old(self).held(), true),
    {
        if self.in_flight < self.limit {
            self.in_flight = self.in_flight + 1;
            true
        } else {
            false
        }
    }

    /// Gives back a slot taken earlier.
    pub fn release(&mut self)
        requires
            old(self).wf(),
            old(self).held() > 0,
        ensures
            final(self).wf(),
            final(self).capacity() == old(self).capacity(),
            final(self).held() == old(self).held() - 1,
            final(self).held() == gate_step(old(self).capacity(), old(self).held(), false),
    {
        self.in_flight = self.in_flight - 1;
    }

    /// The number of requests in flight.
    pub fn in_flight(&self) -> (n: usize)
        ensures
            n == self.held(),
    {
        self.in_flight
    }

    /// The number of requests that may be in flight at once.
    pub fn limit(&self) -> (n: usize)
        ensures
            n == self.capacity(),
    {
        self.limit
    }
}

proof fn lemma_run_bounded(cap: nat, held: nat, events: Seq<bool>)
    requires
        held <= cap,
    ensures
        gate_run(cap, held, events) <= cap,
    decreases events.len(),
{
    if events.len() > 0 {
        lemma_run_bounded(cap, gate_step(cap, held, events[0]), events.drop_first());
    }
}

/// Whatever acquisitions and releases happen, in whatever order and however
/// many tasks make them, the number of requests in flight never exceeds the
/// gate's capacity.
pub proof fn lemma_gate_never_exceeds(cap: nat, events: Seq<bool>)
    requires
        cap >= 1,
    ensures
        forall|k: int| 0 <= k <= events.len() ==> #[trigger] gate_run(cap, 0, events.take(k)) <= cap,
{
    assert forall|k: int| 0 <= k <= events.len() implies #[trigger] gate_run(cap, 0, events.take(k)) <= cap by {
        lemma_run_bounded(cap, 0, events.take(k));
    }
}

} // verus!
