//! A probe at its call site, and the guard that measures one firing of it.

use vstd::prelude::*;
use crate::profile::Profile;
use crate::registry::{Registry, RegistryError};

verus! {

/// The cycles between two readings of the counter, if the second reading is
/// the greater one. A counter that stood still or went backwards gives no
/// sample.
pub open spec fn elapsed_between(start: u64, end: u64) -> Option<u64> {
    if end > start {
        Some((end - start) as u64)
    } else {
        None
    }
}

/// Computes `elapsed_between`.
pub fn elapsed(start: u64, end: u64) -> (r: Option<u64>)
    ensures
        r == elapsed_between(start, end),
{
    if end > start {
        Some(end - start)
    } else {
        None
    }
}

/// One named probe. It joins a registry the first time it fires and keeps
/// the slot it was given there.
pub struct Profiler {
    name: &'static str,
    init: bool,
    slot: usize,
}

/// The measurement of one firing: which record it belongs to, where the
/// cycle counter stood when it began, and the bytes declared for it.
pub struct Profiled {
    slot: usize,
    start: u64,
    bytes: u64,
}

impl Profiler {
    /// The name that the probe was made with.
    pub closed spec fn label(&self) -> &'static str {
        self.name
    }

    /// Whether the probe has not joined a registry yet.
    pub closed spec fn is_new(&self) -> bool {
        self.init
    }

    /// The slot that the probe was given; it means nothing while the probe
    /// is new.
    pub closed spec fn place(&self) -> usize {
        self.slot
    }

    /// Whether the probe holds a slot of `table` with a record under its name.
    pub open spec fn registered_in(&self, table: Seq<Profile>) -> bool {
        &&& !self.is_new()
        &&& self.place() < table.len()
        &&& table[self.place() as int].name == self.label()
    }

    /// What a first-use registration does to a probe and to a table of
    /// `limit` slots: a probe that joined before changes nothing; a new one
    /// takes the next slot with an empty record, if one is left; if none is
    /// left, nothing changes and the attempt fails.
    pub open spec fn joins(
        before: Profiler,
        table: Seq<Profile>,
        limit: nat,
        after: Profiler,
        table_after: Seq<Profile>,
        ok: bool,
    ) -> bool {
        if !before.is_new() {
            ok && after == before && table_after == table
        } else if table.len() < limit {
            &&& ok
            &&& !after.is_new()
            &&& after.label() == before.label()
            &&& after.place() == table.len()
            &&& table_after == table.push(Profile::fresh(before.label()))
        } else {
            !ok && after == before && table_after == table
        }
    }

    /// A probe under `name` that has not fired yet.
    pub fn new(name: &'static str) -> (r: Profiler)
        ensures
            r.is_new(),
            r.label() == name,
    {
        Profiler { name, init: true, slot: 0 }
    }

    /// The probe's name.
    pub fn name(&self) -> (r: &'static str)
        ensures
            r == self.label(),
    {
        self.name
    }

    /// The probe's slot, once it has joined a registry.
    pub fn slot(&self) -> (r: Option<usize>)
        ensures
            self.is_new() ==> r.is_none(),
            !self.is_new() ==> r == Some(self.place()),
    {
        if self.init {
            None
        } else {
            Some(self.slot)
        }
    }

    /// Registers the probe on its first use, and only then.
    pub fn register_if_new(&mut self, registry: &mut Registry) -> (r: Result<(), RegistryError>)
        ensures
            old(registry).wf() ==> final(registry).wf(),
            final(registry).limit() == old(registry).limit(),
            Profiler::joins(
                *old(self),
                old(registry)@,
                old(registry).limit(),
                *final(self),
                final(registry)@,
                r.is_ok(),
            ),
            r.is_err() ==> r == Err::<(), RegistryError>(RegistryError::CapacityExhausted),
    {
        if !self.init {
            return Ok(());
        }
        match registry.claim(self.name) {
            Ok(slot) => {
                self.init = false;
                self.slot = slot;
                Ok(())
            },
            Err(e) => Err(e),
        }
    }

    /// Fires the probe: registers it if this is its first use, and starts a
    /// measurement of `bytes` bytes at the counter reading `start`.
    pub fn profile(&mut self, registry: &mut Registry, bytes: u64, start: u64) -> (r: Result<
        Profiled,
        RegistryError,
    >)
        ensures
            old(registry).wf() ==> final(registry).wf(),
            final(registry).limit() == old(registry).limit(),
            Profiler::joins(
                *old(self),
                old(registry)@,
                old(registry).limit(),
                *final(self),
                final(registry)@,
                r.is_ok(),
            ),
            match r {
                Ok(guard) => {
                    &&& guard.place() == final(self).place()
                    &&& guard.began() == start
                    &&& guard.declared() == bytes
                },
                Err(e) => e == RegistryError::CapacityExhausted,
            },
    {
        match self.register_if_new(registry) {
            Ok(()) => Ok(Profiled { slot: self.slot, start, bytes }),
            Err(e) => Err(e),
        }
    }
}

impl Profiled {
    /// The slot of the record that the measurement belongs to.
    pub closed spec fn place(&self) -> usize {
        self.slot
    }

    /// The counter reading at which the measurement began.
    pub closed spec fn began(&self) -> u64 {
        self.start
    }

    /// The bytes declared for the measurement.
    pub closed spec fn declared(&self) -> u64 {
        self.bytes
    }

    /// What the end of a measurement at the counter reading `end` does to
    /// the records: one sample more in its own record if the counter
    /// advanced, nothing otherwise.
    pub open spec fn outcome(&self, table: Seq<Profile>, end: u64) -> Seq<Profile> {
        match elapsed_between(self.began(), end) {
            Some(cycles) => table.update(
                self.place() as int,
                table[self.place() as int].folded(cycles, self.declared()),
            ),
            None => table,
        }
    }

    /// The slot of the record that the measurement belongs to.
    pub fn slot(&self) -> (r: usize)
        ensures
            r == self.place(),
    {
        self.slot
    }

    /// The counter reading at which the measurement began.
    pub fn start(&self) -> (r: u64)
        ensures
            r == self.began(),
    {
        self.start
    }

    /// The bytes declared for the measurement.
    pub fn bytes(&self) -> (r: u64)
        ensures
            r == self.declared(),
    {
        self.bytes
    }

    /// Ends the measurement at the counter reading `end` and folds its
    /// sample into its record. The guard is used up by this.
    pub fn finish(self, registry: &mut Registry, end: u64)
        requires
            self.place() < old(registry)@.len(),
        ensures
            old(registry).wf() ==> final(registry).wf(),
            final(registry).limit() == old(registry).limit(),
            final(registry)@ == self.outcome(old(registry)@, end),
    {
        match elapsed(self.start, end) {
            Some(cycles) => {
                registry.fold(self.slot, cycles, self.bytes);
            },
            None => {},
        }
    }
}

/// A probe registers at most once: after a registration that succeeded, a
/// second one succeeds too and changes neither the probe nor the table, so
/// the two together take at most one slot.
pub proof fn law_registers_once(
    p0: Profiler,
    t0: Seq<Profile>,
    limit: nat,
    p1: Profiler,
    t1: Seq<Profile>,
    p2: Profiler,
    t2: Seq<Profile>,
    again: bool,
)
    requires
        Profiler::joins(p0, t0, limit, p1, t1, true),
        Profiler::joins(p1, t1, limit, p2, t2, again),
    ensures
        again,
        p2 == p1,
        t2 == t1,
        t0.len() <= t1.len() <= t0.len() + 1,
{
}

/// Slots are given in the order of joining and are never given twice: a
/// registration leaves the earlier records where they were, a probe that
/// joins takes the slot behind them, and a probe that held a slot holds
/// it afterwards.
pub proof fn law_slots_in_joining_order(
    before: Profiler,
    table: Seq<Profile>,
    limit: nat,
    after: Profiler,
    table_after: Seq<Profile>,
    ok: bool,
)
    requires
        Profiler::joins(before, table, limit, after, table_after, ok),
    ensures
        table.len() <= table_after.len(),
        forall|i: int| 0 <= i < table.len() ==> table_after[i] == table[i],
        before.is_new() && ok ==> after.place() == table.len() && after.registered_in(table_after),
        before.registered_in(table) ==> after.registered_in(table_after),
        ok <==> !before.is_new() || table.len() < limit,
{
}

/// The end of a measurement touches one record only, and there neither
/// the name nor, downwards, the count.
pub proof fn law_measurement_is_local(guard: Profiled, table: Seq<Profile>, end: u64)
    requires
        guard.place() < table.len(),
    ensures
        guard.outcome(table, end).len() == table.len(),
        forall|i: int|
            0 <= i < table.len() && i != guard.place() ==> guard.outcome(table, end)[i] == table[i],
        guard.outcome(table, end)[guard.place() as int].name == table[guard.place() as int].name,
        guard.outcome(table, end)[guard.place() as int].samples >= table[guard.place() as int].samples,
{
}

} // verus!
