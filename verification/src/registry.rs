//! The bounded table of records, the probes that join it on their first
//! firing, and the guard of one measurement.

use vstd::prelude::*;
use crate::profile::Profile;

verus! {

/// The number of distinct probes that a registry of the usual size holds.
pub const MAX_NUM_PROFILERS: usize = 0x1000;

/// Why a probe could not join a registry.
#[derive(Clone, Copy, Debug, PartialEq, Eq)]
pub enum RegistryError {
    /// Every slot of the registry is taken.
    CapacityExhausted,
}

/// An append-only table of records with a fixed number of slots. A record
/// keeps the slot it was given, and the slots are handed out in order.
pub struct Registry {
    records: Vec<Profile>,
    capacity: usize,
}

impl View for Registry {
    type V = Seq<Profile>;

    /// The records in the order in which their probes joined.
    closed spec fn view(&self) -> Seq<Profile> {
        self.records@
    }
}

impl Registry {
    /// The occupied slots never exceed the limit. Every registry that
    /// `new` made and these methods changed is well formed.
    pub closed spec fn wf(&self) -> bool {
        self.records@.len() <= self.capacity
    }

    /// The number of slots that the registry was made with.
    pub closed spec fn limit(&self) -> nat {
        self.capacity as nat
    }

    /// An empty registry of `capacity` slots.
    pub fn new(capacity: usize) -> (r: Registry)
        ensures
            r.wf(),
            r@ == Seq::<Profile>::empty(),
            r.limit() == capacity,
    {
        Registry { records: Vec::new(), capacity }
    }

    /// The number of occupied slots.
    pub fn len(&self) -> (n: usize)
        ensures
            n == self@.len(),
            self.wf() ==> n <= self.limit(),
    {
        self.records.len()
    }

    /// The number of slots.
    pub fn capacity(&self) -> (n: usize)
        ensures
            n == self.limit(),
    {
        self.capacity
    }

    /// Gives the next free slot to a new, empty record under `name`, or
    /// reports that none is left and changes nothing.
    pub fn claim(&mut self, name: &'static str) -> (r: Result<usize, RegistryError>)
        ensures
            old(self).wf() ==> final(self).wf(),
            final(self).limit() == old(self).limit(),
            old(self)@.len() < old(self).limit() ==> {
                &&& r is Ok
                &&& r->Ok_0 == old(self)@.len()
                &&& final(self)@ == old(self)@.push(Profile::fresh(name))
            },
            old(self)@.len() >= old(self).limit() ==> {
                &&& r == Err::<usize, RegistryError>(RegistryError::CapacityExhausted)
                &&& final(self)@ == old(self)@
            },
            final(self)@ == claimed_all(old(self)@, old(self).limit(), seq![name]),
    {
        proof {
            let names = seq![name];
            assert(names.drop_last().len() == 0);
            assert(names.last() == name);
            reveal_with_fuel(claimed_all, 2);
        }
        let slot: usize = self.records.len();
        if slot >= self.capacity {
            return Err(RegistryError::CapacityExhausted);
        }
        self.records.push(Profile::new(name));
        Ok(slot)
    }

    /// Folds one sample into the record at `slot`; the other records stay.
    pub fn fold(&mut self, slot: usize, cycles: u64, bytes: u64)
        requires
            slot < old(self)@.len(),
        ensures
            old(self).wf() ==> final(self).wf(),
            final(self).limit() == old(self).limit(),
            final(self)@ == old(self)@.update(
                slot as int,
                old(self)@[slot as int].folded(cycles, bytes),
            ),
    {
        let mut record: Profile = self.records[slot];
        record.fold(cycles, bytes);
        self.records.set(slot, record);
    }

    /// A copy of the record at `slot`, if that slot is occupied.
    pub fn snapshot(&self, slot: usize) -> (r: Option<Profile>)
        ensures
            slot < self@.len() ==> r == Some(self@[slot as int]),
            slot >= self@.len() ==> r.is_none(),
    {
        if slot < self.records.len() {
            Some(self.records[slot])
        } else {
            None
        }
    }

    /// Copies of all records, first joined first.
    pub fn snapshots(&self) -> (r: Vec<Profile>)
        ensures
            r@ == self@,
    {
        let mut out: Vec<Profile> = Vec::new();
        let n: usize = self.records.len();
        let mut i: usize = 0;
        while i < n
            invariant
                n == self.records@.len(),
                i <= n,
                out@ == self.records@.subrange(0, i as int),
            decreases n - i,
        {
            out.push(self.records[i]);
            i = i + 1;
            assert(out@ =~= self.records@.subrange(0, i as int));
        }
        assert(out@ =~= self.records@);
        out
    }
}

/// Hands a copy of every record to `f`, first joined first. Records that
/// join later are not part of this visit.
pub fn visit_profiles<F: Fn(Profile)>(registry: &Registry, f: F)
    requires
        forall|i: int| 0 <= i < registry@.len() ==> call_requires(f, (#[trigger] registry@[i],)),
    ensures
        forall|i: int| 0 <= i < registry@.len() ==> call_ensures(f, (#[trigger] registry@[i],), ()),
{
    let n: usize = registry.len();
    let mut i: usize = 0;
    while i < n
        invariant
            n == registry@.len(),
            i <= n,
            forall|j: int| 0 <= j < registry@.len() ==> call_requires(f, (#[trigger] registry@[j],)),
            forall|j: int| 0 <= j < i ==> call_ensures(f, (#[trigger] registry@[j],), ()),
        decreases n - i,
    {
        match registry.snapshot(i) {
            Some(profile) => {
                f(profile);
            },
            None => {},
        }
        i = i + 1;
    }
}

/// The table after probes under `names` asked for a slot one after the
/// other, each getting the next one while one was left.
pub open spec fn claimed_all(table: Seq<Profile>, limit: nat, names: Seq<&'static str>) -> Seq<
    Profile,
>
    decreases names.len(),
{
    if names.len() == 0 {
        table
    } else {
        let earlier = claimed_all(table, limit, names.drop_last());
        if earlier.len() < limit {
            earlier.push(Profile::fresh(names.last()))
        } else {
            earlier
        }
    }
}

/// While slots are left, the records stand in the order in which their
/// probes joined: behind the records that were there, one empty record per
/// name, in the order of the names.
pub proof fn law_registration_order(table: Seq<Profile>, limit: nat, names: Seq<&'static str>)
    requires
        table.len() + names.len() <= limit,
    ensures
        claimed_all(table, limit, names).len() == table.len() + names.len(),
        forall|i: int| 0 <= i < table.len() ==> claimed_all(table, limit, names)[i] == table[i],
        forall|i: int|
            0 <= i < names.len() ==> claimed_all(table, limit, names)[table.len() + i]
                == Profile::fresh(#[trigger] names[i]),
    decreases names.len(),
{
    if names.len() > 0 {
        law_registration_order(table, limit, names.drop_last());
        assert forall|i: int| 0 <= i < names.len() - 1 implies names.drop_last()[i] == names[i] by {}
    }
}

/// However many probes ask, a table never grows beyond its limit and never
/// loses or moves a record that it held.
pub proof fn law_table_is_bounded(table: Seq<Profile>, limit: nat, names: Seq<&'static str>)
    requires
        table.len() <= limit,
    ensures
        table.len() <= claimed_all(table, limit, names).len() <= limit,
        forall|i: int| 0 <= i < table.len() ==> claimed_all(table, limit, names)[i] == table[i],
    decreases names.len(),
{
    if names.len() > 0 {
        law_table_is_bounded(table, limit, names.drop_last());
    }
}

} // verus!
