//! The activation broker: the dispatch from a requested identifier to a
//! class factory, the factory that constructs instances, and the
//! process-wide "keep the module loaded" lock count.
//!
//! The host's raw calling convention passes results through caller-supplied
//! pointer slots that may themselves be null; [`OutSlot`] models that
//! protocol, and a failed request always leaves a present slot cleared.

use vstd::prelude::*;

use crate::com::{ComError, Guid};

verus! {

/// The process-wide count of outstanding "keep the module loaded"
/// requests. The host owns one value per process; it is only meaningful in
/// aggregate, never per factory.
pub struct ServerLocks {
    pub count: usize,
}

/// The count after one `lock_server` call: a saturating step, so the count
/// never leaves `0..=usize::MAX`.
pub open spec fn lock_step(c: usize, lock: bool) -> usize {
    if lock {
        if c == usize::MAX {
            c
        } else {
            (c + 1) as usize
        }
    } else {
        if c == 0 {
            0
        } else {
            (c - 1) as usize
        }
    }
}

/// The count after a whole sequence of `lock_server` calls.
pub open spec fn locks_after(c: usize, ops: Seq<bool>) -> usize
    decreases ops.len(),
{
    if ops.len() == 0 {
        c
    } else {
        locks_after(lock_step(c, ops[0]), ops.drop_first())
    }
}

impl ServerLocks {
    /// The count at process start.
    pub fn new() -> (r: ServerLocks)
        ensures
            r.count == 0,
    {
        ServerLocks { count: 0 }
    }
}

/// A constructed object instance: which class built it and through which
/// interface the holder sees it.
#[derive(Clone, Copy, PartialEq, Eq, Structural, Debug)]
pub struct Instance {
    pub clsid: Guid,
    pub iid: Guid,
}

/// A caller-supplied output slot: absent when the caller passed a null
/// slot pointer, cleared when it holds a null object pointer, or filled.
pub enum OutSlot<T> {
    Missing,
    Null,
    Filled(T),
}

/// One class a module hosts: its identifier and the interfaces its
/// instances resolve.
pub struct ClassEntry {
    pub clsid: Guid,
    pub iids: Vec<Guid>,
}

/// The object-creation broker for one registered class: it constructs
/// instances on the host's request.
pub struct ClassFactory {
    pub clsid: Guid,
    pub iids: Vec<Guid>,
}

/// The identifier-to-constructor mapping a module fixes at build time.
pub struct DispatchTable {
    pub entries: Vec<ClassEntry>,
}

/// The identifier of the base interface every object resolves.
pub open spec fn iid_iunknown() -> Guid {
    Guid { data1: 0, data2: 0, data3: 0, data4: 0xC000000000000046 }
}

/// The identifier of the object-creation-broker interface.
pub open spec fn iid_iclassfactory() -> Guid {
    Guid { data1: 1, data2: 0, data3: 0, data4: 0xC000000000000046 }
}

/// The identifier of the base interface, as a value.
pub fn iid_iunknown_guid() -> (r: Guid)
    ensures
        r == iid_iunknown(),
{
    Guid { data1: 0, data2: 0, data3: 0, data4: 0xC000000000000046 }
}

/// The identifier of the object-creation-broker interface, as a value.
pub fn iid_iclassfactory_guid() -> (r: Guid)
    ensures
        r == iid_iclassfactory(),
{
    Guid { data1: 1, data2: 0, data3: 0, data4: 0xC000000000000046 }
}

/// The first table entry whose identifier matches, if any.
pub open spec fn table_lookup(entries: Seq<ClassEntry>, clsid: Guid) -> Option<ClassEntry>
    decreases entries.len(),
{
    if entries.len() == 0 {
        None
    } else if entries[0].clsid == clsid {
        Some(entries[0])
    } else {
        table_lookup(entries.drop_first(), clsid)
    }
}

/// What a lookup hit matched: its entry carries the requested identifier.
pub proof fn lemma_table_lookup_clsid(entries: Seq<ClassEntry>, clsid: Guid)
    ensures
        table_lookup(entries, clsid) is Some ==> table_lookup(entries, clsid).unwrap().clsid
            == clsid,
    decreases entries.len(),
{
    if entries.len() > 0 && entries[0].clsid != clsid {
        lemma_table_lookup_clsid(entries.drop_first(), clsid);
    }
}

/// An optional borrowed identifier, as an optional value.
pub open spec fn deref_opt(o: Option<&Guid>) -> Option<Guid> {
    match o {
        Some(g) => Some(*g),
        None => None,
    }
}

/// The status `get_class_object` returns, for every combination of inputs.
pub open spec fn gco_result(
    entries: Seq<ClassEntry>,
    clsid: Option<Guid>,
    iid: Option<Guid>,
    slot_missing: bool,
) -> Result<(), ComError> {
    if slot_missing {
        Err(ComError::InvalidPointer)
    } else if clsid is None {
        Err(ComError::InvalidPointer)
    } else if iid is None {
        Err(ComError::InvalidPointer)
    } else {
        match table_lookup(entries, clsid.unwrap()) {
            None => Err(ComError::ClassNotAvailable),
            Some(e) => if iid.unwrap() == iid_iunknown() || iid.unwrap() == iid_iclassfactory() {
                Ok(())
            } else {
                Err(ComError::NoInterface)
            },
        }
    }
}

/// The factory `get_class_object` hands out — its class identifier and
/// instance interfaces — when it hands one out at all.
pub open spec fn gco_factory(
    entries: Seq<ClassEntry>,
    clsid: Option<Guid>,
    iid: Option<Guid>,
    slot_missing: bool,
) -> Option<(Guid, Seq<Guid>)> {
    if gco_result(entries, clsid, iid, slot_missing) is Ok {
        let e = table_lookup(entries, clsid.unwrap()).unwrap();
        Some((e.clsid, e.iids@))
    } else {
        None
    }
}

/// The status `create_instance` returns, for every combination of inputs.
pub open spec fn create_instance_result(
    fac_iids: Seq<Guid>,
    outer_present: bool,
    iid: Option<Guid>,
    slot_missing: bool,
) -> Result<(), ComError> {
    if outer_present {
        Err(ComError::NoAggregation)
    } else if iid is None {
        Err(ComError::InvalidPointer)
    } else if slot_missing {
        Err(ComError::InvalidPointer)
    } else if fac_iids.contains(iid.unwrap()) {
        Ok(())
    } else {
        Err(ComError::NoInterface)
    }
}

/// A copy of an interface list with the same identifiers.
fn copy_guids(v: &Vec<Guid>) -> (r: Vec<Guid>)
    ensures
        r@ == v@,
{
    let mut out: Vec<Guid> = Vec::new();
    let mut i: usize = 0;
    while i < v.len()
        invariant
            i <= v@.len(),
            out@ == v@.take(i as int),
        decreases v@.len() - i,
    {
        out.push(v[i]);
        proof {
            assert(out@ =~= v@.take(i + 1 as int));
        }
        i = i + 1;
    }
    proof {
        assert(v@.take(v@.len() as int) =~= v@);
    }
    out
}

impl ClassFactory {
    /// A factory bound to one class: the constructor it brokers is the
    /// pair of the class identifier and the interfaces instances resolve.
    pub fn new(clsid: Guid, iids: Vec<Guid>) -> (r: ClassFactory)
        ensures
            r.clsid == clsid,
            r.iids == iids,
    {
        ClassFactory { clsid, iids }
    }

    /// Whether the host may unload the module now: true exactly when no
    /// "keep loaded" request is outstanding.
    pub fn can_unload_now(locks: &ServerLocks) -> (r: bool)
        ensures
            r == (locks.count == 0),
    {
        locks.count == 0
    }

    /// Record or release one "keep the module loaded" request. Never
    /// fails; the count saturates rather than leave its range.
    pub fn lock_server(&self, locks: &mut ServerLocks, lock: bool) -> (r: Result<(), ComError>)
        ensures
            r is Ok,
            final(locks).count == lock_step(old(locks).count, lock),
    {
        if lock {
            if locks.count < usize::MAX {
                locks.count = locks.count + 1;
            }
        } else {
            if locks.count > 0 {
                locks.count = locks.count - 1;
            }
        }
        Ok(())
    }

    /// Construct one instance of the bound class and resolve `iid` on it
    /// into the slot. Aggregation is unsupported; a present slot is
    /// cleared before any fallible step, so a failed call never leaves a
    /// stale pointer visible.
    pub fn create_instance(
        &self,
        outer: Option<&Instance>,
        iid: Option<&Guid>,
        slot: &mut OutSlot<Instance>,
    ) -> (r: Result<(), ComError>)
        ensures
            r == create_instance_result(
                self.iids@,
                outer is Some,
                deref_opt(iid),
                (*old(slot)) is Missing,
            ),
            (*old(slot)) is Missing ==> (*final(slot)) is Missing,
            !((*old(slot)) is Missing) && !(r is Ok) ==> (*final(slot)) is Null,
            r is Ok ==> *final(slot) == OutSlot::Filled(
                Instance { clsid: self.clsid, iid: *iid.unwrap() },
            ),
    {
        match slot {
            OutSlot::Missing => {},
            _ => {
                *slot = OutSlot::Null;
            },
        }
        if outer.is_some() {
            return Err(ComError::NoAggregation);
        }
        let i = match iid {
            Some(i) => i,
            None => {
                return Err(ComError::InvalidPointer);
            },
        };
        match slot {
            OutSlot::Missing => {
                return Err(ComError::InvalidPointer);
            },
            _ => {},
        }
        let mut j: usize = 0;
        while j < self.iids.len()
            invariant
                j <= self.iids@.len(),
                forall|l: int| 0 <= l < j ==> self.iids@[l] != *i,
                *slot is Null,
                !((*old(slot)) is Missing),
                outer is None,
                deref_opt(iid) == Some(*i),
            decreases self.iids@.len() - j,
        {
            if self.iids[j] == *i {
                *slot = OutSlot::Filled(Instance { clsid: self.clsid, iid: *i });
                return Ok(());
            }
            j = j + 1;
        }
        assert(!self.iids@.contains(*i));
        Err(ComError::NoInterface)
    }
}

impl DispatchTable {
    /// A table with no classes.
    pub fn new() -> (r: DispatchTable)
        ensures
            r.entries@ == Seq::<ClassEntry>::empty(),
    {
        let r = DispatchTable { entries: Vec::new() };
        proof {
            assert(r.entries@ =~= Seq::<ClassEntry>::empty());
        }
        r
    }

    /// Declare one hosted class: its identifier and the interfaces its
    /// instances resolve.
    pub fn add_class(&mut self, clsid: Guid, iids: Vec<Guid>)
        ensures
            final(self).entries@.len() == old(self).entries@.len() + 1,
            final(self).entries@.last().clsid == clsid,
            final(self).entries@.last().iids == iids,
            forall|l: int|
                0 <= l < old(self).entries@.len() ==> final(self).entries@[l] == old(
                    self,
                ).entries@[l],
    {
        self.entries.push(ClassEntry { clsid, iids });
    }

    /// Look up the requested identifier and hand back a factory bound to
    /// its class, through the output-slot protocol: a present slot is
    /// cleared first, so every failure leaves it null.
    pub fn get_class_object(
        &self,
        clsid: Option<&Guid>,
        iid: Option<&Guid>,
        slot: &mut OutSlot<ClassFactory>,
    ) -> (r: Result<(), ComError>)
        ensures
            r == gco_result(self.entries@, deref_opt(clsid), deref_opt(iid), (*old(slot)) is Missing),
            (*old(slot)) is Missing ==> (*final(slot)) is Missing,
            !((*old(slot)) is Missing) && !(r is Ok) ==> (*final(slot)) is Null,
            (*final(slot)) is Filled <==> gco_factory(
                self.entries@,
                deref_opt(clsid),
                deref_opt(iid),
                (*old(slot)) is Missing,
            ) is Some,
            r is Ok ==> ({
                let f = gco_factory(
                    self.entries@,
                    deref_opt(clsid),
                    deref_opt(iid),
                    (*old(slot)) is Missing,
                ).unwrap();
                (*final(slot))->Filled_0.clsid == f.0 && (*final(slot))->Filled_0.iids@ == f.1
            }),
    {
        match slot {
            OutSlot::Missing => {
                return Err(ComError::InvalidPointer);
            },
            _ => {},
        }
        *slot = OutSlot::Null;
        let c = match clsid {
            Some(c) => c,
            None => {
                return Err(ComError::InvalidPointer);
            },
        };
        let i = match iid {
            Some(i) => i,
            None => {
                return Err(ComError::InvalidPointer);
            },
        };
        proof {
            assert(self.entries@.skip(0) =~= self.entries@);
        }
        let mut idx: usize = 0;
        while idx < self.entries.len()
            invariant
                idx <= self.entries@.len(),
                table_lookup(self.entries@, *c) == table_lookup(
                    self.entries@.skip(idx as int),
                    *c,
                ),
                *slot is Null,
                !((*old(slot)) is Missing),
                deref_opt(clsid) == Some(*c),
                deref_opt(iid) == Some(*i),
            decreases self.entries@.len() - idx,
        {
            if self.entries[idx].clsid == *c {
                proof {
                    assert(self.entries@.skip(idx as int)[0] == self.entries@[idx as int]);
                }
                let fac = ClassFactory {
                    clsid: self.entries[idx].clsid,
                    iids: copy_guids(&self.entries[idx].iids),
                };
                if *i == iid_iunknown_guid() || *i == iid_iclassfactory_guid() {
                    *slot = OutSlot::Filled(fac);
                    return Ok(());
                } else {
                    return Err(ComError::NoInterface);
                }
            }
            proof {
                assert(self.entries@.skip(idx as int).drop_first() =~= self.entries@.skip(
                    idx + 1,
                ));
            }
            idx = idx + 1;
        }
        proof {
            assert(self.entries@.skip(self.entries@.len() as int) =~= Seq::<ClassEntry>::empty());
        }
        Err(ComError::ClassNotAvailable)
    }
}

/// Law: for every identifier not in the dispatch table, `get_class_object`
/// answers `ClassNotAvailable` and hands out no factory — a present output
/// slot is left cleared.
pub proof fn lemma_unknown_class_rejected(entries: Seq<ClassEntry>, clsid: Guid, iid: Guid)
    requires
        table_lookup(entries, clsid) is None,
    ensures
        gco_result(entries, Some(clsid), Some(iid), false) == Err::<(), ComError>(
            ComError::ClassNotAvailable,
        ),
        gco_factory(entries, Some(clsid), Some(iid), false) is None,
{
}

/// Law: for every identifier in the dispatch table, `get_class_object`
/// succeeds for the broker interfaces and hands out a factory bound to
/// that class; `create_instance` on it, with no outer object and an
/// interface the class resolves, succeeds, while any outer object is
/// answered with `NoAggregation`.
pub proof fn lemma_activation_round_trip(
    entries: Seq<ClassEntry>,
    clsid: Guid,
    factory_iid: Guid,
    instance_iid: Guid,
)
    requires
        table_lookup(entries, clsid) is Some,
        factory_iid == iid_iunknown() || factory_iid == iid_iclassfactory(),
        table_lookup(entries, clsid).unwrap().iids@.contains(instance_iid),
    ensures
        gco_result(entries, Some(clsid), Some(factory_iid), false) is Ok,
        gco_factory(entries, Some(clsid), Some(factory_iid), false) is Some,
        ({
            let f = gco_factory(entries, Some(clsid), Some(factory_iid), false).unwrap();
            &&& f.0 == clsid
            &&& create_instance_result(f.1, false, Some(instance_iid), false) is Ok
            &&& create_instance_result(f.1, true, Some(instance_iid), false) == Err::<
                (),
                ComError,
            >(ComError::NoAggregation)
        }),
{
    lemma_table_lookup_clsid(entries, clsid);
}

/// After a run of lock requests, the count has grown by their number.
proof fn lemma_locks_after_all_true(c: usize, k: nat)
    requires
        c + k <= usize::MAX,
    ensures
        locks_after(c, Seq::new(k, |x: int| true)) == c + k,
    decreases k,
{
    if k > 0 {
        let s = Seq::new(k, |x: int| true);
        assert(s.drop_first() =~= Seq::new((k - 1) as nat, |x: int| true));
        lemma_locks_after_all_true((c + 1) as usize, (k - 1) as nat);
    }
}

/// After a run of lock releases, the count has shrunk by their number.
proof fn lemma_locks_after_all_false(c: usize, k: nat)
    requires
        k <= c,
    ensures
        locks_after(c, Seq::new(k, |x: int| false)) == c - k,
    decreases k,
{
    if k > 0 {
        let s = Seq::new(k, |x: int| false);
        assert(s.drop_first() =~= Seq::new((k - 1) as nat, |x: int| false));
        lemma_locks_after_all_false((c - 1) as usize, (k - 1) as nat);
    }
}

/// A sequence of calls splits: the count after both runs is the count
/// after the second run started from the count after the first.
proof fn lemma_locks_after_append(c: usize, s1: Seq<bool>, s2: Seq<bool>)
    ensures
        locks_after(c, s1 + s2) == locks_after(locks_after(c, s1), s2),
    decreases s1.len(),
{
    if s1.len() == 0 {
        assert(s1 + s2 =~= s2);
    } else {
        assert((s1 + s2).drop_first() =~= s1.drop_first() + s2);
        assert((s1 + s2)[0] == s1[0]);
        lemma_locks_after_append(lock_step(c, s1[0]), s1.drop_first(), s2);
    }
}

/// Law: starting from zero, `n` lock requests followed by `m <= n`
/// releases leave the count at `n - m`; the module may be unloaded
/// afterwards exactly when every request was released.
pub proof fn lemma_lock_counter_balance(n: usize, m: usize)
    requires
        m <= n,
    ensures
        locks_after(0, Seq::new(n as nat, |x: int| true) + Seq::new(m as nat, |x: int| false)) == n
            - m,
        (locks_after(0, Seq::new(n as nat, |x: int| true) + Seq::new(m as nat, |x: int| false))
            == 0) <==> m == n,
{
    let ups = Seq::new(n as nat, |x: int| true);
    let downs = Seq::new(m as nat, |x: int| false);
    lemma_locks_after_append(0, ups, downs);
    lemma_locks_after_all_true(0, n as nat);
    lemma_locks_after_all_false(n, m as nat);
}

} // verus!
