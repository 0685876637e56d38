//! Transactions over the configuration store, the node handles scoped to
//! them, and the registration tree a component server advertises itself
//! with.
//!
//! A [`Transaction`] works on a private copy of the store's state; nothing
//! it does is observable in the [`RegStore`] until [`Transaction::commit`],
//! which applies the whole working state at once. A transaction that is
//! never committed is simply dropped, so every edit made under it is
//! discarded: registration is all-or-nothing.

use vstd::prelude::*;

use crate::com::{guid_wide, guid_wide_name, CoClass, ComError, Guid, GuidExt};
use crate::store::{
    copy_denied, copy_key_entries, copy_path, copy_u16s, copy_val_entries, denied_contains,
    denied_model, keys_contain, keys_model, path_model, remove_tree_keys, remove_tree_vals,
    remove_value_entries, vals_model, KeyEntry, RegStore, RegValue, StoreState, ValueEntry,
    ValueModel,
};

verus! {

/// One open transaction: a working copy of the store, the volatility
/// policy fixed at creation, and whether commit has already succeeded.
pub struct Transaction {
    pub keys: Vec<KeyEntry>,
    pub vals: Vec<ValueEntry>,
    pub denied: Vec<Vec<Vec<u16>>>,
    pub volatile: bool,
    pub committed: bool,
    pub description: Vec<u16>,
}

impl Transaction {
    /// The state the store will take if this transaction commits now.
    pub open spec fn working(&self) -> StoreState {
        StoreState { keys: keys_model(self.keys@), vals: vals_model(self.vals@) }
    }

    /// The node paths at which creation is refused.
    pub open spec fn denied_paths(&self) -> Set<Seq<Seq<u16>>> {
        denied_model(self.denied@)
    }

    /// The administrative fields an edit never changes.
    pub open spec fn same_admin(&self, other: &Transaction) -> bool {
        &&& self.committed == other.committed
        &&& self.volatile == other.volatile
        &&& self.denied_paths() == other.denied_paths()
    }

    /// Open a transaction against the store: a working copy of its state.
    /// Keys created under it are volatile or durable as `volatile` says.
    pub fn new(store: &RegStore, description: Vec<u16>, volatile: bool) -> (r: Result<
        Transaction,
        ComError,
    >)
        ensures
            r is Ok,
            r.unwrap().working() == store.state(),
            r.unwrap().denied_paths() == store.denied_paths(),
            !r.unwrap().committed,
            r.unwrap().volatile == volatile,
    {
        Ok(
            Transaction {
                keys: copy_key_entries(&store.keys),
                vals: copy_val_entries(&store.vals),
                denied: copy_denied(&store.denied),
                volatile,
                committed: false,
                description,
            },
        )
    }

    /// Durably apply every edit made under this transaction. Fails with
    /// `IllegalState` when the transaction has already committed; at most
    /// one commit ever succeeds.
    pub fn commit(&mut self, store: &mut RegStore) -> (r: Result<(), ComError>)
        ensures
            r is Ok <==> !old(self).committed,
            r is Err ==> r == Err::<(), ComError>(ComError::IllegalState),
            r is Ok ==> final(store).state() == old(self).working() && final(self).committed,
            r is Err ==> final(store).state() == old(store).state() && final(self).committed
                == old(self).committed,
            final(store).denied_paths() == old(store).denied_paths(),
            final(self).working() == old(self).working(),
            final(self).denied_paths() == old(self).denied_paths(),
            final(self).volatile == old(self).volatile,
    {
        if self.committed {
            return Err(ComError::IllegalState);
        }
        self.committed = true;
        store.keys = copy_key_entries(&self.keys);
        store.vals = copy_val_entries(&self.vals);
        Ok(())
    }
}

/// A handle to one node in the configuration tree, scoped to the
/// transaction its edits go through.
pub struct Key {
    pub path: Vec<Vec<u16>>,
}

impl View for Key {
    type V = Seq<Seq<u16>>;

    open spec fn view(&self) -> Seq<Seq<u16>> {
        path_model(self.path)
    }
}

/// The path of `base` extended by one segment.
fn child_path(base: &Vec<Vec<u16>>, name: &Vec<u16>) -> (r: Vec<Vec<u16>>)
    ensures
        path_model(r) == path_model(*base).push(name@),
{
    let mut r = copy_path(base);
    r.push(copy_u16s(name));
    proof {
        assert(path_model(r) =~= path_model(*base).push(name@));
    }
    r
}

/// The path of `base` extended by every segment of `sub`.
fn join_path(base: &Vec<Vec<u16>>, sub: &Vec<Vec<u16>>) -> (r: Vec<Vec<u16>>)
    ensures
        path_model(r) == path_model(*base) + path_model(*sub),
{
    let mut r = copy_path(base);
    let mut i: usize = 0;
    while i < sub.len()
        invariant
            i <= sub@.len(),
            path_model(r) == path_model(*base) + path_model(*sub).take(i as int),
        decreases sub@.len() - i,
    {
        let ghost r0 = path_model(r);
        let seg = copy_u16s(&sub[i]);
        r.push(seg);
        proof {
            assert(path_model(r) =~= r0.push(seg@));
            assert(r0.push(seg@) =~= path_model(*base) + path_model(*sub).take(i + 1));
        }
        i = i + 1;
    }
    proof {
        assert(path_model(*base) + path_model(*sub).take(sub@.len() as int) =~= path_model(*base)
            + path_model(*sub));
    }
    r
}

/// Create-or-open the node at `p` under the transaction. Shared by
/// [`Key::predefined`] and [`Key::create_subkey`].
fn create_at(txn: &mut Transaction, p: Vec<Vec<u16>>) -> (r: Result<Key, ComError>)
    ensures
        r is Ok <==> (!old(txn).committed && !old(txn).denied_paths().contains(path_model(p))),
        old(txn).committed ==> r == Err::<Key, ComError>(ComError::IllegalState),
        !old(txn).committed && old(txn).denied_paths().contains(path_model(p)) ==> r == Err::<
            Key,
            ComError,
        >(ComError::AccessDenied),
        r is Ok ==> final(txn).working() == old(txn).working().create_key(
            path_model(p),
            old(txn).volatile,
        ) && r.unwrap()@ == path_model(p),
        r is Err ==> final(txn).working() == old(txn).working(),
        final(txn).same_admin(old(txn)),
{
    if txn.committed {
        return Err(ComError::IllegalState);
    }
    if denied_contains(&txn.denied, &p) {
        return Err(ComError::AccessDenied);
    }
    if !keys_contain(&txn.keys, &p) {
        let e = KeyEntry { path: copy_path(&p), volatile: txn.volatile };
        proof {
            assert(txn.keys@.push(e).drop_last() =~= txn.keys@);
        }
        txn.keys.push(e);
    }
    Ok(Key { path: p })
}

impl Key {
    /// Create-or-open a node at an absolute path under a well-known root,
    /// honouring the transaction's volatility policy.
    pub fn predefined(txn: &mut Transaction, path: &Vec<Vec<u16>>) -> (r: Result<Key, ComError>)
        ensures
            r is Ok <==> (!old(txn).committed && !old(txn).denied_paths().contains(
                path_model(*path),
            )),
            old(txn).committed ==> r == Err::<Key, ComError>(ComError::IllegalState),
            !old(txn).committed && old(txn).denied_paths().contains(path_model(*path)) ==> r
                == Err::<Key, ComError>(ComError::AccessDenied),
            r is Ok ==> final(txn).working() == old(txn).working().create_key(
                path_model(*path),
                old(txn).volatile,
            ) && r.unwrap()@ == path_model(*path),
            r is Err ==> final(txn).working() == old(txn).working(),
            final(txn).same_admin(old(txn)),
    {
        let p = copy_path(path);
        create_at(txn, p)
    }

    /// Create-or-open a child node one segment below this one.
    pub fn create_subkey(&self, txn: &mut Transaction, name: &Vec<u16>) -> (r: Result<
        Key,
        ComError,
    >)
        ensures
            r is Ok <==> (!old(txn).committed && !old(txn).denied_paths().contains(
                self@.push(name@),
            )),
            old(txn).committed ==> r == Err::<Key, ComError>(ComError::IllegalState),
            !old(txn).committed && old(txn).denied_paths().contains(self@.push(name@)) ==> r
                == Err::<Key, ComError>(ComError::AccessDenied),
            r is Ok ==> final(txn).working() == old(txn).working().create_key(
                self@.push(name@),
                old(txn).volatile,
            ) && r.unwrap()@ == self@.push(name@),
            r is Err ==> final(txn).working() == old(txn).working(),
            final(txn).same_admin(old(txn)),
    {
        let p = child_path(&self.path, name);
        create_at(txn, p)
    }

    /// Open an existing child node without creating it; fails with
    /// `NotFound` when it is absent.
    pub fn open_subkey(&self, txn: &Transaction, name: &Vec<u16>) -> (r: Result<Key, ComError>)
        ensures
            r is Ok <==> (!txn.committed && txn.working().keys.contains_key(self@.push(name@))),
            txn.committed ==> r == Err::<Key, ComError>(ComError::IllegalState),
            !txn.committed && !txn.working().keys.contains_key(self@.push(name@)) ==> r == Err::<
                Key,
                ComError,
            >(ComError::NotFound),
            r is Ok ==> r.unwrap()@ == self@.push(name@),
    {
        if txn.committed {
            return Err(ComError::IllegalState);
        }
        let p = child_path(&self.path, name);
        if keys_contain(&txn.keys, &p) {
            Ok(Key { path: p })
        } else {
            Err(ComError::NotFound)
        }
    }

    /// Recursively delete the node reached from this one through the
    /// segments of `sub`, together with its whole subtree. Deleting an
    /// absent node succeeds: the operation is idempotent.
    pub fn delete_subkey(&self, txn: &mut Transaction, sub: &Vec<Vec<u16>>) -> (r: Result<
        (),
        ComError,
    >)
        ensures
            r is Ok <==> !old(txn).committed,
            r is Err ==> r == Err::<(), ComError>(ComError::IllegalState) && final(txn).working()
                == old(txn).working(),
            r is Ok ==> final(txn).working() == old(txn).working().remove_tree(
                self@ + path_model(*sub),
                true,
            ),
            final(txn).same_admin(old(txn)),
    {
        if txn.committed {
            return Err(ComError::IllegalState);
        }
        let full = join_path(&self.path, sub);
        txn.keys = remove_tree_keys(&txn.keys, &full, true);
        txn.vals = remove_tree_vals(&txn.vals, &full);
        Ok(())
    }

    /// Recursively delete this node's descendants and its own values; the
    /// node itself stays. Idempotent in the same way as `delete_subkey`.
    pub fn delete_tree(&self, txn: &mut Transaction) -> (r: Result<(), ComError>)
        ensures
            r is Ok <==> !old(txn).committed,
            r is Err ==> r == Err::<(), ComError>(ComError::IllegalState) && final(txn).working()
                == old(txn).working(),
            r is Ok ==> final(txn).working() == old(txn).working().remove_tree(self@, false),
            final(txn).same_admin(old(txn)),
    {
        if txn.committed {
            return Err(ComError::IllegalState);
        }
        txn.keys = remove_tree_keys(&txn.keys, &self.path, false);
        txn.vals = remove_tree_vals(&txn.vals, &self.path);
        Ok(())
    }

    /// Write one datum under this node; `name` empty names the default
    /// value. Shared by the typed setters.
    fn set_value(&self, txn: &mut Transaction, name: &Vec<u16>, data: RegValue) -> (r: Result<
        (),
        ComError,
    >)
        ensures
            r is Ok <==> !old(txn).committed,
            r is Err ==> r == Err::<(), ComError>(ComError::IllegalState) && final(txn).working()
                == old(txn).working(),
            r is Ok ==> final(txn).working() == old(txn).working().set_value(self@, name@, data@),
            final(txn).same_admin(old(txn)),
    {
        if txn.committed {
            return Err(ComError::IllegalState);
        }
        let e = ValueEntry { path: copy_path(&self.path), name: copy_u16s(name), data };
        proof {
            assert(txn.vals@.push(e).drop_last() =~= txn.vals@);
        }
        txn.vals.push(e);
        Ok(())
    }

    /// Remove one datum under this node; removing an absent datum
    /// succeeds, so the operation is idempotent.
    pub fn delete_value(&self, txn: &mut Transaction, name: &Vec<u16>) -> (r: Result<(), ComError>)
        ensures
            r is Ok <==> !old(txn).committed,
            r is Err ==> r == Err::<(), ComError>(ComError::IllegalState) && final(txn).working()
                == old(txn).working(),
            r is Ok ==> final(txn).working() == old(txn).working().clear_value(self@, name@),
            final(txn).same_admin(old(txn)),
    {
        if txn.committed {
            return Err(ComError::IllegalState);
        }
        txn.vals = remove_value_entries(&txn.vals, &self.path, name);
        Ok(())
    }

    /// Write a 32-bit integer value.
    pub fn set_u32(&self, txn: &mut Transaction, name: &Vec<u16>, value: u32) -> (r: Result<
        (),
        ComError,
    >)
        ensures
            r is Ok <==> !old(txn).committed,
            r is Err ==> r == Err::<(), ComError>(ComError::IllegalState) && final(txn).working()
                == old(txn).working(),
            r is Ok ==> final(txn).working() == old(txn).working().set_value(
                self@,
                name@,
                ValueModel::U32(value),
            ),
            final(txn).same_admin(old(txn)),
    {
        self.set_value(txn, name, RegValue::U32(value))
    }

    /// Write a 64-bit integer value.
    pub fn set_u64(&self, txn: &mut Transaction, name: &Vec<u16>, value: u64) -> (r: Result<
        (),
        ComError,
    >)
        ensures
            r is Ok <==> !old(txn).committed,
            r is Err ==> r == Err::<(), ComError>(ComError::IllegalState) && final(txn).working()
                == old(txn).working(),
            r is Ok ==> final(txn).working() == old(txn).working().set_value(
                self@,
                name@,
                ValueModel::U64(value),
            ),
            final(txn).same_admin(old(txn)),
    {
        self.set_value(txn, name, RegValue::U64(value))
    }

    /// Write a raw byte block.
    pub fn set_binary(&self, txn: &mut Transaction, name: &Vec<u16>, value: &Vec<u8>) -> (r: Result<
        (),
        ComError,
    >)
        ensures
            r is Ok <==> !old(txn).committed,
            r is Err ==> r == Err::<(), ComError>(ComError::IllegalState) && final(txn).working()
                == old(txn).working(),
            r is Ok ==> final(txn).working() == old(txn).working().set_value(
                self@,
                name@,
                ValueModel::Binary(value@),
            ),
            final(txn).same_admin(old(txn)),
    {
        self.set_value(txn, name, RegValue::Binary(crate::store::copy_u8s(value)))
    }

    /// Write a literal string value.
    pub fn set_str(&self, txn: &mut Transaction, name: &Vec<u16>, value: &Vec<u16>) -> (r: Result<
        (),
        ComError,
    >)
        ensures
            r is Ok <==> !old(txn).committed,
            r is Err ==> r == Err::<(), ComError>(ComError::IllegalState) && final(txn).working()
                == old(txn).working(),
            r is Ok ==> final(txn).working() == old(txn).working().set_value(
                self@,
                name@,
                ValueModel::Str(value@),
            ),
            final(txn).same_admin(old(txn)),
    {
        self.set_value(txn, name, RegValue::Str(copy_u16s(value)))
    }

    /// Write a string value whose environment references are expanded on
    /// read.
    pub fn set_str_expand(&self, txn: &mut Transaction, name: &Vec<u16>, value: &Vec<u16>) -> (r:
        Result<(), ComError>)
        ensures
            r is Ok <==> !old(txn).committed,
            r is Err ==> r == Err::<(), ComError>(ComError::IllegalState) && final(txn).working()
                == old(txn).working(),
            r is Ok ==> final(txn).working() == old(txn).working().set_value(
                self@,
                name@,
                ValueModel::ExpandStr(value@),
            ),
            final(txn).same_admin(old(txn)),
    {
        self.set_value(txn, name, RegValue::ExpandStr(copy_u16s(value)))
    }

    /// Write a literal string value, or clear the datum when the string is
    /// absent.
    pub fn set_pcwstr(
        &self,
        txn: &mut Transaction,
        name: &Vec<u16>,
        value: Option<&Vec<u16>>,
    ) -> (r: Result<(), ComError>)
        ensures
            r is Ok <==> !old(txn).committed,
            r is Err ==> r == Err::<(), ComError>(ComError::IllegalState) && final(txn).working()
                == old(txn).working(),
            r is Ok && value is Some ==> final(txn).working() == old(txn).working().set_value(
                self@,
                name@,
                ValueModel::Str(value.unwrap()@),
            ),
            r is Ok && value is None ==> final(txn).working() == old(txn).working().clear_value(
                self@,
                name@,
            ),
            final(txn).same_admin(old(txn)),
    {
        match value {
            Some(v) => self.set_str(txn, name, v),
            None => self.delete_value(txn, name),
        }
    }

    /// Write an expandable string value, or clear the datum when the
    /// string is absent.
    pub fn set_pcwstr_expand(
        &self,
        txn: &mut Transaction,
        name: &Vec<u16>,
        value: Option<&Vec<u16>>,
    ) -> (r: Result<(), ComError>)
        ensures
            r is Ok <==> !old(txn).committed,
            r is Err ==> r == Err::<(), ComError>(ComError::IllegalState) && final(txn).working()
                == old(txn).working(),
            r is Ok && value is Some ==> final(txn).working() == old(txn).working().set_value(
                self@,
                name@,
                ValueModel::ExpandStr(value.unwrap()@),
            ),
            r is Ok && value is None ==> final(txn).working() == old(txn).working().clear_value(
                self@,
                name@,
            ),
            final(txn).same_admin(old(txn)),
    {
        match value {
            Some(v) => self.set_str_expand(txn, name, v),
            None => self.delete_value(txn, name),
        }
    }

    /// Write an identifier as a string value in its canonical textual
    /// form, terminating nul included.
    pub fn set_guid(&self, txn: &mut Transaction, name: &Vec<u16>, value: &Guid) -> (r: Result<
        (),
        ComError,
    >)
        ensures
            r is Ok <==> !old(txn).committed,
            r is Err ==> r == Err::<(), ComError>(ComError::IllegalState) && final(txn).working()
                == old(txn).working(),
            r is Ok ==> final(txn).working() == old(txn).working().set_value(
                self@,
                name@,
                ValueModel::Str(guid_wide(*value)),
            ),
            final(txn).same_admin(old(txn)),
    {
        self.set_value(txn, name, RegValue::Str(value.to_wide()))
    }
}

/// A borrowed wide string whose last character is the terminating nul.
#[derive(Clone, Copy)]
pub struct NullTerminatedSlice<'a>(pub &'a [u16]);

impl View for NullTerminatedSlice<'_> {
    type V = Seq<u16>;

    open spec fn view(&self) -> Seq<u16> {
        self.0@
    }
}

impl<'a> NullTerminatedSlice<'a> {
    /// What `new` guarantees of every value it hands out.
    pub open spec fn wf(&self) -> bool {
        self@.len() > 0 && self@.last() == 0
    }

    /// Accept a slice exactly when its last element is the nul terminator.
    pub fn new(slice: &'a [u16]) -> (r: Option<NullTerminatedSlice<'a>>)
        ensures
            r is Some <==> (slice@.len() > 0 && slice@.last() == 0),
            r is Some ==> r.unwrap()@ == slice@ && r.unwrap().wf(),
    {
        if slice.len() == 0 {
            None
        } else if slice[slice.len() - 1] != 0 {
            None
        } else {
            Some(NullTerminatedSlice(slice))
        }
    }

    /// The underlying characters, terminating nul included.
    pub fn as_slice(&self) -> (r: &[u16])
        ensures
            r@ == self@,
    {
        self.0
    }

    /// A copy of the characters before the terminating nul.
    pub fn without_nul(&self) -> (r: Vec<u16>)
        requires
            self.wf(),
        ensures
            r@ == self@.drop_last(),
    {
        let mut out: Vec<u16> = Vec::new();
        let mut i: usize = 0;
        while i < self.0.len() - 1
            invariant
                self@.len() > 0,
                i <= self@.len() - 1,
                out@ == self@.take(i as int),
            decreases self@.len() - 1 - i,
        {
            out.push(self.0[i]);
            proof {
                assert(out@ =~= self@.take(i + 1 as int));
            }
            i = i + 1;
        }
        proof {
            assert(self@.take(self@.len() - 1) =~= self@.drop_last());
        }
        out
    }
}

/// The node name `CLSID`.
pub open spec fn seg_clsid() -> Seq<u16> {
    seq![67u16, 76u16, 83u16, 73u16, 68u16]
}

/// The node name `ProgId`.
pub open spec fn seg_prog_id() -> Seq<u16> {
    seq![80u16, 114u16, 111u16, 103u16, 73u16, 100u16]
}

/// The node name `VersionIndependentProgId`.
pub open spec fn seg_version_independent_prog_id() -> Seq<u16> {
    seq![
        86u16,
        101u16,
        114u16,
        115u16,
        105u16,
        111u16,
        110u16,
        73u16,
        110u16,
        100u16,
        101u16,
        112u16,
        101u16,
        110u16,
        100u16,
        101u16,
        110u16,
        116u16,
        80u16,
        114u16,
        111u16,
        103u16,
        73u16,
        100u16,
    ]
}

/// The node name `InprocServer32`.
pub open spec fn seg_inproc_server32() -> Seq<u16> {
    seq![
        73u16,
        110u16,
        112u16,
        114u16,
        111u16,
        99u16,
        83u16,
        101u16,
        114u16,
        118u16,
        101u16,
        114u16,
        51u16,
        50u16,
    ]
}

/// The value name `ThreadingModel`.
pub open spec fn name_threading_model() -> Seq<u16> {
    seq![84u16, 104u16, 114u16, 101u16, 97u16, 100u16, 105u16, 110u16, 103u16, 77u16, 111u16,
        100u16, 101u16, 108u16]
}

/// The node name `CLSID`, as a value.
pub fn seg_clsid_vec() -> (r: Vec<u16>)
    ensures
        r@ == seg_clsid(),
{
    let mut v: Vec<u16> = Vec::new();
    v.push(67);
    v.push(76);
    v.push(83);
    v.push(73);
    v.push(68);
    proof {
        assert(v@ =~= seg_clsid());
    }
    v
}

/// The node name `ProgId`, as a value.
pub fn seg_prog_id_vec() -> (r: Vec<u16>)
    ensures
        r@ == seg_prog_id(),
{
    let mut v: Vec<u16> = Vec::new();
    v.push(80);
    v.push(114);
    v.push(111);
    v.push(103);
    v.push(73);
    v.push(100);
    proof {
        assert(v@ =~= seg_prog_id());
    }
    v
}

/// The node name `VersionIndependentProgId`, as a value.
pub fn seg_version_independent_prog_id_vec() -> (r: Vec<u16>)
    ensures
        r@ == seg_version_independent_prog_id(),
{
    let mut v: Vec<u16> = Vec::new();
    v.push(86);
    v.push(101);
    v.push(114);
    v.push(115);
    v.push(105);
    v.push(111);
    v.push(110);
    v.push(73);
    v.push(110);
    v.push(100);
    v.push(101);
    v.push(112);
    v.push(101);
    v.push(110);
    v.push(100);
    v.push(101);
    v.push(110);
    v.push(116);
    v.push(80);
    v.push(114);
    v.push(111);
    v.push(103);
    v.push(73);
    v.push(100);
    proof {
        assert(v@ =~= seg_version_independent_prog_id());
    }
    v
}

/// The node name `InprocServer32`, as a value.
pub fn seg_inproc_server32_vec() -> (r: Vec<u16>)
    ensures
        r@ == seg_inproc_server32(),
{
    let mut v: Vec<u16> = Vec::new();
    v.push(73);
    v.push(110);
    v.push(112);
    v.push(114);
    v.push(111);
    v.push(99);
    v.push(83);
    v.push(101);
    v.push(114);
    v.push(118);
    v.push(101);
    v.push(114);
    v.push(51);
    v.push(50);
    proof {
        assert(v@ =~= seg_inproc_server32());
    }
    v
}

/// The value name `ThreadingModel`, as a value.
pub fn name_threading_model_vec() -> (r: Vec<u16>)
    ensures
        r@ == name_threading_model(),
{
    let mut v: Vec<u16> = Vec::new();
    v.push(84);
    v.push(104);
    v.push(114);
    v.push(101);
    v.push(97);
    v.push(100);
    v.push(105);
    v.push(110);
    v.push(103);
    v.push(77);
    v.push(111);
    v.push(100);
    v.push(101);
    v.push(108);
    proof {
        assert(v@ =~= name_threading_model());
    }
    v
}

/// The empty value name: a node's default value.
pub fn name_default() -> (r: Vec<u16>)
    ensures
        r@ == Seq::<u16>::empty(),
{
    let v: Vec<u16> = Vec::new();
    proof {
        assert(v@ =~= Seq::<u16>::empty());
    }
    v
}

/// The node that holds a registered class's entries: `CLSID\{identifier}`
/// under the installation root.
pub open spec fn com_object_path(classes: Seq<Seq<u16>>, clsid: Guid) -> Seq<Seq<u16>> {
    classes.push(seg_clsid()).push(guid_wide_name(clsid))
}

/// Whether the environment refuses any of the nodes registration creates.
pub open spec fn register_denied(
    denied: Set<Seq<Seq<u16>>>,
    classes: Seq<Seq<u16>>,
    clsid: Guid,
    prog: Seq<u16>,
    vip: Seq<u16>,
) -> bool {
    let p_id = com_object_path(classes, clsid);
    ||| denied.contains(classes.push(seg_clsid()))
    ||| denied.contains(p_id)
    ||| denied.contains(p_id.push(seg_prog_id()))
    ||| denied.contains(p_id.push(seg_version_independent_prog_id()))
    ||| denied.contains(p_id.push(seg_inproc_server32()))
    ||| denied.contains(classes.push(prog))
    ||| denied.contains(classes.push(prog).push(seg_clsid()))
    ||| denied.contains(classes.push(vip))
    ||| denied.contains(classes.push(vip).push(seg_clsid()))
}

/// The working state after the whole registration tree is written: the
/// class node with its description, name nodes, and implementation node,
/// plus the two name-alias nodes that map back to the identifier.
pub open spec fn register_state(
    s: StoreState,
    classes: Seq<Seq<u16>>,
    clsid: Guid,
    prog: Seq<u16>,
    vip: Seq<u16>,
    module_nul: Seq<u16>,
    desc: Seq<u16>,
    apartment: Seq<u16>,
    volatile: bool,
) -> StoreState {
    let p_id = com_object_path(classes, clsid);
    let p_prog = p_id.push(seg_prog_id());
    let p_vip = p_id.push(seg_version_independent_prog_id());
    let p_inproc = p_id.push(seg_inproc_server32());
    let a_prog = classes.push(prog);
    let a_prog_c = a_prog.push(seg_clsid());
    let a_vip = classes.push(vip);
    let a_vip_c = a_vip.push(seg_clsid());
    s.create_key(classes.push(seg_clsid()), volatile).create_key(p_id, volatile).set_value(
        p_id,
        Seq::empty(),
        ValueModel::Str(desc),
    ).create_key(p_prog, volatile).set_value(p_prog, Seq::empty(), ValueModel::Str(prog)).create_key(
        p_vip,
        volatile,
    ).set_value(p_vip, Seq::empty(), ValueModel::Str(vip)).create_key(p_inproc, volatile).set_value(
        p_inproc,
        Seq::empty(),
        ValueModel::Str(module_nul.drop_last()),
    ).set_value(p_inproc, name_threading_model(), ValueModel::Str(apartment)).create_key(
        a_prog,
        volatile,
    ).create_key(a_prog_c, volatile).set_value(
        a_prog_c,
        Seq::empty(),
        ValueModel::Str(guid_wide(clsid)),
    ).create_key(a_vip, volatile).create_key(a_vip_c, volatile).set_value(
        a_vip_c,
        Seq::empty(),
        ValueModel::Str(guid_wide(clsid)),
    )
}

/// The working state after unregistration: the class node's subtree and
/// the two name-alias subtrees are gone; the shared `CLSID` container
/// stays.
pub open spec fn unregister_state(
    s: StoreState,
    classes: Seq<Seq<u16>>,
    clsid: Guid,
    prog: Seq<u16>,
    vip: Seq<u16>,
) -> StoreState {
    s.remove_tree(com_object_path(classes, clsid), true).remove_tree(
        classes.push(prog),
        true,
    ).remove_tree(classes.push(vip), true)
}

/// Write, under the transaction, every entry that advertises the class
/// with identifier `clsid` and the given names:
/// its node under the `CLSID` container (description, name nodes, and the
/// implementation node with its threading model), and the two name-alias
/// nodes holding the identifier string. Nothing is observable in the
/// store unless the caller later commits, so a failure anywhere leaves
/// nothing behind.
pub fn register_class(
    txn: &mut Transaction,
    classes: &Key,
    clsid: Guid,
    prog_id: &Vec<u16>,
    vip_id: &Vec<u16>,
    server_path: NullTerminatedSlice<'_>,
    description: &Vec<u16>,
    apartment_type: &Vec<u16>,
) -> (r: Result<Key, ComError>)
    requires
        server_path.wf(),
    ensures
        r is Ok <==> (!old(txn).committed && !register_denied(
            old(txn).denied_paths(),
            classes@,
            clsid,
            prog_id@,
            vip_id@,
        )),
        old(txn).committed ==> r == Err::<Key, ComError>(ComError::IllegalState),
        !old(txn).committed && register_denied(
            old(txn).denied_paths(),
            classes@,
            clsid,
            prog_id@,
            vip_id@,
        ) ==> r == Err::<Key, ComError>(ComError::AccessDenied),
        r is Ok ==> final(txn).working() == register_state(
            old(txn).working(),
            classes@,
            clsid,
            prog_id@,
            vip_id@,
            server_path@,
            description@,
            apartment_type@,
            old(txn).volatile,
        ),
        r is Ok ==> r.unwrap()@ == com_object_path(classes@, clsid),
        final(txn).same_admin(old(txn)),
{
    let mut name38 = clsid.to_wide();
    let _popped = name38.pop();
    proof {
        assert(name38@ =~= guid_wide_name(clsid));
    }
    let cls_container = match classes.create_subkey(txn, &seg_clsid_vec()) {
        Ok(k) => k,
        Err(e) => {
            return Err(e);
        },
    };
    let com_object = match cls_container.create_subkey(txn, &name38) {
        Ok(k) => k,
        Err(e) => {
            return Err(e);
        },
    };
    match com_object.set_pcwstr(txn, &name_default(), Some(description)) {
        Ok(()) => {},
        Err(e) => {
            return Err(e);
        },
    }
    let prog_node = match com_object.create_subkey(txn, &seg_prog_id_vec()) {
        Ok(k) => k,
        Err(e) => {
            return Err(e);
        },
    };
    match prog_node.set_pcwstr(txn, &name_default(), Some(prog_id)) {
        Ok(()) => {},
        Err(e) => {
            return Err(e);
        },
    }
    let vip_node = match com_object.create_subkey(txn, &seg_version_independent_prog_id_vec()) {
        Ok(k) => k,
        Err(e) => {
            return Err(e);
        },
    };
    match vip_node.set_pcwstr(txn, &name_default(), Some(vip_id)) {
        Ok(()) => {},
        Err(e) => {
            return Err(e);
        },
    }
    let inproc = match com_object.create_subkey(txn, &seg_inproc_server32_vec()) {
        Ok(k) => k,
        Err(e) => {
            return Err(e);
        },
    };
    let trimmed = server_path.without_nul();
    match inproc.set_pcwstr(txn, &name_default(), Some(&trimmed)) {
        Ok(()) => {},
        Err(e) => {
            return Err(e);
        },
    }
    match inproc.set_pcwstr(txn, &name_threading_model_vec(), Some(apartment_type)) {
        Ok(()) => {},
        Err(e) => {
            return Err(e);
        },
    }
    let alias_prog = match classes.create_subkey(txn, prog_id) {
        Ok(k) => k,
        Err(e) => {
            return Err(e);
        },
    };
    let alias_prog_c = match alias_prog.create_subkey(txn, &seg_clsid_vec()) {
        Ok(k) => k,
        Err(e) => {
            return Err(e);
        },
    };
    match alias_prog_c.set_guid(txn, &name_default(), &clsid) {
        Ok(()) => {},
        Err(e) => {
            return Err(e);
        },
    }
    let alias_vip = match classes.create_subkey(txn, vip_id) {
        Ok(k) => k,
        Err(e) => {
            return Err(e);
        },
    };
    let alias_vip_c = match alias_vip.create_subkey(txn, &seg_clsid_vec()) {
        Ok(k) => k,
        Err(e) => {
            return Err(e);
        },
    };
    match alias_vip_c.set_guid(txn, &name_default(), &clsid) {
        Ok(()) => {},
        Err(e) => {
            return Err(e);
        },
    }
    Ok(com_object)
}

/// Write, under the transaction, every entry that advertises class `T`,
/// as [`register_class`] does for its identity.
pub fn register_com_extension<T: CoClass>(
    txn: &mut Transaction,
    classes: &Key,
    server_path: NullTerminatedSlice<'_>,
    description: &Vec<u16>,
    apartment_type: &Vec<u16>,
) -> (r: Result<Key, ComError>)
    requires
        server_path.wf(),
    ensures
        r is Ok <==> (!old(txn).committed && !register_denied(
            old(txn).denied_paths(),
            classes@,
            T::clsid_spec(),
            T::prog_id_spec(),
            T::version_independent_prog_id_spec(),
        )),
        old(txn).committed ==> r == Err::<Key, ComError>(ComError::IllegalState),
        !old(txn).committed && register_denied(
            old(txn).denied_paths(),
            classes@,
            T::clsid_spec(),
            T::prog_id_spec(),
            T::version_independent_prog_id_spec(),
        ) ==> r == Err::<Key, ComError>(ComError::AccessDenied),
        r is Ok ==> final(txn).working() == register_state(
            old(txn).working(),
            classes@,
            T::clsid_spec(),
            T::prog_id_spec(),
            T::version_independent_prog_id_spec(),
            server_path@,
            description@,
            apartment_type@,
            old(txn).volatile,
        ),
        r is Ok ==> r.unwrap()@ == com_object_path(classes@, T::clsid_spec()),
        final(txn).same_admin(old(txn)),
{
    let prog_id = T::prog_id();
    let vip_id = T::version_independent_prog_id();
    register_class(txn, classes, T::clsid(), &prog_id, &vip_id, server_path, description,
        apartment_type)
}

/// Remove, under the transaction, every entry `register_class` writes
/// for the class with identifier `clsid` and the given names: the class node's subtree and the two name-alias
/// subtrees. Each deletion treats absence as success, so unregistration is
/// safe to run twice, or after a registration that never happened.
pub fn unregister_class(
    txn: &mut Transaction,
    classes: &Key,
    clsid: Guid,
    prog_id: &Vec<u16>,
    vip_id: &Vec<u16>,
) -> (r: Result<(), ComError>)
    ensures
        r is Ok <==> !old(txn).committed,
        r is Err ==> r == Err::<(), ComError>(ComError::IllegalState) && final(txn).working()
            == old(txn).working(),
        r is Ok ==> final(txn).working() == unregister_state(
            old(txn).working(),
            classes@,
            clsid,
            prog_id@,
            vip_id@,
        ),
        final(txn).same_admin(old(txn)),
{
    let mut name38 = clsid.to_wide();
    let _popped = name38.pop();
    proof {
        assert(name38@ =~= guid_wide_name(clsid));
    }
    let mut sub: Vec<Vec<u16>> = Vec::new();
    sub.push(seg_clsid_vec());
    sub.push(name38);
    match classes.delete_subkey(txn, &sub) {
        Ok(()) => {},
        Err(e) => {
            return Err(e);
        },
    }
    proof {
        assert(classes@ + path_model(sub) =~= com_object_path(classes@, clsid));
    }
    let mut sub_prog: Vec<Vec<u16>> = Vec::new();
    sub_prog.push(copy_u16s(prog_id));
    match classes.delete_subkey(txn, &sub_prog) {
        Ok(()) => {},
        Err(e) => {
            return Err(e);
        },
    }
    proof {
        assert(classes@ + path_model(sub_prog) =~= classes@.push(prog_id@));
    }
    let mut sub_vip: Vec<Vec<u16>> = Vec::new();
    sub_vip.push(copy_u16s(vip_id));
    match classes.delete_subkey(txn, &sub_vip) {
        Ok(()) => {},
        Err(e) => {
            return Err(e);
        },
    }
    proof {
        assert(classes@ + path_model(sub_vip) =~= classes@.push(vip_id@));
    }
    Ok(())
}

/// Remove, under the transaction, every entry `register_com_extension`
/// writes for class `T`, as [`unregister_class`] does for its identity.
pub fn unregister_com_extension<T: CoClass>(txn: &mut Transaction, classes: &Key) -> (r: Result<
    (),
    ComError,
>)
    ensures
        r is Ok <==> !old(txn).committed,
        r is Err ==> r == Err::<(), ComError>(ComError::IllegalState) && final(txn).working()
            == old(txn).working(),
        r is Ok ==> final(txn).working() == unregister_state(
            old(txn).working(),
            classes@,
            T::clsid_spec(),
            T::prog_id_spec(),
            T::version_independent_prog_id_spec(),
        ),
        final(txn).same_admin(old(txn)),
{
    let prog_id = T::prog_id();
    let vip_id = T::version_independent_prog_id();
    unregister_class(txn, classes, T::clsid(), &prog_id, &vip_id)
}

/// Law: unregistration undoes registration. When the store held nothing
/// under the class node or the two name-alias nodes, and the names do not
/// collide with the shared container's own name, then registering and at
/// once unregistering leaves exactly the starting state plus that shared
/// `CLSID` container node.
pub proof fn lemma_unregister_undoes_register(
    s: StoreState,
    classes: Seq<Seq<u16>>,
    clsid: Guid,
    prog: Seq<u16>,
    vip: Seq<u16>,
    server_nul: Seq<u16>,
    desc: Seq<u16>,
    apartment: Seq<u16>,
    volatile: bool,
)
    requires
        prog != seg_clsid(),
        vip != seg_clsid(),
        forall|q: Seq<Seq<u16>>| #[trigger]
            s.keys.contains_key(q) ==> !crate::store::seg_prefix(com_object_path(classes, clsid), q)
                && !crate::store::seg_prefix(classes.push(prog), q) && !crate::store::seg_prefix(
                classes.push(vip),
                q,
            ),
        forall|k: (Seq<Seq<u16>>, Seq<u16>)| #[trigger]
            s.vals.contains_key(k) ==> !crate::store::seg_prefix(
                com_object_path(classes, clsid),
                k.0,
            ) && !crate::store::seg_prefix(classes.push(prog), k.0) && !crate::store::seg_prefix(
                classes.push(vip),
                k.0,
            ),
    ensures
        unregister_state(
            register_state(s, classes, clsid, prog, vip, server_nul, desc, apartment, volatile),
            classes,
            clsid,
            prog,
            vip,
        ) == s.create_key(classes.push(seg_clsid()), volatile),
{
    let p_cls = classes.push(seg_clsid());
    let p_id = com_object_path(classes, clsid);
    let p_prog = p_id.push(seg_prog_id());
    let p_vip = p_id.push(seg_version_independent_prog_id());
    let p_inproc = p_id.push(seg_inproc_server32());
    let a_prog = classes.push(prog);
    let a_prog_c = a_prog.push(seg_clsid());
    let a_vip = classes.push(vip);
    let a_vip_c = a_vip.push(seg_clsid());
    assert(p_id.take(p_id.len() as int) =~= p_id);
    assert(p_prog.take(p_id.len() as int) =~= p_id);
    assert(p_vip.take(p_id.len() as int) =~= p_id);
    assert(p_inproc.take(p_id.len() as int) =~= p_id);
    assert(a_prog.take(a_prog.len() as int) =~= a_prog);
    assert(a_prog_c.take(a_prog.len() as int) =~= a_prog);
    assert(a_vip.take(a_vip.len() as int) =~= a_vip);
    assert(a_vip_c.take(a_vip.len() as int) =~= a_vip);
    // The shared container itself is in none of the removed subtrees: it
    // is shorter than the class node's path, and its last segment differs
    // from both alias names.
    assert(!crate::store::seg_prefix(p_id, p_cls));
    assert(p_cls.take(a_prog.len() as int) =~= p_cls);
    assert(p_cls[classes.len() as int] == seg_clsid());
    assert(!crate::store::seg_prefix(a_prog, p_cls));
    assert(!crate::store::seg_prefix(a_vip, p_cls));
    let left = unregister_state(
        register_state(s, classes, clsid, prog, vip, server_nul, desc, apartment, volatile),
        classes,
        clsid,
        prog,
        vip,
    );
    let right = s.create_key(p_cls, volatile);
    assert(left.keys =~= right.keys);
    assert(left.vals =~= right.vals);
    assert(left =~= right);
}

/// Law: unregistration is idempotent — a second run changes nothing and
/// also succeeds — and after it no node and no value of the registration
/// tree remains, whatever the store held before.
pub proof fn lemma_unregister_idempotent(
    s: StoreState,
    classes: Seq<Seq<u16>>,
    clsid: Guid,
    prog: Seq<u16>,
    vip: Seq<u16>,
)
    ensures
        unregister_state(unregister_state(s, classes, clsid, prog, vip), classes, clsid, prog, vip)
            == unregister_state(s, classes, clsid, prog, vip),
        forall|q: Seq<Seq<u16>>|
            crate::store::seg_prefix(com_object_path(classes, clsid), q) || crate::store::seg_prefix(
                classes.push(prog),
                q,
            ) || crate::store::seg_prefix(classes.push(vip), q)
                ==> !unregister_state(s, classes, clsid, prog, vip).keys.contains_key(q),
        forall|k: (Seq<Seq<u16>>, Seq<u16>)|
            crate::store::seg_prefix(com_object_path(classes, clsid), k.0)
                || crate::store::seg_prefix(classes.push(prog), k.0) || crate::store::seg_prefix(
                classes.push(vip),
                k.0,
            ) ==> !unregister_state(s, classes, clsid, prog, vip).vals.contains_key(k),
{
    let u1 = unregister_state(s, classes, clsid, prog, vip);
    let u2 = unregister_state(u1, classes, clsid, prog, vip);
    assert(u2.keys =~= u1.keys);
    assert(u2.vals =~= u1.vals);
    assert(u2 =~= u1);
}

/// Law: registration round-trips — in the state registration produces,
/// the implementation node's default value is exactly the module path that
/// was written, its `ThreadingModel` value is exactly the apartment
/// string, and the primary-name alias holds exactly the canonical string
/// form of the identifier.
pub proof fn lemma_register_round_trip(
    s: StoreState,
    classes: Seq<Seq<u16>>,
    clsid: Guid,
    prog: Seq<u16>,
    vip: Seq<u16>,
    server_nul: Seq<u16>,
    desc: Seq<u16>,
    apartment: Seq<u16>,
    volatile: bool,
)
    ensures
        ({
            let r = register_state(s, classes, clsid, prog, vip, server_nul, desc, apartment,
                volatile);
            let p_inproc = com_object_path(classes, clsid).push(seg_inproc_server32());
            let a_prog_c = classes.push(prog).push(seg_clsid());
            &&& r.vals.contains_key((p_inproc, Seq::<u16>::empty()))
            &&& r.vals[(p_inproc, Seq::<u16>::empty())] == ValueModel::Str(server_nul.drop_last())
            &&& r.vals.contains_key((p_inproc, name_threading_model()))
            &&& r.vals[(p_inproc, name_threading_model())] == ValueModel::Str(apartment)
            &&& r.vals.contains_key((a_prog_c, Seq::<u16>::empty()))
            &&& r.vals[(a_prog_c, Seq::<u16>::empty())] == ValueModel::Str(guid_wide(clsid))
            &&& r.keys.contains_key(com_object_path(classes, clsid))
        }),
{
    let p_id = com_object_path(classes, clsid);
    let p_inproc = p_id.push(seg_inproc_server32());
    let a_prog_c = classes.push(prog).push(seg_clsid());
    let a_vip_c = classes.push(vip).push(seg_clsid());
    assert(p_inproc.len() == classes.len() + 3);
    assert(a_prog_c.len() == classes.len() + 2);
    assert(a_vip_c.len() == classes.len() + 2);
    assert(name_threading_model().len() == 14);
    assert(Seq::<u16>::empty().len() == 0);
}

} // verus!
