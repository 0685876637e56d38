//! A model of the hierarchical, transactional configuration store: nodes
//! named by paths of wide-string segments, each holding typed values.
//!
//! The executable representation is a pair of flat entry lists; its
//! mathematical value is a pair of maps ([`StoreState`]). A later entry for
//! the same path or value name shadows an earlier one, so pushing an entry
//! is exactly a map insert.

use vstd::prelude::*;

verus! {

/// One typed datum under a node. String variants distinguish literal
/// strings from strings whose environment references are expanded on read.
#[derive(Debug, PartialEq, Eq)]
pub enum RegValue {
    U32(u32),
    U64(u64),
    Binary(Vec<u8>),
    Str(Vec<u16>),
    ExpandStr(Vec<u16>),
}

/// The mathematical value of one datum.
pub enum ValueModel {
    U32(u32),
    U64(u64),
    Binary(Seq<u8>),
    Str(Seq<u16>),
    ExpandStr(Seq<u16>),
}

impl View for RegValue {
    type V = ValueModel;

    open spec fn view(&self) -> ValueModel {
        match self {
            RegValue::U32(v) => ValueModel::U32(*v),
            RegValue::U64(v) => ValueModel::U64(*v),
            RegValue::Binary(v) => ValueModel::Binary(v@),
            RegValue::Str(v) => ValueModel::Str(v@),
            RegValue::ExpandStr(v) => ValueModel::ExpandStr(v@),
        }
    }
}

/// The mathematical value of a node path: its segments.
pub open spec fn path_model(p: Vec<Vec<u16>>) -> Seq<Seq<u16>> {
    Seq::new(p@.len(), |i: int| p@[i]@)
}

/// A node that exists, with the volatility it was created with.
pub struct KeyEntry {
    pub path: Vec<Vec<u16>>,
    pub volatile: bool,
}

/// One value: the path of its owning node, its name (empty for the
/// default value), and its datum.
pub struct ValueEntry {
    pub path: Vec<Vec<u16>>,
    pub name: Vec<u16>,
    pub data: RegValue,
}

/// The nodes an entry list stands for: path to volatility, later entries
/// shadowing earlier ones.
pub open spec fn keys_model(s: Seq<KeyEntry>) -> Map<Seq<Seq<u16>>, bool>
    decreases s.len(),
{
    if s.len() == 0 {
        Map::empty()
    } else {
        keys_model(s.drop_last()).insert(path_model(s.last().path), s.last().volatile)
    }
}

/// The values an entry list stands for: (node path, value name) to datum.
pub open spec fn vals_model(s: Seq<ValueEntry>) -> Map<(Seq<Seq<u16>>, Seq<u16>), ValueModel>
    decreases s.len(),
{
    if s.len() == 0 {
        Map::empty()
    } else {
        vals_model(s.drop_last()).insert(
            (path_model(s.last().path), s.last().name@),
            s.last().data@,
        )
    }
}

/// The mathematical value of a whole store or of a transaction's working
/// state: which nodes exist and what values they hold.
#[verifier::ext_equal]
pub struct StoreState {
    pub keys: Map<Seq<Seq<u16>>, bool>,
    pub vals: Map<(Seq<Seq<u16>>, Seq<u16>), ValueModel>,
}

/// `pre` names `p` itself or an ancestor of `p`.
pub open spec fn seg_prefix(pre: Seq<Seq<u16>>, p: Seq<Seq<u16>>) -> bool {
    pre.len() <= p.len() && p.take(pre.len() as int) == pre
}

/// The node paths a recursive delete rooted at `pre` removes: the subtree,
/// the root itself only when `include_root` holds.
pub open spec fn tree_key_set(pre: Seq<Seq<u16>>, include_root: bool) -> Set<Seq<Seq<u16>>> {
    Set::new(|q: Seq<Seq<u16>>| seg_prefix(pre, q) && (include_root || q.len() > pre.len()))
}

/// The value keys a recursive delete rooted at `pre` removes: every value
/// of the root and of its descendants.
pub open spec fn tree_val_set(pre: Seq<Seq<u16>>) -> Set<(Seq<Seq<u16>>, Seq<u16>)> {
    Set::new(|k: (Seq<Seq<u16>>, Seq<u16>)| seg_prefix(pre, k.0))
}

impl StoreState {
    /// The state with no nodes and no values.
    pub open spec fn empty() -> StoreState {
        StoreState { keys: Map::empty(), vals: Map::empty() }
    }

    /// Create-or-open: a new node gets the given volatility, an existing
    /// node keeps what it had.
    pub open spec fn create_key(self, p: Seq<Seq<u16>>, volatile: bool) -> StoreState {
        if self.keys.contains_key(p) {
            self
        } else {
            StoreState { keys: self.keys.insert(p, volatile), vals: self.vals }
        }
    }

    /// Write one value.
    pub open spec fn set_value(self, p: Seq<Seq<u16>>, name: Seq<u16>, v: ValueModel) -> StoreState {
        StoreState { keys: self.keys, vals: self.vals.insert((p, name), v) }
    }

    /// Clear one value; clearing an absent value changes nothing.
    pub open spec fn clear_value(self, p: Seq<Seq<u16>>, name: Seq<u16>) -> StoreState {
        StoreState { keys: self.keys, vals: self.vals.remove((p, name)) }
    }

    /// Recursive delete rooted at `pre`: descendants and all their values
    /// go; the root node itself goes only when `include_root` holds,
    /// though its own values always go.
    pub open spec fn remove_tree(self, pre: Seq<Seq<u16>>, include_root: bool) -> StoreState {
        StoreState {
            keys: self.keys.remove_keys(tree_key_set(pre, include_root)),
            vals: self.vals.remove_keys(tree_val_set(pre)),
        }
    }
}

/// A node path is in the model exactly when some entry carries it.
pub proof fn lemma_keys_model_membership(s: Seq<KeyEntry>, p: Seq<Seq<u16>>)
    ensures
        keys_model(s).contains_key(p) <==> (exists|i: int|
            0 <= i < s.len() && path_model(s[i].path) == p),
    decreases s.len(),
{
    if s.len() > 0 {
        lemma_keys_model_membership(s.drop_last(), p);
        if path_model(s.last().path) == p {
            assert(path_model(s[s.len() - 1].path) == p);
        } else if keys_model(s).contains_key(p) {
            let i = choose|i: int| 0 <= i < s.drop_last().len() && path_model(
                s.drop_last()[i].path,
            ) == p;
            assert(path_model(s[i].path) == p);
        } else {
            assert forall|i: int| 0 <= i < s.len() implies path_model(s[i].path) != p by {
                if i < s.len() - 1 {
                    assert(s.drop_last()[i] == s[i]);
                }
            }
        }
    }
}

/// A value key is in the model exactly when some entry carries it.
pub proof fn lemma_vals_model_membership(s: Seq<ValueEntry>, k: (Seq<Seq<u16>>, Seq<u16>))
    ensures
        vals_model(s).contains_key(k) <==> (exists|i: int|
            0 <= i < s.len() && (path_model(s[i].path), s[i].name@) == k),
    decreases s.len(),
{
    if s.len() > 0 {
        lemma_vals_model_membership(s.drop_last(), k);
        if (path_model(s.last().path), s.last().name@) == k {
            assert((path_model(s[s.len() - 1].path), s[s.len() - 1].name@) == k);
        } else if vals_model(s).contains_key(k) {
            let i = choose|i: int|
                0 <= i < s.drop_last().len() && (path_model(s.drop_last()[i].path),
                s.drop_last()[i].name@) == k;
            assert((path_model(s[i].path), s[i].name@) == k);
        } else {
            assert forall|i: int| 0 <= i < s.len() implies (path_model(s[i].path), s[i].name@)
                != k by {
                if i < s.len() - 1 {
                    assert(s.drop_last()[i] == s[i]);
                }
            }
        }
    }
}

/// The model's datum for a key is the datum of the last entry carrying it.
pub proof fn lemma_vals_model_last_match(s: Seq<ValueEntry>, j: int)
    requires
        0 <= j < s.len(),
        forall|l: int|
            j < l < s.len() ==> (path_model(s[l].path), s[l].name@) != (
                path_model(s[j].path),
                s[j].name@,
            ),
    ensures
        vals_model(s).contains_key((path_model(s[j].path), s[j].name@)),
        vals_model(s)[(path_model(s[j].path), s[j].name@)] == s[j].data@,
    decreases s.len(),
{
    if j == s.len() - 1 {
    } else {
        assert forall|l: int|
            j < l < s.drop_last().len() implies (path_model(s.drop_last()[l].path),
            s.drop_last()[l].name@) != (path_model(s.drop_last()[j].path),
        s.drop_last()[j].name@) by {
            assert(s.drop_last()[l] == s[l]);
            assert(s.drop_last()[j] == s[j]);
        }
        lemma_vals_model_last_match(s.drop_last(), j);
        assert(s.drop_last()[j] == s[j]);
        assert((path_model(s.last().path), s.last().name@) != (path_model(s[j].path), s[j].name@));
    }
}

/// Two wide strings are equal exactly when the loop finds no difference.
pub fn eq_u16s(a: &Vec<u16>, b: &Vec<u16>) -> (r: bool)
    ensures
        r == (a@ == b@),
{
    if a.len() != b.len() {
        return false;
    }
    let mut i: usize = 0;
    while i < a.len()
        invariant
            i <= a@.len(),
            a@.len() == b@.len(),
            forall|j: int| 0 <= j < i ==> a@[j] == b@[j],
        decreases a@.len() - i,
    {
        if a[i] != b[i] {
            return false;
        }
        i = i + 1;
    }
    proof {
        assert(a@ =~= b@);
    }
    true
}

/// Two paths are equal exactly when they have the same segments.
pub fn eq_path(a: &Vec<Vec<u16>>, b: &Vec<Vec<u16>>) -> (r: bool)
    ensures
        r == (path_model(*a) == path_model(*b)),
{
    if a.len() != b.len() {
        assert(path_model(*a).len() != path_model(*b).len());
        return false;
    }
    let mut i: usize = 0;
    while i < a.len()
        invariant
            i <= a@.len(),
            a@.len() == b@.len(),
            forall|j: int| 0 <= j < i ==> a@[j]@ == b@[j]@,
        decreases a@.len() - i,
    {
        if !eq_u16s(&a[i], &b[i]) {
            assert(path_model(*a)[i as int] != path_model(*b)[i as int]);
            return false;
        }
        i = i + 1;
    }
    proof {
        assert(path_model(*a) =~= path_model(*b));
    }
    true
}

/// `pre` names `q` itself or an ancestor of `q` exactly when the loop
/// matches every segment of `pre`.
pub fn is_seg_prefix(pre: &Vec<Vec<u16>>, q: &Vec<Vec<u16>>) -> (r: bool)
    ensures
        r == seg_prefix(path_model(*pre), path_model(*q)),
{
    if q.len() < pre.len() {
        return false;
    }
    let mut i: usize = 0;
    while i < pre.len()
        invariant
            i <= pre@.len(),
            pre@.len() <= q@.len(),
            forall|j: int| 0 <= j < i ==> pre@[j]@ == q@[j]@,
        decreases pre@.len() - i,
    {
        if !eq_u16s(&pre[i], &q[i]) {
            assert(path_model(*q).take(path_model(*pre).len() as int)[i as int] != path_model(
                *pre,
            )[i as int]);
            return false;
        }
        i = i + 1;
    }
    proof {
        assert(path_model(*q).take(path_model(*pre).len() as int) =~= path_model(*pre));
    }
    true
}

/// A copy of a wide string with the same characters.
pub fn copy_u16s(v: &Vec<u16>) -> (r: Vec<u16>)
    ensures
        r@ == v@,
{
    let mut out: Vec<u16> = Vec::new();
    let mut i: usize = 0;
    while i < v.len()
        invariant
            i <= v@.len(),
            out@ == v@.take(i as int),
        decreases v@.len() - i,
    {
        out.push(v[i]);
        proof {
            assert(out@ =~= v@.take(i + 1 as int));
        }
        i = i + 1;
    }
    proof {
        assert(v@.take(v@.len() as int) =~= v@);
    }
    out
}

/// A copy of a path with the same segments.
pub fn copy_path(p: &Vec<Vec<u16>>) -> (r: Vec<Vec<u16>>)
    ensures
        path_model(r) == path_model(*p),
{
    let mut out: Vec<Vec<u16>> = Vec::new();
    let mut i: usize = 0;
    while i < p.len()
        invariant
            i <= p@.len(),
            out@.len() == i,
            forall|j: int| 0 <= j < i ==> out@[j]@ == p@[j]@,
        decreases p@.len() - i,
    {
        out.push(copy_u16s(&p[i]));
        i = i + 1;
    }
    proof {
        assert(path_model(out) =~= path_model(*p));
    }
    out
}

/// A copy of a byte block with the same bytes.
pub fn copy_u8s(v: &Vec<u8>) -> (r: Vec<u8>)
    ensures
        r@ == v@,
{
    let mut out: Vec<u8> = Vec::new();
    let mut i: usize = 0;
    while i < v.len()
        invariant
            i <= v@.len(),
            out@ == v@.take(i as int),
        decreases v@.len() - i,
    {
        out.push(v[i]);
        proof {
            assert(out@ =~= v@.take(i + 1 as int));
        }
        i = i + 1;
    }
    proof {
        assert(v@.take(v@.len() as int) =~= v@);
    }
    out
}

/// A copy of a datum with the same mathematical value.
pub fn copy_value(v: &RegValue) -> (r: RegValue)
    ensures
        r@ == v@,
{
    match v {
        RegValue::U32(x) => RegValue::U32(*x),
        RegValue::U64(x) => RegValue::U64(*x),
        RegValue::Binary(b) => RegValue::Binary(copy_u8s(b)),
        RegValue::Str(s) => RegValue::Str(copy_u16s(s)),
        RegValue::ExpandStr(s) => RegValue::ExpandStr(copy_u16s(s)),
    }
}

/// A copy of a node list standing for the same nodes.
pub fn copy_key_entries(s: &Vec<KeyEntry>) -> (r: Vec<KeyEntry>)
    ensures
        keys_model(r@) == keys_model(s@),
{
    let mut out: Vec<KeyEntry> = Vec::new();
    let mut i: usize = 0;
    while i < s.len()
        invariant
            i <= s@.len(),
            keys_model(out@) == keys_model(s@.take(i as int)),
        decreases s@.len() - i,
    {
        let e = KeyEntry { path: copy_path(&s[i].path), volatile: s[i].volatile };
        proof {
            assert(out@.push(e).drop_last() =~= out@);
            assert(s@.take(i + 1).drop_last() =~= s@.take(i as int));
        }
        out.push(e);
        i = i + 1;
    }
    proof {
        assert(s@.take(s@.len() as int) =~= s@);
    }
    out
}

/// A copy of a value list standing for the same values.
pub fn copy_val_entries(s: &Vec<ValueEntry>) -> (r: Vec<ValueEntry>)
    ensures
        vals_model(r@) == vals_model(s@),
{
    let mut out: Vec<ValueEntry> = Vec::new();
    let mut i: usize = 0;
    while i < s.len()
        invariant
            i <= s@.len(),
            vals_model(out@) == vals_model(s@.take(i as int)),
        decreases s@.len() - i,
    {
        let e = ValueEntry {
            path: copy_path(&s[i].path),
            name: copy_u16s(&s[i].name),
            data: copy_value(&s[i].data),
        };
        proof {
            assert(out@.push(e).drop_last() =~= out@);
            assert(s@.take(i + 1).drop_last() =~= s@.take(i as int));
        }
        out.push(e);
        i = i + 1;
    }
    proof {
        assert(s@.take(s@.len() as int) =~= s@);
    }
    out
}

/// The node list without the subtree rooted at `pre`.
pub fn remove_tree_keys(s: &Vec<KeyEntry>, pre: &Vec<Vec<u16>>, include_root: bool) -> (r: Vec<
    KeyEntry,
>)
    ensures
        keys_model(r@) == keys_model(s@).remove_keys(tree_key_set(path_model(*pre), include_root)),
{
    let ghost del = tree_key_set(path_model(*pre), include_root);
    let mut out: Vec<KeyEntry> = Vec::new();
    let mut i: usize = 0;
    while i < s.len()
        invariant
            i <= s@.len(),
            keys_model(out@) == keys_model(s@.take(i as int)).remove_keys(del),
            del == tree_key_set(path_model(*pre), include_root),
        decreases s@.len() - i,
    {
        let hit = is_seg_prefix(pre, &s[i].path) && (include_root || s[i].path.len() > pre.len());
        proof {
            assert(s@.take(i + 1).drop_last() =~= s@.take(i as int));
            assert(del.contains(path_model(s@[i as int].path)) == hit);
        }
        if !hit {
            let e = KeyEntry { path: copy_path(&s[i].path), volatile: s[i].volatile };
            proof {
                assert(out@.push(e).drop_last() =~= out@);
                assert(keys_model(out@).insert(path_model(s@[i as int].path), s@[i as int].volatile)
                    =~= keys_model(s@.take(i + 1)).remove_keys(del));
            }
            out.push(e);
        } else {
            proof {
                assert(keys_model(out@) =~= keys_model(s@.take(i + 1)).remove_keys(del));
            }
        }
        i = i + 1;
    }
    proof {
        assert(s@.take(s@.len() as int) =~= s@);
    }
    out
}

/// The value list without every value of the subtree rooted at `pre`.
pub fn remove_tree_vals(s: &Vec<ValueEntry>, pre: &Vec<Vec<u16>>) -> (r: Vec<ValueEntry>)
    ensures
        vals_model(r@) == vals_model(s@).remove_keys(tree_val_set(path_model(*pre))),
{
    let ghost del = tree_val_set(path_model(*pre));
    let mut out: Vec<ValueEntry> = Vec::new();
    let mut i: usize = 0;
    while i < s.len()
        invariant
            i <= s@.len(),
            vals_model(out@) == vals_model(s@.take(i as int)).remove_keys(del),
            del == tree_val_set(path_model(*pre)),
        decreases s@.len() - i,
    {
        let hit = is_seg_prefix(pre, &s[i].path);
        proof {
            assert(s@.take(i + 1).drop_last() =~= s@.take(i as int));
            assert(del.contains((path_model(s@[i as int].path), s@[i as int].name@)) == hit);
        }
        if !hit {
            let e = ValueEntry {
                path: copy_path(&s[i].path),
                name: copy_u16s(&s[i].name),
                data: copy_value(&s[i].data),
            };
            proof {
                assert(out@.push(e).drop_last() =~= out@);
                assert(vals_model(out@).insert(
                    (path_model(s@[i as int].path), s@[i as int].name@),
                    s@[i as int].data@,
                ) =~= vals_model(s@.take(i + 1)).remove_keys(del));
            }
            out.push(e);
        } else {
            proof {
                assert(vals_model(out@) =~= vals_model(s@.take(i + 1)).remove_keys(del));
            }
        }
        i = i + 1;
    }
    proof {
        assert(s@.take(s@.len() as int) =~= s@);
    }
    out
}

/// The value list without the value named `name` under the node at `p`.
pub fn remove_value_entries(s: &Vec<ValueEntry>, p: &Vec<Vec<u16>>, name: &Vec<u16>) -> (r: Vec<
    ValueEntry,
>)
    ensures
        vals_model(r@) == vals_model(s@).remove((path_model(*p), name@)),
{
    let ghost k = (path_model(*p), name@);
    let mut out: Vec<ValueEntry> = Vec::new();
    let mut i: usize = 0;
    while i < s.len()
        invariant
            i <= s@.len(),
            vals_model(out@) == vals_model(s@.take(i as int)).remove(k),
            k == (path_model(*p), name@),
        decreases s@.len() - i,
    {
        let hit = eq_path(p, &s[i].path) && eq_u16s(name, &s[i].name);
        proof {
            assert(s@.take(i + 1).drop_last() =~= s@.take(i as int));
        }
        if !hit {
            let e = ValueEntry {
                path: copy_path(&s[i].path),
                name: copy_u16s(&s[i].name),
                data: copy_value(&s[i].data),
            };
            proof {
                assert(out@.push(e).drop_last() =~= out@);
                assert(vals_model(out@).insert(
                    (path_model(s@[i as int].path), s@[i as int].name@),
                    s@[i as int].data@,
                ) =~= vals_model(s@.take(i + 1)).remove(k));
            }
            out.push(e);
        } else {
            proof {
                assert(vals_model(out@) =~= vals_model(s@.take(i + 1)).remove(k));
            }
        }
        i = i + 1;
    }
    proof {
        assert(s@.take(s@.len() as int) =~= s@);
    }
    out
}

/// Whether a node list holds a node at `path`.
pub fn keys_contain(keys: &Vec<KeyEntry>, path: &Vec<Vec<u16>>) -> (r: bool)
    ensures
        r == keys_model(keys@).contains_key(path_model(*path)),
{
    proof {
        lemma_keys_model_membership(keys@, path_model(*path));
    }
    let mut i: usize = 0;
    while i < keys.len()
        invariant
            i <= keys@.len(),
            forall|j: int| 0 <= j < i ==> path_model(keys@[j].path) != path_model(*path),
            keys_model(keys@).contains_key(path_model(*path)) <==> (exists|j: int|
                0 <= j < keys@.len() && path_model(keys@[j].path) == path_model(*path)),
        decreases keys@.len() - i,
    {
        if eq_path(&keys[i].path, path) {
            return true;
        }
        i = i + 1;
    }
    false
}

/// The node paths at which this environment refuses to create a node
/// (an access-control decision of the host, modelled as data).
pub open spec fn denied_model(s: Seq<Vec<Vec<u16>>>) -> Set<Seq<Seq<u16>>> {
    Set::new(|p: Seq<Seq<u16>>| exists|i: int| 0 <= i < s.len() && path_model(s[i]) == p)
}

/// Whether the list of refused paths holds `p`.
pub fn denied_contains(s: &Vec<Vec<Vec<u16>>>, p: &Vec<Vec<u16>>) -> (r: bool)
    ensures
        r == denied_model(s@).contains(path_model(*p)),
{
    let mut i: usize = 0;
    while i < s.len()
        invariant
            i <= s@.len(),
            forall|j: int| 0 <= j < i ==> path_model(s@[j]) != path_model(*p),
        decreases s@.len() - i,
    {
        if eq_path(&s[i], p) {
            assert(denied_model(s@).contains(path_model(*p)));
            return true;
        }
        i = i + 1;
    }
    false
}

/// A copy of a refused-path list standing for the same paths.
pub fn copy_denied(s: &Vec<Vec<Vec<u16>>>) -> (r: Vec<Vec<Vec<u16>>>)
    ensures
        denied_model(r@) == denied_model(s@),
{
    let mut out: Vec<Vec<Vec<u16>>> = Vec::new();
    let mut i: usize = 0;
    while i < s.len()
        invariant
            i <= s@.len(),
            out@.len() == i,
            forall|j: int| 0 <= j < i ==> path_model(out@[j]) == path_model(s@[j]),
        decreases s@.len() - i,
    {
        out.push(copy_path(&s[i]));
        i = i + 1;
    }
    proof {
        assert forall|p: Seq<Seq<u16>>|
            denied_model(out@).contains(p) == denied_model(s@).contains(p) by {
            if denied_model(out@).contains(p) {
                let j = choose|j: int| 0 <= j < out@.len() && path_model(out@[j]) == p;
                assert(path_model(s@[j]) == p);
            }
            if denied_model(s@).contains(p) {
                let j = choose|j: int| 0 <= j < s@.len() && path_model(s@[j]) == p;
                assert(path_model(out@[j]) == p);
            }
        }
        assert(denied_model(out@) =~= denied_model(s@));
    }
    out
}

/// The durable configuration store: what the host observes. Edits reach it
/// only through a committed [`crate::registry::Transaction`].
pub struct RegStore {
    pub keys: Vec<KeyEntry>,
    pub vals: Vec<ValueEntry>,
    pub denied: Vec<Vec<Vec<u16>>>,
}

impl RegStore {
    /// Which nodes exist and what values they hold.
    pub open spec fn state(&self) -> StoreState {
        StoreState { keys: keys_model(self.keys@), vals: vals_model(self.vals@) }
    }

    /// The node paths where this store refuses creation.
    pub open spec fn denied_paths(&self) -> Set<Seq<Seq<u16>>> {
        denied_model(self.denied@)
    }

    /// An empty store that refuses nothing.
    pub fn new() -> (r: RegStore)
        ensures
            r.state() == StoreState::empty(),
            r.denied_paths() == Set::<Seq<Seq<u16>>>::empty(),
    {
        let r = RegStore { keys: Vec::new(), vals: Vec::new(), denied: Vec::new() };
        proof {
            assert(r.state() =~= StoreState::empty());
            assert(r.denied_paths() =~= Set::<Seq<Seq<u16>>>::empty());
        }
        r
    }

    /// Refuse, from now on, to create a node at `path`.
    pub fn deny(&mut self, path: Vec<Vec<u16>>)
        ensures
            final(self).state() == old(self).state(),
            final(self).denied_paths() == old(self).denied_paths().insert(path_model(path)),
    {
        self.denied.push(path);
        proof {
            let s = self.denied@;
            let olds = old(self).denied@;
            let p0 = path_model(path);
            assert(s.drop_last() =~= olds);
            assert forall|p: Seq<Seq<u16>>|
                denied_model(s).contains(p) <==> (denied_model(olds).contains(p) || p == p0) by {
                if denied_model(s).contains(p) && p != p0 {
                    let j = choose|j: int| 0 <= j < s.len() && path_model(s[j]) == p;
                    assert(olds[j] == s[j]);
                    assert(path_model(olds[j]) == p);
                }
                if denied_model(olds).contains(p) {
                    let j = choose|j: int| 0 <= j < olds.len() && path_model(olds[j]) == p;
                    assert(path_model(s[j]) == p);
                }
                if p == p0 {
                    assert(path_model(s[s.len() - 1]) == p);
                }
            }
            assert(denied_model(s) =~= denied_model(olds).insert(p0));
        }
    }

    /// Whether a node exists at `path`.
    pub fn key_exists(&self, path: &Vec<Vec<u16>>) -> (r: bool)
        ensures
            r == self.state().keys.contains_key(path_model(*path)),
    {
        keys_contain(&self.keys, path)
    }

    /// The datum stored under the node at `path` with value name `name`,
    /// if the store holds one.
    pub fn get_value(&self, path: &Vec<Vec<u16>>, name: &Vec<u16>) -> (r: Option<RegValue>)
        ensures
            r is Some <==> self.state().vals.contains_key((path_model(*path), name@)),
            r is Some ==> r.unwrap()@ == self.state().vals[(path_model(*path), name@)],
    {
        let ghost k = (path_model(*path), name@);
        let mut i: usize = self.vals.len();
        while i > 0
            invariant
                i <= self.vals@.len(),
                forall|l: int|
                    i <= l < self.vals@.len() ==> (path_model(self.vals@[l].path),
                    self.vals@[l].name@) != k,
                k == (path_model(*path), name@),
            decreases i,
        {
            i = i - 1;
            if eq_path(&self.vals[i].path, path) && eq_u16s(&self.vals[i].name, name) {
                proof {
                    lemma_vals_model_last_match(self.vals@, i as int);
                }
                return Some(copy_value(&self.vals[i].data));
            }
        }
        proof {
            lemma_vals_model_membership(self.vals@, k);
        }
        None
    }
}

} // verus!
