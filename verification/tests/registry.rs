use comreg::com::{ComError, Guid, GuidExt};
use comreg::registry::{
    register_class, unregister_class, Key, NullTerminatedSlice, Transaction,
};
use comreg::store::{RegStore, RegValue};

fn w(s: &str) -> Vec<u16> {
    s.encode_utf16().collect()
}

fn path(segs: &[&str]) -> Vec<Vec<u16>> {
    segs.iter().map(|s| w(s)).collect()
}

fn widget_clsid() -> Guid {
    Guid { data1: 0x12345678, data2: 0x9abc, data3: 0xdef0, data4: 0x123456789abcdef0 }
}

fn widget_id_str() -> &'static str {
    "{12345678-9abc-def0-1234-56789abcdef0}"
}

fn server_path_chars() -> Vec<u16> {
    let mut v = w("C:\\modules\\widget.dll");
    v.push(0);
    v
}

fn register_widget(txn: &mut Transaction, classes: &Key) -> Result<Key, ComError> {
    let sp = server_path_chars();
    let nts = NullTerminatedSlice::new(&sp).unwrap();
    register_class(
        txn,
        classes,
        widget_clsid(),
        &w("Vendor.Widget.1"),
        &w("Vendor.Widget"),
        nts,
        &w("A sample widget"),
        &w("Both"),
    )
}

#[test]
fn register_commit_read_back() {
    let mut store = RegStore::new();
    let mut txn = Transaction::new(&store, w("install"), false).unwrap();
    let classes = Key::predefined(&mut txn, &path(&["Software", "Classes"])).unwrap();
    let com_object = register_widget(&mut txn, &classes).unwrap();
    assert_eq!(com_object.path, path(&["Software", "Classes", "CLSID", widget_id_str()]));
    txn.commit(&mut store).unwrap();

    let inproc = path(&["Software", "Classes", "CLSID", widget_id_str(), "InprocServer32"]);
    assert_eq!(
        store.get_value(&inproc, &w("")),
        Some(RegValue::Str(w("C:\\modules\\widget.dll")))
    );
    assert_eq!(
        store.get_value(&inproc, &w("ThreadingModel")),
        Some(RegValue::Str(w("Both")))
    );
    let alias = path(&["Software", "Classes", "Vendor.Widget.1", "CLSID"]);
    assert_eq!(
        store.get_value(&alias, &w("")),
        Some(RegValue::Str(widget_clsid().to_wide()))
    );
    let com_path = path(&["Software", "Classes", "CLSID", widget_id_str()]);
    assert_eq!(
        store.get_value(&com_path, &w("")),
        Some(RegValue::Str(w("A sample widget")))
    );
    let prog_node = path(&["Software", "Classes", "CLSID", widget_id_str(), "ProgId"]);
    assert_eq!(store.get_value(&prog_node, &w("")), Some(RegValue::Str(w("Vendor.Widget.1"))));
    let vip_node = path(
        &["Software", "Classes", "CLSID", widget_id_str(), "VersionIndependentProgId"],
    );
    assert_eq!(store.get_value(&vip_node, &w("")), Some(RegValue::Str(w("Vendor.Widget"))));
}

#[test]
fn unregister_twice_is_ok_and_leaves_no_trace() {
    let mut store = RegStore::new();
    let mut txn = Transaction::new(&store, w("install"), false).unwrap();
    let classes = Key::predefined(&mut txn, &path(&["Software", "Classes"])).unwrap();
    register_widget(&mut txn, &classes).unwrap();
    txn.commit(&mut store).unwrap();

    let mut txn2 = Transaction::new(&store, w("uninstall"), false).unwrap();
    let classes2 = Key::predefined(&mut txn2, &path(&["Software", "Classes"])).unwrap();
    let first = unregister_class(
        &mut txn2,
        &classes2,
        widget_clsid(),
        &w("Vendor.Widget.1"),
        &w("Vendor.Widget"),
    );
    assert_eq!(first, Ok(()));
    let second = unregister_class(
        &mut txn2,
        &classes2,
        widget_clsid(),
        &w("Vendor.Widget.1"),
        &w("Vendor.Widget"),
    );
    assert_eq!(second, Ok(()));
    txn2.commit(&mut store).unwrap();

    assert!(!store.key_exists(&path(&["Software", "Classes", "CLSID", widget_id_str()])));
    assert!(!store.key_exists(&path(&["Software", "Classes", "Vendor.Widget.1"])));
    assert!(!store.key_exists(&path(&["Software", "Classes", "Vendor.Widget"])));
    assert_eq!(
        store.get_value(
            &path(&["Software", "Classes", "CLSID", widget_id_str(), "InprocServer32"]),
            &w(""),
        ),
        None
    );
    // The shared container stays: other classes may still live under it.
    assert!(store.key_exists(&path(&["Software", "Classes", "CLSID"])));
}

#[test]
fn failed_registration_leaves_nothing_observable() {
    let mut store = RegStore::new();
    // Deny a node that registration only reaches after several edits.
    store.deny(path(&["Software", "Classes", "Vendor.Widget.1"]));
    let mut txn = Transaction::new(&store, w("install"), false).unwrap();
    let classes = Key::predefined(&mut txn, &path(&["Software", "Classes"])).unwrap();
    let r = register_widget(&mut txn, &classes);
    assert!(matches!(r, Err(ComError::AccessDenied)));
    // The transaction is dropped without commit: full rollback.
    drop(txn);
    assert!(!store.key_exists(&path(&["Software", "Classes", "CLSID"])));
    assert!(!store.key_exists(&path(&["Software", "Classes", "CLSID", widget_id_str()])));
    assert_eq!(
        store.get_value(
            &path(&["Software", "Classes", "CLSID", widget_id_str()]),
            &w(""),
        ),
        None
    );
}

#[test]
fn commit_twice_is_illegal_state() {
    let mut store = RegStore::new();
    let mut txn = Transaction::new(&store, w("t"), false).unwrap();
    Key::predefined(&mut txn, &path(&["Software"])).unwrap();
    assert_eq!(txn.commit(&mut store), Ok(()));
    assert_eq!(txn.commit(&mut store), Err(ComError::IllegalState));
}

#[test]
fn edits_after_commit_are_refused() {
    let mut store = RegStore::new();
    let mut txn = Transaction::new(&store, w("t"), false).unwrap();
    let k = Key::predefined(&mut txn, &path(&["Root"])).unwrap();
    txn.commit(&mut store).unwrap();
    assert_eq!(k.set_u32(&mut txn, &w("X"), 1), Err(ComError::IllegalState));
    assert!(matches!(k.create_subkey(&mut txn, &w("Child")), Err(ComError::IllegalState)));
    assert_eq!(k.delete_tree(&mut txn), Err(ComError::IllegalState));
}

#[test]
fn uncommitted_edits_are_discarded() {
    let mut store = RegStore::new();
    let mut txn = Transaction::new(&store, w("t"), false).unwrap();
    let k = Key::predefined(&mut txn, &path(&["Software", "Widget"])).unwrap();
    k.set_u32(&mut txn, &w("Flag"), 7).unwrap();
    drop(txn);
    assert!(!store.key_exists(&path(&["Software", "Widget"])));
    assert_eq!(store.get_value(&path(&["Software", "Widget"]), &w("Flag")), None);
}

#[test]
fn typed_values_round_trip() {
    let mut store = RegStore::new();
    let mut txn = Transaction::new(&store, w("t"), false).unwrap();
    let k = Key::predefined(&mut txn, &path(&["Node"])).unwrap();
    k.set_u32(&mut txn, &w("A"), 0xdeadbeef).unwrap();
    k.set_u64(&mut txn, &w("B"), 0x1122334455667788).unwrap();
    k.set_binary(&mut txn, &w("C"), &vec![1u8, 2, 3]).unwrap();
    k.set_str_expand(&mut txn, &w("D"), &w("%SystemRoot%\\x")).unwrap();
    k.set_guid(&mut txn, &w("E"), &widget_clsid()).unwrap();
    txn.commit(&mut store).unwrap();
    let p = path(&["Node"]);
    assert_eq!(store.get_value(&p, &w("A")), Some(RegValue::U32(0xdeadbeef)));
    assert_eq!(store.get_value(&p, &w("B")), Some(RegValue::U64(0x1122334455667788)));
    assert_eq!(store.get_value(&p, &w("C")), Some(RegValue::Binary(vec![1u8, 2, 3])));
    assert_eq!(store.get_value(&p, &w("D")), Some(RegValue::ExpandStr(w("%SystemRoot%\\x"))));
    assert_eq!(store.get_value(&p, &w("E")), Some(RegValue::Str(widget_clsid().to_wide())));
}

#[test]
fn writing_the_same_value_name_twice_keeps_the_last_datum() {
    let mut store = RegStore::new();
    let mut txn = Transaction::new(&store, w("t"), false).unwrap();
    let k = Key::predefined(&mut txn, &path(&["Node"])).unwrap();
    k.set_u32(&mut txn, &w("A"), 1).unwrap();
    k.set_u32(&mut txn, &w("A"), 2).unwrap();
    txn.commit(&mut store).unwrap();
    assert_eq!(store.get_value(&path(&["Node"]), &w("A")), Some(RegValue::U32(2)));
}

#[test]
fn value_deletion_is_idempotent_and_null_clears() {
    let mut store = RegStore::new();
    let mut txn = Transaction::new(&store, w("t"), false).unwrap();
    let k = Key::predefined(&mut txn, &path(&["Node"])).unwrap();
    k.set_pcwstr(&mut txn, &w("V"), Some(&w("hello"))).unwrap();
    k.set_pcwstr(&mut txn, &w("V"), None).unwrap();
    k.delete_value(&mut txn, &w("V")).unwrap();
    k.delete_value(&mut txn, &w("Absent")).unwrap();
    txn.commit(&mut store).unwrap();
    assert_eq!(store.get_value(&path(&["Node"]), &w("V")), None);
}

#[test]
fn delete_subkey_is_idempotent_and_recursive() {
    let mut store = RegStore::new();
    let mut txn = Transaction::new(&store, w("t"), false).unwrap();
    let root = Key::predefined(&mut txn, &path(&["Root"])).unwrap();
    let child = root.create_subkey(&mut txn, &w("Child")).unwrap();
    let grand = child.create_subkey(&mut txn, &w("Grand")).unwrap();
    grand.set_u32(&mut txn, &w("X"), 1).unwrap();
    root.delete_subkey(&mut txn, &path(&["Child"])).unwrap();
    // Deleting it again: absence is success.
    root.delete_subkey(&mut txn, &path(&["Child"])).unwrap();
    txn.commit(&mut store).unwrap();
    assert!(store.key_exists(&path(&["Root"])));
    assert!(!store.key_exists(&path(&["Root", "Child"])));
    assert!(!store.key_exists(&path(&["Root", "Child", "Grand"])));
    assert_eq!(store.get_value(&path(&["Root", "Child", "Grand"]), &w("X")), None);
}

#[test]
fn delete_tree_keeps_the_node_itself() {
    let mut store = RegStore::new();
    let mut txn = Transaction::new(&store, w("t"), false).unwrap();
    let root = Key::predefined(&mut txn, &path(&["Root"])).unwrap();
    root.set_u32(&mut txn, &w("X"), 1).unwrap();
    root.create_subkey(&mut txn, &w("Child")).unwrap();
    root.delete_tree(&mut txn).unwrap();
    txn.commit(&mut store).unwrap();
    assert!(store.key_exists(&path(&["Root"])));
    assert!(!store.key_exists(&path(&["Root", "Child"])));
    assert_eq!(store.get_value(&path(&["Root"]), &w("X")), None);
}

#[test]
fn open_subkey_requires_existence() {
    let mut store = RegStore::new();
    let mut txn = Transaction::new(&store, w("t"), false).unwrap();
    let root = Key::predefined(&mut txn, &path(&["Root"])).unwrap();
    root.create_subkey(&mut txn, &w("Present")).unwrap();
    let opened = root.open_subkey(&txn, &w("Present"));
    assert!(opened.is_ok());
    assert_eq!(opened.unwrap().path, path(&["Root", "Present"]));
    let missing = root.open_subkey(&txn, &w("Absent"));
    assert!(matches!(missing, Err(ComError::NotFound)));
}

#[test]
fn volatility_policy_marks_created_nodes() {
    let mut store = RegStore::new();
    let mut txn = Transaction::new(&store, w("t"), true).unwrap();
    Key::predefined(&mut txn, &path(&["Ephemeral"])).unwrap();
    txn.commit(&mut store).unwrap();
    let expected = path(&["Ephemeral"]);
    let entry = store.keys.iter().find(|e| e.path == expected).unwrap();
    assert!(entry.volatile);
}

#[test]
fn null_terminated_slice_accepts_only_terminated_input() {
    let with_nul: Vec<u16> = vec![65, 66, 0];
    let nts = NullTerminatedSlice::new(&with_nul);
    assert!(nts.is_some());
    assert_eq!(nts.unwrap().as_slice(), with_nul.as_slice());
    let without: Vec<u16> = vec![65, 66];
    assert!(NullTerminatedSlice::new(&without).is_none());
    let empty: Vec<u16> = vec![];
    assert!(NullTerminatedSlice::new(&empty).is_none());
}
