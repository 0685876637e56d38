use comreg::class_factory::{
    iid_iclassfactory_guid, iid_iunknown_guid, ClassFactory, DispatchTable, Instance, OutSlot,
    ServerLocks,
};
use comreg::com::{ComError, Guid};

fn widget_clsid() -> Guid {
    Guid { data1: 0x11223344, data2: 0x5566, data3: 0x7788, data4: 0x99aabbccddeeff00 }
}

fn widget_iid() -> Guid {
    Guid { data1: 0xfeedbeef, data2: 0x0102, data3: 0x0304, data4: 0x05060708090a0b0c }
}

fn table() -> DispatchTable {
    let mut t = DispatchTable::new();
    t.add_class(widget_clsid(), vec![iid_iunknown_guid(), widget_iid()]);
    t
}

#[test]
fn lock_counter_balances_to_zero() {
    let locks_owner = ServerLocks::new();
    let mut locks = locks_owner;
    let factory = ClassFactory::new(widget_clsid(), vec![widget_iid()]);
    assert!(ClassFactory::can_unload_now(&locks));
    for _ in 0..5 {
        assert!(factory.lock_server(&mut locks, true).is_ok());
    }
    for _ in 0..4 {
        assert!(factory.lock_server(&mut locks, false).is_ok());
    }
    assert!(!ClassFactory::can_unload_now(&locks));
    assert!(factory.lock_server(&mut locks, false).is_ok());
    assert!(ClassFactory::can_unload_now(&locks));
}

#[test]
fn lock_counter_release_saturates_at_zero() {
    let mut locks = ServerLocks::new();
    let factory = ClassFactory::new(widget_clsid(), vec![]);
    assert!(factory.lock_server(&mut locks, false).is_ok());
    assert!(ClassFactory::can_unload_now(&locks));
    assert!(factory.lock_server(&mut locks, true).is_ok());
    assert!(!ClassFactory::can_unload_now(&locks));
}

#[test]
fn unknown_class_is_not_available() {
    let t = table();
    let missing = Guid { data1: 0xdead, data2: 0, data3: 0, data4: 1 };
    let mut slot: OutSlot<ClassFactory> = OutSlot::Filled(ClassFactory::new(missing, vec![]));
    let r = t.get_class_object(Some(&missing), Some(&iid_iclassfactory_guid()), &mut slot);
    assert_eq!(r, Err(ComError::ClassNotAvailable));
    assert!(matches!(slot, OutSlot::Null));
}

#[test]
fn missing_slot_is_invalid_pointer() {
    let t = table();
    let mut slot: OutSlot<ClassFactory> = OutSlot::Missing;
    let r = t.get_class_object(
        Some(&widget_clsid()),
        Some(&iid_iclassfactory_guid()),
        &mut slot,
    );
    assert_eq!(r, Err(ComError::InvalidPointer));
    assert!(matches!(slot, OutSlot::Missing));
}

#[test]
fn missing_clsid_or_iid_is_invalid_pointer() {
    let t = table();
    let mut slot: OutSlot<ClassFactory> = OutSlot::Null;
    assert_eq!(
        t.get_class_object(None, Some(&iid_iunknown_guid()), &mut slot),
        Err(ComError::InvalidPointer)
    );
    assert!(matches!(slot, OutSlot::Null));
    assert_eq!(
        t.get_class_object(Some(&widget_clsid()), None, &mut slot),
        Err(ComError::InvalidPointer)
    );
    assert!(matches!(slot, OutSlot::Null));
}

#[test]
fn factory_requires_broker_interface() {
    let t = table();
    let mut slot: OutSlot<ClassFactory> = OutSlot::Null;
    let r = t.get_class_object(Some(&widget_clsid()), Some(&widget_iid()), &mut slot);
    assert_eq!(r, Err(ComError::NoInterface));
    assert!(matches!(slot, OutSlot::Null));
}

#[test]
fn activation_yields_instance_of_requested_interface() {
    let t = table();
    let mut slot: OutSlot<ClassFactory> = OutSlot::Null;
    let r = t.get_class_object(
        Some(&widget_clsid()),
        Some(&iid_iclassfactory_guid()),
        &mut slot,
    );
    assert!(r.is_ok());
    let factory = match slot {
        OutSlot::Filled(f) => f,
        _ => panic!("expected a factory in the slot"),
    };
    assert_eq!(factory.clsid, widget_clsid());

    let mut obj_slot: OutSlot<Instance> = OutSlot::Null;
    let r = factory.create_instance(None, Some(&widget_iid()), &mut obj_slot);
    assert!(r.is_ok());
    match obj_slot {
        OutSlot::Filled(inst) => {
            assert_eq!(inst.clsid, widget_clsid());
            assert_eq!(inst.iid, widget_iid());
        },
        _ => panic!("expected an instance in the slot"),
    }
}

#[test]
fn aggregation_is_refused_and_slot_cleared() {
    let factory = ClassFactory::new(widget_clsid(), vec![widget_iid()]);
    let outer = Instance { clsid: widget_clsid(), iid: widget_iid() };
    let previous = Instance { clsid: widget_clsid(), iid: iid_iunknown_guid() };
    let mut obj_slot: OutSlot<Instance> = OutSlot::Filled(previous);
    let r = factory.create_instance(Some(&outer), Some(&widget_iid()), &mut obj_slot);
    assert_eq!(r, Err(ComError::NoAggregation));
    // The slot was cleared before the outer object was even examined: no
    // stale instance stays visible after a failure.
    assert!(matches!(obj_slot, OutSlot::Null));
}

#[test]
fn unsupported_instance_interface_clears_slot() {
    let factory = ClassFactory::new(widget_clsid(), vec![widget_iid()]);
    let previous = Instance { clsid: widget_clsid(), iid: iid_iunknown_guid() };
    let mut obj_slot: OutSlot<Instance> = OutSlot::Filled(previous);
    let r = factory.create_instance(None, Some(&iid_iclassfactory_guid()), &mut obj_slot);
    assert_eq!(r, Err(ComError::NoInterface));
    assert!(matches!(obj_slot, OutSlot::Null));
}

#[test]
fn create_instance_checks_pointers() {
    let factory = ClassFactory::new(widget_clsid(), vec![widget_iid()]);
    let mut obj_slot: OutSlot<Instance> = OutSlot::Missing;
    assert_eq!(
        factory.create_instance(None, Some(&widget_iid()), &mut obj_slot),
        Err(ComError::InvalidPointer)
    );
    let previous = Instance { clsid: widget_clsid(), iid: iid_iunknown_guid() };
    let mut present: OutSlot<Instance> = OutSlot::Filled(previous);
    assert_eq!(
        factory.create_instance(None, None, &mut present),
        Err(ComError::InvalidPointer)
    );
    // A present slot is cleared even when the interface pointer is null.
    assert!(matches!(present, OutSlot::Null));
}
