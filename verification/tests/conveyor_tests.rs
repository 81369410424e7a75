use mraphics::render::conveyor::Conveyor;
use mraphics::render::conveyor::ConveyorError;
use mraphics::render::conveyor::GadgetDescriptor;
use mraphics::render::conveyor::GadgetIndex;
use mraphics::render::gpu::BufferBindingType;
use mraphics::render::gpu::BufferUsages;
use mraphics::render::gpu::Device;
use mraphics::render::gpu::Queue;
use mraphics::render::gpu::QueueOp;

fn uniform_desc(label: &str, group: usize, slot: u32, size: u64) -> GadgetDescriptor<'_> {
    GadgetDescriptor {
        label,
        index: GadgetIndex { group_index: group, binding_index: slot },
        size,
        usage: BufferUsages::uniform_copy_dst(),
        ty: BufferBindingType::Uniform,
    }
}

#[test]
fn one_bundle_per_nonempty_group() {
    let mut device = Device::new();
    let mut conveyor = Conveyor::new();
    conveyor.upsert_gadget(&mut device, &uniform_desc("a", 0, 0, 4));
    conveyor.upsert_gadget(&mut device, &uniform_desc("b", 0, 1, 4));
    conveyor.upsert_gadget(&mut device, &uniform_desc("c", 3, 7, 4));
    conveyor.update_bundles();
    assert_eq!(conveyor.bundles.len(), 4);
    assert!(conveyor.bundles[0].is_some());
    assert!(conveyor.bundles[1].is_none());
    assert!(conveyor.bundles[2].is_none());
    assert!(conveyor.bundles[3].is_some());
}

#[test]
fn write_unknown_label_fails() {
    let mut conveyor = Conveyor::new();
    let mut queue = Queue::new();
    let r = conveyor.update_gadget(&mut queue, "never-registered", &[1, 2, 3]);
    assert_eq!(r, Err(ConveyorError::UnknownGadgetLabel));
    let r_empty = conveyor.update_gadget(&mut queue, "never-registered", &[]);
    assert_eq!(r_empty, Err(ConveyorError::UnknownGadgetLabel));
    assert_eq!(queue.ops.len(), 0);
}

#[test]
fn write_unknown_label_fails_even_with_other_resources() {
    let mut device = Device::new();
    let mut conveyor = Conveyor::new();
    let mut queue = Queue::new();
    conveyor.upsert_gadget(&mut device, &uniform_desc("known", 0, 0, 8));
    let r = conveyor.update_gadget(&mut queue, "unknown", &[0]);
    assert_eq!(r, Err(ConveyorError::UnknownGadgetLabel));
}

#[test]
fn reregister_replaces_and_write_reads_back() {
    let mut device = Device::new();
    let mut conveyor = Conveyor::new();
    let mut queue = Queue::new();
    conveyor.upsert_gadget(&mut device, &uniform_desc("buf", 0, 0, 4));
    conveyor
        .update_gadget(&mut queue, "buf", &[9, 9, 9, 9])
        .unwrap();
    // re-register with a different size: the resource is fully replaced
    conveyor.upsert_gadget(&mut device, &uniform_desc("buf", 0, 0, 8));
    let zeroed = conveyor.gadget_data("buf").unwrap();
    assert_eq!(zeroed, &vec![0u8; 8]);
    // a subsequent write followed by a read-back returns exactly the bytes
    conveyor
        .update_gadget(&mut queue, "buf", &[1, 2, 3, 4, 5, 6, 7, 8])
        .unwrap();
    let bytes = conveyor.gadget_data("buf").unwrap();
    assert_eq!(bytes, &vec![1, 2, 3, 4, 5, 6, 7, 8]);
}

#[test]
fn partial_write_keeps_tail() {
    let mut device = Device::new();
    let mut conveyor = Conveyor::new();
    let mut queue = Queue::new();
    conveyor.upsert_gadget(&mut device, &uniform_desc("buf", 0, 0, 4));
    conveyor.update_gadget(&mut queue, "buf", &[7, 7, 7, 7]).unwrap();
    conveyor.update_gadget(&mut queue, "buf", &[1, 2]).unwrap();
    assert_eq!(conveyor.gadget_data("buf").unwrap(), &vec![1, 2, 7, 7]);
}

#[test]
fn dirty_flag_lifecycle() {
    let mut device = Device::new();
    let mut conveyor = Conveyor::new();
    assert!(!conveyor.needs_update);
    conveyor.upsert_gadget(&mut device, &uniform_desc("a", 0, 0, 4));
    assert!(conveyor.needs_update);
    conveyor.update_bundles();
    assert!(!conveyor.needs_update);
    // a registration after a rebuild dirties the registry again
    conveyor.upsert_gadget(&mut device, &uniform_desc("a", 0, 0, 4));
    assert!(conveyor.needs_update);
}

#[test]
fn rebuild_orders_slots_and_binds_groups_in_order() {
    // register A@(0,0), B@(0,1), C@(1,0)
    let mut device = Device::new();
    let mut conveyor = Conveyor::new();
    conveyor.upsert_gadget(&mut device, &uniform_desc("A", 0, 0, 4));
    conveyor.upsert_gadget(&mut device, &uniform_desc("B", 0, 1, 4));
    conveyor.upsert_gadget(&mut device, &uniform_desc("C", 1, 0, 4));
    conveyor.update_bundles();

    // bundles present for group 0 (containing A and B) and group 1 (containing C)
    assert_eq!(conveyor.bundles.len(), 2);
    let g0 = conveyor.bundles[0].as_ref().unwrap();
    let labels0: Vec<&str> = g0.bind_group.entries.iter().map(|e| e.label.as_str()).collect();
    assert_eq!(labels0, vec!["A", "B"]);
    let bindings0: Vec<u32> = g0.bind_group_layout.entries.iter().map(|e| e.binding).collect();
    assert_eq!(bindings0, vec![0, 1]);
    let g1 = conveyor.bundles[1].as_ref().unwrap();
    let labels1: Vec<&str> = g1.bind_group.entries.iter().map(|e| e.label.as_str()).collect();
    assert_eq!(labels1, vec!["C"]);

    // bind(pass) invokes group 0 before group 1
    let mut queue = Queue::new();
    conveyor.attach_bundles(&mut queue);
    assert_eq!(queue.ops.len(), 2);
    match &queue.ops[0] {
        QueueOp::SetBindGroup { group, .. } => assert_eq!(*group, 0),
        other => panic!("expected a bind command, got {:?}", other),
    }
    match &queue.ops[1] {
        QueueOp::SetBindGroup { group, .. } => assert_eq!(*group, 1),
        other => panic!("expected a bind command, got {:?}", other),
    }
}

#[test]
fn later_registration_of_same_slot_wins() {
    let mut device = Device::new();
    let mut conveyor = Conveyor::new();
    conveyor.upsert_gadget(&mut device, &uniform_desc("first", 0, 0, 4));
    conveyor.upsert_gadget(&mut device, &uniform_desc("second", 0, 0, 4));
    conveyor.update_bundles();
    let g0 = conveyor.bundles[0].as_ref().unwrap();
    assert_eq!(g0.bind_group.entries.len(), 1);
    assert_eq!(g0.bind_group.entries[0].label, "second");
}

#[test]
fn collect_flattens_bundle_index_major() {
    let mut device = Device::new();
    let mut shared = Conveyor::new();
    shared.upsert_gadget(&mut device, &uniform_desc("view", 0, 0, 64));
    shared.update_bundles();
    let mut geo = Conveyor::new();
    geo.upsert_gadget(&mut device, &uniform_desc("position", 1, 0, 12));
    geo.update_bundles();

    let layouts = Conveyor::collect_bind_group_layouts(vec![&shared.bundles, &geo.bundles]);
    // index 0: only the shared registry has a bundle; index 1: only the
    // per-geometry registry has one
    assert_eq!(layouts.len(), 2);
    assert_eq!(layouts[0].entries.len(), 1);
    assert_eq!(layouts[0].entries[0].binding, 0);
    assert_eq!(layouts[1].entries.len(), 1);
    assert_eq!(layouts[1].entries[0].binding, 0);
}

#[test]
fn fresh_buffers_get_distinct_identities() {
    let mut device = Device::new();
    let mut conveyor = Conveyor::new();
    conveyor.upsert_gadget(&mut device, &uniform_desc("a", 0, 0, 4));
    conveyor.upsert_gadget(&mut device, &uniform_desc("b", 0, 1, 4));
    assert_eq!(device.next_buffer_id, 2);
    assert_eq!(device.created.len(), 2);
    assert_eq!(device.created[0].label, "a");
    assert_eq!(device.created[0].id, 0);
    assert_eq!(device.created[1].label, "b");
    assert_eq!(device.created[1].id, 1);
}
