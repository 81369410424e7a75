use mraphics::render::ConveyorManager;
use mraphics::render::conveyor::GadgetDescriptor;
use mraphics::render::conveyor::GadgetIndex;
use mraphics::render::gpu::BufferBindingType;
use mraphics::render::gpu::BufferUsages;
use mraphics::render::gpu::Device;

fn desc(label: &str) -> GadgetDescriptor<'_> {
    GadgetDescriptor {
        label,
        index: GadgetIndex { group_index: 0, binding_index: 0 },
        size: 4,
        usage: BufferUsages::storage_copy_dst(),
        ty: BufferBindingType::Storage { read_only: true },
    }
}

#[test]
fn same_key_returns_same_registry() {
    let mut device = Device::new();
    let mut pool = ConveyorManager::new();
    // first acquire creates the registry; work done through it persists
    let first = pool.acquire_attr_conveyor("geometry-0");
    first.upsert_gadget(&mut device, &desc("position"));
    assert_eq!(pool.len(), 1);
    // the second acquire under the same key hands out the same instance
    let again = pool.acquire_attr_conveyor("geometry-0");
    assert!(again.has_gadget("position"));
    assert_eq!(pool.len(), 1);
}

#[test]
fn distinct_keys_get_distinct_registries() {
    let mut device = Device::new();
    let mut pool = ConveyorManager::new();
    pool.acquire_attr_conveyor("geometry-0").upsert_gadget(&mut device, &desc("position"));
    let other = pool.acquire_attr_conveyor("geometry-1");
    // a distinct key yields a distinct, fresh registry
    assert!(!other.has_gadget("position"));
    assert_eq!(pool.len(), 2);
    // both entries persist for the pool's lifetime
    assert!(pool.get_conveyor("geometry-0").is_some());
    assert!(pool.get_conveyor("geometry-1").is_some());
    assert!(pool.get_conveyor("geometry-2").is_none());
}

#[test]
fn entries_are_never_evicted() {
    let mut pool = ConveyorManager::new();
    for k in 0..16 {
        let key = format!("geometry-{}", k);
        pool.acquire_attr_conveyor(key.as_str());
    }
    assert_eq!(pool.len(), 16);
    for k in 0..16 {
        let key = format!("geometry-{}", k);
        pool.acquire_attr_conveyor(key.as_str());
    }
    assert_eq!(pool.len(), 16);
}
