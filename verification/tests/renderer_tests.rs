use mraphics::geometry::Attribute;
use mraphics::geometry::Geometry;
use mraphics::geometry::Mesh;
use mraphics::material::BasicMaterial;
use mraphics::render::Renderer;
use mraphics::render::conveyor::GadgetIndex;
use mraphics::render::gpu::Queue;
use mraphics::render::gpu::QueueOp;
use mraphics::render::gpu::TextureFormat;
use mraphics::scene::Scene;

fn position_attribute(bytes: Vec<u8>) -> Attribute {
    Attribute {
        label: String::from("mraphics-position-attribute"),
        index: GadgetIndex { group_index: 1, binding_index: 0 },
        data: bytes,
        needs_update_value: true,
        needs_update_buffer: true,
    }
}

fn mesh_with_geometry(identity: &str, matrix_byte: u8) -> Mesh {
    let mut geometry = Geometry::with_id_prefix(String::from(identity));
    geometry.attributes_mut().push(position_attribute(vec![1; 36]));
    let mut mesh = Mesh::new(geometry, &BasicMaterial {});
    mesh.matrix_data = vec![matrix_byte; 64];
    mesh
}

fn writes_of(queue: &Queue, buffer_id: u64) -> Vec<(usize, Vec<u8>)> {
    let mut out = Vec::new();
    for (i, op) in queue.ops.iter().enumerate() {
        if let QueueOp::WriteBuffer { buffer_id: id, data } = op {
            if *id == buffer_id {
                out.push((i, data.clone()));
            }
        }
    }
    out
}

fn draws_of(queue: &Queue) -> Vec<(usize, u32)> {
    let mut out = Vec::new();
    for (i, op) in queue.ops.iter().enumerate() {
        if let QueueOp::Draw { vertices } = op {
            out.push((i, *vertices));
        }
    }
    out
}

#[test]
fn constructor_registers_the_shared_matrices() {
    let renderer = Renderer::new(TextureFormat(1));
    assert_eq!(renderer.surface_width, 100);
    assert_eq!(renderer.surface_height, 100);
    assert_eq!(renderer.device.created.len(), 3);
    assert_eq!(renderer.device.created[0].label, "mraphics-view-mat");
    assert_eq!(renderer.device.created[1].label, "mraphics-projection-mat");
    assert_eq!(renderer.device.created[2].label, "mraphics-model-mat");
    assert!(renderer.shared_conveyor.has_gadget("mraphics-view-mat"));
    assert!(renderer.shared_conveyor.needs_update);
}

#[test]
fn resize_records_the_new_target_size() {
    let mut renderer = Renderer::new(TextureFormat(1));
    renderer.resize(640, 480);
    assert_eq!(renderer.surface_width, 640);
    assert_eq!(renderer.surface_height, 480);
}

#[test]
fn sibling_meshes_share_a_registry_but_not_a_transform() {
    // two sibling meshes share one geometry identity
    let mut renderer = Renderer::new(TextureFormat(1));
    let mut scene = Scene::new();
    scene.add_mesh(mesh_with_geometry("shared-geometry", 11));
    scene.add_mesh(mesh_with_geometry("shared-geometry", 22));
    let view = [1u8; 64];
    let proj = [2u8; 64];
    let queue = renderer.render(&mut scene, &view, &proj).unwrap();

    // the pool returns the same per-geometry registry for both
    assert_eq!(renderer.conveyor_manager.conveyor_pool.len(), 1);

    // each mesh's draw writes its own model matrix (buffer 2, from the
    // constructor's registration order) right before its own draw call
    let model_writes = writes_of(&queue, 2);
    let draws = draws_of(&queue);
    assert_eq!(model_writes.len(), 2);
    assert_eq!(draws.len(), 2);
    assert_eq!(model_writes[0].1, vec![11u8; 64]);
    assert_eq!(model_writes[1].1, vec![22u8; 64]);
    assert!(model_writes[0].0 < draws[0].0);
    assert!(draws[0].0 < model_writes[1].0);
    assert!(model_writes[1].0 < draws[1].0);

    // 36 bytes of position data make 9 vertices
    assert_eq!(draws[0].1, 9);
    assert_eq!(draws[1].1, 9);
}

#[test]
fn camera_writes_open_the_frame() {
    let mut renderer = Renderer::new(TextureFormat(1));
    let mut scene = Scene::new();
    let view = [3u8; 64];
    let proj = [4u8; 64];
    let queue = renderer.render(&mut scene, &view, &proj).unwrap();
    assert_eq!(queue.ops.len(), 2);
    match &queue.ops[0] {
        QueueOp::WriteBuffer { buffer_id, data } => {
            assert_eq!(*buffer_id, 0);
            assert_eq!(data, &vec![3u8; 64]);
        },
        other => panic!("expected the view write, got {:?}", other),
    }
    match &queue.ops[1] {
        QueueOp::WriteBuffer { buffer_id, data } => {
            assert_eq!(*buffer_id, 1);
            assert_eq!(data, &vec![4u8; 64]);
        },
        other => panic!("expected the projection write, got {:?}", other),
    }
}

#[test]
fn second_frame_reuses_buffers_and_pipeline() {
    let mut renderer = Renderer::new(TextureFormat(1));
    let mut scene = Scene::new();
    scene.add_mesh(mesh_with_geometry("geometry-a", 5));
    let view = [0u8; 64];
    let proj = [0u8; 64];
    renderer.render(&mut scene, &view, &proj).unwrap();
    let buffers_after_first = renderer.device.next_buffer_id;
    let pipelines_after_first = renderer.pipeline_manager.next_pipeline_id;
    // the first frame cleared the attribute flags
    assert!(!scene.get_mesh(0).geometry.attributes()[0].needs_update_buffer);
    assert!(!scene.get_mesh(0).geometry.attributes()[0].needs_update_value);

    let queue = renderer.render(&mut scene, &view, &proj).unwrap();
    // nothing was reallocated and no pipeline was recompiled
    assert_eq!(renderer.device.next_buffer_id, buffers_after_first);
    assert_eq!(renderer.pipeline_manager.next_pipeline_id, pipelines_after_first);
    // and the clean frame still binds and draws
    assert_eq!(draws_of(&queue).len(), 1);
}

#[test]
fn upload_under_unregistered_label_is_refused() {
    let mut renderer = Renderer::new(TextureFormat(1));
    let mut scene = Scene::new();
    let mut geometry = Geometry::with_id_prefix(String::from("geometry-x"));
    let mut attribute = position_attribute(vec![1; 12]);
    attribute.needs_update_buffer = false;  // upload without an allocation
    geometry.attributes_mut().push(attribute);
    let mut mesh = Mesh::new(geometry, &BasicMaterial {});
    mesh.matrix_data = vec![0; 64];
    scene.add_mesh(mesh);

    let view = [0u8; 64];
    let proj = [0u8; 64];
    let result = renderer.render(&mut scene, &view, &proj);
    assert!(result.is_err());
    // the refused mesh changed nothing: no registry was pooled and the
    // flags are still set
    assert_eq!(renderer.conveyor_manager.conveyor_pool.len(), 0);
    assert!(scene.get_mesh(0).geometry.attributes()[0].needs_update_value);
}

#[test]
fn frame_command_order_per_mesh() {
    let mut renderer = Renderer::new(TextureFormat(1));
    let mut scene = Scene::new();
    scene.add_mesh(mesh_with_geometry("geometry-a", 9));
    let view = [0u8; 64];
    let proj = [0u8; 64];
    let queue = renderer.render(&mut scene, &view, &proj).unwrap();
    // view write, projection write, model write, position upload, shared
    // bind, geometry bind, pipeline, draw
    assert_eq!(queue.ops.len(), 8);
    assert!(matches!(queue.ops[0], QueueOp::WriteBuffer { buffer_id: 0, .. }));
    assert!(matches!(queue.ops[1], QueueOp::WriteBuffer { buffer_id: 1, .. }));
    assert!(matches!(queue.ops[2], QueueOp::WriteBuffer { buffer_id: 2, .. }));
    assert!(matches!(queue.ops[3], QueueOp::WriteBuffer { buffer_id: 3, .. }));
    assert!(matches!(queue.ops[4], QueueOp::SetBindGroup { group: 0, .. }));
    assert!(matches!(queue.ops[5], QueueOp::SetBindGroup { group: 1, .. }));
    assert!(matches!(queue.ops[6], QueueOp::SetPipeline { .. }));
    assert!(matches!(queue.ops[7], QueueOp::Draw { vertices: 9 }));
}
