use mraphics::geometry::Attribute;
use mraphics::geometry::Geometry;
use mraphics::geometry::Mesh;
use mraphics::material::BasicMaterial;
use mraphics::material::CapturedMaterial;
use mraphics::material::Material;
use mraphics::node::Node;
use mraphics::render::conveyor::GadgetIndex;
use mraphics::scene::Scene;
use mraphics::timeline::TimelineState;

#[test]
fn geometry_identity_and_vertex_count() {
    let mut geometry = Geometry::with_id_prefix(String::from("cube-7"));
    assert_eq!(geometry.identifier(), "cube-7");
    geometry.attributes_mut().push(Attribute {
        label: String::from("position"),
        index: GadgetIndex { group_index: 1, binding_index: 0 },
        data: vec![0; 24],
        needs_update_value: true,
        needs_update_buffer: true,
    });
    // four bytes per entry: 24 bytes make 6 vertices
    assert_eq!(geometry.indices(), 6);
    assert_eq!(geometry.attributes().len(), 1);
}

#[test]
fn fresh_geometry_is_empty() {
    let geometry = Geometry::new();
    assert_eq!(geometry.identifier(), "");
    assert_eq!(geometry.attributes().len(), 0);
}

#[test]
fn mesh_captures_the_material_capability() {
    let mesh = Mesh::new(Geometry::with_id_prefix(String::from("g")), &BasicMaterial {});
    assert_eq!(mesh.material.identifier, "Mraphics Basic Materil");
    assert!(mesh.material.shader_code.contains("@fragment"));
    assert_eq!(mesh.matrix_data, vec![0u8; 64]);
}

#[test]
fn captured_material_hands_back_its_values() {
    let material = CapturedMaterial {
        identifier: String::from("night"),
        shader_code: String::from("// night"),
    };
    assert_eq!(material.identifier(), "night");
    assert_eq!(material.shader_code(), "// night");
}

#[test]
fn scene_keeps_meshes_under_stable_indices() {
    let mut scene = Scene::new();
    let a = scene.add_mesh(Mesh::new(
        Geometry::with_id_prefix(String::from("a")),
        &BasicMaterial {},
    ));
    let b = scene.add_mesh(Mesh::new(
        Geometry::with_id_prefix(String::from("b")),
        &BasicMaterial {},
    ));
    assert_eq!(a, 0);
    assert_eq!(b, 1);
    assert_eq!(scene.len(), 2);
    assert_eq!(scene.get_mesh(0).geometry.identifier(), "a");
    assert_eq!(scene.get_mesh(1).geometry.identifier(), "b");
    scene.get_mesh_mut(1).matrix_data = vec![9; 64];
    assert_eq!(scene.get_mesh(1).matrix_data, vec![9u8; 64]);
}

#[test]
fn node_starts_without_children() {
    let node = Node::new();
    assert_eq!(node.children.len(), 0);
}

#[test]
fn timeline_states_are_distinct() {
    assert_ne!(TimelineState::PLAYING, TimelineState::PAUSED);
    assert_ne!(TimelineState::PAUSED, TimelineState::WAITING);
    let state = TimelineState::WAITING;
    assert_eq!(state, TimelineState::WAITING);
}
