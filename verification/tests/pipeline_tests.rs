use mraphics::material::BasicMaterial;
use mraphics::material::CapturedMaterial;
use mraphics::material::Material;
use mraphics::render::PipelineManager;
use mraphics::render::gpu::BindGroupLayout;
use mraphics::render::gpu::BindGroupLayoutEntry;
use mraphics::render::gpu::BufferBindingType;
use mraphics::render::gpu::TextureFormat;

fn one_layout() -> Vec<BindGroupLayout> {
    vec![BindGroupLayout {
        entries: vec![BindGroupLayoutEntry { binding: 0, ty: BufferBindingType::Uniform }],
    }]
}

#[test]
fn identical_acquires_share_the_pipeline() {
    let mut manager = PipelineManager::new();
    let material = BasicMaterial {};
    let first = manager.acquire_pipeline(TextureFormat(1), &material, one_layout(), false);
    let second = manager.acquire_pipeline(TextureFormat(1), &material, one_layout(), false);
    // the same cached pipeline, by identity
    assert_eq!(first.id, second.id);
    assert_eq!(manager.pipeline_pool.len(), 1);
    assert_eq!(manager.next_pipeline_id, 1);
}

#[test]
fn forced_acquire_compiles_fresh() {
    let mut manager = PipelineManager::new();
    let material = BasicMaterial {};
    let first = manager.acquire_pipeline(TextureFormat(1), &material, one_layout(), false);
    let forced = manager.acquire_pipeline(TextureFormat(1), &material, one_layout(), true);
    assert_ne!(first.id, forced.id);
    assert_eq!(manager.next_pipeline_id, 2);
    // the forced compile replaced the cache entry in place
    assert_eq!(manager.pipeline_pool.len(), 1);
    let cached = manager.acquire_pipeline(TextureFormat(1), &material, one_layout(), false);
    assert_eq!(cached.id, forced.id);
}

#[test]
fn distinct_identities_get_distinct_pipelines() {
    let mut manager = PipelineManager::new();
    let red = CapturedMaterial {
        identifier: String::from("red"),
        shader_code: String::from("// red shader"),
    };
    let blue = CapturedMaterial {
        identifier: String::from("blue"),
        shader_code: String::from("// blue shader"),
    };
    let p_red = manager.acquire_pipeline(TextureFormat(1), &red, one_layout(), false);
    let p_blue = manager.acquire_pipeline(TextureFormat(1), &blue, one_layout(), false);
    assert_ne!(p_red.id, p_blue.id);
    assert_eq!(manager.pipeline_pool.len(), 2);
}

#[test]
fn pipeline_carries_its_compile_inputs() {
    let mut manager = PipelineManager::new();
    let material = CapturedMaterial {
        identifier: String::from("m"),
        shader_code: String::from("// shader text"),
    };
    let p = manager.acquire_pipeline(TextureFormat(7), &material, one_layout(), false);
    assert_eq!(p.texture_format, TextureFormat(7));
    assert_eq!(p.shader_code, "// shader text");
    assert_eq!(p.bind_group_layouts.len(), 1);
    assert_eq!(p.bind_group_layouts[0].entries[0].binding, 0);
}

#[test]
fn identity_is_the_sole_cache_key() {
    // the known aliasing hazard: two materials sharing an identity but
    // differing in shader text alias one cache entry, and the first compile
    // wins until a rebuild is forced
    let mut manager = PipelineManager::new();
    let first = CapturedMaterial {
        identifier: String::from("shared-id"),
        shader_code: String::from("// first shader"),
    };
    let second = CapturedMaterial {
        identifier: String::from("shared-id"),
        shader_code: String::from("// second shader"),
    };
    let p1 = manager.acquire_pipeline(TextureFormat(1), &first, one_layout(), false);
    let p2 = manager.acquire_pipeline(TextureFormat(1), &second, one_layout(), false);
    assert_eq!(p1.id, p2.id);
    assert_eq!(p2.shader_code, "// first shader");
}

#[test]
fn basic_material_capability() {
    let material = BasicMaterial {};
    assert_eq!(material.identifier(), "Mraphics Basic Materil");
    let code = material.shader_code();
    assert!(code.contains("@vertex"));
    assert!(code.contains("fn vs"));
    assert!(code.contains("fn fs"));
}
