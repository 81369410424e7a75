use vstd::prelude::*;

verus! {

/// The capability a drawable material exposes: a stable identity string,
/// which the pipeline cache keys on, and the shader source text a pipeline
/// is compiled from.
pub trait Material {
    /// The stable identity, as a mathematical value.
    spec fn spec_identifier(&self) -> Seq<char>;

    /// The shader source, as a mathematical value.
    spec fn spec_shader_code(&self) -> Seq<char>;

    /// The stable identity string.
    fn identifier(&self) -> (r: &str)
        ensures
            r@ == self.spec_identifier(),
    ;

    /// The shader source text.
    fn shader_code(&self) -> (r: String)
        ensures
            r@ == self.spec_shader_code(),
    ;
}

/// The built-in flat-shaded material: per-vertex positions and colours read
/// from the storage buffers of group 1, transformed by the camera and model
/// matrices of group 0.
pub struct BasicMaterial {}

/// The identity the built-in material is cached under.
pub open spec fn basic_material_identifier() -> Seq<char> {
    "Mraphics Basic Materil"@
}

/// The shader source of the built-in material.
pub open spec fn basic_material_shader_code() -> Seq<char> {
    "struct Camera { mat: mat4x4<f32> }\n\n@group(0) @binding(0) var<uniform> view_mat: Camera;\n@group(0) @binding(1) var<uniform> projection_mat: Camera;\n@group(0) @binding(2) var<uniform> model_mat: Camera;\n\n@group(1) @binding(0) var<storage, read> positions: array<f32>;\n@group(1) @binding(1) var<storage, read> colors: array<f32>;\n\nstruct VsOut {\n    @builtin(position) position: vec4<f32>,\n    @location(0) color: vec3<f32>,\n}\n\n@vertex\nfn vs(@builtin(vertex_index) index: u32) -> VsOut {\n    let base = index * 3u;\n    let local = vec4<f32>(positions[base], positions[base + 1u], positions[base + 2u], 1.0);\n    var out: VsOut;\n    out.position = projection_mat.mat * view_mat.mat * model_mat.mat * local;\n    out.color = vec3<f32>(colors[base], colors[base + 1u], colors[base + 2u]);\n    return out;\n}\n\n@fragment\nfn fs(in: VsOut) -> @location(0) vec4<f32> {\n    return vec4<f32>(in.color, 1.0);\n}\n"@
}

/// A material capability captured as plain values: the identity string and
/// the shader source text, as handed over by whichever material produced
/// them. This is the closed form under which meshes carry their material.
pub struct CapturedMaterial {
    pub identifier: String,
    pub shader_code: String,
}

impl Material for CapturedMaterial {
    open spec fn spec_identifier(&self) -> Seq<char> {
        self.identifier@
    }

    open spec fn spec_shader_code(&self) -> Seq<char> {
        self.shader_code@
    }

    fn identifier(&self) -> (r: &str)
        ensures
            r@ == self.spec_identifier(),
    {
        self.identifier.as_str()
    }

    fn shader_code(&self) -> (r: String)
        ensures
            r@ == self.spec_shader_code(),
    {
        self.shader_code.clone()
    }
}

impl Material for BasicMaterial {
    open spec fn spec_identifier(&self) -> Seq<char> {
        basic_material_identifier()
    }

    open spec fn spec_shader_code(&self) -> Seq<char> {
        basic_material_shader_code()
    }

    fn identifier(&self) -> (r: &str)
        ensures
            r@ == self.spec_identifier(),
    {
        "Mraphics Basic Materil"
    }

    fn shader_code(&self) -> (r: String)
        ensures
            r@ == self.spec_shader_code(),
    {
        let code: &str =
            "struct Camera { mat: mat4x4<f32> }\n\n@group(0) @binding(0) var<uniform> view_mat: Camera;\n@group(0) @binding(1) var<uniform> projection_mat: Camera;\n@group(0) @binding(2) var<uniform> model_mat: Camera;\n\n@group(1) @binding(0) var<storage, read> positions: array<f32>;\n@group(1) @binding(1) var<storage, read> colors: array<f32>;\n\nstruct VsOut {\n    @builtin(position) position: vec4<f32>,\n    @location(0) color: vec3<f32>,\n}\n\n@vertex\nfn vs(@builtin(vertex_index) index: u32) -> VsOut {\n    let base = index * 3u;\n    let local = vec4<f32>(positions[base], positions[base + 1u], positions[base + 2u], 1.0);\n    var out: VsOut;\n    out.position = projection_mat.mat * view_mat.mat * model_mat.mat * local;\n    out.color = vec3<f32>(colors[base], colors[base + 1u], colors[base + 2u]);\n    return out;\n}\n\n@fragment\nfn fs(in: VsOut) -> @location(0) vec4<f32> {\n    return vec4<f32>(in.color, 1.0);\n}\n";
        code.to_owned()
    }
}

} // verus!
