use vstd::prelude::*;

use crate::geometry::geometry::Geometry;
use crate::geometry::geometry::GeometryModel;
use crate::material::CapturedMaterial;
use crate::material::Material;

verus! {

/// The mathematical value of a [`Mesh`].
#[verifier::ext_equal]
pub struct MeshModel {
    pub geometry: GeometryModel,
    pub material_identifier: Seq<char>,
    pub material_shader_code: Seq<char>,
    pub matrix_data: Seq<u8>,
}

/// A drawable mesh as the core sees it: a geometry, the captured material
/// capability (identity and shader source), and the packed bytes of its
/// model matrix, written into the shared registry right before its draw.
pub struct Mesh {
    pub geometry: Geometry,
    pub material: CapturedMaterial,
    pub matrix_data: Vec<u8>,
}

impl View for Mesh {
    type V = MeshModel;

    open spec fn view(&self) -> MeshModel {
        MeshModel {
            geometry: self.geometry@,
            material_identifier: self.material.identifier@,
            material_shader_code: self.material.shader_code@,
            matrix_data: self.matrix_data@,
        }
    }
}

/// The number of bytes a packed four-by-four matrix of four-byte scalars
/// takes.
pub const MODEL_MATRIX_BYTES: usize = 64;

impl Mesh {
    /// Pairs a geometry with a material, capturing the material's identity
    /// and shader source. The model matrix starts as zero bytes; the caller
    /// writes the packed transform before the mesh is drawn.
    pub fn new<M: Material>(geometry: Geometry, material: &M) -> (m: Mesh)
        ensures
            m@.geometry == geometry@,
            m@.material_identifier == material.spec_identifier(),
            m@.material_shader_code == material.spec_shader_code(),
            m@.matrix_data == Seq::new(MODEL_MATRIX_BYTES as nat, |i: int| 0u8),
    {
        let matrix_data: Vec<u8> = vec![0u8; MODEL_MATRIX_BYTES];
        proof {
            assert(matrix_data@ =~= Seq::new(MODEL_MATRIX_BYTES as nat, |i: int| 0u8));
        }
        Mesh {
            geometry,
            material: CapturedMaterial {
                identifier: material.identifier().to_owned(),
                shader_code: material.shader_code(),
            },
            matrix_data,
        }
    }
}

} // verus!
