use vstd::prelude::*;

use crate::render::conveyor::GadgetIndex;

verus! {

/// One vertex attribute of a geometry: the resource label and address it is
/// registered under, its raw bytes, and the flags that ask the next frame to
/// reallocate its buffer or to upload its value.
#[derive(Debug)]
pub struct Attribute {
    pub label: String,
    pub index: GadgetIndex,
    pub data: Vec<u8>,
    pub needs_update_value: bool,
    pub needs_update_buffer: bool,
}

/// The mathematical value of an [`Attribute`].
#[verifier::ext_equal]
pub struct AttributeModel {
    pub label: Seq<char>,
    pub index: GadgetIndex,
    pub data: Seq<u8>,
    pub needs_update_value: bool,
    pub needs_update_buffer: bool,
}

impl View for Attribute {
    type V = AttributeModel;

    open spec fn view(&self) -> AttributeModel {
        AttributeModel {
            label: self.label@,
            index: self.index,
            data: self.data@,
            needs_update_value: self.needs_update_value,
            needs_update_buffer: self.needs_update_buffer,
        }
    }
}

/// The views of a list of attributes.
pub open spec fn attrs_view(s: Seq<Attribute>) -> Seq<AttributeModel> {
    Seq::new(s.len(), |i: int| s[i]@)
}

/// The mathematical value of a [`Geometry`].
#[verifier::ext_equal]
pub struct GeometryModel {
    pub attributes: Seq<AttributeModel>,
    pub identifier: Seq<char>,
}

/// A geometry: its vertex attributes and the stable identity string the
/// registry pool keys on. Identities are issued by the caller (for example
/// from an arena counter), so two geometries share a per-geometry registry
/// exactly when they carry the same identity.
pub struct Geometry {
    pub attributes: Vec<Attribute>,
    identifier: String,
}

impl View for Geometry {
    type V = GeometryModel;

    closed spec fn view(&self) -> GeometryModel {
        GeometryModel { attributes: attrs_view(self.attributes@), identifier: self.identifier@ }
    }
}

impl Geometry {
    /// A geometry with no attributes and an empty identity; callers that
    /// pool registries give each distinct geometry its own identity through
    /// [`Geometry::with_id_prefix`].
    pub fn new() -> (g: Geometry)
        ensures
            g@.attributes == Seq::<AttributeModel>::empty(),
            g@.identifier == Seq::<char>::empty(),
    {
        let g = Geometry { attributes: Vec::new(), identifier: String::new() };
        proof {
            assert(g@.attributes =~= Seq::<AttributeModel>::empty());
        }
        g
    }

    /// A geometry with no attributes, identified by the given string.
    pub fn with_id_prefix(prefix: String) -> (g: Geometry)
        ensures
            g@.attributes == Seq::<AttributeModel>::empty(),
            g@.identifier == prefix@,
    {
        let g = Geometry { attributes: Vec::new(), identifier: prefix };
        proof {
            assert(g@.attributes =~= Seq::<AttributeModel>::empty());
        }
        g
    }

    /// The attributes.
    pub fn attributes(&self) -> (r: &Vec<Attribute>)
        ensures
            r@.len() == self@.attributes.len(),
            forall|i: int| 0 <= i < r@.len() ==> (#[trigger] r@[i])@ == self@.attributes[i],
    {
        &self.attributes
    }

    /// Mutable access to the attributes; the identity stays as it is.
    pub fn attributes_mut(&mut self) -> (r: &mut Vec<Attribute>)
        ensures
            attrs_view((*r)@) == old(self)@.attributes,
            final(self)@.attributes == attrs_view(final(r)@),
            final(self)@.identifier == old(self)@.identifier,
    {
        &mut self.attributes
    }

    /// The number of vertices the geometry draws: each vertex takes four
    /// bytes per entry of the first attribute.
    pub fn indices(&self) -> (r: u32)
        requires
            self@.attributes.len() > 0,
            self@.attributes[0].data.len() <= u32::MAX,
        ensures
            r == self@.attributes[0].data.len() as u32 / 4,
    {
        (self.attributes[0].data.len() as u32) / 4
    }

    /// The stable identity string.
    pub fn identifier(&self) -> (r: &str)
        ensures
            r@ == self@.identifier,
    {
        self.identifier.as_str()
    }
}

} // verus!
