use vstd::prelude::*;

use crate::kv::kv_distinct;
use crate::kv::kv_map;
use crate::kv::lemma_kv_contains;
use crate::kv::lemma_kv_get;
use crate::kv::lemma_kv_push;
use crate::kv::lemma_kv_update;
use crate::kv::str_eq;
use crate::render::gpu::BindGroup;
use crate::render::gpu::BindGroupEntry;
use crate::render::gpu::BindGroupEntryModel;
use crate::render::gpu::BindGroupLayout;
use crate::render::gpu::BindGroupLayoutEntry;
use crate::render::gpu::Buffer;
use crate::render::gpu::BufferBindingType;
use crate::render::gpu::BufferModel;
use crate::render::gpu::BufferUsages;
use crate::render::gpu::Bundle;
use crate::render::gpu::BundleModel;
use crate::render::gpu::Device;
use crate::render::gpu::Queue;
use crate::render::gpu::QueueOp;
use crate::render::gpu::QueueOpModel;
use crate::render::gpu::clone_bundle;
use crate::render::gpu::clone_layout;
use crate::render::gpu::slice_to_vec;

verus! {

/// The address of a resource inside a registry: its binding group and the
/// slot within that group.
#[derive(Debug, Clone, Copy, PartialEq, Eq, Structural)]
pub struct GadgetIndex {
    pub group_index: usize,
    pub binding_index: u32,
}

/// Everything a registration call supplies about a named buffer resource.
pub struct GadgetDescriptor<'a> {
    pub label: &'a str,
    pub index: GadgetIndex,
    pub size: u64,
    pub usage: BufferUsages,
    pub ty: BufferBindingType,
}

/// Errors a registry can report.
#[derive(Debug, Clone, Copy, PartialEq, Eq, Structural)]
pub enum ConveyorError {
    /// A write addressed a label that was never registered.
    UnknownGadgetLabel,
}

/// A named buffer resource: the modelled GPU buffer and how it is bound.
#[derive(Debug)]
struct Gadget {
    buffer: Buffer,
    ty: BufferBindingType,
}

/// The mathematical value of a registered resource.
#[verifier::ext_equal]
pub struct GadgetModel {
    pub buffer: BufferModel,
    pub ty: BufferBindingType,
}

impl View for Gadget {
    type V = GadgetModel;

    closed spec fn view(&self) -> GadgetModel {
        GadgetModel { buffer: self.buffer@, ty: self.ty }
    }
}

/// The mathematical value of a registry: the labelled resources, the
/// slot-to-label table of every binding group in increasing slot order,
/// the compiled bundles, and the dirty flag.
#[verifier::ext_equal]
pub struct ConveyorModel {
    pub dirty: bool,
    pub gadgets: Map<Seq<char>, GadgetModel>,
    pub groups: Seq<Option<Seq<(u32, Seq<char>)>>>,
    pub bundles: Seq<Option<BundleModel>>,
}

/// The slot table of one exec group, with labels taken through their views.
pub open spec fn group_view(s: Seq<(u32, String)>) -> Seq<(u32, Seq<char>)> {
    Seq::new(s.len(), |k: int| (s[k].0, s[k].1@))
}

/// The views of a list of optional bundles.
pub open spec fn bundles_view(v: Seq<Option<Bundle>>) -> Seq<Option<BundleModel>> {
    Seq::new(
        v.len(),
        |g: int|
            match v[g] {
                Some(b) => Some(b@),
                None => None,
            },
    )
}

/// Slot tables are kept in strictly increasing slot order.
pub open spec fn slots_sorted(gd: Seq<(u32, Seq<char>)>) -> bool {
    forall|k1: int, k2: int| 0 <= k1 < k2 < gd.len() ==> (#[trigger] gd[k1]).0 < (
    #[trigger] gd[k2]).0
}

/// Inserts a slot-to-label binding into a sorted slot table, replacing the
/// binding of an equal slot: the later registration silently wins.
pub open spec fn slot_insert(gd: Seq<(u32, Seq<char>)>, slot: u32, label: Seq<char>) -> Seq<
    (u32, Seq<char>),
>
    decreases gd.len(),
{
    if gd.len() == 0 {
        seq![(slot, label)]
    } else if slot < gd[0].0 {
        seq![(slot, label)] + gd
    } else if slot == gd[0].0 {
        seq![(slot, label)] + gd.drop_first()
    } else {
        seq![gd[0]] + slot_insert(gd.drop_first(), slot, label)
    }
}

/// Extends the group table with empty entries until `gi` is addressable.
pub open spec fn group_pad(groups: Seq<Option<Seq<(u32, Seq<char>)>>>, gi: int) -> Seq<
    Option<Seq<(u32, Seq<char>)>>,
> {
    if groups.len() > gi {
        groups
    } else {
        Seq::new(
            (gi + 1) as nat,
            |g: int|
                if g < groups.len() {
                    groups[g]
                } else {
                    None
                },
        )
    }
}

/// The registry transition performed by one registration call: the label is
/// bound to a fresh zero-initialised buffer, its slot is bound within its
/// group, and the registry becomes dirty. Compiled bundles are untouched.
pub open spec fn upsert_model(
    c: ConveyorModel,
    buffer_id: u64,
    label: Seq<char>,
    index: GadgetIndex,
    size: u64,
    usage: BufferUsages,
    ty: BufferBindingType,
) -> ConveyorModel {
    let gm = GadgetModel {
        buffer: BufferModel { id: buffer_id, size, usage, contents: Seq::new(size as nat, |i: int| 0u8) },
        ty,
    };
    let gi = index.group_index as int;
    let groups1 = group_pad(c.groups, gi);
    let prior = match groups1[gi] {
        Some(gd) => gd,
        None => Seq::empty(),
    };
    ConveyorModel {
        dirty: true,
        gadgets: c.gadgets.insert(label, gm),
        groups: groups1.update(gi, Some(slot_insert(prior, index.binding_index, label))),
        bundles: c.bundles,
    }
}

/// The registry transition performed by writing `data` into the resource
/// named `label`, at offset zero.
pub open spec fn write_model(c: ConveyorModel, label: Seq<char>, data: Seq<u8>) -> ConveyorModel {
    let g = c.gadgets[label];
    let b = g.buffer;
    let g2 = GadgetModel {
        buffer: BufferModel { contents: data + b.contents.skip(data.len() as int), ..b },
        ..g
    };
    ConveyorModel { gadgets: c.gadgets.insert(label, g2), ..c }
}

/// The bundle compiled for one group: its layout and bound resources follow
/// the slot table in increasing slot order.
pub open spec fn bundle_of(gadgets: Map<Seq<char>, GadgetModel>, gd: Seq<(u32, Seq<char>)>) -> BundleModel {
    BundleModel {
        layout: Seq::new(
            gd.len(),
            |k: int| BindGroupLayoutEntry { binding: gd[k].0, ty: gadgets[gd[k].1].ty },
        ),
        entries: Seq::new(
            gd.len(),
            |k: int| BindGroupEntryModel {
                binding: gd[k].0,
                label: gd[k].1,
                buffer_id: gadgets[gd[k].1].buffer.id,
            },
        ),
    }
}

/// The registry transition performed by a full bundle rebuild: exactly the
/// groups with at least one registered slot get a bundle, and the dirty flag
/// clears as the only other effect.
pub open spec fn rebuild_model(c: ConveyorModel) -> ConveyorModel {
    ConveyorModel {
        dirty: false,
        bundles: Seq::new(
            c.groups.len(),
            |g: int|
                match c.groups[g] {
                    Some(gd) => Some(bundle_of(c.gadgets, gd)),
                    None => None,
                },
        ),
        ..c
    }
}

/// The bind commands a registry records from group `g` upward: one per
/// compiled bundle, in increasing group order.
pub open spec fn bind_ops_from(bundles: Seq<Option<BundleModel>>, g: int) -> Seq<QueueOpModel>
    decreases bundles.len() - g,
{
    if g < 0 || g >= bundles.len() {
        Seq::empty()
    } else {
        (match bundles[g] {
            Some(b) => seq![QueueOpModel::SetBindGroup { group: g as u32, bundle: b }],
            None => Seq::empty(),
        }) + bind_ops_from(bundles, g + 1)
    }
}

/// The longest bundle list among registries from position `k` on.
pub open spec fn max_len_from(c: Seq<Seq<Option<BundleModel>>>, k: int) -> int
    decreases c.len() - k,
{
    if k < 0 || k >= c.len() {
        0
    } else {
        let rest = max_len_from(c, k + 1);
        if c[k].len() > rest {
            c[k].len() as int
        } else {
            rest
        }
    }
}

/// The layouts contributed at bundle index `i` by the registries from
/// position `k` on, in registry order.
pub open spec fn row_layouts_from(c: Seq<Seq<Option<BundleModel>>>, i: int, k: int) -> Seq<
    Seq<BindGroupLayoutEntry>,
>
    decreases c.len() - k,
{
    if k < 0 || k >= c.len() {
        Seq::empty()
    } else {
        (if 0 <= i < c[k].len() {
            match c[k][i] {
                Some(b) => seq![b.layout],
                None => Seq::empty(),
            }
        } else {
            Seq::empty()
        }) + row_layouts_from(c, i, k + 1)
    }
}

/// The flattened layouts of several registries, bundle index major and
/// registry order minor, from bundle index `i` up to `m`.
pub open spec fn collect_from(c: Seq<Seq<Option<BundleModel>>>, i: int, m: int) -> Seq<
    Seq<BindGroupLayoutEntry>,
>
    decreases m - i,
{
    if i < 0 || i >= m {
        Seq::empty()
    } else {
        row_layouts_from(c, i, 0) + collect_from(c, i + 1, m)
    }
}

/// The flattened layout-shape list that a pipeline layout takes, over the
/// bundle lists of one or more registries in caller-supplied priority order.
pub open spec fn collect_model(c: Seq<Seq<Option<BundleModel>>>) -> Seq<
    Seq<BindGroupLayoutEntry>,
> {
    collect_from(c, 0, max_len_from(c, 0))
}

/// The views of a list of borrowed bundle lists.
pub open spec fn collection_view(s: Seq<&Vec<Option<Bundle>>>) -> Seq<Seq<Option<BundleModel>>> {
    Seq::new(s.len(), |k: int| bundles_view(s[k]@))
}

/// The longest-list measure is never negative.
proof fn lemma_max_len_nonneg(c: Seq<Seq<Option<BundleModel>>>, k: int)
    ensures
        max_len_from(c, k) >= 0,
    decreases c.len() - k,
{
    if 0 <= k < c.len() {
        lemma_max_len_nonneg(c, k + 1);
    }
}

/// Well-formedness of one slot table against the resource map.
pub open spec fn group_ok(gadgets: Map<Seq<char>, GadgetModel>, gd: Seq<(u32, Seq<char>)>) -> bool {
    &&& gd.len() > 0
    &&& slots_sorted(gd)
    &&& forall|k: int| 0 <= k < gd.len() ==> gadgets.dom().contains((#[trigger] gd[k]).1)
}

/// Well-formedness of a registry model: every present group has a non-empty
/// sorted slot table whose labels are all registered, and every resource
/// holds exactly as many modelled bytes as its declared size.
pub open spec fn model_wf(c: ConveyorModel) -> bool {
    &&& forall|g: int|
        0 <= g < c.groups.len() ==> ((#[trigger] c.groups[g]) matches Some(gd) ==> group_ok(
            c.gadgets,
            gd,
        ))
    &&& forall|l: Seq<char>|
        c.gadgets.dom().contains(l) ==> (#[trigger] c.gadgets[l]).buffer.contents.len()
            == c.gadgets[l].buffer.size
}

/// Inserting into a sorted slot table keeps it sorted and non-empty, and
/// every entry of the result is the new binding or one of the old ones.
proof fn lemma_slot_insert_props(gd: Seq<(u32, Seq<char>)>, slot: u32, label: Seq<char>)
    requires
        slots_sorted(gd),
    ensures
        slot_insert(gd, slot, label).len() >= 1,
        slots_sorted(slot_insert(gd, slot, label)),
        forall|k: int|
            0 <= k < slot_insert(gd, slot, label).len() ==> (#[trigger] slot_insert(
                gd,
                slot,
                label,
            )[k]) == (slot, label) || exists|k0: int|
                0 <= k0 < gd.len() && gd[k0] == slot_insert(gd, slot, label)[k],
    decreases gd.len(),
{
    let r = slot_insert(gd, slot, label);
    if gd.len() == 0 {
    } else if slot < gd[0].0 {
        assert(forall|k: int| 1 <= k < r.len() ==> r[k] == gd[k - 1]);
    } else if slot == gd[0].0 {
        assert(forall|k: int| 1 <= k < r.len() ==> r[k] == gd[k]);
    } else {
        let rest = gd.drop_first();
        assert(slots_sorted(rest)) by {
            assert(forall|k: int| 0 <= k < rest.len() ==> rest[k] == gd[k + 1]);
        }
        lemma_slot_insert_props(rest, slot, label);
        let rr = slot_insert(rest, slot, label);
        assert(r == seq![gd[0]] + rr);
        assert(r[0] == gd[0]);
        assert(forall|k: int| 1 <= k < r.len() ==> r[k] == rr[k - 1]);
        // every tail entry's slot exceeds the head's
        assert(forall|k: int| 1 <= k < r.len() ==> (#[trigger] r[k]).0 > gd[0].0) by {
            assert(forall|k0: int| 0 <= k0 < rest.len() ==> (#[trigger] rest[k0]).0 > gd[0].0) by {
                assert(forall|k0: int| 0 <= k0 < rest.len() ==> rest[k0] == gd[k0 + 1]);
            }
        }
        assert(forall|k: int|
            0 <= k < r.len() ==> (#[trigger] r[k]) == (slot, label) || exists|k0: int|
                0 <= k0 < gd.len() && gd[k0] == r[k]) by {
            assert(forall|k: int|
                1 <= k < r.len() && r[k] != (slot, label) ==> exists|k0: int|
                    0 <= k0 < gd.len() && gd[k0] == #[trigger] r[k]) by {
                assert(forall|k: int|
                    1 <= k < r.len() && r[k] != (slot, label) ==> exists|k0: int|
                        0 <= k0 < rest.len() && rest[k0] == #[trigger] r[k]);
                assert(forall|k0: int| 0 <= k0 < rest.len() ==> #[trigger] rest[k0] == gd[k0 + 1]);
            }
        }
    }
}

/// A registration call keeps the registry model well formed.
proof fn lemma_upsert_wf(
    c: ConveyorModel,
    buffer_id: u64,
    label: Seq<char>,
    index: GadgetIndex,
    size: u64,
    usage: BufferUsages,
    ty: BufferBindingType,
)
    requires
        model_wf(c),
    ensures
        model_wf(upsert_model(c, buffer_id, label, index, size, usage, ty)),
{
    let post = upsert_model(c, buffer_id, label, index, size, usage, ty);
    let gi = index.group_index as int;
    let padded = group_pad(c.groups, gi);
    let prior = match padded[gi] {
        Some(gd) => gd,
        None => Seq::empty(),
    };
    let target = slot_insert(prior, index.binding_index, label);
    assert(forall|g: int|
        0 <= g < padded.len() ==> ((#[trigger] padded[g]) matches Some(gd2) ==> group_ok(
            c.gadgets,
            gd2,
        )));
    assert(slots_sorted(prior));
    lemma_slot_insert_props(prior, index.binding_index, label);
    assert(group_ok(post.gadgets, target)) by {
        assert(forall|kk: int|
            0 <= kk < target.len() ==> post.gadgets.dom().contains((#[trigger] target[kk]).1)) by {
            assert(forall|kk: int|
                0 <= kk < target.len() ==> target[kk] == (index.binding_index, label) || exists|
                    k0: int,
                |
                    0 <= k0 < prior.len() && prior[k0] == #[trigger] target[kk]);
            assert(forall|k0: int|
                0 <= k0 < prior.len() ==> post.gadgets.dom().contains((#[trigger] prior[k0]).1));
        }
    }
    assert(forall|g: int|
        0 <= g < post.groups.len() ==> ((#[trigger] post.groups[g]) matches Some(gd2)
            ==> group_ok(post.gadgets, gd2))) by {
        assert(forall|g: int|
            0 <= g < padded.len() && g != gi ==> padded[g] == #[trigger] post.groups[g]);
        assert(forall|gd2: Seq<(u32, Seq<char>)>|
            group_ok(c.gadgets, gd2) ==> group_ok(post.gadgets, gd2)) by {
            assert(forall|l: Seq<char>|
                c.gadgets.dom().contains(l) ==> post.gadgets.dom().contains(l));
        }
        assert(post.groups[gi] == Some(target));
    }
}

/// A named-resource registry: owns labelled GPU buffer resources, the
/// slot-to-label table of each binding group, and the bundles compiled from
/// them, together with a dirty flag that is set by every registration and
/// cleared only by a full rebuild.
pub struct Conveyor {
    /// Set by every registration; cleared only by [`Conveyor::update_bundles`].
    pub needs_update: bool,
    /// The compiled bundles, indexed by group; stale while dirty.
    pub bundles: Vec<Option<Bundle>>,
    gadgets: Vec<(String, Gadget)>,
    indices: Vec<Option<Vec<(u32, String)>>>,
}

impl View for Conveyor {
    type V = ConveyorModel;

    closed spec fn view(&self) -> ConveyorModel {
        ConveyorModel {
            dirty: self.needs_update,
            gadgets: kv_map(self.gadgets@),
            groups: Seq::new(
                self.indices@.len(),
                |g: int|
                    match self.indices@[g] {
                        Some(gd) => Some(group_view(gd@)),
                        None => None,
                    },
            ),
            bundles: bundles_view(self.bundles@),
        }
    }
}

impl Conveyor {
    /// Internal well-formedness: label keys are distinct and the model is
    /// well formed.
    pub closed spec fn inv(&self) -> bool {
        &&& kv_distinct(self.gadgets@)
        &&& model_wf(self@)
    }

    /// An empty registry: no resources, no groups, no bundles, clean.
    pub fn new() -> (c: Conveyor)
        ensures
            c@ == (ConveyorModel {
                dirty: false,
                gadgets: Map::<Seq<char>, GadgetModel>::empty(),
                groups: Seq::<Option<Seq<(u32, Seq<char>)>>>::empty(),
                bundles: Seq::<Option<BundleModel>>::empty(),
            }),
            c.inv(),
    {
        let c = Conveyor {
            needs_update: false,
            bundles: Vec::new(),
            gadgets: Vec::new(),
            indices: Vec::new(),
        };
        proof {
            assert(c@ =~= ConveyorModel {
                dirty: false,
                gadgets: Map::<Seq<char>, GadgetModel>::empty(),
                groups: Seq::<Option<Seq<(u32, Seq<char>)>>>::empty(),
                bundles: Seq::<Option<BundleModel>>::empty(),
            });
        }
        c
    }

    /// Finds the position of a label among the registered resources.
    fn find_gadget(&self, label: &str) -> (r: Option<usize>)
        ensures
            match r {
                Some(i) => i < self.gadgets@.len() && self.gadgets@[i as int].0@ == label@,
                None => forall|i: int|
                    0 <= i < self.gadgets@.len() ==> (#[trigger] self.gadgets@[i]).0@ != label@,
            },
    {
        let n = self.gadgets.len();
        for i in 0..n
            invariant
                n == self.gadgets@.len(),
                forall|k: int| 0 <= k < i ==> (#[trigger] self.gadgets@[k]).0@ != label@,
        {
            if str_eq(self.gadgets[i].0.as_str(), label) {
                return Some(i);
            }
        }
        None
    }

    /// Creates or replaces the named buffer resource and records its
    /// group-and-slot placement; a later registration of the same slot
    /// silently overwrites the earlier label. Sets the dirty flag; the
    /// compiled bundles stay as they are until the next rebuild.
    #[verifier::rlimit(100)]
    #[verifier::spinoff_prover]
    pub fn upsert_gadget(&mut self, device: &mut Device, desc: &GadgetDescriptor)
        requires
            old(self).inv(),
            old(device)@.next_buffer_id < u64::MAX,
            desc.size <= usize::MAX as u64,
            desc.index.group_index < usize::MAX,
        ensures
            final(self).inv(),
            final(self)@ == upsert_model(
                old(self)@,
                old(device)@.next_buffer_id,
                desc.label@,
                desc.index,
                desc.size,
                desc.usage,
                desc.ty,
            ),
            final(device)@ == crate::render::gpu::device_create_model(
                old(device)@,
                desc.label@,
                desc.size,
                desc.usage,
                desc.ty,
            ),
    {
        let ghost pre = self@;
        let buffer = device.create_buffer(desc.label, desc.size, desc.usage, desc.ty);
        let gadget = Gadget { buffer, ty: desc.ty };
        let ghost gm = gadget@;

        // bind the label to the fresh resource
        let found = self.find_gadget(desc.label);
        match found {
            Some(i) => {
                let p = (desc.label.to_owned(), gadget);
                proof {
                    lemma_kv_update(self.gadgets@, i as int, p);
                }
                self.gadgets.set(i, p);
            },
            None => {
                let p = (desc.label.to_owned(), gadget);
                proof {
                    lemma_kv_push(self.gadgets@, p);
                }
                self.gadgets.push(p);
            },
        }
        assert(kv_map(self.gadgets@) =~= pre.gadgets.insert(desc.label@, gm));
        assert(kv_distinct(self.gadgets@));

        // make the group addressable
        let group_index = desc.index.group_index;
        let ghost padded = group_pad(pre.groups, group_index as int);
        let ghost gads = self.gadgets@;
        let ghost bun0 = self.bundles@;
        let ghost nu0 = self.needs_update;
        while self.indices.len() <= group_index
            invariant
                self.gadgets@ == gads,
                self.bundles@ == bun0,
                self.needs_update == nu0,
                group_index < usize::MAX,
                self@.groups.len() <= group_index + 1 || self@.groups =~= pre.groups,
                pre.groups.len() <= self@.groups.len(),
                forall|g: int| 0 <= g < pre.groups.len() ==> self@.groups[g] == pre.groups[g],
                forall|g: int|
                    pre.groups.len() <= g < self@.groups.len() ==> self@.groups[g] is None,
            decreases group_index + 1 - self.indices@.len(),
        {
            let ghost inds0 = self.indices@;
            let ghost gv0 = self@.groups;
            self.indices.push(None);
            proof {
                assert forall|g: int|
                    pre.groups.len() <= g < self@.groups.len() implies self@.groups[g]
                    is None by {
                    if g < inds0.len() {
                        assert(self.indices@[g] == inds0[g]);
                        assert(gv0[g] is None);
                    } else {
                        assert(self.indices@[g] is None);
                    }
                }
            }
        }
        assert(self@.groups =~= padded);

        // bind the slot within the group
        let ghost prior = match padded[group_index as int] {
            Some(gd) => gd,
            None => Seq::empty(),
        };
        let mut gd: Vec<(u32, String)> = match self.indices.remove(group_index) {
            Some(gd) => gd,
            None => Vec::new(),
        };
        assert(group_view(gd@) =~= prior);
        let slot = desc.index.binding_index;
        let ghost target = slot_insert(prior, slot, desc.label@);
        let ghost gd0 = gd@;
        proof {
            let v = group_view(gd0);
            assert(v.take(0) =~= Seq::empty());
            assert(v.skip(0) =~= v);
            assert(v.take(0) + slot_insert(v, slot, desc.label@) =~= slot_insert(
                v,
                slot,
                desc.label@,
            ));
        }
        let mut k: usize = 0;
        while k < gd.len() && gd[k].0 < slot
            invariant
                gd@ == gd0,
                k <= gd@.len(),
                slot_insert(group_view(gd0), slot, desc.label@) == group_view(gd0).take(k as int)
                    + slot_insert(group_view(gd0).skip(k as int), slot, desc.label@),
            decreases gd@.len() - k,
        {
            proof {
                let v = group_view(gd0);
                assert(v.skip(k as int)[0] == v[k as int]);
                assert(v.skip(k as int).drop_first() =~= v.skip(k as int + 1));
                assert(v.take(k as int + 1) =~= v.take(k as int) + seq![v[k as int]]);
                assert(slot_insert(v.skip(k as int), slot, desc.label@) == seq![v[k as int]]
                    + slot_insert(v.skip(k as int + 1), slot, desc.label@));
                assert(v.take(k as int) + slot_insert(v.skip(k as int), slot, desc.label@)
                    =~= v.take(k as int + 1) + slot_insert(v.skip(k as int + 1), slot, desc.label@));
            }
            k = k + 1;
        }
        proof {
            let v = group_view(gd0);
            if k < gd0.len() {
                assert(v.skip(k as int)[0] == v[k as int]);
                assert(v.skip(k as int).drop_first() =~= v.skip(k as int + 1));
            } else {
                assert(v.skip(k as int).len() == 0);
            }
        }
        if k < gd.len() && gd[k].0 == slot {
            gd.set(k, (slot, desc.label.to_owned()));
            proof {
                let v = group_view(gd0);
                assert(slot_insert(v.skip(k as int), slot, desc.label@) == seq![
                    (slot, desc.label@),
                ] + v.skip(k as int + 1));
                assert(group_view(gd@) =~= v.take(k as int) + seq![(slot, desc.label@)] + v.skip(
                    k as int + 1,
                ));
                assert(group_view(gd@) =~= target);
            }
        } else {
            gd.insert(k, (slot, desc.label.to_owned()));
            proof {
                let v = group_view(gd0);
                if k < gd0.len() {
                    assert(slot_insert(v.skip(k as int), slot, desc.label@) == seq![
                        (slot, desc.label@),
                    ] + v.skip(k as int));
                } else {
                    assert(slot_insert(v.skip(k as int), slot, desc.label@) == seq![
                        (slot, desc.label@),
                    ]);
                    assert(v.skip(k as int) =~= Seq::empty());
                }
                assert(group_view(gd@) =~= v.take(k as int) + seq![(slot, desc.label@)] + v.skip(
                    k as int,
                ));
                assert(group_view(gd@) =~= target);
            }
        }
        self.indices.insert(group_index, Some(gd));
        self.needs_update = true;

        proof {
            let post = upsert_model(
                pre,
                old(device)@.next_buffer_id,
                desc.label@,
                desc.index,
                desc.size,
                desc.usage,
                desc.ty,
            );
            assert(self@.groups =~= padded.update(group_index as int, Some(target)));
            assert(self@.bundles =~= pre.bundles);
            assert(self@ =~= post);
            lemma_upsert_wf(
                pre,
                old(device)@.next_buffer_id,
                desc.label@,
                desc.index,
                desc.size,
                desc.usage,
                desc.ty,
            );
        }
    }

    /// Copies `data` into the named resource's current buffer, at offset
    /// zero, and records the write on the command stream. Fails with
    /// [`ConveyorError::UnknownGadgetLabel`], changing nothing, exactly when
    /// the label was never registered. Callers guarantee that the data fits
    /// the resource's declared size.
    pub fn update_gadget(&mut self, queue: &mut Queue, gadget_label: &str, data: &[u8]) -> (r:
        Result<(), ConveyorError>)
        requires
            old(self).inv(),
            old(self)@.gadgets.dom().contains(gadget_label@) ==> data@.len() <= old(
                self,
            )@.gadgets[gadget_label@].buffer.size,
        ensures
            final(self).inv(),
            match r {
                Ok(()) => {
                    &&& old(self)@.gadgets.dom().contains(gadget_label@)
                    &&& final(self)@ == write_model(old(self)@, gadget_label@, data@)
                    &&& final(queue)@ == old(queue)@.push(
                        QueueOpModel::WriteBuffer {
                            buffer_id: old(self)@.gadgets[gadget_label@].buffer.id,
                            data: data@,
                        },
                    )
                },
                Err(e) => {
                    &&& e == ConveyorError::UnknownGadgetLabel
                    &&& !old(self)@.gadgets.dom().contains(gadget_label@)
                    &&& final(self)@ == old(self)@
                    &&& final(queue)@ == old(queue)@
                },
            },
    {
        let ghost pre = self@;
        let found = self.find_gadget(gadget_label);
        proof {
            lemma_kv_contains(self.gadgets@, gadget_label@);
        }
        let i = match found {
            Some(i) => i,
            None => {
                return Err(ConveyorError::UnknownGadgetLabel);
            },
        };
        proof {
            lemma_kv_get(self.gadgets@, i as int);
        }
        let ghost gm = pre.gadgets[gadget_label@];
        let (key, mut g) = self.gadgets.remove(i);
        proof {
            assert(g@ == gm);
            assert(gm.buffer.contents.len() == gm.buffer.size);
        }
        let ghost contents0 = g.buffer.contents@;
        let n = data.len();
        for j in 0..n
            invariant
                n == data@.len(),
                n <= g.buffer.contents@.len(),
                g.buffer.contents@.len() == contents0.len(),
                g.buffer.id == gm.buffer.id,
                g.buffer.size == gm.buffer.size,
                g.buffer.usage == gm.buffer.usage,
                g.ty == gm.ty,
                forall|x: int| 0 <= x < j ==> g.buffer.contents@[x] == data@[x],
                forall|x: int| j <= x < contents0.len() ==> g.buffer.contents@[x] == contents0[x],
        {
            g.buffer.contents.set(j, data[j]);
        }
        proof {
            assert(g.buffer.contents@ =~= data@ + contents0.skip(n as int));
        }
        self.gadgets.insert(i, (key, g));
        proof {
            // restoring the pair at its position updates the map at its key
            assert(self.gadgets@ =~= old(self).gadgets@.update(i as int, self.gadgets@[i as int]));
            lemma_kv_update(old(self).gadgets@, i as int, self.gadgets@[i as int]);
            assert(self@ =~= write_model(pre, gadget_label@, data@));
        }
        let write = QueueOp::WriteBuffer {
            buffer_id: self.gadgets[i].1.buffer.id,
            data: slice_to_vec(data),
        };
        queue.record(write);
        Ok(())
    }

    /// Compiles one bundle for every group index with at least one registered
    /// slot, in the slot table's deterministic increasing-slot order; group
    /// indices with no slots get no bundle. Clears the dirty flag as its only
    /// other effect.
    pub fn update_bundles(&mut self)
        requires
            old(self).inv(),
        ensures
            final(self).inv(),
            final(self)@ == rebuild_model(old(self)@),
    {
        let ghost pre = self@;
        let ghost tgt = rebuild_model(pre).bundles;
        let mut bundles: Vec<Option<Bundle>> = Vec::new();
        let n = self.indices.len();
        proof {
            assert(bundles_view(bundles@) =~= tgt.take(0));
        }
        for g in 0..n
            invariant
                self == old(self),
                self.inv(),
                pre == self@,
                tgt == rebuild_model(pre).bundles,
                n == self.indices@.len(),
                bundles@.len() == g,
                bundles_view(bundles@) =~= tgt.take(g as int),
        {
            let ghost pg = pre.groups[g as int];
            match &self.indices[g] {
                None => {
                    bundles.push(None);
                    proof {
                        assert(bundles_view(bundles@) =~= tgt.take(g + 1));
                    }
                },
                Some(gd) => {
                    let ghost gv = group_view(gd@);
                    proof {
                        assert(pre.groups[g as int] == Some(gv));
                        assert(group_ok(pre.gadgets, gv));
                    }
                    let ghost tb = bundle_of(pre.gadgets, gv);
                    let m = gd.len();
                    let mut layout_entries: Vec<BindGroupLayoutEntry> = Vec::new();
                    let mut group_entries: Vec<BindGroupEntry> = Vec::new();
                    for k in 0..m
                        invariant
                            self == old(self),
                            self.inv(),
                            pre == self@,
                            m == gd@.len(),
                            gv == group_view(gd@),
                            group_ok(pre.gadgets, gv),
                            tb == bundle_of(pre.gadgets, gv),
                            layout_entries@ =~= tb.layout.take(k as int),
                            group_entries@.len() == k,
                            forall|x: int|
                                0 <= x < k ==> (#[trigger] group_entries@[x])@ == tb.entries[x],
                    {
                        let slot = gd[k].0;
                        let label = &gd[k].1;
                        proof {
                            assert(gv[k as int] == (slot, label@));
                            assert(pre.gadgets.dom().contains(label@));
                            lemma_kv_contains(self.gadgets@, label@);
                        }
                        let found = self.find_gadget(label.as_str());
                        let i = match found {
                            Some(i) => i,
                            None => {
                                // unreachable: well-formedness keeps every
                                // slot-table label registered
                                proof {
                                    assert(false);
                                }
                                0
                            },
                        };
                        proof {
                            lemma_kv_get(self.gadgets@, i as int);
                        }
                        let gadget = &self.gadgets[i].1;
                        layout_entries.push(
                            BindGroupLayoutEntry { binding: slot, ty: gadget.ty },
                        );
                        group_entries.push(
                            BindGroupEntry {
                                binding: slot,
                                label: label.clone(),
                                buffer_id: gadget.buffer.id,
                            },
                        );
                        proof {
                            assert(tb.layout[k as int] == BindGroupLayoutEntry {
                                binding: slot,
                                ty: pre.gadgets[label@].ty,
                            });
                            assert(layout_entries@ =~= tb.layout.take(k + 1));
                        }
                    }
                    let bundle = Bundle {
                        bind_group: BindGroup { entries: group_entries },
                        bind_group_layout: BindGroupLayout { entries: layout_entries },
                    };
                    proof {
                        assert(bundle@.layout =~= tb.layout);
                        assert(bundle@.entries =~= tb.entries);
                        assert(bundle@ =~= tb);
                    }
                    bundles.push(Some(bundle));
                    proof {
                        assert(tgt[g as int] == Some(tb));
                        assert(bundles_view(bundles@) =~= tgt.take(g + 1));
                    }
                },
            }
        }
        self.bundles = bundles;
        self.needs_update = false;
        proof {
            assert(tgt.take(n as int) =~= tgt);
            assert(self@ =~= rebuild_model(pre));
        }
    }

    /// Records one bind command per compiled bundle at its group index, in
    /// increasing group order; group indices with no bundle are skipped.
    pub fn attach_bundles(&self, render_pass: &mut Queue)
        requires
            self@.bundles.len() <= u32::MAX as int + 1,
        ensures
            final(render_pass)@ == old(render_pass)@ + bind_ops_from(self@.bundles, 0),
    {
        let n = self.bundles.len();
        for g in 0..n
            invariant
                n == self.bundles@.len(),
                n <= u32::MAX as int + 1,
                render_pass@ + bind_ops_from(self@.bundles, g as int) =~= old(render_pass)@
                    + bind_ops_from(self@.bundles, 0),
        {
            let ghost qs = render_pass@;
            match &self.bundles[g] {
                Some(bundle) => {
                    let b = clone_bundle(bundle);
                    let ghost bm = b@;
                    render_pass.record(QueueOp::SetBindGroup { group: g as u32, bundle: b });
                    proof {
                        assert(self@.bundles[g as int] == Some(bm));
                        assert(bind_ops_from(self@.bundles, g as int) == seq![
                            QueueOpModel::SetBindGroup { group: g as u32, bundle: bm },
                        ] + bind_ops_from(self@.bundles, g + 1));
                        assert(render_pass@ =~= qs.push(
                            QueueOpModel::SetBindGroup { group: g as u32, bundle: bm },
                        ));
                        assert(render_pass@ + bind_ops_from(self@.bundles, g + 1) =~= qs
                            + bind_ops_from(self@.bundles, g as int));
                    }
                },
                None => {
                    proof {
                        assert(self@.bundles[g as int] is None);
                        assert(bind_ops_from(self@.bundles, g as int) =~= bind_ops_from(
                            self@.bundles,
                            g + 1,
                        ));
                    }
                },
            }
        }
        proof {
            assert(bind_ops_from(self@.bundles, n as int) =~= Seq::empty());
            assert(render_pass@ =~= old(render_pass)@ + bind_ops_from(self@.bundles, 0));
        }
    }

    /// Whether the registry is dirty: some registration has not been
    /// followed by a rebuild yet.
    pub fn is_dirty(&self) -> (b: bool)
        ensures
            b == self@.dirty,
    {
        self.needs_update
    }

    /// Whether a label is currently registered.
    pub fn has_gadget(&self, label: &str) -> (b: bool)
        ensures
            b == self@.gadgets.dom().contains(label@),
    {
        let found = self.find_gadget(label);
        proof {
            lemma_kv_contains(self.gadgets@, label@);
        }
        match found {
            Some(_) => true,
            None => false,
        }
    }

    /// The compiled bundle list, tied to the registry's model.
    pub fn bundles_ref(&self) -> (r: &Vec<Option<Bundle>>)
        ensures
            bundles_view(r@) == self@.bundles,
    {
        &self.bundles
    }

    /// The modelled bytes of the named resource, for read-back
    /// instrumentation; `None` exactly when the label was never registered.
    pub fn gadget_data(&self, label: &str) -> (r: Option<&Vec<u8>>)
        requires
            self.inv(),
        ensures
            match r {
                Some(v) => self@.gadgets.dom().contains(label@) && v@
                    == self@.gadgets[label@].buffer.contents,
                None => !self@.gadgets.dom().contains(label@),
            },
    {
        let found = self.find_gadget(label);
        proof {
            lemma_kv_contains(self.gadgets@, label@);
        }
        match found {
            Some(i) => {
                proof {
                    lemma_kv_get(self.gadgets@, i as int);
                }
                Some(&self.gadgets[i].1.buffer.contents)
            },
            None => None,
        }
    }
}

impl Conveyor {
    /// Flattens the compiled layouts of one or more registries, in
    /// caller-supplied priority order, into the ordered layout-shape list a
    /// pipeline layout requires: bundle index major, registry order minor.
    pub fn collect_bind_group_layouts(bundles_collection: Vec<&Vec<Option<Bundle>>>) -> (r: Vec<
        BindGroupLayout,
    >)
        ensures
            crate::render::gpu::layouts_view(r@) == collect_model(
                collection_view(bundles_collection@),
            ),
    {
        let ghost cv = collection_view(bundles_collection@);
        let n = bundles_collection.len();
        let mut max_len: usize = 0;
        proof {
            lemma_max_len_nonneg(cv, 0);
        }
        for c in 0..n
            invariant
                n == cv.len(),
                n == bundles_collection@.len(),
                cv == collection_view(bundles_collection@),
                max_len_from(cv, 0) == (if max_len as int > max_len_from(cv, c as int) {
                    max_len as int
                } else {
                    max_len_from(cv, c as int)
                }),
        {
            let bs: &Vec<Option<Bundle>> = bundles_collection[c];
            proof {
                assert(cv[c as int] == bundles_view(bs@));
                lemma_max_len_nonneg(cv, c + 1);
            }
            if bs.len() > max_len {
                max_len = bs.len();
            }
        }
        let ghost m = max_len as int;
        proof {
            assert(max_len_from(cv, n as int) == 0);
            assert(m == max_len_from(cv, 0));
        }
        let mut out: Vec<BindGroupLayout> = Vec::new();
        proof {
            assert(crate::render::gpu::layouts_view(out@) + collect_from(cv, 0, m) =~= collect_from(
                cv,
                0,
                m,
            ));
        }
        for i in 0..max_len
            invariant
                n == cv.len(),
                n == bundles_collection@.len(),
                cv == collection_view(bundles_collection@),
                m == max_len as int,
                crate::render::gpu::layouts_view(out@) + collect_from(cv, i as int, m)
                    =~= collect_from(cv, 0, m),
        {
            proof {
                assert(collect_from(cv, i as int, m) == row_layouts_from(cv, i as int, 0)
                    + collect_from(cv, i + 1, m));
            }
            for c in 0..n
                invariant
                    n == cv.len(),
                    n == bundles_collection@.len(),
                    cv == collection_view(bundles_collection@),
                    m == max_len as int,
                    i < max_len,
                    crate::render::gpu::layouts_view(out@) + row_layouts_from(cv, i as int, c as int)
                        + collect_from(cv, i + 1, m) =~= collect_from(cv, 0, m),
            {
                let ghost outs = crate::render::gpu::layouts_view(out@);
                let bs: &Vec<Option<Bundle>> = bundles_collection[c];
                proof {
                    assert(cv[c as int] == bundles_view(bs@));
                }
                if i < bs.len() {
                    match &bs[i] {
                        Some(b) => {
                            out.push(clone_layout(&b.bind_group_layout));
                            proof {
                                assert(bundles_view(bs@)[i as int] == Some(b@));
                                assert(row_layouts_from(cv, i as int, c as int) == seq![b@.layout]
                                    + row_layouts_from(cv, i as int, c + 1));
                                assert(crate::render::gpu::layouts_view(out@) =~= outs.push(
                                    b@.layout,
                                ));
                                assert(crate::render::gpu::layouts_view(out@) + row_layouts_from(
                                    cv,
                                    i as int,
                                    c + 1,
                                ) =~= outs + row_layouts_from(cv, i as int, c as int));
                            }
                        },
                        None => {
                            proof {
                                assert(bundles_view(bs@)[i as int] is None);
                                assert(row_layouts_from(cv, i as int, c as int)
                                    =~= row_layouts_from(cv, i as int, c + 1));
                            }
                        },
                    }
                } else {
                    proof {
                        assert(row_layouts_from(cv, i as int, c as int) =~= row_layouts_from(
                            cv,
                            i as int,
                            c + 1,
                        ));
                    }
                }
            }
            proof {
                assert(row_layouts_from(cv, i as int, n as int) =~= Seq::empty());
            }
        }
        proof {
            assert(collect_from(cv, m, m) =~= Seq::empty());
            assert(crate::render::gpu::layouts_view(out@) =~= collect_from(cv, 0, m));
        }
        out
    }
}

/// Law: a full rebuild produces exactly one bundle per group index that has
/// at least one registered slot, and no bundle for group indices without
/// slots; its only other effect is clearing the dirty flag.
pub proof fn lemma_rebuild_bundles_per_group(c: ConveyorModel)
    requires
        model_wf(c),
    ensures
        rebuild_model(c).bundles.len() == c.groups.len(),
        forall|g: int|
            0 <= g < c.groups.len() ==> ((#[trigger] rebuild_model(c).bundles[g]) is Some
                <==> c.groups[g] is Some),
        forall|g: int|
            0 <= g < c.groups.len() ==> ((#[trigger] c.groups[g]) matches Some(gd)
                ==> gd.len() >= 1 && rebuild_model(c).bundles[g] == Some(
                bundle_of(c.gadgets, gd),
            )),
        !rebuild_model(c).dirty,
        rebuild_model(c).gadgets == c.gadgets,
        rebuild_model(c).groups == c.groups,
{
}

/// Law: re-registering a label fully replaces its resource with a fresh
/// zero-initialised buffer of the new size, and a following write of `data`
/// reads back as exactly `data`.
pub proof fn lemma_replace_write_read(
    c: ConveyorModel,
    buffer_id: u64,
    label: Seq<char>,
    index: GadgetIndex,
    size: u64,
    usage: BufferUsages,
    ty: BufferBindingType,
    data: Seq<u8>,
)
    requires
        data.len() <= size,
    ensures
        ({
            let c1 = upsert_model(c, buffer_id, label, index, size, usage, ty);
            let c2 = write_model(c1, label, data);
            &&& c1.gadgets.dom().contains(label)
            &&& c1.gadgets[label].buffer.id == buffer_id
            &&& c1.gadgets[label].buffer.size == size
            &&& c1.gadgets[label].buffer.contents == Seq::new(size as nat, |i: int| 0u8)
            &&& c2.gadgets[label].buffer.contents.take(data.len() as int) == data
            &&& c2.gadgets[label].buffer.contents.len() == size
        }),
{
    let c1 = upsert_model(c, buffer_id, label, index, size, usage, ty);
    let c2 = write_model(c1, label, data);
    assert(c2.gadgets[label].buffer.contents.take(data.len() as int) =~= data);
}

} // verus!
