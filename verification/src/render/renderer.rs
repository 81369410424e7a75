use vstd::prelude::*;

use crate::geometry::geometry::AttributeModel;
use crate::geometry::mesh::Mesh;
use crate::geometry::mesh::MeshModel;
use crate::material::Material;
use crate::render::conveyor::Conveyor;
use crate::render::conveyor::ConveyorError;
use crate::render::conveyor::ConveyorModel;
use crate::render::conveyor::GadgetDescriptor;
use crate::render::conveyor::GadgetIndex;
use crate::render::conveyor::bind_ops_from;
use crate::render::conveyor::collect_model;
use crate::render::conveyor::rebuild_model;
use crate::render::conveyor::upsert_model;
use crate::render::conveyor::write_model;
use crate::render::conveyor_manager::ConveyorManager;
use crate::render::conveyor_manager::empty_conveyor_model;
use crate::render::conveyor_manager::pool_acquire_idx;
use crate::render::conveyor_manager::pool_acquire_pool;
use crate::render::conveyor_manager::pool_has_key;
use crate::render::gpu::BufferBindingType;
use crate::render::gpu::BufferUsages;
use crate::render::gpu::Device;
use crate::render::gpu::DeviceModel;
use crate::render::gpu::Queue;
use crate::render::gpu::QueueOpModel;
use crate::render::gpu::RenderPipelineModel;
use crate::render::gpu::TextureFormat;
use crate::render::gpu::device_create_model;
use crate::render::pipeline_manager::PipelineManager;
use crate::render::pipeline_manager::PipelineManagerModel;
use crate::render::pipeline_manager::pipeline_acquire_model;
use crate::scene::Scene;

verus! {

/// The label of the shared view-matrix resource.
pub open spec fn view_mat_label() -> Seq<char> {
    "mraphics-view-mat"@
}

/// The label of the shared projection-matrix resource.
pub open spec fn projection_mat_label() -> Seq<char> {
    "mraphics-projection-mat"@
}

/// The label of the shared model-matrix resource.
pub open spec fn model_mat_label() -> Seq<char> {
    "mraphics-model-mat"@
}

/// The group-and-slot address of the shared view matrix.
pub open spec fn view_mat_index() -> GadgetIndex {
    GadgetIndex { group_index: 0, binding_index: 0 }
}

/// The group-and-slot address of the shared projection matrix.
pub open spec fn projection_mat_index() -> GadgetIndex {
    GadgetIndex { group_index: 0, binding_index: 1 }
}

/// The group-and-slot address of the shared model matrix.
pub open spec fn model_mat_index() -> GadgetIndex {
    GadgetIndex { group_index: 0, binding_index: 2 }
}

/// The usage of the shared matrix resources.
pub open spec fn mat_usage() -> BufferUsages {
    BufferUsages { uniform: true, storage: false, copy_dst: true }
}

/// The usage of per-geometry attribute resources.
pub open spec fn attr_usage() -> BufferUsages {
    BufferUsages { uniform: false, storage: true, copy_dst: true }
}

/// The binding type of per-geometry attribute resources.
pub open spec fn attr_binding_type() -> BufferBindingType {
    BufferBindingType::Storage { read_only: true }
}

/// The size in bytes of a packed four-by-four matrix.
pub const MAT4_BYTES: u64 = 64;

/// The shared registry as the constructor leaves it: the three matrix
/// resources registered at group zero, slots zero to two, in this order.
pub open spec fn shared_init_model() -> ConveyorModel {
    let c0 = empty_conveyor_model();
    let c1 = upsert_model(c0, 0, view_mat_label(), view_mat_index(), MAT4_BYTES as u64, mat_usage(), BufferBindingType::Uniform);
    let c2 = upsert_model(c1, 1, projection_mat_label(), projection_mat_index(), MAT4_BYTES as u64, mat_usage(), BufferBindingType::Uniform);
    upsert_model(c2, 2, model_mat_label(), model_mat_index(), MAT4_BYTES as u64, mat_usage(), BufferBindingType::Uniform)
}

/// The device as the constructor leaves it: three buffers issued, for the
/// view, projection and model matrices.
pub open spec fn device_init_model() -> DeviceModel {
    let d0 = DeviceModel { next_buffer_id: 0, created: Seq::empty() };
    let d1 = device_create_model(d0, view_mat_label(), MAT4_BYTES as u64, mat_usage(), BufferBindingType::Uniform);
    let d2 = device_create_model(d1, projection_mat_label(), MAT4_BYTES as u64, mat_usage(), BufferBindingType::Uniform);
    device_create_model(d2, model_mat_label(), MAT4_BYTES as u64, mat_usage(), BufferBindingType::Uniform)
}

/// What the per-frame logic relies on about the shared registry: the three
/// matrix resources stay registered with their constructed sizes, its single
/// group is the constructed one, and its bundle list never outgrows its
/// group list.
pub open spec fn shared_ok(c: ConveyorModel) -> bool {
    &&& c.gadgets.dom().contains(view_mat_label())
    &&& c.gadgets.dom().contains(projection_mat_label())
    &&& c.gadgets.dom().contains(model_mat_label())
    &&& c.gadgets[view_mat_label()].buffer.size == MAT4_BYTES
    &&& c.gadgets[projection_mat_label()].buffer.size == MAT4_BYTES
    &&& c.gadgets[model_mat_label()].buffer.size == MAT4_BYTES
    &&& c.groups == shared_init_model().groups
    &&& c.bundles.len() <= c.groups.len()
}

/// What the per-frame logic relies on about every pooled registry.
pub open spec fn pooled_ok(c: ConveyorModel) -> bool {
    &&& c.bundles.len() <= c.groups.len()
    &&& c.groups.len() <= u32::MAX as int
}

/// The result of the per-attribute update pass over one geometry registry:
/// the registry and device afterwards, the upload commands recorded, and the
/// attributes with their flags cleared.
#[verifier::ext_equal]
pub struct AttrsApplied {
    pub conveyor: ConveyorModel,
    pub device: DeviceModel,
    pub ops: Seq<QueueOpModel>,
    pub attrs: Seq<AttributeModel>,
}

/// The per-attribute update pass: every attribute flagged for reallocation
/// gets a fresh storage buffer of its data's size, every attribute flagged
/// for upload has its bytes written, and both flags clear.
pub open spec fn attrs_apply(
    c: ConveyorModel,
    d: DeviceModel,
    attrs: Seq<AttributeModel>,
) -> AttrsApplied
    decreases attrs.len(),
{
    if attrs.len() == 0 {
        AttrsApplied { conveyor: c, device: d, ops: Seq::empty(), attrs: Seq::empty() }
    } else {
        let a = attrs[0];
        let c1 = if a.needs_update_buffer {
            upsert_model(
                c,
                d.next_buffer_id,
                a.label,
                a.index,
                a.data.len() as u64,
                attr_usage(),
                attr_binding_type(),
            )
        } else {
            c
        };
        let d1 = if a.needs_update_buffer {
            device_create_model(d, a.label, a.data.len() as u64, attr_usage(), attr_binding_type())
        } else {
            d
        };
        let c2 = if a.needs_update_value {
            write_model(c1, a.label, a.data)
        } else {
            c1
        };
        let ops1: Seq<QueueOpModel> = if a.needs_update_value {
            seq![
                QueueOpModel::WriteBuffer {
                    buffer_id: c1.gadgets[a.label].buffer.id,
                    data: a.data,
                },
            ]
        } else {
            Seq::empty()
        };
        let a2 = AttributeModel { needs_update_value: false, needs_update_buffer: false, ..a };
        let rest = attrs_apply(c2, d1, attrs.drop_first());
        AttrsApplied {
            conveyor: rest.conveyor,
            device: rest.device,
            ops: ops1 + rest.ops,
            attrs: seq![a2] + rest.attrs,
        }
    }
}

/// Whether every attribute that needs a value upload addresses a label that
/// is registered by the time the upload happens.
pub open spec fn attrs_ok(dom: Set<Seq<char>>, attrs: Seq<AttributeModel>) -> bool
    decreases attrs.len(),
{
    if attrs.len() == 0 {
        true
    } else {
        let a = attrs[0];
        let dom1 = if a.needs_update_buffer {
            dom.insert(a.label)
        } else {
            dom
        };
        &&& (a.needs_update_value ==> dom1.contains(a.label))
        &&& attrs_ok(dom1, attrs.drop_first())
    }
}

/// Whether every value upload fits the declared size of the resource it
/// addresses by the time the upload happens.
pub open spec fn attrs_fit(sizes: Map<Seq<char>, u64>, attrs: Seq<AttributeModel>) -> bool
    decreases attrs.len(),
{
    if attrs.len() == 0 {
        true
    } else {
        let a = attrs[0];
        let sizes1 = if a.needs_update_buffer {
            sizes.insert(a.label, a.data.len() as u64)
        } else {
            sizes
        };
        &&& (a.needs_update_value && sizes1.dom().contains(a.label) ==> a.data.len()
            <= sizes1[a.label])
        &&& attrs_fit(sizes1, attrs.drop_first())
    }
}

/// The declared sizes of a registry's resources.
pub open spec fn sizes_of(gadgets: Map<Seq<char>, crate::render::conveyor::GadgetModel>) -> Map<
    Seq<char>,
    u64,
> {
    Map::new(|l: Seq<char>| gadgets.dom().contains(l), |l: Seq<char>| gadgets[l].buffer.size)
}

/// Everything one mesh's step produces: the shared and per-geometry
/// registries afterwards, the device and pipeline cache afterwards, the
/// pipeline the draw uses, the commands recorded in order, and the mesh's
/// attributes with their flags cleared.
#[verifier::ext_equal]
pub struct MeshStep {
    pub shared: ConveyorModel,
    pub geo: ConveyorModel,
    pub device: DeviceModel,
    pub pipelines: PipelineManagerModel,
    pub pipeline: RenderPipelineModel,
    pub ops: Seq<QueueOpModel>,
    pub attrs: Seq<AttributeModel>,
}

/// One mesh's step of the frame: write the mesh's model matrix into the
/// shared registry, run the per-attribute pass on its geometry registry,
/// rebuild both registries' bundles if either is dirty, resolve the pipeline
/// (forcing a rebuild exactly when a rebuild happened), then bind the shared
/// bundles, the geometry bundles and the pipeline, and draw the geometry's
/// vertices.
pub open spec fn mesh_step(
    shared: ConveyorModel,
    geo: ConveyorModel,
    dev: DeviceModel,
    pm: PipelineManagerModel,
    fmt: TextureFormat,
    mesh: MeshModel,
) -> MeshStep {
    let shared1 = write_model(shared, model_mat_label(), mesh.matrix_data);
    let applied = attrs_apply(geo, dev, mesh.geometry.attributes);
    let needs = shared1.dirty || applied.conveyor.dirty;
    let shared2 = if needs {
        rebuild_model(shared1)
    } else {
        shared1
    };
    let geo2 = if needs {
        rebuild_model(applied.conveyor)
    } else {
        applied.conveyor
    };
    let layouts = collect_model(seq![shared2.bundles, geo2.bundles]);
    let acq = pipeline_acquire_model(
        pm,
        mesh.material_identifier,
        fmt,
        mesh.material_shader_code,
        layouts,
        needs,
    );
    MeshStep {
        shared: shared2,
        geo: geo2,
        device: applied.device,
        pipelines: acq.0,
        pipeline: acq.1,
        ops: seq![
            QueueOpModel::WriteBuffer {
                buffer_id: shared.gadgets[model_mat_label()].buffer.id,
                data: mesh.matrix_data,
            },
        ] + applied.ops + bind_ops_from(shared2.bundles, 0) + bind_ops_from(geo2.bundles, 0)
            + seq![
            QueueOpModel::SetPipeline { pipeline: acq.1 },
            QueueOpModel::Draw {
                vertices: mesh.geometry.attributes[0].data.len() as u32 / 4,
            },
        ],
        attrs: applied.attrs,
    }
}

/// The per-attribute pass clears both flags of every attribute and changes
/// nothing else about it.
pub proof fn lemma_attrs_apply_shape(
    c: ConveyorModel,
    d: DeviceModel,
    attrs: Seq<AttributeModel>,
)
    ensures
        attrs_apply(c, d, attrs).attrs.len() == attrs.len(),
        forall|j: int|
            0 <= j < attrs.len() ==> attrs_apply(c, d, attrs).attrs[j] == (AttributeModel {
                needs_update_value: false,
                needs_update_buffer: false,
                ..attrs[j]
            }),
    decreases attrs.len(),
{
    if attrs.len() > 0 {
        let a = attrs[0];
        let c1 = if a.needs_update_buffer {
            upsert_model(
                c,
                d.next_buffer_id,
                a.label,
                a.index,
                a.data.len() as u64,
                attr_usage(),
                attr_binding_type(),
            )
        } else {
            c
        };
        let d1 = if a.needs_update_buffer {
            device_create_model(d, a.label, a.data.len() as u64, attr_usage(), attr_binding_type())
        } else {
            d
        };
        let c2 = if a.needs_update_value {
            write_model(c1, a.label, a.data)
        } else {
            c1
        };
        lemma_attrs_apply_shape(c2, d1, attrs.drop_first());
        assert(forall|j: int|
            0 <= j < attrs.drop_first().len() ==> #[trigger] attrs.drop_first()[j] == attrs[j
                + 1]);
    }
}

/// The per-geometry registry a mesh's step starts from: the pooled one, or
/// a fresh empty one the acquire creates.
pub open spec fn mesh_geo0(pool: Seq<(Seq<char>, ConveyorModel)>, gid: Seq<char>) -> ConveyorModel {
    pool_acquire_pool(pool, gid)[pool_acquire_idx(pool, gid)].1
}

/// One mesh's step, taken from a renderer's current state.
pub open spec fn mesh_step_of(r: Renderer, mesh: MeshModel) -> MeshStep {
    mesh_step(
        r.shared_conveyor@,
        mesh_geo0(r.conveyor_manager@, mesh.geometry.identifier),
        r.device@,
        r.pipeline_manager@,
        r.texture_format,
        mesh,
    )
}

/// Everything one frame produces over a scene's meshes: whether every mesh
/// could be drawn, the orchestrator state afterwards, the commands recorded
/// after the camera writes, and the meshes with their flags cleared. On a
/// refused mesh the frame stops with the state it had reached.
#[verifier::ext_equal]
pub struct FrameStep {
    pub ok: bool,
    pub fits: bool,
    pub shared: ConveyorModel,
    pub pool: Seq<(Seq<char>, ConveyorModel)>,
    pub device: DeviceModel,
    pub pipelines: PipelineManagerModel,
    pub ops: Seq<QueueOpModel>,
    pub meshes: Seq<MeshModel>,
}

/// The per-frame fold over the scene's meshes, in traversal order.
pub open spec fn frame_apply(
    shared: ConveyorModel,
    pool: Seq<(Seq<char>, ConveyorModel)>,
    dev: DeviceModel,
    pm: PipelineManagerModel,
    fmt: TextureFormat,
    meshes: Seq<MeshModel>,
) -> FrameStep
    decreases meshes.len(),
{
    if meshes.len() == 0 {
        FrameStep {
            ok: true,
            fits: true,
            shared,
            pool,
            device: dev,
            pipelines: pm,
            ops: Seq::empty(),
            meshes: Seq::empty(),
        }
    } else {
        let mesh = meshes[0];
        let gid = mesh.geometry.identifier;
        let geo0 = mesh_geo0(pool, gid);
        if !attrs_ok(geo0.gadgets.dom(), mesh.geometry.attributes) {
            FrameStep {
                ok: false,
                fits: attrs_fit(sizes_of(geo0.gadgets), mesh.geometry.attributes),
                shared,
                pool,
                device: dev,
                pipelines: pm,
                ops: Seq::empty(),
                meshes,
            }
        } else {
            let step = mesh_step(shared, geo0, dev, pm, fmt, mesh);
            let pool1 = pool_acquire_pool(pool, gid).update(
                pool_acquire_idx(pool, gid),
                (gid, step.geo),
            );
            let mesh1 = MeshModel {
                geometry: crate::geometry::geometry::GeometryModel {
                    attributes: step.attrs,
                    identifier: gid,
                },
                ..mesh
            };
            let rest = frame_apply(
                step.shared,
                pool1,
                step.device,
                step.pipelines,
                fmt,
                meshes.drop_first(),
            );
            FrameStep {
                ok: rest.ok,
                fits: attrs_fit(sizes_of(geo0.gadgets), mesh.geometry.attributes) && rest.fits,
                shared: rest.shared,
                pool: rest.pool,
                device: rest.device,
                pipelines: rest.pipelines,
                ops: step.ops + rest.ops,
                meshes: seq![mesh1] + rest.meshes,
            }
        }
    }
}

/// What one frame does to a renderer, after the camera's view and projection
/// bytes have been written into the shared registry.
pub open spec fn frame_of(
    r: Renderer,
    view: Seq<u8>,
    proj: Seq<u8>,
    meshes: Seq<MeshModel>,
) -> FrameStep {
    frame_apply(
        write_model(
            write_model(r.shared_conveyor@, view_mat_label(), view),
            projection_mat_label(),
            proj,
        ),
        r.conveyor_manager@,
        r.device@,
        r.pipeline_manager@,
        r.texture_format,
        meshes,
    )
}

/// The camera writes a frame records before any mesh is drawn.
pub open spec fn camera_ops(r: Renderer, view: Seq<u8>, proj: Seq<u8>) -> Seq<QueueOpModel> {
    seq![
        QueueOpModel::WriteBuffer {
            buffer_id: r.shared_conveyor@.gadgets[view_mat_label()].buffer.id,
            data: view,
        },
        QueueOpModel::WriteBuffer {
            buffer_id: write_model(
                r.shared_conveyor@,
                view_mat_label(),
                view,
            ).gadgets[projection_mat_label()].buffer.id,
            data: proj,
        },
    ]
}

/// Everything a mesh must satisfy before a frame may draw it.
pub open spec fn mesh_drawable(mesh: MeshModel) -> bool {
    &&& mesh.matrix_data.len() <= MAT4_BYTES
    &&& mesh.geometry.attributes.len() > 0
    &&& mesh.geometry.attributes[0].data.len() <= u32::MAX
    &&& forall|k: int|
        0 <= k < mesh.geometry.attributes.len() ==> (#[trigger] mesh.geometry.attributes[k]).index.group_index
            < u32::MAX
}

/// The number of attributes a scene carries in all.
pub open spec fn total_attrs(meshes: Seq<MeshModel>) -> int
    decreases meshes.len(),
{
    if meshes.len() == 0 {
        0
    } else {
        meshes[0].geometry.attributes.len() + total_attrs(meshes.drop_first())
    }
}

/// The per-attribute pass issues at most one buffer per attribute.
pub proof fn lemma_attrs_apply_device(
    c: ConveyorModel,
    d: DeviceModel,
    attrs: Seq<AttributeModel>,
)
    requires
        d.next_buffer_id + attrs.len() <= u64::MAX,
    ensures
        attrs_apply(c, d, attrs).device.next_buffer_id <= d.next_buffer_id + attrs.len(),
        attrs_apply(c, d, attrs).device.next_buffer_id >= d.next_buffer_id,
    decreases attrs.len(),
{
    if attrs.len() > 0 {
        let a = attrs[0];
        let c1 = if a.needs_update_buffer {
            upsert_model(
                c,
                d.next_buffer_id,
                a.label,
                a.index,
                a.data.len() as u64,
                attr_usage(),
                attr_binding_type(),
            )
        } else {
            c
        };
        let d1 = if a.needs_update_buffer {
            device_create_model(d, a.label, a.data.len() as u64, attr_usage(), attr_binding_type())
        } else {
            d
        };
        let c2 = if a.needs_update_value {
            write_model(c1, a.label, a.data)
        } else {
            c1
        };
        lemma_attrs_apply_device(c2, d1, attrs.drop_first());
    }
}

/// Law: a mesh's step records the write of its own model matrix as its first
/// command and its own draw as its last. Together with the frame fold, which
/// concatenates the steps in traversal order, every draw observes the model
/// matrix written for its own mesh: a later mesh's write comes after every
/// earlier draw and before its own.
pub proof fn lemma_model_write_precedes_draw(
    shared: ConveyorModel,
    geo: ConveyorModel,
    dev: DeviceModel,
    pm: PipelineManagerModel,
    fmt: TextureFormat,
    mesh: MeshModel,
)
    ensures
        mesh_step(shared, geo, dev, pm, fmt, mesh).ops.len() >= 2,
        mesh_step(shared, geo, dev, pm, fmt, mesh).ops.first()
            == (QueueOpModel::WriteBuffer {
            buffer_id: shared.gadgets[model_mat_label()].buffer.id,
            data: mesh.matrix_data,
        }),
        mesh_step(shared, geo, dev, pm, fmt, mesh).ops.last() == (QueueOpModel::Draw {
            vertices: mesh.geometry.attributes[0].data.len() as u32 / 4,
        }),
{
    let step = mesh_step(shared, geo, dev, pm, fmt, mesh);
    assert(step.ops.first() == (QueueOpModel::WriteBuffer {
        buffer_id: shared.gadgets[model_mat_label()].buffer.id,
        data: mesh.matrix_data,
    }));
    assert(step.ops.last() == (QueueOpModel::Draw {
        vertices: mesh.geometry.attributes[0].data.len() as u32 / 4,
    }));
}

/// Law: when a frame draws two meshes, the second mesh's model-matrix write
/// is recorded after the first mesh's draw and before the second mesh's own
/// draw, so no draw ever observes a sibling's transform.
pub proof fn lemma_sibling_transforms(
    shared: ConveyorModel,
    pool: Seq<(Seq<char>, ConveyorModel)>,
    dev: DeviceModel,
    pm: PipelineManagerModel,
    fmt: TextureFormat,
    meshes: Seq<MeshModel>,
)
    requires
        meshes.len() == 2,
        frame_apply(shared, pool, dev, pm, fmt, meshes).ok,
    ensures
        ({
            let first = mesh_step(
                shared,
                mesh_geo0(pool, meshes[0].geometry.identifier),
                dev,
                pm,
                fmt,
                meshes[0],
            );
            let ops = frame_apply(shared, pool, dev, pm, fmt, meshes).ops;
            let boundary = first.ops.len() as int;
            &&& ops.len() >= boundary + 2
            &&& ops[boundary - 1] == (QueueOpModel::Draw {
                vertices: meshes[0].geometry.attributes[0].data.len() as u32 / 4,
            })
            &&& ops[boundary] == (QueueOpModel::WriteBuffer {
                buffer_id: first.shared.gadgets[model_mat_label()].buffer.id,
                data: meshes[1].matrix_data,
            })
            &&& ops.last() == (QueueOpModel::Draw {
                vertices: meshes[1].geometry.attributes[0].data.len() as u32 / 4,
            })
        }),
{
    let gid0 = meshes[0].geometry.identifier;
    let geo0 = mesh_geo0(pool, gid0);
    let first = mesh_step(shared, geo0, dev, pm, fmt, meshes[0]);
    let pool1 = pool_acquire_pool(pool, gid0).update(
        pool_acquire_idx(pool, gid0),
        (gid0, first.geo),
    );
    let rest = meshes.drop_first();
    assert(rest[0] == meshes[1]);
    assert(rest.drop_first().len() == 0);
    let gid1 = meshes[1].geometry.identifier;
    let geo1 = mesh_geo0(pool1, gid1);
    let second = mesh_step(first.shared, geo1, first.device, first.pipelines, fmt, meshes[1]);
    lemma_model_write_precedes_draw(shared, geo0, dev, pm, fmt, meshes[0]);
    lemma_model_write_precedes_draw(
        first.shared,
        geo1,
        first.device,
        first.pipelines,
        fmt,
        meshes[1],
    );
    let ops = frame_apply(shared, pool, dev, pm, fmt, meshes).ops;
    assert(attrs_ok(geo0.gadgets.dom(), meshes[0].geometry.attributes)) by {
        if !attrs_ok(geo0.gadgets.dom(), meshes[0].geometry.attributes) {
            assert(!frame_apply(shared, pool, dev, pm, fmt, meshes).ok);
        }
    }
    let rest_fold = frame_apply(first.shared, pool1, first.device, first.pipelines, fmt, rest);
    assert(ops == first.ops + rest_fold.ops);
    assert(attrs_ok(geo1.gadgets.dom(), meshes[1].geometry.attributes)) by {
        if !attrs_ok(geo1.gadgets.dom(), meshes[1].geometry.attributes) {
            assert(!rest_fold.ok);
        }
    }
    let pool2 = pool_acquire_pool(pool1, gid1).update(
        pool_acquire_idx(pool1, gid1),
        (gid1, second.geo),
    );
    let empty_fold = frame_apply(
        second.shared,
        pool2,
        second.device,
        second.pipelines,
        fmt,
        rest.drop_first(),
    );
    assert(rest_fold.ops == second.ops + empty_fold.ops);
    assert(empty_fold.ops =~= Seq::<QueueOpModel>::empty());
    assert(rest_fold.ops =~= second.ops);
    assert(ops =~= first.ops + second.ops);
    assert(ops[first.ops.len() as int - 1] == first.ops.last());
    assert(ops[first.ops.len() as int] == second.ops.first());
    assert(ops.last() == second.ops.last());
    // a rebuild does not change which resource the model label names
    assert(first.shared.gadgets[model_mat_label()]
        == write_model(shared, model_mat_label(), meshes[0].matrix_data).gadgets[model_mat_label()]);
}

/// A scene carries a non-negative number of attributes.
proof fn lemma_total_attrs_nonneg(meshes: Seq<MeshModel>)
    ensures
        total_attrs(meshes) >= 0,
    decreases meshes.len(),
{
    if meshes.len() > 0 {
        lemma_total_attrs_nonneg(meshes.drop_first());
    }
}

/// Whether some string of the list has the given character sequence.
fn contains_label(v: &Vec<String>, l: &str) -> (b: bool)
    ensures
        b == exists|t: int| 0 <= t < v@.len() && (#[trigger] v@[t])@ == l@,
{
    let n = v.len();
    for t in 0..n
        invariant
            n == v@.len(),
            forall|x: int| 0 <= x < t ==> (#[trigger] v@[x])@ != l@,
    {
        if crate::kv::str_eq(v[t].as_str(), l) {
            return true;
        }
    }
    false
}

/// Whether every value upload among the attributes addresses a label that is
/// registered by the time the upload would happen, against a geometry
/// registry that may not exist yet.
fn uploads_resolvable(
    geo: Option<&Conveyor>,
    attrs: &Vec<crate::geometry::geometry::Attribute>,
) -> (ok: bool)
    ensures
        ok == attrs_ok(
            match geo {
                Some(c) => c@.gadgets.dom(),
                None => Set::<Seq<char>>::empty(),
            },
            crate::geometry::geometry::attrs_view(attrs@),
        ),
{
    let ghost dom0: Set<Seq<char>> = match geo {
        Some(c) => c@.gadgets.dom(),
        None => Set::<Seq<char>>::empty(),
    };
    let ghost attrs0 = crate::geometry::geometry::attrs_view(attrs@);
    let n = attrs.len();
    let mut added: Vec<String> = Vec::new();
    let ghost mut domc = dom0;
    proof {
        assert(attrs0.skip(0) =~= attrs0);
    }
    for k in 0..n
        invariant
            n == attrs0.len(),
            attrs@.len() == n,
            forall|j: int| 0 <= j < n ==> ((#[trigger] attrs@[j])@) == attrs0[j],
            forall|l: Seq<char>|
                #[trigger] domc.contains(l) <==> dom0.contains(l) || exists|t: int|
                    0 <= t < added@.len() && (#[trigger] added@[t])@ == l,
            attrs_ok(dom0, attrs0) == attrs_ok(domc, attrs0.skip(k as int)),
            match geo {
                Some(c) => c@.gadgets.dom() == dom0,
                None => dom0 =~= Set::<Seq<char>>::empty(),
            },
    {
        let a = &attrs[k];
        proof {
            assert((*a)@ == attrs0[k as int]);
            assert(attrs0.skip(k as int)[0] == attrs0[k as int]);
            assert(attrs0.skip(k as int).drop_first() =~= attrs0.skip(k as int + 1));
        }
        let ghost a0 = attrs0[k as int];
        let ghost dom1: Set<Seq<char>> = if a0.needs_update_buffer {
            domc.insert(a0.label)
        } else {
            domc
        };
        if a.needs_update_value {
            let mut found = a.needs_update_buffer;
            if !found {
                found = match geo {
                    Some(c) => c.has_gadget(a.label.as_str()),
                    None => false,
                };
            }
            if !found {
                found = contains_label(&added, a.label.as_str());
            }
            if !found {
                proof {
                    assert(!domc.contains(a0.label));
                    assert(!dom1.contains(a0.label));
                    assert(!attrs_ok(domc, attrs0.skip(k as int)));
                    assert(!attrs_ok(dom0, attrs0));
                    assert(dom0 == match geo {
                        Some(c) => c@.gadgets.dom(),
                        None => Set::<Seq<char>>::empty(),
                    });
                    assert(attrs0 == crate::geometry::geometry::attrs_view(attrs@));
                }
                return false;
            }
            proof {
                assert(dom1.contains(a0.label));
            }
        }
        let ghost domc0 = domc;
        let ghost added0 = added@;
        if a.needs_update_buffer {
            added.push(a.label.clone());
        }
        proof {
            domc = dom1;
            if a0.needs_update_buffer {
                assert(added@.len() == added0.len() + 1);
                assert((added@[added@.len() - 1])@ == a0.label);
                assert(forall|t: int| 0 <= t < added0.len() ==> added@[t] == added0[t]);
                assert forall|l: Seq<char>|
                    #[trigger] domc.contains(l) <==> dom0.contains(l) || exists|t: int|
                        0 <= t < added@.len() && (#[trigger] added@[t])@ == l by {
                    if l == a0.label {
                        assert((added@[added@.len() - 1])@ == l);
                        assert(domc.contains(l));
                    } else {
                        assert(domc.contains(l) == domc0.contains(l));
                        if exists|t: int|
                            0 <= t < added@.len() && (#[trigger] added@[t])@ == l {
                            let t = choose|t: int|
                                0 <= t < added@.len() && (#[trigger] added@[t])@ == l;
                            assert(t < added0.len());
                            assert(added0[t]@ == l);
                        }
                        if exists|t: int|
                            0 <= t < added0.len() && (#[trigger] added0[t])@ == l {
                            let t = choose|t: int|
                                0 <= t < added0.len() && (#[trigger] added0[t])@ == l;
                            assert(added@[t]@ == l);
                        }
                    }
                }
            }
        }
    }
    proof {
        assert(attrs0.skip(n as int).len() == 0);
        assert(attrs_ok(domc, attrs0.skip(n as int)));
    }
    true
}

/// The per-attribute update pass of one mesh, against its geometry registry:
/// reallocates every attribute flagged for it, uploads every attribute
/// flagged for it, and clears the flags.
#[verifier::rlimit(100)]
#[verifier::spinoff_prover]
fn apply_attributes(
    conveyor: &mut Conveyor,
    device: &mut Device,
    render_pass: &mut Queue,
    attrs: &mut Vec<crate::geometry::geometry::Attribute>,
)
    requires
        old(conveyor).inv(),
        attrs_ok(
            old(conveyor)@.gadgets.dom(),
            crate::geometry::geometry::attrs_view(old(attrs)@),
        ),
        attrs_fit(
            sizes_of(old(conveyor)@.gadgets),
            crate::geometry::geometry::attrs_view(old(attrs)@),
        ),
        old(device)@.next_buffer_id + old(attrs)@.len() <= u64::MAX,
        forall|k: int|
            0 <= k < old(attrs)@.len() ==> ((#[trigger] old(attrs)@[k])@).index.group_index
                < u32::MAX,
        old(conveyor)@.groups.len() <= u32::MAX as int,
        old(conveyor)@.bundles.len() <= old(conveyor)@.groups.len(),
    ensures
        final(conveyor).inv(),
        final(conveyor)@ == attrs_apply(
            old(conveyor)@,
            old(device)@,
            crate::geometry::geometry::attrs_view(old(attrs)@),
        ).conveyor,
        final(device)@ == attrs_apply(
            old(conveyor)@,
            old(device)@,
            crate::geometry::geometry::attrs_view(old(attrs)@),
        ).device,
        final(render_pass)@ == old(render_pass)@ + attrs_apply(
            old(conveyor)@,
            old(device)@,
            crate::geometry::geometry::attrs_view(old(attrs)@),
        ).ops,
        crate::geometry::geometry::attrs_view(final(attrs)@) == attrs_apply(
            old(conveyor)@,
            old(device)@,
            crate::geometry::geometry::attrs_view(old(attrs)@),
        ).attrs,
        final(conveyor)@.groups.len() <= u32::MAX as int,
        final(conveyor)@.bundles.len() <= final(conveyor)@.groups.len(),
{
    let ghost attrs0 = crate::geometry::geometry::attrs_view(old(attrs)@);
    let ghost full = attrs_apply(old(conveyor)@, old(device)@, attrs0);
    let ghost q0 = render_pass@;
    let ghost mut wops: Seq<QueueOpModel> = Seq::empty();
    let ghost mut done_attrs: Seq<AttributeModel> = Seq::empty();
    let n = attrs.len();
    proof {
        assert(attrs0.skip(0) =~= attrs0);
    }
    for k in 0..n
        invariant
            n == attrs0.len(),
            attrs@.len() == n,
            forall|j: int| k <= j < n ==> ((#[trigger] attrs@[j])@) == attrs0[j],
            forall|j: int| 0 <= j < k ==> ((#[trigger] attrs@[j])@) == done_attrs[j],
            done_attrs.len() == k,
            conveyor.inv(),
            full.conveyor == attrs_apply(conveyor@, device@, attrs0.skip(k as int)).conveyor,
            full.device == attrs_apply(conveyor@, device@, attrs0.skip(k as int)).device,
            full.ops == wops + attrs_apply(conveyor@, device@, attrs0.skip(k as int)).ops,
            full.attrs == done_attrs + attrs_apply(conveyor@, device@, attrs0.skip(k as int)).attrs,
            render_pass@ == q0 + wops,
            attrs_ok(conveyor@.gadgets.dom(), attrs0.skip(k as int)),
            attrs_fit(sizes_of(conveyor@.gadgets), attrs0.skip(k as int)),
            device@.next_buffer_id + (n - k) <= u64::MAX,
            forall|j: int|
                0 <= j < n ==> (#[trigger] attrs0[j]).index.group_index < u32::MAX,
            conveyor@.groups.len() <= u32::MAX as int,
            conveyor@.bundles.len() <= conveyor@.groups.len(),
    {
        let ghost cpre = conveyor@;
        let ghost dpre = device@;
        let ghost suffix = attrs0.skip(k as int);
        proof {
            assert(suffix[0] == attrs0[k as int]);
            assert(suffix.drop_first() =~= attrs0.skip(k as int + 1));
        }
        let ghost a0 = attrs0[k as int];
        let ghost c1 = if a0.needs_update_buffer {
            upsert_model(
                cpre,
                dpre.next_buffer_id,
                a0.label,
                a0.index,
                a0.data.len() as u64,
                attr_usage(),
                attr_binding_type(),
            )
        } else {
            cpre
        };
        let a = &mut attrs[k];
        proof {
            assert((*a)@ == a0);
        }
        if a.needs_update_buffer {
            conveyor.upsert_gadget(
                device,
                &GadgetDescriptor {
                    label: a.label.as_str(),
                    index: a.index,
                    size: a.data.len() as u64,
                    usage: BufferUsages { uniform: false, storage: true, copy_dst: true },
                    ty: BufferBindingType::Storage { read_only: true },
                },
            );
            a.needs_update_buffer = false;
            proof {
                assert(conveyor@ == c1);
                assert(conveyor@.gadgets.dom() =~= cpre.gadgets.dom().insert(a0.label));
                assert(sizes_of(conveyor@.gadgets) =~= sizes_of(cpre.gadgets).insert(
                    a0.label,
                    a0.data.len() as u64,
                ));
            }
        }
        if a.needs_update_value {
            proof {
                assert(c1.gadgets.dom().contains(a0.label));
                assert(c1.gadgets[a0.label].buffer.size >= a0.data.len());
            }
            let res = conveyor.update_gadget(render_pass, a.label.as_str(), a.data.as_slice());
            match res {
                Ok(()) => (),
                Err(_) => {
                    // unreachable: the label was registered by the time the
                    // upload happens
                    proof {
                        assert(false);
                    }
                },
            }
            a.needs_update_value = false;
        }
        proof {
            let c2 = if a0.needs_update_value {
                write_model(c1, a0.label, a0.data)
            } else {
                c1
            };
            let ops1: Seq<QueueOpModel> = if a0.needs_update_value {
                seq![
                    QueueOpModel::WriteBuffer {
                        buffer_id: c1.gadgets[a0.label].buffer.id,
                        data: a0.data,
                    },
                ]
            } else {
                Seq::empty()
            };
            let a2 = AttributeModel {
                needs_update_value: false,
                needs_update_buffer: false,
                ..a0
            };
            assert(conveyor@ == c2);
            assert(c2.gadgets.dom() =~= c1.gadgets.dom());
            assert(sizes_of(c2.gadgets) =~= sizes_of(c1.gadgets));
            assert(attrs_apply(cpre, dpre, suffix).conveyor == attrs_apply(
                conveyor@,
                device@,
                attrs0.skip(k as int + 1),
            ).conveyor);
            assert(attrs_apply(cpre, dpre, suffix).device == attrs_apply(
                conveyor@,
                device@,
                attrs0.skip(k as int + 1),
            ).device);
            assert(attrs_apply(cpre, dpre, suffix).ops == ops1 + attrs_apply(
                conveyor@,
                device@,
                attrs0.skip(k as int + 1),
            ).ops);
            assert(attrs_apply(cpre, dpre, suffix).attrs == seq![a2] + attrs_apply(
                conveyor@,
                device@,
                attrs0.skip(k as int + 1),
            ).attrs);
            wops = wops + ops1;
            done_attrs = done_attrs.push(a2);
            assert(render_pass@ =~= q0 + wops);
            assert(full.ops =~= wops + attrs_apply(conveyor@, device@, attrs0.skip(k as int + 1)).ops);
            assert(full.attrs =~= done_attrs + attrs_apply(
                conveyor@,
                device@,
                attrs0.skip(k as int + 1),
            ).attrs);
            assert((*a)@ == a2);
        }
    }
    proof {
        assert(attrs0.skip(n as int).len() == 0);
        assert(full.conveyor == conveyor@);
        assert(full.device == device@);
        assert(full.ops =~= wops);
        assert(render_pass@ =~= q0 + full.ops);
        assert(full.attrs =~= done_attrs);
        assert(crate::geometry::geometry::attrs_view(attrs@) =~= done_attrs);
    }
}

/// The frame orchestrator: owns the shared per-frame registry, the pool of
/// per-geometry registries, the pipeline cache and the modelled device, and
/// drives one frame into an ordered command stream.
pub struct Renderer {
    pub surface_width: u32,
    pub surface_height: u32,
    pub texture_format: TextureFormat,
    pub device: Device,
    pub pipeline_manager: PipelineManager,
    pub conveyor_manager: ConveyorManager,
    pub shared_conveyor: Conveyor,
}

impl Renderer {
    /// Everything the per-frame logic relies on between frames.
    pub open spec fn inv(&self) -> bool {
        &&& self.shared_conveyor.inv()
        &&& shared_ok(self.shared_conveyor@)
        &&& self.conveyor_manager.inv()
        &&& forall|i: int|
            0 <= i < self.conveyor_manager@.len() ==> pooled_ok(
                (#[trigger] self.conveyor_manager@[i]).1,
            )
        &&& self.pipeline_manager.inv()
    }

    /// A renderer drawing into targets of the given format: the shared
    /// registry is created with the view, projection and model matrix
    /// resources registered, and every cache starts empty.
    pub fn new(texture_format: TextureFormat) -> (r: Renderer)
        ensures
            r.inv(),
            r.surface_width == 100,
            r.surface_height == 100,
            r.texture_format == texture_format,
            r.device@ == device_init_model(),
            r.shared_conveyor@ == shared_init_model(),
            r.conveyor_manager@ == Seq::<(Seq<char>, ConveyorModel)>::empty(),
            r.pipeline_manager@.pool == Map::<Seq<char>, RenderPipelineModel>::empty(),
            r.pipeline_manager@.next_pipeline_id == 0,
    {
        let mut device = Device::new();
        let mut shared_conveyor = Conveyor::new();
        shared_conveyor.upsert_gadget(
            &mut device,
            &GadgetDescriptor {
                label: "mraphics-view-mat",
                index: GadgetIndex { group_index: 0, binding_index: 0 },
                size: MAT4_BYTES,
                usage: BufferUsages { uniform: true, storage: false, copy_dst: true },
                ty: BufferBindingType::Uniform,
            },
        );
        shared_conveyor.upsert_gadget(
            &mut device,
            &GadgetDescriptor {
                label: "mraphics-projection-mat",
                index: GadgetIndex { group_index: 0, binding_index: 1 },
                size: MAT4_BYTES,
                usage: BufferUsages { uniform: true, storage: false, copy_dst: true },
                ty: BufferBindingType::Uniform,
            },
        );
        shared_conveyor.upsert_gadget(
            &mut device,
            &GadgetDescriptor {
                label: "mraphics-model-mat",
                index: GadgetIndex { group_index: 0, binding_index: 2 },
                size: MAT4_BYTES,
                usage: BufferUsages { uniform: true, storage: false, copy_dst: true },
                ty: BufferBindingType::Uniform,
            },
        );
        let r = Renderer {
            surface_width: 100,
            surface_height: 100,
            texture_format,
            device,
            pipeline_manager: PipelineManager::new(),
            conveyor_manager: ConveyorManager::new(),
            shared_conveyor,
        };
        proof {
            reveal_strlit("mraphics-view-mat");
            reveal_strlit("mraphics-projection-mat");
            reveal_strlit("mraphics-model-mat");
            assert(view_mat_label().len() == 17);
            assert(projection_mat_label().len() == 23);
            assert(model_mat_label().len() == 18);
            assert(view_mat_label() != model_mat_label());
            assert(projection_mat_label() != model_mat_label());
            assert(view_mat_label() != projection_mat_label());
            assert(r.shared_conveyor@ == shared_init_model());
            assert(r.device@ == device_init_model());
            assert(shared_ok(r.shared_conveyor@));
        }
        r
    }

    /// Draws one mesh into the command stream: writes its model matrix into
    /// the shared registry, reallocates and uploads its geometry's flagged
    /// attributes, rebuilds both registries' bundles when either is dirty,
    /// resolves its material's pipeline (forcing a fresh compile exactly when
    /// a rebuild happened), binds the shared bundles and then the geometry
    /// bundles, and issues one draw over the geometry's vertices. Fails with
    /// [`ConveyorError::UnknownGadgetLabel`], recording and changing nothing,
    /// exactly when some attribute asks for a value upload under a label that
    /// is not registered by the time the upload would happen.
    #[verifier::rlimit(100)]
    #[verifier::spinoff_prover]
    pub fn render_mesh(&mut self, render_pass: &mut Queue, mesh: &mut Mesh) -> (r: Result<
        (),
        ConveyorError,
    >)
        requires
            old(self).inv(),
            old(mesh)@.matrix_data.len() <= MAT4_BYTES,
            old(mesh)@.geometry.attributes.len() > 0,
            old(mesh)@.geometry.attributes[0].data.len() <= u32::MAX,
            forall|k: int|
                0 <= k < old(mesh)@.geometry.attributes.len() ==> (#[trigger] old(
                    mesh,
                )@.geometry.attributes[k]).index.group_index < u32::MAX,
            old(self).device@.next_buffer_id + old(mesh)@.geometry.attributes.len() <= u64::MAX,
            old(self).pipeline_manager@.next_pipeline_id < u64::MAX,
            attrs_fit(
                sizes_of(
                    mesh_geo0(
                        old(self).conveyor_manager@,
                        old(mesh)@.geometry.identifier,
                    ).gadgets,
                ),
                old(mesh)@.geometry.attributes,
            ),
        ensures
            final(self).inv(),
            final(self).surface_width == old(self).surface_width,
            final(self).surface_height == old(self).surface_height,
            final(self).texture_format == old(self).texture_format,
            r is Ok <==> attrs_ok(
                mesh_geo0(old(self).conveyor_manager@, old(mesh)@.geometry.identifier).gadgets.dom(),
                old(mesh)@.geometry.attributes,
            ),
            r is Err ==> r == Result::<(), ConveyorError>::Err(ConveyorError::UnknownGadgetLabel)
                && *final(self) == *old(self) && final(render_pass)@ == old(render_pass)@
                && final(mesh)@ == old(mesh)@,
            r is Ok ==> final(self).shared_conveyor@ == mesh_step_of(*old(self), old(mesh)@).shared,
            r is Ok ==> final(self).device@ == mesh_step_of(*old(self), old(mesh)@).device,
            r is Ok ==> final(self).pipeline_manager@ == mesh_step_of(
                *old(self),
                old(mesh)@,
            ).pipelines,
            r is Ok ==> final(self).conveyor_manager@ == pool_acquire_pool(
                old(self).conveyor_manager@,
                old(mesh)@.geometry.identifier,
            ).update(
                pool_acquire_idx(old(self).conveyor_manager@, old(mesh)@.geometry.identifier),
                (old(mesh)@.geometry.identifier, mesh_step_of(*old(self), old(mesh)@).geo),
            ),
            r is Ok ==> final(render_pass)@ == old(render_pass)@ + mesh_step_of(
                *old(self),
                old(mesh)@,
            ).ops,
            r is Ok ==> final(mesh)@ == (MeshModel {
                geometry: crate::geometry::geometry::GeometryModel {
                    attributes: mesh_step_of(*old(self), old(mesh)@).attrs,
                    identifier: old(mesh)@.geometry.identifier,
                },
                ..old(mesh)@
            }),
    {
        let ghost pre = *self;
        let ghost mesh0 = mesh@;
        let ghost gid = mesh0.geometry.identifier;
        let ghost geo0 = mesh_geo0(pre.conveyor_manager@, gid);
        let ghost attrs0 = mesh0.geometry.attributes;
        let ghost step = mesh_step_of(pre, mesh0);

        // refuse the mesh before any effect when some upload addresses an
        // unregistered label
        let resolvable = {
            let existing = self.conveyor_manager.get_conveyor(mesh.geometry.identifier());
            proof {
                crate::render::conveyor_manager::lemma_pool_key_index(pre.conveyor_manager@, gid);
                match existing {
                    Some(c) => {
                        assert(geo0 == c@);
                    },
                    None => {
                        assert(geo0 == empty_conveyor_model());
                        assert(geo0.gadgets.dom() =~= Set::<Seq<char>>::empty());
                    },
                }
            }
            let attrs_ref = mesh.geometry.attributes();
            proof {
                assert(crate::geometry::geometry::attrs_view(attrs_ref@) =~= attrs0);
            }
            let ok = uploads_resolvable(existing, attrs_ref);
            proof {
                match existing {
                    Some(c) => {
                        assert(c@.gadgets.dom() == geo0.gadgets.dom());
                    },
                    None => {
                        assert(geo0.gadgets.dom() =~= Set::<Seq<char>>::empty());
                    },
                }
                assert(ok == attrs_ok(geo0.gadgets.dom(), attrs0));
            }
            ok
        };
        if !resolvable {
            return Err(ConveyorError::UnknownGadgetLabel);
        }

        // write the mesh's model matrix into the shared registry
        let ghost q0 = render_pass@;
        proof {
            assert(pre.shared_conveyor@.gadgets.dom().contains(model_mat_label()));
            assert("mraphics-model-mat"@ == model_mat_label());
        }
        let res_model = self.shared_conveyor.update_gadget(
            render_pass,
            "mraphics-model-mat",
            mesh.matrix_data.as_slice(),
        );
        match res_model {
            Ok(()) => (),
            Err(_) => {
                // unreachable: the constructor registered the model matrix
                proof {
                    assert(false);
                }
                return Err(ConveyorError::UnknownGadgetLabel);
            },
        }
        let ghost shared1 = write_model(pre.shared_conveyor@, model_mat_label(), mesh0.matrix_data);

        // take the mesh's geometry registry out of the pool
        let idx = self.conveyor_manager.acquire_index(mesh.geometry.identifier());
        let ghost pool1 = pool_acquire_pool(pre.conveyor_manager@, gid);
        let entry = self.conveyor_manager.take_conveyor(idx);
        let geo_key = entry.0;
        let mut conveyor = entry.1;
        proof {
            assert(conveyor@ == geo0);
            assert(geo_key@ == gid);
        }

        // reallocate and upload the flagged attributes
        let ghost applied = attrs_apply(geo0, pre.device@, attrs0);
        proof {
            assert(pooled_ok(geo0)) by {
                if pool_has_key(pre.conveyor_manager@, gid) {
                    assert(pooled_ok(pre.conveyor_manager@[pool_acquire_idx(pre.conveyor_manager@, gid)].1));
                }
            }
        }
        let attrs = mesh.geometry.attributes_mut();
        proof {
            assert(crate::geometry::geometry::attrs_view((*attrs)@) == attrs0);
            assert forall|k2: int|
                0 <= k2 < (*attrs)@.len() implies ((#[trigger] (*attrs)@[k2])@).index.group_index
                < u32::MAX by {
                assert(((*attrs)@[k2])@ == attrs0[k2]);
            }
        }
        apply_attributes(&mut conveyor, &mut self.device, render_pass, attrs);
        proof {
            lemma_attrs_apply_shape(geo0, pre.device@, attrs0);
        }

        // rebuild stale bundles
        let needs_update = self.shared_conveyor.is_dirty() || conveyor.is_dirty();
        if needs_update {
            self.shared_conveyor.update_bundles();
            conveyor.update_bundles();
        }
        let ghost shared2 = if shared1.dirty || applied.conveyor.dirty {
            rebuild_model(shared1)
        } else {
            shared1
        };
        let ghost geo2 = if shared1.dirty || applied.conveyor.dirty {
            rebuild_model(applied.conveyor)
        } else {
            applied.conveyor
        };
        proof {
            assert(self.shared_conveyor@ == shared2);
            assert(conveyor@ == geo2);
        }

        // resolve the pipeline from the concatenated layout shapes
        let mut bundles_collection: Vec<&Vec<Option<crate::render::gpu::Bundle>>> = Vec::new();
        bundles_collection.push(self.shared_conveyor.bundles_ref());
        bundles_collection.push(conveyor.bundles_ref());
        proof {
            assert(crate::render::conveyor::collection_view(bundles_collection@) =~= seq![
                shared2.bundles,
                geo2.bundles,
            ]);
        }
        let layouts = Conveyor::collect_bind_group_layouts(bundles_collection);
        let pipeline = self.pipeline_manager.acquire_pipeline(
            self.texture_format,
            &mesh.material,
            layouts,
            needs_update,
        );

        // bind the shared bundles, then the geometry bundles, then the
        // pipeline, and draw
        proof {
            assert(shared2.bundles.len() <= 1);
            assert(geo2.bundles.len() <= u32::MAX as int);
        }
        self.shared_conveyor.attach_bundles(render_pass);
        conveyor.attach_bundles(render_pass);
        render_pass.record(crate::render::gpu::QueueOp::SetPipeline { pipeline });
        proof {
            assert(mesh@.geometry.attributes == applied.attrs);
            assert(applied.attrs[0].data == attrs0[0].data);
        }
        let vertices = mesh.geometry.indices();
        render_pass.record(crate::render::gpu::QueueOp::Draw { vertices });

        // put the geometry registry back under its identity
        self.conveyor_manager.put_conveyor(idx, (geo_key, conveyor));
        proof {
            assert(self.conveyor_manager@ =~= pool1.update(idx as int, (gid, geo2)));
            assert(self.conveyor_manager@ == pool1.update(idx as int, (gid, step.geo)));
            assert(render_pass@ =~= q0 + step.ops);
            assert(mesh@ == MeshModel {
                geometry: crate::geometry::geometry::GeometryModel {
                    attributes: step.attrs,
                    identifier: gid,
                },
                ..mesh0
            });
            // the invariant pieces
            assert(shared_ok(self.shared_conveyor@));
            assert(forall|i: int|
                0 <= i < self.conveyor_manager@.len() ==> pooled_ok(
                    (#[trigger] self.conveyor_manager@[i]).1,
                ));
        }
        Ok(())
    }

    /// Drives one frame over the scene: records the camera's view and
    /// projection writes into the shared registry, then draws every mesh in
    /// traversal order, and returns the frame's ordered command stream, which
    /// the surrounding application replays between acquiring and presenting a
    /// frame target. Fails with [`ConveyorError::UnknownGadgetLabel`], keeping
    /// the work of the meshes already drawn, exactly when some mesh's upload
    /// addresses an unregistered label.
    #[verifier::rlimit(100)]
    #[verifier::spinoff_prover]
    pub fn render(
        &mut self,
        scene: &mut Scene,
        view_mat_data: &[u8],
        projection_mat_data: &[u8],
    ) -> (r: Result<Queue, ConveyorError>)
        requires
            old(self).inv(),
            view_mat_data@.len() <= MAT4_BYTES,
            projection_mat_data@.len() <= MAT4_BYTES,
            forall|j: int| 0 <= j < old(scene)@.len() ==> mesh_drawable(#[trigger] old(scene)@[j]),
            old(self).device@.next_buffer_id + total_attrs(old(scene)@) <= u64::MAX,
            old(self).pipeline_manager@.next_pipeline_id + old(scene)@.len() <= u64::MAX,
            frame_of(*old(self), view_mat_data@, projection_mat_data@, old(scene)@).fits,
        ensures
            final(self).inv(),
            final(self).surface_width == old(self).surface_width,
            final(self).surface_height == old(self).surface_height,
            final(self).texture_format == old(self).texture_format,
            r is Ok <==> frame_of(*old(self), view_mat_data@, projection_mat_data@, old(scene)@).ok,
            final(self).shared_conveyor@ == frame_of(
                *old(self),
                view_mat_data@,
                projection_mat_data@,
                old(scene)@,
            ).shared,
            final(self).conveyor_manager@ == frame_of(
                *old(self),
                view_mat_data@,
                projection_mat_data@,
                old(scene)@,
            ).pool,
            final(self).device@ == frame_of(
                *old(self),
                view_mat_data@,
                projection_mat_data@,
                old(scene)@,
            ).device,
            final(self).pipeline_manager@ == frame_of(
                *old(self),
                view_mat_data@,
                projection_mat_data@,
                old(scene)@,
            ).pipelines,
            final(scene)@ == frame_of(
                *old(self),
                view_mat_data@,
                projection_mat_data@,
                old(scene)@,
            ).meshes,
            r matches Ok(q) ==> q@ == camera_ops(*old(self), view_mat_data@, projection_mat_data@)
                + frame_of(*old(self), view_mat_data@, projection_mat_data@, old(scene)@).ops,
            r is Err ==> r == Result::<Queue, ConveyorError>::Err(
                ConveyorError::UnknownGadgetLabel,
            ),
    {
        let ghost pre = *self;
        let ghost meshes0 = old(scene)@;
        let ghost vdata = view_mat_data@;
        let ghost pdata = projection_mat_data@;
        let ghost full = frame_of(pre, vdata, pdata, meshes0);
        let mut queue = Queue::new();

        // the camera's packed matrices go in first
        proof {
            assert(pre.shared_conveyor@.gadgets.dom().contains(view_mat_label()));
            assert("mraphics-view-mat"@ == view_mat_label());
        }
        let res_view = self.shared_conveyor.update_gadget(
            &mut queue,
            "mraphics-view-mat",
            view_mat_data,
        );
        match res_view {
            Ok(()) => (),
            Err(_) => {
                // unreachable: the constructor registered the view matrix
                proof {
                    assert(false);
                }
                return Err(ConveyorError::UnknownGadgetLabel);
            },
        }
        proof {
            assert(self.shared_conveyor@.gadgets.dom().contains(projection_mat_label()));
            assert("mraphics-projection-mat"@ == projection_mat_label());
            assert(self.shared_conveyor@.gadgets[projection_mat_label()].buffer.size
                == MAT4_BYTES);
        }
        let res_proj = self.shared_conveyor.update_gadget(
            &mut queue,
            "mraphics-projection-mat",
            projection_mat_data,
        );
        match res_proj {
            Ok(()) => (),
            Err(_) => {
                // unreachable: the constructor registered the projection matrix
                proof {
                    assert(false);
                }
                return Err(ConveyorError::UnknownGadgetLabel);
            },
        }
        let ghost shared0 = write_model(
            write_model(pre.shared_conveyor@, view_mat_label(), vdata),
            projection_mat_label(),
            pdata,
        );
        let ghost q2 = queue@;
        proof {
            assert(self.shared_conveyor@ == shared0);
            assert(q2 =~= camera_ops(pre, vdata, pdata));
            assert(shared_ok(shared0));
            lemma_total_attrs_nonneg(meshes0);
        }

        // draw the meshes in traversal order
        let ghost mut wops: Seq<QueueOpModel> = Seq::empty();
        let n = scene.len();
        proof {
            assert(meshes0.skip(0) =~= meshes0);
            assert(scene@.take(0) =~= Seq::<MeshModel>::empty());
        }
        let mut m: usize = 0;
        let mut failed = false;
        while m < n && !failed
            invariant
                n == meshes0.len(),
                scene@.len() == n,
                m <= n,
                self.inv(),
                self.surface_width == pre.surface_width,
                self.surface_height == pre.surface_height,
                self.texture_format == pre.texture_format,
                queue@ == q2 + wops,
                full == frame_of(pre, vdata, pdata, meshes0),
                !failed ==> {
                    &&& forall|j: int| m <= j < n ==> #[trigger] scene@[j] == meshes0[j]
                    &&& full.ok == frame_apply(
                        self.shared_conveyor@,
                        self.conveyor_manager@,
                        self.device@,
                        self.pipeline_manager@,
                        pre.texture_format,
                        meshes0.skip(m as int),
                    ).ok
                    &&& full.shared == frame_apply(
                        self.shared_conveyor@,
                        self.conveyor_manager@,
                        self.device@,
                        self.pipeline_manager@,
                        pre.texture_format,
                        meshes0.skip(m as int),
                    ).shared
                    &&& full.pool == frame_apply(
                        self.shared_conveyor@,
                        self.conveyor_manager@,
                        self.device@,
                        self.pipeline_manager@,
                        pre.texture_format,
                        meshes0.skip(m as int),
                    ).pool
                    &&& full.device == frame_apply(
                        self.shared_conveyor@,
                        self.conveyor_manager@,
                        self.device@,
                        self.pipeline_manager@,
                        pre.texture_format,
                        meshes0.skip(m as int),
                    ).device
                    &&& full.pipelines == frame_apply(
                        self.shared_conveyor@,
                        self.conveyor_manager@,
                        self.device@,
                        self.pipeline_manager@,
                        pre.texture_format,
                        meshes0.skip(m as int),
                    ).pipelines
                    &&& full.ops == wops + frame_apply(
                        self.shared_conveyor@,
                        self.conveyor_manager@,
                        self.device@,
                        self.pipeline_manager@,
                        pre.texture_format,
                        meshes0.skip(m as int),
                    ).ops
                    &&& full.meshes == scene@.take(m as int) + frame_apply(
                        self.shared_conveyor@,
                        self.conveyor_manager@,
                        self.device@,
                        self.pipeline_manager@,
                        pre.texture_format,
                        meshes0.skip(m as int),
                    ).meshes
                    &&& frame_apply(
                        self.shared_conveyor@,
                        self.conveyor_manager@,
                        self.device@,
                        self.pipeline_manager@,
                        pre.texture_format,
                        meshes0.skip(m as int),
                    ).fits
                    &&& self.device@.next_buffer_id + total_attrs(meshes0.skip(m as int))
                        <= u64::MAX
                    &&& self.pipeline_manager@.next_pipeline_id + (n - m) <= u64::MAX
                },
                failed ==> {
                    &&& !full.ok
                    &&& full.shared == self.shared_conveyor@
                    &&& full.pool == self.conveyor_manager@
                    &&& full.device == self.device@
                    &&& full.pipelines == self.pipeline_manager@
                    &&& full.meshes == scene@
                },
                forall|j: int| 0 <= j < n ==> mesh_drawable(#[trigger] meshes0[j]),
            decreases n - m, (if failed { 0int } else { 1int }),
        {
            let ghost cur_shared = self.shared_conveyor@;
            let ghost cur_pool = self.conveyor_manager@;
            let ghost cur_dev = self.device@;
            let ghost cur_pm = self.pipeline_manager@;
            let ghost suffix = meshes0.skip(m as int);
            let ghost mm = meshes0[m as int];
            let ghost gid = mm.geometry.identifier;
            let ghost geo0 = mesh_geo0(cur_pool, gid);
            proof {
                assert(suffix[0] == mm);
                assert(suffix.drop_first() =~= meshes0.skip(m as int + 1));
                assert(mesh_drawable(mm));
                lemma_total_attrs_nonneg(meshes0.skip(m as int + 1));
                lemma_attrs_apply_device(geo0, cur_dev, mm.geometry.attributes);
            }
            let ghost scene_pre = scene@;
            let mesh = scene.get_mesh_mut(m);
            proof {
                assert((*mesh)@ == mm);
            }
            let res = self.render_mesh(&mut queue, mesh);
            match res {
                Ok(()) => {
                    proof {
                        let step = mesh_step(cur_shared, geo0, cur_dev, cur_pm, pre.texture_format, mm);
                        assert(attrs_ok(geo0.gadgets.dom(), mm.geometry.attributes));
                        assert(self.shared_conveyor@ == step.shared);
                        assert(self.device@ == step.device);
                        assert(self.pipeline_manager@ == step.pipelines);
                        assert(queue@ =~= q2 + (wops + step.ops));
                        wops = wops + step.ops;
                        assert(scene@ =~= scene_pre.update(
                            m as int,
                            MeshModel {
                                geometry: crate::geometry::geometry::GeometryModel {
                                    attributes: step.attrs,
                                    identifier: gid,
                                },
                                ..mm
                            },
                        ));
                        assert(scene@.take(m as int + 1) =~= scene_pre.take(m as int) + seq![
                            MeshModel {
                                geometry: crate::geometry::geometry::GeometryModel {
                                    attributes: step.attrs,
                                    identifier: gid,
                                },
                                ..mm
                            },
                        ]);
                        assert(forall|j: int|
                            m as int + 1 <= j < n ==> #[trigger] scene@[j] == meshes0[j]);
                    }
                    m = m + 1;
                },
                Err(_) => {
                    proof {
                        assert(!attrs_ok(geo0.gadgets.dom(), mm.geometry.attributes));
                        assert(scene@ =~= scene_pre.update(m as int, mm));
                        assert(scene@ =~= scene_pre);
                        assert(full.meshes =~= scene@.take(m as int) + meshes0.skip(m as int));
                        assert(full.meshes =~= scene@);
                    }
                    failed = true;
                },
            }
        }
        if failed {
            return Err(ConveyorError::UnknownGadgetLabel);
        }
        proof {
            assert(meshes0.skip(n as int).len() == 0);
            assert(full.ops =~= wops);
            assert(queue@ =~= q2 + full.ops);
            assert(full.meshes =~= scene@.take(n as int));
            assert(scene@.take(n as int) =~= scene@);
        }
        Ok(queue)
    }

    /// Records a new target size; the surrounding application reconfigures
    /// the presentation surface to match.
    pub fn resize(&mut self, width: u32, height: u32)
        ensures
            final(self).surface_width == width,
            final(self).surface_height == height,
            final(self).texture_format == old(self).texture_format,
            final(self).device == old(self).device,
            final(self).pipeline_manager == old(self).pipeline_manager,
            final(self).conveyor_manager == old(self).conveyor_manager,
            final(self).shared_conveyor == old(self).shared_conveyor,
            old(self).inv() ==> final(self).inv(),
    {
        self.surface_width = width;
        self.surface_height = height;
    }
}

} // verus!
