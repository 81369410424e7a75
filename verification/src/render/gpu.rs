use vstd::prelude::*;

verus! {

/// Usage flags a buffer is created with.
#[derive(Debug, Clone, Copy, PartialEq, Eq, Structural)]
pub struct BufferUsages {
    pub uniform: bool,
    pub storage: bool,
    pub copy_dst: bool,
}

impl BufferUsages {
    /// Flags for a uniform buffer that is written from the CPU.
    pub fn uniform_copy_dst() -> (u: BufferUsages)
        ensures
            u == (BufferUsages { uniform: true, storage: false, copy_dst: true }),
    {
        BufferUsages { uniform: true, storage: false, copy_dst: true }
    }

    /// Flags for a storage buffer that is written from the CPU.
    pub fn storage_copy_dst() -> (u: BufferUsages)
        ensures
            u == (BufferUsages { uniform: false, storage: true, copy_dst: true }),
    {
        BufferUsages { uniform: false, storage: true, copy_dst: true }
    }
}

/// How a bound buffer is addressed by shaders.
#[derive(Debug, Clone, Copy, PartialEq, Eq, Structural)]
pub enum BufferBindingType {
    Uniform,
    Storage { read_only: bool },
}

/// The colour format a pipeline renders into, as an opaque code.
#[derive(Debug, Clone, Copy, PartialEq, Eq, Structural)]
pub struct TextureFormat(pub u32);

/// A GPU buffer as the core models it: a process-unique identity, the
/// declared size and usage, and the bytes it holds once every queued
/// write so far has landed.
#[derive(Debug)]
pub struct Buffer {
    pub id: u64,
    pub size: u64,
    pub usage: BufferUsages,
    pub contents: Vec<u8>,
}

/// The mathematical value of a [`Buffer`].
#[verifier::ext_equal]
pub struct BufferModel {
    pub id: u64,
    pub size: u64,
    pub usage: BufferUsages,
    pub contents: Seq<u8>,
}

impl View for Buffer {
    type V = BufferModel;

    open spec fn view(&self) -> BufferModel {
        BufferModel { id: self.id, size: self.size, usage: self.usage, contents: self.contents@ }
    }
}

/// A record of one buffer allocation, kept so the unverified front end can
/// mirror it on the real device.
#[derive(Debug)]
pub struct BufferCreation {
    pub id: u64,
    pub label: String,
    pub size: u64,
    pub usage: BufferUsages,
    pub ty: BufferBindingType,
}

/// The mathematical value of a [`BufferCreation`].
#[verifier::ext_equal]
pub struct BufferCreationModel {
    pub id: u64,
    pub label: Seq<char>,
    pub size: u64,
    pub usage: BufferUsages,
    pub ty: BufferBindingType,
}

impl View for BufferCreation {
    type V = BufferCreationModel;

    open spec fn view(&self) -> BufferCreationModel {
        BufferCreationModel {
            id: self.id,
            label: self.label@,
            size: self.size,
            usage: self.usage,
            ty: self.ty,
        }
    }
}

/// The mathematical value of a [`Device`].
#[verifier::ext_equal]
pub struct DeviceModel {
    pub next_buffer_id: u64,
    pub created: Seq<BufferCreationModel>,
}

/// Issues buffer identities and logs every allocation in order.
#[derive(Debug)]
pub struct Device {
    pub next_buffer_id: u64,
    pub created: Vec<BufferCreation>,
}

impl View for Device {
    type V = DeviceModel;

    open spec fn view(&self) -> DeviceModel {
        DeviceModel {
            next_buffer_id: self.next_buffer_id,
            created: Seq::new(self.created@.len(), |i: int| self.created@[i]@),
        }
    }
}

/// The device transition performed by one buffer allocation.
pub open spec fn device_create_model(
    d: DeviceModel,
    label: Seq<char>,
    size: u64,
    usage: BufferUsages,
    ty: BufferBindingType,
) -> DeviceModel {
    DeviceModel {
        next_buffer_id: (d.next_buffer_id + 1) as u64,
        created: d.created.push(
            BufferCreationModel { id: d.next_buffer_id, label, size, usage, ty },
        ),
    }
}

impl Device {
    /// A device that has issued no buffers yet.
    pub fn new() -> (d: Device)
        ensures
            d@ == (DeviceModel { next_buffer_id: 0u64, created: Seq::<BufferCreationModel>::empty() }),
    {
        let d = Device { next_buffer_id: 0, created: Vec::new() };
        proof {
            assert(d@.created =~= Seq::<BufferCreationModel>::empty());
        }
        d
    }

    /// Allocates a zero-initialised buffer under a fresh identity and logs
    /// the allocation.
    pub fn create_buffer(
        &mut self,
        label: &str,
        size: u64,
        usage: BufferUsages,
        ty: BufferBindingType,
    ) -> (b: Buffer)
        requires
            old(self)@.next_buffer_id < u64::MAX,
            size <= usize::MAX as u64,
        ensures
            b@ == (BufferModel {
                id: old(self)@.next_buffer_id,
                size,
                usage,
                contents: Seq::new(size as nat, |i: int| 0u8),
            }),
            final(self)@ == device_create_model(old(self)@, label@, size, usage, ty),
    {
        let ghost pre = self@;
        let id = self.next_buffer_id;
        self.next_buffer_id = self.next_buffer_id + 1;
        self.created.push(
            BufferCreation { id, label: label.to_owned(), size, usage, ty },
        );
        let contents: Vec<u8> = vec![0u8; size as usize];
        let b = Buffer { id, size, usage, contents };
        proof {
            assert(b@.contents =~= Seq::new(size as nat, |i: int| 0u8));
            assert(self@.created =~= device_create_model(pre, label@, size, usage, ty).created);
        }
        b
    }
}

/// One slot of a compiled group layout: the binding index and how its buffer
/// is addressed. Visibility is fixed to the vertex and fragment stages.
#[derive(Debug, Clone, Copy, PartialEq, Eq, Structural)]
pub struct BindGroupLayoutEntry {
    pub binding: u32,
    pub ty: BufferBindingType,
}

/// The compiled layout of one group: its entries in increasing binding order.
#[derive(Debug)]
pub struct BindGroupLayout {
    pub entries: Vec<BindGroupLayoutEntry>,
}

impl View for BindGroupLayout {
    type V = Seq<BindGroupLayoutEntry>;

    open spec fn view(&self) -> Seq<BindGroupLayoutEntry> {
        self.entries@
    }
}

/// One bound resource of a compiled bind group.
#[derive(Debug)]
pub struct BindGroupEntry {
    pub binding: u32,
    pub label: String,
    pub buffer_id: u64,
}

/// The mathematical value of a [`BindGroupEntry`].
#[verifier::ext_equal]
pub struct BindGroupEntryModel {
    pub binding: u32,
    pub label: Seq<char>,
    pub buffer_id: u64,
}

impl View for BindGroupEntry {
    type V = BindGroupEntryModel;

    open spec fn view(&self) -> BindGroupEntryModel {
        BindGroupEntryModel { binding: self.binding, label: self.label@, buffer_id: self.buffer_id }
    }
}

/// The compiled set of resources bound for one group index.
#[derive(Debug)]
pub struct BindGroup {
    pub entries: Vec<BindGroupEntry>,
}

impl View for BindGroup {
    type V = Seq<BindGroupEntryModel>;

    open spec fn view(&self) -> Seq<BindGroupEntryModel> {
        Seq::new(self.entries@.len(), |i: int| self.entries@[i]@)
    }
}

/// A compiled `(layout, bound-resource-set)` pair covering one group index.
#[derive(Debug)]
pub struct Bundle {
    pub bind_group: BindGroup,
    pub bind_group_layout: BindGroupLayout,
}

/// The mathematical value of a [`Bundle`].
#[verifier::ext_equal]
pub struct BundleModel {
    pub entries: Seq<BindGroupEntryModel>,
    pub layout: Seq<BindGroupLayoutEntry>,
}

impl View for Bundle {
    type V = BundleModel;

    open spec fn view(&self) -> BundleModel {
        BundleModel { entries: self.bind_group@, layout: self.bind_group_layout@ }
    }
}

/// A compiled draw pipeline: the identity of the compile that produced it
/// and everything it was compiled from.
#[derive(Debug)]
pub struct RenderPipeline {
    pub id: u64,
    pub texture_format: TextureFormat,
    pub shader_code: String,
    pub bind_group_layouts: Vec<BindGroupLayout>,
}

/// The mathematical value of a [`RenderPipeline`].
#[verifier::ext_equal]
pub struct RenderPipelineModel {
    pub id: u64,
    pub texture_format: TextureFormat,
    pub shader_code: Seq<char>,
    pub bind_group_layouts: Seq<Seq<BindGroupLayoutEntry>>,
}

impl View for RenderPipeline {
    type V = RenderPipelineModel;

    open spec fn view(&self) -> RenderPipelineModel {
        RenderPipelineModel {
            id: self.id,
            texture_format: self.texture_format,
            shader_code: self.shader_code@,
            bind_group_layouts: Seq::new(
                self.bind_group_layouts@.len(),
                |i: int| self.bind_group_layouts@[i]@,
            ),
        }
    }
}

/// The views of a list of compiled layouts.
pub open spec fn layouts_view(v: Seq<BindGroupLayout>) -> Seq<Seq<BindGroupLayoutEntry>> {
    Seq::new(v.len(), |k: int| v[k]@)
}

/// One GPU command of a frame.
#[derive(Debug)]
pub enum QueueOp {
    /// Copy `data` into the buffer with the given identity, at offset zero.
    WriteBuffer { buffer_id: u64, data: Vec<u8> },
    /// Bind a compiled bundle at a group index of the active pass.
    SetBindGroup { group: u32, bundle: Bundle },
    /// Make a compiled pipeline current.
    SetPipeline { pipeline: RenderPipeline },
    /// Draw `vertices` vertices with the current pipeline and bindings.
    Draw { vertices: u32 },
}

/// The mathematical value of a [`QueueOp`].
#[verifier::ext_equal]
pub enum QueueOpModel {
    WriteBuffer { buffer_id: u64, data: Seq<u8> },
    SetBindGroup { group: u32, bundle: BundleModel },
    SetPipeline { pipeline: RenderPipelineModel },
    Draw { vertices: u32 },
}

impl View for QueueOp {
    type V = QueueOpModel;

    open spec fn view(&self) -> QueueOpModel {
        match self {
            QueueOp::WriteBuffer { buffer_id, data } => QueueOpModel::WriteBuffer {
                buffer_id: *buffer_id,
                data: data@,
            },
            QueueOp::SetBindGroup { group, bundle } => QueueOpModel::SetBindGroup {
                group: *group,
                bundle: bundle@,
            },
            QueueOp::SetPipeline { pipeline } => QueueOpModel::SetPipeline { pipeline: pipeline@ },
            QueueOp::Draw { vertices } => QueueOpModel::Draw { vertices: *vertices },
        }
    }
}

/// The ordered stream of GPU commands recorded for one frame. Buffer writes
/// are ordered relative to pass commands: submission order on the CPU side
/// matches the order of this stream.
#[derive(Debug)]
pub struct Queue {
    pub ops: Vec<QueueOp>,
}

impl View for Queue {
    type V = Seq<QueueOpModel>;

    open spec fn view(&self) -> Seq<QueueOpModel> {
        Seq::new(self.ops@.len(), |i: int| self.ops@[i]@)
    }
}

impl Queue {
    /// An empty command stream.
    pub fn new() -> (q: Queue)
        ensures
            q@ == Seq::<QueueOpModel>::empty(),
    {
        let q = Queue { ops: Vec::new() };
        proof {
            assert(q@ =~= Seq::<QueueOpModel>::empty());
        }
        q
    }

    /// The number of recorded commands.
    pub fn len(&self) -> (n: usize)
        ensures
            n == self@.len(),
    {
        self.ops.len()
    }

    /// Appends one command.
    pub fn record(&mut self, op: QueueOp)
        ensures
            final(self)@ == old(self)@.push(op@),
    {
        let ghost pre = self@;
        let ghost opm = op@;
        self.ops.push(op);
        proof {
            assert(self@ =~= pre.push(opm));
        }
    }
}

/// Copies a byte slice into a fresh vector.
pub fn slice_to_vec(v: &[u8]) -> (r: Vec<u8>)
    ensures
        r@ == v@,
{
    let mut r: Vec<u8> = Vec::new();
    let n = v.len();
    for i in 0..n
        invariant
            n == v@.len(),
            r@ =~= v@.take(i as int),
    {
        r.push(v[i]);
        proof {
            assert(r@ =~= v@.take(i + 1));
        }
    }
    proof {
        assert(v@.take(n as int) =~= v@);
    }
    r
}

/// Duplicates a compiled layout.
pub fn clone_layout(l: &BindGroupLayout) -> (r: BindGroupLayout)
    ensures
        r@ == l@,
{
    let mut entries: Vec<BindGroupLayoutEntry> = Vec::new();
    let n = l.entries.len();
    for i in 0..n
        invariant
            n == l.entries@.len(),
            entries@ =~= l.entries@.take(i as int),
    {
        entries.push(l.entries[i]);
        proof {
            assert(entries@ =~= l.entries@.take(i + 1));
        }
    }
    proof {
        assert(l.entries@.take(n as int) =~= l.entries@);
    }
    BindGroupLayout { entries }
}

/// Duplicates a compiled bundle.
pub fn clone_bundle(b: &Bundle) -> (r: Bundle)
    ensures
        r@ == b@,
{
    let layout = clone_layout(&b.bind_group_layout);
    let mut entries: Vec<BindGroupEntry> = Vec::new();
    let n = b.bind_group.entries.len();
    for i in 0..n
        invariant
            n == b.bind_group.entries@.len(),
            entries@.len() == i,
            forall|k: int| 0 <= k < i ==> (#[trigger] entries@[k])@ == b.bind_group@[k],
    {
        let e = &b.bind_group.entries[i];
        entries.push(
            BindGroupEntry { binding: e.binding, label: e.label.clone(), buffer_id: e.buffer_id },
        );
    }
    let r = Bundle { bind_group: BindGroup { entries }, bind_group_layout: layout };
    proof {
        assert(r@.entries =~= b@.entries);
    }
    r
}

/// Duplicates a compiled pipeline.
pub fn clone_pipeline(p: &RenderPipeline) -> (r: RenderPipeline)
    ensures
        r@ == p@,
{
    let mut layouts: Vec<BindGroupLayout> = Vec::new();
    let n = p.bind_group_layouts.len();
    for i in 0..n
        invariant
            n == p.bind_group_layouts@.len(),
            layouts@.len() == i,
            forall|k: int| 0 <= k < i ==> (#[trigger] layouts@[k])@
                == p@.bind_group_layouts[k],
    {
        layouts.push(clone_layout(&p.bind_group_layouts[i]));
    }
    let r = RenderPipeline {
        id: p.id,
        texture_format: p.texture_format,
        shader_code: p.shader_code.clone(),
        bind_group_layouts: layouts,
    };
    proof {
        assert(r@.bind_group_layouts =~= p@.bind_group_layouts);
    }
    r
}

} // verus!
