use vstd::prelude::*;

use crate::kv::kv_distinct;
use crate::kv::kv_map;
use crate::kv::lemma_kv_contains;
use crate::kv::lemma_kv_get;
use crate::kv::lemma_kv_push;
use crate::kv::lemma_kv_update;
use crate::material::Material;
use crate::render::gpu::BindGroupLayout;
use crate::render::gpu::BindGroupLayoutEntry;
use crate::render::gpu::RenderPipeline;
use crate::render::gpu::RenderPipelineModel;
use crate::render::gpu::TextureFormat;
use crate::render::gpu::clone_pipeline;
use crate::render::gpu::layouts_view;

verus! {

/// The mathematical value of the pipeline cache: compiled pipelines keyed by
/// material identity alone, and the identity the next compile will get.
#[verifier::ext_equal]
pub struct PipelineManagerModel {
    pub pool: Map<Seq<char>, RenderPipelineModel>,
    pub next_pipeline_id: u64,
}

/// The cache transition of one acquire: a cached identity is returned as it
/// is unless a rebuild is forced; otherwise a fresh pipeline is compiled
/// from the material's shader source, the given layout shapes and the target
/// format, stored under the identity, and returned.
pub open spec fn pipeline_acquire_model(
    m: PipelineManagerModel,
    id: Seq<char>,
    texture_format: TextureFormat,
    shader_code: Seq<char>,
    layouts: Seq<Seq<BindGroupLayoutEntry>>,
    force_update: bool,
) -> (PipelineManagerModel, RenderPipelineModel) {
    if m.pool.dom().contains(id) && !force_update {
        (m, m.pool[id])
    } else {
        let p = RenderPipelineModel {
            id: m.next_pipeline_id,
            texture_format,
            shader_code,
            bind_group_layouts: layouts,
        };
        (
            PipelineManagerModel {
                pool: m.pool.insert(id, p),
                next_pipeline_id: (m.next_pipeline_id + 1) as u64,
            },
            p,
        )
    }
}

/// A cache of compiled draw pipelines, one per material identity. The
/// identity string is the sole cache key: two materials that share an
/// identity but differ in shader text or layout shape would alias one entry.
pub struct PipelineManager {
    pub pipeline_pool: Vec<(String, RenderPipeline)>,
    pub next_pipeline_id: u64,
}

impl View for PipelineManager {
    type V = PipelineManagerModel;

    open spec fn view(&self) -> PipelineManagerModel {
        PipelineManagerModel {
            pool: kv_map(self.pipeline_pool@),
            next_pipeline_id: self.next_pipeline_id,
        }
    }
}

impl PipelineManager {
    /// Cache identities are distinct.
    pub open spec fn inv(&self) -> bool {
        kv_distinct(self.pipeline_pool@)
    }

    /// An empty cache.
    pub fn new() -> (m: PipelineManager)
        ensures
            m@ == (PipelineManagerModel {
                pool: Map::<Seq<char>, RenderPipelineModel>::empty(),
                next_pipeline_id: 0u64,
            }),
            m.inv(),
    {
        let m = PipelineManager { pipeline_pool: Vec::new(), next_pipeline_id: 0 };
        proof {
            assert(m@.pool =~= Map::<Seq<char>, RenderPipelineModel>::empty());
        }
        m
    }

    /// Finds the position of a material identity in the cache.
    fn find_pipeline(&self, identifier: &str) -> (r: Option<usize>)
        ensures
            match r {
                Some(i) => i < self.pipeline_pool@.len() && self.pipeline_pool@[i as int].0@
                    == identifier@,
                None => forall|i: int|
                    0 <= i < self.pipeline_pool@.len() ==> (#[trigger] self.pipeline_pool@[i]).0@
                        != identifier@,
            },
    {
        let n = self.pipeline_pool.len();
        for i in 0..n
            invariant
                n == self.pipeline_pool@.len(),
                forall|k: int| 0 <= k < i ==> (#[trigger] self.pipeline_pool@[k]).0@ != identifier@,
        {
            if crate::kv::str_eq(self.pipeline_pool[i].0.as_str(), identifier) {
                return Some(i);
            }
        }
        None
    }

    /// Returns the cached pipeline for the material's identity when one is
    /// present and no rebuild is forced; otherwise compiles a fresh pipeline
    /// from the material's shader source, the given layout shapes and the
    /// target format, stores it under the identity, and returns it.
    pub fn acquire_pipeline<M: Material + ?Sized>(
        &mut self,
        texture_format: TextureFormat,
        material: &M,
        bind_group_layouts: Vec<BindGroupLayout>,
        force_update: bool,
    ) -> (p: RenderPipeline)
        requires
            old(self).inv(),
            old(self)@.next_pipeline_id < u64::MAX,
        ensures
            final(self).inv(),
            final(self)@ == pipeline_acquire_model(
                old(self)@,
                material.spec_identifier(),
                texture_format,
                material.spec_shader_code(),
                layouts_view(bind_group_layouts@),
                force_update,
            ).0,
            p@ == pipeline_acquire_model(
                old(self)@,
                material.spec_identifier(),
                texture_format,
                material.spec_shader_code(),
                layouts_view(bind_group_layouts@),
                force_update,
            ).1,
    {
        let pipeline_identifier = material.identifier();
        let found = self.find_pipeline(pipeline_identifier);
        proof {
            lemma_kv_contains(self.pipeline_pool@, pipeline_identifier@);
        }
        if !force_update {
            if let Some(i) = found {
                proof {
                    lemma_kv_get(self.pipeline_pool@, i as int);
                }
                return clone_pipeline(&self.pipeline_pool[i].1);
            }
        }
        {
            {
                let pipeline = RenderPipeline {
                    id: self.next_pipeline_id,
                    texture_format,
                    shader_code: material.shader_code(),
                    bind_group_layouts,
                };
                let ret = clone_pipeline(&pipeline);
                self.next_pipeline_id = self.next_pipeline_id + 1;
                let entry = (pipeline_identifier.to_owned(), pipeline);
                match found {
                    Some(i) => {
                        proof {
                            lemma_kv_update(self.pipeline_pool@, i as int, entry);
                        }
                        self.pipeline_pool.set(i, entry);
                    },
                    None => {
                        proof {
                            lemma_kv_push(self.pipeline_pool@, entry);
                        }
                        self.pipeline_pool.push(entry);
                    },
                }
                proof {
                    assert(self@.pool =~= pipeline_acquire_model(
                        old(self)@,
                        material.spec_identifier(),
                        texture_format,
                        material.spec_shader_code(),
                        layouts_view(bind_group_layouts@),
                        force_update,
                    ).0.pool);
                }
                ret
            }
        }
    }
}

/// Law: two acquires with identical arguments and no forced rebuild return
/// the same pipeline, and the second one changes nothing.
pub proof fn lemma_pipeline_cache_hit(
    m: PipelineManagerModel,
    id: Seq<char>,
    texture_format: TextureFormat,
    shader_code: Seq<char>,
    layouts: Seq<Seq<BindGroupLayoutEntry>>,
)
    ensures
        ({
            let (m1, p1) = pipeline_acquire_model(m, id, texture_format, shader_code, layouts, false);
            let (m2, p2) = pipeline_acquire_model(m1, id, texture_format, shader_code, layouts, false);
            &&& p2 == p1
            &&& m2 == m1
        }),
{
}

/// Law: a forced acquire always produces a fresh compile, under an identity
/// no earlier compile of this cache carries.
pub proof fn lemma_pipeline_force_fresh(
    m: PipelineManagerModel,
    id: Seq<char>,
    texture_format: TextureFormat,
    shader_code: Seq<char>,
    layouts: Seq<Seq<BindGroupLayoutEntry>>,
)
    requires
        m.next_pipeline_id < u64::MAX,
    ensures
        ({
            let (m1, p1) = pipeline_acquire_model(m, id, texture_format, shader_code, layouts, true);
            &&& p1.id == m.next_pipeline_id
            &&& m1.next_pipeline_id == m.next_pipeline_id + 1
            &&& m1.pool[id] == p1
        }),
{
}

} // verus!
