//! Accumulates emitted vertices into a pool of meshes, one mesh per draw call.
use vstd::prelude::*;
use crate::mesh::{attr, shader_layout, shader_stride, EShader, EVertexAttribute, Mesh, VertexAttribute};

verus! {

/// Words that one `vertex` call writes: a 2D position and an RGBA color.
pub const COLORED_VERTEX_WORDS: usize = 6;

/// The batching state of a renderer: the mesh pool, the index of the mesh that
/// receives vertices (the draw-call counter), the write cursor in it, and the
/// pipeline resolved for the current state.
pub struct ShapeRenderer<B, K> {
    pub shader: EShader,
    pub meshes: Vec<Mesh<B>>,
    pub is_drawing: bool,
    pub draw_calls: usize,
    pub vertices_length: usize,
    pub indices_length: usize,
    pub last_texture_key: Option<K>,
    pub attributes: Vec<VertexAttribute>,
    pub elements_per_vertex: u32,
    pipeline_key: Option<u64>,
    vertex_index: usize,
}

impl<B, K> ShapeRenderer<B, K> {
    pub closed spec fn spec_meshes(&self) -> Seq<Mesh<B>> {
        self.meshes@
    }

    pub closed spec fn spec_draw_calls(&self) -> usize {
        self.draw_calls
    }

    pub closed spec fn spec_is_drawing(&self) -> bool {
        self.is_drawing
    }

    pub closed spec fn spec_shader(&self) -> EShader {
        self.shader
    }

    /// The pipeline resolved by the last `begin`.
    pub closed spec fn spec_pipeline_key(&self) -> Option<u64> {
        self.pipeline_key
    }

    /// Where the next vertex goes in the current mesh's storage.
    pub closed spec fn cursor(&self) -> usize {
        self.vertex_index
    }

    pub closed spec fn spec_elements_per_vertex(&self) -> u32 {
        self.elements_per_vertex
    }

    /// The vertex layout of emitted vertices.
    pub closed spec fn spec_attributes(&self) -> Seq<VertexAttribute> {
        self.attributes@
    }

    /// The texture bound by the last batch, if any.
    pub closed spec fn spec_last_texture_key(&self) -> Option<K> {
        self.last_texture_key
    }

    pub closed spec fn spec_vertices_length(&self) -> usize {
        self.vertices_length
    }

    pub closed spec fn spec_indices_length(&self) -> usize {
        self.indices_length
    }

    /// An idle renderer for the colored shader, with an empty mesh pool.
    pub fn new() -> (r: Self)
        ensures
            r.spec_shader() == EShader::Colored,
            r.spec_meshes().len() == 0,
            !r.spec_is_drawing(),
            r.spec_draw_calls() == 0,
            r.spec_pipeline_key() is None,
            r.cursor() == 0,
            r.spec_elements_per_vertex() == shader_stride(EShader::Colored),
            r.spec_attributes() == shader_layout(EShader::Colored),
            r.spec_last_texture_key() is None,
            r.spec_vertices_length() == 0,
            r.spec_indices_length() == 0,
    {
        let mut attributes: Vec<VertexAttribute> = Vec::new();
        attributes.push(VertexAttribute::position_2());
        attributes.push(VertexAttribute::color());
        proof {
            assert(attributes@ =~= seq![attr(EVertexAttribute::Position, 2), attr(EVertexAttribute::Color, 4)]);
            reveal_with_fuel(crate::mesh::sum_elements, 3);
            assert(attributes@.drop_last() =~= seq![attr(EVertexAttribute::Position, 2)]);
            assert(attributes@.drop_last().drop_last() =~= Seq::<VertexAttribute>::empty());
        }
        let elements_per_vertex = VertexAttribute::elements(&attributes);
        ShapeRenderer {
            shader: EShader::Colored,
            meshes: Vec::new(),
            is_drawing: false,
            draw_calls: 0,
            vertices_length: 0,
            indices_length: 0,
            last_texture_key: None,
            attributes,
            elements_per_vertex,
            pipeline_key: None,
            vertex_index: 0,
        }
    }

    /// Starts a frame: the draw-call counter goes back to the first mesh, the
    /// renderer is drawing, and `pipeline_key` (resolved by the caller for the
    /// current shader, blend and target) is the pipeline in use.
    pub fn begin(&mut self, pipeline_key: u64)
        ensures
            final(self).spec_draw_calls() == 0,
            final(self).spec_is_drawing(),
            final(self).spec_pipeline_key() == Some(pipeline_key),
            final(self).spec_meshes() == old(self).spec_meshes(),
            final(self).spec_shader() == old(self).spec_shader(),
            final(self).cursor() == old(self).cursor(),
            final(self).spec_attributes() == old(self).spec_attributes(),
            final(self).spec_elements_per_vertex() == old(self).spec_elements_per_vertex(),
            final(self).spec_last_texture_key() == old(self).spec_last_texture_key(),
            final(self).spec_vertices_length() == old(self).spec_vertices_length(),
            final(self).spec_indices_length() == old(self).spec_indices_length(),
    {
        self.draw_calls = 0;
        self.is_drawing = true;
        self.pipeline_key = Some(pipeline_key);
    }

    /// The pipeline resolved by the last `begin`.
    pub fn pipeline_key(&self) -> (r: Option<u64>)
        ensures
            r == self.spec_pipeline_key(),
    {
        self.pipeline_key
    }

    /// Where the next vertex goes in the current mesh's storage.
    pub fn vertex_index(&self) -> (r: usize)
        ensures
            r == self.cursor(),
    {
        self.vertex_index
    }

    /// Appends one vertex (position, then color, as raw words) to the current
    /// mesh at the cursor and advances the cursor past it. The caller keeps a
    /// mesh at the draw-call counter and room for the vertex in it.
    pub fn vertex(&mut self, x: u32, y: u32, r: u32, g: u32, b: u32, a: u32)
        requires
            old(self).spec_draw_calls() < old(self).spec_meshes().len(),
            old(self).spec_meshes()[old(self).spec_draw_calls() as int].wf(),
            old(self).cursor() + COLORED_VERTEX_WORDS <= old(self).spec_meshes()[old(
                self,
            ).spec_draw_calls() as int].vertex_words().len(),
        ensures
            ({
                let i = old(self).spec_draw_calls() as int;
                let c = old(self).cursor() as int;
                let before = old(self).spec_meshes()[i];
                let after = final(self).spec_meshes()[i];
                &&& final(self).spec_meshes().len() == old(self).spec_meshes().len()
                &&& forall|j: int|
                    0 <= j < old(self).spec_meshes().len() && j != i ==> final(self).spec_meshes()[j]
                        == old(self).spec_meshes()[j]
                &&& after.wf()
                &&& after.vertex_words() == before.vertex_words().update(c, x).update(c + 1, y).update(
                    c + 2,
                    r,
                ).update(c + 3, g).update(c + 4, b).update(c + 5, a)
                &&& after.vertices_len() == before.vertices_len()
                &&& after.vertices_dirty() == before.vertices_dirty()
                &&& after.vertices_buffer() == before.vertices_buffer()
                &&& after.keeps_indices(&before)
            }),
            final(self).cursor() == old(self).cursor() + COLORED_VERTEX_WORDS,
            final(self).spec_draw_calls() == old(self).spec_draw_calls(),
            final(self).spec_is_drawing() == old(self).spec_is_drawing(),
            final(self).spec_pipeline_key() == old(self).spec_pipeline_key(),
            final(self).spec_shader() == old(self).spec_shader(),
            final(self).spec_attributes() == old(self).spec_attributes(),
            final(self).spec_elements_per_vertex() == old(self).spec_elements_per_vertex(),
            final(self).spec_last_texture_key() == old(self).spec_last_texture_key(),
    {
        let mut idx = self.vertex_index;
        let dc = self.draw_calls;
        proof {
            self.meshes@[dc as int].lemma_storage_bounds();
        }
        self.meshes[dc].set_vertex_word(idx, x);
        idx += 1;
        self.meshes[dc].set_vertex_word(idx, y);
        idx += 1;
        self.meshes[dc].set_vertex_word(idx, r);
        idx += 1;
        self.meshes[dc].set_vertex_word(idx, g);
        idx += 1;
        self.meshes[dc].set_vertex_word(idx, b);
        idx += 1;
        self.meshes[dc].set_vertex_word(idx, a);
        idx += 1;
        self.vertex_index = idx;
    }
}

} // verus!
