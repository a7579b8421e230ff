//! Fixed-capacity vertex and index storage for batched draws.
//!
//! A mesh holds its vertex data as raw 32-bit words, exactly the bytes that
//! are uploaded. Storage is sized once per layout from the mesh's vertex
//! budget; writes past it are refused. The GPU buffers are handles of type `B`
//! that the caller creates when a mesh asks for it, and then only updates.
use vstd::prelude::*;

verus! {

/// Default number of vertices one mesh can hold.
pub const MAX_VERTICES: u32 = 10920;

/// Largest vertex budget a mesh accepts: twelve words per vertex must fit in `u32`.
pub const MAX_VERTEX_BUDGET: u32 = 357913941;

#[derive(Clone, Copy, Debug, PartialEq, Eq, Structural)]
pub enum EMeshKind {
    Vertices,
    Indices,
}

/// The shader variants a mesh can be laid out for.
#[derive(Clone, Copy, Debug, PartialEq, Eq, Structural)]
pub enum EShader {
    Colored,
    ColoredTextured,
    TwoColoredTextured,
}

#[derive(Clone, Copy, Debug, PartialEq, Eq, Structural)]
pub enum EVertexAttribute {
    Position,
    Textcoords,
    Color,
    Color2,
}

/// Errors of mesh writes.
#[derive(Clone, Copy, Debug, PartialEq, Eq, Structural)]
pub enum ESpineError {
    /// The data is longer than the storage the mesh has allocated.
    CapacityExceeded,
}

/// What the caller must do with the GPU buffer after a successful write.
#[derive(Clone, Copy, Debug, PartialEq, Eq, Structural)]
pub enum EBufferUpload {
    /// No buffer exists yet: create one from the mesh's storage and attach it.
    Create,
    /// Write the mesh's storage into the attached buffer at offset 0.
    Write,
}

/// One vertex field and its number of 32-bit elements.
#[derive(Clone, Copy, Debug, PartialEq, Eq, Structural)]
pub struct VertexAttribute {
    pub name: EVertexAttribute,
    pub num_elements: u32,
}

/// Total element count of a layout.
pub open spec fn sum_elements(attributes: Seq<VertexAttribute>) -> int
    decreases attributes.len(),
{
    if attributes.len() == 0 {
        0
    } else {
        sum_elements(attributes.drop_last()) + attributes.last().num_elements
    }
}

pub open spec fn attr(name: EVertexAttribute, n: u32) -> VertexAttribute {
    VertexAttribute { name, num_elements: n }
}

/// The vertex layout of each shader variant.
pub open spec fn shader_layout(shader: EShader) -> Seq<VertexAttribute> {
    match shader {
        EShader::Colored => seq![attr(EVertexAttribute::Position, 2), attr(EVertexAttribute::Color, 4)],
        EShader::ColoredTextured => seq![
            attr(EVertexAttribute::Position, 2),
            attr(EVertexAttribute::Color, 4),
            attr(EVertexAttribute::Textcoords, 2),
        ],
        EShader::TwoColoredTextured => seq![
            attr(EVertexAttribute::Position, 2),
            attr(EVertexAttribute::Color, 4),
            attr(EVertexAttribute::Textcoords, 2),
            attr(EVertexAttribute::Color2, 4),
        ],
    }
}

/// Words per vertex of each shader variant.
pub open spec fn shader_stride(shader: EShader) -> nat {
    match shader {
        EShader::Colored => 6,
        EShader::ColoredTextured => 8,
        EShader::TwoColoredTextured => 12,
    }
}

proof fn lemma_layout_stride(shader: EShader)
    ensures
        sum_elements(shader_layout(shader)) == shader_stride(shader),
{
    let l = shader_layout(shader);
    reveal_with_fuel(sum_elements, 5);
    match shader {
        EShader::Colored => {
            assert(l.drop_last() =~= seq![attr(EVertexAttribute::Position, 2)]);
            assert(l.drop_last().drop_last() =~= Seq::<VertexAttribute>::empty());
        },
        EShader::ColoredTextured => {
            assert(l.drop_last().drop_last() =~= seq![attr(EVertexAttribute::Position, 2)]);
            assert(l.drop_last().drop_last().drop_last() =~= Seq::<VertexAttribute>::empty());
        },
        EShader::TwoColoredTextured => {
            assert(l.drop_last().drop_last().drop_last() =~= seq![attr(EVertexAttribute::Position, 2)]);
            assert(l.drop_last().drop_last().drop_last().drop_last() =~= Seq::<VertexAttribute>::empty());
        },
    }
}

impl VertexAttribute {
    /// Total element count of `attributes`.
    pub fn elements(attributes: &Vec<VertexAttribute>) -> (r: u32)
        requires
            sum_elements(attributes@) <= u32::MAX,
        ensures
            r == sum_elements(attributes@),
    {
        let mut result: u32 = 0;
        let mut i: usize = 0;
        while i < attributes.len()
            invariant
                0 <= i <= attributes@.len(),
                sum_elements(attributes@) <= u32::MAX,
                result == sum_elements(attributes@.subrange(0, i as int)),
            decreases attributes@.len() - i,
        {
            proof {
                lemma_sum_prefix(attributes@, i as int);
            }
            result = result + attributes[i].num_elements;
            i += 1;
        }
        assert(attributes@.subrange(0, attributes@.len() as int) =~= attributes@);
        result
    }

    pub fn position_2() -> (r: Self)
        ensures
            r == attr(EVertexAttribute::Position, 2),
    {
        VertexAttribute { name: EVertexAttribute::Position, num_elements: 2 }
    }

    pub fn position_3() -> (r: Self)
        ensures
            r == attr(EVertexAttribute::Position, 3),
    {
        VertexAttribute { name: EVertexAttribute::Position, num_elements: 3 }
    }

    pub fn texcoords() -> (r: Self)
        ensures
            r == attr(EVertexAttribute::Textcoords, 2),
    {
        VertexAttribute { name: EVertexAttribute::Textcoords, num_elements: 2 }
    }

    pub fn color() -> (r: Self)
        ensures
            r == attr(EVertexAttribute::Color, 4),
    {
        VertexAttribute { name: EVertexAttribute::Color, num_elements: 4 }
    }

    pub fn color2() -> (r: Self)
        ensures
            r == attr(EVertexAttribute::Color2, 4),
    {
        VertexAttribute { name: EVertexAttribute::Color2, num_elements: 4 }
    }
}

/// A prefix sum grows by the next element, and stays below the whole sum.
proof fn lemma_sum_prefix(s: Seq<VertexAttribute>, i: int)
    requires
        0 <= i < s.len(),
    ensures
        sum_elements(s.subrange(0, i + 1)) == sum_elements(s.subrange(0, i)) + s[i].num_elements,
        sum_elements(s.subrange(0, i + 1)) <= sum_elements(s),
    decreases s.len() - i,
{
    assert(s.subrange(0, i + 1).drop_last() =~= s.subrange(0, i));
    if i + 1 < s.len() {
        lemma_sum_prefix(s, i + 1);
    } else {
        assert(s.subrange(0, i + 1) =~= s);
    }
}

/// Vertex and index storage of fixed capacity, with the GPU buffer handles of
/// type `B` that mirror it.
pub struct Mesh<B> {
    shader: Option<EShader>,
    vertices: Vec<u32>,
    indices: Vec<u16>,
    attributes: Vec<VertexAttribute>,
    num_vertices: u32,
    num_indices: u32,
    dirty_vertices: bool,
    dirty_indices: bool,
    vertices_length: u32,
    indices_length: u32,
    vertices_buffer: Option<B>,
    indices_buffer: Option<B>,
    element_per_vertex: u32,
    max_vertex_count: u32,
}

impl<B> Mesh<B> {
    /// The shader the mesh is laid out for, once initialized.
    pub closed spec fn shader(&self) -> Option<EShader> {
        self.shader
    }

    /// The vertex storage, all of its capacity.
    pub closed spec fn vertex_words(&self) -> Seq<u32> {
        self.vertices@
    }

    /// The index storage, all of its capacity.
    pub closed spec fn index_words(&self) -> Seq<u16> {
        self.indices@
    }

    /// How many vertex words hold this frame's data.
    pub closed spec fn vertices_len(&self) -> nat {
        self.vertices_length as nat
    }

    /// How many indices hold this frame's data.
    pub closed spec fn indices_len(&self) -> nat {
        self.indices_length as nat
    }

    pub closed spec fn vertices_dirty(&self) -> bool {
        self.dirty_vertices
    }

    pub closed spec fn indices_dirty(&self) -> bool {
        self.dirty_indices
    }

    pub closed spec fn vertices_buffer(&self) -> Option<B> {
        self.vertices_buffer
    }

    pub closed spec fn indices_buffer(&self) -> Option<B> {
        self.indices_buffer
    }

    /// Words per vertex of the current layout (0 before the first `init`).
    pub closed spec fn stride(&self) -> nat {
        self.element_per_vertex as nat
    }

    /// The number of vertices the storage is sized for.
    pub closed spec fn vertex_budget(&self) -> nat {
        self.max_vertex_count as nat
    }

    pub closed spec fn wf(&self) -> bool {
        &&& self.vertices@.len() == self.num_vertices
        &&& self.indices@.len() == self.num_indices
        &&& self.vertices_length <= self.num_vertices
        &&& self.indices_length <= self.num_indices
        &&& self.max_vertex_count <= MAX_VERTEX_BUDGET
        &&& self.num_vertices <= 12 * self.max_vertex_count
        &&& match self.shader {
            Some(s) => {
                &&& self.attributes@ == shader_layout(s)
                &&& self.element_per_vertex == shader_stride(s)
                &&& self.num_indices == 3 * self.max_vertex_count
                &&& self.num_vertices >= shader_stride(s) * self.max_vertex_count
            },
            None => {
                &&& self.attributes@.len() == 0
                &&& self.element_per_vertex == 0
                &&& self.num_vertices == 0
                &&& self.num_indices == 0
            },
        }
    }

    /// An empty, uninitialized mesh whose storage will be sized for
    /// `MAX_VERTICES` vertices.
    pub fn new() -> (r: Self)
        ensures
            r.wf(),
            r.shader() is None,
            r.vertex_words().len() == 0,
            r.index_words().len() == 0,
            r.vertices_len() == 0,
            r.indices_len() == 0,
            !r.vertices_dirty(),
            !r.indices_dirty(),
            r.vertices_buffer() is None,
            r.indices_buffer() is None,
            r.stride() == 0,
            r.vertex_budget() == MAX_VERTICES,
    {
        Self::with_max_vertices(MAX_VERTICES)
    }

    /// An empty, uninitialized mesh whose storage will be sized for
    /// `max_vertices` vertices.
    pub fn with_max_vertices(max_vertices: u32) -> (r: Self)
        requires
            max_vertices <= MAX_VERTEX_BUDGET,
        ensures
            r.wf(),
            r.shader() is None,
            r.vertex_words().len() == 0,
            r.index_words().len() == 0,
            r.vertices_len() == 0,
            r.indices_len() == 0,
            !r.vertices_dirty(),
            !r.indices_dirty(),
            r.vertices_buffer() is None,
            r.indices_buffer() is None,
            r.stride() == 0,
            r.vertex_budget() == max_vertices,
    {
        Mesh {
            shader: None,
            vertices: Vec::new(),
            indices: Vec::new(),
            attributes: Vec::new(),
            num_vertices: 0,
            num_indices: 0,
            dirty_vertices: false,
            dirty_indices: false,
            vertices_length: 0,
            indices_length: 0,
            vertices_buffer: None,
            indices_buffer: None,
            element_per_vertex: 0,
            max_vertex_count: max_vertices,
        }
    }

    /// Lays the mesh out for `shader`. The storage is reallocated, zeroed and
    /// its GPU buffers dropped only when the new layout needs more vertex words
    /// than are allocated; otherwise it is kept as it is. Either way nothing
    /// holds valid data afterwards. Returns whether the shader changed, that is
    /// whether the material must be set up for it.
    pub fn init(&mut self, shader: EShader) -> (material_changed: bool)
        requires
            old(self).wf(),
        ensures
            final(self).wf(),
            material_changed == (old(self).shader() != Some(shader)),
            final(self).shader() == Some(shader),
            final(self).stride() == shader_stride(shader),
            final(self).vertex_budget() == old(self).vertex_budget(),
            final(self).vertices_len() == 0,
            final(self).indices_len() == 0,
            !final(self).vertices_dirty(),
            !final(self).indices_dirty(),
            final(self).index_words().len() == 3 * old(self).vertex_budget(),
            final(self).vertex_words().len() >= shader_stride(shader) * old(self).vertex_budget(),
            shader_stride(shader) * old(self).vertex_budget() > old(self).vertex_words().len() ==> {
                &&& final(self).vertex_words() == Seq::new(
                    shader_stride(shader) * old(self).vertex_budget(),
                    |_i: int| 0u32,
                )
                &&& final(self).index_words() == Seq::new(3 * old(self).vertex_budget(), |_i: int| 0u16)
                &&& final(self).vertices_buffer() is None
                &&& final(self).indices_buffer() is None
            },
            shader_stride(shader) * old(self).vertex_budget() <= old(self).vertex_words().len() ==> {
                &&& final(self).vertex_words() == old(self).vertex_words()
                &&& final(self).index_words() == old(self).index_words()
                &&& final(self).vertices_buffer() == old(self).vertices_buffer()
                &&& final(self).indices_buffer() == old(self).indices_buffer()
            },
    {
        let material_changed = match self.shader {
            Some(v) => v != shader,
            None => true,
        };
        let mut attributes: Vec<VertexAttribute> = Vec::new();
        attributes.push(VertexAttribute::position_2());
        attributes.push(VertexAttribute::color());
        match shader {
            EShader::Colored => {},
            EShader::ColoredTextured => {
                attributes.push(VertexAttribute::texcoords());
            },
            EShader::TwoColoredTextured => {
                attributes.push(VertexAttribute::texcoords());
                attributes.push(VertexAttribute::color2());
            },
        }
        proof {
            assert(attributes@ =~= shader_layout(shader));
            lemma_layout_stride(shader);
        }
        let element_per_vertex = VertexAttribute::elements(&attributes);
        self.attributes = attributes;
        let max = self.max_vertex_count;
        if element_per_vertex as u64 * max as u64 > self.vertices.len() as u64 {
            let num_vertices = max * element_per_vertex;
            let num_indices = max * 3;
            let mut vertices: Vec<u32> = Vec::new();
            let mut n: u32 = 0;
            while n < num_vertices
                invariant
                    n <= num_vertices,
                    vertices@ == Seq::new(n as nat, |_i: int| 0u32),
                decreases num_vertices - n,
            {
                vertices.push(0);
                n += 1;
                assert(vertices@ =~= Seq::new(n as nat, |_i: int| 0u32));
            }
            let mut indices: Vec<u16> = Vec::new();
            let mut n: u32 = 0;
            while n < num_indices
                invariant
                    n <= num_indices,
                    indices@ == Seq::new(n as nat, |_i: int| 0u16),
                decreases num_indices - n,
            {
                indices.push(0);
                n += 1;
                assert(indices@ =~= Seq::new(n as nat, |_i: int| 0u16));
            }
            self.num_vertices = num_vertices;
            self.num_indices = num_indices;
            self.vertices = vertices;
            self.indices = indices;
            self.vertices_buffer = None;
            self.indices_buffer = None;
        }
        self.element_per_vertex = element_per_vertex;
        self.shader = Some(shader);
        self.dirty_vertices = false;
        self.dirty_indices = false;
        self.vertices_length = 0;
        self.indices_length = 0;
        material_changed
    }
    /// Everything on the index side is as in `other`, and so is the layout.
    pub open spec fn keeps_indices(&self, other: &Self) -> bool {
        &&& self.index_words() == other.index_words()
        &&& self.indices_len() == other.indices_len()
        &&& self.indices_dirty() == other.indices_dirty()
        &&& self.indices_buffer() == other.indices_buffer()
        &&& self.shader() == other.shader()
        &&& self.stride() == other.stride()
        &&& self.vertex_budget() == other.vertex_budget()
    }

    /// Everything on the vertex side is as in `other`, and so is the layout.
    pub open spec fn keeps_vertices(&self, other: &Self) -> bool {
        &&& self.vertex_words() == other.vertex_words()
        &&& self.vertices_len() == other.vertices_len()
        &&& self.vertices_dirty() == other.vertices_dirty()
        &&& self.vertices_buffer() == other.vertices_buffer()
        &&& self.shader() == other.shader()
        &&& self.stride() == other.stride()
        &&& self.vertex_budget() == other.vertex_budget()
    }

    /// Copies `vertices` to the start of the vertex storage and makes it this
    /// frame's data. Data longer than the storage is refused and changes
    /// nothing. On success the result says whether the GPU buffer must be
    /// created (none is attached yet) or written in place.
    pub fn set_vertices(&mut self, vertices: &[u32]) -> (r: Result<EBufferUpload, ESpineError>)
        requires
            old(self).wf(),
        ensures
            final(self).wf(),
            vertices@.len() > old(self).vertex_words().len() ==> r == Err::<EBufferUpload, ESpineError>(
                ESpineError::CapacityExceeded,
            ) && *final(self) == *old(self),
            vertices@.len() <= old(self).vertex_words().len() ==> {
                &&& r == Ok::<EBufferUpload, ESpineError>(
                    if old(self).vertices_buffer() is None {
                        EBufferUpload::Create
                    } else {
                        EBufferUpload::Write
                    },
                )
                &&& final(self).vertex_words() == vertices@ + old(self).vertex_words().subrange(
                    vertices@.len() as int,
                    old(self).vertex_words().len() as int,
                )
                &&& final(self).vertices_len() == vertices@.len()
                &&& final(self).vertices_dirty()
                &&& final(self).vertices_buffer() == old(self).vertices_buffer()
                &&& final(self).keeps_indices(old(self))
            },
    {
        if vertices.len() > self.vertices.len() {
            return Err(ESpineError::CapacityExceeded);
        }
        vec_set(&mut self.vertices, vertices, 0);
        assert(self.vertices@ =~= vertices@ + old(self).vertices@.subrange(
            vertices@.len() as int,
            old(self).vertices@.len() as int,
        ));
        self.dirty_vertices = true;
        self.vertices_length = vertices.len() as u32;
        if self.vertices_buffer.is_none() {
            Ok(EBufferUpload::Create)
        } else {
            Ok(EBufferUpload::Write)
        }
    }

    /// Copies `indices` to the start of the index storage and makes it this
    /// frame's data, as `set_vertices` does for vertices.
    pub fn set_indices(&mut self, indices: &[u16]) -> (r: Result<EBufferUpload, ESpineError>)
        requires
            old(self).wf(),
        ensures
            final(self).wf(),
            indices@.len() > old(self).index_words().len() ==> r == Err::<EBufferUpload, ESpineError>(
                ESpineError::CapacityExceeded,
            ) && *final(self) == *old(self),
            indices@.len() <= old(self).index_words().len() ==> {
                &&& r == Ok::<EBufferUpload, ESpineError>(
                    if old(self).indices_buffer() is None {
                        EBufferUpload::Create
                    } else {
                        EBufferUpload::Write
                    },
                )
                &&& final(self).index_words() == indices@ + old(self).index_words().subrange(
                    indices@.len() as int,
                    old(self).index_words().len() as int,
                )
                &&& final(self).indices_len() == indices@.len()
                &&& final(self).indices_dirty()
                &&& final(self).indices_buffer() == old(self).indices_buffer()
                &&& final(self).keeps_vertices(old(self))
            },
    {
        if indices.len() > self.indices.len() {
            return Err(ESpineError::CapacityExceeded);
        }
        vec_set(&mut self.indices, indices, 0);
        assert(self.indices@ =~= indices@ + old(self).indices@.subrange(
            indices@.len() as int,
            old(self).indices@.len() as int,
        ));
        self.dirty_indices = true;
        self.indices_length = indices.len() as u32;
        if self.indices_buffer.is_none() {
            Ok(EBufferUpload::Create)
        } else {
            Ok(EBufferUpload::Write)
        }
    }

    /// Words per vertex of the current layout.
    pub fn element_per_vertex(&self) -> (r: u32)
        requires
            self.wf(),
        ensures
            r == self.stride(),
            self.shader() matches Some(s) ==> r == shader_stride(s),
    {
        proof {
            if let Some(s) = self.shader {
                lemma_layout_stride(s);
            } else {
                assert(self.attributes@ =~= Seq::<VertexAttribute>::empty());
            }
        }
        VertexAttribute::elements(&self.attributes)
    }

    /// Words per vertex, summed over the layout.
    pub fn get_vertex_size_in_floats(&self) -> (r: u32)
        requires
            self.wf(),
        ensures
            r == self.stride(),
    {
        self.element_per_vertex()
    }

    /// The current layout.
    pub fn get_attributes(&self) -> (r: &Vec<VertexAttribute>)
        requires
            self.wf(),
        ensures
            self.shader() matches Some(s) ==> r@ == shader_layout(s),
            self.shader() is None ==> r@.len() == 0,
    {
        &self.attributes
    }

    /// How many vertices the storage holds in the current layout.
    pub fn max_vertices(&self) -> (r: u32)
        requires
            self.wf(),
            self.shader() is Some,
        ensures
            r == self.vertex_words().len() / self.stride(),
    {
        self.vertices.len() as u32 / self.element_per_vertex
    }

    /// How many whole vertices this frame's data holds.
    pub fn num_vertices(&self) -> (r: u32)
        requires
            self.wf(),
            self.shader() is Some,
        ensures
            r == self.vertices_len() / self.stride(),
    {
        self.vertices_length / self.element_per_vertex
    }

    /// Marks the first `length` vertex words as this frame's data.
    pub fn set_vertices_length(&mut self, length: u32)
        requires
            old(self).wf(),
            length <= old(self).vertex_words().len(),
        ensures
            final(self).wf(),
            final(self).vertices_len() == length,
            final(self).vertices_dirty(),
            final(self).vertex_words() == old(self).vertex_words(),
            final(self).vertices_buffer() == old(self).vertices_buffer(),
            final(self).keeps_indices(old(self)),
    {
        self.dirty_vertices = true;
        self.vertices_length = length;
    }

    /// The vertex storage.
    pub fn get_vertices(&self) -> (r: &Vec<u32>)
        ensures
            r@ == self.vertex_words(),
    {
        &self.vertices
    }

    /// The vertex storage, to be written in place. The mesh stays well formed
    /// as long as the storage keeps its length.
    pub fn get_vertices_mut(&mut self) -> (r: &mut Vec<u32>)
        ensures
            r@ == old(self).vertex_words(),
            final(self).vertex_words() == final(r)@,
            final(self).vertices_len() == old(self).vertices_len(),
            final(self).vertices_dirty() == old(self).vertices_dirty(),
            final(self).vertices_buffer() == old(self).vertices_buffer(),
            final(self).keeps_indices(old(self)),
            old(self).wf() && final(r)@.len() == r@.len() ==> final(self).wf(),
    {
        &mut self.vertices
    }

    /// Writes one word of the vertex storage.
    pub fn set_vertex_word(&mut self, at: usize, word: u32)
        requires
            old(self).wf(),
            at < old(self).vertex_words().len(),
        ensures
            final(self).wf(),
            final(self).vertex_words() == old(self).vertex_words().update(at as int, word),
            final(self).vertices_len() == old(self).vertices_len(),
            final(self).vertices_dirty() == old(self).vertices_dirty(),
            final(self).vertices_buffer() == old(self).vertices_buffer(),
            final(self).keeps_indices(old(self)),
    {
        self.vertices.set(at, word);
    }

    /// How many indices the storage holds.
    pub fn max_indices(&self) -> (r: u32)
        requires
            self.wf(),
        ensures
            r == self.index_words().len(),
    {
        self.indices.len() as u32
    }

    /// How many indices this frame's data holds.
    pub fn num_indices(&self) -> (r: u32)
        ensures
            r == self.indices_len(),
    {
        self.indices_length
    }

    /// Marks the first `length` indices as this frame's data.
    pub fn set_indices_length(&mut self, length: u32)
        requires
            old(self).wf(),
            length <= old(self).index_words().len(),
        ensures
            final(self).wf(),
            final(self).indices_len() == length,
            final(self).indices_dirty(),
            final(self).index_words() == old(self).index_words(),
            final(self).indices_buffer() == old(self).indices_buffer(),
            final(self).keeps_vertices(old(self)),
    {
        self.dirty_indices = true;
        self.indices_length = length;
    }

    /// The index storage.
    pub fn get_indices(&self) -> (r: &Vec<u16>)
        ensures
            r@ == self.index_words(),
    {
        &self.indices
    }

    /// The index storage, to be written in place. The mesh stays well formed
    /// as long as the storage keeps its length.
    pub fn get_indices_mut(&mut self) -> (r: &mut Vec<u16>)
        ensures
            r@ == old(self).index_words(),
            final(self).index_words() == final(r)@,
            final(self).indices_len() == old(self).indices_len(),
            final(self).indices_dirty() == old(self).indices_dirty(),
            final(self).indices_buffer() == old(self).indices_buffer(),
            final(self).keeps_vertices(old(self)),
            old(self).wf() && final(r)@.len() == r@.len() ==> final(self).wf(),
    {
        &mut self.indices
    }

    /// The storage sizes of a well-formed mesh: within `u32`, and once laid
    /// out, room for its vertex budget.
    pub proof fn lemma_storage_bounds(&self)
        requires
            self.wf(),
        ensures
            self.vertex_words().len() <= u32::MAX,
            self.index_words().len() <= u32::MAX,
            self.vertices_len() <= self.vertex_words().len(),
            self.indices_len() <= self.index_words().len(),
            self.shader() is Some ==> self.index_words().len() == 3 * self.vertex_budget(),
            self.shader() is Some ==> self.vertex_words().len() >= self.stride() * self.vertex_budget(),
            self.shader() is None ==> self.vertex_words().len() == 0 && self.index_words().len() == 0,
    {
    }

    /// The vertex storage as the bytes that are uploaded.
    pub fn vertex_bytes(&self) -> (r: &[u8])
        ensures
            r@.len() == 4 * self.vertex_words().len(),
    {
        words_as_bytes(self.vertices.as_slice())
    }

    /// The index storage as the bytes that are uploaded.
    pub fn index_bytes(&self) -> (r: &[u8])
        ensures
            r@.len() == 2 * self.index_words().len(),
    {
        halves_as_bytes(self.indices.as_slice())
    }

    /// Attaches the GPU buffer created after `set_vertices` asked for one.
    pub fn attach_vertices_buffer(&mut self, buffer: B)
        requires
            old(self).wf(),
        ensures
            final(self).wf(),
            final(self).vertices_buffer() == Some(buffer),
            final(self).vertex_words() == old(self).vertex_words(),
            final(self).vertices_len() == old(self).vertices_len(),
            final(self).vertices_dirty() == old(self).vertices_dirty(),
            final(self).keeps_indices(old(self)),
    {
        self.vertices_buffer = Some(buffer);
    }

    /// Attaches the GPU buffer created after `set_indices` asked for one.
    pub fn attach_indices_buffer(&mut self, buffer: B)
        requires
            old(self).wf(),
        ensures
            final(self).wf(),
            final(self).indices_buffer() == Some(buffer),
            final(self).index_words() == old(self).index_words(),
            final(self).indices_len() == old(self).indices_len(),
            final(self).indices_dirty() == old(self).indices_dirty(),
            final(self).keeps_vertices(old(self)),
    {
        self.indices_buffer = Some(buffer);
    }

    /// The attached vertex buffer, if any.
    pub fn get_vertices_buffer(&self) -> (r: &Option<B>)
        ensures
            *r == self.vertices_buffer(),
    {
        &self.vertices_buffer
    }

    /// The attached index buffer, if any.
    pub fn get_indices_buffer(&self) -> (r: &Option<B>)
        ensures
            *r == self.indices_buffer(),
    {
        &self.indices_buffer
    }
}

/// Relies on bytemuck::cast_slice from `u32` to `u8`: the same memory seen as
/// bytes, four per word; the byte order is the machine's, so only the length
/// is stated.
#[verifier::external_body]
fn words_as_bytes(words: &[u32]) -> (r: &[u8])
    ensures
        r@.len() == 4 * words@.len(),
{
    bytemuck::cast_slice(words)
}

/// Relies on bytemuck::cast_slice from `u16` to `u8`: two bytes per index, in
/// the machine's byte order.
#[verifier::external_body]
fn halves_as_bytes(halves: &[u16]) -> (r: &[u8])
    ensures
        r@.len() == 2 * halves@.len(),
{
    bytemuck::cast_slice(halves)
}

/// Copies `src` into `dst` starting at `offset`; the rest of `dst` is kept.
pub fn vec_set<T: Copy>(dst: &mut Vec<T>, src: &[T], offset: usize)
    requires
        offset + src@.len() <= old(dst)@.len(),
    ensures
        final(dst)@ == old(dst)@.subrange(0, offset as int) + src@ + old(dst)@.subrange(
            offset + src@.len(),
            old(dst)@.len() as int,
        ),
{
    let end = dst.len();
    let mut i: usize = 0;
    while i < src.len()
        invariant
            end == old(dst)@.len(),
            offset + src@.len() <= old(dst)@.len(),
            0 <= i <= src@.len(),
            dst@.len() == old(dst)@.len(),
            forall|j: int| 0 <= j < offset ==> dst@[j] == old(dst)@[j],
            forall|j: int| 0 <= j < i ==> dst@[offset + j] == src@[j],
            forall|j: int| offset + i <= j < dst@.len() ==> dst@[j] == old(dst)@[j],
        decreases src@.len() - i,
    {
        dst.set(offset + i, src[i]);
        i += 1;
    }
    assert(dst@ =~= old(dst)@.subrange(0, offset as int) + src@ + old(dst)@.subrange(
        offset + src@.len(),
        old(dst)@.len() as int,
    ));
}

} // verus!
