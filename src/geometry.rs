//! Interleaved vertex geometry: the attribute layout, the vertex buffer, and
//! the draw call.
//!
//! Attributes are added in the order in which their components follow one
//! another inside one vertex record. Each attribute records its own byte
//! footprint as `stride`; when attributes are bound to the buffer, the pointer
//! stride is the size of the whole record, so that the buffer is read as truly
//! interleaved data.

use vstd::prelude::*;
use crate::gli::{
    self, Command, spec_component_count, spec_size_of_type, spec_storage_type, is_buffer_upload,
};
use crate::program::Attribute;

verus! {

/// The largest footprint, in bytes, of one attribute (a 4x4 float matrix).
pub const MAX_ATTRIBUTE_BYTES: i32 = 64;

/// Where one attribute lies inside a vertex record, and how it is read.
#[derive(Clone, Copy, Debug, PartialEq, Eq, Structural)]
pub struct AttributeInfo {
    pub normalize: bool,
    pub location: u32,
    pub offset: i32,
    pub size: i32,
    pub stride: i32,
    pub gl_type: u32,
}

/// Bytes that an attribute of reflected type `attr_type` takes in a record.
pub open spec fn footprint(attr_type: u32, normalize: bool) -> int {
    spec_component_count(attr_type) * spec_size_of_type(spec_storage_type(normalize))
}

/// The layout entry that adding `attr` at byte `offset` records.
pub open spec fn attribute_info(attr: Attribute, normalize: bool, offset: i32) -> AttributeInfo {
    AttributeInfo {
        normalize,
        location: attr.location,
        offset,
        size: spec_component_count(attr.gl_type),
        stride: footprint(attr.gl_type, normalize) as i32,
        gl_type: spec_storage_type(normalize),
    }
}

/// Sum of the footprints of the attributes in `s`.
pub open spec fn layout_total(s: Seq<AttributeInfo>) -> int
    decreases s.len(),
{
    if s.len() == 0 {
        0
    } else {
        layout_total(s.drop_last()) + s.last().stride
    }
}

/// Each attribute starts where the ones before it end, and its stride is its
/// own footprint.
pub open spec fn layout_wf(s: Seq<AttributeInfo>) -> bool {
    forall|i: int|
        #![trigger s[i]]
        0 <= i < s.len() ==> {
            &&& s[i].offset == layout_total(s.take(i))
            &&& s[i].stride == s[i].size * spec_size_of_type(s[i].gl_type)
            &&& 0 <= s[i].stride <= MAX_ATTRIBUTE_BYTES
        }
}

proof fn lemma_layout_total_nonneg(s: Seq<AttributeInfo>)
    requires
        layout_wf(s),
    ensures
        layout_total(s) >= 0,
    decreases s.len(),
{
    if s.len() > 0 {
        let p = s.drop_last();
        assert forall|i: int|
            #![trigger p[i]]
            0 <= i < p.len() implies {
                &&& p[i].offset == layout_total(p.take(i))
                &&& p[i].stride == p[i].size * spec_size_of_type(p[i].gl_type)
                &&& 0 <= p[i].stride <= MAX_ATTRIBUTE_BYTES
            } by {
            assert(s[i] == p[i]);
            assert(s.take(i) =~= p.take(i));
        }
        lemma_layout_total_nonneg(p);
        assert(s[s.len() - 1] == s.last());
    }
}

/// The calls that bind one attribute to `buffer`.
pub open spec fn attribute_binding(buffer: u32, a: AttributeInfo, stride: i32) -> Seq<Command> {
    seq![
        Command::BindArrayBuffer(buffer),
        Command::VertexAttribPointer {
            location: a.location,
            size: a.size,
            gl_type: a.gl_type,
            normalized: a.normalize,
            stride: stride,
            offset: a.offset,
        },
        Command::EnableVertexAttribArray(a.location),
    ]
}

/// The calls that bind every attribute of `s`, in order.
pub open spec fn attribute_bindings(buffer: u32, s: Seq<AttributeInfo>, stride: i32) -> Seq<Command>
    decreases s.len(),
{
    if s.len() == 0 {
        Seq::empty()
    } else {
        attribute_bindings(buffer, s.drop_last(), stride) + attribute_binding(
            buffer,
            s.last(),
            stride,
        )
    }
}

/// A vertex buffer object of the driver.
pub struct VertexBuffer {
    buffer: u32,
}

impl VertexBuffer {
    pub closed spec fn handle(&self) -> u32 {
        self.buffer
    }

    /// Wraps the buffer object `buffer` that the driver created.
    pub fn new(buffer: u32) -> (r: VertexBuffer)
        ensures
            r.handle() == buffer,
    {
        VertexBuffer { buffer }
    }

    /// Uploads `data`, one float bit pattern per element, as the buffer's
    /// content.
    pub fn buffer_data(&self, data: &[u32], out: &mut Vec<Command>)
        ensures
            final(out)@.len() == old(out)@.len() + 2,
            final(out)@.take(old(out)@.len() as int) == old(out)@,
            final(out)@[old(out)@.len() as int] == Command::BindArrayBuffer(self.handle()),
            is_buffer_upload(final(out)@[old(out)@.len() + 1int], data@),
    {
        out.push(Command::BindArrayBuffer(self.buffer));
        out.push(Command::BufferArrayData(vstd::slice::slice_to_vec(data)));
        assert(out@.take(old(out)@.len() as int) =~= old(out)@);
    }

    pub fn bind_to_attribute(
        &self,
        location: u32,
        size: i32,
        gl_type: u32,
        normalized: bool,
        stride: i32,
        offset: i32,
        out: &mut Vec<Command>,
    )
        ensures
            final(out)@ == old(out)@ + attribute_binding(
                self.handle(),
                AttributeInfo { normalize: normalized, location, offset, size, stride: 0, gl_type },
                stride,
            ),
    {
        let ghost before = out@;
        out.push(Command::BindArrayBuffer(self.buffer));
        out.push(
            Command::VertexAttribPointer { location, size, gl_type, normalized, stride, offset },
        );
        out.push(Command::EnableVertexAttribArray(location));
        assert(out@ =~= before + attribute_binding(
            self.buffer,
            AttributeInfo { normalize: normalized, location, offset, size, stride: 0, gl_type },
            stride,
        ));
    }
}

/// One interleaved vertex buffer, its attribute layout and an optional index
/// buffer.
pub struct Geometry {
    attributes: Vec<AttributeInfo>,
    buffer: VertexBuffer,
    data_length: i32,
    index: Option<u32>,
    index_count: i32,
    total_byte_length: i32,
    vao: u32,
    bound: bool,
}

impl Geometry {
    /// The attribute layout, in the order added.
    pub closed spec fn layout(&self) -> Seq<AttributeInfo> {
        self.attributes@
    }

    /// Bytes of one vertex record.
    pub closed spec fn record_bytes(&self) -> i32 {
        self.total_byte_length
    }

    /// Bytes uploaded to the vertex buffer.
    pub closed spec fn data_bytes(&self) -> i32 {
        self.data_length
    }

    pub closed spec fn index_buffer(&self) -> Option<u32> {
        self.index
    }

    pub closed spec fn index_len(&self) -> i32 {
        self.index_count
    }

    pub closed spec fn vertex_array(&self) -> u32 {
        self.vao
    }

    pub closed spec fn vertex_buffer(&self) -> u32 {
        self.buffer.handle()
    }

    /// The attributes have been bound to the buffer.
    pub closed spec fn is_bound(&self) -> bool {
        self.bound
    }

    pub open spec fn wf(&self) -> bool {
        &&& layout_wf(self.layout())
        &&& self.record_bytes() == layout_total(self.layout())
        &&& self.data_bytes() >= 0
        &&& self.index_len() >= 0
    }

    /// A draw has a vertex count: either an index buffer gives it, or the
    /// records are not empty.
    pub open spec fn can_draw(&self) -> bool {
        self.index_buffer().is_some() || self.record_bytes() > 0
    }

    /// The number of vertices that a non-indexed draw submits.
    pub open spec fn vertex_count(&self) -> int {
        self.data_bytes() as int / self.record_bytes() as int
    }

    /// The calls that `draw` makes.
    pub open spec fn draw_commands(&self) -> Seq<Command> {
        seq![Command::BindVertexArray(self.vertex_array())] + (if self.is_bound() {
            Seq::empty()
        } else {
            attribute_bindings(self.vertex_buffer(), self.layout(), self.record_bytes())
        }) + seq![
            if self.index_buffer().is_some() {
                Command::DrawElementsTriangles(self.index_len())
            } else {
                Command::DrawArraysTriangles(self.vertex_count() as i32)
            },
            Command::BindVertexArray(0),
        ]
    }

    /// An empty geometry over the vertex array object `vao` and the vertex
    /// buffer object `buffer` that the driver created.
    pub fn new(vao: u32, buffer: u32) -> (r: Geometry)
        ensures
            r.wf(),
            r.layout() == Seq::<AttributeInfo>::empty(),
            r.record_bytes() == 0,
            r.data_bytes() == 0,
            r.index_buffer() == None::<u32>,
            r.vertex_array() == vao,
            r.vertex_buffer() == buffer,
            !r.is_bound(),
    {
        Geometry {
            attributes: Vec::new(),
            buffer: VertexBuffer::new(buffer),
            data_length: 0,
            index: None,
            index_count: 0,
            total_byte_length: 0,
            vao,
            bound: false,
        }
    }

    fn add_attr(&mut self, attr: &Attribute, normalize: bool)
        requires
            old(self).wf(),
            old(self).record_bytes() + footprint(attr.gl_type, normalize) <= i32::MAX,
        ensures
            final(self).wf(),
            final(self).layout() == old(self).layout().push(attribute_info(*attr, normalize, old(self).record_bytes())),
            final(self).record_bytes() == old(self).record_bytes() + footprint(
                attr.gl_type,
                normalize,
            ),
            final(self).data_bytes() == old(self).data_bytes(),
            final(self).index_buffer() == old(self).index_buffer(),
            final(self).index_len() == old(self).index_len(),
            final(self).vertex_array() == old(self).vertex_array(),
            final(self).vertex_buffer() == old(self).vertex_buffer(),
            final(self).is_bound() == old(self).is_bound(),
    {
        let (size, gl_type) = gli::get_attribute_size_and_type(attr.gl_type, normalize);
        let length = gli::size_of_type(gl_type);
        assert(1 <= length * size <= 64 && length * size == size * length) by (nonlinear_arith)
            requires
                1 <= length <= 4,
                1 <= size <= 16,
        ;
        let info = AttributeInfo {
            normalize: normalize,
            location: attr.location,
            size: size,
            gl_type: gl_type,
            offset: self.total_byte_length,
            stride: length * size,
        };
        let ghost s = self.attributes@;
        self.attributes.push(info);
        self.total_byte_length = self.total_byte_length + length * size;
        assert(self.attributes@.drop_last() =~= s);
        assert(layout_total(self.attributes@) == layout_total(s) + info.stride);
        assert forall|i: int|
            #![trigger self.attributes@[i]]
            0 <= i < self.attributes@.len() implies {
                &&& self.attributes@[i].offset == layout_total(self.attributes@.take(i))
                &&& self.attributes@[i].stride == self.attributes@[i].size * spec_size_of_type(
                    self.attributes@[i].gl_type,
                )
                &&& 0 <= self.attributes@[i].stride <= MAX_ATTRIBUTE_BYTES
            } by {
            if i < s.len() {
                assert(self.attributes@[i] == s[i]);
                assert(self.attributes@.take(i) =~= s.take(i));
            } else {
                assert(self.attributes@.take(i) =~= s);
            }
        }
        assert(layout_wf(self.attributes@));
    }

    /// Appends an attribute read as floats to the layout.
    pub fn add_attribute(&mut self, attr: &Attribute)
        requires
            old(self).wf(),
            old(self).record_bytes() + footprint(attr.gl_type, false) <= i32::MAX,
        ensures
            final(self).wf(),
            final(self).layout() == old(self).layout().push(attribute_info(*attr, false, old(self).record_bytes())),
            final(self).record_bytes() == old(self).record_bytes() + footprint(attr.gl_type, false),
            final(self).data_bytes() == old(self).data_bytes(),
            final(self).index_buffer() == old(self).index_buffer(),
            final(self).index_len() == old(self).index_len(),
            final(self).vertex_array() == old(self).vertex_array(),
            final(self).vertex_buffer() == old(self).vertex_buffer(),
            final(self).is_bound() == old(self).is_bound(),
    {
        self.add_attr(attr, false);
    }

    /// Appends an attribute uploaded as unsigned bytes and normalized by the
    /// driver to the layout.
    pub fn add_normalized_attribute(&mut self, attr: &Attribute)
        requires
            old(self).wf(),
            old(self).record_bytes() + footprint(attr.gl_type, true) <= i32::MAX,
        ensures
            final(self).wf(),
            final(self).layout() == old(self).layout().push(attribute_info(*attr, true, old(self).record_bytes())),
            final(self).record_bytes() == old(self).record_bytes() + footprint(attr.gl_type, true),
            final(self).data_bytes() == old(self).data_bytes(),
            final(self).index_buffer() == old(self).index_buffer(),
            final(self).index_len() == old(self).index_len(),
            final(self).vertex_array() == old(self).vertex_array(),
            final(self).vertex_buffer() == old(self).vertex_buffer(),
            final(self).is_bound() == old(self).is_bound(),
    {
        self.add_attr(attr, true);
    }

    /// Uploads `data`, one float bit pattern per element, as the vertex
    /// buffer's content, and records its length in bytes.
    pub fn buffer_data(&mut self, data: &[u32], out: &mut Vec<Command>)
        requires
            old(self).wf(),
            data@.len() * 4 <= i32::MAX,
        ensures
            final(self).wf(),
            final(self).data_bytes() == data@.len() * 4,
            final(self).layout() == old(self).layout(),
            final(self).record_bytes() == old(self).record_bytes(),
            final(self).index_buffer() == old(self).index_buffer(),
            final(self).index_len() == old(self).index_len(),
            final(self).vertex_array() == old(self).vertex_array(),
            final(self).vertex_buffer() == old(self).vertex_buffer(),
            final(self).is_bound() == old(self).is_bound(),
            final(out)@.len() == old(out)@.len() + 2,
            final(out)@.take(old(out)@.len() as int) == old(out)@,
            final(out)@[old(out)@.len() as int] == Command::BindArrayBuffer(
                old(self).vertex_buffer(),
            ),
            is_buffer_upload(final(out)@[old(out)@.len() + 1int], data@),
    {
        self.data_length = data.len() as i32 * 4;
        self.buffer.buffer_data(data, out);
    }

    fn bind_to_attributes(&self, out: &mut Vec<Command>)
        requires
            self.wf(),
        ensures
            final(out)@ == old(out)@ + attribute_bindings(
                self.vertex_buffer(),
                self.layout(),
                self.record_bytes(),
            ),
    {
        let mut i: usize = 0;
        while i < self.attributes.len()
            invariant
                i <= self.attributes@.len(),
                out@ == old(out)@ + attribute_bindings(
                    self.buffer.handle(),
                    self.attributes@.take(i as int),
                    self.total_byte_length,
                ),
            decreases self.attributes@.len() - i,
        {
            let attr = &self.attributes[i];
            let ghost before = out@;
            self.buffer.bind_to_attribute(
                attr.location,
                attr.size,
                attr.gl_type,
                attr.normalize,
                self.total_byte_length,
                attr.offset,
                out,
            );
            assert(self.attributes@.take(i + 1).drop_last() =~= self.attributes@.take(i as int));
            assert(out@ =~= old(out)@ + attribute_bindings(
                self.buffer.handle(),
                self.attributes@.take(i + 1),
                self.total_byte_length,
            ));
            i = i + 1;
        }
        assert(self.attributes@.take(i as int) =~= self.attributes@);
    }

    /// Draws the buffer as a list of triangles: indexed when an index buffer
    /// is present, otherwise `vertex_count` vertices. The attributes are bound
    /// to the buffer on the first draw only.
    pub fn draw(&mut self, out: &mut Vec<Command>)
        requires
            old(self).wf(),
            old(self).can_draw(),
        ensures
            final(self).wf(),
            final(out)@ == old(out)@ + old(self).draw_commands(),
            final(self).is_bound(),
            final(self).layout() == old(self).layout(),
            final(self).record_bytes() == old(self).record_bytes(),
            final(self).data_bytes() == old(self).data_bytes(),
            final(self).index_buffer() == old(self).index_buffer(),
            final(self).index_len() == old(self).index_len(),
            final(self).vertex_array() == old(self).vertex_array(),
            final(self).vertex_buffer() == old(self).vertex_buffer(),
    {
        let ghost before = out@;
        out.push(Command::BindVertexArray(self.vao));
        if !self.bound {
            self.bind_to_attributes(out);
            self.bound = true;
        }
        if let Some(_) = self.index {
            out.push(Command::DrawElementsTriangles(self.index_count));
        } else {
            let count = self.data_length / self.total_byte_length;
            out.push(Command::DrawArraysTriangles(count));
        }
        out.push(Command::BindVertexArray(0));
        assert(out@ =~= before + old(self).draw_commands());
    }

    /// The attribute layout, in the order added.
    pub fn attribute_infos(&self) -> (r: &Vec<AttributeInfo>)
        ensures
            r@ == self.layout(),
    {
        &self.attributes
    }

    /// Bytes of one vertex record.
    pub fn total_byte_length(&self) -> (r: i32)
        ensures
            r == self.record_bytes(),
    {
        self.total_byte_length
    }

    /// Bytes uploaded to the vertex buffer.
    pub fn data_length(&self) -> (r: i32)
        ensures
            r == self.data_bytes(),
    {
        self.data_length
    }

    /// An attribute of reflected type `attr_type` fits without the record
    /// size overflowing.
    pub fn has_room_for_attribute(&self, attr_type: u32, normalize: bool) -> (r: bool)
        requires
            self.wf(),
        ensures
            r == (self.record_bytes() + footprint(attr_type, normalize) <= i32::MAX),
    {
        let (size, gl_type) = gli::get_attribute_size_and_type(attr_type, normalize);
        let length = gli::size_of_type(gl_type);
        assert(1 <= length * size <= 64 && length * size == size * length) by (nonlinear_arith)
            requires
                1 <= length <= 4,
                1 <= size <= 16,
        ;
        proof {
            lemma_layout_total_nonneg(self.layout());
        }
        self.total_byte_length <= i32::MAX - length * size
    }

    pub fn is_drawable(&self) -> (r: bool)
        ensures
            r == self.can_draw(),
    {
        self.index.is_some() || self.total_byte_length > 0
    }
}

} // verus!
