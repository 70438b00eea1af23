//! A drawable: a shared program, its own geometry, and the values that it
//! sets on the program's uniforms.

use std::rc::Rc;
use vstd::prelude::*;
use crate::geometry::{Geometry, attribute_info, footprint};
use crate::gli::Command;
use crate::program::{Program, Uniform};
use crate::table::{NameTable, unique_keys};
use crate::uniforms::{UniformValue, set_value_for_uniform, upload_commands};

verus! {

/// The calls that resolve the uniforms of `tab`, in order, against the local
/// values `local`, handing out texture units from `unit` on. A uniform with no
/// local value is left alone; a texture takes the next unit, is bound to it,
/// and the uniform receives the unit's number; any other value is uploaded.
pub open spec fn uniform_commands(
    tab: Seq<(Seq<char>, Uniform)>,
    local: Map<Seq<char>, UniformValue>,
    unit: int,
) -> Seq<Command>
    decreases tab.len(),
{
    if tab.len() == 0 {
        Seq::empty()
    } else {
        let name = tab[0].0;
        let location = tab[0].1.location;
        let rest = tab.subrange(1, tab.len() as int);
        if local.contains_key(name) {
            match local[name] {
                UniformValue::Texture2D(t) => seq![
                    Command::ActiveTexture(unit as u32),
                    Command::BindTexture2d(t),
                    Command::Uniform1i(location, #[verifier::truncate] (unit as i32)),
                ] + uniform_commands(rest, local, unit + 1),
                v => upload_commands(location, v) + uniform_commands(rest, local, unit),
            }
        } else {
            uniform_commands(rest, local, unit)
        }
    }
}

/// How many uniforms of `tab` have a texture as local value.
pub open spec fn texture_count(tab: Seq<(Seq<char>, Uniform)>, local: Map<Seq<char>, UniformValue>) -> nat
    decreases tab.len(),
{
    if tab.len() == 0 {
        0
    } else {
        let rest = tab.subrange(1, tab.len() as int);
        if local.contains_key(tab[0].0) && local[tab[0].0] is Texture2D {
            texture_count(rest, local) + 1
        } else {
            texture_count(rest, local)
        }
    }
}

/// The names of `tab` whose local value is a texture.
pub open spec fn texture_names(
    tab: Seq<(Seq<char>, Uniform)>,
    local: Map<Seq<char>, UniformValue>,
) -> Set<Seq<char>> {
    Set::new(
        |n: Seq<char>|
            (exists|i: int| 0 <= i < tab.len() && tab[i].0 == n) && local.contains_key(n)
                && local[n] is Texture2D,
    )
}

proof fn lemma_key_in_tail(tab: Seq<(Seq<char>, Uniform)>, n: Seq<char>)
    requires
        tab.len() > 0,
    ensures
        (exists|i: int| 0 <= i < tab.len() && tab[i].0 == n) <==> (n == tab[0].0 || exists|i: int|
            0 <= i < tab.len() - 1 && tab.subrange(1, tab.len() as int)[i].0 == n),
{
    let rest = tab.subrange(1, tab.len() as int);
    if exists|i: int| 0 <= i < tab.len() && tab[i].0 == n {
        let i = choose|i: int| 0 <= i < tab.len() && tab[i].0 == n;
        if i > 0 {
            assert(rest[i - 1] == tab[i]);
        }
    }
    if exists|i: int| 0 <= i < tab.len() - 1 && rest[i].0 == n {
        let i = choose|i: int| 0 <= i < tab.len() - 1 && rest[i].0 == n;
        assert(rest[i] == tab[i + 1]);
    }
}

proof fn lemma_texture_names_count(
    tab: Seq<(Seq<char>, Uniform)>,
    local: Map<Seq<char>, UniformValue>,
)
    requires
        unique_keys(tab),
    ensures
        texture_names(tab, local).finite(),
        texture_names(tab, local).len() == texture_count(tab, local),
    decreases tab.len(),
{
    if tab.len() == 0 {
        assert(texture_names(tab, local) =~= Set::<Seq<char>>::empty());
    } else {
        let rest = tab.subrange(1, tab.len() as int);
        let head = tab[0].0;
        assert(unique_keys(rest)) by {
            assert forall|i: int, j: int| 0 <= i < j < rest.len() implies rest[i].0 != rest[j].0 by {
                assert(rest[i] == tab[i + 1] && rest[j] == tab[j + 1]);
            }
        }
        lemma_texture_names_count(rest, local);
        assert(!texture_names(rest, local).contains(head)) by {
            if exists|i: int| 0 <= i < rest.len() && rest[i].0 == head {
                let i = choose|i: int| 0 <= i < rest.len() && rest[i].0 == head;
                assert(rest[i] == tab[i + 1]);
            }
        }
        assert forall|n: Seq<char>| #[trigger]
            texture_names(tab, local).contains(n) <==> (texture_names(rest, local).contains(n) || (
            n == head && local.contains_key(head) && local[head] is Texture2D)) by {
            lemma_key_in_tail(tab, n);
        }
        if local.contains_key(head) && local[head] is Texture2D {
            assert(texture_names(tab, local) =~= texture_names(rest, local).insert(head));
        } else {
            assert(texture_names(tab, local) =~= texture_names(rest, local));
        }
    }
}

/// The texture units that the calls `cmds` select, in order.
pub open spec fn selected_units(cmds: Seq<Command>) -> Seq<u32>
    decreases cmds.len(),
{
    if cmds.len() == 0 {
        Seq::empty()
    } else {
        let p = selected_units(cmds.drop_last());
        match cmds.last() {
            Command::ActiveTexture(u) => p.push(u),
            _ => p,
        }
    }
}

proof fn lemma_selected_units_concat(a: Seq<Command>, b: Seq<Command>)
    ensures
        selected_units(a + b) == selected_units(a) + selected_units(b),
    decreases b.len(),
{
    if b.len() == 0 {
        assert(a + b =~= a);
        assert(selected_units(b) =~= Seq::<u32>::empty());
        assert(selected_units(a) + selected_units(b) =~= selected_units(a));
    } else {
        assert((a + b).drop_last() =~= a + b.drop_last());
        lemma_selected_units_concat(a, b.drop_last());
        assert((a + b).last() == b.last());
        match b.last() {
            Command::ActiveTexture(u) => {
                assert(selected_units(a + b) =~= selected_units(a) + selected_units(b));
            },
            _ => {},
        }
    }
}

proof fn lemma_uniform_units(
    tab: Seq<(Seq<char>, Uniform)>,
    local: Map<Seq<char>, UniformValue>,
    unit: int,
)
    requires
        0 <= unit,
        unit + tab.len() <= u32::MAX + 1,
    ensures
        selected_units(uniform_commands(tab, local, unit)) == Seq::new(
            texture_count(tab, local),
            |k: int| (unit + k) as u32,
        ),
        texture_count(tab, local) <= tab.len(),
    decreases tab.len(),
{
    if tab.len() == 0 {
        assert(Seq::new(0, |k: int| (unit + k) as u32) =~= Seq::<u32>::empty());
    } else {
        let name = tab[0].0;
        let location = tab[0].1.location;
        let rest = tab.subrange(1, tab.len() as int);
        if local.contains_key(name) {
            match local[name] {
                UniformValue::Texture2D(t) => {
                    let head = seq![
                        Command::ActiveTexture(unit as u32),
                        Command::BindTexture2d(t),
                        Command::Uniform1i(location, #[verifier::truncate] (unit as i32)),
                    ];
                    lemma_uniform_units(rest, local, unit + 1);
                    lemma_selected_units_concat(head, uniform_commands(rest, local, unit + 1));
                    let h1 = head.drop_last();
                    let h2 = h1.drop_last();
                    assert(h2.drop_last() =~= Seq::<Command>::empty());
                    assert(selected_units(h2.drop_last()) =~= Seq::<u32>::empty());
                    assert(selected_units(h2) =~= seq![unit as u32]);
                    assert(selected_units(h1) =~= seq![unit as u32]);
                    assert(selected_units(head) =~= seq![unit as u32]);
                    assert(selected_units(uniform_commands(tab, local, unit)) =~= Seq::new(
                        texture_count(tab, local),
                        |k: int| (unit + k) as u32,
                    ));
                },
                v => {
                    let head = upload_commands(location, v);
                    lemma_uniform_units(rest, local, unit);
                    lemma_selected_units_concat(head, uniform_commands(rest, local, unit));
                    assert(head.len() == 1);
                    assert(head.drop_last() =~= Seq::<Command>::empty());
                    assert(selected_units(head.drop_last()) =~= Seq::<u32>::empty());
                    assert(selected_units(head) =~= Seq::<u32>::empty());
                    assert(selected_units(uniform_commands(tab, local, unit)) =~= Seq::new(
                        texture_count(tab, local),
                        |k: int| (unit + k) as u32,
                    ));
                },
            }
        } else {
            lemma_uniform_units(rest, local, unit);
        }
    }
}

/// Resolving uniforms hands out texture units 0, 1, 2, ... in table order: as
/// many as there are names that the program reports and that have a texture
/// as local value, all distinct, and the same units for the same program and
/// values.
pub proof fn lemma_texture_units_sequential(
    tab: Seq<(Seq<char>, Uniform)>,
    local: Map<Seq<char>, UniformValue>,
)
    requires
        tab.len() <= u32::MAX,
        unique_keys(tab),
    ensures
        texture_names(tab, local).finite(),
        selected_units(uniform_commands(tab, local, 0)).len() == texture_names(tab, local).len(),
        selected_units(uniform_commands(tab, local, 0)) == Seq::new(
            texture_count(tab, local),
            |k: int| k as u32,
        ),
        forall|a: int, b: int|
            0 <= a < b < selected_units(uniform_commands(tab, local, 0)).len() ==> selected_units(
                uniform_commands(tab, local, 0),
            )[a] != selected_units(uniform_commands(tab, local, 0))[b],
{
    lemma_uniform_units(tab, local, 0);
    lemma_texture_names_count(tab, local);
    assert(Seq::new(texture_count(tab, local), |k: int| (0 + k) as u32) =~= Seq::new(
        texture_count(tab, local),
        |k: int| k as u32,
    ));
}

/// The calls by which a draw hands `value` to a uniform at `location`, with
/// `unit` the next free texture unit: a texture takes that unit, any other
/// value goes through the generic upload.
pub open spec fn entry_commands(location: u32, value: UniformValue, unit: int) -> Seq<Command> {
    match value {
        UniformValue::Texture2D(t) => seq![
            Command::ActiveTexture(unit as u32),
            Command::BindTexture2d(t),
            Command::Uniform1i(location, #[verifier::truncate] (unit as i32)),
        ],
        v => upload_commands(location, v),
    }
}

proof fn lemma_uniform_commands_split(
    a: Seq<(Seq<char>, Uniform)>,
    b: Seq<(Seq<char>, Uniform)>,
    local: Map<Seq<char>, UniformValue>,
    unit: int,
)
    ensures
        uniform_commands(a + b, local, unit) == uniform_commands(a, local, unit) + uniform_commands(
            b,
            local,
            unit + texture_count(a, local),
        ),
        texture_count(a + b, local) == texture_count(a, local) + texture_count(b, local),
    decreases a.len(),
{
    if a.len() == 0 {
        assert(a + b =~= b);
        assert(uniform_commands(a, local, unit) + uniform_commands(b, local, unit) =~= uniform_commands(
            b,
            local,
            unit,
        ));
    } else {
        let ra = a.subrange(1, a.len() as int);
        assert((a + b).subrange(1, (a + b).len() as int) =~= ra + b);
        assert((a + b)[0] == a[0]);
        let name = a[0].0;
        if local.contains_key(name) && local[name] is Texture2D {
            lemma_uniform_commands_split(ra, b, local, unit + 1);
        } else {
            lemma_uniform_commands_split(ra, b, local, unit);
        }
        assert(uniform_commands(a + b, local, unit) =~= uniform_commands(a, local, unit)
            + uniform_commands(b, local, unit + texture_count(a, local)));
    }
}

proof fn lemma_uniform_commands_single(
    e: (Seq<char>, Uniform),
    local: Map<Seq<char>, UniformValue>,
    unit: int,
)
    ensures
        uniform_commands(seq![e], local, unit) == if local.contains_key(e.0) {
            entry_commands(e.1.location, local[e.0], unit)
        } else {
            Seq::<Command>::empty()
        },
        texture_count(seq![e], local) == if local.contains_key(e.0) && local[e.0] is Texture2D {
            1nat
        } else {
            0nat
        },
{
    let tab = seq![e];
    let rest = tab.subrange(1, 1);
    assert(rest =~= Seq::<(Seq<char>, Uniform)>::empty());
    assert(uniform_commands(rest, local, unit) == Seq::<Command>::empty());
    assert(uniform_commands(rest, local, unit + 1) == Seq::<Command>::empty());
    assert(texture_count(rest, local) == 0);
    if local.contains_key(e.0) {
        assert(uniform_commands(tab, local, unit) =~= entry_commands(e.1.location, local[e.0], unit));
    }
}

/// Resolving the uniforms of `tab` against `local` makes, for the uniform at
/// position `k`, exactly its own calls, between those of the uniforms before
/// it and those after it: nothing when it has no local value, the generic
/// upload for a plain value, and for a texture the next unit, whose number is
/// how many textures come before it.
pub proof fn lemma_uniform_resolution(
    tab: Seq<(Seq<char>, Uniform)>,
    local: Map<Seq<char>, UniformValue>,
    k: int,
)
    requires
        0 <= k < tab.len(),
    ensures
        uniform_commands(tab, local, 0) == uniform_commands(tab.take(k), local, 0) + (if local.contains_key(
            tab[k].0,
        ) {
            entry_commands(tab[k].1.location, local[tab[k].0], texture_count(tab.take(k), local) as int)
        } else {
            Seq::<Command>::empty()
        }) + uniform_commands(tab.skip(k + 1), local, texture_count(tab.take(k + 1), local) as int),
{
    let pre = tab.take(k);
    let one = seq![tab[k]];
    let post = tab.skip(k + 1);
    assert(tab =~= pre + (one + post));
    assert(tab.take(k + 1) =~= pre + one);
    lemma_uniform_commands_split(pre, one + post, local, 0);
    lemma_uniform_commands_split(one, post, local, texture_count(pre, local) as int);
    lemma_uniform_commands_split(pre, one, local, 0);
    lemma_uniform_commands_single(tab[k], local, texture_count(pre, local) as int);
    assert(uniform_commands(tab, local, 0) =~= uniform_commands(pre, local, 0) + (if local.contains_key(
        tab[k].0,
    ) {
        entry_commands(tab[k].1.location, local[tab[k].0], texture_count(pre, local) as int)
    } else {
        Seq::<Command>::empty()
    }) + uniform_commands(post, local, texture_count(tab.take(k + 1), local) as int));
}

/// Setting `value` on the one uniform that a program reports makes the next
/// draw issue exactly the upload for that value; a texture is bound through
/// unit 0 and never reaches the generic upload, which does nothing for it.
pub proof fn lemma_set_uniform_then_draw(
    name: Seq<char>,
    uniform: Uniform,
    local: Map<Seq<char>, UniformValue>,
    value: UniformValue,
)
    ensures
        uniform_commands(seq![(name, uniform)], local.insert(name, value), 0) == entry_commands(
            uniform.location,
            value,
            0,
        ),
        value is Texture2D ==> upload_commands(uniform.location, value) == Seq::<Command>::empty(),
{
    lemma_uniform_commands_single((name, uniform), local.insert(name, value), 0);
}

/// A program, shared with other nodes, drawn with this node's geometry and
/// uniform values.
pub struct Node {
    geometry: Geometry,
    program: Rc<Program>,
    uniforms: NameTable<UniformValue>,
}

impl Node {
    pub closed spec fn geometry(&self) -> Geometry {
        self.geometry
    }

    pub closed spec fn program(&self) -> Program {
        *self.program
    }

    /// The values set on uniforms, by name.
    pub closed spec fn local_uniforms(&self) -> NameTable<UniformValue> {
        self.uniforms
    }

    pub open spec fn wf(&self) -> bool {
        &&& self.geometry().wf()
        &&& self.program().wf()
        &&& self.local_uniforms().wf()
    }

    /// A node for `program`, with an empty geometry over the vertex array
    /// object `vao` and the vertex buffer object `buffer` that the driver
    /// created, and no uniform values.
    pub fn for_program(program: Rc<Program>, vao: u32, buffer: u32) -> (r: Node)
        requires
            program.wf(),
        ensures
            r.wf(),
            r.program() == *program,
            r.geometry().layout() == Seq::<crate::geometry::AttributeInfo>::empty(),
            r.geometry().record_bytes() == 0,
            r.geometry().data_bytes() == 0,
            r.geometry().index_buffer() == None::<u32>,
            r.geometry().vertex_array() == vao,
            r.geometry().vertex_buffer() == buffer,
            !r.geometry().is_bound(),
            r.local_uniforms()@ == Map::<Seq<char>, UniformValue>::empty(),
    {
        let geometry = Geometry::new(vao, buffer);
        Node { geometry, program, uniforms: NameTable::new() }
    }

    /// Adds the program's attribute `name` to the geometry's layout; a name
    /// that the program does not have is ignored.
    pub fn add_attribute(&mut self, name: String)
        requires
            old(self).wf(),
            old(self).program().attribute_map().contains_key(name@) ==> old(
                self,
            ).geometry().record_bytes() + footprint(
                old(self).program().attribute_map()[name@].gl_type,
                false,
            ) <= i32::MAX,
        ensures
            final(self).wf(),
            final(self).program() == old(self).program(),
            final(self).local_uniforms() == old(self).local_uniforms(),
            !old(self).program().attribute_map().contains_key(name@) ==> final(self).geometry()
                == old(self).geometry(),
            old(self).program().attribute_map().contains_key(name@) ==> {
                &&& final(self).geometry().layout() == old(self).geometry().layout().push(
                    attribute_info(
                        old(self).program().attribute_map()[name@],
                        false,
                        old(self).geometry().record_bytes(),
                    ),
                )
                &&& final(self).geometry().record_bytes() == old(self).geometry().record_bytes()
                    + footprint(
                    old(self).program().attribute_map()[name@].gl_type,
                    false,
                )
                &&& final(self).geometry().data_bytes() == old(self).geometry().data_bytes()
                &&& final(self).geometry().index_buffer() == old(self).geometry().index_buffer()
                &&& final(self).geometry().index_len() == old(self).geometry().index_len()
                &&& final(self).geometry().vertex_array() == old(self).geometry().vertex_array()
                &&& final(self).geometry().vertex_buffer() == old(self).geometry().vertex_buffer()
                &&& final(self).geometry().is_bound() == old(self).geometry().is_bound()
            },
    {
        if let Some(attr) = self.program.get_attribute(&name) {
            self.geometry.add_attribute(attr);
        }
    }

    /// Uploads `data`, one float bit pattern per element, as the geometry's
    /// vertex data.
    pub fn buffer_data(&mut self, data: &[u32], out: &mut Vec<Command>)
        requires
            old(self).wf(),
            data@.len() * 4 <= i32::MAX,
        ensures
            final(self).wf(),
            final(self).program() == old(self).program(),
            final(self).local_uniforms() == old(self).local_uniforms(),
            final(self).geometry().data_bytes() == data@.len() * 4,
            final(self).geometry().layout() == old(self).geometry().layout(),
            final(self).geometry().record_bytes() == old(self).geometry().record_bytes(),
            final(self).geometry().index_buffer() == old(self).geometry().index_buffer(),
            final(self).geometry().index_len() == old(self).geometry().index_len(),
            final(self).geometry().vertex_array() == old(self).geometry().vertex_array(),
            final(self).geometry().vertex_buffer() == old(self).geometry().vertex_buffer(),
            final(self).geometry().is_bound() == old(self).geometry().is_bound(),
            final(out)@.len() == old(out)@.len() + 2,
            final(out)@.take(old(out)@.len() as int) == old(out)@,
            final(out)@[old(out)@.len() as int] == Command::BindArrayBuffer(
                old(self).geometry().vertex_buffer(),
            ),
            crate::gli::is_buffer_upload(final(out)@[old(out)@.len() + 1int], data@),
    {
        self.geometry.buffer_data(data, out);
    }

    /// Sets the value that the next draws give the uniform `name`, replacing
    /// any earlier one. Nothing reaches the driver before the next draw.
    pub fn set_uniform(&mut self, name: String, value: UniformValue)
        requires
            old(self).wf(),
        ensures
            final(self).wf(),
            final(self).local_uniforms()@ == old(self).local_uniforms()@.insert(name@, value),
            final(self).program() == old(self).program(),
            final(self).geometry() == old(self).geometry(),
    {
        self.uniforms.insert(name, value);
    }

    /// Resolves the uniforms, in the order in which the program reported them,
    /// then draws the geometry.
    pub fn draw(&mut self, out: &mut Vec<Command>)
        requires
            old(self).wf(),
            old(self).geometry().can_draw(),
            old(self).program().uniform_table().entries().len() <= i32::MAX,
        ensures
            final(self).wf(),
            final(out)@ == old(out)@ + uniform_commands(
                old(self).program().uniform_table().keyed(),
                old(self).local_uniforms()@,
                0,
            ) + old(self).geometry().draw_commands(),
            final(self).program() == old(self).program(),
            final(self).local_uniforms() == old(self).local_uniforms(),
            final(self).geometry().is_bound(),
            final(self).geometry().layout() == old(self).geometry().layout(),
            final(self).geometry().record_bytes() == old(self).geometry().record_bytes(),
            final(self).geometry().data_bytes() == old(self).geometry().data_bytes(),
            final(self).geometry().index_buffer() == old(self).geometry().index_buffer(),
            final(self).geometry().index_len() == old(self).geometry().index_len(),
            final(self).geometry().vertex_array() == old(self).geometry().vertex_array(),
            final(self).geometry().vertex_buffer() == old(self).geometry().vertex_buffer(),
    {
        let table = self.program.uniforms();
        let ghost tab = table.keyed();
        let ghost local = self.uniforms@;
        let n = table.len();
        let mut tex_slot: u32 = 0;
        let mut i: usize = 0;
        assert(tab.subrange(0, n as int) =~= tab);
        while i < n
            invariant
                n == tab.len(),
                n <= i32::MAX,
                i <= n,
                tex_slot <= i,
                tab == table.keyed(),
                local == self.uniforms@,
                self.uniforms.wf(),
                out@ + uniform_commands(tab.subrange(i as int, n as int), local, tex_slot as int)
                    == old(out)@ + uniform_commands(tab, local, 0),
            decreases n - i,
        {
            let entry = table.entry(i);
            assert(tab[i as int] == (entry.0@, entry.1));
            let ghost rest = tab.subrange(i + 1, n as int);
            assert(tab.subrange(i as int, n as int).subrange(1, n - i) =~= rest);
            let ghost before = out@;
            match self.uniforms.get(&entry.0) {
                Some(local_value) => {
                    match local_value {
                        UniformValue::Texture2D(t) => {
                            out.push(Command::ActiveTexture(tex_slot));
                            out.push(Command::BindTexture2d(*t));
                            out.push(Command::Uniform1i(entry.1.location, tex_slot as i32));
                            assert(out@ + uniform_commands(rest, local, tex_slot + 1) =~= before
                                + uniform_commands(
                                tab.subrange(i as int, n as int),
                                local,
                                tex_slot as int,
                            ));
                            tex_slot = tex_slot + 1;
                        },
                        _ => {
                            set_value_for_uniform(entry.1.location, local_value, out);
                            assert(out@ + uniform_commands(rest, local, tex_slot as int) =~= before
                                + uniform_commands(
                                tab.subrange(i as int, n as int),
                                local,
                                tex_slot as int,
                            ));
                        },
                    }
                },
                None => {},
            }
            i = i + 1;
        }
        assert(tab.subrange(n as int, n as int) =~= Seq::<(Seq<char>, Uniform)>::empty());
        assert(out@ =~= old(out)@ + uniform_commands(tab, local, 0));
        self.geometry.draw(out);
    }

    /// `add_attribute(name)` may be called: the program has no attribute
    /// `name`, or the geometry's records have room for it.
    pub fn has_room_for_attribute(&self, name: &String) -> (r: bool)
        requires
            self.wf(),
        ensures
            r == (self.program().attribute_map().contains_key(name@) ==> self.geometry().record_bytes()
                + footprint(self.program().attribute_map()[name@].gl_type, false) <= i32::MAX),
    {
        match self.program.get_attribute(name) {
            Some(attr) => self.geometry.has_room_for_attribute(attr.gl_type, false),
            None => true,
        }
    }

    /// `draw` may be called: the geometry has a vertex count, and every
    /// uniform of the program can get a texture unit.
    pub fn is_drawable(&self) -> (r: bool)
        ensures
            r == (self.geometry().can_draw() && self.program().uniform_table().entries().len()
                <= i32::MAX),
    {
        self.geometry.is_drawable() && self.program.uniforms().len() <= i32::MAX as usize
    }
}

} // verus!
