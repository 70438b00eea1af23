//! Shader programs and the reflection of their active attributes and uniforms.

use vstd::prelude::*;
use crate::gli::Command;
use crate::table::{NameTable, keyed_insert};

verus! {

/// An active vertex attribute of a linked program.
#[derive(Clone, Copy, Debug, PartialEq, Eq, Structural)]
pub struct Attribute {
    pub location: u32,
    pub size: i32,
    pub gl_type: u32,
}

/// An active uniform of a linked program.
#[derive(Clone, Copy, Debug, PartialEq, Eq, Structural)]
pub struct Uniform {
    pub location: u32,
    pub size: i32,
    pub gl_type: u32,
}

/// What the driver reports for one index of a linked program's active
/// attributes or uniforms: the name, element count and type, and the location
/// that the name resolves to (negative when the driver has none for it).
#[derive(Clone, Debug)]
pub struct ActiveVariable {
    pub name: String,
    pub size: i32,
    pub gl_type: u32,
    pub location: i32,
}

/// The attribute map that reflection builds from the driver's report: each
/// variable with a valid location, under its name, in report order.
pub open spec fn reflected_attributes(s: Seq<ActiveVariable>) -> Map<Seq<char>, Attribute>
    decreases s.len(),
{
    if s.len() == 0 {
        Map::empty()
    } else {
        let m = reflected_attributes(s.drop_last());
        let v = s.last();
        if v.location >= 0 {
            m.insert(v.name@, Attribute { location: v.location as u32, size: v.size, gl_type: v.gl_type })
        } else {
            m
        }
    }
}

/// The uniform map that reflection builds from the driver's report.
pub open spec fn reflected_uniforms(s: Seq<ActiveVariable>) -> Map<Seq<char>, Uniform>
    decreases s.len(),
{
    if s.len() == 0 {
        Map::empty()
    } else {
        let m = reflected_uniforms(s.drop_last());
        let v = s.last();
        if v.location >= 0 {
            m.insert(v.name@, Uniform { location: v.location as u32, size: v.size, gl_type: v.gl_type })
        } else {
            m
        }
    }
}

/// The attribute table that reflection builds, in order: a name takes its
/// place when first reported with a valid location.
pub open spec fn reflected_attribute_entries(s: Seq<ActiveVariable>) -> Seq<(Seq<char>, Attribute)>
    decreases s.len(),
{
    if s.len() == 0 {
        Seq::empty()
    } else {
        let t = reflected_attribute_entries(s.drop_last());
        let v = s.last();
        if v.location >= 0 {
            keyed_insert(
                t,
                v.name@,
                Attribute { location: v.location as u32, size: v.size, gl_type: v.gl_type },
            )
        } else {
            t
        }
    }
}

/// The uniform table that reflection builds, in order.
pub open spec fn reflected_uniform_entries(s: Seq<ActiveVariable>) -> Seq<(Seq<char>, Uniform)>
    decreases s.len(),
{
    if s.len() == 0 {
        Seq::empty()
    } else {
        let t = reflected_uniform_entries(s.drop_last());
        let v = s.last();
        if v.location >= 0 {
            keyed_insert(
                t,
                v.name@,
                Uniform { location: v.location as u32, size: v.size, gl_type: v.gl_type },
            )
        } else {
            t
        }
    }
}

/// Some reported variable carries `name` and a valid location.
pub open spec fn reported_active(s: Seq<ActiveVariable>, name: Seq<char>) -> bool {
    exists|i: int| 0 <= i < s.len() && s[i].name@ == name && s[i].location >= 0
}

/// Reflection keeps exactly the reported attributes whose location is valid:
/// no name is added and none with a valid location is lost.
pub proof fn lemma_reflected_attributes_keys(s: Seq<ActiveVariable>, name: Seq<char>)
    ensures
        reflected_attributes(s).contains_key(name) <==> reported_active(s, name),
    decreases s.len(),
{
    if s.len() > 0 {
        let p = s.drop_last();
        lemma_reflected_attributes_keys(p, name);
        if reported_active(p, name) {
            let i = choose|i: int| 0 <= i < p.len() && p[i].name@ == name && p[i].location >= 0;
            assert(s[i] == p[i]);
        }
        if reported_active(s, name) {
            let i = choose|i: int| 0 <= i < s.len() && s[i].name@ == name && s[i].location >= 0;
            if i < s.len() - 1 {
                assert(p[i] == s[i]);
            }
        }
    }
}

/// Reflection keeps exactly the reported uniforms whose location is valid.
pub proof fn lemma_reflected_uniforms_keys(s: Seq<ActiveVariable>, name: Seq<char>)
    ensures
        reflected_uniforms(s).contains_key(name) <==> reported_active(s, name),
    decreases s.len(),
{
    if s.len() > 0 {
        let p = s.drop_last();
        lemma_reflected_uniforms_keys(p, name);
        if reported_active(p, name) {
            let i = choose|i: int| 0 <= i < p.len() && p[i].name@ == name && p[i].location >= 0;
            assert(s[i] == p[i]);
        }
        if reported_active(s, name) {
            let i = choose|i: int| 0 <= i < s.len() && s[i].name@ == name && s[i].location >= 0;
            if i < s.len() - 1 {
                assert(p[i] == s[i]);
            }
        }
    }
}

fn extract_uniforms(reflected: &Vec<ActiveVariable>) -> (r: NameTable<Uniform>)
    ensures
        r.wf(),
        r@ == reflected_uniforms(reflected@),
        r.keyed() == reflected_uniform_entries(reflected@),
{
    let mut map = NameTable::new();
    let mut i: usize = 0;
    while i < reflected.len()
        invariant
            i <= reflected@.len(),
            map.wf(),
            map@ == reflected_uniforms(reflected@.take(i as int)),
            map.keyed() == reflected_uniform_entries(reflected@.take(i as int)),
        decreases reflected@.len() - i,
    {
        let v = &reflected[i];
        assert(reflected@.take(i + 1).drop_last() =~= reflected@.take(i as int));
        if v.location > -1 {
            let uniform = Uniform { location: v.location as u32, size: v.size, gl_type: v.gl_type };
            map.insert(v.name.clone(), uniform);
        }
        i = i + 1;
    }
    assert(reflected@.take(i as int) =~= reflected@);
    map
}

fn extract_attributes(reflected: &Vec<ActiveVariable>) -> (r: NameTable<Attribute>)
    ensures
        r.wf(),
        r@ == reflected_attributes(reflected@),
        r.keyed() == reflected_attribute_entries(reflected@),
{
    let mut map = NameTable::new();
    let mut i: usize = 0;
    while i < reflected.len()
        invariant
            i <= reflected@.len(),
            map.wf(),
            map@ == reflected_attributes(reflected@.take(i as int)),
            map.keyed() == reflected_attribute_entries(reflected@.take(i as int)),
        decreases reflected@.len() - i,
    {
        let v = &reflected[i];
        assert(reflected@.take(i + 1).drop_last() =~= reflected@.take(i as int));
        if v.location > -1 {
            let attrib = Attribute { location: v.location as u32, size: v.size, gl_type: v.gl_type };
            map.insert(v.name.clone(), attrib);
        }
        i = i + 1;
    }
    assert(reflected@.take(i as int) =~= reflected@);
    map
}

/// A shader program: the shader sources waiting to be compiled, then the
/// driver's program handle and the reflected attributes and uniforms.
pub struct Program {
    attributes: NameTable<Attribute>,
    uniforms: NameTable<Uniform>,
    program: Option<u32>,
    raw_shaders: Vec<(u32, &'static str)>,
}

impl Program {
    /// The driver's handle, once compiled.
    pub closed spec fn handle(&self) -> Option<u32> {
        self.program
    }

    /// The shader sources added so far, with their stage, in order.
    pub closed spec fn pending_shaders(&self) -> Seq<(u32, &'static str)> {
        self.raw_shaders@
    }

    pub closed spec fn attribute_table(&self) -> NameTable<Attribute> {
        self.attributes
    }

    /// The reflected uniforms, in the order in which the driver reported them.
    pub closed spec fn uniform_table(&self) -> NameTable<Uniform> {
        self.uniforms
    }

    pub open spec fn attribute_map(&self) -> Map<Seq<char>, Attribute> {
        self.attribute_table()@
    }

    pub open spec fn uniform_map(&self) -> Map<Seq<char>, Uniform> {
        self.uniform_table()@
    }

    pub open spec fn spec_is_compiled(&self) -> bool {
        self.handle().is_some()
    }

    /// Both tables are well formed, and empty until the program is compiled.
    pub open spec fn wf(&self) -> bool {
        &&& self.attribute_table().wf()
        &&& self.uniform_table().wf()
        &&& !self.spec_is_compiled() ==> self.attribute_table().entries().len() == 0
            && self.uniform_table().entries().len() == 0
    }

    pub fn new() -> (r: Program)
        ensures
            r.wf(),
            !r.spec_is_compiled(),
            r.pending_shaders() == Seq::<(u32, &'static str)>::empty(),
    {
        Program {
            attributes: NameTable::new(),
            uniforms: NameTable::new(),
            program: None,
            raw_shaders: Vec::new(),
        }
    }

    pub fn is_compiled(&self) -> (r: bool)
        ensures
            r == self.spec_is_compiled(),
    {
        self.program.is_some()
    }

    /// Queues a shader source for `compile`. Only a program that is not yet
    /// compiled takes new shaders.
    pub fn add_shader(&mut self, source: &'static str, shader_type: u32)
        requires
            !old(self).spec_is_compiled(),
            old(self).wf(),
        ensures
            final(self).wf(),
            final(self).pending_shaders() == old(self).pending_shaders().push((shader_type, source)),
            final(self).handle() == old(self).handle(),
            final(self).attribute_table() == old(self).attribute_table(),
            final(self).uniform_table() == old(self).uniform_table(),
    {
        self.raw_shaders.push((shader_type, source));
    }

    /// The queued shader sources, with their stage, in the order added.
    pub fn shaders(&self) -> (r: &Vec<(u32, &'static str)>)
        ensures
            r@ == self.pending_shaders(),
    {
        &self.raw_shaders
    }

    /// Records the linked program `program` and its reflection: `uniforms` and
    /// `attributes` are what the driver reported for each active index, in
    /// index order. Only variables with a valid location are kept. A program is
    /// compiled once.
    pub fn compile(
        &mut self,
        program: u32,
        uniforms: &Vec<ActiveVariable>,
        attributes: &Vec<ActiveVariable>,
    )
        requires
            !old(self).spec_is_compiled(),
            old(self).wf(),
        ensures
            final(self).wf(),
            final(self).handle() == Some(program),
            final(self).pending_shaders() == old(self).pending_shaders(),
            final(self).uniform_map() == reflected_uniforms(uniforms@),
            final(self).attribute_map() == reflected_attributes(attributes@),
            final(self).uniform_table().keyed() == reflected_uniform_entries(uniforms@),
            final(self).attribute_table().keyed() == reflected_attribute_entries(attributes@),
            forall|name: Seq<char>|
                #![trigger final(self).uniform_map().contains_key(name)]
                final(self).uniform_map().contains_key(name) <==> reported_active(uniforms@, name),
            forall|name: Seq<char>|
                #![trigger final(self).attribute_map().contains_key(name)]
                final(self).attribute_map().contains_key(name) <==> reported_active(
                    attributes@,
                    name,
                ),
    {
        self.program = Some(program);
        self.uniforms = extract_uniforms(uniforms);
        self.attributes = extract_attributes(attributes);
        assert forall|name: Seq<char>|
            self.uniform_map().contains_key(name) <==> reported_active(uniforms@, name) by {
            lemma_reflected_uniforms_keys(uniforms@, name);
        }
        assert forall|name: Seq<char>|
            self.attribute_map().contains_key(name) <==> reported_active(attributes@, name) by {
            lemma_reflected_attributes_keys(attributes@, name);
        }
    }

    /// Makes this program the current one for later draws; does nothing before
    /// compilation.
    pub fn make_current(&self, out: &mut Vec<Command>)
        ensures
            final(out)@ == match self.handle() {
                Some(p) => old(out)@.push(Command::UseProgram(p)),
                None => old(out)@,
            },
    {
        if let Some(p) = self.program {
            out.push(Command::UseProgram(p));
        }
    }

    pub fn get_attribute(&self, name: &String) -> (r: Option<&Attribute>)
        requires
            self.wf(),
        ensures
            match r {
                Some(a) => self.attribute_map().contains_key(name@) && *a == self.attribute_map()[name@],
                None => !self.attribute_map().contains_key(name@),
            },
    {
        self.attributes.get(name)
    }

    pub fn get_uniform(&self, name: &String) -> (r: Option<&Uniform>)
        requires
            self.wf(),
        ensures
            match r {
                Some(u) => self.uniform_map().contains_key(name@) && *u == self.uniform_map()[name@],
                None => !self.uniform_map().contains_key(name@),
            },
    {
        self.uniforms.get(name)
    }

    /// The reflected uniforms, in the order in which the driver reported them.
    pub fn uniforms(&self) -> (r: &NameTable<Uniform>)
        ensures
            *r == self.uniform_table(),
    {
        &self.uniforms
    }
}

} // verus!
