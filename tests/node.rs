use std::rc::Rc;
use gllite::gli::{self, Command};
use gllite::node::Node;
use gllite::program::{ActiveVariable, Program};
use gllite::texture::Texture;
use gllite::uniforms::{set_value_for_uniform, UniformValue};
use gllite::table::NameTable;

fn var(name: &str, gl_type: u32, location: i32) -> ActiveVariable {
    ActiveVariable { name: name.to_string(), size: 1, gl_type, location }
}

fn program(uniforms: Vec<ActiveVariable>) -> Rc<Program> {
    let mut p = Program::new();
    p.add_shader("vertex", gli::VERTEX_SHADER);
    p.add_shader("fragment", gli::FRAGMENT_SHADER);
    let attributes = vec![var("a_position", gli::FLOAT_VEC2, 0), var("a_unused", gli::FLOAT, -1)];
    p.compile(1, &uniforms, &attributes);
    Rc::new(p)
}

fn drawable(p: Rc<Program>) -> Node {
    let mut node = Node::for_program(p, 10, 20);
    node.add_attribute("a_position".to_string());
    let mut out: Vec<Command> = Vec::new();
    node.buffer_data(&[0u32; 6], &mut out);
    node
}

/// The calls that a draw makes before it reaches the geometry.
fn uniform_calls(node: &mut Node) -> Vec<Command> {
    let mut out: Vec<Command> = Vec::new();
    node.draw(&mut out);
    let start = out.iter().position(|c| *c == Command::BindVertexArray(10)).unwrap();
    out.truncate(start);
    out
}

#[test]
fn float_uniform_upload() {
    let mut node = drawable(program(vec![var("u", gli::FLOAT, 4)]));
    node.set_uniform("u".to_string(), UniformValue::Float(1.5f32.to_bits()));
    assert_eq!(uniform_calls(&mut node), vec![Command::Uniform1f(4, 1.5f32.to_bits())]);
}

#[test]
fn vec2_uniform_upload() {
    let mut node = drawable(program(vec![var("u", gli::FLOAT_VEC2, 4)]));
    node.set_uniform("u".to_string(), UniformValue::FloatVec2(1.0f32.to_bits(), 2.0f32.to_bits()));
    assert_eq!(uniform_calls(&mut node), vec![Command::Uniform2f(4, 1.0f32.to_bits(), 2.0f32.to_bits())]);
}

#[test]
fn vec3_uniform_upload() {
    let mut node = drawable(program(vec![var("u", gli::FLOAT_VEC3, 4)]));
    let (x, y, z) = (1.0f32.to_bits(), 2.0f32.to_bits(), 3.0f32.to_bits());
    node.set_uniform("u".to_string(), UniformValue::FloatVec3(x, y, z));
    assert_eq!(uniform_calls(&mut node), vec![Command::Uniform3f(4, x, y, z)]);
}

#[test]
fn vec4_uniform_upload() {
    let mut node = drawable(program(vec![var("u", gli::FLOAT_VEC4, 4)]));
    let (x, y, z, w) = (1.0f32.to_bits(), 0.5f32.to_bits(), 0.25f32.to_bits(), 1.0f32.to_bits());
    node.set_uniform("u".to_string(), UniformValue::FloatVec4(x, y, z, w));
    assert_eq!(uniform_calls(&mut node), vec![Command::Uniform4f(4, x, y, z, w)]);
}

#[test]
fn texture_uniform_binds_unit() {
    let mut node = drawable(program(vec![var("tex", 0x8B5E, 2)]));
    node.set_uniform("tex".to_string(), UniformValue::Texture2D(33));
    assert_eq!(
        uniform_calls(&mut node),
        vec![Command::ActiveTexture(0), Command::BindTexture2d(33), Command::Uniform1i(2, 0)]
    );
}

#[test]
fn generic_upload_skips_textures() {
    let mut out: Vec<Command> = Vec::new();
    set_value_for_uniform(2, &UniformValue::Texture2D(33), &mut out);
    assert!(out.is_empty());
    set_value_for_uniform(2, &UniformValue::Float(7), &mut out);
    assert_eq!(out, vec![Command::Uniform1f(2, 7)]);
}

#[test]
fn texture_units_are_sequential_and_stable() {
    let p = program(vec![
        var("first", 0x8B5E, 0),
        var("tint", gli::FLOAT_VEC4, 1),
        var("second", 0x8B5E, 2),
        var("third", 0x8B5E, 3),
    ]);
    let mut node = drawable(p);
    node.set_uniform("third".to_string(), UniformValue::Texture2D(103));
    node.set_uniform("first".to_string(), UniformValue::Texture2D(101));
    node.set_uniform("second".to_string(), UniformValue::Texture2D(102));
    node.set_uniform("tint".to_string(), UniformValue::FloatVec4(1, 2, 3, 4));
    let expected = vec![
        Command::ActiveTexture(0),
        Command::BindTexture2d(101),
        Command::Uniform1i(0, 0),
        Command::Uniform4f(1, 1, 2, 3, 4),
        Command::ActiveTexture(1),
        Command::BindTexture2d(102),
        Command::Uniform1i(2, 1),
        Command::ActiveTexture(2),
        Command::BindTexture2d(103),
        Command::Uniform1i(3, 2),
    ];
    assert_eq!(uniform_calls(&mut node), expected);
    assert_eq!(uniform_calls(&mut node), expected);
}

#[test]
fn uniforms_not_reported_or_not_set_are_skipped() {
    let mut node = drawable(program(vec![var("used", gli::FLOAT, 1), var("idle", gli::FLOAT, 2)]));
    node.set_uniform("absent".to_string(), UniformValue::Float(1));
    node.set_uniform("used".to_string(), UniformValue::Float(5));
    assert_eq!(uniform_calls(&mut node), vec![Command::Uniform1f(1, 5)]);
}

#[test]
fn set_uniform_replaces_value() {
    let mut node = drawable(program(vec![var("u", gli::FLOAT, 1)]));
    node.set_uniform("u".to_string(), UniformValue::Float(5));
    node.set_uniform("u".to_string(), UniformValue::FloatVec2(6, 7));
    assert_eq!(uniform_calls(&mut node), vec![Command::Uniform2f(1, 6, 7)]);
}

#[test]
fn unknown_attribute_is_ignored() {
    let mut node = Node::for_program(program(vec![]), 10, 20);
    node.add_attribute("a_unused".to_string());
    node.add_attribute("nope".to_string());
    node.add_attribute("a_position".to_string());
    let mut out: Vec<Command> = Vec::new();
    node.buffer_data(&[0u32; 6], &mut out);
    out.clear();
    node.draw(&mut out);
    assert_eq!(
        out,
        vec![
            Command::BindVertexArray(10),
            Command::BindArrayBuffer(20),
            Command::VertexAttribPointer { location: 0, size: 2, gl_type: gli::FLOAT, normalized: false, stride: 8, offset: 0 },
            Command::EnableVertexAttribArray(0),
            Command::DrawArraysTriangles(3),
            Command::BindVertexArray(0),
        ]
    );
}

#[test]
fn texture_new_sets_defaults_and_placeholder() {
    let mut out: Vec<Command> = Vec::new();
    let t = Texture::new(8, &mut out);
    assert_eq!(
        out,
        vec![
            Command::BindTexture2d(8),
            Command::TexParameter2d(gli::TEXTURE_WRAP_S, gli::CLAMP_TO_EDGE),
            Command::TexParameter2d(gli::TEXTURE_WRAP_T, gli::CLAMP_TO_EDGE),
            Command::TexParameter2d(gli::TEXTURE_MIN_FILTER, gli::LINEAR),
            Command::TexParameter2d(gli::TEXTURE_MAG_FILTER, gli::LINEAR),
            Command::TexImage2dFromBytes { internal_format: gli::RGBA, width: 1, height: 1, format: gli::RGBA, data: vec![0, 0, 0, 0] },
        ]
    );
    assert_eq!(t.width(), 1);
    assert_eq!(t.height(), 1);
    assert_eq!(t.as_uniform_value(), UniformValue::Texture2D(8));
}

#[test]
fn texture_sampling_and_upload() {
    let mut out: Vec<Command> = Vec::new();
    let t = Texture::new(8, &mut out);
    out.clear();
    t.set_wrap_mode(gli::REPEAT, gli::CLAMP_TO_EDGE, &mut out);
    t.set_filter_mode(gli::NEAREST, gli::LINEAR, &mut out);
    t.set_from_bytes(gli::R8UI, 2, 1, gli::RED_INTEGER, &[5, 6], &mut out);
    t.bind_to_slot(3, &mut out);
    assert_eq!(
        out,
        vec![
            Command::BindTexture2d(8),
            Command::TexParameter2d(gli::TEXTURE_WRAP_S, gli::REPEAT),
            Command::TexParameter2d(gli::TEXTURE_WRAP_T, gli::CLAMP_TO_EDGE),
            Command::BindTexture2d(8),
            Command::TexParameter2d(gli::TEXTURE_MIN_FILTER, gli::NEAREST),
            Command::TexParameter2d(gli::TEXTURE_MAG_FILTER, gli::LINEAR),
            Command::BindTexture2d(8),
            Command::TexImage2dFromBytes { internal_format: gli::R8UI, width: 2, height: 1, format: gli::RED_INTEGER, data: vec![5, 6] },
            Command::ActiveTexture(3),
            Command::BindTexture2d(8),
        ]
    );
}

#[test]
fn name_table_insert_and_replace() {
    let mut t: NameTable<u32> = NameTable::new();
    t.insert("a".to_string(), 1);
    t.insert("b".to_string(), 2);
    t.insert("a".to_string(), 3);
    assert_eq!(t.len(), 2);
    assert_eq!(t.get(&"a".to_string()), Some(&3));
    assert_eq!(t.get(&"b".to_string()), Some(&2));
    assert_eq!(t.get(&"c".to_string()), None);
    assert_eq!(t.find(&"b".to_string()), Some(1));
    assert_eq!(t.entry(0), &("a".to_string(), 3));
}

#[test]
fn room_check_ignores_unknown_names() {
    let node = Node::for_program(program(vec![]), 10, 20);
    assert!(node.has_room_for_attribute(&"nope".to_string()));
    assert!(node.has_room_for_attribute(&"a_position".to_string()));
    assert!(!node.is_drawable());
}

#[test]
fn inactive_texture_is_never_bound() {
    let mut node = drawable(program(vec![var("a", 0x8B5E, 0), var("b", 0x8B5E, 1)]));
    node.set_uniform("c".to_string(), UniformValue::Texture2D(11));
    node.set_uniform("b".to_string(), UniformValue::Texture2D(9));
    node.set_uniform("a".to_string(), UniformValue::Texture2D(5));
    let expected = vec![
        Command::ActiveTexture(0),
        Command::BindTexture2d(5),
        Command::Uniform1i(0, 0),
        Command::ActiveTexture(1),
        Command::BindTexture2d(9),
        Command::Uniform1i(1, 1),
    ];
    assert_eq!(uniform_calls(&mut node), expected);
    assert_eq!(uniform_calls(&mut node), expected);
}
