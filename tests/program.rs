use gllite::gli::{self, Command};
use gllite::program::{ActiveVariable, Attribute, Program, Uniform};

fn var(name: &str, size: i32, gl_type: u32, location: i32) -> ActiveVariable {
    ActiveVariable { name: name.to_string(), size, gl_type, location }
}

#[test]
fn compile_keeps_exactly_active_uniforms() {
    let mut p = Program::new();
    p.add_shader("void main() {}", gli::VERTEX_SHADER);
    let uniforms = vec![
        var("color", 1, gli::FLOAT_VEC4, 3),
        var("unused", 1, gli::FLOAT, -1),
        var("scale", 1, gli::FLOAT, 0),
    ];
    p.compile(7, &uniforms, &vec![]);
    assert_eq!(
        p.get_uniform(&"color".to_string()),
        Some(&Uniform { location: 3, size: 1, gl_type: gli::FLOAT_VEC4 })
    );
    assert_eq!(
        p.get_uniform(&"scale".to_string()),
        Some(&Uniform { location: 0, size: 1, gl_type: gli::FLOAT })
    );
    assert_eq!(p.get_uniform(&"unused".to_string()), None);
    assert_eq!(p.get_uniform(&"missing".to_string()), None);
    assert_eq!(p.uniforms().len(), 2);
}

#[test]
fn compile_keeps_exactly_active_attributes() {
    let mut p = Program::new();
    let attributes = vec![
        var("a_position", 1, gli::FLOAT_VEC2, 0),
        var("a_dead", 1, gli::FLOAT_VEC3, -1),
        var("a_color", 1, gli::FLOAT_VEC4, 1),
    ];
    p.compile(1, &vec![], &attributes);
    assert_eq!(
        p.get_attribute(&"a_position".to_string()),
        Some(&Attribute { location: 0, size: 1, gl_type: gli::FLOAT_VEC2 })
    );
    assert_eq!(
        p.get_attribute(&"a_color".to_string()),
        Some(&Attribute { location: 1, size: 1, gl_type: gli::FLOAT_VEC4 })
    );
    assert_eq!(p.get_attribute(&"a_dead".to_string()), None);
}

#[test]
fn uniforms_keep_report_order() {
    let mut p = Program::new();
    let uniforms = vec![var("b", 1, gli::FLOAT, 5), var("a", 1, gli::FLOAT, 2)];
    p.compile(1, &uniforms, &vec![]);
    assert_eq!(p.uniforms().entry(0).0, "b");
    assert_eq!(p.uniforms().entry(1).0, "a");
}

#[test]
fn shaders_are_queued_in_order() {
    let mut p = Program::new();
    assert!(!p.is_compiled());
    p.add_shader("vertex", gli::VERTEX_SHADER);
    p.add_shader("fragment", gli::FRAGMENT_SHADER);
    assert_eq!(
        p.shaders(),
        &vec![(gli::VERTEX_SHADER, "vertex"), (gli::FRAGMENT_SHADER, "fragment")]
    );
}

#[test]
fn compiled_program_is_marked_compiled() {
    let mut p = Program::new();
    p.add_shader("vertex", gli::VERTEX_SHADER);
    p.compile(4, &vec![], &vec![]);
    assert!(p.is_compiled());
    assert_eq!(p.shaders().len(), 1);
}

#[test]
fn make_current_uses_program_once_compiled() {
    let mut p = Program::new();
    let mut out: Vec<Command> = Vec::new();
    p.make_current(&mut out);
    assert!(out.is_empty());
    p.compile(9, &vec![], &vec![]);
    p.make_current(&mut out);
    assert_eq!(out, vec![Command::UseProgram(9)]);
}

#[test]
fn gl_constants_match_driver_values() {
    assert_eq!(gli::BYTE, gl::BYTE);
    assert_eq!(gli::UNSIGNED_BYTE, gl::UNSIGNED_BYTE);
    assert_eq!(gli::SHORT, gl::SHORT);
    assert_eq!(gli::UNSIGNED_SHORT, gl::UNSIGNED_SHORT);
    assert_eq!(gli::FLOAT, gl::FLOAT);
    assert_eq!(gli::FLOAT_VEC2, gl::FLOAT_VEC2);
    assert_eq!(gli::FLOAT_VEC3, gl::FLOAT_VEC3);
    assert_eq!(gli::FLOAT_VEC4, gl::FLOAT_VEC4);
    assert_eq!(gli::FLOAT_MAT2, gl::FLOAT_MAT2);
    assert_eq!(gli::FLOAT_MAT3, gl::FLOAT_MAT3);
    assert_eq!(gli::FLOAT_MAT4, gl::FLOAT_MAT4);
    assert_eq!(gli::VERTEX_SHADER, gl::VERTEX_SHADER);
    assert_eq!(gli::FRAGMENT_SHADER, gl::FRAGMENT_SHADER);
    assert_eq!(gli::TEXTURE_MIN_FILTER, gl::TEXTURE_MIN_FILTER);
    assert_eq!(gli::TEXTURE_MAG_FILTER, gl::TEXTURE_MAG_FILTER);
    assert_eq!(gli::TEXTURE_WRAP_S, gl::TEXTURE_WRAP_S);
    assert_eq!(gli::TEXTURE_WRAP_T, gl::TEXTURE_WRAP_T);
    assert_eq!(gli::NEAREST, gl::NEAREST);
    assert_eq!(gli::LINEAR, gl::LINEAR);
    assert_eq!(gli::CLAMP_TO_EDGE, gl::CLAMP_TO_EDGE);
    assert_eq!(gli::REPEAT, gl::REPEAT);
    assert_eq!(gli::R8UI, gl::R8UI);
    assert_eq!(gli::RGB, gl::RGB);
    assert_eq!(gli::RGBA, gl::RGBA);
    assert_eq!(gli::RED_INTEGER, gl::RED_INTEGER);
}

#[test]
fn attribute_size_and_type_by_reflected_type() {
    assert_eq!(gli::get_attribute_size_and_type(gli::FLOAT, false), (1, gli::FLOAT));
    assert_eq!(gli::get_attribute_size_and_type(gli::FLOAT_VEC2, false), (2, gli::FLOAT));
    assert_eq!(gli::get_attribute_size_and_type(gli::FLOAT_VEC3, true), (3, gli::UNSIGNED_BYTE));
    assert_eq!(gli::get_attribute_size_and_type(gli::FLOAT_VEC4, false), (4, gli::FLOAT));
    assert_eq!(gli::get_attribute_size_and_type(gli::FLOAT_MAT2, false), (4, gli::FLOAT));
    assert_eq!(gli::get_attribute_size_and_type(gli::FLOAT_MAT3, false), (9, gli::FLOAT));
    assert_eq!(gli::get_attribute_size_and_type(gli::FLOAT_MAT4, true), (16, gli::UNSIGNED_BYTE));
    assert_eq!(gli::get_attribute_size_and_type(0x1234, false), (1, gli::FLOAT));
}

#[test]
fn size_of_storage_types() {
    assert_eq!(gli::size_of_type(gli::BYTE), 1);
    assert_eq!(gli::size_of_type(gli::UNSIGNED_BYTE), 1);
    assert_eq!(gli::size_of_type(gli::SHORT), 2);
    assert_eq!(gli::size_of_type(gli::UNSIGNED_SHORT), 2);
    assert_eq!(gli::size_of_type(gli::FLOAT), 4);
    assert_eq!(gli::size_of_type(0x9999), 1);
}

#[test]
fn pixel_formats_match_driver_values() {
    assert_eq!(gli::RED, gl::RED);
    assert_eq!(gli::RG, gl::RG);
    assert_eq!(gli::RG_INTEGER, gl::RG_INTEGER);
    assert_eq!(gli::RGB_INTEGER, gl::RGB_INTEGER);
    assert_eq!(gli::RGBA_INTEGER, gl::RGBA_INTEGER);
    assert_eq!(gli::BGR, gl::BGR);
    assert_eq!(gli::BGRA, gl::BGRA);
}

#[test]
fn bytes_per_pixel_by_format() {
    assert_eq!(gli::bytes_per_pixel(gli::RED_INTEGER), 1);
    assert_eq!(gli::bytes_per_pixel(gli::RG), 2);
    assert_eq!(gli::bytes_per_pixel(gli::RGB), 3);
    assert_eq!(gli::bytes_per_pixel(gli::RGBA), 4);
    assert_eq!(gli::bytes_per_pixel(gli::BGRA), 4);
    assert_eq!(gli::bytes_per_pixel(0x1234), 0);
}

#[test]
fn repeated_name_keeps_first_place() {
    let mut p = Program::new();
    let uniforms = vec![var("a", 1, gli::FLOAT, 1), var("b", 1, gli::FLOAT, 2), var("a", 1, gli::FLOAT_VEC2, 3)];
    p.compile(1, &uniforms, &vec![]);
    assert_eq!(p.uniforms().len(), 2);
    assert_eq!(p.uniforms().entry(0), &("a".to_string(), Uniform { location: 3, size: 1, gl_type: gli::FLOAT_VEC2 }));
    assert_eq!(p.uniforms().entry(1).0, "b");
}
