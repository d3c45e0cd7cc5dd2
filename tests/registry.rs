use miniquad_raytrace::methods::{decimal_string, DataDeserializer, DataEntry, ParamKind};
use miniquad_raytrace::renderer::{RegistryError, Renderer};

fn entry(name: &str, type_: ParamKind) -> DataEntry {
    DataEntry { name: name.to_string(), type_ }
}

fn sphere_sig() -> DataDeserializer {
    DataDeserializer { entries: vec![entry("center", ParamKind::Float3), entry("radius", ParamKind::Float1)] }
}

#[test]
fn decimal_strings() {
    assert_eq!(decimal_string(0), "0");
    assert_eq!(decimal_string(7), "7");
    assert_eq!(decimal_string(10), "10");
    assert_eq!(decimal_string(1024), "1024");
    assert_eq!(decimal_string(u32::MAX), "4294967295");
}

#[test]
fn entry_decode_float1() {
    assert_eq!(
        entry("radius", ParamKind::Float1).to_string(),
        "float radius = intBitsToFloat(scene_rom[pnt]); pnt += 1;"
    );
}

#[test]
fn entry_decode_int2() {
    assert_eq!(
        entry("cell", ParamKind::Int2).to_string(),
        "ivec2 cell = ivec2(scene_rom[pnt], scene_rom[pnt + 1]); pnt += 2;"
    );
}

#[test]
fn entry_decode_float3() {
    assert_eq!(
        entry("center", ParamKind::Float3).to_string(),
        "vec3 center = vec3(intBitsToFloat(scene_rom[pnt]), intBitsToFloat(scene_rom[pnt + 1]), intBitsToFloat(scene_rom[pnt + 2])); pnt += 3;"
    );
}

#[test]
fn kind_arities() {
    assert_eq!(ParamKind::Float1.arity(), Some(1));
    assert_eq!(ParamKind::Int3.arity(), Some(3));
    assert_eq!(ParamKind::Float4.arity(), Some(4));
    assert_eq!(ParamKind::Mat4.arity(), None);
}

#[test]
fn signature_arity() {
    assert_eq!(sphere_sig().arity(), Some(4));
    assert_eq!(DataDeserializer { entries: vec![] }.arity(), Some(0));
    let bad = DataDeserializer { entries: vec![entry("m", ParamKind::Mat4)] };
    assert_eq!(bad.arity(), None);
}

#[test]
fn bounding_case_text() {
    let c = sphere_sig().create_bounding_case(1, "bound_sphere");
    let expected = format!(
        "case 1: {{\n{}\n{}\nhitable = bound_sphere(origin, ray, center, radius);\n}} break;\n",
        entry("center", ParamKind::Float3).to_string(),
        entry("radius", ParamKind::Float1).to_string()
    );
    assert_eq!(c, expected);
}

#[test]
fn sdf_case_text() {
    let c = sphere_sig().create_sdf_case(2, "sdf_sphere");
    let expected = format!(
        "case 2: {{\n{}\n{}\nint tex_pnt = pnt + 1;\npnt += 1 + scene_rom[pnt];\nif (hitable) {{\nfloat new_dist = sdf_sphere(position, center, radius);\nif (new_dist < curHit.dist) {{\ncurHit = HitInfo(new_dist, tex_pnt);\n}}\n}}\n}} break;\n",
        entry("center", ParamKind::Float3).to_string(),
        entry("radius", ParamKind::Float1).to_string()
    );
    assert_eq!(c, expected);
}

#[test]
fn tex_case_without_parameters() {
    let c = DataDeserializer { entries: vec![] }.create_tex_case(12, "color_plane");
    assert_eq!(c, "case 12: {\nreturn color_plane(position);\n}\n");
}

#[test]
fn ids_follow_registration_order() {
    let mut r = Renderer::new();
    for n in 1..=5u32 {
        assert_eq!(r.register_sdf_method(format!("sdf_{}", n), sphere_sig()), Ok(n));
    }
    assert_eq!(r.register_bound_method("bound_sphere".to_string(), sphere_sig()), Ok(1));
    assert_eq!(r.register_tex_method("color_a".to_string(), DataDeserializer { entries: vec![] }), Ok(1));
    assert_eq!(r.register_tex_method("color_b".to_string(), sphere_sig()), Ok(2));
    assert_eq!(r.sdf_arities(), vec![4, 4, 4, 4, 4]);
    assert_eq!(r.bound_arities(), vec![4]);
    assert_eq!(r.tex_arities(), vec![0, 4]);
}

#[test]
fn mat4_is_refused_at_registration() {
    let mut r = Renderer::new();
    let bad = DataDeserializer { entries: vec![entry("a", ParamKind::Float1), entry("m", ParamKind::Mat4)] };
    assert_eq!(r.register_sdf_method("sdf_bad".to_string(), bad), Err(RegistryError::UnsupportedKind));
    assert_eq!(r.register_sdf_method("sdf_ok".to_string(), sphere_sig()), Ok(1));
    assert_eq!(r.sdf_arities(), vec![4]);
}

#[test]
fn shader_holds_definitions_and_cases() {
    let mut r = Renderer::new();
    r.add_methods("float sdf_sphere(vec3 p, vec3 c, float r) { return length(p - c) - r; }".to_string());
    r.register_bound_method("bound_sphere".to_string(), sphere_sig()).unwrap();
    r.register_sdf_method("sdf_sphere".to_string(), sphere_sig()).unwrap();
    r.register_tex_method("color_plane".to_string(), DataDeserializer { entries: vec![] }).unwrap();
    let shader = r.get_scene_shader();
    assert!(shader.starts_with("#version 330"));
    assert!(shader.contains("uniform int scene_rom[1024];"));
    assert!(shader.contains("float sdf_sphere(vec3 p, vec3 c, float r) { return length(p - c) - r; }\n"));
    assert!(shader.contains(&sphere_sig().create_bounding_case(1, "bound_sphere")));
    assert!(shader.contains(&sphere_sig().create_sdf_case(1, "sdf_sphere")));
    assert!(shader.contains("case 1: {\nreturn color_plane(position);\n}\n"));
    assert!(shader.contains("step < 256"));
    assert!(shader.contains("case 0: return vec4(1.0, 0.0, 1.0, 1.0);"));
    let bound_at = shader.find("hitable = bound_sphere").unwrap();
    let sdf_at = shader.find("new_dist = sdf_sphere").unwrap();
    let tex_at = shader.find("return color_plane").unwrap();
    assert!(bound_at < sdf_at && sdf_at < tex_at);
}

#[test]
fn empty_registry_shader() {
    let r = Renderer::new();
    let shader = r.get_scene_shader();
    assert!(shader.contains("case 0: running = false; break;"));
    assert!(shader.ends_with("}\n"));
}
