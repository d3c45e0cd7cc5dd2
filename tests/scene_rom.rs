use miniquad_raytrace::backend::{display_fragment_shader, display_vertex_shader, scaled_target_size};
use miniquad_raytrace::interpreter::{decode_scene, decode_tex, DecodedRecord, MAX_SCAN_STEPS};
use miniquad_raytrace::renderer::{refresh_rom, ROM_CAPACITY};
use miniquad_raytrace::scene::{InstanceRecord, Scene, SceneSerializer, Serializeable, SimpleScene};

fn bits(v: &[f32]) -> Vec<u32> {
    v.iter().map(|x| x.to_bits()).collect()
}

fn sphere(pos: [f32; 3], r: f32) -> InstanceRecord {
    let data = bits(&[pos[0], pos[1], pos[2], r]);
    InstanceRecord::new(1, data.clone(), 1, data, 1, bits(&[0.0, 1.0, 1.0]))
}

fn plane(n: [f32; 3], h: f32) -> InstanceRecord {
    let data = bits(&[n[0], n[1], n[2], h]);
    InstanceRecord::new(2, data.clone(), 2, data, 2, vec![])
}

fn scene_a() -> SimpleScene {
    let mut s = SimpleScene::new();
    s.add_instance(sphere([-2.0, 0.0, 7.0], 1.0));
    s.add_instance(sphere([2.0, 0.0, 7.0], 1.0));
    s.add_instance(plane([0.0, 1.0, 0.0], -20.0));
    s
}

// bounding: sphere, plane; sdf: sphere, plane; tex: sphere (3 floats), plane (none)
fn arities() -> (Vec<usize>, Vec<usize>, Vec<usize>) {
    (vec![4, 4], vec![4, 4], vec![3, 0])
}

fn rom_of(scene: &SimpleScene, capacity: usize) -> Vec<u32> {
    let mut w = SceneSerializer::new(vec![0; capacity]);
    scene.serialize(&mut w);
    w.into_words()
}

fn f(w: u32) -> f32 {
    f32::from_bits(w)
}

#[test]
fn new_scene_is_clean() {
    let s = SimpleScene::new();
    assert!(!s.dirty());
    assert_eq!(rom_of(&s, 4), vec![0, 0, 0, 0]);
}

#[test]
fn mark_dirty_and_clean() {
    let mut s = scene_a();
    assert!(!s.dirty());
    s.mark_dirty();
    assert!(s.dirty());
    s.mark_clean();
    assert!(!s.dirty());
}

#[test]
fn render_twice_uploads_once() {
    let mut s = scene_a();
    s.mark_dirty();
    let mut rom = vec![0u32; ROM_CAPACITY];
    assert!(refresh_rom(&mut s, &mut rom));
    let first = rom.clone();
    assert_eq!(first, rom_of(&s, ROM_CAPACITY));
    rom[1000] = 77;
    assert!(!refresh_rom(&mut s, &mut rom));
    assert_eq!(rom[1000], 77);
    s.mark_dirty();
    assert!(refresh_rom(&mut s, &mut rom));
    assert_eq!(rom, first);
}

#[test]
fn unmarked_mutation_is_not_serialized() {
    let mut s = scene_a();
    s.mark_dirty();
    let mut rom = vec![0u32; 64];
    assert!(refresh_rom(&mut s, &mut rom));
    let before = rom.clone();
    s.add_instance(sphere([0.0, 5.0, 9.0], 2.0));
    assert!(!refresh_rom(&mut s, &mut rom));
    assert_eq!(rom, before);
}

#[test]
fn stale_words_are_cleared_on_rewrite() {
    let mut s = SimpleScene::new();
    s.add_instance(sphere([0.0, 0.0, 3.0], 1.0));
    s.mark_dirty();
    let mut rom = vec![5u32; 40];
    assert!(refresh_rom(&mut s, &mut rom));
    assert!(rom[15..].iter().all(|w| *w == 0));
}

#[test]
fn round_trip_scene_a() {
    let s = scene_a();
    let rom = rom_of(&s, ROM_CAPACITY);
    let (b, d, t) = arities();
    let recs = decode_scene(&rom, &b, &d, &t);
    assert_eq!(recs.len(), 3);
    assert_eq!(recs[0].bound_id, 1);
    assert_eq!(recs[0].bound_data, bits(&[-2.0, 0.0, 7.0, 1.0]));
    assert_eq!(recs[0].sdf_id, 1);
    assert_eq!(recs[0].sdf_data, bits(&[-2.0, 0.0, 7.0, 1.0]));
    assert_eq!(recs[0].tex_id, 1);
    assert_eq!(recs[0].tex_data, bits(&[0.0, 1.0, 1.0]));
    assert_eq!(recs[1].sdf_data, bits(&[2.0, 0.0, 7.0, 1.0]));
    assert_eq!(recs[2].bound_id, 2);
    assert_eq!(recs[2].sdf_id, 2);
    assert_eq!(recs[2].sdf_data, bits(&[0.0, 1.0, 0.0, -20.0]));
    assert_eq!(recs[2].tex_id, 2);
    assert!(recs[2].tex_data.is_empty());
    assert_eq!(f(recs[2].sdf_data[3]), -20.0);
    assert_eq!(f(recs[1].sdf_data[0]).to_bits(), 2.0f32.to_bits());
}

#[test]
fn round_trip_int_and_negative_zero() {
    let mut s = SimpleScene::new();
    s.add_instance(InstanceRecord::new(0, vec![], 1, vec![u32::MAX, (-0.0f32).to_bits(), f32::NAN.to_bits(), 0], 0, vec![]));
    let rom = rom_of(&s, 16);
    let recs = decode_scene(&rom, &vec![], &vec![4], &vec![]);
    assert_eq!(recs.len(), 1);
    assert_eq!(recs[0].bound_id, 0);
    assert_eq!(recs[0].sdf_data, vec![u32::MAX, (-0.0f32).to_bits(), f32::NAN.to_bits(), 0]);
    assert_eq!(recs[0].tex_id, 0);
}

#[test]
fn zero_tail_ends_scan() {
    let mut s = SimpleScene::new();
    s.add_instance(sphere([0.0, 0.0, 3.0], 1.0));
    let rom = rom_of(&s, 64);
    let (b, d, t) = arities();
    assert_eq!(decode_scene(&rom, &b, &d, &t).len(), 1);
    assert_eq!(decode_scene(&vec![0u32; 16], &b, &d, &t).len(), 0);
}

#[test]
fn unknown_sdf_id_ends_scan() {
    let rom = vec![0, 9, 1, 2, 3, 4, 1, 0];
    assert_eq!(decode_scene(&rom, &vec![], &vec![4], &vec![]).len(), 0);
}

#[test]
fn cursor_skips_color_block_by_length() {
    // record 0: bound sphere, sdf sphere, color sphere; record 1: no bound, sdf plane, no color
    let mut s = SimpleScene::new();
    s.add_instance(sphere([0.0, 0.0, 3.0], 1.0));
    s.add_instance(InstanceRecord::new(0, vec![], 2, bits(&[0.0, 1.0, 0.0, -1.0]), 0, vec![]));
    let rom = rom_of(&s, 64);
    let (b, d, t) = arities();
    let recs: Vec<DecodedRecord> = decode_scene(&rom, &b, &d, &t);
    assert_eq!(recs.len(), 2);
    // 5 bound words, 1 + 4 sdf words, then tex_len at 10
    assert_eq!(rom[10], 4);
    assert_eq!(recs[0].tex_pointer, 11);
    // the next record starts at 10 + 1 + 4 = 15: one bound word, 5 sdf words, tex_len at 21
    assert_eq!(recs[1].tex_pointer, 22);
    assert_eq!(decode_tex(&rom, &t, recs[0].tex_pointer), (1, bits(&[0.0, 1.0, 1.0])));
    assert_eq!(decode_tex(&rom, &t, recs[1].tex_pointer), (0, vec![]));
}

#[test]
fn unknown_bound_id_skips_no_data() {
    let rom = vec![7, 1, 10, 20, 30, 40, 1, 0];
    let recs = decode_scene(&rom, &vec![4], &vec![4], &vec![]);
    assert_eq!(recs.len(), 1);
    assert_eq!(recs[0].bound_id, 7);
    assert!(recs[0].bound_data.is_empty());
    assert_eq!(recs[0].sdf_data, vec![10, 20, 30, 40]);
}

#[test]
fn overflowing_scene_stays_in_bounds() {
    let mut s = SimpleScene::new();
    for i in 0..10 {
        s.add_instance(sphere([i as f32, 0.0, 5.0], 1.0));
    }
    // each sphere record takes 15 words; 40 words hold two whole ones
    let rom = rom_of(&s, 40);
    assert_eq!(rom.len(), 40);
    let (b, d, t) = arities();
    assert_eq!(decode_scene(&rom, &b, &d, &t).len(), 2);
}

#[test]
fn scan_visits_at_most_max_steps() {
    let mut s = SimpleScene::new();
    for _ in 0..(MAX_SCAN_STEPS + 3) {
        s.add_instance(InstanceRecord::new(0, vec![], 1, vec![], 0, vec![]));
    }
    let rom = rom_of(&s, 4 * (MAX_SCAN_STEPS + 3));
    let recs = decode_scene(&rom, &vec![], &vec![0], &vec![]);
    assert_eq!(recs.len(), MAX_SCAN_STEPS);
}

fn sdf_sphere(p: [f32; 3], d: &[u32]) -> f32 {
    let dx = p[0] - f(d[0]);
    let dy = p[1] - f(d[1]);
    let dz = p[2] - f(d[2]);
    (dx * dx + dy * dy + dz * dz).sqrt() - f(d[3])
}

fn sdf_plane(p: [f32; 3], d: &[u32]) -> f32 {
    p[0] * f(d[0]) + p[1] * f(d[1]) + p[2] * f(d[2]) - f(d[3])
}

#[test]
fn scenario_a_nearest_is_first_sphere() {
    let s = scene_a();
    let rom = rom_of(&s, ROM_CAPACITY);
    let (b, d, t) = arities();
    let recs = decode_scene(&rom, &b, &d, &t);
    let origin = [0.0f32, 0.0, 0.0];
    let mut best = (1001.0f32, 0usize);
    for r in recs.iter() {
        let dist = if r.sdf_id == 1 { sdf_sphere(origin, &r.sdf_data) } else { sdf_plane(origin, &r.sdf_data) };
        if dist < best.0 {
            best = (dist, r.tex_pointer);
        }
    }
    assert!((best.0 - 6.28).abs() < 0.01);
    assert_eq!(best.1, recs[0].tex_pointer);
    assert_eq!(rom[best.1], 1);
    let plane_dist = sdf_plane(origin, &recs[2].sdf_data);
    assert_eq!(plane_dist, 20.0);
}

#[test]
fn scaled_target_after_resize() {
    assert_eq!(scaled_target_size(800, 600), (400, 300));
    assert_eq!(scaled_target_size(400, 300), (200, 150));
    assert_eq!(scaled_target_size(401, 1), (200, 0));
}

#[test]
fn display_fragment_declares_scale() {
    let frag = display_fragment_shader();
    assert!(frag.starts_with("#version 330\nconst float SCALE = 2.0;\nconst float HALF_SCALE = 2.0 / 2.0;\n"));
    assert!(frag.contains("uniform sampler2D tex;"));
    assert!(frag.trim_end().ends_with("f_color.a = 1.0;\n}"));
}

#[test]
fn display_fragment_sets_color_on_every_branch() {
    let frag = display_fragment_shader();
    // one for an empty texel, then per quadrant: blend, centre near the corner, centre off an edge
    assert_eq!(frag.matches("f_color = ").count(), 13);
    assert_eq!(frag.matches("f_color = cmm;").count(), 8);
    for blend in ["(cbm + cml) / 2.0", "(ctm + cml) / 2.0", "(cbm + cmr) / 2.0", "(ctm + cmr) / 2.0"] {
        assert!(frag.contains(&format!("f_color = {};", blend)));
    }
    assert!(frag.contains("f_color = vec4(0.0, 0.0, 0.0, 0.0);"));
    // every if has an else
    assert_eq!(frag.matches("if (").count(), frag.matches("} else {").count());
}

#[test]
fn display_fragment_quadrant_thresholds() {
    let frag = display_fragment_shader();
    assert!(frag.contains("if ((dist.x + dist.y) / SCALE < 1.414) {"));
    assert_eq!(frag.matches("if (dist.x + dist.y < SCALE) {").count(), 2);
    assert!(frag.contains("dist.y = SCALE - dist.y;"));
    assert!(frag.contains("if (abs(dist.y + dist.x) > HALF_SCALE) {"));
    assert_eq!(frag.matches("dist.x = HALF_SCALE - dist.x;").count(), 2);
}

#[test]
fn display_vertex_after_resize() {
    let vert = display_vertex_shader(400, 300);
    assert!(vert.starts_with(
        "#version 330\nconst float HALF_WIDTH = 400.0 / 2.0;\nconst float HALF_HEIGHT = 300.0 / 2.0;\nconst float SCALE = 2.0;\n"
    ));
    assert!(vert.contains("f_texel = vec2(floor((pos.x * HALF_WIDTH + HALF_WIDTH) / SCALE), floor((pos.y * HALF_HEIGHT + HALF_HEIGHT) / SCALE));"));
    assert!(vert.contains("gl_Position = vec4(pos, 0.1, 1.0);"));
    let initial = display_vertex_shader(800, 600);
    assert!(initial.contains("const float HALF_WIDTH = 800.0 / 2.0;"));
    assert!(initial.contains("const float HALF_HEIGHT = 600.0 / 2.0;"));
}

#[test]
fn display_vertex_covers_the_quad() {
    // the quad's corners map to texels 0 and width / SCALE: the whole low-resolution target
    let (w, h) = scaled_target_size(400, 300);
    let half_w = 400.0f32 / 2.0;
    let half_h = 300.0f32 / 2.0;
    assert_eq!(((-1.0 * half_w + half_w) / 2.0).floor(), 0.0);
    assert_eq!(((1.0 * half_w + half_w) / 2.0).floor(), w as f32);
    assert_eq!(((1.0 * half_h + half_h) / 2.0).floor(), h as f32);
}

#[test]
fn mark_clean_keeps_instances() {
    let mut s = scene_a();
    s.mark_dirty();
    let before = rom_of(&s, 64);
    s.mark_clean();
    assert_eq!(rom_of(&s, 64), before);
    let (b, d, t) = arities();
    assert_eq!(decode_scene(&rom_of(&s, 64), &b, &d, &t).len(), 3);
}
