use std::time::Duration;

use renderer::buffer::GraphicsBuffer;
use renderer::controls::{
    camera_controls, frame_controls, FrameControls, KEY_A, KEY_D, KEY_E, KEY_ESCAPE, KEY_F1, KEY_LCTRL, KEY_LSHIFT,
    KEY_RIGHT, KEY_SPACE, KEY_TAB, KEY_UP, KEY_W,
};
use renderer::input::InputContainer;
use renderer::light::{LightDataBuffer, LightType, BUFFER_HEADER_SIZE, LIGHT_DATA_SIZE};
use renderer::renderer::{build_draw_lists, calculate_ssao_resolution, rendering_stats, work_group_count, DrawCandidate};
use renderer::scene_data::NodeID;
use renderer::scene_loading::{
    channels_of_format, plan_gltf_cubemap, plan_scene_load, CubemapFaceSource, CubemapPlanError, GltfNodeInfo,
    ImageFormat, ImageInfo, NodeLoadStep,
};
use renderer::timer::{timer_report, ScopedTimer};
use renderer::utility::{all_same_meta_data, cubemap_side_files, CubemapSides, TextureData};

fn node(index: usize, name: &str, children: &[usize], mesh: bool, light: bool) -> GltfNodeInfo {
    GltfNodeInfo {
        index,
        children: children.to_vec(),
        has_mesh_with_primitives: mesh,
        has_light: light,
        name: name.to_string(),
    }
}

fn describe(step: &NodeLoadStep) -> String {
    match step {
        NodeLoadStep::Light(i) => format!("light {}", i),
        NodeLoadStep::Cubemap(i) => format!("cubemap {}", i),
        NodeLoadStep::MeshNode(i, c) => format!("mesh {} {:?}", i, c),
    }
}

#[test]
fn scene_nodes_load_parents_first_and_once() {
    let nodes = vec![
        node(0, "lamp", &[], false, true),
        node(1, "root", &[2, 3], true, false),
        node(2, "child_a", &[], true, false),
        node(3, "child_b", &[], true, false),
        node(4, "cubemap_texture_set", &[5], true, false),
        node(5, "face", &[], true, false),
        node(6, "empty", &[], false, false),
        node(7, "single", &[], true, false),
    ];
    let steps: Vec<String> = plan_scene_load(&nodes).iter().map(describe).collect();
    assert_eq!(steps, vec!["mesh 1 [2, 3]", "cubemap 4", "light 0", "mesh 7 []"]);
    assert!(plan_scene_load(&[]).is_empty());
}

fn face(name: &str, image: Option<usize>) -> CubemapFaceSource {
    CubemapFaceSource { material_name: name.to_string(), image }
}

fn images(n: usize, format: ImageFormat) -> Vec<ImageInfo> {
    (0..n).map(|_| ImageInfo { format, width: 32, height: 32 }).collect()
}

fn all_faces() -> Vec<CubemapFaceSource> {
    vec![
        face("Right", Some(0)),
        face("left", Some(1)),
        face("TOP", Some(2)),
        face("-y", Some(3)),
        face("front", Some(4)),
        face("back", Some(5)),
        face("+x", Some(6)),
        face("sideways", Some(0)),
    ]
}

#[test]
fn gltf_cubemap_takes_the_last_face_of_each_side() {
    let plan = plan_gltf_cubemap(&all_faces(), &images(7, ImageFormat::R8G8B8)).expect("all six sides");
    assert_eq!((plan.width, plan.height, plan.channels), (32, 32, 3));
    assert_eq!(plan.images, [1, 6, 2, 3, 4, 5]);
}

#[test]
fn gltf_cubemap_errors() {
    let mut faces = all_faces();
    faces.remove(5);
    assert_eq!(plan_gltf_cubemap(&faces, &images(7, ImageFormat::R8G8B8)).unwrap_err(), CubemapPlanError::MissingFaces(5));
    let mut faces = all_faces();
    faces[5] = face("back", None);
    assert_eq!(plan_gltf_cubemap(&faces, &images(7, ImageFormat::R8G8B8)).unwrap_err(), CubemapPlanError::MissingFaces(5));
    let mut imgs = images(7, ImageFormat::R8G8B8);
    imgs[3].width = 16;
    assert_eq!(plan_gltf_cubemap(&all_faces(), &imgs).unwrap_err(), CubemapPlanError::DifferentMetaData);
    let mut imgs = images(7, ImageFormat::R8G8B8);
    imgs[0].format = ImageFormat::R8;
    assert!(plan_gltf_cubemap(&all_faces(), &imgs).is_ok());
    imgs[5].format = ImageFormat::R8;
    assert_eq!(plan_gltf_cubemap(&all_faces(), &imgs).unwrap_err(), CubemapPlanError::DifferentMetaData);
    assert_eq!(
        plan_gltf_cubemap(&all_faces(), &images(7, ImageFormat::R16)).unwrap_err(),
        CubemapPlanError::UnsupportedFormat(ImageFormat::R16)
    );
    assert_eq!(plan_gltf_cubemap(&[], &[]).unwrap_err(), CubemapPlanError::MissingFaces(0));
}

#[test]
fn image_format_channels() {
    assert_eq!(channels_of_format(ImageFormat::R8), Some(1));
    assert_eq!(channels_of_format(ImageFormat::R8G8B8A8), Some(4));
    assert_eq!(channels_of_format(ImageFormat::R32G32B32FLOAT), None);
}

#[test]
fn cubemap_side_names() {
    assert_eq!(CubemapSides::from_str("RIGHT"), Some(CubemapSides::Right));
    assert_eq!(CubemapSides::from_str("-x"), Some(CubemapSides::Left));
    assert_eq!(CubemapSides::from_str("+Z"), Some(CubemapSides::Front));
    assert_eq!(CubemapSides::from_str("Bottom"), Some(CubemapSides::Bottom));
    assert_eq!(CubemapSides::from_str("up"), None);
    assert_eq!(CubemapSides::from_u32(5), Some(CubemapSides::Back));
    assert_eq!(CubemapSides::from_u32(6), None);
    assert_eq!(CubemapSides::Top.to_u32(), 2);
}

#[test]
fn cubemap_files_by_side() {
    let stems: Vec<String> = ["right", "LEFT", "top", "bottom", "front", "back", "Right", "notes"]
        .iter()
        .map(|s| s.to_string())
        .collect();
    assert_eq!(cubemap_side_files(&stems), vec![Some(6), Some(1), Some(2), Some(3), Some(4), Some(5)]);
    let one = vec!["+y".to_string()];
    assert_eq!(cubemap_side_files(&one), vec![None, None, Some(0), None, None, None]);
}

#[test]
fn cubemap_face_meta_data() {
    let a = TextureData { width: 64, height: 64, channels: 3 };
    let b = TextureData { width: 64, height: 64, channels: 4 };
    assert!(a.texture_meta_data_cmp(&a));
    assert!(!a.texture_meta_data_cmp(&b));
    assert_eq!(TextureData::zero(), TextureData { width: 0, height: 0, channels: 0 });
    assert!(all_same_meta_data(&[a, a, a]));
    assert!(!all_same_meta_data(&[a, a, b]));
    assert!(all_same_meta_data(&[]));
}

fn candidate(index: usize, is_root: bool, visible: bool, opaque: bool, distance_key: u32) -> DrawCandidate {
    DrawCandidate { node_id: NodeID::new(index), is_root, visible, opaque, distance_key }
}

#[test]
fn draw_lists_are_sorted_by_distance() {
    let cs = [
        candidate(0, true, true, true, 30),
        candidate(1, false, true, false, 10),
        candidate(2, true, false, true, 5),
        candidate(3, true, true, true, 10),
        candidate(4, false, true, false, 40),
        candidate(5, true, true, true, 10),
    ];
    let lists = build_draw_lists(&cs);
    assert_eq!(lists.opaque, vec![3, 5, 0]);
    assert_eq!(lists.transparent, vec![4, 1]);
    assert_eq!(lists.shadow_casters, vec![0, 2, 3, 5]);
    let stats = rendering_stats(12, &lists, Duration::from_millis(3));
    assert_eq!(stats.total_objects, 12);
    assert_eq!(stats.visible_objects, 5);
    assert_eq!(stats.frame_data_preparation_time, Duration::from_millis(3));
    let empty = build_draw_lists(&[]);
    assert!(empty.opaque.is_empty() && empty.transparent.is_empty() && empty.shadow_casters.is_empty());
}

#[test]
fn ambient_occlusion_sizes() {
    assert_eq!(calculate_ssao_resolution((1920, 1080)), (960, 540));
    assert_eq!(calculate_ssao_resolution((1, 3)), (0, 1));
    assert_eq!(work_group_count(1920, 16), 120);
    assert_eq!(work_group_count(1921, 16), 121);
    assert_eq!(work_group_count(0, 8), 0);
}

#[test]
fn light_buffer_layout() {
    let records: Vec<u8> = (0..2 * LIGHT_DATA_SIZE).map(|i| (i % 251) as u8 + 1).collect();
    let mut b = LightDataBuffer::new(vec!['a', 'b'], &records, GraphicsBuffer::new(4));
    let data = b.data().to_vec();
    assert_eq!(data.len(), BUFFER_HEADER_SIZE + 2 * LIGHT_DATA_SIZE);
    assert_eq!(&data[0..4], &2u32.to_ne_bytes());
    assert!(data[4..16].iter().all(|x| *x == 0));
    assert_eq!(&data[16..], records.as_slice());
    assert_eq!(b.gpu_buffer().byte_size(), 176);
    assert_eq!(b.gpu_buffer().id(), 4);
    b.clear_cpu_side_buffer();
    assert!(b.data().is_empty());
    assert_eq!(b.lights(), &['a', 'b']);
    assert_eq!(LightType::Directional.to_u32(), 0);
    assert_eq!(LightType::Spot.to_u32(), 2);
}

#[test]
fn timer_reports() {
    assert_eq!(timer_report("load", 0), "[Timer] load took: < 0 ms");
    assert_eq!(timer_report("x", 1234), "[Timer] x took: 1234 ms");
    assert_eq!(timer_report("", 7), "[Timer]  took: 7 ms");
    let t = ScopedTimer::new("scene");
    assert_eq!(t.description(), "scene");
    let line = t.report();
    assert!(line.starts_with("[Timer] scene took: "));
    assert!(line.ends_with(" ms"));
}

#[test]
fn keys_go_down_and_up() {
    let mut c = InputContainer::new();
    c.add_pressed_key(5);
    assert!(c.as_input().get_key(5));
    assert!(c.as_input().get_key_down(5));
    c.new_frame();
    assert!(c.as_input().get_key(5));
    assert!(!c.as_input().get_key_down(5));
    c.add_pressed_key(5);
    assert!(!c.as_input().get_key_down(5));
    c.remove_pressed_key(5);
    assert!(!c.as_input().get_key(5));
    assert!(c.as_input().get_key_up(5));
    c.new_frame();
    assert!(!c.as_input().get_key_up(5));
    c.remove_pressed_key(6);
    assert!(!c.as_input().get_key_up(6));
}

#[test]
fn mouse_buttons() {
    let mut c = InputContainer::new();
    c.add_pressed_mouse_button(1);
    assert!(c.as_input().get_mouse_button(1));
    assert!(!c.as_input().get_mouse_button(3));
    c.new_frame();
    assert!(c.as_input().get_mouse_button(1));
    c.remove_pressed_mouse_button(1);
    assert!(!c.as_input().get_mouse_button(1));
}

#[test]
fn frame_controls_follow_the_keys() {
    let mut c = InputContainer::new();
    let idle = FrameControls { quit: false, toggle_fullscreen: false, release_cursor: None, toggle_ui: false };
    assert_eq!(frame_controls(&c.as_input()), idle);
    c.add_pressed_key(KEY_TAB);
    c.add_pressed_key(KEY_SPACE);
    c.add_pressed_key(KEY_F1);
    let f = frame_controls(&c.as_input());
    assert_eq!(f, FrameControls { quit: false, toggle_fullscreen: true, release_cursor: Some(true), toggle_ui: true });
    c.new_frame();
    assert_eq!(frame_controls(&c.as_input()), idle);
    c.remove_pressed_key(KEY_TAB);
    assert_eq!(frame_controls(&c.as_input()).release_cursor, Some(false));
    c.add_pressed_key(KEY_ESCAPE);
    assert!(frame_controls(&c.as_input()).quit);
    assert_eq!(KEY_F1, 0x4000003A);
}

#[test]
fn camera_controls_follow_the_keys() {
    let mut c = InputContainer::new();
    let idle = camera_controls(&c.as_input());
    assert_eq!((idle.speed, idle.move_x, idle.move_y, idle.move_z, idle.yaw, idle.pitch), (7, 0, 0, 0, 0, 0));
    c.add_pressed_key(KEY_W);
    c.add_pressed_key(KEY_A);
    c.add_pressed_key(KEY_E);
    c.add_pressed_key(KEY_RIGHT);
    c.add_pressed_key(KEY_UP);
    c.add_pressed_key(KEY_LCTRL);
    let m = camera_controls(&c.as_input());
    assert_eq!((m.speed, m.move_x, m.move_y, m.move_z, m.yaw, m.pitch), (4, -1, 1, 1, 1, -1));
    c.add_pressed_key(KEY_D);
    c.add_pressed_key(KEY_LSHIFT);
    let both = camera_controls(&c.as_input());
    assert_eq!((both.speed, both.move_x), (30, 0));
}
