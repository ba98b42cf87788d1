use renderer::material_properties::{CullMode, DepthTestMode, MaterialProperties, SurfaceType};
use renderer::resource_id::{ResourceHandle, ResourceID};
use renderer::scene::{
    choose_material_textures, flip_triangle_winding, AlphaMode, CustomShaders, ImportedMaterials, MaterialTextureSlot, Scene,
    ShaderMaterialMapping,
};
use renderer::scene_data::{MaterialID, MeshID, NamedShader, NamedTexture, Node, NodeID, TextureID};
use renderer::shader::{classify_uniform, Shader, UniformData, UniformDataStorage, UniformPreload};
use renderer::shader_source::{ShaderSource, ShaderSourceParser};
use renderer::storage::{NodeIDStorage, TextureIDStorage};
use renderer::texture::{StorageFormat, Texture, Texture2D};

fn texture(id: u32, name: &str) -> NamedTexture {
    NamedTexture::new(Texture2D::create_empty_texture(id, StorageFormat::RGBA), name)
}

fn shader(id: u32, uniforms: &[(&str, i32)]) -> Shader {
    let data: Vec<UniformData> = uniforms.iter().map(|(n, l)| UniformData::new(n, *l)).collect();
    Shader::new(id, UniformDataStorage::from_vec(data))
}

fn test_scene() -> Scene<u32> {
    let props = MaterialProperties::default_properties();
    Scene::new(
        Texture2D::create_empty_texture(1, StorageFormat::RGBA),
        Texture2D::create_empty_texture(2, StorageFormat::RGB),
        Texture2D::create_empty_texture(3, StorageFormat::RGB),
        shader(10, &[("albedo_map", 1), ("normal_map", 2)]),
        shader(11, &[("albedo_map", 0)]),
        props,
    )
}

fn source_named(name: &str, lines: &[&str]) -> ShaderSource {
    let mut p = ShaderSourceParser::new(name);
    for l in lines {
        p.feed_line(l);
    }
    p.finish()
}

fn texture_indices(scene: &Scene<u32>, id: MaterialID) -> Vec<usize> {
    scene.get_material(id).texture_iter().iter().map(|t| t.index).collect()
}

#[test]
fn new_scene_has_defaults() {
    let scene = test_scene();
    assert_eq!(scene.get_shader_name(ResourceID::new(0)), "Default opaque scene shader");
    assert_eq!(scene.get_shader_name(ResourceID::new(1)), "Default transparent scene shader");
    assert_eq!(scene.get_texture_name(ResourceID::new(0)), "albedo_map");
    assert_eq!(scene.get_texture_name(ResourceID::new(1)), "normal_map");
    assert_eq!(scene.get_texture_name(ResourceID::new(2)), "mettalic_roughness_map");
    assert_eq!(scene.get_texture(ResourceID::new(2)).id(), 3);
    assert_eq!(scene.get_shader(ResourceID::new(1)).id(), 11);
    assert!(scene.root_nodes().is_empty());
    assert_eq!(scene.find_material_index("anything"), None);
}

#[test]
fn opaque_material_uses_the_opaque_shader() {
    let mut scene = test_scene();
    let id = scene.create_material("wood", AlphaMode::Opaque, false);
    assert_eq!(id.index, 0);
    let m = scene.get_material(id);
    assert_eq!(m.shader_id.index, 0);
    assert_eq!(m.name(), "Default opaque scene shader");
    assert_eq!(m.material_properties.surface_type, SurfaceType::Opaque);
    assert_eq!(m.material_properties.cull_mode, CullMode::Back);
    assert!(m.material_properties.depth_writing_enabled);
    assert_eq!(texture_indices(&scene, id), vec![0, 1]);
    assert_eq!(scene.find_material_index("Default opaque scene shader"), Some(0));
}

#[test]
fn blended_double_sided_material_uses_the_transparent_shader() {
    let mut scene = test_scene();
    let id = scene.create_material("glass", AlphaMode::Blend, true);
    let m = scene.get_material(id);
    assert_eq!(m.shader_id.index, 1);
    assert_eq!(m.material_properties.surface_type, SurfaceType::Transparent);
    assert_eq!(m.material_properties.cull_mode, CullMode::Disabled);
    assert!(!m.material_properties.depth_writing_enabled);
    assert_eq!(m.material_properties.depth_test_mode, DepthTestMode::LessEqual);
    assert_eq!(texture_indices(&scene, id), vec![0]);
    let masked = scene.create_material("leaf", AlphaMode::Mask, false);
    assert_eq!(masked.index, 1);
    assert_eq!(scene.get_material(masked).shader_id.index, 1);
}

#[test]
fn mapped_material_uses_its_custom_shader_and_render_state() {
    let mut scene = test_scene();
    let custom = source_named("metal_shader", &["Cull Front", "ZWrite Off", "#shader vertex", "v;"]);
    let mapping = [ShaderMaterialMapping::new("metal_shader", &["metal", "chrome"])];
    scene.load_custom_shaders(vec![(shader(12, &[("mettalic_roughness_map", 5)]), custom)], &mapping);
    let id = scene.create_material("chrome", AlphaMode::Opaque, true);
    let m = scene.get_material(id);
    assert_eq!(m.shader_id.index, 2);
    assert_eq!(m.name(), "metal_shader");
    assert_eq!(m.material_properties.cull_mode, CullMode::Front);
    assert!(!m.material_properties.depth_writing_enabled);
    assert_eq!(texture_indices(&scene, id), vec![2]);
    let other = scene.create_material("rock", AlphaMode::Opaque, false);
    assert_eq!(scene.get_material(other).shader_id.index, 0);
    scene.clear_material_rules();
    let after = scene.create_material("chrome", AlphaMode::Opaque, false);
    assert_eq!(scene.get_material(after).shader_id.index, 0);
}

#[test]
fn mapping_to_a_missing_shader_falls_back() {
    let mut scene = test_scene();
    let mapping = [ShaderMaterialMapping::new("not_loaded", &["stone"])];
    scene.load_custom_shaders(Vec::new(), &mapping);
    let id = scene.create_material("stone", AlphaMode::Blend, false);
    assert_eq!(scene.get_material(id).shader_id.index, 1);
}

#[test]
fn material_textures_are_added() {
    let mut scene = test_scene();
    let id = scene.create_material("wood", AlphaMode::Opaque, false);
    let t = scene.add_material_texture(id, texture(40, "albedo_map"));
    assert_eq!(t.index, 3);
    assert_eq!(texture_indices(&scene, id), vec![0, 1, 3]);
    assert_eq!(scene.get_texture(t).storage_format(), StorageFormat::RGBA);
}

#[test]
fn nodes_and_roots() {
    let mut scene = test_scene();
    let material = scene.create_material("wood", AlphaMode::Opaque, false);
    let child = scene.add_node(Node::new(5u32, NodeIDStorage::from_ids(&[]), MeshID::new(0), material));
    let parent = scene.add_node(Node::new(6u32, NodeIDStorage::from_ids(&[child]), MeshID::new(0), material));
    scene.add_root_node(parent);
    assert_eq!(scene.node_count(), 2);
    assert!(scene.root_nodes() == &[parent]);
    assert_eq!(scene.root_node_iter().len(), 1);
    assert!(scene.get_node(parent).children_iter() == &[child]);
    scene.set_node_transform(child, 9);
    assert_eq!(scene.get_node(child).transform, 9);
    assert_eq!(scene.get_node(parent).transform, 6);
}

#[test]
fn shader_uniform_lookup() {
    let s = shader(3, &[("a", 1), ("b", 2), ("a", 7)]);
    assert_eq!(s.find_uniform_location("a"), Some(1));
    assert_eq!(s.find_uniform_location("b"), Some(2));
    assert_eq!(s.find_uniform_location("c"), None);
    assert_eq!(s.id(), 3);
    let scene = test_scene();
    assert!(scene.shader_has_uniform(ResourceID::new(0), "normal_map"));
    assert!(!scene.shader_has_uniform(ResourceID::new(1), "normal_map"));
}

#[test]
fn named_resources_and_storages() {
    let mut m = renderer::scene_data::Material::new(
        ResourceID::new(0),
        &MaterialProperties::default_properties(),
        "mat",
        TextureIDStorage::new(),
    );
    assert!(m.texture_iter().is_empty());
    m.push_texture(TextureID::new(4));
    m.push_texture(TextureID::new(2));
    assert!(m.texture_iter() == &[TextureID::new(4), TextureID::new(2)]);
    assert_eq!(m.name(), "mat");
    let s = NamedShader::new(shader(1, &[]), "named");
    assert_eq!(s.name(), "named");
    let ids = NodeIDStorage::from_ids(&[NodeID::new(3), NodeID::new(1)]);
    let n = Node::new((), ids, MeshID::new(2), MaterialID::new(1));
    assert!(n.children_iter() == &[NodeID::new(3), NodeID::new(1)]);
}

#[test]
fn resource_ids_compare_by_index() {
    assert_eq!(ResourceID::<u8>::new(3), ResourceID::<u8>::new(3));
    assert_ne!(ResourceID::<u8>::new(3), ResourceID::<u8>::new(4));
    let h: ResourceHandle<u8> = ResourceHandle::new(5);
    assert_eq!(h.index, 5);
    assert_eq!(h, ResourceHandle::new(5));
    assert_ne!(h, ResourceHandle::new(6));
}

#[test]
fn imported_materials_are_made_once_per_index() {
    let mut cache = ImportedMaterials::new();
    assert!(cache.lookup(Some(2)).is_none());
    cache.remember(Some(2), MaterialID::new(7));
    assert!(cache.lookup(Some(2)) == Some(MaterialID::new(7)));
    assert!(cache.lookup(Some(3)).is_none());
    cache.remember(None, MaterialID::new(8));
    assert!(cache.lookup(None).is_none());
    cache.remember(Some(2), MaterialID::new(9));
    assert!(cache.lookup(Some(2)) == Some(MaterialID::new(9)));
}

#[test]
fn triangle_winding_is_flipped() {
    let mut indices = [0u32, 1, 2, 3, 4, 5];
    flip_triangle_winding(&mut indices);
    assert_eq!(indices, [2, 1, 0, 5, 4, 3]);
    flip_triangle_winding(&mut indices);
    assert_eq!(indices, [0, 1, 2, 3, 4, 5]);
    let mut empty: [u32; 0] = [];
    flip_triangle_winding(&mut empty);
}

#[test]
fn custom_shader_lists_hold_paths_and_mappings() {
    let paths = vec!["assets/shaders/a.glsl".to_string()];
    let mapping = vec![ShaderMaterialMapping::new("a", &["m1"])];
    let custom = CustomShaders { shader_file_paths: &paths, mapping: &mapping };
    assert_eq!(custom.shader_file_paths.len(), 1);
    assert_eq!(custom.mapping[0].shader_name, "a");
    assert_eq!(custom.mapping[0].associated_materials, vec!["m1".to_string()]);
}

#[test]
fn imported_textures_follow_the_shader_samplers() {
    assert_eq!(
        choose_material_textures((true, true, true), (true, true, true)),
        vec![MaterialTextureSlot::Albedo, MaterialTextureSlot::Normal, MaterialTextureSlot::MetallicRoughness]
    );
    assert_eq!(
        choose_material_textures((true, false, true), (false, true, true)),
        vec![MaterialTextureSlot::MetallicRoughness]
    );
    assert!(choose_material_textures((false, false, false), (true, true, true)).is_empty());
    assert_eq!(MaterialTextureSlot::Albedo.name(), "albedo_map");
    assert_eq!(MaterialTextureSlot::Normal.name(), "normal_map");
    assert_eq!(MaterialTextureSlot::MetallicRoughness.name(), "mettalic_roughness_map");
    assert_eq!(MaterialTextureSlot::Albedo.storage_format(), StorageFormat::RGBA);
    assert_eq!(MaterialTextureSlot::Normal.storage_format(), StorageFormat::RGB);
    assert_eq!(MaterialTextureSlot::MetallicRoughness.storage_format(), StorageFormat::RGB);
    let scene = test_scene();
    let opaque = ResourceID::new(0);
    assert_eq!(
        scene.material_texture_slots(opaque, (true, true, true)),
        vec![MaterialTextureSlot::Albedo, MaterialTextureSlot::Normal]
    );
    assert_eq!(scene.material_texture_slots(opaque, (false, true, false)), vec![MaterialTextureSlot::Normal]);
    assert_eq!(scene.material_texture_slots(ResourceID::new(1), (true, true, true)), vec![MaterialTextureSlot::Albedo]);
}

#[test]
fn only_named_uniforms_outside_blocks_are_loaded() {
    assert_eq!(classify_uniform(12, -1), UniformPreload::Load);
    assert_eq!(classify_uniform(0, -1), UniformPreload::Unnamed);
    assert_eq!(classify_uniform(-3, -1), UniformPreload::Unnamed);
    assert_eq!(classify_uniform(12, 0), UniformPreload::InBlock);
    assert_eq!(classify_uniform(0, 2), UniformPreload::InBlock);
}
