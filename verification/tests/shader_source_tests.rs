use renderer::material_properties::{CullMode, DepthTestMode, SurfaceType};
use renderer::shader_source::{IncludeCache, LineAction, ShaderParsingTarget, ShaderSource, ShaderSourceParser};

const VERTEX_HEADER: &str = "#version 460 core\n#extension GL_ARB_bindless_texture : require\n#define VERTEX_SHADER\n";
const FRAGMENT_HEADER: &str = "#version 460 core\n#extension GL_ARB_bindless_texture : require\n#define FRAGMENT_SHADER\n";
const COMPUTE_HEADER: &str = "#version 460 core\n#extension GL_ARB_bindless_texture : require\n#define COMPUTE_SHADER\n";

fn feed(parser: &mut ShaderSourceParser, line: &str) -> LineAction {
    assert!(parser.accepts_line(line), "line refused: {}", line);
    parser.feed_line(line)
}

fn parse(name: &str, lines: &[&str]) -> ShaderSource {
    let mut parser = ShaderSourceParser::new(name);
    for line in lines {
        match feed(&mut parser, line) {
            LineAction::Continue => {}
            LineAction::Include(path) => panic!("unexpected include of {}", path),
        }
    }
    parser.finish()
}

#[test]
fn parser_splits_the_file_into_stages() {
    let source = parse(
        "split",
        &["#version 450", "dropped before any stage", "#shader vertex", "void main() {", "}", "#shader fragment", "out vec4 color;"],
    );
    assert_eq!(source.vertex_source(), format!("{}void main() {{\n}}\n\0", VERTEX_HEADER));
    assert_eq!(source.fragment_source(), format!("{}out vec4 color;\n\0", FRAGMENT_HEADER));
    assert_eq!(source.compute_source(), format!("{}\0", COMPUTE_HEADER));
    assert_eq!(source.name(), "split");
}

#[test]
fn stage_names_ignore_case_and_have_aliases() {
    let source = parse("aliases", &["#shader VERT", "a;", "#shader Pixel", "b;", "#shader compute", "c;", "#shader frag", "d;"]);
    assert_eq!(source.vertex_source(), format!("{}a;\n\0", VERTEX_HEADER));
    assert_eq!(source.fragment_source(), format!("{}b;\nd;\n\0", FRAGMENT_HEADER));
    assert_eq!(source.compute_source(), format!("{}c;\n\0", COMPUTE_HEADER));
}

#[test]
fn unknown_stage_name_stops_collecting() {
    let source = parse("unknown", &["#shader vertex", "kept;", "#shader geometry", "dropped;"]);
    assert_eq!(source.vertex_source(), format!("{}kept;\n\0", VERTEX_HEADER));
}

#[test]
fn render_state_commands_at_top_level() {
    let source = parse("state", &["ZWrite Off", "ZTest Always", "Cull Off", "Surface Transparent", "#shader vertex", "x;"]);
    let props = source.mat_props();
    assert!(!props.depth_writing_enabled);
    assert_eq!(props.depth_test_mode, DepthTestMode::Always);
    assert_eq!(props.cull_mode, CullMode::Disabled);
    assert_eq!(props.surface_type, SurfaceType::Transparent);
    assert_eq!(source.vertex_source(), format!("{}x;\n\0", VERTEX_HEADER));
}

#[test]
fn render_state_values_in_any_case() {
    let source = parse("case", &["ZTest lessequal", "Cull FRONT", "ZWrite OFF"]);
    let props = source.mat_props();
    assert_eq!(props.depth_test_mode, DepthTestMode::LessEqual);
    assert_eq!(props.cull_mode, CullMode::Front);
    assert!(!props.depth_writing_enabled);
    let source = parse("case2", &["ZTest Equal", "Cull both", "ZTest less"]);
    assert_eq!(source.mat_props().cull_mode, CullMode::Both);
    assert_eq!(source.mat_props().depth_test_mode, DepthTestMode::Less);
}

#[test]
fn unknown_render_state_values_keep_defaults() {
    let source = parse("unknown_values", &["ZWrite maybe", "ZTest sometimes", "Cull sideways", "Surface glass"]);
    let props = source.mat_props();
    assert!(props.depth_writing_enabled);
    assert_eq!(props.depth_test_mode, DepthTestMode::LessEqual);
    assert_eq!(props.cull_mode, CullMode::Back);
    assert_eq!(props.surface_type, SurfaceType::Opaque);
}

#[test]
fn render_state_words_inside_braces_are_source() {
    let source = parse("braces", &["#shader fragment", "void f() {", "Cull Off", "}"]);
    assert_eq!(source.mat_props().cull_mode, CullMode::Back);
    assert_eq!(source.fragment_source(), format!("{}void f() {{\nCull Off\n}}\n\0", FRAGMENT_HEADER));
}

#[test]
fn include_lines_ask_for_the_file() {
    let mut parser = ShaderSourceParser::new("inc");
    assert!(matches!(feed(&mut parser, "#include \"ignored.glsl\""), LineAction::Continue));
    feed(&mut parser, "#shader vertex");
    match feed(&mut parser, "  #include \"common.glsl\"  ") {
        LineAction::Include(path) => assert_eq!(path, "common.glsl"),
        LineAction::Continue => panic!("expected an include"),
    }
    parser.add_include("float shared_value;");
    feed(&mut parser, "void main() {}");
    let source = parser.finish();
    assert_eq!(source.vertex_source(), format!("{}float shared_value;\nvoid main() {{}}\n\0", VERTEX_HEADER));
}

#[test]
fn misplaced_directives_are_refused() {
    let parser = ShaderSourceParser::new("bad");
    assert!(!parser.accepts_line("// #shader vertex"));
    assert!(!parser.accepts_line("float Surface;"));
    assert!(parser.accepts_line("#shader"));
    assert!(parser.accepts_line("anything else"));
}

#[test]
fn curly_depth_follows_braces() {
    let mut parser = ShaderSourceParser::new("depth");
    assert_eq!(parser.curly_depth(), 0);
    feed(&mut parser, "struct A {");
    assert_eq!(parser.curly_depth(), 1);
    feed(&mut parser, "{ }");
    assert_eq!(parser.curly_depth(), 2);
    feed(&mut parser, "};");
    assert_eq!(parser.curly_depth(), 1);
}

#[test]
fn extract_directive_value_trims() {
    assert_eq!(ShaderSource::extract_directive_value("#shader", "  #shader   vertex  "), Some("vertex".to_string()));
    assert_eq!(ShaderSource::extract_directive_value("ZWrite", "ZWrite"), Some(String::new()));
    assert_eq!(ShaderSource::extract_directive_value("#shader", "vertex #shader"), None);
}

#[test]
fn insert_line_goes_after_the_stage_define() {
    let mut source = parse("insert", &["#shader vertex", "body;"]);
    source.insert_line(ShaderParsingTarget::Vertex, "#define SHADOWS");
    assert_eq!(source.vertex_source(), format!("{}#define SHADOWS\nbody;\n\0", VERTEX_HEADER));
    assert_eq!(source.fragment_source(), format!("{}\0", FRAGMENT_HEADER));
}

#[test]
fn include_cache_stores_and_clears() {
    let mut cache = IncludeCache::new();
    assert_eq!(cache.get("a.glsl"), None);
    cache.insert("a.glsl", "first");
    cache.insert("b.glsl", "second");
    cache.insert("a.glsl", "third");
    assert_eq!(cache.get("a.glsl"), Some("third".to_string()));
    assert_eq!(cache.get("b.glsl"), Some("second".to_string()));
    ShaderSource::clear_cache(&mut cache);
    assert_eq!(cache.get("a.glsl"), None);
    assert_eq!(cache.get("b.glsl"), None);
}
