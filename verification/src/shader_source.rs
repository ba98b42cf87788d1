//! The shader source preprocessor. One `.glsl` file holds the vertex, fragment
//! and compute stages, separated by `#shader <stage>` lines, with `#include`
//! lines and render-state commands (`ZWrite`, `ZTest`, `Cull`, `Surface`) at
//! brace depth zero. The preprocessor splits the file into one source per
//! stage and collects the material properties.
use vstd::prelude::*;

use crate::material_properties::{
    default_material_properties, CullMode, DepthTestMode, MaterialProperties, SurfaceType,
};
use crate::text::{
    chars_of, chars_equal_str, contains_char, contains_chars, contains_seq, eq_ignore_ascii_case,
    eq_ignore_ascii_case_chars, find_chars_from, find_from, lowercase_of, push_all, strip_prefix,
    strip_prefix_chars, string_of, to_lowercase_chars, trim, trim_by, trim_chars, trim_whitespace,
    TrimSet,
};

verus! {

#[derive(Debug, Clone, Copy, PartialEq, Eq, Structural)]
pub enum ShaderParsingTarget {
    Vertex,
    Fragment,
    Compute,
}

pub open spec fn version_directive_kv() -> Seq<char> {
    "#version 460 core\n"@
}

pub open spec fn bindless_directive() -> Seq<char> {
    "#extension GL_ARB_bindless_texture : require\n"@
}

/// The `#define` line that names a stage in its source.
pub open spec fn type_macro(t: ShaderParsingTarget) -> Seq<char> {
    match t {
        ShaderParsingTarget::Vertex => "#define VERTEX_SHADER\n"@,
        ShaderParsingTarget::Fragment => "#define FRAGMENT_SHADER\n"@,
        ShaderParsingTarget::Compute => "#define COMPUTE_SHADER\n"@,
    }
}

/// What every stage's source starts with.
pub open spec fn source_header(t: ShaderParsingTarget) -> Seq<char> {
    version_directive_kv() + bindless_directive() + type_macro(t)
}

/// `input` trimmed, without the directive at its start, trimmed again; `None`
/// where the trimmed input does not start with the directive.
pub open spec fn directive_value(directive: Seq<char>, input: Seq<char>) -> Option<Seq<char>> {
    match strip_prefix(trim(input), directive) {
        Some(rest) => Some(trim(rest)),
        None => None,
    }
}

/// The stage that a lowercased `#shader` value names.
pub open spec fn shader_type_of(lower: Seq<char>) -> Option<ShaderParsingTarget> {
    if lower == "vertex"@ || lower == "vert"@ {
        Some(ShaderParsingTarget::Vertex)
    } else if lower == "fragment"@ || lower == "frag"@ || lower == "pixel"@ {
        Some(ShaderParsingTarget::Fragment)
    } else if lower == "compute"@ {
        Some(ShaderParsingTarget::Compute)
    } else {
        None
    }
}

/// The depth-write flag that a `ZWrite` line sets.
pub open spec fn z_write_of(line: Seq<char>) -> bool {
    match directive_value("ZWrite"@, line) {
        Some(c) => if eq_ignore_ascii_case(c, "off"@) && !eq_ignore_ascii_case(c, "on"@) {
            false
        } else {
            true
        },
        None => default_material_properties().depth_writing_enabled,
    }
}

/// The depth test that a lowercased `ZTest` value names.
pub open spec fn z_test_of_lower(lower: Seq<char>) -> DepthTestMode {
    if lower == "lequal"@ || lower == "lessequal"@ {
        DepthTestMode::LessEqual
    } else if lower == "equal"@ {
        DepthTestMode::Equal
    } else if lower == "always"@ {
        DepthTestMode::Always
    } else if lower == "less"@ {
        DepthTestMode::Less
    } else {
        default_material_properties().depth_test_mode
    }
}

/// The depth test that a `ZTest` line sets.
pub open spec fn z_test_of(line: Seq<char>) -> DepthTestMode {
    match directive_value("ZTest"@, line) {
        Some(c) => z_test_of_lower(lowercase_of(c)),
        None => default_material_properties().depth_test_mode,
    }
}

/// The cull mode that a lowercased `Cull` value names.
pub open spec fn cull_of_lower(lower: Seq<char>) -> CullMode {
    if lower == "back"@ {
        CullMode::Back
    } else if lower == "front"@ {
        CullMode::Front
    } else if lower == "off"@ || lower == "disabled"@ {
        CullMode::Disabled
    } else if lower == "both"@ {
        CullMode::Both
    } else {
        default_material_properties().cull_mode
    }
}

/// The cull mode that a `Cull` line sets.
pub open spec fn cull_of(line: Seq<char>) -> CullMode {
    match directive_value("Cull"@, line) {
        Some(c) => cull_of_lower(lowercase_of(c)),
        None => default_material_properties().cull_mode,
    }
}

/// The surface type that a lowercased `Surface` value names.
pub open spec fn surface_of_lower(lower: Seq<char>) -> SurfaceType {
    if lower == "transparent"@ {
        SurfaceType::Transparent
    } else {
        SurfaceType::Opaque
    }
}

/// The state of the preprocessor between two lines.
pub struct ParseState {
    pub target: Option<ShaderParsingTarget>,
    pub props: MaterialProperties,
    pub curly: int,
    pub vertex: Seq<char>,
    pub fragment: Seq<char>,
    pub compute: Seq<char>,
}

/// The state before the first line.
pub open spec fn initial_state() -> ParseState {
    ParseState {
        target: None,
        props: default_material_properties(),
        curly: 0,
        vertex: source_header(ShaderParsingTarget::Vertex),
        fragment: source_header(ShaderParsingTarget::Fragment),
        compute: source_header(ShaderParsingTarget::Compute),
    }
}

/// `st` with `text` and a newline added to the source of stage `t`.
pub open spec fn append_to(st: ParseState, t: ShaderParsingTarget, text: Seq<char>) -> ParseState {
    match t {
        ShaderParsingTarget::Vertex => ParseState { vertex: st.vertex + text.push('\n'), ..st },
        ShaderParsingTarget::Fragment => ParseState { fragment: st.fragment + text.push('\n'), ..st },
        ShaderParsingTarget::Compute => ParseState { compute: st.compute + text.push('\n'), ..st },
    }
}

/// The brace depth after a line: one deeper if it holds `{`, else one shallower
/// if it holds `}`.
pub open spec fn next_curly(curly: int, line: Seq<char>) -> int {
    if line.contains('{') {
        curly + 1
    } else if line.contains('}') {
        curly - 1
    } else {
        curly
    }
}

/// What one line does to the preprocessor: the next state and, for an active
/// `#include` line, the path that it names (without surrounding quotes).
/// `None` where the line is a `#shader`, `#include` or `Surface` line whose
/// trimmed text does not start with that word; such a file is rejected.
pub open spec fn step(st: ParseState, line: Seq<char>) -> Option<(ParseState, Option<Seq<char>>)> {
    let c = next_curly(st.curly, line);
    let s1 = ParseState { curly: c, ..st };
    if contains_seq(line, "#version"@) {
        Some((s1, None))
    } else if contains_seq(line, "#shader"@) {
        match directive_value("#shader"@, line) {
            Some(v) => Some((ParseState { target: shader_type_of(lowercase_of(v)), ..s1 }, None)),
            None => None,
        }
    } else if contains_seq(line, "#include"@) && st.target is Some {
        match directive_value("#include"@, line) {
            Some(v) => Some((s1, Some(trim_by(v, TrimSet::Only('"'))))),
            None => None,
        }
    } else if c == 0 && contains_seq(line, "ZWrite"@) {
        Some((ParseState { props: MaterialProperties { depth_writing_enabled: z_write_of(line), ..st.props }, ..s1 }, None))
    } else if c == 0 && contains_seq(line, "ZTest"@) {
        Some((ParseState { props: MaterialProperties { depth_test_mode: z_test_of(line), ..st.props }, ..s1 }, None))
    } else if c == 0 && contains_seq(line, "Cull"@) {
        Some((ParseState { props: MaterialProperties { cull_mode: cull_of(line), ..st.props }, ..s1 }, None))
    } else if c == 0 && contains_seq(line, "Surface"@) {
        match directive_value("Surface"@, line) {
            Some(v) => Some((ParseState { props: MaterialProperties { surface_type: surface_of_lower(lowercase_of(v)), ..st.props }, ..s1 }, None)),
            None => None,
        }
    } else {
        match st.target {
            Some(t) => Some((append_to(s1, t, line), None)),
            None => Some((s1, None)),
        }
    }
}

/// What a finished preprocessed shader holds.
pub struct ShaderSourceView {
    pub vertex: Seq<char>,
    pub fragment: Seq<char>,
    pub compute: Seq<char>,
    pub props: MaterialProperties,
    pub name: Seq<char>,
}

/// The three stage sources and the collected render state of a shader file.
pub struct ShaderSource {
    vertex_source: Vec<char>,
    fragment_source: Vec<char>,
    compute_source: Vec<char>,
    material_properties: MaterialProperties,
    name: String,
}

impl View for ShaderSource {
    type V = ShaderSourceView;

    closed spec fn view(&self) -> ShaderSourceView {
        ShaderSourceView {
            vertex: self.vertex_source@,
            fragment: self.fragment_source@,
            compute: self.compute_source@,
            props: self.material_properties,
            name: self.name@,
        }
    }
}

/// The preprocessor, fed one line at a time.
pub struct ShaderSourceParser {
    target: Option<ShaderParsingTarget>,
    props: MaterialProperties,
    curly: i64,
    vertex: Vec<char>,
    fragment: Vec<char>,
    compute: Vec<char>,
    name: String,
}

/// What the caller must do after a line: nothing, or load the file that an
/// `#include` line names (relative to the shader file's directory) and hand
/// its text to `add_include` when it could be read.
pub enum LineAction {
    Continue,
    Include(String),
}

impl LineAction {
    pub open spec fn include_path(self) -> Option<Seq<char>> {
        match self {
            LineAction::Continue => None,
            LineAction::Include(p) => Some(p@),
        }
    }
}

impl View for ShaderSourceParser {
    type V = ParseState;

    closed spec fn view(&self) -> ParseState {
        ParseState {
            target: self.target,
            props: self.props,
            curly: self.curly as int,
            vertex: self.vertex@,
            fragment: self.fragment@,
            compute: self.compute@,
        }
    }
}

fn header_chars(t: ShaderParsingTarget) -> (v: Vec<char>)
    ensures
        v@ == source_header(t),
{
    let mut v = chars_of("#version 460 core\n");
    let b = chars_of("#extension GL_ARB_bindless_texture : require\n");
    push_all(&mut v, b.as_slice());
    let m = match t {
        ShaderParsingTarget::Vertex => chars_of("#define VERTEX_SHADER\n"),
        ShaderParsingTarget::Fragment => chars_of("#define FRAGMENT_SHADER\n"),
        ShaderParsingTarget::Compute => chars_of("#define COMPUTE_SHADER\n"),
    };
    push_all(&mut v, m.as_slice());
    v
}

fn append_line(v: &mut Vec<char>, line: &[char])
    ensures
        final(v)@ == old(v)@ + line@.push('\n'),
{
    push_all(v, line);
    v.push('\n');
    assert(final(v)@ =~= old(v)@ + line@.push('\n'));
}

/// `extract_directive_value` over characters.
fn directive_value_chars(directive: &str, input: &[char]) -> (r: Option<Vec<char>>)
    ensures
        r matches Some(v) ==> directive_value(directive@, input@) == Some(v@),
        r is None ==> directive_value(directive@, input@) is None,
{
    let t = trim_whitespace(input);
    let d = chars_of(directive);
    match strip_prefix_chars(t.as_slice(), d.as_slice()) {
        Some(rest) => Some(trim_whitespace(rest.as_slice())),
        None => None,
    }
}

fn contains_str(line: &[char], pat: &str) -> (b: bool)
    ensures
        b == contains_seq(line@, pat@),
{
    let p = chars_of(pat);
    contains_chars(line, p.as_slice())
}

fn shader_type_exec(lower: &[char]) -> (r: Option<ShaderParsingTarget>)
    ensures
        r == shader_type_of(lower@),
{
    if chars_equal_str(lower, "vertex") || chars_equal_str(lower, "vert") {
        Some(ShaderParsingTarget::Vertex)
    } else if chars_equal_str(lower, "fragment") || chars_equal_str(lower, "frag")
        || chars_equal_str(lower, "pixel") {
        Some(ShaderParsingTarget::Fragment)
    } else if chars_equal_str(lower, "compute") {
        Some(ShaderParsingTarget::Compute)
    } else {
        None
    }
}

fn z_test_exec(lower: &[char]) -> (r: DepthTestMode)
    ensures
        r == z_test_of_lower(lower@),
{
    if chars_equal_str(lower, "lequal") || chars_equal_str(lower, "lessequal") {
        DepthTestMode::LessEqual
    } else if chars_equal_str(lower, "equal") {
        DepthTestMode::Equal
    } else if chars_equal_str(lower, "always") {
        DepthTestMode::Always
    } else if chars_equal_str(lower, "less") {
        DepthTestMode::Less
    } else {
        DepthTestMode::LessEqual
    }
}

fn cull_exec(lower: &[char]) -> (r: CullMode)
    ensures
        r == cull_of_lower(lower@),
{
    if chars_equal_str(lower, "back") {
        CullMode::Back
    } else if chars_equal_str(lower, "front") {
        CullMode::Front
    } else if chars_equal_str(lower, "off") || chars_equal_str(lower, "disabled") {
        CullMode::Disabled
    } else if chars_equal_str(lower, "both") {
        CullMode::Both
    } else {
        CullMode::Back
    }
}

fn surface_exec(lower: &[char]) -> (r: SurfaceType)
    ensures
        r == surface_of_lower(lower@),
{
    if chars_equal_str(lower, "transparent") {
        SurfaceType::Transparent
    } else {
        SurfaceType::Opaque
    }
}

fn z_write_exec(line: &[char]) -> (r: bool)
    ensures
        r == z_write_of(line@),
{
    match directive_value_chars("ZWrite", line) {
        Some(c) => {
            let on = chars_of("on");
            let off = chars_of("off");
            if eq_ignore_ascii_case_chars(c.as_slice(), on.as_slice()) {
                true
            } else if eq_ignore_ascii_case_chars(c.as_slice(), off.as_slice()) {
                false
            } else {
                true
            }
        },
        None => true,
    }
}

fn z_test_line_exec(line: &[char]) -> (r: DepthTestMode)
    ensures
        r == z_test_of(line@),
{
    match directive_value_chars("ZTest", line) {
        Some(c) => z_test_exec(to_lowercase_chars(c.as_slice()).as_slice()),
        None => DepthTestMode::LessEqual,
    }
}

fn cull_line_exec(line: &[char]) -> (r: CullMode)
    ensures
        r == cull_of(line@),
{
    match directive_value_chars("Cull", line) {
        Some(c) => cull_exec(to_lowercase_chars(c.as_slice()).as_slice()),
        None => CullMode::Back,
    }
}

impl ShaderSourceParser {
    /// A preprocessor for the shader called `name`, before its first line.
    pub fn new(name: &str) -> (p: Self)
        ensures
            p@ == initial_state(),
            p.name()@ == name@,
    {
        ShaderSourceParser {
            target: None,
            props: MaterialProperties::default_properties(),
            curly: 0,
            vertex: header_chars(ShaderParsingTarget::Vertex),
            fragment: header_chars(ShaderParsingTarget::Fragment),
            compute: header_chars(ShaderParsingTarget::Compute),
            name: string_of(chars_of(name).as_slice()),
        }
    }

    pub closed spec fn name(&self) -> String {
        self.name
    }

    /// The current brace depth.
    pub fn curly_depth(&self) -> (d: i64)
        ensures
            d as int == self@.curly,
    {
        self.curly
    }

    /// Whether `line` is accepted in the current state (see `step`).
    pub fn accepts_line(&self, line: &str) -> (b: bool)
        ensures
            b == step(self@, line@) is Some,
    {
        let l = chars_of(line);
        let l = l.as_slice();
        if contains_str(l, "#version") {
            true
        } else if contains_str(l, "#shader") {
            directive_value_chars("#shader", l).is_some()
        } else if contains_str(l, "#include") && self.target.is_some() {
            directive_value_chars("#include", l).is_some()
        } else {
            let zero = self.next_curly_is_zero(l);
            if zero && (contains_str(l, "ZWrite") || contains_str(l, "ZTest") || contains_str(l, "Cull")) {
                true
            } else if zero && contains_str(l, "Surface") {
                directive_value_chars("Surface", l).is_some()
            } else {
                true
            }
        }
    }

    fn next_curly_is_zero(&self, l: &[char]) -> (b: bool)
        ensures
            b == (next_curly(self@.curly, l@) == 0),
    {
        if contains_char(l, '{') {
            self.curly == -1
        } else if contains_char(l, '}') {
            self.curly == 1
        } else {
            self.curly == 0
        }
    }

    /// Feeds one line of the file to the preprocessor.
    pub fn feed_line(&mut self, line: &str) -> (a: LineAction)
        requires
            step(old(self)@, line@) is Some,
            i64::MIN < old(self)@.curly < i64::MAX,
        ensures
            step(old(self)@, line@) == Some((final(self)@, a.include_path())),
            final(self).name() == old(self).name(),
    {
        let l = chars_of(line);
        let l = l.as_slice();
        if contains_char(l, '{') {
            self.curly = self.curly + 1;
        } else if contains_char(l, '}') {
            self.curly = self.curly - 1;
        }
        if contains_str(l, "#version") {
            return LineAction::Continue;
        }
        if contains_str(l, "#shader") {
            let v = directive_value_chars("#shader", l);
            match v {
                Some(v) => {
                    let low = to_lowercase_chars(v.as_slice());
                    self.target = shader_type_exec(low.as_slice());
                },
                None => {},
            }
            return LineAction::Continue;
        }
        if contains_str(l, "#include") && self.target.is_some() {
            let v = directive_value_chars("#include", l);
            match v {
                Some(v) => {
                    let path = trim_chars(v.as_slice(), TrimSet::Only('"'));
                    return LineAction::Include(string_of(path.as_slice()));
                },
                None => {
                    return LineAction::Continue;
                },
            }
        }
        if self.curly == 0 {
            if contains_str(l, "ZWrite") {
                self.props.depth_writing_enabled = z_write_exec(l);
                return LineAction::Continue;
            }
            if contains_str(l, "ZTest") {
                self.props.depth_test_mode = z_test_line_exec(l);
                return LineAction::Continue;
            }
            if contains_str(l, "Cull") {
                self.props.cull_mode = cull_line_exec(l);
                return LineAction::Continue;
            }
            if contains_str(l, "Surface") {
                let v = directive_value_chars("Surface", l);
                match v {
                    Some(v) => {
                        let low = to_lowercase_chars(v.as_slice());
                        self.props.surface_type = surface_exec(low.as_slice());
                    },
                    None => {},
                }
                return LineAction::Continue;
            }
        }
        match self.target {
            Some(ShaderParsingTarget::Vertex) => append_line(&mut self.vertex, l),
            Some(ShaderParsingTarget::Fragment) => append_line(&mut self.fragment, l),
            Some(ShaderParsingTarget::Compute) => append_line(&mut self.compute, l),
            None => {},
        }
        LineAction::Continue
    }

    /// Adds the text of an included file, and a newline, to the source of the
    /// current stage.
    pub fn add_include(&mut self, content: &str)
        requires
            old(self)@.target is Some,
        ensures
            final(self)@ == append_to(old(self)@, old(self)@.target->0, content@),
            final(self).name() == old(self).name(),
    {
        let c = chars_of(content);
        match self.target {
            Some(ShaderParsingTarget::Vertex) => append_line(&mut self.vertex, c.as_slice()),
            Some(ShaderParsingTarget::Fragment) => append_line(&mut self.fragment, c.as_slice()),
            Some(ShaderParsingTarget::Compute) => append_line(&mut self.compute, c.as_slice()),
            None => {},
        }
    }

    /// Ends every stage's source with a NUL and hands the result out.
    pub fn finish(self) -> (s: ShaderSource)
        ensures
            s@.vertex == self@.vertex.push('\0'),
            s@.fragment == self@.fragment.push('\0'),
            s@.compute == self@.compute.push('\0'),
            s@.props == self@.props,
            s@.name == self.name()@,
    {
        let mut v = self.vertex;
        let mut f = self.fragment;
        let mut c = self.compute;
        v.push('\0');
        f.push('\0');
        c.push('\0');
        ShaderSource {
            vertex_source: v,
            fragment_source: f,
            compute_source: c,
            material_properties: self.props,
            name: self.name,
        }
    }
}

/// `src` with `line` and a newline inserted after the first line that holds
/// `mac`; `src` unchanged where `mac` does not occur.
pub open spec fn insert_after(src: Seq<char>, mac: Seq<char>, line: Seq<char>) -> Seq<char> {
    match find_from(src, mac, 0) {
        Some(start) => match find_from(src, seq!['\n'], start) {
            Some(nl) => src.take(nl + 1) + line.push('\n') + src.skip(nl + 1),
            None => src.push('\n') + line.push('\n'),
        },
        None => src,
    }
}

fn insert_after_exec(src: &Vec<char>, mac: &str, line: &[char]) -> (r: Vec<char>)
    ensures
        r@ == insert_after(src@, mac@, line@),
{
    let m = chars_of(mac);
    match find_chars_from(src.as_slice(), m.as_slice(), 0) {
        Some(start) => {
            let nl_pat = vec!['\n'];
            assert(nl_pat@ =~= seq!['\n']);
            match find_chars_from(src.as_slice(), nl_pat.as_slice(), start) {
                Some(nl) => {
                    proof {
                        lemma_find_from_in_range(src@, seq!['\n'], start as int);
                    }
                    let mut r: Vec<char> = Vec::new();
                    let mut i: usize = 0;
                    while i <= nl
                        invariant
                            i <= nl + 1,
                            nl < src.len(),
                            r@ == src@.take(i as int),
                        decreases nl + 1 - i,
                    {
                        r.push(src[i]);
                        assert(src@.take(i + 1) =~= src@.take(i as int).push(src@[i as int]));
                        i = i + 1;
                    }
                    append_line(&mut r, line);
                    let ghost mid = r@;
                    let mut j: usize = nl + 1;
                    while j < src.len()
                        invariant
                            nl + 1 <= j <= src.len(),
                            r@ == mid + src@.subrange(nl + 1, j as int),
                        decreases src.len() - j,
                    {
                        r.push(src[j]);
                        assert(src@.subrange(nl + 1, j + 1) =~= src@.subrange(nl + 1, j as int).push(
                            src@[j as int],
                        ));
                        j = j + 1;
                    }
                    assert(src@.subrange(nl + 1, src.len() as int) =~= src@.skip(nl + 1));
                    r
                },
                None => {
                    let mut r = src.clone();
                    r.push('\n');
                    append_line(&mut r, line);
                    r
                },
            }
        },
        None => src.clone(),
    }
}

proof fn lemma_find_from_in_range(s: Seq<char>, p: Seq<char>, i: int)
    ensures
        find_from(s, p, i) matches Some(k) ==> i <= k && k + p.len() <= s.len() && s.subrange(
            k,
            k + p.len(),
        ) == p,
    decreases s.len() + 1 - i,
{
    if i < 0 || i + p.len() > s.len() {
    } else if crate::text::matches_at(s, p, i) {
    } else {
        lemma_find_from_in_range(s, p, i + 1);
    }
}

/// `s` with `line` inserted into the source of stage `t` (see `insert_after`).
pub open spec fn with_inserted_line(s: ShaderSourceView, t: ShaderParsingTarget, line: Seq<char>) -> ShaderSourceView {
    match t {
        ShaderParsingTarget::Vertex => ShaderSourceView { vertex: insert_after(s.vertex, type_macro(t), line), ..s },
        ShaderParsingTarget::Fragment => ShaderSourceView { fragment: insert_after(s.fragment, type_macro(t), line), ..s },
        ShaderParsingTarget::Compute => ShaderSourceView { compute: insert_after(s.compute, type_macro(t), line), ..s },
    }
}

/// Included files already read, by path.
pub struct IncludeCache {
    entries: Vec<(String, String)>,
}

/// The text stored for `path`, looking from the first entry on.
pub open spec fn cache_lookup(entries: Seq<(Seq<char>, Seq<char>)>, path: Seq<char>) -> Option<
    Seq<char>,
>
    decreases entries.len(),
{
    if entries.len() == 0 {
        None
    } else if entries[0].0 == path {
        Some(entries[0].1)
    } else {
        cache_lookup(entries.drop_first(), path)
    }
}

impl IncludeCache {
    pub closed spec fn entries(&self) -> Seq<(Seq<char>, Seq<char>)> {
        self.entries@.map_values(|e: (String, String)| (e.0@, e.1@))
    }

    /// The text cached for `path`.
    pub open spec fn lookup(&self, path: Seq<char>) -> Option<Seq<char>> {
        cache_lookup(self.entries(), path)
    }

    pub fn new() -> (c: Self)
        ensures
            forall|p: Seq<char>| c.lookup(p) is None,
    {
        let c = IncludeCache { entries: Vec::new() };
        assert(c.entries() =~= seq![]);
        c
    }

    /// The text cached for `path`, if any.
    pub fn get(&self, path: &str) -> (r: Option<String>)
        ensures
            r matches Some(t) ==> self.lookup(path@) == Some(t@),
            r is None ==> self.lookup(path@) is None,
    {
        let mut i: usize = 0;
        let ghost es = self.entries();
        let key = chars_of(path);
        assert(es.skip(0) =~= es);
        while i < self.entries.len()
            invariant
                i <= self.entries.len(),
                es == self.entries(),
                key@ == path@,
                cache_lookup(es, path@) == cache_lookup(es.skip(i as int), path@),
            decreases self.entries.len() - i,
        {
            let ghost rest = es.skip(i as int);
            assert(rest.drop_first() =~= es.skip(i + 1));
            assert(rest[0] == (self.entries@[i as int].0@, self.entries@[i as int].1@));
            if crate::text::chars_eq(chars_of(self.entries[i].0.as_str()).as_slice(), key.as_slice()) {
                return Some(self.entries[i].1.clone());
            }
            i = i + 1;
        }
        assert(es.skip(i as int) =~= seq![]);
        None
    }

    /// Stores `text` for `path` in front of anything stored before.
    pub fn insert(&mut self, path: &str, text: &str)
        ensures
            final(self).lookup(path@) == Some(text@),
            forall|p: Seq<char>| p != path@ ==> final(self).lookup(p) == old(self).lookup(p),
    {
        let ghost before = self.entries();
        let entry = (string_of(chars_of(path).as_slice()), string_of(chars_of(text).as_slice()));
        self.entries.insert(0, entry);
        assert(self.entries().drop_first() =~= before);
    }

    /// Forgets every cached text.
    pub fn clear(&mut self)
        ensures
            forall|p: Seq<char>| final(self).lookup(p) is None,
    {
        self.entries = Vec::new();
        assert(self.entries() =~= seq![]);
    }
}

impl ShaderSource {
    /// Empties the cache of included files.
    pub fn clear_cache(cache: &mut IncludeCache)
        ensures
            forall|p: Seq<char>| final(cache).lookup(p) is None,
    {
        cache.clear();
    }

    /// Inserts `line` (and a newline) into the source of `source_target`,
    /// right after the first line that holds the stage's `#define`.
    pub fn insert_line(&mut self, source_target: ShaderParsingTarget, line: &str)
        ensures
            final(self)@ == with_inserted_line(old(self)@, source_target, line@),
    {
        let l = chars_of(line);
        match source_target {
            ShaderParsingTarget::Compute => {
                self.compute_source = insert_after_exec(
                    &self.compute_source,
                    "#define COMPUTE_SHADER\n",
                    l.as_slice(),
                );
            },
            ShaderParsingTarget::Fragment => {
                self.fragment_source = insert_after_exec(
                    &self.fragment_source,
                    "#define FRAGMENT_SHADER\n",
                    l.as_slice(),
                );
            },
            ShaderParsingTarget::Vertex => {
                self.vertex_source = insert_after_exec(
                    &self.vertex_source,
                    "#define VERTEX_SHADER\n",
                    l.as_slice(),
                );
            },
        }
    }

    /// `input` trimmed, without `directive` at its start, trimmed again.
    pub fn extract_directive_value(directive: &str, input: &str) -> (r: Option<String>)
        ensures
            r matches Some(v) ==> directive_value(directive@, input@) == Some(v@),
            r is None ==> directive_value(directive@, input@) is None,
    {
        match directive_value_chars(directive, chars_of(input).as_slice()) {
            Some(v) => Some(string_of(v.as_slice())),
            None => None,
        }
    }

    pub fn name(&self) -> (r: &str)
        ensures
            r@ == self@.name,
    {
        self.name.as_str()
    }

    pub fn mat_props(&self) -> (r: &MaterialProperties)
        ensures
            *r == self@.props,
    {
        &self.material_properties
    }

    /// The vertex stage's source, ending in NUL.
    pub fn vertex_source(&self) -> (r: String)
        ensures
            r@ == self@.vertex,
    {
        string_of(self.vertex_source.as_slice())
    }

    /// The fragment stage's source, ending in NUL.
    pub fn fragment_source(&self) -> (r: String)
        ensures
            r@ == self@.fragment,
    {
        string_of(self.fragment_source.as_slice())
    }

    /// The compute stage's source, ending in NUL.
    pub fn compute_source(&self) -> (r: String)
        ensures
            r@ == self@.compute,
    {
        string_of(self.compute_source.as_slice())
    }
}

/// Whether `s` starts with `p`.
pub open spec fn starts_with(s: Seq<char>, p: Seq<char>) -> bool {
    p.len() <= s.len() && s.take(p.len() as int) == p
}

/// Every stage's source starts with that stage's header.
pub open spec fn headers_kept(st: ParseState) -> bool {
    &&& starts_with(st.vertex, source_header(ShaderParsingTarget::Vertex))
    &&& starts_with(st.fragment, source_header(ShaderParsingTarget::Fragment))
    &&& starts_with(st.compute, source_header(ShaderParsingTarget::Compute))
}

proof fn lemma_starts_with_append(s: Seq<char>, p: Seq<char>, t: Seq<char>)
    requires
        starts_with(s, p),
    ensures
        starts_with(s + t, p),
{
    assert((s + t).take(p.len() as int) =~= s.take(p.len() as int));
}

proof fn lemma_append_keeps_headers(st: ParseState, t: ShaderParsingTarget, text: Seq<char>)
    requires
        headers_kept(st),
    ensures
        headers_kept(append_to(st, t, text)),
{
    lemma_starts_with_append(st.vertex, source_header(ShaderParsingTarget::Vertex), text.push('\n'));
    lemma_starts_with_append(st.fragment, source_header(ShaderParsingTarget::Fragment), text.push('\n'));
    lemma_starts_with_append(st.compute, source_header(ShaderParsingTarget::Compute), text.push('\n'));
}

/// The preprocessor starts every stage's source with the stage's header, and
/// no line or included file takes it away: lines are only ever added after it.
pub proof fn law_headers_kept(st: ParseState, line: Seq<char>, included: Seq<char>)
    requires
        headers_kept(st),
    ensures
        headers_kept(initial_state()),
        step(st, line) matches Some((s2, _)) ==> headers_kept(s2),
        st.target matches Some(t) ==> headers_kept(append_to(st, t, included)),
{
    assert(initial_state().vertex.take(source_header(ShaderParsingTarget::Vertex).len() as int) =~= source_header(ShaderParsingTarget::Vertex));
    assert(initial_state().fragment.take(source_header(ShaderParsingTarget::Fragment).len() as int) =~= source_header(ShaderParsingTarget::Fragment));
    assert(initial_state().compute.take(source_header(ShaderParsingTarget::Compute).len() as int) =~= source_header(ShaderParsingTarget::Compute));
    if let Some(t) = st.target {
        lemma_append_keeps_headers(st, t, included);
        let c = next_curly(st.curly, line);
        let s1 = ParseState { curly: c, ..st };
        lemma_append_keeps_headers(s1, t, line);
    }
}

/// `s` holds no NUL character.
pub open spec fn nul_free(s: Seq<char>) -> bool {
    !s.contains('\0')
}

/// No stage's source holds a NUL character.
pub open spec fn sources_nul_free(st: ParseState) -> bool {
    nul_free(st.vertex) && nul_free(st.fragment) && nul_free(st.compute)
}

/// `s` holds exactly one NUL character, as its last character, so that it can
/// be handed to the driver as a C string.
pub open spec fn one_nul_at_end(s: Seq<char>) -> bool {
    &&& s.len() > 0
    &&& s.last() == '\0'
    &&& forall|i: int| 0 <= i < s.len() - 1 ==> s[i] != '\0'
}

proof fn lemma_nul_free_concat(a: Seq<char>, b: Seq<char>)
    requires
        nul_free(a),
        nul_free(b),
    ensures
        nul_free(a + b),
{
    assert forall|i: int| 0 <= i < (a + b).len() implies (a + b)[i] != '\0' by {
        if i < a.len() {
            assert((a + b)[i] == a[i]);
        } else {
            assert((a + b)[i] == b[i - a.len()]);
        }
    }
}

proof fn lemma_headers_nul_free()
    ensures
        nul_free(source_header(ShaderParsingTarget::Vertex)),
        nul_free(source_header(ShaderParsingTarget::Fragment)),
        nul_free(source_header(ShaderParsingTarget::Compute)),
{
    reveal_strlit("#version 460 core\n");
    reveal_strlit("#extension GL_ARB_bindless_texture : require\n");
    reveal_strlit("#define VERTEX_SHADER\n");
    reveal_strlit("#define FRAGMENT_SHADER\n");
    reveal_strlit("#define COMPUTE_SHADER\n");
    assert(nul_free(version_directive_kv()));
    assert(nul_free(bindless_directive()));
    assert(nul_free(type_macro(ShaderParsingTarget::Vertex)));
    assert(nul_free(type_macro(ShaderParsingTarget::Fragment)));
    assert(nul_free(type_macro(ShaderParsingTarget::Compute)));
    lemma_nul_free_concat(version_directive_kv(), bindless_directive());
    lemma_nul_free_concat(version_directive_kv() + bindless_directive(), type_macro(ShaderParsingTarget::Vertex));
    lemma_nul_free_concat(version_directive_kv() + bindless_directive(), type_macro(ShaderParsingTarget::Fragment));
    lemma_nul_free_concat(version_directive_kv() + bindless_directive(), type_macro(ShaderParsingTarget::Compute));
}

proof fn lemma_append_nul_free(st: ParseState, t: ShaderParsingTarget, text: Seq<char>)
    requires
        sources_nul_free(st),
        nul_free(text),
    ensures
        sources_nul_free(append_to(st, t, text)),
{
    assert(nul_free(text.push('\n'))) by {
        assert forall|i: int| 0 <= i < text.push('\n').len() implies text.push('\n')[i] != '\0' by {
            if i < text.len() {
                assert(text.push('\n')[i] == text[i]);
            }
        }
    }
    lemma_nul_free_concat(st.vertex, text.push('\n'));
    lemma_nul_free_concat(st.fragment, text.push('\n'));
    lemma_nul_free_concat(st.compute, text.push('\n'));
}

proof fn lemma_push_nul(s: Seq<char>)
    requires
        nul_free(s),
    ensures
        one_nul_at_end(s.push('\0')),
{
    assert forall|i: int| 0 <= i < s.push('\0').len() - 1 implies s.push('\0')[i] != '\0' by {
        assert(s.push('\0')[i] == s[i]);
    }
}

/// Where the file's lines and the included texts hold no NUL, no stage's
/// source ever holds one: the preprocessor starts without one, and neither a
/// line nor an included text brings one in. Finishing then ends each source
/// with exactly one NUL, its last character.
pub proof fn law_one_nul_at_end(st: ParseState, line: Seq<char>, included: Seq<char>)
    requires
        sources_nul_free(st),
    ensures
        sources_nul_free(initial_state()),
        nul_free(line) ==> (step(st, line) matches Some((s2, _)) ==> sources_nul_free(s2)),
        nul_free(included) ==> (st.target matches Some(t) ==> sources_nul_free(append_to(st, t, included))),
        one_nul_at_end(st.vertex.push('\0')),
        one_nul_at_end(st.fragment.push('\0')),
        one_nul_at_end(st.compute.push('\0')),
{
    lemma_headers_nul_free();
    lemma_push_nul(st.vertex);
    lemma_push_nul(st.fragment);
    lemma_push_nul(st.compute);
    if let Some(t) = st.target {
        if nul_free(included) {
            lemma_append_nul_free(st, t, included);
        }
        if nul_free(line) {
            let c = next_curly(st.curly, line);
            let s1 = ParseState { curly: c, ..st };
            lemma_append_nul_free(s1, t, line);
        }
    }
}

/// Each `ZTest` value (lowercased) names its own depth test: "equal" the
/// equal test, "always" always, "less" less, and "lequal", "lessequal" or any
/// value the preprocessor does not know less-or-equal, the default.
pub proof fn law_z_test_values(lower: Seq<char>)
    ensures
        (z_test_of_lower(lower) == DepthTestMode::Equal) <==> lower == "equal"@,
        (z_test_of_lower(lower) == DepthTestMode::Always) <==> lower == "always"@,
        (z_test_of_lower(lower) == DepthTestMode::Less) <==> lower == "less"@,
        (z_test_of_lower(lower) == DepthTestMode::LessEqual) <==> !(lower == "equal"@ || lower == "always"@
            || lower == "less"@),
{
    reveal_strlit("lequal");
    reveal_strlit("lessequal");
    reveal_strlit("equal");
    reveal_strlit("always");
    reveal_strlit("less");
    assert("lequal"@.len() == 6 && "lessequal"@.len() == 9 && "equal"@.len() == 5);
    assert("always"@.len() == 6 && "less"@.len() == 4);
    assert("lequal"@[0] != "always"@[0]);
}

/// Each `Cull` value (lowercased) names its own cull mode: "front" front
/// faces, "off" and "disabled" none, "both" both, and "back" or any value the
/// preprocessor does not know back faces, the default.
pub proof fn law_cull_values(lower: Seq<char>)
    ensures
        (cull_of_lower(lower) == CullMode::Front) <==> lower == "front"@,
        (cull_of_lower(lower) == CullMode::Disabled) <==> (lower == "off"@ || lower == "disabled"@),
        (cull_of_lower(lower) == CullMode::Both) <==> lower == "both"@,
        (cull_of_lower(lower) == CullMode::Back) <==> !(lower == "front"@ || lower == "off"@ || lower
            == "disabled"@ || lower == "both"@),
{
    reveal_strlit("back");
    reveal_strlit("front");
    reveal_strlit("off");
    reveal_strlit("disabled");
    reveal_strlit("both");
    assert("back"@.len() == 4 && "front"@.len() == 5 && "off"@.len() == 3);
    assert("disabled"@.len() == 8 && "both"@.len() == 4);
    assert("back"@[1] != "both"@[1]);
}

/// Each `#shader` value (lowercased) names its own stage: "vertex" and "vert"
/// the vertex stage, "fragment", "frag" and "pixel" the fragment stage,
/// "compute" the compute stage; any other value names none.
pub proof fn law_shader_stage_values(lower: Seq<char>)
    ensures
        (shader_type_of(lower) == Some(ShaderParsingTarget::Vertex)) <==> (lower == "vertex"@ || lower == "vert"@),
        (shader_type_of(lower) == Some(ShaderParsingTarget::Fragment)) <==> (lower == "fragment"@ || lower
            == "frag"@ || lower == "pixel"@),
        (shader_type_of(lower) == Some(ShaderParsingTarget::Compute)) <==> lower == "compute"@,
{
    reveal_strlit("vertex");
    reveal_strlit("vert");
    reveal_strlit("fragment");
    reveal_strlit("frag");
    reveal_strlit("pixel");
    reveal_strlit("compute");
    assert("vertex"@.len() == 6 && "vert"@.len() == 4 && "fragment"@.len() == 8);
    assert("frag"@.len() == 4 && "pixel"@.len() == 5 && "compute"@.len() == 7);
    assert("vert"@[0] != "frag"@[0]);
}

/// A `Surface` value (lowercased) makes the surface transparent exactly when
/// it is "transparent"; any other value makes it opaque.
pub proof fn law_surface_values(lower: Seq<char>)
    ensures
        (surface_of_lower(lower) == SurfaceType::Transparent) <==> lower == "transparent"@,
        (surface_of_lower(lower) == SurfaceType::Opaque) <==> lower != "transparent"@,
{
}

/// A `ZWrite` line turns depth writes off exactly when its value is "off" in
/// any letter case; any other value, or a line that is no `ZWrite` command,
/// leaves them on.
pub proof fn law_z_write_values(line: Seq<char>)
    ensures
        !z_write_of(line) <==> (directive_value("ZWrite"@, line) matches Some(c) && eq_ignore_ascii_case(
            c,
            "off"@,
        )),
{
    reveal_strlit("off");
    reveal_strlit("on");
}

/// A top-level `ZTest` line (brace depth zero, no braces, no other command)
/// changes nothing but the depth test, which becomes the mode its value
/// names in any letter case: "equal" the equal test, "always" always, "less"
/// less, "lequal" or "lessequal" less-or-equal.
pub proof fn law_z_test_line(st: ParseState, line: Seq<char>, v: Seq<char>)
    requires
        st.curly == 0,
        !line.contains('{'),
        !line.contains('}'),
        !contains_seq(line, "#version"@),
        !contains_seq(line, "#shader"@),
        !contains_seq(line, "#include"@),
        !contains_seq(line, "ZWrite"@),
        contains_seq(line, "ZTest"@),
        directive_value("ZTest"@, line) == Some(v),
    ensures
        step(st, line) matches Some((s2, inc)) && inc is None && s2.target == st.target && s2.curly == 0
            && s2.vertex == st.vertex && s2.fragment == st.fragment && s2.compute == st.compute
            && s2.props.cull_mode == st.props.cull_mode && s2.props.surface_type == st.props.surface_type
            && s2.props.depth_writing_enabled == st.props.depth_writing_enabled
            && s2.props.shadow_casting == st.props.shadow_casting,
        lowercase_of(v) == "equal"@ ==> step(st, line).unwrap().0.props.depth_test_mode == DepthTestMode::Equal,
        lowercase_of(v) == "always"@ ==> step(st, line).unwrap().0.props.depth_test_mode == DepthTestMode::Always,
        lowercase_of(v) == "less"@ ==> step(st, line).unwrap().0.props.depth_test_mode == DepthTestMode::Less,
        (lowercase_of(v) == "lequal"@ || lowercase_of(v) == "lessequal"@) ==> step(st, line).unwrap().0.props.depth_test_mode
            == DepthTestMode::LessEqual,
{
    law_z_test_values(lowercase_of(v));
    reveal_strlit("lequal");
    reveal_strlit("lessequal");
    reveal_strlit("equal");
    reveal_strlit("always");
    reveal_strlit("less");
}

/// No preprocessor keyword occurs in `line`.
pub open spec fn plain_line(line: Seq<char>) -> bool {
    &&& !contains_seq(line, "#version"@)
    &&& !contains_seq(line, "#shader"@)
    &&& !contains_seq(line, "#include"@)
    &&& !contains_seq(line, "ZWrite"@)
    &&& !contains_seq(line, "ZTest"@)
    &&& !contains_seq(line, "Cull"@)
    &&& !contains_seq(line, "Surface"@)
}

/// A line with no preprocessor keyword is copied, with a newline, to the end
/// of the source of the stage being read and to no other; before the first
/// `#shader` line it is dropped. The stage and the render state stay as they
/// were, and the brace depth goes one up for a line with `{`, else one down
/// for a line with `}`.
pub proof fn law_plain_line(st: ParseState, line: Seq<char>)
    requires
        plain_line(line),
    ensures
        step(st, line) matches Some((s2, inc)) && inc is None && s2.target == st.target && s2.props == st.props
            && s2.curly == (if line.contains('{') {
            st.curly + 1
        } else if line.contains('}') {
            st.curly - 1
        } else {
            st.curly
        }) && s2.vertex == (if st.target == Some(ShaderParsingTarget::Vertex) {
            st.vertex + line + seq!['\n']
        } else {
            st.vertex
        }) && s2.fragment == (if st.target == Some(ShaderParsingTarget::Fragment) {
            st.fragment + line + seq!['\n']
        } else {
            st.fragment
        }) && s2.compute == (if st.target == Some(ShaderParsingTarget::Compute) {
            st.compute + line + seq!['\n']
        } else {
            st.compute
        }),
{
    assert(line.push('\n') =~= line + seq!['\n']);
    assert(st.vertex + line.push('\n') =~= st.vertex + line + seq!['\n']);
    assert(st.fragment + line.push('\n') =~= st.fragment + line + seq!['\n']);
    assert(st.compute + line.push('\n') =~= st.compute + line + seq!['\n']);
}

/// A render-state command inside a block (a line after which the brace depth
/// is not zero) is no command: it is copied to the stage being read like any
/// other line, and the render state stays as it was.
pub proof fn law_commands_only_at_top_level(st: ParseState, line: Seq<char>)
    requires
        next_curly(st.curly, line) != 0,
        !contains_seq(line, "#version"@),
        !contains_seq(line, "#shader"@),
        !contains_seq(line, "#include"@),
    ensures
        step(st, line) matches Some((s2, inc)) && inc is None && s2.props == st.props && s2.target == st.target
            && s2.vertex == (if st.target == Some(ShaderParsingTarget::Vertex) {
            st.vertex + line + seq!['\n']
        } else {
            st.vertex
        }) && s2.fragment == (if st.target == Some(ShaderParsingTarget::Fragment) {
            st.fragment + line + seq!['\n']
        } else {
            st.fragment
        }) && s2.compute == (if st.target == Some(ShaderParsingTarget::Compute) {
            st.compute + line + seq!['\n']
        } else {
            st.compute
        }),
{
    assert(st.vertex + line.push('\n') =~= st.vertex + line + seq!['\n']);
    assert(st.fragment + line.push('\n') =~= st.fragment + line + seq!['\n']);
    assert(st.compute + line.push('\n') =~= st.compute + line + seq!['\n']);
}

/// A `#shader` line switches to the stage its value names in any letter
/// case ("vertex"/"vert", "fragment"/"frag"/"pixel", "compute"; any other
/// value stops copying lines); it changes no source and no render state.
pub proof fn law_shader_line(st: ParseState, line: Seq<char>, v: Seq<char>)
    requires
        !contains_seq(line, "#version"@),
        contains_seq(line, "#shader"@),
        directive_value("#shader"@, line) == Some(v),
    ensures
        step(st, line) matches Some((s2, inc)) && inc is None && s2.props == st.props && s2.vertex == st.vertex
            && s2.fragment == st.fragment && s2.compute == st.compute,
        (lowercase_of(v) == "vertex"@ || lowercase_of(v) == "vert"@) ==> step(st, line).unwrap().0.target == Some(
            ShaderParsingTarget::Vertex,
        ),
        (lowercase_of(v) == "fragment"@ || lowercase_of(v) == "frag"@ || lowercase_of(v) == "pixel"@)
            ==> step(st, line).unwrap().0.target == Some(ShaderParsingTarget::Fragment),
        lowercase_of(v) == "compute"@ ==> step(st, line).unwrap().0.target == Some(ShaderParsingTarget::Compute),
        !(lowercase_of(v) == "vertex"@ || lowercase_of(v) == "vert"@ || lowercase_of(v) == "fragment"@
            || lowercase_of(v) == "frag"@ || lowercase_of(v) == "pixel"@ || lowercase_of(v) == "compute"@)
            ==> step(st, line).unwrap().0.target is None,
{
    law_shader_stage_values(lowercase_of(v));
}

/// An `#include` line while a stage is being read asks for the named file
/// and changes no source, stage or render state; its text is added only when
/// the caller hands it back.
pub proof fn law_include_line(st: ParseState, line: Seq<char>, v: Seq<char>)
    requires
        st.target is Some,
        !contains_seq(line, "#version"@),
        !contains_seq(line, "#shader"@),
        contains_seq(line, "#include"@),
        directive_value("#include"@, line) == Some(v),
    ensures
        step(st, line) matches Some((s2, inc)) && inc is Some && s2.props == st.props && s2.target == st.target
            && s2.vertex == st.vertex && s2.fragment == st.fragment && s2.compute == st.compute,
{
}

/// A `Cull` line at brace depth zero (no braces, no other command) changes
/// nothing but the cull mode, which becomes the one its value names in any
/// letter case.
pub proof fn law_cull_line(st: ParseState, line: Seq<char>, v: Seq<char>)
    requires
        st.curly == 0,
        !line.contains('{'),
        !line.contains('}'),
        !contains_seq(line, "#version"@),
        !contains_seq(line, "#shader"@),
        !contains_seq(line, "#include"@),
        !contains_seq(line, "ZWrite"@),
        !contains_seq(line, "ZTest"@),
        contains_seq(line, "Cull"@),
        directive_value("Cull"@, line) == Some(v),
    ensures
        step(st, line) matches Some((s2, inc)) && inc is None && s2.target == st.target && s2.curly == 0
            && s2.vertex == st.vertex && s2.fragment == st.fragment && s2.compute == st.compute
            && s2.props.depth_test_mode == st.props.depth_test_mode && s2.props.surface_type == st.props.surface_type
            && s2.props.depth_writing_enabled == st.props.depth_writing_enabled
            && s2.props.shadow_casting == st.props.shadow_casting,
        lowercase_of(v) == "front"@ ==> step(st, line).unwrap().0.props.cull_mode == CullMode::Front,
        lowercase_of(v) == "back"@ ==> step(st, line).unwrap().0.props.cull_mode == CullMode::Back,
        (lowercase_of(v) == "off"@ || lowercase_of(v) == "disabled"@) ==> step(st, line).unwrap().0.props.cull_mode
            == CullMode::Disabled,
        lowercase_of(v) == "both"@ ==> step(st, line).unwrap().0.props.cull_mode == CullMode::Both,
{
    law_cull_values(lowercase_of(v));
    reveal_strlit("back");
}

/// A `ZWrite` line at brace depth zero (no braces, no other command) changes
/// nothing but depth writing, which is off exactly when its value is "off" in
/// any letter case.
pub proof fn law_z_write_line(st: ParseState, line: Seq<char>, v: Seq<char>)
    requires
        st.curly == 0,
        !line.contains('{'),
        !line.contains('}'),
        !contains_seq(line, "#version"@),
        !contains_seq(line, "#shader"@),
        !contains_seq(line, "#include"@),
        contains_seq(line, "ZWrite"@),
        directive_value("ZWrite"@, line) == Some(v),
    ensures
        step(st, line) matches Some((s2, inc)) && inc is None && s2.target == st.target && s2.curly == 0
            && s2.vertex == st.vertex && s2.fragment == st.fragment && s2.compute == st.compute
            && s2.props.depth_test_mode == st.props.depth_test_mode && s2.props.surface_type == st.props.surface_type
            && s2.props.cull_mode == st.props.cull_mode && s2.props.shadow_casting == st.props.shadow_casting
            && (s2.props.depth_writing_enabled <==> !eq_ignore_ascii_case(v, "off"@)),
{
    law_z_write_values(line);
}

/// A `Surface` line at brace depth zero (no braces, no other command)
/// changes nothing but the surface type: transparent exactly when its value
/// is "transparent" in any letter case, else opaque.
pub proof fn law_surface_line(st: ParseState, line: Seq<char>, v: Seq<char>)
    requires
        st.curly == 0,
        !line.contains('{'),
        !line.contains('}'),
        !contains_seq(line, "#version"@),
        !contains_seq(line, "#shader"@),
        !contains_seq(line, "#include"@),
        !contains_seq(line, "ZWrite"@),
        !contains_seq(line, "ZTest"@),
        !contains_seq(line, "Cull"@),
        contains_seq(line, "Surface"@),
        directive_value("Surface"@, line) == Some(v),
    ensures
        step(st, line) matches Some((s2, inc)) && inc is None && s2.target == st.target && s2.curly == 0
            && s2.vertex == st.vertex && s2.fragment == st.fragment && s2.compute == st.compute
            && s2.props.depth_test_mode == st.props.depth_test_mode && s2.props.cull_mode == st.props.cull_mode
            && s2.props.depth_writing_enabled == st.props.depth_writing_enabled
            && s2.props.shadow_casting == st.props.shadow_casting
            && ((s2.props.surface_type == SurfaceType::Transparent) <==> lowercase_of(v) == "transparent"@)
            && (lowercase_of(v) != "transparent"@ ==> s2.props.surface_type == SurfaceType::Opaque),
{
    law_surface_values(lowercase_of(v));
}

} // verus!
