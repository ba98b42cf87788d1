//! Render-state commands for a material, cubemap side names, and the checks
//! that a set of cubemap face images passes before it is uploaded.
use vstd::prelude::*;

use crate::gl;
use crate::material_properties::{cull_mode_gl, default_material_properties, depth_test_gl, CullMode, DepthTestMode, MaterialProperties};
use crate::text::{chars_equal_str, chars_of, lowercase_of, to_lowercase_chars};

verus! {

/// The face culling command for a cull mode: `None` disables culling,
/// `Some(face)` enables it for `face`.
pub open spec fn cull_command(m: CullMode) -> Option<u32> {
    match m {
        CullMode::Disabled => None,
        _ => Some(cull_mode_gl(m)),
    }
}

/// The fixed-function state changes that make a material's properties current.
#[derive(Clone, Copy, PartialEq, Eq, Structural, Debug)]
pub struct RenderStateCommands {
    /// The depth function to set.
    pub depth_func: u32,
    /// Whether depth writes are on.
    pub depth_mask: bool,
    /// `None` to disable face culling, else the face to cull.
    pub cull_face: Option<u32>,
}

/// The culling command for a cull mode.
pub fn set_cull_mode(value: CullMode) -> (r: Option<u32>)
    ensures
        r == cull_command(value),
{
    match value {
        CullMode::Disabled => None,
        CullMode::Back => Some(gl::BACK),
        CullMode::Front => Some(gl::FRONT),
        CullMode::Both => Some(gl::FRONT_AND_BACK),
    }
}

/// The depth function for a depth test mode.
pub fn set_depth_test_mode(value: DepthTestMode) -> (r: u32)
    ensures
        r == depth_test_gl(value),
{
    value.to_gl_format()
}

/// The state changes for a material: its depth test, depth writes and culling.
pub fn apply_mat_props(mat_props: &MaterialProperties) -> (r: RenderStateCommands)
    ensures
        r.depth_func == depth_test_gl(mat_props.depth_test_mode),
        r.depth_mask == mat_props.depth_writing_enabled,
        r.cull_face == cull_command(mat_props.cull_mode),
{
    RenderStateCommands {
        depth_func: set_depth_test_mode(mat_props.depth_test_mode),
        depth_mask: mat_props.depth_writing_enabled,
        cull_face: set_cull_mode(mat_props.cull_mode),
    }
}

#[derive(Clone, Copy, PartialEq, Eq, Structural, Debug, Hash)]
pub enum CubemapSides {
    Right,
    Left,
    Top,
    Bottom,
    Front,
    Back,
}

/// The number of a side, `0` for `Right` up to `5` for `Back`.
pub open spec fn side_number(s: CubemapSides) -> u32 {
    match s {
        CubemapSides::Right => 0,
        CubemapSides::Left => 1,
        CubemapSides::Top => 2,
        CubemapSides::Bottom => 3,
        CubemapSides::Front => 4,
        CubemapSides::Back => 5,
    }
}

pub open spec fn side_of_number(v: u32) -> Option<CubemapSides> {
    if v == 0 {
        Some(CubemapSides::Right)
    } else if v == 1 {
        Some(CubemapSides::Left)
    } else if v == 2 {
        Some(CubemapSides::Top)
    } else if v == 3 {
        Some(CubemapSides::Bottom)
    } else if v == 4 {
        Some(CubemapSides::Front)
    } else if v == 5 {
        Some(CubemapSides::Back)
    } else {
        None
    }
}

/// The side that a lowercased file name stem names.
pub open spec fn side_of_lower(l: Seq<char>) -> Option<CubemapSides> {
    if l == "right"@ || l == "+x"@ {
        Some(CubemapSides::Right)
    } else if l == "left"@ || l == "-x"@ {
        Some(CubemapSides::Left)
    } else if l == "top"@ || l == "+y"@ {
        Some(CubemapSides::Top)
    } else if l == "bottom"@ || l == "-y"@ {
        Some(CubemapSides::Bottom)
    } else if l == "front"@ || l == "+z"@ {
        Some(CubemapSides::Front)
    } else if l == "back"@ || l == "-z"@ {
        Some(CubemapSides::Back)
    } else {
        None
    }
}

/// The side that a file name stem names, in any letter case.
pub open spec fn side_of_name(s: Seq<char>) -> Option<CubemapSides> {
    side_of_lower(lowercase_of(s))
}

impl CubemapSides {
    pub fn from_u32(val: u32) -> (r: Option<Self>)
        ensures
            r == side_of_number(val),
    {
        match val {
            0 => Some(CubemapSides::Right),
            1 => Some(CubemapSides::Left),
            2 => Some(CubemapSides::Top),
            3 => Some(CubemapSides::Bottom),
            4 => Some(CubemapSides::Front),
            5 => Some(CubemapSides::Back),
            _ => None,
        }
    }

    pub fn to_u32(&self) -> (r: u32)
        ensures
            r == side_number(*self),
    {
        match self {
            CubemapSides::Right => 0,
            CubemapSides::Left => 1,
            CubemapSides::Top => 2,
            CubemapSides::Bottom => 3,
            CubemapSides::Front => 4,
            CubemapSides::Back => 5,
        }
    }

    /// The side that an already lowercased name stands for.
    pub fn from_lowercase_chars(l: &[char]) -> (r: Option<Self>)
        ensures
            r == side_of_lower(l@),
    {
        if chars_equal_str(l, "right") || chars_equal_str(l, "+x") {
            Some(CubemapSides::Right)
        } else if chars_equal_str(l, "left") || chars_equal_str(l, "-x") {
            Some(CubemapSides::Left)
        } else if chars_equal_str(l, "top") || chars_equal_str(l, "+y") {
            Some(CubemapSides::Top)
        } else if chars_equal_str(l, "bottom") || chars_equal_str(l, "-y") {
            Some(CubemapSides::Bottom)
        } else if chars_equal_str(l, "front") || chars_equal_str(l, "+z") {
            Some(CubemapSides::Front)
        } else if chars_equal_str(l, "back") || chars_equal_str(l, "-z") {
            Some(CubemapSides::Back)
        } else {
            None
        }
    }

    /// The side that a name stands for, in any letter case.
    pub fn from_str(s: &str) -> (r: Option<Self>)
        ensures
            r == side_of_name(s@),
    {
        let low = to_lowercase_chars(chars_of(s).as_slice());
        CubemapSides::from_lowercase_chars(low.as_slice())
    }
}

/// The render state last made current, so that a draw only changes what differs.
pub struct RenderStateCache {
    current: MaterialProperties,
}

/// The state changes for a material (see `apply_mat_props`).
pub open spec fn state_commands(p: MaterialProperties) -> RenderStateCommands {
    RenderStateCommands {
        depth_func: depth_test_gl(p.depth_test_mode),
        depth_mask: p.depth_writing_enabled,
        cull_face: cull_command(p.cull_mode),
    }
}

/// The state changes that make `p` current where `current` is: none when
/// they are the same.
pub open spec fn state_change(current: MaterialProperties, p: MaterialProperties) -> Option<RenderStateCommands> {
    if p == current {
        None
    } else {
        Some(state_commands(p))
    }
}

impl RenderStateCache {
    pub closed spec fn spec_current(&self) -> MaterialProperties {
        self.current
    }

    /// A cache that holds the default render state, which the caller makes
    /// current when it starts using the cache.
    pub fn new() -> (c: Self)
        ensures
            c.spec_current() == default_material_properties(),
    {
        RenderStateCache { current: MaterialProperties::default_properties() }
    }

    /// The render state that is current.
    pub fn current(&self) -> (r: MaterialProperties)
        ensures
            r == self.spec_current(),
    {
        self.current
    }

    /// Makes `mat_props` current: the state changes to make, or none where it
    /// already is current.
    pub fn set_mat_props(&mut self, mat_props: &MaterialProperties) -> (r: Option<RenderStateCommands>)
        ensures
            final(self).spec_current() == *mat_props,
            r == state_change(old(self).spec_current(), *mat_props),
    {
        if *mat_props == self.current {
            return None;
        }
        self.current = *mat_props;
        Some(apply_mat_props(mat_props))
    }
}

/// Asking twice in a row for one render state changes the state at most
/// once: the second time it is already current.
pub proof fn law_render_state_set_twice(current: MaterialProperties, p: MaterialProperties)
    ensures
        state_change(p, p) is None,
        state_change(current, p) is None <==> current == p,
{
}

/// The size and channel count of a decoded cubemap face image.
#[derive(Clone, Copy, PartialEq, Eq, Structural, Debug)]
pub struct TextureData {
    pub width: i32,
    pub height: i32,
    pub channels: i32,
}

impl TextureData {
    pub fn zero() -> (t: Self)
        ensures
            t == (TextureData { width: 0, height: 0, channels: 0 }),
    {
        Self { width: 0, height: 0, channels: 0 }
    }

    /// Whether two images have the same size and channel count.
    pub fn texture_meta_data_cmp(&self, other: &Self) -> (b: bool)
        ensures
            b == (self.width == other.width && self.height == other.height && self.channels
                == other.channels),
    {
        self.width == other.width && self.height == other.height && self.channels == other.channels
    }
}

/// The index of the last file of `stems` that names side `side`, looking at
/// the files before `n`.
pub open spec fn last_file_for_side(stems: Seq<Seq<char>>, side: CubemapSides, n: int) -> Option<int>
    decreases n,
{
    if n <= 0 {
        None
    } else if side_of_name(stems[n - 1]) == Some(side) {
        Some(n - 1)
    } else {
        last_file_for_side(stems, side, n - 1)
    }
}

/// For each side number, the index of the file (by name stem) that the side
/// is loaded from: the last file whose stem names it, as later files replace
/// earlier ones.
pub fn cubemap_side_files(stems: &Vec<String>) -> (r: Vec<Option<usize>>)
    ensures
        r@.len() == 6,
        forall|k: int|
            0 <= k < 6 ==> (match #[trigger] r@[k] {
                Some(i) => last_file_for_side(
                    stems@.map_values(|s: String| s@),
                    side_of_number(k as u32)->0,
                    stems@.len() as int,
                ) == Some(i as int),
                None => last_file_for_side(
                    stems@.map_values(|s: String| s@),
                    side_of_number(k as u32)->0,
                    stems@.len() as int,
                ) is None,
            }),
{
    let ghost names = stems@.map_values(|s: String| s@);
    let mut r: Vec<Option<usize>> = Vec::new();
    let mut k: usize = 0;
    while k < 6
        invariant
            k <= 6,
            r@.len() == k,
            names == stems@.map_values(|s: String| s@),
            forall|j: int|
                0 <= j < k ==> (match #[trigger] r@[j] {
                    Some(i) => last_file_for_side(names, side_of_number(j as u32)->0, stems@.len() as int)
                        == Some(i as int),
                    None => last_file_for_side(names, side_of_number(j as u32)->0, stems@.len() as int)
                        is None,
                }),
        decreases 6 - k,
    {
        let side = match CubemapSides::from_u32(k as u32) {
            Some(s) => s,
            None => CubemapSides::Right,
        };
        let mut found: Option<usize> = None;
        let mut n: usize = 0;
        while n < stems.len()
            invariant
                n <= stems.len(),
                names == stems@.map_values(|s: String| s@),
                found matches Some(i) ==> last_file_for_side(names, side, n as int) == Some(i as int),
                found is None ==> last_file_for_side(names, side, n as int) is None,
            decreases stems.len() - n,
        {
            assert(names[n as int] == stems@[n as int]@);
            if CubemapSides::from_str(stems[n].as_str()) == Some(side) {
                found = Some(n);
            }
            n = n + 1;
        }
        r.push(found);
        k = k + 1;
    }
    r
}

/// Whether every image has the size and channel count of the first.
pub open spec fn same_meta_data(data: Seq<TextureData>) -> bool {
    forall|i: int| 0 <= i < data.len() ==> (#[trigger] data[i]).width == data[0].width
        && data[i].height == data[0].height && data[i].channels == data[0].channels
}

/// Whether all cubemap face images share one size and channel count.
pub fn all_same_meta_data(data: &[TextureData]) -> (b: bool)
    ensures
        b == same_meta_data(data@),
{
    let mut i: usize = 0;
    while i < data.len()
        invariant
            i <= data.len(),
            forall|k: int| 0 <= k < i ==> (#[trigger] data@[k]).width == data@[0].width
                && data@[k].height == data@[0].height && data@[k].channels == data@[0].channels,
        decreases data.len() - i,
    {
        if !data[i].texture_meta_data_cmp(&data[0]) {
            return false;
        }
        i = i + 1;
    }
    true
}

/// Each cubemap side has two names, its direction and its axis ("right"/"+x",
/// "left"/"-x", "top"/"+y", "bottom"/"-y", "front"/"+z", "back"/"-z"); a
/// lowercased stem names a side exactly when it is one of them, and then the
/// side that the name belongs to.
pub proof fn law_cubemap_side_names(l: Seq<char>)
    ensures
        (side_of_lower(l) == Some(CubemapSides::Right)) <==> (l == "right"@ || l == "+x"@),
        (side_of_lower(l) == Some(CubemapSides::Left)) <==> (l == "left"@ || l == "-x"@),
        (side_of_lower(l) == Some(CubemapSides::Top)) <==> (l == "top"@ || l == "+y"@),
        (side_of_lower(l) == Some(CubemapSides::Bottom)) <==> (l == "bottom"@ || l == "-y"@),
        (side_of_lower(l) == Some(CubemapSides::Front)) <==> (l == "front"@ || l == "+z"@),
        (side_of_lower(l) == Some(CubemapSides::Back)) <==> (l == "back"@ || l == "-z"@),
{
    reveal_strlit("right");
    reveal_strlit("+x");
    reveal_strlit("left");
    reveal_strlit("-x");
    reveal_strlit("top");
    reveal_strlit("+y");
    reveal_strlit("bottom");
    reveal_strlit("-y");
    reveal_strlit("front");
    reveal_strlit("+z");
    reveal_strlit("back");
    reveal_strlit("-z");
    assert("right"@.len() == 5 && "left"@.len() == 4 && "top"@.len() == 3);
    assert("bottom"@.len() == 6 && "front"@.len() == 5 && "back"@.len() == 4);
    assert("+x"@.len() == 2 && "-x"@.len() == 2 && "+y"@.len() == 2);
    assert("-y"@.len() == 2 && "+z"@.len() == 2 && "-z"@.len() == 2);
    assert("right"@[0] != "front"@[0]);
    assert("left"@[0] != "back"@[0]);
    assert("+x"@[0] != "-x"@[0] && "+x"@[1] != "+y"@[1] && "+x"@[1] != "+z"@[1]);
    assert("-x"@[1] != "-y"@[1] && "-x"@[1] != "-z"@[1] && "+x"@[0] != "-y"@[0]);
    assert("+x"@[0] != "-z"@[0] && "-x"@[0] != "+y"@[0] && "-x"@[0] != "+z"@[0]);
    assert("+y"@[0] != "-y"@[0] && "+y"@[1] != "+z"@[1] && "+y"@[0] != "-z"@[0]);
    assert("-y"@[0] != "+z"@[0] && "-y"@[1] != "-z"@[1] && "+z"@[0] != "-z"@[0]);
}

/// A file stem names the side that its lowercased form names, so in any
/// letter case "back" and "-z" both name the back side, and so on.
pub proof fn law_cubemap_stem_any_case(s: Seq<char>)
    ensures
        (lowercase_of(s) == "back"@ || lowercase_of(s) == "-z"@) ==> side_of_name(s) == Some(CubemapSides::Back),
        (lowercase_of(s) == "front"@ || lowercase_of(s) == "+z"@) ==> side_of_name(s) == Some(CubemapSides::Front),
        (lowercase_of(s) == "bottom"@ || lowercase_of(s) == "-y"@) ==> side_of_name(s) == Some(CubemapSides::Bottom),
        (lowercase_of(s) == "top"@ || lowercase_of(s) == "+y"@) ==> side_of_name(s) == Some(CubemapSides::Top),
        (lowercase_of(s) == "left"@ || lowercase_of(s) == "-x"@) ==> side_of_name(s) == Some(CubemapSides::Left),
        (lowercase_of(s) == "right"@ || lowercase_of(s) == "+x"@) ==> side_of_name(s) == Some(CubemapSides::Right),
{
    law_cubemap_side_names(lowercase_of(s));
}

/// The number of each side is its place in the order right, left, top,
/// bottom, front, back, and numbers from 6 on name no side.
pub proof fn law_cubemap_side_numbers(v: u32)
    ensures
        side_of_number(v) is Some <==> v < 6,
        side_of_number(v) matches Some(x) ==> side_number(x) == v,
        side_number(CubemapSides::Right) == 0,
        side_number(CubemapSides::Left) == 1,
        side_number(CubemapSides::Top) == 2,
        side_number(CubemapSides::Bottom) == 3,
        side_number(CubemapSides::Front) == 4,
        side_number(CubemapSides::Back) == 5,
{
}

/// The file a side is loaded from is the last of the files looked at whose
/// stem names the side: it names the side, and no later one does; where no
/// file names the side, there is none.
pub proof fn law_last_file_for_side(stems: Seq<Seq<char>>, side: CubemapSides, n: int)
    requires
        0 <= n <= stems.len(),
    ensures
        last_file_for_side(stems, side, n) matches Some(i) ==> 0 <= i < n && side_of_name(stems[i]) == Some(side)
            && forall|j: int| i < j < n ==> side_of_name(#[trigger] stems[j]) != Some(side),
        last_file_for_side(stems, side, n) is None ==> forall|j: int|
            0 <= j < n ==> side_of_name(#[trigger] stems[j]) != Some(side),
    decreases n,
{
    if n > 0 {
        law_last_file_for_side(stems, side, n - 1);
    }
}

/// The state changes for a material tell its depth test, depth writes and
/// cull mode apart: two materials get the same commands exactly when these
/// agree; culling is turned off exactly for the disabled cull mode.
pub proof fn law_render_commands_distinguish(p: MaterialProperties, q: MaterialProperties)
    ensures
        (state_commands(p) == state_commands(q)) <==> (p.depth_test_mode == q.depth_test_mode
            && p.depth_writing_enabled == q.depth_writing_enabled && p.cull_mode == q.cull_mode),
        state_commands(p).cull_face is None <==> p.cull_mode == CullMode::Disabled,
{
}

/// The face images agree exactly when every two of them have the same
/// width, height and channel count.
pub proof fn law_same_meta_data(data: Seq<TextureData>)
    ensures
        same_meta_data(data) <==> forall|i: int, j: int|
            0 <= i < data.len() && 0 <= j < data.len() ==> (#[trigger] data[i]).width == (#[trigger] data[j]).width
                && data[i].height == data[j].height && data[i].channels == data[j].channels,
{
    if forall|i: int, j: int|
        0 <= i < data.len() && 0 <= j < data.len() ==> (#[trigger] data[i]).width == (#[trigger] data[j]).width
            && data[i].height == data[j].height && data[i].channels == data[j].channels {
        assert forall|i: int| 0 <= i < data.len() implies (#[trigger] data[i]).width == data[0].width
            && data[i].height == data[0].height && data[i].channels == data[0].channels by {
            assert(data[0] == data[0]);
        }
    }
}

} // verus!
