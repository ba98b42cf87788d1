//! The order in which the nodes of a glTF document become scene content:
//! nodes with a mesh or a light, the ones with more children first; a node
//! already reached as another node's child is skipped.
use std::collections::HashSet;

use vstd::prelude::*;

use crate::text::{chars_equal_str, chars_of};
use crate::utility::{side_number, side_of_name, side_of_number, CubemapSides};

verus! {

broadcast use vstd::std_specs::hash::group_hash_axioms;

/// What the loader reads of a glTF node.
pub struct GltfNodeInfo {
    /// The node's index in the document.
    pub index: usize,
    /// The document indices of its children, in order.
    pub children: Vec<usize>,
    /// Whether it has a mesh with at least one primitive.
    pub has_mesh_with_primitives: bool,
    /// Whether it has a punctual light.
    pub has_light: bool,
    /// Its name (empty when it has none).
    pub name: String,
}

pub struct NodeInfoView {
    pub index: usize,
    pub children: Seq<usize>,
    pub has_mesh: bool,
    pub has_light: bool,
    pub name: Seq<char>,
}

impl GltfNodeInfo {
    pub open spec fn info_view(&self) -> NodeInfoView {
        NodeInfoView {
            index: self.index,
            children: self.children@,
            has_mesh: self.has_mesh_with_primitives,
            has_light: self.has_light,
            name: self.name@,
        }
    }
}

/// What to make of a node.
pub enum NodeLoadStep {
    /// A light, read from the node with this index.
    Light(usize),
    /// The cubemap, read from the children of the node with this index.
    Cubemap(usize),
    /// A root node with a mesh, and its children (by index), each a node with a mesh.
    MeshNode(usize, Vec<usize>),
}

pub enum StepView {
    Light(usize),
    Cubemap(usize),
    MeshNode(usize, Seq<usize>),
}

impl NodeLoadStep {
    pub open spec fn step_view(&self) -> StepView {
        match self {
            NodeLoadStep::Light(i) => StepView::Light(*i),
            NodeLoadStep::Cubemap(i) => StepView::Cubemap(*i),
            NodeLoadStep::MeshNode(i, c) => StepView::MeshNode(*i, c@),
        }
    }
}

/// The name of the node whose children hold the cubemap's faces.
pub open spec fn cubemap_container_name() -> Seq<char> {
    "cubemap_texture_set"@
}

/// The nodes that the loader looks at: those with a mesh or a light.
pub open spec fn loadable(ns: Seq<NodeInfoView>) -> Seq<NodeInfoView> {
    ns.filter(|n: NodeInfoView| n.has_mesh || n.has_light)
}

/// The first position at or after `i` in `sorted` whose node has fewer
/// children than `x`.
pub open spec fn insert_pos(sorted: Seq<NodeInfoView>, x: NodeInfoView, i: int) -> int
    decreases sorted.len() - i,
{
    if i < 0 || i >= sorted.len() {
        sorted.len() as int
    } else if sorted[i].children.len() < x.children.len() {
        i
    } else {
        insert_pos(sorted, x, i + 1)
    }
}

/// The nodes sorted by child count, most first; nodes with equal counts keep
/// their order.
pub open spec fn sort_by_children(ns: Seq<NodeInfoView>) -> Seq<NodeInfoView>
    decreases ns.len(),
{
    if ns.len() == 0 {
        seq![]
    } else {
        let s = sort_by_children(ns.drop_last());
        s.insert(insert_pos(s, ns.last(), 0), ns.last())
    }
}

/// One node of the sorted list: skipped where already reached, else a light,
/// the cubemap container (whose children count as reached), or a root mesh
/// node (whose children count as reached).
pub open spec fn plan_step(st: (Set<usize>, Seq<StepView>), n: NodeInfoView) -> (Set<usize>, Seq<StepView>) {
    if st.0.contains(n.index) {
        st
    } else {
        let d = st.0.insert(n.index);
        if n.has_light {
            (d, st.1.push(StepView::Light(n.index)))
        } else if n.name == cubemap_container_name() {
            (d + n.children.to_set(), st.1.push(StepView::Cubemap(n.index)))
        } else {
            (d + n.children.to_set(), st.1.push(StepView::MeshNode(n.index, n.children)))
        }
    }
}

pub open spec fn plan_fold(ns: Seq<NodeInfoView>) -> (Set<usize>, Seq<StepView>)
    decreases ns.len(),
{
    if ns.len() == 0 {
        (Set::empty(), seq![])
    } else {
        plan_step(plan_fold(ns.drop_last()), ns.last())
    }
}

/// The steps that load a document's nodes.
pub open spec fn scene_plan(ns: Seq<NodeInfoView>) -> Seq<StepView> {
    plan_fold(sort_by_children(loadable(ns))).1
}

/// A list of nodes is sorted by child count, most first.
pub open spec fn sorted_desc(s: Seq<NodeInfoView>) -> bool {
    forall|i: int, j: int| 0 <= i < j < s.len() ==> s[i].children.len() >= s[j].children.len()
}

proof fn lemma_insert_pos_bounds(sorted: Seq<NodeInfoView>, x: NodeInfoView, i: int)
    requires
        0 <= i <= sorted.len(),
    ensures
        i <= insert_pos(sorted, x, i) <= sorted.len(),
        forall|k: int| i <= k < insert_pos(sorted, x, i) ==> sorted[k].children.len() >= x.children.len(),
        insert_pos(sorted, x, i) < sorted.len() ==> sorted[insert_pos(sorted, x, i)].children.len() < x.children.len(),
    decreases sorted.len() - i,
{
    if i < sorted.len() && sorted[i].children.len() >= x.children.len() {
        lemma_insert_pos_bounds(sorted, x, i + 1);
    }
}

/// Sorting by child count gives a list sorted by child count, most first,
/// holding the same nodes.
pub proof fn law_sort_by_children_sorted(ns: Seq<NodeInfoView>)
    ensures
        sorted_desc(sort_by_children(ns)),
        sort_by_children(ns).to_multiset() == ns.to_multiset(),
    decreases ns.len(),
{
    if ns.len() > 0 {
        let s = sort_by_children(ns.drop_last());
        let x = ns.last();
        law_sort_by_children_sorted(ns.drop_last());
        lemma_insert_pos_bounds(s, x, 0);
        let p = insert_pos(s, x, 0);
        let r = s.insert(p, x);
        assert forall|i: int, j: int| 0 <= i < j < r.len() implies r[i].children.len() >= r[j].children.len() by {
            if i < p && j < p {
                assert(r[i] == s[i] && r[j] == s[j]);
            } else if i < p && j == p {
            } else if i < p {
                assert(r[i] == s[i] && r[j] == s[j - 1]);
            } else if i == p {
                assert(r[j] == s[j - 1]);
                if p < s.len() {
                    assert(s[p].children.len() >= s[j - 1].children.len());
                }
            } else {
                assert(r[i] == s[i - 1] && r[j] == s[j - 1]);
            }
        }
        vstd::seq_lib::to_multiset_insert(s, p, x);
        assert(ns =~= ns.drop_last().push(x));
        vstd::seq_lib::to_multiset_build(ns.drop_last(), x);
    } else {
        assert(ns =~= seq![]);
    }
}

/// The node views of a node list.
pub open spec fn infos(nodes: Seq<GltfNodeInfo>) -> Seq<NodeInfoView> {
    nodes.map_values(|n: GltfNodeInfo| n.info_view())
}

/// The step views of a step list.
pub open spec fn step_views(steps: Seq<NodeLoadStep>) -> Seq<StepView> {
    steps.map_values(|s: NodeLoadStep| s.step_view())
}

fn copy_usizes(v: &Vec<usize>) -> (r: Vec<usize>)
    ensures
        r@ == v@,
{
    let mut r: Vec<usize> = Vec::new();
    let mut i: usize = 0;
    while i < v.len()
        invariant
            i <= v.len(),
            r@ == v@.take(i as int),
        decreases v.len() - i,
    {
        r.push(v[i]);
        assert(v@.take(i + 1) =~= v@.take(i as int).push(v@[i as int]));
        i = i + 1;
    }
    assert(v@.take(v.len() as int) =~= v@);
    r
}

/// The order in which a document's nodes become scene content (see `scene_plan`).
pub fn plan_scene_load(nodes: &[GltfNodeInfo]) -> (steps: Vec<NodeLoadStep>)
    ensures
        step_views(steps@) == scene_plan(infos(nodes@)),
{
    let ghost ns = infos(nodes@);
    // the nodes with a mesh or a light, in document order
    let mut sel: Vec<usize> = Vec::new();
    let mut k: usize = 0;
    proof {
        reveal(Seq::filter);
    }
    assert(ns.take(0) =~= seq![]);
    assert(sel@.map_values(|i: usize| ns[i as int]) =~= seq![]);
    while k < nodes.len()
        invariant
            k <= nodes.len(),
            ns == infos(nodes@),
            forall|j: int| 0 <= j < sel@.len() ==> (#[trigger] sel@[j]) < nodes.len(),
            sel@.map_values(|i: usize| ns[i as int]) == loadable(ns.take(k as int)),
        decreases nodes.len() - k,
    {
        proof {
            reveal(Seq::filter);
        }
        assert(ns.take(k + 1).drop_last() =~= ns.take(k as int));
        assert(ns[k as int] == nodes@[k as int].info_view());
        let ghost before = sel@;
        if nodes[k].has_mesh_with_primitives || nodes[k].has_light {
            sel.push(k);
            assert(sel@.map_values(|i: usize| ns[i as int]) =~= before.map_values(|i: usize| ns[i as int]).push(ns[k as int]));
        }
        k = k + 1;
    }
    assert(ns.take(nodes.len() as int) =~= ns);
    let ghost lv = loadable(ns);
    // stable insertion sort by child count, most first
    let mut sorted: Vec<usize> = Vec::new();
    let mut m: usize = 0;
    assert(lv.take(0) =~= seq![]);
    assert(sorted@.map_values(|i: usize| ns[i as int]) =~= seq![]);
    while m < sel.len()
        invariant
            m <= sel.len(),
            ns == infos(nodes@),
            lv == loadable(ns),
            sel@.map_values(|i: usize| ns[i as int]) == lv,
            forall|j: int| 0 <= j < sel@.len() ==> (#[trigger] sel@[j]) < nodes.len(),
            forall|j: int| 0 <= j < sorted@.len() ==> (#[trigger] sorted@[j]) < nodes.len(),
            sorted@.map_values(|i: usize| ns[i as int]) == sort_by_children(lv.take(m as int)),
        decreases sel.len() - m,
    {
        let x = sel[m];
        let ghost sv = sorted@.map_values(|i: usize| ns[i as int]);
        let ghost xv = ns[x as int];
        assert(xv == lv[m as int]);
        let xc = nodes[x].children.len();
        assert(xc == xv.children.len());
        let mut p: usize = 0;
        while p < sorted.len() && nodes[sorted[p]].children.len() >= xc
            invariant
                p <= sorted.len(),
                ns == infos(nodes@),
                xc == xv.children.len(),
                sv == sorted@.map_values(|i: usize| ns[i as int]),
                forall|j: int| 0 <= j < sorted@.len() ==> (#[trigger] sorted@[j]) < nodes.len(),
                insert_pos(sv, xv, 0) == insert_pos(sv, xv, p as int),
            decreases sorted.len() - p,
        {
            assert(sv[p as int] == nodes@[sorted@[p as int] as int].info_view());
            p = p + 1;
        }
        if p < sorted.len() {
            assert(sv[p as int] == nodes@[sorted@[p as int] as int].info_view());
        }
        assert(insert_pos(sv, xv, p as int) == p);
        sorted.insert(p, x);
        assert(sorted@.map_values(|i: usize| ns[i as int]) =~= sv.insert(p as int, xv));
        assert(lv.take(m + 1).drop_last() =~= lv.take(m as int));
        assert(lv.take(m + 1).last() == xv);
        m = m + 1;
    }
    assert(lv.take(sel.len() as int) =~= lv);
    let ghost srt = sort_by_children(lv);
    // the steps
    let mut discovered: HashSet<usize> = HashSet::new();
    let mut steps: Vec<NodeLoadStep> = Vec::new();
    let mut q: usize = 0;
    assert(srt.take(0) =~= seq![]);
    assert(step_views(steps@) =~= seq![]);
    while q < sorted.len()
        invariant
            q <= sorted.len(),
            ns == infos(nodes@),
            srt == sorted@.map_values(|i: usize| ns[i as int]),
            forall|j: int| 0 <= j < sorted@.len() ==> (#[trigger] sorted@[j]) < nodes.len(),
            (discovered@, step_views(steps@)) == plan_fold(srt.take(q as int)),
        decreases sorted.len() - q,
    {
        let n = &nodes[sorted[q]];
        let ghost nv = srt[q as int];
        assert(nv == n.info_view());
        assert(srt.take(q + 1).drop_last() =~= srt.take(q as int));
        assert(srt.take(q + 1).last() == nv);
        if !discovered.contains(&n.index) {
            let ghost d0 = discovered@;
            discovered.insert(n.index);
            let ghost before = steps@;
            if n.has_light {
                steps.push(NodeLoadStep::Light(n.index));
                assert(step_views(steps@) =~= step_views(before).push(StepView::Light(n.index)));
            } else {
                let name = chars_of(n.name.as_str());
                let is_cubemap = chars_equal_str(name.as_slice(), "cubemap_texture_set");
                let mut c: usize = 0;
                let ghost d1 = discovered@;
                assert(n.children@.take(0).to_set() =~= Set::<usize>::empty());
                while c < n.children.len()
                    invariant
                        c <= n.children.len(),
                        discovered@ == d1 + n.children@.take(c as int).to_set(),
                    decreases n.children.len() - c,
                {
                    discovered.insert(n.children[c]);
                    assert(n.children@.take(c + 1).to_set() =~= n.children@.take(c as int).to_set().insert(n.children@[c as int])) by {
                        assert(n.children@.take(c + 1) =~= n.children@.take(c as int) + seq![n.children@[c as int]]);
                        Seq::<usize>::lemma_to_set_insert_commutes(n.children@.take(c as int), n.children@[c as int]);
                    }
                    c = c + 1;
                }
                assert(n.children@.take(n.children.len() as int) =~= n.children@);
                if is_cubemap {
                    steps.push(NodeLoadStep::Cubemap(n.index));
                    assert(step_views(steps@) =~= step_views(before).push(StepView::Cubemap(n.index)));
                } else {
                    let children = copy_usizes(&n.children);
                    steps.push(NodeLoadStep::MeshNode(n.index, children));
                    assert(step_views(steps@) =~= step_views(before).push(StepView::MeshNode(n.index, n.children@)));
                }
            }
        }
        q = q + 1;
    }
    assert(srt.take(sorted.len() as int) =~= srt);
    steps
}

/// The pixel formats of a decoded glTF image.
#[derive(Clone, Copy, PartialEq, Eq, Structural, Debug)]
pub enum ImageFormat {
    R8,
    R8G8,
    R8G8B8,
    R8G8B8A8,
    R16,
    R16G16,
    R16G16B16,
    R16G16B16A16,
    R32G32B32FLOAT,
    R32G32B32A32FLOAT,
}

/// The format and size of a decoded glTF image.
#[derive(Clone, Copy, PartialEq, Eq, Structural, Debug)]
pub struct ImageInfo {
    pub format: ImageFormat,
    pub width: u32,
    pub height: u32,
}

/// A child of the cubemap container node that has a mesh with a primitive:
/// the name of its last primitive's material (empty when it has none) and the
/// image of that material's base color texture, if it has one.
pub struct CubemapFaceSource {
    pub material_name: String,
    pub image: Option<usize>,
}

pub struct FaceView {
    pub material_name: Seq<char>,
    pub image: Option<usize>,
}

pub open spec fn face_views(fs: Seq<CubemapFaceSource>) -> Seq<FaceView> {
    fs.map_values(|f: CubemapFaceSource| FaceView { material_name: f.material_name@, image: f.image })
}

/// How the cubemap is made: the size and channel count of its faces, and
/// the images of its faces in the order left, right, top, bottom, front, back.
#[derive(Clone, Copy, Debug)]
pub struct CubemapPlan {
    pub width: u32,
    pub height: u32,
    pub channels: u32,
    pub images: [usize; 6],
}

/// Why the cubemap cannot be made.
#[derive(Clone, Copy, PartialEq, Eq, Structural, Debug)]
pub enum CubemapPlanError {
    /// Fewer than six sides have a face; the number that have one.
    MissingFaces(usize),
    /// The faces differ in format or size.
    DifferentMetaData,
    /// The faces' format has no channel count that the cubemap takes.
    UnsupportedFormat(ImageFormat),
}

/// The image that side `side` takes from the first `n` faces: that of the last
/// face with an image whose material names the side, as later faces replace
/// earlier ones.
pub open spec fn face_image(faces: Seq<FaceView>, side: CubemapSides, n: int) -> Option<usize>
    decreases n,
{
    if n <= 0 {
        None
    } else if faces[n - 1].image is Some && side_of_name(faces[n - 1].material_name) == Some(side) {
        faces[n - 1].image
    } else {
        face_image(faces, side, n - 1)
    }
}

/// The image of the side with number `k`.
pub open spec fn side_image(faces: Seq<FaceView>, k: int) -> Option<usize> {
    face_image(faces, side_of_number(k as u32)->0, faces.len() as int)
}

/// How many of the sides with numbers below `k` have an image.
pub open spec fn sides_found(faces: Seq<FaceView>, k: int) -> nat
    decreases k,
{
    if k <= 0 {
        0
    } else {
        sides_found(faces, k - 1) + if side_image(faces, k - 1) is Some { 1nat } else { 0nat }
    }
}

/// The channel count of a format that a cubemap takes.
pub open spec fn format_channels(f: ImageFormat) -> Option<u32> {
    match f {
        ImageFormat::R8 => Some(1u32),
        ImageFormat::R8G8 => Some(2u32),
        ImageFormat::R8G8B8 => Some(3u32),
        ImageFormat::R8G8B8A8 => Some(4u32),
        _ => None,
    }
}

/// Whether every side's image has the format and size of the left side's.
pub open spec fn faces_match_left(faces: Seq<FaceView>, images: Seq<ImageInfo>) -> bool {
    let left = images[side_image(faces, 1)->0 as int];
    forall|k: int|
        0 <= k < 6 ==> {
            let im = images[(#[trigger] side_image(faces, k))->0 as int];
            im.format == left.format && im.height == left.height && im.width == left.width
        }
}

/// The cubemap made from the container's faces, or why none is.
pub open spec fn cubemap_plan(faces: Seq<FaceView>, images: Seq<ImageInfo>) -> Result<CubemapPlan, CubemapPlanError> {
    let found = sides_found(faces, 6);
    if found != 6 {
        Err(CubemapPlanError::MissingFaces(found as usize))
    } else if !faces_match_left(faces, images) {
        Err(CubemapPlanError::DifferentMetaData)
    } else {
        let left = images[side_image(faces, 1)->0 as int];
        match format_channels(left.format) {
            None => Err(CubemapPlanError::UnsupportedFormat(left.format)),
            Some(c) => Ok(
                CubemapPlan {
                    width: left.width,
                    height: left.height,
                    channels: c,
                    images: [
                        side_image(faces, 1)->0,
                        side_image(faces, 0)->0,
                        side_image(faces, 2)->0,
                        side_image(faces, 3)->0,
                        side_image(faces, 4)->0,
                        side_image(faces, 5)->0,
                    ],
                },
            ),
        }
    }
}

proof fn lemma_sides_found_bound(faces: Seq<FaceView>, k: int)
    requires
        0 <= k,
    ensures
        sides_found(faces, k) <= k,
        sides_found(faces, k) == k <==> forall|j: int| 0 <= j < k ==> (#[trigger] side_image(faces, j)) is Some,
    decreases k,
{
    if k > 0 {
        lemma_sides_found_bound(faces, k - 1);
    }
}

/// The image that the side with number `k` takes from the faces.
fn find_side_image(faces: &[CubemapFaceSource], sides: &Vec<Option<CubemapSides>>, k: u32) -> (r: Option<usize>)
    requires
        k < 6,
        sides@.len() == faces@.len(),
        forall|i: int| 0 <= i < faces@.len() ==> #[trigger] sides@[i] == side_of_name(faces@[i].material_name@),
    ensures
        r == side_image(face_views(faces@), k as int),
{
    let ghost fv = face_views(faces@);
    let side = match CubemapSides::from_u32(k) {
        Some(s) => s,
        None => CubemapSides::Right,
    };
    let mut found: Option<usize> = None;
    let mut n: usize = 0;
    while n < faces.len()
        invariant
            n <= faces.len(),
            fv == face_views(faces@),
            side_of_number(k) == Some(side),
            sides@.len() == faces@.len(),
            forall|i: int| 0 <= i < faces@.len() ==> #[trigger] sides@[i] == side_of_name(faces@[i].material_name@),
            found == face_image(fv, side, n as int),
        decreases faces.len() - n,
    {
        assert(fv[n as int] == FaceView { material_name: faces@[n as int].material_name@, image: faces@[n as int].image });
        let hit = match (faces[n].image, sides[n]) {
            (Some(_), Some(s)) => s.to_u32() == side.to_u32(),
            _ => false,
        };
        if hit {
            proof {
                let s = sides@[n as int]->0;
                assert(side_number(s) == side_number(side));
                assert(s == side) by {
                    assert(side_of_number(side_number(s)) == Some(s));
                    assert(side_of_number(side_number(side)) == Some(side));
                }
            }
            found = faces[n].image;
        } else {
            proof {
                if faces@[n as int].image is Some && sides@[n as int] is Some {
                    let s = sides@[n as int]->0;
                    assert(side_of_number(side_number(s)) == Some(s));
                    assert(side_of_number(side_number(side)) == Some(side));
                }
            }
        }
        n = n + 1;
    }
    assert(fv.len() == faces@.len());
    found
}

/// The channel count of a format that a cubemap takes.
pub fn channels_of_format(f: ImageFormat) -> (r: Option<u32>)
    ensures
        r == format_channels(f),
{
    match f {
        ImageFormat::R8 => Some(1),
        ImageFormat::R8G8 => Some(2),
        ImageFormat::R8G8B8 => Some(3),
        ImageFormat::R8G8B8A8 => Some(4),
        _ => None,
    }
}

/// Decides how the cubemap of a glTF scene is made from the children of its
/// container node: each side takes the image of the last face whose material
/// names it; all six sides need one, all of the left face's format and size,
/// with one to four 8-bit channels.
pub fn plan_gltf_cubemap(faces: &[CubemapFaceSource], images: &[ImageInfo]) -> (r: Result<CubemapPlan, CubemapPlanError>)
    requires
        forall|i: int| 0 <= i < faces@.len() ==> ((#[trigger] faces@[i]).image matches Some(m) ==> m < images@.len()),
    ensures
        r == cubemap_plan(face_views(faces@), images@),
{
    let ghost fv = face_views(faces@);
    let mut sides: Vec<Option<CubemapSides>> = Vec::new();
    let mut i: usize = 0;
    while i < faces.len()
        invariant
            i <= faces.len(),
            sides@.len() == i,
            forall|j: int| 0 <= j < i ==> #[trigger] sides@[j] == side_of_name(faces@[j].material_name@),
        decreases faces.len() - i,
    {
        sides.push(CubemapSides::from_str(faces[i].material_name.as_str()));
        i = i + 1;
    }
    let mut found: Vec<usize> = Vec::new();
    let mut missing: usize = 0;
    let mut k: u32 = 0;
    while k < 6
        invariant
            k <= 6,
            fv == face_views(faces@),
            sides@.len() == faces@.len(),
            forall|j: int| 0 <= j < faces@.len() ==> #[trigger] sides@[j] == side_of_name(faces@[j].material_name@),
            forall|j: int| 0 <= j < faces@.len() ==> ((#[trigger] faces@[j]).image matches Some(m) ==> m < images@.len()),
            missing == k - sides_found(fv, k as int),
            found@.len() == sides_found(fv, k as int),
        decreases 6 - k,
    {
        proof { lemma_sides_found_bound(fv, k as int); }
        match find_side_image(faces, &sides, k) {
            Some(m) => found.push(m),
            None => missing = missing + 1,
        }
        k = k + 1;
    }
    proof { lemma_sides_found_bound(fv, 6); }
    if missing != 0 {
        return Err(CubemapPlanError::MissingFaces(found.len()));
    }
    let mut imgs: Vec<usize> = Vec::new();
    let mut k: u32 = 0;
    while k < 6
        invariant
            k <= 6,
            fv == face_views(faces@),
            sides@.len() == faces@.len(),
            forall|j: int| 0 <= j < faces@.len() ==> #[trigger] sides@[j] == side_of_name(faces@[j].material_name@),
            forall|j: int| 0 <= j < 6 ==> (#[trigger] side_image(fv, j)) is Some,
            imgs@.len() == k,
            forall|j: int| 0 <= j < k ==> Some(#[trigger] imgs@[j]) == side_image(fv, j),
        decreases 6 - k,
    {
        let m = find_side_image(faces, &sides, k);
        assert(side_image(fv, k as int) is Some);
        imgs.push(m.unwrap());
        k = k + 1;
    }
    proof {
        assert forall|j: int| 0 <= j < 6 implies (#[trigger] side_image(fv, j))->0 < images@.len() by {
            let m = side_image(fv, j)->0;
            lemma_face_image_from_faces(fv, side_of_number(j as u32)->0, fv.len() as int);
            let q = choose|q: int| 0 <= q < fv.len() && fv[q].image == Some(m);
            assert(faces@[q].image == Some(m));
        }
    }
    let left = images[imgs[1]];
    let mut same = true;
    let mut k: usize = 0;
    while k < 6
        invariant
            k <= 6,
            imgs@.len() == 6,
            forall|j: int| 0 <= j < 6 ==> Some(#[trigger] imgs@[j]) == side_image(fv, j),
            forall|j: int| 0 <= j < 6 ==> (#[trigger] side_image(fv, j))->0 < images@.len(),
            left == images@[side_image(fv, 1)->0 as int],
            same == forall|j: int| 0 <= j < k ==> {
                let im = images@[(#[trigger] side_image(fv, j))->0 as int];
                im.format == left.format && im.height == left.height && im.width == left.width
            },
        decreases 6 - k,
    {
        assert(side_image(fv, k as int)->0 == imgs@[k as int]);
        let im = images[imgs[k]];
        if !(im.format == left.format && im.height == left.height && im.width == left.width) {
            same = false;
        }
        k = k + 1;
    }
    if !same {
        return Err(CubemapPlanError::DifferentMetaData);
    }
    match channels_of_format(left.format) {
        None => Err(CubemapPlanError::UnsupportedFormat(left.format)),
        Some(c) => {
            assert(side_image(fv, 0)->0 == imgs@[0]);
            assert(side_image(fv, 1)->0 == imgs@[1]);
            assert(side_image(fv, 2)->0 == imgs@[2]);
            assert(side_image(fv, 3)->0 == imgs@[3]);
            assert(side_image(fv, 4)->0 == imgs@[4]);
            assert(side_image(fv, 5)->0 == imgs@[5]);
            Ok(
                CubemapPlan {
                    width: left.width,
                    height: left.height,
                    channels: c,
                    images: [imgs[1], imgs[0], imgs[2], imgs[3], imgs[4], imgs[5]],
                },
            )
        },
    }
}

proof fn lemma_face_image_from_faces(faces: Seq<FaceView>, side: CubemapSides, n: int)
    requires
        0 <= n <= faces.len(),
    ensures
        face_image(faces, side, n) matches Some(m) ==> exists|q: int| 0 <= q < n && faces[q].image == Some(m),
    decreases n,
{
    if n > 0 {
        lemma_face_image_from_faces(faces, side, n - 1);
    }
}

/// The node that a load step reads.
pub open spec fn step_index(s: StepView) -> usize {
    match s {
        StepView::Light(i) => i,
        StepView::Cubemap(i) => i,
        StepView::MeshNode(i, _) => i,
    }
}

/// The children that a mesh-node step loads with its node (none for other steps).
pub open spec fn mesh_children(s: StepView) -> Seq<usize> {
    match s {
        StepView::MeshNode(_, c) => c,
        _ => seq![],
    }
}

/// `s` is the step that node `n` becomes: a light for a node with a light,
/// else the cubemap for the node named as the cubemap's container, else a
/// mesh node with the node's children.
pub open spec fn node_gives_step(n: NodeInfoView, s: StepView) -> bool {
    &&& step_index(s) == n.index
    &&& match s {
        StepView::Light(_) => n.has_light,
        StepView::Cubemap(_) => !n.has_light && n.name == cubemap_container_name(),
        StepView::MeshNode(_, c) => !n.has_light && n.name != cubemap_container_name() && c == n.children,
    }
}

/// Some node of `l` becomes the step `s`.
pub open spec fn has_source(l: Seq<NodeInfoView>, s: StepView) -> bool {
    exists|j: int| 0 <= j < l.len() && node_gives_step(#[trigger] l[j], s)
}

/// Node index `x` is read by one of `steps`, or is a child of a node of `l`
/// that became a cubemap or mesh-node step.
pub open spec fn covered(l: Seq<NodeInfoView>, steps: Seq<StepView>, x: usize) -> bool {
    ||| exists|k: int| 0 <= k < steps.len() && step_index(#[trigger] steps[k]) == x
    ||| exists|j: int, k: int|
        0 <= j < l.len() && 0 <= k < steps.len() && node_gives_step(#[trigger] l[j], #[trigger] steps[k])
            && !(steps[k] is Light) && l[j].children.contains(x)
}

proof fn lemma_plan_fold(l: Seq<NodeInfoView>)
    ensures
        forall|k: int| 0 <= k < plan_fold(l).1.len() ==> plan_fold(l).0.contains(step_index(#[trigger] plan_fold(l).1[k])),
        forall|k: int, m: int|
            0 <= k < m < plan_fold(l).1.len() ==> step_index(#[trigger] plan_fold(l).1[k]) != step_index(
                #[trigger] plan_fold(l).1[m],
            ),
        forall|k: int, x: usize|
            0 <= k < plan_fold(l).1.len() && #[trigger] mesh_children(plan_fold(l).1[k]).contains(x)
                ==> plan_fold(l).0.contains(x),
        forall|k: int, m: int|
            0 <= k < m < plan_fold(l).1.len() ==> !mesh_children(#[trigger] plan_fold(l).1[k]).contains(
                step_index(#[trigger] plan_fold(l).1[m]),
            ),
        forall|k: int| 0 <= k < plan_fold(l).1.len() ==> has_source(l, #[trigger] plan_fold(l).1[k]),
        forall|j: int| 0 <= j < l.len() ==> plan_fold(l).0.contains(#[trigger] l[j].index),
        forall|x: usize| #[trigger] plan_fold(l).0.contains(x) ==> covered(l, plan_fold(l).1, x),
    decreases l.len(),
{
    if l.len() == 0 {
        return;
    }
    let prev = l.drop_last();
    let n = l.last();
    lemma_plan_fold(prev);
    let d0 = plan_fold(prev).0;
    let s0 = plan_fold(prev).1;
    let d = plan_fold(l).0;
    let steps = plan_fold(l).1;
    assert(plan_fold(l) == plan_step((d0, s0), n));
    assert forall|j: int| 0 <= j < prev.len() implies l[j] == #[trigger] prev[j] by {}
    if d0.contains(n.index) {
        assert(d == d0 && steps == s0);
        assert forall|k: int| 0 <= k < steps.len() implies has_source(l, #[trigger] steps[k]) by {
            assert(has_source(prev, s0[k]));
            let j = choose|j: int| 0 <= j < prev.len() && node_gives_step(#[trigger] prev[j], s0[k]);
            assert(l[j] == prev[j]);
        }
        assert forall|j: int| 0 <= j < l.len() implies d.contains(#[trigger] l[j].index) by {
            if j < prev.len() {
                assert(l[j] == prev[j]);
            }
        }
        assert forall|x: usize| #[trigger] d.contains(x) implies covered(l, steps, x) by {
            assert(covered(prev, s0, x));
            if !(exists|k: int| 0 <= k < steps.len() && step_index(#[trigger] steps[k]) == x) {
                let (j, k) = choose|j: int, k: int|
                    0 <= j < prev.len() && 0 <= k < s0.len() && node_gives_step(#[trigger] prev[j], #[trigger] s0[k])
                        && !(s0[k] is Light) && prev[j].children.contains(x);
                assert(l[j] == prev[j]);
                assert(node_gives_step(l[j], steps[k]));
            }
        }
    } else {
        let new_step = steps.last();
        assert(steps == s0.push(new_step));
        assert(node_gives_step(n, new_step));
        assert(step_index(new_step) == n.index);
        assert forall|k: int| 0 <= k < steps.len() implies d.contains(step_index(#[trigger] steps[k])) by {
            if k < s0.len() {
                assert(steps[k] == s0[k]);
            }
        }
        assert forall|k: int, m: int| 0 <= k < m < steps.len() implies step_index(#[trigger] steps[k]) != step_index(
            #[trigger] steps[m],
        ) by {
            assert(steps[k] == s0[k]);
            if m < s0.len() {
                assert(steps[m] == s0[m]);
            } else {
                assert(d0.contains(step_index(s0[k])));
            }
        }
        assert forall|k: int, x: usize|
            0 <= k < steps.len() && #[trigger] mesh_children(steps[k]).contains(x) implies d.contains(x) by {
            if k < s0.len() {
                assert(steps[k] == s0[k]);
            } else {
                assert(steps[k] == new_step);
                assert(n.children.contains(x));
                assert(n.children.to_set().contains(x));
            }
        }
        assert forall|k: int, m: int| 0 <= k < m < steps.len() implies !mesh_children(#[trigger] steps[k]).contains(
            step_index(#[trigger] steps[m]),
        ) by {
            assert(steps[k] == s0[k]);
            if m < s0.len() {
                assert(steps[m] == s0[m]);
            } else {
                if mesh_children(s0[k]).contains(n.index) {
                    assert(d0.contains(n.index));
                }
            }
        }
        assert forall|k: int| 0 <= k < steps.len() implies has_source(l, #[trigger] steps[k]) by {
            if k < s0.len() {
                assert(steps[k] == s0[k]);
                assert(has_source(prev, s0[k]));
                let j = choose|j: int| 0 <= j < prev.len() && node_gives_step(#[trigger] prev[j], s0[k]);
                assert(l[j] == prev[j]);
            } else {
                assert(l[l.len() - 1] == n);
                assert(node_gives_step(l[l.len() - 1], steps[k]));
            }
        }
        assert forall|j: int| 0 <= j < l.len() implies d.contains(#[trigger] l[j].index) by {
            if j < prev.len() {
                assert(l[j] == prev[j]);
                assert(d0.contains(prev[j].index));
            }
        }
        assert forall|x: usize| #[trigger] d.contains(x) implies covered(l, steps, x) by {
            if d0.contains(x) {
                assert(covered(prev, s0, x));
                if exists|k: int| 0 <= k < s0.len() && step_index(#[trigger] s0[k]) == x {
                    let k = choose|k: int| 0 <= k < s0.len() && step_index(#[trigger] s0[k]) == x;
                    assert(steps[k] == s0[k]);
                } else {
                    let (j, k) = choose|j: int, k: int|
                        0 <= j < prev.len() && 0 <= k < s0.len() && node_gives_step(#[trigger] prev[j], #[trigger] s0[k])
                            && !(s0[k] is Light) && prev[j].children.contains(x);
                    assert(l[j] == prev[j]);
                    assert(steps[k] == s0[k]);
                    assert(node_gives_step(l[j], steps[k]));
                }
            } else if x == n.index {
                assert(step_index(steps[s0.len() as int]) == x);
            } else {
                assert(n.children.to_set().contains(x));
                assert(n.children.contains(x));
                assert(!(new_step is Light));
                assert(l[l.len() - 1] == n);
                assert(node_gives_step(l[l.len() - 1], steps[s0.len() as int]));
            }
        }
    }
}

/// A node is in the sorted loadable list exactly when it is a node of the
/// document with a mesh or a light.
proof fn lemma_sorted_loadable(ns: Seq<NodeInfoView>, x: NodeInfoView)
    ensures
        sort_by_children(loadable(ns)).contains(x) <==> (ns.contains(x) && (x.has_mesh || x.has_light)),
{
    broadcast use vstd::seq_lib::group_to_multiset_ensures;

    let pred = |n: NodeInfoView| n.has_mesh || n.has_light;
    let f = ns.filter(pred);
    let l = sort_by_children(f);
    law_sort_by_children_sorted(f);
    assert(l.to_multiset().count(x) == f.to_multiset().count(x));
    if f.contains(x) {
        let i = choose|i: int| 0 <= i < f.len() && f[i] == x;
        ns.lemma_filter_pred(pred, i);
        ns.lemma_filter_contains_rev(pred, x);
    }
    if ns.contains(x) && pred(x) {
        let i = choose|i: int| 0 <= i < ns.len() && ns[i] == x;
        ns.lemma_filter_contains(pred, i);
    }
}

/// Some node of the document with a mesh or a light becomes the step `s`.
pub open spec fn document_source(ns: Seq<NodeInfoView>, s: StepView) -> bool {
    exists|n: NodeInfoView| ns.contains(n) && (n.has_mesh || n.has_light) && #[trigger] node_gives_step(n, s)
}

proof fn lemma_plan_step_source(ns: Seq<NodeInfoView>, k: int)
    requires
        0 <= k < scene_plan(ns).len(),
    ensures
        document_source(ns, scene_plan(ns)[k]),
{
    let l = sort_by_children(loadable(ns));
    lemma_plan_fold(l);
    assert(scene_plan(ns) == plan_fold(l).1);
    assert(has_source(l, scene_plan(ns)[k]));
    let j = choose|j: int| 0 <= j < l.len() && node_gives_step(#[trigger] l[j], scene_plan(ns)[k]);
    lemma_sorted_loadable(ns, l[j]);
    assert(l.contains(l[j]));
    let w = l[j];
    assert(ns.contains(w) && (w.has_mesh || w.has_light) && node_gives_step(w, scene_plan(ns)[k]));
}

/// The load plan of a document's nodes: each node is read by at most one
/// step; each step comes from a node of the document with a mesh or a light
/// (a light step from a node with a light, the cubemap step from a node
/// without one named as the cubemap's container, a mesh-node step from any
/// other such node, with that node's children); a mesh node's children are
/// not loaded again by a later step; and every node with a mesh or a light
/// is loaded, by a step of its own or as a child of a node that became a
/// cubemap or mesh-node step.
pub proof fn law_scene_plan(ns: Seq<NodeInfoView>)
    ensures
        forall|k: int, m: int|
            0 <= k < m < scene_plan(ns).len() ==> step_index(#[trigger] scene_plan(ns)[k]) != step_index(
                #[trigger] scene_plan(ns)[m],
            ),
        forall|k: int| 0 <= k < scene_plan(ns).len() ==> #[trigger] document_source(ns, scene_plan(ns)[k]),
        forall|k: int, m: int|
            0 <= k < m < scene_plan(ns).len() ==> !mesh_children(#[trigger] scene_plan(ns)[k]).contains(
                step_index(#[trigger] scene_plan(ns)[m]),
            ),
        forall|n: NodeInfoView|
            #[trigger] ns.contains(n) && (n.has_mesh || n.has_light) ==> (exists|k: int|
                0 <= k < scene_plan(ns).len() && step_index(#[trigger] scene_plan(ns)[k]) == n.index) || (exists|
                p: NodeInfoView,
                k: int,
            |
                ns.contains(p) && 0 <= k < scene_plan(ns).len() && #[trigger] node_gives_step(p, scene_plan(ns)[k])
                    && !(scene_plan(ns)[k] is Light) && p.children.contains(n.index)),
{
    let l = sort_by_children(loadable(ns));
    let plan = scene_plan(ns);
    lemma_plan_fold(l);
    assert(plan == plan_fold(l).1);
    assert forall|k: int| 0 <= k < scene_plan(ns).len() implies #[trigger] document_source(ns, scene_plan(ns)[k]) by {
        lemma_plan_step_source(ns, k);
    }
    assert forall|n: NodeInfoView| #[trigger] ns.contains(n) && (n.has_mesh || n.has_light) implies (exists|k: int|
        0 <= k < plan.len() && step_index(#[trigger] plan[k]) == n.index) || (exists|p: NodeInfoView, k: int|
        ns.contains(p) && 0 <= k < plan.len() && #[trigger] node_gives_step(p, plan[k]) && !(plan[k] is Light)
            && p.children.contains(n.index)) by {
        lemma_sorted_loadable(ns, n);
        let j = choose|j: int| 0 <= j < l.len() && l[j] == n;
        assert(plan_fold(l).0.contains(l[j].index));
        assert(covered(l, plan, n.index));
        if !(exists|k: int| 0 <= k < plan.len() && step_index(#[trigger] plan[k]) == n.index) {
            let (j2, k) = choose|j2: int, k: int|
                0 <= j2 < l.len() && 0 <= k < plan.len() && node_gives_step(#[trigger] l[j2], #[trigger] plan[k])
                    && !(plan[k] is Light) && l[j2].children.contains(n.index);
            lemma_sorted_loadable(ns, l[j2]);
            assert(l.contains(l[j2]));
        }
    }
}

/// The image a side takes from the faces is that of the last face with an
/// image whose material names the side: such a face has it, and no later
/// face with an image names the side; where none names it, it has no image.
pub proof fn law_face_image(faces: Seq<FaceView>, side: CubemapSides, n: int)
    requires
        0 <= n <= faces.len(),
    ensures
        face_image(faces, side, n) matches Some(img) ==> exists|i: int|
            0 <= i < n && (#[trigger] faces[i]).image == Some(img) && side_of_name(faces[i].material_name) == Some(side)
                && forall|j: int|
                i < j < n ==> !((#[trigger] faces[j]).image is Some && side_of_name(faces[j].material_name) == Some(side)),
        face_image(faces, side, n) is None ==> forall|j: int|
            0 <= j < n ==> !((#[trigger] faces[j]).image is Some && side_of_name(faces[j].material_name) == Some(side)),
    decreases n,
{
    if n > 0 {
        law_face_image(faces, side, n - 1);
        if faces[n - 1].image is Some && side_of_name(faces[n - 1].material_name) == Some(side) {
            assert(faces[n - 1].image == face_image(faces, side, n));
        } else if let Some(img) = face_image(faces, side, n - 1) {
            let i = choose|i: int|
                0 <= i < n - 1 && (#[trigger] faces[i]).image == Some(img) && side_of_name(faces[i].material_name) == Some(side)
                    && forall|j: int|
                    i < j < n - 1 ==> !((#[trigger] faces[j]).image is Some && side_of_name(faces[j].material_name)
                        == Some(side));
            assert(forall|j: int|
                i < j < n ==> !((#[trigger] faces[j]).image is Some && side_of_name(faces[j].material_name) == Some(side)));
        }
    }
}

/// The cubemap of a container's faces. It is made exactly when each of the
/// six sides has an image, the six images share format, width and height,
/// and that format has a channel count (one to four 8-bit channels); it then
/// has their size and channel count, and takes its faces in the order left,
/// right, top, bottom, front, back. Where a side has no image, the error
/// counts the sides that have one; where all have one but they differ, the
/// error says so; else the format is refused.
pub proof fn law_cubemap_plan(faces: Seq<FaceView>, images: Seq<ImageInfo>)
    ensures
        ({
            let n = faces.len() as int;
            let all_found = forall|s: CubemapSides| #[trigger] face_image(faces, s, n) is Some;
            let left = images[face_image(faces, CubemapSides::Left, n)->0 as int];
            let same = forall|s: CubemapSides|
                {
                    let im = images[(#[trigger] face_image(faces, s, n))->0 as int];
                    im.format == left.format && im.width == left.width && im.height == left.height
                };
            &&& (cubemap_plan(faces, images) is Ok) <==> (all_found && same && format_channels(left.format) is Some)
            &&& cubemap_plan(faces, images) matches Err(CubemapPlanError::MissingFaces(c)) ==> !all_found && c < 6
            &&& !all_found ==> (cubemap_plan(faces, images) is Err && cubemap_plan(faces, images)->Err_0
                is MissingFaces)
            &&& (all_found && !same) ==> cubemap_plan(faces, images) == Err::<CubemapPlan, CubemapPlanError>(
                CubemapPlanError::DifferentMetaData,
            )
            &&& cubemap_plan(faces, images) matches Ok(p) ==> {
                &&& p.width == left.width && p.height == left.height
                &&& Some(p.channels) == format_channels(left.format)
                &&& Some(p.images[0]) == face_image(faces, CubemapSides::Left, n)
                &&& Some(p.images[1]) == face_image(faces, CubemapSides::Right, n)
                &&& Some(p.images[2]) == face_image(faces, CubemapSides::Top, n)
                &&& Some(p.images[3]) == face_image(faces, CubemapSides::Bottom, n)
                &&& Some(p.images[4]) == face_image(faces, CubemapSides::Front, n)
                &&& Some(p.images[5]) == face_image(faces, CubemapSides::Back, n)
            }
        }),
{
    let n = faces.len() as int;
    lemma_sides_found_bound(faces, 6);
    assert(side_image(faces, 0) == face_image(faces, CubemapSides::Right, n));
    assert(side_image(faces, 1) == face_image(faces, CubemapSides::Left, n));
    assert(side_image(faces, 2) == face_image(faces, CubemapSides::Top, n));
    assert(side_image(faces, 3) == face_image(faces, CubemapSides::Bottom, n));
    assert(side_image(faces, 4) == face_image(faces, CubemapSides::Front, n));
    assert(side_image(faces, 5) == face_image(faces, CubemapSides::Back, n));
    let all_found = forall|s: CubemapSides| #[trigger] face_image(faces, s, n) is Some;
    assert(all_found <==> sides_found(faces, 6) == 6) by {
        if sides_found(faces, 6) == 6 {
            assert forall|s: CubemapSides| #[trigger] face_image(faces, s, n) is Some by {
                match s {
                    CubemapSides::Right => assert(side_image(faces, 0) is Some),
                    CubemapSides::Left => assert(side_image(faces, 1) is Some),
                    CubemapSides::Top => assert(side_image(faces, 2) is Some),
                    CubemapSides::Bottom => assert(side_image(faces, 3) is Some),
                    CubemapSides::Front => assert(side_image(faces, 4) is Some),
                    CubemapSides::Back => assert(side_image(faces, 5) is Some),
                }
            }
        }
        if all_found {
            assert forall|j: int| 0 <= j < 6 implies (#[trigger] side_image(faces, j)) is Some by {
                assert(face_image(faces, side_of_number(j as u32)->0, n) is Some);
            }
        }
    }
    let left = images[face_image(faces, CubemapSides::Left, n)->0 as int];
    let same = forall|s: CubemapSides|
        {
            let im = images[(#[trigger] face_image(faces, s, n))->0 as int];
            im.format == left.format && im.width == left.width && im.height == left.height
        };
    assert(same <==> faces_match_left(faces, images)) by {
        if faces_match_left(faces, images) {
            assert forall|s: CubemapSides| {
                let im = images[(#[trigger] face_image(faces, s, n))->0 as int];
                im.format == left.format && im.width == left.width && im.height == left.height
            } by {
                match s {
                    CubemapSides::Right => assert(side_image(faces, 0) == face_image(faces, s, n)),
                    CubemapSides::Left => assert(side_image(faces, 1) == face_image(faces, s, n)),
                    CubemapSides::Top => assert(side_image(faces, 2) == face_image(faces, s, n)),
                    CubemapSides::Bottom => assert(side_image(faces, 3) == face_image(faces, s, n)),
                    CubemapSides::Front => assert(side_image(faces, 4) == face_image(faces, s, n)),
                    CubemapSides::Back => assert(side_image(faces, 5) == face_image(faces, s, n)),
                }
            }
        }
        if same {
            assert forall|k: int| 0 <= k < 6 implies {
                let im = images[(#[trigger] side_image(faces, k))->0 as int];
                im.format == left.format && im.height == left.height && im.width == left.width
            } by {
                assert(side_image(faces, k) == face_image(faces, side_of_number(k as u32)->0, n));
            }
        }
    }
}

} // verus!
