use renderer::obj_loader::{load_obj_from_string, parse_usize_chars, try_load_obj_from_string, Obj};

fn coords(o: &Obj, i: usize) -> Vec<String> {
    o.positions[i].to_vec()
}

fn strings(v: &[&str]) -> Vec<String> {
    v.iter().map(|s| s.to_string()).collect()
}

const QUAD: &str = "v 0 0 0\nv 1 0 0\nv 1 1 0\nv 0 1 0\nvt 0 0\nvt 1 0\nvt 1 1\nvt 0 1\nf 1/1 2/2 3/3 4/4\n";

#[test]
fn quad_is_fanned_into_two_triangles() {
    let o = try_load_obj_from_string(QUAD).expect("quad loads");
    assert_eq!(o.indices, vec![0, 1, 2, 0, 2, 3]);
    assert_eq!(o.positions.len(), 4);
    assert_eq!(coords(&o, 2), strings(&["1", "1", "0"]));
    let uvs = o.uvs.as_ref().expect("the file has texture coordinates");
    assert_eq!(uvs.len(), 4);
    assert_eq!(uvs[1].to_vec(), strings(&["1", "0"]));
    assert_eq!(o.source_positions.len(), 4);
}

#[test]
fn repeated_vertex_keys_share_an_output_vertex() {
    let o = try_load_obj_from_string("v 0 0 0\nv 1 0 0\nv 1 1 0\nv 0 1 0\nf 1 2 3\nf 1 3 4\n").unwrap();
    assert_eq!(o.indices, vec![0, 1, 2, 0, 2, 3]);
    assert_eq!(o.positions.len(), 4);
    assert!(o.uvs.is_none());
}

#[test]
fn same_position_with_other_uv_is_a_new_vertex() {
    let o = try_load_obj_from_string("v 0 0 0\nv 1 0 0\nv 1 1 0\nvt 0 0\nvt 1 1\nf 1/1 2/1 3/1\nf 1/2 2/1 3/1\n").unwrap();
    assert_eq!(o.indices, vec![0, 1, 2, 3, 1, 2]);
    assert_eq!(o.positions.len(), 4);
    assert_eq!(coords(&o, 3), strings(&["0", "0", "0"]));
    assert_eq!(o.source_positions.len(), 3);
}

#[test]
fn empty_texture_index_means_none() {
    let o = try_load_obj_from_string("v 0 0 0\nv 1 0 0\nv 1 1 0\nf 1//7 2//7 3//7\n").unwrap();
    assert_eq!(o.indices, vec![0, 1, 2]);
    assert!(o.uvs.is_none());
}

#[test]
fn polygon_fans_around_first_vertex() {
    let o = try_load_obj_from_string("v 0 0 0\nv 1 0 0\nv 2 1 0\nv 1 2 0\nv 0 1 0\nf 1 2 3 4 5\n").unwrap();
    assert_eq!(o.indices, vec![0, 1, 2, 0, 2, 3, 0, 3, 4]);
}

#[test]
fn other_lines_are_ignored() {
    let o = try_load_obj_from_string("# a comment\no name\nvn 0 0 1\n\n   \nv 0 0 0\nv 1 0 0\nv 0 1 0\ns off\nf 3 2 1\n").unwrap();
    assert_eq!(o.indices, vec![0, 1, 2]);
    assert_eq!(coords(&o, 0), strings(&["0", "1", "0"]));
}

#[test]
fn malformed_files_are_refused() {
    assert!(try_load_obj_from_string("v 1 2\n").is_none());
    assert!(try_load_obj_from_string("vt 1\n").is_none());
    assert!(try_load_obj_from_string("v 0 0 0\nv 1 0 0\nv 0 1 0\nf 1 2 9\n").is_none());
    assert!(try_load_obj_from_string("v 0 0 0\nv 1 0 0\nv 0 1 0\nf x 2 3\n").is_none());
    assert!(try_load_obj_from_string("v 0 0 0\nv 1 0 0\nv 0 1 0\nf 0 1 2\n").is_none());
    assert!(try_load_obj_from_string("v 0 0 0\nv 1 0 0\nv 0 1 0\nf 1/9 2 3\n").is_none());
}

#[test]
fn load_obj_from_string_matches_try_load() {
    let a = load_obj_from_string(QUAD);
    let b = try_load_obj_from_string(QUAD).unwrap();
    assert_eq!(a.indices, b.indices);
    assert_eq!(a.positions, b.positions);
    assert_eq!(a.uvs, b.uvs);
}

#[test]
fn loaded_indices_name_output_vertices() {
    let o = try_load_obj_from_string("v 0 0 0\nv 1 0 0\nv 1 1 0\nv 0 1 0\nvt 0 0\nf 1/1 2 3 4\nf 4 3/1 1\n").unwrap();
    assert_eq!(o.indices.len() % 3, 0);
    for i in &o.indices {
        assert!((*i as usize) < o.positions.len());
    }
}

#[test]
fn parse_usize_accepts_plus_and_digits_only() {
    let chars = |s: &str| s.chars().collect::<Vec<char>>();
    assert_eq!(parse_usize_chars(&chars("42")), Some(42));
    assert_eq!(parse_usize_chars(&chars("+7")), Some(7));
    assert_eq!(parse_usize_chars(&chars("")), None);
    assert_eq!(parse_usize_chars(&chars("+")), None);
    assert_eq!(parse_usize_chars(&chars("-1")), None);
    assert_eq!(parse_usize_chars(&chars("1a")), None);
    assert_eq!(parse_usize_chars(&chars("99999999999999999999999")), None);
}
