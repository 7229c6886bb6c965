use flashdark::obj_format::{
    classify_line, face_corners, merge_meshes, mergeable, parse_face_vertex, push_fan, FaceVertex, ObjGroup,
    ObjLine, ObjReader,
};

fn group(name: &str, material: &str, geometry: Vec<u32>) -> ObjGroup<u32> {
    ObjGroup { name: name.to_owned(), material: material.to_owned(), geometry }
}

fn view(ms: &[ObjGroup<u32>]) -> Vec<(String, String, Vec<u32>)> {
    ms.iter().map(|m| (m.name.clone(), m.material.clone(), m.geometry.clone())).collect()
}

#[test]
fn lines_are_told_apart_by_their_first_word() {
    assert_eq!(classify_line("v 1 2 3"), ObjLine::Position);
    assert_eq!(classify_line("vn 0 0 1"), ObjLine::Normal);
    assert_eq!(classify_line("vt 0.5 0.5"), ObjLine::TexCoord);
    assert_eq!(classify_line("f 1/1/1 2/2/2 3/3/3"), ObjLine::Face);
    assert_eq!(classify_line("o Table"), ObjLine::MeshBoundary);
    assert_eq!(classify_line("g Table"), ObjLine::MeshBoundary);
    assert_eq!(classify_line("usemtl Wood"), ObjLine::MeshBoundary);
    assert_eq!(classify_line("mtllib level.mtl"), ObjLine::MaterialLibrary);
    assert_eq!(classify_line("# v 1 2 3"), ObjLine::Other);
    assert_eq!(classify_line("s off"), ObjLine::Other);
    assert_eq!(classify_line("v"), ObjLine::Other);
}

#[test]
fn face_corners_with_and_without_texture() {
    assert_eq!(parse_face_vertex("1/2/3"), Some(FaceVertex { position: 1, tex_coord: Some(2), normal: 3 }));
    assert_eq!(parse_face_vertex("1//3"), Some(FaceVertex { position: 1, tex_coord: None, normal: 3 }));
    assert_eq!(parse_face_vertex("+2/3/4"), Some(FaceVertex { position: 2, tex_coord: Some(3), normal: 4 }));
    assert_eq!(parse_face_vertex("5/6/7/8"), Some(FaceVertex { position: 5, tex_coord: Some(6), normal: 7 }));
}

#[test]
fn malformed_corners_are_refused() {
    assert_eq!(parse_face_vertex("1/2"), None);
    assert_eq!(parse_face_vertex("a/2/3"), None);
    assert_eq!(parse_face_vertex("1/x/3"), None);
    assert_eq!(parse_face_vertex("/2/3"), None);
    assert_eq!(parse_face_vertex("1/2/"), None);
    assert_eq!(parse_face_vertex(""), None);
}

#[test]
fn a_face_line_gives_its_corners_in_order() {
    assert_eq!(
        face_corners("f 1/1/1  2//2\t3/3/3"),
        Some(vec![
            FaceVertex { position: 1, tex_coord: Some(1), normal: 1 },
            FaceVertex { position: 2, tex_coord: None, normal: 2 },
            FaceVertex { position: 3, tex_coord: Some(3), normal: 3 },
        ])
    );
    assert_eq!(face_corners("f 1/1/1 2/2"), None);
    assert_eq!(face_corners("f"), Some(vec![]));
}

#[test]
fn faces_are_cut_into_fans() {
    let mut g: Vec<u32> = vec![9];
    push_fan(&mut g, &vec![1, 2, 3, 4, 5]);
    assert_eq!(g, vec![9, 1, 2, 3, 1, 3, 4, 1, 4, 5]);
    push_fan(&mut g, &vec![7, 8]);
    assert_eq!(g.len(), 10);
}

#[test]
fn reader_keeps_meshes_with_corners() {
    let mut r: ObjReader<u32> = ObjReader::new();
    r.add_face(&vec![1, 2, 3]);
    r.mesh_boundary("o Table");
    r.mesh_boundary("usemtl Wood");
    r.add_face(&vec![4, 5, 6, 7]);
    r.mesh_boundary("g Chair");
    r.mesh_boundary("o Empty");
    r.mesh_boundary("usemtl Glass");
    r.add_face(&vec![8, 9, 10]);
    let ms = r.finish();
    assert_eq!(
        view(&ms),
        vec![
            ("__unnamed__".to_owned(), "".to_owned(), vec![1, 2, 3]),
            ("Table".to_owned(), "Wood".to_owned(), vec![4, 5, 6, 4, 6, 7]),
            ("Empty".to_owned(), "Glass".to_owned(), vec![8, 9, 10]),
        ]
    );
}

#[test]
fn dark_and_billboard_meshes() {
    assert!(group("S_Wall_Dark", "", vec![]).uses_dark_texture());
    assert!(!group("S_Dark_Wall", "", vec![]).uses_dark_texture());
    assert!(group("B_Tree", "", vec![]).is_billboard());
    assert!(!group("S_B_Tree", "", vec![]).is_billboard());
}

#[test]
fn which_meshes_may_be_joined() {
    assert!(mergeable("S_Wall"));
    assert!(mergeable("B_Tree"));
    assert!(!mergeable("D_DoorMain"));
    assert!(!mergeable("I_Drawer"));
    assert!(!mergeable("RDC_Kitchen"));
    assert!(!mergeable("TC_Bat"));
    assert!(!mergeable("Spawn_Book1"));
    assert!(!mergeable("S_CeilingLight"));
    assert!(!mergeable("S_Symbol3"));
    assert!(!mergeable("B_Candle1"));
    assert!(!mergeable("AF_Painting"));
    assert!(!mergeable("S_MusicBox"));
    assert!(!mergeable("S_PianoKeys"));
}

#[test]
fn meshes_of_one_material_are_joined_in_order() {
    let ms = vec![
        group("S_A", "Wood", vec![1]),
        group("S_B", "Stone", vec![2]),
        group("D_Door", "Wood", vec![3]),
        group("S_C", "Wood", vec![4]),
        group("S_D", "Stone", vec![5]),
        group("S_E", "Wood", vec![6]),
    ];
    let out = merge_meshes(ms);
    assert_eq!(
        view(&out),
        vec![
            ("S_A".to_owned(), "Wood".to_owned(), vec![1, 4, 6]),
            ("S_B".to_owned(), "Stone".to_owned(), vec![2, 5]),
            ("D_Door".to_owned(), "Wood".to_owned(), vec![3]),
        ]
    );
}

#[test]
fn merged_meshes_keep_corners_and_cannot_join_again() {
    let ms = vec![
        group("S_A", "M1", vec![1, 2, 3]),
        group("S_B", "M2", vec![4, 5, 6]),
        group("I_X", "M1", vec![7, 8, 9]),
        group("S_C", "M1", vec![10, 11, 12]),
        group("S_D", "M2", vec![13, 14, 15]),
    ];
    let out = merge_meshes(ms);
    let corners: usize = out.iter().map(|m| m.geometry.len()).sum();
    assert_eq!(corners, 15);
    for a in 0..out.len() {
        for b in (a + 1)..out.len() {
            assert!(
                !(mergeable(&out[a].name) && mergeable(&out[b].name) && out[a].material == out[b].material)
            );
        }
    }
    let once = view(&out);
    let again = merge_meshes(out);
    assert_eq!(view(&again), once);
    assert_eq!(again.len(), 3);
}
