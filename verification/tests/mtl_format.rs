use flashdark::mtl_format::{dark_texture_path, MtlReader};

#[test]
fn dark_textures_sit_beside_the_light_ones() {
    assert_eq!(dark_texture_path("tex/Wall.png"), Some("tex/Wall_Dark.png".to_owned()));
    assert_eq!(dark_texture_path(".png"), Some("_Dark.png".to_owned()));
    assert_eq!(dark_texture_path("Wall.jpg"), None);
}

#[test]
fn materials_are_read_in_order() {
    let mut r = MtlReader::new();
    for line in ["# comment", "newmtl  Wood ", "Kd 1 1 1", "map_Kd -s 1 1 1 Wood.png", "newmtl Glass", "map_Kd ."] {
        assert!(r.read_line(line));
    }
    let ms = r.finish();
    let seen: Vec<(String, Option<String>, Option<String>)> =
        ms.into_iter().map(|m| (m.name, m.texture, m.dark_texture)).collect();
    assert_eq!(
        seen,
        vec![
            ("__unnamed__".to_owned(), None, None),
            ("Wood".to_owned(), Some("Wood.png".to_owned()), Some("Wood_Dark.png".to_owned())),
            ("Glass".to_owned(), None, None),
        ]
    );
}

#[test]
fn bad_texture_lines_are_refused() {
    let mut r = MtlReader::new();
    assert!(!r.read_line("map_Kd Wood.jpg"));
    assert!(!r.read_line("map_Kd    "));
    assert_eq!(r.texture, None);
    assert_eq!(r.name, "__unnamed__");
}
