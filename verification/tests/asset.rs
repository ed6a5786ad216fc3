use click_to_move::asset::scene_asset_path;
use click_to_move::asset::scene_file_name;

#[test]
fn file_name_is_last_segment_with_extension() {
    assert_eq!(
        scene_file_name("https://ipfs.io/ipfs/QmWMYVUF2pa4GkoMgquyY8nmYjQJDP9yxnSBvjVqH7EJQr"),
        "QmWMYVUF2pa4GkoMgquyY8nmYjQJDP9yxnSBvjVqH7EJQr.glb"
    );
}

#[test]
fn extension_is_not_added_twice() {
    assert_eq!(scene_file_name("https://example.org/models/cube.glb"), "cube.glb");
    assert_eq!(scene_file_name("cube.glb"), "cube.glb");
    assert_eq!(scene_file_name("a/.glb"), ".glb");
}

#[test]
fn other_extensions_get_the_suffix() {
    assert_eq!(scene_file_name("https://example.org/cube.gltf"), "cube.gltf.glb");
    assert_eq!(scene_file_name("https://example.org/cube.GLB"), "cube.GLB.glb");
    assert_eq!(scene_file_name("https://example.org/glb"), "glb.glb");
    assert_eq!(scene_file_name("https://example.org/cube.glb?x=1"), "cube.glb?x=1.glb");
}

#[test]
fn address_without_slash_is_its_own_segment() {
    assert_eq!(scene_file_name("scene"), "scene.glb");
    assert_eq!(scene_file_name(""), ".glb");
}

#[test]
fn trailing_slash_gives_empty_segment() {
    assert_eq!(scene_file_name("https://example.org/models/"), ".glb");
    assert_eq!(scene_file_name("/"), ".glb");
}

#[test]
fn file_name_counts_characters_not_bytes() {
    assert_eq!(scene_file_name("https://example.org/w\u{fc}rfel/sz\u{e9}ne"), "sz\u{e9}ne.glb");
    assert_eq!(scene_file_name("\u{e9}\u{e9}/\u{e9}.glb"), "\u{e9}.glb");
}

#[test]
fn asset_path_points_at_first_scene() {
    assert_eq!(scene_asset_path("cube.glb"), "downloaded/cube.glb#Scene0");
    assert_eq!(scene_asset_path(""), "downloaded/#Scene0");
    assert_eq!(
        scene_asset_path(&scene_file_name("https://ipfs.io/ipfs/Qm123")),
        "downloaded/Qm123.glb#Scene0"
    );
}
