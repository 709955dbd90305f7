use pictowebp::paths::{
    ascii_lowercase, copy_bytes, derive_output_root, is_supported_image, map_output_path,
};

fn map(source: &[u8], root: &[u8], out_root: &[u8], ext: &[u8]) -> Result<Vec<u8>, ()> {
    map_output_path(&source.to_vec(), &root.to_vec(), &out_root.to_vec(), &ext.to_vec())
        .map_err(|_| ())
}

#[test]
fn maps_simple_png_into_output_tree() {
    let out = map(b"root/a/1.png", b"root", b"out", b"webp").unwrap();
    assert_eq!(out, b"out/a/1.webp".to_vec());
}

#[test]
fn lowercases_the_target_extension() {
    let out = map(b"root/a/1.png", b"root", b"out", b"WebP").unwrap();
    assert_eq!(out, b"out/a/1.webp".to_vec());
}

#[test]
fn maps_file_without_extension_by_appending() {
    let out = map(b"root/a/file", b"root", b"out", b"webp").unwrap();
    assert_eq!(out, b"out/a/file.webp".to_vec());
}

#[test]
fn keeps_a_leading_dot_name_whole() {
    let out = map(b"root/a/.config", b"root", b"out", b"webp").unwrap();
    assert_eq!(out, b"out/a/.config.webp".to_vec());
}

#[test]
fn replaces_only_the_final_extension() {
    let out = map(b"root/a.b/c.jpeg", b"root", b"out", b"webp").unwrap();
    assert_eq!(out, b"out/a.b/c.webp".to_vec());
}

#[test]
fn rejects_path_outside_source_root() {
    assert!(map(b"other/a/1.png", b"root", b"out", b"webp").is_err());
}

#[test]
fn rejects_the_root_itself() {
    assert!(map(b"root", b"root", b"out", b"webp").is_err());
}

#[test]
fn rejects_sibling_with_root_as_prefix() {
    assert!(map(b"rootette/a.png", b"root", b"out", b"webp").is_err());
}

#[test]
fn rerun_reproduces_identical_output_paths() {
    let first = map(b"root/a/1.png", b"root", b"out", b"webp").unwrap();
    let second = map(b"root/a/1.png", b"root", b"out", b"webp").unwrap();
    assert_eq!(first, second);
}

#[test]
fn distinct_stems_map_to_distinct_outputs() {
    let one = map(b"root/a/1.png", b"root", b"out", b"webp").unwrap();
    let two = map(b"root/a/2.jpg", b"root", b"out", b"webp").unwrap();
    assert_ne!(one, two);
}

#[test]
fn nested_and_flat_stems_stay_distinct() {
    let one = map(b"root/a/b.png", b"root", b"out", b"webp").unwrap();
    let two = map(b"root/a_b.png", b"root", b"out", b"webp").unwrap();
    assert_ne!(one, two);
}

#[test]
fn derives_output_root_beside_source() {
    let out = derive_output_root(&b"/home/u/pics".to_vec(), &b"WebP".to_vec()).unwrap();
    assert_eq!(out, b"/home/u/pics_webp".to_vec());
}

#[test]
fn derives_output_root_for_bare_name() {
    let out = derive_output_root(&b"pics".to_vec(), &b"WebP".to_vec()).unwrap();
    assert_eq!(out, b"pics_webp".to_vec());
}

#[test]
fn refuses_output_root_for_trailing_separator() {
    assert!(derive_output_root(&b"pics/".to_vec(), &b"WebP".to_vec()).is_none());
    assert!(derive_output_root(&b"".to_vec(), &b"WebP".to_vec()).is_none());
}

#[test]
fn recognizes_supported_extensions_in_any_case() {
    assert!(is_supported_image(&b"a/b.jpg".to_vec()));
    assert!(is_supported_image(&b"a/b.JPG".to_vec()));
    assert!(is_supported_image(&b"a/b.jpeg".to_vec()));
    assert!(is_supported_image(&b"a/b.JpEg".to_vec()));
    assert!(is_supported_image(&b"x.png".to_vec()));
    assert!(is_supported_image(&b"x.PNG".to_vec()));
}

#[test]
fn rejects_unsupported_or_missing_extensions() {
    assert!(!is_supported_image(&b"a/b.gif".to_vec()));
    assert!(!is_supported_image(&b"a/b".to_vec()));
    assert!(!is_supported_image(&b"a/.png".to_vec()));
    assert!(!is_supported_image(&b"a/b.png.bak".to_vec()));
    assert!(!is_supported_image(&b"".to_vec()));
}

#[test]
fn lowercases_ascii_only() {
    let low = ascii_lowercase(&b"WebP-123_x".to_vec());
    assert_eq!(low, b"webp-123_x".to_vec());
}

#[test]
fn copies_bytes_exactly() {
    let c = copy_bytes(&b"root/a/1.png".to_vec());
    assert_eq!(c, b"root/a/1.png".to_vec());
}
