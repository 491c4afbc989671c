use datestamp::paths::{generate_new_path, plan_rename};

#[test]
fn test_generate_new_path() {
    let new_path = generate_new_path("folder/IMG_4792.mkv", 1681265941);
    assert_eq!(new_path, "folder/1681265941 IMG_4792.mkv");
}

#[test]
fn new_path_is_deterministic() {
    let a = generate_new_path("folder/IMG_4792.mkv", 1681265941);
    let b = generate_new_path("folder/IMG_4792.mkv", 1681265941);
    assert_eq!(a, b);
    assert!(a.starts_with("folder/"));
}

#[test]
fn new_path_without_directory() {
    assert_eq!(generate_new_path("video.mp4", 7), "7 video.mp4");
}

#[test]
fn new_path_negative_timestamp() {
    assert_eq!(generate_new_path("a/b.mkv", -5), "a/-5 b.mkv");
}

#[test]
fn new_path_zero_timestamp() {
    assert_eq!(generate_new_path("clips/c.mov", 0), "clips/0 c.mov");
}

#[test]
fn new_path_nested_directory() {
    assert_eq!(
        generate_new_path("some/deep/dir/file.m4v", 1000000000),
        "some/deep/dir/1000000000 file.m4v"
    );
}

#[test]
fn plan_rename_dry_run_performs_no_rename() {
    let plan = plan_rename("folder/IMG_4792.mkv", 1681265941, true);
    assert!(!plan.perform_rename);
    assert_eq!(plan.new_path, "folder/1681265941 IMG_4792.mkv");
}

#[test]
fn plan_rename_wet_run_performs_rename() {
    let plan = plan_rename("folder/IMG_4792.mkv", 1681265941, false);
    assert!(plan.perform_rename);
    assert_eq!(plan.new_path, "folder/1681265941 IMG_4792.mkv");
}

#[test]
fn new_path_keeps_unicode_file_name() {
    assert_eq!(generate_new_path("movies/ビデオ.mkv", 42), "movies/42 ビデオ.mkv");
}

#[test]
fn new_path_large_timestamp() {
    assert_eq!(generate_new_path("x.mkv", 253402300799), "253402300799 x.mkv");
}
