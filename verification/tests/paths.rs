use ibl_sampler::paths::{create_output_path, file_stem_of, join_path, parent_of, UsedPaths};
use ibl_sampler::text::{concat_text, contains_char, decimal_text, find_last};

#[test]
fn parent_of_a_single_component_is_empty() {
    assert_eq!(parent_of("sky.hdr"), Some(String::new()));
}

#[test]
fn parent_of_a_nested_path() {
    assert_eq!(parent_of("a/b/sky.hdr"), Some("a/b".to_string()));
    assert_eq!(parent_of("a/sky.hdr"), Some("a".to_string()));
}

#[test]
fn parent_of_a_file_in_the_root_is_the_root() {
    assert_eq!(parent_of("/sky.hdr"), Some("/".to_string()));
}

#[test]
fn parent_of_what_names_no_file_is_nothing() {
    assert_eq!(parent_of(""), None);
    assert_eq!(parent_of("/"), None);
    assert_eq!(parent_of("a/b/"), None);
}

#[test]
fn parent_counts_characters_not_bytes() {
    assert_eq!(parent_of("h\u{e9}l\u{e8}ne/\u{e9}t\u{e9}.hdr"), Some("h\u{e9}l\u{e8}ne".to_string()));
}

#[test]
fn file_stem_drops_the_last_extension() {
    assert_eq!(file_stem_of("sky.hdr"), "sky");
    assert_eq!(file_stem_of("a/b/sky.hdr"), "sky");
    assert_eq!(file_stem_of("a.b/archive.tar.gz"), "archive.tar");
}

#[test]
fn file_stem_of_a_name_without_extension_is_the_name() {
    assert_eq!(file_stem_of("dir/sky"), "sky");
    assert_eq!(file_stem_of("a.b/sky"), "sky");
    assert_eq!(file_stem_of(".hidden"), ".hidden");
    assert_eq!(file_stem_of("sky."), "sky");
}

#[test]
fn file_stem_of_what_names_no_file_is_empty() {
    assert_eq!(file_stem_of(""), "");
    assert_eq!(file_stem_of("dir/"), "");
}

#[test]
fn file_stem_of_a_dot_name_is_empty() {
    assert_eq!(file_stem_of("."), "");
    assert_eq!(file_stem_of(".."), "");
    assert_eq!(file_stem_of("a/.."), "");
    assert_eq!(file_stem_of("a/b/."), "");
    assert_eq!(file_stem_of("..."), "..");
    assert_eq!(file_stem_of(".a"), ".a");
    assert_eq!(file_stem_of("..a"), ".");
}

#[test]
fn parent_of_a_dot_name_is_what_stands_before_it() {
    assert_eq!(parent_of(".."), Some(String::new()));
    assert_eq!(parent_of("a/.."), Some("a".to_string()));
}

#[test]
fn join_puts_one_separator_between() {
    assert_eq!(join_path("a/b", "c.png"), "a/b/c.png");
    assert_eq!(join_path("a/b/", "c.png"), "a/b/c.png");
    assert_eq!(join_path("/", "c.png"), "/c.png");
    assert_eq!(join_path("", "c.png"), "c.png");
}

fn used_paths(paths: &[&str]) -> UsedPaths {
    let mut used = UsedPaths::new();
    for path in paths {
        used.insert(path.to_string());
    }
    used
}

#[test]
fn used_paths_hold_each_path_once() {
    let mut used = UsedPaths::new();
    assert_eq!(used.len(), 0);
    assert!(!used.contains("a"));
    assert!(used.insert("a".to_string()));
    assert!(used.insert(String::new()));
    assert!(!used.insert("a".to_string()));
    assert!(used.contains("a"));
    assert!(used.contains(""));
    assert!(!used.contains("ab"));
    assert_eq!(used.len(), 2);
}

#[test]
fn create_output_path_takes_the_plain_name_first() {
    let mut used = UsedPaths::new();
    let path = create_output_path("out", "sky", "cubemap", &mut used, false);
    assert_eq!(path, Some("out/sky_cubemap.ktx2".to_string()));
    assert!(used.contains("out/sky_cubemap.ktx2"));
    assert_eq!(used.len(), 1);
}

#[test]
fn create_output_path_numbers_from_zero() {
    let mut used = UsedPaths::new();
    let mut made = Vec::new();
    for _ in 0..4 {
        made.push(create_output_path("out", "sky", "diffuse_lut", &mut used, true).unwrap());
    }
    assert_eq!(
        made,
        vec![
            "out/sky_diffuse_lut.png",
            "out/sky_diffuse_lut_0.png",
            "out/sky_diffuse_lut_1.png",
            "out/sky_diffuse_lut_2.png",
        ]
    );
    assert_eq!(used.len(), 4);
    for path in &made {
        assert!(used.contains(path));
    }
}

#[test]
fn create_output_path_takes_the_first_gap() {
    let mut used = used_paths(&["sky_cubemap_1.ktx2", "sky_cubemap.ktx2", "other"]);
    assert_eq!(
        create_output_path("", "sky", "cubemap", &mut used, false),
        Some("sky_cubemap_0.ktx2".to_string())
    );
    assert_eq!(
        create_output_path("", "sky", "cubemap", &mut used, false),
        Some("sky_cubemap_2.ktx2".to_string())
    );
    assert_eq!(used.len(), 5);
    assert!(used.contains("sky_cubemap_0.ktx2"));
    assert!(used.contains("sky_cubemap_2.ktx2"));
    assert!(used.contains("other"));
}

#[test]
fn create_output_path_keeps_kinds_apart() {
    let mut used = UsedPaths::new();
    assert_eq!(create_output_path("d", "s", "x", &mut used, false), Some("d/s_x.ktx2".to_string()));
    assert_eq!(create_output_path("d", "s", "x", &mut used, true), Some("d/s_x.png".to_string()));
}

#[test]
fn create_output_path_with_an_empty_stem() {
    let mut used = UsedPaths::new();
    assert_eq!(create_output_path("d", "", "cubemap", &mut used, false), Some("d/_cubemap.ktx2".to_string()));
}

#[test]
fn decimal_text_writes_numerals() {
    assert_eq!(decimal_text(0), "0");
    assert_eq!(decimal_text(7), "7");
    assert_eq!(decimal_text(9), "9");
    assert_eq!(decimal_text(10), "10");
    assert_eq!(decimal_text(1234567890), "1234567890");
    assert_eq!(decimal_text(u64::MAX), "18446744073709551615");
}

#[test]
fn decimal_text_agrees_with_formatting() {
    for n in 0..2000u64 {
        assert_eq!(decimal_text(n), format!("{}", n));
    }
}

#[test]
fn find_last_gives_the_last_place() {
    assert_eq!(find_last("a/b/c", '/'), Some(3));
    assert_eq!(find_last("/", '/'), Some(0));
    assert_eq!(find_last("abc", '/'), None);
    assert_eq!(find_last("", '/'), None);
    assert_eq!(find_last("\u{e9}/\u{e9}/x", '/'), Some(3));
}

#[test]
fn contains_char_finds_characters() {
    assert!(contains_char("a\0b", '\0'));
    assert!(!contains_char("ab", '\0'));
    assert!(!contains_char("", 'a'));
}

#[test]
fn concat_text_appends() {
    assert_eq!(concat_text("ab", "cd"), "abcd");
    assert_eq!(concat_text("", ""), "");
}
