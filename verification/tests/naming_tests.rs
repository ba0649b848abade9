use brf::naming::{
    file_base_name, file_extension, sequential_file_name, str_eq, trim_end_occurrences,
    u64_to_dec_string,
};

#[test]
fn decimal_formatting_exact_values() {
    assert_eq!(u64_to_dec_string(0), "0");
    assert_eq!(u64_to_dec_string(7), "7");
    assert_eq!(u64_to_dec_string(10), "10");
    assert_eq!(u64_to_dec_string(12345), "12345");
    assert_eq!(u64_to_dec_string(u64::MAX), "18446744073709551615");
}

#[test]
fn sequential_file_name_joins_prefix_and_counter() {
    assert_eq!(sequential_file_name("img", 0), "img_0");
    assert_eq!(sequential_file_name("img", 42), "img_42");
    assert_eq!(sequential_file_name("", 3), "_3");
}

#[test]
fn extension_of_multi_dot_name_is_last_part() {
    assert_eq!(file_extension("archive.tar.gz"), ".gz");
    assert_eq!(file_base_name("archive.tar.gz"), "archive.tar");
}

#[test]
fn extension_of_simple_names() {
    assert_eq!(file_extension("photo.JPG"), ".JPG");
    assert_eq!(file_base_name("photo.JPG"), "photo");
    assert_eq!(file_extension("doc.txt"), ".txt");
    assert_eq!(file_base_name("doc.txt"), "doc");
}

#[test]
fn name_without_dot_has_no_extension() {
    assert_eq!(file_extension("README"), "");
    assert_eq!(file_base_name("README"), "README");
    assert_eq!(file_extension(""), "");
    assert_eq!(file_base_name(""), "");
}

#[test]
fn leading_dot_alone_opens_no_extension() {
    assert_eq!(file_extension(".bashrc"), "");
    assert_eq!(file_base_name(".bashrc"), ".bashrc");
    assert_eq!(file_extension(".tar.gz"), ".gz");
    assert_eq!(file_base_name(".tar.gz"), ".tar");
}

#[test]
fn trailing_dot_gives_empty_extension() {
    assert_eq!(file_extension("foo."), ".");
    assert_eq!(file_base_name("foo."), "foo");
}

#[test]
fn base_name_trim_removes_repeated_extension_suffix() {
    // The trim removes every trailing occurrence of the extension, not
    // only the formal one.
    assert_eq!(file_extension("x.a.a"), ".a");
    assert_eq!(file_base_name("x.a.a"), "x");
}

#[test]
fn trim_end_occurrences_exact_behaviour() {
    assert_eq!(trim_end_occurrences("x.a.a", ".a"), "x");
    assert_eq!(trim_end_occurrences("x.a.b", ".a"), "x.a.b");
    assert_eq!(trim_end_occurrences("abc", ""), "abc");
    assert_eq!(trim_end_occurrences("aaaa", "a"), "");
}

#[test]
fn str_eq_compares_characters() {
    assert!(str_eq("abc", "abc"));
    assert!(!str_eq("abc", "abd"));
    assert!(!str_eq("abc", "ab"));
    assert!(str_eq("", ""));
}
