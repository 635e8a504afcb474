use turbopack_support::filename_template::{
    parse_decimal, try_match_content_hash_placeholder, try_match_name_placeholder,
    try_replace_content_hash_placeholder, try_replace_name_placeholder,
};

#[test]
fn detects_placeholders() {
    assert_eq!(try_match_name_placeholder("[name].js"), Some(true));
    assert_eq!(try_match_name_placeholder("name.js"), Some(false));
    assert_eq!(try_match_content_hash_placeholder("[contenthash:8].js"), Some(true));
    assert_eq!(try_match_content_hash_placeholder("[contenthash].js"), Some(true));
    assert_eq!(try_match_content_hash_placeholder("[contenthash:x].js"), Some(false));
}

#[test]
fn replaces_name_without_doubling_extension() {
    assert_eq!(try_replace_name_placeholder("[name].js", "foo.js").unwrap(), "foo.js");
    assert_eq!(try_replace_name_placeholder("[name].js", "foo").unwrap(), "foo.js");
    assert_eq!(try_replace_name_placeholder("[name].css", "foo.js").unwrap(), "foo.js.css");
    assert_eq!(try_replace_name_placeholder("a/[name]-[name].js", "x.js").unwrap(), "a/x.js-x.js");
}

#[test]
fn replaces_content_hash_with_prefix() {
    assert_eq!(try_replace_content_hash_placeholder("[contenthash:4].js", "abcdef").unwrap(), "abcd.js");
    assert_eq!(try_replace_content_hash_placeholder("[contenthash].js", "abcdef").unwrap(), "abcdef.js");
    assert_eq!(try_replace_content_hash_placeholder("[contenthash:99].js", "abc").unwrap(), "abc.js");
    assert_eq!(try_replace_content_hash_placeholder("x", "abc").unwrap(), "x");
    assert_eq!(parse_decimal("42"), Some(42));
    assert_eq!(parse_decimal("4x"), None);
}

#[test]
fn content_hash_is_cut_to_characters() {
    assert_eq!(try_replace_content_hash_placeholder("[contenthash:2]", "ééé").unwrap(), "éé");
    assert_eq!(try_replace_content_hash_placeholder("[contenthash:1]", "ééé").unwrap(), "é");
    assert_eq!(try_replace_content_hash_placeholder("a-[contenthash:5]-b", "ééé").unwrap(), "a-ééé-b");
}
