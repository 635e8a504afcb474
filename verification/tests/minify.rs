use turbopack_support::minify::{
    Comment, CommentKind, CompressType, CustomCompressOptions, LegalComments, MangleType, default_compress_options,
    get_compress_options, get_compress_options_for_target, is_legal_comment, mangle_options,
};

fn block(text: &str, position: u32) -> Comment {
    Comment { kind: CommentKind::Block, text: text.to_string(), position }
}

fn line(text: &str, position: u32) -> Comment {
    Comment { kind: CommentKind::Line, text: text.to_string(), position }
}

#[test]
fn extracts_and_deduplicates_legal_comment_texts() {
    // the comments of a small script with the positions they start at
    let mut legal = LegalComments::new();
    let kept = legal.collect(Some(vec![
        block("! package license ", 13),
        block("*! starred bang license ", 49),
        block("* @license another package ", 86),
        line(" @preserve line license", 126),
        block(" ordinary comment ", 163),
    ]));
    assert_eq!(kept.len(), 1);
    assert_eq!(kept[0].text, " ordinary comment ");
    let kept = legal.collect(Some(vec![block("! package license ", 220)]));
    assert!(kept.is_empty());
    assert!(legal.collect(None).is_empty());
    assert_eq!(
        legal.into_comments(),
        vec![
            "/*! package license */",
            "/**! starred bang license */",
            "/** @license another package */",
            "// @preserve line license",
        ]
    );
}

#[test]
fn legal_comments_sorted_by_first_position_then_text() {
    let mut legal = LegalComments::new();
    legal.collect(Some(vec![block("!b", 5), block("!a", 5), block("!c", 1), block("!b", 0)]));
    assert_eq!(legal.into_comments(), vec!["/*!b*/", "/*!c*/", "/*!a*/"]);
}

#[test]
fn recognizes_legal_comments() {
    assert!(is_legal_comment("! license"));
    assert!(is_legal_comment("  **! license"));
    assert!(is_legal_comment(" @LICENSE MIT"));
    assert!(is_legal_comment("x @preserve"));
    assert!(is_legal_comment("@cc_on"));
    assert!(!is_legal_comment(" ordinary comment "));
    assert!(!is_legal_comment(" license without marker"));
    assert!(!is_legal_comment(" a ! later"));
}

#[test]
fn compress_options_follow_user_choices() {
    let d = default_compress_options(None);
    assert_eq!(d.passes, 2);
    assert!(d.keep_classnames && d.keep_fnames);
    let mangled = default_compress_options(Some(MangleType::OptimalSize));
    assert!(!mangled.keep_classnames && !mangled.keep_fnames);
    assert!(get_compress_options(None, None).is_none());
    let custom = CustomCompressOptions { passes: Some(5), sequences: Some(false), keep_classnames: None, keep_fnames: Some(false) };
    let o = get_compress_options(Some(CompressType::Options(custom)), None).unwrap();
    assert_eq!(o.passes, 5);
    assert_eq!(o.sequences, Some(false));
    assert!(o.keep_classnames);
    assert!(!o.keep_fnames);
    let t = get_compress_options_for_target(Some(CompressType::Default), None, false).unwrap();
    assert_eq!(t.arrows, Some(false));
    let t = get_compress_options_for_target(Some(CompressType::Default), None, true).unwrap();
    assert_eq!(t.arrows, Some(true));
}

#[test]
fn mangle_settings() {
    assert!(mangle_options(None).is_none());
    let m = mangle_options(Some(MangleType::Deterministic)).unwrap();
    assert_eq!(m.reserved, vec!["AbortSignal".to_string()]);
    assert!(m.disable_char_freq);
    assert!(!mangle_options(Some(MangleType::OptimalSize)).unwrap().disable_char_freq);
}
