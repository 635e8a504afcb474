//! Settings for the ECMAScript minifier, and the legal comments it keeps.
use vstd::prelude::*;
use vstd::string::StringExecFns;
use crate::text::{
    chars_contain, chars_equal, chars_have, chars_of, copy_chars, lemma_text_lt_irreflexive, lemma_text_lt_total,
    lemma_text_lt_transitive, seq_contains_seq, seq_has_char, string_from_chars, text_less, text_lt,
};

verus! {

/// How names are mangled.
#[derive(Clone, Copy, Debug, PartialEq, Eq, Structural)]
pub enum MangleType {
    OptimalSize,
    Deterministic,
}

/// Compression settings given by the user.
#[derive(Clone, Copy, Debug, PartialEq, Eq, Structural)]
pub struct CustomCompressOptions {
    pub passes: Option<u32>,
    pub sequences: Option<bool>,
    pub keep_classnames: Option<bool>,
    pub keep_fnames: Option<bool>,
}

/// How code is compressed.
#[derive(Clone, Copy, Debug, PartialEq, Eq, Structural)]
pub enum CompressType {
    Default,
    Options(CustomCompressOptions),
}

/// The compressor settings this crate decides; `None` leaves the compressor's own default.
#[derive(Clone, Copy, Debug, PartialEq, Eq, Structural)]
pub struct CompressSettings {
    pub passes: usize,
    pub keep_classnames: bool,
    pub keep_fnames: bool,
    pub sequences: Option<bool>,
    pub arrows: Option<bool>,
}

/// The default settings: two passes (a trade-off between speed and size), and class and
/// function names kept unless names are mangled.
pub open spec fn spec_default_compress(mangle: Option<MangleType>) -> CompressSettings {
    CompressSettings {
        passes: 2,
        keep_classnames: mangle is None,
        keep_fnames: mangle is None,
        sequences: None,
        arrows: None,
    }
}

/// The settings for `compress`, the user's choices overriding the defaults.
pub open spec fn spec_compress_options(compress: Option<CompressType>, mangle: Option<MangleType>) -> Option<CompressSettings> {
    match compress {
        None => None,
        Some(CompressType::Default) => Some(spec_default_compress(mangle)),
        Some(CompressType::Options(c)) => {
            let d = spec_default_compress(mangle);
            Some(CompressSettings {
                passes: match c.passes { Some(p) => p as usize, None => d.passes },
                sequences: match c.sequences { Some(s) => Some(s), None => d.sequences },
                keep_classnames: match c.keep_classnames { Some(k) => k, None => d.keep_classnames },
                keep_fnames: match c.keep_fnames { Some(k) => k, None => d.keep_fnames },
                arrows: d.arrows,
            })
        },
    }
}

/// Law: the default settings run two passes and keep class and function names exactly
/// when names are not mangled; custom settings take each field the user sets and, for each
/// field left unset, what the default settings have; custom settings that set nothing are
/// the default settings. Without compression there are no settings.
pub proof fn law_compress_options_default_unset_fields(c: CustomCompressOptions, mangle: Option<MangleType>)
    ensures
        spec_compress_options(None, mangle) is None,
        spec_compress_options(Some(CompressType::Default), mangle) matches Some(d) && d.passes == 2
            && d.keep_classnames == (mangle is None) && d.keep_fnames == (mangle is None)
            && d.sequences is None && d.arrows is None,
        spec_compress_options(Some(CompressType::Options(c)), mangle) matches Some(o) && {
            &&& o.passes == (match c.passes { Some(p) => p as usize, None => 2 })
            &&& o.keep_classnames == (match c.keep_classnames { Some(k) => k, None => mangle is None })
            &&& o.keep_fnames == (match c.keep_fnames { Some(k) => k, None => mangle is None })
            &&& o.sequences == c.sequences
            &&& o.arrows is None
        },
        spec_compress_options(Some(CompressType::Options(CustomCompressOptions {
            passes: None,
            sequences: None,
            keep_classnames: None,
            keep_fnames: None,
        })), mangle) == spec_compress_options(Some(CompressType::Default), mangle),
{
}

/// The default compression settings.
pub fn default_compress_options(mangle: Option<MangleType>) -> (r: CompressSettings)
    ensures
        r == spec_default_compress(mangle),
{
    CompressSettings {
        passes: 2,
        keep_classnames: mangle.is_none(),
        keep_fnames: mangle.is_none(),
        sequences: None,
        arrows: None,
    }
}

/// The compression settings for `compress`; `None` when not compressing.
pub fn get_compress_options(compress: Option<CompressType>, mangle: Option<MangleType>) -> (r: Option<CompressSettings>)
    ensures
        r == spec_compress_options(compress, mangle),
{
    match compress {
        None => None,
        Some(CompressType::Default) => Some(default_compress_options(mangle)),
        Some(CompressType::Options(custom)) => {
            let mut options = default_compress_options(mangle);
            if let Some(passes) = custom.passes {
                options.passes = passes as usize;
            }
            if let Some(sequences) = custom.sequences {
                options.sequences = Some(sequences);
            }
            if let Some(keep_classnames) = custom.keep_classnames {
                options.keep_classnames = keep_classnames;
            }
            if let Some(keep_fnames) = custom.keep_fnames {
                options.keep_fnames = keep_fnames;
            }
            Some(options)
        },
    }
}

/// The compression settings for a target: as [`get_compress_options`], and arrow
/// functions are produced exactly when the target supports them.
pub fn get_compress_options_for_target(compress: Option<CompressType>, mangle: Option<MangleType>, supports_arrow_functions: bool) -> (r: Option<CompressSettings>)
    ensures
        r == match spec_compress_options(compress, mangle) {
            Some(o) => Some(CompressSettings { arrows: Some(supports_arrow_functions), ..o }),
            None => None,
        },
{
    let mut options = get_compress_options(compress, mangle);
    if let Some(o) = &mut options {
        o.arrows = Some(supports_arrow_functions);
    }
    options
}

/// Name-mangling settings.
#[derive(Debug)]
pub struct MangleSettings {
    /// Names never mangled.
    pub reserved: Vec<String>,
    /// Assign names without weighing character frequencies, for deterministic output.
    pub disable_char_freq: bool,
}

/// The mangling settings: `AbortSignal` is never mangled, and deterministic mangling does
/// not weigh character frequencies.
pub fn mangle_options(mangle: Option<MangleType>) -> (r: Option<MangleSettings>)
    ensures
        mangle is None <==> r is None,
        r matches Some(m) ==> m.reserved@.len() == 1 && m.reserved@[0]@ == "AbortSignal"@
            && m.disable_char_freq == (mangle == Some(MangleType::Deterministic)),
{
    match mangle {
        None => None,
        Some(m) => {
            let mut reserved: Vec<String> = Vec::new();
            reserved.push("AbortSignal".to_owned());
            let disable = match m {
                MangleType::OptimalSize => false,
                MangleType::Deterministic => true,
            };
            Some(MangleSettings { reserved, disable_char_freq: disable })
        },
    }
}

/// A character with the Unicode `White_Space` property, as `char::is_whitespace` tells.
pub open spec fn is_unicode_whitespace(c: char) -> bool {
    let u = c as u32;
    (0x09 <= u <= 0x0d) || u == 0x20 || u == 0x85 || u == 0xa0 || u == 0x1680 || (0x2000 <= u <= 0x200a)
        || u == 0x2028 || u == 0x2029 || u == 0x202f || u == 0x205f || u == 0x3000
}

/// `s` without its leading whitespace.
pub open spec fn trim_start_ws(s: Seq<char>) -> Seq<char>
    decreases s.len(),
{
    if s.len() > 0 && is_unicode_whitespace(s[0]) {
        trim_start_ws(s.drop_first())
    } else {
        s
    }
}

/// `s` without its leading `c`s.
pub open spec fn trim_start_char(s: Seq<char>, c: char) -> Seq<char>
    decreases s.len(),
{
    if s.len() > 0 && s[0] == c {
        trim_start_char(s.drop_first(), c)
    } else {
        s
    }
}

/// The ASCII lower-case form of a character.
pub open spec fn ascii_lower(c: char) -> char {
    if 'A' <= c <= 'Z' {
        ((c as u32) + 32) as char
    } else {
        c
    }
}

/// The ASCII lower-case form of a text.
pub open spec fn ascii_lowercase(s: Seq<char>) -> Seq<char> {
    s.map_values(|c: char| ascii_lower(c))
}

/// A legal comment: after leading whitespace and `*`s it starts with `!`, or it holds
/// `@preserve`, `@lic` or `@cc_on` in any ASCII case.
pub open spec fn spec_is_legal_comment(comment: Seq<char>) -> bool {
    let t = trim_start_ws(comment);
    if trim_start_char(t, '*').len() > 0 && trim_start_char(t, '*')[0] == '!' {
        true
    } else if !seq_has_char(t, '@') {
        false
    } else {
        let lower = ascii_lowercase(t);
        seq_contains_seq(lower, "@preserve"@) || seq_contains_seq(lower, "@lic"@) || seq_contains_seq(lower, "@cc_on"@)
    }
}

fn is_whitespace_char(c: char) -> (r: bool)
    ensures
        r == is_unicode_whitespace(c),
{
    let u = c as u32;
    (0x09 <= u && u <= 0x0d) || u == 0x20 || u == 0x85 || u == 0xa0 || u == 0x1680 || (0x2000 <= u && u <= 0x200a)
        || u == 0x2028 || u == 0x2029 || u == 0x202f || u == 0x205f || u == 0x3000
}

/// The position of the first character of `v` from `start` on that is not whitespace.
fn skip_ws(v: &Vec<char>, start: usize) -> (r: usize)
    requires
        start <= v@.len(),
    ensures
        start <= r <= v@.len(),
        trim_start_ws(v@.subrange(start as int, v@.len() as int)) == v@.subrange(r as int, v@.len() as int),
{
    let mut i = start;
    while i < v.len() && is_whitespace_char(v[i])
        invariant
            start <= i <= v@.len(),
            trim_start_ws(v@.subrange(start as int, v@.len() as int)) == trim_start_ws(v@.subrange(i as int, v@.len() as int)),
        decreases v@.len() - i,
    {
        assert(v@.subrange(i as int, v@.len() as int).drop_first() =~= v@.subrange(i + 1, v@.len() as int));
        i = i + 1;
    }
    if i < v.len() {
        assert(v@.subrange(i as int, v@.len() as int)[0] == v@[i as int]);
    }
    i
}

/// The position of the first character of `v` from `start` on that is not `c`.
fn skip_char(v: &Vec<char>, start: usize, c: char) -> (r: usize)
    requires
        start <= v@.len(),
    ensures
        start <= r <= v@.len(),
        trim_start_char(v@.subrange(start as int, v@.len() as int), c) == v@.subrange(r as int, v@.len() as int),
{
    let mut i = start;
    while i < v.len() && v[i] == c
        invariant
            start <= i <= v@.len(),
            trim_start_char(v@.subrange(start as int, v@.len() as int), c) == trim_start_char(v@.subrange(i as int, v@.len() as int), c),
        decreases v@.len() - i,
    {
        assert(v@.subrange(i as int, v@.len() as int).drop_first() =~= v@.subrange(i + 1, v@.len() as int));
        i = i + 1;
    }
    if i < v.len() {
        assert(v@.subrange(i as int, v@.len() as int)[0] == v@[i as int]);
    }
    i
}

/// Whether `comment` (its text, without the comment delimiters) is a legal comment, to be
/// kept when minifying.
pub fn is_legal_comment(comment: &str) -> (r: bool)
    ensures
        r == spec_is_legal_comment(comment@),
{
    let v = chars_of(comment);
    assert(v@.subrange(0, v@.len() as int) =~= v@);
    let start = skip_ws(&v, 0);
    let ghost t = v@.subrange(start as int, v@.len() as int);
    let after_stars = skip_char(&v, start, '*');
    if after_stars < v.len() && v[after_stars] == '!' {
        assert(v@.subrange(after_stars as int, v@.len() as int)[0] == '!');
        return true;
    }
    let mut rest: Vec<char> = Vec::new();
    let mut i = start;
    while i < v.len()
        invariant
            start <= i <= v@.len(),
            rest@ == v@.subrange(start as int, i as int),
        decreases v@.len() - i,
    {
        rest.push(v[i]);
        assert(rest@ =~= v@.subrange(start as int, i + 1));
        i = i + 1;
    }
    assert(rest@ =~= t);
    if !chars_have(rest.as_slice(), '@') {
        return false;
    }
    let mut lower: Vec<char> = Vec::new();
    let mut k: usize = 0;
    while k < rest.len()
        invariant
            k <= rest@.len(),
            lower@ == ascii_lowercase(rest@.subrange(0, k as int)),
        decreases rest@.len() - k,
    {
        let c = rest[k];
        let l = if 'A' <= c && c <= 'Z' { ((c as u8) + 32) as char } else { c };
        lower.push(l);
        assert(lower@ =~= ascii_lowercase(rest@.subrange(0, k + 1)));
        k = k + 1;
    }
    assert(rest@.subrange(0, k as int) =~= rest@);
    let preserve = chars_of("@preserve");
    let lic = chars_of("@lic");
    let cc_on = chars_of("@cc_on");
    chars_contain(lower.as_slice(), preserve.as_slice()) || chars_contain(lower.as_slice(), lic.as_slice())
        || chars_contain(lower.as_slice(), cc_on.as_slice())
}

/// Whether a comment is a line or a block comment.
#[derive(Clone, Copy, Debug, PartialEq, Eq, Structural)]
pub enum CommentKind {
    Line,
    Block,
}

/// A comment of the source: its kind, its text without delimiters, and where it starts.
#[derive(Debug)]
pub struct Comment {
    pub kind: CommentKind,
    pub text: String,
    pub position: u32,
}

/// The source form of a comment: `//text` or `/*text*/`.
pub open spec fn spec_comment_source(kind: CommentKind, text: Seq<char>) -> Seq<char> {
    match kind {
        CommentKind::Line => "//"@ + text,
        CommentKind::Block => "/*"@ + text + "*/"@,
    }
}

/// The view of a comment.
pub open spec fn comment_view(c: Comment) -> (CommentKind, Seq<char>, u32) {
    (c.kind, c.text@, c.position)
}

/// The views of a list of comments.
pub open spec fn comments_view(v: Seq<Comment>) -> Seq<(CommentKind, Seq<char>, u32)> {
    v.map_values(|c: Comment| comment_view(c))
}

/// The legal comments among `cs`, as positions and source forms, in order.
pub open spec fn legal_of(cs: Seq<(CommentKind, Seq<char>, u32)>) -> Seq<(u32, Seq<char>)>
    decreases cs.len(),
{
    if cs.len() == 0 {
        Seq::empty()
    } else {
        let rest = legal_of(cs.drop_last());
        let c = cs.last();
        if spec_is_legal_comment(c.1) {
            rest.push((c.2, spec_comment_source(c.0, c.1)))
        } else {
            rest
        }
    }
}

/// The comments among `cs` that are not legal comments, in order.
pub open spec fn non_legal_of(cs: Seq<(CommentKind, Seq<char>, u32)>) -> Seq<(CommentKind, Seq<char>, u32)>
    decreases cs.len(),
{
    if cs.len() == 0 {
        cs
    } else {
        let rest = non_legal_of(cs.drop_last());
        if spec_is_legal_comment(cs.last().1) {
            rest
        } else {
            rest.push(cs.last())
        }
    }
}

/// The first position at which the text `t` was found, or -1 when it never was.
pub open spec fn first_position(found: Seq<(u32, Seq<char>)>, t: Seq<char>) -> int
    decreases found.len(),
{
    if found.len() == 0 {
        -1
    } else {
        let rest = first_position(found.drop_last(), t);
        if found.last().1 == t && (rest < 0 || (found.last().0 as int) < rest) {
            found.last().0 as int
        } else {
            rest
        }
    }
}

/// The order of legal comments in the output: by first position, then by text.
pub open spec fn key_lt(a: (int, Seq<char>), b: (int, Seq<char>)) -> bool {
    a.0 < b.0 || (a.0 == b.0 && text_lt(a.1, b.1))
}

/// Whether `t` was found.
pub open spec fn was_found(found: Seq<(u32, Seq<char>)>, t: Seq<char>) -> bool {
    exists|i: int| 0 <= i < found.len() && #[trigger] found[i].1 == t
}

/// The legal comments kept while minifying, with where they were found.
pub struct LegalComments {
    found: Vec<(u32, String)>,
}

/// The view of the found comments.
pub open spec fn found_view(v: Seq<(u32, String)>) -> Seq<(u32, Seq<char>)> {
    v.map_values(|p: (u32, String)| (p.0, p.1@))
}

impl View for LegalComments {
    type V = Seq<(u32, Seq<char>)>;

    closed spec fn view(&self) -> Seq<(u32, Seq<char>)> {
        found_view(self.found@)
    }
}

proof fn lemma_first_position(found: Seq<(u32, Seq<char>)>, t: Seq<char>)
    ensures
        was_found(found, t) <==> first_position(found, t) >= 0,
        first_position(found, t) >= 0 ==> exists|i: int| 0 <= i < found.len() && found[i].1 == t && found[i].0 as int == first_position(found, t),
        forall|i: int| 0 <= i < found.len() && found[i].1 == t ==> first_position(found, t) <= found[i].0 as int,
    decreases found.len(),
{
    if found.len() > 0 {
        let f = found.drop_last();
        lemma_first_position(f, t);
        assert forall|i: int| 0 <= i < f.len() implies found[i] == f[i] by {}
        if was_found(f, t) {
            let i = choose|i: int| 0 <= i < f.len() && #[trigger] f[i].1 == t;
            assert(found[i].1 == t);
        }
        if was_found(found, t) && found.last().1 != t {
            let i = choose|i: int| 0 <= i < found.len() && #[trigger] found[i].1 == t;
            assert(f[i].1 == t);
        }
        if first_position(found, t) >= 0 && first_position(found, t) == first_position(f, t) {
            let i = choose|i: int| 0 <= i < f.len() && f[i].1 == t && f[i].0 as int == first_position(f, t);
            assert(found[i] == f[i]);
        }
    }
}

/// The entries as positions and texts.
pub open spec fn entries_view(v: Seq<(u32, Vec<char>)>) -> Seq<(int, Seq<char>)> {
    v.map_values(|p: (u32, Vec<char>)| (p.0 as int, p.1@))
}

/// The entries are in strictly increasing order of (position, text).
pub open spec fn strictly_sorted(v: Seq<(int, Seq<char>)>) -> bool {
    forall|i: int, j: int| 0 <= i < j < v.len() ==> key_lt(#[trigger] v[i], #[trigger] v[j])
}

/// `key_lt` is transitive.
proof fn lemma_key_lt_transitive(a: (int, Seq<char>), b: (int, Seq<char>), c: (int, Seq<char>))
    requires
        key_lt(a, b),
        key_lt(b, c),
    ensures
        key_lt(a, c),
{
    if a.0 == b.0 && b.0 == c.0 {
        lemma_text_lt_transitive(a.1, b.1, c.1);
    }
}

/// The index of the entry of `entries` whose text is `t`, if there is one.
fn find_text(entries: &Vec<(u32, Vec<char>)>, t: &Vec<char>) -> (r: Option<usize>)
    ensures
        match r {
            Some(x) => x < entries@.len() && entries@[x as int].1@ == t@,
            None => forall|x: int| 0 <= x < entries@.len() ==> #[trigger] entries@[x].1@ != t@,
        },
{
    let mut j: usize = 0;
    while j < entries.len()
        invariant
            j <= entries@.len(),
            forall|x: int| 0 <= x < j ==> #[trigger] entries@[x].1@ != t@,
        decreases entries@.len() - j,
    {
        if chars_equal(&entries[j].1, t) {
            return Some(j);
        }
        j = j + 1;
    }
    None
}

/// Inserts `(p, t)` into the sorted `entries`, where it does not occur yet.
fn insert_sorted(entries: &mut Vec<(u32, Vec<char>)>, p: u32, t: Vec<char>)
    requires
        strictly_sorted(entries_view(old(entries)@)),
        !entries_view(old(entries)@).contains((p as int, t@)),
    ensures
        strictly_sorted(entries_view(final(entries)@)),
        forall|e: (int, Seq<char>)| #[trigger] entries_view(final(entries)@).contains(e)
            <==> (entries_view(old(entries)@).contains(e) || e == (p as int, t@)),
{
    let ghost before = entries_view(entries@);
    let ghost ep = (p as int, t@);
    let mut at: usize = 0;
    while at < entries.len() && !(p < entries[at].0 || (p == entries[at].0 && text_less(&t, &entries[at].1)))
        invariant
            at <= entries@.len(),
            entries_view(entries@) == before,
            ep == (p as int, t@),
            forall|x: int| 0 <= x < at ==> !key_lt(ep, #[trigger] before[x]),
        decreases entries@.len() - at,
    {
        assert(before[at as int] == (entries@[at as int].0 as int, entries@[at as int].1@));
        at = at + 1;
    }
    proof {
        assert forall|x: int| 0 <= x < at implies key_lt(#[trigger] before[x], ep) by {
            assert(before.contains(before[x]));
            if before[x].0 == ep.0 {
                lemma_text_lt_total(before[x].1, ep.1);
            }
        }
        if at < before.len() {
            assert(before[at as int] == (entries@[at as int].0 as int, entries@[at as int].1@));
            assert(key_lt(ep, before[at as int]));
        }
    }
    let ghost old_entries = entries@;
    entries.insert(at, (p, t));
    let ghost after = entries_view(entries@);
    proof {
        assert forall|j: int| 0 <= j < after.len() implies #[trigger] after[j] == (if j < at {
            before[j]
        } else if j == at {
            ep
        } else {
            before[j - 1]
        }) by {
            if j < at {
                assert(entries@[j] == old_entries[j]);
            } else if j > at {
                assert(entries@[j] == old_entries[j - 1]);
            }
        }
        assert forall|x: int, y: int| 0 <= x < y < after.len() implies key_lt(#[trigger] after[x], #[trigger] after[y]) by {
            if x < at && y == at {
            } else if x < at && y > at {
                assert(key_lt(before[x], ep));
                if at < y - 1 {
                    assert(key_lt(before[at as int], before[y - 1]));
                    lemma_key_lt_transitive(ep, before[at as int], before[y - 1]);
                }
                lemma_key_lt_transitive(before[x], ep, before[y - 1]);
            } else if x == at {
                if at < y - 1 {
                    assert(key_lt(before[at as int], before[y - 1]));
                    lemma_key_lt_transitive(ep, before[at as int], before[y - 1]);
                }
            } else if y < at {
                assert(key_lt(before[x], before[y]));
            } else {
                assert(key_lt(before[x - 1], before[y - 1]));
            }
        }
        assert forall|e: (int, Seq<char>)| #[trigger] after.contains(e) <==> (before.contains(e) || e == ep) by {
            if after.contains(e) {
                let j = choose|j: int| 0 <= j < after.len() && after[j] == e;
                if j < at {
                    assert(before[j] == e);
                } else if j > at {
                    assert(before[j - 1] == e);
                }
            }
            if before.contains(e) {
                let j = choose|j: int| 0 <= j < before.len() && before[j] == e;
                if j < at {
                    assert(after[j] == e);
                } else {
                    assert(after[j + 1] == e);
                }
            }
            if e == ep {
                assert(after[at as int] == e);
            }
        }
    }
}

impl LegalComments {
    /// No legal comment found yet.
    pub fn new() -> (r: LegalComments)
        ensures
            r@ == Seq::<(u32, Seq<char>)>::empty(),
    {
        let r = LegalComments { found: Vec::new() };
        assert(r@ =~= Seq::<(u32, Seq<char>)>::empty());
        r
    }

    /// Keeps the legal comments among `comments` and hands back the others, in order.
    pub fn collect(&mut self, comments: Option<Vec<Comment>>) -> (r: Vec<Comment>)
        ensures
            match comments {
                None => r@.len() == 0 && final(self)@ == old(self)@,
                Some(cs) => comments_view(r@) == non_legal_of(comments_view(cs@))
                    && final(self)@ == old(self)@ + legal_of(comments_view(cs@)),
            },
    {
        let mut remaining: Vec<Comment> = Vec::new();
        match comments {
            None => remaining,
            Some(cs) => {
                let ghost all = comments_view(cs@);
                let ghost start = self@;
                let mut cs = cs;
                while cs.len() > 0
                    invariant
                        cs@.len() <= all.len(),
                        comments_view(cs@) == all.subrange(all.len() - cs@.len(), all.len() as int),
                        comments_view(remaining@) == non_legal_of(all.subrange(0, all.len() - cs@.len())),
                        self@ == start + legal_of(all.subrange(0, all.len() - cs@.len())),
                    decreases cs@.len(),
                {
                    let ghost d = all.len() - cs@.len();
                    let ghost before = cs@;
                    let c = cs.remove(0);
                    assert(comment_view(c) == all[d]) by {
                        assert(comments_view(before)[0] == comment_view(before[0]));
                        assert(all.subrange(d, all.len() as int)[0] == all[d]);
                    }
                    assert(comments_view(cs@) =~= all.subrange(d + 1, all.len() as int)) by {
                        assert forall|j: int| 0 <= j < cs@.len() implies comments_view(cs@)[j] == all[d + 1 + j] by {
                            assert(cs@[j] == before[j + 1]);
                            assert(comments_view(before)[j + 1] == comment_view(before[j + 1]));
                            assert(all.subrange(d, all.len() as int)[j + 1] == all[d + 1 + j]);
                        }
                    }
                    assert(all.subrange(0, d + 1).drop_last() =~= all.subrange(0, d));
                    assert(all.subrange(0, d + 1).last() == comment_view(c));
                    if is_legal_comment(c.text.as_str()) {
                        let source = match c.kind {
                            CommentKind::Line => {
                                let mut s = "//".to_owned();
                                s.append(c.text.as_str());
                                s
                            },
                            CommentKind::Block => {
                                let mut s = "/*".to_owned();
                                s.append(c.text.as_str());
                                s.append("*/");
                                s
                            },
                        };
                        let ghost prev = self.found@;
                        self.found.push((c.position, source));
                        assert(found_view(self.found@) =~= found_view(prev).push((c.position, source@)));
                        assert(self@ =~= start + legal_of(all.subrange(0, d + 1)));
                    } else {
                        let ghost prev = remaining@;
                        remaining.push(c);
                        assert(comments_view(remaining@) =~= comments_view(prev).push(comment_view(c)));
                    }
                }
                assert(all.subrange(0, all.len() as int) =~= all);
                remaining
            },
        }
    }

    /// The distinct legal comments found, each once at the first position where it was
    /// found, ordered by that position (and by text between comments at one position).
    pub fn into_comments(self) -> (r: Vec<String>)
        ensures
            ({
                let rv = r@.map_values(|s: String| s@);
                &&& rv.no_duplicates()
                &&& forall|t: Seq<char>| rv.contains(t) <==> was_found(self@, t)
                &&& forall|i: int, j: int| 0 <= i < j < rv.len() ==> key_lt(
                    (first_position(self@, #[trigger] rv[i]), rv[i]),
                    (first_position(self@, #[trigger] rv[j]), rv[j]),
                )
            }),
    {
        let ghost found = self@;
        // one entry per text, at the first position where it was found
        let mut firsts: Vec<(u32, Vec<char>)> = Vec::new();
        let mut i: usize = 0;
        while i < self.found.len()
            invariant
                i <= self.found@.len(),
                found == found_view(self.found@),
                forall|x: int, y: int| 0 <= x < y < firsts@.len() ==> #[trigger] firsts@[x].1@ != #[trigger] firsts@[y].1@,
                forall|x: int| 0 <= x < firsts@.len() ==> #[trigger] firsts@[x].0 as int == first_position(found.subrange(0, i as int), firsts@[x].1@),
                forall|t: Seq<char>| #[trigger] was_found(found.subrange(0, i as int), t) <==> exists|x: int| 0 <= x < firsts@.len() && #[trigger] firsts@[x].1@ == t,
            decreases self.found@.len() - i,
        {
            let pos = self.found[i].0;
            let tv = chars_of(self.found[i].1.as_str());
            let ghost t = tv@;
            let ghost pre = found.subrange(0, i as int);
            let ghost post = found.subrange(0, i + 1);
            let ghost old_firsts = firsts@;
            proof {
                assert(post.drop_last() =~= pre);
                assert(found[i as int] == (self.found@[i as int].0, self.found@[i as int].1@));
                assert(post.last() == (pos, t));
                lemma_first_position(pre, t);
                assert forall|u: Seq<char>| u != t implies (#[trigger] was_found(post, u) <==> was_found(pre, u)) by {
                    if was_found(post, u) {
                        let k = choose|k: int| 0 <= k < post.len() && #[trigger] post[k].1 == u;
                        assert(pre[k] == post[k]);
                    }
                    if was_found(pre, u) {
                        let k = choose|k: int| 0 <= k < pre.len() && #[trigger] pre[k].1 == u;
                        assert(post[k] == pre[k]);
                    }
                }
                assert(was_found(post, t)) by {
                    assert(post[i as int].1 == t);
                }
                assert(was_found(pre, t) <==> exists|x: int| 0 <= x < old_firsts.len() && #[trigger] old_firsts[x].1@ == t);
            }
            let at = find_text(&firsts, &tv);
            match at {
                Some(x) => {
                    if pos < firsts[x].0 {
                        firsts.set(x, (pos, tv));
                    }
                },
                None => {
                    firsts.push((pos, tv));
                },
            }
            proof {
                let n = old_firsts.len();
                assert forall|x: int| 0 <= x < n implies (#[trigger] firsts@[x].1@ == old_firsts[x].1@) by {}
                match at {
                    Some(x) => {
                        assert(firsts@.len() == n);
                        assert(old_firsts[x as int].0 as int == first_position(pre, t));
                    },
                    None => {
                        assert(!was_found(pre, t)) by {
                            if was_found(pre, t) {
                                let y = choose|y: int| 0 <= y < n && #[trigger] old_firsts[y].1@ == t;
                            }
                        }
                        assert(firsts@[n as int].1@ == t);
                    },
                }
                assert forall|x: int, y: int| 0 <= x < y < firsts@.len() implies #[trigger] firsts@[x].1@ != #[trigger] firsts@[y].1@ by {
                    if y < n {
                        assert(old_firsts[x].1@ != old_firsts[y].1@);
                    }
                }
                assert forall|x: int| 0 <= x < firsts@.len() implies #[trigger] firsts@[x].0 as int == first_position(post, firsts@[x].1@) by {
                    if x < n && firsts@[x].1@ != t {
                        assert(firsts@[x] == old_firsts[x]);
                    }
                }
                assert forall|u: Seq<char>| #[trigger] was_found(post, u) <==> exists|x: int| 0 <= x < firsts@.len() && #[trigger] firsts@[x].1@ == u by {
                    if u == t {
                        match at {
                            Some(x) => assert(firsts@[x as int].1@ == u),
                            None => assert(firsts@[n as int].1@ == u),
                        }
                    } else {
                        if was_found(pre, u) {
                            let y = choose|y: int| 0 <= y < n && #[trigger] old_firsts[y].1@ == u;
                            assert(firsts@[y].1@ == u);
                        }
                        if exists|x: int| 0 <= x < firsts@.len() && #[trigger] firsts@[x].1@ == u {
                            let y = choose|y: int| 0 <= y < firsts@.len() && #[trigger] firsts@[y].1@ == u;
                            assert(old_firsts[y].1@ == u);
                        }
                    }
                }
            }
            i = i + 1;
        }
        assert(found.subrange(0, i as int) =~= found);
        // ordered by (first position, text)
        let mut sorted: Vec<(u32, Vec<char>)> = Vec::new();
        let mut k: usize = 0;
        assert(entries_view(sorted@) =~= Seq::<(int, Seq<char>)>::empty());
        while k < firsts.len()
            invariant
                k <= firsts@.len(),
                forall|x: int, y: int| 0 <= x < y < firsts@.len() ==> #[trigger] firsts@[x].1@ != #[trigger] firsts@[y].1@,
                strictly_sorted(entries_view(sorted@)),
                forall|e: (int, Seq<char>)| #[trigger] entries_view(sorted@).contains(e) <==> entries_view(firsts@).subrange(0, k as int).contains(e),
            decreases firsts@.len() - k,
        {
            let p = firsts[k].0;
            let t = copy_chars(&firsts[k].1);
            let ghost fv = entries_view(firsts@);
            proof {
                assert(fv[k as int] == (p as int, t@));
                if entries_view(sorted@).contains((p as int, t@)) {
                    assert(fv.subrange(0, k as int).contains((p as int, t@)));
                    let y = choose|y: int| 0 <= y < k && fv.subrange(0, k as int)[y] == (p as int, t@);
                    assert(fv[y] == (firsts@[y].0 as int, firsts@[y].1@));
                    assert(firsts@[y].1@ != firsts@[k as int].1@);
                }
            }
            insert_sorted(&mut sorted, p, t);
            proof {
                let s0 = fv.subrange(0, k as int);
                let s1 = fv.subrange(0, k + 1);
                assert(s1 =~= s0.push(fv[k as int]));
                assert forall|e: (int, Seq<char>)| #[trigger] entries_view(sorted@).contains(e) <==> s1.contains(e) by {
                    if s0.contains(e) {
                        let y = choose|y: int| 0 <= y < s0.len() && s0[y] == e;
                        assert(s1[y] == e);
                    }
                    if s1.contains(e) {
                        let y = choose|y: int| 0 <= y < s1.len() && s1[y] == e;
                        if y < k {
                            assert(s0[y] == e);
                        }
                    }
                    if e == (p as int, t@) {
                        assert(s1[k as int] == e);
                    }
                }
            }
            k = k + 1;
        }
        let mut out: Vec<String> = Vec::new();
        let mut m: usize = 0;
        while m < sorted.len()
            invariant
                m <= sorted@.len(),
                out@.len() == m,
                forall|x: int| 0 <= x < m ==> #[trigger] out@[x]@ == sorted@[x].1@,
            decreases sorted@.len() - m,
        {
            out.push(string_from_chars(sorted[m].1.as_slice()));
            m = m + 1;
        }
        proof {
            let rv = out@.map_values(|s: String| s@);
            let ev = entries_view(sorted@);
            let fv = entries_view(firsts@);
            assert(fv.subrange(0, fv.len() as int) =~= fv);
            assert forall|x: int| 0 <= x < rv.len() implies #[trigger] rv[x] == ev[x].1 && ev[x].0 == first_position(found, rv[x])
                && was_found(found, rv[x]) by {
                assert(out@[x]@ == sorted@[x].1@);
                assert(ev.contains(ev[x]));
                let z = choose|z: int| 0 <= z < fv.len() && fv[z] == ev[x];
                assert(fv[z] == (firsts@[z].0 as int, firsts@[z].1@));
                assert(firsts@[z].0 as int == first_position(found, firsts@[z].1@));
                assert(exists|y: int| 0 <= y < firsts@.len() && #[trigger] firsts@[y].1@ == firsts@[z].1@);
            }
            assert forall|x: int, y: int| 0 <= x < y < rv.len() implies key_lt(
                (first_position(found, #[trigger] rv[x]), rv[x]),
                (first_position(found, #[trigger] rv[y]), rv[y]),
            ) by {
                assert(key_lt(ev[x], ev[y]));
            }
            assert forall|x: int, y: int| 0 <= x < rv.len() && 0 <= y < rv.len() && x != y implies rv[x] != rv[y] by {
                let (a, b) = if x < y { (x, y) } else { (y, x) };
                assert(key_lt(ev[a], ev[b]));
                if rv[x] == rv[y] {
                    lemma_text_lt_irreflexive(rv[x]);
                }
            }
            assert forall|u: Seq<char>| rv.contains(u) <==> was_found(found, u) by {
                if rv.contains(u) {
                    let x = choose|x: int| 0 <= x < rv.len() && rv[x] == u;
                    assert(rv[x] == ev[x].1);
                }
                if was_found(found, u) {
                    let z = choose|z: int| 0 <= z < firsts@.len() && #[trigger] firsts@[z].1@ == u;
                    assert(fv[z] == (firsts@[z].0 as int, firsts@[z].1@));
                    assert(fv.contains(fv[z]));
                    assert(ev.contains(fv[z]));
                    let x = choose|x: int| 0 <= x < ev.len() && ev[x] == fv[z];
                    assert(rv[x] == ev[x].1);
                }
            }
        }
        out
    }
}

} // verus!
