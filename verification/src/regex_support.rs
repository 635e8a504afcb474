//! Compiled regular expressions from the `regex` crate, kept together with the
//! pattern text they were compiled from so that contracts can speak of it.
use vstd::prelude::*;
use vstd::string::StringSliceAdditionalSpecFns;
use vstd::utf8::is_char_boundary;

verus! {

#[verifier::external_type_specification]
#[verifier::external_body]
pub struct ExRegex(regex::Regex);

#[verifier::external_type_specification]
#[verifier::external_body]
pub struct ExRegexSet(regex::RegexSet);

/// Whether `regex::Regex::new` accepts `pattern`.
pub uninterp spec fn regex_builds(pattern: Seq<char>) -> bool;

/// What `regex::Regex::is_match` answers for `pattern` on `haystack`.
pub uninterp spec fn regex_is_match(pattern: Seq<char>, haystack: Seq<char>) -> bool;

/// The byte spans that `regex::Regex::find_iter` yields for `pattern` on `haystack`.
pub uninterp spec fn regex_find_spans(pattern: Seq<char>, haystack: Seq<char>) -> Seq<(int, int)>;

/// The spans that `regex::Regex::captures_iter` yields for `pattern` on `haystack`:
/// the whole match, and the span of the group called `group` when it took part.
pub uninterp spec fn regex_group_spans(pattern: Seq<char>, group: Seq<char>, haystack: Seq<char>) -> Seq<(int, int, Option<(int, int)>)>;

/// Whether `regex::RegexSet::new` accepts `patterns`.
pub uninterp spec fn regex_set_builds(patterns: Seq<Seq<char>>) -> bool;

/// What `regex::RegexSet::is_match` answers for the set of `patterns` on `haystack`.
pub uninterp spec fn regex_set_is_match(patterns: Seq<Seq<char>>, haystack: Seq<char>) -> bool;

/// A byte span lies inside `bytes` and starts and ends on character boundaries.
pub open spec fn span_in(bytes: Seq<u8>, start: int, end: int) -> bool {
    &&& 0 <= start <= end <= bytes.len()
    &&& is_char_boundary(bytes, start)
    &&& is_char_boundary(bytes, end)
}

/// Byte spans that lie inside `bytes`, in increasing order and without overlap.
pub open spec fn spans_well_formed(spans: Seq<(int, int)>, bytes: Seq<u8>) -> bool {
    &&& forall|i: int| 0 <= i < spans.len() ==> #[trigger] span_in(bytes, spans[i].0, spans[i].1)
    &&& forall|i: int| 0 <= i < spans.len() - 1 ==> #[trigger] spans[i].1 <= spans[i + 1].0
}

/// Spans of whole matches, each with an optional group span inside `bytes`.
pub open spec fn group_spans_well_formed(spans: Seq<(int, int, Option<(int, int)>)>, bytes: Seq<u8>) -> bool {
    &&& spans_well_formed(whole_spans(spans), bytes)
    &&& forall|i: int| 0 <= i < spans.len() ==> match #[trigger] spans[i].2 {
        Some(g) => span_in(bytes, g.0, g.1),
        None => true,
    }
}

/// The whole-match part of capture spans.
pub open spec fn whole_spans(spans: Seq<(int, int, Option<(int, int)>)>) -> Seq<(int, int)> {
    spans.map_values(|c: (int, int, Option<(int, int)>)| (c.0, c.1))
}

/// Spans held as machine integers, read as mathematical ones.
pub open spec fn int_spans(v: Seq<(usize, usize)>) -> Seq<(int, int)> {
    v.map_values(|p: (usize, usize)| (p.0 as int, p.1 as int))
}

/// A match of a capturing search: the whole span and the span of one named group.
#[derive(Clone, Copy, Debug)]
pub struct CaptureSpan {
    pub start: usize,
    pub end: usize,
    pub group: Option<(usize, usize)>,
}

/// Capture spans held as machine integers, read as mathematical ones.
pub open spec fn int_capture_spans(v: Seq<CaptureSpan>) -> Seq<(int, int, Option<(int, int)>)> {
    v.map_values(
        |c: CaptureSpan|
            (
                c.start as int,
                c.end as int,
                match c.group {
                    Some(g) => Some((g.0 as int, g.1 as int)),
                    None => None,
                },
            ),
    )
}

/// The views of a list of strings.
pub open spec fn string_views(v: Seq<String>) -> Seq<Seq<char>> {
    v.map_values(|s: String| s@)
}

/// A compiled regular expression together with its source text.
pub struct Pattern {
    source: String,
    regex: regex::Regex,
}

impl Pattern {
    /// The text this pattern was compiled from.
    pub closed spec fn source(&self) -> Seq<char> {
        self.source@
    }

    /// Compiles `pattern` with `regex::Regex::new`; `None` when the crate refuses it.
    #[verifier::external_body]
    pub(crate) fn compile(pattern: &str) -> (r: Option<Pattern>)
        ensures
            r is Some <==> regex_builds(pattern@),
            r matches Some(p) ==> p.source() == pattern@,
    {
        match regex::Regex::new(pattern) {
            Ok(regex) => Some(Pattern { source: pattern.to_string(), regex }),
            Err(_) => None,
        }
    }

    /// Calls `regex::Regex::is_match`.
    #[verifier::external_body]
    pub(crate) fn is_match(&self, haystack: &str) -> (r: bool)
        ensures
            r == regex_is_match(self.source(), haystack@),
    {
        self.regex.is_match(haystack)
    }

    /// Calls `regex::Regex::find_iter` and keeps the byte span of every match.
    #[verifier::external_body]
    pub(crate) fn find_spans(&self, haystack: &str) -> (r: Vec<(usize, usize)>)
        ensures
            int_spans(r@) == regex_find_spans(self.source(), haystack@),
            spans_well_formed(int_spans(r@), haystack.spec_bytes()),
    {
        self.regex.find_iter(haystack).map(|m| (m.start(), m.end())).collect()
    }

    /// Calls `regex::Regex::captures_iter` and keeps, for every match, its byte span
    /// and the byte span of the group named `group`.
    #[verifier::external_body]
    pub(crate) fn group_spans(&self, group: &str, haystack: &str) -> (r: Vec<CaptureSpan>)
        ensures
            int_capture_spans(r@) == regex_group_spans(self.source(), group@, haystack@),
            group_spans_well_formed(int_capture_spans(r@), haystack.spec_bytes()),
    {
        self.regex.captures_iter(haystack).map(|c| {
            let whole = c.get(0).unwrap();
            CaptureSpan {
                start: whole.start(),
                end: whole.end(),
                group: c.name(group).map(|g| (g.start(), g.end())),
            }
        }).collect()
    }
}

/// A compiled set of regular expressions together with their source texts.
pub struct PatternSet {
    patterns: Vec<String>,
    set: regex::RegexSet,
}

impl PatternSet {
    /// The texts this set was compiled from.
    pub closed spec fn patterns(&self) -> Seq<Seq<char>> {
        string_views(self.patterns@)
    }

    /// Compiles `patterns` with `regex::RegexSet::new`; `None` when the crate refuses them.
    #[verifier::external_body]
    pub(crate) fn compile(patterns: Vec<String>) -> (r: Option<PatternSet>)
        ensures
            r is Some <==> regex_set_builds(string_views(patterns@)),
            r matches Some(p) ==> p.patterns() == string_views(patterns@),
    {
        match regex::RegexSet::new(&patterns) {
            Ok(set) => Some(PatternSet { patterns, set }),
            Err(_) => None,
        }
    }

    /// Calls `regex::RegexSet::is_match`.
    #[verifier::external_body]
    pub(crate) fn is_match(&self, haystack: &str) -> (r: bool)
        ensures
            r == regex_set_is_match(self.patterns(), haystack@),
    {
        self.set.is_match(haystack)
    }
}

} // verus!
