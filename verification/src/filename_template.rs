//! Placeholders in file-name templates: `[name]` and `[contenthash]` / `[contenthash:N]`.
use vstd::prelude::*;
use vstd::string::StringExecFns;
use vstd::string::StringSliceAdditionalSpecFns;
use vstd::string::StrSliceExecFns;
use vstd::utf8::*;
use crate::regex_support::{Pattern, regex_builds, regex_find_spans, regex_group_spans, regex_is_match, int_spans, int_capture_spans, whole_spans, span_in};
use crate::text::{byte_slice, chars_of, chars_last_index_of, chars_start_with_at, last_index_of, seq_starts_with, string_from_chars};

verus! {

/// The pattern of the `[name]` placeholder.
pub open spec fn name_placeholder_pattern() -> Seq<char> {
    "\\[name\\]"@
}

/// The pattern of the `[contenthash]` and `[contenthash:N]` placeholders.
pub open spec fn content_hash_placeholder_pattern() -> Seq<char> {
    "\\[contenthash(?::(?P<len>\\d+))?\\]"@
}

/// The name of the length group of the content-hash pattern.
pub open spec fn length_group() -> Seq<char> {
    "len"@
}

/// Where the text before the `k`-th span starts: at the start, or at the end of the span
/// before it.
pub open spec fn gap_start(spans: Seq<(int, int)>, k: int) -> int {
    if k <= 0 {
        0
    } else {
        spans[k - 1].1
    }
}

/// The text before the `k`-th span, followed by its replacement, for every span before
/// the `k`-th.
pub open spec fn splice_upto(bytes: Seq<u8>, spans: Seq<(int, int)>, repl: spec_fn(int) -> Seq<char>, k: nat) -> Seq<char>
    decreases k,
{
    if k == 0 {
        Seq::empty()
    } else {
        splice_upto(bytes, spans, repl, (k - 1) as nat) + decode_utf8(bytes.subrange(gap_start(spans, k - 1), spans[k - 1].0))
            + repl(k - 1)
    }
}

/// The text whose UTF-8 bytes are `bytes`, with the `k`-th span replaced by `repl(k)`.
pub open spec fn splice(bytes: Seq<u8>, spans: Seq<(int, int)>, repl: spec_fn(int) -> Seq<char>) -> Seq<char> {
    splice_upto(bytes, spans, repl, spans.len()) + decode_utf8(bytes.subrange(gap_start(spans, spans.len() as int), bytes.len() as int))
}

/// What `[name]` becomes when the template continues with `after`: the name, without its
/// extension when the template continues with that same extension.
pub open spec fn name_replacement(name: Seq<char>, after: Seq<char>) -> Seq<char> {
    match last_index_of(name, '.') {
        Some(d) => if seq_starts_with(after, name.subrange(d, name.len() as int)) {
            name.subrange(0, d)
        } else {
            name
        },
        None => name,
    }
}

/// The last position of `c` in `s` is the position `d` that holds `c` with no `c` after it.
proof fn lemma_last_index_is(s: Seq<char>, c: char, d: int)
    requires
        0 <= d < s.len(),
        s[d] == c,
        forall|k: int| d < k < s.len() ==> s[k] != c,
    ensures
        last_index_of(s, c) == Some(d),
    decreases s.len(),
{
    if d < s.len() - 1 {
        lemma_last_index_is(s.drop_last(), c, d);
    }
}

/// Without `c`, `s` has no last position of it.
proof fn lemma_last_index_none(s: Seq<char>, c: char)
    requires
        forall|k: int| 0 <= k < s.len() ==> s[k] != c,
    ensures
        last_index_of(s, c) is None,
    decreases s.len(),
{
    if s.len() > 0 {
        lemma_last_index_none(s.drop_last(), c);
    }
}

/// Law: where `d` is the position of the name's last `.`, `[name]` followed in the
/// template by the name's extension (from that `.`) becomes the name without that one
/// extension, every earlier `.` kept; followed by anything else, it becomes the whole name.
pub proof fn law_name_drops_only_its_last_extension(name: Seq<char>, after: Seq<char>, d: int)
    requires
        0 <= d < name.len(),
        name[d] == '.',
        forall|k: int| d < k < name.len() ==> name[k] != '.',
    ensures
        seq_starts_with(after, name.subrange(d, name.len() as int)) ==> name_replacement(name, after) == name.subrange(0, d),
        !seq_starts_with(after, name.subrange(d, name.len() as int)) ==> name_replacement(name, after) == name,
{
    lemma_last_index_is(name, '.', d);
}

/// Law: a name without `.` always replaces `[name]` whole.
pub proof fn law_name_without_extension_is_kept(name: Seq<char>, after: Seq<char>)
    requires
        forall|k: int| 0 <= k < name.len() ==> name[k] != '.',
    ensures
        name_replacement(name, after) == name,
{
    lemma_last_index_none(name, '.');
}

/// `s` with every `[name]` placeholder replaced.
pub open spec fn spec_replace_name(s: Seq<char>, name: Seq<char>) -> Seq<char> {
    let bytes = encode_utf8(s);
    let spans = regex_find_spans(name_placeholder_pattern(), s);
    splice(bytes, spans, |k: int| name_replacement(name, decode_utf8(bytes.subrange(spans[k].1, bytes.len() as int))))
}

/// An ASCII decimal digit.
pub open spec fn is_ascii_digit(c: char) -> bool {
    '0' <= c <= '9'
}

/// The value of a string of decimal digits.
pub open spec fn digits_value(s: Seq<char>) -> nat
    decreases s.len(),
{
    if s.len() == 0 {
        0
    } else {
        digits_value(s.drop_last()) * 10 + ((s.last() as nat) - ('0' as nat)) as nat
    }
}

/// `s` without a leading `+`.
pub open spec fn sign_stripped(s: Seq<char>) -> Seq<char> {
    if s.len() > 0 && s[0] == '+' { s.drop_first() } else { s }
}

/// What `str::parse::<usize>` gives: an optional `+` followed by one or more ASCII
/// digits whose value fits in `usize`.
pub open spec fn parse_usize(s: Seq<char>) -> Option<nat> {
    let digits = sign_stripped(s);
    if digits.len() == 0 || exists|i: int| 0 <= i < digits.len() && !is_ascii_digit(#[trigger] digits[i]) {
        None
    } else if digits_value(digits) <= usize::MAX {
        Some(digits_value(digits))
    } else {
        None
    }
}

proof fn lemma_digits_value_grows(s: Seq<char>, i: int)
    requires
        0 <= i <= s.len(),
        forall|k: int| 0 <= k < s.len() ==> is_ascii_digit(#[trigger] s[k]),
    ensures
        digits_value(s) >= digits_value(s.subrange(0, i)),
    decreases s.len() - i,
{
    if i < s.len() {
        lemma_digits_value_grows(s, i + 1);
        let t = s.subrange(0, i + 1);
        assert(t.drop_last() =~= s.subrange(0, i));
        assert(digits_value(t) >= digits_value(s.subrange(0, i))) by (nonlinear_arith)
            requires
                digits_value(t) == digits_value(s.subrange(0, i)) * 10 + ((t.last() as nat) - ('0' as nat)) as nat,
        ;
    } else {
        assert(s.subrange(0, i) =~= s);
    }
}

/// Parses `s` as `str::parse::<usize>` does.
pub fn parse_decimal(s: &str) -> (r: Option<usize>)
    ensures
        match parse_usize(s@) {
            Some(v) => r == Some(v as usize),
            None => r is None,
        },
{
    let chars = chars_of(s);
    let start: usize = if chars.len() > 0 && chars[0] == '+' { 1 } else { 0 };
    let ghost digits = sign_stripped(s@);
    assert(digits =~= chars@.subrange(start as int, chars@.len() as int));
    if start == chars.len() {
        return None;
    }
    let mut value: usize = 0;
    let mut i: usize = start;
    while i < chars.len()
        invariant
            start <= i <= chars@.len(),
            chars@ == s@,
            digits == sign_stripped(s@),
            digits == chars@.subrange(start as int, chars@.len() as int),
            forall|k: int| start <= k < i ==> is_ascii_digit(#[trigger] chars@[k]),
            value as nat == digits_value(chars@.subrange(start as int, i as int)),
        decreases chars@.len() - i,
    {
        let c = chars[i];
        if !('0' <= c && c <= '9') {
            assert(!is_ascii_digit(digits[i - start]));
            assert(!is_ascii_digit(sign_stripped(s@)[i - start]));
            assert(parse_usize(s@) is None);
            return None;
        }
        let d = (c as u32 - '0' as u32) as usize;
        assert(chars@.subrange(start as int, i + 1).drop_last() =~= chars@.subrange(start as int, i as int));
        assert(chars@.subrange(start as int, i + 1).last() == c);
        assert(digits_value(chars@.subrange(start as int, i + 1)) == value * 10 + d);
        match value.checked_mul(10) {
            Some(v10) => match v10.checked_add(d) {
                Some(v) => {
                    value = v;
                },
                None => {
                    proof {
                        if forall|k: int| 0 <= k < digits.len() ==> is_ascii_digit(#[trigger] digits[k]) {
                            lemma_digits_value_grows(digits, i + 1 - start);
                            assert(digits.subrange(0, i + 1 - start) =~= chars@.subrange(start as int, i + 1));
                        }
                    }
                    assert(parse_usize(s@) is None);
                    return None;
                },
            },
            None => {
                proof {
                    if forall|k: int| 0 <= k < digits.len() ==> is_ascii_digit(#[trigger] digits[k]) {
                        lemma_digits_value_grows(digits, i + 1 - start);
                        assert(digits.subrange(0, i + 1 - start) =~= chars@.subrange(start as int, i + 1));
                    }
                }
                assert(parse_usize(s@) is None);
                return None;
            },
        }
        i = i + 1;
    }
    assert(chars@.subrange(start as int, i as int) =~= digits);
    Some(value)
}

/// How many characters of the hash `[contenthash]` (no length) or `[contenthash:N]`
/// keeps: `N` (all of it when `N` is missing, does not parse, or is longer).
pub open spec fn hash_cut(hash_len: nat, len_text: Option<Seq<char>>) -> nat {
    let wanted = match len_text {
        None => hash_len,
        Some(t) => if t.len() == 0 {
            hash_len
        } else {
            match parse_usize(t) {
                Some(v) => v,
                None => hash_len,
            }
        },
    };
    if wanted < hash_len {
        wanted
    } else {
        hash_len
    }
}

/// The text of the length group of the `k`-th match, if the group took part.
pub open spec fn group_text(bytes: Seq<u8>, spans: Seq<(int, int, Option<(int, int)>)>, k: int) -> Option<Seq<char>> {
    match spans[k].2 {
        Some(g) => Some(decode_utf8(bytes.subrange(g.0, g.1))),
        None => None,
    }
}

/// How many characters of `hash` the `k`-th content-hash placeholder of `s` keeps.
pub open spec fn hash_cut_at(s: Seq<char>, hash: Seq<char>, k: int) -> nat {
    let spans = regex_group_spans(content_hash_placeholder_pattern(), length_group(), s);
    hash_cut(hash.len(), group_text(encode_utf8(s), spans, k))
}

/// `s` with every content-hash placeholder replaced by `hash`, cut to the characters
/// the placeholder keeps.
pub open spec fn spec_replace_content_hash(s: Seq<char>, hash: Seq<char>) -> Seq<char> {
    let spans = regex_group_spans(content_hash_placeholder_pattern(), length_group(), s);
    splice(encode_utf8(s), whole_spans(spans), |k: int| hash.subrange(0, hash_cut_at(s, hash, k) as int))
}

/// Whether `s` contains a `[name]` placeholder. The placeholder pattern must compile.
pub fn match_name_placeholder(s: &str) -> (r: bool)
    requires
        regex_builds(name_placeholder_pattern()),
    ensures
        r == regex_is_match(name_placeholder_pattern(), s@),
{
    let pattern = Pattern::compile("\\[name\\]");
    match pattern {
        Some(p) => p.is_match(s),
        None => false,
    }
}

/// Whether `s` contains a `[name]` placeholder; `None` when the placeholder pattern does
/// not compile.
pub fn try_match_name_placeholder(s: &str) -> (r: Option<bool>)
    ensures
        r is Some <==> regex_builds(name_placeholder_pattern()),
        r matches Some(b) ==> b == regex_is_match(name_placeholder_pattern(), s@),
{
    if Pattern::compile("\\[name\\]").is_none() {
        return None;
    }
    Some(match_name_placeholder(s))
}

/// Whether `s` contains a `[contenthash]` or `[contenthash:N]` placeholder. The
/// placeholder pattern must compile.
pub fn match_content_hash_placeholder(s: &str) -> (r: bool)
    requires
        regex_builds(content_hash_placeholder_pattern()),
    ensures
        r == regex_is_match(content_hash_placeholder_pattern(), s@),
{
    let pattern = Pattern::compile("\\[contenthash(?::(?P<len>\\d+))?\\]");
    match pattern {
        Some(p) => p.is_match(s),
        None => false,
    }
}

/// Whether `s` contains a content-hash placeholder; `None` when the placeholder pattern
/// does not compile.
pub fn try_match_content_hash_placeholder(s: &str) -> (r: Option<bool>)
    ensures
        r is Some <==> regex_builds(content_hash_placeholder_pattern()),
        r matches Some(b) ==> b == regex_is_match(content_hash_placeholder_pattern(), s@),
{
    if Pattern::compile("\\[contenthash(?::(?P<len>\\d+))?\\]").is_none() {
        return None;
    }
    Some(match_content_hash_placeholder(s))
}

/// The replacement of `[name]` when the template continues with `after`.
fn name_for(name: &Vec<char>, after: &str) -> (r: Vec<char>)
    ensures
        r@ == name_replacement(name@, after@),
{
    proof {
        crate::text::lemma_last_index_of(name@, '.');
    }
    match chars_last_index_of(name.as_slice(), '.') {
        Some(dot) => {
            let after_chars = chars_of(after);
            let ext = slice_chars(name, dot, name.len());
            assert(after_chars@.subrange(0, after_chars@.len() as int) =~= after_chars@);
            if chars_start_with_at(after_chars.as_slice(), 0, ext.as_slice()) {
                slice_chars(name, 0, dot)
            } else {
                let r = slice_chars(name, 0, name.len());
                assert(r@ =~= name@);
                r
            }
        },
        None => {
            let r = slice_chars(name, 0, name.len());
            assert(r@ =~= name@);
            r
        },
    }
}

/// The characters `a..b` of `v`.
fn slice_chars(v: &Vec<char>, a: usize, b: usize) -> (r: Vec<char>)
    requires
        a <= b <= v@.len(),
    ensures
        r@ == v@.subrange(a as int, b as int),
{
    let mut out: Vec<char> = Vec::new();
    let mut i = a;
    while i < b
        invariant
            a <= i <= b,
            b <= v@.len(),
            out@ == v@.subrange(a as int, i as int),
        decreases b - i,
    {
        out.push(v[i]);
        assert(out@ =~= v@.subrange(a as int, i + 1));
        i = i + 1;
    }
    out
}

/// Replaces every `[name]` placeholder of the template `s` with `name`. When the name
/// ends with an extension and the template continues right after the placeholder with
/// that same extension, the extension is left out of the name, so that `foo.js` in
/// `[name].js` gives `foo.js` and not `foo.js.js`. The placeholder pattern must compile.
pub fn replace_name_placeholder(s: &str, name: &str) -> (r: String)
    requires
        regex_builds(name_placeholder_pattern()),
    ensures
        r@ == spec_replace_name(s@, name@),
{
    let pattern = Pattern::compile("\\[name\\]").unwrap();
    let spans = pattern.find_spans(s);
    let ghost bytes = s.spec_bytes();
    let ghost sp = int_spans(spans@);
    let ghost repl = |k: int| name_replacement(name@, decode_utf8(bytes.subrange(sp[k].1, bytes.len() as int)));
    let name_chars = chars_of(name);
    let total = s.as_bytes().len();
    proof {
        encode_utf8_valid_utf8(s@);
        is_char_boundary_start_end_of_seq(bytes);
    }
    let mut out = String::new();
    let mut prev: usize = 0;
    let mut k: usize = 0;
    while k < spans.len()
        invariant
            k <= spans@.len(),
            total == bytes.len(),
            bytes == s.spec_bytes(),
            sp == int_spans(spans@),
            sp == regex_find_spans(name_placeholder_pattern(), s@),
            crate::regex_support::spans_well_formed(sp, bytes),
            name_chars@ == name@,
            repl == (|k: int| name_replacement(name@, decode_utf8(bytes.subrange(sp[k].1, bytes.len() as int)))),
            prev as int == gap_start(sp, k as int),
            prev <= total,
            valid_utf8(bytes),
            is_char_boundary(bytes, prev as int),
            is_char_boundary(bytes, bytes.len() as int),
            out@ == splice_upto(bytes, sp, repl, k as nat),
        decreases spans@.len() - k,
    {
        let (a, b) = spans[k];
        assert(span_in(bytes, sp[k as int].0, sp[k as int].1));
        proof {
            if k > 0 {
                assert(sp[k - 1].1 <= sp[k - 1 + 1].0);
            }
        }
        let gap = byte_slice(s, prev, a);
        out.append(gap);
        let after = byte_slice(s, b, total);
        assert(bytes.subrange(b as int, total as int) == bytes.subrange(sp[k as int].1, bytes.len() as int));
        let replacement = name_for(&name_chars, after);
        let rs = string_from_chars(replacement.as_slice());
        out.append(rs.as_str());
        prev = b;
        k = k + 1;
    }
    let tail = byte_slice(s, prev, total);
    out.append(tail);
    out
}

/// The replacement of a content-hash placeholder: the first characters of `hash`, as
/// many as the length text asks for.
fn hash_prefix(hash: &Vec<char>, len_text: Option<&str>) -> (r: String)
    ensures
        r@ == hash@.subrange(0, hash_cut(hash@.len(), match len_text { Some(t) => Some(t@), None => None }) as int),
{
    let hash_len = hash.len();
    let wanted = match len_text {
        None => hash_len,
        Some(t) => if t.is_empty() {
            hash_len
        } else {
            match parse_decimal(t) {
                Some(v) => v,
                None => hash_len,
            }
        },
    };
    let cut = if wanted < hash_len { wanted } else { hash_len };
    let mut kept: Vec<char> = Vec::new();
    let mut i: usize = 0;
    while i < cut
        invariant
            i <= cut,
            cut <= hash@.len(),
            kept@ == hash@.subrange(0, i as int),
        decreases cut - i,
    {
        kept.push(hash[i]);
        assert(kept@ =~= hash@.subrange(0, i + 1));
        i = i + 1;
    }
    string_from_chars(kept.as_slice())
}

/// Replaces the content-hash placeholders.
fn replace_hash_spans(s: &str, hash: &str) -> (r: String)
    requires
        regex_builds(content_hash_placeholder_pattern()),
    ensures
        r@ == spec_replace_content_hash(s@, hash@),
{
    let pattern = Pattern::compile("\\[contenthash(?::(?P<len>\\d+))?\\]").unwrap();
    let spans = pattern.group_spans("len", s);
    let hash_chars = chars_of(hash);
    let ghost bytes = s.spec_bytes();
    let ghost cs = int_capture_spans(spans@);
    let ghost sp = whole_spans(cs);
    let ghost repl = |k: int| hash@.subrange(0, hash_cut_at(s@, hash@, k) as int);
    let total = s.as_bytes().len();
    proof {
        encode_utf8_valid_utf8(s@);
        is_char_boundary_start_end_of_seq(bytes);
    }
    let mut out = String::new();
    let mut prev: usize = 0;
    let mut k: usize = 0;
    while k < spans.len()
        invariant
            k <= spans@.len(),
            total == bytes.len(),
            bytes == s.spec_bytes(),
            hash_chars@ == hash@,
            cs == int_capture_spans(spans@),
            cs == regex_group_spans(content_hash_placeholder_pattern(), length_group(), s@),
            sp == whole_spans(cs),
            crate::regex_support::group_spans_well_formed(cs, bytes),
            repl == (|k: int| hash@.subrange(0, hash_cut_at(s@, hash@, k) as int)),
            prev as int == gap_start(sp, k as int),
            prev <= total,
            valid_utf8(bytes),
            is_char_boundary(bytes, prev as int),
            is_char_boundary(bytes, bytes.len() as int),
            out@ == splice_upto(bytes, sp, repl, k as nat),
        decreases spans@.len() - k,
    {
        let c = spans[k];
        assert(sp[k as int] == (c.start as int, c.end as int));
        assert(span_in(bytes, sp[k as int].0, sp[k as int].1));
        proof {
            if k > 0 {
                assert(sp[k - 1].1 <= sp[k - 1 + 1].0);
            }
        }
        let gap = byte_slice(s, prev, c.start);
        let len_text = match c.group {
            Some((ga, gb)) => {
                assert(cs[k as int].2 == Some((ga as int, gb as int)));
                Some(byte_slice(s, ga, gb))
            },
            None => None,
        };
        assert(match len_text { Some(t) => Some(t@), None => None } == group_text(bytes, cs, k as int));
        let p = hash_prefix(&hash_chars, len_text);
        out.append(gap);
        out.append(p.as_str());
        prev = c.end;
        k = k + 1;
    }
    let tail = byte_slice(s, prev, total);
    out.append(tail);
    out
}

/// Replaces every `[contenthash]` / `[contenthash:N]` placeholder of the template `s` with
/// `hash`, cut to its first `N` characters when `N` is given (and fits). The placeholder
/// pattern must compile.
pub fn replace_content_hash_placeholder(s: &str, hash: &str) -> (r: String)
    requires
        regex_builds(content_hash_placeholder_pattern()),
    ensures
        r@ == spec_replace_content_hash(s@, hash@),
{
    replace_hash_spans(s, hash)
}

/// Replaces the content-hash placeholders of `s`; `None` when the placeholder pattern does
/// not compile.
pub fn try_replace_content_hash_placeholder(s: &str, hash: &str) -> (r: Option<String>)
    ensures
        r is Some <==> regex_builds(content_hash_placeholder_pattern()),
        r matches Some(t) ==> t@ == spec_replace_content_hash(s@, hash@),
{
    if Pattern::compile("\\[contenthash(?::(?P<len>\\d+))?\\]").is_none() {
        return None;
    }
    Some(replace_content_hash_placeholder(s, hash))
}

/// Replaces the `[name]` placeholders of `s`; `None` when the placeholder pattern does not
/// compile.
pub fn try_replace_name_placeholder(s: &str, name: &str) -> (r: Option<String>)
    ensures
        r is Some <==> regex_builds(name_placeholder_pattern()),
        r matches Some(t) ==> t@ == spec_replace_name(s@, name@),
{
    if Pattern::compile("\\[name\\]").is_none() {
        return None;
    }
    Some(replace_name_placeholder(s, name))
}

} // verus!
