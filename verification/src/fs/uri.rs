//! `file://` URIs for paths of the origin-private file system, built without looking at
//! the disk.
use vstd::prelude::*;
use vstd::string::StringExecFns;
use vstd::utf8::encode_utf8;
use crate::text::{chars_of, seq_starts_with, string_from_chars};

verus! {

/// A byte kept as it is by percent-encoding: an ASCII letter or digit, or `-`, `.`, `_`, `~`.
pub open spec fn is_unreserved(b: u8) -> bool {
    (48 <= b <= 57) || (65 <= b <= 90) || (97 <= b <= 122) || b == 45 || b == 46 || b == 95 || b == 126
}

/// The upper-case hexadecimal digit for `d`, below sixteen.
pub open spec fn hex_digit(d: int) -> char {
    if d < 10 {
        (48 + d) as char
    } else {
        (55 + d) as char
    }
}

/// Percent-encoding of one byte.
pub open spec fn encode_byte(b: u8) -> Seq<char> {
    if is_unreserved(b) {
        seq![b as char]
    } else {
        seq!['%', hex_digit((b / 16) as int), hex_digit((b % 16) as int)]
    }
}

/// Percent-encoding of `bytes`: each byte kept or written as `%` and two upper-case
/// hexadecimal digits.
pub open spec fn percent_encode(bytes: Seq<u8>) -> Seq<char>
    decreases bytes.len(),
{
    if bytes.len() == 0 {
        Seq::empty()
    } else {
        percent_encode(bytes.drop_last()) + encode_byte(bytes.last())
    }
}

/// The parts of `s` between `/` characters, empty ones included.
pub open spec fn split_on_slash(s: Seq<char>) -> Seq<Seq<char>>
    decreases s.len(),
{
    if s.len() == 0 {
        seq![Seq::empty()]
    } else {
        let rest = split_on_slash(s.drop_last());
        if s.last() == '/' {
            rest.push(Seq::empty())
        } else {
            rest.update(rest.len() - 1, rest.last().push(s.last()))
        }
    }
}

/// The percent-encoded parts, joined with `/`.
pub open spec fn join_encoded(parts: Seq<Seq<char>>) -> Seq<char>
    decreases parts.len(),
{
    if parts.len() == 0 {
        Seq::empty()
    } else if parts.len() == 1 {
        percent_encode(encode_utf8(parts[0]))
    } else {
        join_encoded(parts.drop_last()) + "/"@ + percent_encode(encode_utf8(parts.last()))
    }
}

/// The `file://` URI of `path`.
pub open spec fn file_uri(path: Seq<char>) -> Seq<char> {
    "file://"@ + join_encoded(split_on_slash(path))
}

/// `urlencoding::encode`: percent-encodes the UTF-8 bytes of `segment`, keeping ASCII
/// letters, digits and `-`, `.`, `_`, `~`.
#[verifier::external_body]
fn url_encode(segment: &str) -> (r: String)
    ensures
        r@ == percent_encode(encode_utf8(segment@)),
{
    urlencoding::encode(segment).into_owned()
}

proof fn lemma_split_nonempty(s: Seq<char>)
    ensures
        split_on_slash(s).len() >= 1,
    decreases s.len(),
{
    if s.len() > 0 {
        lemma_split_nonempty(s.drop_last());
    }
}

/// The `file://` URI of an origin-private file-system path: each part of the path between
/// `/`s percent-encoded, the parts joined with `/`.
pub fn uri_from_path_buf(sys_path: &str) -> (r: String)
    ensures
        r@ == file_uri(sys_path@),
{
    let chars = chars_of(sys_path);
    let mut out = "file://".to_owned();
    let mut segment: Vec<char> = Vec::new();
    let mut done: Vec<char> = Vec::new();
    let mut i: usize = 0;
    proof {
        reveal_strlit("file://");
        assert(chars@.subrange(0, 0) =~= Seq::<char>::empty());
    }
    while i < chars.len()
        invariant
            i <= chars@.len(),
            chars@ == sys_path@,
            out@ == "file://"@,
            ({
                let parts = split_on_slash(chars@.subrange(0, i as int));
                &&& parts.len() >= 1
                &&& segment@ == parts.last()
                &&& done@ == (if parts.len() == 1 { Seq::empty() } else { join_encoded(parts.drop_last()) + "/"@ })
            }),
        decreases chars@.len() - i,
    {
        let ghost parts = split_on_slash(chars@.subrange(0, i as int));
        let c = chars[i];
        assert(chars@.subrange(0, i + 1).drop_last() =~= chars@.subrange(0, i as int));
        if c == '/' {
            let encoded = url_encode(string_from_chars(segment.as_slice()).as_str());
            let e = chars_of(encoded.as_str());
            let mut k: usize = 0;
            let ghost d0 = done@;
            while k < e.len()
                invariant
                    k <= e@.len(),
                    done@ == d0 + e@.subrange(0, k as int),
                decreases e@.len() - k,
            {
                done.push(e[k]);
                assert(done@ =~= d0 + e@.subrange(0, k + 1));
                k = k + 1;
            }
            done.push('/');
            segment = Vec::new();
            proof {
                reveal_strlit("/");
                let np = split_on_slash(chars@.subrange(0, i + 1));
                assert(np == parts.push(Seq::empty()));
                assert(np.drop_last() =~= parts);
                assert(e@.subrange(0, k as int) =~= e@);
                if parts.len() == 1 {
                    assert(join_encoded(parts) == percent_encode(encode_utf8(parts[0])));
                    assert(done@ =~= join_encoded(parts) + "/"@);
                } else {
                    assert(parts.drop_last() == parts.drop_last());
                    assert(done@ =~= join_encoded(parts) + "/"@);
                }
                assert(segment@ =~= np.last());
            }
        } else {
            segment.push(c);
            proof {
                let np = split_on_slash(chars@.subrange(0, i + 1));
                assert(np == parts.update(parts.len() - 1, parts.last().push(c)));
                assert(np.drop_last() =~= parts.drop_last());
            }
        }
        i = i + 1;
    }
    assert(chars@.subrange(0, i as int) =~= chars@);
    let last = url_encode(string_from_chars(segment.as_slice()).as_str());
    let head = string_from_chars(done.as_slice());
    out.append(head.as_str());
    out.append(last.as_str());
    proof {
        reveal_strlit("/");
        assert(out@ =~= "file://"@ + join_encoded(split_on_slash(sys_path@)));
    }
    out
}

/// The serialization of the `file://` url that `url::Url::from_file_path` makes of the path
/// written `path`, as the build target reads paths; `None` where it refuses the path (one
/// that is not absolute, and on Windows one without a disk or UNC prefix).
pub uninterp spec fn file_url_of(path: Seq<char>) -> Option<Seq<char>>;

/// `url::Url::from_file_path`: the `file://` url of an absolute path, as the platform
/// writes paths; `None` for a path it refuses. Its text is what [`file_url_of`] names
/// for `path`, and it starts with `file://`.
#[verifier::external_body]
fn url_from_file_path(path: &str) -> (r: Option<String>)
    ensures
        file_url_of(path@) == match r {
            Some(u) => Some(u@),
            None => None::<Seq<char>>,
        },
        r matches Some(u) ==> seq_starts_with(u@, "file://"@),
{
    match url::Url::from_file_path(path) {
        Ok(url) => Some(String::from(url)),
        Err(()) => None,
    }
}

/// A path that has no `file://` url.
#[derive(Debug)]
pub struct UriError {
    pub path: String,
}

/// The `file://` url of the file-system path `sys_path`, as the url crate writes it; an
/// error naming the path when it has none (it is not absolute).
pub fn uri_from_file(sys_path: &str) -> (r: Result<String, UriError>)
    ensures
        match file_url_of(sys_path@) {
            Some(u) => r matches Ok(v) && v@ == u,
            None => r matches Err(e) && e.path@ == sys_path@,
        },
        r matches Ok(u) ==> seq_starts_with(u@, "file://"@),
{
    match url_from_file_path(sys_path) {
        Some(u) => Ok(u),
        None => Err(UriError { path: sys_path.to_owned() }),
    }
}

} // verus!
