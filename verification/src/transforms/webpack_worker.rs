//! Webpack loaders run in a web worker: what the worker is given, and the module made of a
//! file when the loaders are bypassed.
use base64::Engine;
use vstd::prelude::*;
use vstd::string::StringExecFns;
use vstd::utf8::{decode_utf8, valid_utf8};
use crate::json::{json_quote, json_string};
use crate::text::{chars_of, string_from_chars};

verus! {

/// The standard base64 encoding of `bytes`, with padding.
pub uninterp spec fn base64_standard(bytes: Seq<u8>) -> Seq<char>;

/// `base64::engine::general_purpose::STANDARD.encode`: the standard base64 encoding of
/// `bytes`, with padding; nothing more is claimed of it here.
#[verifier::external_body]
fn encode_base64(bytes: &[u8]) -> (r: String)
    ensures
        r@ == base64_standard(bytes@),
{
    base64::engine::general_purpose::STANDARD.encode(bytes)
}

/// `std::str::from_utf8`: the text of `bytes` when they are valid UTF-8.
#[verifier::external_body]
fn utf8_text(bytes: &[u8]) -> (r: Option<String>)
    ensures
        r is Some <==> valid_utf8(bytes@),
        r matches Some(t) ==> t@ == decode_utf8(bytes@),
{
    match std::str::from_utf8(bytes) {
        Ok(t) => Some(t.to_owned()),
        Err(_) => None,
    }
}

/// `char::is_alphanumeric`: the character is alphabetic or numeric in Unicode.
pub uninterp spec fn unicode_alphanumeric(c: char) -> bool;

/// `char::is_alphanumeric`, as the standard library decides it.
#[verifier::external_body]
fn is_alphanumeric(c: char) -> (r: bool)
    ensures
        r == unicode_alphanumeric(c),
{
    c.is_alphanumeric()
}

/// The content handed to the loaders: a text, or bytes that are not UTF-8 as base64.
#[derive(Debug)]
pub enum LoaderContent {
    Text(String),
    Binary { base64: String },
}

/// The content handed to the loaders in the worker: empty content as an empty text, UTF-8
/// as its text, anything else as base64.
pub fn loader_content(content: &[u8]) -> (r: LoaderContent)
    ensures
        content@.len() == 0 ==> (r matches LoaderContent::Text(t) && t@ == Seq::<char>::empty()),
        content@.len() > 0 && valid_utf8(content@) ==> (r matches LoaderContent::Text(t) && t@ == decode_utf8(content@)),
        content@.len() > 0 && !valid_utf8(content@) ==> (r matches LoaderContent::Binary { base64 } && base64@ == base64_standard(content@)),
{
    if content.len() == 0 {
        return LoaderContent::Text(String::new());
    }
    match utf8_text(content) {
        Some(text) => LoaderContent::Text(text),
        None => LoaderContent::Binary { base64: encode_base64(content) },
    }
}

/// The path the loaders see: the file's path in the project, or its full path.
pub fn loader_resource_path(relative_path: Option<String>, full_path: String) -> (r: String)
    ensures
        r == match relative_path {
            Some(p) => p,
            None => full_path,
        },
{
    match relative_path {
        Some(p) => p,
        None => full_path,
    }
}

/// What the in-worker webpack loaders make of a file.
#[derive(Debug)]
pub struct LoadersOutput {
    /// The module's code.
    pub source: String,
    /// Its source map.
    pub map: Option<String>,
    /// Warnings.
    pub warnings: Option<Vec<String>>,
}

/// `c` is kept in a source-map file name: alphanumeric or `.`.
pub open spec fn keeps_char(c: char) -> bool {
    unicode_alphanumeric(c) || c == '.'
}

/// `path` with every character other than an alphanumeric one or `.` replaced by `_`.
pub open spec fn sanitized(path: Seq<char>) -> Seq<char> {
    path.map_values(|c: char| if keeps_char(c) { c } else { '_' })
}

/// The code made of a text file, which names the file and keeps the text.
pub open spec fn spec_text_module(path: Seq<char>, text: Seq<char>) -> Seq<char> {
    "/* WebWorker Webpack Loaders - Processed via TypeScript bridge */\n/* Resource: "@ + path
        + " */\n/* Loaders applied - delegated to JS runtime */\n"@ + text
}

/// The source map of the code made of a text file.
pub open spec fn spec_text_module_map(path: Seq<char>) -> Seq<char> {
    "{\"version\":3,\"sources\":[\""@ + path + "\"],\"mappings\":\"AAAA\",\"names\":[],\"file\":\""@
        + sanitized(path) + "\",\"sourceRoot\":\"\"}"@
}

/// The code made of a binary file: a data url of its bytes.
pub open spec fn spec_binary_module(bytes: Seq<u8>) -> Seq<char> {
    "module.exports = \"data:application/octet-stream;base64,"@ + base64_standard(bytes) + "\";"@
}

/// The file being processed.
#[derive(Debug)]
pub enum LoaderSource {
    /// The source is not a file.
    NotAFile,
    /// The file is missing.
    Missing,
    /// The bytes of the file.
    Bytes(Vec<u8>),
}

fn sanitize(path: &str) -> (r: String)
    ensures
        r@ == sanitized(path@),
{
    let v = chars_of(path);
    let mut out: Vec<char> = Vec::new();
    let mut i: usize = 0;
    while i < v.len()
        invariant
            i <= v@.len(),
            out@ == sanitized(v@.subrange(0, i as int)),
        decreases v@.len() - i,
    {
        let c = v[i];
        let keep = is_alphanumeric(c) || c == '.';
        out.push(if keep { c } else { '_' });
        assert(out@ =~= sanitized(v@.subrange(0, i + 1)));
        i = i + 1;
    }
    assert(v@.subrange(0, i as int) =~= v@);
    string_from_chars(out.as_slice())
}

/// The module the in-worker webpack loaders make of the file at `resource_path`: only
/// files are processed; a missing file exports an empty object, with a warning; a binary
/// file exports a data url of its bytes; a text file keeps its text under a comment that
/// names the file, with a source map when `source_maps` is set.
pub fn process_webworker_webpack_loaders(source: LoaderSource, resource_path: &str, source_maps: bool) -> (r: Result<LoadersOutput, String>)
    ensures
        match source {
            LoaderSource::NotAFile => r matches Err(e) && e@ == "WebWorker Webpack Loaders transform only support transforming files"@,
            LoaderSource::Missing => r matches Ok(o) && o.source@ == "module.exports = {};"@ && o.map is None
                && o.warnings is Some && o.warnings.unwrap()@.len() == 1 && o.warnings.unwrap()@[0]@ == "File not found"@,
            LoaderSource::Bytes(b) => if valid_utf8(b@) {
                r matches Ok(o) && o.source@ == spec_text_module(resource_path@, decode_utf8(b@)) && o.warnings is None
                    && (source_maps ==> (o.map matches Some(m) && m@ == spec_text_module_map(resource_path@)))
                    && (!source_maps ==> o.map is None)
            } else {
                r matches Ok(o) && o.source@ == spec_binary_module(b@) && o.map is None && o.warnings is None
            },
        },
{
    match source {
        LoaderSource::NotAFile => Err("WebWorker Webpack Loaders transform only support transforming files".to_owned()),
        LoaderSource::Missing => {
            let mut warnings: Vec<String> = Vec::new();
            warnings.push("File not found".to_owned());
            Ok(LoadersOutput { source: "module.exports = {};".to_owned(), map: None, warnings: Some(warnings) })
        },
        LoaderSource::Bytes(bytes) => match utf8_text(bytes.as_slice()) {
            None => {
                let mut code = "module.exports = \"data:application/octet-stream;base64,".to_owned();
                code.append(encode_base64(bytes.as_slice()).as_str());
                code.append("\";");
                Ok(LoadersOutput { source: code, map: None, warnings: None })
            },
            Some(text) => {
                let mut code = "/* WebWorker Webpack Loaders - Processed via TypeScript bridge */\n/* Resource: ".to_owned();
                code.append(resource_path);
                code.append(" */\n/* Loaders applied - delegated to JS runtime */\n");
                code.append(text.as_str());
                let map = if source_maps {
                    let mut m = "{\"version\":3,\"sources\":[\"".to_owned();
                    m.append(resource_path);
                    m.append("\"],\"mappings\":\"AAAA\",\"names\":[],\"file\":\"");
                    m.append(sanitize(resource_path).as_str());
                    m.append("\",\"sourceRoot\":\"\"}");
                    Some(m)
                } else {
                    None
                };
                Ok(LoadersOutput { source: code, map, warnings: None })
            },
        },
    }
}

/// What the in-worker loaders are run on.
#[derive(Debug)]
pub enum LoaderRun {
    /// The file is missing: the result is empty.
    Empty,
    /// Run the loaders on this content, read from this path.
    Run { content: LoaderContent, resource_path: String },
}

/// How running the webpack loaders in a worker starts: only files are processed; a missing
/// file gives an empty result; otherwise the loaders get the file's content (see
/// [`loader_content`]) and its path in the project (or its full path).
pub fn execute_webpack_loaders_webworker(source: LoaderSource, relative_path: Option<String>, full_path: String) -> (r: Result<LoaderRun, String>)
    ensures
        match source {
            LoaderSource::NotAFile => r matches Err(e) && e@ == "Webpack Loaders WebWorker transform only support transforming files"@,
            LoaderSource::Missing => r matches Ok(LoaderRun::Empty),
            LoaderSource::Bytes(b) => r matches Ok(LoaderRun::Run { content, resource_path })
                && resource_path == (match relative_path {
                    Some(p) => p,
                    None => full_path,
                })
                && (b@.len() == 0 ==> (content matches LoaderContent::Text(t) && t@ == Seq::<char>::empty()))
                && (b@.len() > 0 && valid_utf8(b@) ==> (content matches LoaderContent::Text(t) && t@ == decode_utf8(b@)))
                && (b@.len() > 0 && !valid_utf8(b@) ==> (content matches LoaderContent::Binary { base64 } && base64@ == base64_standard(b@))),
        },
{
    match source {
        LoaderSource::NotAFile => Err("Webpack Loaders WebWorker transform only support transforming files".to_owned()),
        LoaderSource::Missing => Ok(LoaderRun::Empty),
        LoaderSource::Bytes(bytes) => {
            let content = loader_content(bytes.as_slice());
            Ok(LoaderRun::Run { content, resource_path: loader_resource_path(relative_path, full_path) })
        },
    }
}

/// A webpack loader and its options, already written as JSON.
#[derive(Debug)]
pub struct LoaderItem {
    pub loader: String,
    pub options_json: String,
}

/// The JSON of the content handed to the loaders.
pub open spec fn spec_content_json(c: LoaderContent) -> Seq<char> {
    match c {
        LoaderContent::Text(t) => json_quote(t@),
        LoaderContent::Binary { base64 } => "{\"binary\":"@ + json_quote(base64@) + "}"@,
    }
}

/// The JSON of one loader.
pub open spec fn spec_loader_json(l: LoaderItem) -> Seq<char> {
    "{\"loader\":"@ + json_quote(l.loader@) + ",\"options\":"@ + l.options_json@ + "}"@
}

/// The JSON of the loaders, separated by commas.
pub open spec fn spec_loader_items(ls: Seq<LoaderItem>) -> Seq<char>
    decreases ls.len(),
{
    if ls.len() == 0 {
        Seq::empty()
    } else if ls.len() == 1 {
        spec_loader_json(ls[0])
    } else {
        spec_loader_items(ls.drop_last()) + ","@ + spec_loader_json(ls.last())
    }
}

/// The message that asks the worker to run `loaders` on `content`, read from `name`,
/// with `query`, from the directory `cwd`: JSON with its keys in order.
pub open spec fn spec_loader_payload(content: LoaderContent, name: Seq<char>, query: Seq<char>, loaders: Seq<LoaderItem>, source_map: bool, cwd: Seq<char>) -> Seq<char> {
    "{\"content\":"@ + spec_content_json(content) + ",\"cwd\":"@ + json_quote(cwd) + ",\"loaders\":["@
        + spec_loader_items(loaders) + "],\"name\":"@ + json_quote(name) + ",\"query\":"@ + json_quote(query)
        + ",\"sourceMap\":"@ + (if source_map { "true"@ } else { "false"@ }) + "}"@
}

/// The message that asks the worker to run the loaders.
pub fn loader_payload(content: &LoaderContent, name: &str, query: &str, loaders: &Vec<LoaderItem>, source_map: bool, cwd: &str) -> (r: String)
    ensures
        r@ == spec_loader_payload(*content, name@, query@, loaders@, source_map, cwd@),
{
    let content_json = match content {
        LoaderContent::Text(t) => json_string(t.as_str()),
        LoaderContent::Binary { base64 } => {
            let mut c = "{\"binary\":".to_owned();
            c.append(json_string(base64.as_str()).as_str());
            c.append("}");
            c
        },
    };
    assert(content_json@ =~= spec_content_json(*content));
    let mut items = String::new();
    let mut i: usize = 0;
    proof {
        reveal_strlit("");
        assert(loaders@.subrange(0, 0) =~= Seq::<LoaderItem>::empty());
    }
    while i < loaders.len()
        invariant
            i <= loaders@.len(),
            items@ == spec_loader_items(loaders@.subrange(0, i as int)),
        decreases loaders@.len() - i,
    {
        if i > 0 {
            items.append(",");
        }
        let l = &loaders[i];
        let mut one = "{\"loader\":".to_owned();
        one.append(json_string(l.loader.as_str()).as_str());
        one.append(",\"options\":");
        one.append(l.options_json.as_str());
        one.append("}");
        items.append(one.as_str());
        proof {
            let prefix = loaders@.subrange(0, i + 1);
            assert(prefix.drop_last() =~= loaders@.subrange(0, i as int));
            assert(prefix.last() == loaders@[i as int]);
            assert(one@ =~= spec_loader_json(loaders@[i as int]));
            assert(items@ =~= spec_loader_items(prefix));
        }
        i = i + 1;
    }
    assert(loaders@.subrange(0, i as int) =~= loaders@);
    let mut m = "{\"content\":".to_owned();
    m.append(content_json.as_str());
    m.append(",\"cwd\":");
    m.append(json_string(cwd).as_str());
    m.append(",\"loaders\":[");
    m.append(items.as_str());
    m.append("],\"name\":");
    m.append(json_string(name).as_str());
    m.append(",\"query\":");
    m.append(json_string(query).as_str());
    m.append(",\"sourceMap\":");
    if source_map {
        m.append("true");
    } else {
        m.append("false");
    }
    m.append("}");
    assert(m@ =~= spec_loader_payload(*content, name@, query@, loaders@, source_map, cwd@));
    m
}

/// How the identity of an asset processed by the loaders differs from its source's.
#[derive(Debug)]
pub enum IdentChange {
    /// The asset is renamed.
    RenameAs(String),
    /// The asset keeps the source's name with this modifier.
    Modifier(String),
}

/// The identity of an asset processed by the loaders: renamed when a new name is given,
/// otherwise marked with the `webpack-webworker` modifier.
pub fn processed_asset_ident(rename_as: Option<String>) -> (r: IdentChange)
    ensures
        match rename_as {
            Some(n) => r matches IdentChange::RenameAs(m) && m == n,
            None => r matches IdentChange::Modifier(m) && m@ == "webpack-webworker"@,
        },
{
    match rename_as {
        Some(n) => IdentChange::RenameAs(n),
        None => IdentChange::Modifier("webpack-webworker".to_owned()),
    }
}

} // verus!
