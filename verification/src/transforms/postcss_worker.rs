//! PostCSS run by a web worker: the messages sent to the worker, how its replies are
//! taken, and the decisions of the transform around it.
use vstd::prelude::*;
use vstd::string::StringExecFns;
use crate::json::{json_quote, json_string};
use crate::text::{chars_of, chars_start_with_at, seq_starts_with, str_equal};

verus! {

/// `s` with every occurrence of `pattern` (which is not empty), taken from left to right
/// without overlap, replaced by `replacement`.
pub open spec fn replace_all(s: Seq<char>, pattern: Seq<char>, replacement: Seq<char>) -> Seq<char>
    decreases s.len(),
{
    if s.len() == 0 || pattern.len() == 0 {
        s
    } else if seq_starts_with(s, pattern) {
        replacement + replace_all(s.subrange(pattern.len() as int, s.len() as int), pattern, replacement)
    } else {
        seq![s[0]] + replace_all(s.drop_first(), pattern, replacement)
    }
}

/// `s` with every `pattern` replaced by `replacement`, as `str::replace` does.
pub fn replace_str(s: &str, pattern: &str, replacement: &str) -> (r: String)
    requires
        pattern@.len() > 0,
    ensures
        r@ == replace_all(s@, pattern@, replacement@),
{
    let v = chars_of(s);
    let p = chars_of(pattern);
    let rep = chars_of(replacement);
    let mut out: Vec<char> = Vec::new();
    let mut i: usize = 0;
    assert(v@.subrange(0, v@.len() as int) =~= v@);
    while i < v.len()
        invariant
            i <= v@.len(),
            p@.len() > 0,
            out@ + replace_all(v@.subrange(i as int, v@.len() as int), p@, rep@) == replace_all(v@, p@, rep@),
        decreases v@.len() - i,
    {
        let ghost rest = v@.subrange(i as int, v@.len() as int);
        if chars_start_with_at(v.as_slice(), i, p.as_slice()) {
            let mut k: usize = 0;
            let ghost before = out@;
            while k < rep.len()
                invariant
                    k <= rep@.len(),
                    out@ == before + rep@.subrange(0, k as int),
                decreases rep@.len() - k,
            {
                out.push(rep[k]);
                assert(out@ =~= before + rep@.subrange(0, k + 1));
                k = k + 1;
            }
            proof {
                assert(rep@.subrange(0, k as int) =~= rep@);
                assert(rest.subrange(p@.len() as int, rest.len() as int) =~= v@.subrange(i + p@.len(), v@.len() as int));
                assert(before + replace_all(rest, p@, rep@) =~= out@ + replace_all(v@.subrange(i + p@.len(), v@.len() as int), p@, rep@));
            }
            i = i + p.len();
        } else {
            let ghost before = out@;
            out.push(v[i]);
            proof {
                assert(rest[0] == v@[i as int]);
                assert(rest.drop_first() =~= v@.subrange(i + 1, v@.len() as int));
                assert(before + replace_all(rest, p@, rep@) =~= out@ + replace_all(v@.subrange(i + 1, v@.len() as int), p@, rep@));
            }
            i = i + 1;
        }
    }
    assert(v@.subrange(i as int, v@.len() as int) =~= Seq::<char>::empty());
    assert(out@ =~= replace_all(v@, p@, rep@));
    crate::text::string_from_chars(out.as_slice())
}

/// The message that initializes the worker, with the configuration file when there is
/// one and the autoprefixer plugin; JSON with its keys in order.
pub open spec fn spec_init_message(config_path: Option<Seq<char>>) -> Seq<char> {
    match config_path {
        Some(p) => "{\"data\":{\"config\":{\"configPath\":"@ + json_quote(p)
            + ",\"plugins\":{\"autoprefixer\":true}}},\"type\":\"init\"}"@,
        None => "{\"data\":{\"config\":{\"plugins\":{\"autoprefixer\":true}}},\"type\":\"init\"}"@,
    }
}

/// The message that initializes the worker.
pub fn init_message(config_path: Option<&str>) -> (r: String)
    ensures
        r@ == spec_init_message(match config_path {
            Some(p) => Some(p@),
            None => None,
        }),
{
    match config_path {
        Some(path) => {
            let mut m = "{\"data\":{\"config\":{\"configPath\":".to_owned();
            m.append(json_string(path).as_str());
            m.append(",\"plugins\":{\"autoprefixer\":true}}},\"type\":\"init\"}");
            m
        },
        None => "{\"data\":{\"config\":{\"plugins\":{\"autoprefixer\":true}}},\"type\":\"init\"}".to_owned(),
    }
}

/// The message that asks the worker to transform `content`, read from `resource_path`
/// and written to the same path with `.css` replaced by `.out.css`; JSON with its keys in
/// order.
pub open spec fn spec_transform_message(content: Seq<char>, resource_path: Seq<char>, source_map: bool) -> Seq<char> {
    "{\"data\":"@ + json_quote(content) + ",\"options\":{\"css\":"@ + json_quote(content) + ",\"from\":"@
        + json_quote(resource_path) + ",\"map\":"@ + (if source_map { "true"@ } else { "false"@ }) + ",\"to\":"@
        + json_quote(replace_all(resource_path, ".css"@, ".out.css"@)) + "},\"type\":\"transform\"}"@
}

/// The message that asks the worker to transform `content`.
pub fn transform_message(content: &str, resource_path: &str, source_map: bool) -> (r: String)
    ensures
        r@ == spec_transform_message(content@, resource_path@, source_map),
{
    proof {
        reveal_strlit(".css");
    }
    let quoted_content = json_string(content);
    let to = replace_str(resource_path, ".css", ".out.css");
    let mut m = "{\"data\":".to_owned();
    m.append(quoted_content.as_str());
    m.append(",\"options\":{\"css\":");
    m.append(quoted_content.as_str());
    m.append(",\"from\":");
    m.append(json_string(resource_path).as_str());
    m.append(",\"map\":");
    if source_map {
        m.append("true");
    } else {
        m.append("false");
    }
    m.append(",\"to\":");
    m.append(json_string(to.as_str()).as_str());
    m.append("},\"type\":\"transform\"}");
    assert(m@ =~= spec_transform_message(content@, resource_path@, source_map));
    m
}

/// The step of the exchange with the worker.
#[derive(Clone, Copy, Debug, PartialEq, Eq, Structural)]
pub enum WorkerPhase {
    Initialization,
    Transformation,
}

/// What a reply of the worker says, when it is a JSON text: its `type` and `error` fields
/// where they are strings.
#[derive(Debug)]
pub struct WorkerReply {
    pub kind: Option<String>,
    pub error: Option<String>,
}

/// What to do with a reply of the worker.
#[derive(Debug)]
pub enum ReplyAction {
    /// The reply does not concern the current step.
    Ignore,
    /// The step succeeded.
    Resolve,
    /// The step failed with this message.
    Reject(String),
}

/// The `type` of a successful reply in `phase`.
pub open spec fn success_kind(phase: WorkerPhase) -> Seq<char> {
    match phase {
        WorkerPhase::Initialization => "init_success"@,
        WorkerPhase::Transformation => "transform_success"@,
    }
}

/// The `type` of a failed reply in `phase`.
pub open spec fn error_kind(phase: WorkerPhase) -> Seq<char> {
    match phase {
        WorkerPhase::Initialization => "init_error"@,
        WorkerPhase::Transformation => "transform_error"@,
    }
}

/// The message of a failure reported without one in `phase`.
pub open spec fn unknown_error(phase: WorkerPhase) -> Seq<char> {
    match phase {
        WorkerPhase::Initialization => "Unknown initialization error"@,
        WorkerPhase::Transformation => "Unknown transformation error"@,
    }
}

/// The text of an optional string.
pub open spec fn opt_text(s: Option<String>) -> Option<Seq<char>> {
    match s {
        Some(t) => Some(t@),
        None => None,
    }
}

/// The `type` and `error` texts of a reply, `None` when it was not JSON.
pub open spec fn reply_fields(reply: Option<WorkerReply>) -> Option<(Option<Seq<char>>, Option<Seq<char>>)> {
    match reply {
        Some(m) => Some((opt_text(m.kind), opt_text(m.error))),
        None => None,
    }
}

/// `r` is what to do in `phase` with a reply whose `type` and `error` texts are `fields`
/// (`None` when it was not JSON): a success of the step resolves it, a failure rejects
/// it with its error (or a default message), anything else is ignored.
pub open spec fn reply_action_is(phase: WorkerPhase, fields: Option<(Option<Seq<char>>, Option<Seq<char>>)>, r: ReplyAction) -> bool {
    match fields {
        None => r is Ignore,
        Some((kind, error)) => match kind {
            None => r is Ignore,
            Some(k) => if k == success_kind(phase) {
                r is Resolve
            } else if k == error_kind(phase) {
                r matches ReplyAction::Reject(e) && e@ == match error {
                    Some(x) => x,
                    None => unknown_error(phase),
                }
            } else {
                r is Ignore
            },
        },
    }
}

/// What to do with a reply of the worker in `phase` (`None` when it is not a JSON text):
/// a success of the step resolves it, a failure rejects it with its error (or a default
/// message), anything else is ignored.
pub fn classify_reply(phase: WorkerPhase, reply: Option<WorkerReply>) -> (r: ReplyAction)
    ensures
        reply_action_is(phase, reply_fields(reply), r),
{
    let m = match reply {
        None => return ReplyAction::Ignore,
        Some(m) => m,
    };
    let kind = match &m.kind {
        None => return ReplyAction::Ignore,
        Some(k) => k,
    };
    let (success, failure, unknown) = match phase {
        WorkerPhase::Initialization => ("init_success", "init_error", "Unknown initialization error"),
        WorkerPhase::Transformation => ("transform_success", "transform_error", "Unknown transformation error"),
    };
    if str_equal(kind.as_str(), success) {
        return ReplyAction::Resolve;
    }
    if str_equal(kind.as_str(), failure) {
        return ReplyAction::Reject(match m.error {
            Some(e) => e,
            None => unknown.to_owned(),
        });
    }
    ReplyAction::Ignore
}

/// What PostCSS gave back: the style sheet, its source map, and the assets it emitted.
#[derive(Debug)]
pub struct PostCssProcessingResult<A> {
    pub css: String,
    pub map: Option<String>,
    pub assets: Option<Vec<A>>,
}

/// The result of a transformation from the `css`, `map` and `assets` fields of the
/// worker's data (each where it has the right type); the style sheet is required.
pub fn processing_result<A>(css: Option<String>, map: Option<String>, assets: Option<Vec<A>>) -> (r: Result<PostCssProcessingResult<A>, String>)
    ensures
        match css {
            Some(c) => r matches Ok(p) && p.css == c && p.map == map && p.assets == assets,
            None => r matches Err(e) && e@ == "Missing 'css' field in worker result"@,
        },
{
    match css {
        Some(css) => Ok(PostCssProcessingResult { css, map, assets }),
        None => Err("Missing 'css' field in worker result".to_owned()),
    }
}

/// The content of the style sheet being transformed.
#[derive(Debug)]
pub enum SourceFile {
    /// The source is not a file.
    NotAFile,
    /// The file is missing.
    Missing,
    /// The text of the file.
    Text(String),
}

/// How a transformation starts.
#[derive(Debug)]
pub enum TransformStart {
    /// It fails with this message.
    Fail(String),
    /// The result is a missing file.
    NotFound,
    /// The result is the source as it is.
    PassThrough,
    /// Run PostCSS on this text, read from this path.
    Run { content: String, resource_path: String },
}

/// How the web-worker PostCSS transform starts: it only transforms files; a missing file
/// gives a missing file; otherwise PostCSS runs on the text, which is named by its path
/// in the project, or `input.css` when it is not in the project.
pub fn start_postcss_worker(source: SourceFile, relative_path: Option<String>) -> (r: TransformStart)
    ensures
        match source {
            SourceFile::NotAFile => r matches TransformStart::Fail(m) && m@ == "PostCSS Web Worker transform only supports transforming files"@,
            SourceFile::Missing => r is NotFound,
            SourceFile::Text(t) => r matches TransformStart::Run { content, resource_path } && content == t
                && resource_path@ == match relative_path {
                    Some(p) => p@,
                    None => "input.css"@,
                },
        },
{
    match source {
        SourceFile::NotAFile => TransformStart::Fail("PostCSS Web Worker transform only supports transforming files".to_owned()),
        SourceFile::Missing => TransformStart::NotFound,
        SourceFile::Text(content) => {
            let resource_path = match relative_path {
                Some(p) => p,
                None => "input.css".to_owned(),
            };
            TransformStart::Run { content, resource_path }
        },
    }
}

/// How the in-browser PostCSS transform starts: without a configuration the source is
/// used as it is; it only transforms files; a missing file gives a missing file;
/// otherwise PostCSS runs on the text, named by its path in the project (empty when it is
/// not in the project).
pub fn start_browser_postcss(config_found: bool, source: SourceFile, relative_path: Option<String>) -> (r: TransformStart)
    ensures
        !config_found ==> r is PassThrough,
        config_found ==> match source {
            SourceFile::NotAFile => r matches TransformStart::Fail(m) && m@ == "Browser PostCSS transform only support transforming files"@,
            SourceFile::Missing => r is NotFound,
            SourceFile::Text(t) => r matches TransformStart::Run { content, resource_path } && content == t
                && resource_path@ == match relative_path {
                    Some(p) => p@,
                    None => Seq::<char>::empty(),
                },
        },
{
    if !config_found {
        return TransformStart::PassThrough;
    }
    match source {
        SourceFile::NotAFile => TransformStart::Fail("Browser PostCSS transform only support transforming files".to_owned()),
        SourceFile::Missing => TransformStart::NotFound,
        SourceFile::Text(content) => {
            let resource_path = match relative_path {
                Some(p) => p,
                None => String::new(),
            };
            TransformStart::Run { content, resource_path }
        },
    }
}

/// The `type` and `error` fields, each where it is a string, of the JSON value written in
/// `text`; `None` when `text` is not JSON.
pub uninterp spec fn json_reply_fields(text: Seq<char>) -> Option<(Option<Seq<char>>, Option<Seq<char>>)>;

/// `serde_json::from_str` into a `serde_json::Value`, then its `type` and `error` fields
/// where they are strings; `None` when `data` is not JSON.
#[verifier::external_body]
fn parse_worker_reply(data: &str) -> (r: Option<WorkerReply>)
    ensures
        reply_fields(r) == json_reply_fields(data@),
{
    match serde_json::from_str::<serde_json::Value>(data) {
        Ok(value) => Some(WorkerReply {
            kind: value["type"].as_str().map(str::to_owned),
            error: value["error"].as_str().map(str::to_owned),
        }),
        Err(_) => None,
    }
}

/// What to do with the message `data` of the worker during `phase`: the message is read
/// as JSON, and its `type` and `error` decide as [`classify_reply`] says.
pub fn on_worker_message(phase: WorkerPhase, data: &str) -> (r: ReplyAction)
    ensures
        reply_action_is(phase, json_reply_fields(data@), r),
{
    classify_reply(phase, parse_worker_reply(data))
}

/// The `css` and `map` fields, each where it is a string, and the elements of the `assets`
/// array (each written back as JSON), where it is an array, of the `data` field of the
/// JSON value written in `text`; `None` when `text` is not JSON.
pub uninterp spec fn json_transform_data(text: Seq<char>) -> Option<(Option<Seq<char>>, Option<Seq<char>>, Option<Seq<Seq<char>>>)>;

/// The texts of a list of strings.
pub open spec fn opt_texts(v: Option<Vec<String>>) -> Option<Seq<Seq<char>>> {
    match v {
        Some(items) => Some(items@.map_values(|t: String| t@)),
        None => None,
    }
}

/// The fields of a transformation reply as texts.
pub open spec fn data_fields(d: Option<(Option<String>, Option<String>, Option<Vec<String>>)>) -> Option<(Option<Seq<char>>, Option<Seq<char>>, Option<Seq<Seq<char>>>)> {
    match d {
        Some((css, map, assets)) => Some((opt_text(css), opt_text(map), opt_texts(assets))),
        None => None,
    }
}

/// `serde_json::from_str` into a `serde_json::Value`, then the `css`, `map` and `assets`
/// fields of its `data` field, as [`json_transform_data`] says; `None` when `reply` is not
/// JSON.
#[verifier::external_body]
fn parse_transform_data(reply: &str) -> (r: Option<(Option<String>, Option<String>, Option<Vec<String>>)>)
    ensures
        data_fields(r) == json_transform_data(reply@),
{
    match serde_json::from_str::<serde_json::Value>(reply) {
        Ok(value) => Some((
            value["data"]["css"].as_str().map(str::to_owned),
            value["data"]["map"].as_str().map(str::to_owned),
            value["data"]["assets"].as_array().map(|assets| assets.iter().map(|a| a.to_string()).collect()),
        )),
        Err(_) => None,
    }
}

/// The result of a transformation from the worker's final reply, read as JSON: its `data`
/// holds the style sheet, its source map and the assets PostCSS emitted (each as its JSON
/// text). A reply that is not JSON fails, and so does one without a style sheet.
pub fn transformation_result(reply: &str) -> (r: Result<PostCssProcessingResult<String>, String>)
    ensures
        match json_transform_data(reply@) {
            None => r matches Err(e) && e@ == "Failed to parse worker transformation response"@,
            Some((css, map, assets)) => match css {
                None => r matches Err(e) && e@ == "Missing 'css' field in worker result"@,
                Some(c) => r matches Ok(p) && p.css@ == c && opt_text(p.map) == map && opt_texts(p.assets) == assets,
            },
        },
{
    match parse_transform_data(reply) {
        None => Err("Failed to parse worker transformation response".to_owned()),
        Some((css, map, assets)) => processing_result(css, map, assets),
    }
}

/// The content a PostCSS transform gives.
#[derive(Debug)]
pub enum CssContent {
    /// The source file is missing.
    NotFound,
    /// A file with this style sheet.
    File(String),
}

/// What a PostCSS transform gives: its content, and the assets it emits.
#[derive(Debug)]
pub struct PostCssOutput<A> {
    pub content: CssContent,
    pub assets: Vec<A>,
}

/// How the web-worker PostCSS transform ends, from how it started (see
/// [`start_postcss_worker`]) and, when it ran PostCSS, what the worker gave: a failure to
/// start is the error; a missing file gives a missing file; otherwise the worker's style
/// sheet becomes the file, and a failure of the worker is reported with its context. No
/// asset is emitted.
pub fn finish_postcss_worker<A, B>(start: TransformStart, processing: Option<Result<PostCssProcessingResult<B>, String>>) -> (r: Result<PostCssOutput<A>, String>)
    requires
        !(start is PassThrough),
        start is Run ==> processing is Some,
    ensures
        match start {
            TransformStart::Fail(m) => r matches Err(e) && e == m,
            TransformStart::NotFound => r matches Ok(o) && o.content is NotFound && o.assets@.len() == 0,
            TransformStart::PassThrough => false,
            TransformStart::Run { .. } => match processing {
                Some(Ok(p)) => r matches Ok(o) && o.content == CssContent::File(p.css) && o.assets@.len() == 0,
                Some(Err(e)) => r matches Err(m) && m@ == "Failed to process CSS with PostCSS Web Worker: "@ + e@,
                None => false,
            },
        },
{
    match start {
        TransformStart::Fail(m) => Err(m),
        TransformStart::NotFound => Ok(PostCssOutput { content: CssContent::NotFound, assets: Vec::new() }),
        TransformStart::PassThrough => Ok(PostCssOutput { content: CssContent::NotFound, assets: Vec::new() }),
        TransformStart::Run { .. } => match processing {
            Some(Ok(p)) => Ok(PostCssOutput { content: CssContent::File(p.css), assets: Vec::new() }),
            Some(Err(e)) => {
                let mut m = "Failed to process CSS with PostCSS Web Worker: ".to_owned();
                m.append(e.as_str());
                Err(m)
            },
            None => Err(String::new()),
        },
    }
}

} // verus!
