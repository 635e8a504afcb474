//! Where PostCSS configuration is looked for, and how a configuration file is loaded.
use vstd::prelude::*;
use vstd::string::StringExecFns;
use crate::json::{json_quote, json_string};
use crate::text::{chars_last_index_of, chars_of, last_index_of, lemma_last_index_of, seq_ends_with, str_ends_with, str_equal, string_from_chars};

verus! {

/// Where PostCSS configuration is looked for.
#[derive(Clone, Copy, Debug, PartialEq, Eq, Structural, Hash)]
pub enum PostCssConfigLocation {
    /// Only from the project directory up.
    ProjectPath,
    /// From the project directory up, then from the directory of the style sheet up.
    ProjectPathOrLocalPath,
}

impl Default for PostCssConfigLocation {
    fn default() -> (r: Self)
        ensures
            r == PostCssConfigLocation::ProjectPath,
    {
        PostCssConfigLocation::ProjectPath
    }
}

/// Where PostCSS configuration is looked for when PostCSS runs in the browser.
#[derive(Clone, Copy, Debug, PartialEq, Eq, Structural, Hash)]
pub enum BrowserPostCssConfigLocation {
    /// Only from the project directory up.
    ProjectPath,
    /// From the project directory up, then from the directory of the style sheet up.
    ProjectPathOrLocalPath,
}

impl Default for BrowserPostCssConfigLocation {
    fn default() -> (r: Self)
        ensures
            r == BrowserPostCssConfigLocation::ProjectPath,
    {
        BrowserPostCssConfigLocation::ProjectPath
    }
}

/// Options of the webpack loaders transform.
#[derive(Clone, Copy, Debug, PartialEq, Eq, Structural, Default)]
pub struct WebpackLoadersTransformOptions {
    pub source_maps: bool,
    pub placeholder_for_future_extensions: u8,
}

/// Options of the webpack loaders transform run in a web worker.
#[derive(Clone, Copy, Debug, PartialEq, Eq, Structural, Default)]
pub struct WebWorkerWebpackLoadersTransformOptions {
    pub source_maps: bool,
    pub placeholder_for_future_extensions: u8,
}

/// The names of PostCSS configuration files, in the order they are looked for.
pub open spec fn spec_postcss_configs() -> Seq<Seq<char>> {
    seq![
        ".postcssrc"@, ".postcssrc.json"@, ".postcssrc.yaml"@, ".postcssrc.yml"@, ".postcssrc.js"@,
        ".postcssrc.mjs"@, ".postcssrc.cjs"@, ".config/postcssrc"@, ".config/postcssrc.json"@,
        ".config/postcssrc.yaml"@, ".config/postcssrc.yml"@, ".config/postcssrc.js"@,
        ".config/postcssrc.mjs"@, ".config/postcssrc.cjs"@, "postcss.config.js"@, "postcss.config.mjs"@,
        "postcss.config.cjs"@, "postcss.config.json"@,
    ]
}

/// The names of PostCSS configuration files, in the order they are looked for.
pub fn postcss_configs() -> (r: Vec<String>)
    ensures
        r@.map_values(|s: String| s@) == spec_postcss_configs(),
{
    let names: [&str; 18] = [
        ".postcssrc", ".postcssrc.json", ".postcssrc.yaml", ".postcssrc.yml", ".postcssrc.js",
        ".postcssrc.mjs", ".postcssrc.cjs", ".config/postcssrc", ".config/postcssrc.json",
        ".config/postcssrc.yaml", ".config/postcssrc.yml", ".config/postcssrc.js",
        ".config/postcssrc.mjs", ".config/postcssrc.cjs", "postcss.config.js", "postcss.config.mjs",
        "postcss.config.cjs", "postcss.config.json",
    ];
    let mut r: Vec<String> = Vec::new();
    let mut i: usize = 0;
    while i < 18
        invariant
            i <= 18,
            names@ == seq![
                ".postcssrc", ".postcssrc.json", ".postcssrc.yaml", ".postcssrc.yml", ".postcssrc.js",
                ".postcssrc.mjs", ".postcssrc.cjs", ".config/postcssrc", ".config/postcssrc.json",
                ".config/postcssrc.yaml", ".config/postcssrc.yml", ".config/postcssrc.js",
                ".config/postcssrc.mjs", ".config/postcssrc.cjs", "postcss.config.js", "postcss.config.mjs",
                "postcss.config.cjs", "postcss.config.json",
            ],
            r@.len() == i,
            forall|k: int| 0 <= k < i ==> #[trigger] r@[k]@ == names@[k]@,
        decreases 18 - i,
    {
        r.push(names[i].to_owned());
        i = i + 1;
    }
    assert(r@.map_values(|s: String| s@) =~= spec_postcss_configs());
    r
}

/// The names of PostCSS configuration files when PostCSS runs in the browser, in the
/// order they are looked for: the same as [`postcss_configs`].
pub fn browser_postcss_configs() -> (r: Vec<String>)
    ensures
        r@.map_values(|s: String| s@) == spec_postcss_configs(),
{
    postcss_configs()
}

/// The configuration file to use: the one found from the project directory up, else,
/// when `location` allows it, the one found from the style sheet's directory up.
pub fn find_config_in_location(location: PostCssConfigLocation, found_from_project: Option<String>, found_from_source: Option<String>) -> (r: Option<String>)
    ensures
        r == match found_from_project {
            Some(p) => Some(p),
            None => if location == PostCssConfigLocation::ProjectPathOrLocalPath { found_from_source } else { None },
        },
{
    match found_from_project {
        Some(p) => Some(p),
        None => {
            if location == PostCssConfigLocation::ProjectPathOrLocalPath {
                found_from_source
            } else {
                None
            }
        },
    }
}

/// As [`find_config_in_location`], for PostCSS run in the browser.
pub fn find_browser_config_in_location(location: BrowserPostCssConfigLocation, found_from_project: Option<String>, found_from_source: Option<String>) -> (r: Option<String>)
    ensures
        r == match found_from_project {
            Some(p) => Some(p),
            None => if location == BrowserPostCssConfigLocation::ProjectPathOrLocalPath { found_from_source } else { None },
        },
{
    match found_from_project {
        Some(p) => Some(p),
        None => {
            if location == BrowserPostCssConfigLocation::ProjectPathOrLocalPath {
                found_from_source
            } else {
                None
            }
        },
    }
}

/// The file name of a `/`-separated path: what follows its last `/`.
pub open spec fn spec_file_name(path: Seq<char>) -> Seq<char> {
    match last_index_of(path, '/') {
        Some(i) => path.subrange(i + 1, path.len() as int),
        None => path,
    }
}

/// The file name of a `/`-separated path: what follows its last `/`.
pub fn file_name(path: &str) -> (r: String)
    ensures
        r@ == spec_file_name(path@),
{
    let v = chars_of(path);
    match chars_last_index_of(v.as_slice(), '/') {
        Some(i) => {
            proof {
                lemma_last_index_of(v@, '/');
            }
            let mut tail: Vec<char> = Vec::new();
            let mut k = i + 1;
            while k < v.len()
                invariant
                    i + 1 <= k <= v@.len(),
                    tail@ == v@.subrange(i + 1, k as int),
                decreases v@.len() - k,
            {
                tail.push(v[k]);
                assert(tail@ =~= v@.subrange(i + 1, k + 1));
                k = k + 1;
            }
            string_from_chars(tail.as_slice())
        },
        None => string_from_chars(v.as_slice()),
    }
}

/// How a PostCSS configuration file is loaded.
#[derive(Debug)]
pub enum ConfigLoader {
    /// Read the `postcss` key of this `package.json`.
    PackageJsonKey(String),
    /// Read the file as JSON, comments allowed.
    Json,
    /// Run a script that exports the configuration.
    Script,
}

/// How the configuration file at `config_path` is loaded: the `postcss` key of a
/// `package.json`, a JSON file (a `.json` name or `.postcssrc`), or a script.
pub fn config_loader(config_path: &str) -> (r: ConfigLoader)
    ensures
        spec_file_name(config_path@) == "package.json"@ ==> (r matches ConfigLoader::PackageJsonKey(k) && k@ == "postcss"@),
        spec_file_name(config_path@) != "package.json"@ && (seq_ends_with(config_path@, ".json"@) || spec_file_name(config_path@) == ".postcssrc"@)
            ==> r is Json,
        spec_file_name(config_path@) != "package.json"@ && !(seq_ends_with(config_path@, ".json"@) || spec_file_name(config_path@) == ".postcssrc"@)
            ==> r is Script,
{
    let name = file_name(config_path);
    if str_equal(name.as_str(), "package.json") {
        return ConfigLoader::PackageJsonKey("postcss".to_owned());
    }
    if str_ends_with(config_path, ".json") || str_equal(name.as_str(), ".postcssrc") {
        return ConfigLoader::Json;
    }
    ConfigLoader::Script
}

/// Why a script configuration could not be loaded in the browser.
#[derive(Clone, Copy, Debug, PartialEq, Eq, Structural)]
pub enum BrowserConfigError {
    /// The configuration is not inside the project.
    NoRelativePath,
    /// The configuration file is missing.
    NotFound,
}

impl BrowserConfigError {
    /// The message of the error.
    pub fn message(&self) -> (r: String)
        ensures
            *self == BrowserConfigError::NoRelativePath ==> r@ == "Unable to get relative path to postcss config"@,
            *self == BrowserConfigError::NotFound ==> r@ == "PostCSS config file not found"@,
    {
        match self {
            BrowserConfigError::NoRelativePath => "Unable to get relative path to postcss config".to_owned(),
            BrowserConfigError::NotFound => "PostCSS config file not found".to_owned(),
        }
    }
}

/// The module that exports a script configuration's text in the browser: its path, next
/// to the configuration, and its code.
#[derive(Debug)]
pub struct ConfigModule {
    pub path: String,
    pub code: String,
}

/// The code of the module that exports the configuration text `content`.
pub open spec fn spec_config_module_code(content: Seq<char>) -> Seq<char> {
    "export default "@ + json_quote(content) + ";"@
}

/// The module that loads a script configuration at `config_path` in the browser, which
/// exports the configuration's text: it lies at `config_path` followed by
/// `_.browser-config.mjs`. Fails when the configuration is not inside the project
/// (`in_project` is false), else when the file is missing (`content` is `None`).
pub fn browser_config_module(config_path: &str, in_project: bool, content: Option<&str>) -> (r: Result<ConfigModule, BrowserConfigError>)
    ensures
        !in_project ==> r == Err::<ConfigModule, BrowserConfigError>(BrowserConfigError::NoRelativePath),
        in_project && content is None ==> r == Err::<ConfigModule, BrowserConfigError>(BrowserConfigError::NotFound),
        in_project && content is Some ==> (r matches Ok(m) && m.path@ == config_path@ + "_.browser-config.mjs"@
            && m.code@ == spec_config_module_code(content.unwrap()@)),
{
    if !in_project {
        return Err(BrowserConfigError::NoRelativePath);
    }
    match content {
        None => Err(BrowserConfigError::NotFound),
        Some(text) => {
            let mut code = "export default ".to_owned();
            code.append(json_string(text).as_str());
            code.append(";");
            let mut path = config_path.to_owned();
            path.append("_.browser-config.mjs");
            Ok(ConfigModule { path, code })
        },
    }
}

} // verus!
