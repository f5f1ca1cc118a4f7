//! How the application is built and run during development.

use crate::foreign::{
    json_list, json_list_of, json_member, json_member_of, kebab_case, kebab_case_of, semver_form,
    semver_form_of, url_form, url_form_of, JsonMember, MemberModel,
};
use crate::names::names_of;
use crate::platform::Target;
use vstd::prelude::*;
use vstd::string::*;

verus! {

/// An URL to open on a webview window.
#[derive(PartialEq, Eq, Debug, Clone)]
pub enum WebviewUrl {
    /// An external URL, in its serialized form.
    External(String),
    /// The path portion of an app URL. For instance, to load
    /// `tauri://localhost/users/john`, you can simply provide `users/john`
    /// in this configuration.
    App(String),
}

impl Default for WebviewUrl {
    fn default() -> (u: WebviewUrl)
        ensures
            u matches WebviewUrl::App(p) && p@ == "index.html"@,
    {
        WebviewUrl::App("index.html".to_owned())
    }
}

impl WebviewUrl {
    /// The value that `text` stands for, given what it serializes to as an
    /// URL, if it reads as one.
    pub fn from_form(text: &str, form: Option<String>) -> (u: WebviewUrl)
        ensures
            match form {
                Some(url) => u matches WebviewUrl::External(e) && e@ == url@,
                None => u matches WebviewUrl::App(p) && p@ == text@,
            },
    {
        match form {
            Some(url) => WebviewUrl::External(url),
            None => WebviewUrl::App(text.to_owned()),
        }
    }

    /// The value that `text` stands for: an external URL where it reads as
    /// an absolute URL, else a path of the application.
    pub fn parse(text: &str) -> (u: WebviewUrl)
        ensures
            match url_form_of(text@) {
                Some(url) => u matches WebviewUrl::External(e) && e@ == url,
                None => u matches WebviewUrl::App(p) && p@ == text@,
            },
    {
        let form = url_form(text);
        WebviewUrl::from_form(text, form)
    }

    /// The URL or path as a text.
    pub fn text(&self) -> (s: &str)
        ensures
            match self {
                WebviewUrl::External(e) => s@ == e@,
                WebviewUrl::App(p) => s@ == p@,
            },
    {
        match self {
            WebviewUrl::External(e) => e.as_str(),
            WebviewUrl::App(p) => p.as_str(),
        }
    }
}

/// Defines the URL or assets to embed in the application.
#[derive(Debug, PartialEq, Eq, Clone)]
pub enum AppUrl {
    /// The app's external URL, or the path to the directory containing the
    /// app assets.
    Url(WebviewUrl),
    /// An array of files to embed on the app.
    Files(Vec<String>),
}

impl AppUrl {
    /// The text that stands for the value: an URL or a path as it is, a
    /// list of files as a JSON list.
    pub open spec fn text_of(&self) -> Option<Seq<char>> {
        match self {
            AppUrl::Url(WebviewUrl::External(e)) => Some(e@),
            AppUrl::Url(WebviewUrl::App(p)) => Some(p@),
            AppUrl::Files(files) => json_list_of(names_of(files@)),
        }
    }

    /// The value as a text, where it can be written as one.
    pub fn text(&self) -> (r: Option<String>)
        ensures
            r is Some <==> self.text_of() is Some,
            r matches Some(t) ==> self.text_of() == Some(t@),
    {
        match self {
            AppUrl::Url(url) => Some(url.text().to_owned()),
            AppUrl::Files(files) => json_list(files),
        }
    }
}

/// Describes the shell command to run before `tauri dev`.
#[derive(Debug, PartialEq, Eq, Clone)]
pub enum BeforeDevCommand {
    /// Run the given script with the default options.
    Script(String),
    /// Run the given script with custom options.
    ScriptWithOptions {
        /// The script to execute.
        script: String,
        /// The current working directory.
        cwd: Option<String>,
        /// Whether `tauri dev` should wait for the command to finish or not.
        /// Defaults to `false`.
        wait: bool,
    },
}

/// Describes a shell command to be executed when a CLI hook is triggered.
#[derive(Debug, PartialEq, Eq, Clone)]
pub enum HookCommand {
    /// Run the given script with the default options.
    Script(String),
    /// Run the given script with custom options.
    ScriptWithOptions {
        /// The script to execute.
        script: String,
        /// The current working directory.
        cwd: Option<String>,
    },
}

/// Where the application is loaded from during development unless the
/// configuration says otherwise: the local server on port 8080.
pub fn default_dev_path() -> (u: AppUrl)
    ensures
        is_default_dev_path(u),
{
    AppUrl::Url(WebviewUrl::parse("http://localhost:8080"))
}

/// Where the built assets lie unless the configuration says otherwise.
pub fn default_dist_dir() -> (u: AppUrl)
    ensures
        u matches AppUrl::Url(WebviewUrl::App(p)) && p@ == "../dist"@,
{
    AppUrl::Url(WebviewUrl::App("../dist".to_owned()))
}

/// The Build configuration object.
#[derive(Debug, PartialEq, Eq, Clone)]
pub struct BuildConfig {
    /// The binary used to build and run the application.
    pub runner: Option<String>,
    /// The path to the application assets or URL to load in development.
    pub dev_path: AppUrl,
    /// The path to the application assets or URL to load in production.
    pub dist_dir: AppUrl,
    /// A shell command to run before `tauri dev` kicks in.
    pub before_dev_command: Option<BeforeDevCommand>,
    /// A shell command to run before `tauri build` kicks in.
    pub before_build_command: Option<HookCommand>,
    /// A shell command to run before the bundling phase in `tauri build`
    /// kicks in.
    pub before_bundle_command: Option<HookCommand>,
    /// Features passed to `cargo` commands.
    pub features: Option<Vec<String>>,
    /// Whether the API should be injected on `window.__TAURI__` or not.
    pub with_global_tauri: bool,
}

/// The place that stands for the local server on port 8080.
pub open spec fn is_default_dev_path(u: AppUrl) -> bool {
    match url_form_of("http://localhost:8080"@) {
        Some(url) => u matches AppUrl::Url(WebviewUrl::External(e)) && e@ == url,
        None => u matches AppUrl::Url(WebviewUrl::App(p)) && p@ == "http://localhost:8080"@,
    }
}

impl BuildConfig {
    /// Whether the configuration is the one of an application that
    /// configures nothing: it is loaded from the local server during
    /// development and from `../dist` once built, and nothing runs before.
    pub open spec fn is_default(&self) -> bool {
        &&& self.runner is None
        &&& is_default_dev_path(self.dev_path)
        &&& self.dist_dir matches AppUrl::Url(WebviewUrl::App(p)) && p@ == "../dist"@
        &&& self.before_dev_command is None
        &&& self.before_build_command is None
        &&& self.before_bundle_command is None
        &&& self.features is None
        &&& !self.with_global_tauri
    }
}

/// The build configuration of an application that configures nothing.
pub fn default_build() -> (c: BuildConfig)
    ensures
        c.is_default(),
{
    BuildConfig {
        runner: None,
        dev_path: default_dev_path(),
        dist_dir: default_dist_dir(),
        before_dev_command: None,
        before_build_command: None,
        before_bundle_command: None,
        features: None,
        with_global_tauri: false,
    }
}

impl Default for BuildConfig {
    fn default() -> (c: BuildConfig)
        ensures
            c.is_default(),
    {
        default_build()
    }
}

/// The version of a package, as a configuration gives it: the text that
/// the version reads as, or the message of the error where it is not a
/// semantic version.
pub fn package_version(value: &str) -> (r: Result<String, String>)
    ensures
        match semver_form_of(value@) {
            Some(v) => r matches Ok(t) && t@ == v,
            None => r matches Err(m) && m@ == "`package > version` must be a semver string"@,
        },
{
    version_of_form(semver_form(value))
}

/// The version of a package, given the text that it reads as where it is
/// a semantic version: that text, or the message of the error where there
/// is none.
pub fn version_of_form(form: Option<String>) -> (r: Result<String, String>)
    ensures
        match form {
            Some(v) => r matches Ok(t) && t@ == v@,
            None => r matches Err(m) && m@ == "`package > version` must be a semver string"@,
        },
{
    match form {
        Some(v) => Ok(v),
        None => Err("`package > version` must be a semver string".to_owned()),
    }
}

/// A result as texts.
pub open spec fn texts_of(r: Result<String, String>) -> Result<Seq<char>, Seq<char>> {
    match r {
        Ok(t) => Ok(t@),
        Err(e) => Err(e@),
    }
}

/// The version that a member `version` of the file at `path` stands for,
/// given the text that the version reads as where it is a semantic version;
/// else the message of the error.
pub open spec fn member_version(path: Seq<char>, member: MemberModel) -> Result<
    Seq<char>,
    Seq<char>,
> {
    match member {
        MemberModel::Invalid(e) => Err("failed to read version JSON file: "@ + e),
        MemberModel::NotObject => Err(
            "`package > version` value is not a path to a JSON object"@,
        ),
        MemberModel::Missing => Err("JSON must contain a `version` field"@),
        MemberModel::NotText => Err("`"@ + path + " > version` must be a string"@),
        MemberModel::Text(v) => match semver_form_of(v) {
            Some(t) => Ok(t),
            None => Err("`package > version` must be a semver string"@),
        },
    }
}

/// The version that the member `version` of a JSON file gives, or the
/// message that says what is wrong with the file.
pub fn version_of_member(path: &str, member: JsonMember) -> (r: Result<String, String>)
    ensures
        texts_of(r) == member_version(path@, member@),
{
    match member {
        JsonMember::Invalid(e) => {
            let mut message = "failed to read version JSON file: ".to_owned();
            message.append(e.as_str());
            Err(message)
        },
        JsonMember::NotObject => Err(
            "`package > version` value is not a path to a JSON object".to_owned(),
        ),
        JsonMember::Missing => Err("JSON must contain a `version` field".to_owned()),
        JsonMember::NotText => {
            let mut message = "`".to_owned();
            message.append(path);
            message.append(" > version` must be a string");
            Err(message)
        },
        JsonMember::Text(v) => package_version(v.as_str()),
    }
}

/// The version that a configuration gives by `value`. Where `value` is the
/// path of a file, `file` holds what reading it gave, its text or the
/// message of the error, and the version is the member `version` of that
/// JSON file; else `value` is itself the version.
pub fn package_version_from(value: &str, file: Option<Result<String, String>>) -> (r: Result<
    String,
    String,
>)
    ensures
        texts_of(r) == (match file {
            None => member_version(value@, MemberModel::Text(value@)),
            Some(Err(e)) => Err("failed to read version JSON file: "@ + e@),
            Some(Ok(json)) => member_version(value@, json_member_of(json@, "version"@)),
        }),
{
    match file {
        None => package_version(value),
        Some(Err(e)) => {
            let mut message = "failed to read version JSON file: ".to_owned();
            message.append(e.as_str());
            Err(message)
        },
        Some(Ok(json)) => {
            let member = json_member(json.as_str(), "version");
            version_of_member(value, member)
        },
    }
}

/// The package configuration.
#[derive(Debug, Clone, PartialEq, Eq)]
pub struct PackageConfig {
    /// App name.
    pub product_name: Option<String>,
    /// App version. It is a semver version number. If removed the version
    /// number from `Cargo.toml` is used.
    pub version: Option<String>,
}

impl Default for PackageConfig {
    fn default() -> (c: PackageConfig)
        ensures
            c.product_name is None,
            c.version is None,
    {
        PackageConfig { product_name: None, version: None }
    }
}

impl PackageConfig {
    /// The binary name: the product name, in kebab case where the
    /// application is built for Linux.
    pub fn binary_name(&self, target: Target) -> (name: Option<String>)
        ensures
            match self.product_name {
                None => name is None,
                Some(n) => name matches Some(b) && b@ == (if target == Target::Linux {
                    kebab_case_of(n@)
                } else {
                    n@
                }),
            },
    {
        match &self.product_name {
            None => None,
            Some(n) => {
                if target == Target::Linux {
                    Some(kebab_case(n.as_str()))
                } else {
                    Some(n.clone())
                }
            },
        }
    }
}

} // verus!
