//! How the application is packaged for each platform.

use crate::foreign::{lowercase, lowercase_of};
use crate::names::NameMap;
use crate::text::same_text;
use vstd::prelude::*;
use vstd::string::*;

verus! {

/// A kind of bundle.
#[derive(Debug, PartialEq, Eq, Clone, Copy, Structural)]
pub enum BundleType {
    /// The debian bundle (.deb).
    Deb,
    /// The RPM bundle (.rpm).
    Rpm,
    /// The AppImage bundle (.appimage).
    AppImage,
    /// The Microsoft Installer bundle (.msi).
    Msi,
    /// The NSIS bundle (.exe).
    Nsis,
    /// The macOS application bundle (.app).
    App,
    /// The Apple Disk Image bundle (.dmg).
    Dmg,
    /// The updater bundle.
    Updater,
}

/// The bundle type whose name is `name`, if there is one.
pub open spec fn bundle_type_named(name: Seq<char>) -> Option<BundleType> {
    if name == "deb"@ {
        Some(BundleType::Deb)
    } else if name == "rpm"@ {
        Some(BundleType::Rpm)
    } else if name == "appimage"@ {
        Some(BundleType::AppImage)
    } else if name == "msi"@ {
        Some(BundleType::Msi)
    } else if name == "nsis"@ {
        Some(BundleType::Nsis)
    } else if name == "app"@ {
        Some(BundleType::App)
    } else if name == "dmg"@ {
        Some(BundleType::Dmg)
    } else if name == "updater"@ {
        Some(BundleType::Updater)
    } else {
        None
    }
}

impl BundleType {
    /// The name of the bundle type.
    pub open spec fn name_text(&self) -> Seq<char> {
        match self {
            BundleType::Deb => "deb"@,
            BundleType::Rpm => "rpm"@,
            BundleType::AppImage => "appimage"@,
            BundleType::Msi => "msi"@,
            BundleType::Nsis => "nsis"@,
            BundleType::App => "app"@,
            BundleType::Dmg => "dmg"@,
            BundleType::Updater => "updater"@,
        }
    }

    /// The name of the bundle type, as it is written in a configuration.
    pub fn name(&self) -> (s: &'static str)
        ensures
            s@ == self.name_text(),
    {
        match self {
            BundleType::Deb => "deb",
            BundleType::Rpm => "rpm",
            BundleType::AppImage => "appimage",
            BundleType::Msi => "msi",
            BundleType::Nsis => "nsis",
            BundleType::App => "app",
            BundleType::Dmg => "dmg",
            BundleType::Updater => "updater",
        }
    }

    /// The bundle type whose name is exactly `name`.
    pub fn named(name: &str) -> (r: Option<BundleType>)
        ensures
            r == bundle_type_named(name@),
    {
        if same_text(name, "deb") {
            Some(BundleType::Deb)
        } else if same_text(name, "rpm") {
            Some(BundleType::Rpm)
        } else if same_text(name, "appimage") {
            Some(BundleType::AppImage)
        } else if same_text(name, "msi") {
            Some(BundleType::Msi)
        } else if same_text(name, "nsis") {
            Some(BundleType::Nsis)
        } else if same_text(name, "app") {
            Some(BundleType::App)
        } else if same_text(name, "dmg") {
            Some(BundleType::Dmg)
        } else if same_text(name, "updater") {
            Some(BundleType::Updater)
        } else {
            None
        }
    }

    /// The bundle type that `text` names, capitals and small letters
    /// counting as the same; the message of the error where it names none.
    pub fn parse(text: &str) -> (r: Result<BundleType, String>)
        ensures
            match bundle_type_named(lowercase_of(text@)) {
                Some(t) => r == Ok::<BundleType, String>(t),
                None => r is Err && r->Err_0@ == "unknown bundle target '"@ + text@ + "'"@,
            },
    {
        let lower = lowercase(text);
        match BundleType::named(lower.as_str()) {
            Some(t) => Ok(t),
            None => {
                let mut message = "unknown bundle target '".to_owned();
                message.append(text);
                message.append("'");
                Err(message)
            },
        }
    }
}

/// Targets to bundle. Each value is case insensitive.
#[derive(Debug, PartialEq, Eq, Clone)]
pub enum BundleTarget {
    /// Bundle all targets.
    All,
    /// A list of bundle targets.
    List(Vec<BundleType>),
    /// A single bundle target.
    One(BundleType),
}

impl Default for BundleTarget {
    fn default() -> (t: BundleTarget)
        ensures
            t == BundleTarget::All,
    {
        BundleTarget::All
    }
}

impl BundleTarget {
    /// The targets as a sequence: empty for all targets.
    pub open spec fn targets(&self) -> Seq<BundleType> {
        match self {
            BundleTarget::All => Seq::empty(),
            BundleTarget::List(list) => list@,
            BundleTarget::One(t) => seq![*t],
        }
    }

    /// Gets the bundle targets as a [`Vec`]. The vector is empty when set to
    /// [`BundleTarget::All`].
    pub fn to_vec(&self) -> (v: Vec<BundleType>)
        ensures
            v@ == self.targets(),
    {
        match self {
            BundleTarget::All => Vec::new(),
            BundleTarget::List(list) => {
                let mut v: Vec<BundleType> = Vec::new();
                let mut i: usize = 0;
                while i < list.len()
                    invariant
                        i <= list.len(),
                        v@ == list@.take(i as int),
                    decreases list.len() - i,
                {
                    v.push(list[i]);
                    assert(list@.take(i + 1) =~= list@.take(i as int).push(list@[i as int]));
                    i += 1;
                }
                assert(list@.take(list.len() as int) =~= list@);
                v
            },
            BundleTarget::One(t) => {
                let mut v: Vec<BundleType> = Vec::new();
                v.push(*t);
                assert(v@ =~= seq![*t]);
                v
            },
        }
    }

    /// The target whose lower-case name is `name`: a bundle type or `all`.
    pub open spec fn target_named(name: Seq<char>) -> Option<BundleTarget> {
        match bundle_type_named(name) {
            Some(t) => Some(BundleTarget::One(t)),
            None => if name == "all"@ {
                Some(BundleTarget::All)
            } else {
                None
            },
        }
    }

    /// The target whose lower-case name is exactly `name`.
    pub fn named(name: &str) -> (r: Option<BundleTarget>)
        ensures
            r == BundleTarget::target_named(name@),
    {
        match BundleType::named(name) {
            Some(t) => Some(BundleTarget::One(t)),
            None => {
                if same_text(name, "all") {
                    Some(BundleTarget::All)
                } else {
                    None
                }
            },
        }
    }

    /// The target that a text names: a bundle type, or `all`, capitals and
    /// small letters counting as the same; the message of the error where it
    /// names neither.
    pub fn parse(text: &str) -> (r: Result<BundleTarget, String>)
        ensures
            match BundleTarget::target_named(lowercase_of(text@)) {
                Some(t) => r == Ok::<BundleTarget, String>(t),
                None => r is Err && r->Err_0@ == "invalid bundle type "@ + text@,
            },
    {
        let lower = lowercase(text);
        match BundleTarget::named(lower.as_str()) {
            Some(t) => Ok(t),
            None => {
                let mut message = "invalid bundle type ".to_owned();
                message.append(text);
                Err(message)
            },
        }
    }
}

/// Configuration for AppImage bundles.
#[derive(Debug, PartialEq, Eq, Clone)]
pub struct AppImageConfig {
    /// Include additional gstreamer dependencies needed for audio and video
    /// playback. This increases the bundle size by ~15-35MB depending on
    /// your build system.
    pub bundle_media_framework: bool,
}

impl AppImageConfig {
    /// Whether the configuration is the one of a bundle that configures nothing.
    pub open spec fn is_default(&self) -> bool {
        !self.bundle_media_framework
    }
}

impl Default for AppImageConfig {
    fn default() -> (c: AppImageConfig)
        ensures
            c.is_default(),
    {
        AppImageConfig { bundle_media_framework: false }
    }
}

/// Configuration for Debian (.deb) bundles.
#[derive(Debug, PartialEq, Eq, Clone)]
pub struct DebConfig {
    /// The list of deb dependencies your application relies on.
    pub depends: Option<Vec<String>>,
    /// The files to include on the package.
    pub files: NameMap<String>,
    /// Path to a custom desktop file Handlebars template.
    pub desktop_template: Option<String>,
}

impl DebConfig {
    /// Whether the configuration is the one of a bundle that configures nothing.
    pub open spec fn is_default(&self) -> bool {
        &&& self.depends is None
        &&& self.files.wf()
        &&& self.files@ == Map::<Seq<char>, String>::empty()
        &&& self.desktop_template is None
    }
}

impl Default for DebConfig {
    fn default() -> (c: DebConfig)
        ensures
            c.is_default(),
    {
        DebConfig { depends: None, files: NameMap::new(), desktop_template: None }
    }
}

/// The release tag that an RPM bundle has unless it says otherwise.
pub fn default_release() -> (r: String)
    ensures
        r@ == "1"@,
{
    "1".to_owned()
}

/// Configuration for RPM bundles.
#[derive(Debug, PartialEq, Eq, Clone)]
pub struct RpmConfig {
    /// The package's license identifier.
    pub license: Option<String>,
    /// The list of RPM dependencies your application relies on.
    pub depends: Option<Vec<String>>,
    /// The RPM release tag.
    pub release: String,
    /// The RPM epoch.
    pub epoch: u32,
    /// The files to include on the package.
    pub files: NameMap<String>,
    /// Path to a custom desktop file Handlebars template.
    pub desktop_template: Option<String>,
}

impl RpmConfig {
    /// Whether the configuration is the one of a bundle that configures nothing.
    pub open spec fn is_default(&self) -> bool {
        &&& self.license is None
        &&& self.depends is None
        &&& self.release@ == "1"@
        &&& self.epoch == 0
        &&& self.files.wf()
        &&& self.files@ == Map::<Seq<char>, String>::empty()
        &&& self.desktop_template is None
    }
}

impl Default for RpmConfig {
    fn default() -> (c: RpmConfig)
        ensures
            c.is_default(),
    {
        RpmConfig {
            license: None,
            depends: None,
            release: default_release(),
            epoch: 0,
            files: NameMap::new(),
            desktop_template: None,
        }
    }
}

/// Position coordinates struct.
#[derive(Default, Debug, PartialEq, Eq, Clone, Copy, Structural)]
pub struct Position {
    /// X coordinate.
    pub x: u32,
    /// Y coordinate.
    pub y: u32,
}

/// Size of the window.
#[derive(Default, Debug, PartialEq, Eq, Clone, Copy, Structural)]
pub struct Size {
    /// Width of the window.
    pub width: u32,
    /// Height of the window.
    pub height: u32,
}

/// The size of the volume window of a disk image.
pub fn dmg_window_size() -> (s: Size)
    ensures
        s == (Size { width: 660, height: 400 }),
{
    Size { width: 660, height: 400 }
}

/// Where the application file stands in the volume window.
pub fn dmg_app_position() -> (p: Position)
    ensures
        p == (Position { x: 180, y: 170 }),
{
    Position { x: 180, y: 170 }
}

/// Where the application folder stands in the volume window.
pub fn dmg_application_folder_position() -> (p: Position)
    ensures
        p == (Position { x: 480, y: 170 }),
{
    Position { x: 480, y: 170 }
}

/// Configuration for Apple Disk Image (.dmg) bundles.
#[derive(Debug, PartialEq, Eq, Clone)]
pub struct DmgConfig {
    /// Image to use as the background in dmg file. Accepted formats:
    /// `png`/`jpg`/`gif`.
    pub background: Option<String>,
    /// Position of volume window on screen.
    pub window_position: Option<Position>,
    /// Size of volume window.
    pub window_size: Size,
    /// Position of app file on window.
    pub app_position: Position,
    /// Position of application folder on window.
    pub application_folder_position: Position,
}

impl DmgConfig {
    /// Whether the configuration is the one of a bundle that configures nothing.
    pub open spec fn is_default(&self) -> bool {
        &&& self.background is None
        &&& self.window_position is None
        &&& self.window_size == (Size { width: 660, height: 400 })
        &&& self.app_position == (Position { x: 180, y: 170 })
        &&& self.application_folder_position == (Position { x: 480, y: 170 })
    }
}

impl Default for DmgConfig {
    fn default() -> (c: DmgConfig)
        ensures
            c.is_default(),
    {
        DmgConfig {
            background: None,
            window_position: None,
            window_size: dmg_window_size(),
            app_position: dmg_app_position(),
            application_folder_position: dmg_application_folder_position(),
        }
    }
}

/// The oldest macOS that a bundle supports unless it says otherwise.
pub fn minimum_system_version() -> (v: Option<String>)
    ensures
        v matches Some(s) && s@ == "10.13"@,
{
    Some("10.13".to_owned())
}

/// The minimum system version that a configuration asks for: an empty text
/// counts as not valid and gives the default; anything else, the absence of
/// a value too, is taken as it is.
pub fn de_minimum_system_version(version: Option<String>) -> (v: Option<String>)
    ensures
        match version {
            Some(s) => v matches Some(t) && t@ == (if s@.len() == 0 {
                "10.13"@
            } else {
                s@
            }),
            None => v is None,
        },
{
    match version {
        Some(s) => {
            if crate::text::is_empty_text(s.as_str()) {
                minimum_system_version()
            } else {
                Some(s)
            }
        },
        None => None,
    }
}

/// Configuration for the macOS bundles.
#[derive(Debug, PartialEq, Eq, Clone)]
pub struct MacConfig {
    /// A list of strings indicating any macOS X frameworks that need to be
    /// bundled with the application.
    pub frameworks: Option<Vec<String>>,
    /// The files to include in the application relative to the Contents
    /// directory.
    pub files: NameMap<String>,
    /// A version string indicating the minimum macOS X version that the
    /// bundled application supports. Defaults to `10.13`.
    pub minimum_system_version: Option<String>,
    /// Allows your application to communicate with the outside world. It
    /// should be a lowercase, without port and protocol domain name.
    pub exception_domain: Option<String>,
    /// The path to the license file to add to the DMG bundle.
    pub license: Option<String>,
    /// Identity to use for code signing.
    pub signing_identity: Option<String>,
    /// Provider short name for notarization.
    pub provider_short_name: Option<String>,
    /// Path to the entitlements file.
    pub entitlements: Option<String>,
}

impl MacConfig {
    /// Whether the configuration is the one of a bundle that configures nothing.
    pub open spec fn is_default(&self) -> bool {
        &&& self.frameworks is None
        &&& self.files.wf()
        &&& self.files@ == Map::<Seq<char>, String>::empty()
        &&& self.minimum_system_version matches Some(s) && s@ == "10.13"@
        &&& self.exception_domain is None
        &&& self.license is None
        &&& self.signing_identity is None
        &&& self.provider_short_name is None
        &&& self.entitlements is None
    }
}

impl Default for MacConfig {
    fn default() -> (c: MacConfig)
        ensures
            c.is_default(),
    {
        MacConfig {
            frameworks: None,
            files: NameMap::new(),
            minimum_system_version: minimum_system_version(),
            exception_domain: None,
            license: None,
            signing_identity: None,
            provider_short_name: None,
            entitlements: None,
        }
    }
}

/// Configuration for a target language for the WiX build.
#[derive(Debug, PartialEq, Eq, Clone)]
pub struct WixLanguageConfig {
    /// The path to a locale (`.wxl`) file.
    pub locale_path: Option<String>,
}

/// The languages to build using WiX.
#[derive(Debug, PartialEq, Eq, Clone)]
pub enum WixLanguage {
    /// A single language to build, without configuration.
    One(String),
    /// A list of languages to build, without configuration.
    List(Vec<String>),
    /// A map of languages and its configuration.
    Localized(NameMap<WixLanguageConfig>),
}

impl Default for WixLanguage {
    fn default() -> (l: WixLanguage)
        ensures
            l matches WixLanguage::One(s) && s@ == "en-US"@,
    {
        WixLanguage::One("en-US".to_owned())
    }
}

/// Configuration for the MSI bundle using WiX.
#[derive(Debug, Default, PartialEq, Eq, Clone)]
pub struct WixConfig {
    /// The installer languages to build.
    pub language: WixLanguage,
    /// A custom .wxs template to use.
    pub template: Option<String>,
    /// A list of paths to .wxs files with WiX fragments to use.
    pub fragment_paths: Vec<String>,
    /// The ComponentGroup element ids you want to reference from the fragments.
    pub component_group_refs: Vec<String>,
    /// The Component element ids you want to reference from the fragments.
    pub component_refs: Vec<String>,
    /// The FeatureGroup element ids you want to reference from the fragments.
    pub feature_group_refs: Vec<String>,
    /// The Feature element ids you want to reference from the fragments.
    pub feature_refs: Vec<String>,
    /// The Merge element ids you want to reference from the fragments.
    pub merge_refs: Vec<String>,
    /// Disables the Webview2 runtime installation after app install.
    pub skip_webview_install: bool,
    /// The path to the license file to render on the installer.
    pub license: Option<String>,
    /// Create an elevated update task within Windows Task Scheduler.
    pub enable_elevated_update_task: bool,
    /// Path to a bitmap file to use as the installation user interface banner.
    pub banner_path: Option<String>,
    /// Path to a bitmap file to use on the installation user interface dialogs.
    pub dialog_image_path: Option<String>,
}

/// Compression algorithms used in the NSIS installer.
#[derive(Debug, PartialEq, Eq, Clone, Copy, Structural)]
pub enum NsisCompression {
    /// ZLIB uses the deflate algorithm, it is a quick and simple method.
    Zlib,
    /// BZIP2 usually gives better compression ratios than ZLIB, but it is a
    /// bit slower and uses more memory.
    Bzip2,
    /// LZMA (default) is a new compression method that gives very good
    /// compression ratios.
    Lzma,
}

/// Install Modes for the NSIS installer.
#[derive(Debug, PartialEq, Eq, Clone, Copy, Structural)]
pub enum NSISInstallerMode {
    /// Install the app by default in a directory that doesn't require
    /// Administrator access.
    CurrentUser,
    /// Install the app by default in the `Program Files` folder directory;
    /// requires Administrator access for the installation.
    PerMachine,
    /// Combines both modes and allows the user to choose at install time.
    Both,
}

impl Default for NSISInstallerMode {
    fn default() -> (m: NSISInstallerMode)
        ensures
            m == NSISInstallerMode::CurrentUser,
    {
        NSISInstallerMode::CurrentUser
    }
}

/// Configuration for the Installer bundle using NSIS.
#[derive(Debug, Default, PartialEq, Eq, Clone)]
pub struct NsisConfig {
    /// A custom .nsi template to use.
    pub template: Option<String>,
    /// The path to the license file to render on the installer.
    pub license: Option<String>,
    /// The path to a bitmap file to display on the header of installers pages.
    pub header_image: Option<String>,
    /// The path to a bitmap file for the Welcome page and the Finish page.
    pub sidebar_image: Option<String>,
    /// The path to an icon file used as the installer icon.
    pub installer_icon: Option<String>,
    /// Whether the installation will be for all users or just the current user.
    pub install_mode: NSISInstallerMode,
    /// A list of installer languages.
    pub languages: Option<Vec<String>>,
    /// A key-value pair where the key is the language and the value is the
    /// path to a custom `.nsh` file that holds the texts in that language.
    pub custom_language_files: Option<NameMap<String>>,
    /// Whether to display a language selector dialog before the installer
    /// and uninstaller windows are rendered or not.
    pub display_language_selector: bool,
    /// Set the compression algorithm used to compress files in the installer.
    pub compression: Option<NsisCompression>,
}

/// Install modes for the Webview2 runtime.
#[derive(Debug, PartialEq, Eq, Clone)]
pub enum WebviewInstallMode {
    /// Do not install the Webview2 as part of the Windows Installer.
    Skip,
    /// Download the bootstrapper and run it.
    DownloadBootstrapper {
        /// Instructs the installer to run the bootstrapper in silent mode.
        silent: bool,
    },
    /// Embed the bootstrapper and run it.
    EmbedBootstrapper {
        /// Instructs the installer to run the bootstrapper in silent mode.
        silent: bool,
    },
    /// Embed the offline installer and run it.
    OfflineInstaller {
        /// Instructs the installer to run the installer in silent mode.
        silent: bool,
    },
    /// Embed a fixed webview2 version and use it at runtime.
    FixedRuntime {
        /// The path to the fixed runtime to use.
        path: String,
    },
}

impl Default for WebviewInstallMode {
    fn default() -> (m: WebviewInstallMode)
        ensures
            m == (WebviewInstallMode::DownloadBootstrapper { silent: true }),
    {
        WebviewInstallMode::DownloadBootstrapper { silent: true }
    }
}

/// Windows bundler configuration.
#[derive(Debug, PartialEq, Eq, Clone)]
pub struct WindowsConfig {
    /// Specifies the file digest algorithm to use for creating file signatures.
    pub digest_algorithm: Option<String>,
    /// Specifies the SHA1 hash of the signing certificate.
    pub certificate_thumbprint: Option<String>,
    /// Server to use during timestamping.
    pub timestamp_url: Option<String>,
    /// Whether to use Time-Stamp Protocol for the timestamp server.
    pub tsp: bool,
    /// The installation mode for the Webview2 runtime.
    pub webview_install_mode: WebviewInstallMode,
    /// Path to the webview fixed runtime to use. Overwrites
    /// [`Self::webview_install_mode`] if set.
    pub webview_fixed_runtime_path: Option<String>,
    /// Validates a second app installation, blocking the user from
    /// installing an older version if set to `false`.
    pub allow_downgrades: bool,
    /// Configuration for the MSI generated with WiX.
    pub wix: Option<WixConfig>,
    /// Configuration for the installer generated with NSIS.
    pub nsis: Option<NsisConfig>,
}

impl WindowsConfig {
    /// Whether the configuration is the one of a bundle that configures nothing.
    pub open spec fn is_default(&self) -> bool {
        &&& self.digest_algorithm is None
        &&& self.certificate_thumbprint is None
        &&& self.timestamp_url is None
        &&& !self.tsp
        &&& self.webview_install_mode == (WebviewInstallMode::DownloadBootstrapper { silent: true })
        &&& self.webview_fixed_runtime_path is None
        &&& self.allow_downgrades
        &&& self.wix is None
        &&& self.nsis is None
    }
}

impl Default for WindowsConfig {
    fn default() -> (c: WindowsConfig)
        ensures
            c.is_default(),
    {
        WindowsConfig {
            digest_algorithm: None,
            certificate_thumbprint: None,
            timestamp_url: None,
            tsp: false,
            webview_install_mode: WebviewInstallMode::default(),
            webview_fixed_runtime_path: None,
            allow_downgrades: true,
            wix: None,
            nsis: None,
        }
    }
}

impl WindowsConfig {
    /// The install mode that takes effect: the fixed runtime at the given
    /// path where one is set, else the configured mode.
    pub fn effective_install_mode(&self) -> (m: WebviewInstallMode)
        ensures
            match self.webview_fixed_runtime_path {
                Some(p) => m matches WebviewInstallMode::FixedRuntime { path } && path@ == p@,
                None => match self.webview_install_mode {
                    WebviewInstallMode::Skip => m == WebviewInstallMode::Skip,
                    WebviewInstallMode::DownloadBootstrapper { silent } => m == (
                    WebviewInstallMode::DownloadBootstrapper { silent }),
                    WebviewInstallMode::EmbedBootstrapper { silent } => m == (
                    WebviewInstallMode::EmbedBootstrapper { silent }),
                    WebviewInstallMode::OfflineInstaller { silent } => m == (
                    WebviewInstallMode::OfflineInstaller { silent }),
                    WebviewInstallMode::FixedRuntime { path } => m matches WebviewInstallMode::FixedRuntime {
                        path: q,
                    } && q@ == path@,
                },
            },
    {
        match &self.webview_fixed_runtime_path {
            Some(p) => WebviewInstallMode::FixedRuntime { path: p.clone() },
            None => match &self.webview_install_mode {
                WebviewInstallMode::Skip => WebviewInstallMode::Skip,
                WebviewInstallMode::DownloadBootstrapper { silent } => {
                    WebviewInstallMode::DownloadBootstrapper { silent: *silent }
                },
                WebviewInstallMode::EmbedBootstrapper { silent } => {
                    WebviewInstallMode::EmbedBootstrapper { silent: *silent }
                },
                WebviewInstallMode::OfflineInstaller { silent } => {
                    WebviewInstallMode::OfflineInstaller { silent: *silent }
                },
                WebviewInstallMode::FixedRuntime { path } => WebviewInstallMode::FixedRuntime {
                    path: path.clone(),
                },
            },
        }
    }
}

/// macOS-only. Corresponds to CFBundleTypeRole
#[derive(Debug, PartialEq, Eq, Clone, Copy, Structural)]
pub enum BundleTypeRole {
    /// CFBundleTypeRole.Editor. Files can be read and edited.
    Editor,
    /// CFBundleTypeRole.Viewer. Files can be read.
    Viewer,
    /// CFBundleTypeRole.Shell
    Shell,
    /// CFBundleTypeRole.QLGenerator
    QLGenerator,
    /// CFBundleTypeRole.None
    NoRole,
}

impl Default for BundleTypeRole {
    fn default() -> (r: BundleTypeRole)
        ensures
            r == BundleTypeRole::Editor,
    {
        BundleTypeRole::Editor
    }
}

impl BundleTypeRole {
    /// The name of the role.
    pub open spec fn name_text(&self) -> Seq<char> {
        match self {
            BundleTypeRole::Editor => "Editor"@,
            BundleTypeRole::Viewer => "Viewer"@,
            BundleTypeRole::Shell => "Shell"@,
            BundleTypeRole::QLGenerator => "QLGenerator"@,
            BundleTypeRole::NoRole => "None"@,
        }
    }

    /// The name of the role, as the system knows it.
    pub fn name(&self) -> (s: &'static str)
        ensures
            s@ == self.name_text(),
    {
        match self {
            BundleTypeRole::Editor => "Editor",
            BundleTypeRole::Viewer => "Viewer",
            BundleTypeRole::Shell => "Shell",
            BundleTypeRole::QLGenerator => "QLGenerator",
            BundleTypeRole::NoRole => "None",
        }
    }
}

/// An extension for a [`FileAssociation`].
///
/// A leading `.` is automatically stripped.
#[derive(Debug, PartialEq, Eq, Clone)]
pub struct AssociationExt(pub String);

/// `ext` without one leading `.`, if it has one.
pub open spec fn without_leading_dot(ext: Seq<char>) -> Seq<char> {
    if ext.len() > 0 && ext[0] == '.' {
        ext.drop_first()
    } else {
        ext
    }
}

impl AssociationExt {
    /// The extension that a configuration names: a leading `.` is taken off.
    pub fn new(ext: &str) -> (e: AssociationExt)
        ensures
            e.0@ == without_leading_dot(ext@),
    {
        let n = ext.unicode_len();
        if n > 0 && ext.get_char(0) == '.' {
            let rest = ext.substring_char(1, n);
            assert(rest@ =~= ext@.drop_first());
            AssociationExt(rest.to_owned())
        } else {
            AssociationExt(ext.to_owned())
        }
    }

    /// The extension as a text.
    pub fn text(&self) -> (s: &str)
        ensures
            s@ == self.0@,
    {
        self.0.as_str()
    }
}

/// File association
#[derive(Debug, PartialEq, Eq, Clone)]
pub struct FileAssociation {
    /// File extensions to associate with this app. e.g. 'png'
    pub ext: Vec<AssociationExt>,
    /// The name. Maps to `CFBundleTypeName` on macOS. Default to `ext[0]`
    pub name: Option<String>,
    /// The association description. Windows-only.
    pub description: Option<String>,
    /// The app's role with respect to the type.
    pub role: BundleTypeRole,
    /// The mime-type e.g. 'image/png' or 'text/plain'. Linux-only.
    pub mime_type: Option<String>,
}

/// Definition for bundle resources.
/// Can be either a list of paths to include or a map of source to target paths.
#[derive(Debug, PartialEq, Eq, Clone)]
pub enum BundleResources {
    /// A list of paths to include.
    List(Vec<String>),
    /// A map of source to target paths.
    Mapping(NameMap<String>),
}

impl BundleResources {
    /// A map of resources has its sources in order.
    pub open spec fn wf(&self) -> bool {
        match self {
            BundleResources::List(_) => true,
            BundleResources::Mapping(m) => m.wf(),
        }
    }

    /// Adds a path to the resource collection: at the end of a list, or as
    /// its own target in a map.
    pub fn push(&mut self, path: String)
        requires
            old(self).wf(),
        ensures
            final(self).wf(),
            match *old(self) {
                BundleResources::List(l) => *final(self) matches BundleResources::List(l2) && l2@
                    == l@.push(path),
                BundleResources::Mapping(m) => *final(self) matches BundleResources::Mapping(m2)
                    && m2@ == m@.insert(path@, path),
            },
    {
        match self {
            BundleResources::List(l) => {
                l.push(path);
            },
            BundleResources::Mapping(m) => {
                let key = path.clone();
                m.insert(key, path);
            },
        }
    }
}

/// General configuration for the iOS target.
#[derive(Debug, PartialEq, Eq, Clone)]
pub struct IosConfig {
    /// The development team. This value is required for iOS development
    /// because code signing is enforced.
    pub development_team: Option<String>,
}

impl IosConfig {
    /// Whether the configuration is the one of a bundle that configures nothing.
    pub open spec fn is_default(&self) -> bool {
        self.development_team is None
    }
}

impl Default for IosConfig {
    fn default() -> (c: IosConfig)
        ensures
            c.is_default(),
    {
        IosConfig { development_team: None }
    }
}

/// The lowest API level that an Android application asks for unless it
/// says otherwise.
pub fn default_min_sdk_version() -> (v: u32)
    ensures
        v == 24,
{
    24
}

/// General configuration for the Android target.
#[derive(Debug, PartialEq, Eq, Clone)]
pub struct AndroidConfig {
    /// The minimum API level required for the application to run.
    pub min_sdk_version: u32,
}

impl AndroidConfig {
    /// Whether the configuration is the one of a bundle that configures nothing.
    pub open spec fn is_default(&self) -> bool {
        &&& self.min_sdk_version == 24
    }
}

impl Default for AndroidConfig {
    fn default() -> (c: AndroidConfig)
        ensures
            c.is_default(),
    {
        AndroidConfig { min_sdk_version: default_min_sdk_version() }
    }
}

/// Configuration for the bundler.
#[derive(Debug, PartialEq, Eq, Clone)]
pub struct BundleConfig {
    /// Whether the application should be bundled or just output the executable.
    pub active: bool,
    /// The bundle targets.
    pub targets: BundleTarget,
    /// The application identifier in reverse domain name notation.
    pub identifier: String,
    /// The application's publisher.
    pub publisher: Option<String>,
    /// The app's icons
    pub icon: Vec<String>,
    /// App resources to bundle.
    pub resources: Option<BundleResources>,
    /// A copyright string associated with your application.
    pub copyright: Option<String>,
    /// The application kind.
    pub category: Option<String>,
    /// File associations to application.
    pub file_associations: Option<Vec<FileAssociation>>,
    /// A short description of your application.
    pub short_description: Option<String>,
    /// A longer, multi-line description of the application.
    pub long_description: Option<String>,
    /// Configuration for the AppImage bundle.
    pub appimage: AppImageConfig,
    /// Configuration for the Debian bundle.
    pub deb: DebConfig,
    /// Configuration for the RPM bundle.
    pub rpm: RpmConfig,
    /// DMG-specific settings.
    pub dmg: DmgConfig,
    /// Configuration for the macOS bundles.
    pub macos: MacConfig,
    /// A list of paths to binaries to embed with your application.
    pub external_bin: Option<Vec<String>>,
    /// Configuration for the Windows bundle.
    pub windows: WindowsConfig,
    /// iOS configuration.
    pub ios: IosConfig,
    /// Android configuration.
    pub android: AndroidConfig,
    /// The updater configuration.
    pub updater: crate::config::updater::UpdaterConfig,
}

impl BundleConfig {
    /// Whether the configuration is the one of an application that
    /// configures nothing: no bundle is made, and each part is as it is by
    /// default.
    pub open spec fn is_default(&self) -> bool {
        &&& !self.active
        &&& self.targets == BundleTarget::All
        &&& self.identifier@.len() == 0
        &&& self.publisher is None
        &&& self.icon@.len() == 0
        &&& self.resources is None
        &&& self.copyright is None
        &&& self.category is None
        &&& self.file_associations is None
        &&& self.short_description is None
        &&& self.long_description is None
        &&& self.appimage.is_default()
        &&& self.deb.is_default()
        &&& self.rpm.is_default()
        &&& self.dmg.is_default()
        &&& self.macos.is_default()
        &&& self.external_bin is None
        &&& self.windows.is_default()
        &&& self.ios.is_default()
        &&& self.android.is_default()
        &&& self.updater.is_default()
    }
}

impl Default for BundleConfig {
    fn default() -> (c: BundleConfig)
        ensures
            c.is_default(),
    {
        BundleConfig {
            active: false,
            targets: BundleTarget::default(),
            identifier: String::new(),
            publisher: None,
            icon: Vec::new(),
            resources: None,
            copyright: None,
            category: None,
            file_associations: None,
            short_description: None,
            long_description: None,
            appimage: AppImageConfig::default(),
            deb: DebConfig::default(),
            rpm: RpmConfig::default(),
            dmg: DmgConfig::default(),
            macos: MacConfig::default(),
            external_bin: None,
            windows: WindowsConfig::default(),
            ios: IosConfig::default(),
            android: AndroidConfig::default(),
            updater: crate::config::updater::UpdaterConfig::default(),
        }
    }
}

} // verus!
