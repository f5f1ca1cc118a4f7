//! Settings of the application as a whole.

use crate::config::bundle::BundleConfig;
use crate::config::security::SecurityConfig;
use vstd::prelude::*;
use vstd::string::*;

verus! {

/// What a setting that is on by default is when nothing is said.
pub fn default_true() -> (b: bool)
    ensures
        b,
{
    true
}

/// The label of a window that is given none.
pub fn default_window_label() -> (s: String)
    ensures
        s@ == "main"@,
{
    "main".to_owned()
}

/// The title of a window that is given none.
pub fn default_title() -> (s: String)
    ensures
        s@ == "Tauri App"@,
{
    "Tauri App".to_owned()
}

/// A tuple struct of RGBA colors. Each value has minimum of 0 and maximum of 255.
#[derive(Debug, PartialEq, Eq, Clone, Copy, Default, Structural)]
pub struct Color(pub u8, pub u8, pub u8, pub u8);

impl Color {
    /// The four parts of the colour: red, green, blue and alpha.
    pub fn into_tuple(self) -> (t: (u8, u8, u8, u8))
        ensures
            t == (self.0, self.1, self.2, self.3),
    {
        (self.0, self.1, self.2, self.3)
    }
}

/// The application pattern.
#[derive(Debug, PartialEq, Eq, Clone)]
pub enum PatternKind {
    /// Brownfield pattern.
    Brownfield,
    /// Isolation pattern. Recommended for security purposes.
    Isolation {
        /// The dir containing the index.html file that contains the secure
        /// isolation application.
        dir: String,
    },
}

impl Default for PatternKind {
    fn default() -> (p: PatternKind)
        ensures
            p == PatternKind::Brownfield,
    {
        PatternKind::Brownfield
    }
}

/// Configuration for application tray icon.
#[derive(Debug, Default, PartialEq, Eq, Clone)]
pub struct TrayIconConfig {
    /// Set an id for this tray icon so you can reference it later, defaults
    /// to `main`.
    pub id: Option<String>,
    /// Path to the default icon to use for the tray icon.
    pub icon_path: String,
    /// A Boolean value that determines whether the image represents a
    /// template image on macOS.
    pub icon_as_template: bool,
    /// A Boolean value that determines whether the menu should appear when
    /// the tray icon receives a left click on macOS.
    pub menu_on_left_click: bool,
    /// Title for MacOS tray
    pub title: Option<String>,
    /// Tray icon tooltip on Windows and macOS
    pub tooltip: Option<String>,
}

/// Every Cargo feature that a configuration can switch on, in the order in
/// which they are documented.
pub open spec fn all_feature_texts() -> Seq<Seq<char>> {
    seq!["tray-icon"@, "macos-private-api"@, "isolation"@, "protocol-asset"@]
}

/// The Cargo features that a configuration switches on, ascending:
/// `isolation` for the isolation pattern, `macos-private-api` for the
/// private API of macOS, `protocol-asset` for the asset protocol and
/// `tray-icon` for a tray icon.
pub open spec fn feature_texts(
    tray_icon: bool,
    macos_private_api: bool,
    isolation: bool,
    protocol_asset: bool,
) -> Seq<Seq<char>> {
    (if isolation {
        seq!["isolation"@]
    } else {
        Seq::<Seq<char>>::empty()
    }) + (if macos_private_api {
        seq!["macos-private-api"@]
    } else {
        Seq::<Seq<char>>::empty()
    }) + (if protocol_asset {
        seq!["protocol-asset"@]
    } else {
        Seq::<Seq<char>>::empty()
    }) + (if tray_icon {
        seq!["tray-icon"@]
    } else {
        Seq::<Seq<char>>::empty()
    })
}

/// The configuration of the application: its pattern, its windows, how it
/// is bundled and what it may reach. The windows are of the type `W`.
#[derive(Debug, PartialEq, Clone)]
pub struct TauriConfig<W> {
    /// The pattern to use.
    pub pattern: PatternKind,
    /// The windows configuration.
    pub windows: Vec<W>,
    /// The bundler configuration.
    pub bundle: BundleConfig,
    /// Security configuration.
    pub security: SecurityConfig,
    /// Configuration for app tray icon.
    pub tray_icon: Option<TrayIconConfig>,
    /// MacOS private API configuration. Enables the transparent background
    /// API and sets the `fullScreenEnabled` preference to `true`.
    pub macos_private_api: bool,
}

impl<W> TauriConfig<W> {
    /// Whether the configuration is the one of an application that
    /// configures nothing: no window, no tray icon, and each part as it is
    /// by default.
    pub open spec fn is_default(&self) -> bool {
        &&& self.pattern == PatternKind::Brownfield
        &&& self.windows@.len() == 0
        &&& self.bundle.is_default()
        &&& self.security.is_default()
        &&& self.tray_icon is None
        &&& !self.macos_private_api
    }

    /// The Cargo features that the configuration switches on, ascending.
    pub open spec fn feature_names(&self) -> Seq<Seq<char>> {
        feature_texts(
            self.tray_icon is Some,
            self.macos_private_api,
            self.pattern is Isolation,
            self.security.asset_protocol.enable,
        )
    }

    /// Returns all Cargo features.
    pub fn all_features() -> (v: Vec<&'static str>)
        ensures
            v@.len() == 4,
            forall|i: int| 0 <= i < 4 ==> (#[trigger] v@[i])@ == all_feature_texts()[i],
    {
        let mut v: Vec<&'static str> = Vec::new();
        v.push("tray-icon");
        v.push("macos-private-api");
        v.push("isolation");
        v.push("protocol-asset");
        v
    }

    /// Returns the enabled Cargo features, in ascending order.
    pub fn features(&self) -> (v: Vec<&'static str>)
        ensures
            v@.len() == self.feature_names().len(),
            forall|i: int| 0 <= i < v@.len() ==> (#[trigger] v@[i])@ == self.feature_names()[i],
    {
        let mut v: Vec<&'static str> = Vec::new();
        match &self.pattern {
            PatternKind::Isolation { .. } => {
                v.push("isolation");
            },
            PatternKind::Brownfield => {},
        }
        if self.macos_private_api {
            v.push("macos-private-api");
        }
        if self.security.asset_protocol.enable {
            v.push("protocol-asset");
        }
        if self.tray_icon.is_some() {
            v.push("tray-icon");
        }
        v
    }
}

impl<W> Default for TauriConfig<W> {
    fn default() -> (c: TauriConfig<W>)
        ensures
            c.is_default(),
    {
        TauriConfig {
            pattern: PatternKind::Brownfield,
            windows: Vec::new(),
            bundle: BundleConfig::default(),
            security: SecurityConfig::default(),
            tray_icon: None,
            macos_private_api: false,
        }
    }
}

} // verus!
