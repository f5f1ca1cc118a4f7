use tauri_acl::config::app::{
    default_title, default_true, default_window_label, Color, PatternKind, TauriConfig,
    TrayIconConfig,
};
use tauri_acl::config::bundle::{
    de_minimum_system_version, default_min_sdk_version, default_release, dmg_app_position,
    dmg_application_folder_position, dmg_window_size, minimum_system_version, AndroidConfig,
    AssociationExt, BundleConfig, BundleResources, BundleTarget, BundleType, BundleTypeRole,
    DmgConfig, MacConfig, NSISInstallerMode, Position, RpmConfig, Size, WebviewInstallMode,
    WindowsConfig, WixLanguage,
};
use tauri_acl::config::package::{
    default_build, default_dev_path, default_dist_dir, package_version, version_of_form, AppUrl,
    BuildConfig, PackageConfig, WebviewUrl,
};
use tauri_acl::config::security::{
    read_directive, AssetProtocolConfig, Csp, CspDirectiveSources, DisabledCspModificationKind,
    FsScope, SecurityConfig,
};
use tauri_acl::config::updater::{UpdaterConfig, UpdaterWindowsConfig, WindowsUpdateInstallMode};
use tauri_acl::names::NameMap;
use tauri_acl::platform::Target;

/// A window as a configuration describes it.
#[derive(Debug, Clone, PartialEq)]
struct Window {
    label: String,
    width: f64,
    height: f64,
}

fn texts(items: &[&str]) -> Vec<String> {
    items.iter().map(|s| s.to_string()).collect()
}

#[test]
// test all of the default functions
fn test_defaults() {
    // get default build config
    let b_config = BuildConfig::default();
    // get default dev path
    let d_path = default_dev_path();
    // get default bundle
    let d_bundle = BundleConfig::default();
    // get default tauri config
    let t_config: TauriConfig<Window> = TauriConfig::default();
    // get default window
    let d_windows: Vec<Window> = vec![];

    let bundle = BundleConfig {
        active: false,
        targets: Default::default(),
        identifier: String::from(""),
        publisher: None,
        icon: Vec::new(),
        resources: None,
        copyright: None,
        category: None,
        file_associations: None,
        short_description: None,
        long_description: None,
        appimage: Default::default(),
        deb: Default::default(),
        rpm: Default::default(),
        dmg: Default::default(),
        macos: Default::default(),
        external_bin: None,
        windows: Default::default(),
        ios: Default::default(),
        android: Default::default(),
        updater: Default::default(),
    };
    let security = SecurityConfig {
        csp: None,
        dev_csp: None,
        freeze_prototype: false,
        dangerous_disable_asset_csp_modification: DisabledCspModificationKind::Flag(false),
        asset_protocol: AssetProtocolConfig::default(),
    };

    // create a build config
    let build = BuildConfig {
        runner: None,
        dev_path: AppUrl::Url(WebviewUrl::External(String::from(
            url::Url::parse("http://localhost:8080").unwrap(),
        ))),
        dist_dir: AppUrl::Url(WebviewUrl::App("../dist".into())),
        before_dev_command: None,
        before_build_command: None,
        before_bundle_command: None,
        features: None,
        with_global_tauri: false,
    };

    // create a tauri config.
    let tauri = TauriConfig {
        pattern: Default::default(),
        windows: vec![],
        bundle,
        security,
        tray_icon: None,
        macos_private_api: false,
    };

    // test the configs
    assert_eq!(t_config, tauri);
    assert_eq!(b_config, build);
    assert_eq!(d_bundle, tauri.bundle);
    assert_eq!(
        d_path,
        AppUrl::Url(WebviewUrl::External(String::from(
            url::Url::parse("http://localhost:8080").unwrap()
        )))
    );
    assert_eq!(d_windows, tauri.windows);
}

#[test]
fn default_values_are_the_documented_ones() {
    assert!(default_true());
    assert_eq!(default_window_label(), "main");
    assert_eq!(default_title(), "Tauri App");
    assert_eq!(default_release(), "1");
    assert_eq!(default_min_sdk_version(), 24);
    assert_eq!(AndroidConfig::default().min_sdk_version, 24);
    assert_eq!(minimum_system_version(), Some("10.13".to_string()));
    assert_eq!(dmg_window_size(), Size { width: 660, height: 400 });
    assert_eq!(dmg_app_position(), Position { x: 180, y: 170 });
    assert_eq!(dmg_application_folder_position(), Position { x: 480, y: 170 });
    let dmg = DmgConfig::default();
    assert_eq!(dmg.window_size, Size { width: 660, height: 400 });
    assert_eq!(dmg.app_position, Position { x: 180, y: 170 });
    assert_eq!(dmg.application_folder_position, Position { x: 480, y: 170 });
    assert_eq!(dmg.window_position, None);
    let rpm = RpmConfig::default();
    assert_eq!((rpm.release.as_str(), rpm.epoch), ("1", 0));
    assert_eq!(rpm.files.len(), 0);
    assert_eq!(MacConfig::default().minimum_system_version, Some("10.13".to_string()));
    assert_eq!(WixLanguage::default(), WixLanguage::One("en-US".to_string()));
    assert_eq!(NSISInstallerMode::default(), NSISInstallerMode::CurrentUser);
    assert_eq!(
        WebviewInstallMode::default(),
        WebviewInstallMode::DownloadBootstrapper { silent: true }
    );
    let windows = WindowsConfig::default();
    assert!(windows.allow_downgrades && !windows.tsp);
    assert_eq!(BundleTypeRole::default(), BundleTypeRole::Editor);
    assert_eq!(BundleTarget::default(), BundleTarget::All);
    assert_eq!(WebviewUrl::default(), WebviewUrl::App("index.html".to_string()));
    assert_eq!(default_dist_dir(), AppUrl::Url(WebviewUrl::App("../dist".to_string())));
    assert_eq!(default_build(), BuildConfig::default());
    assert_eq!(CspDirectiveSources::default(), CspDirectiveSources::List(vec![]));
    assert_eq!(FsScope::default(), FsScope::AllowedPaths(vec![]));
    assert_eq!(WindowsUpdateInstallMode::default(), WindowsUpdateInstallMode::Passive);
    let updater = UpdaterConfig::default();
    assert!(!updater.active && updater.pubkey.is_empty());
    assert_eq!(updater.windows.install_mode, WindowsUpdateInstallMode::Passive);
}

#[test]
fn bundle_types_are_read_without_regard_to_case() {
    assert_eq!(BundleType::parse("DEB"), Ok(BundleType::Deb));
    assert_eq!(BundleType::parse("AppImage"), Ok(BundleType::AppImage));
    assert_eq!(BundleType::parse("updater"), Ok(BundleType::Updater));
    assert_eq!(BundleType::parse("Zip"), Err("unknown bundle target 'Zip'".to_string()));
    assert_eq!(BundleType::named("DEB"), None);
    assert_eq!(BundleType::named("msi"), Some(BundleType::Msi));
    for kind in [
        BundleType::Deb,
        BundleType::Rpm,
        BundleType::AppImage,
        BundleType::Msi,
        BundleType::Nsis,
        BundleType::App,
        BundleType::Dmg,
        BundleType::Updater,
    ] {
        assert_eq!(BundleType::named(kind.name()), Some(kind));
    }
    assert_eq!(BundleTarget::parse("ALL"), Ok(BundleTarget::All));
    assert_eq!(BundleTarget::parse("Dmg"), Ok(BundleTarget::One(BundleType::Dmg)));
    assert_eq!(BundleTarget::parse("zip"), Err("invalid bundle type zip".to_string()));
}

#[test]
fn bundle_target_as_list() {
    assert_eq!(BundleTarget::All.to_vec(), vec![]);
    assert_eq!(BundleTarget::One(BundleType::Nsis).to_vec(), vec![BundleType::Nsis]);
    assert_eq!(
        BundleTarget::List(vec![BundleType::Deb, BundleType::Rpm, BundleType::Deb]).to_vec(),
        vec![BundleType::Deb, BundleType::Rpm, BundleType::Deb]
    );
}

#[test]
fn resources_take_a_path() {
    let mut list = BundleResources::List(texts(&["a"]));
    list.push("b".to_string());
    assert_eq!(list, BundleResources::List(texts(&["a", "b"])));
    let mut map = BundleResources::Mapping(NameMap::new());
    map.push("icons/x.png".to_string());
    map.push("assets".to_string());
    match map {
        BundleResources::Mapping(m) => {
            assert_eq!(m.len(), 2);
            assert_eq!(m.get("assets"), Some(&"assets".to_string()));
            assert_eq!(m.get("icons/x.png"), Some(&"icons/x.png".to_string()));
        }
        _ => panic!("still a map"),
    }
}

#[test]
fn association_extension_loses_one_leading_dot() {
    assert_eq!(AssociationExt::new(".png").text(), "png");
    assert_eq!(AssociationExt::new("png").text(), "png");
    assert_eq!(AssociationExt::new("..png").text(), ".png");
    assert_eq!(AssociationExt::new("").text(), "");
    assert_eq!(AssociationExt::new(".").0, "");
    assert_eq!(BundleTypeRole::NoRole.name(), "None");
    assert_eq!(BundleTypeRole::QLGenerator.name(), "QLGenerator");
}

#[test]
fn empty_minimum_system_version_gives_the_default() {
    assert_eq!(de_minimum_system_version(Some(String::new())), Some("10.13".to_string()));
    assert_eq!(de_minimum_system_version(Some("11.0".to_string())), Some("11.0".to_string()));
    assert_eq!(de_minimum_system_version(None), None);
}

#[test]
fn fixed_runtime_path_overrides_install_mode() {
    let mut windows = WindowsConfig::default();
    assert_eq!(
        windows.effective_install_mode(),
        WebviewInstallMode::DownloadBootstrapper { silent: true }
    );
    windows.webview_install_mode = WebviewInstallMode::OfflineInstaller { silent: false };
    assert_eq!(
        windows.effective_install_mode(),
        WebviewInstallMode::OfflineInstaller { silent: false }
    );
    windows.webview_fixed_runtime_path = Some("./runtime".to_string());
    assert_eq!(
        windows.effective_install_mode(),
        WebviewInstallMode::FixedRuntime { path: "./runtime".to_string() }
    );
}

#[test]
fn update_install_modes() {
    assert_eq!(WindowsUpdateInstallMode::BasicUi.msiexec_args(), vec!["/qb+"]);
    assert_eq!(WindowsUpdateInstallMode::Quiet.msiexec_args(), vec!["/quiet"]);
    assert_eq!(WindowsUpdateInstallMode::Passive.msiexec_args(), vec!["/passive"]);
    assert_eq!(WindowsUpdateInstallMode::Passive.nsis_args(), vec!["/P", "/R"]);
    assert_eq!(WindowsUpdateInstallMode::Quiet.nsis_args(), vec!["/S", "/R"]);
    assert!(WindowsUpdateInstallMode::BasicUi.nsis_args().is_empty());
    assert_eq!(WindowsUpdateInstallMode::BasicUi.name(), "basicUI");
    assert_eq!(WindowsUpdateInstallMode::parse("BasicUI"), Ok(WindowsUpdateInstallMode::BasicUi));
    assert_eq!(WindowsUpdateInstallMode::parse("QUIET"), Ok(WindowsUpdateInstallMode::Quiet));
    assert_eq!(WindowsUpdateInstallMode::parse("passive"), Ok(WindowsUpdateInstallMode::Passive));
    assert_eq!(
        WindowsUpdateInstallMode::parse("loud"),
        Err("unknown update install mode 'loud'".to_string())
    );
}

#[test]
fn active_updater_needs_a_key() {
    let windows = UpdaterWindowsConfig { install_mode: WindowsUpdateInstallMode::Quiet };
    assert_eq!(
        UpdaterConfig::from_parts(true, None, windows.clone()),
        Err("The updater `pubkey` configuration is required.".to_string())
    );
    let idle = UpdaterConfig::from_parts(false, None, windows.clone()).unwrap();
    assert_eq!((idle.active, idle.pubkey.as_str()), (false, ""));
    let active = UpdaterConfig::from_parts(true, Some("KEY".to_string()), windows.clone()).unwrap();
    assert_eq!((active.active, active.pubkey.as_str()), (true, "KEY"));
    assert_eq!(active.windows, windows);
}

#[test]
fn cargo_features_of_a_configuration() {
    assert_eq!(
        TauriConfig::<Window>::all_features(),
        vec!["tray-icon", "macos-private-api", "isolation", "protocol-asset"]
    );
    let mut config: TauriConfig<Window> = TauriConfig::default();
    assert!(config.features().is_empty());
    config.tray_icon = Some(TrayIconConfig::default());
    config.pattern = PatternKind::Isolation { dir: "../isolation".to_string() };
    assert_eq!(config.features(), vec!["isolation", "tray-icon"]);
    config.macos_private_api = true;
    config.security.asset_protocol.enable = true;
    assert_eq!(
        config.features(),
        vec!["isolation", "macos-private-api", "protocol-asset", "tray-icon"]
    );
    config.tray_icon = None;
    config.pattern = PatternKind::Brownfield;
    assert_eq!(config.features(), vec!["macos-private-api", "protocol-asset"]);
    assert_eq!(Color(1, 2, 3, 4).into_tuple(), (1, 2, 3, 4));
}

#[test]
fn binary_name_is_kebab_case_on_linux_only() {
    let package = PackageConfig { product_name: Some("My Tauri App".to_string()), version: None };
    assert_eq!(package.binary_name(Target::Linux), Some("my-tauri-app".to_string()));
    assert_eq!(package.binary_name(Target::Windows), Some("My Tauri App".to_string()));
    assert_eq!(package.binary_name(Target::MacOS), Some("My Tauri App".to_string()));
    let camel = PackageConfig { product_name: Some("SomeApp".to_string()), version: None };
    assert_eq!(camel.binary_name(Target::Linux), Some("some-app".to_string()));
    assert_eq!(PackageConfig::default().binary_name(Target::Linux), None);
}

#[test]
fn package_version_must_be_semver() {
    assert_eq!(package_version("1.2.3"), Ok("1.2.3".to_string()));
    assert_eq!(package_version("1.0.0-beta.1+build"), Ok("1.0.0-beta.1+build".to_string()));
    let message = "`package > version` must be a semver string".to_string();
    assert_eq!(package_version("1.0"), Err(message.clone()));
    assert_eq!(package_version("v1.0.0"), Err(message.clone()));
    assert_eq!(package_version(""), Err(message));
}

#[test]
fn webview_url_is_external_when_it_reads_as_url() {
    assert_eq!(
        WebviewUrl::parse("http://localhost:8080"),
        WebviewUrl::External("http://localhost:8080/".to_string())
    );
    assert_eq!(
        WebviewUrl::parse("HTTPS://Tauri.App/a b"),
        WebviewUrl::External("https://tauri.app/a%20b".to_string())
    );
    assert_eq!(WebviewUrl::parse("index.html"), WebviewUrl::App("index.html".to_string()));
    assert_eq!(WebviewUrl::parse("users/john"), WebviewUrl::App("users/john".to_string()));
    assert_eq!(WebviewUrl::parse("https://tauri.app/").text(), "https://tauri.app/");
    assert_eq!(
        WebviewUrl::from_form("x", Some("y".to_string())),
        WebviewUrl::External("y".to_string())
    );
    assert_eq!(WebviewUrl::from_form("x", None), WebviewUrl::App("x".to_string()));
}

#[test]
fn directive_sources_hold_and_grow() {
    let mut list = CspDirectiveSources::List(texts(&["'self'", "https:"]));
    assert!(list.contains("'self'") && !list.contains("self"));
    list.push("data:");
    list.extend(texts(&["blob:", "ws:"]));
    assert_eq!(list, CspDirectiveSources::List(texts(&["'self'", "https:", "data:", "blob:", "ws:"])));
    assert_eq!(list.into_list(), texts(&["'self'", "https:", "data:", "blob:", "ws:"]));

    let mut inline = CspDirectiveSources::Inline("'self' https:".to_string());
    assert!(inline.contains("'self'"));
    assert!(inline.contains("https:"));
    assert!(inline.contains("http"));
    assert!(!inline.contains("data:"));
    assert!(!CspDirectiveSources::Inline("'self'".to_string()).contains("'self'"));
    inline.push("data:");
    assert_eq!(inline, CspDirectiveSources::Inline("'self' https: data:".to_string()));
    inline.extend(texts(&["blob:", "ws:"]));
    assert_eq!(inline, CspDirectiveSources::Inline("'self' https: data: blob: ws:".to_string()));
    inline.extend(vec![]);
    assert_eq!(inline.into_list(), texts(&["'self'", "https:", "data:", "blob:", "ws:"]));
    assert_eq!(CspDirectiveSources::Inline(String::new()).into_list(), texts(&[""]));
}

#[test]
fn policy_text_splits_into_directives() {
    let csp = Csp::Policy("default-src 'self' https: ;  img-src *;default-src 'none'".to_string());
    let map = csp.into_directives();
    assert_eq!(map.len(), 2);
    assert_eq!(map.get("default-src"), Some(&CspDirectiveSources::List(texts(&["'none'"]))));
    assert_eq!(map.get("img-src"), Some(&CspDirectiveSources::List(texts(&["*"]))));
    let one = Csp::Policy("  script-src  ".to_string()).into_directives();
    assert_eq!(one.get("script-src"), Some(&CspDirectiveSources::List(vec![])));
    let empty = Csp::Policy(String::new()).into_directives();
    assert_eq!(empty.len(), 1);
    assert_eq!(empty.get(""), Some(&CspDirectiveSources::List(vec![])));
}

#[test]
fn directive_map_becomes_a_policy_text() {
    let mut map = NameMap::new();
    map.insert("img-src".to_string(), CspDirectiveSources::Inline("* data:".to_string()));
    map.insert("default-src".to_string(), CspDirectiveSources::List(texts(&["'self'", "https:"])));
    let csp = Csp::from_directives(map.clone());
    assert_eq!(csp.to_text(), "default-src 'self' https:; img-src * data:");
    assert_eq!(csp.into_directives(), map);
    assert_eq!(Csp::Policy("a b; c".to_string()).to_text(), "a b; c");
    assert_eq!(Csp::from_directives(NameMap::new()).to_text(), "");
}

#[test]
fn csp_modification_can_be_switched_off() {
    assert!(DisabledCspModificationKind::Flag(false).can_modify("script-src"));
    assert!(!DisabledCspModificationKind::Flag(true).can_modify("script-src"));
    let list = DisabledCspModificationKind::List(texts(&["script-src", "style-src"]));
    assert!(!list.can_modify("script-src"));
    assert!(!list.can_modify("style-src"));
    assert!(list.can_modify("img-src"));
    assert_eq!(DisabledCspModificationKind::default(), DisabledCspModificationKind::Flag(false));
}

#[test]
fn fs_scope_paths() {
    let plain = FsScope::AllowedPaths(texts(&["$HOME/*"]));
    assert_eq!(plain.allowed_paths(), &texts(&["$HOME/*"]));
    assert_eq!(plain.forbidden_paths(), None);
    let full = FsScope::Scope {
        allow: texts(&["$APP/*"]),
        deny: texts(&["$APP/secret"]),
        require_literal_leading_dot: Some(true),
    };
    assert_eq!(full.allowed_paths(), &texts(&["$APP/*"]));
    assert_eq!(full.forbidden_paths(), Some(&texts(&["$APP/secret"])));
}

#[test]
fn parts_after_the_outside_calls() {
    assert_eq!(
        read_directive("img-src * data:"),
        ("img-src".to_string(), texts(&["*", "data:"]))
    );
    assert_eq!(read_directive("script-src"), ("script-src".to_string(), vec![]));
    assert_eq!(read_directive(""), (String::new(), vec![]));
    assert_eq!(read_directive("a  b"), ("a".to_string(), texts(&["", "b"])));
    assert_eq!(version_of_form(Some("1.0.0".to_string())), Ok("1.0.0".to_string()));
    assert_eq!(
        version_of_form(None),
        Err("`package > version` must be a semver string".to_string())
    );
    assert_eq!(BundleTarget::named("all"), Some(BundleTarget::All));
    assert_eq!(BundleTarget::named("ALL"), None);
    assert_eq!(BundleTarget::named("deb"), Some(BundleTarget::One(BundleType::Deb)));
    assert_eq!(BundleTarget::named("zip"), None);
}
