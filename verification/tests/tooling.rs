use tauri_acl::assets::noop_assets;
use tauri_acl::config::app::PatternKind;
use tauri_acl::config::bundle::BundleConfig;
use tauri_acl::config::package::{
    package_version_from, version_of_member, AppUrl, BuildConfig, WebviewUrl,
};
use tauri_acl::config::security::SecurityConfig;
use tauri_acl::dev::{
    before_dev_exit, before_dev_script, choose_address, desktop_host_of, effective_runner,
    exit_reason, external_addresses, is_external, mentions_host, shell_for, Address,
    AddressChoice, ExitReason,
};
use tauri_acl::foreign::JsonMember;
use tauri_acl::manifest::{Manifest, Permission, PermissionSet};
use tauri_acl::mock::mock_context;
use tauri_acl::platform::Target;
use tauri_acl::plugin::{BuildError, BuildPlan, Builder};
use tauri_acl::registry::ManifestRegistry;
use tauri_acl::resolved::{Authorization, Origin, ResolvedAcl};
use tauri_acl::schema::{permission_schemas, schema_file_names, schema_from, PermissionSchema};

fn entry(identifier: &str, description: Option<&str>) -> PermissionSchema {
    PermissionSchema {
        identifier: identifier.to_string(),
        description: description.map(|d| d.to_string()),
    }
}

#[test]
fn schema_entry_shows_identifier_and_description() {
    assert_eq!(
        schema_from("fs", "read", Some("Reads files")),
        entry("fs:read", Some("fs:read -> Reads files"))
    );
    assert_eq!(schema_from("fs", "read", None), entry("fs:read", None));
    assert_eq!(schema_from("fs", "read", Some("")), entry("fs:read", Some("fs:read -> ")));
}

#[test]
fn schema_lists_sets_then_default_then_permissions() {
    let mut fs = Manifest::new("fs");
    let mut read = Permission::new("read", vec!["read_file".to_string()], vec![]);
    read.description = Some("Reads files".to_string());
    fs.add_permission(read);
    fs.add_permission(Permission::new("all", vec!["write_file".to_string()], vec![]));
    fs.add_set(PermissionSet::new("rw", "Reads and writes", vec!["read".to_string()]));
    fs.add_set(PermissionSet::new("all-sets", "", vec!["rw".to_string()]));
    let mut default = Permission::new("anything", vec![], vec![]);
    default.description = Some("What everyone gets".to_string());
    fs.set_default(default);
    let mut app = Manifest::new("app");
    app.add_permission(Permission::new("quit", vec!["quit".to_string()], vec![]));
    let mut registry = ManifestRegistry::new();
    registry.register(fs).unwrap();
    registry.register(app).unwrap();
    assert_eq!(
        permission_schemas(&registry),
        vec![
            entry("app:quit", None),
            entry("fs:all-sets", Some("fs:all-sets -> ")),
            entry("fs:rw", Some("fs:rw -> Reads and writes")),
            entry("fs:default", Some("fs:default -> What everyone gets")),
            entry("fs:all", None),
            entry("fs:read", Some("fs:read -> Reads files")),
        ]
    );
    assert!(permission_schemas(&ManifestRegistry::new()).is_empty());
}

#[test]
fn schema_files_are_named_by_platform() {
    assert_eq!(
        schema_file_names(Target::Linux),
        ("linux-schema.json".to_string(), "desktop-schema.json".to_string())
    );
    assert_eq!(
        schema_file_names(Target::MacOS),
        ("macOS-schema.json".to_string(), "desktop-schema.json".to_string())
    );
    assert_eq!(
        schema_file_names(Target::Windows),
        ("windows-schema.json".to_string(), "desktop-schema.json".to_string())
    );
    assert_eq!(
        schema_file_names(Target::Android),
        ("android-schema.json".to_string(), "mobile-schema.json".to_string())
    );
    assert_eq!(
        schema_file_names(Target::Ios),
        ("iOS-schema.json".to_string(), "mobile-schema.json".to_string())
    );
}

#[test]
fn version_is_read_from_a_json_file() {
    let file = |json: &str| Some(Ok(json.to_string()));
    assert_eq!(
        package_version_from("package.json", file("{\"name\":\"x\",\"version\":\"1.2.3\"}")),
        Ok("1.2.3".to_string())
    );
    assert_eq!(
        package_version_from("package.json", file("{\"name\":\"x\"}")),
        Err("JSON must contain a `version` field".to_string())
    );
    assert_eq!(
        package_version_from("package.json", file("{\"version\":3}")),
        Err("`package.json > version` must be a string".to_string())
    );
    assert_eq!(
        package_version_from("package.json", file("[\"1.2.3\"]")),
        Err("`package > version` value is not a path to a JSON object".to_string())
    );
    assert_eq!(
        package_version_from("package.json", file("{\"version\":\"one\"}")),
        Err("`package > version` must be a semver string".to_string())
    );
    let broken = package_version_from("package.json", file("{")).unwrap_err();
    assert!(broken.starts_with("failed to read version JSON file: "));
    assert!(broken.len() > "failed to read version JSON file: ".len());
    assert_eq!(
        package_version_from("package.json", Some(Err("denied".to_string()))),
        Err("failed to read version JSON file: denied".to_string())
    );
    assert_eq!(package_version_from("0.3.0", None), Ok("0.3.0".to_string()));
    assert_eq!(
        package_version_from("package.json", None),
        Err("`package > version` must be a semver string".to_string())
    );
}

#[test]
fn version_of_each_kind_of_member() {
    assert_eq!(
        version_of_member("p.json", JsonMember::Invalid("eof".to_string())),
        Err("failed to read version JSON file: eof".to_string())
    );
    assert_eq!(
        version_of_member("p.json", JsonMember::NotObject),
        Err("`package > version` value is not a path to a JSON object".to_string())
    );
    assert_eq!(
        version_of_member("p.json", JsonMember::Missing),
        Err("JSON must contain a `version` field".to_string())
    );
    assert_eq!(
        version_of_member("p.json", JsonMember::NotText),
        Err("`p.json > version` must be a string".to_string())
    );
    assert_eq!(
        version_of_member("p.json", JsonMember::Text("2.0.0".to_string())),
        Ok("2.0.0".to_string())
    );
}

#[test]
fn exit_decisions() {
    assert_eq!(exit_reason(true), ExitReason::TriggeredKill);
    assert_eq!(exit_reason(false), ExitReason::NormalExit);
    assert_eq!(before_dev_exit(true, false, Some(0)), None);
    assert_eq!(before_dev_exit(false, true, Some(9)), None);
    assert_eq!(before_dev_exit(false, false, Some(9)), Some(9));
    assert_eq!(before_dev_exit(false, false, None), Some(1));
    assert_eq!(
        effective_runner(Some("a".to_string()), Some("b".to_string())),
        Some("a".to_string())
    );
    assert_eq!(effective_runner(None, Some("b".to_string())), Some("b".to_string()));
    assert_eq!(effective_runner(None, None), None);
    assert_eq!(shell_for(true), ("cmd", vec!["/S", "/C"]));
    assert_eq!(shell_for(false), ("sh", vec!["-c"]));
}

#[test]
fn host_of_the_development_url() {
    let external = AppUrl::Url(WebviewUrl::parse("http://devbox.local:3000/app"));
    let numeric = AppUrl::Url(WebviewUrl::parse("http://127.0.0.1:8080"));
    let hostless = AppUrl::Url(WebviewUrl::External("data:text/plain,x".to_string()));
    let path = AppUrl::Url(WebviewUrl::App("../dist".to_string()));
    let files = AppUrl::Files(vec!["index.html".to_string()]);
    assert_eq!(desktop_host_of(&external), "devbox.local");
    assert_eq!(desktop_host_of(&numeric), "127.0.0.1");
    assert_eq!(desktop_host_of(&hostless), "0.0.0.0");
    assert_eq!(desktop_host_of(&path), "0.0.0.0");
    assert_eq!(desktop_host_of(&files), "0.0.0.0");
}

#[test]
fn script_gets_the_host_it_asks_for() {
    let external = AppUrl::Url(WebviewUrl::parse("http://devbox.local:3000/app"));
    let path = AppUrl::Url(WebviewUrl::App("../dist".to_string()));
    assert!(mentions_host("vite --host $HOST"));
    assert!(!mentions_host("vite --host $HOS"));
    assert!(!mentions_host(""));
    assert_eq!(
        before_dev_script("vite --host $HOST", &external, None),
        "vite --host devbox.local"
    );
    assert_eq!(before_dev_script("vite --host $HOST", &path, None), "vite --host 0.0.0.0");
    assert_eq!(
        before_dev_script("vite --host $HOST", &external, Some("10.0.0.7")),
        "vite --host 10.0.0.7"
    );
    assert_eq!(before_dev_script("npm run dev", &external, Some("10.0.0.7")), "npm run dev");
}

#[test]
fn address_of_the_development_server() {
    let loopback = Address::V4(127, 0, 0, 1);
    let lan = Address::V4(192, 168, 1, 5);
    let vpn = Address::V4(10, 8, 0, 2);
    assert!(!is_external(loopback));
    assert!(!is_external(Address::V6));
    assert!(is_external(lan));
    assert!(is_external(Address::V4(127, 0, 0, 2)));
    assert_eq!(
        external_addresses(&vec![loopback, lan, Address::V6, vpn, lan]),
        vec![lan, vpn, lan]
    );
    assert_eq!(choose_address(&vec![]), AddressChoice::NoAddress);
    assert_eq!(choose_address(&vec![loopback, Address::V6]), AddressChoice::NoAddress);
    assert_eq!(choose_address(&vec![loopback, vpn]), AddressChoice::Only(vpn));
    assert_eq!(choose_address(&vec![lan, loopback, vpn]), AddressChoice::Ask(vec![lan, vpn]));
}

#[test]
fn build_variables_are_checked_in_order() {
    let commands = ["ping"];
    let builder = Builder::new(&commands);
    assert_eq!(
        builder.check(None, None),
        Err(BuildError::BuildVar("CARGO_PKG_NAME".to_string()))
    );
    assert_eq!(builder.check(Some("my_plugin"), None), Err(BuildError::CrateName));
    assert_eq!(builder.check(Some("my_plugin"), Some("x")), Err(BuildError::CrateName));
    assert_eq!(
        builder.check(Some("my-plugin"), None),
        Err(BuildError::BuildVar("CARGO_MANIFEST_LINKS".to_string()))
    );
    assert_eq!(
        builder.check(Some("my-plugin"), Some("my-plugin")),
        Ok(BuildPlan { autogenerate_permissions: true })
    );
}

#[test]
fn mock_context_grants_nothing() {
    let context = mock_context(noop_assets());
    assert_eq!(context.assets, noop_assets());
    assert_eq!(context.package.product_name, None);
    assert_eq!(context.package.version, None);
    assert_eq!(context.pattern, PatternKind::Brownfield);
    assert_eq!(context.bundle, BundleConfig::default());
    assert_eq!(context.security, SecurityConfig::default());
    assert_eq!(context.build, BuildConfig::default());
    assert_eq!(context.tray_icon, None);
    assert!(!context.macos_private_api);
    assert_eq!(context.package_info.name, "test");
    assert_eq!(context.package_info.version, "0.1.0");
    assert_eq!(context.package_info.authors, "Tauri");
    assert_eq!(context.package_info.description, "Tauri test");
    assert_eq!(context.package_info.crate_name, "test");
    assert_eq!(context.resolved_acl, ResolvedAcl::empty());
    assert!(!context.resolved_acl.knows_window("main"));
    assert_eq!(
        context.resolved_acl.authorize("main", "ping", &Origin::Local),
        Authorization::Denied
    );
    let with_main = ResolvedAcl::empty().with_window("main");
    assert_eq!(with_main.allowed_commands("main").unwrap().len(), 0);
    assert_eq!(with_main.authorize("main", "ping", &Origin::Local), Authorization::Denied);
}

#[test]
fn platform_of_a_target_triple() {
    assert_eq!(Target::from_triple("x86_64-unknown-linux-gnu"), Target::Linux);
    assert_eq!(Target::from_triple("aarch64-apple-darwin"), Target::MacOS);
    assert_eq!(Target::from_triple("x86_64-pc-windows-msvc"), Target::Windows);
    assert_eq!(Target::from_triple("aarch64-linux-android"), Target::Android);
    assert_eq!(Target::from_triple("aarch64-apple-ios"), Target::Ios);
    assert_eq!(Target::from_triple("aarch64-apple-ios-sim"), Target::Ios);
    assert_eq!(Target::from_triple(""), Target::Linux);
    assert_eq!(Target::from_triple("windows-on-darwin"), Target::MacOS);
    assert_eq!(Target::Ios.name(), "iOS");
    assert_eq!(Target::MacOS.name(), "macOS");
}

#[test]
fn place_of_the_application_as_text() {
    assert_eq!(
        AppUrl::Url(WebviewUrl::parse("http://localhost:8080")).text(),
        Some("http://localhost:8080/".to_string())
    );
    assert_eq!(
        AppUrl::Url(WebviewUrl::App("../dist".to_string())).text(),
        Some("../dist".to_string())
    );
    assert_eq!(
        AppUrl::Files(vec!["index.html".to_string(), "a \"b\".js".to_string()]).text(),
        Some("[\"index.html\",\"a \\\"b\\\".js\"]".to_string())
    );
    assert_eq!(AppUrl::Files(vec![]).text(), Some("[]".to_string()));
}
