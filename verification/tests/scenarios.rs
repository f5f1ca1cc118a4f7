use tauri_acl::capability::{Capability, CapabilityContext};
use tauri_acl::glob::{glob_matches, host_matches};
use tauri_acl::identifier::Identifier;
use tauri_acl::manifest::{Manifest, Permission, PermissionSet};
use tauri_acl::platform::{default_platforms, Target};
use tauri_acl::registry::ManifestRegistry;
use tauri_acl::resolved::{resolve, Authorization, Origin};

fn texts(items: &[&str]) -> Vec<String> {
    items.iter().map(|s| s.to_string()).collect()
}

fn fs_registry() -> ManifestRegistry {
    let mut fs = Manifest::new("fs");
    fs.add_permission(Permission::new("readFile", texts(&["read_file"]), vec![]));
    fs.add_permission(Permission::new("deny-read", vec![], texts(&["read_file"])));
    fs.add_set(PermissionSet::new("allow-all", "everything", texts(&["readFile"])));
    let mut registry = ManifestRegistry::new();
    registry.register(fs).unwrap();
    registry
}

fn capability(name: &str, windows: &[&str], permissions: &[&str]) -> Capability {
    Capability {
        identifier: name.to_string(),
        description: String::new(),
        context: CapabilityContext::Local,
        windows: texts(windows),
        permissions: permissions.iter().map(|p| Identifier::parse(p).unwrap()).collect(),
        platforms: default_platforms(),
    }
}

fn is_allowed(a: &Authorization) -> bool {
    matches!(a, Authorization::Allowed { .. })
}

#[test]
fn window_pattern_matches_prefix() {
    assert!(glob_matches("admin-*", "admin-panel"));
    assert!(!glob_matches("admin-*", "main"));
}

#[test]
fn domain_pattern_matches_subdomain_only() {
    assert!(host_matches("*.example.com", "docs.example.com"));
    assert!(!host_matches("*.example.com", "example.com.evil.org"));
    assert!(host_matches("*.Example.COM", "DOCS.example.com"));
}

#[test]
fn set_grant_allows_command_for_matching_window_only() {
    let registry = fs_registry();
    let caps = vec![capability("main", &["main"], &["fs:allow-all"])];
    let acl = resolve(&registry, &caps, &texts(&["main", "other"]), Target::Linux).unwrap();
    assert!(is_allowed(&acl.authorize("main", "read_file", &Origin::Local)));
    assert_eq!(acl.authorize("other", "read_file", &Origin::Local), Authorization::Denied);
}

#[test]
fn deny_wins_over_allow_in_either_order() {
    let registry = fs_registry();
    let allow = capability("a", &["main"], &["fs:readFile"]);
    let deny = capability("b", &["main"], &["fs:deny-read"]);
    let windows = texts(&["main"]);
    let first = resolve(&registry, &vec![allow.clone(), deny.clone()], &windows, Target::Linux)
        .unwrap();
    let second = resolve(&registry, &vec![deny, allow], &windows, Target::Linux).unwrap();
    assert_eq!(first.authorize("main", "read_file", &Origin::Local), Authorization::Denied);
    assert_eq!(second.authorize("main", "read_file", &Origin::Local), Authorization::Denied);
}
