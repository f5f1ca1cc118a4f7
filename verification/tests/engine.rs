use tauri_acl::builder::AclBuilder;
use tauri_acl::capability::{Capability, CapabilityContext, CapabilitySet};
use tauri_acl::error::{AclError, ErrorKind};
use tauri_acl::expand::{expand_name, Failure};
use tauri_acl::glob::{glob_matches, host_matches, Pattern};
use tauri_acl::identifier::Identifier;
use tauri_acl::manifest::{Commands, Manifest, Permission, PermissionFile, PermissionSet, Scopes};
use tauri_acl::names::{NameMap, NameSet};
use tauri_acl::platform::{default_platforms, lists_target, Target};
use tauri_acl::registry::{get_plugin_manifests, ManifestRegistry};
use tauri_acl::resolved::{resolve, Authorization, CompiledCapability, Origin, ResolvedAcl};
use tauri_acl::text::{compare, split, Order};
use tauri_acl::validate::validate_capabilities;

fn texts(items: &[&str]) -> Vec<String> {
    items.iter().map(|s| s.to_string()).collect()
}

fn permission(name: &str, allow: &[&str], deny: &[&str]) -> Permission {
    Permission::new(name, texts(allow), texts(deny))
}

fn scoped(name: &str, allow: &[&str], scope_allow: &[&str], scope_deny: &[&str]) -> Permission {
    Permission {
        identifier: name.to_string(),
        description: None,
        commands: Commands { allow: texts(allow), deny: vec![] },
        scope: Scopes { allow: texts(scope_allow), deny: texts(scope_deny) },
        platforms: vec![],
    }
}

fn capability(name: &str, windows: &[&str], permissions: &[&str]) -> Capability {
    Capability {
        identifier: name.to_string(),
        description: String::new(),
        context: CapabilityContext::Local,
        windows: texts(windows),
        permissions: permissions.iter().map(|p| Identifier::parse(p).unwrap()).collect(),
        platforms: default_platforms(),
    }
}

fn remote(name: &str, domains: &[&str], windows: &[&str], permissions: &[&str]) -> Capability {
    let mut c = capability(name, windows, permissions);
    c.context = CapabilityContext::Remote { domains: texts(domains) };
    c
}

fn registry() -> ManifestRegistry {
    let mut fs = Manifest::new("fs");
    fs.set_default(permission("anything", &["stat"], &[]));
    fs.add_permission(permission("readFile", &["read_file"], &[]));
    fs.add_permission(permission("writeFile", &["write_file"], &[]));
    fs.add_permission(permission("deny-read", &[], &["read_file"]));
    fs.add_set(PermissionSet::new("read-only", "", texts(&["readFile", "default"])));
    fs.add_set(PermissionSet::new("allow-all", "", texts(&["read-only", "writeFile"])));
    let mut http = Manifest::new("http");
    http.add_permission(permission("fetch", &["fetch"], &[]));
    let mut registry = ManifestRegistry::new();
    registry.register(http).unwrap();
    registry.register(fs).unwrap();
    registry
}

fn allowed(acl: &ResolvedAcl, window: &str, command: &str, origin: &Origin) -> bool {
    matches!(acl.authorize(window, command, origin), Authorization::Allowed { .. })
}

#[test]
fn identifier_splits_at_the_colon() {
    let id = Identifier::parse("fs:read-file_2").unwrap();
    assert_eq!(id.namespace(), "fs");
    assert_eq!(id.name(), "read-file_2");
    assert_eq!(id.get(), "fs:read-file_2");
    assert!(!id.is_default());
    assert!(Identifier::parse("fs:default").unwrap().is_default());
}

#[test]
fn identifier_rejects_malformed_texts() {
    for bad in ["", "fs", ":", "fs:", ":read", "fs:read:more", "f s:read", "fs_x:read", "fs:re ad"] {
        match Identifier::parse(bad) {
            Err(AclError::MalformedIdentifier { identifier }) => assert_eq!(identifier, bad),
            other => panic!("{:?} should be malformed, got {:?}", bad, other),
        }
    }
    assert!(Identifier::new("fs", "read").is_ok());
    assert_eq!(
        Identifier::new("f:s", "read"),
        Err(AclError::MalformedIdentifier { identifier: "f:s:read".to_string() })
    );
}

#[test]
fn duplicate_namespace_is_refused() {
    let mut registry = registry();
    let again = Manifest::new("fs");
    let err = registry.register(again).unwrap_err();
    assert_eq!(err, AclError::DuplicateNamespace { namespace: "fs".to_string() });
    assert_eq!(err.kind(), ErrorKind::DuplicateNamespace);
    assert_eq!(registry.len(), 2);
    assert!(registry.get("fs").unwrap().permission("readFile").is_some());
}

#[test]
fn available_identifiers_are_sorted() {
    assert_eq!(
        registry().available(),
        texts(&[
            "fs:allow-all",
            "fs:default",
            "fs:deny-read",
            "fs:read-only",
            "fs:readFile",
            "fs:writeFile",
            "http:fetch",
        ])
    );
}

#[test]
fn unknown_permission_lists_every_valid_identifier() {
    let registry = registry();
    let caps = vec![capability("c", &["main"], &["fs:readFile", "pluginX:doesNotExist"])];
    let err = validate_capabilities(&registry, &caps, Target::Linux).unwrap_err();
    match &err {
        AclError::UnknownPermission { identifier, available } => {
            assert_eq!(identifier, "pluginX:doesNotExist");
            assert_eq!(available, &registry.available());
        }
        other => panic!("unexpected {:?}", other),
    }
    let message = err.message();
    assert_eq!(
        message,
        "Permission pluginX:doesNotExist not found, expected one of fs:allow-all, fs:default, \
         fs:deny-read, fs:read-only, fs:readFile, fs:writeFile, http:fetch"
    );
    for valid in registry.available() {
        assert!(message.contains(&valid));
    }
    assert_eq!(resolve(&registry, &caps, &texts(&["main"]), Target::Linux), Err(err));
}

#[test]
fn unknown_name_in_known_namespace_and_missing_default() {
    let registry = registry();
    let caps = vec![capability("c", &["main"], &["fs:nope"])];
    let err = validate_capabilities(&registry, &caps, Target::Linux).unwrap_err();
    assert_eq!(err.kind(), ErrorKind::UnknownPermission);
    let caps = vec![capability("c", &["main"], &["http:default"])];
    let err = validate_capabilities(&registry, &caps, Target::Linux).unwrap_err();
    assert_eq!(err.kind(), ErrorKind::UnknownPermission);
    let caps = vec![capability("c", &["main"], &["fs:default"])];
    assert_eq!(validate_capabilities(&registry, &caps, Target::Linux), Ok(()));
}

#[test]
fn first_failure_in_order_decides() {
    let registry = registry();
    let caps = vec![
        capability("a", &["main"], &["fs:readFile"]),
        capability("b", &["main"], &["fs:zzz", "fs:aaa"]),
        capability("c", &["main"], &["fs:bbb"]),
    ];
    match validate_capabilities(&registry, &caps, Target::Linux) {
        Err(AclError::UnknownPermission { identifier, .. }) => assert_eq!(identifier, "fs:zzz"),
        other => panic!("unexpected {:?}", other),
    }
}

#[test]
fn cyclic_sets_are_detected() {
    let mut m = Manifest::new("fs");
    m.add_permission(permission("p", &["p"], &[]));
    m.add_set(PermissionSet::new("a", "", texts(&["p", "b"])));
    m.add_set(PermissionSet::new("b", "", texts(&["a"])));
    m.add_set(PermissionSet::new("self", "", texts(&["self"])));
    let mut path = Vec::new();
    assert_eq!(expand_name(&m, "a", &mut path), Err(Failure::Cyclic));
    assert_eq!(expand_name(&m, "self", &mut path), Err(Failure::Cyclic));
    assert_eq!(expand_name(&m, "missing", &mut path), Err(Failure::Unknown));
    assert!(path.is_empty());
    let mut registry = ManifestRegistry::new();
    registry.register(m).unwrap();
    let caps = vec![capability("c", &["main"], &["fs:a"])];
    let err = validate_capabilities(&registry, &caps, Target::Linux).unwrap_err();
    assert_eq!(err, AclError::CyclicPermissionSet { identifier: "fs:a".to_string() });
    assert_eq!(err.message(), "Permission set fs:a refers to itself");
}

#[test]
fn set_used_twice_is_not_a_cycle() {
    let mut m = Manifest::new("fs");
    m.add_permission(permission("p", &["p"], &[]));
    m.add_set(PermissionSet::new("inner", "", texts(&["p"])));
    m.add_set(PermissionSet::new("outer", "", texts(&["inner", "inner"])));
    let mut path = Vec::new();
    let found = expand_name(&m, "outer", &mut path).unwrap();
    assert_eq!(found.len(), 2);
    assert_eq!(found[0].identifier, "p");
}

#[test]
fn expansion_keeps_the_order_of_members() {
    let registry = registry();
    let fs = registry.get("fs").unwrap();
    let mut path = Vec::new();
    let names: Vec<String> = expand_name(fs, "allow-all", &mut path)
        .unwrap()
        .iter()
        .map(|p| p.identifier.clone())
        .collect();
    assert_eq!(names, texts(&["readFile", "default", "writeFile"]));
}

#[test]
fn set_grant_equals_grants_of_its_members() {
    let registry = registry();
    let windows = texts(&["main"]);
    let by_set = resolve(
        &registry,
        &vec![capability("c", &["main"], &["fs:allow-all"])],
        &windows,
        Target::Linux,
    )
    .unwrap();
    let by_members = resolve(
        &registry,
        &vec![capability("c", &["main"], &["fs:readFile", "fs:default", "fs:writeFile"])],
        &windows,
        Target::Linux,
    )
    .unwrap();
    assert_eq!(
        by_set.allowed_commands("main").unwrap().to_vec(),
        texts(&["read_file", "stat", "write_file"])
    );
    assert_eq!(by_set.allowed_commands("main"), by_members.allowed_commands("main"));
    assert!(!allowed(&by_set, "main", "fetch", &Origin::Local));
}

#[test]
fn capability_for_other_platform_contributes_nothing() {
    let registry = registry();
    let mut mobile = capability("m", &["main"], &["fs:deny-read", "fs:does-not-exist"]);
    mobile.platforms = vec![Target::Android, Target::Ios];
    let desktop = capability("d", &["main"], &["fs:readFile"]);
    let windows = texts(&["main"]);
    let with = resolve(&registry, &vec![mobile.clone(), desktop.clone()], &windows, Target::Linux)
        .unwrap();
    let without = resolve(&registry, &vec![desktop.clone()], &windows, Target::Linux).unwrap();
    assert_eq!(with, without);
    assert!(allowed(&with, "main", "read_file", &Origin::Local));
    assert!(resolve(&registry, &vec![mobile, desktop], &windows, Target::Android).is_err());
}

#[test]
fn permission_for_other_platform_is_left_out() {
    let mut m = Manifest::new("fs");
    let mut p = permission("mac-only", &["read_file"], &[]);
    p.platforms = vec![Target::MacOS];
    m.add_permission(p);
    let mut registry = ManifestRegistry::new();
    registry.register(m).unwrap();
    let caps = vec![capability("c", &["main"], &["fs:mac-only"])];
    let windows = texts(&["main"]);
    let linux = resolve(&registry, &caps, &windows, Target::Linux).unwrap();
    let mac = resolve(&registry, &caps, &windows, Target::MacOS).unwrap();
    assert!(!allowed(&linux, "main", "read_file", &Origin::Local));
    assert!(allowed(&mac, "main", "read_file", &Origin::Local));
}

#[test]
fn permuting_capabilities_changes_no_answer() {
    let registry = registry();
    let a = capability("a", &["main", "admin-*"], &["fs:allow-all"]);
    let b = capability("b", &["*"], &["fs:deny-read"]);
    let c = remote("c", &["*.example.com"], &["main"], &["http:fetch"]);
    let windows = texts(&["main", "admin-panel", "other"]);
    let orders = [
        vec![a.clone(), b.clone(), c.clone()],
        vec![a.clone(), c.clone(), b.clone()],
        vec![b.clone(), a.clone(), c.clone()],
        vec![b.clone(), c.clone(), a.clone()],
        vec![c.clone(), a.clone(), b.clone()],
        vec![c.clone(), b.clone(), a.clone()],
    ];
    let origins = [
        Origin::Local,
        Origin::Remote { domain: "docs.example.com".to_string() },
        Origin::Remote { domain: "evil.org".to_string() },
    ];
    let first = resolve(&registry, &orders[0], &windows, Target::Linux).unwrap();
    for order in orders.iter() {
        let acl = resolve(&registry, order, &windows, Target::Linux).unwrap();
        for window in ["main", "admin-panel", "other", "unknown"] {
            for command in ["read_file", "write_file", "stat", "fetch", "nothing"] {
                for origin in origins.iter() {
                    assert_eq!(
                        acl.authorize(window, command, origin),
                        first.authorize(window, command, origin)
                    );
                }
            }
        }
    }
    assert!(!allowed(&first, "main", "read_file", &Origin::Local));
    assert!(allowed(&first, "main", "write_file", &Origin::Local));
    assert!(allowed(&first, "admin-panel", "stat", &Origin::Local));
    assert!(!allowed(&first, "other", "stat", &Origin::Local));
}

#[test]
fn resolving_twice_gives_the_same_list() {
    let registry = registry();
    let caps = vec![
        capability("a", &["main"], &["fs:allow-all"]),
        remote("c", &["*.example.com"], &["main"], &["http:fetch"]),
    ];
    let windows = texts(&["main", "second"]);
    let one = resolve(&registry, &caps, &windows, Target::Linux).unwrap();
    let two = resolve(&registry, &caps, &windows, Target::Linux).unwrap();
    assert_eq!(one, two);
}

#[test]
fn remote_capability_needs_a_matching_domain() {
    let registry = registry();
    let caps = vec![
        capability("local", &["main"], &["fs:readFile"]),
        remote("remote", &["*.Example.com", "tauri.app"], &["main"], &["http:fetch"]),
        remote("strict", &["docs.example.com"], &["main"], &["fs:deny-read", "fs:writeFile"]),
    ];
    let acl = resolve(&registry, &caps, &texts(&["main"]), Target::Linux).unwrap();
    let docs = Origin::Remote { domain: "DOCS.example.com".to_string() };
    let api = Origin::Remote { domain: "api.example.com".to_string() };
    let app = Origin::Remote { domain: "tauri.app".to_string() };
    let evil = Origin::Remote { domain: "example.com.evil.org".to_string() };
    assert!(allowed(&acl, "main", "fetch", &docs));
    assert!(allowed(&acl, "main", "write_file", &docs));
    assert!(!allowed(&acl, "main", "read_file", &docs));
    assert!(allowed(&acl, "main", "fetch", &api));
    assert!(!allowed(&acl, "main", "write_file", &api));
    assert!(allowed(&acl, "main", "fetch", &app));
    assert!(!allowed(&acl, "main", "fetch", &evil));
    assert!(!allowed(&acl, "main", "fetch", &Origin::Local));
    assert!(allowed(&acl, "main", "read_file", &Origin::Local));
}

#[test]
fn scopes_merge_and_deny_suppresses_allow() {
    let mut fs = Manifest::new("fs");
    fs.add_permission(scoped("read-home", &["read_file"], &["$HOME/*", "$TEMP/*"], &[]));
    fs.add_permission(scoped("no-temp", &["read_file"], &["$DATA/*"], &["$TEMP/*"]));
    fs.add_permission(scoped("everywhere", &[], &["$APP/*", "$SECRET/*"], &[]));
    fs.add_permission(scoped("no-secret", &[], &[], &["$SECRET/*"]));
    let mut http = Manifest::new("http");
    http.add_permission(scoped("global", &[], &["https://*"], &[]));
    let mut registry = ManifestRegistry::new();
    registry.register(fs).unwrap();
    registry.register(http).unwrap();
    let caps = vec![
        capability("a", &["main"], &["fs:read-home", "fs:everywhere", "http:global"]),
        capability("b", &["main"], &["fs:no-temp", "fs:no-secret"]),
    ];
    for order in [vec![caps[0].clone(), caps[1].clone()], vec![caps[1].clone(), caps[0].clone()]] {
        let acl = resolve(&registry, &order, &texts(&["main"]), Target::Linux).unwrap();
        match acl.authorize("main", "read_file", &Origin::Local) {
            Authorization::Allowed { scope } => {
                assert_eq!(scope.allow.to_vec(), texts(&["$APP/*", "$DATA/*", "$HOME/*"]));
                assert_eq!(scope.deny.to_vec(), texts(&["$SECRET/*", "$TEMP/*"]));
            }
            Authorization::Denied => panic!("should be allowed"),
        }
    }
}

#[test]
fn windows_can_be_worked_out_later() {
    let registry = registry();
    let caps = vec![capability("a", &["settings-*"], &["fs:readFile"])];
    let acl = resolve(&registry, &caps, &texts(&["main"]), Target::Linux).unwrap();
    assert!(!acl.knows_window("settings-1"));
    assert!(!allowed(&acl, "settings-1", "read_file", &Origin::Local));
    let acl = acl.with_window("settings-1");
    assert!(acl.knows_window("settings-1"));
    assert!(allowed(&acl, "settings-1", "read_file", &Origin::Local));
    assert!(!allowed(&acl, "main", "read_file", &Origin::Local));
    let again = acl.clone().with_window("settings-1");
    assert_eq!(again, acl);
    assert_eq!(
        resolve(&registry, &caps, &texts(&["settings-1", "main"]), Target::Linux).unwrap(),
        acl
    );
}

#[test]
fn builder_freezes_into_a_serving_list() {
    let mut builder = AclBuilder::new();
    let mut fs = Manifest::new("fs");
    fs.add_permission(permission("readFile", &["read_file"], &[]));
    builder.register(fs).unwrap();
    assert_eq!(
        builder.register(Manifest::new("fs")),
        Err(AclError::DuplicateNamespace { namespace: "fs".to_string() })
    );
    builder.add_capability(capability("c", &["main"], &["fs:readFile"]));
    assert_eq!(builder.validate(Target::Windows), Ok(()));
    let acl = builder.freeze(&texts(&["main"]), Target::Windows).unwrap();
    assert!(allowed(&acl, "main", "read_file", &Origin::Local));
    assert_eq!(acl.denied_commands("main").unwrap().to_vec(), Vec::<String>::new());
    assert!(acl.denied_commands("other").is_none());
}

#[test]
fn manifests_are_built_from_files() {
    let first = PermissionFile {
        default: Some(permission("whatever", &["a"], &[])),
        set: vec![PermissionSet::new("s", "", texts(&["p"]))],
        permission: vec![permission("p", &["one"], &[]), permission("q", &["q"], &[])],
    };
    let second = PermissionFile {
        default: None,
        set: vec![],
        permission: vec![permission("p", &["two"], &[])],
    };
    let registry = get_plugin_manifests(vec![
        ("fs".to_string(), vec![first.clone(), second]),
        ("empty".to_string(), vec![]),
    ])
    .unwrap();
    let fs = registry.get("fs").unwrap();
    assert_eq!(fs.namespace(), "fs");
    assert_eq!(fs.default_permission().unwrap().identifier, "default");
    assert_eq!(fs.permission("p").unwrap().commands.allow, texts(&["two"]));
    assert_eq!(fs.permission_count(), 2);
    assert_eq!(fs.set_count(), 1);
    assert!(fs.declares("s") && fs.declares("default") && !fs.declares("r"));
    assert!(registry.get("empty").unwrap().default_permission().is_none());
    let twice = get_plugin_manifests(vec![
        ("fs".to_string(), vec![first]),
        ("fs".to_string(), vec![]),
    ]);
    assert_eq!(twice.unwrap_err(), AclError::DuplicateNamespace { namespace: "fs".to_string() });
}

#[test]
fn glob_edge_cases() {
    assert!(glob_matches("", ""));
    assert!(!glob_matches("", "a"));
    assert!(glob_matches("*", ""));
    assert!(glob_matches("*", "anything"));
    assert!(glob_matches("main", "main"));
    assert!(!glob_matches("main", "main-window"));
    assert!(glob_matches("a?c", "abc"));
    assert!(!glob_matches("a?c", "ac"));
    assert!(glob_matches("*-*-*", "a-b-c"));
    assert!(!glob_matches("*-*-*", "a-b"));
    assert!(glob_matches("a*b*c", "a__b__b__c"));
    assert!(!glob_matches("a*b*c", "a__c__b"));
    assert!(glob_matches("*é", "café"));
    assert!(!host_matches("*.example.com", "example.com"));
    assert!(Pattern::new("admin-*").matches("admin-"));
    assert!(Pattern::for_host("API.*").matches_host("api.Host"));
}

#[test]
fn texts_are_ordered_by_code_point() {
    assert_eq!(compare("abc", "abd"), Order::Less);
    assert_eq!(compare("abc", "abc"), Order::Equal);
    assert_eq!(compare("abd", "abc"), Order::Greater);
    assert_eq!(compare("ab", "abc"), Order::Less);
    assert_eq!(compare("", ""), Order::Equal);
    assert_eq!(compare("Z", "a"), Order::Less);
    assert_eq!(compare("é", "z"), Order::Greater);
    assert_eq!(split("a  b", ' '), texts(&["a", "", "b"]));
    assert_eq!(split("", ';'), texts(&[""]));
    assert_eq!(split(";x;", ';'), texts(&["", "x", ""]));
}

#[test]
fn name_sets_and_maps_keep_order() {
    let mut set = NameSet::new();
    for name in ["pear", "apple", "fig", "apple"] {
        set.insert(name.to_string());
    }
    assert_eq!(set.to_vec(), texts(&["apple", "fig", "pear"]));
    assert!(set.contains("fig") && !set.contains("plum"));
    set.remove("fig");
    set.remove("plum");
    assert_eq!(set.len(), 2);
    let mut other = NameSet::new();
    other.insert("zebra".to_string());
    other.insert("apple".to_string());
    set.absorb(&other);
    assert_eq!(set.to_vec(), texts(&["apple", "pear", "zebra"]));
    set.subtract(&other);
    assert_eq!(set.to_vec(), texts(&["pear"]));
    assert!(!set.is_empty() && NameSet::new().is_empty());
    let mut map: NameMap<u32> = NameMap::new();
    map.insert("b".to_string(), 2);
    map.insert("a".to_string(), 1);
    map.insert("b".to_string(), 3);
    assert_eq!(map.len(), 2);
    assert_eq!(map.get("b"), Some(&3));
    assert_eq!(map.get("c"), None);
    assert_eq!(map.key_at(0), "a");
    assert_eq!(map.index_of("b"), Some(1));
    assert!(map.contains_key("a"));
}

#[test]
fn platforms_and_capability_sets() {
    assert_eq!(
        default_platforms(),
        vec![Target::Linux, Target::MacOS, Target::Windows, Target::Android, Target::Ios]
    );
    assert!(Target::Windows.is_desktop() && Target::Ios.is_mobile());
    assert!(lists_target(&vec![Target::Ios], Target::Ios));
    assert!(!lists_target(&vec![], Target::Ios));
    let c = Capability::new("c", texts(&["main"]), vec![]);
    assert!(c.applies_on(Target::Android));
    assert_eq!(CapabilityContext::default(), CapabilityContext::Local);
    let mut set = CapabilitySet::new(vec![c.clone()]);
    set.push(c);
    assert_eq!(set.capabilities().len(), 2);
}

#[test]
fn set_with_a_denying_member_denies() {
    let mut fs = Manifest::new("fs");
    fs.add_permission(permission("read", &["read_file", "stat"], &[]));
    fs.add_permission(permission("no-read", &[], &["read_file"]));
    fs.add_set(PermissionSet::new("careful", "", texts(&["read", "no-read"])));
    let mut registry = ManifestRegistry::new();
    registry.register(fs).unwrap();
    let windows = texts(&["main"]);
    let by_set = resolve(
        &registry,
        &vec![capability("c", &["main"], &["fs:careful"])],
        &windows,
        Target::Linux,
    )
    .unwrap();
    let by_members = resolve(
        &registry,
        &vec![capability("c", &["main"], &["fs:read", "fs:no-read"])],
        &windows,
        Target::Linux,
    )
    .unwrap();
    assert_eq!(by_set, by_members);
    assert!(!allowed(&by_set, "main", "read_file", &Origin::Local));
    assert!(allowed(&by_set, "main", "stat", &Origin::Local));
    assert_eq!(by_set.denied_commands("main").unwrap().to_vec(), texts(&["read_file"]));
}

#[test]
fn validity_does_not_depend_on_order() {
    let registry = registry();
    let good = capability("good", &["main"], &["fs:readFile"]);
    let bad = capability("bad", &["main"], &["fs:missing"]);
    let windows = texts(&["main"]);
    assert!(resolve(&registry, &vec![good.clone(), bad.clone()], &windows, Target::Linux).is_err());
    assert!(resolve(&registry, &vec![bad, good], &windows, Target::Linux).is_err());
}

#[test]
fn compiled_capability_knows_its_windows_and_hosts() {
    let registry = registry();
    let cap = remote("r", &["*.Example.com"], &["admin-*", "main"], &["fs:readFile", "fs:deny-read"]);
    let compiled = CompiledCapability::compile(&registry, &cap, Target::Linux).unwrap();
    assert!(compiled.matches_window("admin-1") && compiled.matches_window("main"));
    assert!(!compiled.matches_window("other"));
    assert!(compiled.admits(&Origin::Remote { domain: "A.EXAMPLE.com".to_string() }));
    assert!(!compiled.admits(&Origin::Remote { domain: "example.com".to_string() }));
    assert!(!compiled.admits(&Origin::Local));
    assert!(compiled.admits_host(&"a.example.com".chars().collect()));
    assert!(!compiled.admits_host(&"A.EXAMPLE.com".chars().collect()));
    assert!(compiled.table().allows("read_file") && compiled.table().denies("read_file"));
    assert!(!compiled.table().permits("read_file"));
    let local = capability("l", &["main"], &["fs:readFile"]);
    let compiled = CompiledCapability::compile(&registry, &local, Target::Linux).unwrap();
    assert!(compiled.admits(&Origin::Local));
    assert!(!compiled.admits_host(&"a.example.com".chars().collect()));
    assert!(compiled.table().permits("read_file"));
    let bad = capability("b", &["main"], &["fs:readFile", "fs:nope", "fs:nada"]);
    match CompiledCapability::compile(&registry, &bad, Target::Linux) {
        Err((at, AclError::UnknownPermission { identifier, .. })) => {
            assert_eq!((at, identifier.as_str()), (1, "fs:nope"));
        }
        other => panic!("unexpected {:?}", other),
    }
    assert!(Pattern::new("a?c").matches_chars(&"abc".chars().collect()));
}
