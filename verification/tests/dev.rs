use tauri_acl::assets::noop_assets;
use tauri_acl::config::package::BeforeDevCommand;
use tauri_acl::dev::{
    before_dev_plan, cargo_features, desktop_host, dev_server_config, on_app_exit,
    wait_dev_process, wait_step, with_host, BeforeDevPlan, ExitReason, WaitAction, MAX_ATTEMPTS,
    SLEEP_SECONDS,
};
use tauri_acl::plugin::{BuildError, BuildPlan, Builder};

#[test]
fn leaves_when_the_app_exits_by_itself() {
    assert_eq!(on_app_exit(Some(3), ExitReason::NormalExit, false, false), Some(3));
    assert_eq!(on_app_exit(None, ExitReason::NormalExit, false, false), Some(0));
    assert_eq!(on_app_exit(Some(101), ExitReason::NormalExit, true, false), Some(101));
}

#[test]
fn stays_when_it_killed_the_app_to_restart_it() {
    assert_eq!(on_app_exit(Some(1), ExitReason::TriggeredKill, false, false), None);
    assert_eq!(on_app_exit(Some(1), ExitReason::TriggeredKill, true, false), None);
    assert_eq!(on_app_exit(Some(7), ExitReason::TriggeredKill, false, true), Some(7));
    assert_eq!(on_app_exit(None, ExitReason::TriggeredKill, true, true), Some(0));
}

#[test]
fn waited_process_reports_its_code_or_one() {
    assert_eq!(wait_dev_process(Some(Some(0))), 0);
    assert_eq!(wait_dev_process(Some(Some(42))), 42);
    assert_eq!(wait_dev_process(Some(None)), 1);
    assert_eq!(wait_dev_process(None), 1);
}

#[test]
fn empty_script_asks_for_nothing() {
    assert_eq!(
        before_dev_plan(&BeforeDevCommand::Script(String::new())),
        BeforeDevPlan { script: None, cwd: None, wait: false }
    );
    assert_eq!(
        before_dev_plan(&BeforeDevCommand::Script("npm run dev".to_string())),
        BeforeDevPlan { script: Some("npm run dev".to_string()), cwd: None, wait: false }
    );
    assert_eq!(
        before_dev_plan(&BeforeDevCommand::ScriptWithOptions {
            script: String::new(),
            cwd: Some("ui".to_string()),
            wait: true,
        }),
        BeforeDevPlan { script: Some(String::new()), cwd: Some("ui".to_string()), wait: true }
    );
}

#[test]
fn host_placeholder_is_replaced_everywhere() {
    assert_eq!(
        with_host("vite --host $HOST --hmr $HOST:1", "192.168.1.5"),
        "vite --host 192.168.1.5 --hmr 192.168.1.5:1"
    );
    assert_eq!(with_host("npm run dev", "0.0.0.0"), "npm run dev");
    assert_eq!(desktop_host(None), "0.0.0.0");
    assert_eq!(desktop_host(Some("localhost".to_string())), "localhost");
}

#[test]
fn configured_features_come_first() {
    let given = Some(vec!["b".to_string(), "c".to_string()]);
    assert_eq!(cargo_features(Some(vec!["a".to_string()]), &given), vec!["a", "b", "c"]);
    assert_eq!(cargo_features(None, &given), vec!["b", "c"]);
    assert_eq!(cargo_features(Some(vec!["a".to_string()]), &None), vec!["a"]);
    assert!(cargo_features(None, &None).is_empty());
}

#[test]
fn dev_server_configuration_text() {
    assert_eq!(
        dev_server_config("http://127.0.0.1:1430"),
        "{ \"build\": { \"devPath\": \"http://127.0.0.1:1430\" } }"
    );
}

#[test]
fn waiting_for_the_dev_server() {
    assert_eq!((MAX_ATTEMPTS, SLEEP_SECONDS), (90, 2));
    assert_eq!(wait_step(0, true), (0, WaitAction::Proceed));
    assert_eq!(wait_step(17, true), (17, WaitAction::Proceed));
    assert_eq!(wait_step(0, false), (1, WaitAction::Retry { warn: false }));
    assert_eq!(wait_step(1, false), (2, WaitAction::Retry { warn: true }));
    assert_eq!(wait_step(2, false), (3, WaitAction::Retry { warn: false }));
    assert_eq!(wait_step(4, false), (5, WaitAction::Retry { warn: true }));
    assert_eq!(wait_step(88, false), (89, WaitAction::Retry { warn: true }));
    assert_eq!(wait_step(89, false), (90, WaitAction::GiveUp { seconds: 180 }));
    assert_eq!(wait_step(u32::MAX, false), (90, WaitAction::GiveUp { seconds: 180 }));
    assert_eq!(wait_step(u32::MAX, true), (u32::MAX, WaitAction::Proceed));
    let mut attempts = 0;
    let mut warnings = 0;
    loop {
        match wait_step(attempts, false) {
            (n, WaitAction::Retry { warn }) => {
                attempts = n;
                if warn {
                    warnings += 1;
                }
            }
            (n, action) => {
                assert_eq!((n, action), (90, WaitAction::GiveUp { seconds: 180 }));
                break;
            }
        }
    }
    assert_eq!(warnings, 30);
}

#[test]
fn plugin_crate_name_has_no_underscore() {
    assert_eq!(Builder::check_name("tauri-plugin-fs"), Ok(()));
    assert_eq!(Builder::check_name("tauri_plugin_fs"), Err(BuildError::CrateName));
    let commands = ["read_file", "write_file"];
    assert_eq!(
        Builder::new(&commands).plan("tauri-plugin-fs"),
        Ok(BuildPlan { autogenerate_permissions: true })
    );
    assert_eq!(
        Builder::new(&[]).plan("tauri-plugin-fs"),
        Ok(BuildPlan { autogenerate_permissions: false })
    );
    assert_eq!(Builder::new(&commands).plan("tauri_plugin"), Err(BuildError::CrateName));
}

#[test]
fn noop_assets_hold_nothing() {
    let assets = noop_assets();
    assert_eq!(assets.get("index.html"), None);
    assert!(assets.keys().is_empty());
    assert!(assets.csp_hashes("index.html").is_empty());
}
