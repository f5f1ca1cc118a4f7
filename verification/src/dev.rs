//! The decisions of the development command: what to run before the
//! application, how long to wait for the development server, and when to
//! leave once the application has exited.

use crate::config::package::{AppUrl, BeforeDevCommand, WebviewUrl};
use crate::foreign::{replace, replaced_of, url_host, url_host_of};
use crate::names::names_of;
use crate::text::{chars_of, contains_chars, has_substring, is_empty_text};
use vstd::prelude::*;
use vstd::string::*;

verus! {

/// The options of the development command.
#[derive(Debug, Clone, PartialEq, Eq)]
pub struct Options {
    /// Binary to use to run the application
    pub runner: Option<String>,
    /// Target triple to build against
    pub target: Option<String>,
    /// List of cargo features to activate
    pub features: Option<Vec<String>>,
    /// Exit on panic
    pub exit_on_panic: bool,
    /// JSON string or path to JSON file to merge with the configuration
    pub config: Option<String>,
    /// Run the code in release mode
    pub release_mode: bool,
    /// Command line arguments passed to the runner.
    pub args: Vec<String>,
    /// Skip waiting for the frontend dev server to start before building
    /// the application.
    pub no_dev_server_wait: bool,
    /// Disable the file watcher.
    pub no_watch: bool,
    /// Force prompting for an IP to use to connect to the dev server on mobile.
    pub force_ip_prompt: bool,
    /// Disable the built-in dev server for static files.
    pub no_dev_server: bool,
    /// Specify port for the built-in dev server for static files.
    pub port: Option<u16>,
}

/// Why the application has exited.
#[derive(Debug, Clone, Copy, PartialEq, Eq, Structural)]
pub enum ExitReason {
    /// The application ended by itself.
    NormalExit,
    /// The development command killed it, to start it anew.
    TriggeredKill,
}

/// Whether the development command leaves once the application has exited:
/// always without a watcher; with one, unless it killed the application
/// itself.
pub open spec fn leaves_on_exit(reason: ExitReason, exit_on_panic: bool, no_watch: bool) -> bool {
    no_watch || (reason != ExitReason::TriggeredKill && (exit_on_panic || reason
        == ExitReason::NormalExit))
}

/// The exit code with which the development command leaves, if it leaves:
/// that of the application, or 0 where it has none.
pub fn on_app_exit(code: Option<i32>, reason: ExitReason, exit_on_panic: bool, no_watch: bool) -> (r:
    Option<i32>)
    ensures
        r is Some <==> leaves_on_exit(reason, exit_on_panic, no_watch),
        r matches Some(c) ==> c == (match code {
            Some(k) => k,
            None => 0,
        }),
{
    let killed = match reason {
        ExitReason::TriggeredKill => true,
        ExitReason::NormalExit => false,
    };
    let normal = match reason {
        ExitReason::NormalExit => true,
        ExitReason::TriggeredKill => false,
    };
    if no_watch || (!killed && (exit_on_panic || normal)) {
        match code {
            Some(k) => Some(k),
            None => Some(0),
        }
    } else {
        None
    }
}

/// The exit code that is reported for a process that has been waited for:
/// its own where waiting succeeded and it has one, else 1.
pub fn wait_dev_process(waited: Option<Option<i32>>) -> (code: i32)
    ensures
        code == (match waited {
            Some(Some(c)) => c,
            _ => 1,
        }),
{
    match waited {
        Some(Some(c)) => c,
        _ => 1,
    }
}

/// What is run before the application starts in development.
#[derive(Debug, Clone, PartialEq, Eq)]
pub struct BeforeDevPlan {
    /// The script to run, if any.
    pub script: Option<String>,
    /// The directory to run it in, if it names one.
    pub cwd: Option<String>,
    /// Whether the script is waited for.
    pub wait: bool,
}

/// What a configuration asks to run before development: an empty script
/// asks for nothing.
pub fn before_dev_plan(command: &BeforeDevCommand) -> (plan: BeforeDevPlan)
    ensures
        match *command {
            BeforeDevCommand::Script(s) => plan.cwd is None && !plan.wait && (if s@.len() == 0 {
                plan.script is None
            } else {
                plan.script matches Some(t) && t@ == s@
            }),
            BeforeDevCommand::ScriptWithOptions { script, cwd, wait } => {
                &&& plan.wait == wait
                &&& plan.script is Some
                &&& plan.script->Some_0@ == script@
                &&& match cwd {
                    Some(d) => plan.cwd is Some && plan.cwd->Some_0@ == d@,
                    None => plan.cwd is None,
                }
            },
        },
{
    match command {
        BeforeDevCommand::Script(s) => {
            if is_empty_text(s.as_str()) {
                BeforeDevPlan { script: None, cwd: None, wait: false }
            } else {
                BeforeDevPlan { script: Some(s.clone()), cwd: None, wait: false }
            }
        },
        BeforeDevCommand::ScriptWithOptions { script, cwd, wait } => {
            let dir = match cwd {
                Some(d) => Some(d.clone()),
                None => None,
            };
            BeforeDevPlan { script: Some(script.clone()), cwd: dir, wait: *wait }
        },
    }
}

/// Why the application has exited, given whether the development command
/// killed it.
pub fn exit_reason(manually_killed: bool) -> (reason: ExitReason)
    ensures
        reason == (if manually_killed {
            ExitReason::TriggeredKill
        } else {
            ExitReason::NormalExit
        }),
{
    if manually_killed {
        ExitReason::TriggeredKill
    } else {
        ExitReason::NormalExit
    }
}

/// The exit code with which the development command leaves when the
/// script that ran before the application has ended: it leaves only where
/// the script failed without having been killed by the command itself, with
/// the code of the script, or 1 where it has none.
pub fn before_dev_exit(success: bool, killed: bool, code: Option<i32>) -> (r: Option<i32>)
    ensures
        r == (if success || killed {
            None
        } else {
            Some(
                match code {
                    Some(c) => c,
                    None => 1i32,
                },
            )
        }),
{
    if success || killed {
        None
    } else {
        match code {
            Some(c) => Some(c),
            None => Some(1),
        }
    }
}

/// The binary that runs the application: the one given on the command
/// line, else the configured one.
pub fn effective_runner(given: Option<String>, configured: Option<String>) -> (runner: Option<
    String,
>)
    ensures
        runner == (match given {
            Some(g) => Some(g),
            None => configured,
        }),
{
    match given {
        Some(g) => Some(g),
        None => configured,
    }
}

/// The shell that runs a script, and the arguments that stand before the
/// script.
pub fn shell_for(windows: bool) -> (shell: (&'static str, Vec<&'static str>))
    ensures
        shell.0@ == (if windows {
            "cmd"@
        } else {
            "sh"@
        }),
        shell.1@.len() == (if windows {
            2nat
        } else {
            1nat
        }),
        windows ==> shell.1@[0]@ == "/S"@ && shell.1@[1]@ == "/C"@,
        !windows ==> shell.1@[0]@ == "-c"@,
{
    let mut args: Vec<&'static str> = Vec::new();
    if windows {
        args.push("/S");
        args.push("/C");
        ("cmd", args)
    } else {
        args.push("-c");
        ("sh", args)
    }
}

/// Whether a script asks for the host of the development server.
pub fn mentions_host(script: &str) -> (b: bool)
    ensures
        b == has_substring(script@, "$HOST"@),
{
    let text = chars_of(script);
    let mark = chars_of("$HOST");
    contains_chars(&text, &mark)
}

/// The host that stands for `$HOST` on a desktop, given the host of the
/// development URL if it has one: that host, else every interface.
pub fn desktop_host(url_host: Option<String>) -> (host: String)
    ensures
        host@ == (match url_host {
            Some(h) => h@,
            None => "0.0.0.0"@,
        }),
{
    match url_host {
        Some(h) => h,
        None => "0.0.0.0".to_owned(),
    }
}

/// The host of the place that the application is loaded from, if it is an
/// external URL with a host.
pub open spec fn dev_host_of(dev_path: AppUrl) -> Option<Seq<char>> {
    match dev_path {
        AppUrl::Url(WebviewUrl::External(url)) => url_host_of(url@),
        _ => None,
    }
}

/// The host that stands for `$HOST` on a desktop: that of the development
/// URL where the application is loaded from one and it has a host, else
/// every interface.
pub fn desktop_host_of(dev_path: &AppUrl) -> (host: String)
    ensures
        host@ == (match dev_host_of(*dev_path) {
            Some(h) => h,
            None => "0.0.0.0"@,
        }),
{
    match dev_path {
        AppUrl::Url(WebviewUrl::External(url)) => desktop_host(url_host(url.as_str())),
        _ => desktop_host(None),
    }
}

/// The script to run before the application, `$HOST` standing for the
/// address of this machine on a mobile target and for the host of the
/// development URL on a desktop. A script that does not ask for the host
/// is left as it is.
pub fn before_dev_script(script: &str, dev_path: &AppUrl, mobile_address: Option<&str>) -> (out:
    String)
    ensures
        out@ == (if has_substring(script@, "$HOST"@) {
            replaced_of(
                script@,
                "$HOST"@,
                match mobile_address {
                    Some(a) => a@,
                    None => match dev_host_of(*dev_path) {
                        Some(h) => h,
                        None => "0.0.0.0"@,
                    },
                },
            )
        } else {
            script@
        }),
{
    if mentions_host(script) {
        match mobile_address {
            Some(a) => with_host(script, a),
            None => {
                let host = desktop_host_of(dev_path);
                with_host(script, host.as_str())
            },
        }
    } else {
        script.to_owned()
    }
}

/// An address of a network interface of this machine.
#[derive(Debug, Clone, Copy, PartialEq, Eq, Structural)]
pub enum Address {
    /// An address of the fourth version of the protocol, by its four bytes.
    V4(u8, u8, u8, u8),
    /// An address of the sixth version.
    V6,
}

/// Whether the development server can be reached from another device at
/// the address: it is of the fourth version and not the loopback address.
pub open spec fn external(a: Address) -> bool {
    a is V4 && a != Address::V4(127, 0, 0, 1)
}

/// Whether the development server can be reached from another device at
/// the address.
pub fn is_external(a: Address) -> (b: bool)
    ensures
        b == external(a),
{
    match a {
        Address::V4(b0, b1, b2, b3) => !(b0 == 127 && b1 == 0 && b2 == 0 && b3 == 1),
        Address::V6 => false,
    }
}

/// The addresses of `all` at which another device can reach the
/// development server, in their order.
pub fn external_addresses(all: &Vec<Address>) -> (out: Vec<Address>)
    ensures
        out@ == all@.filter(|a: Address| external(a)),
{
    let mut out: Vec<Address> = Vec::new();
    let mut i: usize = 0;
    let ghost keep = |a: Address| external(a);
    proof {
        assert(all@.take(0) =~= Seq::<Address>::empty());
        all@.take(0).filter_lemma(keep);
        assert(all@.take(0).filter(keep) =~= Seq::<Address>::empty());
    }
    while i < all.len()
        invariant
            i <= all.len(),
            keep == (|a: Address| external(a)),
            out@ == all@.take(i as int).filter(keep),
        decreases all.len() - i,
    {
        proof {
            assert(all@.take(i + 1).drop_last() =~= all@.take(i as int));
            reveal(Seq::filter);
        }
        if is_external(all[i]) {
            out.push(all[i]);
        }
        i += 1;
    }
    proof {
        assert(all@.take(all.len() as int) =~= all@);
    }
    out
}

/// How the address of the development server is found among the
/// addresses of this machine.
#[derive(Debug, Clone, PartialEq, Eq)]
pub enum AddressChoice {
    /// There is no address to use.
    NoAddress,
    /// There is exactly one: it is used.
    Only(Address),
    /// There are several: the user is asked, the first being proposed.
    Ask(Vec<Address>),
}

/// How the address of the development server is found among `all`, the
/// addresses of this machine.
pub fn choose_address(all: &Vec<Address>) -> (choice: AddressChoice)
    ensures
        match choice {
            AddressChoice::NoAddress => all@.filter(|a: Address| external(a)).len() == 0,
            AddressChoice::Only(a) => all@.filter(|a: Address| external(a)) == seq![a],
            AddressChoice::Ask(list) => list@.len() > 1 && list@ == all@.filter(
                |a: Address| external(a),
            ),
        },
{
    let found = external_addresses(all);
    if found.len() == 0 {
        AddressChoice::NoAddress
    } else if found.len() == 1 {
        let only = found[0];
        assert(found@ =~= seq![only]);
        AddressChoice::Only(only)
    } else {
        AddressChoice::Ask(found)
    }
}

/// The script with `host` in every place of `$HOST`.
pub fn with_host(script: &str, host: &str) -> (out: String)
    ensures
        out@ == replaced_of(script@, "$HOST"@, host@),
{
    replace(script, "$HOST", host)
}

/// The cargo features to build with: those of the configuration, then
/// those of the command line.
pub fn cargo_features(configured: Option<Vec<String>>, given: &Option<Vec<String>>) -> (out: Vec<
    String,
>)
    ensures
        names_of(out@) == (match configured {
            Some(c) => names_of(c@),
            None => Seq::<Seq<char>>::empty(),
        }) + (match *given {
            Some(g) => names_of(g@),
            None => Seq::<Seq<char>>::empty(),
        }),
{
    let mut out = match configured {
        Some(c) => c,
        None => Vec::new(),
    };
    let ghost base = names_of(out@);
    match given {
        None => {
            assert(base + Seq::<Seq<char>>::empty() =~= base);
        },
        Some(g) => {
            let mut i: usize = 0;
            assert(base + names_of(g@).take(0) =~= base);
            while i < g.len()
                invariant
                    i <= g.len(),
                    names_of(out@) == base + names_of(g@).take(i as int),
                decreases g.len() - i,
            {
                let ghost before = names_of(out@);
                out.push(g[i].clone());
                proof {
                    assert(names_of(out@) =~= before.push(g@[i as int]@));
                    assert(base + names_of(g@).take(i + 1) =~= (base + names_of(g@).take(
                        i as int,
                    )).push(g@[i as int]@));
                }
                i += 1;
            }
            assert(names_of(g@).take(g.len() as int) =~= names_of(g@));
        },
    }
    out
}

/// The configuration that points the application to the built-in
/// development server at `server_url`.
pub fn dev_server_config(server_url: &str) -> (json: String)
    ensures
        json@ == "{ \"build\": { \"devPath\": \""@ + server_url@ + "\" } }"@,
{
    let mut json = "{ \"build\": { \"devPath\": \"".to_owned();
    json.append(server_url);
    json.append("\" } }");
    json
}

/// How often the development server is tried before the command gives up.
pub const MAX_ATTEMPTS: u32 = 90;

/// How many seconds pass between two tries.
pub const SLEEP_SECONDS: u32 = 2;

/// What to do after a try to reach the development server.
#[derive(Debug, Clone, Copy, PartialEq, Eq, Structural)]
pub enum WaitAction {
    /// The server answers: go on.
    Proceed,
    /// Wait and try again; `warn` tells whether to say so first.
    Retry { warn: bool },
    /// Give up after `seconds` of waiting.
    GiveUp { seconds: u32 },
}

/// What follows a try that was the one after `attempts` failed ones:
/// whether it `connected`, and so what to do and how many tries have failed.
/// A failed try that uses up the last attempt ends the waiting.
pub open spec fn after_try(attempts: u32, connected: bool) -> (u32, WaitAction) {
    if connected {
        (attempts, WaitAction::Proceed)
    } else if attempts + 1 >= MAX_ATTEMPTS {
        (MAX_ATTEMPTS, WaitAction::GiveUp { seconds: (MAX_ATTEMPTS * SLEEP_SECONDS) as u32 })
    } else {
        ((attempts + 1) as u32, WaitAction::Retry { warn: attempts % 3 == 1 })
    }
}

/// Decides what follows a try to reach the development server.
pub fn wait_step(attempts: u32, connected: bool) -> (r: (u32, WaitAction))
    ensures
        r == after_try(attempts, connected),
{
    if connected {
        (attempts, WaitAction::Proceed)
    } else if attempts >= MAX_ATTEMPTS - 1 {
        (MAX_ATTEMPTS, WaitAction::GiveUp { seconds: MAX_ATTEMPTS * SLEEP_SECONDS })
    } else {
        (attempts + 1, WaitAction::Retry { warn: attempts % 3 == 1 })
    }
}

} // verus!
