//! How the application updates itself.

use crate::foreign::{lowercase, lowercase_of};
use crate::text::same_text;
use vstd::prelude::*;
use vstd::string::*;

verus! {

/// Install modes for the Windows update.
#[derive(Debug, PartialEq, Eq, Clone, Copy, Structural)]
pub enum WindowsUpdateInstallMode {
    /// Specifies there's a basic UI during the installation process,
    /// including a final dialog box at the end.
    BasicUi,
    /// The quiet mode means there's no user interaction required. Requires
    /// admin privileges if the installer does.
    Quiet,
    /// Specifies unattended mode, which means the installation only shows a
    /// progress bar.
    Passive,
}

/// The install mode whose lower-case name is `name`, if there is one.
pub open spec fn install_mode_named(name: Seq<char>) -> Option<WindowsUpdateInstallMode> {
    if name == "basicui"@ {
        Some(WindowsUpdateInstallMode::BasicUi)
    } else if name == "quiet"@ {
        Some(WindowsUpdateInstallMode::Quiet)
    } else if name == "passive"@ {
        Some(WindowsUpdateInstallMode::Passive)
    } else {
        None
    }
}

impl WindowsUpdateInstallMode {
    /// The arguments that `msiexec.exe` gets for the mode.
    pub open spec fn msiexec_texts(&self) -> Seq<Seq<char>> {
        match self {
            WindowsUpdateInstallMode::BasicUi => seq!["/qb+"@],
            WindowsUpdateInstallMode::Quiet => seq!["/quiet"@],
            WindowsUpdateInstallMode::Passive => seq!["/passive"@],
        }
    }

    /// The arguments that an NSIS installer gets for the mode.
    pub open spec fn nsis_texts(&self) -> Seq<Seq<char>> {
        match self {
            WindowsUpdateInstallMode::Passive => seq!["/P"@, "/R"@],
            WindowsUpdateInstallMode::Quiet => seq!["/S"@, "/R"@],
            WindowsUpdateInstallMode::BasicUi => Seq::empty(),
        }
    }

    /// The name of the mode.
    pub open spec fn name_text(&self) -> Seq<char> {
        match self {
            WindowsUpdateInstallMode::BasicUi => "basicUI"@,
            WindowsUpdateInstallMode::Quiet => "quiet"@,
            WindowsUpdateInstallMode::Passive => "passive"@,
        }
    }

    /// Returns the associated `msiexec.exe` arguments.
    pub fn msiexec_args(&self) -> (args: Vec<&'static str>)
        ensures
            args@.len() == self.msiexec_texts().len(),
            forall|i: int| 0 <= i < args@.len() ==> (#[trigger] args@[i])@ == self.msiexec_texts()[i],
    {
        let mut args: Vec<&'static str> = Vec::new();
        match self {
            WindowsUpdateInstallMode::BasicUi => args.push("/qb+"),
            WindowsUpdateInstallMode::Quiet => args.push("/quiet"),
            WindowsUpdateInstallMode::Passive => args.push("/passive"),
        }
        args
    }

    /// Returns the associated nsis arguments.
    pub fn nsis_args(&self) -> (args: Vec<&'static str>)
        ensures
            args@.len() == self.nsis_texts().len(),
            forall|i: int| 0 <= i < args@.len() ==> (#[trigger] args@[i])@ == self.nsis_texts()[i],
    {
        let mut args: Vec<&'static str> = Vec::new();
        match self {
            WindowsUpdateInstallMode::Passive => {
                args.push("/P");
                args.push("/R");
            },
            WindowsUpdateInstallMode::Quiet => {
                args.push("/S");
                args.push("/R");
            },
            WindowsUpdateInstallMode::BasicUi => {},
        }
        args
    }

    /// The name of the mode, as it is written in a configuration.
    pub fn name(&self) -> (s: &'static str)
        ensures
            s@ == self.name_text(),
    {
        match self {
            WindowsUpdateInstallMode::BasicUi => "basicUI",
            WindowsUpdateInstallMode::Quiet => "quiet",
            WindowsUpdateInstallMode::Passive => "passive",
        }
    }

    /// The mode whose lower-case name is exactly `name`.
    pub fn named(name: &str) -> (r: Option<WindowsUpdateInstallMode>)
        ensures
            r == install_mode_named(name@),
    {
        if same_text(name, "basicui") {
            Some(WindowsUpdateInstallMode::BasicUi)
        } else if same_text(name, "quiet") {
            Some(WindowsUpdateInstallMode::Quiet)
        } else if same_text(name, "passive") {
            Some(WindowsUpdateInstallMode::Passive)
        } else {
            None
        }
    }

    /// The mode that `text` names, capitals and small letters counting as
    /// the same; the message of the error where it names none.
    pub fn parse(text: &str) -> (r: Result<WindowsUpdateInstallMode, String>)
        ensures
            match install_mode_named(lowercase_of(text@)) {
                Some(m) => r == Ok::<WindowsUpdateInstallMode, String>(m),
                None => r is Err && r->Err_0@ == "unknown update install mode '"@ + text@ + "'"@,
            },
    {
        let lower = lowercase(text);
        match WindowsUpdateInstallMode::named(lower.as_str()) {
            Some(m) => Ok(m),
            None => {
                let mut message = "unknown update install mode '".to_owned();
                message.append(text);
                message.append("'");
                Err(message)
            },
        }
    }
}

impl Default for WindowsUpdateInstallMode {
    fn default() -> (m: WindowsUpdateInstallMode)
        ensures
            m == WindowsUpdateInstallMode::Passive,
    {
        WindowsUpdateInstallMode::Passive
    }
}

/// The updater configuration for Windows.
#[derive(Debug, PartialEq, Eq, Clone, Copy, Structural)]
pub struct UpdaterWindowsConfig {
    /// The installation mode for the update on Windows. Defaults to `passive`.
    pub install_mode: WindowsUpdateInstallMode,
}

impl Default for UpdaterWindowsConfig {
    fn default() -> (c: UpdaterWindowsConfig)
        ensures
            c.install_mode == WindowsUpdateInstallMode::Passive,
    {
        UpdaterWindowsConfig { install_mode: WindowsUpdateInstallMode::Passive }
    }
}

/// The Updater configuration object.
#[derive(Debug, PartialEq, Eq, Clone)]
pub struct UpdaterConfig {
    /// Whether the updater is active or not.
    pub active: bool,
    /// Signature public key.
    pub pubkey: String,
    /// The Windows configuration for the updater.
    pub windows: UpdaterWindowsConfig,
}

impl UpdaterConfig {
    /// Whether the configuration is the one of an application that
    /// configures no updater.
    pub open spec fn is_default(&self) -> bool {
        &&& !self.active
        &&& self.pubkey@ == Seq::<char>::empty()
        &&& self.windows.install_mode == WindowsUpdateInstallMode::Passive
    }
}

impl Default for UpdaterConfig {
    fn default() -> (c: UpdaterConfig)
        ensures
            c.is_default(),
    {
        UpdaterConfig {
            active: false,
            pubkey: String::new(),
            windows: UpdaterWindowsConfig { install_mode: WindowsUpdateInstallMode::Passive },
        }
    }
}

impl UpdaterConfig {
    /// The configuration that the parts read from a file make. An active
    /// updater needs a public key: without one the parts are refused, with
    /// the message to show. Where no key is given and none is needed, the
    /// key is empty.
    pub fn from_parts(active: bool, pubkey: Option<String>, windows: UpdaterWindowsConfig) -> (r:
        Result<UpdaterConfig, String>)
        ensures
            r is Err <==> active && pubkey is None,
            r matches Err(m) ==> m@ == "The updater `pubkey` configuration is required."@,
            r matches Ok(c) ==> c.active == active && c.windows == windows && c.pubkey@ == (
            match pubkey {
                Some(k) => k@,
                None => Seq::<char>::empty(),
            }),
    {
        match pubkey {
            None => {
                if active {
                    Err("The updater `pubkey` configuration is required.".to_owned())
                } else {
                    Ok(UpdaterConfig { active, pubkey: String::new(), windows })
                }
            },
            Some(k) => Ok(UpdaterConfig { active, pubkey: k, windows }),
        }
    }
}

} // verus!
