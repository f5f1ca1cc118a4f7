//! The platforms an application can be deployed to.

use crate::text::{chars_of, contains_chars, has_substring};
use vstd::prelude::*;

verus! {

/// A platform that an application is built for.
#[derive(Clone, Copy, PartialEq, Eq, Structural, Debug, Hash)]
pub enum Target {
    Linux,
    MacOS,
    Windows,
    Android,
    Ios,
}

/// The platform that a target triple names: the first of macOS, Windows,
/// Android and iOS whose mark the triple holds, else Linux.
pub open spec fn target_of_triple(triple: Seq<char>) -> Target {
    if has_substring(triple, "darwin"@) {
        Target::MacOS
    } else if has_substring(triple, "windows"@) {
        Target::Windows
    } else if has_substring(triple, "android"@) {
        Target::Android
    } else if has_substring(triple, "apple-ios"@) {
        Target::Ios
    } else {
        Target::Linux
    }
}

impl Target {
    /// The platform that the target triple `triple` names.
    pub fn from_triple(triple: &str) -> (t: Target)
        ensures
            t == target_of_triple(triple@),
    {
        let text = chars_of(triple);
        if contains_chars(&text, &chars_of("darwin")) {
            Target::MacOS
        } else if contains_chars(&text, &chars_of("windows")) {
            Target::Windows
        } else if contains_chars(&text, &chars_of("android")) {
            Target::Android
        } else if contains_chars(&text, &chars_of("apple-ios")) {
            Target::Ios
        } else {
            Target::Linux
        }
    }

    /// Whether the platform is a desktop one.
    pub open spec fn desktop(&self) -> bool {
        *self == Target::Linux || *self == Target::MacOS || *self == Target::Windows
    }

    /// The name of the platform.
    pub open spec fn name_text(&self) -> Seq<char> {
        match self {
            Target::Linux => "linux"@,
            Target::MacOS => "macOS"@,
            Target::Windows => "windows"@,
            Target::Android => "android"@,
            Target::Ios => "iOS"@,
        }
    }

    /// The name of the platform, as it is written in file names and
    /// configurations.
    pub fn name(&self) -> (s: &'static str)
        ensures
            s@ == self.name_text(),
    {
        match self {
            Target::Linux => "linux",
            Target::MacOS => "macOS",
            Target::Windows => "windows",
            Target::Android => "android",
            Target::Ios => "iOS",
        }
    }

    /// Whether the platform is a desktop one.
    pub fn is_desktop(&self) -> (b: bool)
        ensures
            b == self.desktop(),
    {
        match self {
            Target::Linux | Target::MacOS | Target::Windows => true,
            Target::Android | Target::Ios => false,
        }
    }

    /// Whether the platform is a mobile one.
    pub fn is_mobile(&self) -> (b: bool)
        ensures
            b == !self.desktop(),
    {
        !self.is_desktop()
    }
}

/// Every known platform: what a capability applies to unless it says otherwise.
pub fn default_platforms() -> (all: Vec<Target>)
    ensures
        all@ == seq![Target::Linux, Target::MacOS, Target::Windows, Target::Android, Target::Ios],
        forall|t: Target| all@.contains(t),
{
    let mut all: Vec<Target> = Vec::new();
    all.push(Target::Linux);
    all.push(Target::MacOS);
    all.push(Target::Windows);
    all.push(Target::Android);
    all.push(Target::Ios);
    proof {
        assert(all@ =~= seq![
            Target::Linux,
            Target::MacOS,
            Target::Windows,
            Target::Android,
            Target::Ios,
        ]);
        assert forall|t: Target| all@.contains(t) by {
            match t {
                Target::Linux => assert(all@[0] == t),
                Target::MacOS => assert(all@[1] == t),
                Target::Windows => assert(all@[2] == t),
                Target::Android => assert(all@[3] == t),
                Target::Ios => assert(all@[4] == t),
            }
        }
    }
    all
}

/// Whether `platforms` lists `target`.
pub fn lists_target(platforms: &Vec<Target>, target: Target) -> (b: bool)
    ensures
        b == platforms@.contains(target),
{
    let mut i: usize = 0;
    while i < platforms.len()
        invariant
            i <= platforms.len(),
            forall|k: int| 0 <= k < i ==> platforms@[k] != target,
        decreases platforms.len() - i,
    {
        if platforms[i] == target {
            return true;
        }
        i += 1;
    }
    false
}

} // verus!
