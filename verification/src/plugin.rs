//! Checks that a plugin crate meets before its permissions are generated.

use crate::text::holds_char;
use vstd::prelude::*;
use vstd::string::*;

verus! {

/// Why a plugin crate cannot be built.
#[derive(Debug, Clone, PartialEq, Eq)]
pub enum BuildError {
    /// The name of the crate holds an underscore.
    CrateName,
    /// A variable that build scripts are given is not set.
    BuildVar(String),
}

/// What a build script of a plugin has to do.
#[derive(Debug, Clone, Copy, PartialEq, Eq, Structural)]
pub struct BuildPlan {
    /// Whether permissions are to be generated for the commands.
    pub autogenerate_permissions: bool,
}

/// The build of a plugin with the given commands.
pub struct Builder<'a> {
    commands: &'a [&'static str],
}

impl<'a> Builder<'a> {
    /// The commands that the plugin offers.
    pub closed spec fn commands(&self) -> Seq<&'static str> {
        self.commands@
    }

    /// The build of a plugin that offers `commands`.
    pub fn new(commands: &'a [&'static str]) -> (b: Builder<'a>)
        ensures
            b.commands() == commands@,
    {
        Builder { commands }
    }

    /// Whether `name` can be the name of a plugin crate: it holds no underscore.
    pub fn check_name(name: &str) -> (r: Result<(), BuildError>)
        ensures
            r is Ok <==> !name@.contains('_'),
            r matches Err(e) ==> e == BuildError::CrateName,
    {
        if holds_char(name, '_') {
            Err(BuildError::CrateName)
        } else {
            Ok(())
        }
    }

    /// What is to be done for a crate, given the variables that a build
    /// script is handed: the name of the package and the name of the
    /// library it links. The name is looked at first, then the link name;
    /// a variable that is not set is an error that names it.
    pub fn check(&self, name: Option<&str>, links: Option<&str>) -> (r: Result<
        BuildPlan,
        BuildError,
    >)
        ensures
            match name {
                None => r matches Err(BuildError::BuildVar(key)) && key@ == "CARGO_PKG_NAME"@,
                Some(n) => if n@.contains('_') {
                    r == Err::<BuildPlan, BuildError>(BuildError::CrateName)
                } else if links is None {
                    r matches Err(BuildError::BuildVar(key)) && key@ == "CARGO_MANIFEST_LINKS"@
                } else {
                    r == Ok::<BuildPlan, BuildError>(
                        BuildPlan { autogenerate_permissions: self.commands().len() > 0 },
                    )
                },
            },
    {
        match name {
            None => Err(BuildError::BuildVar("CARGO_PKG_NAME".to_owned())),
            Some(n) => match Builder::check_name(n) {
                Err(e) => Err(e),
                Ok(()) => match links {
                    None => Err(BuildError::BuildVar("CARGO_MANIFEST_LINKS".to_owned())),
                    Some(_) => self.plan(n),
                },
            },
        }
    }

    /// What is to be done for the crate called `name`. A name with an
    /// underscore is refused. Permissions are generated exactly when the
    /// plugin offers at least one command.
    pub fn plan(&self, name: &str) -> (r: Result<BuildPlan, BuildError>)
        ensures
            r is Ok <==> !name@.contains('_'),
            r matches Err(e) ==> e == BuildError::CrateName,
            r matches Ok(p) ==> p.autogenerate_permissions == (self.commands().len() > 0),
    {
        match Builder::check_name(name) {
            Err(e) => Err(e),
            Ok(()) => Ok(BuildPlan { autogenerate_permissions: self.commands.len() > 0 }),
        }
    }
}

} // verus!
