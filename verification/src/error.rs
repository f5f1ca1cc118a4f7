//! What can be wrong with a set of manifests and capabilities.

use vstd::prelude::*;
use vstd::string::*;

verus! {

/// The kinds of failure, each fatal to the build or start-up that meets it.
#[derive(Clone, Copy, PartialEq, Eq, Structural, Debug)]
pub enum ErrorKind {
    /// Two manifests were registered under one namespace.
    DuplicateNamespace,
    /// A capability names a permission that no registered manifest declares.
    UnknownPermission,
    /// A permission set refers to itself, directly or through other sets.
    CyclicPermissionSet,
    /// A text does not have the shape `namespace:name`.
    MalformedIdentifier,
}

/// A failure together with what it is about.
#[derive(Clone, PartialEq, Eq, Debug)]
pub enum AclError {
    /// Two manifests were registered under `namespace`.
    DuplicateNamespace { namespace: String },
    /// `identifier` resolves to nothing; `available` lists, in ascending order,
    /// every identifier that does.
    UnknownPermission { identifier: String, available: Vec<String> },
    /// Resolving `identifier` runs into a permission set that refers to itself.
    CyclicPermissionSet { identifier: String },
    /// `identifier` does not have the shape `namespace:name`.
    MalformedIdentifier { identifier: String },
}

/// The texts of `items` joined with `sep` between neighbours.
pub open spec fn joined_with(items: Seq<Seq<char>>, sep: Seq<char>) -> Seq<char>
    decreases items.len(),
{
    if items.len() == 0 {
        Seq::<char>::empty()
    } else if items.len() == 1 {
        items[0]
    } else {
        joined_with(items.drop_last(), sep) + sep + items.last()
    }
}

/// Joins `items` with `sep` between neighbours.
pub fn join(items: &Vec<String>, sep: &str) -> (out: String)
    ensures
        out@ == joined_with(crate::names::names_of(items@), sep@),
{
    let ghost names = crate::names::names_of(items@);
    let mut out = String::new();
    let mut i: usize = 0;
    while i < items.len()
        invariant
            i <= items.len(),
            names == crate::names::names_of(items@),
            out@ == joined_with(names.take(i as int), sep@),
        decreases items.len() - i,
    {
        if i > 0 {
            out.append(sep);
        }
        out.append(items[i].as_str());
        proof {
            let next = names.take(i + 1);
            assert(next.drop_last() =~= names.take(i as int));
            assert(next.last() == items[i as int]@);
            if i == 0 {
                assert(out@ =~= next[0]);
            }
        }
        i += 1;
    }
    proof {
        assert(names.take(items.len() as int) =~= names);
    }
    out
}

impl AclError {
    /// The kind of the failure.
    pub open spec fn spec_kind(&self) -> ErrorKind {
        match self {
            AclError::DuplicateNamespace { .. } => ErrorKind::DuplicateNamespace,
            AclError::UnknownPermission { .. } => ErrorKind::UnknownPermission,
            AclError::CyclicPermissionSet { .. } => ErrorKind::CyclicPermissionSet,
            AclError::MalformedIdentifier { .. } => ErrorKind::MalformedIdentifier,
        }
    }

    /// The namespace or identifier that the failure is about.
    pub open spec fn subject(&self) -> Seq<char> {
        match self {
            AclError::DuplicateNamespace { namespace } => namespace@,
            AclError::UnknownPermission { identifier, .. } => identifier@,
            AclError::CyclicPermissionSet { identifier } => identifier@,
            AclError::MalformedIdentifier { identifier } => identifier@,
        }
    }

    /// What an author is told about the failure.
    pub open spec fn message_text(&self) -> Seq<char> {
        match self {
            AclError::DuplicateNamespace { namespace } => "Namespace "@ + namespace@
                + " is registered twice"@,
            AclError::UnknownPermission { identifier, available } => "Permission "@ + identifier@
                + " not found, expected one of "@ + joined_with(
                crate::names::names_of(available@),
                ", "@,
            ),
            AclError::CyclicPermissionSet { identifier } => "Permission set "@ + identifier@
                + " refers to itself"@,
            AclError::MalformedIdentifier { identifier } => "Identifier "@ + identifier@
                + " must have the form namespace:name"@,
        }
    }

    /// The kind of the failure.
    #[verifier::when_used_as_spec(spec_kind)]
    pub fn kind(&self) -> (k: ErrorKind)
        ensures
            k == self.spec_kind(),
    {
        match self {
            AclError::DuplicateNamespace { .. } => ErrorKind::DuplicateNamespace,
            AclError::UnknownPermission { .. } => ErrorKind::UnknownPermission,
            AclError::CyclicPermissionSet { .. } => ErrorKind::CyclicPermissionSet,
            AclError::MalformedIdentifier { .. } => ErrorKind::MalformedIdentifier,
        }
    }

    /// The message for the failure: for an unknown permission it names the
    /// identifier and every identifier that could have been meant.
    pub fn message(&self) -> (text: String)
        ensures
            text@ == self.message_text(),
    {
        match self {
            AclError::DuplicateNamespace { namespace } => {
                let mut text = "Namespace ".to_owned();
                text.append(namespace.as_str());
                text.append(" is registered twice");
                text
            },
            AclError::UnknownPermission { identifier, available } => {
                let mut text = "Permission ".to_owned();
                text.append(identifier.as_str());
                text.append(" not found, expected one of ");
                let list = join(available, ", ");
                text.append(list.as_str());
                text
            },
            AclError::CyclicPermissionSet { identifier } => {
                let mut text = "Permission set ".to_owned();
                text.append(identifier.as_str());
                text.append(" refers to itself");
                text
            },
            AclError::MalformedIdentifier { identifier } => {
                let mut text = "Identifier ".to_owned();
                text.append(identifier.as_str());
                text.append(" must have the form namespace:name");
                text
            },
        }
    }
}

} // verus!
