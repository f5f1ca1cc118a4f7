//! From a name within a namespace to the permissions that it stands for.
//!
//! A name is the default permission, a permission, or a permission set. A set
//! stands for what its members stand for, in their order, sets within sets
//! included. A set that is met again while it is being expanded refers to
//! itself, and the expansion fails.

use crate::identifier::default_name;
use crate::manifest::{holds_text, Manifest, ManifestModel, Permission, PermissionModel};
use crate::names::names_of;
use crate::text::same_text;
use vstd::prelude::*;
use vstd::string::*;

verus! {

/// Why a name could not be expanded.
#[derive(Clone, Copy, PartialEq, Eq, Structural, Debug)]
pub enum Failure {
    /// The name, or a member of a set reached from it, is not declared.
    Unknown,
    /// A permission set reached from the name refers to itself.
    Cyclic,
}

/// How many more sets can be entered below `path` before one must repeat.
pub open spec fn budget(m: ManifestModel, path: Seq<Seq<char>>) -> nat {
    if path.len() < m.sets.dom().len() {
        (m.sets.dom().len() - path.len()) as nat
    } else {
        0
    }
}

/// The permissions that `name` stands for, `path` being the sets that are
/// being expanded around it, outermost first.
pub open spec fn expand(m: ManifestModel, name: Seq<char>, path: Seq<Seq<char>>) -> Result<
    Seq<PermissionModel>,
    Failure,
>
    decreases budget(m, path), 0nat, 0nat,
{
    if name == default_name() {
        match m.default {
            Some(p) => Ok(seq![p]),
            None => Err(Failure::Unknown),
        }
    } else if m.permissions.contains_key(name) {
        Ok(seq![m.permissions[name]])
    } else if m.sets.contains_key(name) {
        if path.contains(name) || path.len() >= m.sets.dom().len() {
            Err(Failure::Cyclic)
        } else {
            expand_all(m, m.sets[name], path.push(name))
        }
    } else {
        Err(Failure::Unknown)
    }
}

/// The permissions that the names of `names` stand for, one after the other.
/// The first name that fails decides the failure.
pub open spec fn expand_all(
    m: ManifestModel,
    names: Seq<Seq<char>>,
    path: Seq<Seq<char>>,
) -> Result<Seq<PermissionModel>, Failure>
    decreases budget(m, path), 1nat, names.len(),
{
    if names.len() == 0 {
        Ok(Seq::<PermissionModel>::empty())
    } else {
        match expand(m, names[0], path) {
            Err(e) => Err(e),
            Ok(first) => match expand_all(m, names.drop_first(), path) {
                Err(e) => Err(e),
                Ok(rest) => Ok(first + rest),
            },
        }
    }
}

/// The permissions that `name` stands for when it is named from outside.
pub open spec fn expansion(m: ManifestModel, name: Seq<char>) -> Result<
    Seq<PermissionModel>,
    Failure,
> {
    expand(m, name, Seq::<Seq<char>>::empty())
}

/// The models of the permissions that a sequence refers to.
pub open spec fn models_of(ps: Seq<&Permission>) -> Seq<PermissionModel> {
    ps.map_values(|p: &Permission| p@)
}

/// Expands `name` below the sets of `path`.
pub fn expand_name<'a>(m: &'a Manifest, name: &str, path: &mut Vec<String>) -> (r: Result<
    Vec<&'a Permission>,
    Failure,
>)
    requires
        m.wf(),
    ensures
        final(path)@ == old(path)@,
        match expand(m@, name@, names_of(old(path)@)) {
            Ok(ps) => r is Ok && models_of(r->Ok_0@) == ps,
            Err(f) => r is Err && r->Err_0 == f,
        },
    decreases budget(m@, names_of(old(path)@)), 0nat, 0nat,
{
    let ghost path0 = names_of(path@);
    if same_text(name, "default") {
        match m.default_permission() {
            Some(p) => {
                let mut out: Vec<&'a Permission> = Vec::new();
                out.push(p);
                assert(models_of(out@) =~= seq![p@]);
                Ok(out)
            },
            None => Err(Failure::Unknown),
        }
    } else if let Some(p) = m.permission(name) {
        let mut out: Vec<&'a Permission> = Vec::new();
        out.push(p);
        assert(models_of(out@) =~= seq![p@]);
        Ok(out)
    } else if let Some(set) = m.permission_set(name) {
        if holds_text(path, name) || path.len() >= m.set_count() {
            Err(Failure::Cyclic)
        } else {
            path.push(name.to_owned());
            assert(names_of(path@) =~= path0.push(name@));
            let r = expand_names(m, &set.permissions, path);
            path.pop();
            assert(path@ =~= old(path)@);
            r
        }
    } else {
        Err(Failure::Unknown)
    }
}

/// Expands the names of `names`, one after the other, below the sets of `path`.
pub fn expand_names<'a>(m: &'a Manifest, names: &Vec<String>, path: &mut Vec<String>) -> (r:
    Result<Vec<&'a Permission>, Failure>)
    requires
        m.wf(),
    ensures
        final(path)@ == old(path)@,
        match expand_all(m@, names_of(names@), names_of(old(path)@)) {
            Ok(ps) => r is Ok && models_of(r->Ok_0@) == ps,
            Err(f) => r is Err && r->Err_0 == f,
        },
    decreases budget(m@, names_of(old(path)@)), 1nat, names.len(),
{
    let ghost all = names_of(names@);
    let ghost path0 = names_of(path@);
    let mut out: Vec<&'a Permission> = Vec::new();
    let mut i: usize = 0;
    proof {
        assert(all.skip(0) =~= all);
        assert(models_of(out@) =~= Seq::<PermissionModel>::empty());
        match expand_all(m@, all, path0) {
            Ok(rest) => assert(models_of(out@) + rest =~= rest),
            Err(_) => {},
        }
    }
    while i < names.len()
        invariant
            m.wf(),
            i <= names.len(),
            all == names_of(names@),
            path@ == old(path)@,
            path0 == names_of(path@),
            expand_all(m@, all, path0) == (match expand_all(m@, all.skip(i as int), path0) {
                Ok(rest) => Ok::<Seq<PermissionModel>, Failure>(models_of(out@) + rest),
                Err(e) => Err::<Seq<PermissionModel>, Failure>(e),
            }),
        decreases names.len() - i,
    {
        let ghost tail = all.skip(i as int);
        proof {
            assert(tail.len() > 0);
            assert(tail[0] == names@[i as int]@);
            assert(tail.drop_first() =~= all.skip(i + 1));
        }
        let ghost before = models_of(out@);
        match expand_name(m, names[i].as_str(), path) {
            Err(e) => {
                return Err(e);
            },
            Ok(mut found) => {
                let ghost first = models_of(found@);
                out.append(&mut found);
                proof {
                    assert(models_of(out@) =~= before + first);
                    match expand_all(m@, all.skip(i + 1), path0) {
                        Ok(rest) => {
                            assert(before + (first + rest) =~= (before + first) + rest);
                        },
                        Err(_) => {},
                    }
                }
            },
        }
        i += 1;
    }
    proof {
        assert(all.skip(names.len() as int).len() == 0);
        assert(models_of(out@) + Seq::<PermissionModel>::empty() =~= models_of(out@));
    }
    Ok(out)
}

} // verus!
