//! Checks that every permission that a capability grants exists.

use crate::capability::{capability_models, Capability, CapabilityModel};
use crate::error::AclError;
use crate::expand::{expand_name, expansion, models_of, Failure};
use crate::identifier::{joined, Identifier};
use crate::manifest::{Permission, PermissionModel};
use crate::names::{ascending, names_of};
use crate::platform::Target;
use crate::registry::{valid_identifiers, ManifestRegistry, RegistryModel};
use vstd::prelude::*;

verus! {

/// The permissions that the grant of `g`, a namespace and a name, stands for.
pub open spec fn grant_expansion(reg: RegistryModel, g: (Seq<char>, Seq<char>)) -> Result<
    Seq<PermissionModel>,
    Failure,
> {
    if reg.contains_key(g.0) {
        expansion(reg[g.0], g.1)
    } else {
        Err(Failure::Unknown)
    }
}

/// Whether grant `g` of capability `c` is looked at on `platform` and fails.
pub open spec fn fails_at(
    reg: RegistryModel,
    caps: Seq<CapabilityModel>,
    platform: Target,
    c: int,
    g: int,
) -> bool {
    &&& 0 <= c < caps.len()
    &&& caps[c].platforms.contains(platform)
    &&& 0 <= g < caps[c].grants.len()
    &&& grant_expansion(reg, caps[c].grants[g]) is Err
}

/// Whether every grant of every capability that holds on `platform` names
/// something, and nothing that refers to itself.
pub open spec fn all_valid(reg: RegistryModel, caps: Seq<CapabilityModel>, platform: Target) -> bool {
    forall|c: int, g: int| !fails_at(reg, caps, platform, c, g)
}

/// Whether grant `g` of capability `c` is the first that fails, capabilities
/// and their grants taken in order.
pub open spec fn first_failure(
    reg: RegistryModel,
    caps: Seq<CapabilityModel>,
    platform: Target,
    c: int,
    g: int,
) -> bool {
    &&& fails_at(reg, caps, platform, c, g)
    &&& forall|c2: int, g2: int| #[trigger]
        fails_at(reg, caps, platform, c2, g2) ==> c < c2 || (c == c2 && g <= g2)
}

/// Whether `e` reports that the grant `g` fails with `f`: it names the
/// identifier and, where the identifier is unknown, lists in ascending
/// order every identifier that the registry knows.
pub open spec fn reports(reg: RegistryModel, e: AclError, g: (Seq<char>, Seq<char>), f: Failure) -> bool {
    match f {
        Failure::Unknown => {
            &&& e matches AclError::UnknownPermission { identifier, available }
            &&& identifier@ == joined(g.0, g.1)
            &&& ascending(names_of(available@))
            &&& forall|t: Seq<char>|
                names_of(available@).contains(t) <==> valid_identifiers(reg).contains(t)
        },
        Failure::Cyclic => {
            &&& e matches AclError::CyclicPermissionSet { identifier }
            &&& identifier@ == joined(g.0, g.1)
        },
    }
}

/// Whether `e` reports the first failure among the capabilities.
pub open spec fn reports_first_failure(
    reg: RegistryModel,
    caps: Seq<CapabilityModel>,
    platform: Target,
    e: AclError,
) -> bool {
    exists|c: int, g: int| #[trigger]
        first_failure(reg, caps, platform, c, g) && reports(
            reg,
            e,
            caps[c].grants[g],
            grant_expansion(reg, caps[c].grants[g])->Err_0,
        )
}

/// The permissions that `id` stands for.
pub fn expand_grant<'a>(reg: &'a ManifestRegistry, id: &Identifier) -> (r: Result<
    Vec<&'a Permission>,
    Failure,
>)
    requires
        reg.wf(),
    ensures
        match grant_expansion(reg@, (id.namespace_view(), id.name_view())) {
            Ok(ps) => r is Ok && models_of(r->Ok_0@) == ps,
            Err(f) => r is Err && r->Err_0 == f,
        },
{
    match reg.get(id.namespace()) {
        Some(m) => {
            let mut path: Vec<String> = Vec::new();
            assert(names_of(path@) =~= Seq::<Seq<char>>::empty());
            expand_name(m, id.name(), &mut path)
        },
        None => Err(Failure::Unknown),
    }
}

/// The error that tells that the grant of `id` fails with `f`.
pub fn failure_error(reg: &ManifestRegistry, id: &Identifier, f: Failure) -> (e: AclError)
    requires
        reg.wf(),
    ensures
        reports(reg@, e, (id.namespace_view(), id.name_view()), f),
{
    match f {
        Failure::Unknown => AclError::UnknownPermission {
            identifier: id.get(),
            available: reg.available(),
        },
        Failure::Cyclic => AclError::CyclicPermissionSet { identifier: id.get() },
    }
}

/// Checks the capabilities that hold on `target` against the registry:
/// every permission granted must name a permission, a permission set or a
/// default permission that a registered manifest declares, and no set
/// reached may refer to itself. The first grant that fails, capabilities and
/// grants taken in order, decides the error. Nothing is changed.
pub fn validate_capabilities(
    plugin_manifests: &ManifestRegistry,
    capabilities: &Vec<Capability>,
    target: Target,
) -> (r: Result<(), AclError>)
    requires
        plugin_manifests.wf(),
    ensures
        r is Ok <==> all_valid(plugin_manifests@, capability_models(capabilities@), target),
        r matches Err(e) ==> reports_first_failure(
            plugin_manifests@,
            capability_models(capabilities@),
            target,
            e,
        ),
{
    let ghost reg = plugin_manifests@;
    let ghost caps = capability_models(capabilities@);
    let mut c: usize = 0;
    while c < capabilities.len()
        invariant
            plugin_manifests.wf(),
            reg == plugin_manifests@,
            caps == capability_models(capabilities@),
            c <= capabilities.len(),
            forall|c2: int, g2: int| #[trigger] fails_at(reg, caps, target, c2, g2) ==> c <= c2,
        decreases capabilities.len() - c,
    {
        let capability = &capabilities[c];
        assert(caps[c as int] == capability@);
        if capability.applies_on(target) {
            let mut g: usize = 0;
            while g < capability.permissions.len()
                invariant
                    plugin_manifests.wf(),
                    reg == plugin_manifests@,
                    caps == capability_models(capabilities@),
                    c < capabilities.len(),
                    caps[c as int] == capability@,
                    capability@.platforms.contains(target),
                    g <= capability.permissions.len(),
                    forall|c2: int, g2: int| #[trigger]
                        fails_at(reg, caps, target, c2, g2) ==> c < c2 || (c == c2 && g <= g2),
                decreases capability.permissions.len() - g,
            {
                let id = &capability.permissions[g];
                assert(capability@.grants[g as int] == (id.namespace_view(), id.name_view()));
                match expand_grant(plugin_manifests, id) {
                    Ok(_) => {},
                    Err(f) => {
                        let e = failure_error(plugin_manifests, id, f);
                        proof {
                            assert(fails_at(reg, caps, target, c as int, g as int));
                            assert(first_failure(reg, caps, target, c as int, g as int));
                        }
                        return Err(e);
                    },
                }
                g += 1;
            }
        }
        c += 1;
    }
    Ok(())
}

} // verus!
