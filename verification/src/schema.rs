//! What a schema of capability files has to offer for a permission
//! identifier: one entry for each identifier that the registered manifests
//! declare, with the description to show beside it.

use crate::identifier::joined;
use crate::manifest::Manifest;
use crate::platform::Target;
use crate::registry::{join_identifier, ManifestRegistry};
use vstd::prelude::*;
use vstd::string::*;

verus! {

/// One identifier that a capability may grant.
#[derive(Clone, Debug, PartialEq, Eq)]
pub struct PermissionSchema {
    /// The identifier, `namespace:name`.
    pub identifier: String,
    /// The text shown for it: the identifier, ` -> ` and the description of
    /// what it names, where that has one.
    pub description: Option<String>,
}

/// An entry as texts.
pub ghost struct SchemaModel {
    pub identifier: Seq<char>,
    pub description: Option<Seq<char>>,
}

impl View for PermissionSchema {
    type V = SchemaModel;

    open spec fn view(&self) -> SchemaModel {
        SchemaModel {
            identifier: self.identifier@,
            description: match self.description {
                Some(d) => Some(d@),
                None => None,
            },
        }
    }
}

/// The entry for `id` of namespace `plugin`, described by `description`.
pub open spec fn schema_model(
    plugin: Seq<char>,
    id: Seq<char>,
    description: Option<Seq<char>>,
) -> SchemaModel {
    SchemaModel {
        identifier: joined(plugin, id),
        description: match description {
            Some(d) => Some(joined(plugin, id) + " -> "@ + d),
            None => None,
        },
    }
}

/// A description as a text, if there is one.
pub open spec fn described(description: Option<String>) -> Option<Seq<char>> {
    match description {
        Some(d) => Some(d@),
        None => None,
    }
}

/// The entries for the permission sets of a manifest, ascending by name.
pub open spec fn set_schemas(m: Manifest) -> Seq<SchemaModel> {
    Seq::new(
        m.set_names().len(),
        |i: int|
            schema_model(
                m@.namespace,
                m.set_names()[i],
                Some(m.declared_set(m.set_names()[i]).description@),
            ),
    )
}

/// The entry for the default permission of a manifest, if it has one.
pub open spec fn default_schemas(m: Manifest) -> Seq<SchemaModel> {
    match m.declared_default() {
        Some(p) => seq![schema_model(m@.namespace, "default"@, described(p.description))],
        None => Seq::empty(),
    }
}

/// The entries for the permissions of a manifest, ascending by name.
pub open spec fn named_schemas(m: Manifest) -> Seq<SchemaModel> {
    Seq::new(
        m.permission_names().len(),
        |i: int|
            schema_model(
                m@.namespace,
                m.permission_names()[i],
                described(m.declared_permission(m.permission_names()[i]).description),
            ),
    )
}

/// The entries for one manifest: its sets, its default permission, its
/// permissions.
pub open spec fn manifest_schemas(m: Manifest) -> Seq<SchemaModel> {
    set_schemas(m) + default_schemas(m) + named_schemas(m)
}

/// The entries for the manifests of `ms`, one manifest after the other.
pub open spec fn registry_schemas(ms: Seq<Manifest>) -> Seq<SchemaModel>
    decreases ms.len(),
{
    if ms.len() == 0 {
        Seq::empty()
    } else {
        registry_schemas(ms.drop_last()) + manifest_schemas(ms.last())
    }
}

/// The entries of a list, as texts.
pub open spec fn schema_models(entries: Seq<PermissionSchema>) -> Seq<SchemaModel> {
    Seq::new(entries.len(), |i: int| entries[i]@)
}

/// The entry for `id` of namespace `plugin`.
pub fn schema_from(plugin: &str, id: &str, description: Option<&str>) -> (entry: PermissionSchema)
    ensures
        entry@ == schema_model(
            plugin@,
            id@,
            match description {
                Some(d) => Some(d@),
                None => None,
            },
        ),
{
    let identifier = join_identifier(plugin, id);
    let description = match description {
        Some(d) => {
            let mut text = identifier.clone();
            text.append(" -> ");
            text.append(d);
            Some(text)
        },
        None => None,
    };
    PermissionSchema { identifier, description }
}

/// Appends the entries for `m` to `out`.
fn push_manifest_schemas(m: &Manifest, out: &mut Vec<PermissionSchema>)
    requires
        m.wf(),
    ensures
        schema_models(final(out)@) == schema_models(old(out)@) + manifest_schemas(*m),
{
    let ghost base = schema_models(out@);
    let namespace = m.namespace();
    let sets = m.set_count();
    let mut i: usize = 0;
    proof {
        assert(base + set_schemas(*m).take(0) =~= base);
    }
    while i < sets
        invariant
            m.wf(),
            namespace@ == m@.namespace,
            sets == m.set_names().len(),
            i <= sets,
            schema_models(out@) == base + set_schemas(*m).take(i as int),
        decreases sets - i,
    {
        let set = m.set_at(i);
        let entry = schema_from(namespace, set.identifier.as_str(), Some(set.description.as_str()));
        let ghost before = schema_models(out@);
        out.push(entry);
        proof {
            assert(entry@ == set_schemas(*m)[i as int]);
            assert(schema_models(out@) =~= before.push(entry@));
            assert(base + set_schemas(*m).take(i + 1) =~= (base + set_schemas(*m).take(
                i as int,
            )).push(entry@));
        }
        i += 1;
    }
    proof {
        assert(set_schemas(*m).take(sets as int) =~= set_schemas(*m));
    }
    let ghost with_sets = schema_models(out@);
    match m.default_permission() {
        Some(p) => {
            let description = match &p.description {
                Some(d) => Some(d.as_str()),
                None => None,
            };
            let entry = schema_from(namespace, "default", description);
            out.push(entry);
            proof {
                assert(schema_models(out@) =~= with_sets + default_schemas(*m));
            }
        },
        None => {
            proof {
                assert(with_sets + default_schemas(*m) =~= with_sets);
            }
        },
    }
    let ghost head = schema_models(out@);
    let permissions = m.permission_count();
    let mut j: usize = 0;
    proof {
        assert(head + named_schemas(*m).take(0) =~= head);
    }
    while j < permissions
        invariant
            m.wf(),
            namespace@ == m@.namespace,
            permissions == m.permission_names().len(),
            j <= permissions,
            schema_models(out@) == head + named_schemas(*m).take(j as int),
        decreases permissions - j,
    {
        let p = m.permission_at(j);
        let description = match &p.description {
            Some(d) => Some(d.as_str()),
            None => None,
        };
        let entry = schema_from(namespace, p.identifier.as_str(), description);
        let ghost before = schema_models(out@);
        out.push(entry);
        proof {
            assert(entry@ == named_schemas(*m)[j as int]);
            assert(schema_models(out@) =~= before.push(entry@));
            assert(head + named_schemas(*m).take(j + 1) =~= (head + named_schemas(*m).take(
                j as int,
            )).push(entry@));
        }
        j += 1;
    }
    proof {
        assert(named_schemas(*m).take(permissions as int) =~= named_schemas(*m));
        assert(base + manifest_schemas(*m) =~= base + set_schemas(*m) + default_schemas(*m)
            + named_schemas(*m));
    }
}

/// One entry for each identifier that the registered manifests declare:
/// namespace by namespace in ascending order, and within a namespace the
/// sets, the default permission and the permissions.
pub fn permission_schemas(manifests: &ManifestRegistry) -> (out: Vec<PermissionSchema>)
    requires
        manifests.wf(),
    ensures
        schema_models(out@) == registry_schemas(manifests.manifests()),
{
    let mut out: Vec<PermissionSchema> = Vec::new();
    let n = manifests.len();
    let ghost all = manifests.manifests();
    let mut i: usize = 0;
    proof {
        assert(schema_models(out@) =~= registry_schemas(all.take(0)));
    }
    while i < n
        invariant
            manifests.wf(),
            all == manifests.manifests(),
            n == manifests.namespaces().len(),
            n == all.len(),
            i <= n,
            schema_models(out@) == registry_schemas(all.take(i as int)),
        decreases n - i,
    {
        let m = manifests.manifest_at(i);
        proof {
            assert(all.take(i + 1).drop_last() =~= all.take(i as int));
            assert(all.take(i + 1).last() == *m);
        }
        push_manifest_schemas(m, &mut out);
        i += 1;
    }
    proof {
        assert(all.take(n as int) =~= all);
    }
    out
}

/// The name of the schema file for a platform, and the name of the copy
/// that all platforms of its class share.
pub fn schema_file_names(target: Target) -> (names: (String, String))
    ensures
        names.0@ == target.name_text() + "-schema.json"@,
        names.1@ == (if target.desktop() {
            "desktop-schema.json"@
        } else {
            "mobile-schema.json"@
        }),
{
    let mut own = target.name().to_owned();
    own.append("-schema.json");
    let shared = if target.is_desktop() {
        "desktop-schema.json".to_owned()
    } else {
        "mobile-schema.json".to_owned()
    };
    (own, shared)
}

} // verus!
