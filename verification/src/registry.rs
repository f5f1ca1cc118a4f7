//! The manifests of all namespaces that take part: the application's own
//! and that of every plugin.

use crate::error::AclError;
use crate::identifier::{default_name, joined};
use crate::manifest::{Manifest, ManifestModel, PermissionFile};
use crate::names::{ascending, names_of, NameMap, NameSet};
use vstd::prelude::*;
use vstd::string::*;

verus! {

/// What the registered namespaces declare, each under its name.
pub type RegistryModel = Map<Seq<char>, ManifestModel>;

/// The identifiers that name something in `reg`.
pub open spec fn valid_identifiers(reg: RegistryModel) -> Set<Seq<char>> {
    Set::new(
        |t: Seq<char>|
            exists|ns: Seq<char>, name: Seq<char>|
                reg.contains_key(ns) && reg[ns].declares(name) && t == #[trigger] joined(
                    ns,
                    name,
                ),
    )
}

/// The identifiers that name something in the manifest `m` of `ns`.
pub open spec fn identifiers_of(ns: Seq<char>, m: ManifestModel) -> Set<Seq<char>> {
    Set::new(
        |t: Seq<char>| exists|name: Seq<char>| m.declares(name) && t == #[trigger] joined(ns, name),
    )
}

/// The text `namespace:name`.
pub fn join_identifier(namespace: &str, name: &str) -> (text: String)
    ensures
        text@ == joined(namespace@, name@),
{
    let mut text = namespace.to_owned();
    text.append(":");
    text.append(name);
    proof {
        reveal_strlit(":");
        assert(":"@ =~= seq![':']);
    }
    text
}

/// Whether `t` is `ns` joined to one of the first `i` names of `names`.
pub open spec fn listed(ns: Seq<char>, names: Seq<Seq<char>>, i: int, t: Seq<char>) -> bool {
    exists|j: int| 0 <= j < i && t == joined(ns, #[trigger] names[j])
}

/// One more name lists what the names before list and its own identifier.
pub proof fn lemma_listed_step(ns: Seq<char>, names: Seq<Seq<char>>, i: int, t: Seq<char>)
    requires
        0 <= i < names.len(),
    ensures
        listed(ns, names, i + 1, t) <==> (listed(ns, names, i, t) || t == joined(ns, names[i])),
{
    if listed(ns, names, i, t) {
        let j = choose|j: int| 0 <= j < i && t == joined(ns, #[trigger] names[j]);
        assert(0 <= j < i + 1);
    }
    if t == joined(ns, names[i]) {
        assert(0 <= i < i + 1 && t == joined(ns, names[i]));
    }
}

/// Puts into `acc` every identifier that names something in `m`.
fn collect_identifiers(acc: &mut NameSet, m: &Manifest)
    requires
        old(acc).wf(),
        m.wf(),
    ensures
        final(acc).wf(),
        final(acc)@ == old(acc)@.union(identifiers_of(m@.namespace, m@)),
{
    let ns = m.namespace();
    proof {
        m.lemma_names();
    }
    if m.default_permission().is_some() {
        acc.insert(join_identifier(ns, "default"));
    }
    let ghost acc1 = acc@;
    let ghost pnames = m.permission_names();
    let ghost snames = m.set_names();
    let n = m.permission_count();
    let mut i: usize = 0;
    while i < n
        invariant
            acc.wf(),
            m.wf(),
            ns@ == m@.namespace,
            pnames == m.permission_names(),
            n == pnames.len(),
            i <= n,
            forall|t: Seq<char>|
                #![trigger acc@.contains(t)]
                acc@.contains(t) <==> (acc1.contains(t) || listed(ns@, pnames, i as int, t)),
        decreases n - i,
    {
        let ghost before = acc@;
        acc.insert(join_identifier(ns, m.permission_name_at(i).as_str()));
        proof {
            assert forall|t: Seq<char>|
                #![trigger acc@.contains(t)]
                acc@.contains(t) <==> (acc1.contains(t) || listed(ns@, pnames, i + 1, t)) by {
                assert(acc@.contains(t) <==> (before.contains(t) || t == joined(
                    ns@,
                    pnames[i as int],
                )));
                assert(before.contains(t) <==> (acc1.contains(t) || listed(
                    ns@,
                    pnames,
                    i as int,
                    t,
                )));
                lemma_listed_step(ns@, pnames, i as int, t);
            }
        }
        i += 1;
    }
    let ghost acc2 = acc@;
    let k = m.set_count();
    let mut i: usize = 0;
    while i < k
        invariant
            acc.wf(),
            m.wf(),
            ns@ == m@.namespace,
            snames == m.set_names(),
            k == snames.len(),
            i <= k,
            forall|t: Seq<char>|
                #![trigger acc@.contains(t)]
                acc@.contains(t) <==> (acc2.contains(t) || listed(ns@, snames, i as int, t)),
        decreases k - i,
    {
        let ghost before = acc@;
        acc.insert(join_identifier(ns, m.set_name_at(i).as_str()));
        proof {
            assert forall|t: Seq<char>|
                #![trigger acc@.contains(t)]
                acc@.contains(t) <==> (acc2.contains(t) || listed(ns@, snames, i + 1, t)) by {
                assert(acc@.contains(t) <==> (before.contains(t) || t == joined(
                    ns@,
                    snames[i as int],
                )));
                assert(before.contains(t) <==> (acc2.contains(t) || listed(
                    ns@,
                    snames,
                    i as int,
                    t,
                )));
                lemma_listed_step(ns@, snames, i as int, t);
            }
        }
        i += 1;
    }
    proof {
        let want = old(acc)@.union(identifiers_of(m@.namespace, m@));
        assert forall|t: Seq<char>| final(acc)@.contains(t) <==> want.contains(t) by {
            assert(final(acc)@.contains(t) <==> (acc2.contains(t) || listed(
                ns@,
                snames,
                k as int,
                t,
            )));
            assert(acc2.contains(t) <==> (acc1.contains(t) || listed(ns@, pnames, n as int, t)));
            assert(acc1.contains(t) <==> (old(acc)@.contains(t) || (m@.default is Some && t
                == joined(ns@, default_name()))));
            if m@.default is Some && t == joined(ns@, default_name()) {
                assert(m@.declares(default_name()));
                assert(identifiers_of(ns@, m@).contains(t));
            }
            if listed(ns@, pnames, n as int, t) {
                let j = choose|j: int| 0 <= j < n && t == joined(ns@, #[trigger] pnames[j]);
                assert(pnames.contains(pnames[j]));
                assert(m@.declares(pnames[j]));
                assert(identifiers_of(ns@, m@).contains(t));
            }
            if listed(ns@, snames, k as int, t) {
                let j = choose|j: int| 0 <= j < k && t == joined(ns@, #[trigger] snames[j]);
                assert(snames.contains(snames[j]));
                assert(m@.declares(snames[j]));
                assert(identifiers_of(ns@, m@).contains(t));
            }
            if identifiers_of(ns@, m@).contains(t) {
                let name = choose|name: Seq<char>|
                    m@.declares(name) && t == #[trigger] joined(ns@, name);
                if m@.permissions.contains_key(name) {
                    assert(pnames.contains(name));
                    let j = choose|j: int| 0 <= j < pnames.len() && pnames[j] == name;
                    assert(t == joined(ns@, pnames[j]));
                    assert(listed(ns@, pnames, n as int, t));
                } else if m@.sets.contains_key(name) {
                    assert(snames.contains(name));
                    let j = choose|j: int| 0 <= j < snames.len() && snames[j] == name;
                    assert(t == joined(ns@, snames[j]));
                    assert(listed(ns@, snames, k as int, t));
                }
            }
        }
        assert(final(acc)@ =~= want);
    }
}

/// The registry of manifests, one for each namespace.
#[derive(Clone, Debug, PartialEq, Eq)]
pub struct ManifestRegistry {
    manifests: NameMap<Manifest>,
}

impl View for ManifestRegistry {
    type V = RegistryModel;

    closed spec fn view(&self) -> RegistryModel {
        Map::new(
            |k: Seq<char>| self.manifests@.contains_key(k),
            |k: Seq<char>| self.manifests@[k]@,
        )
    }
}

impl ManifestRegistry {
    /// The namespaces are in order and each manifest stands under its own.
    pub closed spec fn wf(&self) -> bool {
        &&& self.manifests.wf()
        &&& forall|i: int|
            0 <= i < self.manifests.entries().len() ==> (#[trigger] self.manifests.entries()[i]).wf(
            ) && self.manifests.entries()[i]@.namespace == self.manifests.names()[i]
    }

    /// The registered namespaces, ascending.
    pub closed spec fn namespaces(&self) -> Seq<Seq<char>> {
        self.manifests.names()
    }

    /// The registered manifests, in the ascending order of their namespaces.
    pub closed spec fn manifests(&self) -> Seq<Manifest> {
        self.manifests.entries()
    }

    /// What a well-formed registry promises of its model.
    pub proof fn lemma_model(&self)
        requires
            self.wf(),
        ensures
            ascending(self.namespaces()),
            self@.dom().finite(),
            self@.dom().len() == self.namespaces().len(),
            forall|k: Seq<char>| self@.contains_key(k) <==> self.namespaces().contains(k),
            forall|k: Seq<char>| #[trigger] self@.contains_key(k) ==> self@[k].namespace == k,
    {
        self.manifests.lemma_entries();
        assert(self@.dom() =~= self.manifests@.dom());
        assert forall|k: Seq<char>| #[trigger] self@.contains_key(k) implies self@[k].namespace
            == k by {
            let i = choose|i: int|
                0 <= i < self.manifests.names().len() && self.manifests.names()[i] == k;
            assert(self.manifests@[self.manifests.names()[i]] == self.manifests.entries()[i]);
            assert(self.manifests.entries()[i].wf());
        }
    }

    /// The registry with no namespace registered.
    pub fn new() -> (r: ManifestRegistry)
        ensures
            r.wf(),
            r@ == Map::<Seq<char>, ManifestModel>::empty(),
    {
        let r = ManifestRegistry { manifests: NameMap::new() };
        assert(r@ =~= Map::<Seq<char>, ManifestModel>::empty());
        r
    }

    /// How many namespaces are registered.
    pub fn len(&self) -> (n: usize)
        requires
            self.wf(),
        ensures
            n == self.namespaces().len(),
            n == self.manifests().len(),
            n == self@.dom().len(),
    {
        proof {
            self.lemma_model();
        }
        self.manifests.len()
    }

    /// Registers `manifest` under its namespace. A namespace can be
    /// registered once: the second time fails and changes nothing.
    pub fn register(&mut self, manifest: Manifest) -> (r: Result<(), AclError>)
        requires
            old(self).wf(),
            manifest.wf(),
        ensures
            final(self).wf(),
            r is Ok <==> !old(self)@.contains_key(manifest@.namespace),
            r is Ok ==> final(self)@ == old(self)@.insert(manifest@.namespace, manifest@),
            r is Err ==> final(self)@ == old(self)@,
            r matches Err(e) ==> e matches AclError::DuplicateNamespace { namespace }
                && namespace@ == manifest@.namespace,
    {
        let key = manifest.namespace().to_owned();
        if self.manifests.contains_key(key.as_str()) {
            return Err(AclError::DuplicateNamespace { namespace: key });
        }
        proof {
            old(self).manifests.lemma_entries();
        }
        self.manifests.insert(key, manifest);
        proof {
            final(self).manifests.lemma_entries();
            let names = final(self).manifests.names();
            let entries = final(self).manifests.entries();
            assert forall|i: int| 0 <= i < entries.len() implies (#[trigger] entries[i]).wf()
                && entries[i]@.namespace == names[i] by {
                assert(final(self).manifests@.contains_key(names[i]));
                assert(final(self).manifests@[names[i]] == entries[i]);
                if names[i] != manifest@.namespace {
                    assert(old(self).manifests@.contains_key(names[i]));
                    let q = choose|q: int|
                        0 <= q < old(self).manifests.names().len() && old(
                            self,
                        ).manifests.names()[q] == names[i];
                    assert(old(self).manifests@[old(self).manifests.names()[q]] == old(
                        self,
                    ).manifests.entries()[q]);
                }
            }
            assert(final(self)@ =~= old(self)@.insert(manifest@.namespace, manifest@));
        }
        Ok(())
    }

    /// The manifest registered under `namespace`, if there is one.
    pub fn get(&self, namespace: &str) -> (r: Option<&Manifest>)
        requires
            self.wf(),
        ensures
            r is Some <==> self@.contains_key(namespace@),
            r matches Some(m) ==> m.wf() && m@ == self@[namespace@],
    {
        proof {
            self.manifests.lemma_entries();
        }
        match self.manifests.index_of(namespace) {
            Some(i) => Some(self.manifests.value_at(i)),
            None => None,
        }
    }

    /// The manifest at position `i` of the ascending order of namespaces.
    pub fn manifest_at(&self, i: usize) -> (m: &Manifest)
        requires
            self.wf(),
            i < self.namespaces().len(),
        ensures
            m.wf(),
            *m == self.manifests()[i as int],
            self.manifests().len() == self.namespaces().len(),
            m@.namespace == self.namespaces()[i as int],
            self@.contains_key(self.namespaces()[i as int]),
            m@ == self@[self.namespaces()[i as int]],
    {
        proof {
            self.manifests.lemma_entries();
        }
        self.manifests.value_at(i)
    }

    /// Every identifier that names something in the registry, ascending.
    pub fn available(&self) -> (out: Vec<String>)
        requires
            self.wf(),
        ensures
            ascending(names_of(out@)),
            forall|t: Seq<char>|
                names_of(out@).contains(t) <==> valid_identifiers(self@).contains(t),
    {
        proof {
            self.lemma_model();
        }
        let mut acc = NameSet::new();
        let n = self.len();
        let ghost spaces = self.namespaces();
        let mut i: usize = 0;
        while i < n
            invariant
                self.wf(),
                acc.wf(),
                spaces == self.namespaces(),
                n == spaces.len(),
                i <= n,
                forall|t: Seq<char>|
                    #![trigger acc@.contains(t)]
                    acc@.contains(t) <==> covered(self@, spaces, i as int, t),
            decreases n - i,
        {
            let ghost before = acc@;
            let m = self.manifest_at(i);
            collect_identifiers(&mut acc, m);
            proof {
                assert forall|t: Seq<char>|
                    #![trigger acc@.contains(t)]
                    acc@.contains(t) <==> covered(self@, spaces, i + 1, t) by {
                    assert(acc@.contains(t) <==> (before.contains(t) || identifiers_of(
                        spaces[i as int],
                        self@[spaces[i as int]],
                    ).contains(t)));
                    assert(before.contains(t) <==> covered(self@, spaces, i as int, t));
                    lemma_covered_step(self@, spaces, i as int, t);
                }
            }
            i += 1;
        }
        let out = acc.to_vec();
        proof {
            assert forall|t: Seq<char>| names_of(out@).contains(t) <==> valid_identifiers(
                self@,
            ).contains(t) by {
                assert(names_of(out@).contains(t) <==> acc@.contains(t));
                assert(acc@.contains(t) <==> covered(self@, spaces, n as int, t));
                if covered(self@, spaces, n as int, t) {
                    let a = choose|a: int|
                        0 <= a < n && identifiers_of(#[trigger] spaces[a], self@[spaces[a]]).contains(
                            t,
                        );
                    let ns = spaces[a];
                    assert(spaces.contains(ns));
                    let name = choose|name: Seq<char>|
                        self@[ns].declares(name) && t == #[trigger] joined(ns, name);
                    assert(self@.contains_key(ns) && self@[ns].declares(name) && t == joined(
                        ns,
                        name,
                    ));
                }
                if valid_identifiers(self@).contains(t) {
                    let (ns, name) = choose|ns: Seq<char>, name: Seq<char>|
                        self@.contains_key(ns) && self@[ns].declares(name) && t
                            == #[trigger] joined(ns, name);
                    assert(spaces.contains(ns));
                    let a = choose|a: int| 0 <= a < spaces.len() && spaces[a] == ns;
                    assert(self@[spaces[a]].declares(name) && t == joined(spaces[a], name));
                    assert(identifiers_of(spaces[a], self@[spaces[a]]).contains(t));
                    assert(covered(self@, spaces, n as int, t));
                }
            }
        }
        out
    }
}

/// Whether `t` names something in the manifest of one of the first `i`
/// namespaces of `spaces`.
pub open spec fn covered(reg: RegistryModel, spaces: Seq<Seq<char>>, i: int, t: Seq<char>) -> bool {
    exists|a: int| 0 <= a < i && identifiers_of(#[trigger] spaces[a], reg[spaces[a]]).contains(t)
}

/// One more namespace covers what the namespaces before cover and what its
/// own manifest declares.
pub proof fn lemma_covered_step(reg: RegistryModel, spaces: Seq<Seq<char>>, i: int, t: Seq<char>)
    requires
        0 <= i < spaces.len(),
    ensures
        covered(reg, spaces, i + 1, t) <==> (covered(reg, spaces, i, t) || identifiers_of(
            spaces[i],
            reg[spaces[i]],
        ).contains(t)),
{
    if covered(reg, spaces, i, t) {
        let a = choose|a: int|
            0 <= a < i && identifiers_of(#[trigger] spaces[a], reg[spaces[a]]).contains(t);
        assert(0 <= a < i + 1);
    }
    if identifiers_of(spaces[i], reg[spaces[i]]).contains(t) {
        assert(0 <= i < i + 1 && identifiers_of(spaces[i], reg[spaces[i]]).contains(t));
    }
}

/// The registry that a collection of namespaces, each with its files, makes.
pub open spec fn registry_of(entries: Seq<(String, Vec<PermissionFile>)>) -> RegistryModel
    decreases entries.len(),
{
    if entries.len() == 0 {
        Map::empty()
    } else {
        let last = entries.last();
        registry_of(entries.drop_last()).insert(
            last.0@,
            crate::manifest::with_files(crate::manifest::empty_manifest(last.0@), last.1@),
        )
    }
}

/// Whether no namespace occurs twice among `entries`.
pub open spec fn distinct_namespaces(entries: Seq<(String, Vec<PermissionFile>)>) -> bool {
    forall|i: int, j: int|
        0 <= i < j < entries.len() ==> (#[trigger] entries[i]).0@ != (#[trigger] entries[j]).0@
}

/// Whether one of the first `i` entries is for the namespace `k`.
pub open spec fn entered(entries: Seq<(String, Vec<PermissionFile>)>, i: int, k: Seq<char>) -> bool {
    exists|a: int| 0 <= a < i && (#[trigger] entries[a]).0@ == k
}

/// Builds the manifest of each namespace from the files that were read for
/// it, and registers them. It fails on the first namespace that occurs a
/// second time.
pub fn get_plugin_manifests(permission_map: Vec<(String, Vec<PermissionFile>)>) -> (r: Result<
    ManifestRegistry,
    AclError,
>)
    ensures
        r is Ok <==> distinct_namespaces(permission_map@),
        r matches Ok(reg) ==> reg.wf() && reg@ == registry_of(permission_map@),
        r matches Err(e) ==> e.spec_kind() == crate::error::ErrorKind::DuplicateNamespace
            && exists|j: int|
            0 <= j < permission_map@.len() && entered(permission_map@, j, e.subject())
                && e.subject() == (#[trigger] permission_map@[j]).0@,
{
    let mut registry = ManifestRegistry::new();
    let ghost all = permission_map@;
    for entry in it: permission_map.into_iter()
        invariant
            registry.wf(),
            all == permission_map@,
            it.seq() == all,
            registry@ == registry_of(all.take(it.index() as int)),
            distinct_namespaces(all.take(it.index() as int)),
            forall|k: Seq<char>|
                #![trigger registry@.contains_key(k)]
                registry@.contains_key(k) <==> entered(all, it.index() as int, k),
    {
        let ghost k = it.index() as int;
        let ghost before = registry@;
        proof {
            assert(all.take(k + 1).drop_last() =~= all.take(k));
            assert(all.take(k + 1).last() == entry);
            assert(all[k] == entry);
        }
        let (namespace, files) = entry;
        let manifest = Manifest::from_files(namespace.as_str(), files);
        proof {
            crate::manifest::lemma_with_files_namespace(
                crate::manifest::empty_manifest(namespace@),
                files@,
            );
        }
        match registry.register(manifest) {
            Err(e) => {
                proof {
                    assert(before.contains_key(namespace@));
                    assert(entered(all, k, namespace@));
                    let a = choose|a: int| 0 <= a < k && (#[trigger] all[a]).0@ == namespace@;
                    assert(all[a].0@ == all[k].0@);
                    assert(!distinct_namespaces(all));
                    assert(e.subject() == all[k].0@);
                }
                return Err(e);
            },
            Ok(()) => {
                proof {
                    let next = all.take(k + 1);
                    assert(!entered(all, k, namespace@));
                    assert forall|i: int, j: int| 0 <= i < j < next.len() implies (
                    #[trigger] next[i]).0@ != (#[trigger] next[j]).0@ by {
                        if j < k {
                            assert(all.take(k)[i] == next[i]);
                            assert(all.take(k)[j] == next[j]);
                        } else {
                            assert(next[i] == all[i]);
                            assert(next[j] == all[k]);
                            if all[i].0@ == namespace@ {
                                assert(entered(all, k, namespace@));
                            }
                        }
                    }
                    assert forall|key: Seq<char>|
                        #![trigger registry@.contains_key(key)]
                        registry@.contains_key(key) <==> entered(all, k + 1, key) by {
                        assert(before.contains_key(key) <==> entered(all, k, key));
                        if entered(all, k, key) {
                            let a = choose|a: int| 0 <= a < k && (#[trigger] all[a]).0@ == key;
                            assert(0 <= a < k + 1);
                        }
                        if key == namespace@ {
                            assert(0 <= k < k + 1 && all[k].0@ == key);
                        }
                        if entered(all, k + 1, key) {
                            let a = choose|a: int| 0 <= a < k + 1 && (#[trigger] all[a]).0@ == key;
                            if a < k {
                                assert(entered(all, k, key));
                            }
                        }
                    }
                }
            },
        }
    }
    proof {
        assert(all.take(all.len() as int) =~= all);
    }
    Ok(registry)
}

} // verus!
