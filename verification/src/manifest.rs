//! What a namespace declares: permissions, permission sets and a default.

use crate::identifier::default_name;
use crate::names::{ascending, names_of, NameMap};
use crate::platform::{lists_target, Target};
use crate::text::same_text;
use vstd::prelude::*;
use vstd::string::*;

verus! {

/// The set of the texts that a sequence of strings holds.
pub open spec fn text_set(items: Seq<String>) -> Set<Seq<char>> {
    Set::new(|t: Seq<char>| names_of(items).contains(t))
}

/// Whether `items` holds the text of `item`.
pub fn holds_text(items: &Vec<String>, item: &str) -> (b: bool)
    ensures
        b == text_set(items@).contains(item@),
{
    let mut i: usize = 0;
    while i < items.len()
        invariant
            i <= items.len(),
            forall|k: int| 0 <= k < i ==> names_of(items@)[k] != item@,
        decreases items.len() - i,
    {
        if same_text(items[i].as_str(), item) {
            assert(names_of(items@)[i as int] == item@);
            return true;
        }
        i += 1;
    }
    false
}

/// The commands that a permission allows and those that it denies.
#[derive(Clone, Debug, Default, PartialEq, Eq)]
pub struct Commands {
    /// Commands that the permission lets a window call.
    pub allow: Vec<String>,
    /// Commands that the permission forbids, whatever else allows them.
    pub deny: Vec<String>,
}

/// The scope of a permission: values that the commands read to narrow what
/// they do. The values are carried as they are and never looked into.
#[derive(Clone, Debug, Default, PartialEq, Eq)]
pub struct Scopes {
    /// Values that widen what the commands may touch.
    pub allow: Vec<String>,
    /// Values that are withheld, whatever else grants them.
    pub deny: Vec<String>,
}

/// An atomic grant.
#[derive(Clone, Debug, PartialEq, Eq)]
pub struct Permission {
    /// The name of the permission within its namespace.
    pub identifier: String,
    /// What the permission is for.
    pub description: Option<String>,
    /// The commands allowed and denied.
    pub commands: Commands,
    /// The scope attached to the commands.
    pub scope: Scopes,
    /// The platforms on which the permission holds; none listed means all.
    pub platforms: Vec<Target>,
}

/// A named group of permissions of one namespace.
#[derive(Clone, Debug, PartialEq, Eq)]
pub struct PermissionSet {
    /// The name of the set within its namespace.
    pub identifier: String,
    /// What the set is for.
    pub description: String,
    /// The names of the members: permissions, other sets, or `default`.
    pub permissions: Vec<String>,
}

/// What a permission says, order and repetition left aside.
pub ghost struct PermissionModel {
    pub name: Seq<char>,
    pub allow: Set<Seq<char>>,
    pub deny: Set<Seq<char>>,
    pub scope_allow: Set<Seq<char>>,
    pub scope_deny: Set<Seq<char>>,
    pub platforms: Set<Target>,
}

impl PermissionModel {
    /// Whether the permission holds on `target`.
    pub open spec fn applies_on(self, target: Target) -> bool {
        self.platforms == Set::<Target>::empty() || self.platforms.contains(target)
    }

    /// Whether the permission names no command at all, so that its scope is
    /// meant for the whole namespace.
    pub open spec fn is_global(self) -> bool {
        self.allow == Set::<Seq<char>>::empty() && self.deny == Set::<Seq<char>>::empty()
    }
}

impl View for Permission {
    type V = PermissionModel;

    open spec fn view(&self) -> PermissionModel {
        PermissionModel {
            name: self.identifier@,
            allow: text_set(self.commands.allow@),
            deny: text_set(self.commands.deny@),
            scope_allow: text_set(self.scope.allow@),
            scope_deny: text_set(self.scope.deny@),
            platforms: self.platforms@.to_set(),
        }
    }
}

/// A sequence of strings holds no text exactly when it is empty.
pub proof fn lemma_text_set_empty(items: Seq<String>)
    ensures
        (text_set(items) == Set::<Seq<char>>::empty()) <==> items.len() == 0,
{
    if items.len() == 0 {
        assert(text_set(items) =~= Set::<Seq<char>>::empty());
    } else {
        assert(names_of(items)[0] == items[0]@);
        assert(names_of(items).contains(items[0]@));
        assert(text_set(items).contains(items[0]@));
    }
}

impl Permission {
    /// A permission that allows `allow`, denies `deny`, has no scope and
    /// holds on every platform.
    pub fn new(identifier: &str, allow: Vec<String>, deny: Vec<String>) -> (p: Permission)
        ensures
            p@.name == identifier@,
            p@.allow == text_set(allow@),
            p@.deny == text_set(deny@),
            p@.scope_allow == Set::<Seq<char>>::empty(),
            p@.scope_deny == Set::<Seq<char>>::empty(),
            p@.platforms == Set::<Target>::empty(),
    {
        let p = Permission {
            identifier: identifier.to_owned(),
            description: None,
            commands: Commands { allow, deny },
            scope: Scopes { allow: Vec::new(), deny: Vec::new() },
            platforms: Vec::new(),
        };
        proof {
            lemma_text_set_empty(p.scope.allow@);
            lemma_text_set_empty(p.scope.deny@);
            assert(p.platforms@.to_set() =~= Set::<Target>::empty());
        }
        p
    }

    /// Whether the permission holds on `target`.
    pub fn applies_on(&self, target: Target) -> (b: bool)
        ensures
            b == self@.applies_on(target),
    {
        proof {
            if self.platforms@.len() == 0 {
                assert(self.platforms@.to_set() =~= Set::<Target>::empty());
            } else {
                assert(self.platforms@.contains(self.platforms@[0]));
                assert(self.platforms@.to_set().contains(self.platforms@[0]));
            }
        }
        self.platforms.len() == 0 || lists_target(&self.platforms, target)
    }

    /// Whether the permission names no command at all.
    pub fn is_global(&self) -> (b: bool)
        ensures
            b == self@.is_global(),
    {
        proof {
            lemma_text_set_empty(self.commands.allow@);
            lemma_text_set_empty(self.commands.deny@);
        }
        self.commands.allow.len() == 0 && self.commands.deny.len() == 0
    }
}

impl PermissionSet {
    /// The names of the members, in the order in which they are listed.
    pub open spec fn members(&self) -> Seq<Seq<char>> {
        names_of(self.permissions@)
    }

    /// A set with the given members.
    pub fn new(identifier: &str, description: &str, permissions: Vec<String>) -> (s:
        PermissionSet)
        ensures
            s.identifier@ == identifier@,
            s.description@ == description@,
            s.members() == names_of(permissions@),
    {
        PermissionSet {
            identifier: identifier.to_owned(),
            description: description.to_owned(),
            permissions,
        }
    }
}

/// What a manifest declares.
pub ghost struct ManifestModel {
    pub namespace: Seq<char>,
    pub default: Option<PermissionModel>,
    pub permissions: Map<Seq<char>, PermissionModel>,
    pub sets: Map<Seq<char>, Seq<Seq<char>>>,
}

impl ManifestModel {
    /// Whether `name` is something that an identifier of this namespace can
    /// name: the default permission, a permission or a permission set.
    pub open spec fn declares(self, name: Seq<char>) -> bool {
        ||| (name == default_name() && self.default is Some)
        ||| self.permissions.contains_key(name)
        ||| self.sets.contains_key(name)
    }
}

/// The catalogue of one namespace.
#[derive(Clone, Debug, PartialEq, Eq)]
pub struct Manifest {
    namespace: String,
    default_permission: Option<Permission>,
    permissions: NameMap<Permission>,
    permission_sets: NameMap<PermissionSet>,
}

impl View for Manifest {
    type V = ManifestModel;

    closed spec fn view(&self) -> ManifestModel {
        ManifestModel {
            namespace: self.namespace@,
            default: match self.default_permission {
                Some(p) => Some(p@),
                None => None,
            },
            permissions: Map::new(
                |k: Seq<char>| self.permissions@.contains_key(k),
                |k: Seq<char>| self.permissions@[k]@,
            ),
            sets: Map::new(
                |k: Seq<char>| self.permission_sets@.contains_key(k),
                |k: Seq<char>| self.permission_sets@[k].members(),
            ),
        }
    }
}

impl Manifest {
    /// The maps are in order, each entry stands under its own name, and the
    /// default permission is called `default`.
    pub closed spec fn wf(&self) -> bool {
        &&& self.permissions.wf()
        &&& self.permission_sets.wf()
        &&& forall|k: Seq<char>| #[trigger]
            self.permissions@.contains_key(k) ==> self.permissions@[k].identifier@ == k
        &&& forall|k: Seq<char>| #[trigger]
            self.permission_sets@.contains_key(k) ==> self.permission_sets@[k].identifier@ == k
    }

    /// What a well-formed manifest promises of its model.
    pub proof fn lemma_model(&self)
        requires
            self.wf(),
        ensures
            self@.permissions.dom().finite(),
            self@.sets.dom().finite(),
            forall|k: Seq<char>| #[trigger]
                self@.permissions.contains_key(k) ==> self@.permissions[k].name == k,
    {
        self.permissions.lemma_entries();
        self.permission_sets.lemma_entries();
        assert(self@.permissions.dom() =~= self.permissions@.dom());
        assert(self@.sets.dom() =~= self.permission_sets@.dom());
    }

    /// A manifest that declares nothing.
    pub fn new(namespace: &str) -> (m: Manifest)
        ensures
            m.wf(),
            m@.namespace == namespace@,
            m@.default is None,
            m@.permissions == Map::<Seq<char>, PermissionModel>::empty(),
            m@.sets == Map::<Seq<char>, Seq<Seq<char>>>::empty(),
            m.declared_default() is None,
    {
        let m = Manifest {
            namespace: namespace.to_owned(),
            default_permission: None,
            permissions: NameMap::new(),
            permission_sets: NameMap::new(),
        };
        proof {
            assert(m@.permissions =~= Map::<Seq<char>, PermissionModel>::empty());
            assert(m@.sets =~= Map::<Seq<char>, Seq<Seq<char>>>::empty());
        }
        m
    }

    /// The namespace that the manifest belongs to.
    pub fn namespace(&self) -> (ns: &str)
        ensures
            ns@ == self@.namespace,
    {
        self.namespace.as_str()
    }

    /// Makes `permission` the default permission, in place of any before.
    /// Its name becomes `default`.
    pub fn set_default(&mut self, permission: Permission)
        requires
            old(self).wf(),
        ensures
            final(self).wf(),
            final(self)@.namespace == old(self)@.namespace,
            final(self)@.permissions == old(self)@.permissions,
            final(self)@.sets == old(self)@.sets,
            final(self)@.default == Some(
                PermissionModel { name: default_name(), ..permission@ },
            ),
            final(self).declared_default() matches Some(p) && p.identifier@ == default_name()
                && p.description == permission.description,
            forall|k: Seq<char>|
                final(self).declared_permission(k) == old(self).declared_permission(k),
            forall|k: Seq<char>| final(self).declared_set(k) == old(self).declared_set(k),
    {
        let mut permission = permission;
        permission.identifier = "default".to_owned();
        self.default_permission = Some(permission);
    }

    /// Declares `permission` under its name, in place of any before.
    pub fn add_permission(&mut self, permission: Permission)
        requires
            old(self).wf(),
        ensures
            final(self).wf(),
            final(self)@.namespace == old(self)@.namespace,
            final(self)@.default == old(self)@.default,
            final(self)@.sets == old(self)@.sets,
            final(self)@.permissions == old(self)@.permissions.insert(
                permission.identifier@,
                permission@,
            ),
            final(self).declared_permission(permission.identifier@) == permission,
            forall|k: Seq<char>|
                k != permission.identifier@ ==> final(self).declared_permission(k) == old(
                    self,
                ).declared_permission(k),
            forall|k: Seq<char>| final(self).declared_set(k) == old(self).declared_set(k),
            final(self).declared_default() == old(self).declared_default(),
    {
        let key = permission.identifier.clone();
        self.permissions.insert(key, permission);
        proof {
            assert(final(self)@.permissions =~= old(self)@.permissions.insert(
                permission.identifier@,
                permission@,
            ));
        }
    }

    /// Declares `set` under its name, in place of any before.
    pub fn add_set(&mut self, set: PermissionSet)
        requires
            old(self).wf(),
        ensures
            final(self).wf(),
            final(self)@.namespace == old(self)@.namespace,
            final(self)@.default == old(self)@.default,
            final(self)@.permissions == old(self)@.permissions,
            final(self)@.sets == old(self)@.sets.insert(set.identifier@, set.members()),
            final(self).declared_set(set.identifier@) == set,
            forall|k: Seq<char>|
                k != set.identifier@ ==> final(self).declared_set(k) == old(self).declared_set(k),
            forall|k: Seq<char>|
                final(self).declared_permission(k) == old(self).declared_permission(k),
            final(self).declared_default() == old(self).declared_default(),
    {
        let key = set.identifier.clone();
        self.permission_sets.insert(key, set);
        proof {
            assert(final(self)@.sets =~= old(self)@.sets.insert(set.identifier@, set.members()));
        }
    }

    /// The default permission, if the manifest has one.
    pub fn default_permission(&self) -> (r: Option<&Permission>)
        ensures
            r is Some <==> self@.default is Some,
            r matches Some(p) ==> self@.default == Some(p@) && self.declared_default() == Some(*p),
            r is None ==> self.declared_default() is None,
    {
        match &self.default_permission {
            Some(p) => Some(p),
            None => None,
        }
    }

    /// The permission declared under `name`, if there is one.
    pub fn permission(&self, name: &str) -> (r: Option<&Permission>)
        requires
            self.wf(),
        ensures
            r is Some <==> self@.permissions.contains_key(name@),
            r matches Some(p) ==> self@.permissions[name@] == p@ && *p == self.declared_permission(
                name@,
            ),
    {
        self.permissions.get(name)
    }

    /// The permission set declared under `name`, if there is one.
    pub fn permission_set(&self, name: &str) -> (r: Option<&PermissionSet>)
        requires
            self.wf(),
        ensures
            r is Some <==> self@.sets.contains_key(name@),
            r matches Some(s) ==> self@.sets[name@] == s.members() && *s == self.declared_set(
                name@,
            ),
    {
        self.permission_sets.get(name)
    }

    /// Whether an identifier of this namespace can name `name`.
    pub fn declares(&self, name: &str) -> (b: bool)
        requires
            self.wf(),
        ensures
            b == self@.declares(name@),
    {
        (same_text(name, "default") && self.default_permission.is_some())
            || self.permissions.contains_key(name) || self.permission_sets.contains_key(name)
    }

    /// The names of the permissions declared, ascending.
    pub closed spec fn permission_names(&self) -> Seq<Seq<char>> {
        self.permissions.names()
    }

    /// The names of the permission sets declared, ascending.
    pub closed spec fn set_names(&self) -> Seq<Seq<char>> {
        self.permission_sets.names()
    }

    /// The names listed are the names declared.
    pub proof fn lemma_names(&self)
        requires
            self.wf(),
        ensures
            ascending(self.permission_names()),
            ascending(self.set_names()),
            forall|k: Seq<char>|
                self@.permissions.contains_key(k) <==> self.permission_names().contains(k),
            forall|k: Seq<char>| self@.sets.contains_key(k) <==> self.set_names().contains(k),
            self.permission_names().len() == self@.permissions.dom().len(),
            self.set_names().len() == self@.sets.dom().len(),
    {
        self.permissions.lemma_entries();
        self.permission_sets.lemma_entries();
        assert(self@.permissions.dom() =~= self.permissions@.dom());
        assert(self@.sets.dom() =~= self.permission_sets@.dom());
    }

    /// The name of the permission at position `i` of the ascending order.
    pub fn permission_name_at(&self, i: usize) -> (name: &String)
        requires
            self.wf(),
            i < self.permission_names().len(),
        ensures
            name@ == self.permission_names()[i as int],
    {
        self.permissions.key_at(i)
    }

    /// The name of the permission set at position `i` of the ascending order.
    pub fn set_name_at(&self, i: usize) -> (name: &String)
        requires
            self.wf(),
            i < self.set_names().len(),
        ensures
            name@ == self.set_names()[i as int],
    {
        self.permission_sets.key_at(i)
    }

    /// The permission declared under `name`, as it was declared.
    pub closed spec fn declared_permission(&self, name: Seq<char>) -> Permission {
        self.permissions@[name]
    }

    /// The permission set declared under `name`, as it was declared.
    pub closed spec fn declared_set(&self, name: Seq<char>) -> PermissionSet {
        self.permission_sets@[name]
    }

    /// The default permission, as it was declared.
    pub closed spec fn declared_default(&self) -> Option<Permission> {
        self.default_permission
    }

    /// The permission at position `i` of the ascending order of names.
    pub fn permission_at(&self, i: usize) -> (p: &Permission)
        requires
            self.wf(),
            i < self.permission_names().len(),
        ensures
            *p == self.declared_permission(self.permission_names()[i as int]),
            p.identifier@ == self.permission_names()[i as int],
    {
        self.permissions.value_at(i)
    }

    /// The permission set at position `i` of the ascending order of names.
    pub fn set_at(&self, i: usize) -> (s: &PermissionSet)
        requires
            self.wf(),
            i < self.set_names().len(),
        ensures
            *s == self.declared_set(self.set_names()[i as int]),
            s.identifier@ == self.set_names()[i as int],
    {
        self.permission_sets.value_at(i)
    }

    /// How many permissions the manifest declares.
    pub fn permission_count(&self) -> (n: usize)
        requires
            self.wf(),
        ensures
            n == self@.permissions.dom().len(),
            n == self.permission_names().len(),
    {
        proof {
            self.lemma_model();
            self.permissions.lemma_entries();
            assert(self@.permissions.dom() =~= self.permissions@.dom());
        }
        self.permissions.len()
    }

    /// How many permission sets the manifest declares.
    pub fn set_count(&self) -> (n: usize)
        requires
            self.wf(),
        ensures
            n == self@.sets.dom().len(),
            n == self.set_names().len(),
    {
        proof {
            self.permission_sets.lemma_entries();
            assert(self@.sets.dom() =~= self.permission_sets@.dom());
        }
        self.permission_sets.len()
    }
}

/// What one file of a namespace declares.
#[derive(Clone, Debug, PartialEq, Eq)]
pub struct PermissionFile {
    /// The default permission, if the file gives one.
    pub default: Option<Permission>,
    /// The permission sets of the file.
    pub set: Vec<PermissionSet>,
    /// The permissions of the file.
    pub permission: Vec<Permission>,
}

/// The manifest model that declares nothing.
pub open spec fn empty_manifest(namespace: Seq<char>) -> ManifestModel {
    ManifestModel {
        namespace,
        default: None,
        permissions: Map::empty(),
        sets: Map::empty(),
    }
}

/// `m` with the permissions of `ps` declared one after the other, a later
/// one taking the place of an earlier one of the same name.
pub open spec fn with_permissions(
    m: Map<Seq<char>, PermissionModel>,
    ps: Seq<Permission>,
) -> Map<Seq<char>, PermissionModel>
    decreases ps.len(),
{
    if ps.len() == 0 {
        m
    } else {
        with_permissions(m, ps.drop_last()).insert(ps.last().identifier@, ps.last()@)
    }
}

/// `m` with the sets of `sets` declared one after the other, a later one
/// taking the place of an earlier one of the same name.
pub open spec fn with_sets(m: Map<Seq<char>, Seq<Seq<char>>>, sets: Seq<PermissionSet>) -> Map<
    Seq<char>,
    Seq<Seq<char>>,
>
    decreases sets.len(),
{
    if sets.len() == 0 {
        m
    } else {
        with_sets(m, sets.drop_last()).insert(sets.last().identifier@, sets.last().members())
    }
}

/// `m` with what `file` declares: its default in place of any before, its
/// permissions and its sets.
pub open spec fn with_file(m: ManifestModel, file: PermissionFile) -> ManifestModel {
    ManifestModel {
        namespace: m.namespace,
        default: match file.default {
            Some(p) => Some(PermissionModel { name: default_name(), ..p@ }),
            None => m.default,
        },
        permissions: with_permissions(m.permissions, file.permission@),
        sets: with_sets(m.sets, file.set@),
    }
}

/// `m` with what the files declare, one file after the other.
pub open spec fn with_files(m: ManifestModel, files: Seq<PermissionFile>) -> ManifestModel
    decreases files.len(),
{
    if files.len() == 0 {
        m
    } else {
        with_file(with_files(m, files.drop_last()), files.last())
    }
}

/// The files of a namespace leave its name as it is.
pub proof fn lemma_with_files_namespace(m: ManifestModel, files: Seq<PermissionFile>)
    ensures
        with_files(m, files).namespace == m.namespace,
    decreases files.len(),
{
    if files.len() > 0 {
        lemma_with_files_namespace(m, files.drop_last());
    }
}

impl Manifest {
    /// Declares what `file` declares.
    pub fn add_file(&mut self, file: PermissionFile)
        requires
            old(self).wf(),
        ensures
            final(self).wf(),
            final(self)@ == with_file(old(self)@, file),
    {
        let PermissionFile { default, set, permission } = file;
        if let Some(p) = default {
            self.set_default(p);
        }
        let ghost m1 = self@;
        for p in it: permission.into_iter()
            invariant
                self.wf(),
                it.seq() == permission@,
                self@.namespace == m1.namespace,
                self@.default == m1.default,
                self@.sets == m1.sets,
                self@.permissions == with_permissions(
                    m1.permissions,
                    permission@.take(it.index() as int),
                ),
        {
            proof {
                let k = it.index() as int;
                assert(permission@.take(k + 1).drop_last() =~= permission@.take(k));
                assert(permission@.take(k + 1).last() == p);
            }
            self.add_permission(p);
        }
        let ghost m2 = self@;
        for s in it: set.into_iter()
            invariant
                self.wf(),
                it.seq() == set@,
                self@.namespace == m2.namespace,
                self@.default == m2.default,
                self@.permissions == m2.permissions,
                self@.sets == with_sets(m2.sets, set@.take(it.index() as int)),
        {
            proof {
                let k = it.index() as int;
                assert(set@.take(k + 1).drop_last() =~= set@.take(k));
                assert(set@.take(k + 1).last() == s);
            }
            self.add_set(s);
        }
        proof {
            assert(permission@.take(permission@.len() as int) =~= permission@);
            assert(set@.take(set@.len() as int) =~= set@);
        }
    }

    /// The manifest of `namespace` that declares what the files declare, one
    /// file after the other.
    pub fn from_files(namespace: &str, files: Vec<PermissionFile>) -> (m: Manifest)
        ensures
            m.wf(),
            m@ == with_files(empty_manifest(namespace@), files@),
    {
        let mut m = Manifest::new(namespace);
        assert(m@ == empty_manifest(namespace@));
        for file in it: files.into_iter()
            invariant
                m.wf(),
                it.seq() == files@,
                m@ == with_files(empty_manifest(namespace@), files@.take(it.index() as int)),
        {
            proof {
                let k = it.index() as int;
                assert(files@.take(k + 1).drop_last() =~= files@.take(k));
                assert(files@.take(k + 1).last() == file);
            }
            m.add_file(file);
        }
        proof {
            assert(files@.take(files@.len() as int) =~= files@);
        }
        m
    }
}

} // verus!
