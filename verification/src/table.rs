//! What a collection of granted permissions comes to: the commands allowed
//! and denied, and the scopes that go with them.

use crate::manifest::{Permission, PermissionModel};
use crate::names::{name_set_of, NameSet};
use crate::names::lemma_same_names;
use crate::relation::{lemma_same_pairs, Relation};
use vstd::prelude::*;

verus! {

/// A permission as granted: the permission and the namespace that declares it.
pub ghost struct GrantModel {
    pub namespace: Seq<char>,
    pub permission: PermissionModel,
}

/// What a collection of grants comes to.
#[verifier::ext_equal]
pub ghost struct TableModel {
    /// Commands that some grant allows.
    pub allow: Set<Seq<char>>,
    /// Commands that some grant denies.
    pub deny: Set<Seq<char>>,
    /// Pairs of a command and a namespace one of whose grants allows it.
    pub granted_by: Set<(Seq<char>, Seq<char>)>,
    /// Pairs of a command and a scope value that a grant allowing the command allows.
    pub scope_allow: Set<(Seq<char>, Seq<char>)>,
    /// Pairs of a command and a scope value that a grant allowing the command denies.
    pub scope_deny: Set<(Seq<char>, Seq<char>)>,
    /// Pairs of a namespace and a scope value that one of its grants
    /// without commands allows.
    pub global_allow: Set<(Seq<char>, Seq<char>)>,
    /// Pairs of a namespace and a scope value that one of its grants
    /// without commands denies.
    pub global_deny: Set<(Seq<char>, Seq<char>)>,
}

/// The table of no grant at all.
pub open spec fn empty_table() -> TableModel {
    TableModel {
        allow: Set::empty(),
        deny: Set::empty(),
        granted_by: Set::empty(),
        scope_allow: Set::empty(),
        scope_deny: Set::empty(),
        global_allow: Set::empty(),
        global_deny: Set::empty(),
    }
}

/// The table of one grant.
pub open spec fn grant_table(g: GrantModel) -> TableModel {
    let p = g.permission;
    TableModel {
        allow: p.allow,
        deny: p.deny,
        granted_by: Set::new(
            |x: (Seq<char>, Seq<char>)| p.allow.contains(x.0) && x.1 == g.namespace,
        ),
        scope_allow: Set::new(
            |x: (Seq<char>, Seq<char>)| p.allow.contains(x.0) && p.scope_allow.contains(x.1),
        ),
        scope_deny: Set::new(
            |x: (Seq<char>, Seq<char>)| p.allow.contains(x.0) && p.scope_deny.contains(x.1),
        ),
        global_allow: Set::new(
            |x: (Seq<char>, Seq<char>)|
                p.is_global() && x.0 == g.namespace && p.scope_allow.contains(x.1),
        ),
        global_deny: Set::new(
            |x: (Seq<char>, Seq<char>)|
                p.is_global() && x.0 == g.namespace && p.scope_deny.contains(x.1),
        ),
    }
}

/// The table of the grants of two tables together.
pub open spec fn merge(a: TableModel, b: TableModel) -> TableModel {
    TableModel {
        allow: a.allow.union(b.allow),
        deny: a.deny.union(b.deny),
        granted_by: a.granted_by.union(b.granted_by),
        scope_allow: a.scope_allow.union(b.scope_allow),
        scope_deny: a.scope_deny.union(b.scope_deny),
        global_allow: a.global_allow.union(b.global_allow),
        global_deny: a.global_deny.union(b.global_deny),
    }
}

/// The table of a sequence of grants: each part holds what the table of
/// some grant of the sequence holds.
pub open spec fn table_of(grants: Seq<GrantModel>) -> TableModel {
    TableModel {
        allow: Set::new(
            |c: Seq<char>|
                exists|i: int|
                    0 <= i < grants.len() && (#[trigger] grant_table(grants[i])).allow.contains(c),
        ),
        deny: Set::new(
            |c: Seq<char>|
                exists|i: int|
                    0 <= i < grants.len() && (#[trigger] grant_table(grants[i])).deny.contains(c),
        ),
        granted_by: Set::new(
            |x: (Seq<char>, Seq<char>)|
                exists|i: int|
                    0 <= i < grants.len() && (#[trigger] grant_table(
                        grants[i],
                    )).granted_by.contains(x),
        ),
        scope_allow: Set::new(
            |x: (Seq<char>, Seq<char>)|
                exists|i: int|
                    0 <= i < grants.len() && (#[trigger] grant_table(
                        grants[i],
                    )).scope_allow.contains(x),
        ),
        scope_deny: Set::new(
            |x: (Seq<char>, Seq<char>)|
                exists|i: int|
                    0 <= i < grants.len() && (#[trigger] grant_table(
                        grants[i],
                    )).scope_deny.contains(x),
        ),
        global_allow: Set::new(
            |x: (Seq<char>, Seq<char>)|
                exists|i: int|
                    0 <= i < grants.len() && (#[trigger] grant_table(
                        grants[i],
                    )).global_allow.contains(x),
        ),
        global_deny: Set::new(
            |x: (Seq<char>, Seq<char>)|
                exists|i: int|
                    0 <= i < grants.len() && (#[trigger] grant_table(
                        grants[i],
                    )).global_deny.contains(x),
        ),
    }
}

/// Tables merge in any order and any grouping: merging is commutative,
/// associative and idempotent, and the empty table changes nothing.
pub proof fn law_merge_any_order(a: TableModel, b: TableModel, c: TableModel)
    ensures
        merge(a, b) == merge(b, a),
        merge(merge(a, b), c) == merge(a, merge(b, c)),
        merge(a, a) == a,
        merge(a, empty_table()) == a,
        merge(empty_table(), a) == a,
{
    assert(merge(a, b) =~= merge(b, a));
    assert(merge(merge(a, b), c) =~= merge(a, merge(b, c)));
    assert(merge(a, a) =~= a);
    assert(merge(a, empty_table()) =~= a);
    assert(merge(empty_table(), a) =~= a);
}

/// The table of no grants is empty, and the table of two sequences put
/// together is the merge of their tables.
pub proof fn lemma_table_of_concat(a: Seq<GrantModel>, b: Seq<GrantModel>)
    ensures
        table_of(Seq::<GrantModel>::empty()) == empty_table(),
        table_of(a + b) == merge(table_of(a), table_of(b)),
{
    assert(table_of(Seq::<GrantModel>::empty()) =~= empty_table());
    let ab = a + b;
    let t = table_of(ab);
    let m = merge(table_of(a), table_of(b));
    assert forall|i: int| 0 <= i < a.len() implies ab[i] == a[i] by {}
    assert forall|i: int| 0 <= i < b.len() implies ab[a.len() + i] == b[i] by {}
    assert forall|c: Seq<char>| t.allow.contains(c) <==> m.allow.contains(c) by {
        if t.allow.contains(c) {
            let i = choose|i: int|
                0 <= i < ab.len() && (#[trigger] grant_table(ab[i])).allow.contains(c);
            if i < a.len() {
                assert(grant_table(a[i]).allow.contains(c));
            } else {
                assert(grant_table(b[i - a.len()]).allow.contains(c));
            }
        }
        if table_of(a).allow.contains(c) {
            let i = choose|i: int|
                0 <= i < a.len() && (#[trigger] grant_table(a[i])).allow.contains(c);
            assert(grant_table(ab[i]).allow.contains(c));
        }
        if table_of(b).allow.contains(c) {
            let i = choose|i: int|
                0 <= i < b.len() && (#[trigger] grant_table(b[i])).allow.contains(c);
            assert(grant_table(ab[a.len() + i]).allow.contains(c));
        }
    }
    assert forall|c: Seq<char>| t.deny.contains(c) <==> m.deny.contains(c) by {
        if t.deny.contains(c) {
            let i = choose|i: int|
                0 <= i < ab.len() && (#[trigger] grant_table(ab[i])).deny.contains(c);
            if i < a.len() {
                assert(grant_table(a[i]).deny.contains(c));
            } else {
                assert(grant_table(b[i - a.len()]).deny.contains(c));
            }
        }
        if table_of(a).deny.contains(c) {
            let i = choose|i: int|
                0 <= i < a.len() && (#[trigger] grant_table(a[i])).deny.contains(c);
            assert(grant_table(ab[i]).deny.contains(c));
        }
        if table_of(b).deny.contains(c) {
            let i = choose|i: int|
                0 <= i < b.len() && (#[trigger] grant_table(b[i])).deny.contains(c);
            assert(grant_table(ab[a.len() + i]).deny.contains(c));
        }
    }
    assert forall|x: (Seq<char>, Seq<char>)|
        t.granted_by.contains(x) <==> m.granted_by.contains(x) by {
        if t.granted_by.contains(x) {
            let i = choose|i: int|
                0 <= i < ab.len() && (#[trigger] grant_table(ab[i])).granted_by.contains(x);
            if i < a.len() {
                assert(grant_table(a[i]).granted_by.contains(x));
            } else {
                assert(grant_table(b[i - a.len()]).granted_by.contains(x));
            }
        }
        if table_of(a).granted_by.contains(x) {
            let i = choose|i: int|
                0 <= i < a.len() && (#[trigger] grant_table(a[i])).granted_by.contains(x);
            assert(grant_table(ab[i]).granted_by.contains(x));
        }
        if table_of(b).granted_by.contains(x) {
            let i = choose|i: int|
                0 <= i < b.len() && (#[trigger] grant_table(b[i])).granted_by.contains(x);
            assert(grant_table(ab[a.len() + i]).granted_by.contains(x));
        }
    }
    assert forall|x: (Seq<char>, Seq<char>)|
        t.scope_allow.contains(x) <==> m.scope_allow.contains(x) by {
        if t.scope_allow.contains(x) {
            let i = choose|i: int|
                0 <= i < ab.len() && (#[trigger] grant_table(ab[i])).scope_allow.contains(x);
            if i < a.len() {
                assert(grant_table(a[i]).scope_allow.contains(x));
            } else {
                assert(grant_table(b[i - a.len()]).scope_allow.contains(x));
            }
        }
        if table_of(a).scope_allow.contains(x) {
            let i = choose|i: int|
                0 <= i < a.len() && (#[trigger] grant_table(a[i])).scope_allow.contains(x);
            assert(grant_table(ab[i]).scope_allow.contains(x));
        }
        if table_of(b).scope_allow.contains(x) {
            let i = choose|i: int|
                0 <= i < b.len() && (#[trigger] grant_table(b[i])).scope_allow.contains(x);
            assert(grant_table(ab[a.len() + i]).scope_allow.contains(x));
        }
    }
    assert forall|x: (Seq<char>, Seq<char>)|
        t.scope_deny.contains(x) <==> m.scope_deny.contains(x) by {
        if t.scope_deny.contains(x) {
            let i = choose|i: int|
                0 <= i < ab.len() && (#[trigger] grant_table(ab[i])).scope_deny.contains(x);
            if i < a.len() {
                assert(grant_table(a[i]).scope_deny.contains(x));
            } else {
                assert(grant_table(b[i - a.len()]).scope_deny.contains(x));
            }
        }
        if table_of(a).scope_deny.contains(x) {
            let i = choose|i: int|
                0 <= i < a.len() && (#[trigger] grant_table(a[i])).scope_deny.contains(x);
            assert(grant_table(ab[i]).scope_deny.contains(x));
        }
        if table_of(b).scope_deny.contains(x) {
            let i = choose|i: int|
                0 <= i < b.len() && (#[trigger] grant_table(b[i])).scope_deny.contains(x);
            assert(grant_table(ab[a.len() + i]).scope_deny.contains(x));
        }
    }
    assert forall|x: (Seq<char>, Seq<char>)|
        t.global_allow.contains(x) <==> m.global_allow.contains(x) by {
        if t.global_allow.contains(x) {
            let i = choose|i: int|
                0 <= i < ab.len() && (#[trigger] grant_table(ab[i])).global_allow.contains(x);
            if i < a.len() {
                assert(grant_table(a[i]).global_allow.contains(x));
            } else {
                assert(grant_table(b[i - a.len()]).global_allow.contains(x));
            }
        }
        if table_of(a).global_allow.contains(x) {
            let i = choose|i: int|
                0 <= i < a.len() && (#[trigger] grant_table(a[i])).global_allow.contains(x);
            assert(grant_table(ab[i]).global_allow.contains(x));
        }
        if table_of(b).global_allow.contains(x) {
            let i = choose|i: int|
                0 <= i < b.len() && (#[trigger] grant_table(b[i])).global_allow.contains(x);
            assert(grant_table(ab[a.len() + i]).global_allow.contains(x));
        }
    }
    assert forall|x: (Seq<char>, Seq<char>)|
        t.global_deny.contains(x) <==> m.global_deny.contains(x) by {
        if t.global_deny.contains(x) {
            let i = choose|i: int|
                0 <= i < ab.len() && (#[trigger] grant_table(ab[i])).global_deny.contains(x);
            if i < a.len() {
                assert(grant_table(a[i]).global_deny.contains(x));
            } else {
                assert(grant_table(b[i - a.len()]).global_deny.contains(x));
            }
        }
        if table_of(a).global_deny.contains(x) {
            let i = choose|i: int|
                0 <= i < a.len() && (#[trigger] grant_table(a[i])).global_deny.contains(x);
            assert(grant_table(ab[i]).global_deny.contains(x));
        }
        if table_of(b).global_deny.contains(x) {
            let i = choose|i: int|
                0 <= i < b.len() && (#[trigger] grant_table(b[i])).global_deny.contains(x);
            assert(grant_table(ab[a.len() + i]).global_deny.contains(x));
        }
    }
    assert(t =~= m);
}

/// The table of one grant alone is the table of that grant.
pub proof fn lemma_table_of_one(g: GrantModel)
    ensures
        table_of(seq![g]) == grant_table(g),
{
    let s = seq![g];
    assert(s[0] == g);
    assert(table_of(s) =~= grant_table(g));
}

/// Whether the table lets `command` be called: something allows it and
/// nothing denies it.
pub open spec fn permits(t: TableModel, command: Seq<char>) -> bool {
    t.allow.contains(command) && !t.deny.contains(command)
}

/// The scope values withheld from `command`: those denied with the command,
/// and those denied for the whole of a namespace that grants it.
pub open spec fn scope_denied(t: TableModel, command: Seq<char>) -> Set<Seq<char>> {
    Set::new(
        |e: Seq<char>|
            t.scope_deny.contains((command, e)) || exists|ns: Seq<char>|
                #[trigger] t.granted_by.contains((command, ns)) && t.global_deny.contains(
                    (ns, e),
                ),
    )
}

/// The scope values given to `command`: those allowed with the command, and
/// those allowed for the whole of a namespace that grants it, but none that
/// is withheld.
pub open spec fn scope_allowed(t: TableModel, command: Seq<char>) -> Set<Seq<char>> {
    Set::new(
        |e: Seq<char>|
            (t.scope_allow.contains((command, e)) || exists|ns: Seq<char>|
                #[trigger] t.granted_by.contains((command, ns)) && t.global_allow.contains(
                    (ns, e),
                )) && !scope_denied(t, command).contains(e),
    )
}

/// The scope that goes with an allowed command.
#[derive(Clone, Debug, PartialEq, Eq)]
pub struct ResolvedScope {
    /// The scope values given, none of which is withheld.
    pub allow: NameSet,
    /// The scope values withheld.
    pub deny: NameSet,
}

/// The table of a collection of grants.
#[derive(Clone, Debug, PartialEq, Eq)]
pub struct Table {
    allow: NameSet,
    deny: NameSet,
    granted_by: Relation,
    scope_allow: Relation,
    scope_deny: Relation,
    global_allow: Relation,
    global_deny: Relation,
}

impl View for Table {
    type V = TableModel;

    closed spec fn view(&self) -> TableModel {
        TableModel {
            allow: self.allow@,
            deny: self.deny@,
            granted_by: self.granted_by@,
            scope_allow: self.scope_allow@,
            scope_deny: self.scope_deny@,
            global_allow: self.global_allow@,
            global_deny: self.global_deny@,
        }
    }
}

impl Table {
    /// Every part is in order.
    pub closed spec fn wf(&self) -> bool {
        &&& self.allow.wf()
        &&& self.deny.wf()
        &&& self.granted_by.wf()
        &&& self.scope_allow.wf()
        &&& self.scope_deny.wf()
        &&& self.global_allow.wf()
        &&& self.global_deny.wf()
    }

    /// The table of no grant at all.
    pub fn new() -> (t: Table)
        ensures
            t.wf(),
            t@ == empty_table(),
    {
        let t = Table {
            allow: NameSet::new(),
            deny: NameSet::new(),
            granted_by: Relation::new(),
            scope_allow: Relation::new(),
            scope_deny: Relation::new(),
            global_allow: Relation::new(),
            global_deny: Relation::new(),
        };
        assert(t@ =~= empty_table());
        t
    }

    /// Adds a grant of `permission`, declared by `namespace`.
    pub fn add(&mut self, namespace: &str, permission: &Permission)
        requires
            old(self).wf(),
        ensures
            final(self).wf(),
            final(self)@ == merge(
                old(self)@,
                grant_table(GrantModel { namespace: namespace@, permission: permission@ }),
            ),
    {
        let ghost g = GrantModel { namespace: namespace@, permission: permission@ };
        let allowed = name_set_of(&permission.commands.allow);
        let denied = name_set_of(&permission.commands.deny);
        let given = name_set_of(&permission.scope.allow);
        let withheld = name_set_of(&permission.scope.deny);
        proof {
            assert(allowed@ =~= permission@.allow);
            assert(denied@ =~= permission@.deny);
            assert(given@ =~= permission@.scope_allow);
            assert(withheld@ =~= permission@.scope_deny);
        }
        self.allow.absorb(&allowed);
        self.deny.absorb(&denied);
        let ghost allow1 = self.allow;
        let ghost deny1 = self.deny;
        let mut i: usize = 0;
        while i < allowed.len()
            invariant
                self.wf(),
                allowed.wf(),
                given.wf(),
                withheld.wf(),
                i <= allowed.names().len(),
                self.allow == allow1,
                self.deny == deny1,
                self.global_allow == old(self).global_allow,
                self.global_deny == old(self).global_deny,
                forall|x: (Seq<char>, Seq<char>)|
                    self.granted_by@.contains(x) <==> (old(self).granted_by@.contains(x) || (x.1
                        == namespace@ && exists|j: int|
                        0 <= j < i && #[trigger] allowed.names()[j] == x.0)),
                forall|x: (Seq<char>, Seq<char>)|
                    self.scope_allow@.contains(x) <==> (old(self).scope_allow@.contains(x) || (
                    given@.contains(x.1) && exists|j: int|
                        0 <= j < i && #[trigger] allowed.names()[j] == x.0)),
                forall|x: (Seq<char>, Seq<char>)|
                    self.scope_deny@.contains(x) <==> (old(self).scope_deny@.contains(x) || (
                    withheld@.contains(x.1) && exists|j: int|
                        0 <= j < i && #[trigger] allowed.names()[j] == x.0)),
            decreases allowed.names().len() - i,
        {
            let command = allowed.name_at(i);
            self.granted_by.insert(command.as_str(), namespace);
            self.scope_allow.insert_all(command.as_str(), &given);
            self.scope_deny.insert_all(command.as_str(), &withheld);
            i += 1;
        }
        if permission.is_global() {
            self.global_allow.insert_all(namespace, &given);
            self.global_deny.insert_all(namespace, &withheld);
        }
        proof {
            let t = merge(old(self)@, grant_table(g));
            assert(final(self).allow == allow1);
            assert(final(self).deny == deny1);
            assert(final(self)@.allow =~= t.allow);
            assert(final(self)@.deny =~= t.deny);
            assert forall|x: (Seq<char>, Seq<char>)|
                final(self)@.granted_by.contains(x) <==> t.granted_by.contains(x) by {
                if permission@.allow.contains(x.0) {
                    let j = choose|j: int|
                        0 <= j < allowed.names().len() && allowed.names()[j] == x.0;
                }
            }
            assert forall|x: (Seq<char>, Seq<char>)|
                final(self)@.scope_allow.contains(x) <==> t.scope_allow.contains(x) by {
                if permission@.allow.contains(x.0) {
                    let j = choose|j: int|
                        0 <= j < allowed.names().len() && allowed.names()[j] == x.0;
                }
            }
            assert forall|x: (Seq<char>, Seq<char>)|
                final(self)@.scope_deny.contains(x) <==> t.scope_deny.contains(x) by {
                if permission@.allow.contains(x.0) {
                    let j = choose|j: int|
                        0 <= j < allowed.names().len() && allowed.names()[j] == x.0;
                }
            }
            assert(final(self)@.global_allow =~= t.global_allow);
            assert(final(self)@.global_deny =~= t.global_deny);
            assert(final(self)@ =~= t);
        }
    }

    /// Adds every grant of `other`.
    pub fn absorb(&mut self, other: &Table)
        requires
            old(self).wf(),
            other.wf(),
        ensures
            final(self).wf(),
            final(self)@ == merge(old(self)@, other@),
    {
        self.allow.absorb(&other.allow);
        self.deny.absorb(&other.deny);
        self.granted_by.absorb(&other.granted_by);
        self.scope_allow.absorb(&other.scope_allow);
        self.scope_deny.absorb(&other.scope_deny);
        self.global_allow.absorb(&other.global_allow);
        self.global_deny.absorb(&other.global_deny);
        assert(final(self)@ =~= merge(old(self)@, other@));
    }

    /// Whether some grant allows `command`.
    pub fn allows(&self, command: &str) -> (b: bool)
        requires
            self.wf(),
        ensures
            b == self@.allow.contains(command@),
    {
        self.allow.contains(command)
    }

    /// Whether some grant denies `command`.
    pub fn denies(&self, command: &str) -> (b: bool)
        requires
            self.wf(),
        ensures
            b == self@.deny.contains(command@),
    {
        self.deny.contains(command)
    }

    /// Whether the table lets `command` be called.
    pub fn permits(&self, command: &str) -> (b: bool)
        requires
            self.wf(),
        ensures
            b == permits(self@, command@),
    {
        self.allow.contains(command) && !self.deny.contains(command)
    }

    /// The commands that some grant allows.
    pub fn allowed_commands(&self) -> (s: &NameSet)
        requires
            self.wf(),
        ensures
            s.wf(),
            s@ == self@.allow,
    {
        &self.allow
    }

    /// The commands that some grant denies.
    pub fn denied_commands(&self) -> (s: &NameSet)
        requires
            self.wf(),
        ensures
            s.wf(),
            s@ == self@.deny,
    {
        &self.deny
    }

    /// The scope that goes with `command`.
    pub fn scope_for(&self, command: &str) -> (scope: ResolvedScope)
        requires
            self.wf(),
        ensures
            scope.allow.wf(),
            scope.deny.wf(),
            scope.allow@ == scope_allowed(self@, command@),
            scope.deny@ == scope_denied(self@, command@),
    {
        let mut allow = NameSet::new();
        let mut deny = NameSet::new();
        if let Some(s) = self.scope_allow.image(command) {
            allow.absorb(s);
        }
        if let Some(s) = self.scope_deny.image(command) {
            deny.absorb(s);
        }
        let ghost allow0 = allow@;
        let ghost deny0 = deny@;
        let ghost ga = self.global_allow@;
        let ghost gd = self.global_deny@;
        proof {
            assert forall|e: Seq<char>| allow0.contains(e) <==> self@.scope_allow.contains(
                (command@, e),
            ) by {}
            assert forall|e: Seq<char>| deny0.contains(e) <==> self@.scope_deny.contains(
                (command@, e),
            ) by {}
        }
        if let Some(namespaces) = self.granted_by.image(command) {
            let ghost names = namespaces.names();
            let mut i: usize = 0;
            while i < namespaces.len()
                invariant
                    self.wf(),
                    namespaces.wf(),
                    allow.wf(),
                    deny.wf(),
                    ga == self.global_allow@,
                    gd == self.global_deny@,
                    names == namespaces.names(),
                    i <= names.len(),
                    forall|e: Seq<char>|
                        #![trigger allow@.contains(e)]
                        #![trigger reached(ga, names, i as int, e)]
                        allow@.contains(e) <==> (allow0.contains(e) || reached(
                            ga,
                            names,
                            i as int,
                            e,
                        )),
                    forall|e: Seq<char>|
                        #![trigger deny@.contains(e)]
                        #![trigger reached(gd, names, i as int, e)]
                        deny@.contains(e) <==> (deny0.contains(e) || reached(
                            gd,
                            names,
                            i as int,
                            e,
                        )),
                decreases names.len() - i,
            {
                let ns = namespaces.name_at(i);
                let ghost allow_before = allow@;
                let ghost deny_before = deny@;
                if let Some(s) = self.global_allow.image(ns.as_str()) {
                    allow.absorb(s);
                }
                if let Some(s) = self.global_deny.image(ns.as_str()) {
                    deny.absorb(s);
                }
                proof {
                    let here = names[i as int];
                    assert forall|e: Seq<char>|
                        #![trigger allow@.contains(e)]
                        #![trigger reached(ga, names, i + 1, e)]
                        allow@.contains(e) <==> (allow0.contains(e) || reached(
                            ga,
                            names,
                            i + 1,
                            e,
                        )) by {
                        assert(allow@.contains(e) <==> (allow_before.contains(e) || ga.contains(
                            (here, e),
                        )));
                        assert(allow_before.contains(e) <==> (allow0.contains(e) || reached(
                            ga,
                            names,
                            i as int,
                            e,
                        )));
                        lemma_reached_step(ga, names, i as int, e);
                    }
                    assert forall|e: Seq<char>|
                        #![trigger deny@.contains(e)]
                        #![trigger reached(gd, names, i + 1, e)]
                        deny@.contains(e) <==> (deny0.contains(e) || reached(
                            gd,
                            names,
                            i + 1,
                            e,
                        )) by {
                        assert(deny@.contains(e) <==> (deny_before.contains(e) || gd.contains(
                            (here, e),
                        )));
                        assert(deny_before.contains(e) <==> (deny0.contains(e) || reached(
                            gd,
                            names,
                            i as int,
                            e,
                        )));
                        lemma_reached_step(gd, names, i as int, e);
                    }
                }
                i += 1;
            }
            proof {
                assert forall|e: Seq<char>| deny@.contains(e) <==> scope_denied(
                    self@,
                    command@,
                ).contains(e) by {
                    assert(deny@.contains(e) <==> (deny0.contains(e) || reached(
                        gd,
                        names,
                        names.len() as int,
                        e,
                    )));
                    if reached(gd, names, names.len() as int, e) {
                        let j = choose|j: int|
                            0 <= j < names.len() && gd.contains((#[trigger] names[j], e));
                        assert(namespaces@.contains(names[j]));
                        assert(self@.granted_by.contains((command@, names[j])));
                    }
                    if scope_denied(self@, command@).contains(e) && !self@.scope_deny.contains(
                        (command@, e),
                    ) {
                        let ns = choose|ns: Seq<char>|
                            #[trigger] self@.granted_by.contains((command@, ns))
                                && self@.global_deny.contains((ns, e));
                        assert(namespaces@.contains(ns));
                        let j = choose|j: int| 0 <= j < names.len() && names[j] == ns;
                        assert(gd.contains((names[j], e)));
                    }
                }
                assert forall|e: Seq<char>|
                    (allow@.contains(e) && !deny@.contains(e)) <==> scope_allowed(
                        self@,
                        command@,
                    ).contains(e) by {
                    assert(allow@.contains(e) <==> (allow0.contains(e) || reached(
                        ga,
                        names,
                        names.len() as int,
                        e,
                    )));
                    if reached(ga, names, names.len() as int, e) {
                        let j = choose|j: int|
                            0 <= j < names.len() && ga.contains((#[trigger] names[j], e));
                        assert(namespaces@.contains(names[j]));
                        assert(self@.granted_by.contains((command@, names[j])));
                    }
                    if scope_allowed(self@, command@).contains(e) && !self@.scope_allow.contains(
                        (command@, e),
                    ) {
                        let ns = choose|ns: Seq<char>|
                            #[trigger] self@.granted_by.contains((command@, ns))
                                && self@.global_allow.contains((ns, e));
                        assert(namespaces@.contains(ns));
                        let j = choose|j: int| 0 <= j < names.len() && names[j] == ns;
                        assert(ga.contains((names[j], e)));
                    }
                }
            }
        } else {
            proof {
                assert(deny@ =~= scope_denied(self@, command@));
                assert forall|e: Seq<char>|
                    (allow@.contains(e) && !deny@.contains(e)) <==> scope_allowed(
                        self@,
                        command@,
                    ).contains(e) by {}
            }
        }
        proof {
            assert(deny@ =~= scope_denied(self@, command@));
        }
        allow.subtract(&deny);
        proof {
            assert(allow@ =~= scope_allowed(self@, command@));
        }
        ResolvedScope { allow, deny }
    }
}

/// Whether one of the first `i` texts of `names` stands in `rel` to `e`.
pub open spec fn reached(
    rel: Set<(Seq<char>, Seq<char>)>,
    names: Seq<Seq<char>>,
    i: int,
    e: Seq<char>,
) -> bool {
    exists|j: int| 0 <= j < i && rel.contains((#[trigger] names[j], e))
}

/// One more text reaches what the texts before reach and what it stands to.
pub proof fn lemma_reached_step(
    rel: Set<(Seq<char>, Seq<char>)>,
    names: Seq<Seq<char>>,
    i: int,
    e: Seq<char>,
)
    requires
        0 <= i < names.len(),
    ensures
        reached(rel, names, i + 1, e) <==> (reached(rel, names, i, e) || rel.contains(
            (names[i], e),
        )),
{
    if reached(rel, names, i, e) {
        let j = choose|j: int| 0 <= j < i && rel.contains((#[trigger] names[j], e));
        assert(0 <= j < i + 1);
    }
    if rel.contains((names[i], e)) {
        assert(0 <= i < i + 1 && rel.contains((names[i], e)));
    }
}

/// What a table holds, place by place.
pub ghost struct TableContent {
    pub allow: Seq<Seq<char>>,
    pub deny: Seq<Seq<char>>,
    pub granted_by: (Seq<Seq<char>>, Seq<Seq<Seq<char>>>),
    pub scope_allow: (Seq<Seq<char>>, Seq<Seq<Seq<char>>>),
    pub scope_deny: (Seq<Seq<char>>, Seq<Seq<Seq<char>>>),
    pub global_allow: (Seq<Seq<char>>, Seq<Seq<Seq<char>>>),
    pub global_deny: (Seq<Seq<char>>, Seq<Seq<Seq<char>>>),
}

impl Table {
    /// What the table holds, place by place.
    pub closed spec fn content(&self) -> TableContent {
        TableContent {
            allow: self.allow.names(),
            deny: self.deny.names(),
            granted_by: (self.granted_by.firsts(), self.granted_by.seconds()),
            scope_allow: (self.scope_allow.firsts(), self.scope_allow.seconds()),
            scope_deny: (self.scope_deny.firsts(), self.scope_deny.seconds()),
            global_allow: (self.global_allow.firsts(), self.global_allow.seconds()),
            global_deny: (self.global_deny.firsts(), self.global_deny.seconds()),
        }
    }
}

/// Two tables in order that come to the same hold the same, place by place.
pub proof fn lemma_same_table(a: Table, b: Table)
    requires
        a.wf(),
        b.wf(),
        a@ == b@,
    ensures
        a.content() == b.content(),
{
    lemma_same_names(a.allow, b.allow);
    lemma_same_names(a.deny, b.deny);
    lemma_same_pairs(a.granted_by, b.granted_by);
    lemma_same_pairs(a.scope_allow, b.scope_allow);
    lemma_same_pairs(a.scope_deny, b.scope_deny);
    lemma_same_pairs(a.global_allow, b.global_allow);
    lemma_same_pairs(a.global_deny, b.global_deny);
}

} // verus!
