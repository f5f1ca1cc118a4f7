//! What holds of every registry, every list of capabilities and every call.

use crate::capability::CapabilityModel;
use crate::effective::{
    allowed, capability_records, compile, compile_all, contributes, effective_table,
    expansion_records, grant_records, lemma_effective_same_members, CompiledModel, OriginModel,
};
use crate::error::joined_with;
use crate::expand::{budget, expand, expand_all, expansion, Failure};
use crate::identifier::default_name;
use crate::manifest::{ManifestModel, PermissionModel};
use crate::platform::Target;
use crate::registry::RegistryModel;
use crate::table::{lemma_table_of_concat, table_of, GrantModel};
use crate::text::has_substring;
use crate::validate::{all_valid, fails_at, grant_expansion};
use vstd::prelude::*;

verus! {

/// Whether `cm` is what some capability of `caps` that holds on `platform`
/// compiles to.
pub open spec fn compiled_from(
    reg: RegistryModel,
    caps: Seq<CapabilityModel>,
    platform: Target,
    cm: CompiledModel,
) -> bool {
    exists|i: int|
        0 <= i < caps.len() && (#[trigger] caps[i]).platforms.contains(platform) && cm == compile(
            reg,
            caps[i],
            platform,
        )
}

/// The compiled capabilities are those of the capabilities that hold on the
/// platform, and no others.
pub proof fn lemma_compile_all_members(
    reg: RegistryModel,
    caps: Seq<CapabilityModel>,
    platform: Target,
)
    ensures
        forall|cm: CompiledModel| #[trigger]
            compile_all(reg, caps, platform).contains(cm) <==> compiled_from(
                reg,
                caps,
                platform,
                cm,
            ),
    decreases caps.len(),
{
    let all = compile_all(reg, caps, platform);
    if caps.len() == 0 {
        assert forall|cm: CompiledModel| #[trigger] all.contains(cm) <==> compiled_from(
            reg,
            caps,
            platform,
            cm,
        ) by {}
    } else {
        let init = caps.drop_last();
        let rest = compile_all(reg, init, platform);
        lemma_compile_all_members(reg, init, platform);
        assert forall|cm: CompiledModel| #[trigger] all.contains(cm) <==> compiled_from(
            reg,
            caps,
            platform,
            cm,
        ) by {
            if all.contains(cm) {
                let k = choose|k: int| 0 <= k < all.len() && all[k] == cm;
                if k < rest.len() {
                    assert(rest[k] == cm);
                    assert(rest.contains(cm));
                    assert(compiled_from(reg, init, platform, cm));
                    let i = choose|i: int|
                        0 <= i < init.len() && (#[trigger] init[i]).platforms.contains(platform)
                            && cm == compile(reg, init[i], platform);
                    assert(caps[i] == init[i]);
                } else {
                    assert(caps[caps.len() - 1] == caps.last());
                }
            }
            if compiled_from(reg, caps, platform, cm) {
                let i = choose|i: int|
                    0 <= i < caps.len() && (#[trigger] caps[i]).platforms.contains(platform) && cm
                        == compile(reg, caps[i], platform);
                if i < init.len() {
                    assert(init[i] == caps[i]);
                    assert(compiled_from(reg, init, platform, cm));
                    assert(rest.contains(cm));
                    let k = choose|k: int| 0 <= k < rest.len() && rest[k] == cm;
                    assert(all[k] == cm);
                } else {
                    assert(all[all.len() - 1] == cm);
                }
            }
        }
    }
}

/// Deny wins: where a capability that has a say on a window and an origin
/// denies a command, the command is not allowed there, whatever any other
/// capability allows.
pub proof fn law_deny_precedence(
    compiled: Seq<CompiledModel>,
    i: int,
    window: Seq<char>,
    origin: OriginModel,
    command: Seq<char>,
)
    requires
        0 <= i < compiled.len(),
        contributes(compiled[i], window, origin),
        compiled[i].table.deny.contains(command),
    ensures
        !allowed(compiled, window, origin, command),
{
    assert(effective_table(compiled, window, origin).deny.contains(command));
}

/// The order of the capabilities does not matter: two lists that hold the
/// same capabilities, such as a list and any rearrangement of it, come to
/// the same table for every window and origin, and so allow the same
/// commands with the same scopes.
pub proof fn law_order_independent(
    reg: RegistryModel,
    first: Seq<CapabilityModel>,
    second: Seq<CapabilityModel>,
    platform: Target,
    window: Seq<char>,
    origin: OriginModel,
)
    requires
        forall|c: CapabilityModel| first.contains(c) <==> second.contains(c),
    ensures
        effective_table(compile_all(reg, first, platform), window, origin) == effective_table(
            compile_all(reg, second, platform),
            window,
            origin,
        ),
        forall|command: Seq<char>|
            allowed(compile_all(reg, first, platform), window, origin, command) == allowed(
                compile_all(reg, second, platform),
                window,
                origin,
                command,
            ),
{
    let a = compile_all(reg, first, platform);
    let b = compile_all(reg, second, platform);
    lemma_compile_all_members(reg, first, platform);
    lemma_compile_all_members(reg, second, platform);
    assert forall|cm: CompiledModel| a.contains(cm) <==> b.contains(cm) by {
        if compiled_from(reg, first, platform, cm) {
            let i = choose|i: int|
                0 <= i < first.len() && (#[trigger] first[i]).platforms.contains(platform) && cm
                    == compile(reg, first[i], platform);
            assert(first.contains(first[i]));
            let j = choose|j: int| 0 <= j < second.len() && second[j] == first[i];
            assert(second[j].platforms.contains(platform));
            assert(compiled_from(reg, second, platform, cm));
        }
        if compiled_from(reg, second, platform, cm) {
            let i = choose|i: int|
                0 <= i < second.len() && (#[trigger] second[i]).platforms.contains(platform) && cm
                    == compile(reg, second[i], platform);
            assert(second.contains(second[i]));
            let j = choose|j: int| 0 <= j < first.len() && first[j] == second[i];
            assert(first[j].platforms.contains(platform));
            assert(compiled_from(reg, first, platform, cm));
        }
    }
    lemma_effective_same_members(a, b, window, origin);
}

/// Whether a list of capabilities is valid does not depend on their order:
/// two lists that hold the same capabilities are valid together or not at
/// all.
pub proof fn law_validity_order_independent(
    reg: RegistryModel,
    first: Seq<CapabilityModel>,
    second: Seq<CapabilityModel>,
    platform: Target,
)
    requires
        forall|c: CapabilityModel| first.contains(c) <==> second.contains(c),
    ensures
        all_valid(reg, first, platform) == all_valid(reg, second, platform),
{
    if !all_valid(reg, first, platform) {
        let (c, g) = choose|c: int, g: int| fails_at(reg, first, platform, c, g);
        assert(first.contains(first[c]));
        let j = choose|j: int| 0 <= j < second.len() && second[j] == first[c];
        assert(fails_at(reg, second, platform, j, g));
    }
    if !all_valid(reg, second, platform) {
        let (c, g) = choose|c: int, g: int| fails_at(reg, second, platform, c, g);
        assert(second.contains(second[c]));
        let j = choose|j: int| 0 <= j < first.len() && first[j] == second[c];
        assert(fails_at(reg, first, platform, j, g));
    }
}

/// A rearrangement of a list of capabilities is valid exactly when the
/// list is, and allows what the list allows.
pub proof fn law_permutation_invariant(
    reg: RegistryModel,
    first: Seq<CapabilityModel>,
    second: Seq<CapabilityModel>,
    platform: Target,
    window: Seq<char>,
    origin: OriginModel,
    command: Seq<char>,
)
    requires
        first.to_multiset() == second.to_multiset(),
    ensures
        all_valid(reg, first, platform) == all_valid(reg, second, platform),
        allowed(compile_all(reg, first, platform), window, origin, command) == allowed(
            compile_all(reg, second, platform),
            window,
            origin,
            command,
        ),
{
    first.to_multiset_ensures();
    second.to_multiset_ensures();
    assert forall|c: CapabilityModel| first.contains(c) <==> second.contains(c) by {
        assert(first.contains(c) <==> first.to_multiset().count(c) > 0);
        assert(second.contains(c) <==> second.to_multiset().count(c) > 0);
    }
    law_order_independent(reg, first, second, platform, window, origin);
    law_validity_order_independent(reg, first, second, platform);
}

/// Compiling two lists one after the other compiles their concatenation.
pub proof fn lemma_compile_all_concat(
    reg: RegistryModel,
    a: Seq<CapabilityModel>,
    b: Seq<CapabilityModel>,
    platform: Target,
)
    ensures
        compile_all(reg, a + b, platform) == compile_all(reg, a, platform) + compile_all(
            reg,
            b,
            platform,
        ),
    decreases b.len(),
{
    if b.len() == 0 {
        assert(a + b =~= a);
        assert(compile_all(reg, a, platform) + compile_all(reg, b, platform) =~= compile_all(
            reg,
            a,
            platform,
        ));
    } else {
        lemma_compile_all_concat(reg, a, b.drop_last(), platform);
        assert((a + b).drop_last() =~= a + b.drop_last());
        assert((a + b).last() == b.last());
        let ca = compile_all(reg, a, platform);
        let cb = compile_all(reg, b.drop_last(), platform);
        if b.last().platforms.contains(platform) {
            assert((ca + cb).push(compile(reg, b.last(), platform)) =~= ca + cb.push(
                compile(reg, b.last(), platform),
            ));
        }
    }
}

/// A capability that does not hold on the platform contributes nothing:
/// with it, at any place of the list, everything is as without it.
pub proof fn law_platform_filter(
    reg: RegistryModel,
    caps: Seq<CapabilityModel>,
    at: int,
    extra: CapabilityModel,
    platform: Target,
)
    requires
        0 <= at <= caps.len(),
        !extra.platforms.contains(platform),
    ensures
        compile_all(reg, caps.insert(at, extra), platform) == compile_all(reg, caps, platform),
{
    let head = caps.take(at);
    let tail = caps.skip(at);
    let one = seq![extra];
    assert(caps.insert(at, extra) =~= (head + one) + tail);
    assert(caps =~= head + tail);
    lemma_compile_all_concat(reg, head + one, tail, platform);
    lemma_compile_all_concat(reg, head, one, platform);
    lemma_compile_all_concat(reg, head, tail, platform);
    assert(one.drop_last() =~= Seq::<CapabilityModel>::empty());
    assert(one.last() == extra);
    assert(compile_all(reg, Seq::<CapabilityModel>::empty(), platform)
        =~= Seq::<CompiledModel>::empty());
    assert(compile_all(reg, one, platform) =~= Seq::<CompiledModel>::empty());
    assert(compile_all(reg, head, platform) + Seq::<CompiledModel>::empty() =~= compile_all(
        reg,
        head,
        platform,
    ));
}

/// An expansion that succeeds below some sets succeeds, with the same
/// result, below fewer of them.
pub proof fn lemma_expand_below_fewer(
    m: ManifestModel,
    name: Seq<char>,
    path: Seq<Seq<char>>,
    fewer: Seq<Seq<char>>,
)
    requires
        expand(m, name, path) is Ok,
        fewer.len() <= path.len(),
        forall|x: Seq<char>| fewer.contains(x) ==> path.contains(x),
    ensures
        expand(m, name, fewer) == expand(m, name, path),
    decreases budget(m, path), 0nat, 0nat,
{
    if name == default_name() {
    } else if m.permissions.contains_key(name) {
    } else if m.sets.contains_key(name) {
        let longer = path.push(name);
        let shorter = fewer.push(name);
        assert forall|x: Seq<char>| shorter.contains(x) implies longer.contains(x) by {
            let k = choose|k: int| 0 <= k < shorter.len() && shorter[k] == x;
            if k < fewer.len() {
                assert(fewer[k] == x);
                assert(fewer.contains(x));
                let q = choose|q: int| 0 <= q < path.len() && path[q] == x;
                assert(longer[q] == x);
            } else {
                assert(longer[path.len() as int] == name);
            }
        }
        lemma_expand_all_below_fewer(m, m.sets[name], longer, shorter);
    }
}

/// The same for a sequence of names.
pub proof fn lemma_expand_all_below_fewer(
    m: ManifestModel,
    names: Seq<Seq<char>>,
    path: Seq<Seq<char>>,
    fewer: Seq<Seq<char>>,
)
    requires
        expand_all(m, names, path) is Ok,
        fewer.len() <= path.len(),
        forall|x: Seq<char>| fewer.contains(x) ==> path.contains(x),
    ensures
        expand_all(m, names, fewer) == expand_all(m, names, path),
    decreases budget(m, path), 1nat, names.len(),
{
    if names.len() > 0 {
        lemma_expand_below_fewer(m, names[0], path, fewer);
        lemma_expand_all_below_fewer(m, names.drop_first(), path, fewer);
    }
}

/// Granting a permission set is granting each of its members, in their
/// order: the set expands to what its members expand to when they are
/// named on their own, one after the other.
pub proof fn law_set_expansion(m: ManifestModel, set: Seq<char>)
    requires
        set != default_name(),
        !m.permissions.contains_key(set),
        m.sets.contains_key(set),
        expansion(m, set) is Ok,
    ensures
        expansion(m, set) == expand_all(m, m.sets[set], Seq::<Seq<char>>::empty()),
{
    let empty = Seq::<Seq<char>>::empty();
    let below = empty.push(set);
    assert(expand(m, set, empty) == expand_all(m, m.sets[set], below));
    assert forall|x: Seq<char>| empty.contains(x) implies below.contains(x) by {}
    lemma_expand_all_below_fewer(m, m.sets[set], below, empty);
}

/// The grants that permissions make, one list after another, are the grants
/// of the lists put together.
pub proof fn lemma_records_concat(
    ns: Seq<char>,
    a: Seq<PermissionModel>,
    b: Seq<PermissionModel>,
    platform: Target,
)
    ensures
        expansion_records(ns, a + b, platform) == expansion_records(ns, a, platform)
            + expansion_records(ns, b, platform),
    decreases b.len(),
{
    if b.len() == 0 {
        assert(a + b =~= a);
        assert(expansion_records(ns, a, platform) + Seq::<GrantModel>::empty()
            =~= expansion_records(ns, a, platform));
    } else {
        lemma_records_concat(ns, a, b.drop_last(), platform);
        assert((a + b).drop_last() =~= a + b.drop_last());
        assert((a + b).last() == b.last());
        let ra = expansion_records(ns, a, platform);
        let rb = expansion_records(ns, b.drop_last(), platform);
        if b.last().applies_on(platform) {
            let g = GrantModel { namespace: ns, permission: b.last() };
            assert((ra + rb).push(g) =~= ra + rb.push(g));
        }
    }
}

/// Whether one of the names, named on its own in `m`, allows `command` on
/// `platform`.
pub open spec fn some_member_allows(
    m: ManifestModel,
    ns: Seq<char>,
    names: Seq<Seq<char>>,
    platform: Target,
    command: Seq<char>,
) -> bool {
    exists|i: int|
        0 <= i < names.len() && expansion(m, #[trigger] names[i]) is Ok && table_of(
            expansion_records(ns, expansion(m, names[i])->Ok_0, platform),
        ).allow.contains(command)
}

/// What a sequence of names allows is what its names allow one by one.
pub proof fn lemma_names_allow(
    m: ManifestModel,
    ns: Seq<char>,
    names: Seq<Seq<char>>,
    platform: Target,
    command: Seq<char>,
)
    requires
        expand_all(m, names, Seq::<Seq<char>>::empty()) is Ok,
    ensures
        table_of(
            expansion_records(
                ns,
                expand_all(m, names, Seq::<Seq<char>>::empty())->Ok_0,
                platform,
            ),
        ).allow.contains(command) <==> some_member_allows(m, ns, names, platform, command),
        forall|i: int| 0 <= i < names.len() ==> expansion(m, #[trigger] names[i]) is Ok,
    decreases names.len(),
{
    let empty = Seq::<Seq<char>>::empty();
    if names.len() == 0 {
        assert(expansion_records(ns, Seq::<PermissionModel>::empty(), platform)
            =~= Seq::<GrantModel>::empty());
    } else {
        let first = expand(m, names[0], empty)->Ok_0;
        let rest_names = names.drop_first();
        let rest = expand_all(m, rest_names, empty)->Ok_0;
        lemma_names_allow(m, ns, rest_names, platform, command);
        lemma_records_concat(ns, first, rest, platform);
        lemma_table_of_concat(
            expansion_records(ns, first, platform),
            expansion_records(ns, rest, platform),
        );
        assert forall|i: int| 0 <= i < names.len() implies expansion(m, #[trigger] names[i]) is Ok by {
            if i > 0 {
                assert(rest_names[i - 1] == names[i]);
            }
        }
        if some_member_allows(m, ns, rest_names, platform, command) {
            let i = choose|i: int|
                0 <= i < rest_names.len() && expansion(m, #[trigger] rest_names[i]) is Ok
                    && table_of(
                    expansion_records(ns, expansion(m, rest_names[i])->Ok_0, platform),
                ).allow.contains(command);
            assert(names[i + 1] == rest_names[i]);
            assert(some_member_allows(m, ns, names, platform, command));
        }
        if table_of(expansion_records(ns, first, platform)).allow.contains(command) {
            assert(expansion(m, names[0]) is Ok);
            assert(some_member_allows(m, ns, names, platform, command));
        }
        if some_member_allows(m, ns, names, platform, command) {
            let i = choose|i: int|
                0 <= i < names.len() && expansion(m, #[trigger] names[i]) is Ok && table_of(
                    expansion_records(ns, expansion(m, names[i])->Ok_0, platform),
                ).allow.contains(command);
            if i > 0 {
                assert(rest_names[i - 1] == names[i]);
                assert(some_member_allows(m, ns, rest_names, platform, command));
            }
        }
    }
}

/// A grant of a permission set lists as allowed exactly the commands that
/// the grants of its members, each named on its own, list as allowed;
/// sets within the set count through their own members. What any member
/// denies stays denied to the whole set.
pub proof fn law_set_allows_union(
    m: ManifestModel,
    ns: Seq<char>,
    set: Seq<char>,
    platform: Target,
    command: Seq<char>,
)
    requires
        set != default_name(),
        !m.permissions.contains_key(set),
        m.sets.contains_key(set),
        expansion(m, set) is Ok,
    ensures
        table_of(expansion_records(ns, expansion(m, set)->Ok_0, platform)).allow.contains(command)
            <==> some_member_allows(m, ns, m.sets[set], platform, command),
        forall|i: int|
            0 <= i < m.sets[set].len() ==> expansion(m, #[trigger] m.sets[set][i]) is Ok,
{
    law_set_expansion(m, set);
    lemma_names_allow(m, ns, m.sets[set], platform, command);
}

/// The grants of a namespace that name the members of `names`, in order.
pub open spec fn member_grants(ns: Seq<char>, names: Seq<Seq<char>>) -> Seq<
    (Seq<char>, Seq<char>),
> {
    Seq::new(names.len(), |i: int| (ns, names[i]))
}

/// The grants that two lists of identifiers make, one list after the
/// other, are the grants of the lists put together.
pub proof fn lemma_capability_records_concat(
    reg: RegistryModel,
    a: Seq<(Seq<char>, Seq<char>)>,
    b: Seq<(Seq<char>, Seq<char>)>,
    platform: Target,
)
    ensures
        capability_records(reg, a + b, platform) == capability_records(reg, a, platform)
            + capability_records(reg, b, platform),
    decreases b.len(),
{
    if b.len() == 0 {
        assert(a + b =~= a);
        assert(capability_records(reg, a, platform) + Seq::<GrantModel>::empty()
            =~= capability_records(reg, a, platform));
    } else {
        lemma_capability_records_concat(reg, a, b.drop_last(), platform);
        assert((a + b).drop_last() =~= a + b.drop_last());
        assert((a + b).last() == b.last());
        assert(capability_records(reg, a + b, platform) =~= capability_records(reg, a, platform)
            + capability_records(reg, b, platform));
    }
}

/// A list of one identifier grants what the identifier grants.
pub proof fn lemma_single_grant_records(
    reg: RegistryModel,
    g: (Seq<char>, Seq<char>),
    platform: Target,
)
    ensures
        capability_records(reg, seq![g], platform) == grant_records(reg, g, platform),
{
    let one = seq![g];
    assert(one.drop_last() =~= Seq::<(Seq<char>, Seq<char>)>::empty());
    assert(one.last() == g);
    assert(capability_records(reg, one.drop_last(), platform) =~= Seq::<GrantModel>::empty());
    assert(capability_records(reg, one, platform) =~= Seq::<GrantModel>::empty() + grant_records(
        reg,
        g,
        platform,
    ));
    assert(Seq::<GrantModel>::empty() + grant_records(reg, g, platform) =~= grant_records(
        reg,
        g,
        platform,
    ));
}

/// What the members of a set grant when each is named on its own is what
/// their expansion, one after the other, grants.
pub proof fn lemma_member_records(
    reg: RegistryModel,
    ns: Seq<char>,
    names: Seq<Seq<char>>,
    platform: Target,
)
    requires
        reg.contains_key(ns),
        expand_all(reg[ns], names, Seq::<Seq<char>>::empty()) is Ok,
    ensures
        capability_records(reg, member_grants(ns, names), platform) == expansion_records(
            ns,
            expand_all(reg[ns], names, Seq::<Seq<char>>::empty())->Ok_0,
            platform,
        ),
    decreases names.len(),
{
    let m = reg[ns];
    let empty = Seq::<Seq<char>>::empty();
    if names.len() == 0 {
        assert(member_grants(ns, names) =~= Seq::<(Seq<char>, Seq<char>)>::empty());
        assert(expansion_records(ns, Seq::<PermissionModel>::empty(), platform)
            =~= Seq::<GrantModel>::empty());
    } else {
        let first = expand(m, names[0], empty)->Ok_0;
        let rest_names = names.drop_first();
        let rest = expand_all(m, rest_names, empty)->Ok_0;
        lemma_member_records(reg, ns, rest_names, platform);
        lemma_records_concat(ns, first, rest, platform);
        let head = seq![(ns, names[0])];
        assert(member_grants(ns, names) =~= head + member_grants(ns, rest_names));
        lemma_capability_records_concat(reg, head, member_grants(ns, rest_names), platform);
        lemma_single_grant_records(reg, (ns, names[0]), platform);
        assert(grant_expansion(reg, (ns, names[0])) == expand(m, names[0], empty));
        assert(capability_records(reg, head, platform) == expansion_records(ns, first, platform));
    }
}

/// Set expansion is complete: a capability that grants a permission set
/// comes to what it would come to if it granted the members of the set, one
/// by one, in its place. Both allow and deny the same commands under the
/// same scopes.
pub proof fn law_set_grant_is_member_grants(
    reg: RegistryModel,
    cap: CapabilityModel,
    ns: Seq<char>,
    set: Seq<char>,
    platform: Target,
)
    requires
        reg.contains_key(ns),
        set != default_name(),
        !reg[ns].permissions.contains_key(set),
        reg[ns].sets.contains_key(set),
        expansion(reg[ns], set) is Ok,
        cap.grants == seq![(ns, set)],
    ensures
        compile(reg, cap, platform) == compile(
            reg,
            CapabilityModel { grants: member_grants(ns, reg[ns].sets[set]), ..cap },
            platform,
        ),
{
    let m = reg[ns];
    law_set_expansion(m, set);
    lemma_member_records(reg, ns, m.sets[set], platform);
    lemma_single_grant_records(reg, (ns, set), platform);
    assert(grant_expansion(reg, (ns, set)) == expansion(m, set));
}

/// A list of texts joined with a separator holds each of the texts.
pub proof fn lemma_joined_holds(items: Seq<Seq<char>>, sep: Seq<char>, i: int)
    requires
        0 <= i < items.len(),
    ensures
        has_substring(joined_with(items, sep), items[i]),
    decreases items.len(),
{
    let all = joined_with(items, sep);
    if items.len() == 1 {
        assert(all.subrange(0, all.len() as int) =~= all);
        assert(crate::text::occurs_at(all, items[0], 0));
    } else {
        let init = joined_with(items.drop_last(), sep);
        if i == items.len() - 1 {
            let at: int = (init.len() + sep.len()) as int;
            assert(all.subrange(at, at + items[i].len()) =~= items[i]);
            assert(crate::text::occurs_at(all, items[i], at));
        } else {
            lemma_joined_holds(items.drop_last(), sep, i);
            assert(items.drop_last()[i] == items[i]);
            let at = choose|at: int| crate::text::occurs_at(init, items[i], at);
            assert(all.subrange(at, at + items[i].len()) =~= init.subrange(
                at,
                at + items[i].len(),
            ));
            assert(crate::text::occurs_at(all, items[i], at));
        }
    }
}

/// A text holds what a part of it holds.
pub proof fn lemma_substring_of_suffix(head: Seq<char>, tail: Seq<char>, pat: Seq<char>)
    requires
        has_substring(tail, pat),
    ensures
        has_substring(head + tail, pat),
{
    let at = choose|at: int| crate::text::occurs_at(tail, pat, at);
    let all = head + tail;
    assert(all.subrange(head.len() + at, head.len() + at + pat.len()) =~= tail.subrange(
        at,
        at + pat.len(),
    ));
    assert(crate::text::occurs_at(all, pat, head.len() + at));
}

/// The message for an unknown permission names every identifier that the
/// registry knows.
pub proof fn law_unknown_permission_message(
    reg: RegistryModel,
    e: crate::error::AclError,
    g: (Seq<char>, Seq<char>),
    valid: Seq<char>,
)
    requires
        crate::validate::reports(reg, e, g, Failure::Unknown),
        crate::registry::valid_identifiers(reg).contains(valid),
    ensures
        has_substring(e.message_text(), valid),
{
    match e {
        crate::error::AclError::UnknownPermission { identifier, available } => {
            let names = crate::names::names_of(available@);
            assert(names.contains(valid));
            let i = choose|i: int| 0 <= i < names.len() && names[i] == valid;
            lemma_joined_holds(names, ", "@, i);
            lemma_substring_of_suffix(
                "Permission "@ + identifier@ + " not found, expected one of "@,
                joined_with(names, ", "@),
                valid,
            );
        },
        _ => {},
    }
}

} // verus!
