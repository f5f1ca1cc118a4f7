//! What the capabilities come to for each window and each origin of content.

use crate::capability::{CapabilityModel, ContextModel};
use crate::glob::{any_glob_match, any_host_match};
use crate::manifest::PermissionModel;
use crate::platform::Target;
use crate::registry::RegistryModel;
use crate::table::{empty_table, merge, permits, table_of, GrantModel, TableModel};
use crate::validate::grant_expansion;
use vstd::prelude::*;

verus! {

/// Where the content that makes a call comes from.
pub ghost enum OriginModel {
    /// The application's own content.
    Local,
    /// Content loaded from the host `domain`.
    Remote { domain: Seq<char> },
}

/// The grants that the permissions `ps`, declared by `ns`, make on `platform`:
/// one for each permission that holds there, in order.
pub open spec fn expansion_records(ns: Seq<char>, ps: Seq<PermissionModel>, platform: Target) -> Seq<
    GrantModel,
>
    decreases ps.len(),
{
    if ps.len() == 0 {
        Seq::<GrantModel>::empty()
    } else {
        let rest = expansion_records(ns, ps.drop_last(), platform);
        if ps.last().applies_on(platform) {
            rest.push(GrantModel { namespace: ns, permission: ps.last() })
        } else {
            rest
        }
    }
}

/// The grants that one identifier makes on `platform`.
pub open spec fn grant_records(reg: RegistryModel, g: (Seq<char>, Seq<char>), platform: Target) -> Seq<
    GrantModel,
> {
    match grant_expansion(reg, g) {
        Ok(ps) => expansion_records(g.0, ps, platform),
        Err(_) => Seq::<GrantModel>::empty(),
    }
}

/// The grants that the identifiers of `grants` make on `platform`, one
/// identifier after the other.
pub open spec fn capability_records(
    reg: RegistryModel,
    grants: Seq<(Seq<char>, Seq<char>)>,
    platform: Target,
) -> Seq<GrantModel>
    decreases grants.len(),
{
    if grants.len() == 0 {
        Seq::<GrantModel>::empty()
    } else {
        capability_records(reg, grants.drop_last(), platform) + grant_records(
            reg,
            grants.last(),
            platform,
        )
    }
}

/// A capability with its permissions resolved.
pub ghost struct CompiledModel {
    pub windows: Seq<Seq<char>>,
    pub context: ContextModel,
    pub table: TableModel,
}

/// The capability `cap` with its permissions resolved for `platform`.
pub open spec fn compile(reg: RegistryModel, cap: CapabilityModel, platform: Target) -> CompiledModel {
    CompiledModel {
        windows: cap.windows,
        context: cap.context,
        table: table_of(capability_records(reg, cap.grants, platform)),
    }
}

/// The capabilities of `caps` that hold on `platform`, in order, each with
/// its permissions resolved. A capability that does not hold on `platform`
/// leaves no trace.
pub open spec fn compile_all(reg: RegistryModel, caps: Seq<CapabilityModel>, platform: Target) -> Seq<
    CompiledModel,
>
    decreases caps.len(),
{
    if caps.len() == 0 {
        Seq::<CompiledModel>::empty()
    } else {
        let rest = compile_all(reg, caps.drop_last(), platform);
        if caps.last().platforms.contains(platform) {
            rest.push(compile(reg, caps.last(), platform))
        } else {
            rest
        }
    }
}

/// Whether a capability in context `ctx` is for content from `origin`.
pub open spec fn context_admits(ctx: ContextModel, origin: OriginModel) -> bool {
    match ctx {
        ContextModel::Local => origin is Local,
        ContextModel::Remote { domains } => match origin {
            OriginModel::Local => false,
            OriginModel::Remote { domain } => any_host_match(domains, domain),
        },
    }
}

/// Whether the capability has a say on calls from `window` with content
/// from `origin`.
pub open spec fn contributes(c: CompiledModel, window: Seq<char>, origin: OriginModel) -> bool {
    any_glob_match(c.windows, window) && context_admits(c.context, origin)
}

/// What the capabilities that have a say come to together: each part holds
/// what the table of some such capability holds.
pub open spec fn effective_table(
    compiled: Seq<CompiledModel>,
    window: Seq<char>,
    origin: OriginModel,
) -> TableModel {
    TableModel {
        allow: Set::new(
            |c: Seq<char>|
                exists|i: int|
                    0 <= i < compiled.len() && contributes(
                        #[trigger] compiled[i],
                        window,
                        origin,
                    ) && compiled[i].table.allow.contains(c),
        ),
        deny: Set::new(
            |c: Seq<char>|
                exists|i: int|
                    0 <= i < compiled.len() && contributes(
                        #[trigger] compiled[i],
                        window,
                        origin,
                    ) && compiled[i].table.deny.contains(c),
        ),
        granted_by: Set::new(
            |x: (Seq<char>, Seq<char>)|
                exists|i: int|
                    0 <= i < compiled.len() && contributes(
                        #[trigger] compiled[i],
                        window,
                        origin,
                    ) && compiled[i].table.granted_by.contains(x),
        ),
        scope_allow: Set::new(
            |x: (Seq<char>, Seq<char>)|
                exists|i: int|
                    0 <= i < compiled.len() && contributes(
                        #[trigger] compiled[i],
                        window,
                        origin,
                    ) && compiled[i].table.scope_allow.contains(x),
        ),
        scope_deny: Set::new(
            |x: (Seq<char>, Seq<char>)|
                exists|i: int|
                    0 <= i < compiled.len() && contributes(
                        #[trigger] compiled[i],
                        window,
                        origin,
                    ) && compiled[i].table.scope_deny.contains(x),
        ),
        global_allow: Set::new(
            |x: (Seq<char>, Seq<char>)|
                exists|i: int|
                    0 <= i < compiled.len() && contributes(
                        #[trigger] compiled[i],
                        window,
                        origin,
                    ) && compiled[i].table.global_allow.contains(x),
        ),
        global_deny: Set::new(
            |x: (Seq<char>, Seq<char>)|
                exists|i: int|
                    0 <= i < compiled.len() && contributes(
                        #[trigger] compiled[i],
                        window,
                        origin,
                    ) && compiled[i].table.global_deny.contains(x),
        ),
    }
}

/// Whether `command` may be called from `window` with content from `origin`:
/// some capability that has a say allows it and none denies it.
pub open spec fn allowed(
    compiled: Seq<CompiledModel>,
    window: Seq<char>,
    origin: OriginModel,
    command: Seq<char>,
) -> bool {
    permits(effective_table(compiled, window, origin), command)
}

/// No capability, no table.
pub proof fn lemma_effective_empty(window: Seq<char>, origin: OriginModel)
    ensures
        effective_table(Seq::<CompiledModel>::empty(), window, origin) == empty_table(),
{
    assert(effective_table(Seq::<CompiledModel>::empty(), window, origin) =~= empty_table());
}

/// One more capability adds its table where it has a say, and nothing where
/// it has none.
pub proof fn lemma_effective_step(
    compiled: Seq<CompiledModel>,
    i: int,
    window: Seq<char>,
    origin: OriginModel,
)
    requires
        0 <= i < compiled.len(),
    ensures
        effective_table(compiled.take(i + 1), window, origin) == (if contributes(
            compiled[i],
            window,
            origin,
        ) {
            merge(effective_table(compiled.take(i), window, origin), compiled[i].table)
        } else {
            effective_table(compiled.take(i), window, origin)
        }),
{
    let less = compiled.take(i);
    let more = compiled.take(i + 1);
    let before = effective_table(less, window, origin);
    let next = effective_table(more, window, origin);
    let want = if contributes(compiled[i], window, origin) {
        merge(before, compiled[i].table)
    } else {
        before
    };
    assert(more[i] == compiled[i]);
    assert forall|c: Seq<char>| next.allow.contains(c) <==> want.allow.contains(c) by {
        if next.allow.contains(c) {
            let j = choose|j: int|
                0 <= j < more.len() && contributes(#[trigger] more[j], window, origin)
                    && more[j].table.allow.contains(c);
            if j < i {
                assert(less[j] == more[j]);
                assert(contributes(less[j], window, origin) && less[j].table.allow.contains(c));
            }
        }
        if before.allow.contains(c) {
            let j = choose|j: int|
                0 <= j < less.len() && contributes(#[trigger] less[j], window, origin)
                    && less[j].table.allow.contains(c);
            assert(more[j] == less[j]);
            assert(contributes(more[j], window, origin) && more[j].table.allow.contains(c));
        }
        if contributes(compiled[i], window, origin) && compiled[i].table.allow.contains(c) {
            assert(contributes(more[i], window, origin) && more[i].table.allow.contains(c));
        }
    }
    assert forall|c: Seq<char>| next.deny.contains(c) <==> want.deny.contains(c) by {
        if next.deny.contains(c) {
            let j = choose|j: int|
                0 <= j < more.len() && contributes(#[trigger] more[j], window, origin)
                    && more[j].table.deny.contains(c);
            if j < i {
                assert(less[j] == more[j]);
                assert(contributes(less[j], window, origin) && less[j].table.deny.contains(c));
            }
        }
        if before.deny.contains(c) {
            let j = choose|j: int|
                0 <= j < less.len() && contributes(#[trigger] less[j], window, origin)
                    && less[j].table.deny.contains(c);
            assert(more[j] == less[j]);
            assert(contributes(more[j], window, origin) && more[j].table.deny.contains(c));
        }
        if contributes(compiled[i], window, origin) && compiled[i].table.deny.contains(c) {
            assert(contributes(more[i], window, origin) && more[i].table.deny.contains(c));
        }
    }
    assert forall|x: (Seq<char>, Seq<char>)| next.granted_by.contains(x) <==> want.granted_by.contains(x) by {
        if next.granted_by.contains(x) {
            let j = choose|j: int|
                0 <= j < more.len() && contributes(#[trigger] more[j], window, origin)
                    && more[j].table.granted_by.contains(x);
            if j < i {
                assert(less[j] == more[j]);
                assert(contributes(less[j], window, origin) && less[j].table.granted_by.contains(x));
            }
        }
        if before.granted_by.contains(x) {
            let j = choose|j: int|
                0 <= j < less.len() && contributes(#[trigger] less[j], window, origin)
                    && less[j].table.granted_by.contains(x);
            assert(more[j] == less[j]);
            assert(contributes(more[j], window, origin) && more[j].table.granted_by.contains(x));
        }
        if contributes(compiled[i], window, origin) && compiled[i].table.granted_by.contains(x) {
            assert(contributes(more[i], window, origin) && more[i].table.granted_by.contains(x));
        }
    }
    assert forall|x: (Seq<char>, Seq<char>)| next.scope_allow.contains(x) <==> want.scope_allow.contains(x) by {
        if next.scope_allow.contains(x) {
            let j = choose|j: int|
                0 <= j < more.len() && contributes(#[trigger] more[j], window, origin)
                    && more[j].table.scope_allow.contains(x);
            if j < i {
                assert(less[j] == more[j]);
                assert(contributes(less[j], window, origin) && less[j].table.scope_allow.contains(x));
            }
        }
        if before.scope_allow.contains(x) {
            let j = choose|j: int|
                0 <= j < less.len() && contributes(#[trigger] less[j], window, origin)
                    && less[j].table.scope_allow.contains(x);
            assert(more[j] == less[j]);
            assert(contributes(more[j], window, origin) && more[j].table.scope_allow.contains(x));
        }
        if contributes(compiled[i], window, origin) && compiled[i].table.scope_allow.contains(x) {
            assert(contributes(more[i], window, origin) && more[i].table.scope_allow.contains(x));
        }
    }
    assert forall|x: (Seq<char>, Seq<char>)| next.scope_deny.contains(x) <==> want.scope_deny.contains(x) by {
        if next.scope_deny.contains(x) {
            let j = choose|j: int|
                0 <= j < more.len() && contributes(#[trigger] more[j], window, origin)
                    && more[j].table.scope_deny.contains(x);
            if j < i {
                assert(less[j] == more[j]);
                assert(contributes(less[j], window, origin) && less[j].table.scope_deny.contains(x));
            }
        }
        if before.scope_deny.contains(x) {
            let j = choose|j: int|
                0 <= j < less.len() && contributes(#[trigger] less[j], window, origin)
                    && less[j].table.scope_deny.contains(x);
            assert(more[j] == less[j]);
            assert(contributes(more[j], window, origin) && more[j].table.scope_deny.contains(x));
        }
        if contributes(compiled[i], window, origin) && compiled[i].table.scope_deny.contains(x) {
            assert(contributes(more[i], window, origin) && more[i].table.scope_deny.contains(x));
        }
    }
    assert forall|x: (Seq<char>, Seq<char>)| next.global_allow.contains(x) <==> want.global_allow.contains(x) by {
        if next.global_allow.contains(x) {
            let j = choose|j: int|
                0 <= j < more.len() && contributes(#[trigger] more[j], window, origin)
                    && more[j].table.global_allow.contains(x);
            if j < i {
                assert(less[j] == more[j]);
                assert(contributes(less[j], window, origin) && less[j].table.global_allow.contains(x));
            }
        }
        if before.global_allow.contains(x) {
            let j = choose|j: int|
                0 <= j < less.len() && contributes(#[trigger] less[j], window, origin)
                    && less[j].table.global_allow.contains(x);
            assert(more[j] == less[j]);
            assert(contributes(more[j], window, origin) && more[j].table.global_allow.contains(x));
        }
        if contributes(compiled[i], window, origin) && compiled[i].table.global_allow.contains(x) {
            assert(contributes(more[i], window, origin) && more[i].table.global_allow.contains(x));
        }
    }
    assert forall|x: (Seq<char>, Seq<char>)| next.global_deny.contains(x) <==> want.global_deny.contains(x) by {
        if next.global_deny.contains(x) {
            let j = choose|j: int|
                0 <= j < more.len() && contributes(#[trigger] more[j], window, origin)
                    && more[j].table.global_deny.contains(x);
            if j < i {
                assert(less[j] == more[j]);
                assert(contributes(less[j], window, origin) && less[j].table.global_deny.contains(x));
            }
        }
        if before.global_deny.contains(x) {
            let j = choose|j: int|
                0 <= j < less.len() && contributes(#[trigger] less[j], window, origin)
                    && less[j].table.global_deny.contains(x);
            assert(more[j] == less[j]);
            assert(contributes(more[j], window, origin) && more[j].table.global_deny.contains(x));
        }
        if contributes(compiled[i], window, origin) && compiled[i].table.global_deny.contains(x) {
            assert(contributes(more[i], window, origin) && more[i].table.global_deny.contains(x));
        }
    }
    assert(next =~= want);
}

/// The table depends on which capabilities there are, not on their order
/// nor on how often one occurs.
pub proof fn lemma_effective_same_members(
    a: Seq<CompiledModel>,
    b: Seq<CompiledModel>,
    window: Seq<char>,
    origin: OriginModel,
)
    requires
        forall|c: CompiledModel| a.contains(c) <==> b.contains(c),
    ensures
        effective_table(a, window, origin) == effective_table(b, window, origin),
{
    let ta = effective_table(a, window, origin);
    let tb = effective_table(b, window, origin);
    assert forall|c: Seq<char>| ta.allow.contains(c) <==> tb.allow.contains(c) by {
        if ta.allow.contains(c) {
            let i = choose|i: int|
                0 <= i < a.len() && contributes(#[trigger] a[i], window, origin)
                    && a[i].table.allow.contains(c);
            assert(a.contains(a[i]));
            let j = choose|j: int| 0 <= j < b.len() && b[j] == a[i];
            assert(contributes(b[j], window, origin) && b[j].table.allow.contains(c));
        }
        if tb.allow.contains(c) {
            let i = choose|i: int|
                0 <= i < b.len() && contributes(#[trigger] b[i], window, origin)
                    && b[i].table.allow.contains(c);
            assert(b.contains(b[i]));
            let j = choose|j: int| 0 <= j < a.len() && a[j] == b[i];
            assert(contributes(a[j], window, origin) && a[j].table.allow.contains(c));
        }
    }
    assert forall|c: Seq<char>| ta.deny.contains(c) <==> tb.deny.contains(c) by {
        if ta.deny.contains(c) {
            let i = choose|i: int|
                0 <= i < a.len() && contributes(#[trigger] a[i], window, origin)
                    && a[i].table.deny.contains(c);
            assert(a.contains(a[i]));
            let j = choose|j: int| 0 <= j < b.len() && b[j] == a[i];
            assert(contributes(b[j], window, origin) && b[j].table.deny.contains(c));
        }
        if tb.deny.contains(c) {
            let i = choose|i: int|
                0 <= i < b.len() && contributes(#[trigger] b[i], window, origin)
                    && b[i].table.deny.contains(c);
            assert(b.contains(b[i]));
            let j = choose|j: int| 0 <= j < a.len() && a[j] == b[i];
            assert(contributes(a[j], window, origin) && a[j].table.deny.contains(c));
        }
    }
    assert forall|x: (Seq<char>, Seq<char>)| ta.granted_by.contains(x) <==> tb.granted_by.contains(x) by {
        if ta.granted_by.contains(x) {
            let i = choose|i: int|
                0 <= i < a.len() && contributes(#[trigger] a[i], window, origin)
                    && a[i].table.granted_by.contains(x);
            assert(a.contains(a[i]));
            let j = choose|j: int| 0 <= j < b.len() && b[j] == a[i];
            assert(contributes(b[j], window, origin) && b[j].table.granted_by.contains(x));
        }
        if tb.granted_by.contains(x) {
            let i = choose|i: int|
                0 <= i < b.len() && contributes(#[trigger] b[i], window, origin)
                    && b[i].table.granted_by.contains(x);
            assert(b.contains(b[i]));
            let j = choose|j: int| 0 <= j < a.len() && a[j] == b[i];
            assert(contributes(a[j], window, origin) && a[j].table.granted_by.contains(x));
        }
    }
    assert forall|x: (Seq<char>, Seq<char>)| ta.scope_allow.contains(x) <==> tb.scope_allow.contains(x) by {
        if ta.scope_allow.contains(x) {
            let i = choose|i: int|
                0 <= i < a.len() && contributes(#[trigger] a[i], window, origin)
                    && a[i].table.scope_allow.contains(x);
            assert(a.contains(a[i]));
            let j = choose|j: int| 0 <= j < b.len() && b[j] == a[i];
            assert(contributes(b[j], window, origin) && b[j].table.scope_allow.contains(x));
        }
        if tb.scope_allow.contains(x) {
            let i = choose|i: int|
                0 <= i < b.len() && contributes(#[trigger] b[i], window, origin)
                    && b[i].table.scope_allow.contains(x);
            assert(b.contains(b[i]));
            let j = choose|j: int| 0 <= j < a.len() && a[j] == b[i];
            assert(contributes(a[j], window, origin) && a[j].table.scope_allow.contains(x));
        }
    }
    assert forall|x: (Seq<char>, Seq<char>)| ta.scope_deny.contains(x) <==> tb.scope_deny.contains(x) by {
        if ta.scope_deny.contains(x) {
            let i = choose|i: int|
                0 <= i < a.len() && contributes(#[trigger] a[i], window, origin)
                    && a[i].table.scope_deny.contains(x);
            assert(a.contains(a[i]));
            let j = choose|j: int| 0 <= j < b.len() && b[j] == a[i];
            assert(contributes(b[j], window, origin) && b[j].table.scope_deny.contains(x));
        }
        if tb.scope_deny.contains(x) {
            let i = choose|i: int|
                0 <= i < b.len() && contributes(#[trigger] b[i], window, origin)
                    && b[i].table.scope_deny.contains(x);
            assert(b.contains(b[i]));
            let j = choose|j: int| 0 <= j < a.len() && a[j] == b[i];
            assert(contributes(a[j], window, origin) && a[j].table.scope_deny.contains(x));
        }
    }
    assert forall|x: (Seq<char>, Seq<char>)| ta.global_allow.contains(x) <==> tb.global_allow.contains(x) by {
        if ta.global_allow.contains(x) {
            let i = choose|i: int|
                0 <= i < a.len() && contributes(#[trigger] a[i], window, origin)
                    && a[i].table.global_allow.contains(x);
            assert(a.contains(a[i]));
            let j = choose|j: int| 0 <= j < b.len() && b[j] == a[i];
            assert(contributes(b[j], window, origin) && b[j].table.global_allow.contains(x));
        }
        if tb.global_allow.contains(x) {
            let i = choose|i: int|
                0 <= i < b.len() && contributes(#[trigger] b[i], window, origin)
                    && b[i].table.global_allow.contains(x);
            assert(b.contains(b[i]));
            let j = choose|j: int| 0 <= j < a.len() && a[j] == b[i];
            assert(contributes(a[j], window, origin) && a[j].table.global_allow.contains(x));
        }
    }
    assert forall|x: (Seq<char>, Seq<char>)| ta.global_deny.contains(x) <==> tb.global_deny.contains(x) by {
        if ta.global_deny.contains(x) {
            let i = choose|i: int|
                0 <= i < a.len() && contributes(#[trigger] a[i], window, origin)
                    && a[i].table.global_deny.contains(x);
            assert(a.contains(a[i]));
            let j = choose|j: int| 0 <= j < b.len() && b[j] == a[i];
            assert(contributes(b[j], window, origin) && b[j].table.global_deny.contains(x));
        }
        if tb.global_deny.contains(x) {
            let i = choose|i: int|
                0 <= i < b.len() && contributes(#[trigger] b[i], window, origin)
                    && b[i].table.global_deny.contains(x);
            assert(b.contains(b[i]));
            let j = choose|j: int| 0 <= j < a.len() && a[j] == b[i];
            assert(contributes(a[j], window, origin) && a[j].table.global_deny.contains(x));
        }
    }
    assert(ta =~= tb);
}

} // verus!
