//! The resolved access control list: built once from manifests and
//! capabilities, then asked on every call.

use crate::capability::{capability_models, Capability, CapabilityContext, ContextModel};
use crate::effective::{
    allowed, capability_records, compile, compile_all, context_admits, effective_table,
    expansion_records, lemma_effective_empty, lemma_effective_step, CompiledModel, OriginModel,
};
use crate::error::AclError;
use crate::expand::models_of;
use crate::glob::{any_glob_match, glob_match, host_match, lower, lower_chars, Pattern};
use crate::manifest::text_set;
use crate::names::{lemma_same_entries, lemma_same_names, names_of, NameMap, NameSet};
use crate::platform::Target;
use crate::registry::ManifestRegistry;
use crate::table::{
    lemma_same_table, lemma_table_of_concat, lemma_table_of_one, scope_allowed,
    scope_denied, table_of, GrantModel, ResolvedScope, Table, TableContent,
};
use crate::validate::{
    all_valid, expand_grant, fails_at, failure_error, first_failure, grant_expansion, reports,
    reports_first_failure,
};
use vstd::prelude::*;
use vstd::string::*;

verus! {

/// Where the content that makes a call comes from.
#[derive(Clone, Debug, PartialEq, Eq)]
pub enum Origin {
    /// The application's own content.
    Local,
    /// Content loaded from the host `domain`.
    Remote { domain: String },
}

impl View for Origin {
    type V = OriginModel;

    open spec fn view(&self) -> OriginModel {
        match self {
            Origin::Local => OriginModel::Local,
            Origin::Remote { domain } => OriginModel::Remote { domain: domain@ },
        }
    }
}

/// The answer to a call.
#[derive(Clone, Debug, PartialEq, Eq)]
pub enum Authorization {
    /// The call may go on, within `scope`.
    Allowed { scope: ResolvedScope },
    /// The call is refused.
    Denied,
}

/// A capability with its patterns read and its permissions resolved.
#[derive(Clone, Debug, PartialEq, Eq)]
pub struct CompiledCapability {
    windows: Vec<String>,
    window_patterns: Vec<Pattern>,
    remote: bool,
    domains: Vec<String>,
    domain_patterns: Vec<Pattern>,
    table: Table,
}

impl View for CompiledCapability {
    type V = CompiledModel;

    closed spec fn view(&self) -> CompiledModel {
        CompiledModel {
            windows: names_of(self.windows@),
            context: if self.remote {
                ContextModel::Remote { domains: names_of(self.domains@) }
            } else {
                ContextModel::Local
            },
            table: self.table@,
        }
    }
}

/// What a compiled capability holds, place by place.
pub ghost struct CompiledContent {
    pub windows: Seq<Seq<char>>,
    pub window_patterns: Seq<Seq<char>>,
    pub remote: bool,
    pub domains: Seq<Seq<char>>,
    pub domain_patterns: Seq<Seq<char>>,
    pub table: TableContent,
}

/// What one window's entry holds, place by place.
pub ghost struct WindowContent {
    pub matches: Seq<bool>,
    pub local: TableContent,
    pub allowed: Seq<Seq<char>>,
}

/// What a resolved list holds, place by place.
pub ghost struct AclContent {
    pub compiled: Seq<CompiledContent>,
    pub labels: Seq<Seq<char>>,
    pub windows: Seq<WindowContent>,
}

/// Whether a capability in context `ctx` is for remote content from the
/// host whose name, in lower case, is `host`.
pub open spec fn lowered_admits(ctx: ContextModel, host: Seq<char>) -> bool {
    match ctx {
        ContextModel::Local => false,
        ContextModel::Remote { domains } => any_lowered_match(domains, host),
    }
}

/// Whether one of the host patterns `domains`, put in lower case, matches
/// `host`.
pub open spec fn any_lowered_match(domains: Seq<Seq<char>>, host: Seq<char>) -> bool {
    exists|i: int| 0 <= i < domains.len() && #[trigger] glob_match(lower(domains[i]), host)
}

/// A capability is for remote content from a host exactly when it is for
/// the lower-case name of the host.
pub proof fn lemma_lowered_admits(ctx: ContextModel, domain: Seq<char>)
    ensures
        lowered_admits(ctx, lower(domain)) == context_admits(
            ctx,
            OriginModel::Remote { domain },
        ),
{
    match ctx {
        ContextModel::Local => {},
        ContextModel::Remote { domains } => {
            if lowered_admits(ctx, lower(domain)) {
                let i = choose|i: int|
                    0 <= i < domains.len() && #[trigger] glob_match(
                        lower(domains[i]),
                        lower(domain),
                    );
                assert(host_match(domains[i], domain));
            }
            if context_admits(ctx, OriginModel::Remote { domain }) {
                let i = choose|i: int|
                    0 <= i < domains.len() && host_match(#[trigger] domains[i], domain);
                assert(glob_match(lower(domains[i]), lower(domain)));
            }
        },
    }
}

/// What each compiled capability of a sequence says.
pub open spec fn compiled_models(cs: Seq<CompiledCapability>) -> Seq<CompiledModel> {
    cs.map_values(|c: CompiledCapability| c@)
}

/// Whether grant `g` of `cap` fails and none before it does.
pub open spec fn first_bad_grant(
    reg: crate::registry::RegistryModel,
    grants: Seq<(Seq<char>, Seq<char>)>,
    g: int,
) -> bool {
    &&& 0 <= g < grants.len()
    &&& grant_expansion(reg, grants[g]) is Err
    &&& forall|g2: int| 0 <= g2 < g ==> grant_expansion(reg, #[trigger] grants[g2]) is Ok
}

/// The patterns of `texts`, read as window patterns.
fn window_patterns(texts: &Vec<String>) -> (out: Vec<Pattern>)
    ensures
        out.len() == texts.len(),
        forall|i: int| 0 <= i < out.len() ==> (#[trigger] out[i])@ == texts[i]@,
{
    let mut out: Vec<Pattern> = Vec::new();
    let mut i: usize = 0;
    while i < texts.len()
        invariant
            i <= texts.len(),
            out.len() == i,
            forall|k: int| 0 <= k < i ==> (#[trigger] out[k])@ == texts[k]@,
        decreases texts.len() - i,
    {
        out.push(Pattern::new(texts[i].as_str()));
        i += 1;
    }
    out
}

/// The patterns of `texts`, read as host patterns.
fn host_patterns(texts: &Vec<String>) -> (out: Vec<Pattern>)
    ensures
        out.len() == texts.len(),
        forall|i: int| 0 <= i < out.len() ==> (#[trigger] out[i])@ == lower(texts[i]@),
{
    let mut out: Vec<Pattern> = Vec::new();
    let mut i: usize = 0;
    while i < texts.len()
        invariant
            i <= texts.len(),
            out.len() == i,
            forall|k: int| 0 <= k < i ==> (#[trigger] out[k])@ == lower(texts[k]@),
        decreases texts.len() - i,
    {
        out.push(Pattern::for_host(texts[i].as_str()));
        i += 1;
    }
    out
}

/// A copy of `texts`.
fn copy_texts(texts: &Vec<String>) -> (out: Vec<String>)
    ensures
        names_of(out@) == names_of(texts@),
{
    let mut out: Vec<String> = Vec::new();
    let mut i: usize = 0;
    while i < texts.len()
        invariant
            i <= texts.len(),
            out.len() == i,
            forall|k: int| 0 <= k < i ==> (#[trigger] out[k])@ == texts[k]@,
        decreases texts.len() - i,
    {
        out.push(texts[i].clone());
        i += 1;
    }
    assert(names_of(out@) =~= names_of(texts@));
    out
}

impl CompiledCapability {
    /// The patterns are those of the texts, and the table is in order.
    pub closed spec fn wf(&self) -> bool {
        &&& self.window_patterns.len() == self.windows.len()
        &&& forall|i: int|
            0 <= i < self.windows.len() ==> (#[trigger] self.window_patterns[i])@
                == self.windows[i]@
        &&& self.domain_patterns.len() == self.domains.len()
        &&& forall|i: int|
            0 <= i < self.domains.len() ==> (#[trigger] self.domain_patterns[i])@ == lower(
                self.domains[i]@,
            )
        &&& (!self.remote ==> self.domains.len() == 0)
        &&& self.table.wf()
    }

    /// What the compiled capability holds, place by place.
    pub closed spec fn content(&self) -> CompiledContent {
        CompiledContent {
            windows: names_of(self.windows@),
            window_patterns: self.window_patterns@.map_values(|p: Pattern| p@),
            remote: self.remote,
            domains: names_of(self.domains@),
            domain_patterns: self.domain_patterns@.map_values(|p: Pattern| p@),
            table: self.table.content(),
        }
    }

    /// Resolves the permissions of `capability` for `target`. It fails on
    /// the first grant that names nothing, or something that refers to
    /// itself, and tells which.
    pub fn compile(reg: &ManifestRegistry, capability: &Capability, target: Target) -> (r: Result<
        CompiledCapability,
        (usize, AclError),
    >)
        requires
            reg.wf(),
        ensures
            r matches Ok(cc) ==> cc.wf() && cc@ == compile(reg@, capability@, target)
                && forall|g: int|
                0 <= g < capability@.grants.len() ==> grant_expansion(
                    reg@,
                    #[trigger] capability@.grants[g],
                ) is Ok,
            r matches Err(at) ==> first_bad_grant(reg@, capability@.grants, at.0 as int)
                && reports(
                reg@,
                at.1,
                capability@.grants[at.0 as int],
                grant_expansion(reg@, capability@.grants[at.0 as int])->Err_0,
            ),
    {
        let ghost grants = capability@.grants;
        let mut table = Table::new();
        let mut g: usize = 0;
        proof {
            assert(grants.take(0) =~= Seq::<(Seq<char>, Seq<char>)>::empty());
            lemma_table_of_concat(Seq::<GrantModel>::empty(), Seq::<GrantModel>::empty());
        }
        while g < capability.permissions.len()
            invariant
                reg.wf(),
                table.wf(),
                grants == capability@.grants,
                g <= capability.permissions.len(),
                table@ == table_of(capability_records(reg@, grants.take(g as int), target)),
                forall|g2: int| 0 <= g2 < g ==> grant_expansion(reg@, #[trigger] grants[g2]) is Ok,
            decreases capability.permissions.len() - g,
        {
            let id = &capability.permissions[g];
            assert(grants[g as int] == (id.namespace_view(), id.name_view()));
            match expand_grant(reg, id) {
                Err(f) => {
                    let e = failure_error(reg, id, f);
                    return Err((g, e));
                },
                Ok(ps) => {
                    let ghost base = capability_records(reg@, grants.take(g as int), target);
                    let ghost ms = models_of(ps@);
                    let ghost ns = id.namespace_view();
                    let mut j: usize = 0;
                    proof {
                        assert(ms.take(0) =~= Seq::<crate::manifest::PermissionModel>::empty());
                        assert(base + Seq::<GrantModel>::empty() =~= base);
                    }
                    while j < ps.len()
                        invariant
                            table.wf(),
                            j <= ps.len(),
                            ms == models_of(ps@),
                            ns == id.namespace_view(),
                            table@ == table_of(
                                base + expansion_records(ns, ms.take(j as int), target),
                            ),
                        decreases ps.len() - j,
                    {
                        let p = ps[j];
                        let ghost before = expansion_records(ns, ms.take(j as int), target);
                        proof {
                            assert(ms.take(j + 1).drop_last() =~= ms.take(j as int));
                            assert(ms.take(j + 1).last() == p@);
                        }
                        if p.applies_on(target) {
                            table.add(id.namespace(), p);
                            proof {
                                let gm = GrantModel { namespace: ns, permission: p@ };
                                lemma_table_of_one(gm);
                                lemma_table_of_concat(base + before, seq![gm]);
                                assert((base + before) + seq![gm] =~= base + before.push(gm));
                            }
                        }
                        j += 1;
                    }
                    proof {
                        assert(ms.take(ps.len() as int) =~= ms);
                        assert(grants.take(g + 1).drop_last() =~= grants.take(g as int));
                        assert(grants.take(g + 1).last() == grants[g as int]);
                    }
                },
            }
            g += 1;
        }
        proof {
            assert(grants.take(capability.permissions.len() as int) =~= grants);
        }
        let windows = copy_texts(&capability.windows);
        let patterns = window_patterns(&windows);
        let cc = match &capability.context {
            CapabilityContext::Local => CompiledCapability {
                windows,
                window_patterns: patterns,
                remote: false,
                domains: Vec::new(),
                domain_patterns: Vec::new(),
                table,
            },
            CapabilityContext::Remote { domains } => {
                let domains = copy_texts(domains);
                let domain_patterns = host_patterns(&domains);
                CompiledCapability {
                    windows,
                    window_patterns: patterns,
                    remote: true,
                    domains,
                    domain_patterns,
                    table,
                }
            },
        };
        Ok(cc)
    }

    /// Whether one of the window patterns matches `label`.
    pub fn matches_window(&self, label: &str) -> (b: bool)
        requires
            self.wf(),
        ensures
            b == any_glob_match(self@.windows, label@),
    {
        let mut i: usize = 0;
        while i < self.window_patterns.len()
            invariant
                self.wf(),
                i <= self.window_patterns.len(),
                forall|k: int|
                    0 <= k < i ==> !crate::glob::glob_match(
                        #[trigger] names_of(self.windows@)[k],
                        label@,
                    ),
            decreases self.window_patterns.len() - i,
        {
            if self.window_patterns[i].matches(label) {
                assert(crate::glob::glob_match(names_of(self.windows@)[i as int], label@));
                return true;
            }
            i += 1;
        }
        false
    }

    /// Whether the capability is for content from `origin`.
    pub fn admits(&self, origin: &Origin) -> (b: bool)
        requires
            self.wf(),
        ensures
            b == context_admits(self@.context, origin@),
    {
        match origin {
            Origin::Local => !self.remote,
            Origin::Remote { domain } => {
                if !self.remote {
                    return false;
                }
                let mut i: usize = 0;
                while i < self.domain_patterns.len()
                    invariant
                        self.wf(),
                        self.remote,
                        origin@ == (OriginModel::Remote { domain: domain@ }),
                        i <= self.domain_patterns.len(),
                        forall|k: int|
                            0 <= k < i ==> !host_match(
                                #[trigger] names_of(self.domains@)[k],
                                domain@,
                            ),
                    decreases self.domain_patterns.len() - i,
                {
                    if self.domain_patterns[i].matches_host(domain.as_str()) {
                        assert(host_match(names_of(self.domains@)[i as int], domain@));
                        return true;
                    }
                    i += 1;
                }
                false
            },
        }
    }

    /// Whether the capability is for remote content from the host whose
    /// name, in lower case, is `host`.
    pub fn admits_host(&self, host: &Vec<char>) -> (b: bool)
        requires
            self.wf(),
        ensures
            b == lowered_admits(self@.context, host@),
    {
        if !self.remote {
            return false;
        }
        let mut i: usize = 0;
        while i < self.domain_patterns.len()
            invariant
                self.wf(),
                self.remote,
                i <= self.domain_patterns.len(),
                forall|k: int|
                    0 <= k < i ==> !#[trigger] glob_match(
                        lower(names_of(self.domains@)[k]),
                        host@,
                    ),
            decreases self.domain_patterns.len() - i,
        {
            if self.domain_patterns[i].matches_chars(host) {
                proof {
                    let domains = names_of(self.domains@);
                    assert(self@.context == ContextModel::Remote { domains });
                    assert(0 <= i < domains.len() && glob_match(lower(domains[i as int]), host@));
                    assert(any_lowered_match(domains, host@));
                }
                return true;
            }
            i += 1;
        }
        false
    }

    /// What the capability grants.
    pub fn table(&self) -> (t: &Table)
        requires
            self.wf(),
        ensures
            t.wf(),
            t@ == self@.table,
    {
        &self.table
    }
}

/// What has been worked out for one window.
#[derive(Clone, Debug, PartialEq, Eq)]
pub struct WindowAcl {
    matches: Vec<bool>,
    local: Table,
    allowed: NameSet,
}

impl WindowAcl {
    /// The entry is the one that `compiled` gives for the window `label`:
    /// it knows which capabilities match the label, what the local ones come
    /// to, and which commands are left once the denied ones are taken out.
    pub closed spec fn wf_for(&self, compiled: Seq<CompiledModel>, label: Seq<char>) -> bool {
        &&& self.matches.len() == compiled.len()
        &&& forall|i: int|
            0 <= i < compiled.len() ==> #[trigger] self.matches[i] == any_glob_match(
                compiled[i].windows,
                label,
            )
        &&& self.local.wf()
        &&& self.local@ == effective_table(compiled, label, OriginModel::Local)
        &&& self.allowed.wf()
        &&& self.allowed@ == self.local@.allow.difference(self.local@.deny)
    }

    /// What the entry holds, place by place.
    pub closed spec fn content(&self) -> WindowContent {
        WindowContent {
            matches: self.matches@,
            local: self.local.content(),
            allowed: self.allowed.names(),
        }
    }

    /// Works out the entry for the window `label`.
    pub(crate) fn resolve(compiled: &Vec<CompiledCapability>, label: &str) -> (w: WindowAcl)
        requires
            forall|i: int| 0 <= i < compiled.len() ==> (#[trigger] compiled[i]).wf(),
        ensures
            w.wf_for(compiled_models(compiled@), label@),
    {
        let ghost models = compiled_models(compiled@);
        let mut matches: Vec<bool> = Vec::new();
        let mut local = Table::new();
        let mut i: usize = 0;
        proof {
            assert(models.take(0) =~= Seq::<CompiledModel>::empty());
            lemma_effective_empty(label@, OriginModel::Local);
        }
        while i < compiled.len()
            invariant
                forall|k: int| 0 <= k < compiled.len() ==> (#[trigger] compiled[k]).wf(),
                models == compiled_models(compiled@),
                i <= compiled.len(),
                matches.len() == i,
                forall|k: int|
                    0 <= k < i ==> #[trigger] matches[k] == any_glob_match(
                        models[k].windows,
                        label@,
                    ),
                local.wf(),
                local@ == effective_table(models.take(i as int), label@, OriginModel::Local),
            decreases compiled.len() - i,
        {
            let c = &compiled[i];
            assert(models[i as int] == c@);
            let m = c.matches_window(label);
            matches.push(m);
            proof {
                lemma_effective_step(models, i as int, label@, OriginModel::Local);
            }
            if m && c.admits(&Origin::Local) {
                local.absorb(c.table());
            }
            i += 1;
        }
        proof {
            assert(models.take(compiled.len() as int) =~= models);
        }
        let mut allowed = NameSet::new();
        allowed.absorb(local.allowed_commands());
        allowed.subtract(local.denied_commands());
        let w = WindowAcl { matches, local, allowed };
        proof {
            assert(w.allowed@ =~= w.local@.allow.difference(w.local@.deny));
        }
        w
    }
}

/// What a resolved list holds: the capabilities that hold on the platform,
/// resolved, and the windows worked out so far.
pub ghost struct ResolvedModel {
    pub compiled: Seq<CompiledModel>,
    pub windows: Set<Seq<char>>,
}

/// The access control list for the process.
#[derive(Clone, Debug, PartialEq, Eq)]
pub struct ResolvedAcl {
    compiled: Vec<CompiledCapability>,
    windows: NameMap<WindowAcl>,
}

impl View for ResolvedAcl {
    type V = ResolvedModel;

    closed spec fn view(&self) -> ResolvedModel {
        ResolvedModel {
            compiled: compiled_models(self.compiled@),
            windows: self.windows@.dom(),
        }
    }
}

impl ResolvedAcl {
    /// Every capability is in order, and every window has the entry that the
    /// capabilities give for it.
    pub closed spec fn wf(&self) -> bool {
        &&& forall|i: int| 0 <= i < self.compiled.len() ==> (#[trigger] self.compiled[i]).wf()
        &&& self.windows.wf()
        &&& forall|i: int|
            0 <= i < self.windows.entries().len() ==> (#[trigger] self.windows.entries()[i]).wf_for(
                compiled_models(self.compiled@),
                self.windows.names()[i],
            )
    }

    /// What the list holds, place by place.
    pub closed spec fn content(&self) -> AclContent {
        AclContent {
            compiled: self.compiled@.map_values(|c: CompiledCapability| c.content()),
            labels: self.windows.names(),
            windows: self.windows.entries().map_values(|w: WindowAcl| w.content()),
        }
    }

    /// The list that no capability has a say in and that knows no window:
    /// it denies every call.
    pub fn empty() -> (acl: ResolvedAcl)
        ensures
            acl.wf(),
            acl@.compiled == Seq::<CompiledModel>::empty(),
            acl@.windows == Set::<Seq<char>>::empty(),
    {
        let acl = ResolvedAcl { compiled: Vec::new(), windows: NameMap::new() };
        proof {
            assert(acl@.compiled =~= Seq::<CompiledModel>::empty());
            assert(acl@.windows =~= Set::<Seq<char>>::empty());
        }
        acl
    }

    /// Works the window `label` out as well, so that calls from it can be
    /// answered. The capabilities stay as they are.
    pub fn with_window(self, label: &str) -> (acl: ResolvedAcl)
        requires
            self.wf(),
        ensures
            acl.wf(),
            acl@.compiled == self@.compiled,
            acl@.windows == self@.windows.insert(label@),
    {
        let mut acl = self;
        if !acl.windows.contains_key(label) {
            let entry = WindowAcl::resolve(&acl.compiled, label);
            let ghost before = acl.windows;
            proof {
                before.lemma_entries();
            }
            acl.windows.insert(label.to_owned(), entry);
            proof {
                acl.windows.lemma_entries();
                let names = acl.windows.names();
                let entries = acl.windows.entries();
                let models = compiled_models(acl.compiled@);
                assert forall|i: int| 0 <= i < entries.len() implies (#[trigger] entries[i]).wf_for(
                    models,
                    names[i],
                ) by {
                    assert(acl.windows@.contains_key(names[i]));
                    assert(acl.windows@[names[i]] == entries[i]);
                    if names[i] != label@ {
                        assert(before@.contains_key(names[i]));
                        let q = choose|q: int|
                            0 <= q < before.names().len() && before.names()[q] == names[i];
                        assert(before@[before.names()[q]] == before.entries()[q]);
                    }
                }
                assert(acl@.windows =~= self@.windows.insert(label@));
            }
        } else {
            proof {
                assert(acl@.windows =~= self@.windows.insert(label@));
            }
        }
        acl
    }

    /// Whether the window `label` has been worked out.
    pub fn knows_window(&self, label: &str) -> (b: bool)
        requires
            self.wf(),
        ensures
            b == self@.windows.contains(label@),
    {
        self.windows.contains_key(label)
    }

    /// The commands that local content of the window `label` may call.
    pub fn allowed_commands(&self, label: &str) -> (r: Option<&NameSet>)
        requires
            self.wf(),
        ensures
            r is Some <==> self@.windows.contains(label@),
            r matches Some(s) ==> s.wf() && forall|c: Seq<char>|
                s@.contains(c) <==> allowed(self@.compiled, label@, OriginModel::Local, c),
    {
        proof {
            self.windows.lemma_entries();
        }
        match self.windows.index_of(label) {
            Some(i) => Some(&self.windows.value_at(i).allowed),
            None => None,
        }
    }

    /// The commands that are denied to local content of the window `label`.
    pub fn denied_commands(&self, label: &str) -> (r: Option<&NameSet>)
        requires
            self.wf(),
        ensures
            r is Some <==> self@.windows.contains(label@),
            r matches Some(s) ==> s.wf() && s@ == effective_table(
                self@.compiled,
                label@,
                OriginModel::Local,
            ).deny,
    {
        proof {
            self.windows.lemma_entries();
        }
        match self.windows.index_of(label) {
            Some(i) => Some(self.windows.value_at(i).local.denied_commands()),
            None => None,
        }
    }

    /// Answers a call of `command_name` from the window `window_label`
    /// whose content comes from `origin`.
    ///
    /// The call is allowed exactly when the window has been worked out, some
    /// capability that has a say on the window and the origin allows the
    /// command, and none of them denies it. The scope that comes with the
    /// answer is that of the command and of the namespaces that grant it.
    pub fn authorize(&self, window_label: &str, command_name: &str, origin: &Origin) -> (r:
        Authorization)
        requires
            self.wf(),
        ensures
            r is Allowed <==> self@.windows.contains(window_label@) && allowed(
                self@.compiled,
                window_label@,
                origin@,
                command_name@,
            ),
            r matches Authorization::Allowed { scope } ==> scope.allow.wf() && scope.deny.wf()
                && scope.allow@ == scope_allowed(
                effective_table(self@.compiled, window_label@, origin@),
                command_name@,
            ) && scope.deny@ == scope_denied(
                effective_table(self@.compiled, window_label@, origin@),
                command_name@,
            ),
    {
        proof {
            self.windows.lemma_entries();
        }
        let ghost models = compiled_models(self.compiled@);
        match self.windows.index_of(window_label) {
            None => Authorization::Denied,
            Some(at) => {
                let w = self.windows.value_at(at);
                assert(w.wf_for(models, window_label@));
                match origin {
                    Origin::Local => {
                        if w.allowed.contains(command_name) {
                            Authorization::Allowed { scope: w.local.scope_for(command_name) }
                        } else {
                            Authorization::Denied
                        }
                    },
                    Origin::Remote { domain } => {
                        let host = lower_chars(domain.as_str());
                        // The answer first, by looking the command up in
                        // each table that has a say.
                        let mut allows = false;
                        let mut denies = false;
                        let mut i: usize = 0;
                        proof {
                            assert(models.take(0) =~= Seq::<CompiledModel>::empty());
                            lemma_effective_empty(window_label@, origin@);
                        }
                        while i < self.compiled.len()
                            invariant
                                self.wf(),
                                models == compiled_models(self.compiled@),
                                w.wf_for(models, window_label@),
                                origin@ == (OriginModel::Remote { domain: domain@ }),
                                host@ == lower(domain@),
                                i <= self.compiled.len(),
                                allows == effective_table(
                                    models.take(i as int),
                                    window_label@,
                                    origin@,
                                ).allow.contains(command_name@),
                                denies == effective_table(
                                    models.take(i as int),
                                    window_label@,
                                    origin@,
                                ).deny.contains(command_name@),
                            decreases self.compiled.len() - i,
                        {
                            let c = &self.compiled[i];
                            assert(models[i as int] == c@);
                            proof {
                                lemma_effective_step(models, i as int, window_label@, origin@);
                                lemma_lowered_admits(c@.context, domain@);
                            }
                            if w.matches[i] && c.admits_host(&host) {
                                if c.table().allows(command_name) {
                                    allows = true;
                                }
                                if c.table().denies(command_name) {
                                    denies = true;
                                }
                            }
                            i += 1;
                        }
                        proof {
                            assert(models.take(self.compiled.len() as int) =~= models);
                        }
                        if !allows || denies {
                            return Authorization::Denied;
                        }
                        // Then the scope that goes with the answer.
                        let mut table = Table::new();
                        let mut j: usize = 0;
                        while j < self.compiled.len()
                            invariant
                                self.wf(),
                                models == compiled_models(self.compiled@),
                                w.wf_for(models, window_label@),
                                origin@ == (OriginModel::Remote { domain: domain@ }),
                                host@ == lower(domain@),
                                j <= self.compiled.len(),
                                table.wf(),
                                table@ == effective_table(
                                    models.take(j as int),
                                    window_label@,
                                    origin@,
                                ),
                            decreases self.compiled.len() - j,
                        {
                            let c = &self.compiled[j];
                            assert(models[j as int] == c@);
                            proof {
                                lemma_effective_step(models, j as int, window_label@, origin@);
                                lemma_lowered_admits(c@.context, domain@);
                            }
                            if w.matches[j] && c.admits_host(&host) {
                                table.absorb(c.table());
                            }
                            j += 1;
                        }
                        Authorization::Allowed { scope: table.scope_for(command_name) }
                    },
                }
            },
        }
    }
}

/// Resolves the capabilities that hold on `target` against the registry and
/// works out each window of `window_labels`.
///
/// It fails exactly where validation fails, with the same report, and then
/// builds nothing.
pub fn resolve(
    manifests: &ManifestRegistry,
    capabilities: &Vec<Capability>,
    window_labels: &Vec<String>,
    target: Target,
) -> (r: Result<ResolvedAcl, AclError>)
    requires
        manifests.wf(),
    ensures
        r is Ok <==> all_valid(manifests@, capability_models(capabilities@), target),
        r matches Ok(acl) ==> acl.wf() && acl@.compiled == compile_all(
            manifests@,
            capability_models(capabilities@),
            target,
        ) && acl@.windows == text_set(window_labels@),
        r matches Err(e) ==> reports_first_failure(
            manifests@,
            capability_models(capabilities@),
            target,
            e,
        ),
{
    let ghost reg = manifests@;
    let ghost caps = capability_models(capabilities@);
    let mut compiled: Vec<CompiledCapability> = Vec::new();
    let mut c: usize = 0;
    proof {
        assert(caps.take(0) =~= Seq::<crate::capability::CapabilityModel>::empty());
        assert(compiled_models(compiled@) =~= Seq::<CompiledModel>::empty());
    }
    while c < capabilities.len()
        invariant
            manifests.wf(),
            reg == manifests@,
            caps == capability_models(capabilities@),
            c <= capabilities.len(),
            forall|k: int| 0 <= k < compiled.len() ==> (#[trigger] compiled[k]).wf(),
            compiled_models(compiled@) == compile_all(reg, caps.take(c as int), target),
            forall|c2: int, g2: int| #[trigger] fails_at(reg, caps, target, c2, g2) ==> c <= c2,
        decreases capabilities.len() - c,
    {
        let capability = &capabilities[c];
        proof {
            assert(caps[c as int] == capability@);
            assert(caps.take(c + 1).drop_last() =~= caps.take(c as int));
            assert(caps.take(c + 1).last() == capability@);
        }
        if capability.applies_on(target) {
            match CompiledCapability::compile(manifests, capability, target) {
                Err(at) => {
                    proof {
                        assert(fails_at(reg, caps, target, c as int, at.0 as int));
                        assert(first_failure(reg, caps, target, c as int, at.0 as int));
                    }
                    return Err(at.1);
                },
                Ok(cc) => {
                    let ghost before = compiled_models(compiled@);
                    compiled.push(cc);
                    proof {
                        assert(compiled_models(compiled@) =~= before.push(cc@));
                    }
                },
            }
        }
        c += 1;
    }
    proof {
        assert(caps.take(capabilities.len() as int) =~= caps);
    }
    let mut acl = ResolvedAcl { compiled, windows: NameMap::new() };
    proof {
        assert(acl@.windows =~= Set::<Seq<char>>::empty());
    }
    let ghost compiled_view = acl@.compiled;
    let mut i: usize = 0;
    while i < window_labels.len()
        invariant
            acl.wf(),
            acl@.compiled == compiled_view,
            i <= window_labels.len(),
            forall|t: Seq<char>|
                #![trigger acl@.windows.contains(t)]
                acl@.windows.contains(t) <==> names_of(window_labels@.take(i as int)).contains(t),
        decreases window_labels.len() - i,
    {
        let ghost before = acl@.windows;
        acl = acl.with_window(window_labels[i].as_str());
        proof {
            let less = names_of(window_labels@.take(i as int));
            let more = names_of(window_labels@.take(i + 1));
            assert(more =~= less.push(window_labels@[i as int]@));
            assert forall|t: Seq<char>|
                #![trigger acl@.windows.contains(t)]
                acl@.windows.contains(t) <==> more.contains(t) by {
                assert(before.contains(t) <==> less.contains(t));
                if less.contains(t) {
                    let k = choose|k: int| 0 <= k < less.len() && less[k] == t;
                    assert(more[k] == t);
                }
                if more.contains(t) {
                    let k = choose|k: int| 0 <= k < more.len() && more[k] == t;
                    if k < less.len() {
                        assert(less[k] == t);
                    }
                }
                assert(more[i as int] == window_labels@[i as int]@);
            }
        }
        i += 1;
    }
    proof {
        assert(window_labels@.take(window_labels.len() as int) =~= window_labels@);
        assert(acl@.windows =~= text_set(window_labels@));
    }
    Ok(acl)
}

/// Two compiled capabilities in order that say the same hold the same.
pub proof fn lemma_same_compiled(a: CompiledCapability, b: CompiledCapability)
    requires
        a.wf(),
        b.wf(),
        a@ == b@,
    ensures
        a.content() == b.content(),
{
    lemma_same_table(a.table, b.table);
    assert(names_of(a.windows@) == names_of(b.windows@));
    assert(a.remote == b.remote);
    assert(names_of(a.domains@) =~= names_of(b.domains@));
    assert(a.windows.len() == names_of(a.windows@).len());
    assert(b.windows.len() == names_of(b.windows@).len());
    assert(a.domains.len() == names_of(a.domains@).len());
    assert(b.domains.len() == names_of(b.domains@).len());
    assert(a.window_patterns@.map_values(|p: Pattern| p@) =~= b.window_patterns@.map_values(
        |p: Pattern| p@,
    )) by {
        assert forall|i: int| 0 <= i < a.windows.len() implies a.window_patterns[i]@
            == b.window_patterns[i]@ by {
            assert(names_of(a.windows@)[i] == names_of(b.windows@)[i]);
            assert(a.windows[i]@ == b.windows[i]@);
        }
    }
    assert(a.domain_patterns@.map_values(|p: Pattern| p@) =~= b.domain_patterns@.map_values(
        |p: Pattern| p@,
    )) by {
        assert forall|i: int| 0 <= i < a.domains.len() implies a.domain_patterns[i]@
            == b.domain_patterns[i]@ by {
            assert(names_of(a.domains@)[i] == names_of(b.domains@)[i]);
            assert(a.domains[i]@ == b.domains[i]@);
        }
    }
}

/// Resolution is idempotent: two resolved lists that say the same, as any
/// two that come from the same manifests, capabilities, platform and
/// windows do, hold the same at every place.
pub proof fn law_idempotent_resolution(a: ResolvedAcl, b: ResolvedAcl)
    requires
        a.wf(),
        b.wf(),
        a@ == b@,
    ensures
        a.content() == b.content(),
{
    let ma = compiled_models(a.compiled@);
    let mb = compiled_models(b.compiled@);
    assert(a.compiled.len() == b.compiled.len()) by {
        assert(ma.len() == mb.len());
    }
    assert forall|i: int| 0 <= i < a.compiled.len() implies a.compiled[i].content()
        == b.compiled[i].content() by {
        assert(ma[i] == mb[i]);
        lemma_same_compiled(a.compiled[i], b.compiled[i]);
    }
    assert(a.content().compiled =~= b.content().compiled);
    lemma_same_entries(a.windows, b.windows);
    let names = a.windows.names();
    assert(a.windows.entries().len() == b.windows.entries().len());
    assert forall|i: int| 0 <= i < names.len() implies a.windows.entries()[i].content()
        == b.windows.entries()[i].content() by {
        let x = a.windows.entries()[i];
        let y = b.windows.entries()[i];
        assert(x.wf_for(ma, names[i]));
        assert(y.wf_for(mb, b.windows.names()[i]));
        lemma_same_table(x.local, y.local);
        lemma_same_names(x.allowed, y.allowed);
        assert(x.matches@ =~= y.matches@);
    }
    assert(a.content().windows =~= b.content().windows);
}

} // verus!
