//! What the content of the application may load and reach.

use crate::error::joined_with;
use crate::foreign::{trim, trimmed_of};
use crate::names::{names_of, NameMap};
use crate::text::{chars_of, contains_chars, has_substring, split, split_on};
use vstd::prelude::*;
use vstd::string::*;

verus! {

/// A Content-Security-Policy directive source list.
#[derive(Debug, PartialEq, Eq, Clone)]
pub enum CspDirectiveSources {
    /// An inline list of CSP sources. Same as [`Self::List`], but
    /// concatenated with a space separator.
    Inline(String),
    /// A list of CSP sources. The collection will be concatenated with a
    /// space separator for the CSP string.
    List(Vec<String>),
}

impl Default for CspDirectiveSources {
    fn default() -> (s: CspDirectiveSources)
        ensures
            s matches CspDirectiveSources::List(l) && l@.len() == 0,
    {
        CspDirectiveSources::List(Vec::new())
    }
}

/// Whether the list `l` holds the text `t`.
pub open spec fn lists(l: Seq<String>, t: Seq<char>) -> bool {
    names_of(l).contains(t)
}

impl CspDirectiveSources {
    /// The sources, one by one: an inline list is split at its spaces.
    pub open spec fn sources(&self) -> Seq<Seq<char>> {
        match self {
            CspDirectiveSources::Inline(s) => split_on(s@, ' '),
            CspDirectiveSources::List(l) => names_of(l@),
        }
    }

    /// Whether `source` counts as configured: in a list, as one of its
    /// entries; in an inline list, where it occurs before or after a space.
    pub open spec fn holds(&self, source: Seq<char>) -> bool {
        match self {
            CspDirectiveSources::Inline(s) => has_substring(s@, source + seq![' '])
                || has_substring(s@, seq![' '] + source),
            CspDirectiveSources::List(l) => lists(l@, source),
        }
    }

    /// The sources as a list.
    pub fn into_list(self) -> (v: Vec<String>)
        ensures
            names_of(v@) == self.sources(),
    {
        match self {
            CspDirectiveSources::Inline(s) => split(s.as_str(), ' '),
            CspDirectiveSources::List(l) => l,
        }
    }

    /// Whether the given source is configured on this directive or not.
    pub fn contains(&self, source: &str) -> (b: bool)
        ensures
            b == self.holds(source@),
    {
        match self {
            CspDirectiveSources::Inline(s) => {
                let text = chars_of(s.as_str());
                let mut after = chars_of(source);
                after.push(' ');
                let mut before: Vec<char> = Vec::new();
                before.push(' ');
                let mut tail = chars_of(source);
                before.append(&mut tail);
                proof {
                    assert(after@ =~= source@ + seq![' ']);
                    assert(before@ =~= seq![' '] + source@);
                }
                contains_chars(&text, &after) || contains_chars(&text, &before)
            },
            CspDirectiveSources::List(l) => crate::manifest::holds_text(l, source),
        }
    }

    /// Appends the given source to this directive.
    pub fn push(&mut self, source: &str)
        ensures
            match *old(self) {
                CspDirectiveSources::Inline(s) => *final(self) matches CspDirectiveSources::Inline(
                    t,
                ) && t@ == s@ + seq![' '] + source@,
                CspDirectiveSources::List(l) => *final(self) matches CspDirectiveSources::List(l2)
                    && names_of(l2@) == names_of(l@).push(source@),
            },
    {
        match self {
            CspDirectiveSources::Inline(s) => {
                s.append(" ");
                s.append(source);
                proof {
                    reveal_strlit(" ");
                    assert(" "@ =~= seq![' ']);
                }
            },
            CspDirectiveSources::List(l) => {
                let ghost before = names_of(l@);
                l.push(source.to_owned());
                assert(names_of(l@) =~= before.push(source@));
            },
        }
    }

    /// Extends this CSP directive source list with the given array of sources.
    pub fn extend(&mut self, sources: Vec<String>)
        ensures
            match *old(self) {
                CspDirectiveSources::Inline(s) => *final(self) matches CspDirectiveSources::Inline(
                    t,
                ) && t@ == appended(s@, names_of(sources@)),
                CspDirectiveSources::List(l) => *final(self) matches CspDirectiveSources::List(l2)
                    && names_of(l2@) == names_of(l@) + names_of(sources@),
            },
    {
        let ghost all = names_of(sources@);
        let mut i: usize = 0;
        proof {
            assert(all.take(0) =~= Seq::<Seq<char>>::empty());
            match *old(self) {
                CspDirectiveSources::Inline(s) => {},
                CspDirectiveSources::List(l) => {
                    assert(names_of(l@) + all.take(0) =~= names_of(l@));
                },
            }
        }
        while i < sources.len()
            invariant
                i <= sources.len(),
                all == names_of(sources@),
                match *old(self) {
                    CspDirectiveSources::Inline(s) => *self matches CspDirectiveSources::Inline(t)
                        && t@ == appended(s@, all.take(i as int)),
                    CspDirectiveSources::List(l) => *self matches CspDirectiveSources::List(l2)
                        && names_of(l2@) == names_of(l@) + all.take(i as int),
                },
            decreases sources.len() - i,
        {
            proof {
                assert(all.take(i + 1).drop_last() =~= all.take(i as int));
                assert(all.take(i + 1).last() == sources@[i as int]@);
                match *old(self) {
                    CspDirectiveSources::Inline(s) => {},
                    CspDirectiveSources::List(l) => {
                        assert((names_of(l@) + all.take(i as int)).push(sources@[i as int]@)
                            =~= names_of(l@) + all.take(i + 1));
                    },
                }
            }
            self.push(sources[i].as_str());
            i += 1;
        }
        proof {
            assert(all.take(sources.len() as int) =~= all);
        }
    }
}

/// The inline list `s` with each text of `more` appended after a space.
pub open spec fn appended(s: Seq<char>, more: Seq<Seq<char>>) -> Seq<char>
    decreases more.len(),
{
    if more.len() == 0 {
        s
    } else {
        appended(s, more.drop_last()) + seq![' '] + more.last()
    }
}

/// A Content-Security-Policy definition.
#[derive(Debug, PartialEq, Eq, Clone)]
pub enum Csp {
    /// The entire CSP policy in a single text string.
    Policy(String),
    /// An object mapping a directive with its sources values as a list of strings.
    DirectiveMap(NameMap<CspDirectiveSources>),
}

/// The directive that one part of a policy makes: the first word of the
/// trimmed part is the name, the words after it are the sources.
pub open spec fn directive_name(part: Seq<char>) -> Seq<char> {
    split_on(trimmed_of(part), ' ')[0]
}

/// The sources of one part of a policy: the words after the first.
pub open spec fn directive_sources(part: Seq<char>) -> Seq<Seq<char>> {
    split_on(trimmed_of(part), ' ').drop_first()
}

/// The map of directive names to source lists that the parts of a policy
/// make, a later part taking the place of an earlier one of the same name.
pub open spec fn directives_of(parts: Seq<Seq<char>>) -> Map<Seq<char>, Seq<Seq<char>>>
    decreases parts.len(),
{
    if parts.len() == 0 {
        Map::empty()
    } else {
        directives_of(parts.drop_last()).insert(
            directive_name(parts.last()),
            directive_sources(parts.last()),
        )
    }
}

/// The sources of each directive of a map.
pub open spec fn source_lists(m: Map<Seq<char>, CspDirectiveSources>) -> Map<
    Seq<char>,
    Seq<Seq<char>>,
> {
    Map::new(|k: Seq<char>| m.contains_key(k), |k: Seq<char>| m[k].sources())
}

/// The text of one directive: its name, a space, and its sources with a
/// space between neighbours.
pub open spec fn directive_text(name: Seq<char>, sources: Seq<Seq<char>>) -> Seq<char> {
    name + seq![' '] + joined_with(sources, seq![' '])
}

/// The texts of the directives named by `names`, in that order.
pub open spec fn directive_texts(
    names: Seq<Seq<char>>,
    m: Map<Seq<char>, CspDirectiveSources>,
) -> Seq<Seq<char>> {
    Seq::new(names.len(), |i: int| directive_text(names[i], m[names[i]].sources()))
}

/// The directive that a part of a policy makes once the white space at its
/// ends is gone: its first word is the name, the words after it are the
/// sources.
pub fn read_directive(part: &str) -> (directive: (String, Vec<String>))
    ensures
        directive.0@ == split_on(part@, ' ')[0],
        names_of(directive.1@) == split_on(part@, ' ').drop_first(),
{
    let mut words = split(part, ' ');
    proof {
        crate::text::lemma_split_nonempty(part@, ' ');
    }
    let ghost texts = names_of(words@);
    let name = words.remove(0);
    proof {
        assert(names_of(words@) =~= texts.drop_first());
    }
    (name, words)
}

impl Csp {
    /// A map of directives has its names in order.
    pub open spec fn wf(&self) -> bool {
        match self {
            Csp::Policy(_) => true,
            Csp::DirectiveMap(m) => m.wf(),
        }
    }

    /// The policy as a text: a policy text as it is; the directives of a
    /// map in ascending order of their names, with `; ` between them.
    pub open spec fn text(&self) -> Seq<char> {
        match self {
            Csp::Policy(s) => s@,
            Csp::DirectiveMap(m) => joined_with(directive_texts(m.names(), m@), "; "@),
        }
    }

    /// The policy made of the given directives.
    pub fn from_directives(map: NameMap<CspDirectiveSources>) -> (c: Csp)
        ensures
            c == Csp::DirectiveMap(map),
    {
        Csp::DirectiveMap(map)
    }

    /// The directives of the policy: those of a map as they are; those of a
    /// text, split at `;` into parts and each part at its spaces.
    pub fn into_directives(self) -> (map: NameMap<CspDirectiveSources>)
        requires
            self.wf(),
        ensures
            map.wf(),
            match self {
                Csp::Policy(policy) => source_lists(map@) == directives_of(
                    split_on(policy@, ';'),
                ),
                Csp::DirectiveMap(m) => map == m,
            },
    {
        match self {
            Csp::DirectiveMap(m) => m,
            Csp::Policy(policy) => {
                let parts = split(policy.as_str(), ';');
                let ghost all = names_of(parts@);
                let mut map: NameMap<CspDirectiveSources> = NameMap::new();
                let mut i: usize = 0;
                proof {
                    assert(all.take(0) =~= Seq::<Seq<char>>::empty());
                    assert(source_lists(map@) =~= directives_of(all.take(0)));
                }
                while i < parts.len()
                    invariant
                        map.wf(),
                        i <= parts.len(),
                        all == names_of(parts@),
                        source_lists(map@) == directives_of(all.take(i as int)),
                    decreases parts.len() - i,
                {
                    let part = trim(parts[i].as_str());
                    let (name, words) = read_directive(part);
                    proof {
                        assert(all.take(i + 1).drop_last() =~= all.take(i as int));
                        assert(all.take(i + 1).last() == parts@[i as int]@);
                    }
                    let ghost before = map@;
                    map.insert(name, CspDirectiveSources::List(words));
                    proof {
                        assert(source_lists(map@) =~= source_lists(before).insert(
                            directive_name(parts@[i as int]@),
                            directive_sources(parts@[i as int]@),
                        ));
                    }
                    i += 1;
                }
                proof {
                    assert(all.take(parts.len() as int) =~= all);
                }
                map
            },
        }
    }

    /// The policy as a text: a policy text as it is; the directives of a
    /// map in ascending order of their names, each followed by its sources
    /// after spaces, with `; ` between directives.
    pub fn to_text(&self) -> (text: String)
        requires
            self.wf(),
        ensures
            text@ == self.text(),
    {
        match self {
            Csp::Policy(s) => s.clone(),
            Csp::DirectiveMap(m) => {
                let ghost all = directive_texts(m.names(), m@);
                let mut lines: Vec<String> = Vec::new();
                let mut i: usize = 0;
                proof {
                    assert(names_of(lines@) =~= all.take(0));
                }
                while i < m.len()
                    invariant
                        m.wf(),
                        i <= m.names().len(),
                        all == directive_texts(m.names(), m@),
                        names_of(lines@) == all.take(i as int),
                    decreases m.names().len() - i,
                {
                    let mut line = m.key_at(i).clone();
                    line.append(" ");
                    let sources = match m.value_at(i) {
                        CspDirectiveSources::Inline(s) => split(s.as_str(), ' '),
                        CspDirectiveSources::List(l) => copy_of(l),
                    };
                    let joined = crate::error::join(&sources, " ");
                    line.append(joined.as_str());
                    let ghost before = names_of(lines@);
                    proof {
                        reveal_strlit(" ");
                        assert(" "@ =~= seq![' ']);
                        assert(line@ == all[i as int]);
                    }
                    lines.push(line);
                    proof {
                        assert(names_of(lines@) =~= before.push(all[i as int]));
                        assert(all.take(i + 1) =~= all.take(i as int).push(all[i as int]));
                    }
                    i += 1;
                }
                proof {
                    assert(all.take(m.names().len() as int) =~= all);
                }
                crate::error::join(&lines, "; ")
            },
        }
    }
}

/// A copy of a list of texts.
fn copy_of(texts: &Vec<String>) -> (out: Vec<String>)
    ensures
        names_of(out@) == names_of(texts@),
{
    let mut out: Vec<String> = Vec::new();
    let mut i: usize = 0;
    while i < texts.len()
        invariant
            i <= texts.len(),
            out.len() == i,
            forall|k: int| 0 <= k < i ==> (#[trigger] out[k])@ == texts[k]@,
        decreases texts.len() - i,
    {
        out.push(texts[i].clone());
        i += 1;
    }
    assert(names_of(out@) =~= names_of(texts@));
    out
}

/// The possible values for the `dangerous_disable_asset_csp_modification`
/// config option.
#[derive(Debug, PartialEq, Eq, Clone)]
pub enum DisabledCspModificationKind {
    /// If `true`, disables all CSP modification. `false` is the default
    /// value and it leaves the CSP under control.
    Flag(bool),
    /// Disables the given list of CSP directives modifications.
    List(Vec<String>),
}

impl DisabledCspModificationKind {
    /// Whether `directive` may be modified.
    pub open spec fn modifiable(&self, directive: Seq<char>) -> bool {
        match self {
            DisabledCspModificationKind::Flag(f) => !*f,
            DisabledCspModificationKind::List(l) => !lists(l@, directive),
        }
    }

    /// Determines whether the given CSP directive can be modified or not.
    pub fn can_modify(&self, directive: &str) -> (b: bool)
        ensures
            b == self.modifiable(directive@),
    {
        match self {
            DisabledCspModificationKind::Flag(f) => !*f,
            DisabledCspModificationKind::List(l) => !crate::manifest::holds_text(l, directive),
        }
    }
}

impl Default for DisabledCspModificationKind {
    fn default() -> (k: DisabledCspModificationKind)
        ensures
            k == DisabledCspModificationKind::Flag(false),
    {
        DisabledCspModificationKind::Flag(false)
    }
}

/// External command access definition.
#[derive(Debug, PartialEq, Eq, Clone)]
pub struct RemoteDomainAccessScope {
    /// The URL scheme to allow. By default, all schemas are allowed.
    pub scheme: Option<String>,
    /// The domain to allow.
    pub domain: String,
    /// The list of window labels this scope applies to.
    pub windows: Vec<String>,
    /// The list of plugins that are allowed in this scope.
    pub plugins: Vec<String>,
}

/// Protocol scope definition.
/// It is a list of glob patterns that restrict the API access from the webview.
#[derive(Debug, PartialEq, Eq, Clone)]
pub enum FsScope {
    /// A list of paths that are allowed by this scope.
    AllowedPaths(Vec<String>),
    /// A complete scope configuration.
    Scope {
        /// A list of paths that are allowed by this scope.
        allow: Vec<String>,
        /// A list of paths that are not allowed by this scope. This gets
        /// precedence over the [`Self::Scope::allow`] list.
        deny: Vec<String>,
        /// Whether or not paths that contain components that start with a
        /// `.` will require that `.` appears literally in the pattern.
        require_literal_leading_dot: Option<bool>,
    },
}

impl Default for FsScope {
    fn default() -> (s: FsScope)
        ensures
            s matches FsScope::AllowedPaths(p) && p@.len() == 0,
    {
        FsScope::AllowedPaths(Vec::new())
    }
}

impl FsScope {
    /// The list of allowed paths.
    pub fn allowed_paths(&self) -> (paths: &Vec<String>)
        ensures
            match self {
                FsScope::AllowedPaths(p) => paths == p,
                FsScope::Scope { allow, .. } => paths == allow,
            },
    {
        match self {
            FsScope::AllowedPaths(p) => p,
            FsScope::Scope { allow, .. } => allow,
        }
    }

    /// The list of forbidden paths.
    pub fn forbidden_paths(&self) -> (paths: Option<&Vec<String>>)
        ensures
            match self {
                FsScope::AllowedPaths(_) => paths is None,
                FsScope::Scope { deny, .. } => paths == Some(deny),
            },
    {
        match self {
            FsScope::AllowedPaths(_) => None,
            FsScope::Scope { deny, .. } => Some(deny),
        }
    }
}

/// Config for the asset custom protocol.
#[derive(Debug, PartialEq, Eq, Clone)]
pub struct AssetProtocolConfig {
    /// The access scope for the asset protocol.
    pub scope: FsScope,
    /// Enables the asset protocol.
    pub enable: bool,
}

impl AssetProtocolConfig {
    /// Whether the protocol is switched off and allows no path.
    pub open spec fn is_default(&self) -> bool {
        &&& self.scope matches FsScope::AllowedPaths(p) && p@.len() == 0
        &&& !self.enable
    }
}

impl Default for AssetProtocolConfig {
    fn default() -> (c: AssetProtocolConfig)
        ensures
            c.is_default(),
    {
        AssetProtocolConfig { scope: FsScope::default(), enable: false }
    }
}

/// Security configuration.
#[derive(Debug, PartialEq, Eq, Clone)]
pub struct SecurityConfig {
    /// The Content Security Policy that will be injected on all HTML files
    /// on the built application.
    pub csp: Option<Csp>,
    /// The Content Security Policy that will be injected on all HTML files
    /// on development.
    pub dev_csp: Option<Csp>,
    /// Freeze the `Object.prototype` when using the custom protocol.
    pub freeze_prototype: bool,
    /// Disables the injected CSP sources.
    pub dangerous_disable_asset_csp_modification: DisabledCspModificationKind,
    /// Custom protocol config.
    pub asset_protocol: AssetProtocolConfig,
}

impl SecurityConfig {
    /// Whether the configuration is the one of an application that
    /// configures nothing: no policy, the prototype not frozen, the policy
    /// open to modification and the asset protocol switched off.
    pub open spec fn is_default(&self) -> bool {
        &&& self.csp is None
        &&& self.dev_csp is None
        &&& !self.freeze_prototype
        &&& self.dangerous_disable_asset_csp_modification == DisabledCspModificationKind::Flag(
            false,
        )
        &&& self.asset_protocol.is_default()
    }
}

impl Default for SecurityConfig {
    fn default() -> (c: SecurityConfig)
        ensures
            c.is_default(),
    {
        SecurityConfig {
            csp: None,
            dev_csp: None,
            freeze_prototype: false,
            dangerous_disable_asset_csp_modification: DisabledCspModificationKind::default(),
            asset_protocol: AssetProtocolConfig::default(),
        }
    }
}

} // verus!
