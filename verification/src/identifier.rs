//! Identifiers of permissions: a namespace, a colon and a name.

use crate::error::AclError;
use crate::text::chars_of;
use vstd::prelude::*;
use vstd::string::*;

verus! {

/// A character that a namespace may hold: an ASCII letter or digit, or `-`.
pub open spec fn is_namespace_char(c: char) -> bool {
    ('a' <= c && c <= 'z') || ('A' <= c && c <= 'Z') || ('0' <= c && c <= '9') || c == '-'
}

/// A character that a name may hold: what a namespace may hold, or `_`.
pub open spec fn is_name_char(c: char) -> bool {
    is_namespace_char(c) || c == '_'
}

/// A namespace: at least one character, each a namespace character.
pub open spec fn is_namespace(s: Seq<char>) -> bool {
    s.len() > 0 && forall|i: int| 0 <= i < s.len() ==> is_namespace_char(#[trigger] s[i])
}

/// A name: at least one character, each a name character.
pub open spec fn is_name(s: Seq<char>) -> bool {
    s.len() > 0 && forall|i: int| 0 <= i < s.len() ==> is_name_char(#[trigger] s[i])
}

/// The text of the identifier with namespace `ns` and name `name`.
pub open spec fn joined(ns: Seq<char>, name: Seq<char>) -> Seq<char> {
    ns + seq![':'] + name
}

/// Whether `s` splits at position `k` into a namespace, a colon and a name.
pub open spec fn splits_at(s: Seq<char>, k: int) -> bool {
    &&& 0 <= k < s.len()
    &&& s[k] == ':'
    &&& is_namespace(s.subrange(0, k))
    &&& is_name(s.subrange(k + 1, s.len() as int))
}

/// Whether `s` is an identifier: a namespace, a colon and a name.
pub open spec fn well_formed(s: Seq<char>) -> bool {
    exists|k: int| splits_at(s, k)
}

/// The name that stands for the default permission of a manifest.
pub open spec fn default_name() -> Seq<char> {
    "default"@
}

/// A text splits in at most one place.
pub proof fn lemma_split_unique(s: Seq<char>, j: int, k: int)
    requires
        splits_at(s, j),
        splits_at(s, k),
    ensures
        j == k,
{
    if j < k {
        assert(s.subrange(0, k)[j] == s[j]);
    } else if k < j {
        assert(s.subrange(0, j)[k] == s[k]);
    }
}

/// The joined text of a namespace and a name is an identifier.
pub proof fn lemma_joined_well_formed(ns: Seq<char>, name: Seq<char>)
    requires
        is_namespace(ns),
        is_name(name),
    ensures
        well_formed(joined(ns, name)),
        splits_at(joined(ns, name), ns.len() as int),
{
    let s = joined(ns, name);
    let k = ns.len() as int;
    assert(s.subrange(0, k) =~= ns);
    assert(s.subrange(k + 1, s.len() as int) =~= name);
    assert(splits_at(s, k));
}

/// An identifier names one thing: different pairs of namespace and name
/// give different identifiers.
pub proof fn law_identifier_unambiguous(a: Seq<char>, b: Seq<char>, c: Seq<char>, d: Seq<char>)
    requires
        is_namespace(a),
        is_name(b),
        is_namespace(c),
        is_name(d),
        joined(a, b) == joined(c, d),
    ensures
        a == c,
        b == d,
{
    lemma_joined_well_formed(a, b);
    lemma_joined_well_formed(c, d);
    lemma_split_unique(joined(a, b), a.len() as int, c.len() as int);
    let s = joined(a, b);
    assert(a =~= s.subrange(0, a.len() as int));
    assert(c =~= s.subrange(0, a.len() as int));
    assert(b =~= s.subrange(a.len() as int + 1, s.len() as int));
    assert(d =~= s.subrange(a.len() as int + 1, s.len() as int));
}

/// Whether `c` may stand in a namespace.
pub fn namespace_char(c: char) -> (b: bool)
    ensures
        b == is_namespace_char(c),
{
    ('a' <= c && c <= 'z') || ('A' <= c && c <= 'Z') || ('0' <= c && c <= '9') || c == '-'
}

/// Whether `c` may stand in a name.
pub fn name_char(c: char) -> (b: bool)
    ensures
        b == is_name_char(c),
{
    namespace_char(c) || c == '_'
}

/// The identifier of a permission, a permission set or a default permission.
#[derive(Clone, Debug, PartialEq, Eq)]
pub struct Identifier {
    namespace: String,
    name: String,
}

impl Identifier {
    /// The namespace: the plugin, or the application, that declares the permission.
    pub closed spec fn namespace_view(&self) -> Seq<char> {
        self.namespace@
    }

    /// The name within the namespace.
    pub closed spec fn name_view(&self) -> Seq<char> {
        self.name@
    }

    /// The two parts have the shapes of a namespace and of a name.
    pub open spec fn wf(&self) -> bool {
        is_namespace(self.namespace_view()) && is_name(self.name_view())
    }

    /// The identifier as one text.
    pub open spec fn text(&self) -> Seq<char> {
        joined(self.namespace_view(), self.name_view())
    }

    /// Reads an identifier. It fails exactly on texts that are not a
    /// namespace, a colon and a name.
    pub fn parse(s: &str) -> (r: Result<Identifier, AclError>)
        ensures
            r is Ok <==> well_formed(s@),
            r matches Ok(id) ==> id.wf() && id.text() == s@,
            r matches Err(e) ==> e matches AclError::MalformedIdentifier { identifier }
                && identifier@ == s@,
    {
        let chars = chars_of(s);
        let n = chars.len();
        let mut k: usize = 0;
        while k < n && chars[k] != ':'
            invariant
                k <= n,
                n == chars.len(),
                chars@ == s@,
                forall|i: int| 0 <= i < k ==> is_namespace_char(#[trigger] chars[i]),
            decreases n - k,
        {
            if !namespace_char(chars[k]) {
                proof {
                    assert forall|j: int| !splits_at(s@, j) by {
                        if splits_at(s@, j) {
                            if j > k {
                                assert(s@.subrange(0, j)[k as int] == s@[k as int]);
                            }
                        }
                    }
                }
                return Err(AclError::MalformedIdentifier { identifier: s.to_owned() });
            }
            k += 1;
        }
        if k == 0 || k >= n {
            proof {
                assert forall|j: int| !splits_at(s@, j) by {
                    if splits_at(s@, j) {
                        if k == 0 && n > 0 {
                            if j > 0 {
                                assert(s@.subrange(0, j)[0] == s@[0]);
                            } else {
                                assert(s@.subrange(0, j).len() == 0);
                            }
                        }
                    }
                }
            }
            return Err(AclError::MalformedIdentifier { identifier: s.to_owned() });
        }
        let mut i: usize = k + 1;
        while i < n
            invariant
                k < i <= n,
                n == chars.len(),
                chars@ == s@,
                chars[k as int] == ':',
                forall|j: int| 0 <= j < k ==> is_namespace_char(#[trigger] chars[j]),
                forall|j: int| k < j < i ==> is_name_char(#[trigger] chars[j]),
            decreases n - i,
        {
            if !name_char(chars[i]) {
                proof {
                    assert forall|j: int| !splits_at(s@, j) by {
                        if splits_at(s@, j) {
                            if j > k {
                                assert(s@.subrange(0, j)[k as int] == s@[k as int]);
                            } else if j == k {
                                assert(s@.subrange(j + 1, n as int)[i - j - 1] == s@[i as int]);
                            }
                        }
                    }
                }
                return Err(AclError::MalformedIdentifier { identifier: s.to_owned() });
            }
            i += 1;
        }
        if k + 1 == n {
            proof {
                assert forall|j: int| !splits_at(s@, j) by {
                    if splits_at(s@, j) {
                        if j > k {
                            assert(s@.subrange(0, j)[k as int] == s@[k as int]);
                        } else if j == k {
                            assert(s@.subrange(j + 1, n as int).len() == 0);
                        }
                    }
                }
            }
            return Err(AclError::MalformedIdentifier { identifier: s.to_owned() });
        }
        let namespace = s.substring_char(0, k).to_owned();
        let name = s.substring_char(k + 1, n).to_owned();
        let id = Identifier { namespace, name };
        proof {
            assert(splits_at(s@, k as int));
            assert(id.text() =~= s@);
        }
        Ok(id)
    }

    /// The identifier with the given namespace and name, if they have the
    /// shapes of a namespace and of a name.
    pub fn new(namespace: &str, name: &str) -> (r: Result<Identifier, AclError>)
        ensures
            r is Ok <==> is_namespace(namespace@) && is_name(name@),
            r matches Ok(id) ==> id.wf() && id.namespace_view() == namespace@ && id.name_view()
                == name@,
            r matches Err(e) ==> e matches AclError::MalformedIdentifier { identifier }
                && identifier@ == joined(namespace@, name@),
    {
        let ns = chars_of(namespace);
        let nm = chars_of(name);
        let mut ok = ns.len() > 0 && nm.len() > 0;
        let mut i: usize = 0;
        while i < ns.len()
            invariant
                i <= ns.len(),
                ok == (ns.len() > 0 && nm.len() > 0 && forall|j: int|
                    0 <= j < i ==> is_namespace_char(#[trigger] ns[j])),
            decreases ns.len() - i,
        {
            if !namespace_char(ns[i]) {
                ok = false;
            }
            i += 1;
        }
        let mut j: usize = 0;
        while j < nm.len()
            invariant
                j <= nm.len(),
                ok == (is_namespace(ns@) && nm.len() > 0 && forall|x: int|
                    0 <= x < j ==> is_name_char(#[trigger] nm[x])),
            decreases nm.len() - j,
        {
            if !name_char(nm[j]) {
                ok = false;
            }
            j += 1;
        }
        if ok {
            Ok(Identifier { namespace: namespace.to_owned(), name: name.to_owned() })
        } else {
            let mut text = namespace.to_owned();
            text.append(":");
            text.append(name);
            proof {
                reveal_strlit(":");
                assert(":"@ =~= seq![':']);
            }
            Err(AclError::MalformedIdentifier { identifier: text })
        }
    }

    /// The namespace.
    pub fn namespace(&self) -> (ns: &str)
        ensures
            ns@ == self.namespace_view(),
    {
        self.namespace.as_str()
    }

    /// The name within the namespace.
    pub fn name(&self) -> (name: &str)
        ensures
            name@ == self.name_view(),
    {
        self.name.as_str()
    }

    /// The identifier as one text, `namespace:name`.
    pub fn get(&self) -> (text: String)
        ensures
            text@ == self.text(),
    {
        let mut text = self.namespace.clone();
        text.append(":");
        text.append(self.name.as_str());
        proof {
            reveal_strlit(":");
            assert(":"@ =~= seq![':']);
        }
        text
    }

    /// Whether the identifier names the default permission of its namespace.
    pub fn is_default(&self) -> (b: bool)
        ensures
            b == (self.name_view() == default_name()),
    {
        crate::text::same_text(self.name.as_str(), "default")
    }
}

} // verus!
