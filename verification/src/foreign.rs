//! Calls into other crates, and into parts of the standard library whose
//! behaviour is taken on trust. Each is a function of its arguments alone;
//! where what it returns takes pages to say, the result gets a name and the
//! contracts of the library speak of that name.

use crate::text::names_of;
use vstd::prelude::*;

verus! {

/// The kebab-case form of a text, as `heck` computes it.
pub uninterp spec fn kebab_case_of(s: Seq<char>) -> Seq<char>;

/// `heck::ToKebabCase::to_kebab_case` on a `str`: splits the text into words
/// and joins their lower-case forms with hyphens. Trusted: the result is the
/// named function of the text.
#[verifier::external_body]
pub(crate) fn kebab_case(s: &str) -> (r: String)
    ensures
        r@ == kebab_case_of(s@),
{
    heck::ToKebabCase::to_kebab_case(s)
}

/// The lower-case form of a text by the rules of Unicode.
pub uninterp spec fn lowercase_of(s: Seq<char>) -> Seq<char>;

/// `str::to_lowercase`: the lower-case equivalent of the text. Trusted: the
/// result is the named function of the text.
#[verifier::external_body]
pub(crate) fn lowercase(s: &str) -> (r: String)
    ensures
        r@ == lowercase_of(s@),
{
    s.to_lowercase()
}

/// A text without the white space at its two ends.
pub uninterp spec fn trimmed_of(s: Seq<char>) -> Seq<char>;

/// `str::trim`: the text with leading and trailing white space removed.
/// Trusted: the result is the named function of the text.
#[verifier::external_body]
pub(crate) fn trim<'a>(s: &'a str) -> (r: &'a str)
    ensures
        r@ == trimmed_of(s@),
{
    s.trim()
}

/// A text with every occurrence of a pattern replaced by another text.
pub uninterp spec fn replaced_of(s: Seq<char>, from: Seq<char>, to: Seq<char>) -> Seq<char>;

/// `str::replace`: the text with all matches of `from` replaced by `to`.
/// Trusted: the result is the named function of the three texts.
#[verifier::external_body]
pub(crate) fn replace(s: &str, from: &str, to: &str) -> (r: String)
    ensures
        r@ == replaced_of(s@, from@, to@),
{
    s.replace(from, to)
}

/// The text that `semver` prints for the version that it reads from a
/// text, if it reads one.
pub uninterp spec fn semver_form_of(s: Seq<char>) -> Option<Seq<char>>;

/// `semver::Version::parse`, and the text of the version read. Trusted: the
/// result is the named function of the text; it is `None` exactly where the
/// parser returns an error.
#[verifier::external_body]
pub(crate) fn semver_form(s: &str) -> (r: Option<String>)
    ensures
        r is Some <==> semver_form_of(s@) is Some,
        r matches Some(t) ==> semver_form_of(s@) == Some(t@),
{
    match semver::Version::parse(s) {
        Ok(version) => Some(version.to_string()),
        Err(_) => None,
    }
}

/// The serialization of the URL that `url` reads from a text, if it reads one.
pub uninterp spec fn url_form_of(s: Seq<char>) -> Option<Seq<char>>;

/// `url::Url::parse`, and the serialization of the URL read. Trusted: the
/// result is the named function of the text; it is `None` exactly where the
/// parser returns an error.
#[verifier::external_body]
pub(crate) fn url_form(s: &str) -> (r: Option<String>)
    ensures
        r is Some <==> url_form_of(s@) is Some,
        r matches Some(t) ==> url_form_of(s@) == Some(t@),
{
    match url::Url::parse(s) {
        Ok(parsed) => Some(String::from(parsed)),
        Err(_) => None,
    }
}

/// The host of the URL that `url` reads from a text, if it reads one and
/// the URL has a host.
pub uninterp spec fn url_host_of(s: Seq<char>) -> Option<Seq<char>>;

/// `url::Url::host_str` on the URL that `url::Url::parse` reads from the
/// text. Trusted: the result is the named function of the text; it is
/// `None` where the parser returns an error and where the URL has no host.
#[verifier::external_body]
pub(crate) fn url_host(s: &str) -> (r: Option<String>)
    ensures
        r is Some <==> url_host_of(s@) is Some,
        r matches Some(t) ==> url_host_of(s@) == Some(t@),
{
    match url::Url::parse(s) {
        Ok(parsed) => match parsed.host_str() {
            Some(host) => Some(host.to_owned()),
            None => None,
        },
        Err(_) => None,
    }
}

/// What a text holds under a key when it is read as JSON.
#[derive(Clone, Debug, PartialEq, Eq)]
pub enum JsonMember {
    /// The text is not JSON; the message says why.
    Invalid(String),
    /// The text is JSON, but no object.
    NotObject,
    /// The object has no member under the key.
    Missing,
    /// The member under the key is no string.
    NotText,
    /// The string under the key.
    Text(String),
}

/// A member as texts.
pub ghost enum MemberModel {
    Invalid(Seq<char>),
    NotObject,
    Missing,
    NotText,
    Text(Seq<char>),
}

impl View for JsonMember {
    type V = MemberModel;

    open spec fn view(&self) -> MemberModel {
        match self {
            JsonMember::Invalid(e) => MemberModel::Invalid(e@),
            JsonMember::NotObject => MemberModel::NotObject,
            JsonMember::Missing => MemberModel::Missing,
            JsonMember::NotText => MemberModel::NotText,
            JsonMember::Text(t) => MemberModel::Text(t@),
        }
    }
}

/// What `serde_json` finds under a key in a text.
pub uninterp spec fn json_member_of(text: Seq<char>, key: Seq<char>) -> MemberModel;

/// `serde_json::from_str` to a `serde_json::Value`, and `serde_json::Map::get`
/// on the object read. Trusted: the result is the named function of the text
/// and the key; it is `Invalid`, with the message of the error, exactly
/// where the parser returns an error.
#[verifier::external_body]
pub(crate) fn json_member(text: &str, key: &str) -> (r: JsonMember)
    ensures
        r@ == json_member_of(text@, key@),
{
    match serde_json::from_str::<serde_json::Value>(text) {
        Err(error) => JsonMember::Invalid(error.to_string()),
        Ok(serde_json::Value::Object(object)) => match object.get(key) {
            None => JsonMember::Missing,
            Some(serde_json::Value::String(found)) => JsonMember::Text(found.clone()),
            Some(_) => JsonMember::NotText,
        },
        Ok(_) => JsonMember::NotObject,
    }
}

/// The JSON text of a list of texts, where `serde_json` writes one.
pub uninterp spec fn json_list_of(list: Seq<Seq<char>>) -> Option<Seq<char>>;

/// `serde_json::to_string` on a list of texts. Trusted: the result is the
/// named function of the texts; it is `None` exactly where the serializer
/// returns an error.
#[verifier::external_body]
pub(crate) fn json_list(list: &Vec<String>) -> (r: Option<String>)
    ensures
        r is Some <==> json_list_of(names_of(list@)) is Some,
        r matches Some(t) ==> json_list_of(names_of(list@)) == Some(t@),
{
    match serde_json::to_string(list) {
        Ok(text) => Some(text),
        Err(_) => None,
    }
}

} // verus!
