//! Assets for applications that embed none.

use crate::names::names_of;
use vstd::prelude::*;

verus! {

/// The hash of an inline script or style of a page.
#[derive(Debug, Clone, PartialEq, Eq)]
pub enum CspHash {
    /// The hash of a script.
    Script(String),
    /// The hash of a style.
    Style(String),
}

/// A collection of assets that holds nothing.
#[derive(Debug, Clone, PartialEq, Eq)]
pub struct NoopAsset {
    assets: Vec<(String, Vec<u8>)>,
    csp_hashes: Vec<CspHash>,
}

impl NoopAsset {
    /// The keys of the assets held, in their order.
    pub closed spec fn key_names(&self) -> Seq<Seq<char>> {
        Seq::new(self.assets@.len(), |i: int| self.assets@[i].0@)
    }

    /// The hashes held, in their order.
    pub closed spec fn hashes(&self) -> Seq<CspHash> {
        self.csp_hashes@
    }

    /// The asset under `key`: there is none, whatever the key.
    pub fn get(&self, key: &str) -> (r: Option<Vec<u8>>)
        ensures
            r is None,
    {
        None
    }

    /// The keys of the assets held, in their order.
    pub fn keys(&self) -> (out: Vec<String>)
        ensures
            names_of(out@) == self.key_names(),
    {
        let mut out: Vec<String> = Vec::new();
        let mut i: usize = 0;
        while i < self.assets.len()
            invariant
                i <= self.assets.len(),
                out@.len() == i,
                forall|k: int| 0 <= k < i ==> (#[trigger] out@[k])@ == self.assets@[k].0@,
            decreases self.assets.len() - i,
        {
            out.push(self.assets[i].0.clone());
            i += 1;
        }
        assert(names_of(out@) =~= self.key_names());
        out
    }

    /// The hashes for the page at `html_path`, in their order.
    pub fn csp_hashes(&self, html_path: &str) -> (out: &Vec<CspHash>)
        ensures
            out@ == self.hashes(),
    {
        &self.csp_hashes
    }
}

/// Creates a new empty collection of assets.
pub fn noop_assets() -> (a: NoopAsset)
    ensures
        a.key_names() == Seq::<Seq<char>>::empty(),
        a.hashes() == Seq::<CspHash>::empty(),
{
    let a = NoopAsset { assets: Vec::new(), csp_hashes: Vec::new() };
    assert(a.key_names() =~= Seq::<Seq<char>>::empty());
    a
}

} // verus!
