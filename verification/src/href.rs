//! Navigation-target resolution for the two-view site topology: one
//! all-symbols index (which is the root view) and one page per symbol.

use vstd::prelude::*;
use crate::decl::Location;

verus! {

/// A navigation target on the generated site.
pub enum UrlResolveKind {
    Root,
    AllSymbols,
    File(String),
    Symbol(String),
}

pub ghost enum SpecUrlResolveKind {
    Root,
    AllSymbols,
    File(Seq<char>),
    Symbol(Seq<char>),
}

impl View for UrlResolveKind {
    type V = SpecUrlResolveKind;

    open spec fn view(&self) -> SpecUrlResolveKind {
        match self {
            UrlResolveKind::Root => SpecUrlResolveKind::Root,
            UrlResolveKind::AllSymbols => SpecUrlResolveKind::AllSymbols,
            UrlResolveKind::File(p) => SpecUrlResolveKind::File(p@),
            UrlResolveKind::Symbol(s) => SpecUrlResolveKind::Symbol(s@),
        }
    }
}

/// The fixed site root every generated URL hangs under.
pub open spec fn spec_site_root() -> Seq<char> {
    "/api"@
}

pub fn site_root() -> (r: String)
    ensures
        r@ == spec_site_root(),
{
    String::from_str("/api")
}

/// The URL a navigation target resolves to. The root and the all-symbols
/// index share one URL (the index is the root view); a symbol lives at
/// `{root}/{name}`. Per-file views do not exist on this site, so `File`
/// has no URL.
pub open spec fn spec_resolve_path(target: SpecUrlResolveKind) -> Seq<char> {
    match target {
        SpecUrlResolveKind::Root => spec_site_root(),
        SpecUrlResolveKind::AllSymbols => spec_site_root(),
        SpecUrlResolveKind::File(_) => Seq::<char>::empty(),
        SpecUrlResolveKind::Symbol(name) => spec_site_root() + "/"@ + name,
    }
}

/// Maps navigation targets to site-relative URLs under the fixed two-view
/// topology. A host site with a different topology substitutes a different
/// resolver without touching extraction or partitioning.
pub struct DocusaurusResolver {}

impl DocusaurusResolver {
    /// Resolve a navigation target to a site-relative URL. The site has no
    /// per-file views, so asking for one is a logic error and is ruled out.
    pub fn resolve_path(&self, current: &UrlResolveKind, target: &UrlResolveKind) -> (r: String)
        requires
            !(target@ is File),
        ensures
            r@ == spec_resolve_path(target@),
    {
        match target {
            UrlResolveKind::Root => site_root(),
            UrlResolveKind::AllSymbols => site_root(),
            UrlResolveKind::File(_) => site_root(),
            UrlResolveKind::Symbol(name) => site_root().concat("/").concat(name.as_str()),
        }
    }

    /// No ambient global namespace is exposed, so a global symbol never
    /// resolves.
    pub fn resolve_global_symbol(&self, symbol: &Vec<String>) -> (r: Option<String>)
        ensures
            r is None,
    {
        None
    }

    /// No import blocks are rendered, so an import origin never resolves.
    pub fn resolve_import_href(&self, symbol: &Vec<String>, src: &str) -> (r: Option<String>)
        ensures
            r is None,
    {
        None
    }

    /// Usage blocks are suppressed, so a usage snippet never resolves.
    pub fn resolve_usage(&self, current_specifier: &str, current_file: &str) -> (r: Option<String>)
        ensures
            r is None,
    {
        None
    }

    /// No durable source mapping exists, so a source line never resolves.
    pub fn resolve_source(&self, location: &Location) -> (r: Option<String>)
        ensures
            r is None,
    {
        None
    }
}

/// Law: a symbol named `n` always resolves to `{root}/n`, and the
/// all-symbols index always resolves to the same URL as the root.
pub proof fn lemma_resolve_path_policy(n: Seq<char>)
    ensures
        spec_resolve_path(SpecUrlResolveKind::Symbol(n)) == spec_site_root() + "/"@ + n,
        spec_resolve_path(SpecUrlResolveKind::AllSymbols) == spec_resolve_path(
            SpecUrlResolveKind::Root,
        ),
{
}

} // verus!
