//! The one-shot generation pipeline and the output assembler.
//!
//! The pipeline is a pure function from declaration text to a virtual file
//! tree: build the graph, check it is valid, extract the documentable
//! symbols, partition them, render the views and assemble the deterministic
//! `(path, content)` map. Every fatal condition surfaces as one error
//! value; nothing is emitted for a partial run, and re-running on the same
//! text yields an identical file set.

use vstd::prelude::*;
use crate::decl::{DocNodeWithOrigin, SpecDocNodeWithOrigin, nodes_view};
use crate::extract::{extract_docs, spec_extract};
use crate::graph::{VirtualLoader, build_graph, spec_build, spec_synthetic_specifier,
    synthetic_specifier};
use crate::href::{DocusaurusResolver, UrlResolveKind};
use crate::parse::lines_view;
use crate::partition::{name_groups_view, partition_by_kind, partition_by_name,
    spec_partition_by_kind, spec_partition_by_name};
use crate::render::{RenderContext, render_breadcrumbs, render_index,
    render_sidepanel, render_symbol_main, root_breadcrumbs, spec_render_breadcrumbs,
    spec_render_index, spec_render_sidepanel, spec_render_symbol_main, spec_root_crumbs,
    spec_symbol_crumbs, symbol_breadcrumbs};

verus! {

/// A fatal condition of one generation run.
#[derive(Clone, Copy, PartialEq, Eq, Structural, Debug)]
pub enum GenError {
    /// The built graph recorded a diagnostic: an unexpected specifier was
    /// requested, so the graph is partial and is never rendered.
    InvalidGraph,
    /// Two symbol groups normalized to the same output path.
    PathCollision,
}

pub open spec fn spec_gen_error_message(e: GenError) -> Seq<char> {
    match e {
        GenError::InvalidGraph => "invalid module graph"@,
        GenError::PathCollision => "output path collision"@,
    }
}

impl GenError {
    /// The single human-readable diagnostic line of a failed run.
    pub fn message(&self) -> (r: String)
        ensures
            r@ == spec_gen_error_message(*self),
    {
        match self {
            GenError::InvalidGraph => String::from_str("invalid module graph"),
            GenError::PathCollision => String::from_str("output path collision"),
        }
    }
}

/// The three fragments of one symbol's view, kept separate because the
/// host site composes them into different regions.
pub struct SymbolPage {
    pub name: String,
    pub breadcrumbs_html: String,
    pub sidepanel_html: String,
    pub main_html: String,
}

pub ghost struct SpecSymbolPage {
    pub name: Seq<char>,
    pub breadcrumbs_html: Seq<char>,
    pub sidepanel_html: Seq<char>,
    pub main_html: Seq<char>,
}

impl View for SymbolPage {
    type V = SpecSymbolPage;

    open spec fn view(&self) -> SpecSymbolPage {
        SpecSymbolPage {
            name: self.name@,
            breadcrumbs_html: self.breadcrumbs_html@,
            sidepanel_html: self.sidepanel_html@,
            main_html: self.main_html@,
        }
    }
}

pub open spec fn pages_view(v: Seq<SymbolPage>) -> Seq<SpecSymbolPage> {
    v.map_values(|p: SymbolPage| p@)
}

/// The symbol views of the name partition `groups`, in first-appearance
/// order; every page's side panel lists all of `all`'s names.
pub open spec fn spec_symbol_pages(
    all: Seq<(Seq<char>, Seq<SpecDocNodeWithOrigin>)>,
    groups: Seq<(Seq<char>, Seq<SpecDocNodeWithOrigin>)>,
) -> Seq<SpecSymbolPage>
    decreases groups.len(),
{
    if groups.len() == 0 {
        Seq::empty()
    } else {
        spec_symbol_pages(all, groups.drop_last()).push(
            SpecSymbolPage {
                name: groups.last().0,
                breadcrumbs_html: spec_render_breadcrumbs(spec_symbol_crumbs(groups.last().0)),
                sidepanel_html: spec_render_sidepanel(all),
                main_html: spec_render_symbol_main(groups.last().0, groups.last().1),
            },
        )
    }
}

/// Render the three fragments of every symbol view.
pub fn render_symbol_views(
    resolver: &DocusaurusResolver,
    groups: &Vec<(String, Vec<DocNodeWithOrigin>)>,
) -> (r: Vec<SymbolPage>)
    ensures
        pages_view(r@) == spec_symbol_pages(name_groups_view(groups@), name_groups_view(groups@)),
{
    let ghost gv = name_groups_view(groups@);
    let mut out: Vec<SymbolPage> = Vec::new();
    let n = groups.len();
    let mut i: usize = 0;
    proof {
        assert(gv.take(0) =~= Seq::<(Seq<char>, Seq<SpecDocNodeWithOrigin>)>::empty());
        assert(pages_view(out@) =~= Seq::<SpecSymbolPage>::empty());
    }
    while i < n
        invariant
            n == groups@.len(),
            i <= n,
            gv == name_groups_view(groups@),
            pages_view(out@) == spec_symbol_pages(gv, gv.take(i as int)),
        decreases n - i,
    {
        let ghost prev = pages_view(out@);
        let name = groups[i].0.clone();
        let ctx = RenderContext {
            location: UrlResolveKind::Symbol(name.clone()),
            breadcrumbs: symbol_breadcrumbs(resolver, name.as_str()),
            resolver: DocusaurusResolver {},
        };
        let page = SymbolPage {
            breadcrumbs_html: render_breadcrumbs(&ctx),
            sidepanel_html: render_sidepanel(resolver, groups),
            main_html: render_symbol_main(name.as_str(), &groups[i].1),
            name,
        };
        let ghost pv = page@;
        out.push(page);
        proof {
            assert(pages_view(out@) =~= prev.push(pv));
            assert(gv.take(i + 1).drop_last() =~= gv.take(i as int));
            assert(gv.take(i + 1).last() == gv[i as int]);
            assert(pages_view(out@) =~= spec_symbol_pages(gv, gv.take(i + 1)));
        }
        i += 1;
    }
    proof {
        assert(gv.take(n as int) =~= gv);
    }
    out
}

/// The view of the output file map.
pub open spec fn files_view(v: Seq<(String, String)>) -> Seq<(Seq<char>, Seq<char>)> {
    v.map_values(|f: (String, String)| (f.0@, f.1@))
}

/// Some file already claims the path `p`.
pub open spec fn spec_has_path(files: Seq<(Seq<char>, Seq<char>)>, p: Seq<char>) -> bool {
    exists|i: int| 0 <= i < files.len() && (#[trigger] files[i]).0 == p
}

fn has_path(files: &Vec<(String, String)>, p: &str) -> (r: bool)
    ensures
        r == spec_has_path(files_view(files@), p@),
{
    let n = files.len();
    let mut i: usize = 0;
    while i < n
        invariant
            n == files@.len(),
            i <= n,
            forall|j: int| 0 <= j < i ==> (#[trigger] files@[j]).0@ != p@,
        decreases n - i,
    {
        let hit = {
            let pair = &files[i];
            crate::parse::str_eq(pair.0.as_str(), p)
        };
        if hit {
            proof {
                assert((files_view(files@)[i as int]).0 == p@);
            }
            return true;
        }
        i += 1;
    }
    proof {
        assert forall|j: int| 0 <= j < files@.len() implies (#[trigger] files_view(
            files@,
        )[j]).0 != p@ by {
            assert(files_view(files@)[j].0 == files@[j].0@);
        }
    }
    false
}

/// Insert a file under a fresh path; a taken path is a fatal collision,
/// never a silent overwrite.
pub open spec fn spec_insert_file(
    files: Seq<(Seq<char>, Seq<char>)>,
    p: Seq<char>,
    c: Seq<char>,
) -> Result<Seq<(Seq<char>, Seq<char>)>, GenError> {
    if spec_has_path(files, p) {
        Err(GenError::PathCollision)
    } else {
        Ok(files.push((p, c)))
    }
}

fn insert_file(files: &mut Vec<(String, String)>, path: String, content: String) -> (ok: bool)
    ensures
        match spec_insert_file(files_view(old(files)@), path@, content@) {
            Ok(fs) => ok && files_view(final(files)@) == fs,
            Err(_) => !ok && final(files)@ == old(files)@,
        },
{
    if has_path(files, path.as_str()) {
        false
    } else {
        let ghost prev = files_view(files@);
        let ghost pv = path@;
        let ghost cv = content@;
        files.push((path, content));
        proof {
            assert(files_view(files@) =~= prev.push((pv, cv)));
        }
        true
    }
}

/// The three files of one symbol page, inserted in a fixed order.
pub open spec fn spec_add_symbol_page(
    files: Seq<(Seq<char>, Seq<char>)>,
    page: SpecSymbolPage,
) -> Result<Seq<(Seq<char>, Seq<char>)>, GenError> {
    match spec_insert_file(
        files,
        "/"@ + page.name + "/breadcrumbs.html"@,
        page.breadcrumbs_html,
    ) {
        Err(e) => Err(e),
        Ok(f1) => match spec_insert_file(f1, "/"@ + page.name + "/sidepanel.html"@, page.sidepanel_html) {
            Err(e) => Err(e),
            Ok(f2) => spec_insert_file(f2, "/"@ + page.name + "/main.html"@, page.main_html),
        },
    }
}

pub open spec fn spec_add_symbol_pages(
    files: Seq<(Seq<char>, Seq<char>)>,
    pages: Seq<SpecSymbolPage>,
) -> Result<Seq<(Seq<char>, Seq<char>)>, GenError>
    decreases pages.len(),
{
    if pages.len() == 0 {
        Ok(files)
    } else {
        match spec_add_symbol_pages(files, pages.drop_last()) {
            Err(e) => Err(e),
            Ok(fs) => spec_add_symbol_page(fs, pages.last()),
        }
    }
}

proof fn lemma_add_pages_err(
    files: Seq<(Seq<char>, Seq<char>)>,
    pages: Seq<SpecSymbolPage>,
    i: int,
)
    requires
        0 <= i <= pages.len(),
        spec_add_symbol_pages(files, pages.take(i)) is Err,
    ensures
        spec_add_symbol_pages(files, pages) == spec_add_symbol_pages(files, pages.take(i)),
    decreases pages.len() - i,
{
    if i == pages.len() {
        assert(pages.take(i) =~= pages);
    } else {
        assert(pages.take(i + 1).drop_last() =~= pages.take(i));
        lemma_add_pages_err(files, pages, i + 1);
    }
}

/// The complete virtual file tree: `/index.html` and `/breadcrumbs.html`
/// for the root view, then `/{name}/{breadcrumbs,sidepanel,main}.html` per
/// symbol page, with any path collision fatal.
pub open spec fn spec_assemble(
    index_html: Seq<char>,
    breadcrumbs_html: Seq<char>,
    pages: Seq<SpecSymbolPage>,
) -> Result<Seq<(Seq<char>, Seq<char>)>, GenError> {
    spec_add_symbol_pages(
        seq![("/index.html"@, index_html), ("/breadcrumbs.html"@, breadcrumbs_html)],
        pages,
    )
}

/// Collect the rendered views into the deterministic output map.
pub fn assemble(index_html: String, breadcrumbs_html: String, pages: Vec<SymbolPage>) -> (r: Result<
    Vec<(String, String)>,
    GenError,
>)
    ensures
        (match r {
            Ok(v) => Ok(files_view(v@)),
            Err(e) => Err::<Seq<(Seq<char>, Seq<char>)>, GenError>(e),
        }) == spec_assemble(index_html@, breadcrumbs_html@, pages_view(pages@)),
{
    let ghost pv = pages_view(pages@);
    let mut files: Vec<(String, String)> = Vec::new();
    files.push((String::from_str("/index.html"), index_html));
    files.push((String::from_str("/breadcrumbs.html"), breadcrumbs_html));
    let ghost files0 = files_view(files@);
    proof {
        assert(files0 =~= seq![
            ("/index.html"@, index_html@),
            ("/breadcrumbs.html"@, breadcrumbs_html@),
        ]);
    }
    let n = pages.len();
    let mut i: usize = 0;
    proof {
        assert(pv.take(0) =~= Seq::<SpecSymbolPage>::empty());
    }
    while i < n
        invariant
            n == pages@.len(),
            i <= n,
            pv == pages_view(pages@),
            files0 == seq![
                ("/index.html"@, index_html@),
                ("/breadcrumbs.html"@, breadcrumbs_html@),
            ],
            spec_add_symbol_pages(files0, pv.take(i as int)) == Ok::<
                Seq<(Seq<char>, Seq<char>)>,
                GenError,
            >(files_view(files@)),
        decreases n - i,
    {
        let page = &pages[i];
        proof {
            assert(pv.take(i + 1).drop_last() =~= pv.take(i as int));
            assert(pv.take(i + 1).last() == pv[i as int]);
        }
        let path_bc = String::from_str("/").concat(page.name.as_str()).concat(
            "/breadcrumbs.html",
        );
        if !insert_file(&mut files, path_bc, page.breadcrumbs_html.clone()) {
            proof {
                lemma_add_pages_err(files0, pv, i + 1);
            }
            return Err(GenError::PathCollision);
        }
        let path_sp = String::from_str("/").concat(page.name.as_str()).concat("/sidepanel.html");
        if !insert_file(&mut files, path_sp, page.sidepanel_html.clone()) {
            proof {
                lemma_add_pages_err(files0, pv, i + 1);
            }
            return Err(GenError::PathCollision);
        }
        let path_main = String::from_str("/").concat(page.name.as_str()).concat("/main.html");
        if !insert_file(&mut files, path_main, page.main_html.clone()) {
            proof {
                lemma_add_pages_err(files0, pv, i + 1);
            }
            return Err(GenError::PathCollision);
        }
        i += 1;
    }
    proof {
        assert(pv.take(n as int) =~= pv);
    }
    Ok(files)
}

/// The whole generation from extracted nodes to the output map.
pub open spec fn spec_generate(nodes: Seq<SpecDocNodeWithOrigin>) -> Result<
    Seq<(Seq<char>, Seq<char>)>,
    GenError,
> {
    let bk = spec_partition_by_kind(nodes);
    let bn = spec_partition_by_name(nodes);
    spec_assemble(
        spec_render_index(bk),
        spec_render_breadcrumbs(spec_root_crumbs()),
        spec_symbol_pages(bn, bn),
    )
}

/// Partition the extracted nodes, render every view and assemble the
/// virtual file tree.
pub fn generate(nodes: &Vec<DocNodeWithOrigin>) -> (r: Result<Vec<(String, String)>, GenError>)
    ensures
        (match r {
            Ok(v) => Ok(files_view(v@)),
            Err(e) => Err::<Seq<(Seq<char>, Seq<char>)>, GenError>(e),
        }) == spec_generate(nodes_view(nodes@)),
{
    let resolver = DocusaurusResolver {};
    let by_kind = partition_by_kind(nodes);
    let by_name = partition_by_name(nodes);
    let index_html = render_index(&resolver, &by_kind);
    let root_ctx = RenderContext {
        location: UrlResolveKind::AllSymbols,
        breadcrumbs: root_breadcrumbs(&resolver),
        resolver: DocusaurusResolver {},
    };
    let breadcrumbs_html = render_breadcrumbs(&root_ctx);
    let pages = render_symbol_views(&resolver, &by_name);
    assemble(index_html, breadcrumbs_html, pages)
}

/// The pipeline as one function of the declaration text: build, validate,
/// extract, generate.
pub open spec fn spec_pipeline(text: Seq<char>) -> Result<Seq<(Seq<char>, Seq<char>)>, GenError> {
    let g = spec_build(seq![spec_synthetic_specifier()], text);
    if g.diagnostics.len() != 0 {
        Err(GenError::InvalidGraph)
    } else {
        spec_generate(spec_extract(g, spec_synthetic_specifier()))
    }
}

/// Run the whole pipeline on one blob of declaration text.
pub fn run_pipeline(text: &str) -> (r: Result<Vec<(String, String)>, GenError>)
    ensures
        (match r {
            Ok(v) => Ok(files_view(v@)),
            Err(e) => Err::<Seq<(Seq<char>, Seq<char>)>, GenError>(e),
        }) == spec_pipeline(text@),
{
    let loader = VirtualLoader::new(String::from_str(text));
    let mut roots: Vec<String> = Vec::new();
    roots.push(synthetic_specifier());
    proof {
        assert(lines_view(roots@) =~= seq![spec_synthetic_specifier()]);
    }
    let graph = build_graph(&roots, &loader);
    if !graph.valid() {
        return Err(GenError::InvalidGraph);
    }
    let entry = synthetic_specifier();
    let nodes = extract_docs(&graph, entry.as_str());
    generate(&nodes)
}

/// Law: generation is a pure function of the input text — two runs on
/// identical text yield byte-identical output file sets (or the same
/// error), so re-running from scratch is always safe.
pub proof fn lemma_pipeline_deterministic(
    text: Seq<char>,
    r1: Result<Seq<(Seq<char>, Seq<char>)>, GenError>,
    r2: Result<Seq<(Seq<char>, Seq<char>)>, GenError>,
)
    requires
        r1 == spec_pipeline(text),
        r2 == spec_pipeline(text),
    ensures
        r1 == r2,
{
}

} // verus!
