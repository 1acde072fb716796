//! The virtual loader and the module graph built from it.
//!
//! The loader answers graph-resolution requests with exactly one in-memory
//! module keyed by a fixed synthetic specifier and rejects any other
//! request; the declaration universe is closed by design. The graph builder
//! runs a standard worklist: resolve a specifier, parse its content, enqueue
//! the specifiers its re-exports point at, and record a diagnostic for every
//! specifier the loader rejects. A graph is valid only if no diagnostic was
//! recorded; partial graphs are never rendered.

use vstd::prelude::*;
use crate::decl::{ParsedModule, SpecModuleItem, SpecParsedModule};
use crate::parse::{lines_view, parse_module, spec_parse_module, str_eq};

verus! {

/// The one specifier the virtual loader answers.
pub open spec fn spec_synthetic_specifier() -> Seq<char> {
    "asset://deno_types"@
}

pub fn synthetic_specifier() -> (r: String)
    ensures
        r@ == spec_synthetic_specifier(),
{
    String::from_str("asset://deno_types")
}

/// Outcome of resolving a specifier.
pub enum LoadResult {
    Found { specifier: String, content: String },
    Rejected { reason: String },
}

pub ghost enum SpecLoadResult {
    Found { specifier: Seq<char>, content: Seq<char> },
    Rejected { reason: Seq<char> },
}

impl View for LoadResult {
    type V = SpecLoadResult;

    open spec fn view(&self) -> SpecLoadResult {
        match self {
            LoadResult::Found { specifier, content } => SpecLoadResult::Found {
                specifier: specifier@,
                content: content@,
            },
            LoadResult::Rejected { reason } => SpecLoadResult::Rejected { reason: reason@ },
        }
    }
}

/// What the virtual loader answers: `Found` with the pre-supplied content
/// for the synthetic specifier, `Rejected` for every other specifier.
pub open spec fn spec_load(content: Seq<char>, specifier: Seq<char>) -> SpecLoadResult {
    if specifier == spec_synthetic_specifier() {
        SpecLoadResult::Found { specifier, content }
    } else {
        SpecLoadResult::Rejected { reason: "unexpected specifier"@ }
    }
}

/// Serves one pre-supplied content blob under the synthetic specifier.
pub struct VirtualLoader {
    pub content: String,
}

impl VirtualLoader {
    pub fn new(content: String) -> (r: VirtualLoader)
        ensures
            r.content@ == content@,
    {
        VirtualLoader { content }
    }

    /// Deterministic and side-effect-free beyond reading the one content
    /// blob.
    pub fn load(&self, specifier: &str) -> (r: LoadResult)
        ensures
            r@ == spec_load(self.content@, specifier@),
    {
        let synthetic = synthetic_specifier();
        if str_eq(specifier, synthetic.as_str()) {
            LoadResult::Found {
                specifier: String::from_str(specifier),
                content: self.content.clone(),
            }
        } else {
            LoadResult::Rejected { reason: String::from_str("unexpected specifier") }
        }
    }
}

/// One recorded resolution failure.
pub struct Diagnostic {
    pub specifier: String,
    pub message: String,
}

pub ghost struct SpecDiagnostic {
    pub specifier: Seq<char>,
    pub message: Seq<char>,
}

impl View for Diagnostic {
    type V = SpecDiagnostic;

    open spec fn view(&self) -> SpecDiagnostic {
        SpecDiagnostic { specifier: self.specifier@, message: self.message@ }
    }
}

/// The dependency graph: parsed modules plus the diagnostics gathered while
/// building it. Constructed by one build pass and read-only afterwards.
pub struct ModuleGraph {
    pub modules: Vec<ParsedModule>,
    pub diagnostics: Vec<Diagnostic>,
}

pub ghost struct SpecModuleGraph {
    pub modules: Seq<SpecParsedModule>,
    pub diagnostics: Seq<SpecDiagnostic>,
}

impl View for ModuleGraph {
    type V = SpecModuleGraph;

    open spec fn view(&self) -> SpecModuleGraph {
        SpecModuleGraph {
            modules: self.modules@.map_values(|m: ParsedModule| m@),
            diagnostics: self.diagnostics@.map_values(|d: Diagnostic| d@),
        }
    }
}

/// The first module of the graph carrying the given specifier.
pub open spec fn spec_lookup(mods: Seq<SpecParsedModule>, specifier: Seq<char>) -> Option<
    SpecParsedModule,
>
    decreases mods.len(),
{
    if mods.len() == 0 {
        None
    } else if mods[0].specifier == specifier {
        Some(mods[0])
    } else {
        spec_lookup(mods.skip(1), specifier)
    }
}

/// A specifier was already answered, either by a module or by a diagnostic.
pub open spec fn spec_seen(g: SpecModuleGraph, s: Seq<char>) -> bool {
    (exists|i: int| 0 <= i < g.modules.len() && (#[trigger] g.modules[i]).specifier == s) || (
    exists|i: int| 0 <= i < g.diagnostics.len() && (#[trigger] g.diagnostics[i]).specifier == s)
}

/// The specifiers the re-exports of a module point at, in source order.
pub open spec fn spec_reexport_targets(items: Seq<SpecModuleItem>) -> Seq<Seq<char>>
    decreases items.len(),
{
    if items.len() == 0 {
        Seq::empty()
    } else {
        spec_reexport_targets(items.drop_last()) + (match items.last() {
            SpecModuleItem::ReExported(r) => seq![r.from],
            SpecModuleItem::Declaration(_) => Seq::empty(),
        })
    }
}

pub open spec fn spec_empty_graph() -> SpecModuleGraph {
    SpecModuleGraph { modules: Seq::empty(), diagnostics: Seq::empty() }
}

/// One worklist pass of the build, against the virtual loader: pop a
/// specifier; skip it if already answered; parse the content under the
/// synthetic specifier, enqueueing its re-export targets; record a
/// diagnostic for every other specifier.
pub open spec fn spec_build_step(
    pending: Seq<Seq<char>>,
    g: SpecModuleGraph,
    content: Seq<char>,
) -> SpecModuleGraph
    decreases (if spec_seen(g, spec_synthetic_specifier()) { 0int } else { 1int }), pending.len(),
{
    if pending.len() == 0 {
        g
    } else {
        let s = pending[0];
        if spec_seen(g, s) {
            spec_build_step(pending.skip(1), g, content)
        } else if s == spec_synthetic_specifier() {
            let m = spec_parse_module(s, content);
            let g2 = SpecModuleGraph { modules: g.modules.push(m), diagnostics: g.diagnostics };
            proof {
                assert(g2.modules[g.modules.len() as int].specifier
                    == spec_synthetic_specifier());
                assert(spec_seen(g2, spec_synthetic_specifier()));
            }
            spec_build_step(pending.skip(1) + spec_reexport_targets(m.items), g2, content)
        } else {
            let g2 = SpecModuleGraph {
                modules: g.modules,
                diagnostics: g.diagnostics.push(
                    SpecDiagnostic { specifier: s, message: "unexpected specifier"@ },
                ),
            };
            proof {
                if spec_seen(g, spec_synthetic_specifier()) {
                    if exists|i: int|
                        0 <= i < g.modules.len() && (#[trigger] g.modules[i]).specifier
                            == spec_synthetic_specifier() {
                        let i0 = choose|i0: int|
                            0 <= i0 < g.modules.len() && (#[trigger] g.modules[i0]).specifier
                                == spec_synthetic_specifier();
                        assert(g2.modules[i0].specifier == spec_synthetic_specifier());
                        assert(spec_seen(g2, spec_synthetic_specifier()));
                    } else {
                        let i0 = choose|i0: int|
                            0 <= i0 < g.diagnostics.len()
                                && (#[trigger] g.diagnostics[i0]).specifier
                                == spec_synthetic_specifier();
                        assert(g2.diagnostics[i0].specifier == spec_synthetic_specifier());
                        assert(spec_seen(g2, spec_synthetic_specifier()));
                    }
                }
            }
            spec_build_step(pending.skip(1), g2, content)
        }
    }
}

/// The graph the build pass produces from the given roots and the loader's
/// content.
pub open spec fn spec_build(roots: Seq<Seq<char>>, content: Seq<char>) -> SpecModuleGraph {
    spec_build_step(roots, spec_empty_graph(), content)
}

fn contains_module(mods: &Vec<ParsedModule>, s: &str) -> (r: bool)
    ensures
        r == (exists|i: int| 0 <= i < mods@.len() && (#[trigger] mods@[i])@.specifier == s@),
{
    let n = mods.len();
    let mut i: usize = 0;
    while i < n
        invariant
            n == mods@.len(),
            i <= n,
            forall|j: int| 0 <= j < i ==> (#[trigger] mods@[j])@.specifier != s@,
        decreases n - i,
    {
        if str_eq(mods[i].specifier.as_str(), s) {
            assert((mods@[i as int])@.specifier == s@);
            return true;
        }
        i += 1;
    }
    false
}

fn contains_diagnostic(diags: &Vec<Diagnostic>, s: &str) -> (r: bool)
    ensures
        r == (exists|i: int| 0 <= i < diags@.len() && (#[trigger] diags@[i])@.specifier == s@),
{
    let n = diags.len();
    let mut i: usize = 0;
    while i < n
        invariant
            n == diags@.len(),
            i <= n,
            forall|j: int| 0 <= j < i ==> (#[trigger] diags@[j])@.specifier != s@,
        decreases n - i,
    {
        if str_eq(diags[i].specifier.as_str(), s) {
            assert((diags@[i as int])@.specifier == s@);
            return true;
        }
        i += 1;
    }
    false
}

/// The re-export targets of a parsed module, as owned strings.
fn collect_reexport_targets(m: &ParsedModule) -> (r: Vec<String>)
    ensures
        lines_view(r@) == spec_reexport_targets(m@.items),
{
    let mut r: Vec<String> = Vec::new();
    let n = m.items.len();
    let mut i: usize = 0;
    proof {
        assert(m@.items.take(0) =~= Seq::<SpecModuleItem>::empty());
        assert(lines_view(r@) =~= Seq::<Seq<char>>::empty());
    }
    while i < n
        invariant
            n == m.items.len(),
            i <= n,
            lines_view(r@) == spec_reexport_targets(m@.items.take(i as int)),
        decreases n - i,
    {
        let ghost prev = r@;
        match &m.items[i] {
            crate::decl::ModuleItem::ReExported(re) => {
                r.push(re.from.clone());
                proof {
                    assert(lines_view(r@) =~= lines_view(prev).push(re.from@));
                }
            },
            crate::decl::ModuleItem::Declaration(_) => {},
        }
        proof {
            assert(m@.items.take(i + 1).drop_last() =~= m@.items.take(i as int));
            assert(m@.items.take(i + 1).last() == m@.items[i as int]);
            assert(lines_view(r@) =~= spec_reexport_targets(m@.items.take(i + 1)));
        }
        i += 1;
    }
    proof {
        assert(m@.items.take(n as int) =~= m@.items);
    }
    r
}

impl ModuleGraph {
    /// A graph assembled directly from already-parsed modules, with no
    /// diagnostics. Hosts and tests use this to stage multi-module graphs.
    pub fn from_modules(modules: Vec<ParsedModule>) -> (g: ModuleGraph)
        ensures
            g@.modules == modules@.map_values(|m: ParsedModule| m@),
            g@.diagnostics == Seq::<SpecDiagnostic>::empty(),
    {
        let g = ModuleGraph { modules, diagnostics: Vec::new() };
        proof {
            assert(g@.diagnostics =~= Seq::<SpecDiagnostic>::empty());
        }
        g
    }

    /// A graph is valid only if the build recorded no diagnostic.
    pub fn valid(&self) -> (r: bool)
        ensures
            r == (self@.diagnostics.len() == 0),
    {
        self.diagnostics.len() == 0
    }

    /// The first module carrying the given specifier.
    pub fn lookup(&self, specifier: &str) -> (r: Option<&ParsedModule>)
        ensures
            match r {
                Some(m) => spec_lookup(self@.modules, specifier@) == Some(m@),
                None => spec_lookup(self@.modules, specifier@) is None,
            },
    {
        let n = self.modules.len();
        let mut i: usize = 0;
        proof {
            assert(self@.modules.skip(0) =~= self@.modules);
        }
        while i < n
            invariant
                n == self.modules.len(),
                i <= n,
                spec_lookup(self@.modules, specifier@) == spec_lookup(
                    self@.modules.skip(i as int),
                    specifier@,
                ),
            decreases n - i,
        {
            proof {
                assert(self@.modules.skip(i as int)[0] == self@.modules[i as int]);
                assert(self@.modules.skip(i as int).skip(1) =~= self@.modules.skip(i + 1));
            }
            if str_eq(self.modules[i].specifier.as_str(), specifier) {
                return Some(&self.modules[i]);
            }
            i += 1;
        }
        proof {
            assert(self@.modules.skip(n as int) =~= Seq::<SpecParsedModule>::empty());
        }
        None
    }
}

/// Build the module graph from the root specifiers: a worklist pass that
/// resolves every enqueued specifier through the loader exactly once.
pub fn build_graph(roots: &Vec<String>, loader: &VirtualLoader) -> (g: ModuleGraph)
    ensures
        g@ == spec_build(lines_view(roots@), loader.content@),
{
    let mut pending: Vec<String> = Vec::new();
    let rn = roots.len();
    let mut i: usize = 0;
    while i < rn
        invariant
            rn == roots@.len(),
            i <= rn,
            lines_view(pending@) == lines_view(roots@).take(i as int),
        decreases rn - i,
    {
        let ghost prev = pending@;
        pending.push(roots[i].clone());
        proof {
            assert(lines_view(pending@) =~= lines_view(prev).push(roots@[i as int]@));
            assert(lines_view(roots@).take(i + 1) =~= lines_view(roots@).take(i as int).push(
                roots@[i as int]@,
            ));
        }
        i += 1;
    }
    proof {
        assert(lines_view(roots@).take(rn as int) =~= lines_view(roots@));
    }
    let mut modules: Vec<ParsedModule> = Vec::new();
    let mut diagnostics: Vec<Diagnostic> = Vec::new();
    proof {
        assert(modules@.map_values(|m: ParsedModule| m@) =~= Seq::<SpecParsedModule>::empty());
        assert(diagnostics@.map_values(|d: Diagnostic| d@) =~= Seq::<SpecDiagnostic>::empty());
    }
    while pending.len() > 0
        invariant
            loader.content@ == loader.content@,
            spec_build_step(
                lines_view(pending@),
                SpecModuleGraph {
                    modules: modules@.map_values(|m: ParsedModule| m@),
                    diagnostics: diagnostics@.map_values(|d: Diagnostic| d@),
                },
                loader.content@,
            ) == spec_build(lines_view(roots@), loader.content@),
        decreases (if spec_seen(
            SpecModuleGraph {
                modules: modules@.map_values(|m: ParsedModule| m@),
                diagnostics: diagnostics@.map_values(|d: Diagnostic| d@),
            },
            spec_synthetic_specifier(),
        ) {
            0int
        } else {
            1int
        }), pending.len(),
    {
        let ghost g_old = SpecModuleGraph {
            modules: modules@.map_values(|m: ParsedModule| m@),
            diagnostics: diagnostics@.map_values(|d: Diagnostic| d@),
        };
        let ghost pending_old = lines_view(pending@);
        let s = pending.remove(0);
        proof {
            assert(lines_view(pending@) =~= pending_old.skip(1));
            assert(s@ == pending_old[0]);
        }
        let in_modules = contains_module(&modules, s.as_str());
        let in_diags = contains_diagnostic(&diagnostics, s.as_str());
        proof {
            assert((in_modules || in_diags) == spec_seen(g_old, s@)) by {
                if in_modules {
                    let i0 = choose|i0: int|
                        0 <= i0 < modules@.len() && (#[trigger] modules@[i0])@.specifier == s@;
                    assert(g_old.modules[i0].specifier == s@);
                }
                if in_diags {
                    let i0 = choose|i0: int|
                        0 <= i0 < diagnostics@.len() && (#[trigger] diagnostics@[i0])@.specifier
                        == s@;
                    assert(g_old.diagnostics[i0].specifier == s@);
                }
                if spec_seen(g_old, s@) {
                    if exists|i0: int|
                        0 <= i0 < g_old.modules.len() && (#[trigger] g_old.modules[i0]).specifier
                        == s@ {
                        let i0 = choose|i0: int|
                            0 <= i0 < g_old.modules.len()
                                && (#[trigger] g_old.modules[i0]).specifier == s@;
                        assert((modules@[i0])@.specifier == s@);
                    } else {
                        let i0 = choose|i0: int|
                            0 <= i0 < g_old.diagnostics.len()
                                && (#[trigger] g_old.diagnostics[i0]).specifier == s@;
                        assert((diagnostics@[i0])@.specifier == s@);
                    }
                }
            }
        }
        if in_modules || in_diags {
        } else {
            match loader.load(s.as_str()) {
                LoadResult::Found { specifier, content } => {
                    let m = parse_module(specifier.as_str(), content.as_str());
                    let targets = collect_reexport_targets(&m);
                    let ghost g_mid = SpecModuleGraph {
                        modules: g_old.modules.push(m@),
                        diagnostics: g_old.diagnostics,
                    };
                    modules.push(m);
                    proof {
                        assert(modules@.map_values(|mm: ParsedModule| mm@) =~= g_mid.modules);
                        assert(g_mid.modules[g_old.modules.len() as int].specifier
                            == spec_synthetic_specifier());
                        assert(spec_seen(g_mid, spec_synthetic_specifier()));
                    }
                    let tn = targets.len();
                    let ghost pending_mid = lines_view(pending@);
                    let mut j: usize = 0;
                    while j < tn
                        invariant
                            tn == targets@.len(),
                            j <= tn,
                            lines_view(pending@) == pending_mid + lines_view(targets@).take(j as int),
                        decreases tn - j,
                    {
                        let ghost prev = pending@;
                        pending.push(targets[j].clone());
                        proof {
                            assert(lines_view(pending@) =~= lines_view(prev).push(targets@[j as int]@));
                            assert(pending_mid + lines_view(targets@).take(j + 1) =~= (pending_mid
                                + lines_view(targets@).take(j as int)).push(targets@[j as int]@));
                        }
                        j += 1;
                    }
                    proof {
                        assert(lines_view(targets@).take(tn as int) =~= lines_view(targets@));
                        assert(lines_view(pending@) =~= pending_old.skip(1) + spec_reexport_targets(
                            m@.items,
                        ));
                    }
                },
                LoadResult::Rejected { reason } => {
                    let ghost g_mid = SpecModuleGraph {
                        modules: g_old.modules,
                        diagnostics: g_old.diagnostics.push(
                            SpecDiagnostic { specifier: s@, message: "unexpected specifier"@ },
                        ),
                    };
                    diagnostics.push(Diagnostic { specifier: s, message: reason });
                    proof {
                        assert(diagnostics@.map_values(|d: Diagnostic| d@) =~= g_mid.diagnostics);
                        assert(spec_seen(g_mid, spec_synthetic_specifier()) == spec_seen(
                            g_old,
                            spec_synthetic_specifier(),
                        )) by {
                            if spec_seen(g_old, spec_synthetic_specifier()) {
                                if exists|i0: int|
                                    0 <= i0 < g_old.modules.len()
                                        && (#[trigger] g_old.modules[i0]).specifier
                                        == spec_synthetic_specifier() {
                                    let i0 = choose|i0: int|
                                        0 <= i0 < g_old.modules.len()
                                            && (#[trigger] g_old.modules[i0]).specifier
                                            == spec_synthetic_specifier();
                                    assert(g_mid.modules[i0].specifier
                                        == spec_synthetic_specifier());
                                    assert(spec_seen(g_mid, spec_synthetic_specifier()));
                                } else {
                                    let i0 = choose|i0: int|
                                        0 <= i0 < g_old.diagnostics.len()
                                            && (#[trigger] g_old.diagnostics[i0]).specifier
                                            == spec_synthetic_specifier();
                                    assert(g_mid.diagnostics[i0].specifier
                                        == spec_synthetic_specifier());
                                    assert(spec_seen(g_mid, spec_synthetic_specifier()));
                                }
                            }
                            if spec_seen(g_mid, spec_synthetic_specifier()) && !spec_seen(
                                g_old,
                                spec_synthetic_specifier(),
                            ) {
                                let i0 = choose|i0: int|
                                    0 <= i0 < g_mid.diagnostics.len()
                                        && g_mid.diagnostics[i0].specifier
                                        == spec_synthetic_specifier();
                                assert(i0 == g_old.diagnostics.len());
                                assert(false);
                            }
                        }
                    }
                },
            }
        }
    }
    proof {
        assert(lines_view(pending@) =~= Seq::<Seq<char>>::empty());
    }
    ModuleGraph { modules, diagnostics }
}

} // verus!
