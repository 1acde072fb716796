//! Extraction of documentable symbols from the module graph.
//!
//! The extractor walks the entrypoint module's items in source order. Every
//! public top-level declaration yields one doc node. Every re-export yields
//! one doc node per exported name, resolved against the declaring module:
//! the node carries the exported name but the declaring module's
//! documentation and short path, so provenance survives flattening and the
//! documentation body is never duplicated. Private-tagged declarations are
//! never emitted, and a re-export never resolves to a private declaration.

use vstd::prelude::*;
use crate::decl::{Decl, DocNode, DocNodeWithOrigin, Location, ModuleItem, SpecDecl,
    SpecDocNode, SpecDocNodeWithOrigin, SpecLocation, SpecModuleItem, SpecParsedModule,
    SpecReExport, clone_opt_text, nodes_view, opt_text_view};
use crate::graph::{ModuleGraph, SpecModuleGraph, spec_lookup};
use crate::parse::{spec_starts_with_at, starts_with_at, str_eq};

verus! {

/// The human-readable short path of a module specifier: the specifier
/// without its `asset://` scheme prefix.
pub open spec fn spec_short_path(specifier: Seq<char>) -> Seq<char> {
    if spec_starts_with_at(specifier, 0, "asset://"@) {
        specifier.skip("asset://"@.len() as int)
    } else {
        specifier
    }
}

pub fn short_path(specifier: &str) -> (r: String)
    ensures
        r@ == spec_short_path(specifier@),
{
    let len = specifier.unicode_len();
    if starts_with_at(specifier, len, 0, "asset://") {
        proof {
            reveal_strlit("asset://");
            assert(specifier@.subrange(8, len as int) =~= specifier@.skip(8));
        }
        String::from_str(specifier.substring_char(8, len))
    } else {
        String::from_str(specifier)
    }
}

/// The node a public declaration of the module `specifier` yields.
pub open spec fn spec_decl_node(specifier: Seq<char>, d: SpecDecl) -> SpecDocNodeWithOrigin {
    SpecDocNodeWithOrigin {
        node: SpecDocNode {
            kind: d.kind,
            name: d.name,
            documentation: d.doc,
            location: SpecLocation { specifier, line: d.line, col: 0 },
            detail: d.detail,
        },
        origin: spec_short_path(specifier),
    }
}

/// The node a re-export yields: the exported name, with everything else —
/// documentation, location, origin — taken from the declaring module.
pub open spec fn spec_reexport_node(
    from: Seq<char>,
    export_name: Seq<char>,
    d: SpecDecl,
) -> SpecDocNodeWithOrigin {
    SpecDocNodeWithOrigin {
        node: SpecDocNode {
            kind: d.kind,
            name: export_name,
            documentation: d.doc,
            location: SpecLocation { specifier: from, line: d.line, col: 0 },
            detail: d.detail,
        },
        origin: spec_short_path(from),
    }
}

/// The first public declaration named `name` among `items`, if any.
pub open spec fn spec_find_decl(items: Seq<SpecModuleItem>, name: Seq<char>) -> Option<SpecDecl>
    decreases items.len(),
{
    if items.len() == 0 {
        None
    } else {
        match items[0] {
            SpecModuleItem::Declaration(d) => if d.is_public && d.name == name {
                Some(d)
            } else {
                spec_find_decl(items.skip(1), name)
            },
            SpecModuleItem::ReExported(_) => spec_find_decl(items.skip(1), name),
        }
    }
}

/// What one entrypoint item contributes to the extraction: one node for a
/// public declaration, one resolved node for a re-export, nothing otherwise.
pub open spec fn spec_emit_item(
    g: SpecModuleGraph,
    entry: Seq<char>,
    item: SpecModuleItem,
) -> Seq<SpecDocNodeWithOrigin> {
    match item {
        SpecModuleItem::Declaration(d) => if d.is_public {
            seq![spec_decl_node(entry, d)]
        } else {
            Seq::empty()
        },
        SpecModuleItem::ReExported(r) => match spec_lookup(g.modules, r.from) {
            None => Seq::empty(),
            Some(m2) => match spec_find_decl(m2.items, r.source_name) {
                None => Seq::empty(),
                Some(d) => seq![spec_reexport_node(r.from, r.export_name, d)],
            },
        },
    }
}

pub open spec fn spec_extract_items(
    g: SpecModuleGraph,
    entry: Seq<char>,
    items: Seq<SpecModuleItem>,
) -> Seq<SpecDocNodeWithOrigin>
    decreases items.len(),
{
    if items.len() == 0 {
        Seq::empty()
    } else {
        spec_extract_items(g, entry, items.drop_last()) + spec_emit_item(g, entry, items.last())
    }
}

/// The extraction of the whole graph, walked from the entrypoint.
pub open spec fn spec_extract(g: SpecModuleGraph, entry: Seq<char>) -> Seq<SpecDocNodeWithOrigin> {
    match spec_lookup(g.modules, entry) {
        None => Seq::empty(),
        Some(m) => spec_extract_items(g, entry, m.items),
    }
}

fn find_decl<'a>(items: &'a Vec<ModuleItem>, name: &str) -> (r: Option<&'a Decl>)
    ensures
        match r {
            Some(d) => spec_find_decl(items@.map_values(|it: ModuleItem| it@), name@) == Some(d@),
            None => spec_find_decl(items@.map_values(|it: ModuleItem| it@), name@) is None,
        },
{
    let ghost itemsv = items@.map_values(|it: ModuleItem| it@);
    let n = items.len();
    let mut i: usize = 0;
    proof {
        assert(itemsv.skip(0) =~= itemsv);
    }
    while i < n
        invariant
            n == items@.len(),
            i <= n,
            itemsv == items@.map_values(|it: ModuleItem| it@),
            spec_find_decl(itemsv, name@) == spec_find_decl(itemsv.skip(i as int), name@),
        decreases n - i,
    {
        proof {
            assert(itemsv.skip(i as int)[0] == itemsv[i as int]);
            assert(itemsv.skip(i as int).skip(1) =~= itemsv.skip(i + 1));
        }
        match &items[i] {
            ModuleItem::Declaration(d) => {
                if d.is_public && str_eq(d.name.as_str(), name) {
                    return Some(d);
                }
            },
            ModuleItem::ReExported(_) => {},
        }
        i += 1;
    }
    proof {
        assert(itemsv.skip(n as int) =~= Seq::<SpecModuleItem>::empty());
    }
    None
}

/// Walk the entrypoint module of the graph and emit its documentable
/// symbols, in source order, with re-exports flattened.
pub fn extract_docs(graph: &ModuleGraph, entrypoint: &str) -> (r: Vec<DocNodeWithOrigin>)
    ensures
        nodes_view(r@) == spec_extract(graph@, entrypoint@),
{
    let mut out: Vec<DocNodeWithOrigin> = Vec::new();
    let m_opt = graph.lookup(entrypoint);
    match m_opt {
        None => {
            proof {
                assert(nodes_view(out@) =~= Seq::<SpecDocNodeWithOrigin>::empty());
            }
            out
        },
        Some(m) => {
            let ghost g = graph@;
            let ghost itemsv = m@.items;
            let n = m.items.len();
            let mut i: usize = 0;
            proof {
                assert(itemsv.take(0) =~= Seq::<SpecModuleItem>::empty());
                assert(nodes_view(out@) =~= Seq::<SpecDocNodeWithOrigin>::empty());
            }
            while i < n
                invariant
                    n == m.items.len(),
                    i <= n,
                    g == graph@,
                    itemsv == m@.items,
                    spec_lookup(g.modules, entrypoint@) == Some(m@),
                    nodes_view(out@) == spec_extract_items(g, entrypoint@, itemsv.take(i as int)),
                decreases n - i,
            {
                let ghost prev = out@;
                match &m.items[i] {
                    ModuleItem::Declaration(d) => {
                        if d.is_public {
                            let node = DocNode {
                                kind: d.kind,
                                name: d.name.clone(),
                                documentation: clone_opt_text(&d.doc),
                                location: Location {
                                    specifier: String::from_str(entrypoint),
                                    line: d.line,
                                    col: 0,
                                },
                                detail: d.detail.clone(),
                            };
                            let with_origin = DocNodeWithOrigin {
                                node,
                                origin: short_path(entrypoint),
                            };
                            proof {
                                assert(with_origin@ == spec_decl_node(entrypoint@, d@));
                            }
                            out.push(with_origin);
                            proof {
                                assert(nodes_view(out@) =~= nodes_view(prev).push(
                                    spec_decl_node(entrypoint@, d@),
                                ));
                            }
                        }
                    },
                    ModuleItem::ReExported(re) => {
                        match graph.lookup(re.from.as_str()) {
                            None => {},
                            Some(m2) => {
                                match find_decl(&m2.items, re.source_name.as_str()) {
                                    None => {},
                                    Some(d) => {
                                        let node = DocNode {
                                            kind: d.kind,
                                            name: re.export_name.clone(),
                                            documentation: clone_opt_text(&d.doc),
                                            location: Location {
                                                specifier: re.from.clone(),
                                                line: d.line,
                                                col: 0,
                                            },
                                            detail: d.detail.clone(),
                                        };
                                        let with_origin = DocNodeWithOrigin {
                                            node,
                                            origin: short_path(re.from.as_str()),
                                        };
                                        proof {
                                            assert(with_origin@ == spec_reexport_node(
                                                re.from@,
                                                re.export_name@,
                                                d@,
                                            ));
                                        }
                                        out.push(with_origin);
                                        proof {
                                            assert(nodes_view(out@) =~= nodes_view(prev).push(
                                                spec_reexport_node(re.from@, re.export_name@, d@),
                                            ));
                                        }
                                    },
                                }
                            },
                        }
                    },
                }
                proof {
                    assert(itemsv.take(i + 1).drop_last() =~= itemsv.take(i as int));
                    assert(itemsv.take(i + 1).last() == itemsv[i as int]);
                    assert(nodes_view(out@) =~= spec_extract_items(
                        g,
                        entrypoint@,
                        itemsv.take(i + 1),
                    ));
                }
                i += 1;
            }
            proof {
                assert(itemsv.take(n as int) =~= itemsv);
            }
            out
        },
    }
}

/// The doc nodes of the public declarations among `items`, one per
/// declaration, in source order, attributed to `specifier`.
pub open spec fn spec_public_decl_nodes(
    specifier: Seq<char>,
    items: Seq<SpecModuleItem>,
) -> Seq<SpecDocNodeWithOrigin>
    decreases items.len(),
{
    if items.len() == 0 {
        Seq::empty()
    } else {
        spec_public_decl_nodes(specifier, items.drop_last()) + (match items.last() {
            SpecModuleItem::Declaration(d) => if d.is_public {
                seq![spec_decl_node(specifier, d)]
            } else {
                Seq::empty()
            },
            SpecModuleItem::ReExported(_) => Seq::empty(),
        })
    }
}

proof fn lemma_extract_items_no_reexports(
    g: SpecModuleGraph,
    entry: Seq<char>,
    items: Seq<SpecModuleItem>,
)
    requires
        forall|i: int| 0 <= i < items.len() ==> items[i] is Declaration,
    ensures
        spec_extract_items(g, entry, items) == spec_public_decl_nodes(entry, items),
    decreases items.len(),
{
    if items.len() > 0 {
        assert forall|i: int| 0 <= i < items.drop_last().len() implies items.drop_last()[i]
            is Declaration by {
            assert(items.drop_last()[i] == items[i]);
        }
        lemma_extract_items_no_reexports(g, entry, items.drop_last());
        assert(items.last() == items[items.len() - 1]);
    }
}

/// Law: on an entrypoint module with no re-exports, extraction yields
/// exactly one doc node per top-level public declaration, in source order.
pub proof fn lemma_extract_no_reexports(
    g: SpecModuleGraph,
    entry: Seq<char>,
    m: SpecParsedModule,
)
    requires
        spec_lookup(g.modules, entry) == Some(m),
        forall|i: int| 0 <= i < m.items.len() ==> m.items[i] is Declaration,
    ensures
        spec_extract(g, entry) == spec_public_decl_nodes(entry, m.items),
{
    lemma_extract_items_no_reexports(g, entry, m.items);
}

/// Law: a private-tagged declaration is never emitted, whatever the graph.
pub proof fn lemma_private_never_emitted(g: SpecModuleGraph, entry: Seq<char>, d: SpecDecl)
    requires
        !d.is_public,
    ensures
        spec_emit_item(g, entry, SpecModuleItem::Declaration(d)) == Seq::<
            SpecDocNodeWithOrigin,
        >::empty(),
{
}

/// Law: re-export resolution only ever picks a public declaration carrying
/// the requested name.
pub proof fn lemma_find_decl_is_public(items: Seq<SpecModuleItem>, name: Seq<char>)
    ensures
        spec_find_decl(items, name) matches Some(d) ==> d.is_public && d.name == name,
    decreases items.len(),
{
    if items.len() > 0 {
        lemma_find_decl_is_public(items.skip(1), name);
    }
}

/// Law (re-export flattening): when module `from` resolves and holds a
/// public declaration `d` named `r.source_name`, the re-export emits
/// exactly one node — named with the exported name, carrying `d`'s
/// documentation, attributed to the declaring module's short path, not to
/// the re-exporting module.
pub proof fn lemma_reexport_flattening(
    g: SpecModuleGraph,
    entry: Seq<char>,
    r: SpecReExport,
    m2: SpecParsedModule,
    d: SpecDecl,
)
    requires
        spec_lookup(g.modules, r.from) == Some(m2),
        spec_find_decl(m2.items, r.source_name) == Some(d),
    ensures
        spec_emit_item(g, entry, SpecModuleItem::ReExported(r)) == seq![
            spec_reexport_node(r.from, r.export_name, d),
        ],
        spec_reexport_node(r.from, r.export_name, d).node.name == r.export_name,
        spec_reexport_node(r.from, r.export_name, d).node.documentation == d.doc,
        spec_reexport_node(r.from, r.export_name, d).origin == spec_short_path(r.from),
{
}

} // verus!
