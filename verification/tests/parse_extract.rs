use runtime_docs_gen::decl::{DocNodeKind, ModuleItem};
use runtime_docs_gen::extract::extract_docs;
use runtime_docs_gen::graph::{LoadResult, ModuleGraph, VirtualLoader};
use runtime_docs_gen::parse::parse_module;
use runtime_docs_gen::partition::{partition_by_kind, partition_by_name};

const SPECIFIER: &str = "asset://deno_types";

#[test]
fn parse_function_declaration() {
    let m = parse_module(SPECIFIER, "export function greet(name: string): string;");
    assert_eq!(m.specifier, SPECIFIER);
    assert_eq!(m.items.len(), 1);
    match &m.items[0] {
        ModuleItem::Declaration(d) => {
            assert_eq!(d.kind, DocNodeKind::Function);
            assert_eq!(d.name, "greet");
            assert!(d.is_public);
            assert_eq!(d.doc, None);
            assert_eq!(d.line, 1);
            assert_eq!(d.detail, "export function greet(name: string): string;");
        }
        ModuleItem::ReExported(_) => panic!("expected a declaration"),
    }
}

#[test]
fn parse_doc_comment_attaches_to_next_declaration() {
    let text = "/** Adds two numbers. */\nexport function add(a: number, b: number): number;";
    let m = parse_module(SPECIFIER, text);
    assert_eq!(m.items.len(), 1);
    match &m.items[0] {
        ModuleItem::Declaration(d) => {
            assert_eq!(d.doc.as_deref(), Some(" Adds two numbers. "));
            assert_eq!(d.line, 2);
        }
        ModuleItem::ReExported(_) => panic!("expected a declaration"),
    }
}

#[test]
fn parse_doc_comment_cleared_by_blank_line() {
    let text = "/** Stray. */\n\nexport const version: string;";
    let m = parse_module(SPECIFIER, text);
    assert_eq!(m.items.len(), 1);
    match &m.items[0] {
        ModuleItem::Declaration(d) => {
            assert_eq!(d.kind, DocNodeKind::Variable);
            assert_eq!(d.doc, None);
        }
        ModuleItem::ReExported(_) => panic!("expected a declaration"),
    }
}

#[test]
fn parse_reexport_with_rename() {
    let m = parse_module(SPECIFIER, "export { X as Y } from \"asset://mod_a\";");
    assert_eq!(m.items.len(), 1);
    match &m.items[0] {
        ModuleItem::ReExported(r) => {
            assert_eq!(r.source_name, "X");
            assert_eq!(r.export_name, "Y");
            assert_eq!(r.from, "asset://mod_a");
        }
        ModuleItem::Declaration(_) => panic!("expected a re-export"),
    }
}

#[test]
fn parse_reexport_without_rename() {
    let m = parse_module(SPECIFIER, "export { X } from \"asset://mod_a\";");
    match &m.items[0] {
        ModuleItem::ReExported(r) => {
            assert_eq!(r.source_name, "X");
            assert_eq!(r.export_name, "X");
        }
        ModuleItem::Declaration(_) => panic!("expected a re-export"),
    }
}

#[test]
fn parse_all_declaration_kinds() {
    let text = "export function f(): void;\nexport class C {}\nexport interface I {}\nexport type T = number;\nexport const v: number;\nexport let l: number;\nexport var w: number;\nexport namespace N {}\nexport enum E {}";
    let m = parse_module(SPECIFIER, text);
    let kinds: Vec<DocNodeKind> = m
        .items
        .iter()
        .map(|it| match it {
            ModuleItem::Declaration(d) => d.kind,
            ModuleItem::ReExported(_) => panic!("expected declarations only"),
        })
        .collect();
    assert_eq!(
        kinds,
        vec![
            DocNodeKind::Function,
            DocNodeKind::Class,
            DocNodeKind::Interface,
            DocNodeKind::TypeAlias,
            DocNodeKind::Variable,
            DocNodeKind::Variable,
            DocNodeKind::Variable,
            DocNodeKind::Namespace,
            DocNodeKind::Enum,
        ]
    );
}

#[test]
fn parse_ignores_indented_member_lines() {
    let text = "export class C {
  method(): void;
  field: number;
}";
    let m = parse_module(SPECIFIER, text);
    assert_eq!(m.items.len(), 1);
    match &m.items[0] {
        ModuleItem::Declaration(d) => {
            assert_eq!(d.kind, DocNodeKind::Class);
            assert_eq!(d.name, "C");
        }
        ModuleItem::ReExported(_) => panic!("expected a declaration"),
    }
}

#[test]
fn parse_malformed_doc_line_degrades_to_no_documentation() {
    let text = "/** unterminated
export function f(): void;";
    let m = parse_module(SPECIFIER, text);
    assert_eq!(m.items.len(), 1);
    match &m.items[0] {
        ModuleItem::Declaration(d) => assert_eq!(d.doc, None),
        ModuleItem::ReExported(_) => panic!("expected a declaration"),
    }
}

#[test]
fn loader_serves_only_the_synthetic_specifier() {
    let loader = VirtualLoader::new(String::from("export function f(): void;"));
    match loader.load(SPECIFIER) {
        LoadResult::Found { specifier, content } => {
            assert_eq!(specifier, SPECIFIER);
            assert_eq!(content, "export function f(): void;");
        }
        LoadResult::Rejected { .. } => panic!("synthetic specifier must resolve"),
    }
    match loader.load("https://example.com/mod.ts") {
        LoadResult::Rejected { reason } => assert_eq!(reason, "unexpected specifier"),
        LoadResult::Found { .. } => panic!("foreign specifiers must be rejected"),
    }
}

#[test]
fn extract_yields_one_node_per_public_declaration_in_source_order() {
    let text = "export function alpha(): void;\nexport class Beta {}";
    let graph = ModuleGraph::from_modules(vec![parse_module(SPECIFIER, text)]);
    let nodes = extract_docs(&graph, SPECIFIER);
    assert_eq!(nodes.len(), 2);
    assert_eq!(nodes[0].node.name, "alpha");
    assert_eq!(nodes[0].node.kind, DocNodeKind::Function);
    assert_eq!(nodes[0].node.location.line, 1);
    assert_eq!(nodes[1].node.name, "Beta");
    assert_eq!(nodes[1].node.kind, DocNodeKind::Class);
    assert_eq!(nodes[1].node.location.line, 2);
    assert_eq!(nodes[0].origin, "deno_types");
}

#[test]
fn extract_never_emits_private_declarations() {
    let text = "function hidden(): void;\nexport function shown(): void;\nvar secret: number;";
    let graph = ModuleGraph::from_modules(vec![parse_module(SPECIFIER, text)]);
    let nodes = extract_docs(&graph, SPECIFIER);
    assert_eq!(nodes.len(), 1);
    assert_eq!(nodes[0].node.name, "shown");
}

#[test]
fn extract_flattens_reexport_to_true_origin() {
    let entry = parse_module(SPECIFIER, "export { X as Y } from \"asset://mod_a\";");
    let dep = parse_module(
        "asset://mod_a",
        "/** Doc of X. */\nexport function X(): void;",
    );
    let graph = ModuleGraph::from_modules(vec![entry, dep]);
    let nodes = extract_docs(&graph, SPECIFIER);
    assert_eq!(nodes.len(), 1);
    assert_eq!(nodes[0].node.name, "Y");
    assert_eq!(nodes[0].node.kind, DocNodeKind::Function);
    assert_eq!(nodes[0].node.documentation.as_deref(), Some(" Doc of X. "));
    assert_eq!(nodes[0].origin, "mod_a");
    assert_eq!(nodes[0].node.location.specifier, "asset://mod_a");
}

#[test]
fn extract_reexport_skips_private_target() {
    let entry = parse_module(SPECIFIER, "export { X } from \"asset://mod_a\";");
    let dep = parse_module("asset://mod_a", "function X(): void;");
    let graph = ModuleGraph::from_modules(vec![entry, dep]);
    let nodes = extract_docs(&graph, SPECIFIER);
    assert_eq!(nodes.len(), 0);
}

#[test]
fn partition_by_kind_is_a_disjoint_cover() {
    let text = "export function f(): void;\nexport class C {}\nexport function g(): void;\nexport const v: number;";
    let graph = ModuleGraph::from_modules(vec![parse_module(SPECIFIER, text)]);
    let nodes = extract_docs(&graph, SPECIFIER);
    let groups = partition_by_kind(&nodes);
    let total: usize = groups.iter().map(|g| g.1.len()).sum();
    assert_eq!(total, nodes.len());
    for (kind, members) in &groups {
        assert!(!members.is_empty());
        for m in members {
            assert_eq!(m.node.kind, *kind);
        }
    }
    let kinds: Vec<DocNodeKind> = groups.iter().map(|g| g.0).collect();
    assert_eq!(
        kinds,
        vec![DocNodeKind::Function, DocNodeKind::Class, DocNodeKind::Variable]
    );
    assert_eq!(groups[0].1.len(), 2);
    assert_eq!(groups[0].1[0].node.name, "f");
    assert_eq!(groups[0].1[1].node.name, "g");
}

#[test]
fn grouping_by_name_ignores_declaration_order() {
    let text_one = "export function a(): void;\nexport class B {}\nexport const c: number;";
    let text_two = "export const c: number;\nexport function a(): void;\nexport class B {}";
    let graph_one = ModuleGraph::from_modules(vec![parse_module(SPECIFIER, text_one)]);
    let graph_two = ModuleGraph::from_modules(vec![parse_module(SPECIFIER, text_two)]);
    let groups_one = partition_by_name(&extract_docs(&graph_one, SPECIFIER));
    let groups_two = partition_by_name(&extract_docs(&graph_two, SPECIFIER));
    let mut names_one: Vec<String> = groups_one.iter().map(|g| g.0.clone()).collect();
    let mut names_two: Vec<String> = groups_two.iter().map(|g| g.0.clone()).collect();
    names_one.sort();
    names_two.sort();
    assert_eq!(names_one, names_two);
    for (name, members) in &groups_one {
        let other = groups_two.iter().find(|g| &g.0 == name).unwrap();
        assert_eq!(members.len(), other.1.len());
    }
}

#[test]
fn overloads_share_one_name_group() {
    let text = "export function box(v: number): void;\nexport function box(v: string): void;";
    let graph = ModuleGraph::from_modules(vec![parse_module(SPECIFIER, text)]);
    let nodes = extract_docs(&graph, SPECIFIER);
    let groups = partition_by_name(&nodes);
    assert_eq!(groups.len(), 1);
    assert_eq!(groups[0].0, "box");
    assert_eq!(groups[0].1.len(), 2);
}
