use runtime_docs_gen::decl::Location;
use runtime_docs_gen::href::{DocusaurusResolver, UrlResolveKind};
use runtime_docs_gen::pipeline::{assemble, run_pipeline, GenError, SymbolPage};

fn file<'a>(files: &'a [(String, String)], path: &str) -> &'a str {
    match files.iter().find(|f| f.0 == path) {
        Some(f) => f.1.as_str(),
        None => panic!("missing output file"),
    }
}

#[test]
fn resolver_maps_symbols_under_the_site_root() {
    let resolver = DocusaurusResolver {};
    let root = resolver.resolve_path(&UrlResolveKind::Root, &UrlResolveKind::Root);
    let all = resolver.resolve_path(&UrlResolveKind::Root, &UrlResolveKind::AllSymbols);
    let symbol = resolver.resolve_path(
        &UrlResolveKind::Root,
        &UrlResolveKind::Symbol(String::from("Foo")),
    );
    assert_eq!(root, "/api");
    assert_eq!(all, root);
    assert_eq!(symbol, "/api/Foo");
}

#[test]
fn resolver_suppresses_globals_imports_usage_and_source() {
    let resolver = DocusaurusResolver {};
    assert_eq!(resolver.resolve_global_symbol(&vec![String::from("Deno")]), None);
    assert_eq!(
        resolver.resolve_import_href(&vec![String::from("X")], "https://example.com"),
        None
    );
    assert_eq!(resolver.resolve_usage("asset://deno_types", "mod"), None);
    assert_eq!(
        resolver.resolve_source(&Location {
            specifier: String::from("asset://deno_types"),
            line: 1,
            col: 0,
        }),
        None
    );
}

#[test]
fn pipeline_renders_one_function_end_to_end() {
    let files = run_pipeline("export function greet(name: string): string;").unwrap();
    assert_eq!(files.len(), 5);
    let index = file(&files, "/index.html");
    assert!(index.contains("greet"));
    assert!(index.contains("function"));
    assert!(index.contains("/api/greet"));
    let main = file(&files, "/greet/main.html");
    assert!(main.contains("export function greet(name: string): string;"));
    let crumbs = file(&files, "/greet/breadcrumbs.html");
    assert!(crumbs.contains("href=\"/api\""));
    let sidepanel = file(&files, "/greet/sidepanel.html");
    assert!(sidepanel.contains("/api/greet"));
    assert!(files.iter().any(|f| f.0 == "/breadcrumbs.html"));
}

#[test]
fn pipeline_groups_colliding_names_into_one_file_triple() {
    let text = "export interface Box { value: number }\nexport function Box(v: number): void;";
    let files = run_pipeline(text).unwrap();
    let box_files: Vec<&String> = files
        .iter()
        .map(|f| &f.0)
        .filter(|p| p.starts_with("/Box/"))
        .collect();
    assert_eq!(box_files.len(), 3);
    assert_eq!(files.len(), 5);
    let main = file(&files, "/Box/main.html");
    assert!(main.contains("interface"));
    assert!(main.contains("function"));
}

#[test]
fn pipeline_is_idempotent() {
    let text = "/** Greets. */\nexport function greet(name: string): string;\nexport class App {}";
    let first = run_pipeline(text).unwrap();
    let second = run_pipeline(text).unwrap();
    assert_eq!(first, second);
}

#[test]
fn pipeline_rejects_reexport_to_foreign_module() {
    let err = run_pipeline("export { X } from \"https://example.com/mod.ts\";").unwrap_err();
    assert_eq!(err, GenError::InvalidGraph);
    assert_eq!(err.message(), "invalid module graph");
}

#[test]
fn pipeline_accepts_self_reexport() {
    let text = "export function real(): void;\nexport { real as alias } from \"asset://deno_types\";";
    let files = run_pipeline(text).unwrap();
    assert!(files.iter().any(|f| f.0 == "/real/main.html"));
    assert!(files.iter().any(|f| f.0 == "/alias/main.html"));
}

#[test]
fn pipeline_on_empty_text_yields_only_the_root_views() {
    let files = run_pipeline("").unwrap();
    assert_eq!(files.len(), 2);
    assert!(files.iter().any(|f| f.0 == "/index.html"));
    assert!(files.iter().any(|f| f.0 == "/breadcrumbs.html"));
}

#[test]
fn pipeline_documentation_reaches_the_symbol_page() {
    let text = "/** Greets loudly. */\nexport function greet(name: string): string;";
    let files = run_pipeline(text).unwrap();
    let main = file(&files, "/greet/main.html");
    assert!(main.contains("<p> Greets loudly. </p>"));
}

#[test]
fn assemble_reports_a_path_collision() {
    let page = |name: &str| SymbolPage {
        name: String::from(name),
        breadcrumbs_html: String::from("b"),
        sidepanel_html: String::from("s"),
        main_html: String::from("m"),
    };
    let err = assemble(
        String::from("index"),
        String::from("crumbs"),
        vec![page("Twice"), page("Twice")],
    )
    .unwrap_err();
    assert_eq!(err, GenError::PathCollision);
    assert_eq!(err.message(), "output path collision");
}

#[test]
fn index_lists_sections_in_first_appearance_order() {
    let text = "export class Z {}\nexport function a(): void;\nexport class Y {}";
    let files = run_pipeline(text).unwrap();
    let index = file(&files, "/index.html");
    let class_at = index.find("<h2>class</h2>").unwrap();
    let function_at = index.find("<h2>function</h2>").unwrap();
    assert!(class_at < function_at);
    assert!(index.contains("<main class=\"allSymbols\">"));
}
