//! Data model of the declaration pipeline: declaration kinds, parsed module
//! items, documentable nodes and their mathematical views.

use vstd::prelude::*;

verus! {

/// The kind of a documentable declaration.
#[derive(Clone, Copy, PartialEq, Eq, Structural, Debug)]
pub enum DocNodeKind {
    Function,
    Class,
    Interface,
    TypeAlias,
    Variable,
    Namespace,
    Enum,
    ModuleDoc,
}

/// Source position of a declaration: the module it stands in, its 1-based
/// line, and its column. Used only for identity, never rendered as a link.
pub struct Location {
    pub specifier: String,
    pub line: usize,
    pub col: usize,
}

pub ghost struct SpecLocation {
    pub specifier: Seq<char>,
    pub line: int,
    pub col: int,
}

impl View for Location {
    type V = SpecLocation;

    open spec fn view(&self) -> SpecLocation {
        SpecLocation {
            specifier: self.specifier@,
            line: self.line as int,
            col: self.col as int,
        }
    }
}

/// The view of an optional owned string.
pub open spec fn opt_text_view(o: Option<String>) -> Option<Seq<char>> {
    match o {
        Some(s) => Some(s@),
        None => None,
    }
}

/// An owned copy of an optional string, equal under the view.
pub fn clone_opt_text(o: &Option<String>) -> (r: Option<String>)
    ensures
        opt_text_view(r) == opt_text_view(*o),
{
    match o {
        Some(s) => Some(s.clone()),
        None => None,
    }
}

/// One documentable declaration: its kind, declared name, optional
/// documentation text, source location and the raw declaration text.
pub struct DocNode {
    pub kind: DocNodeKind,
    pub name: String,
    pub documentation: Option<String>,
    pub location: Location,
    pub detail: String,
}

pub ghost struct SpecDocNode {
    pub kind: DocNodeKind,
    pub name: Seq<char>,
    pub documentation: Option<Seq<char>>,
    pub location: SpecLocation,
    pub detail: Seq<char>,
}

impl View for DocNode {
    type V = SpecDocNode;

    open spec fn view(&self) -> SpecDocNode {
        SpecDocNode {
            kind: self.kind,
            name: self.name@,
            documentation: opt_text_view(self.documentation),
            location: self.location@,
            detail: self.detail@,
        }
    }
}

impl Location {
    /// An owned copy, equal under the view.
    pub fn duplicate(&self) -> (r: Location)
        ensures
            r@ == self@,
    {
        Location { specifier: self.specifier.clone(), line: self.line, col: self.col }
    }
}

/// A doc node paired with the short path of the module that declared it,
/// so a re-exported symbol still shows its true origin.
pub struct DocNodeWithOrigin {
    pub node: DocNode,
    pub origin: String,
}

pub ghost struct SpecDocNodeWithOrigin {
    pub node: SpecDocNode,
    pub origin: Seq<char>,
}

impl View for DocNodeWithOrigin {
    type V = SpecDocNodeWithOrigin;

    open spec fn view(&self) -> SpecDocNodeWithOrigin {
        SpecDocNodeWithOrigin { node: self.node@, origin: self.origin@ }
    }
}

impl DocNode {
    /// An owned copy, equal under the view.
    pub fn duplicate(&self) -> (r: DocNode)
        ensures
            r@ == self@,
    {
        DocNode {
            kind: self.kind,
            name: self.name.clone(),
            documentation: clone_opt_text(&self.documentation),
            location: self.location.duplicate(),
            detail: self.detail.clone(),
        }
    }
}

impl DocNodeWithOrigin {
    /// An owned copy, equal under the view.
    pub fn duplicate(&self) -> (r: DocNodeWithOrigin)
        ensures
            r@ == self@,
    {
        DocNodeWithOrigin { node: self.node.duplicate(), origin: self.origin.clone() }
    }
}

/// A top-level declaration as parsed from module text. `is_public` records
/// whether the declaration carried the `export` marker; private declarations
/// are kept in the parse so the extractor can prove it filters them out.
pub struct Decl {
    pub kind: DocNodeKind,
    pub name: String,
    pub is_public: bool,
    pub doc: Option<String>,
    pub line: usize,
    pub detail: String,
}

pub ghost struct SpecDecl {
    pub kind: DocNodeKind,
    pub name: Seq<char>,
    pub is_public: bool,
    pub doc: Option<Seq<char>>,
    pub line: int,
    pub detail: Seq<char>,
}

impl View for Decl {
    type V = SpecDecl;

    open spec fn view(&self) -> SpecDecl {
        SpecDecl {
            kind: self.kind,
            name: self.name@,
            is_public: self.is_public,
            doc: opt_text_view(self.doc),
            line: self.line as int,
            detail: self.detail@,
        }
    }
}

/// A re-export statement: `source_name` is re-exported from module `from`
/// under the name `export_name`.
pub struct ReExport {
    pub source_name: String,
    pub export_name: String,
    pub from: String,
    pub line: usize,
}

pub ghost struct SpecReExport {
    pub source_name: Seq<char>,
    pub export_name: Seq<char>,
    pub from: Seq<char>,
    pub line: int,
}

impl View for ReExport {
    type V = SpecReExport;

    open spec fn view(&self) -> SpecReExport {
        SpecReExport {
            source_name: self.source_name@,
            export_name: self.export_name@,
            from: self.from@,
            line: self.line as int,
        }
    }
}

/// One top-level item of a parsed module, in source order.
pub enum ModuleItem {
    Declaration(Decl),
    ReExported(ReExport),
}

pub ghost enum SpecModuleItem {
    Declaration(SpecDecl),
    ReExported(SpecReExport),
}

impl View for ModuleItem {
    type V = SpecModuleItem;

    open spec fn view(&self) -> SpecModuleItem {
        match self {
            ModuleItem::Declaration(d) => SpecModuleItem::Declaration(d@),
            ModuleItem::ReExported(r) => SpecModuleItem::ReExported(r@),
        }
    }
}

/// A module after parsing: its specifier and its top-level items in source
/// order.
pub struct ParsedModule {
    pub specifier: String,
    pub items: Vec<ModuleItem>,
}

pub ghost struct SpecParsedModule {
    pub specifier: Seq<char>,
    pub items: Seq<SpecModuleItem>,
}

impl View for ParsedModule {
    type V = SpecParsedModule;

    open spec fn view(&self) -> SpecParsedModule {
        SpecParsedModule {
            specifier: self.specifier@,
            items: self.items@.map_values(|it: ModuleItem| it@),
        }
    }
}

/// The view of a list of doc nodes with origin.
pub open spec fn nodes_view(v: Seq<DocNodeWithOrigin>) -> Seq<SpecDocNodeWithOrigin> {
    v.map_values(|n: DocNodeWithOrigin| n@)
}

} // verus!
