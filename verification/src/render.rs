//! Deterministic rendering of the site's HTML fragments.
//!
//! Each view is composed by the host site from independent fragments — a
//! breadcrumb trail, a side navigation panel and main content — so each is
//! rendered on its own. Rendering is pure string concatenation over the
//! partitioned nodes and the hrefs the resolver supplies, so the output is
//! a function of the extracted nodes alone.

use vstd::prelude::*;
use crate::decl::{DocNodeKind, DocNodeWithOrigin, SpecDocNodeWithOrigin};
use crate::href::{DocusaurusResolver, SpecUrlResolveKind, UrlResolveKind, spec_resolve_path,
    spec_site_root};

verus! {

/// One entry of a breadcrumb trail.
pub struct Breadcrumb {
    pub label: String,
    pub href: String,
}

pub ghost struct SpecBreadcrumb {
    pub label: Seq<char>,
    pub href: Seq<char>,
}

impl View for Breadcrumb {
    type V = SpecBreadcrumb;

    open spec fn view(&self) -> SpecBreadcrumb {
        SpecBreadcrumb { label: self.label@, href: self.href@ }
    }
}

/// The view of a breadcrumb trail.
pub open spec fn crumbs_view(v: Seq<Breadcrumb>) -> Seq<SpecBreadcrumb> {
    v.map_values(|c: Breadcrumb| c@)
}

/// The immutable snapshot a view is rendered from: where the view sits and
/// the breadcrumb trail leading to it, plus the resolver for further hrefs.
pub struct RenderContext {
    pub location: UrlResolveKind,
    pub breadcrumbs: Vec<Breadcrumb>,
    pub resolver: DocusaurusResolver,
}

pub open spec fn spec_kind_label(k: DocNodeKind) -> Seq<char> {
    match k {
        DocNodeKind::Function => "function"@,
        DocNodeKind::Class => "class"@,
        DocNodeKind::Interface => "interface"@,
        DocNodeKind::TypeAlias => "typeAlias"@,
        DocNodeKind::Variable => "variable"@,
        DocNodeKind::Namespace => "namespace"@,
        DocNodeKind::Enum => "enum"@,
        DocNodeKind::ModuleDoc => "moduleDoc"@,
    }
}

pub fn kind_label(k: DocNodeKind) -> (r: String)
    ensures
        r@ == spec_kind_label(k),
{
    match k {
        DocNodeKind::Function => String::from_str("function"),
        DocNodeKind::Class => String::from_str("class"),
        DocNodeKind::Interface => String::from_str("interface"),
        DocNodeKind::TypeAlias => String::from_str("typeAlias"),
        DocNodeKind::Variable => String::from_str("variable"),
        DocNodeKind::Namespace => String::from_str("namespace"),
        DocNodeKind::Enum => String::from_str("enum"),
        DocNodeKind::ModuleDoc => String::from_str("moduleDoc"),
    }
}

/// The URL of a symbol's page.
pub open spec fn spec_symbol_href(name: Seq<char>) -> Seq<char> {
    spec_resolve_path(SpecUrlResolveKind::Symbol(name))
}

pub fn symbol_href(resolver: &DocusaurusResolver, name: &str) -> (r: String)
    ensures
        r@ == spec_symbol_href(name@),
{
    resolver.resolve_path(
        &UrlResolveKind::Root,
        &UrlResolveKind::Symbol(String::from_str(name)),
    )
}

pub open spec fn spec_breadcrumb_item(c: SpecBreadcrumb) -> Seq<char> {
    "<li><a href=\""@ + c.href + "\">"@ + c.label + "</a></li>"@
}

pub open spec fn spec_breadcrumb_items(cs: Seq<SpecBreadcrumb>) -> Seq<char>
    decreases cs.len(),
{
    if cs.len() == 0 {
        Seq::empty()
    } else {
        spec_breadcrumb_items(cs.drop_last()) + spec_breadcrumb_item(cs.last())
    }
}

/// The breadcrumb fragment of a view.
pub open spec fn spec_render_breadcrumbs(cs: Seq<SpecBreadcrumb>) -> Seq<char> {
    "<ul class=\"breadcrumbs\">"@ + spec_breadcrumb_items(cs) + "</ul>"@
}

pub fn render_breadcrumbs(ctx: &RenderContext) -> (r: String)
    ensures
        r@ == spec_render_breadcrumbs(crumbs_view(ctx.breadcrumbs@)),
{
    let ghost cv = crumbs_view(ctx.breadcrumbs@);
    let mut out = String::from_str("<ul class=\"breadcrumbs\">");
    let n = ctx.breadcrumbs.len();
    let mut i: usize = 0;
    proof {
        assert(cv.take(0) =~= Seq::<SpecBreadcrumb>::empty());
        assert(out@ =~= "<ul class=\"breadcrumbs\">"@ + spec_breadcrumb_items(cv.take(0)));
    }
    while i < n
        invariant
            n == ctx.breadcrumbs@.len(),
            i <= n,
            cv == crumbs_view(ctx.breadcrumbs@),
            out@ == "<ul class=\"breadcrumbs\">"@ + spec_breadcrumb_items(cv.take(i as int)),
        decreases n - i,
    {
        let c = &ctx.breadcrumbs[i];
        out.append("<li><a href=\"");
        out.append(c.href.as_str());
        out.append("\">");
        out.append(c.label.as_str());
        out.append("</a></li>");
        proof {
            assert(cv.take(i + 1).drop_last() =~= cv.take(i as int));
            assert(cv.take(i + 1).last() == cv[i as int]);
            assert(out@ =~= "<ul class=\"breadcrumbs\">"@ + spec_breadcrumb_items(cv.take(i + 1)));
        }
        i += 1;
    }
    proof {
        assert(cv.take(n as int) =~= cv);
    }
    out.append("</ul>");
    proof {
        assert(out@ =~= spec_render_breadcrumbs(cv));
    }
    out
}

/// The breadcrumb trail of the root (all-symbols) view.
pub open spec fn spec_root_crumbs() -> Seq<SpecBreadcrumb> {
    seq![SpecBreadcrumb { label: "index"@, href: spec_site_root() }]
}

pub fn root_breadcrumbs(resolver: &DocusaurusResolver) -> (r: Vec<Breadcrumb>)
    ensures
        crumbs_view(r@) == spec_root_crumbs(),
{
    let href = resolver.resolve_path(&UrlResolveKind::Root, &UrlResolveKind::AllSymbols);
    let mut r: Vec<Breadcrumb> = Vec::new();
    r.push(Breadcrumb { label: String::from_str("index"), href });
    proof {
        assert(crumbs_view(r@) =~= spec_root_crumbs());
    }
    r
}

/// The breadcrumb trail of a symbol view: the index, then the symbol.
pub open spec fn spec_symbol_crumbs(name: Seq<char>) -> Seq<SpecBreadcrumb> {
    seq![
        SpecBreadcrumb { label: "index"@, href: spec_site_root() },
        SpecBreadcrumb { label: name, href: spec_symbol_href(name) },
    ]
}

pub fn symbol_breadcrumbs(resolver: &DocusaurusResolver, name: &str) -> (r: Vec<Breadcrumb>)
    ensures
        crumbs_view(r@) == spec_symbol_crumbs(name@),
{
    let root_href = resolver.resolve_path(&UrlResolveKind::Root, &UrlResolveKind::Root);
    let mut r: Vec<Breadcrumb> = Vec::new();
    r.push(Breadcrumb { label: String::from_str("index"), href: root_href });
    r.push(Breadcrumb { label: String::from_str(name), href: symbol_href(resolver, name) });
    proof {
        assert(crumbs_view(r@) =~= spec_symbol_crumbs(name@));
    }
    r
}

pub open spec fn spec_section_entry(n: SpecDocNodeWithOrigin) -> Seq<char> {
    "<li><a href=\""@ + spec_symbol_href(n.node.name) + "\">"@ + n.node.name + "</a></li>"@
}

pub open spec fn spec_section_entries(ns: Seq<SpecDocNodeWithOrigin>) -> Seq<char>
    decreases ns.len(),
{
    if ns.len() == 0 {
        Seq::empty()
    } else {
        spec_section_entries(ns.drop_last()) + spec_section_entry(ns.last())
    }
}

/// One kind's section of the all-symbols index.
pub open spec fn spec_section(k: DocNodeKind, ns: Seq<SpecDocNodeWithOrigin>) -> Seq<char> {
    "<section><h2>"@ + spec_kind_label(k) + "</h2><ul>"@ + spec_section_entries(ns)
        + "</ul></section>"@
}

fn render_section(resolver: &DocusaurusResolver, k: DocNodeKind, ns: &Vec<DocNodeWithOrigin>) -> (r:
    String)
    ensures
        r@ == spec_section(k, crate::decl::nodes_view(ns@)),
{
    let ghost nv = crate::decl::nodes_view(ns@);
    let mut out = String::from_str("<section><h2>");
    out.append(kind_label(k).as_str());
    out.append("</h2><ul>");
    let ghost head = "<section><h2>"@ + spec_kind_label(k) + "</h2><ul>"@;
    let n = ns.len();
    let mut i: usize = 0;
    proof {
        assert(nv.take(0) =~= Seq::<SpecDocNodeWithOrigin>::empty());
        assert(out@ =~= head + spec_section_entries(nv.take(0)));
    }
    while i < n
        invariant
            n == ns@.len(),
            i <= n,
            nv == crate::decl::nodes_view(ns@),
            head == "<section><h2>"@ + spec_kind_label(k) + "</h2><ul>"@,
            out@ == head + spec_section_entries(nv.take(i as int)),
        decreases n - i,
    {
        let node = &ns[i];
        out.append("<li><a href=\"");
        out.append(symbol_href(resolver, node.node.name.as_str()).as_str());
        out.append("\">");
        out.append(node.node.name.as_str());
        out.append("</a></li>");
        proof {
            assert(nv.take(i + 1).drop_last() =~= nv.take(i as int));
            assert(nv.take(i + 1).last() == nv[i as int]);
            assert(out@ =~= head + spec_section_entries(nv.take(i + 1)));
        }
        i += 1;
    }
    proof {
        assert(nv.take(n as int) =~= nv);
    }
    out.append("</ul></section>");
    proof {
        assert(out@ =~= spec_section(k, nv));
    }
    out
}

pub open spec fn spec_sections(groups: Seq<(DocNodeKind, Seq<SpecDocNodeWithOrigin>)>) -> Seq<char>
    decreases groups.len(),
{
    if groups.len() == 0 {
        Seq::empty()
    } else {
        spec_sections(groups.drop_last()) + spec_section(groups.last().0, groups.last().1)
    }
}

/// The all-symbols index: one section per kind, in first-appearance order.
pub open spec fn spec_render_index(groups: Seq<(DocNodeKind, Seq<SpecDocNodeWithOrigin>)>) -> Seq<
    char,
> {
    "<main class=\"allSymbols\">"@ + spec_sections(groups) + "</main>"@
}

pub fn render_index(
    resolver: &DocusaurusResolver,
    groups: &Vec<(DocNodeKind, Vec<DocNodeWithOrigin>)>,
) -> (r: String)
    ensures
        r@ == spec_render_index(crate::partition::kind_groups_view(groups@)),
{
    let ghost gv = crate::partition::kind_groups_view(groups@);
    let mut out = String::from_str("<main class=\"allSymbols\">");
    let n = groups.len();
    let mut i: usize = 0;
    proof {
        assert(gv.take(0) =~= Seq::<(DocNodeKind, Seq<SpecDocNodeWithOrigin>)>::empty());
        assert(out@ =~= "<main class=\"allSymbols\">"@ + spec_sections(gv.take(0)));
    }
    while i < n
        invariant
            n == groups@.len(),
            i <= n,
            gv == crate::partition::kind_groups_view(groups@),
            out@ == "<main class=\"allSymbols\">"@ + spec_sections(gv.take(i as int)),
        decreases n - i,
    {
        let pair = &groups[i];
        let section = render_section(resolver, pair.0, &pair.1);
        out.append(section.as_str());
        proof {
            assert(gv.take(i + 1).drop_last() =~= gv.take(i as int));
            assert(gv.take(i + 1).last() == gv[i as int]);
            assert(out@ =~= "<main class=\"allSymbols\">"@ + spec_sections(gv.take(i + 1)));
        }
        i += 1;
    }
    proof {
        assert(gv.take(n as int) =~= gv);
    }
    out.append("</main>");
    proof {
        assert(out@ =~= spec_render_index(gv));
    }
    out
}

pub open spec fn spec_sidepanel_entry(name: Seq<char>) -> Seq<char> {
    "<li><a href=\""@ + spec_symbol_href(name) + "\">"@ + name + "</a></li>"@
}

pub open spec fn spec_sidepanel_entries(groups: Seq<(Seq<char>, Seq<SpecDocNodeWithOrigin>)>) -> Seq<
    char,
>
    decreases groups.len(),
{
    if groups.len() == 0 {
        Seq::empty()
    } else {
        spec_sidepanel_entries(groups.drop_last()) + spec_sidepanel_entry(groups.last().0)
    }
}

/// The side navigation panel: one link per distinct top-level name.
pub open spec fn spec_render_sidepanel(
    groups: Seq<(Seq<char>, Seq<SpecDocNodeWithOrigin>)>,
) -> Seq<char> {
    "<nav class=\"sidepanel\"><ul>"@ + spec_sidepanel_entries(groups) + "</ul></nav>"@
}

pub fn render_sidepanel(
    resolver: &DocusaurusResolver,
    groups: &Vec<(String, Vec<DocNodeWithOrigin>)>,
) -> (r: String)
    ensures
        r@ == spec_render_sidepanel(crate::partition::name_groups_view(groups@)),
{
    let ghost gv = crate::partition::name_groups_view(groups@);
    let mut out = String::from_str("<nav class=\"sidepanel\"><ul>");
    let n = groups.len();
    let mut i: usize = 0;
    proof {
        assert(gv.take(0) =~= Seq::<(Seq<char>, Seq<SpecDocNodeWithOrigin>)>::empty());
        assert(out@ =~= "<nav class=\"sidepanel\"><ul>"@ + spec_sidepanel_entries(gv.take(0)));
    }
    while i < n
        invariant
            n == groups@.len(),
            i <= n,
            gv == crate::partition::name_groups_view(groups@),
            out@ == "<nav class=\"sidepanel\"><ul>"@ + spec_sidepanel_entries(gv.take(i as int)),
        decreases n - i,
    {
        let pair = &groups[i];
        out.append("<li><a href=\"");
        out.append(symbol_href(resolver, pair.0.as_str()).as_str());
        out.append("\">");
        out.append(pair.0.as_str());
        out.append("</a></li>");
        proof {
            assert(gv.take(i + 1).drop_last() =~= gv.take(i as int));
            assert(gv.take(i + 1).last() == gv[i as int]);
            assert(out@ =~= "<nav class=\"sidepanel\"><ul>"@ + spec_sidepanel_entries(
                gv.take(i + 1),
            ));
        }
        i += 1;
    }
    proof {
        assert(gv.take(n as int) =~= gv);
    }
    out.append("</ul></nav>");
    proof {
        assert(out@ =~= spec_render_sidepanel(gv));
    }
    out
}

pub open spec fn spec_member(n: SpecDocNodeWithOrigin) -> Seq<char> {
    "<section><h3>"@ + spec_kind_label(n.node.kind) + " "@ + n.node.name + "</h3>"@ + (match n
        .node
        .documentation {
        Some(d) => "<p>"@ + d + "</p>"@,
        None => Seq::<char>::empty(),
    }) + "<pre>"@ + n.node.detail + "</pre></section>"@
}

pub open spec fn spec_members(ns: Seq<SpecDocNodeWithOrigin>) -> Seq<char>
    decreases ns.len(),
{
    if ns.len() == 0 {
        Seq::empty()
    } else {
        spec_members(ns.drop_last()) + spec_member(ns.last())
    }
}

/// The main content of a symbol's page: one section per member of the
/// group — overloads and colliding declarations render together.
pub open spec fn spec_render_symbol_main(name: Seq<char>, ns: Seq<SpecDocNodeWithOrigin>) -> Seq<
    char,
> {
    "<main><h1>"@ + name + "</h1>"@ + spec_members(ns) + "</main>"@
}

#[verifier::rlimit(80)]
pub fn render_symbol_main(name: &str, members: &Vec<DocNodeWithOrigin>) -> (r: String)
    ensures
        r@ == spec_render_symbol_main(name@, crate::decl::nodes_view(members@)),
{
    let ghost nv = crate::decl::nodes_view(members@);
    let mut out = String::from_str("<main><h1>");
    out.append(name);
    out.append("</h1>");
    let ghost head = "<main><h1>"@ + name@ + "</h1>"@;
    let n = members.len();
    let mut i: usize = 0;
    proof {
        assert(nv.take(0) =~= Seq::<SpecDocNodeWithOrigin>::empty());
        assert(out@ =~= head + spec_members(nv.take(0)));
    }
    while i < n
        invariant
            n == members@.len(),
            i <= n,
            nv == crate::decl::nodes_view(members@),
            head == "<main><h1>"@ + name@ + "</h1>"@,
            out@ == head + spec_members(nv.take(i as int)),
        decreases n - i,
    {
        let node = &members[i];
        out.append("<section><h3>");
        out.append(kind_label(node.node.kind).as_str());
        out.append(" ");
        out.append(node.node.name.as_str());
        out.append("</h3>");
        match &node.node.documentation {
            Some(d) => {
                out.append("<p>");
                out.append(d.as_str());
                out.append("</p>");
            },
            None => {},
        }
        out.append("<pre>");
        out.append(node.node.detail.as_str());
        out.append("</pre></section>");
        proof {
            assert(nv.take(i + 1).drop_last() =~= nv.take(i as int));
            assert(nv.take(i + 1).last() == nv[i as int]);
            assert(out@ =~= head + spec_members(nv.take(i + 1)));
        }
        i += 1;
    }
    proof {
        assert(nv.take(n as int) =~= nv);
    }
    out.append("</main>");
    proof {
        assert(out@ =~= spec_render_symbol_main(name@, nv));
    }
    out
}

} // verus!
