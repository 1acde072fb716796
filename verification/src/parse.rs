//! Parsing of raw declaration text into a module's top-level items.
//!
//! The declaration grammar is line-oriented: every top-level declaration
//! starts in the first column, so indented member lines of a block never
//! count as top-level. A line is one of
//!
//! - a documentation line `/** text */`, which attaches to an immediately
//!   following declaration line;
//! - a re-export `export { X } from "spec";` or
//!   `export { X as Y } from "spec";`;
//! - a declaration `[export ]<keyword> <name> ...` where the keyword is one
//!   of `function`, `class`, `interface`, `type`, `const`, `let`, `var`,
//!   `namespace`, `enum`; without the `export` marker the declaration is
//!   private;
//! - anything else, which is ignored and clears a pending documentation
//!   line.

use vstd::prelude::*;
use crate::decl::{Decl, DocNodeKind, ModuleItem, ParsedModule, ReExport, SpecDecl,
    SpecModuleItem, SpecParsedModule, SpecReExport, opt_text_view};

verus! {

/// Characters that may form a declared name.
pub open spec fn spec_is_ident_char(c: char) -> bool {
    ('a' as u32 <= c as u32 && c as u32 <= 'z' as u32) || ('A' as u32 <= c as u32 && c as u32
        <= 'Z' as u32) || ('0' as u32 <= c as u32 && c as u32 <= '9' as u32) || c == '_'
}

#[verifier::when_used_as_spec(spec_is_ident_char)]
pub fn is_ident_char(c: char) -> (r: bool)
    ensures
        r == spec_is_ident_char(c),
{
    let u = c as u32;
    ('a' as u32 <= u && u <= 'z' as u32) || ('A' as u32 <= u && u <= 'Z' as u32) || ('0' as u32
        <= u && u <= '9' as u32) || c == '_'
}

/// Index of the first occurrence of `c` in `s`, if any.
pub open spec fn spec_find(s: Seq<char>, c: char) -> Option<int>
    decreases s.len(),
{
    if s.len() == 0 {
        None
    } else if s[0] == c {
        Some(0int)
    } else {
        match spec_find(s.skip(1), c) {
            None => None,
            Some(i) => Some(i + 1),
        }
    }
}

pub proof fn lemma_find_characterize(s: Seq<char>, c: char, i: int)
    requires
        0 <= i <= s.len(),
        forall|j: int| 0 <= j < i ==> s[j] != c,
        i == s.len() || s[i] == c,
    ensures
        spec_find(s, c) == if i == s.len() {
            None::<int>
        } else {
            Some(i)
        },
    decreases s.len(),
{
    if s.len() == 0 {
    } else if i == 0 {
    } else {
        assert(s[0] != c);
        let t = s.skip(1);
        assert forall|j: int| 0 <= j < i - 1 implies t[j] != c by {
            assert(t[j] == s[j + 1]);
        }
        if i < s.len() {
            assert(t[i - 1] == s[i]);
        }
        lemma_find_characterize(t, c, i - 1);
    }
}

/// Length of the longest prefix of `s` made of name characters.
pub open spec fn spec_ident_len(s: Seq<char>) -> int
    decreases s.len(),
{
    if s.len() > 0 && spec_is_ident_char(s[0]) {
        1 + spec_ident_len(s.skip(1))
    } else {
        0
    }
}

pub proof fn lemma_ident_len_characterize(s: Seq<char>, n: int)
    requires
        0 <= n <= s.len(),
        forall|j: int| 0 <= j < n ==> spec_is_ident_char(s[j]),
        n == s.len() || !spec_is_ident_char(s[n]),
    ensures
        spec_ident_len(s) == n,
    decreases n,
{
    if n == 0 {
    } else {
        assert(spec_is_ident_char(s[0]));
        let t = s.skip(1);
        assert forall|j: int| 0 <= j < n - 1 implies spec_is_ident_char(t[j]) by {
            assert(t[j] == s[j + 1]);
        }
        if n < s.len() {
            assert(t[n - 1] == s[n]);
        }
        lemma_ident_len_characterize(t, n - 1);
    }
}

/// `p` occurs in `s` starting at position `at`.
pub open spec fn spec_starts_with_at(s: Seq<char>, at: int, p: Seq<char>) -> bool {
    0 <= at && at + p.len() <= s.len() && (forall|j: int| 0 <= j < p.len() ==> s[at + j] == p[j])
}

pub fn starts_with_at(s: &str, len: usize, at: usize, p: &str) -> (r: bool)
    requires
        len == s@.len(),
        at <= len,
    ensures
        r == spec_starts_with_at(s@, at as int, p@),
{
    let plen = p.unicode_len();
    if len - at < plen {
        return false;
    }
    let mut j: usize = 0;
    while j < plen
        invariant
            len == s@.len(),
            plen == p@.len(),
            at + plen <= len,
            j <= plen,
            forall|k: int| 0 <= k < j ==> s@[at + k] == p@[k],
        decreases plen - j,
    {
        if s.get_char(at + j) != p.get_char(j) {
            assert(s@[at + j] != p@[j as int]);
            return false;
        }
        j += 1;
    }
    true
}

/// The two views are the same sequence of characters.
pub fn str_eq(a: &str, b: &str) -> (r: bool)
    ensures
        r == (a@ == b@),
{
    let alen = a.unicode_len();
    let blen = b.unicode_len();
    if alen != blen {
        return false;
    }
    let mut j: usize = 0;
    while j < alen
        invariant
            alen == a@.len(),
            alen == b@.len(),
            j <= alen,
            forall|k: int| 0 <= k < j ==> a@[k] == b@[k],
        decreases alen - j,
    {
        if a.get_char(j) != b.get_char(j) {
            assert(a@[j as int] != b@[j as int]);
            return false;
        }
        j += 1;
    }
    proof {
        assert(a@ =~= b@);
    }
    true
}

/// First index `i >= from` with `s[i] == c`, if any.
pub fn find_char(s: &str, len: usize, from: usize, c: char) -> (r: Option<usize>)
    requires
        len == s@.len(),
        from <= len,
    ensures
        match r {
            Some(i) => from <= i < len && spec_find(s@.skip(from as int), c) == Some(
                i as int - from as int,
            ),
            None => spec_find(s@.skip(from as int), c) is None,
        },
{
    let mut i = from;
    while i < len && s.get_char(i) != c
        invariant
            len == s@.len(),
            from <= i <= len,
            forall|j: int| from <= j < i ==> s@[j] != c,
        decreases len - i,
    {
        i += 1;
    }
    proof {
        let sub = s@.skip(from as int);
        assert forall|j: int| 0 <= j < i - from implies sub[j] != c by {
            assert(sub[j] == s@[from + j]);
        }
        if i < len {
            assert(sub[i - from] == s@[i as int]);
        }
        lemma_find_characterize(sub, c, i as int - from as int);
    }
    if i < len {
        Some(i)
    } else {
        None
    }
}

/// Length of the name-character run starting at `from`.
pub fn scan_ident(s: &str, len: usize, from: usize) -> (n: usize)
    requires
        len == s@.len(),
        from <= len,
    ensures
        from + n <= len,
        spec_ident_len(s@.skip(from as int)) == n,
{
    let mut i = from;
    while i < len && is_ident_char(s.get_char(i))
        invariant
            len == s@.len(),
            from <= i <= len,
            forall|j: int| from <= j < i ==> spec_is_ident_char(s@[j]),
        decreases len - i,
    {
        i += 1;
    }
    proof {
        let sub = s@.skip(from as int);
        assert forall|j: int| 0 <= j < i - from implies spec_is_ident_char(sub[j]) by {
            assert(sub[j] == s@[from + j]);
        }
        if i < len {
            assert(sub[i - from] == s@[i as int]);
        }
        lemma_ident_len_characterize(sub, i as int - from as int);
    }
    i - from
}

/// The lines of `s`, split on newline characters. The result always has at
/// least one entry; a trailing newline yields a final empty line.
pub open spec fn spec_split_lines(s: Seq<char>) -> Seq<Seq<char>>
    decreases s.len(),
{
    match spec_find(s, '\n') {
        None => seq![s],
        Some(i) => if 0 <= i < s.len() {
            seq![s.take(i)] + spec_split_lines(s.skip(i + 1))
        } else {
            seq![s]
        },
    }
}

/// The views of a list of owned strings.
pub open spec fn lines_view(v: Seq<String>) -> Seq<Seq<char>> {
    v.map_values(|s: String| s@)
}

pub fn split_lines(text: &str) -> (r: Vec<String>)
    ensures
        lines_view(r@) == spec_split_lines(text@),
{
    let len = text.unicode_len();
    let mut r: Vec<String> = Vec::new();
    let mut start: usize = 0;
    let mut i: usize = 0;
    proof {
        assert(text@.skip(0) =~= text@);
        assert(lines_view(r@) + spec_split_lines(text@) =~= spec_split_lines(text@));
    }
    while i < len
        invariant
            len == text@.len(),
            start <= i <= len,
            forall|j: int| start <= j < i ==> text@[j] != '\n',
            spec_split_lines(text@) == lines_view(r@) + spec_split_lines(
                text@.skip(start as int),
            ),
        decreases len - i,
    {
        if text.get_char(i) == '\n' {
            let ghost prev = r@;
            let line = String::from_str(text.substring_char(start, i));
            r.push(line);
            proof {
                let tail = text@.skip(start as int);
                assert forall|j: int| 0 <= j < i - start implies tail[j] != '\n' by {
                    assert(tail[j] == text@[start + j]);
                }
                assert(tail[i - start] == text@[i as int]);
                lemma_find_characterize(tail, '\n', i as int - start as int);
                assert(tail.take(i - start) =~= text@.subrange(start as int, i as int));
                assert(tail.skip(i - start + 1) =~= text@.skip(i as int + 1));
                assert(lines_view(r@) =~= lines_view(prev).push(line@));
                assert(lines_view(r@) + spec_split_lines(text@.skip(i as int + 1)) =~= lines_view(
                    prev,
                ) + spec_split_lines(tail));
            }
            start = i + 1;
        }
        i += 1;
    }
    let ghost prev = r@;
    let last = String::from_str(text.substring_char(start, len));
    r.push(last);
    proof {
        let tail = text@.skip(start as int);
        assert forall|j: int| 0 <= j < tail.len() implies tail[j] != '\n' by {
            assert(tail[j] == text@[start + j]);
        }
        lemma_find_characterize(tail, '\n', tail.len() as int);
        assert(last@ =~= tail);
        assert(lines_view(r@) =~= lines_view(prev) + seq![tail]);
    }
    r
}

/// Classification of one line of module text.
pub ghost enum SpecLineClass {
    DocLine(Seq<char>),
    DeclLine { kind: DocNodeKind, is_public: bool, name: Seq<char>, detail: Seq<char> },
    ReExportLine { source_name: Seq<char>, export_name: Seq<char>, from: Seq<char> },
    OtherLine,
}

pub enum ClassifiedLine {
    DocLine(String),
    DeclLine { kind: DocNodeKind, is_public: bool, name: String, detail: String },
    ReExportLine { source_name: String, export_name: String, from: String },
    OtherLine,
}

impl View for ClassifiedLine {
    type V = SpecLineClass;

    open spec fn view(&self) -> SpecLineClass {
        match self {
            ClassifiedLine::DocLine(d) => SpecLineClass::DocLine(d@),
            ClassifiedLine::DeclLine { kind, is_public, name, detail } => SpecLineClass::DeclLine {
                kind: *kind,
                is_public: *is_public,
                name: name@,
                detail: detail@,
            },
            ClassifiedLine::ReExportLine { source_name, export_name, from } => {
                SpecLineClass::ReExportLine {
                    source_name: source_name@,
                    export_name: export_name@,
                    from: from@,
                }
            },
            ClassifiedLine::OtherLine => SpecLineClass::OtherLine,
        }
    }
}

/// The tail of a re-export line after the exported names: ` } from "spec";`
/// starting at position `p2`.
pub open spec fn spec_reexport_tail(
    line: Seq<char>,
    src: Seq<char>,
    exp: Seq<char>,
    p2: int,
) -> SpecLineClass {
    if spec_starts_with_at(line, p2, " } from \""@) {
        match spec_find(line.skip(p2 + 9), '"') {
            None => SpecLineClass::OtherLine,
            Some(q) => if p2 + 9 + q + 2 == line.len() && line[line.len() - 1] == ';' {
                SpecLineClass::ReExportLine {
                    source_name: src,
                    export_name: exp,
                    from: line.subrange(p2 + 9, p2 + 9 + q),
                }
            } else {
                SpecLineClass::OtherLine
            },
        }
    } else {
        SpecLineClass::OtherLine
    }
}

/// A line already known to start with `export { `.
pub open spec fn spec_classify_reexport(line: Seq<char>) -> SpecLineClass {
    let n1 = spec_ident_len(line.skip(9));
    if n1 <= 0 {
        SpecLineClass::OtherLine
    } else if spec_starts_with_at(line, 9 + n1, " as "@) {
        let n2 = spec_ident_len(line.skip(9 + n1 + 4));
        if n2 <= 0 {
            SpecLineClass::OtherLine
        } else {
            spec_reexport_tail(
                line,
                line.subrange(9, 9 + n1),
                line.subrange(9 + n1 + 4, 9 + n1 + 4 + n2),
                9 + n1 + 4 + n2,
            )
        }
    } else {
        spec_reexport_tail(line, line.subrange(9, 9 + n1), line.subrange(9, 9 + n1), 9 + n1)
    }
}

/// A declaration whose name starts at `start`.
pub open spec fn spec_decl_named(
    line: Seq<char>,
    start: int,
    kind: DocNodeKind,
    is_public: bool,
) -> SpecLineClass {
    let n = spec_ident_len(line.skip(start));
    if n <= 0 {
        SpecLineClass::OtherLine
    } else {
        SpecLineClass::DeclLine {
            kind,
            is_public,
            name: line.subrange(start, start + n),
            detail: line,
        }
    }
}

/// A declaration whose keyword starts at `off`.
pub open spec fn spec_decl_at(line: Seq<char>, off: int, is_public: bool) -> SpecLineClass {
    if spec_starts_with_at(line, off, "function "@) {
        spec_decl_named(line, off + 9, DocNodeKind::Function, is_public)
    } else if spec_starts_with_at(line, off, "class "@) {
        spec_decl_named(line, off + 6, DocNodeKind::Class, is_public)
    } else if spec_starts_with_at(line, off, "interface "@) {
        spec_decl_named(line, off + 10, DocNodeKind::Interface, is_public)
    } else if spec_starts_with_at(line, off, "type "@) {
        spec_decl_named(line, off + 5, DocNodeKind::TypeAlias, is_public)
    } else if spec_starts_with_at(line, off, "const "@) {
        spec_decl_named(line, off + 6, DocNodeKind::Variable, is_public)
    } else if spec_starts_with_at(line, off, "let "@) {
        spec_decl_named(line, off + 4, DocNodeKind::Variable, is_public)
    } else if spec_starts_with_at(line, off, "var "@) {
        spec_decl_named(line, off + 4, DocNodeKind::Variable, is_public)
    } else if spec_starts_with_at(line, off, "namespace "@) {
        spec_decl_named(line, off + 10, DocNodeKind::Namespace, is_public)
    } else if spec_starts_with_at(line, off, "enum "@) {
        spec_decl_named(line, off + 5, DocNodeKind::Enum, is_public)
    } else {
        SpecLineClass::OtherLine
    }
}

pub open spec fn spec_classify_decl(line: Seq<char>) -> SpecLineClass {
    if spec_starts_with_at(line, 0, "export "@) {
        spec_decl_at(line, 7, true)
    } else {
        spec_decl_at(line, 0, false)
    }
}

/// What one line of module text means.
pub open spec fn spec_classify(line: Seq<char>) -> SpecLineClass {
    if spec_starts_with_at(line, 0, "/**"@) && line.len() >= 5 && line[line.len() - 2] == '*'
        && line[line.len() - 1] == '/' {
        SpecLineClass::DocLine(line.subrange(3, line.len() - 2))
    } else if spec_starts_with_at(line, 0, "export { "@) {
        spec_classify_reexport(line)
    } else {
        spec_classify_decl(line)
    }
}

fn reexport_tail(line: &str, len: usize, src: String, exp: String, p2: usize) -> (r:
    ClassifiedLine)
    requires
        len == line@.len(),
        p2 <= len,
    ensures
        r@ == spec_reexport_tail(line@, src@, exp@, p2 as int),
{
    if !starts_with_at(line, len, p2, " } from \"") {
        return ClassifiedLine::OtherLine;
    }
    proof {
        reveal_strlit(" } from \"");
    }
    let p3 = p2 + 9;
    match find_char(line, len, p3, '"') {
        None => ClassifiedLine::OtherLine,
        Some(q) => {
            let from = String::from_str(line.substring_char(p3, q));
            if len >= 2 && q == len - 2 && line.get_char(len - 1) == ';' {
                ClassifiedLine::ReExportLine { source_name: src, export_name: exp, from }
            } else {
                ClassifiedLine::OtherLine
            }
        },
    }
}

fn classify_reexport(line: &str, len: usize) -> (r: ClassifiedLine)
    requires
        len == line@.len(),
        spec_starts_with_at(line@, 0, "export { "@),
    ensures
        r@ == spec_classify_reexport(line@),
{
    proof {
        reveal_strlit("export { ");
    }
    let n1 = scan_ident(line, len, 9);
    if n1 == 0 {
        return ClassifiedLine::OtherLine;
    }
    let src = String::from_str(line.substring_char(9, 9 + n1));
    let p1 = 9 + n1;
    if starts_with_at(line, len, p1, " as ") {
        proof {
            reveal_strlit(" as ");
        }
        let n2 = scan_ident(line, len, p1 + 4);
        if n2 == 0 {
            return ClassifiedLine::OtherLine;
        }
        let exp = String::from_str(line.substring_char(p1 + 4, p1 + 4 + n2));
        reexport_tail(line, len, src, exp, p1 + 4 + n2)
    } else {
        let exp = src.clone();
        reexport_tail(line, len, src, exp, p1)
    }
}

fn decl_named(line: &str, len: usize, start: usize, kind: DocNodeKind, is_public: bool) -> (r:
    ClassifiedLine)
    requires
        len == line@.len(),
        start <= len,
    ensures
        r@ == spec_decl_named(line@, start as int, kind, is_public),
{
    let n = scan_ident(line, len, start);
    if n == 0 {
        ClassifiedLine::OtherLine
    } else {
        ClassifiedLine::DeclLine {
            kind,
            is_public,
            name: String::from_str(line.substring_char(start, start + n)),
            detail: String::from_str(line),
        }
    }
}

fn decl_at(line: &str, len: usize, off: usize, is_public: bool) -> (r: ClassifiedLine)
    requires
        len == line@.len(),
        off <= len,
    ensures
        r@ == spec_decl_at(line@, off as int, is_public),
{
    if starts_with_at(line, len, off, "function ") {
        proof {
            reveal_strlit("function ");
        }
        decl_named(line, len, off + 9, DocNodeKind::Function, is_public)
    } else if starts_with_at(line, len, off, "class ") {
        proof {
            reveal_strlit("class ");
        }
        decl_named(line, len, off + 6, DocNodeKind::Class, is_public)
    } else if starts_with_at(line, len, off, "interface ") {
        proof {
            reveal_strlit("interface ");
        }
        decl_named(line, len, off + 10, DocNodeKind::Interface, is_public)
    } else if starts_with_at(line, len, off, "type ") {
        proof {
            reveal_strlit("type ");
        }
        decl_named(line, len, off + 5, DocNodeKind::TypeAlias, is_public)
    } else if starts_with_at(line, len, off, "const ") {
        proof {
            reveal_strlit("const ");
        }
        decl_named(line, len, off + 6, DocNodeKind::Variable, is_public)
    } else if starts_with_at(line, len, off, "let ") {
        proof {
            reveal_strlit("let ");
        }
        decl_named(line, len, off + 4, DocNodeKind::Variable, is_public)
    } else if starts_with_at(line, len, off, "var ") {
        proof {
            reveal_strlit("var ");
        }
        decl_named(line, len, off + 4, DocNodeKind::Variable, is_public)
    } else if starts_with_at(line, len, off, "namespace ") {
        proof {
            reveal_strlit("namespace ");
        }
        decl_named(line, len, off + 10, DocNodeKind::Namespace, is_public)
    } else if starts_with_at(line, len, off, "enum ") {
        proof {
            reveal_strlit("enum ");
        }
        decl_named(line, len, off + 5, DocNodeKind::Enum, is_public)
    } else {
        ClassifiedLine::OtherLine
    }
}

fn classify_decl(line: &str, len: usize) -> (r: ClassifiedLine)
    requires
        len == line@.len(),
    ensures
        r@ == spec_classify_decl(line@),
{
    if starts_with_at(line, len, 0, "export ") {
        proof {
            reveal_strlit("export ");
        }
        decl_at(line, len, 7, true)
    } else {
        decl_at(line, len, 0, false)
    }
}

pub fn classify_line(line: &str) -> (r: ClassifiedLine)
    ensures
        r@ == spec_classify(line@),
{
    let len = line.unicode_len();
    if starts_with_at(line, len, 0, "/**") && len >= 5 && line.get_char(len - 2) == '*'
        && line.get_char(len - 1) == '/' {
        ClassifiedLine::DocLine(String::from_str(line.substring_char(3, len - 2)))
    } else if starts_with_at(line, len, 0, "export { ") {
        classify_reexport(line, len)
    } else {
        classify_decl(line, len)
    }
}

/// State of the line-by-line parse: the items gathered so far and a pending
/// documentation line waiting for its declaration.
pub ghost struct SpecParseState {
    pub items: Seq<SpecModuleItem>,
    pub pending: Option<Seq<char>>,
}

pub open spec fn spec_parse_step(st: SpecParseState, line: Seq<char>, lineno: int) -> SpecParseState {
    match spec_classify(line) {
        SpecLineClass::DocLine(d) => SpecParseState { items: st.items, pending: Some(d) },
        SpecLineClass::DeclLine { kind, is_public, name, detail } => SpecParseState {
            items: st.items.push(
                SpecModuleItem::Declaration(
                    SpecDecl { kind, name, is_public, doc: st.pending, line: lineno, detail },
                ),
            ),
            pending: None,
        },
        SpecLineClass::ReExportLine { source_name, export_name, from } => SpecParseState {
            items: st.items.push(
                SpecModuleItem::ReExported(
                    SpecReExport { source_name, export_name, from, line: lineno },
                ),
            ),
            pending: None,
        },
        SpecLineClass::OtherLine => SpecParseState { items: st.items, pending: None },
    }
}

pub open spec fn spec_parse_lines(lines: Seq<Seq<char>>) -> SpecParseState
    decreases lines.len(),
{
    if lines.len() == 0 {
        SpecParseState { items: Seq::empty(), pending: None }
    } else {
        spec_parse_step(spec_parse_lines(lines.drop_last()), lines.last(), lines.len() as int)
    }
}

/// The parse of a whole module: its items are the fold of its lines.
pub open spec fn spec_parse_module(specifier: Seq<char>, text: Seq<char>) -> SpecParsedModule {
    SpecParsedModule { specifier, items: spec_parse_lines(spec_split_lines(text)).items }
}

/// Parse the text of one module into its top-level items, in source order.
pub fn parse_module(specifier: &str, text: &str) -> (m: ParsedModule)
    ensures
        m@ == spec_parse_module(specifier@, text@),
{
    let lines = split_lines(text);
    let mut items: Vec<ModuleItem> = Vec::new();
    let mut pending: Option<String> = None;
    let n = lines.len();
    let mut i: usize = 0;
    proof {
        assert(lines_view(lines@).take(0) =~= Seq::<Seq<char>>::empty());
        assert(items@.map_values(|it: ModuleItem| it@) =~= Seq::<SpecModuleItem>::empty());
    }
    while i < n
        invariant
            n == lines.len(),
            i <= n,
            (SpecParseState {
                items: items@.map_values(|it: ModuleItem| it@),
                pending: opt_text_view(pending),
            }) == spec_parse_lines(lines_view(lines@).take(i as int)),
        decreases n - i,
    {
        let ghost prev_items = items@;
        let ghost prev_state = SpecParseState {
            items: items@.map_values(|it: ModuleItem| it@),
            pending: opt_text_view(pending),
        };
        let c = classify_line(lines[i].as_str());
        match c {
            ClassifiedLine::DocLine(d) => {
                pending = Some(d);
            },
            ClassifiedLine::DeclLine { kind, is_public, name, detail } => {
                let doc = pending;
                pending = None;
                items.push(
                    ModuleItem::Declaration(
                        Decl { kind, name, is_public, doc, line: i + 1, detail },
                    ),
                );
            },
            ClassifiedLine::ReExportLine { source_name, export_name, from } => {
                pending = None;
                items.push(
                    ModuleItem::ReExported(ReExport { source_name, export_name, from, line: i + 1 }),
                );
            },
            ClassifiedLine::OtherLine => {
                pending = None;
            },
        }
        proof {
            let lv = lines_view(lines@);
            assert(lv.take(i + 1).drop_last() =~= lv.take(i as int));
            assert(lv.take(i + 1).last() == lv[i as int]);
            assert(spec_parse_lines(lv.take(i + 1)) == spec_parse_step(
                prev_state,
                lv[i as int],
                i + 1,
            ));
            assert(items@.map_values(|it: ModuleItem| it@) =~= spec_parse_lines(
                lv.take(i + 1),
            ).items);
        }
        i += 1;
    }
    proof {
        assert(lines_view(lines@).take(n as int) =~= lines_view(lines@));
    }
    ParsedModule { specifier: String::from_str(specifier), items }
}

} // verus!
