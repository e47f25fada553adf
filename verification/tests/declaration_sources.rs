//! The declaration rules (`consistent-type-definitions` and
//! `consistent-indexed-object-style`) run over whole pieces of TypeScript: a
//! small reader builds the syntax tree of the declarations written in them,
//! and the rules are run on its nodes with what they read around each node.

use typescript_eslint::report::TextEdit;
use typescript_eslint::rules::consistent_indexed_object_style::{
    consistent_indexed_object_style_rule, IndexedObjectMessage, Options as ObjectStyleOptions,
};
use typescript_eslint::rules::consistent_type_definitions::{
    consistent_type_definitions_rule, ExportDefaultParent, Options as DefinitionOptions, TypeDefinitionMessage,
};
use typescript_eslint::syntax::{Field, NodeKind, SyntaxNode, TokenInfo};

fn node(src: &str, kind: NodeKind, field: Option<Field>, start: usize, end: usize, children: Vec<SyntaxNode>) -> SyntaxNode {
    SyntaxNode { kind, field, named: true, text: src[start..end].to_string(), start, end, children }
}

fn with_field(mut n: SyntaxNode, f: Field) -> SyntaxNode {
    n.field = Some(f);
    n
}

const PREDEFINED: &[&str] =
    &["any", "number", "boolean", "string", "symbol", "void", "unknown", "never", "object", "bigint"];

/// Reads types out of a piece of source.
struct Reader<'a> {
    src: &'a str,
    pos: usize,
}

impl<'a> Reader<'a> {
    fn ws(&mut self) {
        while self.pos < self.src.len() && self.src.as_bytes()[self.pos].is_ascii_whitespace() {
            self.pos += 1;
        }
    }

    fn rest(&self) -> &'a str {
        &self.src[self.pos..]
    }

    fn word(&mut self) -> Option<(usize, usize)> {
        self.ws();
        let r = self.rest();
        let n = r.bytes().take_while(|b| b.is_ascii_alphanumeric() || *b == b'_' || *b == b'$').count();
        if n == 0 || r.as_bytes()[0].is_ascii_digit() {
            None
        } else {
            Some((self.pos, self.pos + n))
        }
    }

    fn next_word_is(&mut self, w: &str) -> bool {
        let save = self.pos;
        let r = match self.word() {
            Some((s, e)) => &self.src[s..e] == w,
            None => false,
        };
        self.pos = save;
        r
    }

    fn tok(&mut self, t: &str) -> Option<SyntaxNode> {
        let save = self.pos;
        self.ws();
        if self.rest().starts_with(t) {
            let start = self.pos;
            self.pos += t.len();
            let mut n = node(self.src, NodeKind::Other, None, start, self.pos, Vec::new());
            n.named = false;
            Some(n)
        } else {
            self.pos = save;
            None
        }
    }

    fn keyword(&mut self, w: &str, kind: NodeKind) -> SyntaxNode {
        self.ws();
        let start = self.pos;
        self.pos += w.len();
        let mut n = node(self.src, kind, None, start, self.pos, Vec::new());
        n.named = false;
        n
    }

    fn parse_type(&mut self) -> Option<SyntaxNode> {
        let check = self.parse_union()?;
        if self.next_word_is("extends") {
            let save = self.pos;
            let kw = self.keyword("extends", NodeKind::Other);
            let parsed = (|| {
                let right = self.parse_union()?;
                let q = self.tok("?")?;
                let cons = self.parse_type()?;
                let colon = self.tok(":")?;
                let alt = self.parse_type()?;
                Some((right, q, cons, colon, alt))
            })();
            match parsed {
                Some((right, q, cons, colon, alt)) => {
                    let (s, e) = (check.start, alt.end);
                    return Some(node(self.src, NodeKind::Other, None, s, e, vec![check, kw, right, q, cons, colon, alt]));
                },
                None => {
                    self.pos = save;
                },
            }
        }
        Some(check)
    }

    fn parse_union(&mut self) -> Option<SyntaxNode> {
        let mut left = self.parse_intersection()?;
        while let Some(bar) = self.tok("|") {
            let right = self.parse_intersection()?;
            let (s, e) = (left.start, right.end);
            left = node(self.src, NodeKind::UnionType, None, s, e, vec![left, bar, right]);
        }
        Some(left)
    }

    fn parse_intersection(&mut self) -> Option<SyntaxNode> {
        let mut left = self.parse_postfix()?;
        while let Some(amp) = self.tok("&") {
            let right = self.parse_postfix()?;
            let (s, e) = (left.start, right.end);
            left = node(self.src, NodeKind::IntersectionType, None, s, e, vec![left, amp, right]);
        }
        Some(left)
    }

    fn parse_postfix(&mut self) -> Option<SyntaxNode> {
        if self.next_word_is("readonly") {
            let kw = self.keyword("readonly", NodeKind::ReadonlyKeyword);
            let inner = self.parse_postfix()?;
            let (s, e) = (kw.start, inner.end);
            return Some(node(self.src, NodeKind::ReadonlyType, None, s, e, vec![kw, inner]));
        }
        if self.next_word_is("infer") {
            let kw = self.keyword("infer", NodeKind::Other);
            let (s, e) = self.word()?;
            self.pos = e;
            let name = node(self.src, NodeKind::TypeIdentifier, None, s, e, Vec::new());
            return Some(node(self.src, NodeKind::InferType, None, kw.start, e, vec![kw, name]));
        }
        let mut t = self.parse_primary()?;
        while self.rest().starts_with("[]") {
            let open = self.tok("[").unwrap();
            let close = self.tok("]").unwrap();
            let (s, e) = (t.start, close.end);
            t = node(self.src, NodeKind::ArrayType, None, s, e, vec![t, open, close]);
        }
        Some(t)
    }

    /// `(` starts a function type rather than a parenthesized type.
    fn function_type_ahead(&self) -> bool {
        let r = self.rest()[1..].trim_start();
        if r.starts_with(')') || r.starts_with("...") {
            return true;
        }
        let n = r.bytes().take_while(|b| b.is_ascii_alphanumeric() || *b == b'_').count();
        n > 0 && {
            let after = r[n..].trim_start();
            after.starts_with(':') || after.starts_with('?') || after.starts_with(',')
        }
    }

    fn parse_parameters(&mut self) -> Option<SyntaxNode> {
        let open = self.tok("(")?;
        let mut children = vec![open];
        loop {
            if let Some(close) = self.tok(")") {
                let (s, e) = (children[0].start, close.end);
                children.push(close);
                return Some(node(self.src, NodeKind::Other, Some(Field::Parameters), s, e, children));
            }
            let rest = self.tok("...");
            let (ws, we) = self.word()?;
            self.pos = we;
            let start = rest.as_ref().map(|r| r.start).unwrap_or(ws);
            let mut parts = Vec::new();
            if let Some(r) = rest {
                parts.push(r);
            }
            parts.push(node(self.src, NodeKind::Identifier, Some(Field::Pattern), ws, we, Vec::new()));
            if let Some(colon) = self.tok(":") {
                let t = self.parse_type()?;
                let (s, e) = (colon.start, t.end);
                parts.push(node(self.src, NodeKind::TypeAnnotation, Some(Field::Type), s, e, vec![colon, t]));
            }
            let end = parts.last().unwrap().end;
            children.push(node(self.src, NodeKind::RequiredParameter, None, start, end, parts));
            if let Some(comma) = self.tok(",") {
                children.push(comma);
            }
        }
    }

    fn parse_arrow_type(&mut self, kind: NodeKind, first: Option<SyntaxNode>) -> Option<SyntaxNode> {
        let params = self.parse_parameters()?;
        let arrow = self.tok("=>")?;
        let ret = self.parse_type()?;
        let start = first.as_ref().map(|f| f.start).unwrap_or(params.start);
        let end = ret.end;
        let mut children = Vec::new();
        if let Some(f) = first {
            children.push(f);
        }
        children.extend([params, arrow, with_field(ret, Field::Type)]);
        Some(node(self.src, kind, None, start, end, children))
    }

    fn parse_primary(&mut self) -> Option<SyntaxNode> {
        self.ws();
        let r = self.rest();
        if r.starts_with('(') {
            if self.function_type_ahead() {
                return self.parse_arrow_type(NodeKind::FunctionType, None);
            }
            let open = self.tok("(")?;
            let inner = self.parse_type()?;
            let close = self.tok(")")?;
            let (s, e) = (open.start, close.end);
            return Some(node(self.src, NodeKind::ParenthesizedType, None, s, e, vec![open, inner, close]));
        }
        if r.starts_with('{') {
            return self.parse_object_type();
        }
        if r.starts_with('[') {
            let open = self.tok("[")?;
            let mut children = vec![open];
            loop {
                if let Some(close) = self.tok("]") {
                    let (s, e) = (children[0].start, close.end);
                    children.push(close);
                    return Some(node(self.src, NodeKind::TupleType, None, s, e, children));
                }
                children.push(self.parse_type()?);
                if let Some(comma) = self.tok(",") {
                    children.push(comma);
                }
            }
        }
        if r.starts_with('\'') || r.starts_with('"') {
            let q = r.chars().next().unwrap();
            let close = r[1..].find(q)? + 2;
            let start = self.pos;
            self.pos += close;
            let lit = node(self.src, NodeKind::Other, None, start, self.pos, Vec::new());
            return Some(node(self.src, NodeKind::LiteralType, None, start, self.pos, vec![lit]));
        }
        if r.as_bytes().first().map_or(false, |b| b.is_ascii_digit()) {
            let n = r.bytes().take_while(|b| b.is_ascii_digit()).count();
            let start = self.pos;
            self.pos += n;
            let lit = node(self.src, NodeKind::Other, None, start, self.pos, Vec::new());
            return Some(node(self.src, NodeKind::LiteralType, None, start, self.pos, vec![lit]));
        }
        let (s, e) = self.word()?;
        let w = &self.src[s..e];
        if w == "new" {
            let kw = self.keyword("new", NodeKind::Other);
            return self.parse_arrow_type(NodeKind::ConstructorType, Some(kw));
        }
        self.pos = e;
        if PREDEFINED.contains(&w) {
            return Some(node(self.src, NodeKind::PredefinedType, None, s, e, Vec::new()));
        }
        if w == "this" {
            return Some(node(self.src, NodeKind::ThisType, None, s, e, Vec::new()));
        }
        if w == "undefined" || w == "null" {
            let kind = if w == "undefined" { NodeKind::Undefined } else { NodeKind::Null };
            let inner = node(self.src, kind, None, s, e, Vec::new());
            return Some(node(self.src, NodeKind::LiteralType, None, s, e, vec![inner]));
        }
        let mut name = node(self.src, NodeKind::TypeIdentifier, None, s, e, Vec::new());
        if self.rest().starts_with('.') {
            let dot = self.tok(".")?;
            let (ns, ne) = self.word()?;
            self.pos = ne;
            let mut module = name;
            module.kind = NodeKind::Identifier;
            module.field = Some(Field::Other);
            let inner = node(self.src, NodeKind::TypeIdentifier, Some(Field::Name), ns, ne, Vec::new());
            name = node(self.src, NodeKind::NestedTypeIdentifier, None, s, ne, vec![module, dot, inner]);
        }
        if self.rest().starts_with('<') {
            let open = self.tok("<")?;
            let mut args = vec![open];
            loop {
                if let Some(close) = self.tok(">") {
                    let (a, b) = (args[0].start, close.end);
                    args.push(close);
                    let type_args = node(self.src, NodeKind::TypeArguments, Some(Field::TypeArguments), a, b, args);
                    let start = name.start;
                    return Some(node(self.src, NodeKind::GenericType, None, start, b, vec![with_field(name, Field::Name), type_args]));
                }
                args.push(self.parse_type()?);
                if let Some(comma) = self.tok(",") {
                    args.push(comma);
                }
            }
        }
        Some(name)
    }

    fn unnamed(&mut self, t: &str, kind: NodeKind) -> Option<SyntaxNode> {
        let mut n = self.tok(t)?;
        n.kind = kind;
        Some(n)
    }

    fn name_node(&mut self, kind: NodeKind, field: Field) -> Option<SyntaxNode> {
        self.ws();
        let r = self.rest();
        let (s, e) = if r.starts_with('\'') || r.starts_with('"') {
            let q = r.chars().next().unwrap();
            (self.pos, self.pos + r[1..].find(q)? + 2)
        } else {
            self.word()?
        };
        self.pos = e;
        Some(node(self.src, kind, Some(field), s, e, Vec::new()))
    }

    fn annotation(&mut self) -> Option<SyntaxNode> {
        let colon = self.tok(":")?;
        let t = self.parse_type()?;
        let (s, e) = (colon.start, t.end);
        Some(node(self.src, NodeKind::TypeAnnotation, Some(Field::Type), s, e, vec![colon, t]))
    }

    fn parse_member(&mut self) -> Option<SyntaxNode> {
        self.ws();
        let start = self.pos;
        let mut children = Vec::new();
        if self.next_word_is("readonly") && !self.rest()["readonly".len()..].trim_start().starts_with(':') {
            children.push(self.keyword("readonly", NodeKind::ReadonlyKeyword));
        }
        if let Some(open) = self.tok("[") {
            children.push(open);
            if let Some(close) = self.unnamed("]", NodeKind::CloseBracket) {
                children.push(close);
            } else {
                let (ns, ne) = self.word()?;
                self.pos = ne;
                if self.next_word_is("in") {
                    let name = node(self.src, NodeKind::TypeIdentifier, Some(Field::Name), ns, ne, Vec::new());
                    let kw = self.keyword("in", NodeKind::Other);
                    let t = self.parse_type()?;
                    let e = t.end;
                    children.push(node(self.src, NodeKind::MappedTypeClause, None, ns, e, vec![name, kw, t]));
                } else {
                    children.push(node(self.src, NodeKind::Identifier, Some(Field::Name), ns, ne, Vec::new()));
                    children.push(self.tok(":")?);
                    children.push(with_field(self.parse_type()?, Field::IndexType));
                }
                children.push(self.unnamed("]", NodeKind::CloseBracket)?);
            }
            if self.rest().trim_start().starts_with(':') {
                children.push(self.annotation()?);
            }
            let end = children.last().unwrap().end;
            return Some(node(self.src, NodeKind::IndexSignature, None, start, end, children));
        }
        let name = self.name_node(NodeKind::PropertyIdentifier, Field::Name)?;
        children.push(name);
        if let Some(q) = self.tok("?") {
            children.push(q);
        }
        if self.rest().trim_start().starts_with('(') {
            children.push(self.parse_parameters()?);
            if self.rest().trim_start().starts_with(':') {
                children.push(self.annotation()?);
            }
            let end = children.last().unwrap().end;
            return Some(node(self.src, NodeKind::MethodSignature, None, start, end, children));
        }
        children.push(self.annotation()?);
        let end = children.last().unwrap().end;
        Some(node(self.src, NodeKind::PropertySignature, None, start, end, children))
    }

    fn parse_object_type(&mut self) -> Option<SyntaxNode> {
        let open = self.tok("{")?;
        let mut children = vec![open];
        loop {
            if let Some(close) = self.tok("}") {
                let (s, e) = (children[0].start, close.end);
                children.push(close);
                return Some(node(self.src, NodeKind::ObjectType, None, s, e, children));
            }
            children.push(self.parse_member()?);
            if let Some(sep) = self.tok(";").or_else(|| self.tok(",")) {
                children.push(sep);
            }
        }
    }

    fn type_parameters(&mut self) -> Option<SyntaxNode> {
        let open = self.tok("<")?;
        let mut children = vec![open];
        loop {
            if let Some(close) = self.tok(">") {
                let (s, e) = (children[0].start, close.end);
                children.push(close);
                return Some(node(self.src, NodeKind::TypeParameters, Some(Field::TypeParameters), s, e, children));
            }
            let name = self.name_node(NodeKind::TypeIdentifier, Field::Name)?;
            let start = name.start;
            let mut parts = vec![name];
            if self.next_word_is("extends") {
                parts.push(self.keyword("extends", NodeKind::Other));
                parts.push(self.parse_type()?);
            }
            if let Some(eq) = self.tok("=") {
                parts.push(eq);
                parts.push(self.parse_type()?);
            }
            let end = parts.last().unwrap().end;
            children.push(node(self.src, NodeKind::TypeParameter, None, start, end, parts));
            if let Some(comma) = self.tok(",") {
                children.push(comma);
            }
        }
    }

    fn block(&mut self) -> Option<SyntaxNode> {
        let open = self.tok("{")?;
        let mut children = vec![open];
        loop {
            if let Some(close) = self.tok("}") {
                let (s, e) = (children[0].start, close.end);
                children.push(close);
                return Some(node(self.src, NodeKind::StatementBlock, Some(Field::Body), s, e, children));
            }
            children.push(self.statement()?);
        }
    }

    /// Skips a balanced `{ ... }` (a function body).
    fn skip_braces(&mut self) -> Option<SyntaxNode> {
        self.ws();
        let start = self.pos;
        let mut depth = 0;
        for (k, ch) in self.rest().char_indices() {
            match ch {
                '{' => depth += 1,
                '}' => {
                    depth -= 1;
                    if depth == 0 {
                        self.pos = start + k + 1;
                        return Some(node(self.src, NodeKind::StatementBlock, Some(Field::Body), start, self.pos, Vec::new()));
                    }
                },
                _ => {},
            }
        }
        None
    }

    fn statement(&mut self) -> Option<SyntaxNode> {
        self.ws();
        let start = self.pos;
        if let Some(semi) = self.tok(";") {
            return Some(SyntaxNode { named: true, ..semi });
        }
        let (ws, we) = self.word()?;
        let w = &self.src[ws..we];
        let mut children = Vec::new();
        let kind = match w {
            "export" => {
                children.push(self.keyword("export", NodeKind::Other));
                if self.next_word_is("default") {
                    children.push(self.keyword("default", NodeKind::Other));
                }
                children.push(with_field(self.statement()?, Field::Declaration));
                NodeKind::ExportStatement
            },
            "declare" => {
                children.push(self.keyword("declare", NodeKind::DeclareKeyword));
                if self.next_word_is("global") {
                    children.push(self.keyword("global", NodeKind::GlobalKeyword));
                    children.push(self.block()?);
                } else {
                    children.push(with_field(self.statement()?, Field::Declaration));
                }
                NodeKind::AmbientDeclaration
            },
            "global" | "namespace" => {
                children.push(self.keyword(w, NodeKind::Other));
                if w == "namespace" {
                    children.push(self.name_node(NodeKind::Identifier, Field::Name)?);
                }
                children.push(self.block()?);
                NodeKind::Other
            },
            "type" => {
                children.push(self.keyword("type", NodeKind::Other));
                children.push(self.name_node(NodeKind::TypeIdentifier, Field::Name)?);
                if self.rest().trim_start().starts_with('<') {
                    children.push(self.type_parameters()?);
                }
                children.push(self.tok("=")?);
                children.push(with_field(self.parse_type()?, Field::Value));
                if let Some(semi) = self.unnamed(";", NodeKind::Semicolon) {
                    children.push(semi);
                }
                NodeKind::TypeAliasDeclaration
            },
            "interface" => {
                children.push(self.keyword("interface", NodeKind::Other));
                children.push(self.name_node(NodeKind::TypeIdentifier, Field::Name)?);
                if self.rest().trim_start().starts_with('<') {
                    children.push(self.type_parameters()?);
                }
                if self.next_word_is("extends") {
                    let kw = self.keyword("extends", NodeKind::Other);
                    let mut parts = vec![kw];
                    loop {
                        parts.push(self.parse_type()?);
                        match self.tok(",") {
                            Some(comma) => parts.push(comma),
                            None => break,
                        }
                    }
                    let (s, e) = (parts[0].start, parts.last().unwrap().end);
                    children.push(node(self.src, NodeKind::ExtendsTypeClause, None, s, e, parts));
                }
                children.push(with_field(self.parse_object_type()?, Field::Body));
                NodeKind::InterfaceDeclaration
            },
            "function" => {
                children.push(self.keyword("function", NodeKind::Other));
                children.push(self.name_node(NodeKind::Identifier, Field::Name)?);
                children.push(self.parse_parameters()?);
                if self.rest().trim_start().starts_with(':') {
                    children.push(self.annotation()?);
                }
                children.push(self.skip_braces()?);
                NodeKind::FunctionDeclaration
            },
            _ => {
                // Any other statement is read up to its semicolon.
                let k = self.rest().find(';')?;
                self.pos += k + 1;
                return Some(node(self.src, NodeKind::Other, None, start, self.pos, Vec::new()));
            },
        };
        let end = children.last().unwrap().end;
        Some(node(self.src, kind, None, start, end, children))
    }
}

fn program(src: &str) -> SyntaxNode {
    let mut r = Reader { src, pos: 0 };
    let mut children = Vec::new();
    loop {
        r.ws();
        if r.pos >= src.len() {
            break;
        }
        children.push(r.statement().unwrap_or_else(|| panic!("cannot read: {}", &src[r.pos..])));
    }
    node(src, NodeKind::Program, None, 0, src.len(), children)
}

fn clone_tree(n: &SyntaxNode) -> SyntaxNode {
    SyntaxNode {
        kind: n.kind,
        field: n.field,
        named: n.named,
        text: n.text.clone(),
        start: n.start,
        end: n.end,
        children: n.children.iter().map(clone_tree).collect(),
    }
}

/// Calls `f` on every node with its ancestors (parent first).
fn each_node<'t>(n: &'t SyntaxNode, stack: &mut Vec<&'t SyntaxNode>, f: &mut dyn FnMut(&SyntaxNode, &[&SyntaxNode])) {
    let ancestors: Vec<&SyntaxNode> = stack.iter().rev().copied().collect();
    f(n, &ancestors);
    stack.push(n);
    for c in &n.children {
        each_node(c, stack, f);
    }
    stack.pop();
}

/// The source without the indentation that all its lines share.
fn dedent(s: &str) -> String {
    let indent = s
        .lines()
        .filter(|l| !l.trim().is_empty())
        .map(|l| l.len() - l.trim_start().len())
        .min()
        .unwrap_or(0);
    s.split('\n')
        .map(|l| {
            let cut = indent.min(l.len() - l.trim_start().len());
            &l[cut..]
        })
        .collect::<Vec<_>>()
        .join("\n")
}

fn line_column(code: &str, offset: usize) -> (usize, usize) {
    let before = &code[..offset];
    let line = before.matches('\n').count() + 1;
    let line_start = before.rfind('\n').map(|k| k + 1).unwrap_or(0);
    (line, code[line_start..offset].chars().count() + 1)
}

fn apply(code: &str, edits: &[&TextEdit]) -> String {
    let mut sorted: Vec<&TextEdit> = edits.to_vec();
    sorted.sort_by_key(|e| e.start);
    let mut out = String::new();
    let mut at = 0;
    for e in sorted {
        out.push_str(&code[at..e.start.max(at)]);
        out.push_str(&e.replacement);
        at = at.max(e.end);
    }
    out.push_str(&code[at..]);
    out
}

fn expect_definitions(
    code: &str,
    option: DefinitionOptions,
    output: Option<&str>,
    expected: Vec<(TypeDefinitionMessage, usize, usize)>,
) {
    let code = dedent(code);
    let tree = program(&code);
    let mut reports = Vec::new();
    each_node(&tree, &mut Vec::new(), &mut |n, ancestors| {
        if n.kind != NodeKind::TypeAliasDeclaration && n.kind != NodeKind::InterfaceDeclaration {
            return;
        }
        let name_index = n.children.iter().position(|c| c.field == Some(Field::Name)).unwrap();
        let before = &n.children[name_index - 1];
        let token_before = Some(TokenInfo { kind: NodeKind::Other, start: before.start, end: before.end });
        let token_after = n
            .children
            .iter()
            .position(|c| c.field == Some(Field::Value))
            .and_then(|k| n.children.get(k + 1))
            .map(|t| TokenInfo { kind: t.kind, start: t.start, end: t.end });
        let parent = ancestors.first();
        let export_default = parent
            .filter(|p| p.kind == NodeKind::ExportStatement && p.children.iter().any(|c| c.text == "default"))
            .map(|p| ExportDefaultParent { start: p.start });
        let owned: Vec<SyntaxNode> = ancestors.iter().map(|a| clone_tree(a)).collect();
        if let Some(v) = consistent_type_definitions_rule(option, n, &owned, token_before, token_after, export_default) {
            reports.push(v);
        }
    });
    let got: Vec<(TypeDefinitionMessage, usize, usize)> = reports
        .iter()
        .map(|v| {
            let (line, column) = line_column(&code, v.start);
            (v.message_id, line, column)
        })
        .collect();
    assert_eq!(got, expected, "{code}");
    if !expected.is_empty() {
        let edits: Vec<&TextEdit> = reports.iter().flat_map(|v| v.fix.iter()).collect();
        let fixed = apply(&code, &edits);
        match output {
            Some(out) => assert_eq!(fixed, dedent(out), "{code}"),
            None => assert_eq!(fixed, code, "{code}"),
        }
    }
}

fn expect_object_style(
    code: &str,
    option: Option<ObjectStyleOptions>,
    output: Option<&str>,
    expected: Vec<(IndexedObjectMessage, usize, usize)>,
) {
    let code = dedent(code);
    let tree = program(&code);
    let mut reports = Vec::new();
    each_node(&tree, &mut Vec::new(), &mut |n, ancestors| {
        let parent_kind = ancestors.first().map(|p| p.kind);
        let owned: Vec<SyntaxNode> = ancestors.iter().map(|a| clone_tree(a)).collect();
        if let Some(v) = consistent_indexed_object_style_rule(option, n, parent_kind, &owned) {
            reports.push(v);
        }
    });
    let got: Vec<(IndexedObjectMessage, usize, usize)> = reports
        .iter()
        .map(|v| {
            let (line, column) = line_column(&code, v.start);
            (v.message_id, line, column)
        })
        .collect();
    assert_eq!(got, expected, "{code}");
    if !expected.is_empty() {
        let edits: Vec<&TextEdit> = reports.iter().filter_map(|v| v.fix.as_ref()).collect();
        let fixed = apply(&code, &edits);
        match output {
            Some(out) => assert_eq!(fixed, dedent(out), "{code}"),
            None => assert_eq!(fixed, code, "{code}"),
        }
    }
}

#[test]
fn test_consistent_type_definitions_rule() {
    expect_definitions("var foo = {};", DefinitionOptions::Interface, None, vec![]);
    expect_definitions("interface A {}", DefinitionOptions::Interface, None, vec![]);
    expect_definitions("\n              interface A extends B {\n                x: number;\n              }\n                    ", DefinitionOptions::Interface, None, vec![]);
    expect_definitions("type U = string;", DefinitionOptions::Interface, None, vec![]);
    expect_definitions("type V = { x: number } | { y: string };", DefinitionOptions::Interface, None, vec![]);
    expect_definitions("\n              type Record<T, U> = {\n                [K in T]: U;\n              };\n                    ", DefinitionOptions::Interface, None, vec![]);
    expect_definitions("type T = { x: number };", DefinitionOptions::Type, None, vec![]);
    expect_definitions("type A = { x: number } & B & C;", DefinitionOptions::Type, None, vec![]);
    expect_definitions("type A = { x: number } & B<T1> & C<T2>;", DefinitionOptions::Type, None, vec![]);
    expect_definitions("\n              export type W<T> = {\n                x: T;\n              };\n                    ", DefinitionOptions::Type, None, vec![]);
    expect_definitions("type T = { x: number; };", DefinitionOptions::Interface, Some("interface T { x: number; }"), vec![(TypeDefinitionMessage::InterfaceOverType, 1, 6)]);
    expect_definitions("type T={ x: number; };", DefinitionOptions::Interface, Some("interface T { x: number; }"), vec![(TypeDefinitionMessage::InterfaceOverType, 1, 6)]);
    expect_definitions("type T=                         { x: number; };", DefinitionOptions::Interface, Some("interface T { x: number; }"), vec![(TypeDefinitionMessage::InterfaceOverType, 1, 6)]);
    expect_definitions("\nexport type W<T> = {\n  x: T;\n};\n                    ", DefinitionOptions::Interface, Some("\nexport interface W<T> {\n  x: T;\n}\n                    "), vec![(TypeDefinitionMessage::InterfaceOverType, 2, 13)]);
    expect_definitions("interface T { x: number; }", DefinitionOptions::Type, Some("type T = { x: number; }"), vec![(TypeDefinitionMessage::TypeOverInterface, 1, 11)]);
    expect_definitions("interface T{ x: number; }", DefinitionOptions::Type, Some("type T = { x: number; }"), vec![(TypeDefinitionMessage::TypeOverInterface, 1, 11)]);
    expect_definitions("interface T                          { x: number; }", DefinitionOptions::Type, Some("type T = { x: number; }"), vec![(TypeDefinitionMessage::TypeOverInterface, 1, 11)]);
    expect_definitions("interface A extends B, C { x: number; };", DefinitionOptions::Type, Some("type A = { x: number; } & B & C;"), vec![(TypeDefinitionMessage::TypeOverInterface, 1, 11)]);
    expect_definitions("interface A extends B<T1>, C<T2> { x: number; };", DefinitionOptions::Type, Some("type A = { x: number; } & B<T1> & C<T2>;"), vec![(TypeDefinitionMessage::TypeOverInterface, 1, 11)]);
    expect_definitions("\nexport interface W<T> {\n  x: T;\n}\n                    ", DefinitionOptions::Type, Some("\nexport type W<T> = {\n  x: T;\n}\n                    "), vec![(TypeDefinitionMessage::TypeOverInterface, 2, 18)]);
    expect_definitions("\nnamespace JSX {\n  interface Array<T> {\n    foo(x: (x: number) => T): T[];\n  }\n}\n                    ", DefinitionOptions::Type, Some("\nnamespace JSX {\n  type Array<T> = {\n    foo(x: (x: number) => T): T[];\n  }\n}\n                    "), vec![(TypeDefinitionMessage::TypeOverInterface, 3, 13)]);
    expect_definitions("\nglobal {\n  interface Array<T> {\n    foo(x: (x: number) => T): T[];\n  }\n}\n                    ", DefinitionOptions::Type, Some("\nglobal {\n  type Array<T> = {\n    foo(x: (x: number) => T): T[];\n  }\n}\n                    "), vec![(TypeDefinitionMessage::TypeOverInterface, 3, 13)]);
    expect_definitions("\ndeclare global {\n  interface Array<T> {\n    foo(x: (x: number) => T): T[];\n  }\n}\n                    ", DefinitionOptions::Type, None, vec![(TypeDefinitionMessage::TypeOverInterface, 3, 13)]);
    expect_definitions("\ndeclare global {\n  namespace Foo {\n    interface Bar {}\n  }\n}\n                    ", DefinitionOptions::Type, None, vec![(TypeDefinitionMessage::TypeOverInterface, 4, 15)]);
    expect_definitions("\nexport default interface Test {\n  bar(): string;\n  foo(): number;\n}\n                    ", DefinitionOptions::Type, Some("\ntype Test = {\n  bar(): string;\n  foo(): number;\n}\nexport default Test\n                    "), vec![(TypeDefinitionMessage::TypeOverInterface, 2, 26)]);
    expect_definitions("\nexport declare type Test = {\n  foo: string;\n  bar: string;\n};\n                    ", DefinitionOptions::Interface, Some("\nexport declare interface Test {\n  foo: string;\n  bar: string;\n}\n                    "), vec![(TypeDefinitionMessage::InterfaceOverType, 2, 21)]);
    expect_definitions("\nexport declare interface Test {\n  foo: string;\n  bar: string;\n}\n                    ", DefinitionOptions::Type, Some("\nexport declare type Test = {\n  foo: string;\n  bar: string;\n}\n                    "), vec![(TypeDefinitionMessage::TypeOverInterface, 2, 26)]);
}

#[test]
fn test_consistent_indexed_object_style_rule() {
    expect_object_style("type Foo = Record<string, any>;", None, None, vec![]);
    expect_object_style("interface Foo {}", None, None, vec![]);
    expect_object_style("\n              interface Foo {\n                bar: string;\n              }\n                  ", None, None, vec![]);
    expect_object_style("\n              interface Foo {\n                bar: string;\n                [key: string]: any;\n              }\n                  ", None, None, vec![]);
    expect_object_style("\n              interface Foo {\n                [key: string]: any;\n                bar: string;\n              }\n                  ", None, None, vec![]);
    expect_object_style("type Foo = { [key: string]: string | Foo };", None, None, vec![]);
    expect_object_style("type Foo = { [key: string]: Foo };", None, None, vec![]);
    expect_object_style("type Foo = { [key: string]: Foo } | Foo;", None, None, vec![]);
    expect_object_style("\n              interface Foo {\n                [key: string]: Foo;\n              }\n                  ", None, None, vec![]);
    expect_object_style("\n              interface Foo<T> {\n                [key: string]: Foo<T>;\n              }\n                  ", None, None, vec![]);
    expect_object_style("\n              interface Foo<T> {\n                [key: string]: Foo<T> | string;\n              }\n                  ", None, None, vec![]);
    expect_object_style("type Foo = {};", None, None, vec![]);
    expect_object_style("\n              type Foo = {\n                bar: string;\n                [key: string]: any;\n              };\n                  ", None, None, vec![]);
    expect_object_style("\n              type Foo = {\n                bar: string;\n              };\n                  ", None, None, vec![]);
    expect_object_style("\n              type Foo = {\n                [key: string]: any;\n                bar: string;\n              };\n                  ", None, None, vec![]);
    expect_object_style("\n              type Foo = Generic<{\n                [key: string]: any;\n                bar: string;\n              }>;\n                  ", None, None, vec![]);
    expect_object_style("function foo(arg: { [key: string]: any; bar: string }) {}", None, None, vec![]);
    expect_object_style("function foo(): { [key: string]: any; bar: string } {}", None, None, vec![]);
    expect_object_style("type Foo = { [key: string] };", None, None, vec![]);
    expect_object_style("type Foo = { [] };", None, None, vec![]);
    expect_object_style("\n              interface Foo {\n                [key: string];\n              }\n                  ", None, None, vec![]);
    expect_object_style("\n              interface Foo {\n                [];\n              }\n                  ", None, None, vec![]);
    expect_object_style("type Foo = Misc<string, unknown>;", Some(ObjectStyleOptions::IndexSignature), None, vec![]);
    expect_object_style("type Foo = Record;", Some(ObjectStyleOptions::IndexSignature), None, vec![]);
    expect_object_style("type Foo = Record<string>;", Some(ObjectStyleOptions::IndexSignature), None, vec![]);
    expect_object_style("type Foo = Record<string, number, unknown>;", Some(ObjectStyleOptions::IndexSignature), None, vec![]);
    expect_object_style("type Foo = { [key: string]: any };", Some(ObjectStyleOptions::IndexSignature), None, vec![]);
    expect_object_style("type Foo = Generic<{ [key: string]: any }>;", Some(ObjectStyleOptions::IndexSignature), None, vec![]);
    expect_object_style("function foo(arg: { [key: string]: any }) {}", Some(ObjectStyleOptions::IndexSignature), None, vec![]);
    expect_object_style("function foo(): { [key: string]: any } {}", Some(ObjectStyleOptions::IndexSignature), None, vec![]);
    expect_object_style("type T = A.B;", Some(ObjectStyleOptions::IndexSignature), None, vec![]);
    expect_object_style("\n              interface Foo {\n                [key: string]: any;\n              }\n                    ", None, Some("\n              type Foo = Record<string, any>;\n                    "), vec![(IndexedObjectMessage::PreferRecord, 2, 1)]);
    expect_object_style("\n              interface Foo {\n                readonly [key: string]: any;\n              }\n                    ", None, Some("\n              type Foo = Readonly<Record<string, any>>;\n                    "), vec![(IndexedObjectMessage::PreferRecord, 2, 1)]);
    expect_object_style("\n              interface Foo<A> {\n                [key: string]: A;\n              }\n                    ", None, Some("\n              type Foo<A> = Record<string, A>;\n                    "), vec![(IndexedObjectMessage::PreferRecord, 2, 1)]);
    expect_object_style("\n              interface Foo<A = any> {\n                [key: string]: A;\n              }\n                    ", None, Some("\n              type Foo<A = any> = Record<string, A>;\n                    "), vec![(IndexedObjectMessage::PreferRecord, 2, 1)]);
    expect_object_style("\n              interface B extends A {\n                [index: number]: unknown;\n              }\n                    ", None, None, vec![(IndexedObjectMessage::PreferRecord, 2, 1)]);
    expect_object_style("\n              interface Foo<A> {\n                readonly [key: string]: A;\n              }\n                    ", None, Some("\n              type Foo<A> = Readonly<Record<string, A>>;\n                    "), vec![(IndexedObjectMessage::PreferRecord, 2, 1)]);
    expect_object_style("\n              interface Foo<A, B> {\n                [key: A]: B;\n              }\n                    ", None, Some("\n              type Foo<A, B> = Record<A, B>;\n                    "), vec![(IndexedObjectMessage::PreferRecord, 2, 1)]);
    expect_object_style("\n              interface Foo<A, B> {\n                readonly [key: A]: B;\n              }\n                    ", None, Some("\n              type Foo<A, B> = Readonly<Record<A, B>>;\n                    "), vec![(IndexedObjectMessage::PreferRecord, 2, 1)]);
    expect_object_style("type Foo = { [key: string]: any };", None, Some("type Foo = Record<string, any>;"), vec![(IndexedObjectMessage::PreferRecord, 1, 12)]);
    expect_object_style("type Foo = { readonly [key: string]: any };", None, Some("type Foo = Readonly<Record<string, any>>;"), vec![(IndexedObjectMessage::PreferRecord, 1, 12)]);
    expect_object_style("type Foo = Generic<{ [key: string]: any }>;", None, Some("type Foo = Generic<Record<string, any>>;"), vec![(IndexedObjectMessage::PreferRecord, 1, 20)]);
    expect_object_style("type Foo = Generic<{ readonly [key: string]: any }>;", None, Some("type Foo = Generic<Readonly<Record<string, any>>>;"), vec![(IndexedObjectMessage::PreferRecord, 1, 20)]);
    expect_object_style("function foo(arg: { [key: string]: any }) {}", None, Some("function foo(arg: Record<string, any>) {}"), vec![(IndexedObjectMessage::PreferRecord, 1, 19)]);
    expect_object_style("function foo(): { [key: string]: any } {}", None, Some("function foo(): Record<string, any> {}"), vec![(IndexedObjectMessage::PreferRecord, 1, 17)]);
    expect_object_style("function foo(arg: { readonly [key: string]: any }) {}", None, Some("function foo(arg: Readonly<Record<string, any>>) {}"), vec![(IndexedObjectMessage::PreferRecord, 1, 19)]);
    expect_object_style("function foo(): { readonly [key: string]: any } {}", None, Some("function foo(): Readonly<Record<string, any>> {}"), vec![(IndexedObjectMessage::PreferRecord, 1, 17)]);
    expect_object_style("type Foo = Record<string, any>;", Some(ObjectStyleOptions::IndexSignature), Some("type Foo = { [key: string]: any };"), vec![(IndexedObjectMessage::PreferIndexSignature, 1, 12)]);
    expect_object_style("type Foo<T> = Record<string, T>;", Some(ObjectStyleOptions::IndexSignature), Some("type Foo<T> = { [key: string]: T };"), vec![(IndexedObjectMessage::PreferIndexSignature, 1, 15)]);
    expect_object_style("type Foo = { [k: string]: A.Foo };", None, Some("type Foo = Record<string, A.Foo>;"), vec![(IndexedObjectMessage::PreferRecord, 1, 12)]);
    expect_object_style("type Foo = { [key: string]: AnotherFoo };", None, Some("type Foo = Record<string, AnotherFoo>;"), vec![(IndexedObjectMessage::PreferRecord, 1, 12)]);
    expect_object_style("type Foo = { [key: string]: { [key: string]: Foo } };", None, Some("type Foo = { [key: string]: Record<string, Foo> };"), vec![(IndexedObjectMessage::PreferRecord, 1, 29)]);
    expect_object_style("type Foo = { [key: string]: string } | Foo;", None, Some("type Foo = Record<string, string> | Foo;"), vec![(IndexedObjectMessage::PreferRecord, 1, 12)]);
    expect_object_style("\n              interface Foo<T> {\n                [k: string]: T;\n              }\n                    ", None, Some("\n              type Foo<T> = Record<string, T>;\n                    "), vec![(IndexedObjectMessage::PreferRecord, 2, 1)]);
    expect_object_style("\n              interface Foo {\n                [k: string]: A.Foo;\n              }\n                    ", None, Some("\n              type Foo = Record<string, A.Foo>;\n                    "), vec![(IndexedObjectMessage::PreferRecord, 2, 1)]);
    expect_object_style("\n              interface Foo {\n                [k: string]: { [key: string]: Foo };\n              }\n                    ", None, Some("\n              interface Foo {\n                [k: string]: Record<string, Foo>;\n              }\n                    "), vec![(IndexedObjectMessage::PreferRecord, 3, 16)]);
    expect_object_style("type Foo = Generic<Record<string, any>>;", Some(ObjectStyleOptions::IndexSignature), Some("type Foo = Generic<{ [key: string]: any }>;"), vec![(IndexedObjectMessage::PreferIndexSignature, 1, 20)]);
    expect_object_style("function foo(arg: Record<string, any>) {}", Some(ObjectStyleOptions::IndexSignature), Some("function foo(arg: { [key: string]: any }) {}"), vec![(IndexedObjectMessage::PreferIndexSignature, 1, 19)]);
    expect_object_style("function foo(): Record<string, any> {}", Some(ObjectStyleOptions::IndexSignature), Some("function foo(): { [key: string]: any } {}"), vec![(IndexedObjectMessage::PreferIndexSignature, 1, 17)]);
}
