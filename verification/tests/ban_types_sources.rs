//! The `ban-types` rule run over whole pieces of TypeScript: a small reader
//! builds the syntax trees of the types written in them (annotations,
//! parameters, return types, aliases, `as` expressions, type parameters and
//! class and interface heritage), and the rule is run on every node of those
//! trees, each with the kind of its parent.

use typescript_eslint::rules::ban_types::{
    ban_types_rule, banned_types, BanConfig, BanConfigObject, BanTypesViolation, BannedTypes, Options,
};
use typescript_eslint::syntax::{Field, NodeKind, SyntaxNode};

fn node(src: &str, kind: NodeKind, start: usize, end: usize, children: Vec<SyntaxNode>) -> SyntaxNode {
    SyntaxNode { kind, field: None, named: true, text: src[start..end].to_string(), start, end, children }
}

const PREDEFINED: &[&str] =
    &["any", "number", "boolean", "string", "symbol", "void", "unknown", "never", "object", "bigint"];

struct Reader<'a> {
    src: &'a str,
    pos: usize,
    /// Each type tree read, with the kind of the node it stands under.
    roots: Vec<(SyntaxNode, NodeKind)>,
}

impl<'a> Reader<'a> {
    fn ws(&mut self) {
        while self.pos < self.src.len() && self.src.as_bytes()[self.pos].is_ascii_whitespace() {
            self.pos += 1;
        }
    }

    fn rest(&self) -> &'a str {
        &self.src[self.pos..]
    }

    fn peek(&mut self, t: &str) -> bool {
        self.ws();
        self.rest().starts_with(t)
    }

    fn eat(&mut self, t: &str) -> bool {
        if self.peek(t) {
            self.pos += t.len();
            true
        } else {
            false
        }
    }

    fn word_len(&self) -> usize {
        self.rest().bytes().take_while(|b| b.is_ascii_alphanumeric() || *b == b'_' || *b == b'$').count()
    }

    fn peek_word(&mut self) -> &'a str {
        self.ws();
        let n = self.word_len();
        &self.src[self.pos..self.pos + n]
    }

    fn word(&mut self) -> (usize, usize) {
        self.ws();
        let s = self.pos;
        self.pos += self.word_len();
        (s, self.pos)
    }

    fn string_end(&self) -> usize {
        let b = self.rest().as_bytes();
        let q = b[0];
        let mut k = 1;
        while b[k] != q {
            if b[k] == b'\\' {
                k += 1;
            }
            k += 1;
        }
        self.pos + k + 1
    }

    // ---- types ----

    fn parse_type(&mut self) -> SyntaxNode {
        let mut left = self.intersection();
        while self.eat("|") {
            let right = self.intersection();
            let (s, e) = (left.start, right.end);
            left = node(self.src, NodeKind::UnionType, s, e, vec![left, right]);
        }
        left
    }

    fn intersection(&mut self) -> SyntaxNode {
        let mut left = self.postfix();
        while self.eat("&") {
            let right = self.postfix();
            let (s, e) = (left.start, right.end);
            left = node(self.src, NodeKind::IntersectionType, s, e, vec![left, right]);
        }
        left
    }

    fn postfix(&mut self) -> SyntaxNode {
        let mut t = self.primary();
        while self.peek("[]") {
            self.pos += 2;
            let (s, e) = (t.start, self.pos);
            t = node(self.src, NodeKind::ArrayType, s, e, vec![t]);
        }
        t
    }

    fn primary(&mut self) -> SyntaxNode {
        self.ws();
        let start = self.pos;
        let c = self.rest().chars().next().unwrap();
        if c == '{' {
            return self.object_type();
        }
        if c == '[' {
            self.pos += 1;
            let mut elements = Vec::new();
            while !self.eat("]") {
                elements.push(self.parse_type());
                self.eat(",");
            }
            return node(self.src, NodeKind::TupleType, start, self.pos, elements);
        }
        if c == '(' {
            self.pos += 1;
            let inner = self.parse_type();
            assert!(self.eat(")"));
            return node(self.src, NodeKind::ParenthesizedType, start, self.pos, vec![inner]);
        }
        if c.is_ascii_digit() {
            let (s, e) = self.word();
            let n = node(self.src, NodeKind::Number, s, e, Vec::new());
            return node(self.src, NodeKind::LiteralType, s, e, vec![n]);
        }
        let (s, e) = self.word();
        assert!(e > s, "a type at {:?}", self.rest());
        let w = &self.src[s..e];
        if w == "null" || w == "undefined" {
            let kind = if w == "null" { NodeKind::Null } else { NodeKind::Undefined };
            let inner = node(self.src, kind, s, e, Vec::new());
            return node(self.src, NodeKind::LiteralType, s, e, vec![inner]);
        }
        if PREDEFINED.contains(&w) {
            return node(self.src, NodeKind::PredefinedType, s, e, Vec::new());
        }
        let mut name = node(self.src, NodeKind::TypeIdentifier, s, e, Vec::new());
        if self.rest().starts_with('.') {
            let mut module = node(self.src, NodeKind::Identifier, s, e, Vec::new());
            loop {
                self.pos += 1;
                let (ws, we) = self.word();
                if self.rest().starts_with('.') {
                    let part = node(self.src, NodeKind::PropertyIdentifier, ws, we, Vec::new());
                    module = node(self.src, NodeKind::Other, s, we, vec![module, part]);
                } else {
                    let last = node(self.src, NodeKind::TypeIdentifier, ws, we, Vec::new());
                    name = node(self.src, NodeKind::NestedTypeIdentifier, s, we, vec![module, last]);
                    break;
                }
            }
        }
        if self.peek("<") {
            let args = self.type_arguments();
            let (s, e) = (name.start, args.end);
            return node(self.src, NodeKind::GenericType, s, e, vec![name, args]);
        }
        name
    }

    fn type_arguments(&mut self) -> SyntaxNode {
        self.ws();
        let start = self.pos;
        assert!(self.eat("<"));
        let mut args = Vec::new();
        while !self.eat(">") {
            args.push(self.parse_type());
            self.eat(",");
        }
        node(self.src, NodeKind::TypeArguments, start, self.pos, args)
    }

    /// `{ name: type; ... }`
    fn object_type(&mut self) -> SyntaxNode {
        self.ws();
        let start = self.pos;
        assert!(self.eat("{"));
        let mut members = Vec::new();
        while !self.eat("}") {
            let (s, e) = self.word();
            let key = node(self.src, NodeKind::PropertyIdentifier, s, e, Vec::new());
            self.eat("?");
            assert!(self.eat(":"));
            self.ws();
            let colon = self.pos - 1;
            let t = self.parse_type();
            let annotation = node(self.src, NodeKind::TypeAnnotation, colon, t.end, vec![t]);
            let end = annotation.end;
            members.push(node(self.src, NodeKind::PropertySignature, s, end, vec![key, annotation]));
            if !self.eat(";") {
                self.eat(",");
            }
        }
        node(self.src, NodeKind::ObjectType, start, self.pos, members)
    }

    /// A type written after `:`, kept as the child of its annotation.
    fn annotation(&mut self) {
        let t = self.parse_type();
        self.roots.push((t, NodeKind::TypeAnnotation));
    }

    /// `<T, F = Default>`
    fn type_parameters(&mut self) {
        self.ws();
        let start = self.pos;
        assert!(self.eat("<"));
        let mut params = Vec::new();
        while !self.eat(">") {
            let (s, e) = self.word();
            let mut children = vec![node(self.src, NodeKind::TypeIdentifier, s, e, Vec::new())];
            if self.peek_word() == "extends" {
                self.word();
                children.push(self.parse_type());
            }
            if self.peek("=") {
                let ds = self.pos;
                self.pos += 1;
                let t = self.parse_type();
                let de = t.end;
                children.push(node(self.src, NodeKind::Other, ds, de, vec![t]));
            }
            let end = children.last().unwrap().end;
            params.push(node(self.src, NodeKind::TypeParameter, s, end, children));
            self.eat(",");
        }
        let params = node(self.src, NodeKind::TypeParameters, start, self.pos, params);
        self.roots.push((params, NodeKind::Other));
    }

    // ---- statements and expressions ----

    fn program(&mut self) {
        loop {
            self.ws();
            if self.pos >= self.src.len() {
                return;
            }
            self.statement();
        }
    }

    fn block(&mut self) {
        assert!(self.eat("{"), "a block at {:?}", self.rest());
        while !self.eat("}") {
            self.statement();
        }
    }

    fn statement(&mut self) {
        match self.peek_word() {
            "let" | "const" | "var" => {
                self.word();
                self.word();
                if self.eat(":") {
                    self.annotation();
                }
                if self.eat("=") {
                    self.expression();
                }
                self.eat(";");
            },
            "function" => {
                self.word();
                self.word();
                self.parameters();
                if self.eat(":") {
                    self.annotation();
                }
                self.block();
            },
            "type" => {
                self.word();
                self.word();
                if self.peek("<") {
                    self.type_parameters();
                }
                assert!(self.eat("="));
                let t = self.parse_type();
                self.roots.push((t, NodeKind::TypeAliasDeclaration));
                self.eat(";");
            },
            "interface" => self.interface(),
            "class" => self.class(),
            "return" => {
                self.word();
                self.expression();
                self.eat(";");
            },
            _ => {
                self.expression();
                self.eat(";");
            },
        }
    }

    /// Reads up to `;`, `,` or a closing bracket at depth zero; a type
    /// follows each `as`.
    fn expression(&mut self) {
        let mut depth = 0i32;
        loop {
            self.ws();
            let Some(c) = self.rest().chars().next() else { return };
            if depth == 0 && matches!(c, ';' | ',' | ')' | ']' | '}') {
                return;
            }
            if c == '\'' || c == '"' || c == '`' {
                self.pos = self.string_end();
                continue;
            }
            let after_dot = self.src[..self.pos].ends_with('.');
            let n = self.word_len();
            if n > 0 {
                let w = &self.src[self.pos..self.pos + n];
                self.pos += n;
                if w == "as" && !after_dot {
                    let t = self.parse_type();
                    self.roots.push((t, NodeKind::Other));
                }
                continue;
            }
            match c {
                '(' | '[' | '{' => depth += 1,
                ')' | ']' | '}' => depth -= 1,
                _ => {},
            }
            self.pos += c.len_utf8();
        }
    }

    fn parameters(&mut self) {
        assert!(self.eat("("));
        while !self.eat(")") {
            self.word();
            self.eat("?");
            if self.eat(":") {
                self.annotation();
            }
            if self.eat("=") {
                self.expression();
            }
            self.eat(",");
        }
    }

    fn interface(&mut self) {
        let src = self.src;
        self.ws();
        let start = self.pos;
        self.word();
        let (ns, ne) = self.word();
        let mut children = vec![node(src, NodeKind::TypeIdentifier, ns, ne, Vec::new())];
        if self.peek_word() == "extends" {
            let (cs, _) = self.word();
            let mut types = Vec::new();
            loop {
                types.push(self.parse_type());
                if !self.eat(",") {
                    break;
                }
            }
            let ce = types.last().unwrap().end;
            children.push(node(src, NodeKind::ExtendsTypeClause, cs, ce, types));
        }
        let mut body = self.object_type();
        body.field = Some(Field::Body);
        children.push(body);
        let decl = node(src, NodeKind::InterfaceDeclaration, start, self.pos, children);
        self.roots.push((decl, NodeKind::Program));
        self.eat(";");
    }

    fn class(&mut self) {
        self.word();
        self.word();
        if self.peek("<") {
            self.type_parameters();
        }
        if self.peek_word() == "extends" {
            self.word();
            self.word();
            if self.peek("<") {
                let args = self.type_arguments();
                self.roots.push((args, NodeKind::Other));
            }
        }
        if self.peek_word() == "implements" {
            let (cs, _) = self.word();
            let mut types = Vec::new();
            loop {
                types.push(self.parse_type());
                if !self.eat(",") {
                    break;
                }
            }
            let ce = types.last().unwrap().end;
            let clause = node(self.src, NodeKind::ImplementsClause, cs, ce, types);
            self.roots.push((clause, NodeKind::ClassHeritage));
        }
        assert!(self.eat("{"));
        while !self.eat("}") {
            while ["public", "private", "protected", "static", "readonly"].contains(&self.peek_word()) {
                self.word();
            }
            self.word();
            if self.peek("(") {
                self.parameters();
                if self.eat(":") {
                    self.annotation();
                }
                self.block();
            } else {
                if self.eat(":") {
                    self.annotation();
                }
                if self.eat("=") {
                    self.expression();
                }
                self.eat(";");
            }
        }
    }
}

fn check(types: &BannedTypes, n: &SyntaxNode, parent: NodeKind, out: &mut Vec<BanTypesViolation>) {
    if let Some(v) = ban_types_rule(types, n, Some(parent)) {
        out.push(v);
    }
    for c in &n.children {
        check(types, c, n.kind, out);
    }
}

fn run(code: &str, options: Options) -> Vec<BanTypesViolation> {
    let types = banned_types(options);
    let mut r = Reader { src: code, pos: 0, roots: Vec::new() };
    r.program();
    let mut out = Vec::new();
    for (t, parent) in &r.roots {
        check(&types, t, *parent, &mut out);
    }
    out.sort_by_key(|v| v.start);
    out
}

fn line_col(src: &str, offset: usize) -> (usize, usize) {
    let before = &src[..offset];
    let line = before.matches('\n').count() + 1;
    let col = before.rsplit('\n').next().unwrap().chars().count() + 1;
    (line, col)
}

fn apply_fixes(src: &str, found: &[BanTypesViolation]) -> String {
    let mut out = String::new();
    let mut at = 0;
    for v in found {
        if let Some(f) = &v.fix {
            out.push_str(&src[at..f.start]);
            out.push_str(&f.replacement);
            at = f.end;
        }
    }
    out.push_str(&src[at..]);
    out
}

fn obj(message: &str, fix_with: Option<&str>) -> BanConfig {
    BanConfig::Object(BanConfigObject {
        message: Some(message.to_string()),
        fix_with: fix_with.map(|f| f.to_string()),
        suggest: None,
    })
}

fn text(s: &str) -> BanConfig {
    BanConfig::String(s.to_string())
}

fn opts(types: Vec<(&str, BanConfig)>, extend_defaults: Option<bool>) -> Options {
    Options { types: Some(types.into_iter().map(|(k, c)| (k.to_string(), c)).collect()), extend_defaults }
}

fn shared_options() -> Options {
    opts(
        vec![
            ("String", obj("Use string instead.", Some("string"))),
            ("Object", text("Use '{}' instead.")),
            ("Array", BanConfig::Null),
            ("F", BanConfig::Null),
            ("NS.Bad", obj("Use NS.Good instead.", Some("NS.Good"))),
        ],
        Some(false),
    )
}

fn no_options() -> Options {
    Options { types: None, extend_defaults: None }
}

struct Expected {
    line: Option<usize>,
    column: Option<usize>,
    name: Option<&'static str>,
    custom: Option<String>,
}

fn at(line: usize, column: usize, name: &'static str, custom: &str) -> Expected {
    Expected { line: Some(line), column: Some(column), name: Some(name), custom: Some(custom.to_string()) }
}

fn bare() -> Expected {
    Expected { line: None, column: None, name: None, custom: None }
}

fn assert_invalid(code: &str, options: Options, output: Option<&str>, errors: Vec<Expected>) {
    let found = run(code, options);
    assert_eq!(found.len(), errors.len(), "reports on {code:?}: {:?}", found.iter().map(|v| &v.name).collect::<Vec<_>>());
    for (v, e) in found.iter().zip(errors.iter()) {
        let (line, col) = line_col(code, v.start);
        if let Some(l) = e.line {
            assert_eq!(line, l, "line in {code:?}");
        }
        if let Some(c) = e.column {
            assert_eq!(col, c, "column in {code:?}");
        }
        if let Some(n) = e.name {
            assert_eq!(v.name, n, "name in {code:?}");
        }
        if let Some(m) = &e.custom {
            assert_eq!(&v.custom_message, m, "message in {code:?}");
        }
    }
    assert_eq!(apply_fixes(code, &found), output.unwrap_or(code), "output of {code:?}");
}

fn assert_valid(code: &str, options: Options) {
    let found = run(code, options);
    assert!(found.is_empty(), "{code:?} reported {:?}", found.iter().map(|v| &v.name).collect::<Vec<_>>());
}

#[test]
fn test_ban_types_rule() {
    assert_valid("let f = Object();", no_options());
    assert_valid("let f: { x: number; y: number } = { x: 1, y: 1 };", no_options());
    assert_valid("let f = Object();", shared_options());
    assert_valid("let g = Object.create(null);", shared_options());
    assert_valid("let h = String(false);", shared_options());
    assert_valid("let e: foo.String;", shared_options());
    assert_valid("let a: _.NS.Bad;", shared_options());
    assert_valid("let a: NS.Bad._;", shared_options());
    assert_valid(
        "let a: String;",
        opts(vec![("Number", obj("Use number instead.", Some("number")))], Some(false)),
    );
    assert_valid("let a: undefined;", opts(vec![("null", obj("Use undefined instead.", Some("undefined")))], None));
    assert_valid("let a: null;", opts(vec![("undefined", BanConfig::Null)], Some(false)));
    assert_valid("type Props = {};", opts(vec![("{}", BanConfig::Bool(false))], Some(true)));
    assert_valid("let a: [];", no_options());

    assert_invalid(
        "let a: String;",
        no_options(),
        Some("let a: string;"),
        vec![Expected { line: Some(1), column: Some(8), name: None, custom: None }],
    );
    assert_invalid("let a: Object;", shared_options(), None, vec![at(1, 8, "Object", " Use '{}' instead.")]);
    let object_message = [
        " The `Object` type actually means \"any non-nullish value\", so it is marginally better than `unknown`.",
        "- If you want a type meaning \"any object\", you probably want `object` instead.",
        "- If you want a type meaning \"any value\", you probably want `unknown` instead.",
        "- If you really want a type meaning \"any non-nullish value\", you probably want `NonNullable<unknown>` instead.",
    ]
    .join("\n");
    assert_invalid("let a: Object;", no_options(), None, vec![at(1, 8, "Object", &object_message)]);
    assert_invalid(
        "let aa: Foo;",
        opts(vec![("Foo", obj("", None))], None),
        None,
        vec![Expected { line: None, column: None, name: Some("Foo"), custom: Some(String::new()) }],
    );
    assert_invalid(
        "let b: { c: String };",
        shared_options(),
        Some("let b: { c: string };"),
        vec![at(1, 13, "String", " Use string instead.")],
    );
    assert_invalid(
        "function foo(a: String) {}",
        shared_options(),
        Some("function foo(a: string) {}"),
        vec![at(1, 17, "String", " Use string instead.")],
    );
    assert_invalid(
        "'a' as String;",
        shared_options(),
        Some("'a' as string;"),
        vec![at(1, 8, "String", " Use string instead.")],
    );
    assert_invalid("let c: F;", shared_options(), None, vec![at(1, 8, "F", "")]);
    let s = " Use string instead.";
    let o = " Use '{}' instead.";
    assert_invalid(
        r#"
class Foo<F = String> extends Bar<String> implements Baz<Object> {
  constructor(foo: String | Object) {}

  exit(): Array<String> {
    const foo: String = 1 as String;
  }
}
                    "#,
        shared_options(),
        Some(
            r#"
class Foo<F = string> extends Bar<string> implements Baz<Object> {
  constructor(foo: string | Object) {}

  exit(): Array<string> {
    const foo: string = 1 as string;
  }
}
                    "#,
        ),
        vec![
            at(2, 15, "String", s),
            at(2, 35, "String", s),
            at(2, 58, "Object", o),
            at(3, 20, "String", s),
            at(3, 29, "Object", o),
            at(5, 11, "Array", ""),
            at(5, 17, "String", s),
            at(6, 16, "String", s),
            at(6, 30, "String", s),
        ],
    );
    assert_invalid(
        "let a: NS.Bad;",
        shared_options(),
        Some("let a: NS.Good;"),
        vec![at(1, 8, "NS.Bad", " Use NS.Good instead.")],
    );
    assert_invalid(
        "\nlet a: NS.Bad<Foo>;\nlet b: Foo<NS.Bad>;\n                    ",
        shared_options(),
        Some("\nlet a: NS.Good<Foo>;\nlet b: Foo<NS.Good>;\n                    "),
        vec![at(2, 8, "NS.Bad", " Use NS.Good instead."), at(3, 12, "NS.Bad", " Use NS.Good instead.")],
    );
    assert_invalid(
        "let foo: {} = {};",
        opts(vec![("{}", obj("Use object instead.", Some("object")))], None),
        Some("let foo: object = {};"),
        vec![at(1, 10, "{}", " Use object instead.")],
    );
    assert_invalid(
        "\nlet foo: {} = {};\nlet bar: {     } = {};\nlet baz: {\n} = {};\n                    ",
        opts(vec![("{   }", obj("Use object instead.", Some("object")))], None),
        Some("\nlet foo: object = {};\nlet bar: object = {};\nlet baz: object = {};\n                    "),
        vec![
            at(2, 10, "{}", " Use object instead."),
            at(3, 10, "{}", " Use object instead."),
            at(4, 10, "{}", " Use object instead."),
        ],
    );
    assert_invalid(
        "let a: NS.Bad;",
        opts(vec![("  NS.Bad  ", obj("Use NS.Good instead.", Some("NS.Good")))], None),
        Some("let a: NS.Good;"),
        vec![at(1, 8, "NS.Bad", " Use NS.Good instead.")],
    );
    assert_invalid(
        "let a: Foo<   F   >;",
        opts(vec![("       F      ", obj("Use T instead.", Some("T")))], None),
        Some("let a: Foo<   T   >;"),
        vec![at(1, 15, "F", " Use T instead.")],
    );
    assert_invalid(
        "type Foo = Bar<any>;",
        opts(vec![("Bar<any>", text("Don't use `any` as a type parameter to `Bar`"))], None),
        None,
        vec![at(1, 12, "Bar<any>", " Don't use `any` as a type parameter to `Bar`")],
    );
    assert_invalid(
        "type Foo = Bar<A,B>;",
        opts(vec![("Bar<A, B>", text("Don't pass `A, B` as parameters to `Bar`"))], None),
        None,
        vec![at(1, 12, "Bar<A,B>", " Don't pass `A, B` as parameters to `Bar`")],
    );
    let empty = "`[]` does only allow empty arrays.";
    let empty_message = " `[]` does only allow empty arrays.";
    assert_invalid("let a: [];", opts(vec![("[]", text(empty))], None), None, vec![at(1, 8, "[]", empty_message)]);
    assert_invalid("let a:  [ ] ;", opts(vec![("[]", text(empty))], None), None, vec![at(1, 9, "[]", empty_message)]);
    assert_invalid(
        "let a: [];",
        opts(vec![("[]", obj(empty, Some("any[]")))], None),
        Some("let a: any[];"),
        vec![at(1, 8, "[]", empty_message)],
    );
    assert_invalid("let a: [[]];", opts(vec![("[]", text(empty))], None), None, vec![at(1, 9, "[]", empty_message)]);
    assert_invalid("type Baz = 1 & Foo;", opts(vec![("Foo", obj("", None))], None), None, vec![bare()]);
    assert_invalid("interface Foo extends Bar {}", opts(vec![("Bar", obj("", None))], None), None, vec![bare()]);
    assert_invalid("interface Foo extends Bar, Baz {}", opts(vec![("Bar", obj("", None))], None), None, vec![bare()]);
    assert_invalid("class Foo implements Bar {}", opts(vec![("Bar", obj("", None))], None), None, vec![bare()]);
    assert_invalid("class Foo implements Bar, Baz {}", opts(vec![("Bar", obj("Bla", None))], None), None, vec![bare()]);
    for key in ["bigint", "boolean", "never", "null", "number", "object", "string", "symbol", "undefined", "unknown", "void"] {
        let code = format!("function foo(x: {key}) {{}}");
        assert_invalid(&code, opts(vec![(key, BanConfig::Null)], Some(false)), None, vec![at(1, 17, key, "")]);
    }
}
