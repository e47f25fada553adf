use typescript_eslint::rules::adjacent_overload_signatures::{
    adjacent_overload_signatures_rule, is_same_method, overload_violations, Method,
};
use typescript_eslint::rules::array_type::{
    array_type_config, array_type_rule, get_message_type, is_simple_type, ArrayOption,
    ArrayTypeConfig, ArrayTypeMessage, Options,
};
use typescript_eslint::syntax::{Field, NodeKind, ParentInfo, SyntaxNode};
use typescript_eslint::util::MemberNameType;

fn node(kind: NodeKind, field: Option<Field>, text: &str, start: usize, children: Vec<SyntaxNode>) -> SyntaxNode {
    SyntaxNode {
        kind,
        field,
        named: true,
        text: text.to_string(),
        start,
        end: start + text.len(),
        children,
    }
}

fn token(text: &str, start: usize) -> SyntaxNode {
    SyntaxNode { named: false, ..node(NodeKind::Other, None, text, start, Vec::new()) }
}

fn config(default: ArrayOption, readonly: ArrayOption) -> ArrayTypeConfig {
    ArrayTypeConfig { default_option: default, readonly_option: readonly }
}

/// `number[]` at `start`.
fn number_array(start: usize) -> SyntaxNode {
    node(
        NodeKind::ArrayType,
        None,
        "number[]",
        start,
        vec![node(NodeKind::PredefinedType, None, "number", start, Vec::new()), token("[", start + 6), token("]", start + 7)],
    )
}

/// `(string | number)[]` at `start`.
fn union_array(start: usize) -> SyntaxNode {
    let union = node(
        NodeKind::UnionType,
        None,
        "string | number",
        start + 1,
        vec![
            node(NodeKind::PredefinedType, None, "string", start + 1, Vec::new()),
            token("|", start + 8),
            node(NodeKind::PredefinedType, None, "number", start + 10, Vec::new()),
        ],
    );
    let paren = node(
        NodeKind::ParenthesizedType,
        None,
        "(string | number)",
        start,
        vec![token("(", start), union, token(")", start + 16)],
    );
    node(NodeKind::ArrayType, None, "(string | number)[]", start, vec![paren, token("[", start + 17), token("]", start + 18)])
}

/// `<name><<arg>>` at `start`, the argument given as a node at the right offset.
fn generic(name: &str, arg: Option<SyntaxNode>, start: usize) -> SyntaxNode {
    let name_node = node(NodeKind::TypeIdentifier, Some(Field::Name), name, start, Vec::new());
    let open = start + name.len();
    let (args_text, args_children) = match arg {
        Some(a) => {
            let close = a.end;
            (format!("<{}>", a.text), vec![token("<", open), a, token(">", close)])
        },
        None => ("<>".to_string(), vec![token("<", open), token(">", open + 1)]),
    };
    let args = node(NodeKind::TypeArguments, Some(Field::TypeArguments), &args_text, open, args_children);
    let text = format!("{name}{args_text}");
    node(NodeKind::GenericType, None, &text, start, vec![name_node, args])
}

#[test]
fn array_option_accepts_array_syntax() {
    // let a: number[] = [];
    let c = config(ArrayOption::Array, ArrayOption::Array);
    assert!(array_type_rule(c, &number_array(7), None).is_none());
}

#[test]
fn generic_option_reports_array_syntax_with_a_fix() {
    // let a: number[] = [];  ->  let a: Array<number> = [];
    let c = config(ArrayOption::Generic, ArrayOption::Generic);
    let v = array_type_rule(c, &number_array(7), None).unwrap();
    assert_eq!(v.message_id, ArrayTypeMessage::ErrorStringGeneric);
    assert_eq!((v.start, v.end), (7, 15));
    assert_eq!(v.class_name, "Array");
    assert_eq!(v.readonly_prefix, "");
    assert_eq!(v.type_, "number");
    assert_eq!(v.fix.len(), 2);
    assert_eq!((v.fix[0].start, v.fix[0].end, v.fix[0].replacement.as_str()), (7, 7, "Array<"));
    assert_eq!((v.fix[1].start, v.fix[1].end, v.fix[1].replacement.as_str()), (13, 15, ">"));
}

#[test]
fn readonly_array_syntax_under_generic_option() {
    // let a: readonly number[] = [];  ->  let a: ReadonlyArray<number> = [];
    let c = config(ArrayOption::Generic, ArrayOption::Generic);
    let parent = ParentInfo { kind: NodeKind::ReadonlyType, start: 7, end: 24 };
    let v = array_type_rule(c, &number_array(16), Some(parent)).unwrap();
    assert_eq!((v.start, v.end), (7, 24));
    assert_eq!(v.class_name, "ReadonlyArray");
    assert_eq!(v.readonly_prefix, "readonly ");
    assert_eq!((v.fix[0].start, v.fix[0].end, v.fix[0].replacement.as_str()), (7, 16, "ReadonlyArray<"));
    assert_eq!((v.fix[1].start, v.fix[1].end, v.fix[1].replacement.as_str()), (22, 24, ">"));
}

#[test]
fn array_simple_splits_on_simple_types() {
    let c = config(ArrayOption::ArraySimple, ArrayOption::ArraySimple);
    // let a: number[] = [];
    assert!(array_type_rule(c, &number_array(7), None).is_none());
    // let a: (string | number)[] = [];  ->  Array<string | number>
    let v = array_type_rule(c, &union_array(7), None).unwrap();
    assert_eq!(v.message_id, ArrayTypeMessage::ErrorStringGenericSimple);
    assert_eq!(v.type_, "T");
    assert_eq!((v.fix[0].start, v.fix[0].end, v.fix[0].replacement.as_str()), (7, 8, "Array<"));
    assert_eq!((v.fix[1].start, v.fix[1].end, v.fix[1].replacement.as_str()), (23, 26, ">"));
}

#[test]
fn array_option_reports_generic_syntax_with_a_fix() {
    // let a: Array<number> = [];  ->  let a: number[] = [];
    let c = config(ArrayOption::Array, ArrayOption::Array);
    let g = generic("Array", Some(node(NodeKind::PredefinedType, None, "number", 13, Vec::new())), 7);
    let v = array_type_rule(c, &g, Some(ParentInfo { kind: NodeKind::Other, start: 5, end: 20 })).unwrap();
    assert_eq!(v.message_id, ArrayTypeMessage::ErrorStringArray);
    assert_eq!((v.start, v.end), (7, 20));
    assert_eq!((v.fix[0].start, v.fix[0].end, v.fix[0].replacement.as_str()), (7, 13, ""));
    assert_eq!((v.fix[1].start, v.fix[1].end, v.fix[1].replacement.as_str()), (19, 20, "[]"));
}

#[test]
fn readonly_generic_with_union_gets_parentheses() {
    // let a: ReadonlyArray<string | number> = [];  ->  readonly (string | number)[]
    let c = config(ArrayOption::Array, ArrayOption::Array);
    let union = node(
        NodeKind::UnionType,
        None,
        "string | number",
        21,
        vec![
            node(NodeKind::PredefinedType, None, "string", 21, Vec::new()),
            token("|", 28),
            node(NodeKind::PredefinedType, None, "number", 30, Vec::new()),
        ],
    );
    let g = generic("ReadonlyArray", Some(union), 7);
    let v = array_type_rule(c, &g, None).unwrap();
    assert_eq!(v.class_name, "ReadonlyArray");
    assert_eq!(v.type_, "T");
    assert_eq!(v.fix[0].replacement, "readonly (");
    assert_eq!(v.fix[1].replacement, ")[]");
}

#[test]
fn bare_array_means_any_array() {
    // let a: Array;  ->  any[]
    let c = config(ArrayOption::Array, ArrayOption::Array);
    let id = node(NodeKind::TypeIdentifier, None, "Array", 7, Vec::new());
    let v = array_type_rule(c, &id, Some(ParentInfo { kind: NodeKind::Other, start: 5, end: 12 })).unwrap();
    assert_eq!(v.type_, "any");
    assert_eq!(v.fix[0].replacement, "any[]");
    // Under `generic`, nothing to say.
    let c = config(ArrayOption::Generic, ArrayOption::Generic);
    assert!(array_type_rule(c, &id, None).is_none());
    // The name of a generic type is handled with the generic type.
    let c = config(ArrayOption::Array, ArrayOption::Array);
    assert!(array_type_rule(c, &id, Some(ParentInfo { kind: NodeKind::GenericType, start: 7, end: 20 })).is_none());
}

#[test]
fn options_fall_back_to_array() {
    let o = Options { default: None, readonly: None };
    assert_eq!(o.default(), ArrayOption::Array);
    assert_eq!(o.readonly(), ArrayOption::Array);
    let o = Options { default: Some(ArrayOption::Generic), readonly: None };
    assert_eq!(o.readonly(), ArrayOption::Generic);
    let c = array_type_config(&Options { default: Some(ArrayOption::Generic), readonly: Some(ArrayOption::Array) });
    assert_eq!(c, config(ArrayOption::Generic, ArrayOption::Array));
}

#[test]
fn simple_types_and_message_types() {
    assert!(is_simple_type(&node(NodeKind::PredefinedType, None, "number", 0, Vec::new())));
    assert!(!is_simple_type(&union_array(0).children[0]));
    assert_eq!(get_message_type(&node(NodeKind::TypeIdentifier, None, "Foo", 0, Vec::new())), "Foo");
    assert_eq!(get_message_type(&union_array(0).children[0]), "T");
}

fn method(name: &str) -> Method {
    Method { name: name.to_string(), static_: false, call_signature: false, type_: MemberNameType::Normal }
}

#[test]
fn same_method_compares_all_parts() {
    let foo = method("foo");
    assert!(is_same_method(&foo, Some(&method("foo"))));
    assert!(!is_same_method(&foo, Some(&method("bar"))));
    assert!(!is_same_method(&foo, Some(&Method { static_: true, ..method("foo") })));
    assert!(!is_same_method(&foo, None));
}

#[test]
fn separated_overloads_are_reported() {
    // foo, foo, bar, foo, (not a method), foo
    let ms = vec![
        Some(method("foo")),
        Some(method("foo")),
        Some(method("bar")),
        Some(method("foo")),
        None,
        Some(method("foo")),
    ];
    assert_eq!(overload_violations(&ms), vec![3, 5]);
}

fn function_declaration(name: &str, start: usize) -> SyntaxNode {
    let text = format!("function {name}() {{}}");
    node(
        NodeKind::FunctionDeclaration,
        None,
        &text,
        start,
        vec![token("function", start), node(NodeKind::Identifier, Some(Field::Name), name, start + 9, Vec::new())],
    )
}

#[test]
fn program_with_separated_function_overloads() {
    // function foo() {} function bar() {} function foo() {}
    let program = node(
        NodeKind::Program,
        None,
        "function foo() {} function bar() {} function foo() {}",
        0,
        vec![function_declaration("foo", 0), function_declaration("bar", 18), function_declaration("foo", 36)],
    );
    let v = adjacent_overload_signatures_rule(&program);
    assert_eq!(v.len(), 1);
    assert_eq!((v[0].start, v[0].end, v[0].name.as_str()), (36, 53, "foo"));
    // Other nodes are not bodies.
    assert!(adjacent_overload_signatures_rule(&function_declaration("foo", 0)).is_empty());
}
