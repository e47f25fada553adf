//! `array-type`: require `T[]` or `Array<T>` consistently for array types.
use vstd::prelude::*;

use crate::report::{edit_is, TextEdit};
use crate::syntax::{
    count_named, field_child, find_field, find_first_named, first_named_child, is_first_named,
    is_first_with_field, named_count, Field, NodeKind, ParentInfo, SyntaxNode,
};
use crate::text::{concat, str_is};

verus! {

/// The style an array type should be written in.
#[derive(Copy, Clone, Debug, PartialEq, Eq, Structural)]
pub enum ArrayOption {
    Array,
    Generic,
    ArraySimple,
}

/// The rule's options: one style for mutable arrays, one for readonly arrays.
pub struct Options {
    pub default: Option<ArrayOption>,
    pub readonly: Option<ArrayOption>,
}

/// The style for mutable arrays (`array` when not given).
pub open spec fn spec_default_option(o: Options) -> ArrayOption {
    match o.default {
        Some(d) => d,
        None => ArrayOption::Array,
    }
}

/// The style for readonly arrays (the mutable style when not given).
pub open spec fn spec_readonly_option(o: Options) -> ArrayOption {
    match o.readonly {
        Some(r) => r,
        None => spec_default_option(o),
    }
}

impl Options {
    /// The style for mutable arrays.
    pub fn default(&self) -> (r: ArrayOption)
        ensures
            r == spec_default_option(*self),
    {
        match self.default {
            Some(d) => d,
            None => ArrayOption::Array,
        }
    }

    /// The style for readonly arrays.
    pub fn readonly(&self) -> (r: ArrayOption)
        ensures
            r == spec_readonly_option(*self),
    {
        match self.readonly {
            Some(r) => r,
            None => self.default(),
        }
    }
}

/// The options resolved once per configuration.
#[derive(Copy, Clone, Debug, PartialEq, Eq, Structural)]
pub struct ArrayTypeConfig {
    pub default_option: ArrayOption,
    pub readonly_option: ArrayOption,
}

/// Resolves the options.
pub fn array_type_config(options: &Options) -> (r: ArrayTypeConfig)
    ensures
        r.default_option == spec_default_option(*options),
        r.readonly_option == spec_readonly_option(*options),
{
    ArrayTypeConfig { default_option: options.default(), readonly_option: options.readonly() }
}

/// The index of the first child under field `f`, as a spec value.
pub open spec fn field_index(n: SyntaxNode, f: Field) -> int {
    choose|i: int| is_first_with_field(n.children@, f, i)
}

/// The index of the first named child, as a spec value.
pub open spec fn first_named_index(n: SyntaxNode) -> int {
    choose|i: int| is_first_named(n.children@, i)
}

/// What a node is once the parentheses around it are taken off.
pub open spec fn spec_skip_parens(n: SyntaxNode) -> SyntaxNode
    decreases n,
{
    if n.kind == NodeKind::ParenthesizedType && exists|i: int| is_first_named(n.children@, i) {
        let i = first_named_index(n);
        proof {
            assert(decreases_to!(n => n.children@[i]));
        }
        spec_skip_parens(n.children@[i])
    } else {
        n
    }
}

/// Every parenthesized type on the way down has something inside it.
pub open spec fn skip_parens_wf(n: SyntaxNode) -> bool
    decreases n,
{
    if n.kind == NodeKind::ParenthesizedType {
        if exists|i: int| is_first_named(n.children@, i) {
            let i = first_named_index(n);
            proof {
                assert(decreases_to!(n => n.children@[i]));
            }
            skip_parens_wf(n.children@[i])
        } else {
            false
        }
    } else {
        true
    }
}

/// Strips the parentheses around a type.
pub fn skip_parenthesized_types(node: &SyntaxNode) -> (r: &SyntaxNode)
    requires
        skip_parens_wf(*node),
    ensures
        *r == spec_skip_parens(*node),
    decreases node,
{
    if node.kind == NodeKind::ParenthesizedType {
        let i = find_first_named(&node.children).unwrap();
        skip_parenthesized_types(&node.children[i])
    } else {
        node
    }
}

} // verus!

verus! {

/// The child under field `f`, known to exist.
pub open spec fn field_node(n: SyntaxNode, f: Field) -> SyntaxNode {
    n.children@[field_index(n, f)]
}

/// The first named child, known to exist.
pub open spec fn first_named_node(n: SyntaxNode) -> SyntaxNode {
    n.children@[first_named_index(n)]
}

/// A simple type: a name, a keyword type, an array type, `this`,
/// `undefined`, or `Array<T>` of a simple `T` (or of nothing).
pub open spec fn spec_is_simple_type(n: SyntaxNode) -> bool
    decreases n,
{
    match n.kind {
        NodeKind::Identifier | NodeKind::PredefinedType | NodeKind::ArrayType | NodeKind::ThisType
        | NodeKind::TypeIdentifier | NodeKind::NestedTypeIdentifier => true,
        NodeKind::LiteralType => first_named_child(n) matches Some(c) && c.kind == NodeKind::Undefined,
        NodeKind::GenericType => {
            if exists|i: int| is_first_with_field(n.children@, Field::Name, i) {
                let name = field_node(n, Field::Name);
                if name.kind == NodeKind::TypeIdentifier && name.text@ == "Array"@ && exists|i: int|
                    is_first_with_field(n.children@, Field::TypeArguments, i) {
                    let ai = field_index(n, Field::TypeArguments);
                    let args = n.children@[ai];
                    let c = named_count(args.children@);
                    if c == 0 {
                        true
                    } else if c == 1 && exists|k: int| is_first_named(args.children@, k) {
                        let k = first_named_index(args);
                        proof {
                            assert(decreases_to!(n => n.children@[ai].children@[k]));
                        }
                        spec_is_simple_type(n.children@[ai].children@[k])
                    } else {
                        false
                    }
                } else {
                    false
                }
            } else {
                false
            }
        },
        _ => false,
    }
}

/// The children that `is_simple_type` reads are there.
pub open spec fn simple_type_wf(n: SyntaxNode) -> bool
    decreases n,
{
    match n.kind {
        NodeKind::LiteralType => exists|i: int| is_first_named(n.children@, i),
        NodeKind::GenericType => {
            if exists|i: int| is_first_with_field(n.children@, Field::Name, i) {
                let name = field_node(n, Field::Name);
                if name.kind == NodeKind::TypeIdentifier && name.text@ == "Array"@ {
                    if exists|i: int| is_first_with_field(n.children@, Field::TypeArguments, i) {
                        let ai = field_index(n, Field::TypeArguments);
                        let args = n.children@[ai];
                        if named_count(args.children@) == 1 && exists|k: int|
                            is_first_named(args.children@, k) {
                            let k = first_named_index(args);
                            proof {
                                assert(decreases_to!(n => n.children@[ai].children@[k]));
                            }
                            simple_type_wf(n.children@[ai].children@[k])
                        } else {
                            true
                        }
                    } else {
                        false
                    }
                } else {
                    true
                }
            } else {
                false
            }
        },
        _ => true,
    }
}

/// Whether a type is simple enough to be written as `T[]` under
/// `array-simple`.
pub fn is_simple_type(node: &SyntaxNode) -> (r: bool)
    requires
        simple_type_wf(*node),
    ensures
        r == spec_is_simple_type(*node),
    decreases node,
{
    match node.kind {
        NodeKind::Identifier | NodeKind::PredefinedType | NodeKind::ArrayType | NodeKind::ThisType
        | NodeKind::TypeIdentifier | NodeKind::NestedTypeIdentifier => true,
        NodeKind::LiteralType => {
            let i = find_first_named(&node.children).unwrap();
            node.children[i].kind == NodeKind::Undefined
        },
        NodeKind::GenericType => {
            let ni = find_field(&node.children, Field::Name).unwrap();
            let name = &node.children[ni];
            if !(name.kind == NodeKind::TypeIdentifier && str_is(name.text.as_str(), "Array")) {
                return false;
            }
            let ai = find_field(&node.children, Field::TypeArguments).unwrap();
            let args = &node.children[ai];
            let c = count_named(&args.children);
            if c == 0 {
                true
            } else if c >= 2 {
                false
            } else {
                match find_first_named(&args.children) {
                    Some(k) => is_simple_type(&args.children[k]),
                    None => {
                        proof {
                            crate::syntax::lemma_named_count_zero(args.children@);
                        }
                        false
                    },
                }
            }
        },
        _ => false,
    }
}

/// Whether a type must be put in parentheses before `[]` is appended.
pub open spec fn spec_type_needs_parentheses(n: SyntaxNode) -> bool
    decreases n,
{
    match n.kind {
        NodeKind::GenericType => {
            if exists|i: int| is_first_with_field(n.children@, Field::Name, i) {
                let i = field_index(n, Field::Name);
                proof {
                    assert(decreases_to!(n => n.children@[i]));
                }
                spec_type_needs_parentheses(n.children@[i])
            } else {
                false
            }
        },
        NodeKind::UnionType | NodeKind::FunctionType | NodeKind::IntersectionType
        | NodeKind::InferType | NodeKind::ConstructorType => true,
        NodeKind::TypeIdentifier => n.text@ == "ReadonlyArray"@,
        _ => false,
    }
}

/// Every generic type on the way down has a name.
pub open spec fn needs_parentheses_wf(n: SyntaxNode) -> bool
    decreases n,
{
    if n.kind == NodeKind::GenericType {
        if exists|i: int| is_first_with_field(n.children@, Field::Name, i) {
            let i = field_index(n, Field::Name);
            proof {
                assert(decreases_to!(n => n.children@[i]));
            }
            needs_parentheses_wf(n.children@[i])
        } else {
            false
        }
    } else {
        true
    }
}

/// Whether a type needs parentheses when written as `T[]`.
pub fn type_needs_parentheses(node: &SyntaxNode) -> (r: bool)
    requires
        needs_parentheses_wf(*node),
    ensures
        r == spec_type_needs_parentheses(*node),
    decreases node,
{
    match node.kind {
        NodeKind::GenericType => {
            let i = find_field(&node.children, Field::Name).unwrap();
            type_needs_parentheses(&node.children[i])
        },
        NodeKind::UnionType | NodeKind::FunctionType | NodeKind::IntersectionType
        | NodeKind::InferType | NodeKind::ConstructorType => true,
        NodeKind::TypeIdentifier => str_is(node.text.as_str(), "ReadonlyArray"),
        _ => false,
    }
}

/// The type as written in a message: its text when simple, `T` otherwise.
pub open spec fn spec_message_type(n: SyntaxNode) -> Seq<char> {
    if spec_is_simple_type(n) {
        n.text@
    } else {
        "T"@
    }
}

/// The type as written in a message.
pub fn get_message_type(node: &SyntaxNode) -> (r: String)
    requires
        simple_type_wf(*node),
    ensures
        r@ == spec_message_type(*node),
{
    if is_simple_type(node) {
        node.text.clone()
    } else {
        String::from_str("T")
    }
}

} // verus!

verus! {

/// The messages of the rule.
#[derive(Copy, Clone, Debug, PartialEq, Eq, Structural)]
pub enum ArrayTypeMessage {
    /// `T[]` is forbidden, use `Array<T>`.
    ErrorStringGeneric,
    /// `Array<T>` is forbidden, use `T[]`.
    ErrorStringArray,
    /// `Array<T>` is forbidden for simple types, use `T[]`.
    ErrorStringArraySimple,
    /// `T[]` is forbidden for non-simple types, use `Array<T>`.
    ErrorStringGenericSimple,
}

/// A reported array type, with the data of its message and its fix.
pub struct ArrayTypeViolation {
    pub start: usize,
    pub end: usize,
    pub message_id: ArrayTypeMessage,
    pub class_name: String,
    pub readonly_prefix: String,
    pub type_: String,
    pub fix: Vec<TextEdit>,
}

/// `ReadonlyArray` or `Array`.
pub open spec fn class_name_for(readonly: bool) -> Seq<char> {
    if readonly {
        "ReadonlyArray"@
    } else {
        "Array"@
    }
}

/// `readonly ` or nothing.
pub open spec fn prefix_for(readonly: bool) -> Seq<char> {
    if readonly {
        "readonly "@
    } else {
        ""@
    }
}

/// The style that applies.
pub open spec fn option_for(config: ArrayTypeConfig, readonly: bool) -> ArrayOption {
    if readonly {
        config.readonly_option
    } else {
        config.default_option
    }
}

/// The outcome for `Array`/`ReadonlyArray` written without type arguments,
/// reported over `start..end`.
pub open spec fn no_generic_params_outcome(
    config: ArrayTypeConfig,
    start: int,
    end: int,
    inner_text: Seq<char>,
    r: Option<ArrayTypeViolation>,
) -> bool {
    let ro = inner_text == "ReadonlyArray"@;
    let opt = option_for(config, ro);
    match r {
        None => opt == ArrayOption::Generic,
        Some(v) => {
            &&& opt != ArrayOption::Generic
            &&& v.start == start && v.end == end
            &&& v.message_id == if opt == ArrayOption::Array {
                ArrayTypeMessage::ErrorStringArray
            } else {
                ArrayTypeMessage::ErrorStringArraySimple
            }
            &&& v.class_name@ == class_name_for(ro)
            &&& v.readonly_prefix@ == prefix_for(ro)
            &&& v.type_@ == "any"@
            &&& v.fix@.len() == 1
            &&& edit_is(v.fix@[0], start, end, prefix_for(ro) + "any[]"@)
        },
    }
}

fn class_name_string(readonly: bool) -> (r: String)
    ensures
        r@ == class_name_for(readonly),
{
    if readonly {
        String::from_str("ReadonlyArray")
    } else {
        String::from_str("Array")
    }
}

fn prefix_string(readonly: bool) -> (r: String)
    ensures
        r@ == prefix_for(readonly),
{
    if readonly {
        String::from_str("readonly ")
    } else {
        String::from_str("")
    }
}

/// Checks `Array`/`ReadonlyArray` used without type arguments (it means
/// `any[]`).
pub fn check_array_with_no_generic_params(
    config: ArrayTypeConfig,
    report_start: usize,
    report_end: usize,
    inner_text: &str,
) -> (r: Option<ArrayTypeViolation>)
    ensures
        no_generic_params_outcome(config, report_start as int, report_end as int, inner_text@, r),
{
    let is_readonly_array_type = str_is(inner_text, "ReadonlyArray");
    let current_option = if is_readonly_array_type {
        config.readonly_option
    } else {
        config.default_option
    };
    if current_option == ArrayOption::Generic {
        return None;
    }
    let readonly_prefix = prefix_string(is_readonly_array_type);
    let message_id = if current_option == ArrayOption::Array {
        ArrayTypeMessage::ErrorStringArray
    } else {
        ArrayTypeMessage::ErrorStringArraySimple
    };
    let replacement = concat(readonly_prefix.as_str(), "any[]");
    let mut fix: Vec<TextEdit> = Vec::new();
    fix.push(TextEdit { start: report_start, end: report_end, replacement });
    Some(
        ArrayTypeViolation {
            start: report_start,
            end: report_end,
            message_id,
            class_name: class_name_string(is_readonly_array_type),
            readonly_prefix,
            type_: String::from_str("any"),
            fix,
        },
    )
}

/// An `Array` or `ReadonlyArray` type name.
pub open spec fn is_array_name(text: Seq<char>) -> bool {
    text == "Array"@ || text == "ReadonlyArray"@
}

/// The outcome for a type identifier: only `Array`/`ReadonlyArray` outside of a
/// generic type are looked at.
pub open spec fn array_identifier_outcome(
    config: ArrayTypeConfig,
    node: SyntaxNode,
    parent_kind: Option<NodeKind>,
    r: Option<ArrayTypeViolation>,
) -> bool {
    if node.kind == NodeKind::TypeIdentifier && is_array_name(node.text@) && parent_kind != Some(
        NodeKind::GenericType,
    ) {
        no_generic_params_outcome(config, node.start as int, node.end as int, node.text@, r)
    } else {
        r is None
    }
}

/// Checks a bare `Array`/`ReadonlyArray` type name.
pub fn check_array_identifier(
    config: ArrayTypeConfig,
    node: &SyntaxNode,
    parent_kind: Option<NodeKind>,
) -> (r: Option<ArrayTypeViolation>)
    ensures
        array_identifier_outcome(config, *node, parent_kind, r),
{
    if node.kind != NodeKind::TypeIdentifier {
        return None;
    }
    if !(str_is(node.text.as_str(), "Array") || str_is(node.text.as_str(), "ReadonlyArray")) {
        return None;
    }
    if parent_kind == Some(NodeKind::GenericType) {
        return None;
    }
    check_array_with_no_generic_params(config, node.start, node.end, node.text.as_str())
}

/// The outcome for an array type `T[]` (possibly under `readonly`).
pub open spec fn array_type_node_outcome(
    config: ArrayTypeConfig,
    node: SyntaxNode,
    parent: Option<ParentInfo>,
    r: Option<ArrayTypeViolation>,
) -> bool {
    let ro = parent matches Some(p) && p.kind == NodeKind::ReadonlyType;
    let opt = option_for(config, ro);
    let item = first_named_node(node);
    let (es, ee) = if ro {
        (parent->0.start as int, parent->0.end as int)
    } else {
        (node.start as int, node.end as int)
    };
    let t = spec_skip_parens(item);
    match r {
        None => opt == ArrayOption::Array || (opt == ArrayOption::ArraySimple && spec_is_simple_type(
            item,
        )),
        Some(v) => {
            &&& !(opt == ArrayOption::Array || (opt == ArrayOption::ArraySimple
                && spec_is_simple_type(item)))
            &&& v.start == es && v.end == ee
            &&& v.message_id == if opt == ArrayOption::Generic {
                ArrayTypeMessage::ErrorStringGeneric
            } else {
                ArrayTypeMessage::ErrorStringGenericSimple
            }
            &&& v.class_name@ == class_name_for(ro)
            &&& v.readonly_prefix@ == prefix_for(ro)
            &&& v.type_@ == spec_message_type(item)
            &&& v.fix@.len() == 2
            &&& edit_is(v.fix@[0], es, t.start as int, class_name_for(ro) + "<"@)
            &&& edit_is(v.fix@[1], t.end as int, ee, ">"@)
        },
    }
}

/// Checks an array type `T[]`.
pub fn check_array_type_node(
    config: ArrayTypeConfig,
    node: &SyntaxNode,
    parent: Option<ParentInfo>,
) -> (r: Option<ArrayTypeViolation>)
    requires
        exists|i: int| is_first_named(node.children@, i),
        simple_type_wf(first_named_node(*node)),
        skip_parens_wf(first_named_node(*node)),
    ensures
        array_type_node_outcome(config, *node, parent, r),
{
    let is_readonly = match parent {
        Some(p) => p.kind == NodeKind::ReadonlyType,
        None => false,
    };
    let ii = find_first_named(&node.children).unwrap();
    let item_type_node = &node.children[ii];
    let current_option = if is_readonly {
        config.readonly_option
    } else {
        config.default_option
    };
    if current_option == ArrayOption::Array || current_option == ArrayOption::ArraySimple
        && is_simple_type(item_type_node) {
        return None;
    }
    let message_id = if current_option == ArrayOption::Generic {
        ArrayTypeMessage::ErrorStringGeneric
    } else {
        ArrayTypeMessage::ErrorStringGenericSimple
    };
    let (error_start, error_end) = if is_readonly {
        let p = parent.unwrap();
        (p.start, p.end)
    } else {
        (node.start, node.end)
    };
    let type_node = skip_parenthesized_types(item_type_node);
    let array_type = class_name_string(is_readonly);
    let mut fix: Vec<TextEdit> = Vec::new();
    fix.push(
        TextEdit {
            start: error_start,
            end: type_node.start,
            replacement: concat(array_type.as_str(), "<"),
        },
    );
    fix.push(
        TextEdit { start: type_node.end, end: error_end, replacement: String::from_str(">") },
    );
    Some(
        ArrayTypeViolation {
            start: error_start,
            end: error_end,
            message_id,
            class_name: array_type,
            readonly_prefix: prefix_string(is_readonly),
            type_: get_message_type(item_type_node),
            fix,
        },
    )
}

} // verus!

verus! {

/// A generic type whose name is `Array` or `ReadonlyArray`.
pub open spec fn generic_array_applies(node: SyntaxNode) -> bool {
    &&& node.kind == NodeKind::GenericType
    &&& exists|i: int| is_first_with_field(node.children@, Field::Name, i)
    &&& field_node(node, Field::Name).kind == NodeKind::TypeIdentifier
    &&& is_array_name(field_node(node, Field::Name).text@)
}

/// The type arguments that the check reads are there.
pub open spec fn generic_array_wf(node: SyntaxNode) -> bool {
    generic_array_applies(node) ==> {
        &&& exists|i: int| is_first_with_field(node.children@, Field::TypeArguments, i)
        &&& named_count(field_node(node, Field::TypeArguments).children@) == 1 ==> {
            let first = first_named_node(field_node(node, Field::TypeArguments));
            &&& simple_type_wf(first)
            &&& skip_parens_wf(first)
            &&& simple_type_wf(spec_skip_parens(first))
            &&& needs_parentheses_wf(spec_skip_parens(first))
        }
    }
}

/// `(` when the flag is set, nothing otherwise.
pub open spec fn open_paren_if(b: bool) -> Seq<char> {
    if b {
        "("@
    } else {
        ""@
    }
}

/// `)` when the flag is set, nothing otherwise.
pub open spec fn close_paren_if(b: bool) -> Seq<char> {
    if b {
        ")"@
    } else {
        ""@
    }
}

/// The outcome for `Array<...>`/`ReadonlyArray<...>`.
pub open spec fn generic_array_outcome(
    config: ArrayTypeConfig,
    node: SyntaxNode,
    parent_kind: Option<NodeKind>,
    r: Option<ArrayTypeViolation>,
) -> bool {
    if !generic_array_applies(node) {
        r is None
    } else {
        let inner = field_node(node, Field::Name);
        let args = field_node(node, Field::TypeArguments);
        let n = named_count(args.children@);
        if n == 0 {
            no_generic_params_outcome(config, node.start as int, node.end as int, inner.text@, r)
        } else if n != 1 {
            r is None
        } else {
            let first = first_named_node(args);
            let ro = inner.text@ == "ReadonlyArray"@;
            let opt = option_for(config, ro);
            if opt == ArrayOption::Generic || (opt == ArrayOption::ArraySimple
                && !spec_is_simple_type(first)) {
                r is None
            } else {
                let t = spec_skip_parens(first);
                let tp = spec_type_needs_parentheses(t);
                let pp = ro && parent_kind == Some(NodeKind::ArrayType);
                match r {
                    None => false,
                    Some(v) => {
                        &&& v.start == node.start && v.end == node.end
                        &&& v.message_id == if opt == ArrayOption::Array {
                            ArrayTypeMessage::ErrorStringArray
                        } else {
                            ArrayTypeMessage::ErrorStringArraySimple
                        }
                        &&& v.class_name@ == class_name_for(ro)
                        &&& v.readonly_prefix@ == prefix_for(ro)
                        &&& v.type_@ == spec_message_type(t)
                        &&& v.fix@.len() == 2
                        &&& edit_is(
                            v.fix@[0],
                            node.start as int,
                            t.start as int,
                            open_paren_if(pp) + prefix_for(ro) + open_paren_if(tp),
                        )
                        &&& edit_is(
                            v.fix@[1],
                            t.end as int,
                            node.end as int,
                            close_paren_if(tp) + "[]"@ + close_paren_if(pp),
                        )
                    },
                }
            }
        }
    }
}

fn paren_string(b: bool, open: bool) -> (r: String)
    ensures
        r@ == if open {
            open_paren_if(b)
        } else {
            close_paren_if(b)
        },
{
    if !b {
        String::from_str("")
    } else if open {
        String::from_str("(")
    } else {
        String::from_str(")")
    }
}

/// Checks `Array<...>`/`ReadonlyArray<...>`.
pub fn check_generic_array(
    config: ArrayTypeConfig,
    node: &SyntaxNode,
    parent_kind: Option<NodeKind>,
) -> (r: Option<ArrayTypeViolation>)
    requires
        generic_array_wf(*node),
    ensures
        generic_array_outcome(config, *node, parent_kind, r),
{
    if node.kind != NodeKind::GenericType {
        return None;
    }
    let ni = match find_field(&node.children, Field::Name) {
        Some(ni) => ni,
        None => return None,
    };
    let inner_node = &node.children[ni];
    if inner_node.kind != NodeKind::TypeIdentifier {
        return None;
    }
    if !(str_is(inner_node.text.as_str(), "Array") || str_is(inner_node.text.as_str(), "ReadonlyArray")) {
        return None;
    }
    let ai = find_field(&node.children, Field::TypeArguments).unwrap();
    let args = &node.children[ai];
    let num_type_arguments = count_named(&args.children);
    if num_type_arguments == 0 {
        return check_array_with_no_generic_params(config, node.start, node.end, inner_node.text.as_str());
    }
    if num_type_arguments != 1 {
        return None;
    }
    let fi = match find_first_named(&args.children) {
        Some(fi) => fi,
        None => {
            proof {
                crate::syntax::lemma_named_count_zero(args.children@);
            }
            return None;
        },
    };
    let first_type_argument = &args.children[fi];
    let is_readonly_array_type = str_is(inner_node.text.as_str(), "ReadonlyArray");
    let current_option = if is_readonly_array_type {
        config.readonly_option
    } else {
        config.default_option
    };
    if current_option == ArrayOption::Generic {
        return None;
    }
    if current_option == ArrayOption::ArraySimple && !is_simple_type(first_type_argument) {
        return None;
    }
    let readonly_prefix = prefix_string(is_readonly_array_type);
    let message_id = if current_option == ArrayOption::Array {
        ArrayTypeMessage::ErrorStringArray
    } else {
        ArrayTypeMessage::ErrorStringArraySimple
    };
    let type_ = skip_parenthesized_types(first_type_argument);
    let type_parens = type_needs_parentheses(type_);
    let parent_parens = is_readonly_array_type && parent_kind == Some(NodeKind::ArrayType);
    let start_open = paren_string(parent_parens, true);
    let start_mid = concat(start_open.as_str(), readonly_prefix.as_str());
    let start_close = paren_string(type_parens, true);
    let start = concat(start_mid.as_str(), start_close.as_str());
    let end_open = paren_string(type_parens, false);
    let end_mid = concat(end_open.as_str(), "[]");
    let end_close = paren_string(parent_parens, false);
    let end = concat(end_mid.as_str(), end_close.as_str());
    let mut fix: Vec<TextEdit> = Vec::new();
    fix.push(TextEdit { start: node.start, end: type_.start, replacement: start });
    fix.push(TextEdit { start: type_.end, end: node.end, replacement: end });
    Some(
        ArrayTypeViolation {
            start: node.start,
            end: node.end,
            message_id,
            class_name: class_name_string(is_readonly_array_type),
            readonly_prefix,
            type_: get_message_type(type_),
            fix,
        },
    )
}

/// The kind of the parent, where there is one.
pub open spec fn parent_kind_of(parent: Option<ParentInfo>) -> Option<NodeKind> {
    match parent {
        Some(p) => Some(p.kind),
        None => None,
    }
}

/// What the checks read of the node is there.
pub open spec fn array_rule_wf(node: SyntaxNode) -> bool {
    &&& node.kind == NodeKind::ArrayType ==> {
        &&& exists|i: int| is_first_named(node.children@, i)
        &&& simple_type_wf(first_named_node(node))
        &&& skip_parens_wf(first_named_node(node))
    }
    &&& generic_array_wf(node)
}

/// The rule: an array type `T[]`, a bare `Array`/`ReadonlyArray` name and
/// `Array<...>`/`ReadonlyArray<...>` are each checked against the style in
/// force; any other node is left alone. `parent` is the node's parent.
pub fn array_type_rule(config: ArrayTypeConfig, node: &SyntaxNode, parent: Option<ParentInfo>) -> (r:
    Option<ArrayTypeViolation>)
    requires
        array_rule_wf(*node),
    ensures
        node.kind == NodeKind::ArrayType ==> array_type_node_outcome(config, *node, parent, r),
        node.kind == NodeKind::TypeIdentifier ==> array_identifier_outcome(
            config,
            *node,
            parent_kind_of(parent),
            r,
        ),
        node.kind == NodeKind::GenericType ==> generic_array_outcome(
            config,
            *node,
            parent_kind_of(parent),
            r,
        ),
        !(node.kind == NodeKind::ArrayType || node.kind == NodeKind::TypeIdentifier || node.kind
            == NodeKind::GenericType) ==> r is None,
{
    let parent_kind = match parent {
        Some(p) => Some(p.kind),
        None => None,
    };
    match node.kind {
        NodeKind::ArrayType => check_array_type_node(config, node, parent),
        NodeKind::TypeIdentifier => check_array_identifier(config, node, parent_kind),
        NodeKind::GenericType => check_generic_array(config, node, parent_kind),
        _ => None,
    }
}

/// Without a readonly style of its own, readonly arrays follow the mutable
/// style, which is `array` when not given either.
pub proof fn readonly_style_follows_default(o: Options)
    requires
        o.readonly is None,
    ensures
        spec_readonly_option(o) == spec_default_option(o),
        o.default is None ==> spec_readonly_option(o) == ArrayOption::Array,
{
}

/// Under the `array` style (for the kind of array at hand) an array type
/// `T[]` is never reported.
pub proof fn array_style_accepts_array_syntax(
    config: ArrayTypeConfig,
    node: SyntaxNode,
    parent: Option<ParentInfo>,
    r: Option<ArrayTypeViolation>,
)
    requires
        option_for(config, parent matches Some(p) && p.kind == NodeKind::ReadonlyType)
            == ArrayOption::Array,
        array_type_node_outcome(config, node, parent, r),
    ensures
        r is None,
{
}

/// Under the `generic` style (for mutable and readonly arrays alike) neither
/// `Array<T>`, nor a bare `Array`, nor their readonly forms are reported.
pub proof fn generic_style_accepts_generic_syntax(
    config: ArrayTypeConfig,
    node: SyntaxNode,
    parent_kind: Option<NodeKind>,
    r1: Option<ArrayTypeViolation>,
    r2: Option<ArrayTypeViolation>,
)
    requires
        config.default_option == ArrayOption::Generic,
        config.readonly_option == ArrayOption::Generic,
        generic_array_outcome(config, node, parent_kind, r1),
        array_identifier_outcome(config, node, parent_kind, r2),
    ensures
        r1 is None,
        r2 is None,
{
}

/// Under `array-simple`, `T[]` is reported exactly when `T` is not simple,
/// and `Array<T>` exactly when `T` is simple.
pub proof fn array_simple_splits_on_simple_types(
    config: ArrayTypeConfig,
    node: SyntaxNode,
    parent: Option<ParentInfo>,
    parent_kind: Option<NodeKind>,
    r1: Option<ArrayTypeViolation>,
    r2: Option<ArrayTypeViolation>,
)
    requires
        config.default_option == ArrayOption::ArraySimple,
        config.readonly_option == ArrayOption::ArraySimple,
        array_type_node_outcome(config, node, parent, r1),
        generic_array_outcome(config, node, parent_kind, r2),
    ensures
        r1 is Some <==> !spec_is_simple_type(first_named_node(node)),
        generic_array_applies(node) && named_count(field_node(node, Field::TypeArguments).children@)
            == 1 ==> (r2 is Some <==> spec_is_simple_type(
            first_named_node(field_node(node, Field::TypeArguments)),
        )),
{
}

} // verus!

verus! {

/// What `array_type_rule` promises of its result, as one predicate.
pub open spec fn array_rule_outcome(
    config: ArrayTypeConfig,
    node: SyntaxNode,
    parent: Option<ParentInfo>,
    r: Option<ArrayTypeViolation>,
) -> bool {
    &&& node.kind == NodeKind::ArrayType ==> array_type_node_outcome(config, node, parent, r)
    &&& node.kind == NodeKind::TypeIdentifier ==> array_identifier_outcome(
        config,
        node,
        parent_kind_of(parent),
        r,
    )
    &&& node.kind == NodeKind::GenericType ==> generic_array_outcome(
        config,
        node,
        parent_kind_of(parent),
        r,
    )
    &&& !(node.kind == NodeKind::ArrayType || node.kind == NodeKind::TypeIdentifier || node.kind
        == NodeKind::GenericType) ==> r is None
}

/// Whether the style in force leaves `T[]` alone, for the element type `T`.
pub open spec fn array_accepted(opt: ArrayOption, item: SyntaxNode) -> bool {
    opt == ArrayOption::Array || (opt == ArrayOption::ArraySimple && spec_is_simple_type(item))
}

/// A node as the parent of its children.
pub open spec fn parent_of(n: SyntaxNode) -> Option<ParentInfo> {
    Some(ParentInfo { kind: n.kind, start: n.start, end: n.end })
}

/// Whether the rule reports a node that stands under `parent`.
pub open spec fn node_reported(config: ArrayTypeConfig, n: SyntaxNode, parent: Option<ParentInfo>) -> bool {
    match n.kind {
        NodeKind::ArrayType => !array_accepted(
            option_for(config, parent matches Some(p) && p.kind == NodeKind::ReadonlyType),
            first_named_node(n),
        ),
        NodeKind::TypeIdentifier => is_array_name(n.text@) && parent_kind_of(parent) != Some(
            NodeKind::GenericType,
        ) && option_for(config, n.text@ == "ReadonlyArray"@) != ArrayOption::Generic,
        NodeKind::GenericType => generic_array_applies(n) && {
            let opt = option_for(config, field_node(n, Field::Name).text@ == "ReadonlyArray"@);
            let args = field_node(n, Field::TypeArguments);
            let c = named_count(args.children@);
            &&& opt != ArrayOption::Generic
            &&& (c == 0 || (c == 1 && !(opt == ArrayOption::ArraySimple && !spec_is_simple_type(
                first_named_node(args),
            ))))
        },
        _ => false,
    }
}

/// How many nodes the rule reports among the first `i` children of `n` and
/// everything below them.
pub open spec fn reports_among(config: ArrayTypeConfig, n: SyntaxNode, i: int) -> nat
    decreases n, i,
{
    if i <= 0 || i > n.children@.len() {
        0
    } else {
        let c = n.children@[i - 1];
        proof {
            assert(decreases_to!(n => n.children@[i - 1]));
        }
        reports_among(config, n, i - 1) + (if node_reported(config, c, parent_of(n)) {
            1nat
        } else {
            0nat
        }) + reports_among(config, c, c.children@.len() as int)
    }
}

/// How many nodes below `n` the rule reports.
pub open spec fn reports_below(config: ArrayTypeConfig, n: SyntaxNode) -> nat {
    reports_among(config, n, n.children@.len() as int)
}

/// A parent under which a node is judged as under any other such parent: it
/// is neither a `readonly` type nor a generic type.
pub open spec fn neutral_parent(p: Option<ParentInfo>) -> bool {
    parent_kind_of(p) != Some(NodeKind::ReadonlyType) && parent_kind_of(p) != Some(
        NodeKind::GenericType,
    )
}

/// The type that a two-edit fix keeps in place between its edits.
pub open spec fn kept_type(node: SyntaxNode) -> SyntaxNode {
    if node.kind == NodeKind::ArrayType {
        spec_skip_parens(first_named_node(node))
    } else {
        spec_skip_parens(first_named_node(field_node(node, Field::TypeArguments)))
    }
}

/// `p` is `( x )`: a parenthesized type around `x`.
pub open spec fn paren_around(p: SyntaxNode, x: SyntaxNode) -> bool {
    &&& p.kind == NodeKind::ParenthesizedType
    &&& p.named
    &&& p.children@ == seq![x]
    &&& p.text@ == "("@ + x.text@ + ")"@
}

/// `f` is `Class<t>`.
pub open spec fn generic_form(f: SyntaxNode, class: Seq<char>, t: SyntaxNode) -> bool {
    &&& f.kind == NodeKind::GenericType
    &&& f.text@ == class + "<"@ + t.text@ + ">"@
    &&& f.children@.len() == 2
    &&& f.children@[0].kind == NodeKind::TypeIdentifier
    &&& f.children@[0].field == Some(Field::Name)
    &&& f.children@[0].text@ == class
    &&& f.children@[0].children@.len() == 0
    &&& f.children@[1].kind == NodeKind::TypeArguments
    &&& f.children@[1].field == Some(Field::TypeArguments)
    &&& f.children@[1].children@ == seq![t]
}

/// `a` is `any[]`.
pub open spec fn any_array(a: SyntaxNode) -> bool {
    &&& a.kind == NodeKind::ArrayType
    &&& a.text@ == "any[]"@
    &&& a.children@.len() == 1
    &&& a.children@[0].kind == NodeKind::PredefinedType
    &&& a.children@[0].named
    &&& a.children@[0].children@.len() == 0
}

/// `f` is `any[]`, or `readonly any[]` for a readonly array.
pub open spec fn any_array_form(f: SyntaxNode, readonly: bool) -> bool {
    if readonly {
        &&& f.kind == NodeKind::ReadonlyType
        &&& f.text@ == prefix_for(true) + f.children@[1].text@
        &&& f.children@.len() == 2
        &&& f.children@[0].kind == NodeKind::ReadonlyKeyword
        &&& f.children@[0].children@.len() == 0
        &&& any_array(f.children@[1])
    } else {
        any_array(f)
    }
}

/// `f` is `t[]`, with `t` in parentheses when `inner_parens`, `readonly` in
/// front when `readonly`, and the whole in parentheses when `outer_parens`.
pub open spec fn array_form(
    f: SyntaxNode,
    readonly: bool,
    outer_parens: bool,
    inner_parens: bool,
    t: SyntaxNode,
) -> bool {
    let core = if outer_parens {
        f.children@[0]
    } else {
        f
    };
    let arr = if readonly {
        core.children@[1]
    } else {
        core
    };
    let item = arr.children@[0];
    &&& outer_parens ==> f.children@.len() == 1 && paren_around(f, core)
    &&& readonly ==> {
        &&& core.kind == NodeKind::ReadonlyType
        &&& core.children@.len() == 2
        &&& core.children@[0].kind == NodeKind::ReadonlyKeyword
        &&& core.children@[0].children@.len() == 0
        &&& core.text@ == prefix_for(true) + arr.text@
    }
    &&& arr.kind == NodeKind::ArrayType
    &&& arr.named
    &&& arr.children@.len() == 1
    &&& arr.text@ == item.text@ + "[]"@
    &&& if inner_parens {
        item.children@.len() == 1 && paren_around(item, t)
    } else {
        item == t
    }
}

/// The type that the text of a report's fix reads as, with the type the fix
/// keeps as it was.
pub open spec fn fixed_form(
    config: ArrayTypeConfig,
    node: SyntaxNode,
    parent: Option<ParentInfo>,
    f: SyntaxNode,
) -> bool {
    match node.kind {
        NodeKind::ArrayType => generic_form(
            f,
            class_name_for(parent matches Some(p) && p.kind == NodeKind::ReadonlyType),
            kept_type(node),
        ),
        NodeKind::TypeIdentifier => any_array_form(f, node.text@ == "ReadonlyArray"@),
        NodeKind::GenericType => {
            let ro = field_node(node, Field::Name).text@ == "ReadonlyArray"@;
            if named_count(field_node(node, Field::TypeArguments).children@) == 0 {
                any_array_form(f, ro)
            } else {
                array_form(
                    f,
                    ro,
                    ro && parent_kind_of(parent) == Some(NodeKind::ArrayType),
                    spec_type_needs_parentheses(kept_type(node)),
                    kept_type(node),
                )
            }
        },
        _ => false,
    }
}

/// The inputs on which the fixed type is accepted: under `array-simple` the
/// kept type must not be simple once its parentheses are gone (else
/// `(string)[]` becomes `Array<string>`, reported again); and `T[]` made of
/// `Array<T>` must be accepted by the style that judges it (the readonly
/// style where it comes to stand under a `readonly` it did not have before),
/// which under `array-simple` asks for a `T` that is simple and needs no
/// parentheses.
pub open spec fn fix_stays_accepted(
    config: ArrayTypeConfig,
    node: SyntaxNode,
    parent: Option<ParentInfo>,
    outer: Option<ParentInfo>,
) -> bool {
    let under_readonly = parent_kind_of(outer) == Some(NodeKind::ReadonlyType);
    match node.kind {
        NodeKind::ArrayType => option_for(
            config,
            parent matches Some(p) && p.kind == NodeKind::ReadonlyType,
        ) == ArrayOption::ArraySimple ==> !spec_is_simple_type(kept_type(node)),
        NodeKind::TypeIdentifier => node.text@ != "ReadonlyArray"@ && under_readonly
            ==> config.readonly_option != ArrayOption::Generic,
        NodeKind::GenericType => {
            let ro = field_node(node, Field::Name).text@ == "ReadonlyArray"@;
            let t = kept_type(node);
            let tp = spec_type_needs_parentheses(t);
            if named_count(field_node(node, Field::TypeArguments).children@) == 0 {
                !ro && under_readonly ==> config.readonly_option != ArrayOption::Generic
            } else {
                let judge = if !ro && under_readonly {
                    config.readonly_option
                } else {
                    option_for(config, ro)
                };
                judge == ArrayOption::Array || (judge == ArrayOption::ArraySimple && !tp
                    && spec_is_simple_type(t))
            }
        },
        _ => true,
    }
}

/// A child of a node with nothing reported below it is not reported, and
/// nothing below it is either.
proof fn lemma_clean_child(config: ArrayTypeConfig, n: SyntaxNode, i: int, j: int)
    requires
        reports_among(config, n, i) == 0,
        0 <= j < i <= n.children@.len(),
    ensures
        !node_reported(config, n.children@[j], parent_of(n)),
        reports_below(config, n.children@[j]) == 0,
    decreases i,
{
    if j < i - 1 {
        lemma_clean_child(config, n, i - 1, j);
    }
}

/// A sequence with a named element has a first named element.
proof fn lemma_first_named_exists(s: Seq<SyntaxNode>, k: int)
    requires
        0 <= k < s.len(),
        s[k].named,
    ensures
        exists|i: int| is_first_named(s, i),
    decreases s.len(),
{
    let d = s.drop_last();
    assert forall|j: int| 0 <= j < d.len() implies d[j] == s[j] by {}
    if exists|j: int| 0 <= j < d.len() && d[j].named {
        let j = choose|j: int| 0 <= j < d.len() && d[j].named;
        lemma_first_named_exists(d, j);
        let i = choose|i: int| is_first_named(d, i);
        assert(is_first_named(s, i));
    } else {
        assert forall|j: int| 0 <= j < s.len() - 1 implies !s[j].named by {
            assert(d[j] == s[j]);
        }
        assert(k == s.len() - 1);
        assert(is_first_named(s, s.len() - 1));
    }
}

/// The type inside parentheses, with nothing reported in or below it, is
/// not reported under any neutral parent, nor is anything below it.
proof fn lemma_kept_type_clean(config: ArrayTypeConfig, x: SyntaxNode, px: Option<ParentInfo>)
    requires
        skip_parens_wf(x),
        x.named,
        neutral_parent(px),
        !node_reported(config, x, px),
        reports_below(config, x) == 0,
    ensures
        spec_skip_parens(x).named,
        reports_below(config, spec_skip_parens(x)) == 0,
        forall|q: Option<ParentInfo>|
            neutral_parent(q) ==> !node_reported(config, spec_skip_parens(x), q),
    decreases x,
{
    if x.kind == NodeKind::ParenthesizedType {
        let i = first_named_index(x);
        lemma_clean_child(config, x, x.children@.len() as int, i);
        assert(decreases_to!(x => x.children@[i]));
        lemma_kept_type_clean(config, x.children@[i], parent_of(x));
    }
}

/// A node with named children has a first one.
proof fn lemma_first_named_of_some(n: SyntaxNode)
    requires
        named_count(n.children@) != 0,
    ensures
        exists|i: int| is_first_named(n.children@, i),
{
    crate::syntax::lemma_named_count_zero(n.children@);
    let j = choose|j: int| 0 <= j < n.children@.len() && n.children@[j].named;
    lemma_first_named_exists(n.children@, j);
}

/// The only first child under a field.
proof fn lemma_field_at(n: SyntaxNode, f: Field, i: int)
    requires
        is_first_with_field(n.children@, f, i),
    ensures
        field_index(n, f) == i,
        field_node(n, f) == n.children@[i],
{
    crate::syntax::lemma_first_with_field_unique(n.children@, f, field_index(n, f), i);
}

/// The only first named child.
proof fn lemma_first_named_at(n: SyntaxNode, i: int)
    requires
        is_first_named(n.children@, i),
    ensures
        first_named_index(n) == i,
        first_named_node(n) == n.children@[i],
{
    crate::syntax::lemma_first_named_unique(n.children@, first_named_index(n), i);
}

proof fn lemma_single_named_count(t: SyntaxNode)
    requires
        t.named,
    ensures
        named_count(seq![t]) == 1,
{
    assert(seq![t].drop_last() =~= Seq::<SyntaxNode>::empty());
    reveal_with_fuel(named_count, 2);
}

/// `any[]` and `readonly any[]` are accepted when the style that judges them
/// is not `generic`, and nothing below them is reported.
proof fn lemma_any_array_clean(config: ArrayTypeConfig, f: SyntaxNode, readonly: bool, outer: Option<
    ParentInfo,
>)
    requires
        any_array_form(f, readonly),
        readonly ==> config.readonly_option != ArrayOption::Generic,
        !readonly ==> option_for(
            config,
            outer matches Some(p) && p.kind == NodeKind::ReadonlyType,
        ) != ArrayOption::Generic,
    ensures
        !node_reported(config, f, outer),
        reports_below(config, f) == 0,
{
    let arr = if readonly {
        f.children@[1]
    } else {
        f
    };
    let any = arr.children@[0];
    assert(is_first_named(arr.children@, 0));
    lemma_first_named_at(arr, 0);
    assert(spec_is_simple_type(any));
    assert(reports_among(config, any, 0) == 0);
    assert(reports_among(config, arr, 0) == 0);
    assert(reports_among(config, arr, 1) == 0);
    if readonly {
        let kw = f.children@[0];
        assert(reports_among(config, kw, 0) == 0);
        assert(reports_among(config, f, 0) == 0);
        assert(reports_among(config, f, 1) == 0);
        assert(!node_reported(config, arr, parent_of(f)));
        assert(reports_among(config, f, 2) == 0);
    }
}

/// The fix of a reported `T[]`: `Array<T>` (`ReadonlyArray<T>` in place of
/// `readonly T[]`).
proof fn lemma_array_type_fix(
    config: ArrayTypeConfig,
    node: SyntaxNode,
    parent: Option<ParentInfo>,
    outer: Option<ParentInfo>,
    v: ArrayTypeViolation,
    fixed: SyntaxNode,
)
    requires
        node.kind == NodeKind::ArrayType,
        array_rule_wf(node),
        array_type_node_outcome(config, node, parent, Some(v)),
        reports_below(config, node) == 0,
        fix_stays_accepted(config, node, parent, outer),
        fixed_form(config, node, parent, fixed),
    ensures
        fixed.text@ == v.fix@[0].replacement@ + kept_type(node).text@ + v.fix@[1].replacement@,
        !node_reported(config, fixed, outer),
        reports_below(config, fixed) == 0,
{
    assert("Array"@ != "ReadonlyArray"@) by {
        reveal_strlit("Array");
        reveal_strlit("ReadonlyArray");
    }
    let ro = parent matches Some(p) && p.kind == NodeKind::ReadonlyType;
    let i = first_named_index(node);
    let item = node.children@[i];
    lemma_clean_child(config, node, node.children@.len() as int, i);
    lemma_kept_type_clean(config, item, parent_of(node));
    let t = kept_type(node);
    let args = fixed.children@[1];
    assert(is_first_with_field(fixed.children@, Field::Name, 0));
    assert(is_first_with_field(fixed.children@, Field::TypeArguments, 1));
    lemma_field_at(fixed, Field::Name, 0);
    lemma_field_at(fixed, Field::TypeArguments, 1);
    lemma_single_named_count(t);
    assert(is_first_named(args.children@, 0));
    lemma_first_named_at(args, 0);
    assert(generic_array_applies(fixed));
    assert((class_name_for(ro) == "ReadonlyArray"@) == ro);
    assert(!node_reported(config, fixed, outer));
    assert(t == spec_skip_parens(item));
    assert(neutral_parent(parent_of(args)));
    assert(!node_reported(config, t, parent_of(args)));
    assert(reports_among(config, args, 0) == 0);
    assert(reports_among(config, args, 1) == 0);
    assert(reports_among(config, fixed.children@[0], 0) == 0);
    assert(reports_among(config, fixed, 0) == 0);
    assert(reports_among(config, fixed, 1) == 0);
    assert(reports_among(config, fixed, 2) == 0);
    assert(fixed.text@ =~= v.fix@[0].replacement@ + t.text@ + v.fix@[1].replacement@);
}

/// The fix of a reported `Array<T>`: `T[]`, with the parentheses and the
/// `readonly` it needs.
#[verifier::rlimit(30)]
proof fn lemma_generic_array_fix(
    config: ArrayTypeConfig,
    node: SyntaxNode,
    parent: Option<ParentInfo>,
    outer: Option<ParentInfo>,
    v: ArrayTypeViolation,
    fixed: SyntaxNode,
)
    requires
        node.kind == NodeKind::GenericType,
        array_rule_wf(node),
        generic_array_outcome(config, node, parent_kind_of(parent), Some(v)),
        named_count(field_node(node, Field::TypeArguments).children@) != 0,
        field_node(node, Field::TypeArguments).kind == NodeKind::TypeArguments,
        reports_below(config, node) == 0,
        outer == parent,
        fix_stays_accepted(config, node, parent, outer),
        fixed_form(config, node, parent, fixed),
    ensures
        fixed.text@ == v.fix@[0].replacement@ + kept_type(node).text@ + v.fix@[1].replacement@,
        !node_reported(config, fixed, outer),
        reports_below(config, fixed) == 0,
{
    reveal_strlit("");
    let ro = field_node(node, Field::Name).text@ == "ReadonlyArray"@;
    let ai = field_index(node, Field::TypeArguments);
    let args = node.children@[ai];
    let opt = option_for(config, ro);
    lemma_first_named_of_some(args);
    let k = first_named_index(args);
    let first = args.children@[k];
    lemma_clean_child(config, node, node.children@.len() as int, ai);
    lemma_clean_child(config, args, args.children@.len() as int, k);
    lemma_kept_type_clean(config, first, parent_of(args));
    let t = kept_type(node);
    let tp = spec_type_needs_parentheses(t);
    let pp = ro && parent_kind_of(parent) == Some(NodeKind::ArrayType);
    let core = if pp {
        fixed.children@[0]
    } else {
        fixed
    };
    let arr = if ro {
        core.children@[1]
    } else {
        core
    };
    let item = arr.children@[0];
    assert(is_first_named(arr.children@, 0));
    lemma_first_named_at(arr, 0);
    if opt == ArrayOption::ArraySimple {
        assert(spec_skip_parens(first) == first);
    }
    assert(t == spec_skip_parens(first));
    if tp {
        assert(is_first_named(item.children@, 0));
        assert(neutral_parent(parent_of(item)));
        assert(!node_reported(config, t, parent_of(item)));
        assert(reports_among(config, item, 0) == 0);
        assert(reports_among(config, item, 1) == 0);
    }
    assert(reports_below(config, item) == 0);
    assert(neutral_parent(parent_of(arr)));
    assert(!node_reported(config, item, parent_of(arr)));
    assert(reports_among(config, arr, 0) == 0);
    assert(reports_among(config, arr, 1) == 0);
    if ro {
        assert(reports_among(config, core.children@[0], 0) == 0);
        assert(reports_among(config, core, 0) == 0);
        assert(reports_among(config, core, 1) == 0);
        assert(!node_reported(config, arr, parent_of(core)));
        assert(reports_among(config, core, 2) == 0);
    } else {
        assert(!node_reported(config, arr, outer));
    }
    if pp {
        assert(reports_among(config, fixed, 0) == 0);
        assert(reports_among(config, fixed, 1) == 0);
    }
    assert(fixed.text@ =~= v.fix@[0].replacement@ + t.text@ + v.fix@[1].replacement@);
}

/// Applying the fix of a report leaves a type that the rule accepts under
/// the same options. `fixed` is the type that the fixed text reads as (of the
/// form `fixed_form` describes: `Array<T>` for `T[]`, `T[]` for `Array<T>`,
/// `any[]` for a bare `Array`, each with its `readonly` and parentheses),
/// standing where the replaced text stood, under `outer`; the type that the
/// fix keeps between its edits stays as it was. Provided nothing below the
/// reported node was reported, neither `fixed` nor anything below it is
/// reported, on the inputs that `fix_stays_accepted` describes.
pub proof fn applying_the_fix_leaves_an_accepted_type(
    config: ArrayTypeConfig,
    node: SyntaxNode,
    parent: Option<ParentInfo>,
    outer: Option<ParentInfo>,
    v: ArrayTypeViolation,
    fixed: SyntaxNode,
)
    requires
        array_rule_wf(node),
        array_rule_outcome(config, node, parent, Some(v)),
        reports_below(config, node) == 0,
        node.kind == NodeKind::GenericType ==> field_node(node, Field::TypeArguments).kind
            == NodeKind::TypeArguments,
        !(node.kind == NodeKind::ArrayType && parent_kind_of(parent) == Some(
            NodeKind::ReadonlyType,
        )) ==> outer == parent,
        fix_stays_accepted(config, node, parent, outer),
        fixed_form(config, node, parent, fixed),
    ensures
        v.fix@.len() == 1 ==> fixed.text@ == v.fix@[0].replacement@,
        v.fix@.len() == 2 ==> fixed.text@ == v.fix@[0].replacement@ + kept_type(node).text@
            + v.fix@[1].replacement@,
        !node_reported(config, fixed, outer),
        reports_below(config, fixed) == 0,
{
    reveal_strlit("");
    if node.kind == NodeKind::ArrayType {
        lemma_array_type_fix(config, node, parent, outer, v, fixed);
    } else if node.kind == NodeKind::TypeIdentifier {
        lemma_any_array_clean(config, fixed, node.text@ == "ReadonlyArray"@, outer);
        assert(fixed.text@ =~= v.fix@[0].replacement@);
    } else if named_count(field_node(node, Field::TypeArguments).children@) == 0 {
        let ro = field_node(node, Field::Name).text@ == "ReadonlyArray"@;
        lemma_any_array_clean(config, fixed, ro, outer);
        assert(fixed.text@ =~= v.fix@[0].replacement@);
    } else {
        lemma_generic_array_fix(config, node, parent, outer, v, fixed);
    }
}

/// Outside the inputs that `fix_stays_accepted` describes, applying the fix
/// of a report leaves a type that the rule reports again: the fixed type
/// itself, or a type below it. With `applying_the_fix_leaves_an_accepted_type`
/// this makes `fix_stays_accepted` exactly the inputs on which the fixed type
/// is accepted.
pub proof fn outside_that_the_fixed_type_is_reported_again(
    config: ArrayTypeConfig,
    node: SyntaxNode,
    parent: Option<ParentInfo>,
    outer: Option<ParentInfo>,
    v: ArrayTypeViolation,
    fixed: SyntaxNode,
)
    requires
        array_rule_wf(node),
        array_rule_outcome(config, node, parent, Some(v)),
        reports_below(config, node) == 0,
        node.kind == NodeKind::GenericType ==> field_node(node, Field::TypeArguments).kind
            == NodeKind::TypeArguments,
        !(node.kind == NodeKind::ArrayType && parent_kind_of(parent) == Some(
            NodeKind::ReadonlyType,
        )) ==> outer == parent,
        !fix_stays_accepted(config, node, parent, outer),
        fixed_form(config, node, parent, fixed),
    ensures
        node_reported(config, fixed, outer) || reports_below(config, fixed) > 0,
{
    assert("Array"@ != "ReadonlyArray"@) by {
        reveal_strlit("Array");
        reveal_strlit("ReadonlyArray");
    }
    if node.kind == NodeKind::ArrayType {
        let ro = parent matches Some(p) && p.kind == NodeKind::ReadonlyType;
        let i = first_named_index(node);
        let item = node.children@[i];
        lemma_clean_child(config, node, node.children@.len() as int, i);
        lemma_kept_type_clean(config, item, parent_of(node));
        let t = kept_type(node);
        let args = fixed.children@[1];
        assert(is_first_with_field(fixed.children@, Field::Name, 0));
        assert(is_first_with_field(fixed.children@, Field::TypeArguments, 1));
        lemma_field_at(fixed, Field::Name, 0);
        lemma_field_at(fixed, Field::TypeArguments, 1);
        lemma_single_named_count(t);
        assert(is_first_named(args.children@, 0));
        lemma_first_named_at(args, 0);
        assert(generic_array_applies(fixed));
        assert((class_name_for(ro) == "ReadonlyArray"@) == ro);
        assert(node_reported(config, fixed, outer));
    } else if node.kind == NodeKind::TypeIdentifier || named_count(
        field_node(node, Field::TypeArguments).children@,
    ) == 0 {
        assert(any_array(fixed));
        assert(node_reported(config, fixed, outer));
    } else {
        lemma_generic_fix_reported_again(config, node, parent, outer, v, fixed);
    }
}

/// The `T[]` made of a reported `Array<T>`, outside `fix_stays_accepted`, is
/// reported where it stands.
#[verifier::rlimit(30)]
proof fn lemma_generic_fix_reported_again(
    config: ArrayTypeConfig,
    node: SyntaxNode,
    parent: Option<ParentInfo>,
    outer: Option<ParentInfo>,
    v: ArrayTypeViolation,
    fixed: SyntaxNode,
)
    requires
        node.kind == NodeKind::GenericType,
        array_rule_wf(node),
        generic_array_outcome(config, node, parent_kind_of(parent), Some(v)),
        named_count(field_node(node, Field::TypeArguments).children@) != 0,
        field_node(node, Field::TypeArguments).kind == NodeKind::TypeArguments,
        reports_below(config, node) == 0,
        outer == parent,
        !fix_stays_accepted(config, node, parent, outer),
        fixed_form(config, node, parent, fixed),
    ensures
        node_reported(config, fixed, outer) || reports_below(config, fixed) > 0,
{
    let ro = field_node(node, Field::Name).text@ == "ReadonlyArray"@;
    let t = kept_type(node);
    let tp = spec_type_needs_parentheses(t);
    let pp = ro && parent_kind_of(parent) == Some(NodeKind::ArrayType);
    let core = if pp {
        fixed.children@[0]
    } else {
        fixed
    };
    let arr = if ro {
        core.children@[1]
    } else {
        core
    };
    let ai = field_index(node, Field::TypeArguments);
    let args = node.children@[ai];
    lemma_first_named_of_some(args);
    let k = first_named_index(args);
    let first = args.children@[k];
    lemma_clean_child(config, node, node.children@.len() as int, ai);
    lemma_clean_child(config, args, args.children@.len() as int, k);
    lemma_kept_type_clean(config, first, parent_of(args));
    assert(t == spec_skip_parens(first));
    let item = arr.children@[0];
    assert(is_first_named(arr.children@, 0));
    lemma_first_named_at(arr, 0);
    if tp {
        assert(!spec_is_simple_type(item));
    }
    if ro {
        assert(node_reported(config, arr, parent_of(core)));
        assert(reports_among(config, core, 2) > 0);
        if pp {
            assert(reports_among(config, fixed, 1) > 0);
        }
    } else {
        assert(node_reported(config, arr, outer));
    }
}

} // verus!
