//! `class-literal-property-style`: literals exposed by a class are written
//! either as readonly fields or as getters, consistently.
use vstd::prelude::*;

use crate::ast_helpers::before_field;
use crate::rules::array_type::{field_node, first_named_node};
use crate::rules::consistent_generic_constructors::has_field;
use crate::syntax::{find_field, find_first_named, is_first_named, Field, NodeKind, SyntaxNode};
use crate::util::{get_member_key, member_key};

verus! {

/// The wanted style.
#[derive(Copy, Clone, Debug, PartialEq, Eq, Structural)]
pub enum Style {
    Fields,
    Getters,
}

/// The style in force: `fields` unless another is given.
pub fn style_or_default(option: Option<Style>) -> (r: Style)
    ensures
        r == match option {
            Some(s) => s,
            None => Style::Fields,
        },
{
    match option {
        Some(s) => s,
        None => Style::Fields,
    }
}

/// What is known of a node that may be a literal: whether its kind is a
/// literal kind, whether it is a tagged template expression, and whether the
/// template it holds (its arguments for a call, itself for a template string)
/// has no substitutions.
#[derive(Copy, Clone, Debug, PartialEq, Eq, Structural)]
pub struct LiteralFacts {
    pub is_literal_kind: bool,
    pub is_tagged_template_expression: bool,
    pub is_simple_template_literal: bool,
}

/// A literal, a tagged template without substitutions, or a template string
/// without substitutions.
pub open spec fn spec_is_supported_literal(kind: NodeKind, facts: LiteralFacts) -> bool {
    if facts.is_literal_kind {
        true
    } else if kind == NodeKind::CallExpression && facts.is_tagged_template_expression {
        facts.is_simple_template_literal
    } else if kind == NodeKind::TemplateString {
        facts.is_simple_template_literal
    } else {
        false
    }
}

/// Whether a value is a literal that the rule moves between styles.
pub fn is_supported_literal(kind: NodeKind, facts: LiteralFacts) -> (r: bool)
    ensures
        r == spec_is_supported_literal(kind, facts),
{
    if facts.is_literal_kind {
        true
    } else if kind == NodeKind::CallExpression && facts.is_tagged_template_expression {
        facts.is_simple_template_literal
    } else if kind == NodeKind::TemplateString {
        facts.is_simple_template_literal
    } else {
        false
    }
}

/// Child `i` is the first `declare` or `readonly` keyword before the name.
pub open spec fn is_first_modifier(s: Seq<SyntaxNode>, i: int) -> bool {
    &&& 0 <= i < s.len()
    &&& (s[i].kind == NodeKind::DeclareKeyword || s[i].kind == NodeKind::ReadonlyKeyword)
    &&& before_field(s, Field::Name, i)
    &&& forall|j: int|
        0 <= j < i ==> !(s[j].kind == NodeKind::DeclareKeyword || s[j].kind
            == NodeKind::ReadonlyKeyword)
}

/// The field is `readonly` (and the `readonly` comes before any `declare`).
pub open spec fn spec_is_readonly_and_not_declare(n: SyntaxNode) -> bool {
    exists|i: int|
        is_first_modifier(n.children@, i) && n.children@[i].kind == NodeKind::ReadonlyKeyword
}

/// Whether a field definition is `readonly` and not `declare`d.
pub fn is_readonly_and_not_declare(node: &SyntaxNode) -> (r: bool)
    requires
        node.kind == NodeKind::PublicFieldDefinition,
    ensures
        r == spec_is_readonly_and_not_declare(*node),
{
    let s = &node.children;
    let mut i: usize = 0;
    while i < s.len()
        invariant
            0 <= i <= s@.len(),
            s@ == node.children@,
            before_field(s@, Field::Name, i - 1),
            forall|j: int|
                0 <= j < i ==> !(s@[j].kind == NodeKind::DeclareKeyword || s@[j].kind
                    == NodeKind::ReadonlyKeyword),
        decreases s.len() - i,
    {
        if s[i].field == Some(Field::Name) {
            assert forall|k: int| !is_first_modifier(s@, k) by {
                if 0 <= k < s@.len() && k >= i {
                    assert(s@[i as int].field == Some(Field::Name));
                }
            }
            return false;
        }
        if s[i].kind == NodeKind::DeclareKeyword {
            assert(before_field(s@, Field::Name, i as int));
            assert forall|k: int| is_first_modifier(s@, k) implies k == i by {
                if k > i {
                    assert(!(s@[i as int].kind == NodeKind::DeclareKeyword));
                }
            }
            return false;
        }
        if s[i].kind == NodeKind::ReadonlyKeyword {
            assert(before_field(s@, Field::Name, i as int));
            assert(is_first_modifier(s@, i as int));
            return true;
        }
        i = i + 1;
    }
    false
}

/// The messages of the rule.
#[derive(Copy, Clone, Debug, PartialEq, Eq, Structural)]
pub enum ClassLiteralMessage {
    PreferFieldStyle,
    PreferGetterStyle,
}

/// A report on a member's name.
#[derive(Copy, Clone, Debug, PartialEq, Eq, Structural)]
pub struct ClassLiteralViolation {
    pub start: usize,
    pub end: usize,
    pub message_id: ClassLiteralMessage,
}

/// The getter's body starts with `return <literal>`.
pub open spec fn returns_literal(node: SyntaxNode, argument: LiteralFacts) -> bool {
    let body = field_node(node, Field::Body);
    &&& exists|i: int| is_first_named(body.children@, i)
    &&& first_named_node(body).kind == NodeKind::ReturnStatement
    &&& exists|i: int| is_first_named(first_named_node(body).children@, i)
    &&& spec_is_supported_literal(first_named_node(first_named_node(body)).kind, argument)
}

/// Checks a method definition under the `fields` style: a getter that
/// returns a literal is reported. `argument` describes the returned value.
pub fn check_getter(style: Style, node: &SyntaxNode, is_getter: bool, argument: LiteralFacts) -> (r:
    Option<ClassLiteralViolation>)
    requires
        has_field(*node, Field::Body),
        has_field(*node, Field::Name),
    ensures
        r == if style == Style::Fields && is_getter && returns_literal(*node, argument) {
            Some(
                ClassLiteralViolation {
                    start: member_key(*node).start,
                    end: member_key(*node).end,
                    message_id: ClassLiteralMessage::PreferFieldStyle,
                },
            )
        } else {
            None
        },
{
    if style != Style::Fields {
        return None;
    }
    if !is_getter {
        return None;
    }
    let bi = find_field(&node.children, Field::Body).unwrap();
    let body = &node.children[bi];
    let si = match find_first_named(&body.children) {
        Some(si) => si,
        None => return None,
    };
    let statement = &body.children[si];
    if statement.kind != NodeKind::ReturnStatement {
        return None;
    }
    let ai = match find_first_named(&statement.children) {
        Some(ai) => ai,
        None => return None,
    };
    if !is_supported_literal(statement.children[ai].kind, argument) {
        return None;
    }
    let key = get_member_key(node);
    Some(
        ClassLiteralViolation {
            start: key.start,
            end: key.end,
            message_id: ClassLiteralMessage::PreferFieldStyle,
        },
    )
}

/// Checks a field definition under the `getters` style: a readonly field
/// holding a literal is reported. `value` describes the field's value.
pub fn check_readonly_field(style: Style, node: &SyntaxNode, value: LiteralFacts) -> (r: Option<
    ClassLiteralViolation,
>)
    requires
        node.kind == NodeKind::PublicFieldDefinition,
        has_field(*node, Field::Name),
    ensures
        r == if style == Style::Getters && spec_is_readonly_and_not_declare(*node) && has_field(
            *node,
            Field::Value,
        ) && spec_is_supported_literal(field_node(*node, Field::Value).kind, value) {
            Some(
                ClassLiteralViolation {
                    start: member_key(*node).start,
                    end: member_key(*node).end,
                    message_id: ClassLiteralMessage::PreferGetterStyle,
                },
            )
        } else {
            None
        },
{
    if style != Style::Getters {
        return None;
    }
    if !is_readonly_and_not_declare(node) {
        return None;
    }
    let vi = match find_field(&node.children, Field::Value) {
        Some(vi) => vi,
        None => return None,
    };
    if !is_supported_literal(node.children[vi].kind, value) {
        return None;
    }
    let key = get_member_key(node);
    Some(
        ClassLiteralViolation {
            start: key.start,
            end: key.end,
            message_id: ClassLiteralMessage::PreferGetterStyle,
        },
    )
}

/// What the rule reports for a node: under `fields`, a getter whose body
/// starts by returning a literal; under `getters`, a readonly (not declared)
/// field holding a literal; nothing otherwise. The report covers the member's key (the
/// expression inside the brackets of a computed name).
pub open spec fn literal_style_report(
    option: Option<Style>,
    node: SyntaxNode,
    is_getter: bool,
    literal: LiteralFacts,
) -> Option<ClassLiteralViolation> {
    if node.kind == NodeKind::MethodDefinition {
        if match option {
            Some(s) => s,
            None => Style::Fields,
        } == Style::Fields && is_getter && returns_literal(node, literal) {
            Some(
                ClassLiteralViolation {
                    start: member_key(node).start,
                    end: member_key(node).end,
                    message_id: ClassLiteralMessage::PreferFieldStyle,
                },
            )
        } else {
            None
        }
    } else if node.kind == NodeKind::PublicFieldDefinition {
        if option == Some(Style::Getters) && spec_is_readonly_and_not_declare(node) && has_field(
            node,
            Field::Value,
        ) && spec_is_supported_literal(field_node(node, Field::Value).kind, literal) {
            Some(
                ClassLiteralViolation {
                    start: member_key(node).start,
                    end: member_key(node).end,
                    message_id: ClassLiteralMessage::PreferGetterStyle,
                },
            )
        } else {
            None
        }
    } else {
        None
    }
}

/// The rule, for a method definition or a public field definition under the
/// style `option` (`fields` when not given). `is_getter` says whether a method
/// is a `get` accessor; `literal` describes the value looked at: the returned
/// argument of a getter, the initial value of a field. Other nodes are left
/// alone.
pub fn class_literal_property_style_rule(
    option: Option<Style>,
    node: &SyntaxNode,
    is_getter: bool,
    literal: LiteralFacts,
) -> (r: Option<ClassLiteralViolation>)
    requires
        node.kind == NodeKind::MethodDefinition ==> has_field(*node, Field::Body) && has_field(
            *node,
            Field::Name,
        ),
        node.kind == NodeKind::PublicFieldDefinition ==> has_field(*node, Field::Name),
    ensures
        r == literal_style_report(option, *node, is_getter, literal),
{
    let style = style_or_default(option);
    match node.kind {
        NodeKind::MethodDefinition => check_getter(style, node, is_getter, literal),
        NodeKind::PublicFieldDefinition => check_readonly_field(style, node, literal),
        _ => None,
    }
}

/// The style asked for is never reported: under `fields` (the default) no
/// field definition, under `getters` no method definition.
pub proof fn requested_literal_style_is_not_reported(
    option: Option<Style>,
    node: SyntaxNode,
    is_getter: bool,
    literal: LiteralFacts,
)
    ensures
        option != Some(Style::Getters) && node.kind == NodeKind::PublicFieldDefinition
            ==> literal_style_report(option, node, is_getter, literal) is None,
        option == Some(Style::Getters) && node.kind == NodeKind::MethodDefinition
            ==> literal_style_report(option, node, is_getter, literal) is None,
{
}

} // verus!
