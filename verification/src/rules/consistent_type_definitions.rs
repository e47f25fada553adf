//! `consistent-type-definitions`: object types are declared either with
//! `interface` or with `type`, consistently.
use vstd::prelude::*;

use crate::ast_helpers::{get_is_global_ambient_declaration, get_is_type_literal, spec_is_type_literal};
use crate::report::{edits_view, TextEdit};
use crate::rules::array_type::field_node;
use crate::rules::consistent_generic_constructors::has_field;
use crate::syntax::{find_field, find_kind, is_first_of_kind, Field, NodeKind, SyntaxNode, TokenInfo};
use crate::text::concat;

verus! {

/// Which declaration is wanted.
#[derive(Copy, Clone, Debug, PartialEq, Eq, Structural)]
pub enum Options {
    Interface,
    Type,
}

/// The default is `interface`.
pub fn default_options() -> (r: Options)
    ensures
        r == Options::Interface,
{
    Options::Interface
}

/// The messages of the rule.
#[derive(Copy, Clone, Debug, PartialEq, Eq, Structural)]
pub enum TypeDefinitionMessage {
    InterfaceOverType,
    TypeOverInterface,
}

/// A report: the declared name, the message and the fix.
pub struct TypeDefinitionViolation {
    pub start: usize,
    pub end: usize,
    pub message_id: TypeDefinitionMessage,
    pub fix: Vec<TextEdit>,
}

/// The node after which the declared shape starts: the type parameters when
/// there are some, the name otherwise.
pub open spec fn type_head(node: SyntaxNode) -> SyntaxNode {
    if has_field(node, Field::TypeParameters) {
        field_node(node, Field::TypeParameters)
    } else {
        field_node(node, Field::Name)
    }
}

/// The fix that turns `type T = { ... };` into `interface T { ... }`.
pub open spec fn interface_fix(
    node: SyntaxNode,
    token_before_name: Option<TokenInfo>,
    token_after_value: Option<TokenInfo>,
) -> Seq<(int, int, Seq<char>)> {
    let value = field_node(node, Field::Value);
    let head = type_head(node);
    let first = match token_before_name {
        Some(t) => seq![
            (t.start as int, t.end as int, "interface"@),
            (head.end as int, value.start as int, " "@),
        ],
        None => Seq::empty(),
    };
    let last = match token_after_value {
        Some(t) => if t.kind == NodeKind::Semicolon {
            seq![(t.start as int, t.end as int, ""@)]
        } else {
            Seq::empty()
        },
        None => Seq::empty(),
    };
    first + last
}

/// The outcome for `type T = { ... }`.
pub open spec fn type_alias_outcome(
    option: Options,
    node: SyntaxNode,
    token_before_name: Option<TokenInfo>,
    token_after_value: Option<TokenInfo>,
    r: Option<TypeDefinitionViolation>,
) -> bool {
    if option != Options::Interface || !spec_is_type_literal(
        field_node(node, Field::Value),
        Some(NodeKind::TypeAliasDeclaration),
    ) {
        r is None
    } else {
        let name = field_node(node, Field::Name);
        r matches Some(v) && v.start == name.start && v.end == name.end && v.message_id
            == TypeDefinitionMessage::InterfaceOverType && edits_view(v.fix@) == interface_fix(
            node,
            token_before_name,
            token_after_value,
        )
    }
}

/// Checks a type alias whose value is an object type.
pub fn check_type_alias(
    option: Options,
    node: &SyntaxNode,
    token_before_name: Option<TokenInfo>,
    token_after_value: Option<TokenInfo>,
) -> (r: Option<TypeDefinitionViolation>)
    requires
        has_field(*node, Field::Value),
        has_field(*node, Field::Name),
    ensures
        type_alias_outcome(option, *node, token_before_name, token_after_value, r),
{
    if option != Options::Interface {
        return None;
    }
    let vi = find_field(&node.children, Field::Value).unwrap();
    let value = &node.children[vi];
    if !get_is_type_literal(value, Some(NodeKind::TypeAliasDeclaration)) {
        return None;
    }
    let ni = find_field(&node.children, Field::Name).unwrap();
    let name = &node.children[ni];
    let head = match find_field(&node.children, Field::TypeParameters) {
        Some(ti) => &node.children[ti],
        None => name,
    };
    let mut fix: Vec<TextEdit> = Vec::new();
    match token_before_name {
        Some(t) => {
            fix.push(
                TextEdit { start: t.start, end: t.end, replacement: String::from_str("interface") },
            );
            fix.push(
                TextEdit { start: head.end, end: value.start, replacement: String::from_str(" ") },
            );
        },
        None => {},
    }
    match token_after_value {
        Some(t) => if t.kind == NodeKind::Semicolon {
            fix.push(TextEdit { start: t.start, end: t.end, replacement: String::from_str("") });
        },
        None => {},
    }
    assert(edits_view(fix@) =~= interface_fix(*node, token_before_name, token_after_value));
    Some(
        TypeDefinitionViolation {
            start: name.start,
            end: name.end,
            message_id: TypeDefinitionMessage::InterfaceOverType,
            fix,
        },
    )
}

/// One insertion ` & B` after the body for each named heritage type.
pub open spec fn heritage_edits(s: Seq<SyntaxNode>, at: int) -> Seq<(int, int, Seq<char>)>
    decreases s.len(),
{
    if s.len() == 0 {
        Seq::empty()
    } else {
        heritage_edits(s.drop_last(), at) + if s.last().named {
            seq![(at, at, " & "@ + s.last().text@)]
        } else {
            Seq::empty()
        }
    }
}

/// The `extends` clause's types, if the interface has the clause.
pub open spec fn extends_edits(node: SyntaxNode, at: int) -> Seq<(int, int, Seq<char>)> {
    if exists|i: int| is_first_of_kind(node.children@, NodeKind::ExtendsTypeClause, i) {
        let i = choose|i: int| is_first_of_kind(node.children@, NodeKind::ExtendsTypeClause, i);
        heritage_edits(node.children@[i].children@, at)
    } else {
        Seq::empty()
    }
}

/// Some ancestor is a `declare global { ... }` block.
pub open spec fn within_global_declaration(ancestors: Seq<SyntaxNode>) -> bool {
    exists|i: int|
        0 <= i < ancestors.len() && ancestors[i].kind == NodeKind::AmbientDeclaration
            && ancestors[i].children@[1].kind == NodeKind::GlobalKeyword
}

/// What an `export default` parent reads: it starts at `start`.
pub struct ExportDefaultParent {
    pub start: usize,
}

/// The fix that turns `interface T { ... }` into `type T = { ... }`.
pub open spec fn type_fix(
    node: SyntaxNode,
    ancestors: Seq<SyntaxNode>,
    token_before_name: Option<TokenInfo>,
    export_default_parent: Option<ExportDefaultParent>,
) -> Seq<(int, int, Seq<char>)> {
    if within_global_declaration(ancestors) {
        Seq::empty()
    } else {
        let body = field_node(node, Field::Body);
        let name = field_node(node, Field::Name);
        let head = type_head(node);
        let first = match token_before_name {
            Some(t) => seq![
                (t.start as int, t.end as int, "type"@),
                (head.end as int, body.start as int, " = "@),
            ],
            None => Seq::empty(),
        };
        let last = match export_default_parent {
            Some(p) => seq![
                (p.start as int, node.start as int, ""@),
                (body.end as int, body.end as int, "\nexport default "@ + name.text@),
            ],
            None => Seq::empty(),
        };
        first + extends_edits(node, body.end as int) + last
    }
}

/// The outcome for `interface T { ... }`.
pub open spec fn interface_outcome(
    option: Options,
    node: SyntaxNode,
    ancestors: Seq<SyntaxNode>,
    token_before_name: Option<TokenInfo>,
    export_default_parent: Option<ExportDefaultParent>,
    r: Option<TypeDefinitionViolation>,
) -> bool {
    if option != Options::Type {
        r is None
    } else {
        let name = field_node(node, Field::Name);
        r matches Some(v) && v.start == name.start && v.end == name.end && v.message_id
            == TypeDefinitionMessage::TypeOverInterface && edits_view(v.fix@) == type_fix(
            node,
            ancestors,
            token_before_name,
            export_default_parent,
        )
    }
}

/// Whether some ancestor is a `declare global` block.
pub fn is_currently_traversed_node_within_module_declaration(ancestors: &Vec<SyntaxNode>) -> (r:
    bool)
    requires
        forall|i: int|
            0 <= i < ancestors@.len() && ancestors@[i].kind == NodeKind::AmbientDeclaration
                ==> ancestors@[i].children@.len() >= 2,
    ensures
        r == within_global_declaration(ancestors@),
{
    let mut i: usize = 0;
    while i < ancestors.len()
        invariant
            0 <= i <= ancestors@.len(),
            forall|k: int|
                0 <= k < ancestors@.len() && ancestors@[k].kind == NodeKind::AmbientDeclaration
                    ==> ancestors@[k].children@.len() >= 2,
            forall|j: int|
                0 <= j < i ==> !(ancestors@[j].kind == NodeKind::AmbientDeclaration
                    && ancestors@[j].children@[1].kind == NodeKind::GlobalKeyword),
        decreases ancestors.len() - i,
    {
        if get_is_global_ambient_declaration(&ancestors[i]) {
            return true;
        }
        i = i + 1;
    }
    false
}

/// Checks an interface declaration.
pub fn check_interface(
    option: Options,
    node: &SyntaxNode,
    ancestors: &Vec<SyntaxNode>,
    token_before_name: Option<TokenInfo>,
    export_default_parent: Option<ExportDefaultParent>,
) -> (r: Option<TypeDefinitionViolation>)
    requires
        has_field(*node, Field::Name),
        has_field(*node, Field::Body),
        forall|i: int|
            0 <= i < ancestors@.len() && ancestors@[i].kind == NodeKind::AmbientDeclaration
                ==> ancestors@[i].children@.len() >= 2,
    ensures
        interface_outcome(option, *node, ancestors@, token_before_name, export_default_parent, r),
{
    if option != Options::Type {
        return None;
    }
    let ni = find_field(&node.children, Field::Name).unwrap();
    let name = &node.children[ni];
    let mut fix: Vec<TextEdit> = Vec::new();
    if is_currently_traversed_node_within_module_declaration(ancestors) {
        assert(edits_view(fix@) =~= Seq::<(int, int, Seq<char>)>::empty());
        return Some(
            TypeDefinitionViolation {
                start: name.start,
                end: name.end,
                message_id: TypeDefinitionMessage::TypeOverInterface,
                fix,
            },
        );
    }
    let bi = find_field(&node.children, Field::Body).unwrap();
    let body = &node.children[bi];
    let head = match find_field(&node.children, Field::TypeParameters) {
        Some(ti) => &node.children[ti],
        None => name,
    };
    match token_before_name {
        Some(t) => {
            fix.push(TextEdit { start: t.start, end: t.end, replacement: String::from_str("type") });
            fix.push(
                TextEdit { start: head.end, end: body.start, replacement: String::from_str(" = ") },
            );
        },
        None => {},
    }
    let ghost first = edits_view(fix@);
    match find_kind(&node.children, NodeKind::ExtendsTypeClause) {
        Some(ei) => {
            proof {
                let c = choose|c: int| is_first_of_kind(node.children@, NodeKind::ExtendsTypeClause, c);
                if c < ei {
                } else if c > ei {
                    assert(node.children@[ei as int].kind == NodeKind::ExtendsTypeClause);
                }
            }
            let extends = &node.children[ei];
            let mut k: usize = 0;
            while k < extends.children.len()
                invariant
                    0 <= k <= extends.children@.len(),
                    edits_view(fix@) == first + heritage_edits(
                        extends.children@.take(k as int),
                        body.end as int,
                    ),
                decreases extends.children.len() - k,
            {
                assert(extends.children@.take(k + 1).drop_last() =~= extends.children@.take(
                    k as int,
                ));
                let heritage = &extends.children[k];
                let ghost before = fix@;
                let ghost hs = heritage_edits(extends.children@.take(k as int), body.end as int);
                assert(extends.children@.take(k + 1).last() == extends.children@[k as int]);
                if heritage.named {
                    let text = concat(" & ", heritage.text.as_str());
                    fix.push(TextEdit { start: body.end, end: body.end, replacement: text });
                    assert(edits_view(fix@) =~= edits_view(before).push(
                        (body.end as int, body.end as int, " & "@ + heritage.text@),
                    ));
                    assert(first + hs.push((body.end as int, body.end as int, " & "@ + heritage.text@))
                        =~= (first + hs).push((body.end as int, body.end as int, " & "@ + heritage.text@)));
                } else {
                    assert(hs + Seq::<(int, int, Seq<char>)>::empty() =~= hs);
                }
                assert(edits_view(fix@) =~= first + heritage_edits(
                    extends.children@.take(k + 1),
                    body.end as int,
                ));
                k = k + 1;
            }
            assert(extends.children@.take(extends.children@.len() as int) =~= extends.children@);
            assert(edits_view(fix@) == first + extends_edits(*node, body.end as int));
        },
        None => {
            assert(edits_view(fix@) =~= first + Seq::<(int, int, Seq<char>)>::empty());
            assert(edits_view(fix@) == first + extends_edits(*node, body.end as int));
        },
    }
    let ghost middle = edits_view(fix@);
    match export_default_parent {
        Some(p) => {
            fix.push(TextEdit { start: p.start, end: node.start, replacement: String::from_str("") });
            let text = concat("\nexport default ", name.text.as_str());
            fix.push(TextEdit { start: body.end, end: body.end, replacement: text });
            assert(edits_view(fix@) =~= middle + seq![
                (p.start as int, node.start as int, ""@),
                (body.end as int, body.end as int, "\nexport default "@ + name.text@),
            ]);
        },
        None => {
            assert(edits_view(fix@) =~= middle + Seq::<(int, int, Seq<char>)>::empty());
        },
    }
    assert(edits_view(fix@) =~= type_fix(*node, ancestors@, token_before_name, export_default_parent));
    Some(
        TypeDefinitionViolation {
            start: name.start,
            end: name.end,
            message_id: TypeDefinitionMessage::TypeOverInterface,
            fix,
        },
    )
}

/// The rule: a type alias whose value is an object type is checked under
/// `interface`, an interface declaration under `type`; any other node is left
/// alone. The extra arguments are what the checks read around the node: its
/// ancestors, the tokens before its name and after its value, and its
/// `export default` parent.
pub fn consistent_type_definitions_rule(
    option: Options,
    node: &SyntaxNode,
    ancestors: &Vec<SyntaxNode>,
    token_before_name: Option<TokenInfo>,
    token_after_value: Option<TokenInfo>,
    export_default_parent: Option<ExportDefaultParent>,
) -> (r: Option<TypeDefinitionViolation>)
    requires
        node.kind == NodeKind::TypeAliasDeclaration || node.kind == NodeKind::InterfaceDeclaration
            ==> has_field(*node, Field::Name),
        node.kind == NodeKind::InterfaceDeclaration ==> has_field(*node, Field::Body),
        forall|i: int|
            0 <= i < ancestors@.len() && ancestors@[i].kind == NodeKind::AmbientDeclaration
                ==> ancestors@[i].children@.len() >= 2,
    ensures
        node.kind == NodeKind::TypeAliasDeclaration && has_field(*node, Field::Value) && field_node(
            *node,
            Field::Value,
        ).kind == NodeKind::ObjectType ==> type_alias_outcome(
            option,
            *node,
            token_before_name,
            token_after_value,
            r,
        ),
        node.kind == NodeKind::InterfaceDeclaration ==> interface_outcome(
            option,
            *node,
            ancestors@,
            token_before_name,
            export_default_parent,
            r,
        ),
        !(node.kind == NodeKind::TypeAliasDeclaration && has_field(*node, Field::Value)
            && field_node(*node, Field::Value).kind == NodeKind::ObjectType) && node.kind
            != NodeKind::InterfaceDeclaration ==> r is None,
{
    match node.kind {
        NodeKind::TypeAliasDeclaration => {
            let vi = match find_field(&node.children, Field::Value) {
                Some(vi) => vi,
                None => return None,
            };
            if node.children[vi].kind != NodeKind::ObjectType {
                return None;
            }
            check_type_alias(option, node, token_before_name, token_after_value)
        },
        NodeKind::InterfaceDeclaration => check_interface(
            option,
            node,
            ancestors,
            token_before_name,
            export_default_parent,
        ),
        _ => None,
    }
}

/// The declaration style asked for is never reported: under `interface` no
/// interface declaration, under `type` no type alias.
pub proof fn requested_declaration_style_is_not_reported(
    option: Options,
    node: SyntaxNode,
    ancestors: Seq<SyntaxNode>,
    token_before_name: Option<TokenInfo>,
    token_after_value: Option<TokenInfo>,
    export_default_parent: Option<ExportDefaultParent>,
    r1: Option<TypeDefinitionViolation>,
    r2: Option<TypeDefinitionViolation>,
)
    requires
        interface_outcome(option, node, ancestors, token_before_name, export_default_parent, r1),
        type_alias_outcome(option, node, token_before_name, token_after_value, r2),
    ensures
        option == Options::Interface ==> r1 is None,
        option == Options::Type ==> r2 is None,
{
}

/// Every report of an interface under `type` is made, but inside a
/// `declare global` block it comes without a fix.
pub proof fn interfaces_in_global_declarations_get_no_fix(
    node: SyntaxNode,
    ancestors: Seq<SyntaxNode>,
    token_before_name: Option<TokenInfo>,
    export_default_parent: Option<ExportDefaultParent>,
    r: Option<TypeDefinitionViolation>,
)
    requires
        interface_outcome(Options::Type, node, ancestors, token_before_name, export_default_parent, r),
        within_global_declaration(ancestors),
    ensures
        r matches Some(v) && v.fix@.len() == 0,
{
    let v = r->0;
    assert(edits_view(v.fix@).len() == v.fix@.len());
}

} // verus!
