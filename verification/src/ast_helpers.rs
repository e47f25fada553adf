//! Questions about TypeScript syntax nodes that several rules ask.
use vstd::prelude::*;

use crate::syntax::{find_first_named, first_named_child, is_first_named, Field, NodeKind, SyntaxNode};

verus! {

/// Child `i` comes before the first child under field `f`.
pub open spec fn before_field(s: Seq<SyntaxNode>, f: Field, i: int) -> bool {
    forall|j: int| 0 <= j <= i ==> s[j].field != Some(f)
}

/// Child `i` comes before the first named child under field `f`.
pub open spec fn before_named_field(s: Seq<SyntaxNode>, f: Field, i: int) -> bool {
    forall|j: int| 0 <= j <= i ==> !(s[j].named && s[j].field == Some(f))
}

/// Child `i` comes before the first child of kind `k`.
pub open spec fn before_kind(s: Seq<SyntaxNode>, k: NodeKind, i: int) -> bool {
    forall|j: int| 0 <= j <= i ==> s[j].kind != k
}

/// A `static` keyword stands among the children before the name.
pub open spec fn spec_is_member_static(n: SyntaxNode) -> bool {
    exists|i: int|
        0 <= i < n.children@.len() && n.children@[i].kind == NodeKind::StaticKeyword
            && before_field(n.children@, Field::Name, i)
}

/// Whether a method definition or method signature is static.
pub fn get_is_member_static(node: &SyntaxNode) -> (r: bool)
    requires
        node.kind == NodeKind::MethodDefinition || node.kind == NodeKind::MethodSignature,
    ensures
        r == spec_is_member_static(*node),
{
    let s = &node.children;
    let mut i: usize = 0;
    while i < s.len()
        invariant
            0 <= i <= s@.len(),
            s@ == node.children@,
            before_field(s@, Field::Name, i - 1),
            forall|j: int| 0 <= j < i ==> s@[j].kind != NodeKind::StaticKeyword,
        decreases s.len() - i,
    {
        if s[i].field == Some(Field::Name) {
            assert forall|k: int|
                0 <= k < s@.len() && s@[k].kind == NodeKind::StaticKeyword implies !before_field(
                s@,
                Field::Name,
                k,
            ) by {
                if k >= i {
                    assert(s@[i as int].field == Some(Field::Name));
                }
            }
            return false;
        }
        if s[i].kind == NodeKind::StaticKeyword {
            assert(before_field(s@, Field::Name, i as int));
            return true;
        }
        i = i + 1;
    }
    false
}

/// The first named child is an index signature holding a mapping clause
/// before its closing bracket.
pub open spec fn spec_is_mapped_type(n: SyntaxNode) -> bool {
    &&& n.kind == NodeKind::ObjectType
    &&& first_named_child(n) is Some
    &&& first_named_child(n)->0.kind == NodeKind::IndexSignature
    &&& exists|i: int|
        0 <= i < first_named_child(n)->0.children@.len()
            && first_named_child(n)->0.children@[i].kind == NodeKind::MappedTypeClause
            && before_kind(first_named_child(n)->0.children@, NodeKind::CloseBracket, i)
}

/// Whether an object type is in fact a mapped type (`{ [K in T]: U }`).
pub fn is_mapped_type(node: &SyntaxNode) -> (r: bool)
    ensures
        r == spec_is_mapped_type(*node),
{
    if node.kind != NodeKind::ObjectType {
        return false;
    }
    let first = find_first_named(&node.children);
    match first {
        None => false,
        Some(f) => {
            let child = &node.children[f];
            if child.kind != NodeKind::IndexSignature {
                return false;
            }
            let s = &child.children;
            let mut i: usize = 0;
            while i < s.len()
                invariant
                    0 <= i <= s@.len(),
                    s@ == node.children@[f as int].children@,
                    is_first_named(node.children@, f as int),
                    node.kind == NodeKind::ObjectType,
                    child.kind == NodeKind::IndexSignature,
                    child == node.children@[f as int],
                    before_kind(s@, NodeKind::CloseBracket, i - 1),
                    forall|j: int| 0 <= j < i ==> s@[j].kind != NodeKind::MappedTypeClause,
                decreases s.len() - i,
            {
                if s[i].kind == NodeKind::CloseBracket {
                    assert forall|k: int|
                        0 <= k < s@.len() && s@[k].kind == NodeKind::MappedTypeClause implies !before_kind(
                        s@,
                        NodeKind::CloseBracket,
                        k,
                    ) by {
                        if k >= i {
                            assert(s@[i as int].kind == NodeKind::CloseBracket);
                        }
                    }
                    return false;
                }
                if s[i].kind == NodeKind::MappedTypeClause {
                    assert(before_kind(s@, NodeKind::CloseBracket, i as int));
                    return true;
                }
                i = i + 1;
            }
            false
        },
    }
}

/// An object type that is neither an interface body nor a mapped type.
pub open spec fn spec_is_type_literal(n: SyntaxNode, parent_kind: Option<NodeKind>) -> bool {
    &&& n.kind == NodeKind::ObjectType
    &&& !(parent_kind == Some(NodeKind::InterfaceDeclaration) && n.field == Some(Field::Body))
    &&& !spec_is_mapped_type(n)
}

/// Whether a node is a type literal (`{ ... }` written as a type).
pub fn get_is_type_literal(node: &SyntaxNode, parent_kind: Option<NodeKind>) -> (r: bool)
    ensures
        r == spec_is_type_literal(*node, parent_kind),
{
    if node.kind != NodeKind::ObjectType {
        return false;
    }
    if parent_kind == Some(NodeKind::InterfaceDeclaration) && node.field == Some(Field::Body) {
        return false;
    }
    if is_mapped_type(node) {
        return false;
    }
    true
}

/// Whether a type identifier refers to a type (rather than naming a nested
/// namespace member or declaring a type parameter).
pub fn get_is_type_reference(node: &SyntaxNode, parent_kind: Option<NodeKind>) -> (r: bool)
    requires
        node.kind == NodeKind::TypeIdentifier,
    ensures
        r == !(parent_kind == Some(NodeKind::NestedTypeIdentifier) || parent_kind == Some(
            NodeKind::TypeParameter,
        )),
{
    !(parent_kind == Some(NodeKind::NestedTypeIdentifier) || parent_kind == Some(
        NodeKind::TypeParameter,
    ))
}

/// Child `i` is the class heritage clause: the first named child of that kind
/// among the named children before the body.
pub open spec fn is_heritage_at(s: Seq<SyntaxNode>, i: int) -> bool {
    &&& 0 <= i < s.len()
    &&& s[i].named && s[i].kind == NodeKind::ClassHeritage
    &&& before_named_field(s, Field::Body, i)
    &&& forall|j: int| 0 <= j < i ==> !(s[j].named && s[j].kind == NodeKind::ClassHeritage)
}

/// The index of a class's heritage clause (`extends ...`/`implements ...`).
pub fn get_class_heritage(node: &SyntaxNode) -> (r: Option<usize>)
    requires
        node.kind == NodeKind::Class || node.kind == NodeKind::ClassDeclaration,
    ensures
        match r {
            Some(i) => is_heritage_at(node.children@, i as int),
            None => forall|i: int| !is_heritage_at(node.children@, i),
        },
{
    let s = &node.children;
    let mut i: usize = 0;
    while i < s.len()
        invariant
            0 <= i <= s@.len(),
            s@ == node.children@,
            before_named_field(s@, Field::Body, i - 1),
            forall|j: int| 0 <= j < i ==> !(s@[j].named && s@[j].kind == NodeKind::ClassHeritage),
        decreases s.len() - i,
    {
        if s[i].named && s[i].field == Some(Field::Body) {
            assert forall|k: int| !is_heritage_at(s@, k) by {
                if 0 <= k < s@.len() && k >= i {
                    assert(s@[i as int].named && s@[i as int].field == Some(Field::Body));
                }
            }
            return None;
        }
        if s[i].named && s[i].kind == NodeKind::ClassHeritage {
            return Some(i);
        }
        i = i + 1;
    }
    None
}

/// The class has a heritage clause with an `implements` clause in it.
pub open spec fn spec_has_implements_clause(n: SyntaxNode) -> bool {
    exists|i: int|
        is_heritage_at(n.children@, i) && exists|k: int|
            0 <= k < n.children@[i].children@.len() && n.children@[i].children@[k].kind
                == NodeKind::ImplementsClause
}

/// Whether a class declares `implements ...`.
pub fn get_class_has_implements_clause(node: &SyntaxNode) -> (r: bool)
    requires
        node.kind == NodeKind::Class || node.kind == NodeKind::ClassDeclaration,
    ensures
        r == spec_has_implements_clause(*node),
{
    match get_class_heritage(node) {
        None => false,
        Some(h) => {
            let s = &node.children[h].children;
            let mut k: usize = 0;
            while k < s.len()
                invariant
                    0 <= k <= s@.len(),
                    s@ == node.children@[h as int].children@,
                    is_heritage_at(node.children@, h as int),
                    forall|j: int| 0 <= j < k ==> s@[j].kind != NodeKind::ImplementsClause,
                decreases s.len() - k,
            {
                if s[k].kind == NodeKind::ImplementsClause {
                    return true;
                }
                k = k + 1;
            }
            assert forall|i: int| is_heritage_at(node.children@, i) implies !(exists|k: int|
                0 <= k < node.children@[i].children@.len() && node.children@[i].children@[k].kind
                    == NodeKind::ImplementsClause) by {
                if i < h {
                    assert(!(node.children@[i].named && node.children@[i].kind == NodeKind::ClassHeritage));
                } else if i > h {
                    assert(!(node.children@[h as int].named && node.children@[h as int].kind == NodeKind::ClassHeritage));
                }
            }
            false
        },
    }
}

/// An `override` modifier stands among the named children before the name.
pub open spec fn spec_has_override_modifier(n: SyntaxNode) -> bool {
    exists|i: int|
        0 <= i < n.children@.len() && n.children@[i].named && n.children@[i].kind
            == NodeKind::OverrideModifier && before_named_field(n.children@, Field::Name, i)
}

/// Whether a member carries the `override` modifier.
pub fn get_has_override_modifier(node: &SyntaxNode) -> (r: bool)
    requires
        node.kind == NodeKind::MethodDefinition || node.kind == NodeKind::PropertySignature
            || node.kind == NodeKind::PublicFieldDefinition || node.kind == NodeKind::MethodSignature,
    ensures
        r == spec_has_override_modifier(*node),
{
    let s = &node.children;
    let mut i: usize = 0;
    while i < s.len()
        invariant
            0 <= i <= s@.len(),
            s@ == node.children@,
            before_named_field(s@, Field::Name, i - 1),
            forall|j: int| 0 <= j < i ==> !(s@[j].named && s@[j].kind == NodeKind::OverrideModifier),
        decreases s.len() - i,
    {
        if s[i].named && s[i].field == Some(Field::Name) {
            assert forall|k: int|
                0 <= k < s@.len() && s@[k].named && s@[k].kind == NodeKind::OverrideModifier
                    implies !before_named_field(s@, Field::Name, k) by {
                if k >= i {
                    assert(s@[i as int].named && s@[i as int].field == Some(Field::Name));
                }
            }
            return false;
        }
        if s[i].named && s[i].kind == NodeKind::OverrideModifier {
            assert(before_named_field(s@, Field::Name, i as int));
            return true;
        }
        i = i + 1;
    }
    false
}

/// Child `i` is the member's accessibility modifier: the first named child of
/// that kind among the named children before the name.
pub open spec fn is_accessibility_at(s: Seq<SyntaxNode>, i: int) -> bool {
    &&& 0 <= i < s.len()
    &&& s[i].named && s[i].kind == NodeKind::AccessibilityModifier
    &&& before_named_field(s, Field::Name, i)
    &&& forall|j: int| 0 <= j < i ==> !(s[j].named && s[j].kind == NodeKind::AccessibilityModifier)
}

/// The accessibility modifier index is unique.
pub proof fn lemma_accessibility_unique(s: Seq<SyntaxNode>, i: int, j: int)
    requires
        is_accessibility_at(s, i),
        is_accessibility_at(s, j),
    ensures
        i == j,
{
}

/// The index of a member's accessibility modifier (`public`, `private`, ...).
pub fn get_accessibility_modifier(node: &SyntaxNode) -> (r: Option<usize>)
    requires
        node.kind == NodeKind::PublicFieldDefinition || node.kind == NodeKind::MethodSignature
            || node.kind == NodeKind::AbstractMethodSignature || node.kind
            == NodeKind::MethodDefinition || node.kind == NodeKind::PropertySignature,
    ensures
        match r {
            Some(i) => is_accessibility_at(node.children@, i as int),
            None => forall|i: int| !is_accessibility_at(node.children@, i),
        },
{
    let s = &node.children;
    let mut i: usize = 0;
    while i < s.len()
        invariant
            0 <= i <= s@.len(),
            s@ == node.children@,
            before_named_field(s@, Field::Name, i - 1),
            forall|j: int|
                0 <= j < i ==> !(s@[j].named && s@[j].kind == NodeKind::AccessibilityModifier),
        decreases s.len() - i,
    {
        if s[i].named && s[i].field == Some(Field::Name) {
            assert forall|k: int| !is_accessibility_at(s@, k) by {
                if 0 <= k < s@.len() && k >= i {
                    assert(s@[i as int].named && s@[i as int].field == Some(Field::Name));
                }
            }
            return None;
        }
        if s[i].named && s[i].kind == NodeKind::AccessibilityModifier {
            return Some(i);
        }
        i = i + 1;
    }
    None
}

/// Whether a node is an index signature (that is not a mapped type).
pub fn get_is_index_signature(node: &SyntaxNode) -> (r: bool)
    ensures
        r == (node.kind == NodeKind::IndexSignature && !spec_is_mapped_type(*node)),
{
    if node.kind != NodeKind::IndexSignature {
        return false;
    }
    !is_mapped_type(node)
}

/// Whether a node is a `declare global { ... }` block.
pub fn get_is_global_ambient_declaration(node: &SyntaxNode) -> (r: bool)
    requires
        node.kind == NodeKind::AmbientDeclaration ==> node.children@.len() >= 2,
    ensures
        r == (node.kind == NodeKind::AmbientDeclaration && node.children@[1].kind
            == NodeKind::GlobalKeyword),
{
    node.kind == NodeKind::AmbientDeclaration && node.children[1].kind == NodeKind::GlobalKeyword
}

} // verus!
