//! A plain-value model of the syntax tree nodes that the rules read.
//!
//! Each node records its grammar kind, the field under which it hangs in its
//! parent, whether it is a named node, its source text and byte range, and its
//! children in order (comments are not part of the children).
use vstd::prelude::*;

verus! {

/// The grammar kinds that the rules tell apart.
#[derive(Clone, Copy, Debug, PartialEq, Eq, Structural)]
pub enum NodeKind {
    Identifier,
    PropertyIdentifier,
    PrivatePropertyIdentifier,
    TypeIdentifier,
    NestedTypeIdentifier,
    PredefinedType,
    ArrayType,
    ThisType,
    LiteralType,
    Undefined,
    Null,
    GenericType,
    TypeArguments,
    UnionType,
    FunctionType,
    IntersectionType,
    InferType,
    ConstructorType,
    ReadonlyType,
    ParenthesizedType,
    TupleType,
    ObjectType,
    InterfaceDeclaration,
    TypeAliasDeclaration,
    IndexSignature,
    MappedTypeClause,
    TypeParameter,
    TypeParameters,
    Class,
    ClassDeclaration,
    ClassHeritage,
    ClassBody,
    ImplementsClause,
    ExtendsTypeClause,
    OverrideModifier,
    AccessibilityModifier,
    AmbientDeclaration,
    MethodSignature,
    AbstractMethodSignature,
    MethodDefinition,
    PropertySignature,
    PublicFieldDefinition,
    CallSignature,
    ConstructSignature,
    FunctionSignature,
    FunctionDeclaration,
    ExportStatement,
    StatementBlock,
    Program,
    ComputedPropertyName,
    NewExpression,
    CallExpression,
    VariableDeclarator,
    RequiredParameter,
    OptionalParameter,
    RestPattern,
    TemplateString,
    String,
    Number,
    ReturnStatement,
    TypeAnnotation,
    StaticKeyword,
    ReadonlyKeyword,
    DeclareKeyword,
    GlobalKeyword,
    CloseBracket,
    Semicolon,
    Other,
}

/// The field names under which the rules look up children.
#[derive(Clone, Copy, Debug, PartialEq, Eq, Structural)]
pub enum Field {
    Name,
    Body,
    Value,
    Type,
    Pattern,
    Declaration,
    TypeArguments,
    TypeParameters,
    Arguments,
    Constructor,
    Parameters,
    IndexType,
    Other,
}

/// A node of the syntax tree.
pub struct SyntaxNode {
    pub kind: NodeKind,
    pub field: Option<Field>,
    pub named: bool,
    pub text: String,
    pub start: usize,
    pub end: usize,
    pub children: Vec<SyntaxNode>,
}

/// What a rule reads of a node's parent: its kind and its byte range.
#[derive(Copy, Clone, Debug, PartialEq, Eq, Structural)]
pub struct ParentInfo {
    pub kind: NodeKind,
    pub start: usize,
    pub end: usize,
}

/// A token next to a node: its kind and its byte range.
#[derive(Copy, Clone, Debug, PartialEq, Eq, Structural)]
pub struct TokenInfo {
    pub kind: NodeKind,
    pub start: usize,
    pub end: usize,
}

/// `i` is the index of the first child of kind `k`.
pub open spec fn is_first_of_kind(s: Seq<SyntaxNode>, k: NodeKind, i: int) -> bool {
    &&& 0 <= i < s.len()
    &&& s[i].kind == k
    &&& forall|j: int| 0 <= j < i ==> s[j].kind != k
}

/// Finds the first child of kind `k`.
pub fn find_kind(children: &Vec<SyntaxNode>, k: NodeKind) -> (r: Option<usize>)
    ensures
        match r {
            Some(i) => is_first_of_kind(children@, k, i as int),
            None => forall|j: int| 0 <= j < children@.len() ==> children@[j].kind != k,
        },
{
    let mut i: usize = 0;
    while i < children.len()
        invariant
            0 <= i <= children@.len(),
            forall|j: int| 0 <= j < i ==> children@[j].kind != k,
        decreases children.len() - i,
    {
        if children[i].kind == k {
            return Some(i);
        }
        i = i + 1;
    }
    None
}

/// `i` is the index of the first child that hangs under field `f`.
pub open spec fn is_first_with_field(s: Seq<SyntaxNode>, f: Field, i: int) -> bool {
    &&& 0 <= i < s.len()
    &&& s[i].field == Some(f)
    &&& forall|j: int| 0 <= j < i ==> s[j].field != Some(f)
}

/// `i` is the index of the first named child.
pub open spec fn is_first_named(s: Seq<SyntaxNode>, i: int) -> bool {
    &&& 0 <= i < s.len()
    &&& s[i].named
    &&& forall|j: int| 0 <= j < i ==> !s[j].named
}

/// The number of children that come before the first child under field `f`
/// (all of them when no child hangs under `f`).
pub open spec fn prefix_len_before_field(s: Seq<SyntaxNode>, f: Field) -> int {
    if exists|i: int| is_first_with_field(s, f, i) {
        choose|i: int| is_first_with_field(s, f, i)
    } else {
        s.len() as int
    }
}

/// The child under field `f`, if any (the first one).
pub open spec fn field_child(n: SyntaxNode, f: Field) -> Option<SyntaxNode> {
    if exists|i: int| is_first_with_field(n.children@, f, i) {
        Some(n.children@[choose|i: int| is_first_with_field(n.children@, f, i)])
    } else {
        None
    }
}

/// The first named child, if any.
pub open spec fn first_named_child(n: SyntaxNode) -> Option<SyntaxNode> {
    if exists|i: int| is_first_named(n.children@, i) {
        Some(n.children@[choose|i: int| is_first_named(n.children@, i)])
    } else {
        None
    }
}

/// The number of named children.
pub open spec fn named_count(s: Seq<SyntaxNode>) -> nat
    decreases s.len(),
{
    if s.len() == 0 {
        0
    } else {
        named_count(s.drop_last()) + if s.last().named {
            1nat
        } else {
            0nat
        }
    }
}

/// The first child index is unique.
pub proof fn lemma_first_with_field_unique(s: Seq<SyntaxNode>, f: Field, i: int, j: int)
    requires
        is_first_with_field(s, f, i),
        is_first_with_field(s, f, j),
    ensures
        i == j,
{
}

/// The first named index is unique.
pub proof fn lemma_first_named_unique(s: Seq<SyntaxNode>, i: int, j: int)
    requires
        is_first_named(s, i),
        is_first_named(s, j),
    ensures
        i == j,
{
}

/// No child is named exactly when the count of named children is zero.
pub proof fn lemma_named_count_zero(s: Seq<SyntaxNode>)
    ensures
        (named_count(s) == 0) == (forall|i: int| 0 <= i < s.len() ==> !s[i].named),
    decreases s.len(),
{
    if s.len() > 0 {
        lemma_named_count_zero(s.drop_last());
        if named_count(s) == 0 {
            assert forall|i: int| 0 <= i < s.len() implies !s[i].named by {
                if i < s.len() - 1 {
                    assert(s.drop_last()[i] == s[i]);
                }
            }
        } else if !s.last().named {
            let i = choose|i: int| 0 <= i < s.drop_last().len() && s.drop_last()[i].named;
            assert(s[i] == s.drop_last()[i]);
        }
    }
}

/// The named children are as many as the named count says.
pub proof fn lemma_named_count_filter(s: Seq<SyntaxNode>)
    ensures
        named_count(s) == s.filter(|c: SyntaxNode| c.named).len(),
    decreases s.len(),
{
    reveal_with_fuel(Seq::filter, 1);
    if s.len() > 0 {
        lemma_named_count_filter(s.drop_last());
    }
}

/// Finds the first child under field `f`.
pub fn find_field(children: &Vec<SyntaxNode>, f: Field) -> (r: Option<usize>)
    ensures
        match r {
            Some(i) => is_first_with_field(children@, f, i as int),
            None => forall|j: int| 0 <= j < children@.len() ==> children@[j].field != Some(f),
        },
        r is Some <==> exists|i: int| is_first_with_field(children@, f, i),
        r matches Some(i) ==> (choose|k: int| is_first_with_field(children@, f, k)) == i,
        prefix_len_before_field(children@, f) == match r {
            Some(i) => i as int,
            None => children@.len() as int,
        },
{
    let mut i: usize = 0;
    while i < children.len()
        invariant
            0 <= i <= children@.len(),
            forall|j: int| 0 <= j < i ==> children@[j].field != Some(f),
        decreases children.len() - i,
    {
        if children[i].field == Some(f) {
            proof {
                let k = choose|k: int| is_first_with_field(children@, f, k);
                assert(is_first_with_field(children@, f, i as int));
                lemma_first_with_field_unique(children@, f, k, i as int);
            }
            return Some(i);
        }
        i = i + 1;
    }
    None
}

/// Finds the first named child.
pub fn find_first_named(children: &Vec<SyntaxNode>) -> (r: Option<usize>)
    ensures
        match r {
            Some(i) => is_first_named(children@, i as int),
            None => forall|j: int| 0 <= j < children@.len() ==> !children@[j].named,
        },
        r is Some <==> exists|i: int| is_first_named(children@, i),
        r matches Some(i) ==> (choose|k: int| is_first_named(children@, k)) == i,
{
    let mut i: usize = 0;
    while i < children.len()
        invariant
            0 <= i <= children@.len(),
            forall|j: int| 0 <= j < i ==> !children@[j].named,
        decreases children.len() - i,
    {
        if children[i].named {
            proof {
                let k = choose|k: int| is_first_named(children@, k);
                assert(is_first_named(children@, i as int));
                lemma_first_named_unique(children@, k, i as int);
            }
            return Some(i);
        }
        i = i + 1;
    }
    None
}

/// Counts the named children.
pub fn count_named(children: &Vec<SyntaxNode>) -> (r: usize)
    ensures
        r == named_count(children@),
{
    let mut i: usize = 0;
    let mut n: usize = 0;
    while i < children.len()
        invariant
            0 <= i <= children@.len(),
            n == named_count(children@.take(i as int)),
            n <= i,
        decreases children.len() - i,
    {
        assert(children@.take(i + 1).drop_last() =~= children@.take(i as int));
        if children[i].named {
            n = n + 1;
        }
        i = i + 1;
    }
    assert(children@.take(children@.len() as int) =~= children@);
    n
}

} // verus!
