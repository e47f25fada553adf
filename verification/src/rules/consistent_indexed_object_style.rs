//! `consistent-indexed-object-style`: an object type with a single index
//! signature is written either as `Record<K, V>` or as `{ [key: K]: V }`,
//! consistently.
use vstd::prelude::*;

use crate::ast_helpers::{get_is_type_literal, spec_is_type_literal};
use crate::report::{edit_is, TextEdit};
use crate::rules::array_type::{field_index, field_node, first_named_node};
use crate::rules::consistent_generic_constructors::has_field;
use crate::syntax::{
    count_named, find_field, find_first_named, find_kind, is_first_named, is_first_of_kind,
    named_count, Field, NodeKind, SyntaxNode,
};
use crate::text::{concat, str_is};

verus! {

/// Which way of writing is wanted.
#[derive(Copy, Clone, Debug, PartialEq, Eq, Structural)]
pub enum Options {
    Record,
    IndexSignature,
}

/// The default is `record`.
pub fn default_options() -> (r: Options)
    ensures
        r == Options::Record,
{
    Options::Record
}

/// The messages of the rule.
#[derive(Copy, Clone, Debug, PartialEq, Eq, Structural)]
pub enum IndexedObjectMessage {
    PreferRecord,
    PreferIndexSignature,
}

/// A report: the node, the message and the fix, when one is safe.
pub struct IndexedObjectViolation {
    pub start: usize,
    pub end: usize,
    pub message_id: IndexedObjectMessage,
    pub fix: Option<TextEdit>,
}

/// Some type identifier inside the node names `name`; the names of members
/// of a namespace (`A.Foo`) do not count.
pub open spec fn refers_to_type(n: SyntaxNode, name: Seq<char>) -> bool
    decreases n, 1int,
{
    if n.kind == NodeKind::TypeIdentifier {
        n.text@ == name
    } else if n.kind == NodeKind::NestedTypeIdentifier {
        false
    } else {
        proof {
            assert(decreases_to!(n => n.children@));
        }
        children_refer_to_type(n.children@, name)
    }
}

/// Some node of the list refers to `name`.
pub open spec fn children_refer_to_type(s: Seq<SyntaxNode>, name: Seq<char>) -> bool
    decreases s, 0int,
{
    if s.len() == 0 {
        false
    } else {
        proof {
            assert(decreases_to!(s => s[s.len() - 1]));
            assert(decreases_to!(s => s.subrange(0, s.len() - 1)));
        }
        refers_to_type(s[s.len() - 1], name) || children_refer_to_type(s.subrange(0, s.len() - 1), name)
    }
}

/// Whether some type identifier inside the node names `name`.
pub fn mentions_type(node: &SyntaxNode, name: &str) -> (r: bool)
    ensures
        r == refers_to_type(*node, name@),
    decreases node,
{
    if node.kind == NodeKind::TypeIdentifier {
        return str_is(node.text.as_str(), name);
    }
    if node.kind == NodeKind::NestedTypeIdentifier {
        return false;
    }
    let s = &node.children;
    let mut i: usize = 0;
    while i < s.len()
        invariant
            0 <= i <= s@.len(),
            s@ == node.children@,
            node.kind != NodeKind::TypeIdentifier,
            node.kind != NodeKind::NestedTypeIdentifier,
            !children_refer_to_type(s@.subrange(0, i as int), name@),
        decreases s.len() - i,
    {
        assert(s@.subrange(0, i + 1).subrange(0, i as int) =~= s@.subrange(0, i as int));
        assert(s@.subrange(0, i + 1)[i as int] == s@[i as int]);
        if mentions_type(&s[i], name) {
            proof {
                lemma_children_refer_prefix(s@, i + 1, name@);
            }
            return true;
        }
        i = i + 1;
    }
    assert(s@.subrange(0, s@.len() as int) =~= s@);
    false
}

/// A reference among the first `k` nodes is a reference in the whole list.
proof fn lemma_children_refer_prefix(s: Seq<SyntaxNode>, k: int, name: Seq<char>)
    requires
        0 <= k <= s.len(),
        children_refer_to_type(s.subrange(0, k), name),
    ensures
        children_refer_to_type(s, name),
    decreases s.len() - k,
{
    if k < s.len() {
        assert(s.subrange(0, k + 1).subrange(0, k) =~= s.subrange(0, k));
        lemma_children_refer_prefix(s, k + 1, name);
    } else {
        assert(s.subrange(0, k) =~= s);
    }
}

/// Where references to the declared name are looked for: in the node itself,
/// or (for a declaration, whose own name is no reference) in its children but
/// child `skip`.
pub open spec fn refers_in(node: SyntaxNode, skip: Option<int>, name: Seq<char>) -> bool {
    match skip {
        None => refers_to_type(node, name),
        Some(k) => exists|j: int|
            0 <= j < node.children@.len() && j != k && refers_to_type(#[trigger] node.children@[j], name),
    }
}

/// Whether the node (or its children but one) refers to `name`.
fn mentions_in(node: &SyntaxNode, skip: Option<usize>, name: &str) -> (r: bool)
    ensures
        r == refers_in(
            *node,
            match skip {
                Some(k) => Some(k as int),
                None => None,
            },
            name@,
        ),
{
    if skip.is_none() {
        return mentions_type(node, name);
    }
    let k = skip.unwrap();
    let s = &node.children;
    let mut i: usize = 0;
    while i < s.len()
        invariant
            0 <= i <= s@.len(),
            s@ == node.children@,
            skip == Some(k),
            forall|j: int| 0 <= j < i && j != k ==> !refers_to_type(#[trigger] s@[j], name@),
        decreases s.len() - i,
    {
        if i != k {
            if mentions_type(&s[i], name) {
                assert(refers_to_type(node.children@[i as int], name@));
                return true;
            }
        }
        i = i + 1;
    }
    false
}

/// The name declared by the type alias that a type literal belongs to: the
/// ancestors (parent first) are walked up to the first type alias
/// declaration, and the walk stops at a type annotation.
pub open spec fn parent_declaration_name(ancestors: Seq<SyntaxNode>) -> Option<Seq<char>>
    decreases ancestors.len(),
{
    if ancestors.len() == 0 {
        None
    } else if ancestors[0].kind == NodeKind::TypeAnnotation {
        None
    } else if ancestors[0].kind == NodeKind::TypeAliasDeclaration {
        Some(field_node(ancestors[0], Field::Name).text@)
    } else {
        parent_declaration_name(ancestors.drop_first())
    }
}

/// Type alias declarations among the ancestors have a name.
pub open spec fn ancestors_wf(ancestors: Seq<SyntaxNode>) -> bool {
    forall|i: int|
        0 <= i < ancestors.len() && ancestors[i].kind == NodeKind::TypeAliasDeclaration ==> has_field(
            #[trigger] ancestors[i],
            Field::Name,
        )
}

/// Finds the name declared by the enclosing type alias.
fn find_parent_declaration(ancestors: &Vec<SyntaxNode>) -> (r: Option<&String>)
    requires
        ancestors_wf(ancestors@),
    ensures
        match r {
            Some(n) => parent_declaration_name(ancestors@) == Some(n@),
            None => parent_declaration_name(ancestors@) is None,
        },
{
    let mut i: usize = 0;
    assert(ancestors@.skip(0) =~= ancestors@);
    while i < ancestors.len()
        invariant
            0 <= i <= ancestors@.len(),
            ancestors_wf(ancestors@),
            parent_declaration_name(ancestors@) == parent_declaration_name(ancestors@.skip(i as int)),
        decreases ancestors.len() - i,
    {
        let a = &ancestors[i];
        assert(ancestors@.skip(i as int)[0] == ancestors@[i as int]);
        if a.kind == NodeKind::TypeAnnotation {
            return None;
        }
        if a.kind == NodeKind::TypeAliasDeclaration {
            let ni = find_field(&a.children, Field::Name).unwrap();
            return Some(&a.children[ni].text);
        }
        assert(ancestors@.skip(i as int).drop_first() =~= ancestors@.skip(i + 1));
        i = i + 1;
    }
    None
}

/// The members hold one index signature `[name: K]: V` whose name is an
/// identifier; it is child `m` of the container.
pub open spec fn sole_index_signature(container: SyntaxNode) -> bool {
    &&& named_count(container.children@) == 1
    &&& exists|i: int| is_first_named(container.children@, i)
    &&& first_named_node(container).kind == NodeKind::IndexSignature
    &&& has_field(first_named_node(container), Field::Name)
    &&& field_node(first_named_node(container), Field::Name).kind == NodeKind::Identifier
    &&& has_field(first_named_node(container), Field::IndexType)
    &&& has_field(first_named_node(container), Field::Type)
    &&& exists|i: int| is_first_named(field_node(first_named_node(container), Field::Type).children@, i)
}

/// The index signature is `readonly`.
pub open spec fn is_readonly_signature(m: SyntaxNode) -> bool {
    exists|i: int| is_first_of_kind(m.children@, NodeKind::ReadonlyKeyword, i)
}

/// `Record<K, V>`, wrapped in `Readonly<...>` for a readonly signature.
pub open spec fn record_text(m: SyntaxNode) -> Seq<char> {
    let key = field_node(m, Field::IndexType).text@;
    let value = first_named_node(field_node(m, Field::Type)).text@;
    let record = "Record<"@ + key + ", "@ + value + ">"@;
    if is_readonly_signature(m) {
        "Readonly<"@ + record + ">"@
    } else {
        record
    }
}

/// The outcome of checking the members of `container`, reported over `node`
/// and fixed (when `safe_fix`) by `prefix`, the record and `postfix`.
pub open spec fn members_outcome(
    container: SyntaxNode,
    node: SyntaxNode,
    parent_name: Option<Seq<char>>,
    skip: Option<int>,
    prefix: Seq<char>,
    postfix: Seq<char>,
    safe_fix: bool,
    r: Option<IndexedObjectViolation>,
) -> bool {
    if !sole_index_signature(container) || (parent_name matches Some(p) && refers_in(node, skip, p)) {
        r is None
    } else {
        r matches Some(v) && {
            &&& v.start == node.start && v.end == node.end
            &&& v.message_id == IndexedObjectMessage::PreferRecord
            &&& if safe_fix {
                v.fix matches Some(e) && edit_is(
                    e,
                    node.start as int,
                    node.end as int,
                    prefix + record_text(first_named_node(container)) + postfix,
                )
            } else {
                v.fix is None
            }
        }
    }
}

fn record_string(m: &SyntaxNode) -> (r: String)
    requires
        has_field(*m, Field::IndexType),
        has_field(*m, Field::Type),
        exists|i: int| is_first_named(field_node(*m, Field::Type).children@, i),
    ensures
        r@ == record_text(*m),
{
    let ki = find_field(&m.children, Field::IndexType).unwrap();
    let ti = find_field(&m.children, Field::Type).unwrap();
    let annotation = &m.children[ti];
    let vi = find_first_named(&annotation.children).unwrap();
    let a = concat("Record<", m.children[ki].text.as_str());
    let b = concat(a.as_str(), ", ");
    let c = concat(b.as_str(), annotation.children[vi].text.as_str());
    let record = concat(c.as_str(), ">");
    if find_kind(&m.children, NodeKind::ReadonlyKeyword).is_some() {
        let d = concat("Readonly<", record.as_str());
        concat(d.as_str(), ">")
    } else {
        record
    }
}

/// Checks the members of an object type or of an interface body.
fn check_members(
    container: &SyntaxNode,
    node: &SyntaxNode,
    parent_name: Option<&str>,
    skip: Option<usize>,
    prefix: &str,
    postfix: &str,
    safe_fix: bool,
) -> (r: Option<IndexedObjectViolation>)
    ensures
        members_outcome(
            *container,
            *node,
            match parent_name {
                Some(p) => Some(p@),
                None => None,
            },
            match skip {
                Some(k) => Some(k as int),
                None => None,
            },
            prefix@,
            postfix@,
            safe_fix,
            r,
        ),
{
    if count_named(&container.children) != 1 {
        return None;
    }
    let mi = match find_first_named(&container.children) {
        Some(mi) => mi,
        None => return None,
    };
    let member = &container.children[mi];
    if member.kind != NodeKind::IndexSignature {
        return None;
    }
    let pi = match find_field(&member.children, Field::Name) {
        Some(pi) => pi,
        None => return None,
    };
    if member.children[pi].kind != NodeKind::Identifier {
        return None;
    }
    if find_field(&member.children, Field::IndexType).is_none() {
        return None;
    }
    let ti = match find_field(&member.children, Field::Type) {
        Some(ti) => ti,
        None => return None,
    };
    if find_first_named(&member.children[ti].children).is_none() {
        return None;
    }
    match parent_name {
        Some(p) => if mentions_in(node, skip, p) {
            return None;
        },
        None => {},
    }
    let fix = if safe_fix {
        let record = record_string(member);
        let a = concat(prefix, record.as_str());
        Some(TextEdit { start: node.start, end: node.end, replacement: concat(a.as_str(), postfix) })
    } else {
        None
    };
    Some(
        IndexedObjectViolation {
            start: node.start,
            end: node.end,
            message_id: IndexedObjectMessage::PreferRecord,
            fix,
        },
    )
}

} // verus!

verus! {

/// The type parameters as written in a generic declaration: `<A, B = C>`,
/// the texts of the named parameters joined by `, `; nothing when there are
/// none.
pub open spec fn joined_texts(s: Seq<SyntaxNode>) -> Seq<char>
    decreases s.len(),
{
    if s.len() == 0 {
        Seq::empty()
    } else if !s.last().named {
        joined_texts(s.drop_last())
    } else if named_count(s.drop_last()) == 0 {
        s.last().text@
    } else {
        joined_texts(s.drop_last()) + ", "@ + s.last().text@
    }
}

/// `<...>` around the type parameters of an interface, or nothing.
pub open spec fn generic_types(node: SyntaxNode) -> Seq<char> {
    if has_field(node, Field::TypeParameters) && named_count(
        field_node(node, Field::TypeParameters).children@,
    ) > 0 {
        "<"@ + joined_texts(field_node(node, Field::TypeParameters).children@) + ">"@
    } else {
        Seq::empty()
    }
}

/// Joins the texts of the named nodes with `, `.
fn join_named_texts(s: &Vec<SyntaxNode>) -> (r: String)
    ensures
        r@ == joined_texts(s@),
{
    let mut r = String::from_str("");
    let mut seen: usize = 0;
    let mut i: usize = 0;
    proof {
        reveal_strlit("");
        assert(s@.subrange(0, 0) =~= Seq::<SyntaxNode>::empty());
    }
    while i < s.len()
        invariant
            0 <= i <= s@.len(),
            r@ == joined_texts(s@.subrange(0, i as int)),
            seen as int == named_count(s@.subrange(0, i as int)),
            seen <= i,
        decreases s.len() - i,
    {
        let ghost pre = s@.subrange(0, i as int);
        assert(s@.subrange(0, i + 1).drop_last() =~= pre);
        assert(s@.subrange(0, i + 1).last() == s@[i as int]);
        if s[i].named {
            if seen == 0 {
                r = s[i].text.clone();
            } else {
                let a = concat(r.as_str(), ", ");
                r = concat(a.as_str(), s[i].text.as_str());
                proof {
                    reveal_strlit(", ");
                }
            }
            seen = seen + 1;
        }
        i = i + 1;
    }
    assert(s@.subrange(0, s@.len() as int) =~= s@);
    r
}

/// The fix's prefix for an interface: `type Name<...> = `.
pub open spec fn interface_prefix(node: SyntaxNode) -> Seq<char> {
    "type "@ + field_node(node, Field::Name).text@ + generic_types(node) + " = "@
}

/// The outcome for a reference `Record<K, V>` under `index-signature`.
pub open spec fn record_reference_outcome(node: SyntaxNode, r: Option<IndexedObjectViolation>) -> bool {
    if node.kind == NodeKind::GenericType && has_field(node, Field::Name) && field_node(node, Field::Name).kind
        == NodeKind::TypeIdentifier && field_node(node, Field::Name).text@ == "Record"@ && has_field(
        node,
        Field::TypeArguments,
    ) && named_count(field_node(node, Field::TypeArguments).children@) == 2 {
        let args = field_node(node, Field::TypeArguments).children@.filter(|c: SyntaxNode| c.named);
        r matches Some(v) && {
            &&& v.start == node.start && v.end == node.end
            &&& v.message_id == IndexedObjectMessage::PreferIndexSignature
            &&& v.fix matches Some(e) && edit_is(
                e,
                node.start as int,
                node.end as int,
                "{ [key: "@ + args[0].text@ + "]: "@ + args[1].text@ + " }"@,
            )
        }
    } else {
        r is None
    }
}

/// What the rule says of a node under the given mode. `parent_kind` is the
/// kind of the node's parent, `ancestors` its ancestors, parent first.
pub open spec fn indexed_object_outcome(
    mode: Options,
    node: SyntaxNode,
    parent_kind: Option<NodeKind>,
    ancestors: Seq<SyntaxNode>,
    r: Option<IndexedObjectViolation>,
) -> bool {
    match mode {
        Options::IndexSignature => record_reference_outcome(node, r),
        Options::Record => if spec_is_type_literal(node, parent_kind) {
            members_outcome(
                node,
                node,
                parent_declaration_name(ancestors),
                None,
                Seq::empty(),
                Seq::empty(),
                true,
                r,
            )
        } else if node.kind == NodeKind::InterfaceDeclaration {
            members_outcome(
                field_node(node, Field::Body),
                node,
                Some(field_node(node, Field::Name).text@),
                Some(field_index(node, Field::Name)),
                interface_prefix(node),
                ";"@,
                !exists|i: int| is_first_of_kind(node.children@, NodeKind::ExtendsTypeClause, i),
                r,
            )
        } else {
            r is None
        },
    }
}

/// The two type arguments of `Record<K, V>`.
fn two_named(s: &Vec<SyntaxNode>) -> (r: (usize, usize))
    requires
        named_count(s@) == 2,
    ensures
        r.0 < r.1 < s@.len(),
        s@[r.0 as int] == s@.filter(|c: SyntaxNode| c.named)[0],
        s@[r.1 as int] == s@.filter(|c: SyntaxNode| c.named)[1],
{
    let mut first: Option<usize> = None;
    let mut i: usize = 0;
    proof {
        crate::syntax::lemma_named_count_filter(s@);
        assert(s@.subrange(0, 0) =~= Seq::<SyntaxNode>::empty());
    }
    while i < s.len()
        invariant
            0 <= i <= s@.len(),
            s@.filter(|c: SyntaxNode| c.named).len() == 2,
            match first {
                None => s@.subrange(0, i as int).filter(|c: SyntaxNode| c.named) == Seq::<SyntaxNode>::empty(),
                Some(f) => f < i && s@.subrange(0, i as int).filter(|c: SyntaxNode| c.named) == seq![s@[f as int]],
            },
        decreases s.len() - i,
    {
        let ghost pre = s@.subrange(0, i as int);
        assert(s@.subrange(0, i + 1).drop_last() =~= pre);
        assert(s@.subrange(0, i + 1).last() == s@[i as int]);
        reveal_with_fuel(Seq::filter, 1);
        if s[i].named {
            match first {
                None => {
                    first = Some(i);
                    assert(s@.subrange(0, i + 1).filter(|c: SyntaxNode| c.named) =~= seq![s@[i as int]]);
                },
                Some(f) => {
                    proof {
                        let a = s@.subrange(0, i + 1);
                        let b = s@.subrange(i + 1, s@.len() as int);
                        assert(a.filter(|c: SyntaxNode| c.named) =~= seq![s@[f as int], s@[i as int]]);
                        assert(a + b =~= s@);
                        Seq::filter_distributes_over_add(a, b, |c: SyntaxNode| c.named);
                        assert((a + b).filter(|c: SyntaxNode| c.named)[0] == s@[f as int]);
                        assert((a + b).filter(|c: SyntaxNode| c.named)[1] == s@[i as int]);
                    }
                    return (f, i);
                },
            }
        }
        i = i + 1;
    }
    proof {
        assert(s@.subrange(0, s@.len() as int) =~= s@);
    }
    assert(false);
    (0, 0)
}

/// The rule on one node under the given mode (`record` when none is given):
/// under `record`, a type literal or an interface whose only member is an
/// index signature is reported (unless it refers to the type it declares);
/// under `index-signature`, a `Record<K, V>` reference is reported.
pub fn consistent_indexed_object_style_rule(
    options: Option<Options>,
    node: &SyntaxNode,
    parent_kind: Option<NodeKind>,
    ancestors: &Vec<SyntaxNode>,
) -> (r: Option<IndexedObjectViolation>)
    requires
        ancestors_wf(ancestors@),
        node.kind == NodeKind::InterfaceDeclaration ==> has_field(*node, Field::Name) && has_field(
            *node,
            Field::Body,
        ),
    ensures
        indexed_object_outcome(
            match options {
                Some(m) => m,
                None => Options::Record,
            },
            *node,
            parent_kind,
            ancestors@,
            r,
        ),
{
    let mode = match options {
        Some(m) => m,
        None => default_options(),
    };
    match mode {
        Options::IndexSignature => {
            if node.kind != NodeKind::GenericType {
                return None;
            }
            let ni = match find_field(&node.children, Field::Name) {
                Some(ni) => ni,
                None => return None,
            };
            let name = &node.children[ni];
            if !(name.kind == NodeKind::TypeIdentifier && str_is(name.text.as_str(), "Record")) {
                return None;
            }
            let ai = match find_field(&node.children, Field::TypeArguments) {
                Some(ai) => ai,
                None => return None,
            };
            let args = &node.children[ai];
            if count_named(&args.children) != 2 {
                return None;
            }
            let (k, v) = two_named(&args.children);
            let a = concat("{ [key: ", args.children[k].text.as_str());
            let b = concat(a.as_str(), "]: ");
            let c = concat(b.as_str(), args.children[v].text.as_str());
            let replacement = concat(c.as_str(), " }");
            assert(replacement@ =~= "{ [key: "@ + args.children@[k as int].text@ + "]: "@
                + args.children@[v as int].text@ + " }"@);
            Some(
                IndexedObjectViolation {
                    start: node.start,
                    end: node.end,
                    message_id: IndexedObjectMessage::PreferIndexSignature,
                    fix: Some(TextEdit { start: node.start, end: node.end, replacement }),
                },
            )
        },
        Options::Record => {
            if get_is_type_literal(node, parent_kind) {
                let parent_name = find_parent_declaration(ancestors);
                let p = match parent_name {
                    Some(n) => Some(n.as_str()),
                    None => None,
                };
                proof {
                    reveal_strlit("");
                    assert(""@ =~= Seq::<char>::empty());
                }
                return check_members(node, node, p, None, "", "", true);
            }
            if node.kind != NodeKind::InterfaceDeclaration {
                return None;
            }
            let ni = find_field(&node.children, Field::Name).unwrap();
            let bi = find_field(&node.children, Field::Body).unwrap();
            let name = &node.children[ni];
            let generics = match find_field(&node.children, Field::TypeParameters) {
                Some(ti) => {
                    if count_named(&node.children[ti].children) > 0 {
                        let joined = join_named_texts(&node.children[ti].children);
                        let a = concat("<", joined.as_str());
                        concat(a.as_str(), ">")
                    } else {
                        String::from_str("")
                    }
                },
                None => String::from_str(""),
            };
            let a = concat("type ", name.text.as_str());
            let b = concat(a.as_str(), generics.as_str());
            let prefix = concat(b.as_str(), " = ");
            let safe_fix = find_kind(&node.children, NodeKind::ExtendsTypeClause).is_none();
            proof {
                reveal_strlit(";");
                reveal_strlit("type ");
                reveal_strlit(" = ");
                reveal_strlit("<");
                reveal_strlit(">");
                reveal_strlit("");
                assert(generics@ == generic_types(*node));
                assert(prefix@ =~= interface_prefix(*node));
            }
            check_members(
                &node.children[bi],
                node,
                Some(name.text.as_str()),
                Some(ni),
                prefix.as_str(),
                ";",
                safe_fix,
            )
        },
    }
}

/// Each mode reports only the other way of writing: `record` never reports
/// a `Record<K, V>` reference, `index-signature` never reports a type
/// literal or an interface.
pub proof fn requested_object_style_is_not_reported(
    node: SyntaxNode,
    parent_kind: Option<NodeKind>,
    ancestors: Seq<SyntaxNode>,
    r1: Option<IndexedObjectViolation>,
    r2: Option<IndexedObjectViolation>,
)
    requires
        indexed_object_outcome(Options::Record, node, parent_kind, ancestors, r1),
        indexed_object_outcome(Options::IndexSignature, node, parent_kind, ancestors, r2),
    ensures
        node.kind == NodeKind::GenericType ==> r1 is None,
        node.kind == NodeKind::ObjectType || node.kind == NodeKind::InterfaceDeclaration ==> r2 is None,
{
}

/// A type literal that refers to the type alias it belongs to is not
/// reported: it cannot become a `Record` of itself.
pub proof fn circular_type_literal_is_not_reported(
    node: SyntaxNode,
    parent_kind: Option<NodeKind>,
    ancestors: Seq<SyntaxNode>,
    r: Option<IndexedObjectViolation>,
)
    requires
        indexed_object_outcome(Options::Record, node, parent_kind, ancestors, r),
        spec_is_type_literal(node, parent_kind),
        parent_declaration_name(ancestors) matches Some(name) && refers_to_type(node, name),
    ensures
        r is None,
{
}

/// An interface that extends another is reported without a fix.
pub proof fn extending_interface_gets_no_fix(
    node: SyntaxNode,
    parent_kind: Option<NodeKind>,
    ancestors: Seq<SyntaxNode>,
    r: Option<IndexedObjectViolation>,
)
    requires
        indexed_object_outcome(Options::Record, node, parent_kind, ancestors, r),
        node.kind == NodeKind::InterfaceDeclaration,
        exists|i: int| is_first_of_kind(node.children@, NodeKind::ExtendsTypeClause, i),
    ensures
        r matches Some(v) ==> v.fix is None,
{
}

} // verus!
