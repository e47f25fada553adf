//! `consistent-generic-constructors`: the type arguments of a constructed
//! generic type go either on the constructor or on the type annotation.
use indexmap::IndexSet;
use vstd::prelude::*;

use crate::report::{edit_is, TextEdit};
use crate::rules::array_type::{field_node, first_named_node};
use crate::syntax::{find_field, find_first_named, is_first_named, is_first_with_field, Field, NodeKind, SyntaxNode};
use crate::text::{chars_eq, chars_of, concat};

verus! {

/// Makes the ordered sets of the `indexmap` crate known to the verifier.
#[verifier::external_type_specification]
#[verifier::external_body]
#[verifier::reject_recursive_types(T)]
#[verifier::reject_recursive_types(S)]
pub struct ExIndexSet<T, S>(indexmap::IndexSet<T, S>);

/// The items of an ordered set, in their order.
pub uninterp spec fn index_set_items(s: IndexSet<usize>) -> Seq<usize>;

/// `IndexSet::new`: claimed to give an empty set.
#[verifier::external_body]
fn comment_set_new() -> (r: IndexSet<usize>)
    ensures
        index_set_items(r) == Seq::<usize>::empty(),
{
    IndexSet::new()
}

/// `IndexSet::insert`: claimed, as its documentation says, to append a value
/// that is not there yet and to leave the set as it was otherwise, and to say
/// which of the two happened.
#[verifier::external_body]
fn comment_set_insert(s: &mut IndexSet<usize>, v: usize) -> (r: bool)
    ensures
        r == !index_set_items(*old(s)).contains(v),
        r ==> index_set_items(*final(s)) == index_set_items(*old(s)).push(v),
        !r ==> index_set_items(*final(s)) == index_set_items(*old(s)),
{
    s.insert(v)
}

/// `IndexSet::swap_remove` (what the deprecated `IndexSet::remove` does):
/// claimed, as its documentation says, to take a present value out by moving
/// the last item into its place, to leave the set as it was when the value is
/// absent, and to say whether it was present.
#[verifier::external_body]
fn comment_set_swap_remove(s: &mut IndexSet<usize>, v: usize) -> (r: bool)
    ensures
        r == index_set_items(*old(s)).contains(v),
        !r ==> index_set_items(*final(s)) == index_set_items(*old(s)),
        r ==> exists|i: int|
            0 <= i < index_set_items(*old(s)).len() && index_set_items(*old(s))[i] == v
                && index_set_items(*final(s)) == index_set_items(*old(s)).update(
                i,
                index_set_items(*old(s)).last(),
            ).drop_last(),
{
    s.swap_remove(&v)
}

/// `IndexSet::iter`, collected: claimed to hand out the items in their order.
#[verifier::external_body]
fn comment_set_items(s: &IndexSet<usize>) -> (r: Vec<usize>)
    ensures
        r@ == index_set_items(*s),
{
    s.iter().copied().collect()
}

/// A comment: its byte range (its start identifies it) and its text.
pub struct Comment {
    pub start: usize,
    pub end: usize,
    pub text: String,
}

/// Which side should carry the type arguments.
#[derive(Copy, Clone, Debug, PartialEq, Eq, Structural)]
pub enum Options {
    Constructor,
    TypeAnnotation,
}

/// The default is `constructor`.
pub fn default_options() -> (r: Options)
    ensures
        r == Options::Constructor,
{
    Options::Constructor
}

/// The messages of the rule.
#[derive(Copy, Clone, Debug, PartialEq, Eq, Structural)]
pub enum ConstructorMessage {
    PreferTypeAnnotation,
    PreferConstructor,
}

/// A report: the declaration, the message and the fix.
pub struct ConstructorViolation {
    pub start: usize,
    pub end: usize,
    pub message_id: ConstructorMessage,
    pub fix: Vec<TextEdit>,
}

/// The identifiers of a list of comments.
pub open spec fn comment_ids(cs: Seq<Comment>) -> Seq<usize> {
    cs.map_values(|c: Comment| c.start)
}

/// Collecting values into an ordered set: each value is kept at its first
/// occurrence.
pub open spec fn inserted_all(vs: Seq<usize>) -> Seq<usize>
    decreases vs.len(),
{
    if vs.len() == 0 {
        Seq::empty()
    } else {
        let s = inserted_all(vs.drop_last());
        if s.contains(vs.last()) {
            s
        } else {
            s.push(vs.last())
        }
    }
}

/// Swap-removing one value from an ordered set.
pub open spec fn swap_removed(s: Seq<usize>, v: usize) -> Seq<usize> {
    if s.contains(v) {
        s.update(s.index_of(v), s.last()).drop_last()
    } else {
        s
    }
}

/// Swap-removing values one after the other.
pub open spec fn swap_removed_all(s: Seq<usize>, vs: Seq<usize>) -> Seq<usize>
    decreases vs.len(),
{
    if vs.len() == 0 {
        s
    } else {
        swap_removed(swap_removed_all(s, vs.drop_last()), vs.last())
    }
}

/// The comments inside the type annotation but not inside its type
/// arguments, in the order in which the ordered set leaves them.
pub open spec fn extra_comment_ids(annotation: Seq<Comment>, type_arguments: Seq<Comment>) -> Seq<
    usize,
> {
    swap_removed_all(inserted_all(comment_ids(annotation)), comment_ids(type_arguments))
}

/// The text of the first comment with the given identifier.
pub open spec fn comment_text_for(cs: Seq<Comment>, id: usize) -> Seq<char> {
    if exists|k: int| 0 <= k < cs.len() && cs[k].start == id {
        cs[choose|k: int|
            0 <= k < cs.len() && cs[k].start == id && forall|j: int|
                0 <= j < k ==> cs[j].start != id].text@
    } else {
        ""@
    }
}

proof fn lemma_swap_removed_no_dups(s: Seq<usize>, v: usize)
    requires
        s.no_duplicates(),
    ensures
        swap_removed(s, v).no_duplicates(),
        forall|i: int|
            0 <= i < s.len() && s[i] == v ==> swap_removed(s, v) == s.update(i, s.last()).drop_last(),
{
    if s.contains(v) {
        let k = s.index_of(v);
        let r = s.update(k, s.last()).drop_last();
        assert forall|i: int, j: int|
            0 <= i < r.len() && 0 <= j < r.len() && i != j implies r[i] != r[j] by {
            if i == k {
                assert(r[i] == s[s.len() - 1]);
            } else if j == k {
                assert(r[j] == s[s.len() - 1]);
            }
        }
    }
}

} // verus!

verus! {

/// Computes the extra comments with an ordered set, the way the fix needs
/// them.
pub fn extra_comments(annotation: &Vec<Comment>, type_arguments: &Vec<Comment>) -> (r: Vec<usize>)
    ensures
        r@ == extra_comment_ids(annotation@, type_arguments@),
{
    let mut set = comment_set_new();
    let ghost ids = comment_ids(annotation@);
    let mut i: usize = 0;
    while i < annotation.len()
        invariant
            0 <= i <= annotation@.len(),
            ids == comment_ids(annotation@),
            index_set_items(set) == inserted_all(ids.take(i as int)),
            index_set_items(set).no_duplicates(),
        decreases annotation.len() - i,
    {
        let ghost before = index_set_items(set);
        assert(ids.take(i + 1).drop_last() =~= ids.take(i as int));
        assert(ids.take(i + 1).last() == annotation@[i as int].start);
        comment_set_insert(&mut set, annotation[i].start);
        proof {
            if !before.contains(annotation@[i as int].start) {
                let after = index_set_items(set);
                assert forall|a: int, b: int|
                    0 <= a < after.len() && 0 <= b < after.len() && a != b implies after[a]
                    != after[b] by {
                    if a == after.len() - 1 {
                        assert(!before.contains(after[a]));
                    } else if b == after.len() - 1 {
                        assert(!before.contains(after[b]));
                    }
                }
            }
        }
        i = i + 1;
    }
    assert(ids.take(annotation@.len() as int) =~= ids);
    let ghost start = index_set_items(set);
    let ghost rids = comment_ids(type_arguments@);
    let mut j: usize = 0;
    while j < type_arguments.len()
        invariant
            0 <= j <= type_arguments@.len(),
            rids == comment_ids(type_arguments@),
            start == inserted_all(comment_ids(annotation@)),
            index_set_items(set) == swap_removed_all(start, rids.take(j as int)),
            index_set_items(set).no_duplicates(),
        decreases type_arguments.len() - j,
    {
        let ghost before = index_set_items(set);
        let v = type_arguments[j].start;
        assert(rids.take(j + 1).drop_last() =~= rids.take(j as int));
        assert(rids.take(j + 1).last() == v);
        comment_set_swap_remove(&mut set, v);
        proof {
            lemma_swap_removed_no_dups(before, v);
        }
        j = j + 1;
    }
    assert(rids.take(type_arguments@.len() as int) =~= rids);
    comment_set_items(&set)
}

/// The text of the comment with the given identifier.
pub fn comment_text(cs: &Vec<Comment>, id: usize) -> (r: String)
    ensures
        r@ == comment_text_for(cs@, id),
{
    let mut k: usize = 0;
    while k < cs.len()
        invariant
            0 <= k <= cs@.len(),
            forall|j: int| 0 <= j < k ==> cs@[j].start != id,
        decreases cs.len() - k,
    {
        if cs[k].start == id {
            proof {
                let c = choose|c: int|
                    0 <= c < cs@.len() && cs@[c].start == id && forall|j: int|
                        0 <= j < c ==> cs@[j].start != id;
                assert(0 <= k < cs@.len() && cs@[k as int].start == id && forall|j: int|
                    0 <= j < k ==> cs@[j].start != id);
                if c < k {
                } else if c > k {
                    assert(cs@[k as int].start != id);
                }
            }
            return cs[k].text.clone();
        }
        k = k + 1;
    }
    String::from_str("")
}

/// The node has a child under field `f`.
pub open spec fn has_field(n: SyntaxNode, f: Field) -> bool {
    exists|i: int| is_first_with_field(n.children@, f, i)
}

/// The nodes the rule listens to.
pub open spec fn is_declaration_kind(k: NodeKind) -> bool {
    k == NodeKind::VariableDeclarator || k == NodeKind::PublicFieldDefinition || k
        == NodeKind::RequiredParameter || k == NodeKind::OptionalParameter
}

/// The field holding the declared name (or pattern).
pub open spec fn lhs_name_field(k: NodeKind) -> Field {
    if k == NodeKind::VariableDeclarator || k == NodeKind::PublicFieldDefinition {
        Field::Name
    } else {
        Field::Pattern
    }
}

/// The declaration is initialised with `new C...` for an identifier `C`.
pub open spec fn has_new_of_identifier(node: SyntaxNode) -> bool {
    &&& has_field(node, Field::Value)
    &&& field_node(node, Field::Value).kind == NodeKind::NewExpression
    &&& has_field(field_node(node, Field::Value), Field::Constructor)
    &&& field_node(field_node(node, Field::Value), Field::Constructor).kind == NodeKind::Identifier
}

/// The annotated type (the first named child of the type annotation).
pub open spec fn annotated_type(node: SyntaxNode) -> SyntaxNode {
    first_named_node(field_node(node, Field::Type))
}

/// The parts of the declaration that the rule reads are there.
pub open spec fn generic_constructor_wf(mode: Options, node: SyntaxNode) -> bool {
    (is_declaration_kind(node.kind) && has_new_of_identifier(node)) ==> {
        let rhs = field_node(node, Field::Value);
        &&& has_field(node, Field::Type) ==> exists|i: int|
            is_first_named(field_node(node, Field::Type).children@, i)
        &&& (mode == Options::TypeAnnotation && !has_field(node, Field::Type) && has_field(
            rhs,
            Field::TypeArguments,
        )) ==> has_field(node, lhs_name_field(node.kind))
        &&& (mode == Options::Constructor && !has_field(rhs, Field::TypeArguments) && has_field(
            node,
            Field::Type,
        ) && annotated_type(node).kind == NodeKind::GenericType) ==> {
            &&& has_field(annotated_type(node), Field::Name)
            &&& (field_node(annotated_type(node), Field::Name).kind == NodeKind::TypeIdentifier
                && field_node(annotated_type(node), Field::Name).text@ == field_node(
                rhs,
                Field::Constructor,
            ).text@) ==> has_field(annotated_type(node), Field::TypeArguments)
        }
    }
}

/// The outcome of the rule for one declaration.
pub open spec fn generic_constructor_outcome(
    mode: Options,
    node: SyntaxNode,
    annotation_comments: Seq<Comment>,
    type_argument_comments: Seq<Comment>,
    r: Option<ConstructorViolation>,
) -> bool {
    if !(is_declaration_kind(node.kind) && has_new_of_identifier(node)) {
        r is None
    } else {
        let rhs = field_node(node, Field::Value);
        let ctor = field_node(rhs, Field::Constructor);
        match mode {
            Options::TypeAnnotation => if has_field(node, Field::Type) || !has_field(
                rhs,
                Field::TypeArguments,
            ) {
                r is None
            } else {
                let ta = field_node(rhs, Field::TypeArguments);
                let id = field_node(node, lhs_name_field(node.kind));
                r matches Some(v) && {
                    &&& v.start == node.start && v.end == node.end
                    &&& v.message_id == ConstructorMessage::PreferTypeAnnotation
                    &&& v.fix@.len() == 2
                    &&& edit_is(v.fix@[0], ta.start as int, ta.end as int, ""@)
                    &&& edit_is(v.fix@[1], id.end as int, id.end as int, ": "@ + (ctor.text@ + ta.text@))
                }
            },
            Options::Constructor => if has_field(rhs, Field::TypeArguments) || !has_field(
                node,
                Field::Type,
            ) {
                r is None
            } else {
                let annotation = field_node(node, Field::Type);
                let lhs = annotated_type(node);
                if !(lhs.kind == NodeKind::GenericType && field_node(lhs, Field::Name).kind
                    == NodeKind::TypeIdentifier && field_node(lhs, Field::Name).text@ == ctor.text@) {
                    r is None
                } else {
                    let lta = field_node(lhs, Field::TypeArguments);
                    let has_parens = has_field(rhs, Field::Arguments);
                    let extra = extra_comment_ids(annotation_comments, type_argument_comments);
                    let n = extra.len() as int;
                    let ce = ctor.end as int;
                    r matches Some(v) && {
                        &&& v.start == node.start && v.end == node.end
                        &&& v.message_id == ConstructorMessage::PreferConstructor
                        &&& v.fix@.len() == n + 2 + if has_parens {
                            0int
                        } else {
                            1int
                        }
                        &&& edit_is(v.fix@[0], annotation.start as int, annotation.end as int, ""@)
                        &&& forall|k: int|
                            0 <= k < n ==> edit_is(
                                #[trigger] v.fix@[k + 1],
                                ce,
                                ce,
                                comment_text_for(annotation_comments, extra[k]),
                            )
                        &&& edit_is(v.fix@[n + 1], ce, ce, lta.text@)
                        &&& !has_parens ==> edit_is(v.fix@[n + 2], ce, ce, "()"@)
                    }
                }
            },
        }
    }
}

/// Checks one declaration (a variable, a field, or a parameter with a
/// default value).
pub fn check_generic_constructor(
    mode: Options,
    node: &SyntaxNode,
    annotation_comments: &Vec<Comment>,
    type_argument_comments: &Vec<Comment>,
) -> (r: Option<ConstructorViolation>)
    requires
        generic_constructor_wf(mode, *node),
    ensures
        generic_constructor_outcome(mode, *node, annotation_comments@, type_argument_comments@, r),
{
    if !(node.kind == NodeKind::VariableDeclarator || node.kind == NodeKind::PublicFieldDefinition
        || node.kind == NodeKind::RequiredParameter || node.kind == NodeKind::OptionalParameter) {
        return None;
    }
    let name_field = if node.kind == NodeKind::VariableDeclarator || node.kind
        == NodeKind::PublicFieldDefinition {
        Field::Name
    } else {
        Field::Pattern
    };
    let vi = match find_field(&node.children, Field::Value) {
        Some(vi) => vi,
        None => return None,
    };
    let rhs = &node.children[vi];
    if rhs.kind != NodeKind::NewExpression {
        return None;
    }
    let ci = match find_field(&rhs.children, Field::Constructor) {
        Some(ci) => ci,
        None => return None,
    };
    let callee = &rhs.children[ci];
    if callee.kind != NodeKind::Identifier {
        return None;
    }
    let type_index = find_field(&node.children, Field::Type);
    let rhs_type_arguments = find_field(&rhs.children, Field::TypeArguments);
    match mode {
        Options::TypeAnnotation => {
            if type_index.is_some() {
                return None;
            }
            let tai = match rhs_type_arguments {
                Some(tai) => tai,
                None => return None,
            };
            let type_arguments = &rhs.children[tai];
            let type_annotation = concat(callee.text.as_str(), type_arguments.text.as_str());
            let ii = find_field(&node.children, name_field).unwrap();
            let id_to_attach_annotation = &node.children[ii];
            let mut fix: Vec<TextEdit> = Vec::new();
            fix.push(
                TextEdit {
                    start: type_arguments.start,
                    end: type_arguments.end,
                    replacement: String::from_str(""),
                },
            );
            fix.push(
                TextEdit {
                    start: id_to_attach_annotation.end,
                    end: id_to_attach_annotation.end,
                    replacement: concat(": ", type_annotation.as_str()),
                },
            );
            Some(
                ConstructorViolation {
                    start: node.start,
                    end: node.end,
                    message_id: ConstructorMessage::PreferTypeAnnotation,
                    fix,
                },
            )
        },
        Options::Constructor => {
            if rhs_type_arguments.is_some() {
                return None;
            }
            let ti = match type_index {
                Some(ti) => ti,
                None => return None,
            };
            let annotation = &node.children[ti];
            let li = find_first_named(&annotation.children).unwrap();
            let lhs = &annotation.children[li];
            if lhs.kind != NodeKind::GenericType {
                return None;
            }
            let lni = find_field(&lhs.children, Field::Name).unwrap();
            let lhs_name = &lhs.children[lni];
            if !(lhs_name.kind == NodeKind::TypeIdentifier && chars_eq(
                chars_of(lhs_name.text.as_str()).as_slice(),
                chars_of(callee.text.as_str()).as_slice(),
            )) {
                return None;
            }
            let ltai = find_field(&lhs.children, Field::TypeArguments).unwrap();
            let lhs_type_arguments = &lhs.children[ltai];
            let has_parens = find_field(&rhs.children, Field::Arguments).is_some();
            let extra = extra_comments(annotation_comments, type_argument_comments);
            let mut fix: Vec<TextEdit> = Vec::new();
            fix.push(
                TextEdit {
                    start: annotation.start,
                    end: annotation.end,
                    replacement: String::from_str(""),
                },
            );
            let mut k: usize = 0;
            while k < extra.len()
                invariant
                    0 <= k <= extra@.len(),
                    extra@ == extra_comment_ids(annotation_comments@, type_argument_comments@),
                    fix@.len() == k + 1,
                    edit_is(fix@[0], annotation.start as int, annotation.end as int, ""@),
                    forall|j: int|
                        0 <= j < k ==> edit_is(
                            #[trigger] fix@[j + 1],
                            callee.end as int,
                            callee.end as int,
                            comment_text_for(annotation_comments@, extra@[j]),
                        ),
                decreases extra.len() - k,
            {
                let text = comment_text(annotation_comments, extra[k]);
                let ghost before = fix@;
                fix.push(TextEdit { start: callee.end, end: callee.end, replacement: text });
                proof {
                    assert forall|j: int| 0 <= j < k + 1 implies edit_is(
                        #[trigger] fix@[j + 1],
                        callee.end as int,
                        callee.end as int,
                        comment_text_for(annotation_comments@, extra@[j]),
                    ) by {
                        if j < k {
                            assert(fix@[j + 1] == before[j + 1]);
                        }
                    }
                }
                k = k + 1;
            }
            let ghost after_loop = fix@;
            fix.push(
                TextEdit {
                    start: callee.end,
                    end: callee.end,
                    replacement: lhs_type_arguments.text.clone(),
                },
            );
            let ghost after_args = fix@;
            assert(forall|j: int| 0 <= j < after_loop.len() ==> after_args[j] == after_loop[j]);
            if !has_parens {
                fix.push(
                    TextEdit {
                        start: callee.end,
                        end: callee.end,
                        replacement: String::from_str("()"),
                    },
                );
                assert(forall|j: int| 0 <= j < after_args.len() ==> fix@[j] == after_args[j]);
            }
            assert forall|j: int| 0 <= j < extra@.len() implies edit_is(
                #[trigger] fix@[j + 1],
                callee.end as int,
                callee.end as int,
                comment_text_for(annotation_comments@, extra@[j]),
            ) by {
                assert(fix@[j + 1] == after_loop[j + 1]);
            }
            Some(
                ConstructorViolation {
                    start: node.start,
                    end: node.end,
                    message_id: ConstructorMessage::PreferConstructor,
                    fix,
                },
            )
        },
    }
}

/// The rule under the given mode (`constructor` when none is given), for a
/// variable declarator, a public field definition, or a parameter with a
/// default value; any other node is left alone. The comments are those inside
/// the type annotation and those inside its type arguments.
pub fn consistent_generic_constructors_rule(
    options: Option<Options>,
    node: &SyntaxNode,
    annotation_comments: &Vec<Comment>,
    type_argument_comments: &Vec<Comment>,
) -> (r: Option<ConstructorViolation>)
    requires
        generic_constructor_wf(
            match options {
                Some(m) => m,
                None => Options::Constructor,
            },
            *node,
        ),
    ensures
        generic_constructor_outcome(
            match options {
                Some(m) => m,
                None => Options::Constructor,
            },
            *node,
            annotation_comments@,
            type_argument_comments@,
            r,
        ),
{
    let mode = match options {
        Some(m) => m,
        None => default_options(),
    };
    check_generic_constructor(mode, node, annotation_comments, type_argument_comments)
}

proof fn lemma_inserted_all(vs: Seq<usize>)
    ensures
        inserted_all(vs).no_duplicates(),
        forall|x: usize| inserted_all(vs).contains(x) <==> vs.contains(x),
    decreases vs.len(),
{
    if vs.len() > 0 {
        let init = vs.drop_last();
        lemma_inserted_all(init);
        let s = inserted_all(init);
        assert forall|x: usize| inserted_all(vs).contains(x) <==> vs.contains(x) by {
            if init.contains(x) {
                let j = choose|j: int| 0 <= j < init.len() && init[j] == x;
                assert(vs[j] == x);
            }
            if vs.contains(x) {
                let j = choose|j: int| 0 <= j < vs.len() && vs[j] == x;
                if j < init.len() {
                    assert(init[j] == x);
                }
            }
            if !s.contains(vs.last()) && s.push(vs.last()).contains(x) {
                let j = choose|j: int| 0 <= j < s.len() + 1 && s.push(vs.last())[j] == x;
                if j < s.len() {
                    assert(s[j] == x);
                }
            }
            if !s.contains(vs.last()) && x == vs.last() {
                assert(s.push(vs.last())[s.len() as int] == x);
            }
            if !s.contains(vs.last()) && s.contains(x) {
                let j = choose|j: int| 0 <= j < s.len() && s[j] == x;
                assert(s.push(vs.last())[j] == x);
            }
        }
    }
}

proof fn lemma_swap_removed_contains(s: Seq<usize>, v: usize)
    requires
        s.no_duplicates(),
    ensures
        swap_removed(s, v).no_duplicates(),
        forall|x: usize| swap_removed(s, v).contains(x) <==> (s.contains(x) && x != v),
{
    lemma_swap_removed_no_dups(s, v);
    if s.contains(v) {
        let k = s.index_of(v);
        let n = s.len() as int;
        let r = s.update(k, s.last()).drop_last();
        assert forall|x: usize| r.contains(x) <==> (s.contains(x) && x != v) by {
            if r.contains(x) {
                let i = choose|i: int| 0 <= i < r.len() && r[i] == x;
                if i == k {
                    assert(x == s[n - 1]);
                    assert(s[n - 1] != s[k]);
                } else {
                    assert(x == s[i]);
                    assert(s[i] != s[k]);
                }
            }
            if s.contains(x) && x != v {
                let j = choose|j: int| 0 <= j < n && s[j] == x;
                if j < n - 1 {
                    assert(j != k);
                    assert(r[j] == x);
                } else {
                    assert(k != n - 1);
                    assert(r[k] == x);
                }
            }
        }
    }
}

proof fn lemma_swap_removed_all(s: Seq<usize>, vs: Seq<usize>)
    requires
        s.no_duplicates(),
    ensures
        swap_removed_all(s, vs).no_duplicates(),
        forall|x: usize| swap_removed_all(s, vs).contains(x) <==> (s.contains(x) && !vs.contains(x)),
    decreases vs.len(),
{
    if vs.len() > 0 {
        let init = vs.drop_last();
        lemma_swap_removed_all(s, init);
        lemma_swap_removed_contains(swap_removed_all(s, init), vs.last());
        assert forall|x: usize| swap_removed_all(s, vs).contains(x) <==> (s.contains(x) && !vs.contains(x)) by {
            if init.contains(x) {
                let j = choose|j: int| 0 <= j < init.len() && init[j] == x;
                assert(vs[j] == x);
            }
            if vs.contains(x) && x != vs.last() {
                let j = choose|j: int| 0 <= j < vs.len() && vs[j] == x;
                assert(j != vs.len() - 1);
                assert(init[j] == x);
            }
        }
    }
}

/// The comments that the fix carries over are exactly those inside the type
/// annotation that are not inside its type arguments, each once.
pub proof fn extra_comments_are_those_outside_the_type_arguments(
    annotation: Seq<Comment>,
    type_arguments: Seq<Comment>,
)
    ensures
        extra_comment_ids(annotation, type_arguments).no_duplicates(),
        forall|id: usize|
            extra_comment_ids(annotation, type_arguments).contains(id) <==> (comment_ids(
                annotation,
            ).contains(id) && !comment_ids(type_arguments).contains(id)),
{
    lemma_inserted_all(comment_ids(annotation));
    lemma_swap_removed_all(inserted_all(comment_ids(annotation)), comment_ids(type_arguments));
}

/// A declaration already written in the requested style is not reported:
/// under `type-annotation` one with a type annotation, under `constructor` one
/// whose constructor has type arguments.
pub proof fn declaration_in_requested_style_is_not_reported(
    mode: Options,
    node: SyntaxNode,
    annotation_comments: Seq<Comment>,
    type_argument_comments: Seq<Comment>,
    r: Option<ConstructorViolation>,
)
    requires
        generic_constructor_outcome(mode, node, annotation_comments, type_argument_comments, r),
        mode == Options::TypeAnnotation ==> has_field(node, Field::Type),
        mode == Options::Constructor ==> has_new_of_identifier(node) ==> has_field(
            field_node(node, Field::Value),
            Field::TypeArguments,
        ),
    ensures
        r is None,
{
}

} // verus!
