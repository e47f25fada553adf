//! `adjacent-overload-signatures`: the overloads of one function or method
//! are written next to each other.
use vstd::prelude::*;

use crate::ast_helpers::{get_is_member_static, spec_is_member_static};
use crate::rules::array_type::{field_index, field_node, first_named_index};
use crate::rules::consistent_generic_constructors::has_field;
use crate::syntax::{find_field, find_first_named, is_first_named, is_first_with_field, Field, NodeKind, SyntaxNode};
use crate::text::{chars_eq, chars_of, concat};
use crate::syntax::field_child;
use crate::util::{get_name_from_member, spec_name_from_member, MemberNameType};

verus! {

/// A member that declares a function or a method signature.
pub struct Method {
    pub name: String,
    pub static_: bool,
    pub call_signature: bool,
    pub type_: MemberNameType,
}

/// A method as plain values.
pub open spec fn method_view(m: Method) -> (Seq<char>, bool, bool, MemberNameType) {
    (m.name@, m.static_, m.call_signature, m.type_)
}

/// An optional method as plain values.
pub open spec fn opt_method_view(m: Option<Method>) -> Option<(Seq<char>, bool, bool, MemberNameType)> {
    match m {
        Some(m) => Some(method_view(m)),
        None => None,
    }
}

/// The method a member declares, if any: through `declare` and `export`, a
/// function by its name (when it has one), a method signature or definition
/// by its name and staticness, a call signature as `call`, a construct
/// signature as `new`.
pub open spec fn spec_member_method(n: SyntaxNode) -> Option<(Seq<char>, bool, bool, MemberNameType)>
    decreases n,
{
    match n.kind {
        NodeKind::AmbientDeclaration => if exists|i: int| is_first_named(n.children@, i) {
            let i = first_named_index(n);
            proof {
                assert(decreases_to!(n => n.children@[i]));
            }
            spec_member_method(n.children@[i])
        } else {
            None
        },
        NodeKind::ExportStatement => if has_field(n, Field::Declaration) {
            let i = field_index(n, Field::Declaration);
            proof {
                assert(decreases_to!(n => n.children@[i]));
            }
            spec_member_method(n.children@[i])
        } else {
            None
        },
        NodeKind::FunctionSignature | NodeKind::FunctionDeclaration => if has_field(n, Field::Name) {
            Some((field_node(n, Field::Name).text@, false, false, MemberNameType::Normal))
        } else {
            None
        },
        NodeKind::MethodSignature | NodeKind::MethodDefinition => {
            let (t, name) = spec_name_from_member(n);
            Some((name, spec_is_member_static(n), false, t))
        },
        NodeKind::CallSignature => Some((seq!['c', 'a', 'l', 'l'], false, true, MemberNameType::Normal)),
        NodeKind::ConstructSignature => Some((seq!['n', 'e', 'w'], false, false, MemberNameType::Normal)),
        _ => None,
    }
}

/// The names the member needs are there.
pub open spec fn member_method_wf(n: SyntaxNode) -> bool
    decreases n,
{
    match n.kind {
        NodeKind::AmbientDeclaration => if exists|i: int| is_first_named(n.children@, i) {
            let i = first_named_index(n);
            proof {
                assert(decreases_to!(n => n.children@[i]));
            }
            member_method_wf(n.children@[i])
        } else {
            true
        },
        NodeKind::ExportStatement => if has_field(n, Field::Declaration) {
            let i = field_index(n, Field::Declaration);
            proof {
                assert(decreases_to!(n => n.children@[i]));
            }
            member_method_wf(n.children@[i])
        } else {
            true
        },
        NodeKind::MethodSignature | NodeKind::MethodDefinition => field_child(n, Field::Name) is Some,
        _ => true,
    }
}

/// The method a member declares, if any.
pub fn get_member_method(member: &SyntaxNode) -> (r: Option<Method>)
    requires
        member_method_wf(*member),
    ensures
        opt_method_view(r) == spec_member_method(*member),
    decreases member,
{
    match member.kind {
        NodeKind::AmbientDeclaration => match find_first_named(&member.children) {
            Some(i) => get_member_method(&member.children[i]),
            None => None,
        },
        NodeKind::ExportStatement => match find_field(&member.children, Field::Declaration) {
            Some(i) => get_member_method(&member.children[i]),
            None => None,
        },
        NodeKind::FunctionSignature | NodeKind::FunctionDeclaration => match find_field(
            &member.children,
            Field::Name,
        ) {
            Some(i) => Some(
                Method {
                    name: member.children[i].text.clone(),
                    static_: false,
                    call_signature: false,
                    type_: MemberNameType::Normal,
                },
            ),
            None => None,
        },
        NodeKind::MethodSignature | NodeKind::MethodDefinition => {
            let n = get_name_from_member(member);
            Some(
                Method {
                    name: n.name,
                    type_: n.type_,
                    static_: get_is_member_static(member),
                    call_signature: false,
                },
            )
        },
        NodeKind::CallSignature => Some(
            Method {
                name: string_from_chars(&['c', 'a', 'l', 'l']),
                static_: false,
                call_signature: true,
                type_: MemberNameType::Normal,
            },
        ),
        NodeKind::ConstructSignature => Some(
            Method {
                name: string_from_chars(&['n', 'e', 'w']),
                static_: false,
                call_signature: false,
                type_: MemberNameType::Normal,
            },
        ),
        _ => None,
    }
}

fn string_from_chars(cs: &[char]) -> (r: String)
    ensures
        r@ == cs@,
{
    crate::text::string_of_chars(cs)
}

/// Whether two methods are the same: same name, staticness, kind and name
/// type.
pub fn is_same_method(method1: &Method, method2: Option<&Method>) -> (r: bool)
    ensures
        r == match method2 {
            Some(m2) => method_view(*method1) == method_view(*m2),
            None => false,
        },
{
    match method2 {
        None => false,
        Some(method2) => {
            let a = chars_of(method1.name.as_str());
            let b = chars_of(method2.name.as_str());
            chars_eq(a.as_slice(), b.as_slice()) && method1.static_ == method2.static_
                && method1.call_signature == method2.call_signature && method1.type_ == method2.type_
        },
    }
}

/// Member `i` repeats an earlier method, but not the one right before it.
pub open spec fn is_reported(ms: Seq<Option<(Seq<char>, bool, bool, MemberNameType)>>, i: int) -> bool {
    &&& 0 <= i < ms.len()
    &&& ms[i] is Some
    &&& exists|j: int| 0 <= j < i && ms[j] == ms[i]
    &&& !(i > 0 && ms[i - 1] == ms[i])
}

/// The indexes of the reported members among the first `n`, in order.
pub open spec fn reported_indexes(ms: Seq<Option<(Seq<char>, bool, bool, MemberNameType)>>, n: int) -> Seq<int>
    decreases n,
{
    if n <= 0 {
        Seq::empty()
    } else {
        reported_indexes(ms, n - 1) + if is_reported(ms, n - 1) {
            seq![n - 1]
        } else {
            Seq::empty()
        }
    }
}

/// Finds the members that are separated from an earlier overload.
pub fn overload_violations(methods: &Vec<Option<Method>>) -> (r: Vec<usize>)
    ensures
        r@.map_values(|i: usize| i as int) == reported_indexes(
            methods@.map_values(|m: Option<Method>| opt_method_view(m)),
            methods@.len() as int,
        ),
{
    let ghost ms = methods@.map_values(|m: Option<Method>| opt_method_view(m));
    let mut seen_methods: Vec<&Method> = Vec::new();
    let mut last_method: Option<&Method> = None;
    let mut out: Vec<usize> = Vec::new();
    let mut i: usize = 0;
    while i < methods.len()
        invariant
            0 <= i <= methods@.len(),
            ms == methods@.map_values(|m: Option<Method>| opt_method_view(m)),
            out@.map_values(|k: usize| k as int) == reported_indexes(ms, i as int),
            forall|j: int|
                0 <= j < i && (#[trigger] ms[j]) is Some ==> seen_methods@.map_values(
                    |m: &Method| method_view(*m),
                ).contains(ms[j]->0),
            forall|t: int|
                0 <= t < seen_methods@.len() ==> exists|j: int|
                    0 <= j < i && ms[j] == Some(method_view(*#[trigger] seen_methods@[t])),
            i == 0 ==> last_method is None,
            i > 0 ==> match last_method {
                Some(m) => ms[i - 1] == Some(method_view(*m)),
                None => ms[i - 1] is None,
            },
        decreases methods.len() - i,
    {
        let ghost before = out@.map_values(|k: usize| k as int);
        let ghost sv = seen_methods@.map_values(|m: &Method| method_view(*m));
        let ghost seen_before = seen_methods@;
        assert(reported_indexes(ms, i + 1) == reported_indexes(ms, i as int) + if is_reported(ms, i as int) {
            seq![i as int]
        } else {
            Seq::<int>::empty()
        });
        match &methods[i] {
            None => {
                last_method = None;
                assert(!is_reported(ms, i as int));
                assert(before + Seq::<int>::empty() =~= before);
            },
            Some(method) => {
                let mut seen = false;
                let mut s: usize = 0;
                while s < seen_methods.len()
                    invariant
                        0 <= s <= seen_methods@.len(),
                        sv == seen_methods@.map_values(|m: &Method| method_view(*m)),
                        seen == exists|t: int| 0 <= t < s && sv[t] == method_view(*method),
                    decreases seen_methods.len() - s,
                {
                    assert(sv[s as int] == method_view(*seen_methods@[s as int]));
                    if is_same_method(method, Some(seen_methods[s])) {
                        seen = true;
                    }
                    s = s + 1;
                }
                assert(ms[i as int] == Some(method_view(*method)));
                let same_as_last = is_same_method(method, last_method);
                proof {
                    if seen {
                        let t = choose|t: int| 0 <= t < seen_methods@.len() && sv[t] == method_view(*method);
                        assert(sv[t] == method_view(*seen_methods@[t]));
                        let j = choose|j: int| 0 <= j < i && ms[j] == Some(method_view(*seen_methods@[t]));
                        assert(exists|j: int| 0 <= j < i && ms[j] == ms[i as int]);
                    } else {
                        assert forall|j: int| 0 <= j < i implies ms[j] != ms[i as int] by {
                            if ms[j] == ms[i as int] {
                                assert(sv.contains(ms[j]->0));
                            }
                        }
                    }
                    assert(is_reported(ms, i as int) == (seen && !same_as_last));
                }
                if seen && !same_as_last {
                    out.push(i);
                    assert(out@.map_values(|k: usize| k as int) =~= before + seq![i as int]);
                } else {
                    assert(before + Seq::<int>::empty() =~= before);
                }
                if !seen {
                    seen_methods.push(method);
                    proof {
                        let nsv = seen_methods@.map_values(|m: &Method| method_view(*m));
                        assert(nsv =~= sv.push(method_view(*method)));
                        assert forall|j: int| 0 <= j < i + 1 && (#[trigger] ms[j]) is Some implies nsv.contains(ms[j]->0) by {
                            if j < i {
                                assert(sv.contains(ms[j]->0));
                                let t = choose|t: int| 0 <= t < sv.len() && sv[t] == ms[j]->0;
                                assert(nsv[t] == sv[t]);
                            } else {
                                assert(nsv[sv.len() as int] == method_view(*method));
                            }
                        }
                        assert forall|t: int| 0 <= t < seen_methods@.len() implies exists|j: int|
                            0 <= j < i + 1 && ms[j] == Some(method_view(*#[trigger] seen_methods@[t])) by {
                            if t < sv.len() {
                                assert(seen_methods@[t] == seen_before[t]);
                            } else {
                                assert(ms[i as int] == Some(method_view(*seen_methods@[t])));
                            }
                        }
                    }
                } else {
                    proof {
                        assert forall|j: int| 0 <= j < i + 1 && (#[trigger] ms[j]) is Some implies sv.contains(ms[j]->0) by {
                            if j == i {
                                let t = choose|t: int| 0 <= t < seen_methods@.len() && sv[t] == method_view(*method);
                            }
                        }
                    }
                }
                last_method = Some(method);
            },
        }
        i = i + 1;
    }
    out
}

} // verus!

verus! {

/// The members of a body: its named children.
pub open spec fn members_of(node: SyntaxNode) -> Seq<SyntaxNode> {
    node.children@.filter(|c: SyntaxNode| c.named)
}

/// How a method is named in the message: `static ` in front of static ones.
pub open spec fn method_label(m: (Seq<char>, bool, bool, MemberNameType)) -> Seq<char> {
    if m.1 {
        "static "@ + m.0
    } else {
        ""@ + m.0
    }
}

/// The reports for a body: each member that repeats an earlier overload
/// but does not follow one, with the method's label.
pub open spec fn overload_reports(node: SyntaxNode) -> Seq<(int, int, Seq<char>)> {
    let members = members_of(node);
    let ms = members.map_values(|m: SyntaxNode| spec_member_method(m));
    reported_indexes(ms, ms.len() as int).map_values(
        |i: int| (members[i].start as int, members[i].end as int, method_label(ms[i]->0)),
    )
}

/// A report: the member and the label of its method.
pub struct AdjacentViolation {
    pub start: usize,
    pub end: usize,
    pub name: String,
}

/// Bodies whose members the rule reads.
pub open spec fn is_body_kind(k: NodeKind) -> bool {
    k == NodeKind::ObjectType || k == NodeKind::StatementBlock || k == NodeKind::Program || k
        == NodeKind::ClassBody
}

proof fn lemma_reported_indexes_bounds(ms: Seq<Option<(Seq<char>, bool, bool, MemberNameType)>>, n: int)
    requires
        0 <= n <= ms.len(),
    ensures
        forall|k: int| 0 <= k < reported_indexes(ms, n).len() ==> is_reported(ms, #[trigger] reported_indexes(ms, n)[k]),
    decreases n,
{
    if n > 0 {
        lemma_reported_indexes_bounds(ms, n - 1);
        let prev = reported_indexes(ms, n - 1);
        assert forall|k: int| 0 <= k < reported_indexes(ms, n).len() implies is_reported(ms, #[trigger] reported_indexes(ms, n)[k]) by {
            if k < prev.len() {
                assert(reported_indexes(ms, n)[k] == prev[k]);
            }
        }
    }
}

/// Reports the overloads of a body that are not next to each other.
pub fn check_body_for_overload_methods(node: &SyntaxNode) -> (r: Vec<AdjacentViolation>)
    requires
        is_body_kind(node.kind),
        forall|i: int| 0 <= i < node.children@.len() ==> member_method_wf(#[trigger] node.children@[i]),
    ensures
        r@.map_values(|v: AdjacentViolation| (v.start as int, v.end as int, v.name@)) == overload_reports(*node),
{
    let mut members: Vec<&SyntaxNode> = Vec::new();
    let mut methods: Vec<Option<Method>> = Vec::new();
    let mut i: usize = 0;
    while i < node.children.len()
        invariant
            0 <= i <= node.children@.len(),
            forall|k: int| 0 <= k < node.children@.len() ==> member_method_wf(#[trigger] node.children@[k]),
            members@.map_values(|m: &SyntaxNode| *m) == node.children@.take(i as int).filter(|c: SyntaxNode| c.named),
            methods@.len() == members@.len(),
            forall|k: int| 0 <= k < members@.len() ==> opt_method_view(#[trigger] methods@[k]) == spec_member_method(*members@[k]),
        decreases node.children.len() - i,
    {
        assert(node.children@.take(i + 1).drop_last() =~= node.children@.take(i as int));
        reveal_with_fuel(Seq::filter, 1);
        let child = &node.children[i];
        let ghost before = members@;
        if child.named {
            members.push(child);
            methods.push(get_member_method(child));
            assert(members@.map_values(|m: &SyntaxNode| *m) =~= before.map_values(|m: &SyntaxNode| *m).push(*child));
        } else {
            assert(members@ == before);
        }
        i = i + 1;
    }
    assert(node.children@.take(node.children@.len() as int) =~= node.children@);
    let ghost ms = members@.map_values(|m: &SyntaxNode| spec_member_method(*m));
    assert(methods@.map_values(|m: Option<Method>| opt_method_view(m)) =~= ms);
    let reported = overload_violations(&methods);
    proof {
        lemma_reported_indexes_bounds(ms, ms.len() as int);
    }
    let mut out: Vec<AdjacentViolation> = Vec::new();
    let mut k: usize = 0;
    while k < reported.len()
        invariant
            0 <= k <= reported@.len(),
            methods@.len() == members@.len(),
            members@.map_values(|m: &SyntaxNode| *m) == members_of(*node),
            ms == members@.map_values(|m: &SyntaxNode| spec_member_method(*m)),
            forall|j: int| 0 <= j < members@.len() ==> opt_method_view(#[trigger] methods@[j]) == spec_member_method(*members@[j]),
            reported@.map_values(|i: usize| i as int) == reported_indexes(ms, ms.len() as int),
            forall|j: int| 0 <= j < reported_indexes(ms, ms.len() as int).len() ==> is_reported(ms, #[trigger] reported_indexes(ms, ms.len() as int)[j]),
            out@.map_values(|v: AdjacentViolation| (v.start as int, v.end as int, v.name@))
                == reported_indexes(ms, ms.len() as int).take(k as int).map_values(
                |i: int| (members@[i].start as int, members@[i].end as int, method_label(ms[i]->0)),
            ),
        decreases reported.len() - k,
    {
        let idx = reported[k];
        assert(reported_indexes(ms, ms.len() as int)[k as int] == idx as int);
        assert(is_reported(ms, idx as int));
        let member = members[idx];
        let method = match &methods[idx] {
            Some(m) => m,
            None => {
                assert(false);
                return out;
            },
        };
        let label = if method.static_ {
            concat("static ", method.name.as_str())
        } else {
            concat("", method.name.as_str())
        };
        let ghost before = out@.map_values(|v: AdjacentViolation| (v.start as int, v.end as int, v.name@));
        out.push(AdjacentViolation { start: member.start, end: member.end, name: label });
        proof {
            let rs = reported_indexes(ms, ms.len() as int);
            assert(rs.take(k + 1) =~= rs.take(k as int).push(idx as int));
            assert(out@.map_values(|v: AdjacentViolation| (v.start as int, v.end as int, v.name@))
                =~= before.push((member.start as int, member.end as int, method_label(ms[idx as int]->0))));
        }
        k = k + 1;
    }
    proof {
        let rs = reported_indexes(ms, ms.len() as int);
        assert(rs.len() == reported@.len());
        assert(rs.take(rs.len() as int) =~= rs);
        let mo = members_of(*node);
        assert(forall|j: int| 0 <= j < members@.len() ==> mo[j] == *members@[j]);
        let ms2 = mo.map_values(|m: SyntaxNode| spec_member_method(m));
        assert(ms =~= ms2);
        let f1 = |i: int| (members@[i].start as int, members@[i].end as int, method_label(ms[i]->0));
        let f2 = |i: int| (mo[i].start as int, mo[i].end as int, method_label(ms2[i]->0));
        assert forall|j: int| 0 <= j < rs.len() implies f1(rs[j]) == f2(rs[j]) by {
            assert(is_reported(ms, rs[j]));
        }
        assert(rs.map_values(f1) =~= rs.map_values(f2));
    }
    out
}

/// The rule on one node: bodies (object types, blocks, programs) are checked.
pub fn adjacent_overload_signatures_rule(node: &SyntaxNode) -> (r: Vec<AdjacentViolation>)
    requires
        forall|i: int| 0 <= i < node.children@.len() ==> member_method_wf(#[trigger] node.children@[i]),
    ensures
        is_body_kind(node.kind) ==> r@.map_values(|v: AdjacentViolation| (v.start as int, v.end as int, v.name@))
            == overload_reports(*node),
        !is_body_kind(node.kind) ==> r@.len() == 0,
{
    if node.kind == NodeKind::ObjectType || node.kind == NodeKind::StatementBlock || node.kind
        == NodeKind::Program || node.kind == NodeKind::ClassBody {
        check_body_for_overload_methods(node)
    } else {
        Vec::new()
    }
}

/// The reported members among the first `n` are exactly the reported ones
/// below `n`.
proof fn reported_indexes_contains(ms: Seq<Option<(Seq<char>, bool, bool, MemberNameType)>>, n: int, i: int)
    ensures
        reported_indexes(ms, n).contains(i) <==> (i < n && is_reported(ms, i)),
    decreases n,
{
    if n > 0 {
        reported_indexes_contains(ms, n - 1, i);
        let prev = reported_indexes(ms, n - 1);
        let tail = if is_reported(ms, n - 1) {
            seq![n - 1]
        } else {
            Seq::<int>::empty()
        };
        let whole = prev + tail;
        assert(whole == reported_indexes(ms, n));
        if prev.contains(i) {
            let j = choose|j: int| 0 <= j < prev.len() && prev[j] == i;
            assert(whole[j] == i);
        }
        if is_reported(ms, n - 1) && i == n - 1 {
            assert(whole[prev.len() as int] == i);
        }
        if whole.contains(i) {
            let j = choose|j: int| 0 <= j < whole.len() && whole[j] == i;
            if j < prev.len() {
                assert(prev[j] == i);
            }
        }
    }
}

/// Every method's occurrences among the members stand next to each other.
pub open spec fn overloads_grouped(ms: Seq<Option<(Seq<char>, bool, bool, MemberNameType)>>) -> bool {
    forall|i: int, j: int, k: int|
        0 <= i < k < j < ms.len() && #[trigger] ms[i] is Some && ms[i] == #[trigger] ms[j] ==> #[trigger] ms[k]
            == ms[i]
}

/// When a method occurs at `i` and `j` with a different member at `k` in
/// between, some later occurrence after `k` is reported.
proof fn separated_occurrence_is_reported(
    ms: Seq<Option<(Seq<char>, bool, bool, MemberNameType)>>,
    i: int,
    k: int,
    j: int,
) -> (t: int)
    requires
        0 <= i < k < j < ms.len(),
        ms[i] is Some,
        ms[i] == ms[j],
        ms[k] != ms[i],
    ensures
        k < t <= j,
        is_reported(ms, t),
    decreases j - k,
{
    if ms[j - 1] != ms[j] {
        j
    } else {
        separated_occurrence_is_reported(ms, i, k, j - 1)
    }
}

/// The first member of a body is never reported.
pub proof fn first_member_is_never_reported(node: SyntaxNode)
    ensures
        ({
            let ms = members_of(node).map_values(|m: SyntaxNode| spec_member_method(m));
            !reported_indexes(ms, ms.len() as int).contains(0)
        }),
{
    let ms = members_of(node).map_values(|m: SyntaxNode| spec_member_method(m));
    reported_indexes_contains(ms, ms.len() as int, 0);
}

/// A member that repeats the method of the member right before it is never
/// reported.
pub proof fn overload_next_to_its_twin_is_not_reported(node: SyntaxNode, i: int)
    requires
        ({
            let ms = members_of(node).map_values(|m: SyntaxNode| spec_member_method(m));
            0 < i < ms.len() && ms[i - 1] == ms[i]
        }),
    ensures
        ({
            let ms = members_of(node).map_values(|m: SyntaxNode| spec_member_method(m));
            !reported_indexes(ms, ms.len() as int).contains(i)
        }),
{
    let ms = members_of(node).map_values(|m: SyntaxNode| spec_member_method(m));
    reported_indexes_contains(ms, ms.len() as int, i);
}

/// A body gets no report exactly when the overloads of each method stand
/// next to each other.
pub proof fn no_report_iff_overloads_grouped(node: SyntaxNode)
    ensures
        overload_reports(node).len() == 0 <==> overloads_grouped(
            members_of(node).map_values(|m: SyntaxNode| spec_member_method(m)),
        ),
{
    let ms = members_of(node).map_values(|m: SyntaxNode| spec_member_method(m));
    let rs = reported_indexes(ms, ms.len() as int);
    if overloads_grouped(ms) {
        if rs.len() > 0 {
            let t = rs[0];
            assert(rs.contains(t));
            reported_indexes_contains(ms, ms.len() as int, t);
            let j = choose|j: int| 0 <= j < t && ms[j] == ms[t];
            assert(ms[t - 1] == ms[j]);
        }
    } else {
        let (i, j, k) = choose|i: int, j: int, k: int|
            !(0 <= i < k < j < ms.len() && #[trigger] ms[i] is Some && ms[i] == #[trigger] ms[j] ==> #[trigger] ms[k]
                == ms[i]);
        let t = separated_occurrence_is_reported(ms, i, k, j);
        reported_indexes_contains(ms, ms.len() as int, t);
        assert(rs.contains(t));
    }
}

} // verus!
