//! `default-param-last`: parameters with a default value (or optional ones)
//! come after the plain parameters.
use vstd::prelude::*;

use crate::rules::array_type::field_node;
use crate::rules::consistent_generic_constructors::has_field;
use crate::syntax::{find_field, Field, NodeKind, SyntaxNode};

verus! {

/// A plain parameter: not optional, without a default value, not a rest
/// parameter.
pub open spec fn spec_is_plain_param(p: SyntaxNode) -> bool {
    !(p.kind == NodeKind::OptionalParameter || has_field(p, Field::Value) || field_node(
        p,
        Field::Pattern,
    ).kind == NodeKind::RestPattern)
}

/// A parameter that is optional or has a default value.
pub open spec fn is_defaulted(p: SyntaxNode) -> bool {
    p.kind == NodeKind::OptionalParameter || has_field(p, Field::Value)
}

/// The pattern the plainness check reads is there.
pub open spec fn param_wf(p: SyntaxNode) -> bool {
    !is_defaulted(p) ==> has_field(p, Field::Pattern)
}

/// Whether a parameter is plain.
pub fn is_plain_param(node: &SyntaxNode) -> (r: bool)
    requires
        param_wf(*node),
    ensures
        r == spec_is_plain_param(*node),
{
    if node.kind == NodeKind::OptionalParameter {
        return false;
    }
    if find_field(&node.children, Field::Value).is_some() {
        return false;
    }
    let pi = find_field(&node.children, Field::Pattern).unwrap();
    !(node.children[pi].kind == NodeKind::RestPattern)
}

/// Parameter `i` is reported: it is defaulted and a plain parameter follows it.
pub open spec fn is_misplaced(ps: Seq<SyntaxNode>, i: int) -> bool {
    &&& 0 <= i < ps.len()
    &&& !spec_is_plain_param(ps[i])
    &&& is_defaulted(ps[i])
    &&& exists|j: int| i < j < ps.len() && spec_is_plain_param(#[trigger] ps[j])
}

/// The misplaced parameters among `ps[k..]`, from the last to the first.
pub open spec fn misplaced_from(ps: Seq<SyntaxNode>, k: int) -> Seq<int>
    decreases ps.len() - k,
{
    if k >= ps.len() || k < 0 {
        Seq::empty()
    } else {
        misplaced_from(ps, k + 1) + if is_misplaced(ps, k) {
            seq![k]
        } else {
            Seq::empty()
        }
    }
}

/// A reported parameter.
#[derive(Copy, Clone, Debug, PartialEq, Eq, Structural)]
pub struct DefaultParamViolation {
    pub start: usize,
    pub end: usize,
}

/// The named children of the parameter list.
pub open spec fn params_of(node: SyntaxNode) -> Seq<SyntaxNode> {
    field_node(node, Field::Parameters).children@.filter(|c: SyntaxNode| c.named)
}

/// The reports for a function, last parameter first.
pub open spec fn default_param_reports(node: SyntaxNode) -> Seq<(int, int)> {
    let ps = params_of(node);
    misplaced_from(ps, 0).map_values(|i: int| (ps[i].start as int, ps[i].end as int))
}

/// Reports the defaulted parameters that come before a plain one.
pub fn default_param_last_rule(node: &SyntaxNode) -> (r: Vec<DefaultParamViolation>)
    requires
        has_field(*node, Field::Parameters),
        forall|i: int| 0 <= i < params_of(*node).len() ==> param_wf(#[trigger] params_of(*node)[i]),
    ensures
        r@.map_values(|v: DefaultParamViolation| (v.start as int, v.end as int)) == default_param_reports(*node),
{
    let pi = find_field(&node.children, Field::Parameters).unwrap();
    let list = &node.children[pi];
    let mut params: Vec<&SyntaxNode> = Vec::new();
    let mut i: usize = 0;
    while i < list.children.len()
        invariant
            0 <= i <= list.children@.len(),
            params@.map_values(|m: &SyntaxNode| *m) == list.children@.take(i as int).filter(|c: SyntaxNode| c.named),
        decreases list.children.len() - i,
    {
        assert(list.children@.take(i + 1).drop_last() =~= list.children@.take(i as int));
        reveal_with_fuel(Seq::filter, 1);
        let ghost before = params@;
        if list.children[i].named {
            params.push(&list.children[i]);
            assert(params@.map_values(|m: &SyntaxNode| *m) =~= before.map_values(|m: &SyntaxNode| *m).push(list.children@[i as int]));
        }
        i = i + 1;
    }
    assert(list.children@.take(list.children@.len() as int) =~= list.children@);
    let ghost ps = params_of(*node);
    assert(forall|j: int| 0 <= j < params@.len() ==> ps[j] == *params@[j]);
    let mut out: Vec<DefaultParamViolation> = Vec::new();
    let mut has_seen_plain_param = false;
    let mut k: usize = params.len();
    while k > 0
        invariant
            0 <= k <= params@.len(),
            ps.len() == params@.len(),
            forall|j: int| 0 <= j < params@.len() ==> ps[j] == *params@[j],
            forall|j: int| 0 <= j < ps.len() ==> param_wf(#[trigger] ps[j]),
            has_seen_plain_param == exists|j: int| k <= j < ps.len() && spec_is_plain_param(#[trigger] ps[j]),
            out@.map_values(|v: DefaultParamViolation| (v.start as int, v.end as int)) == misplaced_from(
                ps,
                k as int,
            ).map_values(|i: int| (ps[i].start as int, ps[i].end as int)),
        decreases k,
    {
        let j = k - 1;
        let param = params[j];
        assert(ps[j as int] == *param);
        let ghost before = out@.map_values(|v: DefaultParamViolation| (v.start as int, v.end as int));
        let ghost f = |i: int| (ps[i].start as int, ps[i].end as int);
        assert(misplaced_from(ps, j as int) == misplaced_from(ps, k as int) + if is_misplaced(ps, j as int) {
            seq![j as int]
        } else {
            Seq::<int>::empty()
        });
        if is_plain_param(param) {
            has_seen_plain_param = true;
            assert(!is_misplaced(ps, j as int));
            assert(misplaced_from(ps, j as int) =~= misplaced_from(ps, k as int));
        } else {
            let defaulted = param.kind == NodeKind::OptionalParameter || find_field(
                &param.children,
                Field::Value,
            ).is_some();
            if has_seen_plain_param && defaulted {
                out.push(DefaultParamViolation { start: param.start, end: param.end });
                assert(is_misplaced(ps, j as int));
                assert(misplaced_from(ps, j as int).map_values(f) =~= misplaced_from(ps, k as int).map_values(f).push(f(j as int)));
                assert(out@.map_values(|v: DefaultParamViolation| (v.start as int, v.end as int)) =~= before.push(f(j as int)));
            } else {
                assert(!is_misplaced(ps, j as int));
                assert(misplaced_from(ps, j as int) =~= misplaced_from(ps, k as int));
            }
        }
        k = j;
    }
    out
}

/// The misplaced parameters among `ps[k..]` are exactly the misplaced ones
/// from index `k` on.
proof fn misplaced_from_contains(ps: Seq<SyntaxNode>, k: int, i: int)
    requires
        0 <= k,
    ensures
        misplaced_from(ps, k).contains(i) <==> (k <= i && is_misplaced(ps, i)),
    decreases ps.len() - k,
{
    if k >= ps.len() {
    } else {
        misplaced_from_contains(ps, k + 1, i);
        let prev = misplaced_from(ps, k + 1);
        let tail = if is_misplaced(ps, k) {
            seq![k]
        } else {
            Seq::<int>::empty()
        };
        let whole = prev + tail;
        assert(whole == misplaced_from(ps, k));
        if prev.contains(i) {
            let j = choose|j: int| 0 <= j < prev.len() && prev[j] == i;
            assert(whole[j] == i);
        }
        if is_misplaced(ps, k) && i == k {
            assert(whole[prev.len() as int] == i);
        }
        if whole.contains(i) {
            let j = choose|j: int| 0 <= j < whole.len() && whole[j] == i;
            if j < prev.len() {
                assert(prev[j] == i);
            }
        }
    }
}

/// A parameter of a function is reported exactly when it is optional or has a
/// default value and some plain parameter comes after it.
pub proof fn reported_iff_defaulted_before_plain(node: SyntaxNode, i: int)
    ensures
        misplaced_from(params_of(node), 0).contains(i) <==> {
            let ps = params_of(node);
            &&& 0 <= i < ps.len()
            &&& is_defaulted(ps[i])
            &&& exists|j: int| i < j < ps.len() && spec_is_plain_param(#[trigger] ps[j])
        },
{
    misplaced_from_contains(params_of(node), 0, i);
}

/// The last parameter is never reported.
pub proof fn last_parameter_is_never_reported(node: SyntaxNode)
    ensures
        !misplaced_from(params_of(node), 0).contains(params_of(node).len() - 1),
{
    misplaced_from_contains(params_of(node), 0, params_of(node).len() - 1);
}

/// A function none of whose parameters is plain gets no report.
pub proof fn no_report_without_plain_parameter(node: SyntaxNode)
    requires
        forall|j: int| 0 <= j < params_of(node).len() ==> !spec_is_plain_param(#[trigger] params_of(node)[j]),
    ensures
        default_param_reports(node).len() == 0,
{
    let ps = params_of(node);
    if misplaced_from(ps, 0).len() > 0 {
        let i = misplaced_from(ps, 0)[0];
        assert(misplaced_from(ps, 0).contains(i));
        misplaced_from_contains(ps, 0, i);
    }
}

/// Which parameters count as plain: a required parameter without a default
/// whose pattern is anything but a rest pattern (a name, or an object or
/// array destructuring) is plain; an optional parameter, one with a default
/// and a rest parameter are not.
pub proof fn plain_parameters_are_those_without_default_or_rest(p: SyntaxNode)
    ensures
        p.kind != NodeKind::OptionalParameter && !has_field(p, Field::Value) && field_node(
            p,
            Field::Pattern,
        ).kind != NodeKind::RestPattern ==> spec_is_plain_param(p),
        p.kind == NodeKind::OptionalParameter ==> !spec_is_plain_param(p),
        has_field(p, Field::Value) ==> !spec_is_plain_param(p),
        field_node(p, Field::Pattern).kind == NodeKind::RestPattern ==> !spec_is_plain_param(p),
{
}

/// An optional or defaulted parameter followed, anywhere later, by a required
/// parameter without a default that is not a rest parameter (whatever its
/// pattern: a name or a destructuring) is reported, over its own range.
pub proof fn defaulted_before_required_is_reported(node: SyntaxNode, i: int, j: int)
    requires
        0 <= i < j < params_of(node).len(),
        params_of(node)[i].kind == NodeKind::OptionalParameter || has_field(
            params_of(node)[i],
            Field::Value,
        ),
        params_of(node)[j].kind != NodeKind::OptionalParameter,
        !has_field(params_of(node)[j], Field::Value),
        field_node(params_of(node)[j], Field::Pattern).kind != NodeKind::RestPattern,
    ensures
        misplaced_from(params_of(node), 0).contains(i),
        exists|k: int|
            0 <= k < default_param_reports(node).len() && default_param_reports(node)[k] == (
                params_of(node)[i].start as int,
                params_of(node)[i].end as int,
            ),
{
    let ps = params_of(node);
    assert(spec_is_plain_param(ps[j]));
    reported_iff_defaulted_before_plain(node, i);
    let m = misplaced_from(ps, 0);
    let k = choose|k: int| 0 <= k < m.len() && m[k] == i;
    assert(default_param_reports(node)[k] == (ps[i].start as int, ps[i].end as int));
}

/// A parameter after which come only optional parameters, parameters with a
/// default and rest parameters is not reported.
pub proof fn nothing_but_defaults_and_rest_after_is_not_reported(node: SyntaxNode, i: int)
    requires
        forall|j: int|
            i < j < params_of(node).len() ==> (#[trigger] params_of(node)[j]).kind
                == NodeKind::OptionalParameter || has_field(params_of(node)[j], Field::Value)
                || field_node(params_of(node)[j], Field::Pattern).kind == NodeKind::RestPattern,
    ensures
        !misplaced_from(params_of(node), 0).contains(i),
{
    reported_iff_defaulted_before_plain(node, i);
    let ps = params_of(node);
    assert forall|j: int| i < j < ps.len() implies !spec_is_plain_param(#[trigger] ps[j]) by {}
}

/// A parameter that is neither optional nor given a default (a plain one, or
/// a rest parameter) is never reported.
pub proof fn parameter_without_default_is_not_reported(node: SyntaxNode, i: int)
    requires
        0 <= i < params_of(node).len(),
        params_of(node)[i].kind != NodeKind::OptionalParameter,
        !has_field(params_of(node)[i], Field::Value),
    ensures
        !misplaced_from(params_of(node), 0).contains(i),
{
    reported_iff_defaulted_before_plain(node, i);
}

} // verus!
