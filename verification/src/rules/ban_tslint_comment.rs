//! `ban-tslint-comment`: `tslint:enable` and `tslint:disable` comments are
//! left over from TSLint and are reported, with a fix that removes them.
use vstd::prelude::*;

use crate::report::{edit_is, TextEdit};
use crate::rules::ban_ts_comment::{
    copy_range, in_class, scan_class, spec_trim, trim_chars, word_at, word_at_exec, CommentType,
};
use crate::text::{chars_of, concat, is_white_space, string_of_chars, white_space};

verus! {

/// `tslint:`.
pub open spec fn tslint_word() -> Seq<char> {
    seq!['t', 's', 'l', 'i', 'n', 't', ':']
}

/// `enable`.
pub open spec fn enable_word() -> Seq<char> {
    seq!['e', 'n', 'a', 'b', 'l', 'e']
}

/// `disable`.
pub open spec fn disable_word() -> Seq<char> {
    seq!['d', 'i', 's', 'a', 'b', 'l', 'e']
}

/// `-line`.
pub open spec fn line_word() -> Seq<char> {
    seq!['-', 'l', 'i', 'n', 'e']
}

/// `-next-line`.
pub open spec fn next_line_word() -> Seq<char> {
    seq!['-', 'n', 'e', 'x', 't', '-', 'l', 'i', 'n', 'e']
}

/// The directive ends at `p`: the text ends there, or a colon or white space
/// follows.
pub open spec fn ends_directive(v: Seq<char>, p: int) -> bool {
    p == v.len() || (0 <= p < v.len() && (v[p] == ':' || is_white_space(v[p])))
}

/// After the action at `p`: nothing more, `-line` or `-next-line`, and then
/// the end of the directive.
pub open spec fn suffix_ok(v: Seq<char>, p: int) -> bool {
    ||| ends_directive(v, p)
    ||| word_at(v, p, line_word()) && ends_directive(v, p + 5)
    ||| word_at(v, p, next_line_word()) && ends_directive(v, p + 10)
}

/// `enable` or `disable` at `p`, with a valid suffix.
pub open spec fn tslint_action_at(v: Seq<char>, p: int) -> bool {
    ||| word_at(v, p, enable_word()) && suffix_ok(v, p + 6)
    ||| word_at(v, p, disable_word()) && suffix_ok(v, p + 7)
}

/// The contents of a comment read as a TSLint directive: what
/// `^\s*tslint:(enable|disable)(?:-(line|next-line))?(:|\s|$)` matches.
pub open spec fn is_tslint_directive(v: Seq<char>) -> bool {
    exists|k: int|
        0 <= k <= v.len() && (forall|j: int| 0 <= j < k ==> is_white_space(#[trigger] v[j]))
            && word_at(v, k, tslint_word()) && tslint_action_at(v, k + 7)
}

fn ends_directive_exec(s: &Vec<char>, p: usize) -> (r: bool)
    ensures
        r == ends_directive(s@, p as int),
{
    p == s.len() || (p < s.len() && (s[p] == ':' || white_space(s[p])))
}

fn suffix_ok_exec(s: &Vec<char>, p: usize) -> (r: bool)
    requires
        p <= s@.len(),
    ensures
        r == suffix_ok(s@, p as int),
{
    if ends_directive_exec(s, p) {
        return true;
    }
    assert(s@.len() == s.len());
    let line = vec!['-', 'l', 'i', 'n', 'e'];
    assert(line@ == line_word());
    if word_at_exec(s, p, &line) {
        if ends_directive_exec(s, p + 5) {
            return true;
        }
    }
    let next_line = vec!['-', 'n', 'e', 'x', 't', '-', 'l', 'i', 'n', 'e'];
    assert(next_line@ == next_line_word());
    if word_at_exec(s, p, &next_line) {
        ends_directive_exec(s, p + 10)
    } else {
        false
    }
}

/// Whether a comment's contents are a TSLint directive.
pub fn is_tslint_comment(contents: &str) -> (r: bool)
    ensures
        r == is_tslint_directive(contents@),
{
    let s = chars_of(contents);
    let k = scan_class(&s, 0, 0);
    proof {
        assert forall|k2: int|
            0 <= k2 <= s@.len() && (forall|j: int| 0 <= j < k2 ==> is_white_space(#[trigger] s@[j]))
                && word_at(s@, k2, tslint_word()) implies k2 == k by {
            assert(s@[k2] == s@.subrange(k2, k2 + 7)[0]);
            if k2 < k {
                assert(in_class(s@[k2], 0));
            } else if k2 > k {
                assert(is_white_space(s@[k as int]));
            }
        }
    }
    let tslint = vec!['t', 's', 'l', 'i', 'n', 't', ':'];
    assert(tslint@ == tslint_word());
    if !word_at_exec(&s, k, &tslint) {
        return false;
    }
    assert(k + 7 <= s.len());
    let p = k + 7;
    let enable = vec!['e', 'n', 'a', 'b', 'l', 'e'];
    let disable = vec!['d', 'i', 's', 'a', 'b', 'l', 'e'];
    assert(enable@ == enable_word());
    assert(disable@ == disable_word());
    let r = if word_at_exec(&s, p, &enable) {
        proof {
            assert(s@[p as int] == s@.subrange(p as int, p + 6)[0]);
            if word_at(s@, p as int, disable_word()) {
                assert(s@[p as int] == s@.subrange(p as int, p + 7)[0]);
            }
        }
        suffix_ok_exec(&s, p + 6)
    } else if word_at_exec(&s, p, &disable) {
        suffix_ok_exec(&s, p + 7)
    } else {
        false
    };
    proof {
        if r {
            assert(word_at(s@, k as int, tslint_word()) && tslint_action_at(s@, k + 7));
        }
    }
    r
}

/// A comment of the file with its place: its type, its contents (without the
/// comment markers), its byte range and the column at which it starts.
pub struct LocatedComment {
    pub comment_type: CommentType,
    pub contents: String,
    pub start: usize,
    pub end: usize,
    pub column: usize,
}

/// The comment as the message quotes it: `// <trimmed>` or
/// `/* <trimmed> */`.
pub open spec fn quoted_comment(ct: CommentType, contents: Seq<char>) -> Seq<char> {
    match ct {
        CommentType::Line => seq!['/', '/', ' '] + spec_trim(contents),
        CommentType::Block => seq!['/', '*', ' '] + spec_trim(contents) + seq![' ', '*', '/'],
    }
}

/// Where the removal starts: one character early (the space or line feed
/// before the comment) unless the comment starts its line.
pub open spec fn removal_start(c: LocatedComment) -> int {
    if c.column > 0 {
        c.start - 1
    } else {
        c.start as int
    }
}

/// Where the removal ends: one character after the comment (its line feed),
/// but not past the end of the source.
pub open spec fn removal_end(c: LocatedComment, source_len: int) -> int {
    if c.end + 1 <= source_len {
        c.end + 1
    } else {
        source_len
    }
}

/// A report as plain values: the comment's range, the quoted comment, and the
/// removal.
pub open spec fn tslint_report(c: LocatedComment, source_len: int) -> (int, int, Seq<char>, (int, int, Seq<char>)) {
    (
        c.start as int,
        c.end as int,
        quoted_comment(c.comment_type, c.contents@),
        (removal_start(c), removal_end(c, source_len), Seq::empty()),
    )
}

/// The reports for a file's comments, in order.
pub open spec fn tslint_reports(cs: Seq<LocatedComment>, source_len: int) -> Seq<
    (int, int, Seq<char>, (int, int, Seq<char>)),
>
    decreases cs.len(),
{
    if cs.len() == 0 {
        Seq::empty()
    } else {
        tslint_reports(cs.drop_last(), source_len) + if is_tslint_directive(cs.last().contents@) {
            seq![tslint_report(cs.last(), source_len)]
        } else {
            Seq::empty()
        }
    }
}

/// A reported comment: its range, the quoted comment and the fix.
pub struct TslintCommentViolation {
    pub start: usize,
    pub end: usize,
    pub text: String,
    pub fix: TextEdit,
}

/// A report as plain values.
pub open spec fn tslint_violation_view(v: TslintCommentViolation) -> (int, int, Seq<char>, (int, int, Seq<char>)) {
    (v.start as int, v.end as int, v.text@, (v.fix.start as int, v.fix.end as int, v.fix.replacement@))
}

/// The comment lies in the source, and one that does not start its line has
/// a character before it.
pub open spec fn located_comment_wf(c: LocatedComment, source_len: int) -> bool {
    &&& c.start <= c.end <= source_len
    &&& c.column > 0 ==> c.start >= 1
}

fn quote_comment(ct: CommentType, contents: &str) -> (r: String)
    ensures
        r@ == quoted_comment(ct, contents@),
{
    let cs = chars_of(contents);
    let trimmed = trim_chars(&cs);
    let body = string_of_chars(trimmed.as_slice());
    match ct {
        CommentType::Line => {
            proof {
                reveal_strlit("// ");
            }
            concat("// ", body.as_str())
        },
        CommentType::Block => {
            let head = concat("/* ", body.as_str());
            let r = concat(head.as_str(), " */");
            proof {
                reveal_strlit("/* ");
                reveal_strlit(" */");
            }
            r
        },
    }
}

/// The rule over one file: reports each comment that is a TSLint directive.
/// `source_len` is the length of the source in bytes.
pub fn ban_tslint_comment_rule(comments: &Vec<LocatedComment>, source_len: usize) -> (r: Vec<
    TslintCommentViolation,
>)
    requires
        forall|i: int| 0 <= i < comments@.len() ==> located_comment_wf(#[trigger] comments@[i], source_len as int),
    ensures
        r@.map_values(|v: TslintCommentViolation| tslint_violation_view(v)) == tslint_reports(
            comments@,
            source_len as int,
        ),
{
    let mut out: Vec<TslintCommentViolation> = Vec::new();
    let mut i: usize = 0;
    while i < comments.len()
        invariant
            0 <= i <= comments@.len(),
            forall|j: int| 0 <= j < comments@.len() ==> located_comment_wf(#[trigger] comments@[j], source_len as int),
            out@.map_values(|v: TslintCommentViolation| tslint_violation_view(v)) == tslint_reports(
                comments@.take(i as int),
                source_len as int,
            ),
        decreases comments.len() - i,
    {
        let c = &comments[i];
        assert(comments@.take(i + 1).drop_last() =~= comments@.take(i as int));
        assert(comments@.take(i + 1).last() == comments@[i as int]);
        let ghost before = out@.map_values(|v: TslintCommentViolation| tslint_violation_view(v));
        if is_tslint_comment(c.contents.as_str()) {
            let fix_start = if c.column > 0 {
                c.start - 1
            } else {
                c.start
            };
            let fix_end = if c.end < source_len {
                c.end + 1
            } else {
                source_len
            };
            let text = quote_comment(c.comment_type, c.contents.as_str());
            out.push(
                TslintCommentViolation {
                    start: c.start,
                    end: c.end,
                    text,
                    fix: TextEdit { start: fix_start, end: fix_end, replacement: String::from_str("") },
                },
            );
            proof {
                reveal_strlit("");
                assert(""@ =~= Seq::<char>::empty());
                assert(out@.map_values(|v: TslintCommentViolation| tslint_violation_view(v)) =~= before.push(
                    tslint_report(*c, source_len as int),
                ));
            }
        } else {
            assert(before + Seq::empty() =~= before);
        }
        i = i + 1;
    }
    assert(comments@.take(comments@.len() as int) =~= comments@);
    out
}

/// The fix of every report removes the whole comment, and at most one
/// character on each side of it.
pub proof fn tslint_fix_removes_the_comment(cs: Seq<LocatedComment>, source_len: int, k: int)
    requires
        forall|i: int| 0 <= i < cs.len() ==> located_comment_wf(#[trigger] cs[i], source_len),
        0 <= k < tslint_reports(cs, source_len).len(),
    ensures
        ({
            let r = tslint_reports(cs, source_len)[k];
            &&& r.3.0 <= r.0 && r.1 <= r.3.1
            &&& r.0 - 1 <= r.3.0 && r.3.1 <= r.1 + 1
            &&& r.3.2.len() == 0
        }),
    decreases cs.len(),
{
    let init = cs.drop_last();
    let prev = tslint_reports(init, source_len);
    assert forall|i: int| 0 <= i < init.len() implies located_comment_wf(#[trigger] init[i], source_len) by {
        assert(init[i] == cs[i]);
    }
    if k < prev.len() {
        tslint_fix_removes_the_comment(init, source_len, k);
        assert(tslint_reports(cs, source_len)[k] == prev[k]);
    } else {
        assert(located_comment_wf(cs[cs.len() - 1], source_len));
    }
}

} // verus!
