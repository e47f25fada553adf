//! `ban-ts-comment`: `@ts-<directive>` comments are banned, or allowed only
//! with a description (of a minimum length, possibly in a given format).
use vstd::prelude::*;

use crate::text::{chars_of, is_white_space, string_of_chars, white_space};
use crate::util::{get_string_length, string_length};

verus! {

/// The `allow-with-description` setting.
#[derive(Copy, Clone, Debug, PartialEq, Eq, Structural)]
pub enum AllowWithDescription {
    AllowWithDescription,
}

/// The `descriptionFormat` setting: a regular expression that descriptions
/// must match.
pub struct DescriptionFormat {
    pub description_format: String,
}

/// How one directive is treated.
pub enum DirectiveConfig {
    /// `true` bans the directive, `false` allows it.
    Bool(bool),
    /// Allowed with a description.
    AllowWithDescription(AllowWithDescription),
    /// Allowed with a description in the given format.
    DescriptionFormat(DescriptionFormat),
}

/// A directive setting as plain values.
pub open spec fn directive_config_view(c: DirectiveConfig) -> (int, bool, Seq<char>) {
    match c {
        DirectiveConfig::Bool(b) => (0, b, Seq::empty()),
        DirectiveConfig::AllowWithDescription(_) => (1, false, Seq::empty()),
        DirectiveConfig::DescriptionFormat(f) => (2, false, f.description_format@),
    }
}

impl DirectiveConfig {
    /// A copy of the setting.
    pub fn duplicate(&self) -> (r: DirectiveConfig)
        ensures
            directive_config_view(r) == directive_config_view(*self),
    {
        match self {
            DirectiveConfig::Bool(b) => DirectiveConfig::Bool(*b),
            DirectiveConfig::AllowWithDescription(a) => DirectiveConfig::AllowWithDescription(*a),
            DirectiveConfig::DescriptionFormat(f) => DirectiveConfig::DescriptionFormat(
                DescriptionFormat { description_format: f.description_format.clone() },
            ),
        }
    }
}

impl From<bool> for DirectiveConfig {
    fn from(value: bool) -> (r: Self) {
        DirectiveConfig::Bool(value)
    }
}

impl vstd::std_specs::convert::FromSpecImpl<bool> for DirectiveConfig {
    open spec fn obeys_from_spec() -> bool {
        true
    }

    open spec fn from_spec(value: bool) -> Self {
        DirectiveConfig::Bool(value)
    }
}

impl From<AllowWithDescription> for DirectiveConfig {
    fn from(value: AllowWithDescription) -> (r: Self) {
        DirectiveConfig::AllowWithDescription(value)
    }
}

impl vstd::std_specs::convert::FromSpecImpl<AllowWithDescription> for DirectiveConfig {
    open spec fn obeys_from_spec() -> bool {
        true
    }

    open spec fn from_spec(value: AllowWithDescription) -> Self {
        DirectiveConfig::AllowWithDescription(value)
    }
}

impl From<DescriptionFormat> for DirectiveConfig {
    fn from(value: DescriptionFormat) -> (r: Self) {
        DirectiveConfig::DescriptionFormat(value)
    }
}

impl vstd::std_specs::convert::FromSpecImpl<DescriptionFormat> for DirectiveConfig {
    open spec fn obeys_from_spec() -> bool {
        true
    }

    open spec fn from_spec(value: DescriptionFormat) -> Self {
        DirectiveConfig::DescriptionFormat(value)
    }
}

/// The rule's options.
pub struct Options {
    pub ts_expect_error: Option<DirectiveConfig>,
    pub ts_ignore: Option<DirectiveConfig>,
    pub ts_nocheck: Option<DirectiveConfig>,
    pub ts_check: Option<DirectiveConfig>,
    pub minimum_description_length: Option<usize>,
}

/// A given setting, or the default one.
pub open spec fn config_or(c: Option<DirectiveConfig>, default: (int, bool, Seq<char>)) -> (
    int,
    bool,
    Seq<char>,
) {
    match c {
        Some(c) => directive_config_view(c),
        None => default,
    }
}

/// `allow-with-description`, as plain values.
pub open spec fn allow_with_description_view() -> (int, bool, Seq<char>) {
    (1, false, Seq::empty())
}

/// `true`/`false`, as plain values.
pub open spec fn bool_view(b: bool) -> (int, bool, Seq<char>) {
    (0, b, Seq::empty())
}

fn setting_or(c: &Option<DirectiveConfig>, default: DirectiveConfig) -> (r: DirectiveConfig)
    ensures
        directive_config_view(r) == match c {
            Some(c) => directive_config_view(*c),
            None => directive_config_view(default),
        },
{
    match c {
        Some(c) => c.duplicate(),
        None => default,
    }
}

impl Options {
    /// `@ts-expect-error`: allowed with a description by default.
    pub fn ts_expect_error(&self) -> (r: DirectiveConfig)
        ensures
            directive_config_view(r) == config_or(self.ts_expect_error, allow_with_description_view()),
    {
        setting_or(&self.ts_expect_error, AllowWithDescription::AllowWithDescription.into())
    }

    /// `@ts-ignore`: banned by default.
    pub fn ts_ignore(&self) -> (r: DirectiveConfig)
        ensures
            directive_config_view(r) == config_or(self.ts_ignore, bool_view(true)),
    {
        setting_or(&self.ts_ignore, true.into())
    }

    /// `@ts-nocheck`: banned by default.
    pub fn ts_nocheck(&self) -> (r: DirectiveConfig)
        ensures
            directive_config_view(r) == config_or(self.ts_nocheck, bool_view(true)),
    {
        setting_or(&self.ts_nocheck, true.into())
    }

    /// `@ts-check`: allowed by default.
    pub fn ts_check(&self) -> (r: DirectiveConfig)
        ensures
            directive_config_view(r) == config_or(self.ts_check, bool_view(false)),
    {
        setting_or(&self.ts_check, false.into())
    }

    /// The minimum description length: 3 by default.
    pub fn minimum_description_length(&self) -> (r: usize)
        ensures
            r == match self.minimum_description_length {
                Some(n) => n,
                None => 3,
            },
    {
        match self.minimum_description_length {
            Some(n) => n,
            None => 3,
        }
    }
}

/// The four directives.
#[derive(Copy, Clone, Debug, PartialEq, Eq, Structural)]
pub enum Directive {
    ExpectError,
    Ignore,
    Check,
    Nocheck,
}

/// The word of a directive, as written after `@ts-`.
pub open spec fn directive_word(d: Directive) -> Seq<char> {
    match d {
        Directive::ExpectError => seq!['e', 'x', 'p', 'e', 'c', 't', '-', 'e', 'r', 'r', 'o', 'r'],
        Directive::Ignore => seq!['i', 'g', 'n', 'o', 'r', 'e'],
        Directive::Check => seq!['c', 'h', 'e', 'c', 'k'],
        Directive::Nocheck => seq!['n', 'o', 'c', 'h', 'e', 'c', 'k'],
    }
}

/// The word of a directive.
pub fn directive_text(d: Directive) -> (r: Vec<char>)
    ensures
        r@ == directive_word(d),
{
    match d {
        Directive::ExpectError => vec!['e', 'x', 'p', 'e', 'c', 't', '-', 'e', 'r', 'r', 'o', 'r'],
        Directive::Ignore => vec!['i', 'g', 'n', 'o', 'r', 'e'],
        Directive::Check => vec!['c', 'h', 'e', 'c', 'k'],
        Directive::Nocheck => vec!['n', 'o', 'c', 'h', 'e', 'c', 'k'],
    }
}

} // verus!

verus! {

/// Line comments (`// ...`) and block comments (`/* ... */`).
#[derive(Copy, Clone, Debug, PartialEq, Eq, Structural)]
pub enum CommentType {
    Line,
    Block,
}

/// What may stand before `@ts-` in a line comment: slashes, then white space.
pub open spec fn is_line_prefix(p: Seq<char>) -> bool {
    exists|a: int| line_prefix_split(p, a)
}

/// The slashes of a line prefix end at `a`.
pub open spec fn line_prefix_split(p: Seq<char>, a: int) -> bool {
    0 <= a <= p.len() && (forall|i: int| 0 <= i < a ==> p[i] == '/') && (forall|i: int|
        a <= i < p.len() ==> is_white_space(p[i]))
}

/// What may stand before `@ts-` in a block comment: white space, then slashes
/// and stars, then white space.
pub open spec fn is_block_prefix(p: Seq<char>) -> bool {
    exists|a: int, b: int| block_prefix_split(p, a, b)
}

/// The slashes and stars of a block prefix stand at `a..b`.
pub open spec fn block_prefix_split(p: Seq<char>, a: int, b: int) -> bool {
    0 <= a <= b <= p.len() && (forall|i: int| 0 <= i < a ==> is_white_space(p[i])) && (forall|
        i: int,
    | a <= i < b ==> (p[i] == '/' || p[i] == '*')) && (forall|i: int|
        b <= i < p.len() ==> is_white_space(p[i]))
}

/// The prefix allowed for the comment type.
pub open spec fn prefix_allowed(ct: CommentType, p: Seq<char>) -> bool {
    match ct {
        CommentType::Line => is_line_prefix(p),
        CommentType::Block => is_block_prefix(p),
    }
}

/// `w` is written in `s` at index `k`.
pub open spec fn word_at(s: Seq<char>, k: int, w: Seq<char>) -> bool {
    0 <= k && k + w.len() <= s.len() && s.subrange(k, k + w.len()) == w
}

/// The `@ts-` marker.
pub open spec fn ts_marker() -> Seq<char> {
    seq!['@', 't', 's', '-']
}

/// The comment's contents read `<prefix>@ts-<directive>...` with the marker
/// at index `k`.
pub open spec fn directive_match(ct: CommentType, s: Seq<char>, k: int, d: Directive) -> bool {
    &&& 0 <= k <= s.len()
    &&& prefix_allowed(ct, s.take(k))
    &&& word_at(s, k, ts_marker())
    &&& word_at(s, k + 4, directive_word(d))
}

/// `e` is the end of the line that starts at `j`: the first line feed at or
/// after `j`, or the end of the text.
pub open spec fn is_line_end(s: Seq<char>, j: int, e: int) -> bool {
    &&& j <= e <= s.len()
    &&& forall|i: int| j <= i < e ==> s[i] != '\n'
    &&& (e == s.len() || s[e] == '\n')
}

/// The directive in a comment and its description (the rest of the line),
/// as the directive patterns `^/*\s*@ts-(directive)(.*)` (line comments)
/// and `^\s*(?:/|\*)*\s*@ts-(directive)(.*)` (block comments) capture them.
pub open spec fn spec_parse_directive(ct: CommentType, s: Seq<char>) -> Option<(Directive, Seq<char>)> {
    if exists|k: int, d: Directive| directive_match(ct, s, k, d) {
        let (k, d) = choose|k: int, d: Directive| directive_match(ct, s, k, d);
        let j = k + 4 + directive_word(d).len();
        let e = choose|e: int| is_line_end(s, j, e);
        Some((d, s.subrange(j, e)))
    } else {
        None
    }
}

proof fn lemma_prefix_chars(ct: CommentType, p: Seq<char>, i: int)
    requires
        prefix_allowed(ct, p),
        0 <= i < p.len(),
    ensures
        is_white_space(p[i]) || p[i] == '/' || p[i] == '*',
{
}

/// The marker index and the directive of a match are unique.
proof fn lemma_directive_match_unique(
    ct: CommentType,
    s: Seq<char>,
    k1: int,
    d1: Directive,
    k2: int,
    d2: Directive,
)
    requires
        directive_match(ct, s, k1, d1),
        directive_match(ct, s, k2, d2),
    ensures
        k1 == k2,
        d1 == d2,
{
    assert(s[k1] == s.subrange(k1, k1 + 4)[0]);
    assert(s[k2] == s.subrange(k2, k2 + 4)[0]);
    if k1 < k2 {
        assert(s.take(k2)[k1] == s[k1]);
        lemma_prefix_chars(ct, s.take(k2), k1);
    } else if k2 < k1 {
        assert(s.take(k1)[k2] == s[k2]);
        lemma_prefix_chars(ct, s.take(k1), k2);
    }
    assert(s[k1 + 4] == s.subrange(k1 + 4, k1 + 4 + directive_word(d1).len())[0]);
    assert(s[k1 + 4] == s.subrange(k2 + 4, k2 + 4 + directive_word(d2).len())[0]);
}

/// Line ends are unique.
proof fn lemma_line_end_unique(s: Seq<char>, j: int, e1: int, e2: int)
    requires
        is_line_end(s, j, e1),
        is_line_end(s, j, e2),
    ensures
        e1 == e2,
{
}

/// Whether `w` is written in `s` at index `k`.
pub(crate) fn word_at_exec(s: &Vec<char>, k: usize, w: &Vec<char>) -> (r: bool)
    ensures
        r == word_at(s@, k as int, w@),
{
    if k > s.len() || w.len() > s.len() - k {
        return false;
    }
    let n = s.len();
    let mut i: usize = 0;
    while i < w.len()
        invariant
            n == s@.len(),
            k + w@.len() <= s@.len(),
            0 <= i <= w@.len(),
            forall|j: int| 0 <= j < i ==> s@[k + j] == w@[j],
        decreases w.len() - i,
    {
        if s[k + i] != w[i] {
            assert(s@.subrange(k as int, k + w@.len())[i as int] == s@[k + i]);
            return false;
        }
        i = i + 1;
    }
    assert(s@.subrange(k as int, k + w@.len()) =~= w@);
    true
}

/// The index of the first character at or after `from` that does not satisfy
/// the class (0: white space, 1: slash, 2: slash or star, 3: anything but a
/// line feed).
pub(crate) fn scan_class(s: &Vec<char>, from: usize, class: u8) -> (r: usize)
    requires
        from <= s@.len(),
    ensures
        from <= r <= s@.len(),
        forall|i: int| from <= i < r ==> in_class(s@[i], class),
        r < s@.len() ==> !in_class(s@[r as int], class),
{
    let mut i = from;
    while i < s.len()
        invariant
            from <= i <= s@.len(),
            forall|j: int| from <= j < i ==> in_class(s@[j], class),
        decreases s.len() - i,
    {
        let c = s[i];
        let inside = if class == 0 {
            white_space(c)
        } else if class == 1 {
            c == '/'
        } else if class == 2 {
            c == '/' || c == '*'
        } else {
            c != '\n'
        };
        if !inside {
            return i;
        }
        i = i + 1;
    }
    i
}

/// The character classes that the scan uses.
pub open spec fn in_class(c: char, class: u8) -> bool {
    if class == 0 {
        is_white_space(c)
    } else if class == 1 {
        c == '/'
    } else if class == 2 {
        c == '/' || c == '*'
    } else {
        c != '\n'
    }
}

/// The index where the prefix ends, found greedily.
fn prefix_end(ct: CommentType, s: &Vec<char>) -> (k: usize)
    ensures
        k <= s@.len(),
        prefix_allowed(ct, s@.take(k as int)),
        forall|k2: int, d: Directive| directive_match(ct, s@, k2, d) ==> k2 == k,
{
    match ct {
        CommentType::Line => {
            let a = scan_class(s, 0, 1);
            let b = scan_class(s, a, 0);
            proof {
                let p = s@.take(b as int);
                assert(forall|i: int| 0 <= i < a ==> p[i] == '/');
                assert(forall|i: int| a <= i < p.len() ==> is_white_space(p[i]));
                assert(line_prefix_split(p, a as int));
                assert forall|k2: int, d: Directive| directive_match(ct, s@, k2, d) implies k2 == b by {
                    assert(s@[k2] == s@.subrange(k2, k2 + 4)[0]);
                    let q = s@.take(k2);
                    let a2 = choose|a2: int| line_prefix_split(q, a2);
                    if a2 < a {
                        assert(s@[a2] == '/');
                        if a2 < k2 {
                            assert(q[a2] == s@[a2]);
                        }
                    } else if a2 > a {
                        assert(q[a as int] == s@[a as int]);
                    }
                    if b < k2 {
                        assert(q[b as int] == s@[b as int]);
                    } else if b > k2 {
                        assert(is_white_space(s@[k2]));
                    }
                }
            }
            b
        },
        CommentType::Block => {
            let a = scan_class(s, 0, 0);
            let b = scan_class(s, a, 2);
            let c = scan_class(s, b, 0);
            proof {
                let p = s@.take(c as int);
                assert(forall|i: int| 0 <= i < a ==> is_white_space(p[i]));
                assert(forall|i: int| a <= i < b ==> (p[i] == '/' || p[i] == '*'));
                assert(forall|i: int| b <= i < p.len() ==> is_white_space(p[i]));
                assert(block_prefix_split(p, a as int, b as int));
                assert forall|k2: int, d: Directive| directive_match(ct, s@, k2, d) implies k2 == c by {
                    assert(s@[k2] == s@.subrange(k2, k2 + 4)[0]);
                    let q = s@.take(k2);
                    let (a2, b2) = choose|a2: int, b2: int| block_prefix_split(q, a2, b2);
                    assert(forall|i: int| 0 <= i < k2 ==> q[i] == s@[i]);
                    if a2 == b2 {
                        if a < k2 {
                            assert(is_white_space(q[a as int]));
                        } else if a > k2 {
                            assert(is_white_space(s@[k2]));
                        }
                        if b > k2 {
                            assert(s@[k2] == '/' || s@[k2] == '*');
                        }
                        if c > k2 {
                            assert(is_white_space(s@[k2]));
                        }
                    } else {
                        if a < a2 {
                            assert(is_white_space(q[a as int]));
                            assert(!in_class(s@[a as int], 0));
                        } else if a > a2 {
                            assert(q[a2] == '/' || q[a2] == '*');
                            assert(in_class(s@[a2], 0));
                        }
                        assert(a == a2);
                        if b < b2 {
                            assert(q[b as int] == '/' || q[b as int] == '*');
                        } else if b > b2 {
                            assert(a == a2);
                            assert(in_class(s@[b2], 2));
                            if b2 < k2 {
                                assert(is_white_space(q[b2]));
                            }
                        }
                        if c < k2 {
                            assert(is_white_space(q[c as int]));
                        } else if c > k2 {
                            assert(is_white_space(s@[k2]));
                        }
                    }
                }
            }
            c
        },
    }
}

} // verus!

verus! {

/// A directive found in a comment, with its description.
pub struct DirectiveMatch {
    pub directive: Directive,
    pub description: Vec<char>,
}

/// The characters `s[from..to]`.
pub(crate) fn copy_range(s: &Vec<char>, from: usize, to: usize) -> (r: Vec<char>)
    requires
        from <= to <= s@.len(),
    ensures
        r@ == s@.subrange(from as int, to as int),
{
    let mut r: Vec<char> = Vec::new();
    let mut i = from;
    while i < to
        invariant
            from <= i <= to <= s@.len(),
            r@ == s@.subrange(from as int, i as int),
        decreases to - i,
    {
        r.push(s[i]);
        assert(s@.subrange(from as int, i + 1) =~= s@.subrange(from as int, i as int).push(s@[i as int]));
        i = i + 1;
    }
    r
}

/// Looks for a `@ts-<directive>` at the start of a comment's contents.
pub fn parse_directive(ct: CommentType, contents: &str) -> (r: Option<DirectiveMatch>)
    ensures
        match r {
            None => spec_parse_directive(ct, contents@) is None,
            Some(m) => spec_parse_directive(ct, contents@) == Some((m.directive, m.description@)),
        },
{
    let s = chars_of(contents);
    let k = prefix_end(ct, &s);
    let marker = vec!['@', 't', 's', '-'];
    if !word_at_exec(&s, k, &marker) {
        proof {
            assert forall|k2: int, d: Directive| !directive_match(ct, s@, k2, d) by {
                if directive_match(ct, s@, k2, d) {
                    assert(k2 == k);
                }
            }
        }
        return None;
    }
    let n = s.len();
    let candidates = vec![Directive::ExpectError, Directive::Ignore, Directive::Check, Directive::Nocheck];
    let mut found: Option<Directive> = None;
    let mut i: usize = 0;
    while i < candidates.len()
        invariant
            0 <= i <= candidates@.len(),
            candidates@ == seq![Directive::ExpectError, Directive::Ignore, Directive::Check, Directive::Nocheck],
            k + 4 <= s@.len(),
            n == s@.len(),
            match found {
                Some(d) => word_at(s@, k + 4, directive_word(d)),
                None => forall|j: int| 0 <= j < i ==> !word_at(s@, k + 4, directive_word(#[trigger] candidates@[j])),
            },
        decreases candidates.len() - i,
    {
        if found.is_none() {
            let d = candidates[i];
            let w = directive_text(d);
            if word_at_exec(&s, k + 4, &w) {
                found = Some(d);
            }
        }
        i = i + 1;
    }
    let d = match found {
        None => {
            proof {
                assert forall|k2: int, d: Directive| !directive_match(ct, s@, k2, d) by {
                    if directive_match(ct, s@, k2, d) {
                        assert(k2 == k);
                        match d {
                            Directive::ExpectError => assert(candidates@[0] == d),
                            Directive::Ignore => assert(candidates@[1] == d),
                            Directive::Check => assert(candidates@[2] == d),
                            Directive::Nocheck => assert(candidates@[3] == d),
                        }
                    }
                }
            }
            return None;
        },
        Some(d) => d,
    };
    let w = directive_text(d);
    let j = k + 4 + w.len();
    let e = scan_class(&s, j, 3);
    let description = copy_range(&s, j, e);
    proof {
        assert(directive_match(ct, s@, k as int, d));
        let (k2, d2) = choose|k2: int, d2: Directive| directive_match(ct, s@, k2, d2);
        lemma_directive_match_unique(ct, s@, k as int, d, k2, d2);
        assert(is_line_end(s@, j as int, e as int));
        let e2 = choose|e2: int| is_line_end(s@, j as int, e2);
        lemma_line_end_unique(s@, j as int, e as int, e2);
    }
    Some(DirectiveMatch { directive: d, description })
}

/// The text without leading white space.
pub open spec fn trim_start(s: Seq<char>) -> Seq<char>
    decreases s.len(),
{
    if s.len() > 0 && is_white_space(s[0]) {
        trim_start(s.drop_first())
    } else {
        s
    }
}

/// The text without trailing white space.
pub open spec fn trim_end(s: Seq<char>) -> Seq<char>
    decreases s.len(),
{
    if s.len() > 0 && is_white_space(s.last()) {
        trim_end(s.drop_last())
    } else {
        s
    }
}

/// The text without leading and trailing white space (`str::trim`).
pub open spec fn spec_trim(s: Seq<char>) -> Seq<char> {
    trim_end(trim_start(s))
}

/// Strips white space at both ends.
pub fn trim_chars(s: &Vec<char>) -> (r: Vec<char>)
    ensures
        r@ == spec_trim(s@),
{
    let n = s.len();
    let mut a: usize = 0;
    assert(s@.subrange(0, n as int) =~= s@);
    while a < n && white_space(s[a])
        invariant
            n == s@.len(),
            0 <= a <= n,
            trim_start(s@) == trim_start(s@.subrange(a as int, n as int)),
        decreases n - a,
    {
        assert(s@.subrange(a as int, n as int).drop_first() =~= s@.subrange(a + 1, n as int));
        a = a + 1;
    }
    assert(trim_start(s@.subrange(a as int, n as int)) == s@.subrange(a as int, n as int));
    let mut b: usize = n;
    while b > a && white_space(s[b - 1])
        invariant
            n == s@.len(),
            0 <= a <= b <= n,
            trim_end(s@.subrange(a as int, n as int)) == trim_end(s@.subrange(a as int, b as int)),
        decreases b - a,
    {
        assert(s@.subrange(a as int, b as int).drop_last() =~= s@.subrange(a as int, b - 1));
        b = b - 1;
    }
    assert(trim_end(s@.subrange(a as int, b as int)) == s@.subrange(a as int, b as int));
    copy_range(s, a, b)
}

} // verus!

verus! {

/// The text compiles as a regular expression.
pub uninterp spec fn regex_compiles(pattern: Seq<char>) -> bool;

/// The compiled regular expression finds a match somewhere in the text.
pub uninterp spec fn regex_finds_match(pattern: Seq<char>, text: Seq<char>) -> bool;

/// `regex::Regex::new(pattern)` and then `Regex::is_match(text)`. Claimed: a
/// result exactly when the pattern compiles (the named `regex_compiles`), and
/// then whether it matches somewhere in the text (the named
/// `regex_finds_match`). What the regular expressions accept is not stated.
#[verifier::external_body]
fn description_format_matches(pattern: &str, text: &str) -> (r: Option<bool>)
    ensures
        (r is Some) == regex_compiles(pattern@),
        r matches Some(b) ==> b == regex_finds_match(pattern@, text@),
{
    match regex::Regex::new(pattern) {
        Ok(re) => Some(re.is_match(text)),
        Err(_) => None,
    }
}

/// The description formats, one slot per directive.
pub struct DescriptionFormats {
    pub expect_error: Option<String>,
    pub ignore: Option<String>,
    pub nocheck: Option<String>,
    pub check: Option<String>,
}

/// The format for a directive, if any.
pub open spec fn format_for(f: DescriptionFormats, d: Directive) -> Option<Seq<char>> {
    let slot = match d {
        Directive::ExpectError => f.expect_error,
        Directive::Ignore => f.ignore,
        Directive::Nocheck => f.nocheck,
        Directive::Check => f.check,
    };
    match slot {
        Some(s) => Some(s@),
        None => None,
    }
}

/// No formats.
pub fn no_description_formats() -> (r: DescriptionFormats)
    ensures
        forall|d: Directive| format_for(r, d) is None,
{
    DescriptionFormats { expect_error: None, ignore: None, nocheck: None, check: None }
}

/// A description format that does not compile.
pub struct InvalidDescriptionFormat {
    pub directive: Directive,
    pub format: String,
}

/// Records the format of a directive whose setting asks for one.
pub fn populate_description_format(
    description_formats: &mut DescriptionFormats,
    option: DirectiveConfig,
    directive: Directive,
) -> (r: Result<(), InvalidDescriptionFormat>)
    ensures
        match option {
            DirectiveConfig::DescriptionFormat(f) => if regex_compiles(f.description_format@) {
                &&& r is Ok
                &&& format_for(*final(description_formats), directive) == Some(f.description_format@)
                &&& forall|d: Directive| d != directive ==> format_for(*final(description_formats), d)
                    == format_for(*old(description_formats), d)
            } else {
                &&& r matches Err(e) && e.directive == directive && e.format@ == f.description_format@
                &&& forall|d: Directive| format_for(*final(description_formats), d) == format_for(
                    *old(description_formats),
                    d,
                )
            },
            _ => r is Ok && forall|d: Directive| format_for(*final(description_formats), d)
                == format_for(*old(description_formats), d),
        },
{
    match option {
        DirectiveConfig::DescriptionFormat(f) => {
            let probe = description_format_matches(f.description_format.as_str(), "");
            if probe.is_none() {
                return Err(InvalidDescriptionFormat { directive, format: f.description_format });
            }
            let pattern = f.description_format;
            match directive {
                Directive::ExpectError => description_formats.expect_error = Some(pattern),
                Directive::Ignore => description_formats.ignore = Some(pattern),
                Directive::Nocheck => description_formats.nocheck = Some(pattern),
                Directive::Check => description_formats.check = Some(pattern),
            }
            Ok(())
        },
        _ => Ok(()),
    }
}

/// The rule's settings, resolved once per configuration.
pub struct BanTsCommentConfig {
    pub description_formats: DescriptionFormats,
    pub ts_expect_error: DirectiveConfig,
    pub ts_ignore: DirectiveConfig,
    pub ts_nocheck: DirectiveConfig,
    pub ts_check: DirectiveConfig,
    pub minimum_description_length: usize,
}

/// The setting of a directive.
pub open spec fn setting_for(c: BanTsCommentConfig, d: Directive) -> (int, bool, Seq<char>) {
    match d {
        Directive::ExpectError => directive_config_view(c.ts_expect_error),
        Directive::Ignore => directive_config_view(c.ts_ignore),
        Directive::Nocheck => directive_config_view(c.ts_nocheck),
        Directive::Check => directive_config_view(c.ts_check),
    }
}

/// The settings that the options give, by directive.
pub open spec fn option_setting(o: Options, d: Directive) -> (int, bool, Seq<char>) {
    match d {
        Directive::ExpectError => config_or(o.ts_expect_error, allow_with_description_view()),
        Directive::Ignore => config_or(o.ts_ignore, bool_view(true)),
        Directive::Nocheck => config_or(o.ts_nocheck, bool_view(true)),
        Directive::Check => config_or(o.ts_check, bool_view(false)),
    }
}

/// The format that a setting asks for, if it compiles.
pub open spec fn setting_format_ok(s: (int, bool, Seq<char>)) -> bool {
    s.0 == 2 ==> regex_compiles(s.2)
}

/// Every recorded description format compiles.
pub open spec fn formats_compile(f: DescriptionFormats) -> bool {
    forall|d: Directive| #[trigger] format_for(f, d) matches Some(p) ==> regex_compiles(p)
}

/// Resolves the options; fails when a description format does not compile
/// (checked in the order `ts-expect-error`, `ts-ignore`, `ts-nocheck`,
/// `ts-check`).
pub fn ban_ts_comment_config(options: &Options) -> (r: Result<BanTsCommentConfig, InvalidDescriptionFormat>)
    ensures
        r is Ok == (setting_format_ok(option_setting(*options, Directive::ExpectError))
            && setting_format_ok(option_setting(*options, Directive::Ignore)) && setting_format_ok(
            option_setting(*options, Directive::Nocheck),
        ) && setting_format_ok(option_setting(*options, Directive::Check))),
        r matches Err(e) ==> option_setting(*options, e.directive).0 == 2 && option_setting(
            *options,
            e.directive,
        ).2 == e.format@ && !regex_compiles(e.format@),
        r matches Ok(c) ==> {
            &&& formats_compile(c.description_formats)
            &&& c.minimum_description_length == match options.minimum_description_length {
                Some(n) => n,
                None => 3,
            }
            &&& forall|d: Directive| setting_for(c, d) == option_setting(*options, d)
            &&& forall|d: Directive|
                format_for(c.description_formats, d) == if option_setting(*options, d).0 == 2 {
                    Some(option_setting(*options, d).2)
                } else {
                    None
                }
        },
{
    let mut description_formats = no_description_formats();
    populate_description_format(&mut description_formats, options.ts_expect_error(), Directive::ExpectError)?;
    populate_description_format(&mut description_formats, options.ts_ignore(), Directive::Ignore)?;
    populate_description_format(&mut description_formats, options.ts_nocheck(), Directive::Nocheck)?;
    populate_description_format(&mut description_formats, options.ts_check(), Directive::Check)?;
    let c = BanTsCommentConfig {
        description_formats,
        ts_expect_error: options.ts_expect_error(),
        ts_ignore: options.ts_ignore(),
        ts_nocheck: options.ts_nocheck(),
        ts_check: options.ts_check(),
        minimum_description_length: options.minimum_description_length(),
    };
    assert forall|d: Directive| #[trigger] format_for(c.description_formats, d) is Some implies regex_compiles(format_for(c.description_formats, d)->0) by {
        match d {
            Directive::ExpectError => {},
            Directive::Ignore => {},
            Directive::Nocheck => {},
            Directive::Check => {},
        }
    }
    assert forall|d: Directive| setting_for(c, d) == option_setting(*options, d) by {
        match d {
            Directive::ExpectError => {},
            Directive::Ignore => {},
            Directive::Nocheck => {},
            Directive::Check => {},
        }
    }
    Ok(c)
}

} // verus!

verus! {

/// The reports of the rule, with their data.
pub enum BanTsCommentMessage {
    /// `@ts-ignore` is banned: `@ts-expect-error` does the same, safer.
    TsIgnoreInsteadOfExpectError,
    /// The directive is banned.
    TsDirectiveComment { directive: Directive },
    /// The directive needs a description of the given length.
    TsDirectiveCommentRequiresDescription { directive: Directive, minimum_description_length: usize },
    /// The description does not match the format.
    TsDirectiveCommentDescriptionNotMatchPattern { directive: Directive, format: String },
}

/// A report as plain values: a tag, the directive, the length and the format.
pub open spec fn message_view(m: BanTsCommentMessage) -> (int, Option<Directive>, int, Seq<char>) {
    match m {
        BanTsCommentMessage::TsIgnoreInsteadOfExpectError => (0, None, 0, Seq::empty()),
        BanTsCommentMessage::TsDirectiveComment { directive } => (1, Some(directive), 0, Seq::empty()),
        BanTsCommentMessage::TsDirectiveCommentRequiresDescription {
            directive,
            minimum_description_length,
        } => (2, Some(directive), minimum_description_length as int, Seq::empty()),
        BanTsCommentMessage::TsDirectiveCommentDescriptionNotMatchPattern { directive, format } => (
            3,
            Some(directive),
            0,
            format@,
        ),
    }
}

/// What the rule says of a directive with the given description, given
/// whether the description matched the directive's format (`None` when the
/// directive has no format).
pub open spec fn directive_message_given(
    config: BanTsCommentConfig,
    d: Directive,
    description: Seq<char>,
    format_matched: Option<bool>,
) -> Option<(int, Option<Directive>, int, Seq<char>)> {
    let s = setting_for(config, d);
    if s.0 == 0 && s.1 {
        if d == Directive::Ignore {
            Some((0, None, 0, Seq::empty()))
        } else {
            Some((1, Some(d), 0, Seq::empty()))
        }
    } else if s.0 == 1 || s.0 == 2 {
        if string_length(spec_trim(description)) < config.minimum_description_length {
            Some((2, Some(d), config.minimum_description_length as int, Seq::empty()))
        } else if format_for(config.description_formats, d) is Some && format_matched == Some(false) {
            Some((3, Some(d), 0, format_for(config.description_formats, d)->0))
        } else {
            None
        }
    } else {
        None
    }
}

/// What the rule says of a directive with the given description.
pub open spec fn directive_message(config: BanTsCommentConfig, d: Directive, description: Seq<char>) -> Option<
    (int, Option<Directive>, int, Seq<char>),
> {
    directive_message_given(
        config,
        d,
        description,
        match format_for(config.description_formats, d) {
            Some(p) => Some(regex_finds_match(p, description)),
            None => None,
        },
    )
}

fn format_slot(f: &DescriptionFormats, d: Directive) -> (r: Option<&String>)
    ensures
        match r {
            Some(s) => format_for(*f, d) == Some(s@),
            None => format_for(*f, d) is None,
        },
{
    match d {
        Directive::ExpectError => f.expect_error.as_ref(),
        Directive::Ignore => f.ignore.as_ref(),
        Directive::Nocheck => f.nocheck.as_ref(),
        Directive::Check => f.check.as_ref(),
    }
}

fn setting_ref(config: &BanTsCommentConfig, d: Directive) -> (r: &DirectiveConfig)
    ensures
        directive_config_view(*r) == setting_for(*config, d),
{
    match d {
        Directive::ExpectError => &config.ts_expect_error,
        Directive::Ignore => &config.ts_ignore,
        Directive::Nocheck => &config.ts_nocheck,
        Directive::Check => &config.ts_check,
    }
}

/// Decides on a directive once the description has been held against its
/// format (`format_matched` is `None` when there is no format).
pub fn directive_outcome(
    config: &BanTsCommentConfig,
    d: Directive,
    description: &Vec<char>,
    format_matched: Option<bool>,
) -> (r: Option<BanTsCommentMessage>)
    ensures
        match r {
            None => directive_message_given(*config, d, description@, format_matched) is None,
            Some(m) => directive_message_given(*config, d, description@, format_matched) == Some(
                message_view(m),
            ),
        },
{
    match setting_ref(config, d) {
        DirectiveConfig::Bool(true) => {
            if d == Directive::Ignore {
                Some(BanTsCommentMessage::TsIgnoreInsteadOfExpectError)
            } else {
                Some(BanTsCommentMessage::TsDirectiveComment { directive: d })
            }
        },
        DirectiveConfig::AllowWithDescription(_) | DirectiveConfig::DescriptionFormat(_) => {
            let trimmed = trim_chars(description);
            let trimmed_text = string_of_chars(trimmed.as_slice());
            if get_string_length(trimmed_text.as_str()) < config.minimum_description_length {
                Some(
                    BanTsCommentMessage::TsDirectiveCommentRequiresDescription {
                        directive: d,
                        minimum_description_length: config.minimum_description_length,
                    },
                )
            } else {
                match format_slot(&config.description_formats, d) {
                    Some(format) => if format_matched == Some(false) {
                        Some(
                            BanTsCommentMessage::TsDirectiveCommentDescriptionNotMatchPattern {
                                directive: d,
                                format: format.clone(),
                            },
                        )
                    } else {
                        None
                    },
                    None => None,
                }
            }
        },
        _ => None,
    }
}

/// A comment as the rule reads it: its type, its contents (without the
/// comment markers) and its range.
pub struct CommentInput {
    pub comment_type: CommentType,
    pub contents: String,
    pub start: usize,
    pub end: usize,
}

/// The outcome for one comment: `None` when it holds no directive, otherwise
/// what the rule says of the directive.
pub open spec fn comment_outcome(config: BanTsCommentConfig, c: CommentInput) -> Option<
    Option<(int, Option<Directive>, int, Seq<char>)>,
> {
    match spec_parse_directive(c.comment_type, c.contents@) {
        None => None,
        Some((d, description)) => Some(directive_message(config, d, description)),
    }
}

/// How one comment went.
pub enum CommentCheck {
    /// The comment holds no directive.
    NotDirective,
    /// The directive is allowed as written.
    Allowed,
    /// The directive is reported.
    Reported(BanTsCommentMessage),
}

/// Checks one comment.
pub fn check_comment(config: &BanTsCommentConfig, comment: &CommentInput) -> (r: CommentCheck)
    requires
        formats_compile(config.description_formats),
    ensures
        match r {
            CommentCheck::NotDirective => comment_outcome(*config, *comment) is None,
            CommentCheck::Allowed => comment_outcome(*config, *comment) == Some(
                None::<(int, Option<Directive>, int, Seq<char>)>,
            ),
            CommentCheck::Reported(m) => comment_outcome(*config, *comment) == Some(
                Some(message_view(m)),
            ),
        },
{
    let m = match parse_directive(comment.comment_type, comment.contents.as_str()) {
        None => return CommentCheck::NotDirective,
        Some(m) => m,
    };
    let format_matched = match format_slot(&config.description_formats, m.directive) {
        Some(format) => {
            let description = string_of_chars(m.description.as_slice());
            description_format_matches(format.as_str(), description.as_str())
        },
        None => None,
    };
    proof {
        match format_for(config.description_formats, m.directive) {
            Some(p) => {
                assert(regex_compiles(p) ==> format_matched == Some(regex_finds_match(p, m.description@)));
            },
            None => {},
        }
    }
    match directive_outcome(config, m.directive, &m.description, format_matched) {
        None => CommentCheck::Allowed,
        Some(msg) => CommentCheck::Reported(msg),
    }
}

} // verus!

verus! {

/// A reported comment.
pub struct BanTsCommentViolation {
    pub start: usize,
    pub end: usize,
    pub message: BanTsCommentMessage,
}

/// A report as plain values.
pub open spec fn violation_view(v: BanTsCommentViolation) -> (int, int, (int, Option<Directive>, int, Seq<char>)) {
    (v.start as int, v.end as int, message_view(v.message))
}

/// The reports for a file's comments, in order. The comments are read in
/// order until the first one that holds no directive: that one and those
/// after it are not looked at.
pub open spec fn comments_messages(config: BanTsCommentConfig, cs: Seq<CommentInput>) -> Seq<
    (int, int, (int, Option<Directive>, int, Seq<char>)),
>
    decreases cs.len(),
{
    if cs.len() == 0 {
        Seq::empty()
    } else {
        match comment_outcome(config, cs[0]) {
            None => Seq::empty(),
            Some(None) => comments_messages(config, cs.drop_first()),
            Some(Some(m)) => seq![(cs[0].start as int, cs[0].end as int, m)] + comments_messages(
                config,
                cs.drop_first(),
            ),
        }
    }
}

/// Checks a file's comments.
pub fn check_comments(config: &BanTsCommentConfig, comments: &Vec<CommentInput>) -> (r: Vec<
    BanTsCommentViolation,
>)
    requires
        formats_compile(config.description_formats),
    ensures
        r@.map_values(|v: BanTsCommentViolation| violation_view(v)) == comments_messages(
            *config,
            comments@,
        ),
{
    let mut out: Vec<BanTsCommentViolation> = Vec::new();
    let mut i: usize = 0;
    assert(comments@.subrange(0, comments@.len() as int) =~= comments@);
    assert(out@.map_values(|v: BanTsCommentViolation| violation_view(v)) =~= Seq::empty());
    assert(Seq::<(int, int, (int, Option<Directive>, int, Seq<char>))>::empty() + comments_messages(*config, comments@)
        =~= comments_messages(*config, comments@));
    while i < comments.len()
        invariant
            0 <= i <= comments@.len(),
            formats_compile(config.description_formats),
            out@.map_values(|v: BanTsCommentViolation| violation_view(v)) + comments_messages(
                *config,
                comments@.subrange(i as int, comments@.len() as int),
            ) == comments_messages(*config, comments@),
        decreases comments.len() - i,
    {
        let ghost rest = comments@.subrange(i as int, comments@.len() as int);
        assert(rest.drop_first() =~= comments@.subrange(i + 1, comments@.len() as int));
        assert(rest[0] == comments@[i as int]);
        let ghost before = out@.map_values(|v: BanTsCommentViolation| violation_view(v));
        match check_comment(config, &comments[i]) {
            CommentCheck::NotDirective => {
                assert(before + Seq::empty() =~= before);
                return out;
            },
            CommentCheck::Allowed => {},
            CommentCheck::Reported(message) => {
                let c = &comments[i];
                out.push(BanTsCommentViolation { start: c.start, end: c.end, message });
                let ghost after = out@.map_values(|v: BanTsCommentViolation| violation_view(v));
                assert(after =~= before.push(violation_view(out@.last())));
                assert(before + seq![violation_view(out@.last())] + comments_messages(*config, rest.drop_first())
                    =~= before.push(violation_view(out@.last())) + comments_messages(*config, rest.drop_first()));
                assert(before + (seq![violation_view(out@.last())] + comments_messages(*config, rest.drop_first()))
                    =~= before + seq![violation_view(out@.last())] + comments_messages(*config, rest.drop_first()));
            },
        }
        i = i + 1;
    }
    assert(comments@.subrange(i as int, comments@.len() as int) =~= Seq::<CommentInput>::empty());
    assert(out@.map_values(|v: BanTsCommentViolation| violation_view(v)) + Seq::empty()
        =~= out@.map_values(|v: BanTsCommentViolation| violation_view(v)));
    out
}

/// The rule over one file: resolves the options, then checks the file's
/// comments.
pub fn ban_ts_comment_rule(options: &Options, comments: &Vec<CommentInput>) -> (r: Result<
    Vec<BanTsCommentViolation>,
    InvalidDescriptionFormat,
>)
    ensures
        match ban_ts_comment_config_outcome(*options) {
            Some(c) => r matches Ok(v) && v@.map_values(|v: BanTsCommentViolation| violation_view(v))
                == comments_messages(c, comments@),
            None => r is Err,
        },
{
    let config = ban_ts_comment_config(options)?;
    let ghost c = ban_ts_comment_config_outcome(*options)->0;
    proof {
        assert(config_matches(config, *options));
    }
    let v = check_comments(&config, comments);
    proof {
        lemma_comments_messages_depend_on_view(config, c, comments@);
    }
    Ok(v)
}

/// The configuration resolved from the options reads as: the same settings,
/// the same length, the compiling formats.
pub open spec fn config_matches(c: BanTsCommentConfig, o: Options) -> bool {
    &&& c.minimum_description_length == match o.minimum_description_length {
        Some(n) => n,
        None => 3,
    }
    &&& forall|d: Directive| setting_for(c, d) == option_setting(o, d)
    &&& forall|d: Directive|
        format_for(c.description_formats, d) == if option_setting(o, d).0 == 2 {
            Some(option_setting(o, d).2)
        } else {
            None
        }
}

/// Some configuration resolved from the options, when they are valid.
pub open spec fn ban_ts_comment_config_outcome(o: Options) -> Option<BanTsCommentConfig> {
    if setting_format_ok(option_setting(o, Directive::ExpectError)) && setting_format_ok(
        option_setting(o, Directive::Ignore),
    ) && setting_format_ok(option_setting(o, Directive::Nocheck)) && setting_format_ok(
        option_setting(o, Directive::Check),
    ) {
        Some(choose|c: BanTsCommentConfig| config_matches(c, o))
    } else {
        None
    }
}

/// Two configurations that read the same give the same reports.
proof fn lemma_comments_messages_depend_on_view(
    c1: BanTsCommentConfig,
    c2: BanTsCommentConfig,
    cs: Seq<CommentInput>,
)
    requires
        c1.minimum_description_length == c2.minimum_description_length,
        forall|d: Directive| setting_for(c1, d) == setting_for(c2, d),
        forall|d: Directive| format_for(c1.description_formats, d) == format_for(c2.description_formats, d),
    ensures
        comments_messages(c1, cs) == comments_messages(c2, cs),
    decreases cs.len(),
{
    if cs.len() > 0 {
        lemma_comments_messages_depend_on_view(c1, c2, cs.drop_first());
    }
}

/// With its default setting, `@ts-check` is never reported.
pub proof fn ts_check_is_allowed_by_default(c: BanTsCommentConfig, o: Options, description: Seq<char>)
    requires
        config_matches(c, o),
        o.ts_check is None,
    ensures
        directive_message(c, Directive::Check, description) is None,
{
    assert(setting_for(c, Directive::Check) == option_setting(o, Directive::Check));
}

/// With its default setting, `@ts-ignore` is always reported, with the advice
/// to use `@ts-expect-error`.
pub proof fn ts_ignore_is_banned_by_default(c: BanTsCommentConfig, o: Options, description: Seq<char>)
    requires
        config_matches(c, o),
        o.ts_ignore is None,
    ensures
        directive_message(c, Directive::Ignore, description) == Some(
            (0int, None::<Directive>, 0int, Seq::<char>::empty()),
        ),
{
    assert(setting_for(c, Directive::Ignore) == option_setting(o, Directive::Ignore));
}

/// A directive set to `true` is reported whatever its description; one set
/// to `false` never is.
pub proof fn banned_and_allowed_directives(c: BanTsCommentConfig, d: Directive, description: Seq<char>)
    ensures
        setting_for(c, d) == bool_view(true) ==> directive_message(c, d, description) is Some,
        setting_for(c, d) == bool_view(false) ==> directive_message(c, d, description) is None,
{
}

/// Under `allow-with-description`, a directive is reported exactly when its
/// trimmed description is shorter than the minimum length, and then with that
/// length.
pub proof fn description_length_decides(c: BanTsCommentConfig, d: Directive, description: Seq<char>)
    requires
        setting_for(c, d) == allow_with_description_view(),
        format_for(c.description_formats, d) is None,
    ensures
        directive_message(c, d, description) is Some <==> string_length(spec_trim(description))
            < c.minimum_description_length,
        directive_message(c, d, description) is Some ==> directive_message(c, d, description)
            == Some(
            (2int, Some(d), c.minimum_description_length as int, Seq::<char>::empty()),
        ),
{
}

/// The comments after the first one that holds no directive are not looked
/// at: the reports are those of the comments before it.
pub proof fn comments_after_a_plain_comment_are_not_examined(
    c: BanTsCommentConfig,
    cs: Seq<CommentInput>,
    i: int,
)
    requires
        0 <= i < cs.len(),
        comment_outcome(c, cs[i]) is None,
    ensures
        comments_messages(c, cs) == comments_messages(c, cs.take(i)),
    decreases i,
{
    if i == 0 {
        assert(cs.take(0) =~= Seq::<CommentInput>::empty());
    } else {
        comments_after_a_plain_comment_are_not_examined(c, cs.drop_first(), i - 1);
        assert(cs.take(i).drop_first() =~= cs.drop_first().take(i - 1));
        assert(cs.take(i)[0] == cs[0]);
    }
}

} // verus!
