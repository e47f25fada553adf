//! Small helpers shared by several rules.
use unicode_segmentation::UnicodeSegmentation;
use vstd::prelude::*;
use vstd::string::StrSliceExecFns;

use crate::rules::ban_ts_comment::copy_range;
use crate::syntax::{field_child, find_field, find_first_named, first_named_child, Field, NodeKind, SyntaxNode};
use crate::text::{chars_of, concat, string_of_chars};

verus! {

/// The number of extended grapheme clusters in a text.
pub uninterp spec fn extended_grapheme_count(s: Seq<char>) -> nat;

/// `UnicodeSegmentation::graphemes(s, true)` followed by counting the clusters.
/// Claimed: the count is the named `extended_grapheme_count` of the text; it is
/// zero exactly for the empty text, and never more than the number of
/// characters (each cluster is a non-empty run of characters).
#[verifier::external_body]
fn count_graphemes(s: &str) -> (r: usize)
    ensures
        r == extended_grapheme_count(s@),
        (r == 0) == (s@.len() == 0),
        r <= s@.len(),
{
    s.graphemes(true).count()
}

/// The length of a text as a reader perceives it: its byte length when it is
/// all ASCII, otherwise its number of extended grapheme clusters.
pub open spec fn string_length(s: Seq<char>) -> nat {
    if vstd::utf8::is_ascii_chars(s) {
        s.len()
    } else {
        extended_grapheme_count(s)
    }
}

/// The length of a text: bytes for ASCII text, grapheme clusters otherwise.
pub fn get_string_length(value: &str) -> (r: usize)
    ensures
        r == string_length(value@),
        (r == 0) == (value@.len() == 0),
        r <= value@.len(),
{
    if value.is_ascii() {
        return value.unicode_len();
    }
    count_graphemes(value)
}

/// Whether a member name has to be quoted when written out.
pub fn requires_quoting(name: &str) -> (r: bool)
    ensures
        r == (name@.len() > 0 && name@[0] == '#'),
{
    if name.is_empty() {
        false
    } else {
        name.get_char(0) == '#'
    }
}

/// How a member's name is written.
#[derive(Copy, Clone, Debug, PartialEq, Eq, Structural)]
pub enum MemberNameType {
    Private,
    Quoted,
    Normal,
    Expression,
}

/// A member's name together with the way it is written.
pub struct MemberName {
    pub type_: MemberNameType,
    pub name: String,
}

/// The key of a member: its name, looked at through the brackets of a
/// computed name.
pub open spec fn member_key(member: SyntaxNode) -> SyntaxNode {
    let name = field_child(member, Field::Name)->0;
    if name.kind == NodeKind::ComputedPropertyName && first_named_child(name) is Some {
        first_named_child(name)->0
    } else {
        name
    }
}

/// Finds the key of a member.
pub fn get_member_key(member: &SyntaxNode) -> (r: &SyntaxNode)
    requires
        field_child(*member, Field::Name) is Some,
    ensures
        *r == member_key(*member),
{
    let ni = find_field(&member.children, Field::Name).unwrap();
    let name = &member.children[ni];
    if name.kind == NodeKind::ComputedPropertyName {
        match find_first_named(&name.children) {
            Some(k) => &name.children[k],
            None => name,
        }
    } else {
        name
    }
}

/// The value of a string literal: its text without the quotes.
pub open spec fn string_value(text: Seq<char>) -> Seq<char> {
    if text.len() >= 2 {
        text.subrange(1, text.len() - 1)
    } else {
        Seq::empty()
    }
}

/// A member's name and the way it is written: an identifier as it is, a
/// private name with its `#`, a string by its value (quoted when the value
/// needs it), a number as written, anything else as the text of the
/// expression.
pub open spec fn spec_name_from_member(member: SyntaxNode) -> (MemberNameType, Seq<char>) {
    let key = member_key(member);
    match key.kind {
        NodeKind::Identifier | NodeKind::PropertyIdentifier => (MemberNameType::Normal, key.text@),
        NodeKind::PrivatePropertyIdentifier => (MemberNameType::Private, key.text@),
        NodeKind::String => {
            let v = string_value(key.text@);
            if v.len() > 0 && v[0] == '#' {
                (MemberNameType::Quoted, seq!['"'] + v + seq!['"'])
            } else {
                (MemberNameType::Normal, v)
            }
        },
        NodeKind::Number => (MemberNameType::Normal, key.text@),
        _ => (MemberNameType::Expression, key.text@),
    }
}

/// Reads the name of a member (a method signature or definition, a property).
pub fn get_name_from_member(member: &SyntaxNode) -> (r: MemberName)
    requires
        field_child(*member, Field::Name) is Some,
    ensures
        (r.type_, r.name@) == spec_name_from_member(*member),
{
    let key = get_member_key(member);
    match key.kind {
        NodeKind::Identifier | NodeKind::PropertyIdentifier => MemberName {
            type_: MemberNameType::Normal,
            name: key.text.clone(),
        },
        NodeKind::PrivatePropertyIdentifier => MemberName {
            type_: MemberNameType::Private,
            name: key.text.clone(),
        },
        NodeKind::String => {
            let cs = chars_of(key.text.as_str());
            let v: Vec<char> = if cs.len() >= 2 {
                copy_range(&cs, 1, cs.len() - 1)
            } else {
                Vec::new()
            };
            let value = string_of_chars(v.as_slice());
            if requires_quoting(value.as_str()) {
                let a = concat("\"", value.as_str());
                let quoted = concat(a.as_str(), "\"");
                proof {
                    reveal_strlit("\"");
                    assert(quoted@ =~= seq!['"'] + value@ + seq!['"']);
                }
                MemberName { type_: MemberNameType::Quoted, name: quoted }
            } else {
                MemberName { type_: MemberNameType::Normal, name: value }
            }
        },
        NodeKind::Number => MemberName { type_: MemberNameType::Normal, name: key.text.clone() },
        _ => MemberName { type_: MemberNameType::Expression, name: key.text.clone() },
    }
}

} // verus!
