//! `ban-types`: some types (by default the boxed primitives, `Function`,
//! `Object` and `{}`) are banned, with a message and possibly a fix.
use vstd::prelude::*;

use crate::ast_helpers::{get_is_type_literal, get_is_type_reference, spec_is_type_literal};
use crate::rules::consistent_generic_constructors::has_field;
use crate::syntax::{find_first_named, is_first_named, NodeKind, SyntaxNode};
use crate::text::{chars_eq, chars_of, concat, is_white_space, string_of_chars, white_space};

verus! {

/// The settings of one banned type as an object.
pub struct BanConfigObject {
    pub message: Option<String>,
    pub fix_with: Option<String>,
    pub suggest: Option<Vec<String>>,
}

/// How one type is banned: not at all (`null`, `false`), with no message
/// (`true`), with a message, or with an object of settings.
pub enum BanConfig {
    Null,
    Bool(bool),
    String(String),
    Object(BanConfigObject),
}

/// The text without white space (what `\s` matches), as `remove_spaces`
/// leaves it.
pub open spec fn spec_remove_spaces(s: Seq<char>) -> Seq<char> {
    s.filter(|c: char| !is_white_space(c))
}

/// Removes all white space from a text.
pub fn remove_spaces(s: &str) -> (r: Vec<char>)
    ensures
        r@ == spec_remove_spaces(s@),
{
    let cs = chars_of(s);
    let mut r: Vec<char> = Vec::new();
    let mut i: usize = 0;
    while i < cs.len()
        invariant
            0 <= i <= cs@.len(),
            cs@ == s@,
            r@ == spec_remove_spaces(cs@.take(i as int)),
        decreases cs.len() - i,
    {
        assert(cs@.take(i + 1).drop_last() =~= cs@.take(i as int));
        reveal_with_fuel(Seq::filter, 1);
        if !white_space(cs[i]) {
            r.push(cs[i]);
        }
        i = i + 1;
    }
    assert(cs@.take(cs@.len() as int) =~= cs@);
    r
}

/// The name by which a type node is looked up: its text without white space.
pub fn stringify_node(node: &SyntaxNode) -> (r: Vec<char>)
    ensures
        r@ == spec_remove_spaces(node.text@),
{
    remove_spaces(node.text.as_str())
}

/// The message appended to the report: a space and the configured message.
pub open spec fn spec_custom_message(c: BanConfig) -> Seq<char> {
    match c {
        BanConfig::String(s) => " "@ + s@,
        BanConfig::Object(o) => match o.message {
            Some(m) => if m@.len() > 0 {
                " "@ + m@
            } else {
                ""@
            },
            None => ""@,
        },
        _ => ""@,
    }
}

/// The message appended to the report.
pub fn get_custom_message(banned_type: &BanConfig) -> (r: String)
    ensures
        r@ == spec_custom_message(*banned_type),
{
    match banned_type {
        BanConfig::String(s) => concat(" ", s.as_str()),
        BanConfig::Object(o) => match &o.message {
            Some(m) => if m.as_str().is_empty() {
                String::from_str("")
            } else {
                concat(" ", m.as_str())
            },
            None => String::from_str(""),
        },
        _ => String::from_str(""),
    }
}

/// The rule's options.
pub struct Options {
    pub types: Option<Vec<(String, BanConfig)>>,
    pub extend_defaults: Option<bool>,
}

impl Options {
    /// Whether the default bans stay in force (yes by default).
    pub fn extend_defaults(&self) -> (r: bool)
        ensures
            r == match self.extend_defaults {
                Some(b) => b,
                None => true,
            },
    {
        match self.extend_defaults {
            Some(b) => b,
            None => true,
        }
    }
}

/// One banned type: its name without white space and its setting.
pub struct BannedType {
    pub name: Vec<char>,
    pub config: BanConfig,
}

/// The banned types, each name once.
pub struct BannedTypes {
    pub entries: Vec<BannedType>,
}

/// Entry `i` is the one for name `k`.
pub open spec fn is_entry_for(m: Seq<BannedType>, k: Seq<char>, i: int) -> bool {
    0 <= i < m.len() && m[i].name@ == k
}

/// Each name occurs once.
pub open spec fn names_unique(m: Seq<BannedType>) -> bool {
    forall|i: int, j: int| is_entry_for(m, m[i].name@, j) && 0 <= i < m.len() ==> i == j
}

/// The setting for a name, if it is banned.
pub open spec fn lookup(m: Seq<BannedType>, k: Seq<char>) -> Option<BanConfig> {
    if exists|i: int| is_entry_for(m, k, i) {
        Some(m[choose|i: int| is_entry_for(m, k, i)].config)
    } else {
        None
    }
}

/// Finds the entry for a name.
fn find_entry(m: &Vec<BannedType>, k: &[char]) -> (r: Option<usize>)
    requires
        names_unique(m@),
    ensures
        match r {
            Some(i) => is_entry_for(m@, k@, i as int) && lookup(m@, k@) == Some(m@[i as int].config),
            None => lookup(m@, k@) is None,
        },
{
    let mut i: usize = 0;
    while i < m.len()
        invariant
            0 <= i <= m@.len(),
            names_unique(m@),
            forall|j: int| 0 <= j < i ==> m@[j].name@ != k@,
        decreases m.len() - i,
    {
        if chars_eq(m[i].name.as_slice(), k) {
            proof {
                assert(is_entry_for(m@, k@, i as int));
                let c = choose|c: int| is_entry_for(m@, k@, c);
                assert(is_entry_for(m@, m@[c].name@, i as int));
            }
            return Some(i);
        }
        i = i + 1;
    }
    None
}

impl BannedTypes {
    /// No banned types.
    pub fn new() -> (r: Self)
        ensures
            r.entries@.len() == 0,
            names_unique(r.entries@),
    {
        BannedTypes { entries: Vec::new() }
    }

    /// Bans a type, replacing an earlier setting for the same name.
    pub fn insert(&mut self, name: Vec<char>, config: BanConfig)
        requires
            names_unique(old(self).entries@),
        ensures
            names_unique(final(self).entries@),
            lookup(final(self).entries@, name@) == Some(config),
            forall|k: Seq<char>| k != name@ ==> lookup(final(self).entries@, k) == lookup(
                old(self).entries@,
                k,
            ),
    {
        let ghost old_entries = self.entries@;
        match find_entry(&self.entries, name.as_slice()) {
            Some(i) => {
                self.entries[i] = BannedType { name, config };
                proof {
                    let m = self.entries@;
                    assert(is_entry_for(m, name@, i as int));
                    assert forall|a: int, b: int| is_entry_for(m, m[a].name@, b) && 0 <= a < m.len() implies a == b by {
                        assert(is_entry_for(old_entries, old_entries[a].name@, b));
                    }
                    assert forall|k: Seq<char>| k != name@ implies lookup(m, k) == lookup(old_entries, k) by {
                        if exists|j: int| is_entry_for(m, k, j) {
                            let j = choose|j: int| is_entry_for(m, k, j);
                            assert(is_entry_for(old_entries, k, j));
                        }
                        if exists|j: int| is_entry_for(old_entries, k, j) {
                            let j = choose|j: int| is_entry_for(old_entries, k, j);
                            assert(is_entry_for(m, k, j));
                        }
                    }
                }
            },
            None => {
                self.entries.push(BannedType { name, config });
                proof {
                    let m = self.entries@;
                    let n = old_entries.len() as int;
                    assert(is_entry_for(m, name@, n));
                    assert forall|a: int, b: int| is_entry_for(m, m[a].name@, b) && 0 <= a < m.len() implies a == b by {
                        if a < n && b < n {
                            assert(is_entry_for(old_entries, old_entries[a].name@, b));
                        } else if a < n && b == n {
                            assert(is_entry_for(old_entries, name@, a));
                        } else if a == n && b < n {
                            assert(is_entry_for(old_entries, name@, b));
                        }
                    }
                    assert forall|k: Seq<char>| k != name@ implies lookup(m, k) == lookup(old_entries, k) by {
                        if exists|j: int| is_entry_for(m, k, j) {
                            let j = choose|j: int| is_entry_for(m, k, j);
                            assert(is_entry_for(old_entries, k, j));
                        }
                        if exists|j: int| is_entry_for(old_entries, k, j) {
                            let j = choose|j: int| is_entry_for(old_entries, k, j);
                            assert(is_entry_for(m, k, j));
                        }
                    }
                    assert(lookup(old_entries, name@) is None);
                    let c = choose|c: int| is_entry_for(m, name@, c);
                    if c < n {
                        assert(is_entry_for(old_entries, name@, c));
                    }
                }
            },
        }
    }

    /// The setting for a name, if it is banned.
    pub fn get(&self, name: &[char]) -> (r: Option<&BanConfig>)
        requires
            names_unique(self.entries@),
        ensures
            match r {
                Some(c) => lookup(self.entries@, name@) == Some(*c),
                None => lookup(self.entries@, name@) is None,
            },
    {
        match find_entry(&self.entries, name) {
            Some(i) => Some(&self.entries[i].config),
            None => None,
        }
    }
}

} // verus!

verus! {

/// An optional text as plain values.
pub open spec fn opt_view(o: Option<String>) -> Option<Seq<char>> {
    match o {
        Some(s) => Some(s@),
        None => None,
    }
}

/// A setting as plain values: a tag, the flag, the message text, and the
/// object's message and fix.
pub open spec fn ban_view(c: BanConfig) -> (int, bool, Seq<char>, Option<Seq<char>>, Option<Seq<char>>) {
    match c {
        BanConfig::Null => (0, false, Seq::empty(), None, None),
        BanConfig::Bool(b) => (1, b, Seq::empty(), None, None),
        BanConfig::String(s) => (2, false, s@, None, None),
        BanConfig::Object(o) => (3, false, Seq::empty(), opt_view(o.message), opt_view(o.fix_with)),
    }
}

/// An optional setting as plain values.
pub open spec fn lookup_view(c: Option<BanConfig>) -> Option<
    (int, bool, Seq<char>, Option<Seq<char>>, Option<Seq<char>>),
> {
    match c {
        Some(c) => Some(ban_view(c)),
        None => None,
    }
}

/// A default ban with a message and a replacement.
pub open spec fn default_ban(message: Seq<char>, fix: Option<Seq<char>>) -> Option<
    (int, bool, Seq<char>, Option<Seq<char>>, Option<Seq<char>>),
> {
    Some((3, false, Seq::empty(), Some(message), fix))
}

/// The default bans, by name.
pub open spec fn default_type(k: Seq<char>) -> Option<
    (int, bool, Seq<char>, Option<Seq<char>>, Option<Seq<char>>),
> {
    if k == seq!['S', 't', 'r', 'i', 'n', 'g'] {
        default_ban("Use string instead"@, Some("string"@))
    } else if k == seq!['B', 'o', 'o', 'l', 'e', 'a', 'n'] {
        default_ban("Use boolean instead"@, Some("boolean"@))
    } else if k == seq!['N', 'u', 'm', 'b', 'e', 'r'] {
        default_ban("Use number instead"@, Some("number"@))
    } else if k == seq!['S', 'y', 'm', 'b', 'o', 'l'] {
        default_ban("Use symbol instead"@, Some("symbol"@))
    } else if k == seq!['B', 'i', 'g', 'I', 'n', 't'] {
        default_ban("Use bigint instead"@, Some("bigint"@))
    } else if k == seq!['F', 'u', 'n', 'c', 't', 'i', 'o', 'n'] {
        default_ban(FUNCTION_MESSAGE@, None)
    } else if k == seq!['O', 'b', 'j', 'e', 'c', 't'] {
        default_ban(OBJECT_MESSAGE@, None)
    } else if k == seq!['{', '}'] {
        default_ban(EMPTY_OBJECT_MESSAGE@, None)
    } else {
        None
    }
}

/// The message of the default `Function` ban.
pub const FUNCTION_MESSAGE: &'static str = "The `Function` type accepts any function-like value.\nIt provides no type safety when calling the function, which can be a common source of bugs.\nIt also accepts things like class declarations, which will throw at runtime as they will not be called with `new`.\nIf you are expecting the function to accept certain arguments, you should explicitly define the function shape.";

/// The message of the default `Object` ban.
pub const OBJECT_MESSAGE: &'static str = "The `Object` type actually means \"any non-nullish value\", so it is marginally better than `unknown`.\n- If you want a type meaning \"any object\", you probably want `object` instead.\n- If you want a type meaning \"any value\", you probably want `unknown` instead.\n- If you really want a type meaning \"any non-nullish value\", you probably want `NonNullable<unknown>` instead.";

/// The message of the default `{}` ban.
pub const EMPTY_OBJECT_MESSAGE: &'static str = "`{}` actually means \"any non-nullish value\".\n- If you want a type meaning \"any object\", you probably want `object` instead.\n- If you want a type meaning \"any value\", you probably want `unknown` instead.\n- If you want a type meaning \"empty object\", you probably want `Record<string, never>` instead.\n- If you really want a type meaning \"any non-nullish value\", you probably want `NonNullable<unknown>` instead.";

fn ban_with(message: &str, fix_with: Option<&str>) -> (r: BanConfig)
    ensures
        ban_view(r) == (3int, false, Seq::<char>::empty(), Some(message@), match fix_with {
            Some(f) => Some(f@),
            None => None::<Seq<char>>,
        }),
{
    BanConfig::Object(
        BanConfigObject {
            message: Some(message.to_owned()),
            fix_with: match fix_with {
                Some(f) => Some(f.to_owned()),
                None => None,
            },
            suggest: None,
        },
    )
}

/// The default bans.
pub fn default_types() -> (r: BannedTypes)
    ensures
        names_unique(r.entries@),
        forall|k: Seq<char>| lookup_view(lookup(r.entries@, k)) == default_type(k),
{
    let mut t = BannedTypes::new();
    t.insert(vec!['S', 't', 'r', 'i', 'n', 'g'], ban_with("Use string instead", Some("string")));
    t.insert(vec!['B', 'o', 'o', 'l', 'e', 'a', 'n'], ban_with("Use boolean instead", Some("boolean")));
    t.insert(vec!['N', 'u', 'm', 'b', 'e', 'r'], ban_with("Use number instead", Some("number")));
    t.insert(vec!['S', 'y', 'm', 'b', 'o', 'l'], ban_with("Use symbol instead", Some("symbol")));
    t.insert(vec!['B', 'i', 'g', 'I', 'n', 't'], ban_with("Use bigint instead", Some("bigint")));
    t.insert(vec!['F', 'u', 'n', 'c', 't', 'i', 'o', 'n'], ban_with(FUNCTION_MESSAGE, None));
    t.insert(vec!['O', 'b', 'j', 'e', 'c', 't'], ban_with(OBJECT_MESSAGE, None));
    t.insert(vec!['{', '}'], ban_with(EMPTY_OBJECT_MESSAGE, None));
    proof {
        assert forall|k: Seq<char>| lookup_view(lookup(t.entries@, k)) == default_type(k) by {
            if lookup(t.entries@, k) is Some {
            }
        }
    }
    t
}

} // verus!

verus! {

/// The setting that the options give a name: the last entry whose name,
/// without white space, is the name.
pub open spec fn configured(types: Seq<(String, BanConfig)>, k: Seq<char>) -> Option<BanConfig>
    decreases types.len(),
{
    if types.len() == 0 {
        None
    } else if spec_remove_spaces(types.last().0@) == k {
        Some(types.last().1)
    } else {
        configured(types.drop_last(), k)
    }
}

/// The setting in force for a name: the configured one, else the default one
/// when the defaults are kept.
pub open spec fn banned_type_setting(options: Options, k: Seq<char>) -> Option<
    (int, bool, Seq<char>, Option<Seq<char>>, Option<Seq<char>>),
> {
    let types = match options.types {
        Some(t) => t@,
        None => Seq::empty(),
    };
    match configured(types, k) {
        Some(c) => Some(ban_view(c)),
        None => if match options.extend_defaults {
            Some(b) => b,
            None => true,
        } {
            default_type(k)
        } else {
            None
        },
    }
}

/// Builds the banned types from the options.
pub fn banned_types(options: Options) -> (r: BannedTypes)
    ensures
        names_unique(r.entries@),
        forall|k: Seq<char>| lookup_view(lookup(r.entries@, k)) == banned_type_setting(options, k),
{
    let extend = options.extend_defaults();
    let mut t = if extend {
        default_types()
    } else {
        BannedTypes::new()
    };
    let ghost base = t.entries@;
    let ghost all = match &options.types {
        Some(v) => v@,
        None => Seq::empty(),
    };
    match options.types {
        Some(types) => {
            let mut types = types;
            let ghost n = all.len();
            while types.len() > 0
                invariant
                    names_unique(t.entries@),
                    types@.len() <= n,
                    n == all.len(),
                    types@ == all.subrange(n - types@.len(), n as int),
                    forall|k: Seq<char>| lookup(t.entries@, k) == match configured(
                        all.subrange(0, n - types@.len()),
                        k,
                    ) {
                        Some(c) => Some(c),
                        None => lookup(base, k),
                    },
                decreases types.len(),
            {
                let ghost done = (n - types@.len()) as int;
                let (name, config) = types.remove(0);
                let key = remove_spaces(name.as_str());
                let ghost entry = (name, config);
                assert(entry == all[done]);
                t.insert(key, config);
                proof {
                    assert(all.subrange(0, done + 1).drop_last() =~= all.subrange(0, done));
                    assert(types@ =~= all.subrange(n - types@.len(), n as int));
                }
            }
            assert(all.subrange(0, n as int) =~= all);
        },
        None => {},
    }
    proof {
        assert forall|k: Seq<char>| lookup_view(lookup(t.entries@, k)) == banned_type_setting(options, k) by {
            if !extend {
                assert(lookup(base, k) is None);
            }
        }
    }
    t
}

/// A banned type found in the source.
pub struct BanTypesViolation {
    pub start: usize,
    pub end: usize,
    /// The type's text without white space.
    pub name: String,
    /// The configured message, with a leading space, or nothing.
    pub custom_message: String,
    /// The replacement, when the setting has one.
    pub fix: Option<crate::report::TextEdit>,
}

/// The outcome of looking a type node up.
pub open spec fn banned_outcome(types: BannedTypes, node: SyntaxNode, r: Option<BanTypesViolation>) -> bool {
    let name = spec_remove_spaces(node.text@);
    match lookup(types.entries@, name) {
        None => r is None,
        Some(BanConfig::Bool(false)) => r is None,
        Some(c) => r matches Some(v) && {
            &&& v.start == node.start && v.end == node.end
            &&& v.name@ == name
            &&& v.custom_message@ == spec_custom_message(c)
            &&& match c {
                BanConfig::Object(o) => match o.fix_with {
                    Some(f) => v.fix matches Some(e) && crate::report::edit_is(
                        e,
                        node.start as int,
                        node.end as int,
                        f@,
                    ),
                    None => v.fix is None,
                },
                _ => v.fix is None,
            }
        },
    }
}

/// Looks a type node up among the banned types.
pub fn check_banned_types(types: &BannedTypes, type_node: &SyntaxNode) -> (r: Option<BanTypesViolation>)
    requires
        names_unique(types.entries@),
    ensures
        banned_outcome(*types, *type_node, r),
{
    let name = stringify_node(type_node);
    let banned_type = match types.get(name.as_slice()) {
        None => return None,
        Some(c) => c,
    };
    if let BanConfig::Bool(false) = banned_type {
        return None;
    }
    let custom_message = get_custom_message(banned_type);
    let fix = match banned_type {
        BanConfig::Object(o) => match &o.fix_with {
            Some(f) => Some(
                crate::report::TextEdit {
                    start: type_node.start,
                    end: type_node.end,
                    replacement: f.clone(),
                },
            ),
            None => None,
        },
        _ => None,
    };
    Some(
        BanTypesViolation {
            start: type_node.start,
            end: type_node.end,
            name: string_of_chars(name.as_slice()),
            custom_message,
            fix,
        },
    )
}

/// The nodes the rule looks up: type references, keyword types,
/// `undefined`/`null` types, generic and nested type names, empty tuples and
/// empty type literals.
pub open spec fn ban_types_looks_up(node: SyntaxNode, parent_kind: Option<NodeKind>) -> bool {
    match node.kind {
        NodeKind::TypeIdentifier => !(parent_kind == Some(NodeKind::NestedTypeIdentifier)
            || parent_kind == Some(NodeKind::TypeParameter)),
        NodeKind::PredefinedType | NodeKind::GenericType | NodeKind::NestedTypeIdentifier => true,
        NodeKind::Undefined | NodeKind::Null => parent_kind == Some(NodeKind::LiteralType),
        NodeKind::TupleType => !exists|i: int| is_first_named(node.children@, i),
        NodeKind::ObjectType => spec_is_type_literal(node, parent_kind) && !exists|i: int|
            is_first_named(node.children@, i),
        _ => false,
    }
}

/// The rule on one node: looks it up when it is a node the rule listens to.
pub fn ban_types_rule(types: &BannedTypes, node: &SyntaxNode, parent_kind: Option<NodeKind>) -> (r:
    Option<BanTypesViolation>)
    requires
        names_unique(types.entries@),
    ensures
        if ban_types_looks_up(*node, parent_kind) {
            banned_outcome(*types, *node, r)
        } else {
            r is None
        },
{
    let looks_up = match node.kind {
        NodeKind::TypeIdentifier => get_is_type_reference(node, parent_kind),
        NodeKind::PredefinedType | NodeKind::GenericType | NodeKind::NestedTypeIdentifier => true,
        NodeKind::Undefined | NodeKind::Null => parent_kind == Some(NodeKind::LiteralType),
        NodeKind::TupleType => find_first_named(&node.children).is_none(),
        NodeKind::ObjectType => get_is_type_literal(node, parent_kind) && find_first_named(
            &node.children,
        ).is_none(),
        _ => false,
    };
    if !looks_up {
        return None;
    }
    check_banned_types(types, node)
}

/// A name configured in the options takes the configured setting, whether or
/// not the default bans are kept.
pub proof fn configured_setting_overrides_default(options: Options, k: Seq<char>, c: BanConfig)
    requires
        configured(
            match options.types {
                Some(t) => t@,
                None => Seq::empty(),
            },
            k,
        ) == Some(c),
    ensures
        banned_type_setting(options, k) == Some(ban_view(c)),
{
}

/// Without the default bans, only the names the options configure are
/// banned.
pub proof fn without_defaults_only_configured_names_are_banned(options: Options, k: Seq<char>)
    requires
        options.extend_defaults == Some(false),
        configured(
            match options.types {
                Some(t) => t@,
                None => Seq::empty(),
            },
            k,
        ) is None,
    ensures
        banned_type_setting(options, k) is None,
{
}

/// With no options at all, exactly the default bans are in force.
pub proof fn no_options_ban_the_defaults(options: Options, k: Seq<char>)
    requires
        options.types is None,
        options.extend_defaults is None,
    ensures
        banned_type_setting(options, k) == default_type(k),
{
}

/// A type whose setting is `false` is never reported.
pub proof fn type_set_to_false_is_not_reported(
    types: BannedTypes,
    node: SyntaxNode,
    r: Option<BanTypesViolation>,
)
    requires
        lookup(types.entries@, spec_remove_spaces(node.text@)) == Some(BanConfig::Bool(false)),
        banned_outcome(types, node, r),
    ensures
        r is None,
{
}

/// A banned type is reported over its own range, and its replacement, when
/// the setting has one, rewrites exactly that range.
pub proof fn banned_type_report_covers_the_node(
    types: BannedTypes,
    node: SyntaxNode,
    r: Option<BanTypesViolation>,
)
    requires
        banned_outcome(types, node, r),
        r is Some,
    ensures
        r->0.start == node.start && r->0.end == node.end,
        r->0.fix matches Some(e) ==> e.start == node.start && e.end == node.end,
{
}

} // verus!
