//! `class-methods-use-this`: class methods (and, optionally, fields holding
//! functions) that never use `this` are reported.
//!
//! The rule follows the traversal as a state machine: a stack of function
//! contexts, one per function (or scope) entered, marked when `this` or
//! `super` shows up inside.
use vstd::prelude::*;

use crate::ast_helpers::{
    get_accessibility_modifier, get_class_has_implements_clause, get_has_override_modifier,
    is_accessibility_at, spec_has_implements_clause, spec_has_override_modifier,
};
use crate::rules::array_type::field_node;
use crate::syntax::{find_field, is_first_with_field, Field, NodeKind, SyntaxNode};
use crate::text::chars_eq;
use crate::text::chars_of;

verus! {

/// The `public-fields` setting.
#[derive(Copy, Clone, Debug, PartialEq, Eq, Structural)]
pub enum PublicFields {
    PublicFields,
}

/// Whether classes that implement an interface are exempt.
#[derive(Copy, Clone, Debug, PartialEq, Eq, Structural)]
pub enum IgnoreClassesThatImplementAnInterface {
    Bool(bool),
    PublicFields(PublicFields),
}

/// The rule's options.
pub struct Options {
    pub except_methods: Option<Vec<String>>,
    pub enforce_for_class_fields: Option<bool>,
    pub ignore_override_methods: Option<bool>,
    pub ignore_classes_that_implement_an_interface: Option<IgnoreClassesThatImplementAnInterface>,
}

impl Options {
    /// Whether fields holding functions are checked too (yes by default).
    pub fn enforce_for_class_fields(&self) -> (r: bool)
        ensures
            r == match self.enforce_for_class_fields {
                Some(b) => b,
                None => true,
            },
    {
        match self.enforce_for_class_fields {
            Some(b) => b,
            None => true,
        }
    }

    /// Whether `override` methods are exempt (no by default).
    pub fn ignore_override_methods(&self) -> (r: bool)
        ensures
            r == match self.ignore_override_methods {
                Some(b) => b,
                None => false,
            },
    {
        match self.ignore_override_methods {
            Some(b) => b,
            None => false,
        }
    }

    /// Whether classes implementing an interface are exempt (no by default).
    pub fn ignore_classes_that_implement_an_interface(&self) -> (r:
        IgnoreClassesThatImplementAnInterface)
        ensures
            r == match self.ignore_classes_that_implement_an_interface {
                Some(v) => v,
                None => IgnoreClassesThatImplementAnInterface::Bool(false),
            },
    {
        match self.ignore_classes_that_implement_an_interface {
            Some(v) => v,
            None => IgnoreClassesThatImplementAnInterface::Bool(false),
        }
    }
}

/// The options resolved once per configuration.
pub struct ClassMethodsUseThisConfig {
    pub enforce_for_class_fields: bool,
    pub except_methods: Vec<String>,
    pub ignore_override_methods: bool,
    pub ignore_classes_that_implement_an_interface: IgnoreClassesThatImplementAnInterface,
}

/// Resolves the options.
pub fn class_methods_use_this_config(options: Options) -> (r: ClassMethodsUseThisConfig)
    ensures
        r.enforce_for_class_fields == match options.enforce_for_class_fields {
            Some(b) => b,
            None => true,
        },
        r.except_methods@ == match options.except_methods {
            Some(v) => v@,
            None => Seq::<String>::empty(),
        },
        r.ignore_override_methods == match options.ignore_override_methods {
            Some(b) => b,
            None => false,
        },
        r.ignore_classes_that_implement_an_interface == match options.ignore_classes_that_implement_an_interface {
            Some(v) => v,
            None => IgnoreClassesThatImplementAnInterface::Bool(false),
        },
{
    let enforce_for_class_fields = options.enforce_for_class_fields();
    let ignore_override_methods = options.ignore_override_methods();
    let ignore_classes_that_implement_an_interface = options.ignore_classes_that_implement_an_interface();
    let except_methods = match options.except_methods {
        Some(v) => v,
        None => Vec::new(),
    };
    ClassMethodsUseThisConfig {
        enforce_for_class_fields,
        except_methods,
        ignore_override_methods,
        ignore_classes_that_implement_an_interface,
    }
}

/// A class member whose function is being traversed, with what the rule
/// reads of it.
pub struct MemberContext {
    /// The method definition or public field definition.
    pub member: SyntaxNode,
    /// The kind of the member's parent.
    pub parent_kind: NodeKind,
    /// The class the member belongs to (the parent of the class body).
    pub class: Option<SyntaxNode>,
    /// Whether the member is static.
    pub is_static: bool,
    /// Whether the member is a constructor.
    pub is_constructor: bool,
    /// Whether the member's name node is a literal (a string or a number).
    pub name_is_literal: bool,
    /// The static string value of a literal name.
    pub static_name: Option<String>,
}

/// A context as the rule needs it.
pub open spec fn member_context_wf(m: MemberContext) -> bool {
    &&& m.member.kind == NodeKind::MethodDefinition || m.member.kind == NodeKind::PublicFieldDefinition
    &&& exists|i: int| is_first_with_field(m.member.children@, Field::Name, i)
    &&& m.name_is_literal ==> m.static_name is Some
    &&& m.parent_kind == NodeKind::ClassBody ==> (m.class matches Some(c) && (c.kind == NodeKind::Class
        || c.kind == NodeKind::ClassDeclaration))
}

/// One entry of the stack: the class member the function belongs to, if any,
/// and whether `this` or `super` was seen.
pub struct StackItem {
    pub member: Option<MemberContext>,
    pub uses_this: bool,
}

/// A member is public: it has no accessibility modifier, or `public`.
pub open spec fn spec_is_public_field(m: SyntaxNode) -> bool {
    if exists|i: int| is_accessibility_at(m.children@, i) {
        m.children@[choose|i: int| is_accessibility_at(m.children@, i)].text@ == "public"@
    } else {
        true
    }
}

/// Whether a member is public.
pub fn is_public_field(node: &SyntaxNode) -> (r: bool)
    requires
        node.kind == NodeKind::PublicFieldDefinition || node.kind == NodeKind::MethodSignature
            || node.kind == NodeKind::AbstractMethodSignature || node.kind
            == NodeKind::MethodDefinition || node.kind == NodeKind::PropertySignature,
    ensures
        r == spec_is_public_field(*node),
{
    match get_accessibility_modifier(node) {
        None => true,
        Some(i) => {
            proof {
                let k = choose|k: int| is_accessibility_at(node.children@, k);
                crate::ast_helpers::lemma_accessibility_unique(node.children@, k, i as int);
            }
            crate::text::str_is(node.children[i].text.as_str(), "public")
        },
    }
}

/// The name by which `exceptMethods` refers to a member.
pub open spec fn member_name(m: MemberContext) -> Seq<char> {
    let name_node = field_node(m.member, Field::Name);
    if m.name_is_literal {
        m.static_name->0@
    } else if name_node.kind == NodeKind::PrivatePropertyIdentifier || name_node.kind
        == NodeKind::PropertyIdentifier {
        name_node.text@
    } else {
        ""@
    }
}

/// A name is listed in `exceptMethods`.
pub open spec fn is_excepted(except: Seq<String>, name: Seq<char>) -> bool {
    exists|i: int| 0 <= i < except.len() && except[i]@ == name
}

/// An instance method (or instance field, when fields are checked) that
/// `exceptMethods` does not exempt.
pub open spec fn spec_is_included_instance_method(
    config: ClassMethodsUseThisConfig,
    m: MemberContext,
) -> bool {
    &&& !m.is_static
    &&& !(m.member.kind == NodeKind::MethodDefinition && m.is_constructor)
    &&& !(m.member.kind == NodeKind::PublicFieldDefinition && !config.enforce_for_class_fields)
    &&& (field_node(m.member, Field::Name).kind == NodeKind::ComputedPropertyName
        || config.except_methods@.len() == 0 || !is_excepted(config.except_methods@, member_name(m)))
}

/// Whether a listed name equals the given name.
fn excepted(except: &Vec<String>, name: &[char]) -> (r: bool)
    ensures
        r == is_excepted(except@, name@),
{
    let mut i: usize = 0;
    while i < except.len()
        invariant
            0 <= i <= except@.len(),
            forall|j: int| 0 <= j < i ==> except@[j]@ != name@,
        decreases except.len() - i,
    {
        let cs = chars_of(except[i].as_str());
        if chars_eq(cs.as_slice(), name) {
            return true;
        }
        i = i + 1;
    }
    false
}

/// Whether the member counts for the rule.
pub fn is_included_instance_method(config: &ClassMethodsUseThisConfig, m: &MemberContext) -> (r:
    bool)
    requires
        member_context_wf(*m),
    ensures
        r == spec_is_included_instance_method(*config, *m),
{
    if m.is_static {
        return false;
    }
    if m.member.kind == NodeKind::MethodDefinition && m.is_constructor {
        return false;
    }
    if m.member.kind == NodeKind::PublicFieldDefinition && !config.enforce_for_class_fields {
        return false;
    }
    let ni = find_field(&m.member.children, Field::Name).unwrap();
    let name_node = &m.member.children[ni];
    if name_node.kind == NodeKind::ComputedPropertyName || config.except_methods.len() == 0 {
        return true;
    }
    let name: Vec<char> = if m.name_is_literal {
        match &m.static_name {
            Some(s) => chars_of(s.as_str()),
            None => Vec::new(),
        }
    } else if name_node.kind == NodeKind::PrivatePropertyIdentifier || name_node.kind
        == NodeKind::PropertyIdentifier {
        chars_of(name_node.text.as_str())
    } else {
        chars_of("")
    };
    !excepted(&config.except_methods, name.as_slice())
}

/// What the rule reads of a function when leaving it: the range of its head
/// and its name together with its kind (`method 'foo'`).
pub struct ExitInfo {
    pub head_start: usize,
    pub head_end: usize,
    pub name_with_kind: String,
}

/// A `missing_this` report.
pub struct MissingThis {
    pub start: usize,
    pub end: usize,
    pub name: String,
}

/// The member of a popped context is exempt from the rule.
pub open spec fn exempt(config: ClassMethodsUseThisConfig, item: StackItem) -> bool {
    let m = item.member->0;
    ||| item.uses_this
    ||| config.ignore_override_methods && spec_has_override_modifier(m.member)
    ||| match config.ignore_classes_that_implement_an_interface {
        IgnoreClassesThatImplementAnInterface::Bool(true) => spec_has_implements_clause(m.class->0),
        IgnoreClassesThatImplementAnInterface::PublicFields(_) => spec_has_implements_clause(
            m.class->0,
        ) && spec_is_public_field(m.member),
        _ => false,
    }
}

/// What leaving a function reports, given its popped context.
pub open spec fn exit_outcome(
    config: ClassMethodsUseThisConfig,
    item: StackItem,
    exit: ExitInfo,
    r: Option<MissingThis>,
) -> bool {
    match item.member {
        None => r is None,
        Some(m) => if exempt(config, item) || !spec_is_included_instance_method(config, m) {
            r is None
        } else {
            r matches Some(v) && v.start == exit.head_start && v.end == exit.head_end && v.name@
                == exit.name_with_kind@
        },
    }
}

/// The context a member gets when pushed: itself if it sits in a class body.
pub open spec fn pushed_item(member: Option<MemberContext>) -> StackItem {
    match member {
        Some(m) => if m.parent_kind == NodeKind::ClassBody {
            StackItem { member: Some(m), uses_this: false }
        } else {
            StackItem { member: None, uses_this: false }
        },
        None => StackItem { member: None, uses_this: false },
    }
}

/// The traversal state: one context per function or scope entered.
pub struct ClassMethodsUseThisState {
    pub stack: Vec<StackItem>,
}

/// Every context on the stack belongs to a class member as the rule needs it.
pub open spec fn stack_wf(s: Seq<StackItem>) -> bool {
    forall|i: int| 0 <= i < s.len() ==> #[trigger] item_wf(s[i])
}

/// A context belongs to a class member as the rule needs it, if to any.
pub open spec fn item_wf(item: StackItem) -> bool {
    item.member matches Some(m) ==> member_context_wf(m) && m.parent_kind == NodeKind::ClassBody
}

impl ClassMethodsUseThisState {
    /// The state before the traversal of a file.
    pub fn new() -> (r: Self)
        ensures
            r.stack@.len() == 0,
    {
        ClassMethodsUseThisState { stack: Vec::new() }
    }

    /// Pushes the context of a function or scope.
    pub fn push_context(&mut self, member: Option<MemberContext>)
        requires
            stack_wf(old(self).stack@),
            member matches Some(m) ==> member_context_wf(m),
        ensures
            final(self).stack@ == old(self).stack@.push(pushed_item(member)),
            stack_wf(final(self).stack@),
    {
        let item = match member {
            Some(m) => if m.parent_kind == NodeKind::ClassBody {
                StackItem { member: Some(m), uses_this: false }
            } else {
                StackItem { member: None, uses_this: false }
            },
            None => StackItem { member: None, uses_this: false },
        };
        self.stack.push(item);
    }

    /// Enters a function: a method definition is its own member; a function
    /// that is the value of a field belongs to that field; any other function
    /// belongs to no member.
    pub fn enter_function(
        &mut self,
        function_kind: NodeKind,
        own: Option<MemberContext>,
        parent: Option<MemberContext>,
    )
        requires
            stack_wf(old(self).stack@),
            own matches Some(m) ==> member_context_wf(m),
            parent matches Some(m) ==> member_context_wf(m),
            function_kind == NodeKind::MethodDefinition ==> own is Some,
        ensures
            final(self).stack@ == old(self).stack@.push(
                if function_kind == NodeKind::MethodDefinition {
                    pushed_item(own)
                } else if parent matches Some(p) && p.member.kind == NodeKind::PublicFieldDefinition {
                    pushed_item(parent)
                } else {
                    pushed_item(None)
                },
            ),
            stack_wf(final(self).stack@),
    {
        if function_kind == NodeKind::MethodDefinition {
            self.push_context(own);
            return;
        }
        match parent {
            Some(p) => if p.member.kind == NodeKind::PublicFieldDefinition {
                self.push_context(Some(p));
            } else {
                self.push_context(None);
            },
            None => self.push_context(None),
        }
    }

    /// Pops the innermost context.
    pub fn pop_context(&mut self) -> (r: StackItem)
        requires
            old(self).stack@.len() > 0,
            stack_wf(old(self).stack@),
        ensures
            final(self).stack@ == old(self).stack@.drop_last(),
            r == old(self).stack@.last(),
            stack_wf(final(self).stack@),
    {
        self.stack.pop().unwrap()
    }

    /// `this` or `super` marks the innermost context.
    pub fn mark_this(&mut self)
        requires
            stack_wf(old(self).stack@),
        ensures
            old(self).stack@.len() == 0 ==> final(self).stack@ == old(self).stack@,
            old(self).stack@.len() > 0 ==> final(self).stack@ == old(self).stack@.drop_last().push(
                StackItem { member: old(self).stack@.last().member, uses_this: true },
            ),
            stack_wf(final(self).stack@),
    {
        proof {
            if old(self).stack@.len() > 0 {
                assert(item_wf(old(self).stack@[old(self).stack@.len() - 1]));
            }
        }
        match self.stack.pop() {
            Some(last) => {
                self.stack.push(StackItem { member: last.member, uses_this: true });
                proof {
                    assert forall|i: int| 0 <= i < self.stack@.len() implies #[trigger] item_wf(
                        self.stack@[i],
                    ) by {
                        if i < self.stack@.len() - 1 {
                            assert(self.stack@[i] == old(self).stack@[i]);
                        }
                    }
                }
            },
            None => {},
        }
    }

    /// Leaves a function: pops its context and reports its member if it never
    /// used `this`.
    pub fn exit_function(&mut self, config: &ClassMethodsUseThisConfig, exit: ExitInfo) -> (r:
        Option<MissingThis>)
        requires
            old(self).stack@.len() > 0,
            stack_wf(old(self).stack@),
        ensures
            final(self).stack@ == old(self).stack@.drop_last(),
            exit_outcome(*config, old(self).stack@.last(), exit, r),
            stack_wf(final(self).stack@),
    {
        proof {
            assert(item_wf(old(self).stack@[old(self).stack@.len() - 1]));
        }
        let item = self.pop_context();
        match item.member {
            None => None,
            Some(m) => {
                if item.uses_this {
                    return None;
                }
                if config.ignore_override_methods && get_has_override_modifier(&m.member) {
                    return None;
                }
                let class = match &m.class {
                    Some(c) => c,
                    None => return None,
                };
                let ignored = match config.ignore_classes_that_implement_an_interface {
                    IgnoreClassesThatImplementAnInterface::Bool(true) => get_class_has_implements_clause(
                        class,
                    ),
                    IgnoreClassesThatImplementAnInterface::PublicFields(_) => get_class_has_implements_clause(
                        class,
                    ) && is_public_field(&m.member),
                    _ => false,
                };
                if ignored {
                    return None;
                }
                if !is_included_instance_method(config, &m) {
                    return None;
                }
                Some(
                    MissingThis {
                        start: exit.head_start,
                        end: exit.head_end,
                        name: exit.name_with_kind,
                    },
                )
            },
        }
    }

    /// Enters a function declaration, a field value or a static block: a
    /// scope that belongs to no member.
    pub fn enter_scope(&mut self)
        requires
            stack_wf(old(self).stack@),
        ensures
            final(self).stack@ == old(self).stack@.push(pushed_item(None)),
            stack_wf(final(self).stack@),
    {
        self.push_context(None);
    }

    /// Leaves such a scope.
    pub fn exit_scope(&mut self)
        requires
            old(self).stack@.len() > 0,
            stack_wf(old(self).stack@),
        ensures
            final(self).stack@ == old(self).stack@.drop_last(),
            stack_wf(final(self).stack@),
    {
        let _ = self.pop_context();
    }

    /// Enters an arrow function that is the value of a field: it counts only
    /// when fields are checked.
    pub fn enter_field_arrow(&mut self, config: &ClassMethodsUseThisConfig, parent: Option<MemberContext>)
        requires
            stack_wf(old(self).stack@),
            parent matches Some(m) ==> member_context_wf(m),
        ensures
            !config.enforce_for_class_fields ==> final(self).stack@ == old(self).stack@,
            config.enforce_for_class_fields ==> final(self).stack@ == old(self).stack@.push(
                if parent matches Some(p) && p.member.kind == NodeKind::PublicFieldDefinition {
                    pushed_item(parent)
                } else {
                    pushed_item(None)
                },
            ),
            stack_wf(final(self).stack@),
    {
        if !config.enforce_for_class_fields {
            return;
        }
        self.enter_function(NodeKind::Other, None, parent);
    }

    /// Leaves an arrow function: it counts only when fields are checked and
    /// it is the value of a field.
    pub fn exit_arrow(
        &mut self,
        config: &ClassMethodsUseThisConfig,
        parent_kind: NodeKind,
        exit: ExitInfo,
    ) -> (r: Option<MissingThis>)
        requires
            stack_wf(old(self).stack@),
            config.enforce_for_class_fields && parent_kind == NodeKind::PublicFieldDefinition
                ==> old(self).stack@.len() > 0,
        ensures
            !(config.enforce_for_class_fields && parent_kind == NodeKind::PublicFieldDefinition)
                ==> final(self).stack@ == old(self).stack@ && r is None,
            config.enforce_for_class_fields && parent_kind == NodeKind::PublicFieldDefinition ==> {
                &&& final(self).stack@ == old(self).stack@.drop_last()
                &&& exit_outcome(*config, old(self).stack@.last(), exit, r)
            },
            stack_wf(final(self).stack@),
    {
        if !config.enforce_for_class_fields {
            return None;
        }
        if parent_kind != NodeKind::PublicFieldDefinition {
            return None;
        }
        self.exit_function(config, exit)
    }
}

/// What the traversal reports to the rule, one event at a time.
pub enum TraversalEvent {
    /// A function, generator function or method definition is entered; `own`
    /// is the method itself, `parent` the function's parent as a member.
    EnterFunction { function_kind: NodeKind, own: Option<MemberContext>, parent: Option<MemberContext> },
    /// Such a function is left.
    ExitFunction { exit: ExitInfo },
    /// A function declaration, a field value or a static block is entered.
    EnterScope,
    /// Such a scope is left.
    ExitScope,
    /// `this` or `super` is met.
    ThisOrSuper,
    /// An arrow function that is a field's value is entered.
    EnterFieldArrow { parent: Option<MemberContext> },
    /// An arrow function is left; `parent_kind` is the kind of its parent.
    ExitArrow { parent_kind: NodeKind, exit: ExitInfo },
}

/// The event can be handled in a state with this stack: what it carries is
/// as the rule needs it, and what it leaves was entered.
pub open spec fn event_ready(config: ClassMethodsUseThisConfig, s: Seq<StackItem>, e: TraversalEvent) -> bool {
    match e {
        TraversalEvent::EnterFunction { function_kind, own, parent } => {
            &&& own matches Some(m) ==> member_context_wf(m)
            &&& parent matches Some(m) ==> member_context_wf(m)
            &&& function_kind == NodeKind::MethodDefinition ==> own is Some
        },
        TraversalEvent::ExitFunction { .. } => s.len() > 0,
        TraversalEvent::EnterScope => true,
        TraversalEvent::ExitScope => s.len() > 0,
        TraversalEvent::ThisOrSuper => true,
        TraversalEvent::EnterFieldArrow { parent } => parent matches Some(m) ==> member_context_wf(m),
        TraversalEvent::ExitArrow { parent_kind, .. } => config.enforce_for_class_fields
            && parent_kind == NodeKind::PublicFieldDefinition ==> s.len() > 0,
    }
}

/// The context pushed for a function whose own member and parent are given.
pub open spec fn function_item(
    function_kind: NodeKind,
    own: Option<MemberContext>,
    parent: Option<MemberContext>,
) -> StackItem {
    if function_kind == NodeKind::MethodDefinition {
        pushed_item(own)
    } else if parent matches Some(p) && p.member.kind == NodeKind::PublicFieldDefinition {
        pushed_item(parent)
    } else {
        pushed_item(None)
    }
}

/// The stack after the event.
pub open spec fn next_stack(config: ClassMethodsUseThisConfig, s: Seq<StackItem>, e: TraversalEvent) -> Seq<
    StackItem,
> {
    match e {
        TraversalEvent::EnterFunction { function_kind, own, parent } => s.push(
            function_item(function_kind, own, parent),
        ),
        TraversalEvent::ExitFunction { .. } => s.drop_last(),
        TraversalEvent::EnterScope => s.push(pushed_item(None)),
        TraversalEvent::ExitScope => s.drop_last(),
        TraversalEvent::ThisOrSuper => if s.len() == 0 {
            s
        } else {
            s.drop_last().push(StackItem { member: s.last().member, uses_this: true })
        },
        TraversalEvent::EnterFieldArrow { parent } => if config.enforce_for_class_fields {
            s.push(function_item(NodeKind::Other, None, parent))
        } else {
            s
        },
        TraversalEvent::ExitArrow { parent_kind, .. } => if config.enforce_for_class_fields
            && parent_kind == NodeKind::PublicFieldDefinition {
            s.drop_last()
        } else {
            s
        },
    }
}

/// What the event reports: leaving a function (or a field's arrow function,
/// when fields are checked) reports as `exit_outcome` says; nothing else
/// reports.
pub open spec fn event_report(
    config: ClassMethodsUseThisConfig,
    s: Seq<StackItem>,
    e: TraversalEvent,
    r: Option<MissingThis>,
) -> bool {
    match e {
        TraversalEvent::ExitFunction { exit } => exit_outcome(config, s.last(), exit, r),
        TraversalEvent::ExitArrow { parent_kind, exit } => if config.enforce_for_class_fields
            && parent_kind == NodeKind::PublicFieldDefinition {
            exit_outcome(config, s.last(), exit, r)
        } else {
            r is None
        },
        _ => r is None,
    }
}

/// The rule: handles one traversal event, updating the stack of contexts, and
/// returns the report that the event gives rise to, if any.
pub fn class_methods_use_this_rule(
    state: &mut ClassMethodsUseThisState,
    config: &ClassMethodsUseThisConfig,
    event: TraversalEvent,
) -> (r: Option<MissingThis>)
    requires
        stack_wf(old(state).stack@),
        event_ready(*config, old(state).stack@, event),
    ensures
        final(state).stack@ == next_stack(*config, old(state).stack@, event),
        event_report(*config, old(state).stack@, event, r),
        stack_wf(final(state).stack@),
{
    match event {
        TraversalEvent::EnterFunction { function_kind, own, parent } => {
            state.enter_function(function_kind, own, parent);
            None
        },
        TraversalEvent::ExitFunction { exit } => state.exit_function(config, exit),
        TraversalEvent::EnterScope => {
            state.enter_scope();
            None
        },
        TraversalEvent::ExitScope => {
            state.exit_scope();
            None
        },
        TraversalEvent::ThisOrSuper => {
            state.mark_this();
            None
        },
        TraversalEvent::EnterFieldArrow { parent } => {
            state.enter_field_arrow(config, parent);
            None
        },
        TraversalEvent::ExitArrow { parent_kind, exit } => state.exit_arrow(config, parent_kind, exit),
    }
}

/// Entering a scope and leaving it gives back the stack as it was.
pub proof fn scope_enter_exit_restores_stack(config: ClassMethodsUseThisConfig, s: Seq<StackItem>)
    ensures
        next_stack(config, next_stack(config, s, TraversalEvent::EnterScope), TraversalEvent::ExitScope)
            == s,
{
    assert(s.push(pushed_item(None)).drop_last() =~= s);
}

/// Entering a function and leaving it gives back the stack as it was.
pub proof fn function_enter_exit_restores_stack(
    config: ClassMethodsUseThisConfig,
    s: Seq<StackItem>,
    function_kind: NodeKind,
    own: Option<MemberContext>,
    parent: Option<MemberContext>,
    exit: ExitInfo,
)
    ensures
        next_stack(
            config,
            next_stack(config, s, TraversalEvent::EnterFunction { function_kind, own, parent }),
            TraversalEvent::ExitFunction { exit },
        ) == s,
{
    assert(s.push(function_item(function_kind, own, parent)).drop_last() =~= s);
}

/// A function in which `this` or `super` was met is never reported when it
/// is left.
pub proof fn function_using_this_is_not_reported(
    config: ClassMethodsUseThisConfig,
    s: Seq<StackItem>,
    exit: ExitInfo,
    r: Option<MissingThis>,
)
    requires
        s.len() > 0,
        event_report(
            config,
            next_stack(config, s, TraversalEvent::ThisOrSuper),
            TraversalEvent::ExitFunction { exit },
            r,
        ),
    ensures
        r is None,
{
    let t = next_stack(config, s, TraversalEvent::ThisOrSuper);
    assert(t.last().uses_this);
}

/// The stack after entering a function and, when `seen_this`, meeting
/// `this` in it.
pub open spec fn entered_function(
    config: ClassMethodsUseThisConfig,
    s: Seq<StackItem>,
    function_kind: NodeKind,
    own: Option<MemberContext>,
    parent: Option<MemberContext>,
    seen_this: bool,
) -> Seq<StackItem> {
    let entered = next_stack(config, s, TraversalEvent::EnterFunction { function_kind, own, parent });
    if seen_this {
        next_stack(config, entered, TraversalEvent::ThisOrSuper)
    } else {
        entered
    }
}

/// A function that belongs to no class member (neither a method definition
/// nor the value of a field) is never reported when it is left, whatever is
/// met inside it.
pub proof fn non_member_function_is_not_reported(
    config: ClassMethodsUseThisConfig,
    s: Seq<StackItem>,
    function_kind: NodeKind,
    own: Option<MemberContext>,
    parent: Option<MemberContext>,
    seen_this: bool,
    exit: ExitInfo,
    r: Option<MissingThis>,
)
    requires
        function_kind != NodeKind::MethodDefinition,
        !(parent matches Some(p) && p.member.kind == NodeKind::PublicFieldDefinition),
        event_report(
            config,
            entered_function(config, s, function_kind, own, parent, seen_this),
            TraversalEvent::ExitFunction { exit },
            r,
        ),
    ensures
        r is None,
{
}

/// A method of a class that never uses `this` is reported on leaving it, at
/// its head and under its name, when it is an included instance method and no
/// exemption applies.
pub proof fn method_without_this_is_reported(
    config: ClassMethodsUseThisConfig,
    s: Seq<StackItem>,
    m: MemberContext,
    parent: Option<MemberContext>,
    exit: ExitInfo,
    r: Option<MissingThis>,
)
    requires
        m.member.kind == NodeKind::MethodDefinition,
        m.parent_kind == NodeKind::ClassBody,
        spec_is_included_instance_method(config, m),
        !(config.ignore_override_methods && spec_has_override_modifier(m.member)),
        config.ignore_classes_that_implement_an_interface == IgnoreClassesThatImplementAnInterface::Bool(
            false,
        ),
        event_report(
            config,
            next_stack(
                config,
                s,
                TraversalEvent::EnterFunction {
                    function_kind: NodeKind::MethodDefinition,
                    own: Some(m),
                    parent,
                },
            ),
            TraversalEvent::ExitFunction { exit },
            r,
        ),
    ensures
        r matches Some(v) && v.start == exit.head_start && v.end == exit.head_end && v.name@
            == exit.name_with_kind@,
{
}

} // verus!
