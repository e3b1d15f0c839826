//! Declarative remapping rules, as data.
//!
//! A rule names the events it is about (an optional source device and an
//! event target), the preconditions under which it applies, and the actions
//! to take, each in one of three phases. The rule set keeps one rule per
//! combination of device, target and set of preconditions. Nothing
//! evaluates the rules: the engine's built-in policy stays in charge.

use vstd::prelude::*;
use crate::event::{EventTarget, Modifier};

verus! {

/// When, relative to the event that triggered it, an action is taken.
#[derive(Clone, Copy, PartialEq, Eq, Structural, Debug)]
pub enum ActionRulePhase {
    PreAction,
    PeriAction,
    PostAction,
}

/// Something to do on the destination device.
#[derive(Clone, Copy, PartialEq, Eq, Structural, Debug)]
pub enum Action {
    /// Emit the event with this class, code and value.
    WriteEvent(u32, u32, i32),
    /// Set the key with this code to this state.
    PressKey(u32, bool),
    /// Move the relative axis with this code by this many accumulator units.
    MoveRelative(u32, i64),
}

/// An action together with the phase in which it is taken.
#[derive(Clone, Copy, PartialEq, Eq, Structural, Debug)]
pub struct ActionRule {
    pub phase: ActionRulePhase,
    pub action: Action,
}

impl ActionRule {
    pub fn new(phase: ActionRulePhase, action: Action) -> (rule: Self)
        ensures
            rule == (ActionRule { phase, action }),
    {
        ActionRule { phase, action }
    }
}

/// Mathematical value of a precondition.
pub struct ModifierRuleData {
    pub device: Option<Seq<char>>,
    pub target: Modifier,
}

/// A precondition: a state predicate, asked of the named device or, with no
/// name, of any device.
#[derive(Debug)]
pub struct ModifierRule {
    pub device: Option<String>,
    pub target: Modifier,
}

/// The role name behind an optional device name.
pub open spec fn name_view(device: Option<String>) -> Option<Seq<char>> {
    match device {
        Some(id) => Some(id@),
        None => None,
    }
}

fn same_name(a: &Option<String>, b: &Option<String>) -> (same: bool)
    ensures
        same == (name_view(*a) == name_view(*b)),
{
    match (a, b) {
        (Some(x), Some(y)) => *x == *y,
        (None, None) => true,
        _ => false,
    }
}

fn copy_name(device: &Option<String>) -> (copy: Option<String>)
    ensures
        name_view(copy) == name_view(*device),
{
    match device {
        Some(id) => Some(id.clone()),
        None => None,
    }
}

impl View for ModifierRule {
    type V = ModifierRuleData;

    open spec fn view(&self) -> ModifierRuleData {
        ModifierRuleData { device: name_view(self.device), target: self.target }
    }
}

impl Clone for ModifierRule {
    fn clone(&self) -> (copy: Self)
        ensures
            copy@ == self@,
    {
        ModifierRule { device: copy_name(&self.device), target: self.target }
    }
}

impl PartialEq for ModifierRule {
    fn eq(&self, other: &Self) -> (same: bool) {
        same_name(&self.device, &other.device) && self.target == other.target
    }
}

impl vstd::std_specs::cmp::PartialEqSpecImpl for ModifierRule {
    open spec fn obeys_eq_spec() -> bool {
        true
    }

    open spec fn eq_spec(&self, other: &Self) -> bool {
        self@ == other@
    }
}

/// The mathematical values of a list of preconditions.
pub open spec fn views(rules: Seq<ModifierRule>) -> Seq<ModifierRuleData> {
    rules.map_values(|rule: ModifierRule| rule@)
}

/// Whether two lists hold the same set of preconditions.
pub open spec fn same_preconditions(a: Seq<ModifierRuleData>, b: Seq<ModifierRuleData>) -> bool {
    a.to_set() == b.to_set()
}

fn holds_all(a: &[ModifierRule], b: &[ModifierRule]) -> (all: bool)
    ensures
        all == views(a@).to_set().subset_of(views(b@).to_set()),
{
    let mut i: usize = 0;
    while i < a.len()
        invariant
            i <= a@.len(),
            forall|k: int| 0 <= k < i ==> views(b@).contains(#[trigger] views(a@)[k]),
        decreases a@.len() - i,
    {
        let mut found = false;
        let mut j: usize = 0;
        while j < b.len()
            invariant
                i < a@.len(),
                j <= b@.len(),
                found ==> views(b@).contains(views(a@)[i as int]),
                !found ==> forall|k: int| 0 <= k < j ==> #[trigger] views(b@)[k] != views(a@)[i as int],
            decreases b@.len() - j,
        {
            if a[i] == b[j] {
                assert(views(b@)[j as int] == views(a@)[i as int]);
                found = true;
            }
            j = j + 1;
        }
        if !found {
            assert(!views(b@).contains(views(a@)[i as int]));
            assert(views(a@).to_set().contains(views(a@)[i as int]));
            return false;
        }
        i = i + 1;
    }
    assert forall|d: ModifierRuleData| views(a@).to_set().contains(d) implies views(b@).to_set().contains(
        d,
    ) by {
        let k = choose|k: int| 0 <= k < views(a@).len() && views(a@)[k] == d;
        assert(views(b@).contains(views(a@)[k]));
    }
    true
}

fn same_set(a: &[ModifierRule], b: &[ModifierRule]) -> (same: bool)
    ensures
        same == same_preconditions(views(a@), views(b@)),
{
    let same = holds_all(a, b) && holds_all(b, a);
    proof {
        if same {
            assert(views(a@).to_set() =~= views(b@).to_set());
        }
    }
    same
}

/// Mathematical value of a rule.
pub struct RuleData {
    /// The source device the rule is about, or none for any device.
    pub device: Option<Seq<char>>,
    /// The event target the rule is about.
    pub main: EventTarget,
    /// The preconditions, all of which must hold.
    pub modifiers: Seq<ModifierRuleData>,
    /// The actions, in the order in which they were added.
    pub actions: Seq<ActionRule>,
}

impl RuleData {
    /// Whether this is the rule for the given device, target and set of
    /// preconditions.
    pub open spec fn is_for(
        self,
        device: Option<Seq<char>>,
        main: EventTarget,
        modifiers: Seq<ModifierRuleData>,
    ) -> bool {
        &&& self.device == device
        &&& self.main == main
        &&& same_preconditions(self.modifiers, modifiers)
    }

    /// This rule with `action` added after its other actions.
    pub open spec fn with_action(self, action: ActionRule) -> Self {
        RuleData { actions: self.actions.push(action), ..self }
    }
}

/// One rule: what it is about, when it applies and what it does.
#[derive(Debug)]
pub struct Rule {
    device: Option<String>,
    main: EventTarget,
    modifiers: Vec<ModifierRule>,
    actions: Vec<ActionRule>,
}

impl View for Rule {
    type V = RuleData;

    closed spec fn view(&self) -> RuleData {
        RuleData {
            device: name_view(self.device),
            main: self.main,
            modifiers: views(self.modifiers@),
            actions: self.actions@,
        }
    }
}

impl Rule {
    /// The rule for `device`, `main` and `modifiers`, without actions.
    pub fn new(device: Option<String>, main: EventTarget, modifiers: &[ModifierRule]) -> (rule:
        Self)
        ensures
            rule@ == (RuleData {
                device: name_view(device),
                main,
                modifiers: views(modifiers@),
                actions: Seq::empty(),
            }),
    {
        let mut copies: Vec<ModifierRule> = Vec::new();
        let mut i: usize = 0;
        while i < modifiers.len()
            invariant
                i <= modifiers@.len(),
                copies@.len() == i,
                forall|k: int| 0 <= k < i ==> (#[trigger] copies@[k])@ == modifiers@[k]@,
            decreases modifiers@.len() - i,
        {
            copies.push(modifiers[i].clone());
            i = i + 1;
        }
        assert(views(copies@) =~= views(modifiers@));
        Rule { device, main, modifiers: copies, actions: Vec::new() }
    }

    /// The source device the rule is about, or `None` for any device.
    pub fn device(&self) -> (device: Option<String>)
        ensures
            name_view(device) == self@.device,
    {
        copy_name(&self.device)
    }

    /// The event target the rule is about.
    pub fn main(&self) -> (main: EventTarget)
        ensures
            main == self@.main,
    {
        self.main
    }

    /// The preconditions of the rule.
    pub fn modifiers(&self) -> (modifiers: &[ModifierRule])
        ensures
            views(modifiers@) == self@.modifiers,
    {
        self.modifiers.as_slice()
    }

    /// The actions of the rule, in the order in which they were added.
    pub fn actions(&self) -> (actions: &[ActionRule])
        ensures
            actions@ == self@.actions,
    {
        self.actions.as_slice()
    }

    /// Adds `action` after the rule's other actions.
    pub fn add_action(&mut self, action: ActionRule)
        ensures
            final(self)@ == old(self)@.with_action(action),
    {
        self.actions.push(action);
    }

    fn is_for(&self, device: &Option<String>, main: EventTarget, modifiers: &[ModifierRule]) -> (yes:
        bool)
        ensures
            yes == self@.is_for(name_view(*device), main, views(modifiers@)),
    {
        same_name(&self.device, device) && self.main == main && same_set(
            self.modifiers.as_slice(),
            modifiers,
        )
    }
}

/// Whether no two of `rules` are for the same device, target and set of
/// preconditions.
pub open spec fn rules_distinct(rules: Seq<RuleData>) -> bool {
    forall|i: int, j: int|
        0 <= i < j < rules.len() ==> !(#[trigger] rules[i]).is_for(
            (#[trigger] rules[j]).device,
            rules[j].main,
            rules[j].modifiers,
        )
}

/// The position of the rule for the given device, target and set of
/// preconditions, if `rules` holds one.
pub open spec fn position_of(
    rules: Seq<RuleData>,
    device: Option<Seq<char>>,
    main: EventTarget,
    modifiers: Seq<ModifierRuleData>,
) -> Option<int> {
    if exists|i: int| 0 <= i < rules.len() && (#[trigger] rules[i]).is_for(device, main, modifiers) {
        Some(
            choose|i: int|
                0 <= i < rules.len() && (#[trigger] rules[i]).is_for(device, main, modifiers),
        )
    } else {
        None
    }
}

/// `rules` with a rule for the given device, target and set of
/// preconditions: the rule that `rules` holds for them, or else a new rule
/// without actions at the end.
pub open spec fn with_rule(
    rules: Seq<RuleData>,
    device: Option<Seq<char>>,
    main: EventTarget,
    modifiers: Seq<ModifierRuleData>,
) -> Seq<RuleData> {
    match position_of(rules, device, main, modifiers) {
        Some(_) => rules,
        None => rules.push(RuleData { device, main, modifiers, actions: Seq::empty() }),
    }
}

/// Where the rule for the given device, target and set of preconditions
/// stands in `with_rule` of them.
pub open spec fn rule_position(
    rules: Seq<RuleData>,
    device: Option<Seq<char>>,
    main: EventTarget,
    modifiers: Seq<ModifierRuleData>,
) -> int {
    match position_of(rules, device, main, modifiers) {
        Some(at) => at,
        None => rules.len() as int,
    }
}

/// `rules` after `action` was added to the rule for the given device,
/// target and set of preconditions, which is created if there is none.
pub open spec fn with_action(
    rules: Seq<RuleData>,
    device: Option<Seq<char>>,
    main: EventTarget,
    modifiers: Seq<ModifierRuleData>,
    action: ActionRule,
) -> Seq<RuleData> {
    let at = rule_position(rules, device, main, modifiers);
    let present = with_rule(rules, device, main, modifiers);
    present.update(at, present[at].with_action(action))
}

proof fn lemma_position_unique(
    rules: Seq<RuleData>,
    device: Option<Seq<char>>,
    main: EventTarget,
    modifiers: Seq<ModifierRuleData>,
    at: int,
)
    requires
        rules_distinct(rules),
        0 <= at < rules.len(),
        rules[at].is_for(device, main, modifiers),
    ensures
        position_of(rules, device, main, modifiers) == Some(at),
{
    let found = position_of(rules, device, main, modifiers)->0;
    if found < at {
        assert(!rules[found].is_for(rules[at].device, rules[at].main, rules[at].modifiers));
    } else if at < found {
        assert(!rules[at].is_for(rules[found].device, rules[found].main, rules[found].modifiers));
    }
}

/// Looking up the rule for a device, a target and a set of preconditions,
/// and creating it if there is none, never leaves two rules for the same
/// device, target and set of preconditions; and the rule stands where
/// `rule_position` says.
pub proof fn lemma_with_rule_keeps_distinct(
    rules: Seq<RuleData>,
    device: Option<Seq<char>>,
    main: EventTarget,
    modifiers: Seq<ModifierRuleData>,
)
    requires
        rules_distinct(rules),
    ensures
        rules_distinct(with_rule(rules, device, main, modifiers)),
        0 <= rule_position(rules, device, main, modifiers) < with_rule(
            rules,
            device,
            main,
            modifiers,
        ).len(),
        with_rule(rules, device, main, modifiers)[rule_position(
            rules,
            device,
            main,
            modifiers,
        )].is_for(device, main, modifiers),
{
    let present = with_rule(rules, device, main, modifiers);
    assert forall|a: int, b: int| 0 <= a < b < present.len() implies !(#[trigger] present[a]).is_for(
        (#[trigger] present[b]).device,
        present[b].main,
        present[b].modifiers,
    ) by {
        if b < rules.len() {
            assert(!rules[a].is_for(rules[b].device, rules[b].main, rules[b].modifiers));
        } else {
            assert(!rules[a].is_for(device, main, modifiers));
        }
    }
}

/// One rule per key: adding an action to the rule for a device, a target
/// and a set of preconditions, creating the rule if need be, never leaves
/// two rules for the same device, target and set of preconditions.
pub proof fn lemma_with_action_keeps_distinct(
    rules: Seq<RuleData>,
    device: Option<Seq<char>>,
    main: EventTarget,
    modifiers: Seq<ModifierRuleData>,
    action: ActionRule,
)
    requires
        rules_distinct(rules),
    ensures
        rules_distinct(with_action(rules, device, main, modifiers, action)),
{
    lemma_with_rule_keeps_distinct(rules, device, main, modifiers);
    let present = with_rule(rules, device, main, modifiers);
    let after = with_action(rules, device, main, modifiers, action);
    assert forall|a: int, b: int| 0 <= a < b < after.len() implies !(#[trigger] after[a]).is_for(
        (#[trigger] after[b]).device,
        after[b].main,
        after[b].modifiers,
    ) by {
        assert(!present[a].is_for(present[b].device, present[b].main, present[b].modifiers));
    }
}

/// The rules, one per combination of device, target and set of
/// preconditions.
#[derive(Debug)]
pub struct RuleSet {
    rules: Vec<Rule>,
}

impl View for RuleSet {
    type V = Seq<RuleData>;

    closed spec fn view(&self) -> Seq<RuleData> {
        self.rules@.map_values(|rule: Rule| rule@)
    }
}

impl RuleSet {
    /// A rule set without rules.
    pub fn new() -> (set: Self)
        ensures
            set@ == Seq::<RuleData>::empty(),
            rules_distinct(set@),
    {
        let set = RuleSet { rules: Vec::new() };
        assert(set@ =~= Seq::<RuleData>::empty());
        set
    }

    /// Rules are data only: nothing evaluates them, and matching does
    /// nothing.
    pub fn match_rules(&self) {
    }

    fn find_or_create(&mut self, device: Option<String>, main: EventTarget, modifiers: &[ModifierRule]) -> (at:
        usize)
        requires
            rules_distinct(old(self)@),
        ensures
            rules_distinct(final(self)@),
            final(self)@ == with_rule(old(self)@, name_view(device), main, views(modifiers@)),
            at == rule_position(old(self)@, name_view(device), main, views(modifiers@)),
            at < final(self)@.len(),
            at < final(self).rules@.len(),
    {
        let mut i: usize = 0;
        while i < self.rules.len()
            invariant
                i <= self.rules@.len(),
                self.rules@ == old(self).rules@,
                self@ == old(self)@,
                rules_distinct(self@),
                forall|k: int|
                    0 <= k < i ==> !(#[trigger] self@[k]).is_for(
                        name_view(device),
                        main,
                        views(modifiers@),
                    ),
            decreases self.rules@.len() - i,
        {
            if self.rules[i].is_for(&device, main, modifiers) {
                proof {
                    lemma_position_unique(
                        self@,
                        name_view(device),
                        main,
                        views(modifiers@),
                        i as int,
                    );
                }
                return i;
            }
            i = i + 1;
        }
        let ghost key = (name_view(device), main, views(modifiers@));
        let rule = Rule::new(device, main, modifiers);
        self.rules.push(rule);
        proof {
            let before = old(self)@;
            let fresh = RuleData {
                device: key.0,
                main: key.1,
                modifiers: key.2,
                actions: Seq::empty(),
            };
            assert(position_of(before, key.0, key.1, key.2) is None);
            assert(self@ =~= before.push(fresh));
            lemma_with_rule_keeps_distinct(before, key.0, key.1, key.2);
        }
        self.rules.len() - 1
    }

    /// The rule for `device`, `main` and the set of `modifiers`, for
    /// changing: the rule that the set holds for them, or else a new rule
    /// without actions, added at the end.
    pub fn get_or_create_rule_mut(
        &mut self,
        device: Option<String>,
        main: EventTarget,
        modifiers: &[ModifierRule],
    ) -> (rule: &mut Rule)
        requires
            rules_distinct(old(self)@),
        ensures
            rule@ == with_rule(old(self)@, name_view(device), main, views(modifiers@))[rule_position(
                old(self)@,
                name_view(device),
                main,
                views(modifiers@),
            )],
            final(self)@ == with_rule(
                old(self)@,
                name_view(device),
                main,
                views(modifiers@),
            ).update(
                rule_position(old(self)@, name_view(device), main, views(modifiers@)),
                final(rule)@,
            ),
    {
        let at = self.find_or_create(device, main, modifiers);
        &mut self.rules[at]
    }

    /// Adds `action`, to be taken in `phase`, to the rule for `device`,
    /// `main` and the set of `modifiers`. The rule is created if the set
    /// does not hold it yet.
    pub fn insert_rule(
        &mut self,
        device: Option<String>,
        main: EventTarget,
        modifiers: &[ModifierRule],
        phase: ActionRulePhase,
        action: Action,
    )
        requires
            rules_distinct(old(self)@),
        ensures
            rules_distinct(final(self)@),
            final(self)@ == with_action(
                old(self)@,
                name_view(device),
                main,
                views(modifiers@),
                ActionRule { phase, action },
            ),
    {
        proof {
            lemma_with_action_keeps_distinct(
                self@,
                name_view(device),
                main,
                views(modifiers@),
                ActionRule { phase, action },
            );
        }
        self.get_or_create_rule_mut(device, main, modifiers).add_action(
            ActionRule::new(phase, action),
        );
    }

    /// The number of rules.
    pub fn len(&self) -> (len: usize)
        ensures
            len == self@.len(),
    {
        self.rules.len()
    }

    /// The rule at position `at`, counted in the order of creation.
    pub fn get(&self, at: usize) -> (rule: &Rule)
        requires
            at < self@.len(),
        ensures
            rule@ == self@[at as int],
    {
        &self.rules[at]
    }
}

} // verus!
