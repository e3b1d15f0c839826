use evenger::codes::{BTN_TASK, EV_KEY, EV_REL, KEY_CAPSLOCK, LED_CAPSL, REL_HWHEEL, REL_Y};
use evenger::event::{EventTarget, Modifier};
use evenger::rule::{Action, ActionRule, ActionRulePhase, ModifierRule, Rule, RuleSet};

fn on(device: Option<&str>, target: Modifier) -> ModifierRule {
    ModifierRule { device: device.map(|d| d.to_string()), target }
}

fn mouse() -> Option<String> {
    Some("mouse".to_string())
}

#[test]
fn action_rule_keeps_phase_and_action() {
    let rule = ActionRule::new(ActionRulePhase::PostAction, Action::PressKey(KEY_CAPSLOCK, true));
    assert_eq!(rule.phase, ActionRulePhase::PostAction);
    assert_eq!(rule.action, Action::PressKey(KEY_CAPSLOCK, true));
}

#[test]
fn modifier_rules_compare_by_device_and_target() {
    let held = Modifier::Key(BTN_TASK, true);
    assert!(on(Some("mouse"), held) == on(Some("mouse"), held));
    assert!(on(None, held) == on(None, held));
    assert!(on(Some("mouse"), held) != on(Some("keyboard"), held));
    assert!(on(Some("mouse"), held) != on(None, held));
    assert!(on(Some("mouse"), held) != on(Some("mouse"), Modifier::Key(BTN_TASK, false)));
    assert!(on(Some("mouse"), held).clone() == on(Some("mouse"), held));
}

#[test]
fn new_rule_set_is_empty() {
    let set = RuleSet::new();
    assert_eq!(set.len(), 0);
    set.match_rules();
    assert_eq!(set.len(), 0);
}

#[test]
fn rule_collects_actions_in_order() {
    let mut rule = Rule::new(mouse(), EventTarget::new(EV_REL, REL_Y), &[]);
    rule.add_action(ActionRule::new(ActionRulePhase::PreAction, Action::PressKey(1, true)));
    rule.add_action(ActionRule::new(ActionRulePhase::PostAction, Action::PressKey(1, false)));
    assert_eq!(
        rule.actions().to_vec(),
        vec![
            ActionRule::new(ActionRulePhase::PreAction, Action::PressKey(1, true)),
            ActionRule::new(ActionRulePhase::PostAction, Action::PressKey(1, false)),
        ]
    );
}

#[test]
fn rule_keeps_device_target_and_preconditions() {
    let held = [on(Some("mouse"), Modifier::Key(BTN_TASK, true)), on(None, Modifier::Switch(1, false))];
    let rule = Rule::new(mouse(), EventTarget::new(EV_REL, REL_Y), &held);
    assert_eq!(rule.device(), mouse());
    assert_eq!(rule.main(), EventTarget::new(EV_REL, REL_Y));
    assert_eq!(rule.modifiers().len(), 2);
    assert!(rule.modifiers()[0] == held[0]);
    assert!(rule.modifiers()[1] == held[1]);
    assert!(rule.actions().is_empty());
    let rule = Rule::new(None, EventTarget::new(EV_KEY, 30), &[]);
    assert_eq!(rule.device(), None);
    assert!(rule.modifiers().is_empty());
}

#[test]
fn insert_rule_creates_one_rule_per_key() {
    let held = [on(Some("mouse"), Modifier::Key(BTN_TASK, true))];
    let wheel = Action::MoveRelative(REL_HWHEEL, -1);
    let mut set = RuleSet::new();
    set.insert_rule(mouse(), EventTarget::new(EV_REL, REL_Y), &held, ActionRulePhase::PeriAction, wheel);
    assert_eq!(set.len(), 1);
    assert_eq!(set.get(0).actions().to_vec(), vec![ActionRule::new(ActionRulePhase::PeriAction, wheel)]);
    set.insert_rule(
        mouse(),
        EventTarget::new(EV_REL, REL_Y),
        &held,
        ActionRulePhase::PostAction,
        Action::WriteEvent(0, 0, 0),
    );
    assert_eq!(set.len(), 1);
    assert_eq!(
        set.get(0).actions().to_vec(),
        vec![
            ActionRule::new(ActionRulePhase::PeriAction, wheel),
            ActionRule::new(ActionRulePhase::PostAction, Action::WriteEvent(0, 0, 0)),
        ]
    );
}

#[test]
fn insert_rule_tells_keys_apart() {
    let held = [on(Some("mouse"), Modifier::Key(BTN_TASK, true))];
    let act = Action::PressKey(KEY_CAPSLOCK, true);
    let phase = ActionRulePhase::PreAction;
    let mut set = RuleSet::new();
    set.insert_rule(mouse(), EventTarget::new(EV_REL, REL_Y), &held, phase, act);
    set.insert_rule(None, EventTarget::new(EV_REL, REL_Y), &held, phase, act);
    set.insert_rule(mouse(), EventTarget::new(EV_KEY, REL_Y), &held, phase, act);
    set.insert_rule(mouse(), EventTarget::new(EV_REL, REL_Y), &[], phase, act);
    set.insert_rule(Some("keyboard".to_string()), EventTarget::new(EV_REL, REL_Y), &held, phase, act);
    assert_eq!(set.len(), 5);
    set.insert_rule(None, EventTarget::new(EV_REL, REL_Y), &held, phase, Action::PressKey(1, false));
    assert_eq!(set.len(), 5);
    assert_eq!(set.get(0).actions().to_vec(), vec![ActionRule::new(phase, act)]);
    assert_eq!(
        set.get(1).actions().to_vec(),
        vec![ActionRule::new(phase, act), ActionRule::new(phase, Action::PressKey(1, false))]
    );
    assert_eq!(set.get(4).actions().to_vec(), vec![ActionRule::new(phase, act)]);
}

#[test]
fn insert_rule_takes_preconditions_as_a_set() {
    let a = on(Some("mouse"), Modifier::Key(BTN_TASK, true));
    let b = on(Some("keyboard"), Modifier::Led(LED_CAPSL, true));
    let act = Action::PressKey(KEY_CAPSLOCK, true);
    let phase = ActionRulePhase::PeriAction;
    let target = EventTarget::new(EV_KEY, KEY_CAPSLOCK);
    let mut set = RuleSet::new();
    set.insert_rule(None, target, &[a.clone(), b.clone()], phase, act);
    set.insert_rule(None, target, &[b.clone(), a.clone()], phase, act);
    set.insert_rule(None, target, &[a.clone(), b.clone(), a.clone()], phase, act);
    assert_eq!(set.len(), 1);
    assert_eq!(set.get(0).actions().len(), 3);
    set.insert_rule(None, target, &[a.clone()], phase, act);
    set.insert_rule(None, target, &[b.clone()], phase, act);
    assert_eq!(set.len(), 3);
    assert_eq!(set.get(1).actions().len(), 1);
}

#[test]
fn get_or_create_rule_mut_finds_the_rule_again() {
    let held = [on(None, Modifier::Switch(0, true))];
    let target = EventTarget::new(EV_KEY, 30);
    let mut set = RuleSet::new();
    set.get_or_create_rule_mut(None, target, &held)
        .add_action(ActionRule::new(ActionRulePhase::PreAction, Action::PressKey(30, true)));
    set.get_or_create_rule_mut(None, target, &[]);
    set.get_or_create_rule_mut(None, target, &held)
        .add_action(ActionRule::new(ActionRulePhase::PostAction, Action::PressKey(30, false)));
    assert_eq!(set.len(), 2);
    assert_eq!(set.get(0).actions().len(), 2);
    assert!(set.get(1).actions().is_empty());
}
