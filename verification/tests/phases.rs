use css_transition::driver::{Action, Hook, PhaseDriver};
use css_transition::get_transition_info::{AnimationTypes, CSSTransitionInfo};
use std::collections::HashSet;

fn transition_info(prop_count: usize, timeout: u64) -> CSSTransitionInfo {
    CSSTransitionInfo {
        types: AnimationTypes::Transition,
        prop_count,
        timeout,
    }
}

/// Replay the class mutations of an action list onto a set of class names.
fn apply(classes: &mut HashSet<String>, acts: &[Action]) {
    for a in acts {
        match a {
            Action::AddClass(c) => {
                classes.insert(c.clone());
            }
            Action::RemoveClass(c) => {
                classes.remove(c);
            }
            _ => {}
        }
    }
}

fn hook_count(acts: &[Action], h: Hook) -> usize {
    acts.iter()
        .filter(|a| matches!(a, Action::RunHook(x) if *x == h))
        .count()
}

#[test]
fn first_evaluation_without_appear_only_sets_display() {
    let mut d = PhaseDriver::new(false);
    let acts = d.on_show_change(true, "fade");
    assert_eq!(acts, vec![Action::SetDisplay("".to_string())]);
}

#[test]
fn first_evaluation_hidden_sets_display_none() {
    let mut d = PhaseDriver::new(false);
    let acts = d.on_show_change(false, "fade");
    assert_eq!(acts, vec![Action::SetDisplay("none".to_string())]);
}

#[test]
fn appear_runs_enter_phase_on_first_evaluation() {
    let mut d = PhaseDriver::new(true);
    let acts = d.on_show_change(true, "fade");
    assert_eq!(acts[0], Action::RunHook(Hook::BeforeEnter));
    assert_eq!(acts[1], Action::AddClass("fade-enter-from".to_string()));
}

#[test]
fn repeated_value_is_a_no_op() {
    let mut d = PhaseDriver::new(false);
    d.on_show_change(true, "fade");
    let acts = d.on_show_change(true, "fade");
    assert_eq!(acts, Vec::<Action>::new());
}

#[test]
fn enter_phase_full_run() {
    // An element with `transition: opacity 0.5s` and no delay.
    let mut d = PhaseDriver::new(false);
    d.on_show_change(false, "fade");
    let start = d.on_show_change(true, "fade");
    assert_eq!(
        start,
        vec![
            Action::RunHook(Hook::BeforeEnter),
            Action::AddClass("fade-enter-from".to_string()),
            Action::AddClass("fade-enter-active".to_string()),
            Action::SetDisplay("".to_string()),
            Action::RequestFrame,
        ]
    );
    let frame = d.on_frame();
    assert_eq!(
        frame,
        vec![
            Action::RemoveClass("fade-enter-from".to_string()),
            Action::AddClass("fade-enter-to".to_string()),
        ]
    );
    let armed = d.on_transition_info(Some(transition_info(1, 500)));
    assert_eq!(
        armed,
        vec![
            Action::ArmTimer(501),
            Action::ArmListener(AnimationTypes::Transition),
            Action::RunHook(Hook::Enter),
        ]
    );
    let done = d.on_completion_event();
    assert_eq!(
        done,
        vec![
            Action::RemoveClass("fade-enter-active".to_string()),
            Action::RemoveClass("fade-enter-to".to_string()),
            Action::RunHook(Hook::AfterEnter),
            Action::RemoveListener,
        ]
    );
}

#[test]
fn leave_completion_hides_element() {
    let mut d = PhaseDriver::new(false);
    d.on_show_change(true, "fade");
    d.on_show_change(false, "fade");
    d.on_frame();
    d.on_transition_info(Some(transition_info(1, 200)));
    let done = d.on_completion_event();
    assert_eq!(
        done,
        vec![
            Action::RemoveClass("fade-leave-active".to_string()),
            Action::RemoveClass("fade-leave-to".to_string()),
            Action::SetDisplay("none".to_string()),
            Action::RunHook(Hook::AfterLeave),
            Action::RemoveListener,
        ]
    );
}

#[test]
fn no_css_finishes_synchronously_with_no_timer() {
    let mut d = PhaseDriver::new(false);
    d.on_show_change(false, "fade");
    d.on_show_change(true, "fade");
    d.on_frame();
    let acts = d.on_transition_info(None);
    assert_eq!(
        acts,
        vec![
            Action::RemoveClass("fade-enter-active".to_string()),
            Action::RemoveClass("fade-enter-to".to_string()),
            Action::RunHook(Hook::AfterEnter),
            Action::RunHook(Hook::Enter),
        ]
    );
    assert!(!acts.iter().any(|a| matches!(a, Action::ArmTimer(_))));
    assert!(!acts.iter().any(|a| matches!(a, Action::ArmListener(_))));
    // Nothing was armed, so a later timer tick has nothing to take.
    assert_eq!(d.on_timer(), Vec::<Action>::new());
}

#[test]
fn several_properties_need_several_completions() {
    let mut d = PhaseDriver::new(false);
    d.on_show_change(false, "fade");
    d.on_show_change(true, "fade");
    d.on_frame();
    d.on_transition_info(Some(transition_info(2, 500)));
    assert_eq!(d.on_completion_event(), Vec::<Action>::new());
    let done = d.on_completion_event();
    assert_eq!(hook_count(&done, Hook::AfterEnter), 1);
}

#[test]
fn fallback_timer_finishes_and_is_idempotent() {
    let mut d = PhaseDriver::new(false);
    d.on_show_change(true, "fade");
    d.on_show_change(false, "fade");
    d.on_frame();
    d.on_transition_info(Some(transition_info(1, 300)));
    let first = d.on_timer();
    assert_eq!(hook_count(&first, Hook::AfterLeave), 1);
    assert!(first.contains(&Action::RemoveListener));
    assert_eq!(d.on_timer(), Vec::<Action>::new());
    assert_eq!(d.on_completion_event(), Vec::<Action>::new());
}

#[test]
fn rapid_toggle_settles_with_one_after_hook_each() {
    let mut d = PhaseDriver::new(false);
    d.on_show_change(false, "fade");
    let mut classes: HashSet<String> = HashSet::new();
    let mut all: Vec<Action> = Vec::new();
    // Enter up to arming, interrupt with leave before any completion, leave
    // up to arming, then the fallback timers.
    all.extend(d.on_show_change(true, "fade"));
    all.extend(d.on_frame());
    all.extend(d.on_transition_info(Some(transition_info(1, 500))));
    all.extend(d.on_show_change(false, "fade"));
    all.extend(d.on_frame());
    all.extend(d.on_transition_info(Some(transition_info(1, 500))));
    all.extend(d.on_timer());
    all.extend(d.on_timer());
    apply(&mut classes, &all);
    assert_eq!(hook_count(&all, Hook::AfterEnter), 1);
    assert_eq!(hook_count(&all, Hook::AfterLeave), 1);
    assert!(classes.is_empty());
}

#[test]
fn unmount_releases_listener_and_goes_inert() {
    let mut d = PhaseDriver::new(false);
    d.on_show_change(false, "fade");
    d.on_show_change(true, "fade");
    d.on_frame();
    d.on_transition_info(Some(transition_info(1, 500)));
    assert_eq!(d.on_unmount(), vec![Action::RemoveListener]);
    assert_eq!(d.on_timer(), Vec::<Action>::new());
    assert_eq!(d.on_completion_event(), Vec::<Action>::new());
    assert_eq!(d.on_show_change(false, "fade"), Vec::<Action>::new());
}

#[test]
fn name_is_sampled_at_phase_start() {
    let mut d = PhaseDriver::new(false);
    d.on_show_change(false, "fade");
    d.on_show_change(true, "fade");
    // The frame callback still works on the classes of the name the phase
    // started with, whatever the name signal says by now.
    let frame = d.on_frame();
    assert_eq!(
        frame[0],
        Action::RemoveClass("fade-enter-from".to_string())
    );
}
