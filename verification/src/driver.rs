//! The phase driver: the state machine that orchestrates enter and leave
//! phases on a single element.
//!
//! The driver holds no DOM handle.  Every method consumes one event — a
//! change of the visibility signal, the next-frame callback, the resolved
//! timing information, a native completion event, the fallback timer, or
//! unmount — and returns the list of side effects ([`Action`]) that the
//! caller must perform on the element, in order.  The caller owns the
//! element, the event listener and the timer; the driver decides.
//!
//! The next-frame scheduler is assumed to run at most the latest scheduled
//! callback; the driver is robust against stale callbacks anyway, because a
//! new phase replaces the pending frame task and a stale `on_frame` call
//! then finds nothing to do.

use vstd::prelude::*;
use vstd::string::*;

use crate::get_transition_info::{sat_add_u64, AnimationTypes, CSSTransitionInfo};

verus! {

/// The six user lifecycle hooks.
#[derive(PartialEq, Eq, Structural, Clone, Copy, Debug)]
pub enum Hook {
    BeforeEnter,
    Enter,
    AfterEnter,
    BeforeLeave,
    Leave,
    AfterLeave,
}

/// Enter or leave.
#[derive(PartialEq, Eq, Structural, Clone, Copy, Debug)]
pub enum PhaseKind {
    Enter,
    Leave,
}

/// Progress of the native completion events of the armed phase: how many
/// have been seen, and how many properties the winning family animates.
#[derive(PartialEq, Eq, Structural, Clone, Copy, Debug)]
pub struct CompletionCount {
    pub seen: usize,
    pub needed: usize,
}

/// One DOM side effect requested of the caller, to be performed in order:
/// class toggles and the inline `display` style on the element, a user
/// lifecycle hook, scheduling the next-frame callback, arming the native
/// completion listener of the given family or the fallback timer (in
/// milliseconds), or removing the armed listener.
#[derive(PartialEq, Clone, Debug)]
pub enum Action {
    AddClass(String),
    RemoveClass(String),
    SetDisplay(String),
    RunHook(Hook),
    RequestFrame,
    ArmListener(AnimationTypes),
    ArmTimer(u64),
    RemoveListener,
}

/// Mathematical view of an [`Action`]: class names as character sequences.
#[verifier::ext_equal]
pub enum ActionV {
    AddClass(Seq<char>),
    RemoveClass(Seq<char>),
    SetDisplay(Seq<char>),
    RunHook(Hook),
    RequestFrame,
    ArmListener(AnimationTypes),
    ArmTimer(u64),
    RemoveListener,
}

impl View for Action {
    type V = ActionV;

    open spec fn view(&self) -> ActionV {
        match self {
            Action::AddClass(c) => ActionV::AddClass(c@),
            Action::RemoveClass(c) => ActionV::RemoveClass(c@),
            Action::SetDisplay(d) => ActionV::SetDisplay(d@),
            Action::RunHook(h) => ActionV::RunHook(*h),
            Action::RequestFrame => ActionV::RequestFrame,
            Action::ArmListener(t) => ActionV::ArmListener(*t),
            Action::ArmTimer(ms) => ActionV::ArmTimer(*ms),
            Action::RemoveListener => ActionV::RemoveListener,
        }
    }
}

/// The views of a sequence of actions.
pub open spec fn action_views(v: Seq<Action>) -> Seq<ActionV> {
    Seq::new(v.len(), |i: int| v[i]@)
}

/// A phase whose frame or completion work is still pending, carrying the
/// class name prefix sampled when the phase started.
pub struct Task {
    pub kind: PhaseKind,
    pub name: String,
}

/// Mathematical view of a [`Task`].
#[verifier::ext_equal]
pub struct TaskV {
    pub kind: PhaseKind,
    pub name: Seq<char>,
}

impl View for Task {
    type V = TaskV;

    open spec fn view(&self) -> TaskV {
        TaskV { kind: self.kind, name: self.name@ }
    }
}

pub open spec fn task_view(t: Option<Task>) -> Option<TaskV> {
    match t {
        Option::None => None,
        Option::Some(t) => Some(t@),
    }
}

/// The driver's state.  `prev_show` is `None` until the first evaluation;
/// `frame` is the task waiting for the next-frame callback; `awaiting` the
/// task between the frame's class swap and the timing resolution; `finish`
/// the armed phase whose cleanup has not run yet; `count` the completion
/// event progress; `listener` whether a native completion listener is
/// registered.
pub struct PhaseDriver {
    pub appear: bool,
    pub prev_show: Option<bool>,
    pub frame: Option<Task>,
    pub awaiting: Option<Task>,
    pub finish: Option<Task>,
    pub count: Option<CompletionCount>,
    pub listener: bool,
    pub unmounted: bool,
}

/// Mathematical view of the driver's state.
#[verifier::ext_equal]
pub struct DriverV {
    pub appear: bool,
    pub prev_show: Option<bool>,
    pub frame: Option<TaskV>,
    pub awaiting: Option<TaskV>,
    pub finish: Option<TaskV>,
    pub count: Option<CompletionCount>,
    pub listener: bool,
    pub unmounted: bool,
}

impl View for PhaseDriver {
    type V = DriverV;

    open spec fn view(&self) -> DriverV {
        DriverV {
            appear: self.appear,
            prev_show: self.prev_show,
            frame: task_view(self.frame),
            awaiting: task_view(self.awaiting),
            finish: task_view(self.finish),
            count: self.count,
            listener: self.listener,
            unmounted: self.unmounted,
        }
    }
}

pub open spec fn suffix_from(kind: PhaseKind) -> Seq<char> {
    match kind {
        PhaseKind::Enter => "-enter-from"@,
        PhaseKind::Leave => "-leave-from"@,
    }
}

pub open spec fn suffix_active(kind: PhaseKind) -> Seq<char> {
    match kind {
        PhaseKind::Enter => "-enter-active"@,
        PhaseKind::Leave => "-leave-active"@,
    }
}

pub open spec fn suffix_to(kind: PhaseKind) -> Seq<char> {
    match kind {
        PhaseKind::Enter => "-enter-to"@,
        PhaseKind::Leave => "-leave-to"@,
    }
}

pub open spec fn class_from(t: TaskV) -> Seq<char> {
    t.name + suffix_from(t.kind)
}

pub open spec fn class_active(t: TaskV) -> Seq<char> {
    t.name + suffix_active(t.kind)
}

pub open spec fn class_to(t: TaskV) -> Seq<char> {
    t.name + suffix_to(t.kind)
}

pub open spec fn hook_before(kind: PhaseKind) -> Hook {
    match kind {
        PhaseKind::Enter => Hook::BeforeEnter,
        PhaseKind::Leave => Hook::BeforeLeave,
    }
}

pub open spec fn hook_main(kind: PhaseKind) -> Hook {
    match kind {
        PhaseKind::Enter => Hook::Enter,
        PhaseKind::Leave => Hook::Leave,
    }
}

pub open spec fn hook_after(kind: PhaseKind) -> Hook {
    match kind {
        PhaseKind::Enter => Hook::AfterEnter,
        PhaseKind::Leave => Hook::AfterLeave,
    }
}

/// The cleanup that completes a phase: strip the active and to classes, for
/// a leave phase hide the element again, and fire the after hook.
pub open spec fn remove_actions(t: TaskV) -> Seq<ActionV> {
    match t.kind {
        PhaseKind::Enter => seq![
            ActionV::RemoveClass(class_active(t)),
            ActionV::RemoveClass(class_to(t)),
            ActionV::RunHook(Hook::AfterEnter),
        ],
        PhaseKind::Leave => seq![
            ActionV::RemoveClass(class_active(t)),
            ActionV::RemoveClass(class_to(t)),
            ActionV::SetDisplay("none"@),
            ActionV::RunHook(Hook::AfterLeave),
        ],
    }
}

/// Running the stored finish callback: the phase cleanup followed by the
/// release of the native listener, when one is registered.
pub open spec fn finish_actions(t: TaskV, listener: bool) -> Seq<ActionV> {
    remove_actions(t) + if listener {
        seq![ActionV::RemoveListener]
    } else {
        Seq::<ActionV>::empty()
    }
}

/// Take-once semantics of the finish slot: if a finish callback is stored,
/// run it (cleanup plus listener release) and clear the armed state;
/// otherwise nothing happens at all.
pub open spec fn run_finish(pre: DriverV) -> (DriverV, Seq<ActionV>) {
    match pre.finish {
        Option::None => (pre, Seq::<ActionV>::empty()),
        Option::Some(t) => (
            DriverV {
                appear: pre.appear,
                prev_show: pre.prev_show,
                frame: pre.frame,
                awaiting: pre.awaiting,
                finish: None,
                count: None,
                listener: false,
                unmounted: pre.unmounted,
            },
            finish_actions(t, pre.listener),
        ),
    }
}

/// The synchronous start of a phase: the before hook, the from and active
/// classes, for an enter phase the element made visible, and the request
/// for the next-frame callback.
pub open spec fn phase_start_actions(kind: PhaseKind, name: Seq<char>) -> Seq<ActionV> {
    let t = TaskV { kind: kind, name: name };
    match kind {
        PhaseKind::Enter => seq![
            ActionV::RunHook(Hook::BeforeEnter),
            ActionV::AddClass(class_from(t)),
            ActionV::AddClass(class_active(t)),
            ActionV::SetDisplay(""@),
            ActionV::RequestFrame,
        ],
        PhaseKind::Leave => seq![
            ActionV::RunHook(Hook::BeforeLeave),
            ActionV::AddClass(class_from(t)),
            ActionV::AddClass(class_active(t)),
            ActionV::RequestFrame,
        ],
    }
}

/// An edge of the visibility signal: force-finish whatever phase is still
/// armed, then start the new phase, replacing any pending frame task.
pub open spec fn step_edge(pre: DriverV, show: bool, name: Seq<char>) -> (DriverV, Seq<ActionV>) {
    let kind = if show {
        PhaseKind::Enter
    } else {
        PhaseKind::Leave
    };
    let p1 = run_finish(pre).0;
    let post = DriverV {
        appear: p1.appear,
        prev_show: Some(show),
        frame: Some(TaskV { kind: kind, name: name }),
        awaiting: None,
        finish: p1.finish,
        count: p1.count,
        listener: p1.listener,
        unmounted: p1.unmounted,
    };
    (post, run_finish(pre).1 + phase_start_actions(kind, name))
}

/// The visibility signal was evaluated with value `show`, the transition
/// name being `name`.  On the first evaluation the driver only sets the
/// element's `display` — unless `appear` is set and `show` is true, in
/// which case the enter phase runs as if the element had been hidden.
/// Re-evaluations with an unchanged value do nothing; a changed value
/// starts the matching phase.
pub open spec fn step_show(pre: DriverV, show: bool, name: Seq<char>) -> (DriverV, Seq<ActionV>) {
    if pre.unmounted {
        (pre, Seq::<ActionV>::empty())
    } else {
        match pre.prev_show {
            Option::None => {
                if show && pre.appear {
                    step_edge(pre, show, name)
                } else {
                    (
                        DriverV {
                            appear: pre.appear,
                            prev_show: Some(show),
                            frame: pre.frame,
                            awaiting: pre.awaiting,
                            finish: pre.finish,
                            count: pre.count,
                            listener: pre.listener,
                            unmounted: pre.unmounted,
                        },
                        seq![
                            ActionV::SetDisplay(
                                if show {
                                    ""@
                                } else {
                                    "none"@
                                },
                            ),
                        ],
                    )
                }
            },
            Option::Some(prev) => {
                if show == prev {
                    (pre, Seq::<ActionV>::empty())
                } else {
                    step_edge(pre, show, name)
                }
            },
        }
    }
}

/// The next-frame callback fired: swap the from class for the to class of
/// the pending phase, which then waits for its timing information.
pub open spec fn step_frame(pre: DriverV) -> (DriverV, Seq<ActionV>) {
    if pre.unmounted {
        (pre, Seq::<ActionV>::empty())
    } else {
        match pre.frame {
            Option::None => (pre, Seq::<ActionV>::empty()),
            Option::Some(t) => (
                DriverV {
                    appear: pre.appear,
                    prev_show: pre.prev_show,
                    frame: None,
                    awaiting: Some(t),
                    finish: pre.finish,
                    count: pre.count,
                    listener: pre.listener,
                    unmounted: pre.unmounted,
                },
                seq![ActionV::RemoveClass(class_from(t)), ActionV::AddClass(class_to(t))],
            ),
        }
    }
}

/// The timing information for the phase that just swapped classes was
/// resolved.  With no animation to wait for, the phase finishes on the
/// spot: cleanup now, no timer, no listener.  Otherwise the fallback timer
/// (timeout plus one) and the winning family's completion listener are
/// armed and the finish callback stored.  Either way the phase's main hook
/// fires last.
pub open spec fn step_info(pre: DriverV, info: Option<CSSTransitionInfo>) -> (
    DriverV,
    Seq<ActionV>,
) {
    if pre.unmounted {
        (pre, Seq::<ActionV>::empty())
    } else {
        match pre.awaiting {
            Option::None => (pre, Seq::<ActionV>::empty()),
            Option::Some(t) => match info {
                Option::None => (
                    DriverV {
                        appear: pre.appear,
                        prev_show: pre.prev_show,
                        frame: pre.frame,
                        awaiting: None,
                        finish: pre.finish,
                        count: pre.count,
                        listener: pre.listener,
                        unmounted: pre.unmounted,
                    },
                    remove_actions(t) + seq![ActionV::RunHook(hook_main(t.kind))],
                ),
                Option::Some(i) => (
                    DriverV {
                        appear: pre.appear,
                        prev_show: pre.prev_show,
                        frame: pre.frame,
                        awaiting: None,
                        finish: Some(t),
                        count: Some(CompletionCount { seen: 0, needed: i.prop_count }),
                        listener: true,
                        unmounted: pre.unmounted,
                    },
                    seq![
                        ActionV::ArmTimer(sat_add_u64(i.timeout, 1)),
                        ActionV::ArmListener(i.types),
                        ActionV::RunHook(hook_main(t.kind)),
                    ],
                ),
            },
        }
    }
}

pub open spec fn sat_add_usize(a: usize, b: usize) -> usize {
    if a + b > usize::MAX {
        usize::MAX
    } else {
        (a + b) as usize
    }
}

/// One native completion event arrived.  While the armed phase is counting,
/// the count rises by one; when it reaches the property count the stored
/// finish callback runs, once.
pub open spec fn step_completion(pre: DriverV) -> (DriverV, Seq<ActionV>) {
    if pre.unmounted {
        (pre, Seq::<ActionV>::empty())
    } else {
        match pre.count {
            Option::None => (pre, Seq::<ActionV>::empty()),
            Option::Some(c) => {
                let bumped = DriverV {
                    appear: pre.appear,
                    prev_show: pre.prev_show,
                    frame: pre.frame,
                    awaiting: pre.awaiting,
                    finish: pre.finish,
                    count: Some(
                        (CompletionCount { seen: sat_add_usize(c.seen, 1), needed: c.needed }),
                    ),
                    listener: pre.listener,
                    unmounted: pre.unmounted,
                };
                if c.seen + 1 >= c.needed {
                    run_finish(bumped)
                } else {
                    (bumped, Seq::<ActionV>::empty())
                }
            },
        }
    }
}

/// The fallback timer fired: run the stored finish callback if it is still
/// there, else nothing — a stale timer of an already finished phase is
/// harmless.
pub open spec fn step_timer(pre: DriverV) -> (DriverV, Seq<ActionV>) {
    if pre.unmounted {
        (pre, Seq::<ActionV>::empty())
    } else {
        run_finish(pre)
    }
}

/// The component was unmounted: release the native listener if one is
/// registered and go inert; later timer or event callbacks do nothing.
pub open spec fn step_unmount(pre: DriverV) -> (DriverV, Seq<ActionV>) {
    if pre.unmounted {
        (pre, Seq::<ActionV>::empty())
    } else {
        (
            DriverV {
                appear: pre.appear,
                prev_show: pre.prev_show,
                frame: None,
                awaiting: None,
                finish: None,
                count: None,
                listener: false,
                unmounted: true,
            },
            if pre.listener {
                seq![ActionV::RemoveListener]
            } else {
                Seq::<ActionV>::empty()
            },
        )
    }
}

/// The state of a freshly mounted driver.
pub open spec fn init_driver(appear: bool) -> DriverV {
    DriverV {
        appear: appear,
        prev_show: None,
        frame: None,
        awaiting: None,
        finish: None,
        count: None,
        listener: false,
        unmounted: false,
    }
}

fn class_with_suffix(name: &String, suffix: &str) -> (r: String)
    ensures
        r@ == name@ + suffix@,
{
    let mut c = name.clone();
    c.append(suffix);
    c
}

impl PhaseDriver {
    /// A driver for a freshly mounted element.
    pub fn new(appear: bool) -> (d: PhaseDriver)
        ensures
            d@ == init_driver(appear),
    {
        PhaseDriver {
            appear: appear,
            prev_show: None,
            frame: None,
            awaiting: None,
            finish: None,
            count: None,
            listener: false,
            unmounted: false,
        }
    }

    /// Run the stored finish callback, if any, appending its actions.
    fn take_finish(&mut self, acts: &mut Vec<Action>)
        ensures
            final(self)@ == run_finish(old(self)@).0,
            action_views(final(acts)@) == action_views(old(acts)@) + run_finish(old(self)@).1,
    {
        match self.finish.take() {
            Option::None => {
                proof {
                    assert(action_views(acts@) =~~= action_views(acts@) + Seq::<
                        ActionV,
                    >::empty());
                }
            },
            Option::Some(t) => {
                let active = match t.kind {
                    PhaseKind::Enter => class_with_suffix(&t.name, "-enter-active"),
                    PhaseKind::Leave => class_with_suffix(&t.name, "-leave-active"),
                };
                let to = match t.kind {
                    PhaseKind::Enter => class_with_suffix(&t.name, "-enter-to"),
                    PhaseKind::Leave => class_with_suffix(&t.name, "-leave-to"),
                };
                acts.push(Action::RemoveClass(active));
                acts.push(Action::RemoveClass(to));
                match t.kind {
                    PhaseKind::Enter => {
                        acts.push(Action::RunHook(Hook::AfterEnter));
                    },
                    PhaseKind::Leave => {
                        acts.push(Action::SetDisplay(String::from_str("none")));
                        acts.push(Action::RunHook(Hook::AfterLeave));
                    },
                }
                self.count = None;
                if self.listener {
                    self.listener = false;
                    acts.push(Action::RemoveListener);
                }
                proof {
                    assert(action_views(acts@) =~~= action_views(old(acts)@) + run_finish(
                        old(self)@,
                    ).1);
                }
            },
        }
    }

    /// React to an evaluation of the visibility signal; see [`step_show`].
    pub fn on_show_change(&mut self, show: bool, name: &str) -> (acts: Vec<Action>)
        ensures
            final(self)@ == step_show(old(self)@, show, name@).0,
            action_views(acts@) == step_show(old(self)@, show, name@).1,
    {
        let mut acts: Vec<Action> = Vec::new();
        proof {
            assert(action_views(acts@) =~~= Seq::<ActionV>::empty());
        }
        if self.unmounted {
            return acts;
        }
        let run_edge: bool = match self.prev_show {
            Option::None => {
                if show && self.appear {
                    true
                } else {
                    false
                }
            },
            Option::Some(prev) => show != prev,
        };
        if !run_edge {
            match self.prev_show {
                Option::None => {
                    self.prev_show = Some(show);
                    if show {
                        acts.push(Action::SetDisplay(String::from_str("")));
                    } else {
                        acts.push(Action::SetDisplay(String::from_str("none")));
                    }
                    proof {
                        assert(action_views(acts@) =~~= step_show(old(self)@, show, name@).1);
                    }
                },
                Option::Some(_) => {
                },
            }
            return acts;
        }
        self.take_finish(&mut acts);
        let kind = if show {
            PhaseKind::Enter
        } else {
            PhaseKind::Leave
        };
        let name_owned = String::from_str(name);
        let from = match kind {
            PhaseKind::Enter => class_with_suffix(&name_owned, "-enter-from"),
            PhaseKind::Leave => class_with_suffix(&name_owned, "-leave-from"),
        };
        let active = match kind {
            PhaseKind::Enter => class_with_suffix(&name_owned, "-enter-active"),
            PhaseKind::Leave => class_with_suffix(&name_owned, "-leave-active"),
        };
        match kind {
            PhaseKind::Enter => {
                acts.push(Action::RunHook(Hook::BeforeEnter));
                acts.push(Action::AddClass(from));
                acts.push(Action::AddClass(active));
                acts.push(Action::SetDisplay(String::from_str("")));
                acts.push(Action::RequestFrame);
            },
            PhaseKind::Leave => {
                acts.push(Action::RunHook(Hook::BeforeLeave));
                acts.push(Action::AddClass(from));
                acts.push(Action::AddClass(active));
                acts.push(Action::RequestFrame);
            },
        }
        self.prev_show = Some(show);
        self.frame = Some(Task { kind: kind, name: name_owned });
        self.awaiting = None;
        proof {
            assert(action_views(acts@) =~~= step_show(old(self)@, show, name@).1);
        }
        acts
    }

    /// React to the next-frame callback; see [`step_frame`].
    pub fn on_frame(&mut self) -> (acts: Vec<Action>)
        ensures
            final(self)@ == step_frame(old(self)@).0,
            action_views(acts@) == step_frame(old(self)@).1,
    {
        let mut acts: Vec<Action> = Vec::new();
        proof {
            assert(action_views(acts@) =~~= Seq::<ActionV>::empty());
        }
        if self.unmounted {
            return acts;
        }
        match self.frame.take() {
            Option::None => acts,
            Option::Some(t) => {
                let from = match t.kind {
                    PhaseKind::Enter => class_with_suffix(&t.name, "-enter-from"),
                    PhaseKind::Leave => class_with_suffix(&t.name, "-leave-from"),
                };
                let to = match t.kind {
                    PhaseKind::Enter => class_with_suffix(&t.name, "-enter-to"),
                    PhaseKind::Leave => class_with_suffix(&t.name, "-leave-to"),
                };
                acts.push(Action::RemoveClass(from));
                acts.push(Action::AddClass(to));
                self.awaiting = Some(t);
                proof {
                    assert(action_views(acts@) =~~= step_frame(old(self)@).1);
                }
                acts
            },
        }
    }

    /// React to the resolved timing information; see [`step_info`].
    pub fn on_transition_info(&mut self, info: Option<CSSTransitionInfo>) -> (acts: Vec<Action>)
        ensures
            final(self)@ == step_info(old(self)@, info).0,
            action_views(acts@) == step_info(old(self)@, info).1,
    {
        let mut acts: Vec<Action> = Vec::new();
        proof {
            assert(action_views(acts@) =~~= Seq::<ActionV>::empty());
        }
        if self.unmounted {
            return acts;
        }
        match self.awaiting.take() {
            Option::None => acts,
            Option::Some(t) => {
                let kind = t.kind;
                match info {
                    Option::None => {
                        let active = match kind {
                            PhaseKind::Enter => class_with_suffix(&t.name, "-enter-active"),
                            PhaseKind::Leave => class_with_suffix(&t.name, "-leave-active"),
                        };
                        let to = match kind {
                            PhaseKind::Enter => class_with_suffix(&t.name, "-enter-to"),
                            PhaseKind::Leave => class_with_suffix(&t.name, "-leave-to"),
                        };
                        acts.push(Action::RemoveClass(active));
                        acts.push(Action::RemoveClass(to));
                        match kind {
                            PhaseKind::Enter => {
                                acts.push(Action::RunHook(Hook::AfterEnter));
                                acts.push(Action::RunHook(Hook::Enter));
                            },
                            PhaseKind::Leave => {
                                acts.push(Action::SetDisplay(String::from_str("none")));
                                acts.push(Action::RunHook(Hook::AfterLeave));
                                acts.push(Action::RunHook(Hook::Leave));
                            },
                        }
                        proof {
                            assert(action_views(acts@) =~~= step_info(old(self)@, info).1);
                        }
                        acts
                    },
                    Option::Some(i) => {
                        acts.push(Action::ArmTimer(i.timeout.saturating_add(1)));
                        acts.push(Action::ArmListener(i.types));
                        match kind {
                            PhaseKind::Enter => acts.push(Action::RunHook(Hook::Enter)),
                            PhaseKind::Leave => acts.push(Action::RunHook(Hook::Leave)),
                        }
                        self.finish = Some(t);
                        self.count = Some(CompletionCount { seen: 0, needed: i.prop_count });
                        self.listener = true;
                        proof {
                            assert(action_views(acts@) =~~= step_info(old(self)@, info).1);
                        }
                        acts
                    },
                }
            },
        }
    }

    /// React to one native completion event; see [`step_completion`].
    pub fn on_completion_event(&mut self) -> (acts: Vec<Action>)
        ensures
            final(self)@ == step_completion(old(self)@).0,
            action_views(acts@) == step_completion(old(self)@).1,
    {
        let mut acts: Vec<Action> = Vec::new();
        proof {
            assert(action_views(acts@) =~~= Seq::<ActionV>::empty());
        }
        if self.unmounted {
            return acts;
        }
        match self.count {
            Option::None => acts,
            Option::Some(c) => {
                let seen2 = c.seen.saturating_add(1);
                self.count = Some(CompletionCount { seen: seen2, needed: c.needed });
                if c.needed == 0 || c.seen >= c.needed - 1 {
                    self.take_finish(&mut acts);
                }
                proof {
                    assert(action_views(acts@) =~~= step_completion(old(self)@).1);
                }
                acts
            },
        }
    }

    /// React to the fallback timer; see [`step_timer`].
    pub fn on_timer(&mut self) -> (acts: Vec<Action>)
        ensures
            final(self)@ == step_timer(old(self)@).0,
            action_views(acts@) == step_timer(old(self)@).1,
    {
        let mut acts: Vec<Action> = Vec::new();
        proof {
            assert(action_views(acts@) =~~= Seq::<ActionV>::empty());
        }
        if self.unmounted {
            return acts;
        }
        self.take_finish(&mut acts);
        proof {
            assert(action_views(acts@) =~~= step_timer(old(self)@).1);
        }
        acts
    }

    /// React to the component being unmounted; see [`step_unmount`].
    pub fn on_unmount(&mut self) -> (acts: Vec<Action>)
        ensures
            final(self)@ == step_unmount(old(self)@).0,
            action_views(acts@) == step_unmount(old(self)@).1,
    {
        let mut acts: Vec<Action> = Vec::new();
        proof {
            assert(action_views(acts@) =~~= Seq::<ActionV>::empty());
        }
        if self.unmounted {
            return acts;
        }
        if self.listener {
            acts.push(Action::RemoveListener);
        }
        self.frame = None;
        self.awaiting = None;
        self.finish = None;
        self.count = None;
        self.listener = false;
        self.unmounted = true;
        proof {
            assert(action_views(acts@) =~~= step_unmount(old(self)@).1);
        }
        acts
    }
}

} // verus!
