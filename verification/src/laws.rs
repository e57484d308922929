//! Properties of the phase driver and the timing resolver that span several
//! steps: what a whole sequence of events does to the element's class list,
//! how often hooks fire, and when no phase is started at all.

use vstd::prelude::*;

use crate::driver::{
    hook_main, init_driver, remove_actions, step_completion, step_frame, step_info, step_show,
    step_timer, step_unmount, ActionV, DriverV, Hook, TaskV,
};
use crate::get_transition_info::{
    spec_split, spec_timeout_prefix, spec_to_ms, spec_transition_info, CSSTransitionInfo,
};

verus! {

/// One event seen by the phase driver.
pub enum EventV {
    Show(bool, Seq<char>),
    Frame,
    Info(Option<CSSTransitionInfo>),
    Completion,
    Timer,
    Unmount,
}

/// The driver's reaction to one event.
pub open spec fn step(pre: DriverV, e: EventV) -> (DriverV, Seq<ActionV>) {
    match e {
        EventV::Show(b, n) => step_show(pre, b, n),
        EventV::Frame => step_frame(pre),
        EventV::Info(i) => step_info(pre, i),
        EventV::Completion => step_completion(pre),
        EventV::Timer => step_timer(pre),
        EventV::Unmount => step_unmount(pre),
    }
}

/// The driver's reaction to a sequence of events: the final state and the
/// concatenation of all requested actions, in order.
pub open spec fn run_events(pre: DriverV, es: Seq<EventV>) -> (DriverV, Seq<ActionV>)
    decreases es.len(),
{
    if es.len() == 0 {
        (pre, Seq::<ActionV>::empty())
    } else {
        let first = step(pre, es[0]);
        let rest = run_events(first.0, es.skip(1));
        (rest.0, first.1 + rest.1)
    }
}

/// The class list left on an element after performing the class mutations
/// of an action sequence, in order, starting from `cs`.
pub open spec fn apply_classes(cs: Set<Seq<char>>, acts: Seq<ActionV>) -> Set<Seq<char>>
    decreases acts.len(),
{
    if acts.len() == 0 {
        cs
    } else {
        let cs1 = match acts[0] {
            ActionV::AddClass(c) => cs.insert(c),
            ActionV::RemoveClass(c) => cs.remove(c),
            _ => cs,
        };
        apply_classes(cs1, acts.skip(1))
    }
}

/// How many times an action sequence runs the hook `h`.
pub open spec fn hook_count(acts: Seq<ActionV>, h: Hook) -> int
    decreases acts.len(),
{
    if acts.len() == 0 {
        0
    } else {
        (if acts[0] == ActionV::RunHook(h) {
            1int
        } else {
            0int
        }) + hook_count(acts.skip(1), h)
    }
}

pub proof fn lemma_apply_classes_app(cs: Set<Seq<char>>, a: Seq<ActionV>, b: Seq<ActionV>)
    ensures
        apply_classes(cs, a + b) == apply_classes(apply_classes(cs, a), b),
    decreases a.len(),
{
    if a.len() == 0 {
        assert(a + b =~= b);
        assert(apply_classes(cs, a) == cs);
    } else {
        assert((a + b)[0] == a[0]);
        assert((a + b).skip(1) =~= a.skip(1) + b);
        let cs1 = match a[0] {
            ActionV::AddClass(c) => cs.insert(c),
            ActionV::RemoveClass(c) => cs.remove(c),
            _ => cs,
        };
        lemma_apply_classes_app(cs1, a.skip(1), b);
    }
}

pub proof fn lemma_hook_count_app(a: Seq<ActionV>, b: Seq<ActionV>, h: Hook)
    ensures
        hook_count(a + b, h) == hook_count(a, h) + hook_count(b, h),
    decreases a.len(),
{
    if a.len() == 0 {
        assert(a + b =~= b);
    } else {
        assert((a + b)[0] == a[0]);
        assert((a + b).skip(1) =~= a.skip(1) + b);
        lemma_hook_count_app(a.skip(1), b, h);
    }
}

/// The driver's resource invariant: the finish slot, the completion counter
/// and the native listener are armed together, so there is at most one live
/// completion tuple; a phase waits either for the next frame or for its
/// timing information, never both; and an unmounted driver holds nothing.
pub open spec fn wf(s: DriverV) -> bool {
    (s.finish is Some <==> s.listener) && (s.count is Some ==> s.finish is Some) && !(s.frame
        is Some && s.awaiting is Some) && (s.unmounted ==> s.finish is None && s.count is None
        && !s.listener && s.frame is None && s.awaiting is None)
}

/// A freshly mounted driver is well formed.
pub proof fn lemma_init_wf(appear: bool)
    ensures
        wf(init_driver(appear)),
{
}

/// Every event preserves the resource invariant: no step can leave a second
/// listener armed or a second phase pending.
pub proof fn lemma_step_preserves_wf(pre: DriverV, e: EventV)
    requires
        wf(pre),
    ensures
        wf(step(pre, e).0),
{
}

/// If every duration and delay token of both families parses to zero
/// milliseconds, there is nothing to wait for and no timing information is
/// returned: the caller finishes the phase on the spot.
pub proof fn lemma_all_zero_gives_none(
    td: Seq<char>,
    tdur: Seq<char>,
    ad: Seq<char>,
    adur: Seq<char>,
)
    requires
        forall|i: int|
            0 <= i < spec_split(td).len() ==> spec_to_ms(#[trigger] spec_split(td)[i]) == 0,
        forall|i: int|
            0 <= i < spec_split(tdur).len() ==> spec_to_ms(#[trigger] spec_split(tdur)[i]) == 0,
        forall|i: int|
            0 <= i < spec_split(ad).len() ==> spec_to_ms(#[trigger] spec_split(ad)[i]) == 0,
        forall|i: int|
            0 <= i < spec_split(adur).len() ==> spec_to_ms(#[trigger] spec_split(adur)[i]) == 0,
    ensures
        spec_transition_info(td, tdur, ad, adur) is None,
{
    crate::get_transition_info::lemma_split_acc_nonempty(td, Seq::<char>::empty());
    crate::get_transition_info::lemma_split_acc_nonempty(ad, Seq::<char>::empty());
    lemma_timeout_zero(spec_split(td), spec_split(tdur), spec_split(tdur).len() as int);
    lemma_timeout_zero(spec_split(ad), spec_split(adur), spec_split(adur).len() as int);
}

proof fn lemma_timeout_zero(delays: Seq<Seq<char>>, durs: Seq<Seq<char>>, n: int)
    requires
        delays.len() > 0,
        forall|i: int| 0 <= i < delays.len() ==> spec_to_ms(#[trigger] delays[i]) == 0,
        forall|i: int| 0 <= i < durs.len() ==> spec_to_ms(#[trigger] durs[i]) == 0,
        n <= durs.len(),
    ensures
        spec_timeout_prefix(delays, durs, n) == 0,
    decreases n,
{
    if n > 0 {
        lemma_timeout_zero(delays, durs, n - 1);
        let len = delays.len() as int;
        assert(0 <= (n - 1) % len < len) by (nonlinear_arith)
            requires
                len > 0,
                n >= 1,
        ;
    }
}

/// With `appear` false, the first evaluation with the signal already true
/// only makes the element visible: no class is applied and no hook runs.
pub proof fn lemma_no_appear_skips_enter(name: Seq<char>)
    ensures
        step_show(init_driver(false), true, name).1 == seq![ActionV::SetDisplay(""@)],
        forall|j: int|
            0 <= j < step_show(init_driver(false), true, name).1.len() ==> !((
            #[trigger] step_show(init_driver(false), true, name).1[j]) is AddClass) && !(
            step_show(init_driver(false), true, name).1[j] is RunHook),
        step_show(init_driver(false), true, name).0.frame is None,
{
    assert(step_show(init_driver(false), true, name).1 =~~= seq![ActionV::SetDisplay(""@)]);
}

/// The driver state of an element sitting settled and hidden: no phase
/// pending, nothing armed.
pub open spec fn hidden_driver(appear: bool) -> DriverV {
    DriverV {
        appear: appear,
        prev_show: Some(false),
        frame: None,
        awaiting: None,
        finish: None,
        count: None,
        listener: false,
        unmounted: false,
    }
}

/// The events of a rapid toggle: an enter phase runs up to arming, the
/// signal flips back before any completion arrives, the leave phase runs up
/// to arming, and then the fallback timers fire — first finishing the leave
/// phase, the second finding nothing left to do.
pub open spec fn rapid_toggle_events(
    name: Seq<char>,
    i1: CSSTransitionInfo,
    i2: CSSTransitionInfo,
) -> Seq<EventV> {
    seq![
        EventV::Show(true, name),
        EventV::Frame,
        EventV::Info(Some(i1)),
        EventV::Show(false, name),
        EventV::Frame,
        EventV::Info(Some(i2)),
        EventV::Timer,
        EventV::Timer,
    ]
}

/// Toggling the signal on and off again before the enter phase completes
/// settles cleanly: the forced finish fires after-enter exactly once, the
/// leave phase fires after-leave exactly once, no class of either phase
/// survives on an element that carried none of them before, and nothing
/// stays armed.
#[verifier::rlimit(100)]
pub proof fn lemma_rapid_toggle_settles(
    appear: bool,
    name: Seq<char>,
    i1: CSSTransitionInfo,
    i2: CSSTransitionInfo,
    cs0: Set<Seq<char>>,
)
    requires
        !cs0.contains(name + "-enter-from"@),
        !cs0.contains(name + "-enter-active"@),
        !cs0.contains(name + "-enter-to"@),
        !cs0.contains(name + "-leave-from"@),
        !cs0.contains(name + "-leave-active"@),
        !cs0.contains(name + "-leave-to"@),
    ensures
        ({
            let r = run_events(hidden_driver(appear), rapid_toggle_events(name, i1, i2));
            hook_count(r.1, Hook::AfterEnter) == 1 && hook_count(r.1, Hook::AfterLeave) == 1
                && apply_classes(cs0, r.1) == cs0 && r.0.finish is None && r.0.count is None
                && r.0.frame is None && r.0.awaiting is None && !r.0.listener
        }),
{
    let ef = name + "-enter-from"@;
    let ea = name + "-enter-active"@;
    let et = name + "-enter-to"@;
    let lf = name + "-leave-from"@;
    let la = name + "-leave-active"@;
    let lt = name + "-leave-to"@;
    let s0 = hidden_driver(appear);
    let es = rapid_toggle_events(name, i1, i2);
    let s1 = step_show(s0, true, name).0;
    let a1 = step_show(s0, true, name).1;
    let s2 = step_frame(s1).0;
    let a2 = step_frame(s1).1;
    let s3 = step_info(s2, Some(i1)).0;
    let a3 = step_info(s2, Some(i1)).1;
    let s4 = step_show(s3, false, name).0;
    let a4 = step_show(s3, false, name).1;
    let s5 = step_frame(s4).0;
    let a5 = step_frame(s4).1;
    let s6 = step_info(s5, Some(i2)).0;
    let a6 = step_info(s5, Some(i2)).1;
    let s7 = step_timer(s6).0;
    let a7 = step_timer(s6).1;
    let s8 = step_timer(s7).0;
    let a8 = step_timer(s7).1;
    assert(a1 =~~= seq![
        ActionV::RunHook(Hook::BeforeEnter),
        ActionV::AddClass(ef),
        ActionV::AddClass(ea),
        ActionV::SetDisplay(""@),
        ActionV::RequestFrame,
    ]);
    assert(a2 =~~= seq![ActionV::RemoveClass(ef), ActionV::AddClass(et)]);
    assert(a3 =~~= seq![
        ActionV::ArmTimer(crate::get_transition_info::sat_add_u64(i1.timeout, 1)),
        ActionV::ArmListener(i1.types),
        ActionV::RunHook(Hook::Enter),
    ]);
    assert(a4 =~~= seq![
        ActionV::RemoveClass(ea),
        ActionV::RemoveClass(et),
        ActionV::RunHook(Hook::AfterEnter),
        ActionV::RemoveListener,
        ActionV::RunHook(Hook::BeforeLeave),
        ActionV::AddClass(lf),
        ActionV::AddClass(la),
        ActionV::RequestFrame,
    ]);
    assert(a5 =~~= seq![ActionV::RemoveClass(lf), ActionV::AddClass(lt)]);
    assert(a6 =~~= seq![
        ActionV::ArmTimer(crate::get_transition_info::sat_add_u64(i2.timeout, 1)),
        ActionV::ArmListener(i2.types),
        ActionV::RunHook(Hook::Leave),
    ]);
    assert(a7 =~~= seq![
        ActionV::RemoveClass(la),
        ActionV::RemoveClass(lt),
        ActionV::SetDisplay("none"@),
        ActionV::RunHook(Hook::AfterLeave),
        ActionV::RemoveListener,
    ]);
    assert(a8 =~~= Seq::<ActionV>::empty());
    // The run is exactly these eight steps in order, and its action list
    // is the concatenation of the eight per-step lists.
    reveal_with_fuel(run_events, 9);
    let r = run_events(s0, es);
    assert(r.0 =~= s8);
    let total = r.1;
    assert(total == a1 + (a2 + (a3 + (a4 + (a5 + (a6 + (a7 + (a8 + Seq::<ActionV>::empty()))))))));
    // Hook counts, evaluated per step and summed one concatenation level at
    // a time.
    reveal_with_fuel(hook_count, 9);
    assert(hook_count(a1, Hook::AfterEnter) == 0);
    assert(hook_count(a2, Hook::AfterEnter) == 0);
    assert(hook_count(a3, Hook::AfterEnter) == 0);
    assert(hook_count(a4, Hook::AfterEnter) == 1);
    assert(hook_count(a5, Hook::AfterEnter) == 0);
    assert(hook_count(a6, Hook::AfterEnter) == 0);
    assert(hook_count(a7, Hook::AfterEnter) == 0);
    assert(hook_count(a8, Hook::AfterEnter) == 0);
    assert(hook_count(a1, Hook::AfterLeave) == 0);
    assert(hook_count(a2, Hook::AfterLeave) == 0);
    assert(hook_count(a3, Hook::AfterLeave) == 0);
    assert(hook_count(a4, Hook::AfterLeave) == 0);
    assert(hook_count(a5, Hook::AfterLeave) == 0);
    assert(hook_count(a6, Hook::AfterLeave) == 0);
    assert(hook_count(a7, Hook::AfterLeave) == 1);
    assert(hook_count(a8, Hook::AfterLeave) == 0);
    let t8 = a8 + Seq::<ActionV>::empty();
    let t7 = a7 + t8;
    let t6 = a6 + t7;
    let t5 = a5 + t6;
    let t4 = a4 + t5;
    let t3 = a3 + t4;
    let t2 = a2 + t3;
    lemma_hook_count_app(a8, Seq::<ActionV>::empty(), Hook::AfterEnter);
    lemma_hook_count_app(a7, t8, Hook::AfterEnter);
    lemma_hook_count_app(a6, t7, Hook::AfterEnter);
    lemma_hook_count_app(a5, t6, Hook::AfterEnter);
    lemma_hook_count_app(a4, t5, Hook::AfterEnter);
    lemma_hook_count_app(a3, t4, Hook::AfterEnter);
    lemma_hook_count_app(a2, t3, Hook::AfterEnter);
    lemma_hook_count_app(a1, t2, Hook::AfterEnter);
    lemma_hook_count_app(a8, Seq::<ActionV>::empty(), Hook::AfterLeave);
    lemma_hook_count_app(a7, t8, Hook::AfterLeave);
    lemma_hook_count_app(a6, t7, Hook::AfterLeave);
    lemma_hook_count_app(a5, t6, Hook::AfterLeave);
    lemma_hook_count_app(a4, t5, Hook::AfterLeave);
    lemma_hook_count_app(a3, t4, Hook::AfterLeave);
    lemma_hook_count_app(a2, t3, Hook::AfterLeave);
    lemma_hook_count_app(a1, t2, Hook::AfterLeave);
    // Classes, the same way: each step's effect on the class set, chained.
    reveal_with_fuel(apply_classes, 9);
    lemma_apply_classes_app(cs0, a1, t2);
    let c1 = apply_classes(cs0, a1);
    assert(c1 =~= cs0.insert(ef).insert(ea));
    lemma_apply_classes_app(c1, a2, t3);
    let c2 = apply_classes(c1, a2);
    assert(c2 =~= c1.remove(ef).insert(et));
    lemma_apply_classes_app(c2, a3, t4);
    let c3 = apply_classes(c2, a3);
    assert(c3 =~= c2);
    lemma_apply_classes_app(c3, a4, t5);
    let c4 = apply_classes(c3, a4);
    assert(c4 =~= c3.remove(ea).remove(et).insert(lf).insert(la));
    lemma_apply_classes_app(c4, a5, t6);
    let c5 = apply_classes(c4, a5);
    assert(c5 =~= c4.remove(lf).insert(lt));
    lemma_apply_classes_app(c5, a6, t7);
    let c6 = apply_classes(c5, a6);
    assert(c6 =~= c5);
    lemma_apply_classes_app(c6, a7, t8);
    let c7 = apply_classes(c6, a7);
    assert(c7 =~= c6.remove(la).remove(lt));
    lemma_apply_classes_app(c7, a8, Seq::<ActionV>::empty());
    assert(apply_classes(cs0, total) == c7);
    lemma_class_suffixes_distinct(name);
    assert(apply_classes(cs0, total) =~= cs0);
}

/// The six class names derived from one transition name are pairwise
/// distinct: the suffixes differ in length or in their second character.
proof fn lemma_class_suffixes_distinct(name: Seq<char>)
    ensures
        name + "-enter-from"@ != name + "-enter-active"@,
        name + "-enter-from"@ != name + "-enter-to"@,
        name + "-enter-from"@ != name + "-leave-from"@,
        name + "-enter-from"@ != name + "-leave-active"@,
        name + "-enter-from"@ != name + "-leave-to"@,
        name + "-enter-active"@ != name + "-enter-to"@,
        name + "-enter-active"@ != name + "-leave-from"@,
        name + "-enter-active"@ != name + "-leave-active"@,
        name + "-enter-active"@ != name + "-leave-to"@,
        name + "-enter-to"@ != name + "-leave-from"@,
        name + "-enter-to"@ != name + "-leave-active"@,
        name + "-enter-to"@ != name + "-leave-to"@,
        name + "-leave-from"@ != name + "-leave-active"@,
        name + "-leave-from"@ != name + "-leave-to"@,
        name + "-leave-active"@ != name + "-leave-to"@,
{
    reveal_strlit("-enter-from");
    reveal_strlit("-enter-active");
    reveal_strlit("-enter-to");
    reveal_strlit("-leave-from");
    reveal_strlit("-leave-active");
    reveal_strlit("-leave-to");
    let n = name.len() as int;
    assert((name + "-enter-from"@)[n + 1] == 'e');
    assert((name + "-enter-active"@)[n + 1] == 'e');
    assert((name + "-enter-to"@)[n + 1] == 'e');
    assert((name + "-leave-from"@)[n + 1] == 'l');
    assert((name + "-leave-active"@)[n + 1] == 'l');
    assert((name + "-leave-to"@)[n + 1] == 'l');
    assert((name + "-enter-from"@).len() == n + 11);
    assert((name + "-enter-active"@).len() == n + 13);
    assert((name + "-enter-to"@).len() == n + 9);
    assert((name + "-leave-from"@).len() == n + 11);
    assert((name + "-leave-active"@).len() == n + 13);
    assert((name + "-leave-to"@).len() == n + 9);
}

/// An element with no transition or animation CSS finishes its phase in the
/// same pass in which the timing was resolved: the cleanup actions and the
/// phase's hooks are emitted at once, and neither a timer nor a listener is
/// armed.
pub proof fn lemma_no_css_finishes_synchronously(pre: DriverV, t: TaskV)
    requires
        pre.awaiting == Some(t),
        !pre.unmounted,
    ensures
        step_info(pre, None).0.awaiting is None,
        step_info(pre, None).0.finish == pre.finish,
        step_info(pre, None).0.listener == pre.listener,
        step_info(pre, None).1 == remove_actions(t) + seq![ActionV::RunHook(hook_main(t.kind))],
        forall|j: int|
            0 <= j < step_info(pre, None).1.len() ==> !((#[trigger] step_info(pre, None).1[j])
                is ArmTimer) && !(step_info(pre, None).1[j] is ArmListener),
{
    let acts = step_info(pre, None).1;
    assert forall|j: int| 0 <= j < acts.len() implies !((#[trigger] acts[j]) is ArmTimer) && !(
    acts[j] is ArmListener) by {
        if j < remove_actions(t).len() {
            assert(acts[j] == remove_actions(t)[j]);
        } else {
            assert(acts[j] == ActionV::RunHook(hook_main(t.kind)));
        }
    }
}

} // verus!
