use vstd::prelude::*;
use vstd::std_specs::iter::IteratorSpec;
use std::collections::HashSet;
use crate::protocol::{ShortcutMode, ShortcutSettings};
use super::keys::{
    active_keys_spec, active_linux_keys, normalize_key, normalize_observed_key,
    required_keys_active, required_keys_active_spec, XK_ESCAPE,
};
use super::types::{HotkeyAction, HotkeySource, KeyEventKind};
use super::validation::{has_required_keys, required_keys_spec, shortcut_required_keys};

verus! {

broadcast use vstd::std_specs::hash::group_hash_axioms;

/// A shortcut the engine watches: who it belongs to, how it acts, and the keys it needs.
#[derive(Debug)]
pub struct Binding {
    pub source: HotkeySource,
    pub mode: ShortcutMode,
    pub required_keys: Vec<u32>,
}

/// Whether a binding's keys are held now, and whether its toggle is on.
#[derive(Debug, Clone, Copy, PartialEq, Eq, Structural)]
pub struct BindingState {
    pub chord_active: bool,
    pub toggle_active: bool,
}

#[derive(Debug, Clone, PartialEq, Eq)]
pub struct HotkeyEngineOutcome {
    pub actions: Vec<HotkeyAction>,
    pub consume: bool,
}

#[derive(Debug)]
pub struct HotkeyEngine {
    bindings: Vec<Binding>,
    states: Vec<BindingState>,
    pressed_actual_keys: HashSet<u32>,
    cancellation_enabled: bool,
}

// ---------------------------------------------------------------------------
// The model
// ---------------------------------------------------------------------------

/// All of the binding's keys are held among the pressed keys.
pub open spec fn binding_active(b: Binding, pressed: Set<u32>) -> bool {
    required_keys_active_spec(b.required_keys@, active_keys_spec(pressed))
}

/// A binding's state after an event: the chord follows the keys; a toggle flips
/// when its chord is newly pressed.
pub open spec fn step_state(mode: ShortcutMode, st: BindingState, active: bool) -> BindingState {
    BindingState {
        chord_active: active,
        toggle_active: if mode == ShortcutMode::Toggle && active && !st.chord_active {
            !st.toggle_active
        } else {
            st.toggle_active
        },
    }
}

/// The action a binding emits on an event: a hold starts when its chord is
/// pressed and stops when released; a toggle starts or stops when its chord is
/// newly pressed.
pub open spec fn step_action(source: HotkeySource, mode: ShortcutMode, st: BindingState, active: bool) -> Option<HotkeyAction> {
    if active && !st.chord_active {
        if mode == ShortcutMode::Toggle && st.toggle_active {
            Some(HotkeyAction::Stop { source })
        } else {
            Some(HotkeyAction::Start { source })
        }
    } else if !active && st.chord_active && mode == ShortcutMode::Hold {
        Some(HotkeyAction::Stop { source })
    } else {
        None
    }
}

pub open spec fn opt_seq(o: Option<HotkeyAction>) -> Seq<HotkeyAction> {
    match o {
        Some(a) => seq![a],
        None => Seq::empty(),
    }
}

/// The actions of the first `n` bindings, in order.
pub open spec fn actions_for(bs: Seq<Binding>, sts: Seq<BindingState>, pressed: Set<u32>, n: int) -> Seq<HotkeyAction>
    decreases n,
{
    if n <= 0 {
        Seq::empty()
    } else {
        actions_for(bs, sts, pressed, n - 1) + opt_seq(
            step_action(bs[n - 1].source, bs[n - 1].mode, sts[n - 1], binding_active(bs[n - 1], pressed)),
        )
    }
}

/// Some binding's keys are held, or were held before the event.
pub open spec fn consumes_any(bs: Seq<Binding>, sts: Seq<BindingState>, pressed: Set<u32>) -> bool {
    exists|i: int| 0 <= i < bs.len() && (binding_active(#[trigger] bs[i], pressed) || sts[i].chord_active)
}

pub open spec fn stepped_states(bs: Seq<Binding>, sts: Seq<BindingState>, pressed: Set<u32>) -> Seq<BindingState> {
    Seq::new(sts.len(), |i: int| step_state(bs[i].mode, sts[i], binding_active(bs[i], pressed)))
}

/// The new binding states, the actions and whether the key is consumed, for an
/// event on `key` with the keys `pressed` held afterwards.
pub open spec fn evaluation(
    bs: Seq<Binding>,
    sts: Seq<BindingState>,
    pressed: Set<u32>,
    cancellation_enabled: bool,
    key: u32,
    kind: KeyEventKind,
) -> (Seq<BindingState>, Seq<HotkeyAction>, bool) {
    if kind == KeyEventKind::Down && key == XK_ESCAPE && cancellation_enabled {
        (sts, seq![HotkeyAction::Cancel], true)
    } else {
        (stepped_states(bs, sts, pressed), actions_for(bs, sts, pressed, bs.len() as int), consumes_any(bs, sts, pressed))
    }
}

/// The binding a shortcut gives, when it is enabled and names keys.
pub open spec fn binding_of(s: ShortcutSettings, source: HotkeySource, mode: ShortcutMode) -> Seq<(HotkeySource, ShortcutMode, Seq<u32>)> {
    if s.enabled && has_required_keys(s) {
        seq![(source, mode, required_keys_spec(s))]
    } else {
        Seq::empty()
    }
}

/// The bindings for a pair of shortcuts: push-to-talk held, hands-free toggled.
pub open spec fn bindings_of(push: ShortcutSettings, hands: ShortcutSettings) -> Seq<(HotkeySource, ShortcutMode, Seq<u32>)> {
    binding_of(push, HotkeySource::PushToTalk, ShortcutMode::Hold) + binding_of(hands, HotkeySource::HandsFree, ShortcutMode::Toggle)
}

pub open spec fn binding_matches(b: Binding, d: (HotkeySource, ShortcutMode, Seq<u32>)) -> bool {
    b.source == d.0 && b.mode == d.1 && b.required_keys@ == d.2
}

pub open spec fn idle(st: BindingState) -> bool {
    !st.chord_active && !st.toggle_active
}

impl HotkeyEngine {
    pub closed spec fn bindings_spec(&self) -> Seq<Binding> {
        self.bindings@
    }

    pub closed spec fn states_spec(&self) -> Seq<BindingState> {
        self.states@
    }

    pub closed spec fn pressed_spec(&self) -> Set<u32> {
        self.pressed_actual_keys@
    }

    pub closed spec fn cancellation_spec(&self) -> bool {
        self.cancellation_enabled
    }

    /// One state per binding.
    pub closed spec fn wf(&self) -> bool {
        self.states@.len() == self.bindings@.len()
    }

    pub fn new(push_to_talk: ShortcutSettings, hands_free: ShortcutSettings) -> (r: HotkeyEngine)
        ensures
            r.wf(),
            r.bindings_spec().len() == bindings_of(push_to_talk, hands_free).len(),
            forall|i: int| 0 <= i < r.bindings_spec().len() ==> binding_matches(#[trigger] r.bindings_spec()[i], bindings_of(push_to_talk, hands_free)[i]),
            forall|i: int| 0 <= i < r.states_spec().len() ==> idle(#[trigger] r.states_spec()[i]),
            r.pressed_spec() == Set::<u32>::empty(),
            !r.cancellation_spec(),
    {
        let mut bindings: Vec<Binding> = Vec::new();
        let mut states: Vec<BindingState> = Vec::new();
        if push_to_talk.enabled {
            match shortcut_required_keys(&push_to_talk) {
                Some(required_keys) => {
                    bindings.push(Binding { source: HotkeySource::PushToTalk, mode: ShortcutMode::Hold, required_keys });
                    states.push(BindingState { chord_active: false, toggle_active: false });
                },
                None => {},
            }
        }
        let ghost first = bindings@;
        assert(first.len() == binding_of(push_to_talk, HotkeySource::PushToTalk, ShortcutMode::Hold).len());
        if hands_free.enabled {
            match shortcut_required_keys(&hands_free) {
                Some(required_keys) => {
                    bindings.push(Binding { source: HotkeySource::HandsFree, mode: ShortcutMode::Toggle, required_keys });
                    states.push(BindingState { chord_active: false, toggle_active: false });
                },
                None => {},
            }
        }
        HotkeyEngine { bindings, states, pressed_actual_keys: HashSet::new(), cancellation_enabled: false }
    }

    /// The keys each binding requires, in binding order.
    pub fn required_key_sets(&self) -> (r: Vec<Vec<u32>>)
        ensures
            r@.len() == self.bindings_spec().len(),
            forall|i: int| 0 <= i < r@.len() ==> (#[trigger] r@[i])@ == self.bindings_spec()[i].required_keys@,
    {
        let mut out: Vec<Vec<u32>> = Vec::new();
        let mut i: usize = 0;
        while i < self.bindings.len()
            invariant
                i <= self.bindings@.len(),
                out@.len() == i,
                forall|j: int| 0 <= j < i ==> (#[trigger] out@[j])@ == self.bindings@[j].required_keys@,
            decreases self.bindings.len() - i,
        {
            out.push(crate::protocol::copy_u32s(&self.bindings[i].required_keys));
            i = i + 1;
        }
        out
    }

    pub fn set_cancellation_enabled(&mut self, enabled: bool)
        requires
            old(self).wf(),
        ensures
            final(self).wf(),
            final(self).cancellation_spec() == enabled,
            final(self).bindings_spec() == old(self).bindings_spec(),
            enabled ==> final(self).states_spec() == old(self).states_spec() && final(self).pressed_spec() == old(self).pressed_spec(),
            !enabled ==> final(self).pressed_spec() == Set::<u32>::empty() && forall|i: int| 0 <= i < final(self).states_spec().len() ==> idle(#[trigger] final(self).states_spec()[i]),
    {
        self.cancellation_enabled = enabled;
        if !enabled {
            self.reset_active_state();
        }
    }

    fn reset_active_state(&mut self)
        requires
            old(self).wf(),
        ensures
            final(self).wf(),
            final(self).bindings@ == old(self).bindings@,
            final(self).cancellation_enabled == old(self).cancellation_enabled,
            final(self).pressed_actual_keys@ == Set::<u32>::empty(),
            forall|i: int| 0 <= i < final(self).states@.len() ==> idle(#[trigger] final(self).states@[i]),
    {
        self.pressed_actual_keys.clear();
        let mut i: usize = 0;
        while i < self.states.len()
            invariant
                self.states@.len() == self.bindings@.len(),
                self.bindings@ == old(self).bindings@,
                self.cancellation_enabled == old(self).cancellation_enabled,
                self.pressed_actual_keys@ == Set::<u32>::empty(),
                i <= self.states@.len(),
                forall|j: int| 0 <= j < i ==> idle(#[trigger] self.states@[j]),
            decreases self.states.len() - i,
        {
            self.states.set(i, BindingState { chord_active: false, toggle_active: false });
            i = i + 1;
        }
    }

    /// Turns off the toggle of `source`'s toggled binding, keeping its chord.
    pub fn force_toggle_off(&mut self, source: HotkeySource)
        requires
            old(self).wf(),
        ensures
            final(self).wf(),
            final(self).bindings_spec() == old(self).bindings_spec(),
            final(self).pressed_spec() == old(self).pressed_spec(),
            final(self).cancellation_spec() == old(self).cancellation_spec(),
            final(self).states_spec().len() == old(self).states_spec().len(),
            forall|i: int| 0 <= i < final(self).states_spec().len() ==> #[trigger] final(self).states_spec()[i] == (
                if old(self).bindings_spec()[i].source == source && old(self).bindings_spec()[i].mode == ShortcutMode::Toggle {
                    BindingState { toggle_active: false, ..old(self).states_spec()[i] }
                } else {
                    old(self).states_spec()[i]
                }),
    {
        let mut i: usize = 0;
        while i < self.states.len()
            invariant
                self.states@.len() == self.bindings@.len(),
                self.states@.len() == old(self).states@.len(),
                self.bindings@ == old(self).bindings@,
                self.cancellation_enabled == old(self).cancellation_enabled,
                self.pressed_actual_keys@ == old(self).pressed_actual_keys@,
                i <= self.states@.len(),
                forall|j: int| 0 <= j < i ==> #[trigger] self.states@[j] == (
                    if old(self).bindings@[j].source == source && old(self).bindings@[j].mode == ShortcutMode::Toggle {
                        BindingState { toggle_active: false, ..old(self).states@[j] }
                    } else {
                        old(self).states@[j]
                    }),
                forall|j: int| i <= j < self.states@.len() ==> #[trigger] self.states@[j] == old(self).states@[j],
            decreases self.states.len() - i,
        {
            if self.bindings[i].source == source && self.bindings[i].mode == ShortcutMode::Toggle {
                let st = self.states[i];
                self.states.set(i, BindingState { chord_active: st.chord_active, toggle_active: false });
            }
            i = i + 1;
        }
    }

    pub fn handle_key_event(&mut self, key: u32, kind: KeyEventKind) -> (out: HotkeyEngineOutcome)
        requires
            old(self).wf(),
        ensures
            final(self).wf(),
            final(self).bindings_spec() == old(self).bindings_spec(),
            final(self).cancellation_spec() == old(self).cancellation_spec(),
            final(self).pressed_spec() == (if kind == KeyEventKind::Down {
                old(self).pressed_spec().insert(normalize_key(key))
            } else {
                old(self).pressed_spec().remove(normalize_key(key))
            }),
            (final(self).states_spec(), out.actions@, out.consume) == evaluation(
                old(self).bindings_spec(),
                old(self).states_spec(),
                final(self).pressed_spec(),
                old(self).cancellation_spec(),
                normalize_key(key),
                kind,
            ),
    {
        let key = normalize_observed_key(key);
        match kind {
            KeyEventKind::Down => {
                self.pressed_actual_keys.insert(key);
            },
            KeyEventKind::Up => {
                self.pressed_actual_keys.remove(&key);
            },
        }
        self.evaluate(key, kind)
    }

    /// Takes the held keys from the platform, then evaluates the event.
    pub fn handle_active_keys(&mut self, event_key: u32, kind: KeyEventKind, active_keys: HashSet<u32>) -> (out: HotkeyEngineOutcome)
        requires
            old(self).wf(),
        ensures
            final(self).wf(),
            final(self).bindings_spec() == old(self).bindings_spec(),
            final(self).cancellation_spec() == old(self).cancellation_spec(),
            forall|k: u32| final(self).pressed_spec().contains(k) <==> exists|a: u32| active_keys@.contains(a) && normalize_key(a) == k,
            (final(self).states_spec(), out.actions@, out.consume) == evaluation(
                old(self).bindings_spec(),
                old(self).states_spec(),
                final(self).pressed_spec(),
                old(self).cancellation_spec(),
                normalize_key(event_key),
                kind,
            ),
    {
        let mut pressed: HashSet<u32> = HashSet::new();
        let iter = active_keys.iter();
        let ghost all = iter.remaining().unref();
        assert(all.to_set() == active_keys@);
        for x in it: iter
            invariant
                forall|k: u32| pressed@.contains(k) <==> exists|j: int| 0 <= j < it.index() && normalize_key(all[j]) == k,
                it.seq().unref() == all,
        {
            pressed.insert(normalize_observed_key(*x));
            assert(all[it.index() as int] == *x);
        }
        proof {
            assert forall|k: u32| pressed@.contains(k) <==> exists|a: u32| active_keys@.contains(a) && normalize_key(a) == k by {
                if pressed@.contains(k) {
                    let j = choose|j: int| 0 <= j < all.len() && normalize_key(all[j]) == k;
                    assert(all.to_set().contains(all[j]));
                }
                if exists|a: u32| active_keys@.contains(a) && normalize_key(a) == k {
                    let a = choose|a: u32| active_keys@.contains(a) && normalize_key(a) == k;
                    assert(all.to_set().contains(a));
                    let j = choose|j: int| 0 <= j < all.len() && all[j] == a;
                    assert(normalize_key(all[j]) == k);
                }
            }
        }
        self.pressed_actual_keys = pressed;
        let key = normalize_observed_key(event_key);
        self.evaluate(key, kind)
    }

    fn evaluate(&mut self, key: u32, kind: KeyEventKind) -> (out: HotkeyEngineOutcome)
        requires
            old(self).wf(),
        ensures
            final(self).wf(),
            final(self).bindings@ == old(self).bindings@,
            final(self).cancellation_enabled == old(self).cancellation_enabled,
            final(self).pressed_actual_keys@ == old(self).pressed_actual_keys@,
            (final(self).states@, out.actions@, out.consume) == evaluation(
                old(self).bindings@,
                old(self).states@,
                old(self).pressed_actual_keys@,
                old(self).cancellation_enabled,
                key,
                kind,
            ),
    {
        if kind == KeyEventKind::Down && key == XK_ESCAPE && self.cancellation_enabled {
            let actions = vec![HotkeyAction::Cancel];
            assert(actions@ =~= seq![HotkeyAction::Cancel]);
            return HotkeyEngineOutcome { actions, consume: true };
        }
        let active_keys = active_linux_keys(&self.pressed_actual_keys);
        let ghost bs = self.bindings@;
        let ghost sts = self.states@;
        let ghost pressed = self.pressed_actual_keys@;
        let mut actions: Vec<HotkeyAction> = Vec::new();
        let mut consume = false;
        let mut i: usize = 0;
        while i < self.bindings.len()
            invariant
                self.bindings@ == bs,
                self.states@.len() == sts.len(),
                sts.len() == bs.len(),
                self.pressed_actual_keys@ == pressed,
                self.cancellation_enabled == old(self).cancellation_enabled,
                active_keys@ == active_keys_spec(pressed),
                i <= bs.len(),
                actions@ == actions_for(bs, sts, pressed, i as int),
                consume == exists|j: int| 0 <= j < i && (binding_active(#[trigger] bs[j], pressed) || sts[j].chord_active),
                forall|j: int| 0 <= j < i ==> #[trigger] self.states@[j] == step_state(bs[j].mode, sts[j], binding_active(bs[j], pressed)),
                forall|j: int| i <= j < sts.len() ==> #[trigger] self.states@[j] == sts[j],
            decreases bs.len() - i,
        {
            let active = required_keys_active(self.bindings[i].required_keys.as_slice(), &active_keys);
            let st = self.states[i];
            let mode = self.bindings[i].mode;
            let source = self.bindings[i].source;
            assert(active == binding_active(bs[i as int], pressed));
            let (next, action) = step(source, mode, st, active);
            self.states.set(i, next);
            match action {
                Some(a) => actions.push(a),
                None => {},
            }
            if active || st.chord_active {
                consume = true;
            }
            i = i + 1;
            proof {
                assert(actions@ =~= actions_for(bs, sts, pressed, i as int));
            }
        }
        proof {
            assert(self.states@ =~= stepped_states(bs, sts, pressed));
        }
        HotkeyEngineOutcome { actions, consume }
    }
}

fn step(source: HotkeySource, mode: ShortcutMode, st: BindingState, active: bool) -> (r: (BindingState, Option<HotkeyAction>))
    ensures
        r.0 == step_state(mode, st, active),
        r.1 == step_action(source, mode, st, active),
{
    let toggle_active = if mode == ShortcutMode::Toggle && active && !st.chord_active {
        !st.toggle_active
    } else {
        st.toggle_active
    };
    let action = if active && !st.chord_active {
        if mode == ShortcutMode::Toggle && st.toggle_active {
            Some(HotkeyAction::Stop { source })
        } else {
            Some(HotkeyAction::Start { source })
        }
    } else if !active && st.chord_active && mode == ShortcutMode::Hold {
        Some(HotkeyAction::Stop { source })
    } else {
        None
    };
    (BindingState { chord_active: active, toggle_active }, action)
}


// ---------------------------------------------------------------------------
// Laws
// ---------------------------------------------------------------------------

/// After any key event, each binding's chord is active exactly when its keys are held.
pub proof fn law_chord_follows_keys(bs: Seq<Binding>, sts: Seq<BindingState>, pressed: Set<u32>, i: int)
    requires
        sts.len() == bs.len(),
        0 <= i < bs.len(),
    ensures
        stepped_states(bs, sts, pressed)[i].chord_active == binding_active(bs[i], pressed),
{
}

/// A held shortcut starts when its keys go down and stops when they come up,
/// and nothing else; its toggle never changes.
pub proof fn law_hold_start_stop(source: HotkeySource, st: BindingState, active: bool)
    ensures
        step_action(source, ShortcutMode::Hold, st, active) == (if active && !st.chord_active {
            Some(HotkeyAction::Start { source })
        } else if !active && st.chord_active {
            Some(HotkeyAction::Stop { source })
        } else {
            None
        }),
        step_state(ShortcutMode::Hold, st, active).toggle_active == st.toggle_active,
{
}

/// A toggled shortcut flips its toggle exactly when it emits an action: Start
/// when the toggle turns on, Stop when it turns off.
pub proof fn law_toggle_alternates(source: HotkeySource, st: BindingState, active: bool)
    ensures
        (step_state(ShortcutMode::Toggle, st, active).toggle_active != st.toggle_active)
            <==> step_action(source, ShortcutMode::Toggle, st, active) is Some,
        step_action(source, ShortcutMode::Toggle, st, active) == Some(HotkeyAction::Start { source })
            ==> !st.toggle_active && step_state(ShortcutMode::Toggle, st, active).toggle_active,
        step_action(source, ShortcutMode::Toggle, st, active) == Some(HotkeyAction::Stop { source })
            ==> st.toggle_active && !step_state(ShortcutMode::Toggle, st, active).toggle_active,
{
}

proof fn lemma_actions_from_bindings(bs: Seq<Binding>, sts: Seq<BindingState>, pressed: Set<u32>, n: int)
    requires
        0 <= n <= bs.len(),
        sts.len() == bs.len(),
    ensures
        forall|k: int| 0 <= k < actions_for(bs, sts, pressed, n).len() ==> exists|j: int| 0 <= j < n && (
            #[trigger] actions_for(bs, sts, pressed, n)[k] == HotkeyAction::Start { source: bs[j].source }
            || actions_for(bs, sts, pressed, n)[k] == HotkeyAction::Stop { source: bs[j].source }),
    decreases n,
{
    if n > 0 {
        lemma_actions_from_bindings(bs, sts, pressed, n - 1);
        let prev = actions_for(bs, sts, pressed, n - 1);
        let cur = actions_for(bs, sts, pressed, n);
        assert forall|k: int| 0 <= k < cur.len() implies exists|j: int| 0 <= j < n && (
            #[trigger] cur[k] == HotkeyAction::Start { source: bs[j].source }
            || cur[k] == HotkeyAction::Stop { source: bs[j].source }) by {
            if k < prev.len() {
                assert(cur[k] == prev[k]);
                let j = choose|j: int| 0 <= j < n - 1 && (prev[k] == HotkeyAction::Start { source: bs[j].source }
                    || prev[k] == HotkeyAction::Stop { source: bs[j].source });
                assert(0 <= j < n);
            } else {
                assert(cur[k] == opt_seq(step_action(bs[n - 1].source, bs[n - 1].mode, sts[n - 1], binding_active(bs[n - 1], pressed)))[k - prev.len()]);
            }
        }
    }
}

/// Escape cancels only when cancellation is enabled, and only on key down;
/// no shortcut ever emits Cancel, and a cancel comes alone.
pub proof fn law_cancel_only_when_enabled(
    bs: Seq<Binding>,
    sts: Seq<BindingState>,
    pressed: Set<u32>,
    cancellation_enabled: bool,
    key: u32,
    kind: KeyEventKind,
)
    requires
        sts.len() == bs.len(),
    ensures
        evaluation(bs, sts, pressed, cancellation_enabled, key, kind).1.contains(HotkeyAction::Cancel)
            ==> cancellation_enabled && key == XK_ESCAPE && kind == KeyEventKind::Down
                && evaluation(bs, sts, pressed, cancellation_enabled, key, kind).1 == seq![HotkeyAction::Cancel],
{
    lemma_actions_from_bindings(bs, sts, pressed, bs.len() as int);
    let acts = actions_for(bs, sts, pressed, bs.len() as int);
    if !(kind == KeyEventKind::Down && key == XK_ESCAPE && cancellation_enabled) && acts.contains(HotkeyAction::Cancel) {
        let k = choose|k: int| 0 <= k < acts.len() && acts[k] == HotkeyAction::Cancel;
        assert(acts[k] == HotkeyAction::Cancel);
    }
}

/// An event that leaves every binding's keys as held as before (a repeated key
/// down, a key no shortcut uses) emits nothing and changes no binding.
pub proof fn law_unchanged_keys_are_quiet(bs: Seq<Binding>, sts: Seq<BindingState>, pressed: Set<u32>, n: int)
    requires
        sts.len() == bs.len(),
        0 <= n <= bs.len(),
        forall|i: int| 0 <= i < bs.len() ==> binding_active(#[trigger] bs[i], pressed) == sts[i].chord_active,
    ensures
        actions_for(bs, sts, pressed, n) == Seq::<HotkeyAction>::empty(),
        stepped_states(bs, sts, pressed) == sts,
    decreases n,
{
    if n > 0 {
        law_unchanged_keys_are_quiet(bs, sts, pressed, n - 1);
        assert(binding_active(bs[n - 1], pressed) == sts[n - 1].chord_active);
        assert(actions_for(bs, sts, pressed, n) =~= Seq::<HotkeyAction>::empty());
    }
    assert(stepped_states(bs, sts, pressed) =~= sts);
}

/// Only enabled shortcuts with keys get a binding, so a disabled shortcut never
/// starts or stops dictation.
pub proof fn law_disabled_shortcut_never_acts(
    push: ShortcutSettings,
    hands: ShortcutSettings,
    bs: Seq<Binding>,
    sts: Seq<BindingState>,
    pressed: Set<u32>,
    source: HotkeySource,
)
    requires
        bs.len() == bindings_of(push, hands).len(),
        forall|i: int| 0 <= i < bs.len() ==> binding_matches(#[trigger] bs[i], bindings_of(push, hands)[i]),
        sts.len() == bs.len(),
        (source == HotkeySource::PushToTalk && !push.enabled) || (source == HotkeySource::HandsFree && !hands.enabled),
    ensures
        !actions_for(bs, sts, pressed, bs.len() as int).contains(HotkeyAction::Start { source }),
        !actions_for(bs, sts, pressed, bs.len() as int).contains(HotkeyAction::Stop { source }),
{
    lemma_actions_from_bindings(bs, sts, pressed, bs.len() as int);
    let acts = actions_for(bs, sts, pressed, bs.len() as int);
    let d = bindings_of(push, hands);
    assert forall|j: int| 0 <= j < bs.len() implies #[trigger] bs[j].source != source by {
        assert(binding_matches(bs[j], d[j]));
        if source == HotkeySource::PushToTalk {
            assert(d[j].0 != HotkeySource::PushToTalk);
        } else {
            assert(d[j].0 != HotkeySource::HandsFree);
        }
    }
    if acts.contains(HotkeyAction::Start { source }) {
        let k = choose|k: int| 0 <= k < acts.len() && acts[k] == HotkeyAction::Start { source };
        assert(acts[k] == HotkeyAction::Start { source });
    }
    if acts.contains(HotkeyAction::Stop { source }) {
        let k = choose|k: int| 0 <= k < acts.len() && acts[k] == HotkeyAction::Stop { source };
        assert(acts[k] == HotkeyAction::Stop { source });
    }
}

// ---------------------------------------------------------------------------
// Runs of events
// ---------------------------------------------------------------------------

/// The binding states and all actions after a run of events, each given as the
/// keys held after it, whether cancellation is enabled, its normalized key and
/// its direction; every event is evaluated as `handle_key_event` and
/// `handle_active_keys` evaluate it.
pub open spec fn run_engine(
    bs: Seq<Binding>,
    sts: Seq<BindingState>,
    events: Seq<(Set<u32>, bool, u32, KeyEventKind)>,
) -> (Seq<BindingState>, Seq<HotkeyAction>)
    decreases events.len(),
{
    if events.len() == 0 {
        (sts, Seq::empty())
    } else {
        let prev = run_engine(bs, sts, events.drop_last());
        let e = events.last();
        let ev = evaluation(bs, prev.0, e.0, e.1, e.2, e.3);
        (ev.0, prev.1 + ev.1)
    }
}

pub open spec fn is_for(a: HotkeyAction, source: HotkeySource) -> bool {
    a == HotkeyAction::Start { source } || a == HotkeyAction::Stop { source }
}

/// The starts and stops of `source`, in order.
pub open spec fn for_source(acts: Seq<HotkeyAction>, source: HotkeySource) -> Seq<HotkeyAction>
    decreases acts.len(),
{
    if acts.len() == 0 {
        Seq::empty()
    } else {
        for_source(acts.drop_last(), source) + (if is_for(acts.last(), source) {
            seq![acts.last()]
        } else {
            Seq::empty()
        })
    }
}

/// Start, Stop, Start, ... for `source`.
pub open spec fn alternates(acts: Seq<HotkeyAction>, source: HotkeySource) -> bool {
    forall|k: int| 0 <= k < acts.len() ==> #[trigger] acts[k] == (if k % 2 == 0 {
        HotkeyAction::Start { source }
    } else {
        HotkeyAction::Stop { source }
    })
}

/// Whether a binding has started and not yet stopped: a held chord for a hold,
/// the toggle for a toggle.
pub open spec fn phase(b: Binding, st: BindingState) -> bool {
    if b.mode == ShortcutMode::Hold {
        st.chord_active
    } else {
        st.toggle_active
    }
}

proof fn lemma_for_source_add(a: Seq<HotkeyAction>, b: Seq<HotkeyAction>, source: HotkeySource)
    ensures
        for_source(a + b, source) == for_source(a, source) + for_source(b, source),
    decreases b.len(),
{
    if b.len() == 0 {
        assert(a + b =~= a);
        assert(for_source(a, source) + for_source(b, source) =~= for_source(a, source));
    } else {
        assert((a + b).drop_last() =~= a + b.drop_last());
        assert((a + b).last() == b.last());
        lemma_for_source_add(a, b.drop_last(), source);
        let tail = if is_for(b.last(), source) { seq![b.last()] } else { Seq::<HotkeyAction>::empty() };
        assert(for_source(a, source) + for_source(b.drop_last(), source) + tail
            =~= for_source(a, source) + (for_source(b.drop_last(), source) + tail));
    }
}

proof fn lemma_for_source_single(x: HotkeyAction, source: HotkeySource)
    ensures
        for_source(seq![x], source) == (if is_for(x, source) { seq![x] } else { Seq::<HotkeyAction>::empty() }),
{
    assert(seq![x].drop_last() =~= Seq::<HotkeyAction>::empty());
    assert(seq![x].last() == x);
    assert(for_source(Seq::<HotkeyAction>::empty(), source) =~= Seq::<HotkeyAction>::empty());
    let tail = if is_for(x, source) { seq![x] } else { Seq::<HotkeyAction>::empty() };
    assert(Seq::<HotkeyAction>::empty() + tail =~= tail);
}

proof fn lemma_step_for_source(b: Binding, st: BindingState, active: bool, source: HotkeySource)
    ensures
        for_source(opt_seq(step_action(b.source, b.mode, st, active)), source) == (if b.source == source {
            opt_seq(step_action(b.source, b.mode, st, active))
        } else {
            Seq::<HotkeyAction>::empty()
        }),
{
    match step_action(b.source, b.mode, st, active) {
        Some(a) => lemma_for_source_single(a, source),
        None => {},
    }
}

/// Among the actions of one evaluation, `source` has only what its own binding `i` emits.
proof fn lemma_actions_for_source(bs: Seq<Binding>, sts: Seq<BindingState>, pressed: Set<u32>, n: int, source: HotkeySource, i: int)
    requires
        sts.len() == bs.len(),
        0 <= n <= bs.len(),
        forall|j: int| 0 <= j < bs.len() && #[trigger] bs[j].source == source ==> j == i,
        0 <= i < bs.len() ==> bs[i].source == source,
    ensures
        for_source(actions_for(bs, sts, pressed, n), source) == (if 0 <= i < n {
            opt_seq(step_action(bs[i].source, bs[i].mode, sts[i], binding_active(bs[i], pressed)))
        } else {
            Seq::<HotkeyAction>::empty()
        }),
    decreases n,
{
    if n > 0 {
        lemma_actions_for_source(bs, sts, pressed, n - 1, source, i);
        let b = bs[n - 1];
        let last = opt_seq(step_action(b.source, b.mode, sts[n - 1], binding_active(b, pressed)));
        lemma_for_source_add(actions_for(bs, sts, pressed, n - 1), last, source);
        lemma_step_for_source(b, sts[n - 1], binding_active(b, pressed), source);
        if n - 1 == i {
            assert(Seq::<HotkeyAction>::empty() + last =~= last);
        } else {
            assert(b.source != source);
            let before = for_source(actions_for(bs, sts, pressed, n - 1), source);
            assert(before + Seq::<HotkeyAction>::empty() =~= before);
        }
    }
}

/// A binding's action moves its phase: Start from stopped to started, Stop back,
/// and no action leaves it.
proof fn lemma_phase_step(b: Binding, st: BindingState, active: bool)
    ensures
        step_action(b.source, b.mode, st, active) == Some(HotkeyAction::Start { source: b.source })
            ==> !phase(b, st) && phase(b, step_state(b.mode, st, active)),
        step_action(b.source, b.mode, st, active) == Some(HotkeyAction::Stop { source: b.source })
            ==> phase(b, st) && !phase(b, step_state(b.mode, st, active)),
        step_action(b.source, b.mode, st, active) is None
            ==> phase(b, step_state(b.mode, st, active)) == phase(b, st),
        step_action(b.source, b.mode, st, active) is Some ==> is_for(step_action(b.source, b.mode, st, active)->0, b.source),
{
}

proof fn lemma_run_source(
    bs: Seq<Binding>,
    sts: Seq<BindingState>,
    events: Seq<(Set<u32>, bool, u32, KeyEventKind)>,
    source: HotkeySource,
    i: int,
)
    requires
        sts.len() == bs.len(),
        forall|j: int| 0 <= j < bs.len() && #[trigger] bs[j].source == source ==> j == i,
        0 <= i < bs.len() ==> bs[i].source == source && !phase(bs[i], sts[i]),
    ensures
        run_engine(bs, sts, events).0.len() == bs.len(),
        alternates(for_source(run_engine(bs, sts, events).1, source), source),
        0 <= i < bs.len() ==> phase(bs[i], run_engine(bs, sts, events).0[i])
            == (for_source(run_engine(bs, sts, events).1, source).len() % 2 == 1),
        !(0 <= i < bs.len()) ==> for_source(run_engine(bs, sts, events).1, source).len() == 0,
    decreases events.len(),
{
    if events.len() == 0 {
        assert(for_source(Seq::<HotkeyAction>::empty(), source).len() == 0);
    } else {
        lemma_run_source(bs, sts, events.drop_last(), source, i);
        let prev = run_engine(bs, sts, events.drop_last());
        let e = events.last();
        let ev = evaluation(bs, prev.0, e.0, e.1, e.2, e.3);
        let old_f = for_source(prev.1, source);
        lemma_for_source_add(prev.1, ev.1, source);
        let new_f = for_source(prev.1 + ev.1, source);
        if e.3 == KeyEventKind::Down && e.2 == XK_ESCAPE && e.1 {
            lemma_for_source_single(HotkeyAction::Cancel, source);
            assert(new_f =~= old_f);
        } else {
            lemma_actions_for_source(bs, prev.0, e.0, bs.len() as int, source, i);
            if 0 <= i < bs.len() {
                let b = bs[i];
                let active = binding_active(b, e.0);
                let a = step_action(b.source, b.mode, prev.0[i], active);
                lemma_phase_step(b, prev.0[i], active);
                assert(ev.0[i] == step_state(b.mode, prev.0[i], active));
                match a {
                    Some(x) => {
                        assert(new_f =~= old_f.push(x));
                        assert forall|k: int| 0 <= k < new_f.len() implies #[trigger] new_f[k] == (if k % 2 == 0 {
                            HotkeyAction::Start { source }
                        } else {
                            HotkeyAction::Stop { source }
                        }) by {
                            if k < old_f.len() {
                                assert(new_f[k] == old_f[k]);
                            }
                        }
                    },
                    None => {
                        assert(new_f =~= old_f);
                    },
                }
            } else {
                assert(new_f =~= old_f);
            }
        }
    }
}

/// From a newly made engine (as `HotkeyEngine::new` leaves it), through any run
/// of key events, each shortcut's starts and stops alternate, beginning with a
/// start; and each binding is recording exactly when its shortcut has emitted an
/// odd number of them.
pub proof fn law_run_alternates(
    push: ShortcutSettings,
    hands: ShortcutSettings,
    bs: Seq<Binding>,
    sts: Seq<BindingState>,
    events: Seq<(Set<u32>, bool, u32, KeyEventKind)>,
    source: HotkeySource,
)
    requires
        bs.len() == bindings_of(push, hands).len(),
        forall|i: int| 0 <= i < bs.len() ==> binding_matches(#[trigger] bs[i], bindings_of(push, hands)[i]),
        sts.len() == bs.len(),
        forall|i: int| 0 <= i < sts.len() ==> idle(#[trigger] sts[i]),
    ensures
        alternates(for_source(run_engine(bs, sts, events).1, source), source),
        forall|i: int| 0 <= i < bs.len() && bs[i].source == source ==> #[trigger] phase(bs[i], run_engine(bs, sts, events).0[i])
            == (for_source(run_engine(bs, sts, events).1, source).len() % 2 == 1),
{
    let d = bindings_of(push, hands);
    assert forall|j: int, k: int| 0 <= j < bs.len() && 0 <= k < bs.len() && j != k implies
        #[trigger] bs[j].source != #[trigger] bs[k].source by {
        assert(binding_matches(bs[j], d[j]));
        assert(binding_matches(bs[k], d[k]));
    }
    let i = if exists|j: int| 0 <= j < bs.len() && #[trigger] bs[j].source == source {
        choose|j: int| 0 <= j < bs.len() && #[trigger] bs[j].source == source
    } else {
        -1
    };
    if 0 <= i < bs.len() {
        assert(idle(sts[i]));
    }
    lemma_run_source(bs, sts, events, source, i);
}

proof fn lemma_actions_need_keys(bs: Seq<Binding>, sts: Seq<BindingState>, pressed: Set<u32>, n: int)
    requires
        sts.len() == bs.len(),
        0 <= n <= bs.len(),
    ensures
        actions_for(bs, sts, pressed, n).len() > 0
            ==> exists|j: int| 0 <= j < n && (binding_active(#[trigger] bs[j], pressed) || sts[j].chord_active),
    decreases n,
{
    if n > 0 {
        lemma_actions_need_keys(bs, sts, pressed, n - 1);
        let b = bs[n - 1];
        if step_action(b.source, b.mode, sts[n - 1], binding_active(b, pressed)) is Some {
            assert(binding_active(bs[n - 1], pressed) || sts[n - 1].chord_active);
        }
    }
}

/// An event that emits any action is consumed, so the key never reaches other
/// applications.
pub proof fn law_actions_are_consumed(
    bs: Seq<Binding>,
    sts: Seq<BindingState>,
    pressed: Set<u32>,
    cancellation_enabled: bool,
    key: u32,
    kind: KeyEventKind,
)
    requires
        sts.len() == bs.len(),
    ensures
        evaluation(bs, sts, pressed, cancellation_enabled, key, kind).1.len() > 0
            ==> evaluation(bs, sts, pressed, cancellation_enabled, key, kind).2,
{
    lemma_actions_need_keys(bs, sts, pressed, bs.len() as int);
}

} // verus!
