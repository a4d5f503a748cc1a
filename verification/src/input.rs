//! Keyboard input: keys whose press ran a binding are suppressed until they
//! are released, so that the client never sees half of a shortcut.
use crate::config::{Keysym, ModifiersState};
use crate::keybindings::{filter_view, key_filter, FilterResult, KeyAction, KeyState};
use crate::state::StilchState;
use vstd::prelude::*;

verus! {

/// The keys whose release the compositor keeps from clients.
#[derive(Debug, Clone)]
pub struct InputManager {
    /// Keys that are currently suppressed
    pub suppressed_keys: Vec<Keysym>,
}

/// The keys of `s` other than `k`, in order.
pub open spec fn keys_without(s: Seq<Keysym>, k: Keysym) -> Seq<Keysym>
    decreases s.len(),
{
    if s.len() == 0 {
        s
    } else if s.last() == k {
        keys_without(s.drop_last(), k)
    } else {
        keys_without(s.drop_last(), k).push(s.last())
    }
}

pub proof fn lemma_keys_without(s: Seq<Keysym>, k: Keysym)
    ensures
        !keys_without(s, k).contains(k),
        forall|x: Keysym| x != k ==> (keys_without(s, k).contains(x) <==> s.contains(x)),
    decreases s.len(),
{
    if s.len() > 0 {
        lemma_keys_without(s.drop_last(), k);
        let r = keys_without(s.drop_last(), k);
        assert forall|x: Keysym| x != k implies (keys_without(s, k).contains(x) <==> s.contains(x)) by {
            if s.contains(x) {
                let j = choose|j: int| 0 <= j < s.len() && s[j] == x;
                if j < s.len() - 1 {
                    assert(s.drop_last()[j] == x);
                }
            }
            if s.last() != k {
                if keys_without(s, k).contains(x) {
                    let j = choose|j: int| 0 <= j < r.push(s.last()).len() && r.push(s.last())[j] == x;
                    if j < r.len() {
                        assert(r[j] == x);
                    }
                }
                if r.contains(x) {
                    let j = choose|j: int| 0 <= j < r.len() && r[j] == x;
                    assert(r.push(s.last())[j] == x);
                }
                assert(r.push(s.last())[r.len() as int] == s.last());
            }
            if s.drop_last().contains(x) {
                let j = choose|j: int| 0 <= j < s.drop_last().len() && s.drop_last()[j] == x;
                assert(s[j] == x);
            }
            assert(s[s.len() - 1] == s.last());
        }
        if s.last() != k {
            assert forall|j: int| 0 <= j < r.push(s.last()).len() implies r.push(s.last())[j] != k by {
                if j < r.len() {
                    assert(r.push(s.last())[j] == r[j]);
                }
            }
        }
    }
}

impl InputManager {
    pub fn new() -> (m: InputManager)
        ensures
            m.suppressed_keys@ == Seq::<Keysym>::empty(),
    {
        InputManager { suppressed_keys: Vec::new() }
    }

    /// Check if a key is suppressed
    pub fn is_key_suppressed(&self, keysym: Keysym) -> (b: bool)
        ensures
            b == self.suppressed_keys@.contains(keysym),
    {
        let mut i: usize = 0;
        while i < self.suppressed_keys.len()
            invariant
                i <= self.suppressed_keys.len(),
                forall|j: int| 0 <= j < i ==> self.suppressed_keys@[j] != keysym,
            decreases self.suppressed_keys.len() - i,
        {
            if self.suppressed_keys[i] == keysym {
                return true;
            }
            i += 1;
        }
        false
    }

    /// Add a suppressed key (once)
    pub fn suppress_key(&mut self, keysym: Keysym)
        ensures
            final(self).suppressed_keys@ == (if old(self).suppressed_keys@.contains(keysym) {
                old(self).suppressed_keys@
            } else {
                old(self).suppressed_keys@.push(keysym)
            }),
    {
        if !self.is_key_suppressed(keysym) {
            self.suppressed_keys.push(keysym);
        }
    }

    /// Remove a suppressed key
    pub fn unsuppress_key(&mut self, keysym: Keysym)
        ensures
            final(self).suppressed_keys@ == keys_without(old(self).suppressed_keys@, keysym),
    {
        let mut kept: Vec<Keysym> = Vec::new();
        let mut i: usize = 0;
        while i < self.suppressed_keys.len()
            invariant
                i <= self.suppressed_keys.len(),
                kept@ == keys_without(self.suppressed_keys@.take(i as int), keysym),
            decreases self.suppressed_keys.len() - i,
        {
            assert(self.suppressed_keys@.take(i + 1).drop_last() =~= self.suppressed_keys@.take(i as int));
            assert(self.suppressed_keys@.take(i + 1).last() == self.suppressed_keys@[i as int]);
            if self.suppressed_keys[i] != keysym {
                kept.push(self.suppressed_keys[i]);
            }
            i += 1;
        }
        assert(self.suppressed_keys@.take(i as int) =~= self.suppressed_keys@);
        self.suppressed_keys = kept;
    }

    /// Clear all suppressed keys
    pub fn clear_suppressed_keys(&mut self)
        ensures
            final(self).suppressed_keys@ == Seq::<Keysym>::empty(),
    {
        self.suppressed_keys.clear();
    }
}

/// The key a binding is matched on: the raw keysym where there is one.
pub open spec fn binding_key(modified: Keysym, raw: Option<Keysym>) -> Keysym {
    match raw {
        Some(k) => k,
        None => modified,
    }
}

/// What the keyboard filter decides for a key event, and the suppressed
/// keys after it: while the keyboard is grabbed (and shortcuts are not
/// inhibited) every key goes to the client; a press runs a binding unless
/// shortcuts are inhibited, and its key is then suppressed; a release of a
/// suppressed key is swallowed and lifts the suppression.
pub open spec fn filter_decision(
    bindings: Seq<crate::config::Keybinding<Seq<char>>>,
    suppressed: Seq<Keysym>,
    grabbed: bool,
    inhibited: bool,
    mods: ModifiersState,
    modified: Keysym,
    raw: Option<Keysym>,
    state: KeyState,
) -> (FilterResult<KeyAction<Seq<char>>>, Seq<Keysym>) {
    let key = binding_key(modified, raw);
    if grabbed && !inhibited {
        (FilterResult::Forward, suppressed)
    } else if state == KeyState::Pressed {
        if inhibited {
            (FilterResult::Forward, suppressed)
        } else {
            match key_filter(bindings, mods, modified, raw, state) {
                FilterResult::Intercept(a) => (FilterResult::Intercept(a), suppressed.push(key)),
                FilterResult::Forward => (FilterResult::Forward, suppressed),
            }
        }
    } else if suppressed.contains(key) {
        (FilterResult::Intercept(KeyAction::NoAction), keys_without(suppressed, key))
    } else {
        (FilterResult::Forward, suppressed)
    }
}

impl StilchState {
    /// Decides what happens to a key event: whether a binding runs, the
    /// client gets the key, or the key is swallowed.
    pub fn filter_key(
        &mut self,
        grabbed: bool,
        inhibited: bool,
        modifiers: ModifiersState,
        modified_keysym: Keysym,
        raw_keysym: Option<Keysym>,
        state: KeyState,
    ) -> (r: FilterResult<KeyAction>)
        ensures
            (filter_view(r), final(self).input_manager.suppressed_keys@) == filter_decision(
                old(self).config@.keybindings,
                old(self).input_manager.suppressed_keys@,
                grabbed,
                inhibited,
                modifiers,
                modified_keysym,
                raw_keysym,
                state,
            ),
            final(self)@ == (crate::state::StateView {
                held: final(self).input_manager.suppressed_keys@,
                ..old(self)@
            }),
            final(self).config == old(self).config,
    {
        let key = match raw_keysym {
            Some(k) => k,
            None => modified_keysym,
        };
        if grabbed && !inhibited {
            return FilterResult::Forward;
        }
        if state == KeyState::Pressed {
            if inhibited {
                return FilterResult::Forward;
            }
            match self.process_keybinding(modifiers, modified_keysym, raw_keysym, state) {
                FilterResult::Intercept(action) => {
                    self.input_manager.suppressed_keys.push(key);
                    FilterResult::Intercept(action)
                },
                FilterResult::Forward => FilterResult::Forward,
            }
        } else if self.input_manager.is_key_suppressed(key) {
            self.input_manager.unsuppress_key(key);
            FilterResult::Intercept(KeyAction::NoAction)
        } else {
            FilterResult::Forward
        }
    }
}

/// Law: a key whose press ran a binding has its release swallowed too, and
/// after the release it is no longer suppressed.
pub proof fn law_press_release_swallowed(
    bindings: Seq<crate::config::Keybinding<Seq<char>>>,
    suppressed: Seq<Keysym>,
    mods: ModifiersState,
    modified: Keysym,
    raw: Option<Keysym>,
)
    requires
        filter_decision(bindings, suppressed, false, false, mods, modified, raw, KeyState::Pressed).0 is Intercept,
    ensures
        ({
            let s1 = filter_decision(bindings, suppressed, false, false, mods, modified, raw, KeyState::Pressed).1;
            let (r2, s2) = filter_decision(bindings, s1, false, false, mods, modified, raw, KeyState::Released);
            &&& r2 == FilterResult::Intercept(KeyAction::<Seq<char>>::NoAction)
            &&& !s2.contains(binding_key(modified, raw))
        }),
{
    let key = binding_key(modified, raw);
    let s1 = suppressed.push(key);
    assert(s1[s1.len() - 1] == key);
    lemma_keys_without(s1, key);
}

/// A key event as the filter reads it: modifiers, the keysym, the raw
/// keysym where there is one, and whether the key went down or up.
pub type KeyEventView = (ModifiersState, Keysym, Option<Keysym>, KeyState);

/// The suppressed keys after the events `es` went through the filter in
/// order, the keyboard neither grabbed nor inhibited.
pub open spec fn filter_run(
    bindings: Seq<crate::config::Keybinding<Seq<char>>>,
    suppressed: Seq<Keysym>,
    es: Seq<KeyEventView>,
) -> Seq<Keysym>
    decreases es.len(),
{
    if es.len() == 0 {
        suppressed
    } else {
        let e = es[0];
        filter_run(
            bindings,
            filter_decision(bindings, suppressed, false, false, e.0, e.1, e.2, e.3).1,
            es.drop_first(),
        )
    }
}

/// Whether event `e` releases key `k`.
pub open spec fn releases(e: KeyEventView, k: Keysym) -> bool {
    e.3 == KeyState::Released && binding_key(e.1, e.2) == k
}

proof fn lemma_run_keeps(
    bindings: Seq<crate::config::Keybinding<Seq<char>>>,
    suppressed: Seq<Keysym>,
    es: Seq<KeyEventView>,
    k: Keysym,
)
    requires
        suppressed.contains(k),
        forall|i: int| 0 <= i < es.len() ==> !releases(#[trigger] es[i], k),
    ensures
        filter_run(bindings, suppressed, es).contains(k),
    decreases es.len(),
{
    if es.len() > 0 {
        let e = es[0];
        assert(!releases(es[0], k));
        let s1 = filter_decision(bindings, suppressed, false, false, e.0, e.1, e.2, e.3).1;
        if e.3 == KeyState::Pressed {
            let j = choose|j: int| 0 <= j < suppressed.len() && suppressed[j] == k;
            assert(suppressed.push(binding_key(e.1, e.2))[j] == k);
        } else if suppressed.contains(binding_key(e.1, e.2)) {
            lemma_keys_without(suppressed, binding_key(e.1, e.2));
        }
        assert(s1.contains(k));
        assert forall|i: int| 0 <= i < es.drop_first().len() implies !releases(#[trigger] es.drop_first()[i], k) by {
            assert(es.drop_first()[i] == es[i + 1]);
        }
        lemma_run_keeps(bindings, s1, es.drop_first(), k);
    }
}

/// Law: a key whose press ran a binding stays suppressed through any key
/// events that do not release it, while the keyboard is neither grabbed nor
/// inhibited; its next release is then swallowed, and afterwards the key is
/// no longer suppressed.
pub proof fn law_suppressed_until_release(
    bindings: Seq<crate::config::Keybinding<Seq<char>>>,
    suppressed: Seq<Keysym>,
    press: KeyEventView,
    between: Seq<KeyEventView>,
    release: KeyEventView,
)
    requires
        press.3 == KeyState::Pressed,
        filter_decision(bindings, suppressed, false, false, press.0, press.1, press.2, press.3).0 is Intercept,
        forall|i: int| 0 <= i < between.len() ==> !releases(#[trigger] between[i], binding_key(press.1, press.2)),
        releases(release, binding_key(press.1, press.2)),
    ensures
        ({
            let k = binding_key(press.1, press.2);
            let s1 = filter_decision(bindings, suppressed, false, false, press.0, press.1, press.2, press.3).1;
            let sn = filter_run(bindings, s1, between);
            let (r, s2) = filter_decision(bindings, sn, false, false, release.0, release.1, release.2, release.3);
            &&& sn.contains(k)
            &&& r == FilterResult::Intercept(KeyAction::<Seq<char>>::NoAction)
            &&& !s2.contains(k)
        }),
{
    let k = binding_key(press.1, press.2);
    let s1 = suppressed.push(k);
    assert(s1[s1.len() - 1] == k);
    lemma_run_keeps(bindings, s1, between, k);
    let sn = filter_run(bindings, s1, between);
    lemma_keys_without(sn, k);
}

} // verus!
