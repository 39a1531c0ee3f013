//! The startup input guard: a finite state machine over intercepted
//! keyboard and pointer events that decides whether the application may
//! create its window at all.

use vstd::prelude::*;

verus! {

/// Where the guard stands: still waiting for input, or in one of its two
/// terminal states.
#[derive(Clone, Copy, PartialEq, Eq, Structural, Debug)]
pub enum GuardOutcome {
    Pending,
    Succeeded,
    Aborted,
}

/// One intercepted input: a key-down event carrying its key code, or any
/// pointer movement or button press.
#[derive(Clone, Copy, PartialEq, Eq, Structural, Debug)]
pub enum GuardEvent {
    KeyDown(u32),
    PointerActivity,
}

/// The guard: the expected key-code sequence, the position reached in it,
/// and the outcome so far.
pub struct SecretGuard {
    pub expected: Vec<u32>,
    pub position: usize,
    pub outcome: GuardOutcome,
}

impl SecretGuard {
    /// A well-formed guard never points past its sequence, and while
    /// pending always has a next code to wait for.
    pub open spec fn wf(self) -> bool {
        &&& self.position <= self.expected@.len()
        &&& self.outcome is Pending ==> self.position < self.expected@.len()
    }

    /// A fresh guard waits at the start of its sequence. An empty sequence
    /// has nothing to wait for and counts as already completed.
    pub fn new(expected: Vec<u32>) -> (r: SecretGuard)
        ensures
            r.expected == expected,
            r.position == 0,
            r.outcome == (if expected@.len() == 0 {
                GuardOutcome::Succeeded
            } else {
                GuardOutcome::Pending
            }),
            r.wf(),
    {
        let outcome = if expected.len() == 0 {
            GuardOutcome::Succeeded
        } else {
            GuardOutcome::Pending
        };
        SecretGuard { expected, position: 0, outcome }
    }

    /// One transition of the guard. Terminal states absorb every further
    /// event; while pending, the expected key advances the position (and
    /// completes the guard on the last code), and any other key or any
    /// pointer activity aborts.
    pub open spec fn step_spec(self, e: GuardEvent) -> SecretGuard {
        if !(self.outcome is Pending) {
            self
        } else {
            match e {
                GuardEvent::PointerActivity => SecretGuard { outcome: GuardOutcome::Aborted, ..self },
                GuardEvent::KeyDown(code) => {
                    if code == self.expected@[self.position as int] {
                        if self.position + 1 == self.expected@.len() {
                            SecretGuard {
                                position: (self.position + 1) as usize,
                                outcome: GuardOutcome::Succeeded,
                                ..self
                            }
                        } else {
                            SecretGuard { position: (self.position + 1) as usize, ..self }
                        }
                    } else {
                        SecretGuard { outcome: GuardOutcome::Aborted, ..self }
                    }
                },
            }
        }
    }

    /// Feeds one key-down event to the guard.
    pub fn on_key_down(&mut self, code: u32)
        requires
            old(self).wf(),
        ensures
            *final(self) == old(self).step_spec(GuardEvent::KeyDown(code)),
            final(self).wf(),
    {
        if !matches!(self.outcome, GuardOutcome::Pending) {
            return;
        }
        let n = self.expected.len();
        let expected_code = self.expected[self.position];
        if code == expected_code {
            self.position = self.position + 1;
            if self.position == n {
                self.outcome = GuardOutcome::Succeeded;
            }
        } else {
            self.outcome = GuardOutcome::Aborted;
        }
    }

    /// Feeds one pointer-activity event to the guard.
    pub fn on_pointer_activity(&mut self)
        requires
            old(self).wf(),
        ensures
            *final(self) == old(self).step_spec(GuardEvent::PointerActivity),
            final(self).wf(),
    {
        if matches!(self.outcome, GuardOutcome::Pending) {
            self.outcome = GuardOutcome::Aborted;
        }
    }
}

/// The guard after a whole event sequence: events are consumed in order
/// until a terminal state absorbs the rest.
pub open spec fn guard_run(s: SecretGuard, inputs: Seq<GuardEvent>) -> SecretGuard
    decreases inputs.len(),
{
    if !(s.outcome is Pending) || inputs.len() == 0 {
        s
    } else {
        guard_run(s.step_spec(inputs[0]), inputs.drop_first())
    }
}

/// How many events of a sequence the guard observes before a terminal
/// state stops it.
pub open spec fn guard_consumed(s: SecretGuard, inputs: Seq<GuardEvent>) -> nat
    decreases inputs.len(),
{
    if !(s.outcome is Pending) || inputs.len() == 0 {
        0
    } else {
        1 + guard_consumed(s.step_spec(inputs[0]), inputs.drop_first())
    }
}

/// The state a fresh guard starts from.
pub open spec fn guard_start(expected: Vec<u32>) -> SecretGuard {
    SecretGuard {
        expected: expected,
        position: 0,
        outcome: if expected@.len() == 0 {
            GuardOutcome::Succeeded
        } else {
            GuardOutcome::Pending
        },
    }
}

/// Runs a fresh guard over a finite input sequence, as the guard's event
/// loop would: events past the first terminal transition are never
/// observed. Returns the final outcome and how many events were seen.
pub fn run_guard(expected: Vec<u32>, inputs: &Vec<GuardEvent>) -> (r: (GuardOutcome, usize))
    ensures
        r.0 == guard_run(guard_start(expected), inputs@).outcome,
        r.1 == guard_consumed(guard_start(expected), inputs@),
        r.1 <= inputs@.len(),
{
    let ghost start = guard_start(expected);
    let mut guard = SecretGuard::new(expected);
    proof {
        assert(guard == start);
        assert(inputs@.skip(0) =~= inputs@);
    }
    let mut i: usize = 0;
    while i < inputs.len() && matches!(guard.outcome, GuardOutcome::Pending)
        invariant
            guard.wf(),
            0 <= i <= inputs@.len(),
            guard_run(start, inputs@) == guard_run(guard, inputs@.skip(i as int)),
            guard_consumed(start, inputs@) == i + guard_consumed(guard, inputs@.skip(i as int)),
            !(guard.outcome is Pending) ==> guard_consumed(guard, inputs@.skip(i as int)) == 0
                && guard_run(guard, inputs@.skip(i as int)) == guard,
        decreases inputs@.len() - i,
    {
        proof {
            assert(inputs@.skip(i as int).len() > 0);
            assert(inputs@.skip(i as int)[0] == inputs@[i as int]);
            assert(inputs@.skip(i as int).drop_first() =~= inputs@.skip(i + 1));
        }
        match inputs[i] {
            GuardEvent::KeyDown(code) => guard.on_key_down(code),
            GuardEvent::PointerActivity => guard.on_pointer_activity(),
        }
        i = i + 1;
    }
    proof {
        if i >= inputs@.len() {
            assert(inputs@.skip(i as int).len() == 0);
        }
    }
    (guard.outcome, i)
}

/// One guard transition keeps the guard well formed.
pub proof fn lemma_step_wf(s: SecretGuard, e: GuardEvent)
    requires
        s.wf(),
    ensures
        s.step_spec(e).wf(),
        s.step_spec(e).expected == s.expected,
{
}

/// The guard is total: after any finite input sequence it is still
/// pending only when the inputs were strictly fewer key-downs than the
/// sequence expects, each carrying exactly the next expected code. Every
/// other finite sequence has already driven it to a terminal state, in
/// at most as many steps as there are inputs.
pub proof fn lemma_guard_totality(s: SecretGuard, inputs: Seq<GuardEvent>)
    requires
        s.wf(),
    ensures
        guard_run(s, inputs).outcome is Pending <==> {
            &&& s.outcome is Pending
            &&& s.position + inputs.len() < s.expected@.len()
            &&& forall|i: int|
                0 <= i < inputs.len() ==> inputs[i] == GuardEvent::KeyDown(
                    s.expected@[s.position + i],
                )
        },
        guard_consumed(s, inputs) <= inputs.len(),
    decreases inputs.len(),
{
    if s.outcome is Pending && inputs.len() > 0 {
        let s1 = s.step_spec(inputs[0]);
        lemma_step_wf(s, inputs[0]);
        let rest = inputs.drop_first();
        lemma_guard_totality(s1, rest);
        assert(guard_run(s, inputs) == guard_run(s1, rest));
        assert(guard_consumed(s, inputs) == 1 + guard_consumed(s1, rest));
        let pos = s.position as int;
        let n = s.expected@.len() as int;
        assert(s.expected.len() == s.expected@.len());
        assert(n <= usize::MAX);
        if guard_run(s, inputs).outcome is Pending {
            // a terminal step would have been absorbed, so the first
            // event matched without completing the sequence
            assert(s1.outcome is Pending);
            assert(inputs[0] == GuardEvent::KeyDown(s.expected@[pos])) by {
                match inputs[0] {
                    GuardEvent::PointerActivity => {
                        assert(s1.outcome is Aborted);
                    },
                    GuardEvent::KeyDown(c) => {
                        if c != s.expected@[pos] {
                            assert(s1.outcome is Aborted);
                        }
                    },
                }
            }
            assert(s1.position == pos + 1);
            assert(s1.position + rest.len() < n);
            assert forall|i: int| 0 <= i < inputs.len() implies inputs[i] == GuardEvent::KeyDown(
                s.expected@[s.position + i],
            ) by {
                if i > 0 {
                    assert(rest[i - 1] == inputs[i]);
                    assert(rest[i - 1] == GuardEvent::KeyDown(s1.expected@[s1.position + (i - 1)]));
                    assert(s1.expected@[s1.position + (i - 1)] == s.expected@[s.position + i]);
                }
            }
        }
        if {
            &&& pos + inputs.len() < n
            &&& forall|i: int|
                0 <= i < inputs.len() ==> inputs[i] == GuardEvent::KeyDown(
                    s.expected@[s.position + i],
                )
        } {
            assert(inputs[0] == GuardEvent::KeyDown(s.expected@[s.position + 0]));
            assert(pos + 1 < n);
            assert(s1.outcome is Pending);
            assert(s1.position == pos + 1);
            assert forall|i: int| 0 <= i < rest.len() implies rest[i] == GuardEvent::KeyDown(
                s1.expected@[s1.position + i],
            ) by {
                assert(rest[i] == inputs[i + 1]);
                assert(inputs[i + 1] == GuardEvent::KeyDown(s.expected@[s.position + (i + 1)]));
                assert(s1.expected@[s1.position + i] == s.expected@[s.position + (i + 1)]);
            }
            assert(s1.position + rest.len() < s1.expected@.len());
            assert(guard_run(s1, rest).outcome is Pending);
        }
    }
}

/// One run of the guard together with the interception hooks around it:
/// the session records which hooks were installed and guarantees, by the
/// contract of `conclude`, that every installed hook is handed back for
/// release exactly once, on every exit path.
pub struct GuardSession {
    pub keyboard_hooked: bool,
    pub mouse_hooked: bool,
    pub guard: SecretGuard,
}

/// What concluding a session tells the surrounding code: whether the
/// application may start, and which hooks must now be released.
#[derive(Clone, Copy, PartialEq, Eq, Structural, Debug)]
pub struct GuardConclusion {
    pub success: bool,
    pub release_keyboard: bool,
    pub release_mouse: bool,
}

impl GuardSession {
    /// Opens a session after the hook installation attempts. The guard is
    /// worth pumping only when both hooks are in place: with either hook
    /// missing, part of the input stream is unobservable, so the caller
    /// concludes at once and the session conservatively reports failure.
    pub fn begin(expected: Vec<u32>, keyboard_ok: bool, mouse_ok: bool) -> (r: (
        GuardSession,
        bool,
    ))
        ensures
            r.0.keyboard_hooked == keyboard_ok,
            r.0.mouse_hooked == mouse_ok,
            r.0.guard == guard_start(expected),
            r.0.guard.wf(),
            r.1 == (keyboard_ok && mouse_ok),
    {
        let guard = SecretGuard::new(expected);
        let proceed = keyboard_ok && mouse_ok;
        (GuardSession { keyboard_hooked: keyboard_ok, mouse_hooked: mouse_ok, guard }, proceed)
    }

    /// Ends the session: reports success only if both hooks were watching
    /// and the guard completed its sequence, and hands every installed
    /// hook back for release, leaving none installed.
    pub fn conclude(&mut self) -> (r: GuardConclusion)
        ensures
            r.success == (old(self).keyboard_hooked && old(self).mouse_hooked && old(
                self,
            ).guard.outcome is Succeeded),
            r.release_keyboard == old(self).keyboard_hooked,
            r.release_mouse == old(self).mouse_hooked,
            !final(self).keyboard_hooked,
            !final(self).mouse_hooked,
            final(self).guard == old(self).guard,
    {
        let success = self.keyboard_hooked && self.mouse_hooked && matches!(
            self.guard.outcome,
            GuardOutcome::Succeeded,
        );
        let release_keyboard = self.keyboard_hooked;
        let release_mouse = self.mouse_hooked;
        self.keyboard_hooked = false;
        self.mouse_hooked = false;
        GuardConclusion { success, release_keyboard, release_mouse }
    }
}

} // verus!
