//! The pressure state machine of one pad.
//!
//! Pressure is held as the 12-bit level that the device reports; the
//! normalized pressure is `level / 4095`, so a level in `0..=4095` stands for
//! a pressure in `[0, 1]`.
use vstd::prelude::*;

verus! {

/// Largest pressure level: the normalized pressure is `level / PAD_LEVEL_MAX`.
pub const PAD_LEVEL_MAX: u16 = 4095;

/// An idle pad is pressed once its level reaches this value (about 0.05).
pub const PAD_PRESS_LEVEL: u16 = 205;

/// A held pad is released once its level falls below this value (about 0.02).
/// It lies under the press level, so that noise near either level cannot
/// produce press and release pairs.
pub const PAD_RELEASE_LEVEL: u16 = 82;

/// Whether a pad is held.
#[derive(Clone, Copy, Debug, PartialEq, Eq, Structural)]
pub enum MaschinePadState {
    Idle,
    Pressed,
    Aftertouch,
}

/// What one new pressure reading did to a pad.
#[derive(Clone, Copy, Debug, PartialEq, Eq, Structural)]
pub enum MaschinePadStateTransition {
    Pressed,
    Aftertouch,
    Released,
    NoChange,
}

/// One pad: its state and its last pressure level.
#[derive(Clone, Copy, Debug)]
pub struct MaschinePad {
    pub state: MaschinePadState,
    pub level: u16,
}

/// The 12 significant bits of a raw pad sample.
pub open spec fn sample_level(raw: u16) -> u16 {
    raw & 0xFFF
}

/// Whether the state is one of a held pad.
pub open spec fn is_held(s: MaschinePadState) -> bool {
    s == MaschinePadState::Pressed || s == MaschinePadState::Aftertouch
}

/// The state after a reading of `level` in state `s`.
pub open spec fn next_state(s: MaschinePadState, level: u16) -> MaschinePadState {
    if is_held(s) {
        if level >= PAD_RELEASE_LEVEL {
            MaschinePadState::Aftertouch
        } else {
            MaschinePadState::Idle
        }
    } else if level >= PAD_PRESS_LEVEL {
        MaschinePadState::Pressed
    } else {
        MaschinePadState::Idle
    }
}

/// The transition reported for a reading of `level` in state `s`.
pub open spec fn transition(s: MaschinePadState, level: u16) -> MaschinePadStateTransition {
    if is_held(s) {
        if level >= PAD_RELEASE_LEVEL {
            MaschinePadStateTransition::Aftertouch
        } else {
            MaschinePadStateTransition::Released
        }
    } else if level >= PAD_PRESS_LEVEL {
        MaschinePadStateTransition::Pressed
    } else {
        MaschinePadStateTransition::NoChange
    }
}

/// The transitions reported when the levels `ls` are read in turn from state `s`.
pub open spec fn run(s: MaschinePadState, ls: Seq<u16>) -> Seq<MaschinePadStateTransition>
    decreases ls.len(),
{
    if ls.len() == 0 {
        Seq::empty()
    } else {
        seq![transition(s, ls[0])] + run(next_state(s, ls[0]), ls.drop_first())
    }
}

/// How often `t` occurs in `ts`.
pub open spec fn count_of(ts: Seq<MaschinePadStateTransition>, t: MaschinePadStateTransition) -> nat
    decreases ts.len(),
{
    if ts.len() == 0 {
        0
    } else {
        (if ts[0] == t { 1nat } else { 0nat }) + count_of(ts.drop_first(), t)
    }
}

impl MaschinePad {
    /// An idle pad with no pressure.
    pub fn new() -> (r: MaschinePad)
        ensures
            r.state == MaschinePadState::Idle,
            r.level == 0,
    {
        MaschinePad { state: MaschinePadState::Idle, level: 0 }
    }

    /// Well formed: the level has 12 bits.
    pub open spec fn wf(&self) -> bool {
        self.level <= PAD_LEVEL_MAX
    }

    /// Feeds one raw sample; only its low 12 bits count.
    pub fn pressure_val(&mut self, raw: u16) -> (r: MaschinePadStateTransition)
        ensures
            final(self).level == sample_level(raw),
            final(self).wf(),
            final(self).state == next_state(old(self).state, sample_level(raw)),
            r == transition(old(self).state, sample_level(raw)),
    {
        let level = raw & 0xFFF;
        assert(raw & 0xFFF <= 4095) by (bit_vector);
        self.level = level;
        match self.state {
            MaschinePadState::Pressed | MaschinePadState::Aftertouch => {
                if level >= PAD_RELEASE_LEVEL {
                    self.state = MaschinePadState::Aftertouch;
                    MaschinePadStateTransition::Aftertouch
                } else {
                    self.state = MaschinePadState::Idle;
                    MaschinePadStateTransition::Released
                }
            },
            MaschinePadState::Idle => {
                if level >= PAD_PRESS_LEVEL {
                    self.state = MaschinePadState::Pressed;
                    MaschinePadStateTransition::Pressed
                } else {
                    MaschinePadStateTransition::NoChange
                }
            },
        }
    }

    /// The last pressure level, `0..=4095`.
    pub fn get_pressure(&self) -> (r: u16)
        ensures
            r == self.level,
    {
        self.level
    }
}

/// Every raw sample gives a level of at most 4095, so the normalized pressure
/// `sample_level(raw) / 4095` lies in `[0, 1]`.
pub proof fn lemma_sample_level_bounded(raw: u16)
    ensures
        sample_level(raw) <= PAD_LEVEL_MAX,
{
    assert(raw & 0xFFF <= 4095) by (bit_vector);
}

/// The state after the levels `ls` are read in turn from state `s`.
pub open spec fn settle(s: MaschinePadState, ls: Seq<u16>) -> MaschinePadState
    decreases ls.len(),
{
    if ls.len() == 0 {
        s
    } else {
        settle(next_state(s, ls[0]), ls.drop_first())
    }
}

proof fn lemma_run_len(s: MaschinePadState, ls: Seq<u16>)
    ensures
        run(s, ls).len() == ls.len(),
    decreases ls.len(),
{
    if ls.len() > 0 {
        lemma_run_len(next_state(s, ls[0]), ls.drop_first());
    }
}

proof fn lemma_count_cons(t: MaschinePadStateTransition, r: Seq<MaschinePadStateTransition>, x: MaschinePadStateTransition)
    ensures
        count_of(seq![t] + r, x) == (if t == x { 1nat } else { 0nat }) + count_of(r, x),
{
    let ts = seq![t] + r;
    assert(ts[0] == t);
    assert(ts.drop_first() =~= r);
}

proof fn lemma_count_absent(ts: Seq<MaschinePadStateTransition>, x: MaschinePadStateTransition)
    requires
        forall|i: int| 0 <= i < ts.len() ==> ts[i] != x,
    ensures
        count_of(ts, x) == 0,
    decreases ts.len(),
{
    if ts.len() > 0 {
        lemma_count_absent(ts.drop_first(), x);
    }
}

/// An idle pad whose level stays below the press level reports nothing, however
/// the level moves within that band, and stays idle.
pub proof fn lemma_idle_band_is_quiet(ls: Seq<u16>)
    requires
        forall|i: int| 0 <= i < ls.len() ==> ls[i] < PAD_PRESS_LEVEL,
    ensures
        run(MaschinePadState::Idle, ls) =~= Seq::new(ls.len(), |i: int| MaschinePadStateTransition::NoChange),
        settle(MaschinePadState::Idle, ls) == MaschinePadState::Idle,
    decreases ls.len(),
{
    if ls.len() > 0 {
        lemma_idle_band_is_quiet(ls.drop_first());
    }
}

/// A held pad whose level stays at or above the release level reports only
/// aftertouch, however the level moves within that band, and stays held.
pub proof fn lemma_held_band_is_aftertouch(s: MaschinePadState, ls: Seq<u16>)
    requires
        is_held(s),
        forall|i: int| 0 <= i < ls.len() ==> ls[i] >= PAD_RELEASE_LEVEL,
    ensures
        run(s, ls) =~= Seq::new(ls.len(), |i: int| MaschinePadStateTransition::Aftertouch),
        is_held(settle(s, ls)),
    decreases ls.len(),
{
    if ls.len() > 0 {
        lemma_held_band_is_aftertouch(MaschinePadState::Aftertouch, ls.drop_first());
    }
}

/// A held pad fed levels that may stay up for a while (the first `m`) and then
/// never rise, ending below the release level, reports aftertouch up to the
/// returned index, a release there, then nothing, and ends idle.
proof fn lemma_held_releases_once(s: MaschinePadState, ls: Seq<u16>, m: int) -> (q: int)
    requires
        is_held(s),
        ls.len() > 0,
        ls.last() < PAD_RELEASE_LEVEL,
        0 <= m,
        forall|i: int| 0 <= i < m && i < ls.len() ==> ls[i] >= PAD_RELEASE_LEVEL,
        forall|i: int, j: int| m <= i <= j < ls.len() ==> ls[i] >= ls[j],
    ensures
        0 <= q < ls.len(),
        run(s, ls).len() == ls.len(),
        run(s, ls)[q] == MaschinePadStateTransition::Released,
        forall|i: int| 0 <= i < q ==> run(s, ls)[i] == MaschinePadStateTransition::Aftertouch,
        forall|i: int| q < i < ls.len() ==> run(s, ls)[i] == MaschinePadStateTransition::NoChange,
        settle(s, ls) == MaschinePadState::Idle,
        count_of(run(s, ls), MaschinePadStateTransition::Pressed) == 0,
        count_of(run(s, ls), MaschinePadStateTransition::Released) == 1,
    decreases ls.len(),
{
    let t = transition(s, ls[0]);
    let rest = ls.drop_first();
    let n = next_state(s, ls[0]);
    let r = run(n, rest);
    lemma_run_len(n, rest);
    lemma_count_cons(t, r, MaschinePadStateTransition::Pressed);
    lemma_count_cons(t, r, MaschinePadStateTransition::Released);
    assert(run(s, ls) == seq![t] + r);
    if ls[0] >= PAD_RELEASE_LEVEL {
        assert(ls.len() >= 2);
        let m2 = if m > 0 { m - 1 } else { 0 };
        assert(rest.last() == ls.last());
        assert forall|i: int, j: int| m2 <= i <= j < rest.len() implies rest[i] >= rest[j] by {
            assert(ls[i + 1] >= ls[j + 1]);
        }
        let q2 = lemma_held_releases_once(n, rest, m2);
        assert forall|i: int| 0 <= i < q2 + 1 implies run(s, ls)[i] == MaschinePadStateTransition::Aftertouch by {
            if i > 0 {
                assert(run(s, ls)[i] == r[i - 1]);
            }
        }
        assert forall|i: int| q2 + 1 < i < ls.len() implies run(s, ls)[i] == MaschinePadStateTransition::NoChange by {
            assert(run(s, ls)[i] == r[i - 1]);
        }
        assert(run(s, ls)[q2 + 1] == r[q2]);
        q2 + 1
    } else {
        assert forall|i: int| 0 <= i < rest.len() implies rest[i] < PAD_PRESS_LEVEL by {
            assert(ls[0] >= ls[i + 1]);
        }
        lemma_idle_band_is_quiet(rest);
        assert forall|i: int| 0 <= i < r.len() implies r[i] == MaschinePadStateTransition::NoChange by {}
        assert forall|i: int| 0 < i < ls.len() implies run(s, ls)[i] == MaschinePadStateTransition::NoChange by {
            assert(run(s, ls)[i] == r[i - 1]);
        }
        lemma_count_absent(r, MaschinePadStateTransition::Pressed);
        lemma_count_absent(r, MaschinePadStateTransition::Released);
        0
    }
}

/// Pressure that rises to a peak at index `k` at or above the press level and
/// then falls to end below the release level makes an idle pad report, in
/// order: nothing, one press (at the first returned index), only aftertouch,
/// one release (at the second returned index), then nothing; the pad ends idle.
pub proof fn lemma_rise_and_fall_presses_once(ls: Seq<u16>, k: int) -> (pq: (int, int))
    requires
        0 <= k < ls.len(),
        forall|i: int, j: int| 0 <= i <= j <= k ==> ls[i] <= ls[j],
        forall|i: int, j: int| k <= i <= j < ls.len() ==> ls[i] >= ls[j],
        ls[k] >= PAD_PRESS_LEVEL,
        ls.last() < PAD_RELEASE_LEVEL,
    ensures
        0 <= pq.0 < pq.1 < ls.len(),
        run(MaschinePadState::Idle, ls).len() == ls.len(),
        forall|i: int| 0 <= i < pq.0 ==> run(MaschinePadState::Idle, ls)[i] == MaschinePadStateTransition::NoChange,
        run(MaschinePadState::Idle, ls)[pq.0] == MaschinePadStateTransition::Pressed,
        forall|i: int| pq.0 < i < pq.1 ==> run(MaschinePadState::Idle, ls)[i] == MaschinePadStateTransition::Aftertouch,
        run(MaschinePadState::Idle, ls)[pq.1] == MaschinePadStateTransition::Released,
        forall|i: int| pq.1 < i < ls.len() ==> run(MaschinePadState::Idle, ls)[i] == MaschinePadStateTransition::NoChange,
        settle(MaschinePadState::Idle, ls) == MaschinePadState::Idle,
        count_of(run(MaschinePadState::Idle, ls), MaschinePadStateTransition::Pressed) == 1,
        count_of(run(MaschinePadState::Idle, ls), MaschinePadStateTransition::Released) == 1,
    decreases ls.len(),
{
    let s = MaschinePadState::Idle;
    let t = transition(s, ls[0]);
    let rest = ls.drop_first();
    let n = next_state(s, ls[0]);
    let r = run(n, rest);
    lemma_run_len(n, rest);
    lemma_count_cons(t, r, MaschinePadStateTransition::Pressed);
    lemma_count_cons(t, r, MaschinePadStateTransition::Released);
    assert(run(s, ls) == seq![t] + r);
    assert(ls.len() >= 2) by {
        if ls.len() == 1 {
            assert(ls.last() == ls[k]);
        }
    }
    assert(rest.last() == ls.last());
    if ls[0] < PAD_PRESS_LEVEL {
        assert forall|i: int, j: int| 0 <= i <= j <= k - 1 implies rest[i] <= rest[j] by {
            assert(ls[i + 1] <= ls[j + 1]);
        }
        assert forall|i: int, j: int| k - 1 <= i <= j < rest.len() implies rest[i] >= rest[j] by {
            assert(ls[i + 1] >= ls[j + 1]);
        }
        let pq2 = lemma_rise_and_fall_presses_once(rest, k - 1);
        assert forall|i: int| 0 < i < ls.len() implies run(s, ls)[i] == r[i - 1] by {}
        (pq2.0 + 1, pq2.1 + 1)
    } else {
        let m = if k > 0 { k - 1 } else { 0 };
        assert forall|i: int| 0 <= i < m && i < rest.len() implies rest[i] >= PAD_RELEASE_LEVEL by {
            assert(ls[0] <= ls[i + 1]);
        }
        assert forall|i: int, j: int| m <= i <= j < rest.len() implies rest[i] >= rest[j] by {
            assert(ls[i + 1] >= ls[j + 1]);
        }
        let q = lemma_held_releases_once(n, rest, m);
        assert forall|i: int| 0 < i < ls.len() implies run(s, ls)[i] == r[i - 1] by {}
        (0, q + 1)
    }
}

} // verus!
