//! The four-dimensional affect state and the container that nudges and decays it.

use vstd::prelude::*;

verus! {

/// `x` limited to `[lo, hi]`.
pub open spec fn clamp(x: int, lo: int, hi: int) -> int {
    if x < lo {
        lo
    } else if x > hi {
        hi
    } else {
        x
    }
}

/// `x` times `f` thousandths, truncated toward zero.
pub open spec fn scaled(x: int, f: int) -> int {
    if x >= 0 {
        x * f / 1000
    } else {
        -((-x) * f / 1000)
    }
}

/// `x` moved toward `target` by `rate` thousandths of the distance, truncated
/// toward `x`.
pub open spec fn toward(x: int, target: int, rate: int) -> int {
    if target >= x {
        x + (target - x) * rate / 1000
    } else {
        x - (x - target) * rate / 1000
    }
}

/// Valence, arousal, dominance and novelty, in thousandths.
#[derive(Debug, Clone, Copy, PartialEq, Eq)]
pub struct AffectiveState {
    pub valence: i64,
    pub arousal: i64,
    pub dominance: i64,
    pub novelty: i64,
}

impl AffectiveState {
    /// Each dimension lies in its range: arousal in `[0, 1000]`, the others
    /// in `[-1000, 1000]`.
    pub open spec fn wf(self) -> bool {
        &&& -1000 <= self.valence <= 1000
        &&& 0 <= self.arousal <= 1000
        &&& -1000 <= self.dominance <= 1000
        &&& -1000 <= self.novelty <= 1000
    }

    /// This state with `c` added to each dimension, clamped to its range.
    pub open spec fn plus_clamped(self, c: AffectiveState) -> AffectiveState {
        AffectiveState {
            valence: clamp(self.valence + c.valence, -1000, 1000) as i64,
            arousal: clamp(self.arousal + c.arousal, 0, 1000) as i64,
            dominance: clamp(self.dominance + c.dominance, -1000, 1000) as i64,
            novelty: clamp(self.novelty + c.novelty, -1000, 1000) as i64,
        }
    }

    /// This state with each dimension moved toward `baseline` by `rate`
    /// thousandths (the rate clamped to `[0, 1000]`).
    pub open spec fn decayed(self, baseline: AffectiveState, rate: i64) -> AffectiveState {
        let r = clamp(rate as int, 0, 1000);
        AffectiveState {
            valence: toward(self.valence as int, baseline.valence as int, r) as i64,
            arousal: toward(self.arousal as int, baseline.arousal as int, r) as i64,
            dominance: toward(self.dominance as int, baseline.dominance as int, r) as i64,
            novelty: toward(self.novelty as int, baseline.novelty as int, r) as i64,
        }
    }

    /// Each dimension of `c` scaled by `f` thousandths, truncated toward zero.
    pub open spec fn scaled_by(c: AffectiveState, f: int) -> AffectiveState {
        AffectiveState {
            valence: scaled(c.valence as int, f) as i64,
            arousal: scaled(c.arousal as int, f) as i64,
            dominance: scaled(c.dominance as int, f) as i64,
            novelty: scaled(c.novelty as int, f) as i64,
        }
    }

    /// Valence 0, arousal 300, dominance 100, novelty 0.
    pub fn new_neutral() -> (r: AffectiveState)
        ensures
            r == (AffectiveState { valence: 0, arousal: 300, dominance: 100, novelty: 0 }),
            r.wf(),
    {
        AffectiveState { valence: 0, arousal: 300, dominance: 100, novelty: 0 }
    }

    /// Adds `change` to each dimension and clamps it to its range.
    pub fn apply_change(&mut self, change: AffectiveState)
        ensures
            *final(self) == old(self).plus_clamped(change),
            final(self).wf(),
    {
        self.valence = clamp_add(self.valence, change.valence, -1000, 1000);
        self.arousal = clamp_add(self.arousal, change.arousal, 0, 1000);
        self.dominance = clamp_add(self.dominance, change.dominance, -1000, 1000);
        self.novelty = clamp_add(self.novelty, change.novelty, -1000, 1000);
    }

    /// Moves each dimension toward `baseline` by `rate` thousandths of the
    /// distance (the rate clamped to `[0, 1000]`).
    pub fn decay(&mut self, baseline: AffectiveState, rate: i64)
        requires
            old(self).wf(),
            baseline.wf(),
        ensures
            *final(self) == old(self).decayed(baseline, rate),
            final(self).wf(),
    {
        let r: i64 = if rate < 0 {
            0
        } else if rate > 1000 {
            1000
        } else {
            rate
        };
        self.valence = move_toward(self.valence, baseline.valence, r);
        self.arousal = move_toward(self.arousal, baseline.arousal, r);
        self.dominance = move_toward(self.dominance, baseline.dominance, r);
        self.novelty = move_toward(self.novelty, baseline.novelty, r);
    }
}

fn clamp_add(x: i64, d: i64, lo: i64, hi: i64) -> (r: i64)
    requires
        lo <= hi,
    ensures
        r == clamp(x + d, lo as int, hi as int),
{
    let s: i128 = x as i128 + d as i128;
    if s < lo as i128 {
        lo
    } else if s > hi as i128 {
        hi
    } else {
        s as i64
    }
}

proof fn lemma_toward_between(x: int, target: int, rate: int)
    requires
        0 <= rate <= 1000,
    ensures
        target >= x ==> x <= toward(x, target, rate) <= target,
        target < x ==> target <= toward(x, target, rate) <= x,
{
    if target >= x {
        assert(0 <= (target - x) * rate / 1000 <= target - x) by (nonlinear_arith)
            requires
                target - x >= 0,
                0 <= rate <= 1000,
        ;
    } else {
        assert(0 <= (x - target) * rate / 1000 <= x - target) by (nonlinear_arith)
            requires
                x - target > 0,
                0 <= rate <= 1000,
        ;
    }
}

fn move_toward(x: i64, target: i64, rate: i64) -> (r: i64)
    requires
        -1000 <= x <= 1000,
        -1000 <= target <= 1000,
        0 <= rate <= 1000,
    ensures
        r == toward(x as int, target as int, rate as int),
        target >= x ==> x <= r <= target,
        target < x ==> target <= r <= x,
{
    proof {
        lemma_toward_between(x as int, target as int, rate as int);
        assert(0 <= (if target >= x { target - x } else { x - target }) * rate <= 2000 * 1000)
            by (nonlinear_arith)
            requires
                0 <= (if target >= x { target - x } else { x - target }) <= 2000,
                0 <= rate <= 1000,
        ;
    }
    if target >= x {
        x + (target - x) * rate / 1000
    } else {
        x - (x - target) * rate / 1000
    }
}

fn scale_toward_zero(x: i64, f: i64) -> (r: i64)
    requires
        0 <= f <= 1000,
    ensures
        r == scaled(x as int, f as int),
{
    let ghost xi = x as int;
    let ghost fi = f as int;
    let w: i128 = x as i128;
    let fw: i128 = f as i128;
    if w >= 0 {
        proof {
            assert(0 <= xi * fi <= xi * 1000) by (nonlinear_arith)
                requires
                    xi >= 0,
                    0 <= fi <= 1000,
            ;
            assert(0 <= xi * fi / 1000 <= xi) by (nonlinear_arith)
                requires
                    xi >= 0,
                    0 <= fi <= 1000,
            ;
        }
        (w * fw / 1000) as i64
    } else {
        proof {
            assert(0 <= (-xi) * fi <= (-xi) * 1000) by (nonlinear_arith)
                requires
                    xi < 0,
                    0 <= fi <= 1000,
            ;
            assert(0 <= (-xi) * fi / 1000 <= -xi) by (nonlinear_arith)
                requires
                    xi < 0,
                    0 <= fi <= 1000,
            ;
        }
        (-((-w) * fw / 1000)) as i64
    }
}

/// One mutation of an affect state.
pub enum AffectOp {
    /// Add a change and clamp.
    Change(AffectiveState),
    /// Decay toward a baseline at a rate in thousandths.
    Decay(AffectiveState, i64),
}

/// The state after one mutation.
pub open spec fn apply_affect_op(s: AffectiveState, op: AffectOp) -> AffectiveState {
    match op {
        AffectOp::Change(c) => s.plus_clamped(c),
        AffectOp::Decay(b, r) => s.decayed(b, r),
    }
}

/// The state after a sequence of mutations, in order.
pub open spec fn apply_affect_ops(s: AffectiveState, ops: Seq<AffectOp>) -> AffectiveState
    decreases ops.len(),
{
    if ops.len() == 0 {
        s
    } else {
        apply_affect_op(apply_affect_ops(s, ops.drop_last()), ops.last())
    }
}

/// Every decay in `ops` goes toward a baseline within the ranges.
pub open spec fn baselines_wf(ops: Seq<AffectOp>) -> bool {
    forall|i: int|
        0 <= i < ops.len() ==> match #[trigger] ops[i] {
            AffectOp::Decay(b, _) => b.wf(),
            _ => true,
        }
}

proof fn lemma_decayed_wf(s: AffectiveState, b: AffectiveState, rate: i64)
    requires
        s.wf(),
        b.wf(),
    ensures
        s.decayed(b, rate).wf(),
{
    let r = clamp(rate as int, 0, 1000);
    lemma_toward_between(s.valence as int, b.valence as int, r);
    lemma_toward_between(s.arousal as int, b.arousal as int, r);
    lemma_toward_between(s.dominance as int, b.dominance as int, r);
    lemma_toward_between(s.novelty as int, b.novelty as int, r);
}

/// After any sequence of clamped changes and decays toward in-range
/// baselines, every dimension of an in-range state stays in its range.
pub proof fn lemma_affect_stays_in_range(s: AffectiveState, ops: Seq<AffectOp>)
    requires
        s.wf(),
        baselines_wf(ops),
    ensures
        apply_affect_ops(s, ops).wf(),
    decreases ops.len(),
{
    if ops.len() > 0 {
        let init = ops.drop_last();
        assert(baselines_wf(init)) by {
            assert forall|i: int| 0 <= i < init.len() implies match #[trigger] init[i] {
                AffectOp::Decay(b, _) => b.wf(),
                _ => true,
            } by {
                assert(init[i] == ops[i]);
            }
        }
        lemma_affect_stays_in_range(s, init);
        let w = apply_affect_ops(s, init);
        match ops.last() {
            AffectOp::Change(c) => {},
            AffectOp::Decay(b, r) => {
                assert(ops[ops.len() - 1] == ops.last());
                lemma_decayed_wf(w, b, r);
            },
        }
    }
}

/// Baseline, decay rate and empathy of an affect container, rates in thousandths.
#[derive(Debug, Clone, Copy)]
pub struct AffectiveConfig {
    pub baseline_state: AffectiveState,
    pub decay_rate: i64,
    pub empathy_factor: i64,
}

impl AffectiveConfig {
    /// The baseline is in range and both rates lie in `[0, 1000]`.
    pub open spec fn wf(self) -> bool {
        &&& self.baseline_state.wf()
        &&& 0 <= self.decay_rate <= 1000
        &&& 0 <= self.empathy_factor <= 1000
    }

    /// Neutral baseline, decay rate 150, empathy 500.
    pub fn default_config() -> (r: AffectiveConfig)
        ensures
            r.wf(),
            r.baseline_state == (AffectiveState {
                valence: 0,
                arousal: 300,
                dominance: 100,
                novelty: 0,
            }),
            r.decay_rate == 150,
            r.empathy_factor == 500,
    {
        AffectiveConfig {
            baseline_state: AffectiveState::new_neutral(),
            decay_rate: 150,
            empathy_factor: 500,
        }
    }
}

/// Number of emotion descriptions kept in the history.
pub const EMOTION_HISTORY_CAPACITY: usize = 10;

/// Appends `x` to `s`, dropping the oldest entry when `s` grows past `cap`.
pub open spec fn push_capped<T>(s: Seq<T>, x: T, cap: nat) -> Seq<T> {
    if s.push(x).len() > cap {
        s.push(x).drop_first()
    } else {
        s.push(x)
    }
}

/// The affect container: current state, configuration and a short history of
/// the emotions that moved it.
pub struct AffectiveCore {
    current_state: AffectiveState,
    config: AffectiveConfig,
    emotional_history: Vec<String>,
}

impl AffectiveCore {
    /// The state is in range, the configuration well formed and the history
    /// within its capacity.
    pub closed spec fn inv(self) -> bool {
        &&& self.current_state.wf()
        &&& self.config.wf()
        &&& self.emotional_history@.len() <= EMOTION_HISTORY_CAPACITY
    }

    /// The current affect state.
    pub closed spec fn state(self) -> AffectiveState {
        self.current_state
    }

    /// The configuration.
    pub closed spec fn config_spec(self) -> AffectiveConfig {
        self.config
    }

    /// The descriptions of the emotions last processed, oldest first.
    pub closed spec fn history_spec(self) -> Seq<String> {
        self.emotional_history@
    }

    /// A container at the configuration's baseline with an empty history.
    pub fn new(config: AffectiveConfig) -> (r: AffectiveCore)
        requires
            config.wf(),
        ensures
            r.inv(),
            r.state() == config.baseline_state,
            r.config_spec() == config,
            r.history_spec().len() == 0,
    {
        AffectiveCore { current_state: config.baseline_state, config, emotional_history: Vec::new() }
    }

    /// Applies an emotion's change scaled by the empathy factor, then records
    /// its description, keeping the last ten.
    pub fn process_emotion(&mut self, change: AffectiveState, details: String)
        requires
            old(self).inv(),
        ensures
            final(self).inv(),
            final(self).state() == old(self).state().plus_clamped(
                AffectiveState::scaled_by(change, old(self).config_spec().empathy_factor as int),
            ),
            final(self).config_spec() == old(self).config_spec(),
            final(self).history_spec() == push_capped(
                old(self).history_spec(),
                details,
                EMOTION_HISTORY_CAPACITY as nat,
            ),
    {
        let e = self.config.empathy_factor;
        let blended = AffectiveState {
            valence: scale_toward_zero(change.valence, e),
            arousal: scale_toward_zero(change.arousal, e),
            dominance: scale_toward_zero(change.dominance, e),
            novelty: scale_toward_zero(change.novelty, e),
        };
        self.current_state.apply_change(blended);
        let ghost h = self.emotional_history@;
        self.emotional_history.push(details);
        if self.emotional_history.len() > EMOTION_HISTORY_CAPACITY {
            self.emotional_history.remove(0);
            assert(self.emotional_history@ =~= h.push(details).drop_first());
        }
    }

    /// Decays the state toward the baseline at the configured rate.
    pub fn regulate_emotion(&mut self)
        requires
            old(self).inv(),
        ensures
            final(self).inv(),
            final(self).state() == old(self).state().decayed(
                old(self).config_spec().baseline_state,
                old(self).config_spec().decay_rate,
            ),
            final(self).config_spec() == old(self).config_spec(),
            final(self).history_spec() == old(self).history_spec(),
    {
        let b = self.config.baseline_state;
        let r = self.config.decay_rate;
        self.current_state.decay(b, r);
    }

    /// Replaces the baseline that the state decays toward.
    pub fn set_baseline(&mut self, baseline: AffectiveState)
        requires
            old(self).inv(),
            baseline.wf(),
        ensures
            final(self).inv(),
            final(self).state() == old(self).state(),
            final(self).config_spec() == (AffectiveConfig {
                baseline_state: baseline,
                ..old(self).config_spec()
            }),
            final(self).history_spec() == old(self).history_spec(),
    {
        self.config.baseline_state = baseline;
    }

    /// A snapshot of the current state.
    pub fn current_state(&self) -> (r: AffectiveState)
        ensures
            r == self.state(),
    {
        self.current_state
    }

    /// The configuration.
    pub fn config(&self) -> (r: AffectiveConfig)
        ensures
            r == self.config_spec(),
    {
        self.config
    }

    /// The descriptions of the emotions last processed, oldest first.
    pub fn history(&self) -> (r: &Vec<String>)
        ensures
            r@ == self.history_spec(),
    {
        &self.emotional_history
    }
}

/// Words for valence in thousandths.
pub open spec fn valence_words(v: i64) -> Seq<char> {
    if v > 700 {
        "very positive"@
    } else if v > 300 {
        "positive"@
    } else if v < -700 {
        "very negative"@
    } else if v < -300 {
        "negative"@
    } else {
        "neutral"@
    }
}

/// Words for arousal in thousandths.
pub open spec fn arousal_words(a: i64) -> Seq<char> {
    if a > 800 {
        "very high energy"@
    } else if a > 600 {
        "high energy"@
    } else if a < 200 {
        "very low energy"@
    } else if a < 400 {
        "low energy"@
    } else {
        "moderate energy"@
    }
}

/// Words for dominance in thousandths.
pub open spec fn dominance_words(d: i64) -> Seq<char> {
    if d > 700 {
        "very high control"@
    } else if d > 300 {
        "in control"@
    } else if d < -700 {
        "very low control"@
    } else if d < -300 {
        "lacking control"@
    } else {
        "neutral control"@
    }
}

/// Words for novelty in thousandths.
pub open spec fn novelty_words(n: i64) -> Seq<char> {
    if n > 700 {
        "highly surprising"@
    } else if n > 300 {
        "surprising"@
    } else if n < -700 {
        "highly expected"@
    } else if n < -300 {
        "expected"@
    } else {
        "neutral"@
    }
}

/// One phrase for the overall feeling of valence, arousal and dominance.
pub open spec fn feeling_words(v: i64, a: i64, d: i64) -> Seq<char> {
    if v > 500 && a > 500 {
        "elated and energetic"@
    } else if v > 500 {
        "pleased and content"@
    } else if v < -500 && a > 600 {
        if d > 400 {
            "indignant and assertive"@
        } else {
            "anxious and distressed"@
        }
    } else if v < -500 {
        if d < -400 {
            "dejected and powerless"@
        } else {
            "somber and disappointed"@
        }
    } else if a > 700 {
        "highly alert and focused"@
    } else if a < 200 {
        "calm and relaxed"@
    } else {
        "calmly neutral"@
    }
}

/// Describes valence.
pub fn describe_valence(v: i64) -> (r: &'static str)
    ensures
        r@ == valence_words(v),
{
    if v > 700 {
        "very positive"
    } else if v > 300 {
        "positive"
    } else if v < -700 {
        "very negative"
    } else if v < -300 {
        "negative"
    } else {
        "neutral"
    }
}

/// Describes arousal.
pub fn describe_arousal(a: i64) -> (r: &'static str)
    ensures
        r@ == arousal_words(a),
{
    if a > 800 {
        "very high energy"
    } else if a > 600 {
        "high energy"
    } else if a < 200 {
        "very low energy"
    } else if a < 400 {
        "low energy"
    } else {
        "moderate energy"
    }
}

/// Describes dominance.
pub fn describe_dominance(d: i64) -> (r: &'static str)
    ensures
        r@ == dominance_words(d),
{
    if d > 700 {
        "very high control"
    } else if d > 300 {
        "in control"
    } else if d < -700 {
        "very low control"
    } else if d < -300 {
        "lacking control"
    } else {
        "neutral control"
    }
}

/// Describes novelty.
pub fn describe_novelty(n: i64) -> (r: &'static str)
    ensures
        r@ == novelty_words(n),
{
    if n > 700 {
        "highly surprising"
    } else if n > 300 {
        "surprising"
    } else if n < -700 {
        "highly expected"
    } else if n < -300 {
        "expected"
    } else {
        "neutral"
    }
}

/// Sums up how an affect state feels.
pub fn synthesize_feeling(v: i64, a: i64, d: i64) -> (r: &'static str)
    ensures
        r@ == feeling_words(v, a, d),
{
    if v > 500 && a > 500 {
        "elated and energetic"
    } else if v > 500 {
        "pleased and content"
    } else if v < -500 && a > 600 {
        if d > 400 {
            "indignant and assertive"
        } else {
            "anxious and distressed"
        }
    } else if v < -500 {
        if d < -400 {
            "dejected and powerless"
        } else {
            "somber and disappointed"
        }
    } else if a > 700 {
        "highly alert and focused"
    } else if a < 200 {
        "calm and relaxed"
    } else {
        "calmly neutral"
    }
}

} // verus!
