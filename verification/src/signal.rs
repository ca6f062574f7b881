//! The directional signal: a fast move on the reference venue while the
//! prediction market's quotes are stale.
//!
//! Returns, thresholds and confidence are fixed-point units; staleness is in
//! milliseconds, `i64::MAX` where the prediction market was never heard from.

use crate::events::{side_label, side_label_text, SignalEvent, TradeSide};
use crate::text::{int_text, magnitude_of, magnitude_text, push_int, push_magnitude};
use vstd::prelude::*;
use vstd::string::*;

verus! {

/// Confidence that a one-second move with lagging quotes contributes.
pub const MOVE_SCORE: i64 = 50_000_000;

/// Confidence that a three-second move in the same direction adds.
pub const CONFIRM_SCORE: i64 = 30_000_000;

/// Thresholds of the evaluator.
#[derive(Debug, Clone, Copy, PartialEq, Eq, Structural)]
pub struct SignalConfig {
    /// Magnitude a one-second return must exceed.
    pub binance_return_threshold_1s: i64,
    /// Magnitude a three-second return must exceed.
    pub binance_return_threshold_3s: i64,
    /// Staleness, in milliseconds, beyond which the prediction market lags.
    pub poly_lag_threshold_ms: u64,
    /// Confidence below which no side is recommended.
    pub min_confidence: i64,
}

/// One clause of the decision rule that fired, with the numbers it saw.
#[derive(Debug, Clone, Copy, PartialEq, Eq, Structural)]
pub enum SignalReason {
    /// The one-second return exceeded its threshold upwards while quotes lagged.
    UpMove { ret_1s: i128, lag_ms: i64 },
    /// The one-second return exceeded its threshold downwards while quotes lagged.
    DownMove { ret_1s: i128, lag_ms: i64 },
    /// The three-second return confirms an upward move.
    UpConfirmed { ret_3s: i128 },
    /// The three-second return confirms a downward move.
    DownConfirmed { ret_3s: i128 },
}

/// What the evaluator last concluded.
#[derive(Debug, Clone)]
pub struct SignalState {
    pub suggested_side: Option<TradeSide>,
    pub confidence: i64,
    pub reasons: Vec<SignalReason>,
    pub binance_ret_1s: i128,
    pub binance_ret_3s: i128,
    pub poly_lag_ms: i64,
}

/// The side that the one-second return and the staleness point to.
pub open spec fn first_side(config: SignalConfig, ret_1s: int, lag_ms: int) -> Option<TradeSide> {
    if ret_1s > config.binance_return_threshold_1s && lag_ms > config.poly_lag_threshold_ms {
        Some(TradeSide::Yes)
    } else if ret_1s < -config.binance_return_threshold_1s && lag_ms
        > config.poly_lag_threshold_ms {
        Some(TradeSide::No)
    } else {
        None
    }
}

/// Whether the three-second return confirms the side.
pub open spec fn confirmed(config: SignalConfig, side: Option<TradeSide>, ret_3s: int) -> bool {
    match side {
        Some(TradeSide::Yes) => ret_3s > config.binance_return_threshold_3s,
        Some(TradeSide::No) => ret_3s < -config.binance_return_threshold_3s,
        None => false,
    }
}

/// The score before the minimum confidence is applied.
pub open spec fn raw_score(config: SignalConfig, ret_1s: int, ret_3s: int, lag_ms: int) -> int {
    let side = first_side(config, ret_1s, lag_ms);
    (if side is Some {
        MOVE_SCORE as int
    } else {
        0
    }) + (if confirmed(config, side, ret_3s) {
        CONFIRM_SCORE as int
    } else {
        0
    })
}

/// Whether the score reaches the minimum confidence.
pub open spec fn passes(config: SignalConfig, ret_1s: int, ret_3s: int, lag_ms: int) -> bool {
    raw_score(config, ret_1s, ret_3s, lag_ms) >= config.min_confidence
}

/// The recommended side.
pub open spec fn signal_side(config: SignalConfig, ret_1s: int, ret_3s: int, lag_ms: int) -> Option<
    TradeSide,
> {
    if passes(config, ret_1s, ret_3s, lag_ms) {
        first_side(config, ret_1s, lag_ms)
    } else {
        None
    }
}

/// The confidence of the recommendation.
pub open spec fn signal_confidence(config: SignalConfig, ret_1s: int, ret_3s: int, lag_ms: int) -> int {
    if passes(config, ret_1s, ret_3s, lag_ms) {
        raw_score(config, ret_1s, ret_3s, lag_ms)
    } else {
        0
    }
}

/// The clauses that fired, in the order of the rule.
pub open spec fn signal_reasons(config: SignalConfig, ret_1s: i128, ret_3s: i128, lag_ms: i64) -> Seq<
    SignalReason,
> {
    let side = first_side(config, ret_1s as int, lag_ms as int);
    if !passes(config, ret_1s as int, ret_3s as int, lag_ms as int) {
        Seq::empty()
    } else {
        (match side {
            Some(TradeSide::Yes) => seq![SignalReason::UpMove { ret_1s, lag_ms }],
            Some(TradeSide::No) => seq![SignalReason::DownMove { ret_1s, lag_ms }],
            None => Seq::empty(),
        }) + (if confirmed(config, side, ret_3s as int) {
            match side {
                Some(TradeSide::Yes) => seq![SignalReason::UpConfirmed { ret_3s }],
                _ => seq![SignalReason::DownConfirmed { ret_3s }],
            }
        } else {
            Seq::empty()
        })
    }
}

impl SignalState {
    /// No recommendation, nothing seen.
    pub fn new() -> (s: Self)
        ensures
            s.suggested_side is None,
            s.confidence == 0,
            s.reasons@.len() == 0,
            s.binance_ret_1s == 0,
            s.binance_ret_3s == 0,
            s.poly_lag_ms == 0,
    {
        SignalState {
            suggested_side: None,
            confidence: 0,
            reasons: Vec::new(),
            binance_ret_1s: 0,
            binance_ret_3s: 0,
            poly_lag_ms: 0,
        }
    }
}

/// Evaluates the decision rule on a one-second return, a three-second return
/// and the prediction market's staleness.
pub fn evaluate(config: &SignalConfig, ret_1s: i128, ret_3s: i128, lag_ms: i64) -> (state:
    SignalState)
    ensures
        state.suggested_side == signal_side(*config, ret_1s as int, ret_3s as int, lag_ms as int),
        state.confidence == signal_confidence(
            *config,
            ret_1s as int,
            ret_3s as int,
            lag_ms as int,
        ),
        state.reasons@ == signal_reasons(*config, ret_1s, ret_3s, lag_ms),
        state.binance_ret_1s == ret_1s,
        state.binance_ret_3s == ret_3s,
        state.poly_lag_ms == lag_ms,
{
    let tau1 = config.binance_return_threshold_1s as i128;
    let tau3 = config.binance_return_threshold_3s as i128;
    let lagging = lag_ms >= 0 && (lag_ms as u64) > config.poly_lag_threshold_ms;
    let mut score: i64 = 0;
    let mut side: Option<TradeSide> = None;
    let mut reasons: Vec<SignalReason> = Vec::new();
    if ret_1s > tau1 && lagging {
        score = MOVE_SCORE;
        side = Some(TradeSide::Yes);
        reasons.push(SignalReason::UpMove { ret_1s, lag_ms });
    } else if ret_1s < -tau1 && lagging {
        score = MOVE_SCORE;
        side = Some(TradeSide::No);
        reasons.push(SignalReason::DownMove { ret_1s, lag_ms });
    }
    match side {
        Some(TradeSide::Yes) => {
            if ret_3s > tau3 {
                score = score + CONFIRM_SCORE;
                reasons.push(SignalReason::UpConfirmed { ret_3s });
            }
        },
        Some(TradeSide::No) => {
            if ret_3s < -tau3 {
                score = score + CONFIRM_SCORE;
                reasons.push(SignalReason::DownConfirmed { ret_3s });
            }
        },
        None => {},
    }
    if score < config.min_confidence {
        side = None;
        score = 0;
        reasons = Vec::new();
    }
    proof {
        assert(reasons@ =~= signal_reasons(*config, ret_1s, ret_3s, lag_ms));
    }
    SignalState {
        suggested_side: side,
        confidence: score,
        reasons,
        binance_ret_1s: ret_1s,
        binance_ret_3s: ret_3s,
        poly_lag_ms: lag_ms,
    }
}

/// A recommended side carries at least the minimum confidence, and no side
/// carries none.
pub proof fn law_confidence(config: SignalConfig, ret_1s: int, ret_3s: int, lag_ms: int)
    ensures
        signal_side(config, ret_1s, ret_3s, lag_ms) is Some ==> signal_confidence(
            config,
            ret_1s,
            ret_3s,
            lag_ms,
        ) >= config.min_confidence,
        signal_side(config, ret_1s, ret_3s, lag_ms) is None ==> signal_confidence(
            config,
            ret_1s,
            ret_3s,
            lag_ms,
        ) == 0,
        0 <= signal_confidence(config, ret_1s, ret_3s, lag_ms) <= MOVE_SCORE + CONFIRM_SCORE,
{
}

/// Without lag there is no recommendation, whatever the returns.
pub proof fn law_no_lag_no_signal(config: SignalConfig, ret_1s: int, ret_3s: int, lag_ms: int)
    requires
        lag_ms <= config.poly_lag_threshold_ms,
    ensures
        signal_side(config, ret_1s, ret_3s, lag_ms) is None,
        signal_confidence(config, ret_1s, ret_3s, lag_ms) == 0,
{
}

/// The magnitude of a return as a percentage with four decimals.
pub open spec fn percent_text(ret: i128) -> Seq<char> {
    magnitude_text(false, magnitude_of(ret as int), 2, 4)
}

/// A reason in words: the clause that fired, the magnitude of the return as
/// a percentage with four decimals, and the lag.
pub open spec fn signal_reason_text(reason: SignalReason) -> Seq<char> {
    match reason {
        SignalReason::UpMove { ret_1s, lag_ms } => "BTC up "@ + percent_text(ret_1s)
            + "% in 1s, Poly lag "@ + int_text(lag_ms as int) + "ms"@,
        SignalReason::DownMove { ret_1s, lag_ms } => "BTC down "@ + percent_text(ret_1s)
            + "% in 1s, Poly lag "@ + int_text(lag_ms as int) + "ms"@,
        SignalReason::UpConfirmed { ret_3s } => "3s uptrend confirms: "@ + percent_text(ret_3s)
            + "%"@,
        SignalReason::DownConfirmed { ret_3s } => "3s downtrend confirms: "@ + percent_text(ret_3s)
            + "%"@,
    }
}

fn push_percent(out: &mut String, ret: i128)
    ensures
        final(out)@ == old(out)@ + percent_text(ret),
{
    let magnitude: u128 = if ret == i128::MIN {
        0x8000_0000_0000_0000_0000_0000_0000_0000
    } else if ret < 0 {
        (-ret) as u128
    } else {
        ret as u128
    };
    push_magnitude(out, false, magnitude, 2, 4);
}

impl SignalReason {
    /// The reason in words.
    pub fn describe(&self) -> (text: String)
        ensures
            text@ == signal_reason_text(*self),
    {
        match *self {
            SignalReason::UpMove { ret_1s, lag_ms } => {
                let mut t = String::from_str("BTC up ");
                push_percent(&mut t, ret_1s);
                t.append("% in 1s, Poly lag ");
                push_int(&mut t, lag_ms as i128);
                t.append("ms");
                t
            },
            SignalReason::DownMove { ret_1s, lag_ms } => {
                let mut t = String::from_str("BTC down ");
                push_percent(&mut t, ret_1s);
                t.append("% in 1s, Poly lag ");
                push_int(&mut t, lag_ms as i128);
                t.append("ms");
                t
            },
            SignalReason::UpConfirmed { ret_3s } => {
                let mut t = String::from_str("3s uptrend confirms: ");
                push_percent(&mut t, ret_3s);
                t.append("%");
                t
            },
            SignalReason::DownConfirmed { ret_3s } => {
                let mut t = String::from_str("3s downtrend confirms: ");
                push_percent(&mut t, ret_3s);
                t.append("%");
                t
            },
        }
    }
}

/// Whether two states hold the same: side, confidence, reasons, and the
/// returns and lag that they were concluded from.
pub open spec fn same_signal(a: &SignalState, b: &SignalState) -> bool {
    &&& a.suggested_side == b.suggested_side
    &&& a.confidence == b.confidence
    &&& a.reasons@ == b.reasons@
    &&& a.binance_ret_1s == b.binance_ret_1s
    &&& a.binance_ret_3s == b.binance_ret_3s
    &&& a.poly_lag_ms == b.poly_lag_ms
}

/// Whether an event is the broadcast of a state at `now_ms`: the label of its
/// side, its confidence, its reasons in words and in order, and the returns
/// and lag that it was concluded from.
pub open spec fn event_shows(ev: &SignalEvent, state: &SignalState, now_ms: i64) -> bool {
    &&& ev.t_recv_ms == now_ms
    &&& ev.suggested_side@ == side_label(state.suggested_side)
    &&& ev.confidence == state.confidence
    &&& ev.reasons@.len() == state.reasons@.len()
    &&& forall|i: int|
        0 <= i < ev.reasons@.len() ==> (#[trigger] ev.reasons@[i])@ == signal_reason_text(
            state.reasons@[i],
        )
    &&& ev.binance_ret_1s == state.binance_ret_1s
    &&& ev.binance_ret_3s == state.binance_ret_3s
    &&& ev.poly_lag_ms == state.poly_lag_ms
}

impl SignalState {
    /// A copy of the state.
    pub fn duplicate(&self) -> (s: Self)
        ensures
            s.suggested_side == self.suggested_side,
            s.confidence == self.confidence,
            s.reasons@ == self.reasons@,
            s.binance_ret_1s == self.binance_ret_1s,
            s.binance_ret_3s == self.binance_ret_3s,
            s.poly_lag_ms == self.poly_lag_ms,
    {
        let mut reasons: Vec<SignalReason> = Vec::new();
        let mut i: usize = 0;
        while i < self.reasons.len()
            invariant
                0 <= i <= self.reasons@.len(),
                reasons@ == self.reasons@.subrange(0, i as int),
            decreases self.reasons@.len() - i,
        {
            reasons.push(self.reasons[i]);
            proof {
                assert(reasons@ =~= self.reasons@.subrange(0, i + 1));
            }
            i = i + 1;
        }
        proof {
            assert(self.reasons@.subrange(0, i as int) =~= self.reasons@);
        }
        SignalState {
            suggested_side: self.suggested_side,
            confidence: self.confidence,
            reasons,
            binance_ret_1s: self.binance_ret_1s,
            binance_ret_3s: self.binance_ret_3s,
            poly_lag_ms: self.poly_lag_ms,
        }
    }

    /// The reasons in words, in order.
    pub fn reason_texts(&self) -> (texts: Vec<String>)
        ensures
            texts@.len() == self.reasons@.len(),
            forall|i: int|
                0 <= i < texts@.len() ==> (#[trigger] texts@[i])@ == signal_reason_text(
                    self.reasons@[i],
                ),
    {
        let mut texts: Vec<String> = Vec::new();
        let mut i: usize = 0;
        while i < self.reasons.len()
            invariant
                0 <= i <= self.reasons@.len(),
                texts@.len() == i,
                forall|k: int|
                    0 <= k < i ==> (#[trigger] texts@[k])@ == signal_reason_text(
                        self.reasons@[k],
                    ),
            decreases self.reasons@.len() - i,
        {
            texts.push(self.reasons[i].describe());
            i = i + 1;
        }
        texts
    }

    /// The event to broadcast for this state at `now_ms`: one where a side is
    /// recommended, none otherwise.
    pub fn event(&self, now_ms: i64) -> (e: Option<SignalEvent>)
        ensures
            e is Some <==> self.suggested_side is Some,
            e matches Some(ev) ==> event_shows(&ev, self, now_ms),
    {
        match self.suggested_side {
            None => None,
            Some(_) => Some(
                SignalEvent {
                    t_recv_ms: now_ms,
                    suggested_side: side_label_text(self.suggested_side),
                    confidence: self.confidence,
                    reasons: self.reason_texts(),
                    binance_ret_1s: self.binance_ret_1s,
                    binance_ret_3s: self.binance_ret_3s,
                    poly_lag_ms: self.poly_lag_ms,
                },
            ),
        }
    }
}

/// A return that is missing counts as zero.
pub open spec fn return_or_zero(ret: Option<i128>) -> i128 {
    match ret {
        Some(r) => r,
        None => 0,
    }
}

/// The signal component: its thresholds and what it last concluded.
pub struct SignalService {
    config: SignalConfig,
    signal_state: SignalState,
}

impl SignalService {
    /// The thresholds.
    pub closed spec fn thresholds(&self) -> SignalConfig {
        self.config
    }

    /// What the component last concluded.
    pub closed spec fn state(&self) -> SignalState {
        self.signal_state
    }

    /// A component that has concluded nothing yet.
    pub fn new(config: SignalConfig) -> (s: Self)
        ensures
            s.thresholds() == config,
            s.state().suggested_side is None,
            s.state().confidence == 0,
            s.state().reasons@.len() == 0,
            s.state().binance_ret_1s == 0,
            s.state().binance_ret_3s == 0,
            s.state().poly_lag_ms == 0,
    {
        SignalService { config, signal_state: SignalState::new() }
    }

    /// What the component last concluded.
    pub fn get_signal_state(&self) -> (s: SignalState)
        ensures
            s.suggested_side == self.state().suggested_side,
            s.confidence == self.state().confidence,
            s.reasons@ == self.state().reasons@,
            s.binance_ret_1s == self.state().binance_ret_1s,
            s.binance_ret_3s == self.state().binance_ret_3s,
            s.poly_lag_ms == self.state().poly_lag_ms,
    {
        self.signal_state.duplicate()
    }

    /// Evaluates the rule on the returns over one and three seconds (a
    /// missing return counts as zero) and the prediction market's staleness,
    /// remembers the conclusion, and returns it together with the event to
    /// broadcast, which there is only where a side is recommended.
    pub fn compute_signal(
        &mut self,
        ret_1s: Option<i128>,
        ret_3s: Option<i128>,
        lag_ms: i64,
        now_ms: i64,
    ) -> (r: (SignalState, Option<SignalEvent>))
        ensures
            final(self).thresholds() == old(self).thresholds(),
            r.0.suggested_side == signal_side(
                old(self).thresholds(),
                return_or_zero(ret_1s) as int,
                return_or_zero(ret_3s) as int,
                lag_ms as int,
            ),
            r.0.confidence == signal_confidence(
                old(self).thresholds(),
                return_or_zero(ret_1s) as int,
                return_or_zero(ret_3s) as int,
                lag_ms as int,
            ),
            r.0.reasons@ == signal_reasons(
                old(self).thresholds(),
                return_or_zero(ret_1s),
                return_or_zero(ret_3s),
                lag_ms,
            ),
            r.0.binance_ret_1s == return_or_zero(ret_1s),
            r.0.binance_ret_3s == return_or_zero(ret_3s),
            r.0.poly_lag_ms == lag_ms,
            same_signal(&final(self).state(), &r.0),
            r.1 is Some <==> r.0.suggested_side is Some,
            r.1 matches Some(ev) ==> event_shows(&ev, &r.0, now_ms),
    {
        let r1 = match ret_1s {
            Some(r) => r,
            None => 0,
        };
        let r3 = match ret_3s {
            Some(r) => r,
            None => 0,
        };
        let state = evaluate(&self.config, r1, r3, lag_ms);
        let event = state.event(now_ms);
        self.signal_state = state.duplicate();
        (state, event)
    }
}

impl Default for SignalState {
    fn default() -> (s: Self)
        ensures
            s.suggested_side is None,
            s.confidence == 0,
            s.reasons@.len() == 0,
            s.binance_ret_1s == 0,
            s.binance_ret_3s == 0,
            s.poly_lag_ms == 0,
    {
        SignalState::new()
    }
}

} // verus!
