//! Trading signals with confluence analysis: per-timeframe analyses, an
//! optional language-model assessment, and the weighted confluence score.
//! Scores and prices are micro-units.
use vstd::prelude::*;

use crate::enums::{Direction, MarketRegime, Timeframe};
use crate::market_data::{spec_snapshot_error, IndicatorSnapshot};
use crate::orders::MICRO;
use crate::patterns::{spec_pattern_error, PatternHit};

verus! {

/// Technical analysis results for one timeframe.
#[derive(Debug)]
pub struct TimeframeAnalysis {
    pub timeframe: Timeframe,
    /// Milliseconds since the Unix epoch.
    pub timestamp: u64,
    /// Micro-units, minus ten to ten whole units.
    pub trend_score: i64,
    pub momentum_score: i64,
    /// Micro-units, zero to ten whole units.
    pub volatility_score: i64,
    pub volume_score: i64,
    pub pattern_count: u32,
    /// Micro-fraction, 0 to one whole unit.
    pub strongest_pattern_confidence: i64,
    pub bullish_indicators: u32,
    pub bearish_indicators: u32,
    pub neutral_indicators: u32,
    /// Micro-fraction weight for the confluence calculation, positive.
    pub timeframe_weight: i64,
}

/// The first rule a timeframe analysis violates, with its message.
pub open spec fn spec_analysis_error(a: TimeframeAnalysis) -> Option<Seq<char>> {
    if !(-10 * MICRO <= a.trend_score <= 10 * MICRO) {
        Some("Trend score must be between -10 and 10"@)
    } else if !(-10 * MICRO <= a.momentum_score <= 10 * MICRO) {
        Some("Momentum score must be between -10 and 10"@)
    } else if !(0 <= a.volatility_score <= 10 * MICRO) {
        Some("Volatility score must be between 0 and 10"@)
    } else if !(0 <= a.volume_score <= 10 * MICRO) {
        Some("Volume score must be between 0 and 10"@)
    } else if !(0 <= a.strongest_pattern_confidence <= MICRO) {
        Some("Pattern confidence must be between 0 and 1"@)
    } else if a.timeframe_weight <= 0 || a.timeframe_weight > MICRO {
        Some("Timeframe weight must be between 0 (exclusive) and 1"@)
    } else {
        None
    }
}

impl TimeframeAnalysis {
    /// Check the score ranges, returning the first violation's message,
    /// exactly as `spec_analysis_error` lists them.
    pub fn validate(&self) -> (r: Result<(), String>)
        ensures
            match r {
                Ok(()) => spec_analysis_error(*self) is None,
                Err(m) => spec_analysis_error(*self) matches Some(msg) && m@ == msg,
            },
    {
        if !(-10 * MICRO <= self.trend_score && self.trend_score <= 10 * MICRO) {
            return Err(String::from_str("Trend score must be between -10 and 10"));
        }
        if !(-10 * MICRO <= self.momentum_score && self.momentum_score <= 10 * MICRO) {
            return Err(String::from_str("Momentum score must be between -10 and 10"));
        }
        if !(0 <= self.volatility_score && self.volatility_score <= 10 * MICRO) {
            return Err(String::from_str("Volatility score must be between 0 and 10"));
        }
        if !(0 <= self.volume_score && self.volume_score <= 10 * MICRO) {
            return Err(String::from_str("Volume score must be between 0 and 10"));
        }
        if !(0 <= self.strongest_pattern_confidence && self.strongest_pattern_confidence
            <= MICRO) {
            return Err(String::from_str("Pattern confidence must be between 0 and 1"));
        }
        if self.timeframe_weight <= 0 || self.timeframe_weight > MICRO {
            return Err(String::from_str("Timeframe weight must be between 0 (exclusive) and 1"));
        }
        Ok(())
    }
}

/// Assessment produced by a language model.
#[derive(Debug)]
pub struct LlmAnalysis {
    pub model_id: String,
    /// Milliseconds since the Unix epoch.
    pub timestamp: u64,
    pub market_sentiment: String,
    pub key_insights: Vec<String>,
    pub risk_factors: Vec<String>,
    /// Micro-units, zero to ten whole units.
    pub bullish_score: i64,
    pub bearish_score: i64,
    /// Micro-fraction, 0 to one whole unit.
    pub confidence: i64,
    pub tokens_used: u32,
    pub latency_ms: u32,
    /// Micro-units of account currency; never negative.
    pub cost_usd: i64,
}

/// The first rule a language-model assessment violates, with its message.
pub open spec fn spec_llm_error(a: LlmAnalysis) -> Option<Seq<char>> {
    if !(0 <= a.bullish_score <= 10 * MICRO) {
        Some("Bullish score must be between 0 and 10"@)
    } else if !(0 <= a.bearish_score <= 10 * MICRO) {
        Some("Bearish score must be between 0 and 10"@)
    } else if !(0 <= a.confidence <= MICRO) {
        Some("Confidence must be between 0 and 1"@)
    } else if a.tokens_used == 0 {
        Some("Tokens used must be greater than 0"@)
    } else if a.latency_ms == 0 {
        Some("Latency must be greater than 0"@)
    } else if a.cost_usd < 0 {
        Some("Cost must be non-negative"@)
    } else {
        None
    }
}

impl LlmAnalysis {
    /// Check the assessment, returning the first violation's message,
    /// exactly as `spec_llm_error` lists them.
    pub fn validate(&self) -> (r: Result<(), String>)
        ensures
            match r {
                Ok(()) => spec_llm_error(*self) is None,
                Err(m) => spec_llm_error(*self) matches Some(msg) && m@ == msg,
            },
    {
        if !(0 <= self.bullish_score && self.bullish_score <= 10 * MICRO) {
            return Err(String::from_str("Bullish score must be between 0 and 10"));
        }
        if !(0 <= self.bearish_score && self.bearish_score <= 10 * MICRO) {
            return Err(String::from_str("Bearish score must be between 0 and 10"));
        }
        if !(0 <= self.confidence && self.confidence <= MICRO) {
            return Err(String::from_str("Confidence must be between 0 and 1"));
        }
        if self.tokens_used == 0 {
            return Err(String::from_str("Tokens used must be greater than 0"));
        }
        if self.latency_ms == 0 {
            return Err(String::from_str("Latency must be greater than 0"));
        }
        if self.cost_usd < 0 {
            return Err(String::from_str("Cost must be non-negative"));
        }
        Ok(())
    }
}

/// A trading signal with its confluence analysis.
#[derive(Debug)]
pub struct Signal {
    pub signal_id: String,
    pub symbol: String,
    /// Milliseconds since the Unix epoch.
    pub timestamp: u64,
    pub direction: Direction,
    /// Micro-units, zero to one hundred whole units.
    pub confluence_score: i64,
    /// Micro-fraction, 0 to one whole unit.
    pub confidence: i64,
    pub market_regime: MarketRegime,
    pub primary_timeframe: Timeframe,
    pub timeframe_analysis: Vec<(Timeframe, TimeframeAnalysis)>,
    pub patterns: Vec<PatternHit>,
    pub indicators: Vec<(Timeframe, IndicatorSnapshot)>,
    pub llm_analysis: Option<LlmAnalysis>,
    pub entry_price: Option<i64>,
    pub stop_loss: Option<i64>,
    pub take_profit: Option<i64>,
    /// Micro-units: reward per unit of risk.
    pub risk_reward_ratio: Option<i64>,
    /// Micro-percent, 0 to 10%.
    pub max_risk_pct: Option<i64>,
    pub reasoning: String,
    pub key_factors: Vec<String>,
    pub expires_at: Option<u64>,
    pub priority: u8,
}

/// The reward-to-risk ratio the price levels imply, in micro-units, with
/// truncation toward zero as the division computes it.
pub open spec fn spec_implied_ratio(reward: int, risk: int) -> int
    recommends
        risk > 0,
{
    if reward >= 0 {
        reward * (MICRO as int) / risk
    } else {
        -((-reward) * (MICRO as int) / risk)
    }
}

/// Whether the stated risk/reward ratio disagrees with what the price
/// levels imply by more than a tenth of a unit (checked only when all
/// three levels are present and the risk is positive).
pub open spec fn spec_ratio_mismatch(s: Signal) -> bool {
    s.risk_reward_ratio matches Some(rr) && (s.entry_price matches Some(entry)
        && s.stop_loss matches Some(stop) && s.take_profit matches Some(target) && ({
        let risk = if s.direction is Long {
            entry - stop
        } else {
            stop - entry
        };
        let reward = if s.direction is Long {
            target - entry
        } else {
            entry - target
        };
        risk > 0 && {
            let implied = spec_implied_ratio(reward, risk);
            let gap = if implied >= rr {
                implied - rr
            } else {
                rr - implied
            };
            gap > MICRO as int / 10
        }
    }))
}

/// The first entry of the per-timeframe analyses that fails validation,
/// with its message.
pub open spec fn spec_first_analysis_error(s: Seq<(Timeframe, TimeframeAnalysis)>) -> Option<
    Seq<char>,
>
    decreases s.len(),
{
    if s.len() == 0 {
        None
    } else if spec_analysis_error(s[0].1) is Some {
        spec_analysis_error(s[0].1)
    } else {
        spec_first_analysis_error(s.drop_first())
    }
}

/// The first pattern that fails validation, with its message.
pub open spec fn spec_first_pattern_error(s: Seq<PatternHit>) -> Option<Seq<char>>
    decreases s.len(),
{
    if s.len() == 0 {
        None
    } else if spec_pattern_error(s[0]) is Some {
        spec_pattern_error(s[0])
    } else {
        spec_first_pattern_error(s.drop_first())
    }
}

/// The first indicator snapshot that fails validation, with its message.
pub open spec fn spec_first_indicator_error(s: Seq<(Timeframe, IndicatorSnapshot)>) -> Option<
    Seq<char>,
>
    decreases s.len(),
{
    if s.len() == 0 {
        None
    } else if spec_snapshot_error(s[0].1) is Some {
        spec_snapshot_error(s[0].1)
    } else {
        spec_first_indicator_error(s.drop_first())
    }
}

/// The first rule a signal violates, with its message: the signal's own
/// ranges and price-level consistency first, then each per-timeframe
/// analysis, each pattern, each indicator snapshot, and the language-model
/// assessment, in that order.
pub open spec fn spec_signal_error(s: Signal) -> Option<Seq<char>> {
    if !(0 <= s.confluence_score <= 100 * MICRO) {
        Some("Confluence score must be between 0 and 100"@)
    } else if !(0 <= s.confidence <= MICRO) {
        Some("Confidence must be between 0 and 1"@)
    } else if s.confluence_score > 90 * MICRO && s.confidence * 10 < 8 * MICRO {
        Some("High confluence score requires high confidence"@)
    } else if s.entry_price matches Some(v) && v <= 0 {
        Some("Entry price must be positive"@)
    } else if s.stop_loss matches Some(v) && v <= 0 {
        Some("Stop loss must be positive"@)
    } else if s.take_profit matches Some(v) && v <= 0 {
        Some("Take profit must be positive"@)
    } else if s.risk_reward_ratio matches Some(rr) && rr <= 0 {
        Some("Risk/reward ratio must be positive"@)
    } else if spec_ratio_mismatch(s) {
        Some("Risk/reward ratio doesn't match price levels"@)
    } else if s.max_risk_pct matches Some(v) && !(0 <= v <= 10 * MICRO) {
        Some("Max risk percentage must be between 0 and 10"@)
    } else if !(1 <= s.priority <= 5) {
        Some("Priority must be between 1 and 5"@)
    } else if spec_first_analysis_error(s.timeframe_analysis@) is Some {
        spec_first_analysis_error(s.timeframe_analysis@)
    } else if spec_first_pattern_error(s.patterns@) is Some {
        spec_first_pattern_error(s.patterns@)
    } else if spec_first_indicator_error(s.indicators@) is Some {
        spec_first_indicator_error(s.indicators@)
    } else if s.llm_analysis matches Some(llm) && spec_llm_error(llm) is Some {
        spec_llm_error(s.llm_analysis->0)
    } else {
        None
    }
}

impl Signal {
    /// Check every signal rule, returning the first violation's message,
    /// exactly as `spec_signal_error` lists them.
    #[verifier::loop_isolation(false)]
    pub fn validate(&self) -> (r: Result<(), String>)
        ensures
            match r {
                Ok(()) => spec_signal_error(*self) is None,
                Err(m) => spec_signal_error(*self) matches Some(msg) && m@ == msg,
            },
    {
        if !(0 <= self.confluence_score && self.confluence_score <= 100 * MICRO) {
            return Err(String::from_str("Confluence score must be between 0 and 100"));
        }
        if !(0 <= self.confidence && self.confidence <= MICRO) {
            return Err(String::from_str("Confidence must be between 0 and 1"));
        }
        if self.confluence_score > 90 * MICRO && self.confidence * 10 < 8 * MICRO {
            return Err(String::from_str("High confluence score requires high confidence"));
        }
        if match self.entry_price {
            Some(v) => v <= 0,
            None => false,
        } {
            return Err(String::from_str("Entry price must be positive"));
        }
        if match self.stop_loss {
            Some(v) => v <= 0,
            None => false,
        } {
            return Err(String::from_str("Stop loss must be positive"));
        }
        if match self.take_profit {
            Some(v) => v <= 0,
            None => false,
        } {
            return Err(String::from_str("Take profit must be positive"));
        }
        if match self.risk_reward_ratio {
            Some(rr) => rr <= 0,
            None => false,
        } {
            return Err(String::from_str("Risk/reward ratio must be positive"));
        }
        let ratio_mismatch: bool = match (self.risk_reward_ratio, self.entry_price, self.stop_loss,
            self.take_profit) {
            (Some(rr), Some(entry), Some(stop), Some(target)) => {
                let risk: i128 = match self.direction {
                    Direction::Long => entry as i128 - stop as i128,
                    Direction::Short => stop as i128 - entry as i128,
                };
                let reward: i128 = match self.direction {
                    Direction::Long => target as i128 - entry as i128,
                    Direction::Short => entry as i128 - target as i128,
                };
                proof {
                    assert(-36893488147419103232int <= reward as int <= 36893488147419103232int);
                }
                let mismatch: bool = if risk > 0 {
                    let implied: i128 = if reward >= 0 {
                        reward * 1000000i128 / risk
                    } else {
                        -((-reward) * 1000000i128 / risk)
                    };
                    let gap: i128 = if implied >= rr as i128 {
                        implied - rr as i128
                    } else {
                        rr as i128 - implied
                    };
                    proof {
                        vstd::arithmetic::div_mod::lemma_div_pos_is_pos(
                            (if reward >= 0 {
                                reward as int
                            } else {
                                -(reward as int)
                            }) * 1000000,
                            risk as int,
                        );
                        assert(implied as int == spec_implied_ratio(reward as int, risk as int));
                        assert((gap > (MICRO as i128) / 10) == spec_ratio_mismatch(*self));
                    }
                    gap > (MICRO as i128) / 10
                } else {
                    proof {
                        assert(!spec_ratio_mismatch(*self));
                    }
                    false
                };
                mismatch
            },
            _ => {
                proof {
                    assert(!spec_ratio_mismatch(*self));
                }
                false
            },
        };
        proof {
            assert(ratio_mismatch == spec_ratio_mismatch(*self));
        }
        if ratio_mismatch {
            return Err(String::from_str("Risk/reward ratio doesn't match price levels"));
        }
        if match self.max_risk_pct {
            Some(v) => !(0 <= v && v <= 10 * MICRO),
            None => false,
        } {
            return Err(String::from_str("Max risk percentage must be between 0 and 10"));
        }
        if !(1 <= self.priority && self.priority <= 5) {
            return Err(String::from_str("Priority must be between 1 and 5"));
        }
        let n = self.timeframe_analysis.len();
        let mut i: usize = 0;
        proof {
            assert(self.timeframe_analysis@.subrange(0, n as int) =~= self.timeframe_analysis@);
        }
        while i < n
            invariant
                n == self.timeframe_analysis@.len(),
                i <= n,
                forall|j: int|
                    0 <= j < i ==> spec_analysis_error(
                        (#[trigger] self.timeframe_analysis@[j]).1,
                    ) is None,
                spec_first_analysis_error(self.timeframe_analysis@) == spec_first_analysis_error(
                    self.timeframe_analysis@.subrange(i as int, n as int),
                ),
            decreases n - i,
        {
            let ghost tail = self.timeframe_analysis@.subrange(i as int, n as int);
            match self.timeframe_analysis[i].1.validate() {
                Ok(()) => {},
                Err(m) => {
                    proof {
                        assert(tail[0] == self.timeframe_analysis@[i as int]);
                    }
                    return Err(m);
                },
            }
            proof {
                assert(tail[0] == self.timeframe_analysis@[i as int]);
                assert(tail.drop_first() =~= self.timeframe_analysis@.subrange(
                    i as int + 1,
                    n as int,
                ));
            }
            i = i + 1;
        }
        proof {
            assert(self.timeframe_analysis@.subrange(n as int, n as int).len() == 0);
        }
        let np = self.patterns.len();
        let mut p: usize = 0;
        proof {
            assert(self.patterns@.subrange(0, np as int) =~= self.patterns@);
        }
        while p < np
            invariant
                np == self.patterns@.len(),
                p <= np,
                spec_first_pattern_error(self.patterns@) == spec_first_pattern_error(
                    self.patterns@.subrange(p as int, np as int),
                ),
            decreases np - p,
        {
            let ghost tail = self.patterns@.subrange(p as int, np as int);
            match self.patterns[p].validate() {
                Ok(()) => {},
                Err(m) => {
                    proof {
                        assert(tail[0] == self.patterns@[p as int]);
                    }
                    return Err(m);
                },
            }
            proof {
                assert(tail[0] == self.patterns@[p as int]);
                assert(tail.drop_first() =~= self.patterns@.subrange(p as int + 1, np as int));
            }
            p = p + 1;
        }
        proof {
            assert(self.patterns@.subrange(np as int, np as int).len() == 0);
        }
        let ni = self.indicators.len();
        let mut q: usize = 0;
        proof {
            assert(self.indicators@.subrange(0, ni as int) =~= self.indicators@);
        }
        while q < ni
            invariant
                ni == self.indicators@.len(),
                q <= ni,
                spec_first_indicator_error(self.indicators@) == spec_first_indicator_error(
                    self.indicators@.subrange(q as int, ni as int),
                ),
            decreases ni - q,
        {
            let ghost tail = self.indicators@.subrange(q as int, ni as int);
            match self.indicators[q].1.validate() {
                Ok(()) => {},
                Err(m) => {
                    proof {
                        assert(tail[0] == self.indicators@[q as int]);
                    }
                    return Err(m);
                },
            }
            proof {
                assert(tail[0] == self.indicators@[q as int]);
                assert(tail.drop_first() =~= self.indicators@.subrange(q as int + 1, ni as int));
            }
            q = q + 1;
        }
        proof {
            assert(self.indicators@.subrange(ni as int, ni as int).len() == 0);
        }
        match &self.llm_analysis {
            Some(llm) => match llm.validate() {
                Ok(()) => {},
                Err(m) => {
                    return Err(m);
                },
            },
            None => {},
        }
        Ok(())
    }
}

/// The shifted weighted sum of the trend and momentum scores: each term is
/// moved up by twenty whole units so that it cannot be negative for
/// validated analyses, weighted by the timeframe weight.
pub open spec fn spec_weighted_sum_shifted(s: Seq<(Timeframe, TimeframeAnalysis)>) -> int
    decreases s.len(),
{
    if s.len() == 0 {
        0
    } else {
        spec_weighted_sum_shifted(s.drop_last()) + (s.last().1.trend_score
            + s.last().1.momentum_score + 20 * MICRO) * s.last().1.timeframe_weight
    }
}

/// The sum of the timeframe weights.
pub open spec fn spec_total_weight(s: Seq<(Timeframe, TimeframeAnalysis)>) -> int
    decreases s.len(),
{
    if s.len() == 0 {
        0
    } else {
        spec_total_weight(s.drop_last()) + s.last().1.timeframe_weight
    }
}

/// Every analysis in the sequence passes validation.
pub open spec fn spec_analyses_valid(s: Seq<(Timeframe, TimeframeAnalysis)>) -> bool {
    forall|i: int| 0 <= i < s.len() ==> spec_analysis_error((#[trigger] s[i]).1) is None
}

/// The weighted confluence score of a signal in micro-units: the weighted
/// mean of trend plus momentum, mapped from its minus-twenty-to-twenty
/// range onto zero to one hundred and clamped there; the signal's own
/// confluence score where there are no analyses or no weight.
pub open spec fn spec_weighted_confluence(s: Signal) -> int {
    if s.timeframe_analysis@.len() == 0 {
        s.confluence_score as int
    } else if spec_total_weight(s.timeframe_analysis@) == 0 {
        s.confluence_score as int
    } else {
        let ratio = spec_weighted_sum_shifted(s.timeframe_analysis@) / spec_total_weight(
            s.timeframe_analysis@,
        );
        let normalized = (ratio - 10 * MICRO) * 5;
        if normalized < 0 {
            0
        } else if normalized > 100 * MICRO {
            100 * MICRO as int
        } else {
            normalized
        }
    }
}

/// Under valid analyses the shifted weighted sum and the total weight are
/// bounded by small multiples of the length, and both are non-negative.
proof fn lemma_weighted_sums_bounds(s: Seq<(Timeframe, TimeframeAnalysis)>)
    requires
        spec_analyses_valid(s),
    ensures
        0 <= spec_total_weight(s) <= s.len() as int * (MICRO as int),
        0 <= spec_weighted_sum_shifted(s) <= s.len() as int * 40000000000000int,
        spec_weighted_sum_shifted(s) <= spec_total_weight(s) * (40 * MICRO as int),
    decreases s.len(),
{
    if s.len() > 0 {
        assert(forall|i: int| 0 <= i < s.len() - 1 ==> s.drop_last()[i] == s[i]);
        lemma_weighted_sums_bounds(s.drop_last());
        let a = s.last().1;
        assert(spec_analysis_error(a) is None);
        let term = (a.trend_score + a.momentum_score + 20 * MICRO) as int * a.timeframe_weight;
        assert(0 <= term <= 40000000000000int && term <= a.timeframe_weight as int * (40
            * MICRO as int)) by (nonlinear_arith)
            requires
                0 <= (a.trend_score + a.momentum_score + 20 * MICRO) as int <= 40000000int,
                0 < a.timeframe_weight <= 1000000int,
                term == (a.trend_score + a.momentum_score + 20 * MICRO) as int
                    * a.timeframe_weight,
        ;
        assert((s.len() as int) * (MICRO as int) == (s.len() as int - 1) * (MICRO as int)
            + MICRO as int) by (nonlinear_arith);
        assert((s.len() as int) * 40000000000000int == (s.len() as int - 1) * 40000000000000int
            + 40000000000000int) by (nonlinear_arith);
        assert((spec_total_weight(s.drop_last()) + a.timeframe_weight) * (40 * MICRO as int)
            == spec_total_weight(s.drop_last()) * (40 * MICRO as int) + a.timeframe_weight as int
            * (40 * MICRO as int)) by (nonlinear_arith);
    }
}

impl Signal {
    /// The weighted confluence score, exactly as `spec_weighted_confluence`
    /// states it. Asks for validated analyses so that the fixed-point
    /// sums stay in range.
    pub fn get_weighted_confluence(&self) -> (r: i64)
        requires
            spec_analyses_valid(self.timeframe_analysis@),
            self.timeframe_analysis@.len() <= 1000000,
            0 <= self.confluence_score <= 100 * MICRO,
        ensures
            r == spec_weighted_confluence(*self),
    {
        let n = self.timeframe_analysis.len();
        if n == 0 {
            return self.confluence_score;
        }
        let mut total_weight: i64 = 0;
        let mut weighted_sum: i128 = 0;
        let mut i: usize = 0;
        proof {
            assert(self.timeframe_analysis@.subrange(0, 0) =~= Seq::<
                (Timeframe, TimeframeAnalysis),
            >::empty());
        }
        while i < n
            invariant
                n == self.timeframe_analysis@.len(),
                n <= 1000000,
                spec_analyses_valid(self.timeframe_analysis@),
                i <= n,
                total_weight as int == spec_total_weight(
                    self.timeframe_analysis@.subrange(0, i as int),
                ),
                weighted_sum as int == spec_weighted_sum_shifted(
                    self.timeframe_analysis@.subrange(0, i as int),
                ),
                0 <= total_weight as int <= i as int * (MICRO as int),
                0 <= weighted_sum as int <= i as int * 40000000000000int,
            decreases n - i,
        {
            let ghost prefix = self.timeframe_analysis@.subrange(0, i as int);
            let ghost next_prefix = self.timeframe_analysis@.subrange(0, i as int + 1);
            proof {
                assert(next_prefix.drop_last() =~= prefix);
                assert(next_prefix.last() == self.timeframe_analysis@[i as int]);
                assert(spec_analysis_error(self.timeframe_analysis@[i as int].1) is None);
                assert(forall|j: int| 0 <= j < i + 1 ==> next_prefix[j] == self.timeframe_analysis@[j]);
                assert(spec_analyses_valid(next_prefix));
                lemma_weighted_sums_bounds(next_prefix);
            }
            let a = &self.timeframe_analysis[i].1;
            let term: i128 = ((a.trend_score as i128) + (a.momentum_score as i128) + (20 * MICRO)
                as i128) * (a.timeframe_weight as i128);
            proof {
                assert(0 <= (a.trend_score + a.momentum_score + 20 * MICRO) as int * (
                a.timeframe_weight as int) <= 40000000000000int) by (nonlinear_arith)
                    requires
                        0 <= (a.trend_score + a.momentum_score + 20 * MICRO) as int
                            <= 40000000int,
                        0 < a.timeframe_weight <= 1000000int,
                ;
            }
            total_weight = total_weight + a.timeframe_weight;
            weighted_sum = weighted_sum + term;
            i = i + 1;
        }
        proof {
            assert(self.timeframe_analysis@.subrange(0, n as int) =~= self.timeframe_analysis@);
        }
        if total_weight == 0 {
            return self.confluence_score;
        }
        let ratio: i128 = weighted_sum / (total_weight as i128);
        proof {
            lemma_weighted_sums_bounds(self.timeframe_analysis@);
            vstd::arithmetic::div_mod::lemma_div_pos_is_pos(
                weighted_sum as int,
                total_weight as int,
            );
            vstd::arithmetic::div_mod::lemma_div_is_ordered(
                weighted_sum as int,
                total_weight as int * (40 * MICRO as int),
                total_weight as int,
            );
            vstd::arithmetic::div_mod::lemma_div_multiples_vanish(
                40 * MICRO as int,
                total_weight as int,
            );
        }
        let normalized: i128 = (ratio - (10 * MICRO) as i128) * 5;
        let clamped: i128 = if normalized < 0 {
            0
        } else if normalized > (100 * MICRO) as i128 {
            (100 * MICRO) as i128
        } else {
            normalized
        };
        clamped as i64
    }
}

} // verus!
