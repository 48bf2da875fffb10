//! Detected chart patterns and per-symbol pattern collections, with their
//! validation rules and summary statistics. Prices, confidences and
//! strengths are micro-units.
use vstd::prelude::*;

use crate::enums::{PatternType, Timeframe};
use crate::external::current_millis;
use crate::orders::MICRO;

verus! {

/// One detected pattern with its confidence and price levels.
#[derive(Debug)]
pub struct PatternHit {
    pub pattern_id: String,
    pub pattern_type: PatternType,
    pub symbol: String,
    pub timeframe: Timeframe,
    /// Milliseconds since the Unix epoch.
    pub timestamp: u64,
    /// Micro-fraction, 0 to one whole unit.
    pub confidence: i64,
    /// Micro-units, 0 to ten whole units.
    pub strength: i64,
    pub entry_price: Option<i64>,
    pub stop_loss: Option<i64>,
    pub take_profit: Option<i64>,
    /// Ascending price levels, micro-units.
    pub support_levels: Vec<i64>,
    pub resistance_levels: Vec<i64>,
    /// Opaque pattern-specific context.
    pub pattern_data: Vec<(String, String)>,
    pub bars_analyzed: u32,
    pub lookback_period: u32,
    /// Micro-fraction, 0 to one whole unit.
    pub historical_win_rate: Option<i64>,
    pub avg_return: Option<i64>,
}

/// Every element of the sequence is positive.
pub open spec fn all_positive(s: Seq<i64>) -> bool {
    forall|i: int| 0 <= i < s.len() ==> #[trigger] s[i] > 0
}

/// The sequence never decreases.
pub open spec fn is_sorted(s: Seq<i64>) -> bool {
    forall|i: int| 0 < i < s.len() ==> #[trigger] s[i - 1] <= s[i]
}

/// The first rule a pattern violates, with its message.
pub open spec fn spec_pattern_error(p: PatternHit) -> Option<Seq<char>> {
    if !(0 <= p.confidence <= MICRO) {
        Some("Confidence must be between 0 and 1"@)
    } else if !(0 <= p.strength <= 10 * MICRO) {
        Some("Strength must be between 0 and 10"@)
    } else if p.entry_price matches Some(v) && v <= 0 {
        Some("Entry price must be positive"@)
    } else if p.stop_loss matches Some(v) && v <= 0 {
        Some("Stop loss must be positive"@)
    } else if p.take_profit matches Some(v) && v <= 0 {
        Some("Take profit must be positive"@)
    } else if !all_positive(p.support_levels@) {
        Some("Support levels must be positive"@)
    } else if !all_positive(p.resistance_levels@) {
        Some("Resistance levels must be positive"@)
    } else if !is_sorted(p.support_levels@) {
        Some("Support levels must be sorted"@)
    } else if !is_sorted(p.resistance_levels@) {
        Some("Resistance levels must be sorted"@)
    } else if p.historical_win_rate matches Some(v) && !(0 <= v <= MICRO) {
        Some("Historical win rate must be between 0 and 1"@)
    } else if p.bars_analyzed == 0 {
        Some("Bars analyzed must be greater than 0"@)
    } else if p.lookback_period == 0 {
        Some("Lookback period must be greater than 0"@)
    } else {
        None
    }
}

/// Whether every element of the vector is positive.
fn check_all_positive(v: &Vec<i64>) -> (r: bool)
    ensures
        r == all_positive(v@),
{
    let n = v.len();
    let mut i: usize = 0;
    while i < n
        invariant
            n == v@.len(),
            i <= n,
            forall|j: int| 0 <= j < i ==> #[trigger] v@[j] > 0,
        decreases n - i,
    {
        if v[i] <= 0 {
            return false;
        }
        i = i + 1;
    }
    true
}

/// Whether the vector never decreases.
fn check_sorted(v: &Vec<i64>) -> (r: bool)
    ensures
        r == is_sorted(v@),
{
    let n = v.len();
    let mut i: usize = 1;
    while i < n
        invariant
            n == v@.len(),
            1 <= i || n == 0,
            i <= n || i == 1,
            forall|j: int| 0 < j < i ==> #[trigger] v@[j - 1] <= v@[j],
        decreases n - i,
    {
        if v[i - 1] > v[i] {
            return false;
        }
        i = i + 1;
    }
    true
}

impl PatternHit {
    /// Check every pattern rule, returning the first violation's message,
    /// exactly as `spec_pattern_error` lists them.
    pub fn validate(&self) -> (r: Result<(), String>)
        ensures
            match r {
                Ok(()) => spec_pattern_error(*self) is None,
                Err(m) => spec_pattern_error(*self) matches Some(msg) && m@ == msg,
            },
    {
        if !(0 <= self.confidence && self.confidence <= MICRO) {
            return Err(String::from_str("Confidence must be between 0 and 1"));
        }
        if !(0 <= self.strength && self.strength <= 10 * MICRO) {
            return Err(String::from_str("Strength must be between 0 and 10"));
        }
        if match self.entry_price {
            Some(v) => v <= 0,
            None => false,
        } {
            return Err(String::from_str("Entry price must be positive"));
        }
        if match self.stop_loss {
            Some(v) => v <= 0,
            None => false,
        } {
            return Err(String::from_str("Stop loss must be positive"));
        }
        if match self.take_profit {
            Some(v) => v <= 0,
            None => false,
        } {
            return Err(String::from_str("Take profit must be positive"));
        }
        if !check_all_positive(&self.support_levels) {
            return Err(String::from_str("Support levels must be positive"));
        }
        if !check_all_positive(&self.resistance_levels) {
            return Err(String::from_str("Resistance levels must be positive"));
        }
        if !check_sorted(&self.support_levels) {
            return Err(String::from_str("Support levels must be sorted"));
        }
        if !check_sorted(&self.resistance_levels) {
            return Err(String::from_str("Resistance levels must be sorted"));
        }
        if match self.historical_win_rate {
            Some(v) => !(0 <= v && v <= MICRO),
            None => false,
        } {
            return Err(String::from_str("Historical win rate must be between 0 and 1"));
        }
        if self.bars_analyzed == 0 {
            return Err(String::from_str("Bars analyzed must be greater than 0"));
        }
        if self.lookback_period == 0 {
            return Err(String::from_str("Lookback period must be greater than 0"));
        }
        Ok(())
    }
}

/// The sum of the patterns' confidences.
pub open spec fn sum_confidence(s: Seq<PatternHit>) -> int
    decreases s.len(),
{
    if s.len() == 0 {
        0
    } else {
        sum_confidence(s.drop_last()) + s.last().confidence
    }
}

/// The index of the strongest pattern; among equals, the last one, as the
/// summary reports it.
pub open spec fn strongest_index(s: Seq<PatternHit>) -> int
    recommends
        s.len() > 0,
    decreases s.len(),
{
    if s.len() <= 1 {
        0
    } else {
        let rest = strongest_index(s.drop_last());
        if s.last().strength >= s[rest].strength {
            s.len() - 1
        } else {
            rest
        }
    }
}

/// Every confidence in the sequence is a valid micro-fraction.
pub open spec fn confidences_valid(s: Seq<PatternHit>) -> bool {
    forall|i: int| 0 <= i < s.len() ==> 0 <= (#[trigger] s[i]).confidence <= MICRO
}

/// Under valid confidences, their sum lies between zero and the count of
/// patterns times one whole unit.
proof fn lemma_sum_confidence_bounds(s: Seq<PatternHit>)
    requires
        confidences_valid(s),
    ensures
        0 <= sum_confidence(s) <= (s.len() as int) * (MICRO as int),
    decreases s.len(),
{
    if s.len() > 0 {
        assert(forall|i: int| 0 <= i < s.len() - 1 ==> s.drop_last()[i] == s[i]);
        lemma_sum_confidence_bounds(s.drop_last());
        assert((s.len() as int) * (MICRO as int) == (s.len() as int - 1) * (MICRO as int)
            + MICRO as int) by (nonlinear_arith);
    }
}

/// How many patterns have the given type.
pub open spec fn count_of_type(s: Seq<PatternHit>, t: PatternType) -> int
    decreases s.len(),
{
    if s.len() == 0 {
        0
    } else {
        count_of_type(s.drop_last(), t) + if s.last().pattern_type == t {
            1int
        } else {
            0int
        }
    }
}

/// How many patterns reach the given confidence.
pub open spec fn count_confident(s: Seq<PatternHit>, min_confidence: i64) -> int
    decreases s.len(),
{
    if s.len() == 0 {
        0
    } else {
        count_confident(s.drop_last(), min_confidence) + if s.last().confidence >= min_confidence {
            1int
        } else {
            0int
        }
    }
}

/// A collection of detected patterns for one symbol and timeframe, with
/// summary statistics kept in step with its contents.
#[derive(Debug)]
pub struct PatternCollection {
    pub symbol: String,
    pub timeframe: Timeframe,
    /// Milliseconds since the Unix epoch.
    pub timestamp: u64,
    pub patterns: Vec<PatternHit>,
    pub total_patterns: u32,
    /// Micro-fraction: the mean confidence over the patterns.
    pub avg_confidence: i64,
    pub strongest_pattern: Option<String>,
}

impl PatternCollection {
    /// The summary fields agree with the contents: the count is the
    /// length (saturating at the counter's width), the average confidence
    /// is the mean, and the strongest pattern is the id of the strongest
    /// entry (the last among equals), or absent when empty.
    pub open spec fn stats_ok(&self) -> bool {
        &&& self.total_patterns == if self.patterns@.len() > u32::MAX {
            u32::MAX as int
        } else {
            self.patterns@.len() as int
        }
        &&& self.avg_confidence == if self.patterns@.len() == 0 {
            0int
        } else {
            sum_confidence(self.patterns@) / (self.patterns@.len() as int)
        }
        &&& (self.patterns@.len() == 0 ==> self.strongest_pattern is None)
        &&& (self.patterns@.len() > 0 ==> (self.strongest_pattern matches Some(id) && id@
            == self.patterns@[strongest_index(self.patterns@)].pattern_id@))
    }

    /// An empty collection for the symbol and timeframe, stamped with the
    /// wall clock.
    pub fn new(symbol: String, timeframe: Timeframe) -> (r: Self)
        ensures
            r.symbol == symbol,
            r.timeframe == timeframe,
            r.patterns@.len() == 0,
            r.stats_ok(),
    {
        PatternCollection {
            symbol,
            timeframe,
            timestamp: current_millis(),
            patterns: Vec::new(),
            total_patterns: 0,
            avg_confidence: 0,
            strongest_pattern: None,
        }
    }

    /// Append a pattern and bring the summary statistics up to date.
    pub fn add_pattern(&mut self, pattern: PatternHit)
        requires
            old(self).patterns@.len() < u32::MAX,
            confidences_valid(old(self).patterns@),
            0 <= pattern.confidence <= MICRO,
        ensures
            final(self).patterns@.len() == old(self).patterns@.len() + 1,
            final(self).patterns@.drop_last() == old(self).patterns@,
            final(self).patterns@.last() == pattern,
            final(self).stats_ok(),
            final(self).symbol == old(self).symbol,
            final(self).timeframe == old(self).timeframe,
            final(self).timestamp == old(self).timestamp,
    {
        self.patterns.push(pattern);
        self.update_stats();
        proof {
            assert(final(self).patterns@.drop_last() =~= old(self).patterns@);
        }
    }

    /// Recompute the summary statistics from the pattern list.
    fn update_stats(&mut self)
        requires
            old(self).patterns@.len() <= u32::MAX,
            confidences_valid(old(self).patterns@),
        ensures
            final(self).patterns == old(self).patterns,
            final(self).symbol == old(self).symbol,
            final(self).timeframe == old(self).timeframe,
            final(self).timestamp == old(self).timestamp,
            final(self).stats_ok(),
    {
        let n = self.patterns.len();
        self.total_patterns = n as u32;
        if n == 0 {
            self.avg_confidence = 0;
            self.strongest_pattern = None;
            return ;
        }
        let mut sum: i128 = 0;
        let mut best: usize = 0;
        let mut i: usize = 0;
        proof {
            assert(self.patterns@.subrange(0, 0) =~= Seq::<PatternHit>::empty());
        }
        while i < n
            invariant
                n == self.patterns@.len(),
                confidences_valid(self.patterns@),
                i <= n,
                sum as int == sum_confidence(self.patterns@.subrange(0, i as int)),
                i > 0 ==> 0 <= best < i && best as int == strongest_index(
                    self.patterns@.subrange(0, i as int),
                ),
                i == 0 ==> best == 0,
            decreases n - i,
        {
            let ghost prefix = self.patterns@.subrange(0, i as int);
            let ghost next_prefix = self.patterns@.subrange(0, i as int + 1);
            proof {
                assert(next_prefix.drop_last() =~= prefix);
                assert(next_prefix.last() == self.patterns@[i as int]);
                assert(confidences_valid(prefix));
                lemma_sum_confidence_bounds(prefix);
            }
            sum = sum + (self.patterns[i].confidence as i128);
            if i == 0 {
                best = 0;
            } else {
                proof {
                    assert(next_prefix[best as int] == self.patterns@[best as int]);
                }
                if self.patterns[i].strength >= self.patterns[best].strength {
                    best = i;
                }
            }
            i = i + 1;
        }
        proof {
            assert(self.patterns@.subrange(0, n as int) =~= self.patterns@);
            lemma_sum_confidence_bounds(self.patterns@);
            vstd::arithmetic::div_mod::lemma_div_pos_is_pos(sum as int, n as int);
            vstd::arithmetic::div_mod::lemma_div_is_ordered(
                sum as int,
                (n as int) * (MICRO as int),
                n as int,
            );
            vstd::arithmetic::div_mod::lemma_div_multiples_vanish(MICRO as int, n as int);
        }
        let avg: i128 = sum / (n as i128);
        self.avg_confidence = avg as i64;
        self.strongest_pattern = Some(self.patterns[best].pattern_id.clone());
    }

    /// The patterns of one type, in order.
    pub fn get_patterns_by_type(&self, pattern_type: PatternType) -> (r: Vec<&PatternHit>)
        ensures
            r@.len() == count_of_type(self.patterns@, pattern_type),
            forall|k: int| 0 <= k < r@.len() ==> (#[trigger] r@[k]).pattern_type == pattern_type,
    {
        let n = self.patterns.len();
        let mut out: Vec<&PatternHit> = Vec::new();
        let mut i: usize = 0;
        proof {
            assert(self.patterns@.subrange(0, 0) =~= Seq::<PatternHit>::empty());
        }
        while i < n
            invariant
                n == self.patterns@.len(),
                i <= n,
                out@.len() == count_of_type(self.patterns@.subrange(0, i as int), pattern_type),
                forall|k: int|
                    0 <= k < out@.len() ==> (#[trigger] out@[k]).pattern_type == pattern_type,
            decreases n - i,
        {
            proof {
                assert(self.patterns@.subrange(0, i as int + 1).drop_last() =~= self.patterns@
                    .subrange(0, i as int));
                assert(self.patterns@.subrange(0, i as int + 1).last() == self.patterns@[i as int]);
            }
            if self.patterns[i].pattern_type == pattern_type {
                out.push(&self.patterns[i]);
            }
            i = i + 1;
        }
        proof {
            assert(self.patterns@.subrange(0, n as int) =~= self.patterns@);
        }
        out
    }

    /// The patterns at or above a confidence threshold, in order.
    pub fn get_high_confidence_patterns(&self, min_confidence: i64) -> (r: Vec<&PatternHit>)
        ensures
            r@.len() == count_confident(self.patterns@, min_confidence),
            forall|k: int| 0 <= k < r@.len() ==> (#[trigger] r@[k]).confidence >= min_confidence,
    {
        let n = self.patterns.len();
        let mut out: Vec<&PatternHit> = Vec::new();
        let mut i: usize = 0;
        proof {
            assert(self.patterns@.subrange(0, 0) =~= Seq::<PatternHit>::empty());
        }
        while i < n
            invariant
                n == self.patterns@.len(),
                i <= n,
                out@.len() == count_confident(
                    self.patterns@.subrange(0, i as int),
                    min_confidence,
                ),
                forall|k: int|
                    0 <= k < out@.len() ==> (#[trigger] out@[k]).confidence >= min_confidence,
            decreases n - i,
        {
            proof {
                assert(self.patterns@.subrange(0, i as int + 1).drop_last() =~= self.patterns@
                    .subrange(0, i as int));
                assert(self.patterns@.subrange(0, i as int + 1).last() == self.patterns@[i as int]);
            }
            if self.patterns[i].confidence >= min_confidence {
                out.push(&self.patterns[i]);
            }
            i = i + 1;
        }
        proof {
            assert(self.patterns@.subrange(0, n as int) =~= self.patterns@);
        }
        out
    }
}

} // verus!
