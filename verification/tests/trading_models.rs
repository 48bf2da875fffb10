use execution_gateway::enums::{Direction, MarketRegime, OrderStatus, PatternType, Timeframe};
use execution_gateway::market_data::{IndicatorSnapshot, MarketBar};
use execution_gateway::orders::{ExecutionResult, OrderDecision, MICRO};
use execution_gateway::patterns::{PatternCollection, PatternHit};
use execution_gateway::signals::{LlmAnalysis, Signal, TimeframeAnalysis};

fn make_bar() -> MarketBar {
    MarketBar {
        symbol: "BTCUSDT".to_string(),
        timeframe: Timeframe::H1,
        timestamp: 1,
        open: 50000 * MICRO,
        high: 51000 * MICRO,
        low: 49500 * MICRO,
        close: 50500 * MICRO,
        volume: 100 * MICRO + 500_000,
        quote_volume: None,
        trades_count: None,
        taker_buy_volume: None,
    }
}

#[test]
fn test_market_bar_validation() {
    let mut bar = make_bar();
    assert!(bar.validate().is_ok());

    bar.high = 49000 * MICRO;
    assert!(bar.validate().is_err());

    bar.high = 51000 * MICRO;
    bar.low = 50500 * MICRO + 1;
    assert!(bar.validate().is_err());

    bar.low = 49500 * MICRO;
    bar.volume = -10 * MICRO;
    assert!(bar.validate().is_err());
}

fn make_snapshot() -> IndicatorSnapshot {
    IndicatorSnapshot {
        symbol: "BTCUSDT".to_string(),
        timeframe: Timeframe::H1,
        timestamp: 1,
        rsi: Some(65 * MICRO + 500_000),
        ema_20: Some(50000 * MICRO),
        ema_50: None,
        ema_200: None,
        macd_line: None,
        macd_signal: None,
        macd_histogram: None,
        bb_upper: Some(52000 * MICRO),
        bb_middle: Some(50000 * MICRO),
        bb_lower: Some(48000 * MICRO),
        bb_width: None,
        atr: Some(500 * MICRO),
        volume_sma: None,
        volume_profile: None,
        stoch_k: None,
        stoch_d: None,
        cci: None,
        mfi: None,
    }
}

#[test]
fn test_indicator_snapshot_validation() {
    let mut snapshot = make_snapshot();
    assert!(snapshot.validate().is_ok());

    snapshot.rsi = Some(150 * MICRO);
    assert!(snapshot.validate().is_err());

    snapshot.rsi = Some(65 * MICRO + 500_000);
    snapshot.bb_upper = Some(48000 * MICRO);
    assert!(snapshot.validate().is_err());
}

fn make_pattern() -> PatternHit {
    PatternHit {
        pattern_id: "pattern_123".to_string(),
        pattern_type: PatternType::Breakout,
        symbol: "BTCUSDT".to_string(),
        timeframe: Timeframe::H1,
        timestamp: 1,
        confidence: 850_000,
        strength: 7 * MICRO + 500_000,
        entry_price: Some(50000 * MICRO),
        stop_loss: Some(49000 * MICRO),
        take_profit: Some(52000 * MICRO),
        support_levels: vec![48000 * MICRO, 49000 * MICRO],
        resistance_levels: vec![51000 * MICRO, 52000 * MICRO],
        pattern_data: Vec::new(),
        bars_analyzed: 100,
        lookback_period: 50,
        historical_win_rate: Some(650_000),
        avg_return: Some(150_000),
    }
}

#[test]
fn test_pattern_hit_validation() {
    let mut pattern = make_pattern();
    assert!(pattern.validate().is_ok());

    pattern.confidence = MICRO + 500_000;
    assert!(pattern.validate().is_err());

    pattern.confidence = 850_000;
    pattern.strength = 15 * MICRO;
    assert!(pattern.validate().is_err());

    pattern.strength = 7 * MICRO + 500_000;
    pattern.support_levels = vec![49000 * MICRO, 48000 * MICRO];
    assert!(pattern.validate().is_err());
}

fn make_signal() -> Signal {
    Signal {
        signal_id: "signal_123".to_string(),
        symbol: "BTCUSDT".to_string(),
        timestamp: 1,
        direction: Direction::Long,
        confluence_score: 75 * MICRO + 500_000,
        confidence: 800_000,
        market_regime: MarketRegime::Bull,
        primary_timeframe: Timeframe::H1,
        timeframe_analysis: Vec::new(),
        patterns: Vec::new(),
        indicators: Vec::new(),
        llm_analysis: None,
        entry_price: Some(50000 * MICRO),
        stop_loss: Some(49000 * MICRO),
        take_profit: Some(52000 * MICRO),
        risk_reward_ratio: Some(2 * MICRO),
        max_risk_pct: Some(2 * MICRO),
        reasoning: "Strong bullish breakout".to_string(),
        key_factors: Vec::new(),
        expires_at: None,
        priority: 3,
    }
}

#[test]
fn test_signal_validation() {
    let mut signal = make_signal();
    assert!(signal.validate().is_ok());

    signal.confluence_score = 95 * MICRO;
    signal.confidence = 500_000;
    assert!(signal.validate().is_err());

    signal.confidence = 900_000;
    signal.priority = 10;
    assert!(signal.validate().is_err());
}

#[test]
fn test_order_decision_validation() {
    let mut decision = OrderDecision::new("signal_123".to_string(), "BTCUSDT".to_string());

    decision.direction = Direction::Long;
    decision.base_quantity = MICRO;
    decision.risk_adjusted_quantity = 800_000;
    decision.max_position_value = 40000 * MICRO;
    decision.entry_price = 50000 * MICRO;
    decision.stop_loss = 49000 * MICRO;
    decision.risk_amount = 800 * MICRO;
    decision.risk_percentage = 2 * MICRO;
    decision.leverage = MICRO;
    decision.portfolio_value = 100000 * MICRO;
    decision.available_margin = 50000 * MICRO;
    decision.current_exposure = 100_000;
    decision.confidence_score = 800_000;
    decision.confluence_score = 75 * MICRO;
    decision.risk_reward_ratio = MICRO + 250_000;

    assert!(decision.validate().is_ok());

    decision.stop_loss = 51000 * MICRO;
    assert!(decision.validate().is_err());

    decision.stop_loss = 49000 * MICRO;
    decision.leverage = 15 * MICRO;
    assert!(decision.validate().is_err());
}

#[test]
fn test_order_decision_validation_messages() {
    let mut decision = OrderDecision::new("signal_123".to_string(), "BTCUSDT".to_string());
    assert_eq!(decision.validate().unwrap_err(), "Base quantity must be positive".to_string());

    decision.base_quantity = MICRO;
    decision.risk_adjusted_quantity = -MICRO;
    assert_eq!(
        decision.validate().unwrap_err(),
        "Risk adjusted quantity must be positive".to_string()
    );
}

#[test]
fn test_pattern_collection_operations() {
    let mut collection = PatternCollection::new("BTCUSDT".to_string(), Timeframe::H1);

    let mut pattern = make_pattern();
    pattern.entry_price = None;
    pattern.stop_loss = None;
    pattern.take_profit = None;
    pattern.support_levels = Vec::new();
    pattern.resistance_levels = Vec::new();
    pattern.historical_win_rate = None;
    pattern.avg_return = None;

    collection.add_pattern(pattern);

    assert_eq!(collection.total_patterns, 1);
    assert_eq!(collection.avg_confidence, 850_000);
    assert_eq!(collection.strongest_pattern, Some("pattern_123".to_string()));

    let breakout_patterns = collection.get_patterns_by_type(PatternType::Breakout);
    assert_eq!(breakout_patterns.len(), 1);

    let high_conf_patterns = collection.get_high_confidence_patterns(800_000);
    assert_eq!(high_conf_patterns.len(), 1);
}

#[test]
fn test_timeframe_enum_conversion() {
    assert_eq!(Timeframe::M15.as_str(), "15m");
    assert_eq!(Timeframe::H1.as_str(), "1h");
    assert_eq!(Timeframe::H4.as_str(), "4h");
    assert_eq!(Timeframe::D1.as_str(), "1d");

    assert_eq!(Timeframe::from_str("15m"), Some(Timeframe::M15));
    assert_eq!(Timeframe::from_str("1h"), Some(Timeframe::H1));
    assert_eq!(Timeframe::from_str("4h"), Some(Timeframe::H4));
    assert_eq!(Timeframe::from_str("1d"), Some(Timeframe::D1));
    assert_eq!(Timeframe::from_str("invalid"), None);
}

#[test]
fn test_execution_result_operations() {
    let mut result = ExecutionResult::new("decision_123".to_string(), "order_456".to_string());

    assert!(!result.is_fully_filled());
    assert!(!result.is_partially_filled());

    result.status = OrderStatus::Filled;
    result.filled_quantity = MICRO;

    assert!(result.is_fully_filled());
    assert!(!result.is_partially_filled());

    let fill_pct = result.get_fill_percentage(MICRO);
    assert_eq!(fill_pct, 100 * MICRO);

    let partial_fill_pct = result.get_fill_percentage(2 * MICRO);
    assert_eq!(partial_fill_pct, 50 * MICRO);
}

#[test]
fn test_order_decision_calculations() {
    let mut decision = OrderDecision::new("signal_123".to_string(), "BTCUSDT".to_string());

    decision.risk_adjusted_quantity = MICRO;
    decision.entry_price = 50000 * MICRO;
    decision.leverage = 2 * MICRO;
    decision.portfolio_value = 100000 * MICRO;
    decision.available_margin = 50000 * MICRO;

    let position_value = decision.calculate_position_value();
    assert_eq!(position_value, 100000 * MICRO as i128);

    let margin_required = decision.calculate_margin_required();
    assert_eq!(margin_required, 50000 * MICRO as i128);

    assert!(decision.validate_margin_requirements());

    let risk_metrics = decision.get_risk_metrics();
    assert!(risk_metrics.iter().any(|(k, _)| k == "position_size_pct"));
    assert!(risk_metrics.iter().any(|(k, _)| k == "leverage"));
}

#[test]
fn test_execution_result_ids_are_fresh() {
    let a = ExecutionResult::new("d1".to_string(), "o1".to_string());
    let b = ExecutionResult::new("d1".to_string(), "o1".to_string());
    assert_eq!(a.execution_id.len(), 36);
    assert_eq!(b.execution_id.len(), 36);
    assert_ne!(a.execution_id, b.execution_id);
}

#[test]
fn test_new_decision_defaults() {
    let decision = OrderDecision::new("sig".to_string(), "BTCUSDT".to_string());
    assert_eq!(decision.decision_id.len(), 36);
    assert_eq!(decision.leverage, MICRO);
    assert_eq!(decision.slippage_tolerance, 1_000);
    assert_eq!(decision.max_execution_time, 300);
    assert!(decision.partial_fill_acceptable);
    assert_eq!(decision.timeframe_context, Timeframe::H1);
}

#[test]
fn test_weighted_confluence_empty_falls_back() {
    let signal = make_signal();
    assert_eq!(signal.get_weighted_confluence(), 75 * MICRO + 500_000);
}

#[test]
fn test_timeframe_analysis_validation() {
    let mut analysis = TimeframeAnalysis {
        timeframe: Timeframe::H1,
        timestamp: 1,
        trend_score: 5 * MICRO,
        momentum_score: 3 * MICRO,
        volatility_score: 2 * MICRO,
        volume_score: 4 * MICRO,
        pattern_count: 2,
        strongest_pattern_confidence: 700_000,
        bullish_indicators: 3,
        bearish_indicators: 1,
        neutral_indicators: 2,
        timeframe_weight: 500_000,
    };
    assert!(analysis.validate().is_ok());

    analysis.trend_score = 11 * MICRO;
    assert_eq!(
        analysis.validate().unwrap_err(),
        "Trend score must be between -10 and 10".to_string()
    );

    analysis.trend_score = 5 * MICRO;
    analysis.timeframe_weight = 0;
    assert_eq!(
        analysis.validate().unwrap_err(),
        "Timeframe weight must be between 0 (exclusive) and 1".to_string()
    );
}

#[test]
fn test_llm_analysis_validation() {
    let mut llm = LlmAnalysis {
        model_id: "model-a".to_string(),
        timestamp: 1,
        market_sentiment: "bullish".to_string(),
        key_insights: Vec::new(),
        risk_factors: Vec::new(),
        bullish_score: 7 * MICRO,
        bearish_score: 2 * MICRO,
        confidence: 800_000,
        tokens_used: 1200,
        latency_ms: 450,
        cost_usd: 12_000,
    };
    assert!(llm.validate().is_ok());

    llm.tokens_used = 0;
    assert_eq!(llm.validate().unwrap_err(), "Tokens used must be greater than 0".to_string());
}

#[test]
fn test_signal_validates_components() {
    let mut signal = make_signal();
    signal.timeframe_analysis.push((
        Timeframe::H1,
        TimeframeAnalysis {
            timeframe: Timeframe::H1,
            timestamp: 1,
            trend_score: 5 * MICRO,
            momentum_score: 3 * MICRO,
            volatility_score: 2 * MICRO,
            volume_score: 4 * MICRO,
            pattern_count: 0,
            strongest_pattern_confidence: 0,
            bullish_indicators: 0,
            bearish_indicators: 0,
            neutral_indicators: 0,
            timeframe_weight: 500_000,
        },
    ));
    signal.patterns.push(make_pattern());
    signal.indicators.push((Timeframe::H1, make_snapshot()));
    assert!(signal.validate().is_ok());

    // A broken nested pattern surfaces its own message.
    signal.patterns[0].bars_analyzed = 0;
    assert_eq!(
        signal.validate().unwrap_err(),
        "Bars analyzed must be greater than 0".to_string()
    );
}

#[test]
fn test_signal_ratio_consistency_check() {
    let mut signal = make_signal();
    // Levels imply (52000-50000)/(50000-49000) = 2.0; claiming 3.0 fails.
    signal.risk_reward_ratio = Some(3 * MICRO);
    assert_eq!(
        signal.validate().unwrap_err(),
        "Risk/reward ratio doesn't match price levels".to_string()
    );
}

#[test]
fn test_weighted_confluence_with_analyses() {
    let mut signal = make_signal();
    let base = TimeframeAnalysis {
        timeframe: Timeframe::H1,
        timestamp: 1,
        trend_score: 5 * MICRO,
        momentum_score: 3 * MICRO,
        volatility_score: 0,
        volume_score: 0,
        pattern_count: 0,
        strongest_pattern_confidence: 0,
        bullish_indicators: 0,
        bearish_indicators: 0,
        neutral_indicators: 0,
        timeframe_weight: 500_000,
    };
    signal.timeframe_analysis.push((Timeframe::H1, base));

    // One analysis with trend 5 and momentum 3: ((8 + 10) * 5) = 90.
    assert_eq!(signal.get_weighted_confluence(), 90 * MICRO);
}

#[test]
fn test_timeframe_round_trip() {
    for t in [Timeframe::M15, Timeframe::H1, Timeframe::H4, Timeframe::D1] {
        assert_eq!(Timeframe::from_str(t.as_str()), Some(t));
    }
}
