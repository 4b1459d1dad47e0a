use hyperliquid_lens::decimal::Dec;
use hyperliquid_lens::detection::types::{
    CascadeDirection, EventLifecycle, HtfLevel, MarketEvent, SweepDirection,
};
use hyperliquid_lens::execution::broker::{Broker, BrokerOrderStatus, PaperBroker};
use hyperliquid_lens::risk::engine::{BasicRiskEngine, RiskEngine};
use hyperliquid_lens::risk::types::{
    ApprovedSignal, PortfolioState, RiskContext, RiskDecision, RiskLimits, RiskRejectionReason,
};
use hyperliquid_lens::setups::engine::{EventAdapterSetupEngine, SetupEngine};
use hyperliquid_lens::setups::types::{map_lifecycle, SetupEvent, SetupStatus, SetupType};
use hyperliquid_lens::signals::engine::{RuleBasedSignalEngine, SignalEngine};
use hyperliquid_lens::signals::types::TradeSignal;
use hyperliquid_lens::trading::{
    MarketSnapshot, OrderIntent, OrderType, PositionSide, SignalStatus, TimeInForce,
    TradeDirection,
};
use rust_decimal::Decimal;

const UUID_MASK: u128 = 0xF000_C000_0000_0000_0000u128;
const UUID_V4: u128 = 0x4000_8000_0000_0000_0000u128;

fn value(d: Dec) -> Decimal {
    Decimal::from_i128_with_scale(d.mantissa, d.scale)
}

fn dec(text: &str) -> Decimal {
    text.parse().unwrap()
}

fn d(text: &str) -> Dec {
    let v: Decimal = text.parse().unwrap();
    Dec { mantissa: v.mantissa(), scale: v.scale() }
}

fn bullish_sweep() -> MarketEvent {
    let mut e = MarketEvent::new_sweep(
        "BTC".to_string(),
        "5m".to_string(),
        SweepDirection::Bullish,
        d("100"),
        d("98"),
        d("0.02"),
        d("101"),
        d("12"),
        1_700_000_000_000,
    );
    e.id = Some(42);
    e.lifecycle = EventLifecycle::Confirming;
    e.htf_confluence.push(HtfLevel { interval: "1h".to_string(), level_price: d("100.1"), age_candles: 3 });
    e
}

fn long_liq_cascade() -> MarketEvent {
    MarketEvent::new_cascade(
        "ETH".to_string(),
        "1m".to_string(),
        CascadeDirection::LongLiq,
        d("2000"),
        4,
        3,
        d("1.5"),
        d("80"),
        1_700_000_060_000,
    )
}

fn context(signal: TradeSignal, portfolio: PortfolioState) -> RiskContext {
    RiskContext {
        signal,
        market: MarketSnapshot { last_price: None, timestamp_ms: 0 },
        portfolio,
        limits: RiskLimits::default(),
    }
}

fn flat() -> PortfolioState {
    PortfolioState {
        open_positions: 0,
        daily_realized_pnl_usd: Dec::zero(),
        coin_position_side: PositionSide::Flat,
    }
}

#[test]
fn lifecycle_maps_to_status() {
    assert_eq!(map_lifecycle(&EventLifecycle::Detected), SetupStatus::Detected);
    assert_eq!(map_lifecycle(&EventLifecycle::Confirming), SetupStatus::Confirming);
    assert_eq!(map_lifecycle(&EventLifecycle::Confirmed), SetupStatus::Confirmed);
    assert_eq!(map_lifecycle(&EventLifecycle::Reclassified), SetupStatus::Invalidated);
    assert_eq!(map_lifecycle(&EventLifecycle::Expired), SetupStatus::Expired);
}

#[test]
fn sweep_setup() {
    let s = SetupEvent::from_market_event(&bullish_sweep());
    assert_eq!(s.id & UUID_MASK, UUID_V4);
    assert_eq!(s.coin, "BTC");
    assert_eq!(s.interval, "5m");
    assert_eq!(s.setup_type, SetupType::LiquiditySweep);
    assert_eq!(s.status, SetupStatus::Confirming);
    assert_eq!(s.detected_at_ms, 1_700_000_000_000);
    assert_eq!(s.direction_bias, Some(TradeDirection::Long));
    assert_eq!(value(s.strength), dec("0.02"));
    assert_eq!(s.context.event_id, Some(42));
    assert_eq!(s.context.reference_price.map(value), Some(dec("100")));
    assert_eq!(s.context.trigger_price.map(value), Some(dec("98")));
    assert_eq!(s.context.invalidation_price.map(value), Some(dec("101")));
    assert_eq!(s.context.htf_confluence_count, 1);
    assert!(s.context.notes.is_empty());
}

#[test]
fn cascade_setup() {
    let s = SetupEvent::from_market_event_with_id(&long_liq_cascade(), 5);
    assert_eq!(s.id, 5);
    assert_eq!(s.setup_type, SetupType::LiquidationCascade);
    assert_eq!(s.status, SetupStatus::Detected);
    assert_eq!(s.direction_bias, Some(TradeDirection::Short));
    assert_eq!(value(s.strength), dec("1.5"));
    assert_eq!(s.context.event_id, None);
    assert_eq!(s.context.reference_price.map(value), Some(dec("2000")));
    assert_eq!(s.context.trigger_price.map(value), Some(dec("2000")));
    assert_eq!(s.context.invalidation_price, None);
}

#[test]
fn setup_strength_defaults_to_one() {
    let mut e = long_liq_cascade();
    e.volume_acceleration = None;
    e.cascade_direction = Some(CascadeDirection::ShortLiq);
    let s = SetupEvent::from_market_event_with_id(&e, 1);
    assert_eq!(value(s.strength), dec("1"));
    assert_eq!(s.direction_bias, Some(TradeDirection::Long));
}

#[test]
fn adapter_engine_always_gives_a_setup() {
    let s = EventAdapterSetupEngine.evaluate_event(&bullish_sweep()).unwrap().unwrap();
    assert_eq!(s.setup_type, SetupType::LiquiditySweep);
    assert_eq!(s.id & UUID_MASK, UUID_V4);
}

#[test]
fn long_signal_from_sweep() {
    let setup = SetupEvent::from_market_event_with_id(&bullish_sweep(), 77);
    let t = TradeSignal::from_setup_with_id(&setup, 5_000, 88).unwrap();
    assert_eq!(t.id, 88);
    assert_eq!(t.setup_id, 77);
    assert_eq!(t.source_setup_type, SetupType::LiquiditySweep);
    assert_eq!(t.side, TradeDirection::Long);
    assert_eq!(t.status, SignalStatus::Candidate);
    assert_eq!(value(t.confidence), dec("0.02"));
    assert_eq!(t.notional_usd, None);
    assert_eq!(t.expires_at_ms, 5_000);
    assert_eq!(t.entry.order_type, OrderType::Limit);
    assert_eq!(t.entry.time_in_force, TimeInForce::Gtc);
    // Entry at the close (101), stop at the wick tip (98): risk 3.
    assert_eq!(t.entry.limit_price.map(value), Some(dec("101")));
    assert_eq!(value(t.stop.stop_price), dec("98"));
    assert!(t.stop.invalidates_setup);
    assert_eq!(t.targets.len(), 2);
    assert_eq!(value(t.targets[0].price), dec("104"));
    assert_eq!(value(t.targets[1].price), dec("107"));
    assert_eq!(value(t.targets[0].size_fraction), dec("0.5"));
    assert_eq!(t.targets[0].label, "t1");
    assert_eq!(t.targets[1].label, "t2");
    assert!(t.rationale.is_empty());
    assert!(TradeSignal::yields(&setup));
}

#[test]
fn short_signal_targets_below_entry() {
    let mut e = bullish_sweep();
    e.sweep_direction = Some(SweepDirection::Bearish);
    e.level_price = Some(d("100"));
    e.sweep_extreme = Some(d("102.5"));
    e.close_price = Some(d("99.5"));
    let setup = SetupEvent::from_market_event_with_id(&e, 1);
    let t = TradeSignal::from_setup(&setup, 10).unwrap();
    assert_eq!(t.id & UUID_MASK, UUID_V4);
    assert_eq!(t.side, TradeDirection::Short);
    assert_eq!(value(t.targets[0].price), dec("96.5"));
    assert_eq!(value(t.targets[1].price), dec("93.5"));
}

#[test]
fn no_signal_without_risk() {
    // A cascade's stop falls back to its start, which is also its entry.
    let setup = SetupEvent::from_market_event_with_id(&long_liq_cascade(), 1);
    assert!(!TradeSignal::yields(&setup));
    assert!(TradeSignal::from_setup(&setup, 0).is_none());
    // A stop on the wrong side.
    let mut e = bullish_sweep();
    e.sweep_extreme = Some(d("103"));
    let setup = SetupEvent::from_market_event_with_id(&e, 1);
    assert!(TradeSignal::from_setup_with_id(&setup, 0, 2).is_none());
    // No direction.
    let mut e = bullish_sweep();
    e.sweep_direction = None;
    let setup = SetupEvent::from_market_event_with_id(&e, 1);
    assert!(TradeSignal::from_setup(&setup, 0).is_none());
}

#[test]
fn rule_engine_sets_expiry() {
    let engine = RuleBasedSignalEngine::default();
    assert_eq!(engine.ttl_ms, 900_000);
    let setup = SetupEvent::from_market_event_with_id(&bullish_sweep(), 3);
    let t = engine.generate(&setup, 1_000).unwrap().unwrap();
    assert_eq!(t.expires_at_ms, 901_000);
    let none = SetupEvent::from_market_event_with_id(&long_liq_cascade(), 3);
    assert!(engine.generate(&none, 1_000).unwrap().is_none());
}

#[test]
fn default_limits() {
    let l = RiskLimits::default();
    assert_eq!(value(l.max_notional_usd), dec("10000"));
    assert_eq!(value(l.max_risk_per_trade_usd), dec("100"));
    assert_eq!(l.max_concurrent_positions, 3);
    assert_eq!(value(l.max_daily_loss_usd), dec("300"));
    assert_eq!(value(l.max_slippage_bps), dec("25"));
}

fn signal() -> TradeSignal {
    let setup = SetupEvent::from_market_event_with_id(&bullish_sweep(), 77);
    TradeSignal::from_setup_with_id(&setup, 5_000, 88).unwrap()
}

fn rejection(d: RiskDecision) -> (RiskRejectionReason, String) {
    match d {
        RiskDecision::Rejected { signal, reason, message } => {
            assert_eq!(signal.id, 88);
            (reason, message)
        }
        RiskDecision::Approved(_) => panic!("expected a rejection"),
    }
}

#[test]
fn approval_sizes_at_ten_times_risk() {
    let dcs = BasicRiskEngine.evaluate(&context(signal(), flat())).unwrap();
    match dcs {
        RiskDecision::Approved(a) => {
            assert_eq!(a.signal.id, 88);
            assert_eq!(value(a.sized_notional_usd), dec("1000"));
            assert_eq!(value(a.sized_quantity), dec("1000") / dec("101"));
        }
        RiskDecision::Rejected { .. } => panic!("expected an approval"),
    }
}

#[test]
fn approval_caps_notional() {
    let mut s = signal();
    s.notional_usd = Some(d("25000"));
    match BasicRiskEngine.evaluate(&context(s, flat())).unwrap() {
        RiskDecision::Approved(a) => {
            assert_eq!(value(a.sized_notional_usd), dec("10000"));
        }
        RiskDecision::Rejected { .. } => panic!("expected an approval"),
    }
}

#[test]
fn rejections_in_order() {
    let mut full = flat();
    full.open_positions = 3;
    full.daily_realized_pnl_usd = d("-500");
    let (reason, message) = rejection(BasicRiskEngine.evaluate(&context(signal(), full)).unwrap());
    assert_eq!(reason, RiskRejectionReason::PositionLimitReached);
    assert_eq!(message, "max concurrent positions reached");

    let mut losing = flat();
    losing.daily_realized_pnl_usd = d("-300");
    let (reason, message) = rejection(BasicRiskEngine.evaluate(&context(signal(), losing)).unwrap());
    assert_eq!(reason, RiskRejectionReason::DailyLossLimitReached);
    assert_eq!(message, "daily loss limit reached");

    let mut s = signal();
    s.entry.limit_price = None;
    let (reason, message) = rejection(BasicRiskEngine.evaluate(&context(s, flat())).unwrap());
    assert_eq!(reason, RiskRejectionReason::MissingEntryPrice);
    assert_eq!(message, "entry plan requires an explicit price for sizing");

    let mut s = signal();
    s.stop.stop_price = d("101");
    let (reason, message) = rejection(BasicRiskEngine.evaluate(&context(s, flat())).unwrap());
    assert_eq!(reason, RiskRejectionReason::InvalidStopDistance);
    assert_eq!(message, "stop must be beyond entry in the loss direction");
}

#[test]
fn paper_broker_accepts_entry() {
    let approved = ApprovedSignal { signal: signal(), sized_notional_usd: d("1000"), sized_quantity: d("9.9") };
    let o = PaperBroker::entry_request_with_id(&approved, 0x1234);
    assert_eq!(o.id, 0x1234);
    assert_eq!(o.signal_id, 88);
    assert_eq!(o.coin, "BTC");
    assert_eq!(o.side, TradeDirection::Long);
    assert_eq!(o.intent, OrderIntent::Entry);
    assert_eq!(o.order_type, OrderType::Limit);
    assert_eq!(o.time_in_force, TimeInForce::Gtc);
    assert_eq!(value(o.quantity), dec("9.9"));
    assert_eq!(o.limit_price.map(value), Some(dec("101")));
    assert_eq!(o.stop_price, None);
    assert!(!o.reduce_only);

    let ack = PaperBroker.submit_order(&o).unwrap();
    assert_eq!(ack.broker_order_id, "paper-00000000-0000-0000-0000-000000001234");
    assert_eq!(ack.client_order_id, 0x1234);
    assert_eq!(ack.status, BrokerOrderStatus::Accepted);
    assert_eq!(ack.message.as_deref(), Some("paper broker accepted order"));
    assert!(PaperBroker.cancel_order(&ack.broker_order_id).is_ok());

    let fresh = PaperBroker::entry_request(&approved);
    assert_eq!(fresh.id & UUID_MASK, UUID_V4);
}

#[test]
fn signal_and_sizing_for_a_finely_priced_coin() {
    // Entry 0.000012345678912 (15 decimals), stop 0.0000123 (7 decimals).
    let mut e = bullish_sweep();
    e.close_price = Some(d("0.000012345678912"));
    e.sweep_extreme = Some(d("0.0000123"));
    let setup = SetupEvent::from_market_event_with_id(&e, 5);
    let t = TradeSignal::from_setup_with_id(&setup, 0, 9).unwrap();
    assert_eq!(value(t.targets[0].price), dec("0.000012391357824"));
    assert_eq!(value(t.targets[1].price), dec("0.000012437036736"));
    // The targets keep the entry's fifteen decimals.
    assert_eq!(t.targets[0].price.scale, 15);
    assert_eq!(t.targets[1].price.scale, 15);
    match BasicRiskEngine.evaluate(&context(t, flat())).unwrap() {
        RiskDecision::Approved(a) => {
            assert_eq!(value(a.sized_notional_usd), dec("1000"));
            let q = Decimal::from_i128_with_scale(1000, 0) / dec("0.000012345678912");
            assert_eq!(value(a.sized_quantity), q);
            assert_eq!(a.sized_quantity.scale, q.scale());
        }
        RiskDecision::Rejected { .. } => panic!("expected an approval"),
    }
}

#[test]
fn risk_amounts_beyond_two_to_the_ninety() {
    let mut s = signal();
    s.entry.limit_price = Some(d("20000000000000000000000000000"));
    s.stop.stop_price = d("10000000000000000000000000000");
    let mut ctx = context(s, flat());
    ctx.limits.max_notional_usd = d("70000000000000000000000000000");
    ctx.limits.max_risk_per_trade_usd = d("5000000000000000000000000000");
    let checked = BasicRiskEngine.evaluate_checked(&ctx).unwrap().unwrap();
    match (checked, BasicRiskEngine.evaluate(&ctx).unwrap()) {
        (RiskDecision::Approved(a), RiskDecision::Approved(b)) => {
            assert_eq!(value(a.sized_notional_usd), dec("50000000000000000000000000000"));
            assert_eq!(value(a.sized_quantity), dec("2.5"));
            assert_eq!(a.sized_notional_usd, b.sized_notional_usd);
            assert_eq!(a.sized_quantity, b.sized_quantity);
        }
        _ => panic!("expected approvals"),
    }
}

#[test]
fn risk_overflow_is_reported() {
    // Ten times the risk per trade passes 2^96 - 1; it is computed even
    // when the signal carries its own notional.
    let mut s = signal();
    s.notional_usd = Some(d("1000"));
    let mut ctx = context(s, flat());
    ctx.limits.max_risk_per_trade_usd = d("10000000000000000000000000000");
    assert!(BasicRiskEngine.evaluate_checked(&ctx).is_none());
    // A rejection before sizing needs no product.
    ctx.portfolio.open_positions = 3;
    assert!(BasicRiskEngine.evaluate_checked(&ctx).unwrap().is_ok());
    // The quantity a notional buys at a tiny entry price overflows.
    let mut s = signal();
    s.entry.limit_price = Some(d("0.0000000000000000000000000001"));
    s.stop.stop_price = d("-1");
    assert!(BasicRiskEngine.evaluate_checked(&context(s, flat())).is_none());
}

#[test]
fn signal_overflow_is_reported() {
    // The first target, the entry plus a risk of 5 * 10^28, passes 2^96 - 1.
    let mut e = bullish_sweep();
    e.close_price = Some(d("60000000000000000000000000000"));
    e.sweep_extreme = Some(d("10000000000000000000000000000"));
    let setup = SetupEvent::from_market_event_with_id(&e, 1);
    assert!(TradeSignal::from_setup_checked(&setup, 0).is_none());
    // Prices beyond 2^90 whose targets fit are drawn.
    e.close_price = Some(d("30000000000000000000000000000"));
    e.sweep_extreme = Some(d("20000000000000000000000000000"));
    let setup = SetupEvent::from_market_event_with_id(&e, 1);
    let t = TradeSignal::from_setup_checked(&setup, 0).unwrap().unwrap();
    assert_eq!(value(t.targets[0].price), dec("40000000000000000000000000000"));
    assert_eq!(value(t.targets[1].price), dec("50000000000000000000000000000"));
    // No direction: nothing is computed.
    e.sweep_direction = None;
    let setup = SetupEvent::from_market_event_with_id(&e, 1);
    assert!(matches!(TradeSignal::from_setup_checked(&setup, 0), Some(None)));
}
