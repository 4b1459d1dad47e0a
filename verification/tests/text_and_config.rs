use hyperliquid_lens::chart::warmup::ChartWarmupConfig;
use hyperliquid_lens::config::{
    parse_coin_list, parse_optional_usize, parse_usize_list, timeframe_env_key, warmup_timeframes,
    Config, ConfigErrorKind, EnvVars,
};
use hyperliquid_lens::text::{
    i64_to_text, parse_bool, parse_unsigned, parse_usize, split_on_commas, text_eq, trim,
    unsigned_to_text, white_space,
};

fn no_vars() -> EnvVars {
    EnvVars {
        database_url: Some("postgres://localhost/lens".to_string()),
        port: None,
        coins: None,
        default_visible_bars: None,
        max_remote_bars: None,
        ema_periods: None,
        sma_periods: None,
        rolling_volume_periods: None,
        market_structure_lookbacks: None,
        orb_window_bars: None,
        enable_vwap: None,
        multi_symbol_context_bars: None,
        warmup_bars: vec![None, None, None, None, None, None],
    }
}

fn warmup(c: &Config) -> &ChartWarmupConfig {
    &c.chart_warmup
}

#[test]
fn text_eq_compares_characters() {
    assert!(text_eq("BTC", "BTC"));
    assert!(!text_eq("BTC", "btc"));
    assert!(!text_eq("", " "));
}

#[test]
fn white_space_follows_unicode() {
    assert!(white_space(' '));
    assert!(white_space('\t'));
    assert!(white_space('\u{3000}'));
    assert!(!white_space('x'));
    assert!(!white_space('\u{200b}'));
}

#[test]
fn trim_removes_both_ends() {
    assert_eq!(trim("  ETH \n"), "ETH");
    assert_eq!(trim("   "), "");
    assert_eq!(trim("a b"), "a b");
    assert_eq!(trim("\u{a0}x\u{2003}"), "x");
}

#[test]
fn split_keeps_empty_pieces() {
    assert_eq!(split_on_commas("a,,b"), vec!["a", "", "b"]);
    assert_eq!(split_on_commas(""), vec![""]);
    assert_eq!(split_on_commas(","), vec!["", ""]);
    assert_eq!(split_on_commas("x"), vec!["x"]);
}

#[test]
fn parse_unsigned_matches_std() {
    assert_eq!(parse_unsigned("65535", 65535), Some(65535));
    assert_eq!(parse_unsigned("65536", 65535), None);
    assert_eq!(parse_unsigned("+7", 100), Some(7));
    assert_eq!(parse_unsigned("+", 100), None);
    assert_eq!(parse_unsigned("", 100), None);
    assert_eq!(parse_unsigned("-1", 100), None);
    assert_eq!(parse_unsigned(" 1", 100), None);
    assert_eq!(parse_unsigned("007", 100), Some(7));
    assert_eq!(parse_unsigned("18446744073709551615", u64::MAX), Some(u64::MAX));
    assert_eq!(parse_unsigned("18446744073709551616", u64::MAX), None);
    for s in ["0", "42", "12a", "999999"] {
        assert_eq!(parse_unsigned(s, 65535).map(|v| v as u16), s.parse::<u16>().ok());
    }
}

#[test]
fn parse_usize_and_bool() {
    assert_eq!(parse_usize("300"), Some(300));
    assert_eq!(parse_usize("3.5"), None);
    assert_eq!(parse_bool("true"), Some(true));
    assert_eq!(parse_bool("false"), Some(false));
    assert_eq!(parse_bool("True"), None);
    assert_eq!(parse_bool(" true"), None);
}

#[test]
fn integers_to_text() {
    assert_eq!(unsigned_to_text(0), "0");
    assert_eq!(unsigned_to_text(1500), "1500");
    assert_eq!(unsigned_to_text(u64::MAX), u64::MAX.to_string());
    assert_eq!(i64_to_text(-42), "-42");
    assert_eq!(i64_to_text(i64::MIN), i64::MIN.to_string());
    assert_eq!(i64_to_text(1_700_000_000_000), "1700000000000");
}

#[test]
fn usize_list_skips_blanks() {
    assert_eq!(parse_usize_list("50, 100 ,200").unwrap(), vec![50, 100, 200]);
    assert_eq!(parse_usize_list("").unwrap(), Vec::<usize>::new());
    assert_eq!(parse_usize_list(" , 20,").unwrap(), vec![20]);
}

#[test]
fn usize_list_reports_first_bad_entry() {
    let e = parse_usize_list("10, x1 ,y").unwrap_err();
    assert_eq!(e.kind, ConfigErrorKind::InvalidInteger);
    assert_eq!(e.detail, "x1");
    assert_eq!(e.message(), "invalid integer value: x1");
}

#[test]
fn optional_usize_cases() {
    assert_eq!(parse_optional_usize(None).unwrap(), None);
    assert_eq!(parse_optional_usize(Some("  ")).unwrap(), None);
    assert_eq!(parse_optional_usize(Some(" 30 ")).unwrap(), Some(30));
    let e = parse_optional_usize(Some(" -3 ")).unwrap_err();
    assert_eq!(e.kind, ConfigErrorKind::InvalidInteger);
    assert_eq!(e.detail, "-3");
}

#[test]
fn coin_list_trims_and_uppercases() {
    assert_eq!(parse_coin_list(" btc, eth ,,sol "), vec!["BTC", "ETH", "SOL"]);
    assert!(parse_coin_list(" , ").is_empty());
}

#[test]
fn timeframe_keys_and_defaults() {
    assert_eq!(timeframe_env_key("1m"), "CHART_WARMUP_1M_BARS");
    assert_eq!(timeframe_env_key("4h"), "CHART_WARMUP_4H_BARS");
    assert_eq!(
        warmup_timeframes(),
        vec![("1m", 2000), ("5m", 1500), ("15m", 1000), ("1h", 1000), ("4h", 500), ("1d", 500)]
    );
}

#[test]
fn config_defaults() {
    let c = Config::from_vars(&no_vars()).unwrap();
    assert_eq!(c.database_url, "postgres://localhost/lens");
    assert_eq!(c.port, 3001);
    assert_eq!(c.coins, vec!["BTC", "ETH", "SOL"]);
    let w = warmup(&c);
    assert_eq!(w.default_visible_bars, 300);
    assert_eq!(w.max_remote_bars, 5000);
    assert_eq!(w.indicator_profile.ema_periods, vec![50, 100, 200]);
    assert!(w.indicator_profile.sma_periods.is_empty());
    assert_eq!(w.indicator_profile.rolling_volume_periods, vec![20]);
    assert_eq!(w.indicator_profile.market_structure_lookbacks, vec![20, 50]);
    assert_eq!(w.indicator_profile.orb_window_bars, None);
    assert!(!w.indicator_profile.vwap_sessions);
    assert!(w.indicator_profile.multi_symbol_context_bars.is_empty());
    let floors: Vec<(String, usize)> =
        w.per_timeframe.iter().map(|t| (t.interval.clone(), t.floor_bars)).collect();
    assert_eq!(
        floors,
        vec![
            ("1m".to_string(), 2000),
            ("5m".to_string(), 1500),
            ("15m".to_string(), 1000),
            ("1h".to_string(), 1000),
            ("4h".to_string(), 500),
            ("1d".to_string(), 500)
        ]
    );
}

#[test]
fn config_reads_given_values() {
    let mut v = no_vars();
    v.port = Some("8080".to_string());
    v.coins = Some("hype, btc".to_string());
    v.enable_vwap = Some("true".to_string());
    v.orb_window_bars = Some("30".to_string());
    v.warmup_bars[3] = Some("1234".to_string());
    let c = Config::from_vars(&v).unwrap();
    assert_eq!(c.port, 8080);
    assert_eq!(c.coins, vec!["HYPE", "BTC"]);
    assert!(c.chart_warmup.indicator_profile.vwap_sessions);
    assert_eq!(c.chart_warmup.indicator_profile.orb_window_bars, Some(30));
    assert_eq!(c.chart_warmup.per_timeframe[3].floor_bars, 1234);
    assert_eq!(c.chart_warmup.per_timeframe[0].floor_bars, 2000);
}

#[test]
fn config_errors_in_reading_order() {
    let mut v = no_vars();
    v.database_url = None;
    v.port = Some("x".to_string());
    let e = Config::from_vars(&v).unwrap_err();
    assert_eq!(e.kind, ConfigErrorKind::MissingDatabaseUrl);
    assert_eq!(e.message(), "DATABASE_URL must be set");

    let mut v = no_vars();
    v.port = Some("70000".to_string());
    let e = Config::from_vars(&v).unwrap_err();
    assert_eq!(e.kind, ConfigErrorKind::InvalidPort);
    assert_eq!(e.message(), "PORT must be a valid port number");

    let mut v = no_vars();
    v.default_visible_bars = Some("-1".to_string());
    let e = Config::from_vars(&v).unwrap_err();
    assert_eq!(e.kind, ConfigErrorKind::InvalidVisibleBars);
    assert_eq!(e.message(), "CHART_DEFAULT_VISIBLE_BARS must be a valid positive integer");

    let mut v = no_vars();
    v.max_remote_bars = Some("".to_string());
    let e = Config::from_vars(&v).unwrap_err();
    assert_eq!(e.kind, ConfigErrorKind::InvalidMaxRemoteBars);
    assert_eq!(e.message(), "CHART_MAX_REMOTE_BARS must be a valid positive integer");

    let mut v = no_vars();
    v.sma_periods = Some("9,abc".to_string());
    let e = Config::from_vars(&v).unwrap_err();
    assert_eq!(e.kind, ConfigErrorKind::InvalidInteger);
    assert_eq!(e.message(), "invalid integer value: abc");

    let mut v = no_vars();
    v.enable_vwap = Some("yes".to_string());
    let e = Config::from_vars(&v).unwrap_err();
    assert_eq!(e.kind, ConfigErrorKind::InvalidVwapFlag);
    assert_eq!(e.message(), "CHART_ENABLE_VWAP must be true or false");

    let mut v = no_vars();
    v.warmup_bars[4] = Some("many".to_string());
    v.warmup_bars[5] = Some("more".to_string());
    let e = Config::from_vars(&v).unwrap_err();
    assert_eq!(e.kind, ConfigErrorKind::InvalidTimeframeBars);
    assert_eq!(e.message(), "CHART_WARMUP_4H_BARS must be a valid positive integer");
}

#[test]
fn numbers_read_back_from_their_text() {
    for n in [0u64, 7, 10, 2000, 65535, u64::MAX] {
        assert_eq!(parse_unsigned(&unsigned_to_text(n), u64::MAX), Some(n));
    }
    assert_eq!(parse_unsigned(&unsigned_to_text(1500), 1500), Some(1500));
    assert_eq!(parse_usize(&unsigned_to_text(500)), Some(500));
}
