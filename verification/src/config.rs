//! Service configuration read from environment variables. The caller reads
//! the variables; everything else, defaults included, is decided here.

use vstd::prelude::*;
use vstd::string::StringExecFns;
use crate::chart::warmup::{ChartWarmupConfig, IndicatorProfile, TimeframeWarmupConfig};
use crate::text::{
    parse_bool, parse_unsigned, parse_usize, split_commas, split_on_commas, to_upper, trim, trimmed,
    unsigned_text, uppercase, law_unsigned_text_round_trip,
};

verus! {

/// What went wrong while reading the configuration.
#[derive(Clone, Copy, Debug, PartialEq, Eq, Structural)]
pub enum ConfigErrorKind {
    MissingDatabaseUrl,
    InvalidPort,
    InvalidVisibleBars,
    InvalidMaxRemoteBars,
    /// A list or optional integer held a value that is not one; the detail
    /// is that value.
    InvalidInteger,
    InvalidVwapFlag,
    /// A timeframe floor was not an integer; the detail is the variable.
    InvalidTimeframeBars,
}

#[derive(Clone, Debug)]
pub struct ConfigError {
    pub kind: ConfigErrorKind,
    /// The offending value or variable name, where the kind has one.
    pub detail: String,
}

impl ConfigError {
    /// The message shown for the error.
    pub fn message(&self) -> (r: String)
        ensures
            r@ == error_message(self.kind, self.detail@),
    {
        match self.kind {
            ConfigErrorKind::MissingDatabaseUrl => "DATABASE_URL must be set".to_owned(),
            ConfigErrorKind::InvalidPort => "PORT must be a valid port number".to_owned(),
            ConfigErrorKind::InvalidVisibleBars => "CHART_DEFAULT_VISIBLE_BARS must be a valid positive integer".to_owned(),
            ConfigErrorKind::InvalidMaxRemoteBars => "CHART_MAX_REMOTE_BARS must be a valid positive integer".to_owned(),
            ConfigErrorKind::InvalidInteger => "invalid integer value: ".to_owned().concat(self.detail.as_str()),
            ConfigErrorKind::InvalidVwapFlag => "CHART_ENABLE_VWAP must be true or false".to_owned(),
            ConfigErrorKind::InvalidTimeframeBars => self.detail.clone().concat(" must be a valid positive integer"),
        }
    }
}

pub open spec fn error_message(kind: ConfigErrorKind, detail: Seq<char>) -> Seq<char> {
    match kind {
        ConfigErrorKind::MissingDatabaseUrl => "DATABASE_URL must be set"@,
        ConfigErrorKind::InvalidPort => "PORT must be a valid port number"@,
        ConfigErrorKind::InvalidVisibleBars => "CHART_DEFAULT_VISIBLE_BARS must be a valid positive integer"@,
        ConfigErrorKind::InvalidMaxRemoteBars => "CHART_MAX_REMOTE_BARS must be a valid positive integer"@,
        ConfigErrorKind::InvalidInteger => "invalid integer value: "@ + detail,
        ConfigErrorKind::InvalidVwapFlag => "CHART_ENABLE_VWAP must be true or false"@,
        ConfigErrorKind::InvalidTimeframeBars => detail + " must be a valid positive integer"@,
    }
}

/// The integers of a comma-separated list, blank entries skipped, or the
/// first entry that is not an integer.
pub open spec fn usize_list(pieces: Seq<Seq<char>>) -> Result<Seq<usize>, Seq<char>>
    decreases pieces.len(),
{
    if pieces.len() == 0 {
        Ok(seq![])
    } else {
        match usize_list(pieces.drop_last()) {
            Err(e) => Err(e),
            Ok(v) => {
                let t = trimmed(pieces.last());
                if t.len() == 0 {
                    Ok(v)
                } else {
                    match unsigned_text(t, usize::MAX as int) {
                        Some(n) => Ok(v.push(n as usize)),
                        None => Err(t),
                    }
                }
            },
        }
    }
}

/// Reads a comma-separated list of integers; blank entries are skipped and
/// the first entry that is not an integer is reported.
pub fn parse_usize_list(raw: &str) -> (r: Result<Vec<usize>, ConfigError>)
    ensures
        match usize_list(split_commas(raw@)) {
            Ok(v) => r matches Ok(x) && x@ == v,
            Err(t) => r matches Err(e) && e.kind == ConfigErrorKind::InvalidInteger && e.detail@ == t,
        },
{
    let pieces = split_on_commas(raw);
    let ghost sp = split_commas(raw@);
    let mut out: Vec<usize> = Vec::new();
    let mut i: usize = 0;
    while i < pieces.len()
        invariant
            0 <= i <= pieces@.len(),
            sp == split_commas(raw@),
            pieces@.len() == sp.len(),
            forall|k: int| 0 <= k < pieces@.len() ==> (#[trigger] pieces@[k])@ == sp[k],
            usize_list(sp.take(i as int)) == Ok::<Seq<usize>, Seq<char>>(out@),
        decreases pieces@.len() - i,
    {
        assert(sp.take(i + 1).drop_last() =~= sp.take(i as int));
        assert(sp.take(i + 1).last() == sp[i as int]);
        let t = trim(pieces[i].as_str());
        if t.unicode_len() > 0 {
            match parse_usize(t.as_str()) {
                Some(n) => {
                    out.push(n);
                },
                None => {
                    proof {
                        assert(usize_list(sp.take(i + 1)) == Err::<Seq<usize>, Seq<char>>(t@));
                        lemma_usize_list_stops(sp, i + 1);
                        assert(usize_list(sp) == Err::<Seq<usize>, Seq<char>>(t@));
                    }
                    return Err(ConfigError { kind: ConfigErrorKind::InvalidInteger, detail: t });
                },
            }
        }
        i = i + 1;
    }
    assert(sp.take(sp.len() as int) =~= sp);
    Ok(out)
}

/// Once a prefix fails, the whole list fails with the same entry.
proof fn lemma_usize_list_stops(sp: Seq<Seq<char>>, n: int)
    requires
        0 <= n <= sp.len(),
        usize_list(sp.take(n)) is Err,
    ensures
        usize_list(sp) == usize_list(sp.take(n)),
    decreases sp.len() - n,
{
    if n < sp.len() {
        assert(sp.take(n + 1).drop_last() =~= sp.take(n));
        lemma_usize_list_stops(sp, n + 1);
    } else {
        assert(sp.take(n) =~= sp);
    }
}

/// An optional integer: absent or blank reads as none, otherwise the
/// trimmed text must be an integer.
pub open spec fn optional_usize(raw: Option<Seq<char>>) -> Result<Option<usize>, Seq<char>> {
    match raw {
        None => Ok(None),
        Some(s) => {
            let t = trimmed(s);
            if t.len() == 0 {
                Ok(None)
            } else {
                match unsigned_text(t, usize::MAX as int) {
                    Some(n) => Ok(Some(n as usize)),
                    None => Err(t),
                }
            }
        },
    }
}

pub fn parse_optional_usize(raw: Option<&str>) -> (r: Result<Option<usize>, ConfigError>)
    ensures
        match optional_usize(
            match raw {
                Some(s) => Some(s@),
                None => None,
            },
        ) {
            Ok(v) => r == Ok::<Option<usize>, ConfigError>(v),
            Err(t) => r matches Err(e) && e.kind == ConfigErrorKind::InvalidInteger && e.detail@ == t,
        },
{
    match raw {
        None => Ok(None),
        Some(s) => {
            let t = trim(s);
            if t.unicode_len() == 0 {
                Ok(None)
            } else {
                match parse_usize(t.as_str()) {
                    Some(n) => Ok(Some(n)),
                    None => Err(ConfigError { kind: ConfigErrorKind::InvalidInteger, detail: t }),
                }
            }
        },
    }
}

/// The coins of a comma-separated list: trimmed, upper-cased, blank
/// entries skipped.
pub open spec fn coin_list(pieces: Seq<Seq<char>>) -> Seq<Seq<char>>
    decreases pieces.len(),
{
    if pieces.len() == 0 {
        seq![]
    } else {
        let prev = coin_list(pieces.drop_last());
        let c = uppercase(trimmed(pieces.last()));
        if c.len() == 0 {
            prev
        } else {
            prev.push(c)
        }
    }
}

pub fn parse_coin_list(raw: &str) -> (r: Vec<String>)
    ensures
        r@.len() == coin_list(split_commas(raw@)).len(),
        forall|k: int| 0 <= k < r@.len() ==> (#[trigger] r@[k])@ == coin_list(split_commas(raw@))[k],
{
    let pieces = split_on_commas(raw);
    let ghost sp = split_commas(raw@);
    let mut out: Vec<String> = Vec::new();
    let mut i: usize = 0;
    while i < pieces.len()
        invariant
            0 <= i <= pieces@.len(),
            sp == split_commas(raw@),
            pieces@.len() == sp.len(),
            forall|k: int| 0 <= k < pieces@.len() ==> (#[trigger] pieces@[k])@ == sp[k],
            out@.len() == coin_list(sp.take(i as int)).len(),
            forall|k: int| 0 <= k < out@.len() ==> (#[trigger] out@[k])@ == coin_list(sp.take(i as int))[k],
        decreases pieces@.len() - i,
    {
        assert(sp.take(i + 1).drop_last() =~= sp.take(i as int));
        assert(sp.take(i + 1).last() == sp[i as int]);
        let t = trim(pieces[i].as_str());
        let c = to_upper(t.as_str());
        let ghost before = out@;
        if c.unicode_len() > 0 {
            out.push(c);
        }
        proof {
            let want = coin_list(sp.take(i + 1));
            assert forall|k: int| 0 <= k < out@.len() implies (#[trigger] out@[k])@ == want[k] by {
                if k < before.len() {
                    assert(out@[k] == before[k]);
                }
            }
        }
        i = i + 1;
    }
    assert(sp.take(sp.len() as int) =~= sp);
    out
}

/// The environment variables the service reads, as found (`None` when a
/// variable is unset or not valid unicode).
#[derive(Clone, Debug)]
pub struct EnvVars {
    pub database_url: Option<String>,
    pub port: Option<String>,
    pub coins: Option<String>,
    pub default_visible_bars: Option<String>,
    pub max_remote_bars: Option<String>,
    pub ema_periods: Option<String>,
    pub sma_periods: Option<String>,
    pub rolling_volume_periods: Option<String>,
    pub market_structure_lookbacks: Option<String>,
    pub orb_window_bars: Option<String>,
    pub enable_vwap: Option<String>,
    pub multi_symbol_context_bars: Option<String>,
    /// The per-timeframe floors, in the order of `warmup_timeframes`.
    pub warmup_bars: Vec<Option<String>>,
}

/// The service configuration.
#[derive(Clone, Debug)]
pub struct Config {
    pub database_url: String,
    pub port: u16,
    pub coins: Vec<String>,
    pub chart_warmup: ChartWarmupConfig,
}

/// The timeframes with a warm-up floor, and their default floors.
pub open spec fn timeframe_defaults() -> Seq<(&'static str, usize)> {
    seq![("1m", 2_000), ("5m", 1_500), ("15m", 1_000), ("1h", 1_000), ("4h", 500), ("1d", 500)]
}

pub fn warmup_timeframes() -> (r: Vec<(&'static str, usize)>)
    ensures
        r@ == timeframe_defaults(),
{
    vec![("1m", 2_000), ("5m", 1_500), ("15m", 1_000), ("1h", 1_000), ("4h", 500), ("1d", 500)]
}

/// The variable holding a timeframe's floor: `CHART_WARMUP_<LABEL>_BARS`.
pub open spec fn timeframe_key(label: Seq<char>) -> Seq<char> {
    "CHART_WARMUP_"@ + uppercase(label) + "_BARS"@
}

pub fn timeframe_env_key(label: &str) -> (r: String)
    ensures
        r@ == timeframe_key(label@),
{
    "CHART_WARMUP_".to_owned().concat(to_upper(label).as_str()).concat("_BARS")
}

/// The variable's value, or the default when it is unset.
pub open spec fn or_default(v: Option<String>, d: Seq<char>) -> Seq<char> {
    match v {
        Some(s) => s@,
        None => d,
    }
}

fn value_or<'a>(v: &'a Option<String>, d: &'a str) -> (r: &'a str)
    ensures
        r@ == or_default(*v, d@),
{
    match v {
        Some(s) => s.as_str(),
        None => d,
    }
}

/// The default text of a timeframe floor: the default number's digits.
pub open spec fn floor_text(v: Option<String>, default_floor: usize) -> Seq<char> {
    or_default(v, crate::text::digits_of(default_floor as nat))
}

/// The offending text of a failed read.
pub open spec fn fault_text<T>(r: Result<T, Seq<char>>) -> Seq<char> {
    match r {
        Ok(_) => seq![],
        Err(t) => t,
    }
}

/// The opening-range variable's text, if set.
pub open spec fn orb_text(v: Option<String>) -> Option<Seq<char>> {
    match v {
        Some(s) => Some(s@),
        None => None,
    }
}

/// The integers of a list variable, or its first entry that is not one.
pub open spec fn list_of(v: Option<String>, d: Seq<char>) -> Result<Seq<usize>, Seq<char>> {
    usize_list(split_commas(or_default(v, d)))
}

/// The first problem with the variables, in the order they are read, as
/// a kind and its detail.
pub open spec fn first_error(vars: EnvVars) -> Option<(ConfigErrorKind, Seq<char>)> {
    if vars.database_url is None {
        Some((ConfigErrorKind::MissingDatabaseUrl, seq![]))
    } else if unsigned_text(or_default(vars.port, "3001"@), 65535) is None {
        Some((ConfigErrorKind::InvalidPort, seq![]))
    } else if unsigned_text(or_default(vars.default_visible_bars, "300"@), usize::MAX as int) is None {
        Some((ConfigErrorKind::InvalidVisibleBars, seq![]))
    } else if unsigned_text(or_default(vars.max_remote_bars, "5000"@), usize::MAX as int) is None {
        Some((ConfigErrorKind::InvalidMaxRemoteBars, seq![]))
    } else if list_of(vars.ema_periods, "50,100,200"@) is Err {
        Some((ConfigErrorKind::InvalidInteger, fault_text(list_of(vars.ema_periods, "50,100,200"@))))
    } else if list_of(vars.sma_periods, ""@) is Err {
        Some((ConfigErrorKind::InvalidInteger, fault_text(list_of(vars.sma_periods, ""@))))
    } else if list_of(vars.rolling_volume_periods, "20"@) is Err {
        Some((ConfigErrorKind::InvalidInteger, fault_text(list_of(vars.rolling_volume_periods, "20"@))))
    } else if list_of(vars.market_structure_lookbacks, "20,50"@) is Err {
        Some((ConfigErrorKind::InvalidInteger, fault_text(list_of(vars.market_structure_lookbacks, "20,50"@))))
    } else if optional_usize(orb_text(vars.orb_window_bars)) is Err {
        Some((ConfigErrorKind::InvalidInteger, fault_text(optional_usize(orb_text(vars.orb_window_bars)))))
    } else if !(or_default(vars.enable_vwap, "false"@) == "true"@ || or_default(vars.enable_vwap, "false"@)
        == "false"@) {
        Some((ConfigErrorKind::InvalidVwapFlag, seq![]))
    } else if list_of(vars.multi_symbol_context_bars, ""@) is Err {
        Some((ConfigErrorKind::InvalidInteger, fault_text(list_of(vars.multi_symbol_context_bars, ""@))))
    } else {
        timeframe_error(vars.warmup_bars@, 0)
    }
}

/// The first timeframe, from index `i` on, whose floor is not an integer.
pub open spec fn timeframe_error(vals: Seq<Option<String>>, i: int) -> Option<(ConfigErrorKind, Seq<char>)>
    decreases 6 - i,
{
    if i >= 6 {
        None
    } else if unsigned_text(floor_text(vals[i], timeframe_defaults()[i].1), usize::MAX as int) is None {
        Some((ConfigErrorKind::InvalidTimeframeBars, timeframe_key(timeframe_defaults()[i].0@)))
    } else {
        timeframe_error(vals, i + 1)
    }
}

/// The integer a present, valid value reads as.
pub open spec fn read_usize(text: Seq<char>) -> usize {
    match unsigned_text(text, usize::MAX as int) {
        Some(n) => n as usize,
        None => 0,
    }
}

pub open spec fn read_port(text: Seq<char>) -> int {
    match unsigned_text(text, 65535) {
        Some(n) => n,
        None => 0,
    }
}

fn parse_port(s: &str) -> (r: Option<u16>)
    ensures
        r == (match unsigned_text(s@, 65535) {
            Some(v) => Some(v as u16),
            None => None,
        }),
        r matches Some(p) ==> p == read_port(s@),
{
    match parse_unsigned(s, 65535) {
        Some(v) => Some(v as u16),
        None => None,
    }
}

pub open spec fn read_list(v: Option<String>, d: Seq<char>) -> Seq<usize> {
    match usize_list(split_commas(or_default(v, d))) {
        Ok(l) => l,
        Err(_) => seq![],
    }
}

/// `c` is the configuration the variables describe.
pub open spec fn config_from(c: Config, vars: EnvVars) -> bool {
    let p = c.chart_warmup.indicator_profile;
    let coins = coin_list(split_commas(or_default(vars.coins, "BTC,ETH,SOL"@)));
    &&& vars.database_url matches Some(u) && c.database_url == u
    &&& c.port == read_port(or_default(vars.port, "3001"@))
    &&& c.coins@.len() == coins.len()
    &&& forall|k: int| 0 <= k < coins.len() ==> (#[trigger] c.coins@[k])@ == coins[k]
    &&& c.chart_warmup.default_visible_bars == read_usize(or_default(vars.default_visible_bars, "300"@))
    &&& c.chart_warmup.max_remote_bars == read_usize(or_default(vars.max_remote_bars, "5000"@))
    &&& p.ema_periods@ == read_list(vars.ema_periods, "50,100,200"@)
    &&& p.sma_periods@ == read_list(vars.sma_periods, ""@)
    &&& p.rolling_volume_periods@ == read_list(vars.rolling_volume_periods, "20"@)
    &&& p.market_structure_lookbacks@ == read_list(vars.market_structure_lookbacks, "20,50"@)
    &&& Ok::<Option<usize>, Seq<char>>(p.orb_window_bars) == optional_usize(
        match vars.orb_window_bars {
            Some(s) => Some(s@),
            None => None,
        },
    )
    &&& p.vwap_sessions == (or_default(vars.enable_vwap, "false"@) == "true"@)
    &&& p.multi_symbol_context_bars@ == read_list(vars.multi_symbol_context_bars, ""@)
    &&& c.chart_warmup.per_timeframe@.len() == 6
    &&& forall|i: int| 0 <= i < 6 ==> {
        &&& (#[trigger] c.chart_warmup.per_timeframe@[i]).interval@ == timeframe_defaults()[i].0@
        &&& c.chart_warmup.per_timeframe@[i].floor_bars == read_usize(
            floor_text(vars.warmup_bars@[i], timeframe_defaults()[i].1),
        )
    }
}

fn read_list_var(v: &Option<String>, d: &str) -> (r: Result<Vec<usize>, ConfigError>)
    ensures
        match usize_list(split_commas(or_default(*v, d@))) {
            Ok(l) => r matches Ok(x) && x@ == l,
            Err(t) => r matches Err(e) && e.kind == ConfigErrorKind::InvalidInteger && e.detail@ == t,
        },
{
    parse_usize_list(value_or(v, d))
}

fn read_usize_var(v: &Option<String>, d: &str, kind: ConfigErrorKind) -> (r: Result<usize, ConfigError>)
    ensures
        match unsigned_text(or_default(*v, d@), usize::MAX as int) {
            Some(n) => r == Ok::<usize, ConfigError>(n as usize),
            None => r matches Err(e) && e.kind == kind && e.detail@ == Seq::<char>::empty(),
        },
{
    match parse_usize(value_or(v, d)) {
        Some(n) => Ok(n),
        None => Err(ConfigError { kind, detail: String::new() }),
    }
}

impl Config {
    /// The configuration the variables describe, with the documented
    /// defaults for unset variables, or the first problem met.
    #[verifier::loop_isolation(false)]
    pub fn from_vars(vars: &EnvVars) -> (r: Result<Config, ConfigError>)
        requires
            vars.warmup_bars@.len() == 6,
        ensures
            match first_error(*vars) {
                Some(e) => r matches Err(x) && x.kind == e.0 && x.detail@ == e.1,
                None => r matches Ok(c) && config_from(c, *vars),
            },
            r matches Ok(c) ==> forall|i: int|
                0 <= i < 6 && vars.warmup_bars@[i] is None ==> (#[trigger] c.chart_warmup.per_timeframe@[
                    i]).floor_bars == timeframe_defaults()[i].1,
    {
        let database_url = match &vars.database_url {
            Some(u) => u.clone(),
            None => {
                return Err(ConfigError { kind: ConfigErrorKind::MissingDatabaseUrl, detail: String::new() });
            },
        };
        let port = match parse_port(value_or(&vars.port, "3001")) {
            Some(p) => p,
            None => {
                return Err(ConfigError { kind: ConfigErrorKind::InvalidPort, detail: String::new() });
            },
        };
        let coins = parse_coin_list(value_or(&vars.coins, "BTC,ETH,SOL"));
        let default_visible_bars = match read_usize_var(&vars.default_visible_bars, "300", ConfigErrorKind::InvalidVisibleBars) {
            Ok(v) => v,
            Err(e) => {
                return Err(e);
            },
        };
        let max_remote_bars = match read_usize_var(&vars.max_remote_bars, "5000", ConfigErrorKind::InvalidMaxRemoteBars) {
            Ok(v) => v,
            Err(e) => {
                return Err(e);
            },
        };
        let ema_periods = match read_list_var(&vars.ema_periods, "50,100,200") {
            Ok(v) => v,
            Err(e) => {
                return Err(e);
            },
        };
        let sma_periods = match read_list_var(&vars.sma_periods, "") {
            Ok(v) => v,
            Err(e) => {
                return Err(e);
            },
        };
        let rolling_volume_periods = match read_list_var(&vars.rolling_volume_periods, "20") {
            Ok(v) => v,
            Err(e) => {
                return Err(e);
            },
        };
        let market_structure_lookbacks = match read_list_var(&vars.market_structure_lookbacks, "20,50") {
            Ok(v) => v,
            Err(e) => {
                return Err(e);
            },
        };
        let orb_window_bars = match parse_optional_usize(
            match &vars.orb_window_bars {
                Some(s) => Some(s.as_str()),
                None => None,
            },
        ) {
            Ok(v) => v,
            Err(e) => {
                return Err(e);
            },
        };
        let vwap_sessions = match parse_bool(value_or(&vars.enable_vwap, "false")) {
            Some(b) => b,
            None => {
                return Err(ConfigError { kind: ConfigErrorKind::InvalidVwapFlag, detail: String::new() });
            },
        };
        let multi_symbol_context_bars = match read_list_var(&vars.multi_symbol_context_bars, "") {
            Ok(v) => v,
            Err(e) => {
                return Err(e);
            },
        };
        let defaults = warmup_timeframes();
        let mut per_timeframe: Vec<TimeframeWarmupConfig> = Vec::new();
        let mut i: usize = 0;
        while i < 6
            invariant
                0 <= i <= 6,
                vars.warmup_bars@.len() == 6,
                defaults@ == timeframe_defaults(),
                timeframe_error(vars.warmup_bars@, 0) == timeframe_error(vars.warmup_bars@, i as int),
                per_timeframe@.len() == i,
                forall|k: int| 0 <= k < i ==> {
                    &&& (#[trigger] per_timeframe@[k]).interval@ == timeframe_defaults()[k].0@
                    &&& per_timeframe@[k].floor_bars == read_usize(
                        floor_text(vars.warmup_bars@[k], timeframe_defaults()[k].1),
                    )
                },
            decreases 6 - i,
        {
            let (label, default_floor) = defaults[i];
            let default_text = crate::text::unsigned_to_text(default_floor as u64);
            let floor = match parse_usize(value_or(&vars.warmup_bars[i], default_text.as_str())) {
                Some(n) => n,
                None => {
                    return Err(ConfigError { kind: ConfigErrorKind::InvalidTimeframeBars, detail: timeframe_env_key(label) });
                },
            };
            per_timeframe.push(TimeframeWarmupConfig { interval: label.to_owned(), floor_bars: floor });
            i = i + 1;
        }
        let config = Config {
            database_url,
            port,
            coins,
            chart_warmup: ChartWarmupConfig {
                default_visible_bars,
                max_remote_bars,
                indicator_profile: IndicatorProfile {
                    ema_periods,
                    sma_periods,
                    rolling_volume_periods,
                    market_structure_lookbacks,
                    orb_window_bars,
                    vwap_sessions,
                    multi_symbol_context_bars,
                },
                per_timeframe,
            },
        };
        proof {
            lemma_default_floors(config, *vars);
        }
        Ok(config)
    }
}

/// A timeframe whose variable is unset gets its default floor.
proof fn lemma_default_floors(c: Config, vars: EnvVars)
    requires
        config_from(c, vars),
    ensures
        forall|i: int|
            0 <= i < 6 && vars.warmup_bars@[i] is None ==> (#[trigger] c.chart_warmup.per_timeframe@[i]).floor_bars
                == timeframe_defaults()[i].1,
{
    assert forall|i: int| 0 <= i < 6 && vars.warmup_bars@[i] is None implies (#[trigger] c.chart_warmup.per_timeframe@[
        i]).floor_bars == timeframe_defaults()[i].1 by {
        law_unsigned_text_round_trip(timeframe_defaults()[i].1 as nat, usize::MAX as int);
    }
}

} // verus!
