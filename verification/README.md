# hyperliquid_lens

A real-time trade indexer for the Hyperliquid exchange: it ingests the
trade feed, builds candles, detects liquidity sweeps and liquidation
cascades, follows each event through an observation window to record what
happened next, and serves trades, candles and events over HTTP and
WebSocket.

## Layout

- `src/` — the verified library (Verus). Every rule of the service lives
  here with its contract: decimal arithmetic over `rust_decimal`, candle
  building, swing/sweep/cascade detection, outcome classification, the
  outcome tracker's decisions, day replays, chart warm-up planning,
  configuration, trade and candle parsing, alerts, and the setup → signal
  → risk → order chain. Laws that span calls are public `law_*` proof
  functions next to the code they speak of.
- `tests/` — tests of the library on concrete values.
- `app/` — the service around the library: Axum routes, Postgres
  repositories, the exchange WebSocket and HTTP clients, the background
  tasks, and the floating-point regime scoring.
