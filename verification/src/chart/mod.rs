//! Chart support: how much history a chart fetches and how local and
//! remote candles combine.

pub mod warmup;
