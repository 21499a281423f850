pub mod into_underlying_sink;
