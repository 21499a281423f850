pub mod into_underlying_byte_source;
pub mod into_underlying_source;
