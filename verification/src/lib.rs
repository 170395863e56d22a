//! Verified core of a market-data SDK: wire enums, subscription shapes,
//! stream framing, delta decompression, frame dispatch and response decoding.

pub mod text;
pub mod enums;
pub mod contract;
pub mod subscription;
pub mod market_value;
pub mod error;
pub mod framing;
pub mod delta;
pub mod price;
pub mod events;
pub mod decode;
pub mod login;
pub mod registry;
pub mod table;
pub mod time_of_day;
pub mod vocabulary;
pub mod event_type;
pub mod batch;
pub mod builder;
pub mod hosts;
pub mod conditions;
pub mod drain;
pub mod endpoints;
