//! Validation logic of the DDC validator pallets: era bookkeeping, random
//! assignment of validators to CDN edges, parsing of the aggregated traffic
//! figures, the query addresses of the data provider, and the decisions of
//! the offchain workers, each written as a state machine.

pub mod aggregate;
pub mod chain;
pub mod dac_validator_offchain_worker;
pub mod ddc_validator;
pub mod decimal;
pub mod era;
pub mod http;
pub mod query;
pub mod randomness;
