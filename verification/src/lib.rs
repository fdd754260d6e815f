//! Verified core of a constant-product (UniswapV2 style) and stable-swap
//! (Curve style) automated market maker.
pub mod account;
pub mod amounts;
pub mod amp_coef;
pub mod checks;
pub mod constants;
pub mod errors;
pub mod events;
pub mod factory;
pub mod helper;
pub mod ledger;
pub mod ownable;
pub mod pair;
pub mod rate_provider;
pub mod router;
pub mod router_pool;
pub mod router_v2;
pub mod stable_pool;
pub mod token_rate;
pub mod u256;
pub mod wnative;
