//! An in-process relay library: a single-consumer hand-off queue fed by any
//! number of producer handles, together with the keyed stores, lookup
//! chains and dispatch helpers that its callers use.

pub mod beer;
pub mod complex;
pub mod config;
pub mod detailed;
pub mod items;
pub mod lookup;
pub mod queue;
pub mod relay;
pub mod store;
pub mod strmap;
pub mod workers;
