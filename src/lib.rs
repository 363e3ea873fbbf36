//! The economic core of a bonding-curve token sale: pricing curves in exact
//! integer arithmetic, the hatch/open/closed phase machine, and the buy and
//! burn operations that combine them.
pub mod abc;
pub mod contract;
pub mod curves;
pub mod error;
pub mod msg;
pub mod payment;
pub mod roots;
