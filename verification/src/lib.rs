//! Accounting core of a multi-asset ledger: a fungible token, staking,
//! leveraged positions, vault shares, a liquid-staking derivative and
//! resting orders, with every state transition verified.

pub mod amount;
pub mod table;
pub mod ledger;
pub mod token;
pub mod staking;
pub mod vault;
pub mod trading;
pub mod liquid;
pub mod orders;
pub mod window;
pub mod keys;
