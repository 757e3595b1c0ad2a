//! Works out what exercising and selling stock option grants yields on a
//! given day at a given share price, taxes included.
//!
//! The modules come from the ground up: each builds on those before it.

pub mod ratio;
pub mod dollars;
pub mod calendar;
pub mod user_data;
pub mod equity;
pub mod taxes;
pub mod tax_calculator;
pub mod clerk_calculator;
