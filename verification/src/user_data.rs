//! What a filer brings: an income, a filing status and stock option grants.

use crate::calendar::CalendarDate;
use crate::dollars::Dollars;
use crate::taxes::FilingStatus;
use vstd::prelude::*;

verus! {

/// The filer's own data.
#[derive(Debug)]
pub struct UserData {
    /// The income of the year before anything is exercised.
    pub income: Dollars,
    pub filing_status: FilingStatus,
    pub grants: Vec<Grant>,
}

/// An award of `total` options at `price` a share, vesting from `start` on.
///
/// Two grants with the same price, count and start are the same grant.
#[derive(Debug, Clone, Copy, PartialEq, Eq, Structural, Hash)]
pub struct Grant {
    pub price: Dollars,
    pub total: u16,
    pub start: CalendarDate,
}

} // verus!
