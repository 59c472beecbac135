use vstd::prelude::*;

verus! {

/// Configuration of the issuance ledger: the token's name and symbol, the
/// admin and storage-authority accounts that collect fees, and the fee
/// rates, each expressed in basis points (10,000 basis points are one
/// hundred percent).
pub struct Config {
    pub name: String,
    pub symbol: String,
    pub admin: u64,
    pub storage_address: u64,
    pub transfer_fee_percent: u32,
    pub burn_fee_percent: u32,
    pub platform_fee_percent: u32,
    pub storage_fee_percent: u32,
}

impl Config {
    /// Every settable rate respects its ceiling: the transfer fee is capped
    /// at 500 basis points (five percent), and no rate ever exceeds one
    /// hundred percent.
    pub open spec fn wf(self) -> bool {
        &&& self.transfer_fee_percent <= 500
        &&& self.burn_fee_percent <= 10000
        &&& self.platform_fee_percent <= 10000
        &&& self.storage_fee_percent <= 10000
    }
}

} // verus!
