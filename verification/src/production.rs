//! Save-persistent kiln history and recipe outcome totals.

use vstd::prelude::*;
use crate::kinds::ProductionRecipeKind;

verus! {

/// Finished kiln cycles per recipe and the wards they sealed.
#[derive(Debug, Clone, Copy, PartialEq, Eq, Structural)]
pub struct ProductionLedger {
    pub total_cycles: u32,
    pub ward_cycles: u32,
    pub hush_ash_cycles: u32,
    pub wards_sealed: i32,
}

impl Default for ProductionLedger {
    fn default() -> (ledger: ProductionLedger)
        ensures
            ledger.total_cycles == 0,
            ledger.ward_cycles == 0,
            ledger.hush_ash_cycles == 0,
            ledger.wards_sealed == 0,
    {
        ProductionLedger { total_cycles: 0, ward_cycles: 0, hush_ash_cycles: 0, wards_sealed: 0 }
    }
}

pub open spec fn sat_add_u32(a: u32, b: u32) -> u32 {
    if a + b > u32::MAX { u32::MAX } else { (a + b) as u32 }
}

pub open spec fn sat_add_i32(a: i32, b: i32) -> i32 {
    if a + b > i32::MAX {
        i32::MAX
    } else if a + b < i32::MIN {
        i32::MIN
    } else {
        (a + b) as i32
    }
}

pub fn saturating_add_i32(a: i32, b: i32) -> (sum: i32)
    ensures
        sum == sat_add_i32(a, b),
{
    let s = a as i64 + b as i64;
    if s > i32::MAX as i64 {
        i32::MAX
    } else if s < i32::MIN as i64 {
        i32::MIN
    } else {
        s as i32
    }
}

impl ProductionLedger {
    /// Counts one finished cycle of `recipe` that sealed `output_amount` wards.
    pub fn record(&mut self, recipe: ProductionRecipeKind, output_amount: i32)
        ensures
            final(self).total_cycles == sat_add_u32(old(self).total_cycles, 1),
            recipe == ProductionRecipeKind::WardCharge ==> final(self).ward_cycles == sat_add_u32(
                old(self).ward_cycles,
                1,
            ) && final(self).hush_ash_cycles == old(self).hush_ash_cycles,
            recipe == ProductionRecipeKind::HushAsh ==> final(self).hush_ash_cycles == sat_add_u32(
                old(self).hush_ash_cycles,
                1,
            ) && final(self).ward_cycles == old(self).ward_cycles,
            final(self).wards_sealed == sat_add_i32(
                old(self).wards_sealed,
                if output_amount < 0 { 0 } else { output_amount },
            ),
    {
        self.total_cycles = self.total_cycles.saturating_add(1);
        match recipe {
            ProductionRecipeKind::WardCharge => {
                self.ward_cycles = self.ward_cycles.saturating_add(1);
            },
            ProductionRecipeKind::HushAsh => {
                self.hush_ash_cycles = self.hush_ash_cycles.saturating_add(1);
            },
        }
        let sealed = if output_amount < 0 { 0 } else { output_amount };
        self.wards_sealed = saturating_add_i32(self.wards_sealed, sealed);
    }
}

} // verus!
