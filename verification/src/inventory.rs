//! The inventory rules: the stock condition a tracked item can be in,
//! and the financial fold over what the persistence collaborator reports
//! — the total value of the stock as the sum of price times quantity.
//! Prices are in minor currency units (cents).

use vstd::prelude::*;

verus! {

/// The condition a tracked inventory item is in.
#[derive(Clone, Copy, Debug, PartialEq, Eq, Structural)]
pub enum InventoryStatus {
    Normal,
    LowStock,
    Broken,
    Lost,
    NeedReplacement,
}

/// The value of a stock listing: the sum over all items of price times
/// quantity.
pub open spec fn spec_total_value(items: Seq<(i64, i32)>) -> int
    decreases items.len(),
{
    if items.len() == 0 {
        0
    } else {
        spec_total_value(items.drop_last()) + items.last().0 * items.last().1
    }
}

/// Fold the total value of the stock, one (price, quantity) pair per
/// item, in wide arithmetic. The count bound is what keeps the running
/// sum inside the wide range on any prices and quantities.
pub fn calculate_total_inventory_value(items: &Vec<(i64, i32)>) -> (r: i128)
    requires
        items@.len() <= 0x1_0000_0000,
    ensures
        r == spec_total_value(items@),
{
    let mut acc: i128 = 0;
    let mut i: usize = 0;
    while i < items.len()
        invariant
            i <= items@.len(),
            items@.len() <= 0x1_0000_0000,
            acc == spec_total_value(items@.take(i as int)),
            -(i as int) * 0x4000_0000_0000_0000_0000_0000 <= acc <= (i as int)
                * 0x4000_0000_0000_0000_0000_0000,
        decreases items@.len() - i,
    {
        proof {
            assert(items@.take(i + 1).drop_last() =~= items@.take(i as int));
        }
        let (price, quantity) = items[i];
        let price_wide: i128 = price as i128;
        let quantity_wide: i128 = quantity as i128;
        proof {
            assert(price_wide * quantity_wide <= 0x4000_0000_0000_0000_0000_0000
                && -0x4000_0000_0000_0000_0000_0000 <= price_wide * quantity_wide)
                by (nonlinear_arith)
                requires
                    -0x8000_0000_0000_0000 <= price_wide <= 0x7fff_ffff_ffff_ffff,
                    -0x8000_0000 <= quantity_wide <= 0x7fff_ffff,
            ;
        }
        let product: i128 = price_wide * quantity_wide;
        acc = acc + product;
        i += 1;
    }
    proof {
        assert(items@.take(items@.len() as int) =~= items@);
    }
    acc
}

} // verus!
