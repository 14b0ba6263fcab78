use vstd::prelude::*;

verus! {

/// Percentages are taken out of this base.
pub const PERCENT_BASE: i128 = 100;

/// Fee percentages that the contract accepts: neither negative, and together
/// under the whole price.
pub open spec fn fees_valid(organizer_fee: int, platform_fee: int) -> bool {
    0 <= organizer_fee && 0 <= platform_fee && organizer_fee + platform_fee < PERCENT_BASE
}

/// The products taken to compute the fees of a resale at `price` fit in an `i128`.
pub open spec fn split_fits(price: int, organizer_fee: int, platform_fee: int) -> bool {
    price * organizer_fee <= i128::MAX && price * platform_fee <= i128::MAX
}

/// The organizer's part of a resale at `price`.
pub open spec fn organizer_part(price: int, organizer_fee: int) -> int {
    price * organizer_fee / PERCENT_BASE as int
}

/// The platform's part of a resale at `price`.
pub open spec fn platform_part(price: int, platform_fee: int) -> int {
    price * platform_fee / PERCENT_BASE as int
}

/// What the seller keeps of a resale at `price`.
pub open spec fn seller_part(price: int, organizer_fee: int, platform_fee: int) -> int {
    price - organizer_part(price, organizer_fee) - platform_part(price, platform_fee)
}

/// How a resale price is shared out.
#[derive(Debug, Clone, Copy, PartialEq, Eq, Structural)]
pub struct ResaleSplit {
    pub organizer: i128,
    pub platform: i128,
    pub seller: i128,
}

/// Whether `resale_split` can share out `price` without an arithmetic overflow.
pub fn split_fits_exec(price: i128, organizer_fee: i128, platform_fee: i128) -> (fits: bool)
    requires
        0 <= price,
        fees_valid(organizer_fee as int, platform_fee as int),
    ensures
        fits == split_fits(price as int, organizer_fee as int, platform_fee as int),
{
    let room: i128 = i128::MAX;
    proof {
        lemma_fits_by_division(price as int, organizer_fee as int, room as int);
        lemma_fits_by_division(price as int, platform_fee as int, room as int);
    }
    (organizer_fee == 0 || price <= room / organizer_fee)
        && (platform_fee == 0 || price <= room / platform_fee)
}

proof fn lemma_fits_by_division(price: int, fee: int, room: int)
    requires
        0 <= price,
        0 <= fee,
        0 <= room,
    ensures
        0 < fee ==> ((price <= room / fee) <==> (price * fee <= room)),
        fee == 0 ==> price * fee <= room,
{
    if fee > 0 {
        assert((price <= room / fee) <==> (price * fee <= room)) by (nonlinear_arith)
        requires
            0 <= price,
            0 < fee,
            0 <= room,
        ;
    }
}

/// The fees of a resale at `price`: each fee is its percentage of the price,
/// rounded down, and the seller keeps the rest.
pub fn resale_split(price: i128, organizer_fee: i128, platform_fee: i128) -> (split: ResaleSplit)
    requires
        0 <= price,
        fees_valid(organizer_fee as int, platform_fee as int),
        split_fits(price as int, organizer_fee as int, platform_fee as int),
    ensures
        split.organizer == organizer_part(price as int, organizer_fee as int),
        split.platform == platform_part(price as int, platform_fee as int),
        split.seller == seller_part(price as int, organizer_fee as int, platform_fee as int),
{
    proof {
        lemma_split_bounds(price as int, organizer_fee as int, platform_fee as int);
    }
    let organizer = price * organizer_fee / PERCENT_BASE;
    let platform = price * platform_fee / PERCENT_BASE;
    let seller = price - organizer - platform;
    ResaleSplit { organizer, platform, seller }
}

/// Every part of a resale is non-negative, none exceeds the price, and the
/// three parts add up to the price: the buyer pays exactly the price.
pub proof fn lemma_split_bounds(price: int, organizer_fee: int, platform_fee: int)
    requires
        0 <= price,
        fees_valid(organizer_fee, platform_fee),
    ensures
        0 <= organizer_part(price, organizer_fee) <= price,
        0 <= platform_part(price, platform_fee) <= price,
        0 <= seller_part(price, organizer_fee, platform_fee) <= price,
        organizer_part(price, organizer_fee) + platform_part(price, platform_fee)
            + seller_part(price, organizer_fee, platform_fee) == price,
{
    let a = price * organizer_fee;
    let b = price * platform_fee;
    assert(0 <= a && 0 <= b && a + b <= price * 100) by (nonlinear_arith)
        requires
            0 <= price,
            0 <= organizer_fee,
            0 <= platform_fee,
            organizer_fee + platform_fee < 100,
            a == price * organizer_fee,
            b == price * platform_fee,
    ;
    assert(a / 100 + b / 100 <= price) by (nonlinear_arith)
        requires
            0 <= a,
            0 <= b,
            a + b <= price * 100,
    ;
}

} // verus!
