use rtoken_core::primitives::RSymbol;
use rtoken_core::swap::{Module, SwapError, SwapPool};
use rtoken_core::wide::Wide;

const RICH: u128 = 1_000_000_000_000_000;

fn pool(symbol: RSymbol, fis: u128, rtoken: u128, unit: u128) -> SwapPool {
    SwapPool { symbol, fis_balance: fis, rtoken_balance: rtoken, total_unit: unit }
}

fn module_with(p: SwapPool) -> Module {
    let mut m = Module::new();
    m.help_set_pool(p.symbol, p);
    m
}

#[test]
fn pool_bootstrap() {
    let mut m = Module::new();
    let r = m.create_pool(RSymbol::RDOT, 1_000_000, 2_000_000, RICH, RICH);
    assert_eq!(r, Ok((2_000_000, 2_000_000)));
    assert_eq!(m.swap_pools(RSymbol::RDOT), Some(pool(RSymbol::RDOT, 2_000_000, 1_000_000, 2_000_000)));
    assert_eq!(m.swap_pools(RSymbol::RKSM), None);
}

#[test]
fn create_pool_errors() {
    let mut m = Module::new();
    assert_eq!(m.create_pool(RSymbol::RDOT, 0, 10, RICH, RICH), Err(SwapError::AmountZero));
    assert_eq!(m.create_pool(RSymbol::RDOT, 10, 0, RICH, RICH), Err(SwapError::AmountZero));
    assert_eq!(m.create_pool(RSymbol::RDOT, 10, 10, 9, RICH), Err(SwapError::UserRTokenAmountNotEnough));
    // the FIS balance must exceed the amount
    assert_eq!(m.create_pool(RSymbol::RDOT, 10, 10, 10, 10), Err(SwapError::UserFisAmountNotEnough));
    assert_eq!(m.create_pool(RSymbol::RDOT, 10, 10, 10, 11), Ok((10, 10)));
    assert_eq!(m.create_pool(RSymbol::RDOT, 10, 10, RICH, RICH), Err(SwapError::PoolAlreadyExist));
}

#[test]
fn symmetric_swap() {
    let mut m = module_with(pool(RSymbol::RDOT, 1000, 1000, 1000));
    let r = m.swap(RSymbol::RDOT, 100, 1, true, RICH, 0);
    assert_eq!(r, Ok((82, 8)));
    assert_eq!(m.swap_pools(RSymbol::RDOT), Some(pool(RSymbol::RDOT, 1100, 918, 1000)));
}

#[test]
fn swap_rtoken_side() {
    let mut m = module_with(pool(RSymbol::RDOT, 1000, 1000, 1000));
    assert_eq!(m.swap(RSymbol::RDOT, 100, 1, false, 0, 100), Ok((82, 8)));
    assert_eq!(m.swap_pools(RSymbol::RDOT), Some(pool(RSymbol::RDOT, 918, 1100, 1000)));
}

#[test]
fn swap_errors() {
    let mut m = module_with(pool(RSymbol::RDOT, 1_000_000, 1_000_000, 1_000_000));
    assert_eq!(m.swap(RSymbol::RKSM, 100, 1, true, RICH, RICH), Err(SwapError::PoolNotExist));
    assert_eq!(m.swap(RSymbol::RDOT, 0, 1, true, RICH, RICH), Err(SwapError::AmountZero));
    assert_eq!(m.swap(RSymbol::RDOT, 100, 0, true, RICH, RICH), Err(SwapError::AmountZero));
    assert_eq!(m.swap(RSymbol::RDOT, 1, 1, true, RICH, RICH), Err(SwapError::SwapAmountTooFew));
    assert_eq!(m.swap(RSymbol::RDOT, 1000, 999, true, RICH, RICH), Err(SwapError::LessThanMinOutAmount));
    assert_eq!(m.swap(RSymbol::RDOT, 1000, 1, true, 1000, RICH), Err(SwapError::UserFisAmountNotEnough));
    assert_eq!(m.swap(RSymbol::RDOT, 1000, 1, false, RICH, 999), Err(SwapError::UserRTokenAmountNotEnough));
    // a failed swap leaves the pool as it was
    assert_eq!(m.swap_pools(RSymbol::RDOT), Some(pool(RSymbol::RDOT, 1_000_000, 1_000_000, 1_000_000)));
    assert_eq!(m.swap(RSymbol::RDOT, 1000, 1, false, RICH, 1000), Ok((998, 0)));
}

#[test]
fn cal_swap_result_values() {
    assert_eq!(Module::cal_swap_result(1000, 1000, 100, true), (82, 8));
    assert_eq!(Module::cal_swap_result(0, 1000, 100, true), (0, 0));
    assert_eq!(Module::cal_swap_result(1000, 0, 100, false), (0, 0));
    assert_eq!(Module::cal_swap_result(1000, 1000, 0, true), (0, 0));
    // X = 2000 (fis), Y = 500: y = 1000·2000·500/3000² = 111, fee = 1000²·500/3000² = 55
    assert_eq!(Module::cal_swap_result(2000, 500, 1000, true), (111, 55));
    // large reserves need more than 128 bits in the intermediate products
    let big = 1u128 << 100;
    let (y, fee) = Module::cal_swap_result(big, big, big, true);
    assert_eq!(y, big / 4);
    assert_eq!(fee, big / 4);
}

#[test]
fn swap_output_plus_fee_bound() {
    for &(f, r, x) in &[(1000u128, 1000u128, 100u128), (7, 1_000_003, 5), (123_456, 789, 1_000_000)] {
        let (y, fee) = Module::cal_swap_result(f, r, x, true);
        assert!(y + fee <= x * r / (x + f));
        let (y, fee) = Module::cal_swap_result(f, r, x, false);
        assert!(y + fee <= x * f / (x + r));
    }
}

#[test]
fn swap_keeps_product() {
    let mut m = module_with(pool(RSymbol::RDOT, 1_000, 3_000, 1_000));
    m.swap(RSymbol::RDOT, 250, 1, true, RICH, RICH).unwrap();
    let p = m.swap_pools(RSymbol::RDOT).unwrap();
    assert!(p.fis_balance * p.rtoken_balance >= 1_000 * 3_000);
}

#[test]
fn cal_pool_unit_values() {
    assert_eq!(Module::cal_pool_unit(0, 0, 0, 0, 0), (0, 0));
    assert_eq!(Module::cal_pool_unit(0, 0, 0, 500, 7), (500, 500));
    assert_eq!(Module::cal_pool_unit(0, 0, 5, 0, 7), (0, 0));
    assert_eq!(Module::cal_pool_unit(0, 5, 0, 7, 0), (0, 0));
    assert_eq!(Module::cal_pool_unit(1000, 1000, 1000, 100, 100), (1100, 100));
    // one-sided deposit: raw 50, slip 50·100000/1100000 = 4
    assert_eq!(Module::cal_pool_unit(1000, 1000, 1000, 100, 0), (1046, 46));
    // a deposit too small for a unit keeps the existing units
    assert_eq!(Module::cal_pool_unit(1000, 1_000_000_000_000, 1_000_000_000_000, 1, 0), (1000, 0));
    // narrowing stops at u128::MAX
    assert_eq!(Module::cal_pool_unit(u128::MAX, 1, 1, 1, 1), (u128::MAX, u128::MAX));
}

#[test]
fn cal_pool_unit_symmetric() {
    for &(p, f_cap, r_cap, f, r) in &[(1000u128, 1000u128, 3000u128, 100u128, 7u128), (77, 5, 9, 0, 13), (1, 2, 3, 4, 5)] {
        assert_eq!(Module::cal_pool_unit(p, f_cap, r_cap, f, r), Module::cal_pool_unit(p, r_cap, f_cap, r, f));
    }
    // the bootstrap grants the FIS amount, so it is not symmetric
    assert_eq!(Module::cal_pool_unit(0, 0, 0, 5, 9), (5, 5));
    assert_eq!(Module::cal_pool_unit(0, 0, 0, 9, 5), (9, 9));
}

#[test]
fn cal_remove_result_values() {
    assert_eq!(Module::cal_remove_result(1000, 100, 50, 2000, 500, true), (200, 50, 100));
    assert_eq!(Module::cal_remove_result(1000, 100, 50, 2000, 500, false), (200, 50, 25));
    assert_eq!(Module::cal_remove_result(0, 100, 50, 2000, 500, true), (0, 0, 0));
    assert_eq!(Module::cal_remove_result(1000, 0, 0, 2000, 500, true), (0, 0, 0));
    // removal clamped to the pool's units, the swap part to the clamped removal
    assert_eq!(Module::cal_remove_result(1000, 2000, 3000, 2000, 500, false), (2000, 500, 500));
}

#[test]
fn safe_to_u128_caps() {
    let small = Wide { words: [1, 2, 0, 0, 0, 0, 0, 0] };
    assert_eq!(Module::safe_to_u128(small), 1 + (2u128 << 64));
    let big = Wide { words: [0, 0, 1, 0, 0, 0, 0, 0] };
    assert_eq!(Module::safe_to_u128(big), u128::MAX);
    let max = Wide { words: [u64::MAX, u64::MAX, 0, 0, 0, 0, 0, 0] };
    assert_eq!(Module::safe_to_u128(max), u128::MAX);
}

#[test]
fn add_liquidity_flow() {
    let mut m = module_with(pool(RSymbol::RDOT, 1000, 1000, 1000));
    assert_eq!(m.add_liquidity(RSymbol::RDOT, 0, 0, RICH, RICH), Err(SwapError::AmountAllZero));
    assert_eq!(m.add_liquidity(RSymbol::RDOT, 100, 100, 99, RICH), Err(SwapError::UserRTokenAmountNotEnough));
    assert_eq!(m.add_liquidity(RSymbol::RDOT, 100, 100, RICH, 100), Err(SwapError::UserFisAmountNotEnough));
    assert_eq!(m.add_liquidity(RSymbol::RKSM, 100, 100, RICH, RICH), Err(SwapError::PoolNotExist));
    assert_eq!(m.add_liquidity(RSymbol::RDOT, 100, 100, RICH, RICH), Ok((1100, 100)));
    assert_eq!(m.swap_pools(RSymbol::RDOT), Some(pool(RSymbol::RDOT, 1100, 1100, 1100)));
}

#[test]
fn remove_liquidity_with_internal_swap() {
    let mut m = module_with(pool(RSymbol::RDOT, 1000, 1000, 1000));
    // 100 FIS and 100 rTOKEN are withdrawn; the 100 FIS are swapped for 81 rTOKEN
    let r = m.remove_liquidity(RSymbol::RDOT, 100, 100, true, 100, RICH, RICH);
    assert_eq!(r, Ok((0, 181)));
    assert_eq!(m.swap_pools(RSymbol::RDOT), Some(pool(RSymbol::RDOT, 1000, 819, 900)));
}

#[test]
fn remove_liquidity_errors() {
    let mut m = module_with(pool(RSymbol::RDOT, 1000, 1000, 1000));
    assert_eq!(m.remove_liquidity(RSymbol::RKSM, 100, 0, true, 100, RICH, RICH), Err(SwapError::PoolNotExist));
    assert_eq!(m.remove_liquidity(RSymbol::RDOT, 0, 0, true, 100, RICH, RICH), Err(SwapError::UnitAmountImproper));
    assert_eq!(m.remove_liquidity(RSymbol::RDOT, 101, 0, true, 100, RICH, RICH), Err(SwapError::UnitAmountImproper));
    assert_eq!(m.remove_liquidity(RSymbol::RDOT, 10, 11, true, 100, RICH, RICH), Err(SwapError::UnitAmountImproper));
    assert_eq!(m.remove_liquidity(RSymbol::RDOT, 100, 0, true, 100, 99, RICH), Err(SwapError::PoolFisBalanceNotEnough));
    assert_eq!(m.remove_liquidity(RSymbol::RDOT, 100, 0, true, 100, RICH, 99), Err(SwapError::PoolRTokenBalanceNotEnough));
    assert_eq!(m.swap_pools(RSymbol::RDOT), Some(pool(RSymbol::RDOT, 1000, 1000, 1000)));
}

#[test]
fn create_then_remove_all() {
    let mut m = Module::new();
    let (_, minted) = m.create_pool(RSymbol::RETH, 777, 1234, RICH, RICH).unwrap();
    let r = m.remove_liquidity(RSymbol::RETH, minted, 0, true, minted, 1234, 777);
    assert_eq!(r, Ok((1234, 777)));
    assert_eq!(m.swap_pools(RSymbol::RETH), Some(pool(RSymbol::RETH, 0, 0, 0)));
}

#[test]
fn remove_all_with_swap_leaves_inconsistent_pool() {
    // every unit removed, and the swap part lands in the emptied pool
    let mut m = module_with(pool(RSymbol::RDOT, 1000, 1000, 1000));
    let r = m.remove_liquidity(RSymbol::RDOT, 1000, 500, true, 1000, RICH, RICH);
    assert_eq!(r, Ok((500, 1000)));
    assert_eq!(m.swap_pools(RSymbol::RDOT), Some(pool(RSymbol::RDOT, 500, 0, 0)));
}

#[test]
fn add_then_remove_keeps_ratio() {
    let mut m = module_with(pool(RSymbol::RDOT, 1000, 500, 1000));
    let (_, minted) = m.add_liquidity(RSymbol::RDOT, 50, 100, RICH, RICH).unwrap();
    assert_eq!(minted, 100);
    let r = m.remove_liquidity(RSymbol::RDOT, minted, 0, true, minted, RICH, RICH);
    assert_eq!(r, Ok((100, 50)));
    assert_eq!(m.swap_pools(RSymbol::RDOT), Some(pool(RSymbol::RDOT, 1000, 500, 1000)));
}

#[test]
fn add_then_remove_rounds_reserves_up() {
    // P = 3, F = R = 1000, deposit 500/500: one unit minted, removing it pays 375 each
    let mut m = module_with(pool(RSymbol::RDOT, 1000, 1000, 3));
    let (_, minted) = m.add_liquidity(RSymbol::RDOT, 500, 500, RICH, RICH).unwrap();
    assert_eq!(minted, 1);
    assert_eq!(m.remove_liquidity(RSymbol::RDOT, 1, 0, true, 1, RICH, RICH), Ok((375, 375)));
    let p = m.swap_pools(RSymbol::RDOT).unwrap();
    assert_eq!((p.fis_balance, p.rtoken_balance, p.total_unit), (1125, 1125, 3));
    assert_eq!(p.fis_balance * 1000, p.rtoken_balance * 1000);
}

#[test]
fn pool_stays_consistent() {
    let mut m = Module::new();
    m.create_pool(RSymbol::RDOT, 5000, 9000, RICH, RICH).unwrap();
    m.swap(RSymbol::RDOT, 700, 1, true, RICH, RICH).unwrap();
    m.add_liquidity(RSymbol::RDOT, 300, 0, RICH, RICH).unwrap();
    m.remove_liquidity(RSymbol::RDOT, 4000, 1000, false, 4000, RICH, RICH).unwrap();
    let p = m.swap_pools(RSymbol::RDOT).unwrap();
    assert!(p.total_unit > 0 && p.fis_balance > 0 && p.rtoken_balance > 0);
}

#[test]
fn lp_units_track_total() {
    let mut m = Module::new();
    let (_, a) = m.create_pool(RSymbol::RDOT, 5000, 9000, RICH, RICH).unwrap();
    let (_, b) = m.add_liquidity(RSymbol::RDOT, 100, 400, RICH, RICH).unwrap();
    m.remove_liquidity(RSymbol::RDOT, 250, 0, true, a, RICH, RICH).unwrap();
    assert_eq!(m.swap_pools(RSymbol::RDOT).unwrap().total_unit, a + b - 250);
}

#[test]
fn pallet_account() {
    let mut expected = [0u8; 32];
    expected[..12].copy_from_slice(b"modlrdx/swap");
    assert_eq!(Module::account_id(), expected);
}


#[test]
fn withdrawal_of_minted_units_keeps_ratio() {
    for &(p, f_cap, r_cap, f, r) in &[(1000u128, 1000u128, 500u128, 100u128, 50u128), (3, 1000, 1000, 500, 500), (700, 900, 300, 77, 1000), (10, 7, 13, 5, 0)] {
        let (t, a) = Module::cal_pool_unit(p, f_cap, r_cap, f, r);
        assert_eq!(t, p + a);
        if a == 0 {
            continue;
        }
        let (w_f, w_r, s) = Module::cal_remove_result(t, a, 0, f_cap + f, r_cap + r, true);
        assert_eq!(s, 0);
        let (x, y) = ((f_cap + f) as i128, (r_cap + r) as i128);
        assert!((w_f as i128 * y - w_r as i128 * x).abs() < x.max(y));
        if f * r_cap == r * f_cap {
            assert!(w_f <= f && w_r <= r);
        }
    }
}
