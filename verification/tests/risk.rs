use stellend::collateral::{
    is_liquidatable, Account, CollateralManager, Liquidation, RiskParameters, HEALTH_FACTOR_MAX,
};
use stellend::error::Error;
use stellend::fixed_point::SCALE;
use stellend::pool::LendingPool;
use stellend::price_oracle::{PriceOracle, USDC, XLM};

const ONE_DOLLAR: i128 = 10_000_000;
const XLM_PRICE: i128 = 3_000_000;

fn position(collateral: i128, borrow: i128) -> Account {
    Account {
        deposit_balance: 0,
        borrow_balance: borrow,
        collateral_balance: collateral,
        borrow_index_snapshot: 0,
    }
}

fn manager() -> CollateralManager {
    CollateralManager::initialize(XLM, USDC)
}

#[test]
fn test_test_initialize() {
    let collateral_asset = XLM;
    let borrow_asset = USDC;
    let manager = CollateralManager::initialize(collateral_asset, borrow_asset);

    let mut pool = LendingPool::new();
    assert_eq!(pool.initialize(1, 0), Ok(()));

    let mut oracle = PriceOracle::new();
    assert_eq!(oracle.initialize(1, 0), Ok(()));

    assert_eq!(manager.collateral_asset, XLM);
    assert_eq!(manager.borrow_asset, USDC);
    assert_eq!(manager.risk.ltv_ratio, 7_500);
    assert_eq!(manager.risk.liquidation_threshold, 8_000);
    assert_eq!(manager.risk.liquidation_bonus, 0);
}

#[test]
fn risk_parameters_are_validated() {
    assert_eq!(
        RiskParameters::new(7_500, 8_000, 0),
        Ok(RiskParameters { ltv_ratio: 7_500, liquidation_threshold: 8_000, liquidation_bonus: 0 })
    );
    assert!(RiskParameters::new(0, 1, 10_000).is_ok());
    assert!(RiskParameters::new(9_998, 9_999, 500).is_ok());
    assert_eq!(RiskParameters::new(8_000, 8_000, 0), Err(Error::InvalidInput));
    assert_eq!(RiskParameters::new(8_001, 8_000, 0), Err(Error::InvalidInput));
    assert_eq!(RiskParameters::new(7_500, 10_000, 0), Err(Error::InvalidInput));
    assert_eq!(RiskParameters::new(7_500, 8_000, 10_001), Err(Error::InvalidInput));
}

#[test]
fn account_validity() {
    assert!(Account::new().is_valid());
    assert_eq!(Account::new(), position(0, 0));
    assert!(position(5, 3).is_valid());
    assert!(position(5, 0).is_valid());
    assert!(!position(0, 3).is_valid());
    assert!(!position(-1, 0).is_valid());
    assert!(!position(5, -1).is_valid());
    assert!(!Account { deposit_balance: -1, ..Account::new() }.is_valid());
}

#[test]
fn health_factor_without_debt_is_the_sentinel() {
    let manager = manager();
    for collateral in [0, 1, 1_000_000_000, i128::MAX] {
        assert_eq!(
            manager.get_health_ratio(&position(collateral, 0), XLM_PRICE, ONE_DOLLAR),
            Ok(HEALTH_FACTOR_MAX)
        );
        assert_eq!(manager.get_health_ratio(&position(collateral, 0), 0, 0), Ok(999_000_000));
        assert_eq!(
            manager.risk.compute_health_factor(collateral, 0, i128::MAX, i128::MAX),
            Ok(999_000_000)
        );
    }
}

#[test]
fn health_factor_formula() {
    let manager = manager();
    // 100 XLM at $0.30 are worth $30; 80% of that covers $24.
    // A debt of 20 USDC at $1.00 is worth $20: 24 / 20 = 1.2
    let account = position(1_000_000_000, 200_000_000);
    assert_eq!(manager.get_health_ratio(&account, XLM_PRICE, ONE_DOLLAR), Ok(12_000_000));
    // After the price halves: 12 / 20 = 0.6
    assert_eq!(manager.get_health_ratio(&account, 1_500_000, ONE_DOLLAR), Ok(6_000_000));
    // The values are truncated, the factor once more: value 7 * 3e6 / 1e7 = 2,
    // debt 3 * 1e7 / 1e7 = 3, factor 2 * 8_000 * 1e7 / (3 * 10_000) = 5_333_333
    assert_eq!(manager.get_health_ratio(&position(7, 3), XLM_PRICE, ONE_DOLLAR), Ok(5_333_333));
    // At equal prices of one dollar: 7 * 8_000 * 1e7 / (3 * 10_000)
    assert_eq!(manager.get_health_ratio(&position(7, 3), ONE_DOLLAR, ONE_DOLLAR), Ok(18_666_666));
    // No collateral: zero.
    assert_eq!(manager.get_health_ratio(&position(0, 3), XLM_PRICE, ONE_DOLLAR), Ok(0));
    // More than the sentinel is possible with debt.
    assert_eq!(
        manager.get_health_ratio(&position(1_000_000_000_000, 1), ONE_DOLLAR, ONE_DOLLAR),
        Ok(800_000_000_000 * SCALE)
    );
}

#[test]
fn health_factor_of_a_debt_without_measurable_value() {
    let manager = manager();
    // 1 unit at $0.50 rounds to a value of zero.
    assert_eq!(manager.get_health_ratio(&position(1_000, 1), ONE_DOLLAR, 5_000_000), Ok(999_000_000));
    assert_eq!(manager.get_health_ratio(&position(0, 1), ONE_DOLLAR, 5_000_000), Ok(0));
    assert_eq!(manager.get_health_ratio(&position(1, 1), ONE_DOLLAR, 5_000_000), Ok(999_000_000));
    // Collateral whose value rounds to zero covers nothing.
    assert_eq!(manager.get_health_ratio(&position(1, 1), 5_000_000, 5_000_000), Ok(0));
}

#[test]
fn health_factor_reports_overflow() {
    let manager = manager();
    assert_eq!(
        manager.get_health_ratio(&position(i128::MAX, 1), XLM_PRICE, ONE_DOLLAR),
        Err(Error::Overflow)
    );
    assert_eq!(
        manager.get_health_ratio(&position(1, i128::MAX), XLM_PRICE, ONE_DOLLAR),
        Err(Error::Overflow)
    );
    assert_eq!(
        manager.get_health_ratio(&position(i128::MAX / 8_000, 1), ONE_DOLLAR, ONE_DOLLAR),
        Err(Error::Overflow)
    );
}

#[test]
fn max_borrow_formula() {
    let manager = manager();
    // 100 XLM at $0.30 are worth $30; 75% of that is $22.50, or 22.5 USDC.
    assert_eq!(
        manager.risk.compute_max_borrow(1_000_000_000, XLM_PRICE, ONE_DOLLAR),
        Ok(225_000_000)
    );
    // At $0.90 per USDC the same dollars buy more units.
    assert_eq!(
        manager.risk.compute_max_borrow(1_000_000_000, XLM_PRICE, 9_000_000),
        Ok(250_000_000)
    );
    assert_eq!(manager.risk.compute_max_borrow(0, XLM_PRICE, ONE_DOLLAR), Ok(0));
    assert_eq!(manager.risk.compute_max_borrow(7, XLM_PRICE, ONE_DOLLAR), Ok(1));
    assert_eq!(
        manager.risk.compute_max_borrow(1_000_000_000, XLM_PRICE, 0),
        Err(Error::PriceNotSet)
    );
    assert_eq!(
        manager.risk.compute_max_borrow(i128::MAX, XLM_PRICE, ONE_DOLLAR),
        Err(Error::Overflow)
    );
}

#[test]
fn liquidation_boundary_is_strict() {
    assert!(!is_liquidatable(SCALE));
    assert!(is_liquidatable(SCALE - 1));
    assert!(!is_liquidatable(SCALE + 1));
    assert!(!is_liquidatable(HEALTH_FACTOR_MAX));
    assert!(is_liquidatable(0));

    let manager = manager();
    // Collateral worth $25 covers $20: a debt of $20 has a health factor of exactly 1.0.
    let at_one = position(250_000_000, 200_000_000);
    assert_eq!(manager.get_health_ratio(&at_one, ONE_DOLLAR, ONE_DOLLAR), Ok(SCALE));
    assert_eq!(manager.liquidate(&at_one, ONE_DOLLAR, ONE_DOLLAR), Err(Error::PositionHealthy));
    // 20 units more debt: one unit below 1.0.
    let below = position(250_000_000, 200_000_020);
    assert_eq!(manager.get_health_ratio(&below, ONE_DOLLAR, ONE_DOLLAR), Ok(SCALE - 1));
    let (after, moved) = manager.liquidate(&below, ONE_DOLLAR, ONE_DOLLAR).unwrap();
    assert_eq!(moved, Liquidation { repaid: 200_000_020, seized: 200_000_020 });
    assert_eq!(after, position(49_999_980, 0));
}

#[test]
fn liquidation_repays_all_and_seizes_in_kind() {
    let manager = manager();
    let account = Account {
        deposit_balance: 11,
        borrow_balance: 200_000_000,
        collateral_balance: 1_000_000_000,
        borrow_index_snapshot: 5,
    };
    // At $0.20 the collateral is worth $20 and covers $16 of the $20 owed.
    let (after, moved) = manager.liquidate(&account, 2_000_000, ONE_DOLLAR).unwrap();
    // $20 buy 100 XLM: all of the collateral.
    assert_eq!(moved, Liquidation { repaid: 200_000_000, seized: 1_000_000_000 });
    assert_eq!(
        after,
        Account {
            deposit_balance: 11,
            borrow_balance: 0,
            collateral_balance: 0,
            borrow_index_snapshot: 5,
        }
    );
    // At $0.15 the debt buys more than the position holds: the rest is lost.
    let (after, moved) = manager.liquidate(&account, 1_500_000, ONE_DOLLAR).unwrap();
    assert_eq!(moved.seized, 1_000_000_000);
    assert_eq!(after.collateral_balance, 0);
    // At $0.24 the collateral covers $19.20 of $20: 20 / 0.24 = 83.33 XLM are taken.
    let (after, moved) = manager.liquidate(&account, 2_400_000, ONE_DOLLAR).unwrap();
    assert_eq!(moved, Liquidation { repaid: 200_000_000, seized: 833_333_333 });
    assert_eq!(after.collateral_balance, 166_666_667);
    assert_eq!(after.borrow_balance, 0);
}

#[test]
fn liquidation_bonus_is_paid_in_collateral() {
    let risk = RiskParameters::new(7_500, 8_000, 500).unwrap();
    let manager = CollateralManager { risk, ..manager() };
    let account = position(1_000_000_000, 200_000_000);
    // $20 and 5% on it are $21; at $0.24 that is 87.5 XLM.
    let (after, moved) = manager.liquidate(&account, 2_400_000, ONE_DOLLAR).unwrap();
    assert_eq!(moved, Liquidation { repaid: 200_000_000, seized: 875_000_000 });
    assert_eq!(after.collateral_balance, 125_000_000);
}

#[test]
fn liquidation_refusals() {
    let manager = manager();
    assert_eq!(
        manager.liquidate(&position(1_000_000_000, 0), XLM_PRICE, ONE_DOLLAR),
        Err(Error::PositionHealthy)
    );
    assert_eq!(
        manager.liquidate(&position(1_000_000_000, 200_000_000), XLM_PRICE, ONE_DOLLAR),
        Err(Error::PositionHealthy)
    );
    assert_eq!(
        manager.liquidate(&position(1_000_000_000, 200_000_000), 0, ONE_DOLLAR),
        Err(Error::PriceNotSet)
    );
    assert_eq!(
        manager.liquidate(&position(i128::MAX, 200_000_000), XLM_PRICE, ONE_DOLLAR),
        Err(Error::Overflow)
    );
    // The health factor fits, and so does what the debt buys.
    assert_eq!(
        manager.liquidate(&position(1, i128::MAX / ONE_DOLLAR), ONE_DOLLAR, ONE_DOLLAR),
        Ok((position(0, 0), Liquidation { repaid: i128::MAX / ONE_DOLLAR, seized: 1 }))
    );
    // With a bonus of 100% on top it does not.
    let generous = CollateralManager {
        risk: RiskParameters::new(7_500, 8_000, 10_000).unwrap(),
        ..manager
    };
    assert_eq!(
        generous.liquidate(&position(1, i128::MAX / ONE_DOLLAR), ONE_DOLLAR, ONE_DOLLAR),
        Err(Error::Overflow)
    );
}

#[test]
fn collateral_deposit() {
    let manager = manager();
    let account = position(5, 3);
    assert_eq!(manager.deposit_collateral(&account, 10), Ok(position(15, 3)));
    assert_eq!(manager.deposit_collateral(&account, 0), Err(Error::InvalidInput));
    assert_eq!(manager.deposit_collateral(&account, -1), Err(Error::InvalidInput));
    assert_eq!(manager.deposit_collateral(&account, i128::MAX), Err(Error::Overflow));
    assert_eq!(manager.get_collateral_balance(&account), 5);
}

#[test]
fn collateral_withdrawal_without_debt_needs_no_price() {
    let manager = manager();
    let account = position(100, 0);
    assert_eq!(manager.withdraw_collateral(&account, 100, 0, 0), Ok(position(0, 0)));
    assert_eq!(manager.withdraw_collateral(&account, 40, 0, 0), Ok(position(60, 0)));
    assert_eq!(manager.withdraw_collateral(&account, 101, 0, 0), Err(Error::InsufficientBalance));
    assert_eq!(manager.withdraw_collateral(&account, 0, 0, 0), Err(Error::InvalidInput));
    assert_eq!(manager.withdraw_collateral(&account, -5, 0, 0), Err(Error::InvalidInput));
}

#[test]
fn collateral_withdrawal_is_held_to_the_health_factor() {
    let manager = manager();
    // $30 of collateral against $20 of debt: $25 must remain.
    let account = position(1_000_000_000, 200_000_000);
    // 833_333_334 XLM units at $0.30 are worth $25.0000000 (truncated): factor 1.0
    assert_eq!(
        manager.withdraw_collateral(&account, 166_666_666, XLM_PRICE, ONE_DOLLAR),
        Ok(position(833_333_334, 200_000_000))
    );
    // One unit more leaves $24.9999999: factor below 1.0
    assert_eq!(
        manager.withdraw_collateral(&account, 166_666_667, XLM_PRICE, ONE_DOLLAR),
        Err(Error::UnhealthyPosition)
    );
    assert_eq!(
        manager.withdraw_collateral(&account, 1_000_000_000, XLM_PRICE, ONE_DOLLAR),
        Err(Error::UnhealthyPosition)
    );
    // The balance is judged before the health factor.
    assert_eq!(
        manager.withdraw_collateral(&account, 1_000_000_001, XLM_PRICE, ONE_DOLLAR),
        Err(Error::InsufficientBalance)
    );
    assert_eq!(
        manager.withdraw_collateral(&position(i128::MAX, 1), 1, XLM_PRICE, ONE_DOLLAR),
        Err(Error::Overflow)
    );
}
