use stellend::collateral::{Account, CollateralManager, Liquidation, RiskParameters, HEALTH_FACTOR_MAX};
use stellend::error::Error;
use stellend::fixed_point::SCALE;
use stellend::interest_rate_model::InterestRateModel;
use stellend::pool::LendingPool;
use stellend::pool_state::PoolState;
use stellend::price_oracle::{PriceOracle, USDC, XLM};

const ADMIN: u64 = 1;
const ALICE: u64 = 10;
const BOB: u64 = 11;
const CAROL: u64 = 12;
const START: u64 = 1_000;
const YEAR: u64 = 31_536_000;
const ONE_DOLLAR: i128 = 10_000_000;

fn standard_model() -> InterestRateModel {
    let mut model = InterestRateModel::new();
    assert_eq!(model.initialize(0, 400_000, 7_500_000, 8_000_000), Ok(()));
    model
}

fn oracle_with_xlm(price: i128, now: u64) -> PriceOracle {
    let mut oracle = PriceOracle::new();
    assert_eq!(oracle.initialize(ADMIN, now), Ok(()));
    assert_eq!(oracle.set_price(ADMIN, XLM, price, now), Ok(()));
    oracle
}

fn open_pool() -> LendingPool {
    let mut pool = LendingPool::new();
    assert_eq!(pool.initialize(ADMIN, START), Ok(()));
    pool
}

/// Alice supplies 100 USDC; Bob puts up 100 XLM at $0.30 and borrows 20 USDC.
fn pool_with_a_loan(model: &InterestRateModel, oracle: &PriceOracle) -> LendingPool {
    let mut pool = open_pool();
    assert_eq!(pool.deposit(model, ALICE, ALICE, 1_000_000_000, START), Ok(1_000_000_000));
    assert_eq!(pool.deposit_collateral(model, BOB, BOB, 1_000_000_000, START), Ok(1_000_000_000));
    assert_eq!(pool.borrow(model, oracle, BOB, BOB, 200_000_000, START), Ok(200_000_000));
    pool
}

fn snapshot(pool: &LendingPool) -> (PoolState, Account, Account, Account, CollateralManager) {
    (
        pool.get_state(),
        pool.get_account(ALICE),
        pool.get_account(BOB),
        pool.get_account(CAROL),
        pool.get_manager(),
    )
}

fn assert_books(pool: &LendingPool) {
    let state = pool.get_state();
    let mut deposits: i128 = 0;
    let mut borrows: i128 = 0;
    for user in [ALICE, BOB, CAROL] {
        let account = pool.get_account(user);
        assert!(account.is_valid());
        deposits += account.deposit_balance;
        borrows += account.borrow_balance;
    }
    assert_eq!(state.total_deposits, deposits);
    assert!(state.total_borrows >= borrows);
    assert!(state.borrow_index >= 1_000_000_000);
}

#[test]
fn test_placeholder() {
    let _pool = LendingPool::new();
    assert!(true);
}

#[test]
fn test_deposit() {
    let model = InterestRateModel::new();
    let mut pool = open_pool();

    let amount: i128 = 1000;
    let shares = pool.deposit(&model, ALICE, ALICE, amount, START).unwrap();

    assert!(shares > 0);
}

#[test]
fn new_pool_is_empty_and_closed() {
    let model = standard_model();
    let oracle = oracle_with_xlm(3_000_000, START);
    let mut pool = LendingPool::new();
    assert_eq!(pool.get_total_deposits(), 0);
    assert_eq!(pool.get_total_borrows(), 0);
    assert_eq!(pool.get_utilization_rate(), Ok(0));
    assert_eq!(pool.get_user_deposit(ALICE), 0);
    assert_eq!(pool.get_health_factor(&oracle, ALICE, START), Ok(HEALTH_FACTOR_MAX));
    assert_eq!(pool.deposit(&model, ALICE, ALICE, 5, START), Err(Error::NotInitialized));
    assert_eq!(pool.withdraw(&model, ALICE, ALICE, 5, START), Err(Error::NotInitialized));
    assert_eq!(pool.deposit_collateral(&model, ALICE, ALICE, 5, START), Err(Error::NotInitialized));
    assert_eq!(
        pool.withdraw_collateral(&model, &oracle, ALICE, ALICE, 5, START),
        Err(Error::NotInitialized)
    );
    assert_eq!(pool.borrow(&model, &oracle, ALICE, ALICE, 5, START), Err(Error::NotInitialized));
    assert_eq!(pool.repay(&model, ALICE, ALICE, 5, START), Err(Error::NotInitialized));
    assert_eq!(pool.liquidate(&model, &oracle, ALICE, ALICE, BOB, START), Err(Error::NotInitialized));
    assert_eq!(pool.accrue(&model, START), Err(Error::NotInitialized));
    assert_eq!(
        pool.set_risk_parameters(ADMIN, RiskParameters::new(5_000, 6_000, 0).unwrap()),
        Err(Error::NotInitialized)
    );
}

#[test]
fn initialize_opens_the_pool_once() {
    let mut pool = LendingPool::new();
    assert_eq!(pool.initialize(ADMIN, START), Ok(()));
    assert_eq!(
        pool.get_state(),
        PoolState {
            total_deposits: 0,
            total_borrows: 0,
            borrow_index: 1_000_000_000,
            last_accrual_time: START,
        }
    );
    assert_eq!(pool.get_manager(), CollateralManager::initialize(XLM, USDC));
    assert_eq!(pool.get_manager().risk.ltv_ratio, 7_500);
    assert_eq!(pool.get_manager().risk.liquidation_threshold, 8_000);
    assert_eq!(pool.initialize(BOB, START + 5), Err(Error::AlreadyInitialized));
    assert_eq!(pool.get_state().last_accrual_time, START);
}

#[test]
fn every_operation_needs_its_principal() {
    let model = standard_model();
    let oracle = oracle_with_xlm(3_000_000, START);
    let mut pool = pool_with_a_loan(&model, &oracle);
    let before = snapshot(&pool);
    assert_eq!(pool.deposit(&model, BOB, ALICE, 5, START), Err(Error::Unauthorized));
    assert_eq!(pool.withdraw(&model, BOB, ALICE, 5, START), Err(Error::Unauthorized));
    assert_eq!(pool.deposit_collateral(&model, ALICE, BOB, 5, START), Err(Error::Unauthorized));
    assert_eq!(
        pool.withdraw_collateral(&model, &oracle, ALICE, BOB, 5, START),
        Err(Error::Unauthorized)
    );
    assert_eq!(pool.borrow(&model, &oracle, ALICE, BOB, 5, START), Err(Error::Unauthorized));
    assert_eq!(pool.repay(&model, ALICE, BOB, 5, START), Err(Error::Unauthorized));
    assert_eq!(pool.liquidate(&model, &oracle, BOB, ALICE, BOB, START), Err(Error::Unauthorized));
    // The caller is judged before the amount.
    assert_eq!(pool.deposit(&model, BOB, ALICE, 0, START), Err(Error::Unauthorized));
    assert_eq!(
        pool.set_risk_parameters(ALICE, RiskParameters::new(5_000, 6_000, 0).unwrap()),
        Err(Error::Unauthorized)
    );
    assert_eq!(snapshot(&pool), before);
}

#[test]
fn amounts_must_be_positive() {
    let model = standard_model();
    let oracle = oracle_with_xlm(3_000_000, START);
    let mut pool = pool_with_a_loan(&model, &oracle);
    let before = snapshot(&pool);
    for amount in [0, -1, i128::MIN] {
        assert_eq!(pool.deposit(&model, ALICE, ALICE, amount, START), Err(Error::InvalidInput));
        assert_eq!(pool.withdraw(&model, ALICE, ALICE, amount, START), Err(Error::InvalidInput));
        assert_eq!(
            pool.deposit_collateral(&model, BOB, BOB, amount, START),
            Err(Error::InvalidInput)
        );
        assert_eq!(
            pool.withdraw_collateral(&model, &oracle, BOB, BOB, amount, START),
            Err(Error::InvalidInput)
        );
        assert_eq!(pool.borrow(&model, &oracle, BOB, BOB, amount, START), Err(Error::InvalidInput));
        assert_eq!(pool.repay(&model, BOB, BOB, amount, START), Err(Error::InvalidInput));
    }
    assert_eq!(snapshot(&pool), before);
}

#[test]
fn deposit_and_withdraw() {
    let model = standard_model();
    let mut pool = open_pool();
    assert_eq!(pool.deposit(&model, ALICE, ALICE, 1_000, START), Ok(1_000));
    assert_eq!(pool.deposit(&model, BOB, BOB, 500, START), Ok(500));
    assert_eq!(pool.get_user_deposit(ALICE), 1_000);
    assert_eq!(pool.get_user_deposit(BOB), 500);
    assert_eq!(pool.get_user_deposit(CAROL), 0);
    assert_eq!(pool.get_total_deposits(), 1_500);
    assert_eq!(pool.withdraw(&model, ALICE, ALICE, 1_001, START), Err(Error::InsufficientBalance));
    assert_eq!(pool.withdraw(&model, CAROL, CAROL, 1, START), Err(Error::InsufficientBalance));
    assert_eq!(pool.withdraw(&model, ALICE, ALICE, 400, START), Ok(400));
    assert_eq!(pool.get_user_deposit(ALICE), 600);
    assert_eq!(pool.get_total_deposits(), 1_100);
    assert_eq!(pool.withdraw(&model, ALICE, ALICE, 600, START), Ok(600));
    assert_eq!(pool.get_user_deposit(ALICE), 0);
    assert_eq!(pool.get_account(ALICE), Account::new());
    assert_eq!(pool.deposit(&model, ALICE, ALICE, i128::MAX, START), Err(Error::Overflow));
    assert_eq!(pool.get_total_deposits(), 500);
    assert_books(&pool);
}

#[test]
fn pool_withdraw_is_bounded_by_idle_liquidity() {
    let model = standard_model();
    let oracle = oracle_with_xlm(3_000_000, START);
    let mut pool = pool_with_a_loan(&model, &oracle);
    // 100 USDC supplied, 20 lent out.
    assert_eq!(
        pool.withdraw(&model, ALICE, ALICE, 800_000_001, START),
        Err(Error::InsufficientLiquidity)
    );
    assert_eq!(pool.withdraw(&model, ALICE, ALICE, 800_000_000, START), Ok(800_000_000));
    assert_eq!(pool.get_total_deposits(), 200_000_000);
    assert_eq!(pool.get_total_borrows(), 200_000_000);
    assert_eq!(pool.get_utilization_rate(), Ok(SCALE));
    assert_eq!(pool.withdraw(&model, ALICE, ALICE, 1, START), Err(Error::InsufficientLiquidity));
    assert_books(&pool);
}

#[test]
fn borrow_is_bounded_by_collateral() {
    let model = standard_model();
    let oracle = oracle_with_xlm(3_000_000, START);
    let mut pool = pool_with_a_loan(&model, &oracle);
    assert_eq!(pool.get_user_borrow(BOB), 200_000_000);
    assert_eq!(pool.get_user_collateral(BOB), 1_000_000_000);
    assert_eq!(pool.get_total_borrows(), 200_000_000);
    assert_eq!(pool.get_utilization_rate(), Ok(2_000_000));
    assert_eq!(pool.get_health_factor(&oracle, BOB, START), Ok(12_000_000));
    // $30 of collateral allow $22.50 of debt: 2.5 USDC more.
    assert_eq!(
        pool.borrow(&model, &oracle, BOB, BOB, 25_000_001, START),
        Err(Error::ExceedsCapacity)
    );
    assert_eq!(pool.borrow(&model, &oracle, BOB, BOB, 25_000_000, START), Ok(25_000_000));
    assert_eq!(pool.get_user_borrow(BOB), 225_000_000);
    // A position borrowed to the limit is still covered: $24 over $22.50.
    assert_eq!(pool.get_health_factor(&oracle, BOB, START), Ok(10_666_666));
    assert_eq!(
        pool.liquidate(&model, &oracle, CAROL, CAROL, BOB, START),
        Err(Error::PositionHealthy)
    );
    assert_eq!(pool.borrow(&model, &oracle, BOB, BOB, 1, START), Err(Error::ExceedsCapacity));
    // Without collateral nothing can be borrowed.
    assert_eq!(pool.borrow(&model, &oracle, ALICE, ALICE, 1, START), Err(Error::ExceedsCapacity));
    // Liquidity is judged before capacity.
    assert_eq!(
        pool.borrow(&model, &oracle, ALICE, ALICE, 775_000_001, START),
        Err(Error::InsufficientLiquidity)
    );
    assert_eq!(pool.get_account(BOB).borrow_index_snapshot, 1_000_000_000);
    assert_books(&pool);
}

#[test]
fn borrow_needs_fresh_prices() {
    let model = InterestRateModel::new();
    let mut pool = open_pool();
    assert_eq!(pool.deposit(&model, ALICE, ALICE, 1_000_000_000, START), Ok(1_000_000_000));
    assert_eq!(pool.deposit_collateral(&model, BOB, BOB, 1_000_000_000, START), Ok(1_000_000_000));
    let mut oracle = PriceOracle::new();
    assert_eq!(oracle.initialize(ADMIN, START), Ok(()));
    // XLM has no price yet.
    assert_eq!(pool.borrow(&model, &oracle, BOB, BOB, 5, START), Err(Error::PriceNotSet));
    assert_eq!(oracle.set_price(ADMIN, XLM, 3_000_000, START), Ok(()));
    assert_eq!(pool.borrow(&model, &oracle, BOB, BOB, 5, START + 3_600), Ok(5));
    assert_eq!(pool.borrow(&model, &oracle, BOB, BOB, 5, START + 3_601), Err(Error::StalePrice));
    // Only the price of USDC is stale.
    assert_eq!(oracle.set_price(ADMIN, XLM, 3_000_000, START + 3_601), Ok(()));
    assert_eq!(pool.borrow(&model, &oracle, BOB, BOB, 5, START + 3_601), Err(Error::StalePrice));
    assert_eq!(oracle.set_price(ADMIN, USDC, ONE_DOLLAR, START + 3_601), Ok(()));
    assert_eq!(pool.borrow(&model, &oracle, BOB, BOB, 5, START + 3_601), Ok(5));
    assert_eq!(pool.get_user_borrow(BOB), 10);
    // A short pool is reported before a stale price.
    assert_eq!(
        pool.borrow(&model, &oracle, BOB, BOB, 1_000_000_000, START + 9_000),
        Err(Error::InsufficientLiquidity)
    );
    assert_eq!(pool.get_health_factor(&oracle, BOB, START + 9_000), Err(Error::StalePrice));
    assert_eq!(pool.get_health_factor(&oracle, ALICE, START + 9_000), Ok(HEALTH_FACTOR_MAX));
}

#[test]
fn pool_repay_is_capped_at_the_debt() {
    let model = standard_model();
    let oracle = oracle_with_xlm(3_000_000, START);
    let mut pool = pool_with_a_loan(&model, &oracle);
    assert_eq!(pool.repay(&model, ALICE, ALICE, 5, START), Err(Error::NoOutstandingDebt));
    assert_eq!(pool.repay(&model, BOB, BOB, 50_000_000, START), Ok(50_000_000));
    assert_eq!(pool.get_user_borrow(BOB), 150_000_000);
    assert_eq!(pool.get_total_borrows(), 150_000_000);
    assert_eq!(pool.repay(&model, BOB, BOB, i128::MAX, START), Ok(150_000_000));
    assert_eq!(pool.get_user_borrow(BOB), 0);
    assert_eq!(pool.get_total_borrows(), 0);
    assert_eq!(pool.repay(&model, BOB, BOB, 1, START), Err(Error::NoOutstandingDebt));
    assert_eq!(pool.get_health_factor(&oracle, BOB, START), Ok(HEALTH_FACTOR_MAX));
    assert_books(&pool);
}

#[test]
fn unsafe_collateral_withdrawal_changes_nothing() {
    let model = standard_model();
    let oracle = oracle_with_xlm(3_000_000, START);
    let mut pool = pool_with_a_loan(&model, &oracle);
    let later = START + 600;
    let before = snapshot(&pool);
    // $25 of collateral must remain against $20 of debt.
    assert_eq!(
        pool.withdraw_collateral(&model, &oracle, BOB, BOB, 166_666_667, later),
        Err(Error::UnhealthyPosition)
    );
    assert_eq!(snapshot(&pool), before);
    assert_eq!(
        pool.withdraw_collateral(&model, &oracle, BOB, BOB, 1_000_000_000, later),
        Err(Error::UnhealthyPosition)
    );
    assert_eq!(snapshot(&pool), before);
    assert_eq!(
        pool.withdraw_collateral(&model, &oracle, BOB, BOB, 1_000_000_001, later),
        Err(Error::InsufficientBalance)
    );
    assert_eq!(snapshot(&pool), before);
    // The largest safe withdrawal goes through.
    assert_eq!(
        pool.withdraw_collateral(&model, &oracle, BOB, BOB, 166_666_666, later),
        Ok(166_666_666)
    );
    assert_eq!(pool.get_user_collateral(BOB), 833_333_334);
    assert_eq!(pool.get_user_borrow(BOB), 200_000_000);
    assert_eq!(pool.get_health_factor(&oracle, BOB, later), Ok(SCALE));
    assert_eq!(pool.get_state().last_accrual_time, later);
    assert_books(&pool);
}

#[test]
fn collateral_without_debt_is_free_to_leave() {
    let model = standard_model();
    let mut pool = open_pool();
    // No price is set and none is needed.
    let oracle = PriceOracle::new();
    assert_eq!(pool.deposit_collateral(&model, ALICE, ALICE, 700, START), Ok(700));
    assert_eq!(pool.get_user_collateral(ALICE), 700);
    assert_eq!(pool.get_total_deposits(), 0);
    assert_eq!(
        pool.withdraw_collateral(&model, &oracle, ALICE, ALICE, 701, START),
        Err(Error::InsufficientBalance)
    );
    assert_eq!(pool.withdraw_collateral(&model, &oracle, ALICE, ALICE, 700, START), Ok(700));
    assert_eq!(pool.get_user_collateral(ALICE), 0);
    assert_eq!(
        pool.deposit_collateral(&model, ALICE, ALICE, i128::MAX, START),
        Ok(i128::MAX)
    );
    assert_eq!(pool.deposit_collateral(&model, ALICE, ALICE, 1, START), Err(Error::Overflow));
}

#[test]
fn collateral_withdrawal_with_debt_needs_fresh_prices() {
    let model = standard_model();
    let oracle = oracle_with_xlm(3_000_000, START);
    let mut pool = pool_with_a_loan(&model, &oracle);
    let before = snapshot(&pool);
    assert_eq!(
        pool.withdraw_collateral(&model, &oracle, BOB, BOB, 1, START + 3_601),
        Err(Error::StalePrice)
    );
    assert_eq!(snapshot(&pool), before);
    let unpriced = PriceOracle::new();
    assert_eq!(
        pool.withdraw_collateral(&model, &unpriced, BOB, BOB, 1, START),
        Err(Error::PriceNotSet)
    );
    assert_eq!(snapshot(&pool), before);
}

#[test]
fn liquidation_is_refused_at_a_health_factor_of_one() {
    let model = standard_model();
    let mut oracle = PriceOracle::new();
    assert_eq!(oracle.initialize(ADMIN, START), Ok(()));
    assert_eq!(oracle.set_price(ADMIN, XLM, ONE_DOLLAR, START), Ok(()));
    let mut pool = open_pool();
    assert_eq!(pool.deposit(&model, ALICE, ALICE, 1_000_000_000, START), Ok(1_000_000_000));
    assert_eq!(pool.deposit_collateral(&model, BOB, BOB, 250_000_000, START), Ok(250_000_000));
    assert_eq!(pool.borrow(&model, &oracle, BOB, BOB, 187_500_000, START), Ok(187_500_000));
    assert_eq!(
        pool.liquidate(&model, &oracle, CAROL, CAROL, BOB, START),
        Err(Error::PositionHealthy)
    );

    // At $0.9375 the collateral covers exactly the debt.
    assert_eq!(oracle.set_price(ADMIN, XLM, 9_375_000, START), Ok(()));
    assert_eq!(pool.get_health_factor(&oracle, BOB, START), Ok(SCALE));
    let before = snapshot(&pool);
    assert_eq!(
        pool.liquidate(&model, &oracle, CAROL, CAROL, BOB, START),
        Err(Error::PositionHealthy)
    );
    assert_eq!(snapshot(&pool), before);

    // A hair below it does not.
    assert_eq!(oracle.set_price(ADMIN, XLM, 9_374_999, START), Ok(()));
    assert_eq!(pool.get_health_factor(&oracle, BOB, START), Ok(9_999_998));
    let moved = pool.liquidate(&model, &oracle, CAROL, CAROL, BOB, START).unwrap();
    // $18.75 buy 200_000_021 units of XLM at that price.
    assert_eq!(moved, Liquidation { repaid: 187_500_000, seized: 200_000_021 });
    assert_eq!(pool.get_user_borrow(BOB), 0);
    assert_eq!(pool.get_user_collateral(BOB), 49_999_979);
    assert_eq!(pool.get_total_borrows(), 0);
    assert_eq!(pool.get_account(CAROL), Account::new());
    assert_eq!(
        pool.liquidate(&model, &oracle, CAROL, CAROL, BOB, START),
        Err(Error::PositionHealthy)
    );
    assert_books(&pool);
}

#[test]
fn liquidation_after_a_price_shock() {
    let model = standard_model();
    let mut oracle = oracle_with_xlm(3_000_000, START);
    let mut pool = pool_with_a_loan(&model, &oracle);
    assert_eq!(oracle.set_price_chaos(ADMIN, XLM, 3_000_000, START), Ok(()));
    assert_eq!(pool.get_health_factor(&oracle, BOB, START), Ok(6_000_000));
    // A debtor without debt stays healthy whatever the prices.
    assert_eq!(
        pool.liquidate(&model, &oracle, CAROL, CAROL, ALICE, START),
        Err(Error::PositionHealthy)
    );
    assert_eq!(
        pool.liquidate(&model, &oracle, CAROL, CAROL, BOB, START + 3_601),
        Err(Error::StalePrice)
    );
    let moved = pool.liquidate(&model, &oracle, CAROL, CAROL, BOB, START).unwrap();
    assert_eq!(moved, Liquidation { repaid: 200_000_000, seized: 1_000_000_000 });
    assert_eq!(pool.get_account(BOB).borrow_balance, 0);
    assert_eq!(pool.get_account(BOB).collateral_balance, 0);
    assert_eq!(pool.get_total_borrows(), 0);
    assert_eq!(pool.get_total_deposits(), 1_000_000_000);
    assert_books(&pool);
}

#[test]
fn interest_accrues_before_every_operation() {
    let model = standard_model();
    let oracle = oracle_with_xlm(3_000_000, START);
    let mut pool = pool_with_a_loan(&model, &oracle);
    // Utilization 20%: 1% a year on 20 USDC.
    assert_eq!(
        pool.preview_accrual(&model, START + YEAR),
        Ok(PoolState {
            total_deposits: 1_000_000_000,
            total_borrows: 202_000_000,
            borrow_index: 1_010_000_000,
            last_accrual_time: START + YEAR,
        })
    );
    // The preview changed nothing.
    assert_eq!(pool.get_total_borrows(), 200_000_000);
    assert_eq!(pool.get_state().last_accrual_time, START);
    assert_eq!(pool.deposit(&model, ALICE, ALICE, 1, START + YEAR), Ok(1));
    assert_eq!(pool.get_total_borrows(), 202_000_000);
    assert_eq!(pool.get_total_deposits(), 1_000_000_001);
    assert_eq!(pool.get_state().borrow_index, 1_010_000_000);
    assert_eq!(pool.get_state().last_accrual_time, START + YEAR);
    // The account's own debt is what it drew.
    assert_eq!(pool.get_user_borrow(BOB), 200_000_000);
    assert_eq!(pool.repay(&model, BOB, BOB, 200_000_000, START + YEAR), Ok(200_000_000));
    assert_eq!(pool.get_total_borrows(), 2_000_000);
    assert_eq!(pool.get_account(BOB).borrow_index_snapshot, 1_010_000_000);
    assert_books(&pool);
}

#[test]
fn refused_operation_does_not_commit_the_accrual() {
    let model = standard_model();
    let oracle = oracle_with_xlm(3_000_000, START);
    let mut pool = pool_with_a_loan(&model, &oracle);
    let before = snapshot(&pool);
    assert_eq!(
        pool.withdraw(&model, ALICE, ALICE, 2_000_000_000, START + YEAR),
        Err(Error::InsufficientBalance)
    );
    assert_eq!(pool.repay(&model, ALICE, ALICE, 1, START + YEAR), Err(Error::NoOutstandingDebt));
    assert_eq!(pool.deposit(&model, ALICE, ALICE, 0, START + YEAR), Err(Error::InvalidInput));
    assert_eq!(snapshot(&pool), before);
}

#[test]
fn accrual_twice_without_elapsed_time_changes_nothing() {
    let model = standard_model();
    let oracle = oracle_with_xlm(3_000_000, START);
    let mut pool = pool_with_a_loan(&model, &oracle);
    assert_eq!(pool.accrue(&model, START + 86_400), Ok(()));
    let once = snapshot(&pool);
    assert_eq!(pool.accrue(&model, START + 86_400), Ok(()));
    assert_eq!(snapshot(&pool), once);
    // A clock that went back is no elapsed time either.
    assert_eq!(pool.accrue(&model, START), Ok(()));
    assert_eq!(snapshot(&pool), once);
    assert_eq!(pool.get_state().last_accrual_time, START + 86_400);
}

#[test]
fn accrual_overflow_refuses_the_operation() {
    let mut steep = InterestRateModel::new();
    assert_eq!(steep.initialize(i128::MAX / 2, 0, 0, 8_000_000), Ok(()));
    let calm = standard_model();
    let oracle = oracle_with_xlm(3_000_000, START);
    let mut pool = pool_with_a_loan(&calm, &oracle);
    let before = snapshot(&pool);
    assert_eq!(pool.deposit(&steep, ALICE, ALICE, 1, START + YEAR), Err(Error::Overflow));
    assert_eq!(pool.accrue(&steep, START + YEAR), Err(Error::Overflow));
    assert_eq!(pool.preview_accrual(&steep, START + YEAR), Err(Error::Overflow));
    assert_eq!(snapshot(&pool), before);
    // Without elapsed time the rate is not asked for.
    assert_eq!(pool.deposit(&steep, ALICE, ALICE, 1, START), Ok(1));
}

#[test]
fn books_balance_and_index_grows_over_a_history() {
    let model = standard_model();
    let mut oracle = oracle_with_xlm(3_000_000, START);
    let mut pool = open_pool();
    let mut now = START;
    let mut index = pool.get_state().borrow_index;
    let mut check = |pool: &LendingPool, when: u64| {
        assert_books(pool);
        let state = pool.get_state();
        assert!(state.total_borrows <= state.total_deposits);
        assert!(state.borrow_index >= index);
        assert_eq!(state.last_accrual_time, when);
        index = state.borrow_index;
    };
    assert_eq!(pool.deposit(&model, ALICE, ALICE, 5_000_000_000, now), Ok(5_000_000_000));
    check(&pool, now);
    now += 3_000;
    assert_eq!(pool.deposit_collateral(&model, BOB, BOB, 20_000_000_000, now), Ok(20_000_000_000));
    check(&pool, now);
    assert_eq!(pool.borrow(&model, &oracle, BOB, BOB, 4_000_000_000, now), Ok(4_000_000_000));
    check(&pool, now);
    now += 86_400;
    assert_eq!(oracle.set_price(ADMIN, XLM, 3_100_000, now), Ok(()));
    assert_eq!(oracle.set_price(ADMIN, USDC, ONE_DOLLAR, now), Ok(()));
    assert_eq!(pool.deposit(&model, CAROL, CAROL, 1_000_000_000, now), Ok(1_000_000_000));
    check(&pool, now);
    assert!(pool.get_state().borrow_index > 1_000_000_000);
    now += 1_800;
    assert_eq!(pool.deposit_collateral(&model, CAROL, CAROL, 100_000_000, now), Ok(100_000_000));
    check(&pool, now);
    assert_eq!(pool.borrow(&model, &oracle, CAROL, CAROL, 20_000_000, now), Ok(20_000_000));
    check(&pool, now);
    now += 1_800;
    assert_eq!(pool.repay(&model, BOB, BOB, 1_500_000_000, now), Ok(1_500_000_000));
    check(&pool, now);
    assert_eq!(pool.withdraw(&model, ALICE, ALICE, 2_000_000_000, now), Ok(2_000_000_000));
    check(&pool, now);
    assert_eq!(
        pool.withdraw_collateral(&model, &oracle, BOB, BOB, 5_000_000_000, now),
        Ok(5_000_000_000)
    );
    check(&pool, now);
    now += 600;
    assert_eq!(oracle.set_price_chaos(ADMIN, XLM, 500_000, now), Ok(()));
    assert_eq!(oracle.set_price(ADMIN, USDC, ONE_DOLLAR, now), Ok(()));
    let moved = pool.liquidate(&model, &oracle, ALICE, ALICE, BOB, now).unwrap();
    assert_eq!(moved.repaid, 2_500_000_000);
    assert_eq!(moved.seized, 15_000_000_000);
    check(&pool, now);
    now += 600;
    assert_eq!(pool.accrue(&model, now), Ok(()));
    check(&pool, now);
    assert_eq!(pool.get_user_borrow(BOB), 0);
    assert_eq!(pool.get_user_borrow(CAROL), 20_000_000);
    assert!(pool.get_total_borrows() > 20_000_000);
}

#[test]
fn interest_alone_can_lift_the_debt_above_the_deposits() {
    let model = standard_model();
    let oracle = oracle_with_xlm(3_000_000, START);
    let mut pool = pool_with_a_loan(&model, &oracle);
    assert_eq!(pool.withdraw(&model, ALICE, ALICE, 800_000_000, START), Ok(800_000_000));
    // Fully lent out: 79% a year.
    assert_eq!(pool.accrue(&model, START + YEAR), Ok(()));
    assert_eq!(pool.get_total_deposits(), 200_000_000);
    assert_eq!(pool.get_total_borrows(), 358_000_000);
    assert_eq!(pool.get_utilization_rate(), Ok(17_900_000));
    assert_eq!(
        pool.withdraw(&model, ALICE, ALICE, 1, START + YEAR),
        Err(Error::InsufficientLiquidity)
    );
    assert_books(&pool);
}

#[test]
fn risk_parameters_are_set_by_the_admin() {
    let model = standard_model();
    let oracle = oracle_with_xlm(3_000_000, START);
    let mut pool = pool_with_a_loan(&model, &oracle);
    let tighter = RiskParameters { ltv_ratio: 5_000, liquidation_threshold: 6_000, liquidation_bonus: 500 };
    assert_eq!(pool.set_risk_parameters(ADMIN, tighter), Ok(()));
    assert_eq!(pool.get_manager().risk, tighter);
    assert_eq!(pool.get_manager().collateral_asset, XLM);
    // $30 * 0.6 / $20 = 0.9
    assert_eq!(pool.get_health_factor(&oracle, BOB, START), Ok(9_000_000));
    let invalid = RiskParameters { ltv_ratio: 6_000, liquidation_threshold: 6_000, liquidation_bonus: 0 };
    assert_eq!(pool.set_risk_parameters(ADMIN, invalid), Err(Error::InvalidInput));
    assert_eq!(pool.get_manager().risk, tighter);
    let moved = pool.liquidate(&model, &oracle, CAROL, CAROL, BOB, START).unwrap();
    // $20 and 5% on it buy 70 XLM at $0.30.
    assert_eq!(moved, Liquidation { repaid: 200_000_000, seized: 700_000_000 });
    assert_eq!(pool.get_user_collateral(BOB), 300_000_000);
}
