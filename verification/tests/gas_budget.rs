use grainlify::gas_budget::{
    check, get_config, BudgetSnapshot, GasBudgetConfig, GasBudgetError, GasBudgetEvent,
    OperationBudget, BASIS, WARNING_THRESHOLD_BPS,
};

fn budget(cpu: u64, mem: u64) -> OperationBudget {
    OperationBudget { max_cpu_instructions: cpu, max_memory_bytes: mem }
}

fn snap(cpu: u64, mem: u64) -> BudgetSnapshot {
    BudgetSnapshot { cpu, mem }
}

#[test]
fn operation_budget_uncapped_is_zero() {
    let b = OperationBudget::uncapped();
    assert_eq!(b.max_cpu_instructions, 0);
    assert_eq!(b.max_memory_bytes, 0);
}

#[test]
fn gas_budget_config_uncapped_is_permissive() {
    let c = GasBudgetConfig::uncapped();
    for b in [c.lock, c.release, c.refund, c.partial_release, c.batch_lock, c.batch_release] {
        assert_eq!(b, OperationBudget::uncapped());
    }
    assert!(!c.enforce);
}

#[test]
fn get_config_falls_back_to_uncapped() {
    assert_eq!(get_config(None), GasBudgetConfig::uncapped());
    let mut stored = GasBudgetConfig::uncapped();
    stored.lock = budget(1_000, 2_000);
    stored.enforce = true;
    assert_eq!(get_config(Some(stored)), stored);
}

#[test]
fn thresholds_are_eighty_percent() {
    assert_eq!(WARNING_THRESHOLD_BPS, 8_000);
    assert_eq!(BASIS, 10_000);
}

#[test]
fn check_within_budget_reports_nothing() {
    let c = check(&budget(1_000, 1_000), &snap(100, 100), 500, 400, true);
    assert_eq!(c.cpu_used, 400);
    assert_eq!(c.mem_used, 300);
    assert_eq!(c.event, None);
    assert_eq!(c.result, Ok(()));
}

#[test]
fn check_enforced_breach_fails() {
    let c = check(&budget(1_000, 0), &snap(0, 0), 1_001, 5, true);
    assert_eq!(c.cpu_used, 1_001);
    assert_eq!(c.event, Some(GasBudgetEvent::CapExceeded));
    assert_eq!(c.result, Err(GasBudgetError::GasBudgetExceeded));
}

#[test]
fn check_advisory_breach_passes_with_event() {
    let c = check(&budget(0, 100), &snap(0, 10), 0, 111, false);
    assert_eq!(c.mem_used, 101);
    assert_eq!(c.event, Some(GasBudgetEvent::CapExceeded));
    assert_eq!(c.result, Ok(()));
}

#[test]
fn check_usage_equal_to_cap_is_not_a_breach() {
    let c = check(&budget(1_000, 0), &snap(0, 0), 1_000, 0, true);
    assert_eq!(c.event, Some(GasBudgetEvent::CapApproached));
    assert_eq!(c.result, Ok(()));
}

#[test]
fn check_warning_threshold_boundary() {
    // 800 / 1000 = 80 % reaches the warning threshold; 799 does not.
    let at = check(&budget(1_000, 0), &snap(0, 0), 800, 0, true);
    assert_eq!(at.event, Some(GasBudgetEvent::CapApproached));
    let below = check(&budget(1_000, 0), &snap(0, 0), 799, 0, true);
    assert_eq!(below.event, None);
}

#[test]
fn check_memory_warning() {
    let c = check(&budget(0, 50), &snap(7, 7), 7, 47, false);
    assert_eq!(c.mem_used, 40);
    assert_eq!(c.event, Some(GasBudgetEvent::CapApproached));
    assert_eq!(c.result, Ok(()));
}

#[test]
fn check_usage_saturates_at_zero() {
    let c = check(&budget(10, 10), &snap(500, 500), 100, 100, true);
    assert_eq!(c.cpu_used, 0);
    assert_eq!(c.mem_used, 0);
    assert_eq!(c.event, None);
    assert_eq!(c.result, Ok(()));
}

#[test]
fn check_large_values_use_exact_products() {
    // 20 % of a large cap is far from the warning threshold.
    let c = check(&budget(10_000_000_000_000_000, 0), &snap(0, 0), 2_000_000_000_000_000, 0, true);
    assert_eq!(c.event, None);
    assert_eq!(c.result, Ok(()));
    // 80 % of a cap near the top of the range does warn; 79.99 % does not.
    let cap = u64::MAX - 4;
    let at = cap / 10 * 8;
    let c = check(&budget(cap, 0), &snap(0, 0), at + 8, 0, true);
    assert_eq!(c.event, Some(GasBudgetEvent::CapApproached));
    let c = check(&budget(cap, 0), &snap(0, 0), at - 1_000, 0, true);
    assert_eq!(c.event, None);
}

#[test]
fn check_uncapped_budget_never_signals() {
    let c = check(&OperationBudget::uncapped(), &snap(0, 0), u64::MAX, u64::MAX, true);
    assert_eq!(c.cpu_used, u64::MAX);
    assert_eq!(c.event, None);
    assert_eq!(c.result, Ok(()));
}

#[test]
fn check_breach_stays_breach_with_more_usage() {
    let b = budget(100, 100);
    let first = check(&b, &snap(0, 0), 101, 0, true);
    let later = check(&b, &snap(0, 0), 5_000, 9_000, true);
    assert_eq!(first.event, Some(GasBudgetEvent::CapExceeded));
    assert_eq!(later.event, Some(GasBudgetEvent::CapExceeded));
    assert_eq!(first.result, later.result);
}
