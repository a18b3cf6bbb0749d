//! Gas budget and cost cap enforcement per operation type.
//!
//! A cap of `0` means "uncapped" for that dimension. Measured usage is the
//! saturating difference between the meter reading after the operation and
//! the snapshot taken before it. Usage strictly above a non-zero cap is a
//! breach; usage at or above `WARNING_THRESHOLD_BPS / BASIS` of a non-zero
//! cap, in exact arithmetic, without a breach is a warning. A breach fails the check only when the configuration enforces
//! caps; otherwise caps are advisory.
//!
//! Reading the host's meters and publishing events is done by the caller;
//! this module decides, from plain numbers, what is to be reported.

use vstd::prelude::*;

verus! {

/// Warning threshold expressed in basis points (10 000 = 100 %).
pub const WARNING_THRESHOLD_BPS: u64 = 8_000;

/// The basis for `WARNING_THRESHOLD_BPS`.
pub const BASIS: u64 = 10_000;

/// CPU and memory resource limits for one operation class.
///
/// Both fields use `0` to mean "uncapped" for that dimension.
#[derive(Clone, Copy, Debug, PartialEq, Eq, Structural)]
pub struct OperationBudget {
    /// Maximum CPU instructions consumed by this operation. `0` = uncapped.
    pub max_cpu_instructions: u64,
    /// Maximum memory bytes consumed by this operation. `0` = uncapped.
    pub max_memory_bytes: u64,
}

impl OperationBudget {
    /// Whether this budget puts no limit on either dimension.
    pub open spec fn is_uncapped(self) -> bool {
        self.max_cpu_instructions == 0 && self.max_memory_bytes == 0
    }

    /// Construct an uncapped budget (no limits on either dimension).
    pub fn uncapped() -> (b: Self)
        ensures
            b.max_cpu_instructions == 0,
            b.max_memory_bytes == 0,
    {
        OperationBudget { max_cpu_instructions: 0, max_memory_bytes: 0 }
    }
}

/// Per-operation gas budget configuration for the bounty escrow contract.
///
/// The factory default, used when no configuration has been stored, is
/// fully uncapped with `enforce = false`.
#[derive(Clone, Copy, Debug, PartialEq, Eq, Structural)]
pub struct GasBudgetConfig {
    /// Resource cap for `lock_funds` / `lock_funds_anonymous`.
    pub lock: OperationBudget,
    /// Resource cap for `release_funds`.
    pub release: OperationBudget,
    /// Resource cap for `refund`.
    pub refund: OperationBudget,
    /// Resource cap for `partial_release`.
    pub partial_release: OperationBudget,
    /// Aggregate resource cap for `batch_lock_funds` (all items combined).
    pub batch_lock: OperationBudget,
    /// Aggregate resource cap for `batch_release_funds` (all items combined).
    pub batch_release: OperationBudget,
    /// When `true`, an operation that exceeds its cap fails; when `false`,
    /// caps are advisory and only an event is reported.
    pub enforce: bool,
}

impl GasBudgetConfig {
    /// The fully uncapped, non-enforcing configuration.
    pub open spec fn spec_uncapped() -> GasBudgetConfig {
        GasBudgetConfig {
            lock: OperationBudget { max_cpu_instructions: 0, max_memory_bytes: 0 },
            release: OperationBudget { max_cpu_instructions: 0, max_memory_bytes: 0 },
            refund: OperationBudget { max_cpu_instructions: 0, max_memory_bytes: 0 },
            partial_release: OperationBudget { max_cpu_instructions: 0, max_memory_bytes: 0 },
            batch_lock: OperationBudget { max_cpu_instructions: 0, max_memory_bytes: 0 },
            batch_release: OperationBudget { max_cpu_instructions: 0, max_memory_bytes: 0 },
            enforce: false,
        }
    }

    /// Return a fully uncapped, non-enforcing configuration.
    pub fn uncapped() -> (c: Self)
        ensures
            c == GasBudgetConfig::spec_uncapped(),
    {
        GasBudgetConfig {
            lock: OperationBudget::uncapped(),
            release: OperationBudget::uncapped(),
            refund: OperationBudget::uncapped(),
            partial_release: OperationBudget::uncapped(),
            batch_lock: OperationBudget::uncapped(),
            batch_release: OperationBudget::uncapped(),
            enforce: false,
        }
    }
}

/// The configuration in force given what is stored: the stored one, or the
/// uncapped default when nothing has been stored.
pub fn get_config(stored: Option<GasBudgetConfig>) -> (c: GasBudgetConfig)
    ensures
        c == (match stored {
            Some(s) => s,
            None => GasBudgetConfig::spec_uncapped(),
        }),
{
    match stored {
        Some(s) => s,
        None => GasBudgetConfig::uncapped(),
    }
}

/// Snapshot of budget meters captured immediately before an operation.
#[derive(Clone, Copy, Debug, PartialEq, Eq, Structural)]
pub struct BudgetSnapshot {
    pub cpu: u64,
    pub mem: u64,
}

/// The error returned when an enforced cap is breached.
#[derive(Clone, Copy, Debug, PartialEq, Eq, Structural)]
pub enum GasBudgetError {
    GasBudgetExceeded,
}

/// Which event a check asks the caller to publish.
#[derive(Clone, Copy, Debug, PartialEq, Eq, Structural)]
pub enum GasBudgetEvent {
    /// A cap was breached (published whether or not caps are enforced).
    CapExceeded,
    /// Usage reached the warning threshold of a cap without breaching it.
    CapApproached,
}

/// What a check decided: the measured usage, the event to publish if any,
/// and whether the operation may go on.
#[derive(Clone, Copy, Debug, PartialEq, Eq)]
pub struct BudgetCheck {
    pub cpu_used: u64,
    pub mem_used: u64,
    pub event: Option<GasBudgetEvent>,
    pub result: Result<(), GasBudgetError>,
}

/// `a - b`, or `0` where that would be negative.
pub open spec fn sat_sub(a: u64, b: u64) -> u64 {
    if a >= b {
        (a - b) as u64
    } else {
        0
    }
}

/// Usage breaches a cap: the cap is set and usage is strictly above it.
pub open spec fn breaches(used: u64, cap: u64) -> bool {
    cap > 0 && used > cap
}

/// Usage reaches the warning fraction of a set cap.
pub open spec fn approaches(used: u64, cap: u64) -> bool {
    cap > 0 && used * BASIS >= cap * WARNING_THRESHOLD_BPS
}

/// Whether usage breaches either cap of `budget`.
pub open spec fn budget_breached(budget: OperationBudget, cpu_used: u64, mem_used: u64) -> bool {
    breaches(cpu_used, budget.max_cpu_instructions) || breaches(mem_used, budget.max_memory_bytes)
}

/// Whether usage reaches the warning threshold of either cap of `budget`.
pub open spec fn budget_approached(budget: OperationBudget, cpu_used: u64, mem_used: u64) -> bool {
    approaches(cpu_used, budget.max_cpu_instructions) || approaches(
        mem_used,
        budget.max_memory_bytes,
    )
}

/// The full decision of a check, from the meter readings before (`snapshot`)
/// and after (`cpu_now`, `mem_now`) the operation.
pub open spec fn check_spec(
    budget: OperationBudget,
    snapshot: BudgetSnapshot,
    cpu_now: u64,
    mem_now: u64,
    enforce: bool,
) -> BudgetCheck {
    let cpu_used = sat_sub(cpu_now, snapshot.cpu);
    let mem_used = sat_sub(mem_now, snapshot.mem);
    if budget_breached(budget, cpu_used, mem_used) {
        BudgetCheck {
            cpu_used,
            mem_used,
            event: Some(GasBudgetEvent::CapExceeded),
            result: if enforce {
                Err(GasBudgetError::GasBudgetExceeded)
            } else {
                Ok(())
            },
        }
    } else if budget_approached(budget, cpu_used, mem_used) {
        BudgetCheck { cpu_used, mem_used, event: Some(GasBudgetEvent::CapApproached), result: Ok(()) }
    } else {
        BudgetCheck { cpu_used, mem_used, event: None, result: Ok(()) }
    }
}

fn saturating_sub(a: u64, b: u64) -> (r: u64)
    ensures
        r == sat_sub(a, b),
{
    if a >= b {
        a - b
    } else {
        0
    }
}

fn exceeds_cap(used: u64, cap: u64) -> (r: bool)
    ensures
        r == breaches(used, cap),
{
    cap > 0 && used > cap
}

fn reaches_warning(used: u64, cap: u64) -> (r: bool)
    ensures
        r == approaches(used, cap),
{
    let u = used as u128;
    let c = cap as u128;
    assert(u * 10_000 <= 0xffff_ffff_ffff_ffffu128 * 10_000) by (nonlinear_arith)
        requires
            u <= 0xffff_ffff_ffff_ffffu128,
    ;
    assert(c * 8_000 <= 0xffff_ffff_ffff_ffffu128 * 8_000) by (nonlinear_arith)
        requires
            c <= 0xffff_ffff_ffff_ffffu128,
    ;
    cap > 0 && u * (BASIS as u128) >= c * (WARNING_THRESHOLD_BPS as u128)
}

/// Measure the resource delta since `snapshot` and decide what to report.
///
/// - A breach of either cap asks for a `CapExceeded` event; the result is
///   `Err(GasBudgetExceeded)` exactly when `enforce` is set.
/// - Otherwise, reaching the warning threshold of either cap asks for a
///   `CapApproached` event, and the result is `Ok`.
/// - Otherwise nothing is reported and the result is `Ok`.
pub fn check(
    budget: &OperationBudget,
    snapshot: &BudgetSnapshot,
    cpu_now: u64,
    mem_now: u64,
    enforce: bool,
) -> (c: BudgetCheck)
    ensures
        c == check_spec(*budget, *snapshot, cpu_now, mem_now, enforce),
        check_law(*budget, *snapshot, cpu_now, mem_now, enforce, c),
{
    proof {
        lemma_check_follows_law(*budget, *snapshot, cpu_now, mem_now, enforce);
    }
    let cpu_used = saturating_sub(cpu_now, snapshot.cpu);
    let mem_used = saturating_sub(mem_now, snapshot.mem);

    let cpu_exceeded = exceeds_cap(cpu_used, budget.max_cpu_instructions);
    let mem_exceeded = exceeds_cap(mem_used, budget.max_memory_bytes);

    if cpu_exceeded || mem_exceeded {
        let result = if enforce {
            Err(GasBudgetError::GasBudgetExceeded)
        } else {
            Ok(())
        };
        return BudgetCheck { cpu_used, mem_used, event: Some(GasBudgetEvent::CapExceeded), result };
    }

    let cpu_warn = reaches_warning(cpu_used, budget.max_cpu_instructions);
    let mem_warn = reaches_warning(mem_used, budget.max_memory_bytes);

    if cpu_warn || mem_warn {
        return BudgetCheck {
            cpu_used,
            mem_used,
            event: Some(GasBudgetEvent::CapApproached),
            result: Ok(()),
        };
    }

    BudgetCheck { cpu_used, mem_used, event: None, result: Ok(()) }
}

/// With caps advisory (`enforce == false`) a check never fails.
pub proof fn lemma_advisory_check_never_fails(
    budget: OperationBudget,
    snapshot: BudgetSnapshot,
    cpu_now: u64,
    mem_now: u64,
)
    ensures
        check_spec(budget, snapshot, cpu_now, mem_now, false).result is Ok,
{
}

/// A check fails exactly when caps are enforced and one of them is
/// breached, and a breach is always reported by a `CapExceeded` event.
pub proof fn lemma_check_fails_iff_enforced_breach(
    budget: OperationBudget,
    snapshot: BudgetSnapshot,
    cpu_now: u64,
    mem_now: u64,
    enforce: bool,
)
    ensures
        ({
            let c = check_spec(budget, snapshot, cpu_now, mem_now, enforce);
            &&& c.result is Err <==> enforce && budget_breached(budget, c.cpu_used, c.mem_used)
            &&& c.event == Some(GasBudgetEvent::CapExceeded) <==> budget_breached(
                budget,
                c.cpu_used,
                c.mem_used,
            )
        }),
{
}

/// An uncapped budget never reports anything and never fails.
pub proof fn lemma_uncapped_budget_is_silent(
    budget: OperationBudget,
    snapshot: BudgetSnapshot,
    cpu_now: u64,
    mem_now: u64,
    enforce: bool,
)
    requires
        budget.is_uncapped(),
    ensures
        check_spec(budget, snapshot, cpu_now, mem_now, enforce).event is None,
        check_spec(budget, snapshot, cpu_now, mem_now, enforce).result is Ok,
{
}

/// The configuration in force when none is stored lets every operation
/// through silently: all its budgets are uncapped and it does not enforce.
pub proof fn lemma_default_config_is_permissive(
    snapshot: BudgetSnapshot,
    cpu_now: u64,
    mem_now: u64,
)
    ensures
        ({
            let c = GasBudgetConfig::spec_uncapped();
            &&& !c.enforce
            &&& c.lock.is_uncapped()
            &&& c.release.is_uncapped()
            &&& c.refund.is_uncapped()
            &&& c.partial_release.is_uncapped()
            &&& c.batch_lock.is_uncapped()
            &&& c.batch_release.is_uncapped()
            &&& check_spec(c.lock, snapshot, cpu_now, mem_now, c.enforce).event is None
        }),
{
}

/// Using more resources never turns a breach into a pass: a check that
/// reports a breach reports one for any later readings at least as high.
pub proof fn lemma_breach_is_monotone(
    budget: OperationBudget,
    snapshot: BudgetSnapshot,
    cpu_now: u64,
    mem_now: u64,
    cpu_later: u64,
    mem_later: u64,
    enforce: bool,
)
    requires
        cpu_now <= cpu_later,
        mem_now <= mem_later,
        check_spec(budget, snapshot, cpu_now, mem_now, enforce).event == Some(
            GasBudgetEvent::CapExceeded,
        ),
    ensures
        check_spec(budget, snapshot, cpu_later, mem_later, enforce).event == Some(
            GasBudgetEvent::CapExceeded,
        ),
        check_spec(budget, snapshot, cpu_later, mem_later, enforce).result == check_spec(
            budget,
            snapshot,
            cpu_now,
            mem_now,
            enforce,
        ).result,
{
}

/// What a check must report, dimension by dimension: usage is the
/// reading after minus the reading before (`0` if the meter went back); a
/// breach of either set cap (usage strictly above it) reports `CapExceeded`
/// and fails exactly when enforced; without a breach, usage of either
/// dimension at or above 80 % of its set cap reports `CapApproached`; and
/// otherwise nothing is reported. Only a breach ever fails.
pub open spec fn check_law(
    budget: OperationBudget,
    snapshot: BudgetSnapshot,
    cpu_now: u64,
    mem_now: u64,
    enforce: bool,
    c: BudgetCheck,
) -> bool {
    let cap_c = budget.max_cpu_instructions;
    let cap_m = budget.max_memory_bytes;
    let breach = (cap_c > 0 && c.cpu_used > cap_c) || (cap_m > 0 && c.mem_used > cap_m);
    let cpu_warn = cap_c > 0 && c.cpu_used * 10_000 >= cap_c * 8_000;
    let mem_warn = cap_m > 0 && c.mem_used * 10_000 >= cap_m * 8_000;
    &&& c.cpu_used == (if cpu_now >= snapshot.cpu {
        cpu_now - snapshot.cpu
    } else {
        0
    })
    &&& c.mem_used == (if mem_now >= snapshot.mem {
        mem_now - snapshot.mem
    } else {
        0
    })
    &&& breach ==> c.event == Some(GasBudgetEvent::CapExceeded)
    &&& (c.result is Err <==> breach && enforce)
    &&& !breach && cpu_warn ==> c.event == Some(GasBudgetEvent::CapApproached)
    &&& !breach && mem_warn ==> c.event == Some(GasBudgetEvent::CapApproached)
    &&& !breach && !cpu_warn && !mem_warn ==> c.event is None
}

/// Every check decides as `check_law` says, for every budget, snapshot,
/// pair of readings and enforcement setting.
pub proof fn lemma_check_follows_law(
    budget: OperationBudget,
    snapshot: BudgetSnapshot,
    cpu_now: u64,
    mem_now: u64,
    enforce: bool,
)
    ensures
        check_law(
            budget,
            snapshot,
            cpu_now,
            mem_now,
            enforce,
            check_spec(budget, snapshot, cpu_now, mem_now, enforce),
        ),
{
}

} // verus!
