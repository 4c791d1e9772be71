//! Laws of the plan lifecycle, stated over the specifications that the
//! operations' contracts use.
use vstd::prelude::*;
use crate::model::{
    all_paid, any_failed, BridgePlan, BufferBalance, CollateralCall, Collection, Error, InstallmentStatus,
    PaymentSource, PlanStatus, MAX_INSTALLMENTS,
};
use crate::contract::{collected, collection_error, creation_error, request_error};

verus! {

/// A creation request whose installment count lies outside `1..=12` is
/// refused, whatever the balance; a refused creation asks for no lock.
pub proof fn lemma_count_out_of_range_refused(
    total_amount: i128,
    count: u32,
    dates: Seq<u64>,
    now: u64,
    balance: BufferBalance,
)
    requires
        count < 1 || count > MAX_INSTALLMENTS,
    ensures
        creation_error(total_amount, count, dates, now, balance) == Some(
            if total_amount <= 0 { Error::InvalidAmount } else { Error::InvalidInstallments },
        ),
{
}

/// A request whose number of due dates differs from the installment count is
/// refused by the checks that come before the collateral service is
/// consulted, so the outcome does not depend on the balance.
pub proof fn lemma_dates_mismatch_refused_before_balance(
    total_amount: i128,
    count: u32,
    dates: Seq<u64>,
    now: u64,
    a: BufferBalance,
    b: BufferBalance,
)
    requires
        dates.len() != count,
    ensures
        request_error(total_amount, count, dates, now) is Some,
        creation_error(total_amount, count, dates, now, a) == creation_error(total_amount, count, dates, now, b),
        total_amount > 0 && 1 <= count <= MAX_INSTALLMENTS ==> request_error(total_amount, count, dates, now)
            == Some(Error::DatesMismatch),
{
}

/// A request for more than the available funds, or more than the total
/// capacity, is refused, so no lock is asked for.
pub proof fn lemma_over_collateral_refused(
    total_amount: i128,
    count: u32,
    dates: Seq<u64>,
    now: u64,
    balance: BufferBalance,
)
    requires
        total_amount > balance.available || total_amount > balance.total,
    ensures
        creation_error(total_amount, count, dates, now, balance) is Some,
        request_error(total_amount, count, dates, now) is None ==> creation_error(total_amount, count, dates, now, balance)
            == Some(
            if total_amount > balance.total { Error::InsufficientCollateral } else { Error::InsufficientAvailable },
        ),
{
}

/// Collecting a pending installment before its due date is refused with
/// `NotDueYet` (and a refused collection changes nothing).
pub proof fn lemma_early_collection_refused<A>(plan: BridgePlan<A>, number: u32, now: u64)
    requires
        1 <= number <= plan.installments@.len(),
        plan.installments@[number - 1].status == InstallmentStatus::Pending,
        now < plan.installments@[number - 1].due_date,
    ensures
        collection_error(plan.installments@, number, now) == Some(Error::NotDueYet),
{
}

/// When the available bucket covers the amount, it is debited and the
/// installment is paid from it.
pub proof fn lemma_available_pays_first<A>(
    before: BridgePlan<A>,
    after: BridgePlan<A>,
    number: u32,
    now: u64,
    balance: BufferBalance,
    r: Collection,
)
    requires
        collection_error(before.installments@, number, now) is None,
        collected(before, after, number, now, balance, r),
        balance.available >= before.installments@[number - 1].amount,
    ensures
        r.result == Ok::<PaymentSource, Error>(PaymentSource::Available),
        r.calls@[0] == CollateralCall::DebitAvailable(before.installments@[number - 1].amount),
        after.installments@[number - 1].status == InstallmentStatus::Paid,
        after.installments@[number - 1].payment_source == Some(PaymentSource::Available),
        after.installments@[number - 1].paid_at == Some(now),
{
}

/// When only the protected bucket covers the amount, it is debited and the
/// installment is paid from it.
pub proof fn lemma_protected_pays_second<A>(
    before: BridgePlan<A>,
    after: BridgePlan<A>,
    number: u32,
    now: u64,
    balance: BufferBalance,
    r: Collection,
)
    requires
        collection_error(before.installments@, number, now) is None,
        collected(before, after, number, now, balance, r),
        balance.available < before.installments@[number - 1].amount <= balance.protected,
    ensures
        r.result == Ok::<PaymentSource, Error>(PaymentSource::Protected),
        r.calls@[0] == CollateralCall::DebitProtected(before.installments@[number - 1].amount),
        after.installments@[number - 1].status == InstallmentStatus::Paid,
        after.installments@[number - 1].payment_source == Some(PaymentSource::Protected),
{
}

/// When neither bucket covers the amount, the error `InsufficientFunds` comes
/// with a state to be saved: the installment failed and the plan defaulted.
/// No collateral is touched.
pub proof fn lemma_insufficient_funds_defaults<A>(
    before: BridgePlan<A>,
    after: BridgePlan<A>,
    number: u32,
    now: u64,
    balance: BufferBalance,
    r: Collection,
)
    requires
        collection_error(before.installments@, number, now) is None,
        collected(before, after, number, now, balance, r),
        balance.available < before.installments@[number - 1].amount,
        balance.protected < before.installments@[number - 1].amount,
    ensures
        r.result == Err::<PaymentSource, Error>(Error::InsufficientFunds),
        r.save,
        r.calls@.len() == 0,
        after.installments@[number - 1].status == InstallmentStatus::Failed,
        after.status == PlanStatus::Defaulted,
{
}

/// Paying the last unpaid installment of a plan completes it and releases
/// the plan's whole protected amount, whichever buckets paid its installments.
pub proof fn lemma_last_payment_completes<A>(
    before: BridgePlan<A>,
    after: BridgePlan<A>,
    number: u32,
    now: u64,
    balance: BufferBalance,
    r: Collection,
)
    requires
        before.wf(),
        collection_error(before.installments@, number, now) is None,
        collected(before, after, number, now, balance, r),
        r.result is Ok,
        forall|i: int| 0 <= i < before.installments@.len() && i != number - 1
            ==> #[trigger] before.installments@[i].status == InstallmentStatus::Paid,
    ensures
        after.status == PlanStatus::Completed,
        r.calls@.len() == 2,
        r.calls@[1] == CollateralCall::UnlockProtected(before.protected_amount),
        before.protected_amount == before.total_amount,
{
    let s = after.installments@;
    assert(all_paid(s)) by {
        assert forall|i: int| 0 <= i < s.len() implies #[trigger] s[i].status == InstallmentStatus::Paid by {
            if i != number - 1 {
                assert(before.installments@[i].status == InstallmentStatus::Paid);
            }
        }
    }
}

/// Once a collection has passed its checks, collecting the same installment
/// again, at any time, is refused with `AlreadyPaid`.
pub proof fn lemma_second_collection_refused<A>(
    before: BridgePlan<A>,
    after: BridgePlan<A>,
    number: u32,
    now: u64,
    later: u64,
    balance: BufferBalance,
    r: Collection,
)
    requires
        collection_error(before.installments@, number, now) is None,
        collected(before, after, number, now, balance, r),
    ensures
        collection_error(after.installments@, number, later) == Some(Error::AlreadyPaid),
{
}

/// A plan that has left `Active` keeps its status through every collection.
pub proof fn lemma_terminal_status_kept<A>(
    before: BridgePlan<A>,
    after: BridgePlan<A>,
    number: u32,
    now: u64,
    balance: BufferBalance,
    r: Collection,
)
    requires
        before.wf(),
        before.status != PlanStatus::Active,
        collection_error(before.installments@, number, now) is None,
        collected(before, after, number, now, balance, r),
    ensures
        after.status == before.status,
{
    let s0 = before.installments@;
    let s1 = after.installments@;
    let i = number - 1;
    assert(s0[i].status == InstallmentStatus::Pending);
    if before.status == PlanStatus::Completed {
        assert(all_paid(s0));
        assert(s0[i].status == InstallmentStatus::Paid);
    } else {
        assert(any_failed(s0));
        let k = choose|k: int| 0 <= k < s0.len() && #[trigger] s0[k].status == InstallmentStatus::Failed;
        assert(k != i);
        assert(s1[k].status == InstallmentStatus::Failed);
        assert(!all_paid(s1));
    }
}

} // verus!
