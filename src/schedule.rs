use vstd::prelude::*;
use crate::model::{total_of, Installment, InstallmentStatus, MAX_INSTALLMENTS};

verus! {

/// The amount of the installment at 0-based position `i` of `count`:
/// the truncated share, with the remainder on the last one.
pub open spec fn share(total: int, count: int, i: int) -> int {
    if i == count - 1 {
        total / count + total % count
    } else {
        total / count
    }
}

/// Sum of a sequence of amounts.
pub open spec fn sum_of(s: Seq<i128>) -> int
    decreases s.len(),
{
    if s.len() == 0 {
        0
    } else {
        sum_of(s.drop_last()) + s.last()
    }
}

/// The installment at 0-based position `i`, before any collection.
pub open spec fn pending_installment(amount: i128, due_date: u64, i: int) -> Installment {
    Installment {
        number: (i + 1) as u32,
        amount,
        due_date,
        paid_at: None,
        payment_source: None,
        status: InstallmentStatus::Pending,
    }
}

/// Splits `total_amount` into `count` amounts: each the truncated share,
/// the last one also taking the remainder. They add up to `total_amount`.
pub fn amortize(total_amount: i128, count: u32) -> (r: Vec<i128>)
    requires
        total_amount > 0,
        1 <= count <= MAX_INSTALLMENTS,
    ensures
        r@.len() == count,
        forall|i: int| 0 <= i < count ==> #[trigger] r@[i] == share(total_amount as int, count as int, i),
        sum_of(r@) == total_amount,
{
    let n = count as i128;
    let per = total_amount / n;
    let rem = total_amount % n;
    proof {
        assert(total_amount == n * per + rem && 0 <= rem < n) by (nonlinear_arith)
            requires per == total_amount / n, rem == total_amount % n, n > 0;
        assert(0 <= per && per + rem <= total_amount) by (nonlinear_arith)
            requires total_amount == n * per + rem, 0 <= rem < n, n >= 1, total_amount > 0;
    }
    let mut r: Vec<i128> = Vec::new();
    let mut i: u32 = 0;
    while i < count
        invariant
            i <= count,
            n == count,
            per == total_amount / n,
            rem == total_amount % n,
            total_amount == n * per + rem,
            0 <= per,
            per + rem <= total_amount,
            0 <= rem < n,
            r@.len() == i,
            forall|j: int| 0 <= j < i ==> #[trigger] r@[j] == share(total_amount as int, count as int, j),
            i < count ==> sum_of(r@) == i * per,
            i == count ==> sum_of(r@) == total_amount,
        decreases count - i,
    {
        let amount: i128 = if i == count - 1 { per + rem } else { per };
        let ghost before = r@;
        r.push(amount);
        proof {
            assert(r@.drop_last() == before);
            assert((i + 1) * per == i * per + per) by (nonlinear_arith);
        }
        i = i + 1;
    }
    r
}

/// The installments of a new plan: numbered from 1, amounts from
/// `amortize`, one due date each, all pending.
pub fn build_installments(total_amount: i128, count: u32, due_dates: &Vec<u64>) -> (r: Vec<Installment>)
    requires
        total_amount > 0,
        1 <= count <= MAX_INSTALLMENTS,
        due_dates@.len() == count,
    ensures
        r@.len() == count,
        forall|i: int| 0 <= i < count ==> #[trigger] r@[i] == pending_installment(
            share(total_amount as int, count as int, i) as i128,
            due_dates@[i],
            i,
        ),
        total_of(r@) == total_amount,
{
    let amounts = amortize(total_amount, count);
    let mut r: Vec<Installment> = Vec::new();
    let mut i: usize = 0;
    while i < amounts.len()
        invariant
            amounts@.len() == count,
            due_dates@.len() == count,
            count <= MAX_INSTALLMENTS,
            i <= count,
            r@.len() == i,
            forall|j: int| 0 <= j < count ==> #[trigger] amounts@[j] == share(total_amount as int, count as int, j),
            forall|j: int| 0 <= j < i ==> #[trigger] r@[j] == pending_installment(amounts@[j], due_dates@[j], j),
            total_of(r@) == sum_of(amounts@.take(i as int)),
        decreases count - i,
    {
        let ghost before = r@;
        r.push(Installment {
            number: (i + 1) as u32,
            amount: amounts[i],
            due_date: due_dates[i],
            paid_at: None,
            payment_source: None,
            status: InstallmentStatus::Pending,
        });
        proof {
            assert(r@.drop_last() == before);
            assert(amounts@.take(i + 1).drop_last() == amounts@.take(i as int));
        }
        i = i + 1;
    }
    proof {
        assert(amounts@.take(count as int) == amounts@);
        assert forall|j: int| 0 <= j < count implies #[trigger] r@[j] == pending_installment(
            share(total_amount as int, count as int, j) as i128,
            due_dates@[j],
            j,
        ) by {
            assert(amounts@[j] == share(total_amount as int, count as int, j));
        }
    }
    r
}

} // verus!
