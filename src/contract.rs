use vstd::prelude::*;
use crate::model::{
    all_paid, any_failed, installment_consistent, total_of, BridgePlan, BufferBalance,
    CollateralCall, Collection, Error, Installment, InstallmentStatus, PaymentSource, PlanStatus,
    MAX_INSTALLMENTS,
};
use crate::schedule::{build_installments, pending_installment, share};

verus! {

/// Entry points of the plan lifecycle.
pub struct BridgeContract;

/// Every due date lies strictly after `now`.
pub open spec fn dates_in_future(dates: Seq<u64>, now: u64) -> bool {
    forall|i: int| 0 <= i < dates.len() ==> #[trigger] dates[i] > now
}

/// The first failing check of a creation request that needs no collateral
/// balance, in the order: amount, count, number of dates, dates.
pub open spec fn request_error(total_amount: i128, count: u32, dates: Seq<u64>, now: u64) -> Option<Error> {
    if total_amount <= 0 {
        Some(Error::InvalidAmount)
    } else if count < 1 || count > MAX_INSTALLMENTS {
        Some(Error::InvalidInstallments)
    } else if dates.len() != count {
        Some(Error::DatesMismatch)
    } else if !dates_in_future(dates, now) {
        Some(Error::InvalidDueDate)
    } else {
        None
    }
}

/// The first failing collateral check: capacity, then liquidity.
pub open spec fn collateral_error(total_amount: i128, balance: BufferBalance) -> Option<Error> {
    if total_amount > balance.total {
        Some(Error::InsufficientCollateral)
    } else if total_amount > balance.available {
        Some(Error::InsufficientAvailable)
    } else {
        None
    }
}

/// Why a creation request is refused, if it is.
pub open spec fn creation_error(
    total_amount: i128,
    count: u32,
    dates: Seq<u64>,
    now: u64,
    balance: BufferBalance,
) -> Option<Error> {
    match request_error(total_amount, count, dates, now) {
        Some(e) => Some(e),
        None => collateral_error(total_amount, balance),
    }
}

/// `plan` is the fresh plan built from these arguments.
pub open spec fn created_as<A>(
    plan: BridgePlan<A>,
    plan_id: Seq<char>,
    user: A,
    merchant: A,
    total_amount: i128,
    count: u32,
    dates: Seq<u64>,
    now: u64,
) -> bool {
    &&& plan.plan_id@ == plan_id
    &&& plan.user == user
    &&& plan.merchant == merchant
    &&& plan.total_amount == total_amount
    &&& plan.installments_count == count
    &&& plan.protected_amount == total_amount
    &&& plan.status == PlanStatus::Active
    &&& plan.created_at == now
    &&& plan.installments@.len() == count
    &&& forall|i: int| 0 <= i < count ==> #[trigger] plan.installments@[i] == pending_installment(
        share(total_amount as int, count as int, i) as i128,
        dates[i],
        i,
    )
}

/// Why collecting installment `number` at time `now` is refused before the
/// collateral is consulted, if it is.
pub open spec fn collection_error(s: Seq<Installment>, number: u32, now: u64) -> Option<Error> {
    if number < 1 || number > s.len() {
        Some(Error::InstallmentNotFound)
    } else if s[number - 1].status != InstallmentStatus::Pending {
        Some(Error::AlreadyPaid)
    } else if now < s[number - 1].due_date {
        Some(Error::NotDueYet)
    } else {
        None
    }
}

/// The bucket that pays `amount`: available first, then protected.
pub open spec fn funding_source(balance: BufferBalance, amount: i128) -> Option<PaymentSource> {
    if balance.available >= amount {
        Some(PaymentSource::Available)
    } else if balance.protected >= amount {
        Some(PaymentSource::Protected)
    } else {
        None
    }
}

/// The debit that takes `amount` from `source`.
pub open spec fn debit_call(source: PaymentSource, amount: i128) -> CollateralCall {
    match source {
        PaymentSource::Available => CollateralCall::DebitAvailable(amount),
        PaymentSource::Protected => CollateralCall::DebitProtected(amount),
    }
}

/// `x` after being paid at `now` from `source`.
pub open spec fn paid_installment(x: Installment, now: u64, source: PaymentSource) -> Installment {
    Installment {
        number: x.number,
        amount: x.amount,
        due_date: x.due_date,
        paid_at: Some(now),
        payment_source: Some(source),
        status: InstallmentStatus::Paid,
    }
}

/// `x` after a collection that neither bucket could fund.
pub open spec fn failed_installment(x: Installment) -> Installment {
    Installment {
        number: x.number,
        amount: x.amount,
        due_date: x.due_date,
        paid_at: x.paid_at,
        payment_source: x.payment_source,
        status: InstallmentStatus::Failed,
    }
}

/// The fields that no collection changes are equal.
pub open spec fn same_terms<A>(a: BridgePlan<A>, b: BridgePlan<A>) -> bool {
    &&& a.plan_id == b.plan_id
    &&& a.user == b.user
    &&& a.merchant == b.merchant
    &&& a.total_amount == b.total_amount
    &&& a.installments_count == b.installments_count
    &&& a.protected_amount == b.protected_amount
    &&& a.created_at == b.created_at
}

/// What a collection that passed its checks does to the plan and what it
/// returns, given the balance read from the collateral service.
pub open spec fn collected<A>(
    before: BridgePlan<A>,
    after: BridgePlan<A>,
    number: u32,
    now: u64,
    balance: BufferBalance,
    r: Collection,
) -> bool {
    let i = number - 1;
    let x = before.installments@[i];
    &&& same_terms(after, before)
    &&& r.save
    &&& match funding_source(balance, x.amount) {
        Some(source) => {
            let s = before.installments@.update(i, paid_installment(x, now, source));
            &&& after.installments@ == s
            &&& r.result == Ok::<PaymentSource, Error>(source)
            &&& if all_paid(s) {
                &&& after.status == PlanStatus::Completed
                &&& r.calls@ == seq![
                    debit_call(source, x.amount),
                    CollateralCall::UnlockProtected(before.protected_amount),
                ]
            } else {
                &&& after.status == before.status
                &&& r.calls@ == seq![debit_call(source, x.amount)]
            }
        },
        None => {
            &&& after.installments@ == before.installments@.update(i, failed_installment(x))
            &&& after.status == PlanStatus::Defaulted
            &&& r.result == Err::<PaymentSource, Error>(Error::InsufficientFunds)
            &&& r.calls@.len() == 0
        },
    }
}

/// The installment is pending and due at `now`.
pub open spec fn is_due(x: Installment, now: u64) -> bool {
    x.status == InstallmentStatus::Pending && x.due_date <= now
}

proof fn lemma_total_of_update(s: Seq<Installment>, i: int, y: Installment)
    requires
        0 <= i < s.len(),
    ensures
        total_of(s.update(i, y)) == total_of(s) - s[i].amount + y.amount,
    decreases s.len(),
{
    let t = s.update(i, y);
    if i == s.len() - 1 {
        assert(t.drop_last() == s.drop_last());
    } else {
        assert(t.drop_last() == s.drop_last().update(i, y));
        lemma_total_of_update(s.drop_last(), i, y);
    }
}

/// Whether every installment is paid.
fn all_installments_paid(v: &Vec<Installment>) -> (r: bool)
    ensures
        r == all_paid(v@),
{
    let mut i: usize = 0;
    while i < v.len()
        invariant
            i <= v@.len(),
            forall|j: int| 0 <= j < i ==> #[trigger] v@[j].status == InstallmentStatus::Paid,
        decreases v@.len() - i,
    {
        if v[i].status != InstallmentStatus::Paid {
            return false;
        }
        i = i + 1;
    }
    true
}

impl BridgeContract {
    /// Runs the checks of a creation request that come before the collateral
    /// service is consulted.
    pub fn check_request(total_amount: i128, installments_count: u32, due_dates: &Vec<u64>, current_time: u64) -> (r: Result<(), Error>)
        ensures
            r == match request_error(total_amount, installments_count, due_dates@, current_time) {
                Some(e) => Err(e),
                None => Ok::<(), Error>(()),
            },
    {
        if total_amount <= 0 {
            return Err(Error::InvalidAmount);
        }
        if installments_count == 0 || installments_count > MAX_INSTALLMENTS {
            return Err(Error::InvalidInstallments);
        }
        if due_dates.len() != installments_count as usize {
            return Err(Error::DatesMismatch);
        }
        let mut i: usize = 0;
        while i < due_dates.len()
            invariant
                i <= due_dates@.len(),
                due_dates@.len() == installments_count,
                total_amount > 0,
                1 <= installments_count <= MAX_INSTALLMENTS,
                forall|j: int| 0 <= j < i ==> #[trigger] due_dates@[j] > current_time,
            decreases due_dates@.len() - i,
        {
            if due_dates[i] <= current_time {
                assert(!dates_in_future(due_dates@, current_time));
                return Err(Error::InvalidDueDate);
            }
            i = i + 1;
        }
        Ok(())
    }

    /// Checks the requested amount against the owner's collateral.
    pub fn check_collateral(total_amount: i128, balance: &BufferBalance) -> (r: Result<(), Error>)
        ensures
            r == match collateral_error(total_amount, *balance) {
                Some(e) => Err(e),
                None => Ok::<(), Error>(()),
            },
    {
        if total_amount > balance.total {
            return Err(Error::InsufficientCollateral);
        }
        if total_amount > balance.available {
            return Err(Error::InsufficientAvailable);
        }
        Ok(())
    }

    /// Creates a plan: validates the request and the collateral, splits the
    /// amount into installments and returns the plan with the lock that the
    /// host must place on the owner's collateral. On refusal nothing is to
    /// be called.
    pub fn create_plan<A>(
        plan_id: String,
        user: A,
        merchant: A,
        total_amount: i128,
        installments_count: u32,
        due_dates: &Vec<u64>,
        current_time: u64,
        balance: &BufferBalance,
    ) -> (r: Result<(BridgePlan<A>, CollateralCall), Error>)
        ensures
            match creation_error(total_amount, installments_count, due_dates@, current_time, *balance) {
                Some(e) => r == Err::<(BridgePlan<A>, CollateralCall), Error>(e),
                None => r matches Ok((plan, call)) && {
                    &&& created_as(plan, plan_id@, user, merchant, total_amount, installments_count, due_dates@, current_time)
                    &&& call == CollateralCall::LockProtected(total_amount)
                    &&& total_of(plan.installments@) == total_amount
                    &&& plan.wf()
                },
            },
    {
        match Self::check_request(total_amount, installments_count, due_dates, current_time) {
            Err(e) => return Err(e),
            Ok(()) => {},
        }
        match Self::check_collateral(total_amount, balance) {
            Err(e) => return Err(e),
            Ok(()) => {},
        }
        let installments = build_installments(total_amount, installments_count, due_dates);
        let plan = BridgePlan {
            plan_id,
            user,
            merchant,
            total_amount,
            installments_count,
            installments,
            protected_amount: total_amount,
            status: PlanStatus::Active,
            created_at: current_time,
        };
        proof {
            let s = plan.installments@;
            assert(s[0].status == InstallmentStatus::Pending);
            assert(!all_paid(s));
            assert forall|i: int| 0 <= i < s.len() implies {
                &&& (#[trigger] s[i]).number == i + 1
                &&& s[i].due_date > plan.created_at
                &&& installment_consistent(s[i])
            } by {
                assert(due_dates@[i] > current_time);
            }
            assert(!any_failed(s));
        }
        Ok((plan, CollateralCall::LockProtected(total_amount)))
    }

    /// Runs the checks of a collection that come before the collateral
    /// service is consulted.
    pub fn check_collection<A>(plan: &BridgePlan<A>, installment_number: u32, current_time: u64) -> (r: Result<(), Error>)
        ensures
            r == match collection_error(plan.installments@, installment_number, current_time) {
                Some(e) => Err(e),
                None => Ok::<(), Error>(()),
            },
    {
        if installment_number < 1 || installment_number as usize > plan.installments.len() {
            return Err(Error::InstallmentNotFound);
        }
        let x = plan.installments[(installment_number - 1) as usize];
        if x.status != InstallmentStatus::Pending {
            return Err(Error::AlreadyPaid);
        }
        if current_time < x.due_date {
            return Err(Error::NotDueYet);
        }
        Ok(())
    }

    /// Collects installment `installment_number` (1-based) at
    /// `current_time`, given the owner's balance. The available bucket pays
    /// first, the protected one second. When neither can, the installment
    /// fails and the plan defaults, and that state is to be saved although
    /// an error is returned. Paying the last unpaid installment completes
    /// the plan and releases the whole protected amount.
    pub fn collect_installment<A>(
        plan: &mut BridgePlan<A>,
        installment_number: u32,
        current_time: u64,
        balance: &BufferBalance,
    ) -> (r: Collection)
        ensures
            match collection_error(old(plan).installments@, installment_number, current_time) {
                Some(e) => {
                    &&& r.result == Err::<PaymentSource, Error>(e)
                    &&& r.calls@.len() == 0
                    &&& !r.save
                    &&& *final(plan) == *old(plan)
                },
                None => collected(*old(plan), *final(plan), installment_number, current_time, *balance, r),
            },
            old(plan).wf() ==> final(plan).wf(),
    {
        match Self::check_collection(plan, installment_number, current_time) {
            Err(e) => {
                return Collection { result: Err(e), calls: Vec::new(), save: false };
            },
            Ok(()) => {},
        }
        let idx = (installment_number - 1) as usize;
        let ghost s0 = plan.installments@;
        let mut x = plan.installments[idx];
        let amount = x.amount;
        let source = if balance.available >= amount {
            PaymentSource::Available
        } else if balance.protected >= amount {
            PaymentSource::Protected
        } else {
            x.status = InstallmentStatus::Failed;
            plan.installments.set(idx, x);
            plan.status = PlanStatus::Defaulted;
            proof {
                lemma_total_of_update(s0, idx as int, x);
                let s = plan.installments@;
                assert(s[idx as int].status == InstallmentStatus::Failed);
                assert(!all_paid(s));
                assert(any_failed(s));
            }
            return Collection { result: Err(Error::InsufficientFunds), calls: Vec::new(), save: true };
        };
        let debit = match source {
            PaymentSource::Available => CollateralCall::DebitAvailable(amount),
            PaymentSource::Protected => CollateralCall::DebitProtected(amount),
        };
        x.paid_at = Some(current_time);
        x.payment_source = Some(source);
        x.status = InstallmentStatus::Paid;
        plan.installments.set(idx, x);
        proof {
            lemma_total_of_update(s0, idx as int, x);
            let s = plan.installments@;
            if any_failed(s) {
                let k = choose|k: int| 0 <= k < s.len() && #[trigger] s[k].status == InstallmentStatus::Failed;
                assert(s0[k].status == InstallmentStatus::Failed);
            }
            if any_failed(s0) {
                let k = choose|k: int| 0 <= k < s0.len() && #[trigger] s0[k].status == InstallmentStatus::Failed;
                assert(s[k].status == InstallmentStatus::Failed);
            }
            assert(!all_paid(s0)) by {
                assert(s0[idx as int].status == InstallmentStatus::Pending);
            }
        }
        let mut calls: Vec<CollateralCall> = Vec::new();
        calls.push(debit);
        assert(calls@ =~= seq![debit_call(source, amount)]);
        if all_installments_paid(&plan.installments) {
            plan.status = PlanStatus::Completed;
            calls.push(CollateralCall::UnlockProtected(plan.protected_amount));
            assert(calls@ =~= seq![debit_call(source, amount), CollateralCall::UnlockProtected(plan.protected_amount)]);
        }
        Collection { result: Ok(source), calls, save: true }
    }

    /// Looks up a stored plan.
    pub fn get_plan<A>(stored: Option<BridgePlan<A>>) -> (r: Result<BridgePlan<A>, Error>)
        ensures
            r == match stored {
                Some(p) => Ok(p),
                None => Err::<BridgePlan<A>, Error>(Error::PlanNotFound),
            },
    {
        match stored {
            Some(p) => Ok(p),
            None => Err(Error::PlanNotFound),
        }
    }

    /// The ids of an owner's plans; an owner with none has an empty list.
    pub fn get_user_plans(stored: Option<Vec<String>>) -> (r: Vec<String>)
        ensures
            r@ == match stored {
                Some(v) => v@,
                None => Seq::<String>::empty(),
            },
    {
        match stored {
            Some(v) => v,
            None => Vec::new(),
        }
    }

    /// An owner's plan list after a new plan was recorded for them.
    pub fn record_user_plan(stored: Option<Vec<String>>, plan_id: String) -> (r: Vec<String>)
        ensures
            r@ == match stored {
                Some(v) => v@,
                None => Seq::<String>::empty(),
            }.push(plan_id),
    {
        let mut v = Self::get_user_plans(stored);
        v.push(plan_id);
        v
    }

    /// Takes the next plan number from the stored counter (absent means no
    /// plan yet) and returns it with the counter's next value.
    pub fn claim_plan_number(stored: Option<u64>) -> (r: (u64, u64))
        requires
            stored != Some(u64::MAX),
        ensures
            r.0 == match stored {
                Some(c) => c,
                None => 0,
            },
            r.1 == r.0 + 1,
    {
        let c = match stored {
            Some(c) => c,
            None => 0,
        };
        (c, c + 1)
    }

    /// The first installment, by number, that is pending and due at
    /// `current_time`; `None` if there is none.
    pub fn get_next_due<A>(plan: Option<&BridgePlan<A>>, current_time: u64) -> (r: Result<Option<Installment>, Error>)
        ensures
            plan is None ==> r == Err::<Option<Installment>, Error>(Error::PlanNotFound),
            plan matches Some(p) ==> r matches Ok(found) && {
                let s = p.installments@;
                match found {
                    Some(x) => exists|i: int| {
                        &&& 0 <= i < s.len()
                        &&& s[i] == x
                        &&& #[trigger] is_due(s[i], current_time)
                        &&& forall|j: int| 0 <= j < i ==> !is_due(#[trigger] s[j], current_time)
                    },
                    None => forall|i: int| 0 <= i < s.len() ==> !is_due(#[trigger] s[i], current_time),
                }
            },
    {
        let p = match plan {
            Some(p) => p,
            None => return Err(Error::PlanNotFound),
        };
        let mut i: usize = 0;
        while i < p.installments.len()
            invariant
                i <= p.installments@.len(),
                plan == Some(p),
                forall|j: int| 0 <= j < i ==> !is_due(#[trigger] p.installments@[j], current_time),
            decreases p.installments@.len() - i,
        {
            let x = p.installments[i];
            if x.status == InstallmentStatus::Pending && x.due_date <= current_time {
                assert(is_due(p.installments@[i as int], current_time));
                return Ok(Some(x));
            }
            i = i + 1;
        }
        Ok(None)
    }
}

} // verus!
