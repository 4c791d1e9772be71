use vstd::prelude::*;

verus! {

/// Lifecycle of a plan: `Active` moves once, to `Completed` or `Defaulted`.
#[derive(Clone, Copy, Debug, PartialEq, Eq, Structural)]
pub enum PlanStatus {
    Active,
    Completed,
    Defaulted,
}

/// Lifecycle of an installment: `Pending` moves once, to `Paid` or `Failed`.
#[derive(Clone, Copy, Debug, PartialEq, Eq, Structural)]
pub enum InstallmentStatus {
    Pending,
    Paid,
    Failed,
}

/// The collateral bucket that funded an installment.
#[derive(Clone, Copy, Debug, PartialEq, Eq, Structural)]
pub enum PaymentSource {
    Available,
    Protected,
}

/// One scheduled payment of a plan.
#[derive(Clone, Copy, Debug, PartialEq, Eq)]
pub struct Installment {
    /// 1-based position within the plan.
    pub number: u32,
    pub amount: i128,
    pub due_date: u64,
    pub paid_at: Option<u64>,
    pub payment_source: Option<PaymentSource>,
    pub status: InstallmentStatus,
}

/// A collateralized schedule of installments. `A` is the host's identity type.
#[derive(Clone, Debug)]
pub struct BridgePlan<A> {
    pub plan_id: String,
    pub user: A,
    pub merchant: A,
    pub total_amount: i128,
    pub installments_count: u32,
    pub installments: Vec<Installment>,
    /// Collateral reserved for the whole plan; equal to `total_amount`.
    pub protected_amount: i128,
    pub status: PlanStatus,
    pub created_at: u64,
}

/// What the collateral service reports for an owner.
#[derive(Clone, Copy, Debug, PartialEq, Eq, Structural)]
pub struct BufferBalance {
    pub available: i128,
    pub protected: i128,
    pub total: i128,
}

#[derive(Clone, Copy, Debug, PartialEq, Eq, Structural)]
pub enum Error {
    InvalidAmount,
    InvalidInstallments,
    InsufficientCollateral,
    InsufficientAvailable,
    DatesMismatch,
    InvalidDueDate,
    PlanNotFound,
    InstallmentNotFound,
    AlreadyPaid,
    NotDueYet,
    InsufficientFunds,
    TooManyInstallments,
}

/// A mutating call on the collateral service that the host must perform,
/// for the plan's owner, with the amount given.
#[derive(Clone, Copy, Debug, PartialEq, Eq, Structural)]
pub enum CollateralCall {
    LockProtected(i128),
    UnlockProtected(i128),
    DebitAvailable(i128),
    DebitProtected(i128),
}

/// The outcome of one collection attempt.
#[derive(Debug)]
pub struct Collection {
    /// What the caller is told.
    pub result: Result<PaymentSource, Error>,
    /// Collateral calls to perform, in order.
    pub calls: Vec<CollateralCall>,
    /// Whether the plan changed and must be written back.
    pub save: bool,
}

/// Largest number of installments in a plan.
pub const MAX_INSTALLMENTS: u32 = 12;

/// Sum of the amounts of a sequence of installments.
pub open spec fn total_of(s: Seq<Installment>) -> int
    decreases s.len(),
{
    if s.len() == 0 {
        0
    } else {
        total_of(s.drop_last()) + s.last().amount
    }
}

/// Every installment is paid.
pub open spec fn all_paid(s: Seq<Installment>) -> bool {
    forall|i: int| 0 <= i < s.len() ==> #[trigger] s[i].status == InstallmentStatus::Paid
}

/// Some installment failed.
pub open spec fn any_failed(s: Seq<Installment>) -> bool {
    exists|i: int| 0 <= i < s.len() && #[trigger] s[i].status == InstallmentStatus::Failed
}

/// An installment's payment record agrees with its status.
pub open spec fn installment_consistent(x: Installment) -> bool {
    match x.status {
        InstallmentStatus::Paid => x.paid_at is Some && x.payment_source is Some,
        _ => x.paid_at is None && x.payment_source is None,
    }
}

impl<A> BridgePlan<A> {
    /// The invariant of a stored plan.
    pub open spec fn wf(&self) -> bool {
        let s = self.installments@;
        &&& 0 < self.total_amount
        &&& 1 <= self.installments_count <= MAX_INSTALLMENTS
        &&& s.len() == self.installments_count
        &&& self.protected_amount == self.total_amount
        &&& total_of(s) == self.total_amount
        &&& forall|i: int| 0 <= i < s.len() ==> {
            &&& (#[trigger] s[i]).number == i + 1
            &&& s[i].due_date > self.created_at
            &&& installment_consistent(s[i])
        }
        &&& (self.status == PlanStatus::Completed <==> all_paid(s))
        &&& (self.status == PlanStatus::Defaulted <==> any_failed(s))
    }
}

} // verus!
