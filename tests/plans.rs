use bridge::{
    amortize, BridgeContract, BridgePlan, BufferBalance, CollateralCall, Error, InstallmentStatus,
    PaymentSource, PlanStatus,
};

fn balance(available: i128, protected: i128, total: i128) -> BufferBalance {
    BufferBalance { available, protected, total }
}

fn plan(total: i128, dates: Vec<u64>) -> BridgePlan<&'static str> {
    let count = dates.len() as u32;
    let (p, _) = BridgeContract::create_plan(
        String::from("plan_0"),
        "user",
        "merchant",
        total,
        count,
        &dates,
        10,
        &balance(1000, 0, 1000),
    )
    .unwrap();
    p
}

#[test]
fn test_create_plan_basic() {
    let r = BridgeContract::create_plan(
        String::from("plan_0"),
        "user",
        "merchant",
        300,
        3,
        &vec![100, 200, 300],
        50,
        &balance(1000, 0, 1000),
    );
    let (p, call) = r.unwrap();
    assert_eq!(p.plan_id, "plan_0");
    assert_eq!(p.user, "user");
    assert_eq!(p.merchant, "merchant");
    assert_eq!(p.installments_count, 3);
    assert_eq!(p.created_at, 50);
    assert_eq!(call, CollateralCall::LockProtected(300));
}

#[test]
fn hundred_in_three_installments() {
    let (p, call) = BridgeContract::create_plan(
        String::from("plan_7"),
        "user",
        "merchant",
        100,
        3,
        &vec![20, 30, 40],
        10,
        &balance(1000, 0, 1000),
    )
    .unwrap();
    let amounts: Vec<i128> = p.installments.iter().map(|x| x.amount).collect();
    assert_eq!(amounts, vec![33, 33, 34]);
    assert_eq!(call, CollateralCall::LockProtected(100));
    assert_eq!(p.status, PlanStatus::Active);
    assert_eq!(p.protected_amount, 100);
    for (i, x) in p.installments.iter().enumerate() {
        assert_eq!(x.number, i as u32 + 1);
        assert_eq!(x.status, InstallmentStatus::Pending);
        assert_eq!(x.paid_at, None);
        assert_eq!(x.payment_source, None);
    }
    assert_eq!(p.installments[2].due_date, 40);
}

#[test]
fn amounts_add_up_to_total() {
    for total in [1i128, 2, 7, 11, 100, 12345, 1_000_000_007] {
        for count in 1u32..=12 {
            let a = amortize(total, count);
            assert_eq!(a.len(), count as usize);
            assert_eq!(a.iter().sum::<i128>(), total);
        }
    }
    assert_eq!(amortize(2, 3), vec![0, 0, 2]);
    assert_eq!(amortize(12, 12), vec![1; 12]);
    assert_eq!(amortize(5, 1), vec![5]);
}

#[test]
fn creation_errors_in_order() {
    let b = balance(1000, 0, 1000);
    let create = |total: i128, count: u32, dates: Vec<u64>, b: &BufferBalance| {
        BridgeContract::create_plan(String::from("p"), 1u8, 2u8, total, count, &dates, 10, b).map(|_| ())
    };
    assert_eq!(create(0, 0, vec![], &b), Err(Error::InvalidAmount));
    assert_eq!(create(-5, 1, vec![20], &b), Err(Error::InvalidAmount));
    assert_eq!(create(100, 0, vec![], &b), Err(Error::InvalidInstallments));
    assert_eq!(create(100, 13, vec![20; 13], &b), Err(Error::InvalidInstallments));
    assert_eq!(create(100, 2, vec![20], &b), Err(Error::DatesMismatch));
    assert_eq!(create(100, 2, vec![20, 10], &b), Err(Error::InvalidDueDate));
    assert_eq!(create(100, 2, vec![5, 20], &b), Err(Error::InvalidDueDate));
    assert_eq!(create(100, 1, vec![20], &balance(1000, 0, 99)), Err(Error::InsufficientCollateral));
    assert_eq!(create(100, 1, vec![20], &balance(99, 0, 1000)), Err(Error::InsufficientAvailable));
    assert_eq!(create(100, 1, vec![20], &balance(50, 0, 50)), Err(Error::InsufficientCollateral));
    assert_eq!(create(100, 12, vec![20; 12], &balance(100, 0, 100)), Ok(()));
}

#[test]
fn request_checks_need_no_balance() {
    assert_eq!(BridgeContract::check_request(100, 3, &vec![20, 30], 10), Err(Error::DatesMismatch));
    assert_eq!(BridgeContract::check_request(100, 14, &vec![20, 30], 10), Err(Error::InvalidInstallments));
    assert_eq!(BridgeContract::check_request(100, 2, &vec![20, 30], 10), Ok(()));
    assert_eq!(BridgeContract::check_collateral(100, &balance(100, 0, 100)), Ok(()));
    assert_eq!(BridgeContract::check_collateral(101, &balance(200, 0, 100)), Err(Error::InsufficientCollateral));
}

#[test]
fn collect_before_due_is_refused_and_changes_nothing() {
    let mut p = plan(100, vec![20, 30]);
    let c = BridgeContract::collect_installment(&mut p, 1, 19, &balance(1000, 0, 1000));
    assert_eq!(c.result, Err(Error::NotDueYet));
    assert!(c.calls.is_empty());
    assert!(!c.save);
    assert_eq!(p.installments[0].status, InstallmentStatus::Pending);
    assert_eq!(p.status, PlanStatus::Active);
}

#[test]
fn collect_from_available() {
    let mut p = plan(100, vec![20, 30]);
    let c = BridgeContract::collect_installment(&mut p, 1, 25, &balance(50, 100, 150));
    assert_eq!(c.result, Ok(PaymentSource::Available));
    assert_eq!(c.calls, vec![CollateralCall::DebitAvailable(50)]);
    assert!(c.save);
    assert_eq!(p.installments[0].status, InstallmentStatus::Paid);
    assert_eq!(p.installments[0].paid_at, Some(25));
    assert_eq!(p.installments[0].payment_source, Some(PaymentSource::Available));
    assert_eq!(p.status, PlanStatus::Active);
}

#[test]
fn collect_falls_back_to_protected() {
    let mut p = plan(100, vec![20, 30]);
    let c = BridgeContract::collect_installment(&mut p, 2, 30, &balance(49, 50, 99));
    assert_eq!(c.result, Ok(PaymentSource::Protected));
    assert_eq!(c.calls, vec![CollateralCall::DebitProtected(50)]);
    assert_eq!(p.installments[1].payment_source, Some(PaymentSource::Protected));
    assert_eq!(p.installments[1].status, InstallmentStatus::Paid);
}

#[test]
fn insufficient_funds_defaults_the_plan() {
    let mut p = plan(100, vec![20, 30]);
    let c = BridgeContract::collect_installment(&mut p, 1, 20, &balance(49, 49, 98));
    assert_eq!(c.result, Err(Error::InsufficientFunds));
    assert!(c.calls.is_empty());
    assert!(c.save);
    let stored = BridgeContract::get_plan(Some(p)).unwrap();
    assert_eq!(stored.installments[0].status, InstallmentStatus::Failed);
    assert_eq!(stored.installments[0].paid_at, None);
    assert_eq!(stored.status, PlanStatus::Defaulted);
}

#[test]
fn last_payment_completes_and_unlocks_everything() {
    let mut p = plan(100, vec![20, 30, 40]);
    let c1 = BridgeContract::collect_installment(&mut p, 1, 40, &balance(1000, 0, 1000));
    assert_eq!(c1.result, Ok(PaymentSource::Available));
    let c2 = BridgeContract::collect_installment(&mut p, 3, 40, &balance(0, 100, 100));
    assert_eq!(c2.result, Ok(PaymentSource::Protected));
    assert_eq!(p.status, PlanStatus::Active);
    let c3 = BridgeContract::collect_installment(&mut p, 2, 40, &balance(33, 0, 33));
    assert_eq!(c3.result, Ok(PaymentSource::Available));
    assert_eq!(
        c3.calls,
        vec![CollateralCall::DebitAvailable(33), CollateralCall::UnlockProtected(100)]
    );
    assert_eq!(p.status, PlanStatus::Completed);
}

#[test]
fn second_collection_is_already_paid() {
    let mut p = plan(100, vec![20]);
    let c = BridgeContract::collect_installment(&mut p, 1, 20, &balance(100, 0, 100));
    assert_eq!(c.result, Ok(PaymentSource::Available));
    assert_eq!(p.status, PlanStatus::Completed);
    let again = BridgeContract::collect_installment(&mut p, 1, 99, &balance(100, 0, 100));
    assert_eq!(again.result, Err(Error::AlreadyPaid));
    assert!(again.calls.is_empty());
    assert!(!again.save);
    assert_eq!(p.installments[0].paid_at, Some(20));
}

#[test]
fn failed_installment_cannot_be_collected_again() {
    let mut p = plan(100, vec![20, 30]);
    BridgeContract::collect_installment(&mut p, 1, 20, &balance(0, 0, 0));
    let again = BridgeContract::collect_installment(&mut p, 1, 20, &balance(1000, 0, 1000));
    assert_eq!(again.result, Err(Error::AlreadyPaid));
    let other = BridgeContract::collect_installment(&mut p, 2, 30, &balance(1000, 0, 1000));
    assert_eq!(other.result, Ok(PaymentSource::Available));
    assert_eq!(p.status, PlanStatus::Defaulted);
}

#[test]
fn unknown_installment_number() {
    let mut p = plan(100, vec![20, 30]);
    for n in [0u32, 3, u32::MAX] {
        let c = BridgeContract::collect_installment(&mut p, n, 40, &balance(1000, 0, 1000));
        assert_eq!(c.result, Err(Error::InstallmentNotFound));
    }
    assert_eq!(
        BridgeContract::check_collection(&p, 3, 40),
        Err(Error::InstallmentNotFound)
    );
}

#[test]
fn missing_plan_is_not_found() {
    let none: Option<BridgePlan<u8>> = None;
    assert_eq!(BridgeContract::get_plan(none).err(), Some(Error::PlanNotFound));
    assert_eq!(BridgeContract::get_next_due::<u8>(None, 5), Err(Error::PlanNotFound));
}

#[test]
fn next_due_is_first_pending_and_due() {
    let mut p = plan(100, vec![30, 20, 40]);
    assert_eq!(BridgeContract::get_next_due(Some(&p), 19), Ok(None));
    let d = BridgeContract::get_next_due(Some(&p), 20).unwrap().unwrap();
    assert_eq!(d.number, 2);
    let d = BridgeContract::get_next_due(Some(&p), 35).unwrap().unwrap();
    assert_eq!(d.number, 1);
    BridgeContract::collect_installment(&mut p, 1, 35, &balance(1000, 0, 1000));
    let d = BridgeContract::get_next_due(Some(&p), 35).unwrap().unwrap();
    assert_eq!(d.number, 2);
    BridgeContract::collect_installment(&mut p, 2, 35, &balance(1000, 0, 1000));
    assert_eq!(BridgeContract::get_next_due(Some(&p), 35), Ok(None));
    let d = BridgeContract::get_next_due(Some(&p), 40).unwrap().unwrap();
    assert_eq!(d.number, 3);
    assert_eq!(d.amount, 34);
}

#[test]
fn user_plans_default_to_empty() {
    assert!(BridgeContract::get_user_plans(None).is_empty());
    let v = BridgeContract::get_user_plans(Some(vec![String::from("plan_0")]));
    assert_eq!(v, vec![String::from("plan_0")]);
    let v = BridgeContract::record_user_plan(None, String::from("plan_0"));
    let v = BridgeContract::record_user_plan(Some(v), String::from("plan_1"));
    assert_eq!(v, vec![String::from("plan_0"), String::from("plan_1")]);
}

#[test]
fn plan_numbers_count_up_from_zero() {
    assert_eq!(BridgeContract::claim_plan_number(None), (0, 1));
    assert_eq!(BridgeContract::claim_plan_number(Some(41)), (41, 42));
}
