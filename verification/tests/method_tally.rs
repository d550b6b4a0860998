use keypom::{AdmissionError, FCData, MethodData, MethodTally};

fn call(attached_deposit: u128) -> MethodData {
    MethodData {
        receiver_id: String::from("nft.example"),
        method_name: String::from("mint"),
        args: String::from("{}"),
        attached_deposit,
    }
}

fn payload(methods: Vec<Option<Vec<MethodData>>>) -> FCData {
    FCData { methods, config: None }
}

#[test]
fn a_shared_list_is_summed_once_and_multiplied_by_the_uses() {
    let data = payload(vec![Some(vec![call(10), call(20)])]);
    assert_eq!(data.tally(3), Ok(MethodTally { deposits: Some(90), none_count: 0 }));
}

#[test]
fn one_list_for_each_use_is_summed_list_by_list() {
    let data = payload(vec![Some(vec![call(10), call(20)]), None, Some(vec![call(5)])]);
    assert_eq!(data.tally(3), Ok(MethodTally { deposits: Some(35), none_count: 1 }));
}

#[test]
fn a_single_use_takes_exactly_one_list() {
    assert_eq!(
        payload(vec![Some(vec![call(4)])]).tally(1),
        Ok(MethodTally { deposits: Some(4), none_count: 0 })
    );
    assert_eq!(payload(vec![]).tally(1), Err(AdmissionError::InvalidConfig));
    assert_eq!(
        payload(vec![Some(vec![call(4)]), Some(vec![call(4)])]).tally(1),
        Err(AdmissionError::InvalidConfig)
    );
}

#[test]
fn a_single_use_may_go_without_invocation() {
    assert_eq!(payload(vec![None]).tally(1), Ok(MethodTally { deposits: Some(0), none_count: 1 }));
}

#[test]
fn a_shared_list_must_make_invocations() {
    assert_eq!(payload(vec![None]).tally(2), Err(AdmissionError::InvalidConfig));
}

#[test]
fn lists_that_do_not_match_the_uses_are_rejected() {
    let data = payload(vec![Some(vec![call(1)]), Some(vec![call(2)])]);
    assert_eq!(data.tally(3), Err(AdmissionError::InvalidConfig));
    assert_eq!(payload(vec![]).tally(3), Err(AdmissionError::InvalidConfig));
}

#[test]
fn every_use_may_go_without_invocation_when_each_is_listed() {
    assert_eq!(
        payload(vec![None, None]).tally(2),
        Ok(MethodTally { deposits: Some(0), none_count: 2 })
    );
}

#[test]
fn an_empty_list_of_invocations_attaches_nothing() {
    assert_eq!(
        payload(vec![Some(vec![])]).tally(5),
        Ok(MethodTally { deposits: Some(0), none_count: 0 })
    );
}

#[test]
fn no_uses_take_no_lists() {
    assert_eq!(payload(vec![]).tally(0), Ok(MethodTally { deposits: Some(0), none_count: 0 }));
    assert_eq!(
        payload(vec![Some(vec![call(9)])]).tally(0),
        Ok(MethodTally { deposits: Some(0), none_count: 0 })
    );
    assert_eq!(payload(vec![None]).tally(0), Err(AdmissionError::InvalidConfig));
}

#[test]
fn deposits_beyond_every_amount_are_reported_as_none() {
    let data = payload(vec![Some(vec![call(u128::MAX), call(1)])]);
    assert_eq!(data.tally(1), Ok(MethodTally { deposits: None, none_count: 0 }));
    let data = payload(vec![Some(vec![call(u128::MAX)])]);
    assert_eq!(data.tally(2), Ok(MethodTally { deposits: None, none_count: 0 }));
    let data = payload(vec![Some(vec![call(u128::MAX)]), Some(vec![call(1)])]);
    assert_eq!(data.tally(2), Ok(MethodTally { deposits: None, none_count: 0 }));
}

#[test]
fn the_payload_reports_its_own_compute_budget() {
    let mut data = payload(vec![None]);
    assert_eq!(data.attached_gas(), None);
    data.config = Some(keypom::FCConfig { attached_gas: None });
    assert_eq!(data.attached_gas(), None);
    data.config = Some(keypom::FCConfig { attached_gas: Some(42) });
    assert_eq!(data.attached_gas(), Some(42));
}
