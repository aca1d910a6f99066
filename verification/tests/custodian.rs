use statechain::custodian::{Custodian, CustodianError};

fn id() -> String {
    String::from("sc-1")
}

fn custodian() -> Custodian {
    let mut c = Custodian::new();
    assert_eq!(c.register(id(), vec![1; 32]), Ok(()));
    assert_eq!(c.register(String::from("sc-2"), vec![2; 32]), Ok(()));
    c
}

#[test]
fn a_statechain_is_registered_once() {
    let mut c = custodian();
    assert_eq!(c.register(id(), vec![9; 32]), Err(CustodianError::AlreadyRegistered));
    assert_eq!(c.num_sigs(&id()), Some(0));
    assert_eq!(c.num_sigs(&String::from("sc-3")), None);
}

#[test]
fn only_the_owner_opens_a_session() {
    let mut c = custodian();
    assert_eq!(c.begin_session(&id(), &vec![2; 32]), Err(CustodianError::NotOwner));
    assert_eq!(
        c.begin_session(&String::from("sc-3"), &vec![1; 32]),
        Err(CustodianError::UnknownStatechain)
    );
    assert_eq!(c.begin_session(&id(), &vec![1; 32]), Ok(()));
}

#[test]
fn a_second_session_is_refused_while_the_first_runs() {
    let mut c = custodian();
    assert_eq!(c.begin_session(&id(), &vec![1; 32]), Ok(()));
    assert_eq!(c.begin_session(&id(), &vec![1; 32]), Err(CustodianError::SessionActive));
    assert_eq!(c.begin_session(&String::from("sc-2"), &vec![2; 32]), Ok(()));
    assert_eq!(c.end_session(&id(), false, None), Ok(()));
    assert_eq!(c.begin_session(&id(), &vec![1; 32]), Ok(()));
}

#[test]
fn signatures_are_counted_when_a_session_ends() {
    let mut c = custodian();
    assert_eq!(c.end_session(&id(), true, None), Err(CustodianError::NoSession));
    assert_eq!(
        c.end_session(&String::from("sc-3"), true, None),
        Err(CustodianError::UnknownStatechain)
    );
    c.begin_session(&id(), &vec![1; 32]).unwrap();
    assert_eq!(c.end_session(&id(), true, None), Ok(()));
    assert_eq!(c.num_sigs(&id()), Some(1));
    c.begin_session(&id(), &vec![1; 32]).unwrap();
    assert_eq!(c.end_session(&id(), false, None), Ok(()));
    assert_eq!(c.num_sigs(&id()), Some(1));
    assert_eq!(c.num_sigs(&String::from("sc-2")), Some(0));
}

#[test]
fn cosigning_passes_to_the_new_owner() {
    let mut c = custodian();
    c.begin_session(&id(), &vec![1; 32]).unwrap();
    assert_eq!(c.end_session(&id(), true, Some(vec![7; 32])), Ok(()));
    assert_eq!(c.begin_session(&id(), &vec![1; 32]), Err(CustodianError::NotOwner));
    assert_eq!(c.begin_session(&id(), &vec![7; 32]), Ok(()));
    assert_eq!(c.num_sigs(&id()), Some(1));
}
