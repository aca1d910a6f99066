use statechain::enclave::{
    get_enclave_index_from_statechain_id, get_random_enclave_index, Enclave,
};

fn enclaves(flags: &[bool]) -> Vec<Enclave> {
    flags
        .iter()
        .enumerate()
        .map(|(i, allow)| Enclave { url: format!("http://enclave-{}", i), allow_deposit: *allow })
        .collect()
}

#[test]
fn index_is_the_leading_half_of_the_digest_modulo_the_count() {
    // SHA-256("abc") starts with ba7816bf8f01cfea414140de5dae2223.
    assert_eq!(get_enclave_index_from_statechain_id("abc", 1), 0);
    assert_eq!(get_enclave_index_from_statechain_id("abc", 2), 1);
    assert_eq!(get_enclave_index_from_statechain_id("abc", 3), 2);
    assert_eq!(get_enclave_index_from_statechain_id("abc", 5), 1);
    assert_eq!(get_enclave_index_from_statechain_id("abc", 7), 4);
    assert_eq!(get_enclave_index_from_statechain_id("abc", 10), 1);
    assert_eq!(get_enclave_index_from_statechain_id("abc", u32::MAX), 3899214251);
}

#[test]
fn index_of_other_identifiers() {
    assert_eq!(get_enclave_index_from_statechain_id("", 10), 6);
    assert_eq!(get_enclave_index_from_statechain_id("", u32::MAX), 2971176516);
    assert_eq!(
        get_enclave_index_from_statechain_id("b2f1c4d09a3e4f0c8a7d6e5f4c3b2a19", 7),
        2
    );
    assert_eq!(get_enclave_index_from_statechain_id("statechain-7", 5), 3);
    assert_eq!(get_enclave_index_from_statechain_id("statechain-7", 7), 0);
}

#[test]
fn same_identifier_and_count_give_the_same_index() {
    for n in 1..40u32 {
        let first = get_enclave_index_from_statechain_id("b2f1c4d09a3e4f0c8a7d6e5f4c3b2a19", n);
        let second = get_enclave_index_from_statechain_id("b2f1c4d09a3e4f0c8a7d6e5f4c3b2a19", n);
        assert_eq!(first, second);
        assert!(first < n as usize);
    }
}

#[test]
fn identifiers_spread_over_the_enclaves() {
    let n = 4u32;
    let mut counts = vec![0usize; n as usize];
    for i in 0..4000 {
        let id = format!("statechain-{}", i);
        counts[get_enclave_index_from_statechain_id(&id, n)] += 1;
    }
    for count in counts {
        assert!(count > 800 && count < 1200, "count {}", count);
    }
}

#[test]
fn the_enclave_of_the_index_is_taken_where_it_accepts() {
    let all = enclaves(&[true, true, true, true, true]);
    assert_eq!(get_random_enclave_index("abc", &all), Ok(1));
    assert_eq!(get_random_enclave_index("statechain-7", &all), Ok(3));
    let some = enclaves(&[false, true, false, false, false]);
    assert_eq!(get_random_enclave_index("abc", &some), Ok(1));
}

#[test]
fn the_first_accepting_enclave_is_taken_otherwise() {
    let retired = enclaves(&[false, false, false, true, true]);
    assert_eq!(get_random_enclave_index("abc", &retired), Ok(3));
    let first = enclaves(&[true, false, true, true, true]);
    assert_eq!(get_random_enclave_index("abc", &first), Ok(0));
}

#[test]
fn no_enclave_is_assigned_where_none_accepts() {
    let none = enclaves(&[false, false, false]);
    let text = String::from("No valid enclave found with allow_deposit set to true");
    assert_eq!(get_random_enclave_index("abc", &none), Err(text.clone()));
    assert_eq!(get_random_enclave_index("abc", &Vec::new()), Err(text));
}
