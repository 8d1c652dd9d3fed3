use voating::address::{candidate_address, poll_address};

#[test]
fn poll_address_is_the_little_endian_id() {
    let a = poll_address(0x0102030405060708);
    assert_eq!(a.seeds.len(), 1);
    assert_eq!(a.seeds[0], vec![8, 7, 6, 5, 4, 3, 2, 1]);
}

#[test]
fn candidate_address_is_id_then_name_bytes() {
    let a = candidate_address(1, "Cat");
    assert_eq!(a.seeds.len(), 2);
    assert_eq!(a.seeds[0], vec![1, 0, 0, 0, 0, 0, 0, 0]);
    assert_eq!(a.seeds[1], "Cat".as_bytes().to_vec());
}

#[test]
fn derivation_is_deterministic() {
    assert_eq!(poll_address(77).seeds, poll_address(77).seeds);
    assert_eq!(
        candidate_address(77, "Alice").seeds,
        candidate_address(77, "Alice").seeds
    );
}

#[test]
fn distinct_keys_get_distinct_addresses() {
    assert_ne!(poll_address(1).seeds, poll_address(2).seeds);
    assert_ne!(
        candidate_address(1, "Alice").seeds,
        candidate_address(1, "Bob").seeds
    );
    assert_ne!(
        candidate_address(1, "Alice").seeds,
        candidate_address(2, "Alice").seeds
    );
    assert_ne!(poll_address(1).seeds, candidate_address(1, "").seeds);
}
