use ccp::types::LocalNonce;

fn counter_of(nonce: &LocalNonce) -> u64 {
    u64::from_le_bytes(nonce.as_bytes()[0..std::mem::size_of::<u64>()].try_into().unwrap())
}

#[test]
fn next_works() {
    let mut nonce = LocalNonce::random();
    let nonce_first_as_u64 = counter_of(&nonce);

    nonce.next();
    let nonce_second_as_u64 = counter_of(&nonce);

    assert_eq!(nonce_first_as_u64 + 1, nonce_second_as_u64);
}

#[test]
fn prev_works() {
    let mut nonce = LocalNonce::random();
    let nonce_first_as_u64 = counter_of(&nonce);

    nonce.prev();
    let nonce_second_as_u64 = counter_of(&nonce);

    assert_eq!(nonce_first_as_u64 - 1, nonce_second_as_u64);
}

#[test]
fn next_prev_idempotent() {
    let mut nonce = LocalNonce::random();
    let nonce_first = nonce.as_bytes().to_owned();

    nonce.prev();
    assert_ne!(&nonce_first, nonce.as_bytes());
    nonce.next();

    let nonce_second = nonce.as_bytes();
    assert_eq!(&nonce_first, nonce_second);
}

#[test]
fn prev_next_idempotent() {
    let mut nonce = LocalNonce::random();
    let nonce_first = nonce.as_bytes().to_owned();

    nonce.next();
    assert_ne!(&nonce_first, nonce.as_bytes());
    nonce.prev();

    let nonce_second = nonce.as_bytes();
    assert_eq!(&nonce_first, nonce_second);
}

#[test]
fn next_wraps_around_and_keeps_other_bytes() {
    let mut bytes = [7u8; 32];
    bytes[0..8].copy_from_slice(&u64::MAX.to_le_bytes());
    let mut nonce = LocalNonce::new(bytes);
    nonce.next();
    assert_eq!(nonce.counter(), 0);
    assert_eq!(&nonce.as_bytes()[8..], &[7u8; 24][..]);
    nonce.prev();
    assert_eq!(nonce.counter(), u64::MAX);
    assert_eq!(nonce.as_bytes(), &bytes);
}

#[test]
fn counter_reads_little_endian() {
    let mut bytes = [0u8; 32];
    bytes[0] = 0x01;
    bytes[1] = 0x02;
    bytes[31] = 0xff;
    let mut nonce = LocalNonce::new(bytes);
    assert_eq!(nonce.counter(), 0x0201);
    nonce.next();
    assert_eq!(nonce.as_bytes()[0], 0x02);
    assert_eq!(nonce.as_bytes()[1], 0x02);
    assert_eq!(nonce.as_bytes()[31], 0xff);
}

#[test]
fn random_nonces_differ() {
    let a = LocalNonce::random();
    let b = LocalNonce::random();
    assert_ne!(a.as_bytes(), b.as_bytes());
}
