use base_station::router::{address_of_header, header_for, Router};

#[test]
fn canonical_header_scheme() {
    // Address in the high six bits, reserved bits zero.
    assert_eq!(header_for(0), 0b0000_0000);
    assert_eq!(header_for(1), 0b0000_0100);
    assert_eq!(header_for(5), 0b0001_0100);
    assert_eq!(header_for(63), 0b1111_1100);
    assert_eq!(address_of_header(0b0000_0100), 1);
    // Reserved bits do not disturb the address.
    assert_eq!(address_of_header(0b0000_0111), 1);
}

#[test]
fn every_address_extracts_from_its_header() {
    // With every address provisioned, each canonical header resolves to it.
    let mut all: Vec<u8> = Vec::new();
    for a in 0..64u8 {
        all.push(a);
    }
    let router = Router::new(&all);
    for a in 0..64u8 {
        assert_eq!(router.resolve(header_for(a)), Some(a));
    }
}

#[test]
fn provisioned_addresses_resolve() {
    let router = Router::new(&vec![0, 1, 2, 3, 4, 5]);
    for a in 0..6u8 {
        assert_eq!(router.resolve(header_for(a)), Some(a));
    }
}

#[test]
fn unknown_address_resolves_to_none() {
    let router = Router::new(&vec![0, 1, 2, 3, 4, 5]);
    for a in 6..64u8 {
        assert_eq!(router.resolve(header_for(a)), None);
    }
    // Reserved bits set, address still unknown.
    assert_eq!(router.resolve(0b1111_1111), None);
}

#[test]
fn empty_table_resolves_nothing() {
    let router = Router::new(&Vec::new());
    for a in 0..64u8 {
        assert_eq!(router.resolve(header_for(a)), None);
    }
}
