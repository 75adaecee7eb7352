use bech32::{ToBase32, Variant};
use runtime_sdk::types::address::{Address, Error, ADDRESS_BECH32_HRP, ADDRESS_SIZE};

#[test]
fn test_address_try_from_bytes() {
    let bytes_fixture = vec![42u8; ADDRESS_SIZE + 1];
    assert_eq!(
        Address::try_from(&bytes_fixture[0..ADDRESS_SIZE]).unwrap(),
        Address::from_bytes(&bytes_fixture[0..ADDRESS_SIZE]).unwrap()
    );
    assert!(matches!(
        Address::try_from(bytes_fixture.as_slice()).unwrap_err(),
        Error::MalformedAddress
    ));
}

#[test]
fn test_address_from_bech32_invalid_hrp() {
    assert!(matches!(
        Address::from_bech32("sisoa1qpcprk8jxpsjxw9fadxvzrv9ln7td69yus8rmtux").unwrap_err(),
        Error::MalformedAddress,
    ));
}

#[test]
fn test_address_from_bech32_invalid_variant() {
    let b = vec![42u8; ADDRESS_SIZE];
    let bech32_addr = bech32::encode(ADDRESS_BECH32_HRP, b.to_base32(), Variant::Bech32).unwrap();
    let bech32m_addr = bech32::encode(ADDRESS_BECH32_HRP, b.to_base32(), Variant::Bech32m).unwrap();

    assert!(Address::from_bech32(&bech32_addr).is_ok(), "bech32 address should be ok");
    assert!(matches!(Address::from_bech32(&bech32m_addr).unwrap_err(), Error::MalformedAddress,));
}

#[test]
fn bech32_round_trip() {
    let a = Address::from_bytes(&[7u8; ADDRESS_SIZE]).unwrap();
    let s = a.to_bech32();
    assert!(s.starts_with("hela0"));
    assert_eq!(Address::from_bech32(&s).unwrap(), a);
}

#[test]
fn bech32_of_wrong_length_is_refused() {
    let b = vec![1u8; ADDRESS_SIZE - 1];
    let s = bech32::encode(ADDRESS_BECH32_HRP, b.to_base32(), Variant::Bech32).unwrap();
    assert!(matches!(Address::from_bech32(&s), Err(Error::MalformedAddress)));
}

#[test]
fn from_bytes_keeps_the_bytes() {
    let mut bytes = [0u8; ADDRESS_SIZE];
    bytes[0] = 1;
    bytes[20] = 0xff;
    let a = Address::from_bytes(&bytes).unwrap();
    assert_eq!(a.as_bytes(), &bytes[..]);
    assert!(Address::from_bytes(&[]).is_err());
    assert!(a.equals(&Address::try_from(&bytes[..]).unwrap()));
    assert!(!a.equals(&Address::default()));
}
