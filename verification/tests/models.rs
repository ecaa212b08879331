use bigiron::error::Error;
use bigiron::models::to_size;

#[test]
fn test_sizestring_to_size() {
    assert_eq!(to_size("100M").unwrap(), 100_000_000);
    assert_eq!(to_size("10m").unwrap(), 10_000_000);
    assert_eq!(to_size("20G").unwrap(), 20_000_000_000);
    assert_eq!(to_size("12g").unwrap(), 12_000_000_000);
    assert_eq!(to_size("12Gi").unwrap(), 12 * 1024 * 1024 * 1024);

    assert!(to_size("12Timmies").is_err());
}

#[test]
fn test_to_size_binary_and_kilo() {
    assert_eq!(to_size("100K").unwrap(), 100_000);
    assert_eq!(to_size("2Ki").unwrap(), 2048);
    assert_eq!(to_size("1Mi").unwrap(), 1024 * 1024);
    assert_eq!(to_size("3T").unwrap(), 3_000_000_000_000);
    assert_eq!(to_size("1Ti").unwrap(), 1024u64 * 1024 * 1024 * 1024);
}

#[test]
fn test_to_size_rejects_bad_shapes() {
    assert_eq!(to_size(""), Err(Error::BadSize));
    assert_eq!(to_size("5"), Err(Error::BadSize));
    assert_eq!(to_size("1234"), Err(Error::BadSize));
    assert_eq!(to_size("G"), Err(Error::BadSize));
    assert_eq!(to_size("12i"), Err(Error::BadSize));
    assert_eq!(to_size("12Q"), Err(Error::BadSize));
    assert_eq!(to_size("1.5G"), Err(Error::BadSize));
}

#[test]
fn test_to_size_overflow_is_an_error() {
    // 18446744073709551615 bytes is u64::MAX; scaling any digits string
    // past that must fail rather than wrap
    assert_eq!(to_size("18446744073709551615G"), Err(Error::BadSize));
    assert_eq!(to_size("99999999999999999999K"), Err(Error::BadSize));
}
