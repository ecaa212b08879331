use bigiron::error::Error;
use bigiron::network::{generate_mac, ipv4_string, Cidr, NetInfo, NetState};

#[test]
fn test_generate_mac() {
    let mac = generate_mac();
    println!("{}", mac);
    assert!(mac.starts_with("00:16:3e"));
}

#[test]
fn test_generate_mac_shape() {
    for _ in 0..64 {
        let mac = generate_mac();
        assert_eq!(mac.len(), 17);
        let parts: Vec<&str> = mac.split(':').collect();
        assert_eq!(parts.len(), 6);
        let fourth = u8::from_str_radix(parts[3], 16).unwrap();
        assert!(fourth < 0x7f);
        u8::from_str_radix(parts[4], 16).unwrap();
        u8::from_str_radix(parts[5], 16).unwrap();
    }
}

#[test]
fn test_ipv4_string() {
    assert_eq!(ipv4_string(0xAC140005), "172.20.0.5");
    assert_eq!(ipv4_string(0), "0.0.0.0");
    assert_eq!(ipv4_string(u32::MAX), "255.255.255.255");
    assert_eq!(ipv4_string(0x0A000001), "10.0.0.1");
}

#[test]
fn test_new_state_cidr() {
    let st = NetState::new();
    assert!(st.cidr_ok());
    assert_eq!(st.cidr(), Cidr { addr: 0xAC140000, prefix: 24 });
    assert_eq!(st.reservations().len(), 0);
}

#[test]
fn test_bad_cidr_detected() {
    // base address not aligned on the /24 block
    let st = NetState::from_parts(Cidr { addr: 0xAC140001, prefix: 24 }, Vec::new());
    assert!(!st.cidr_ok());
    let st = NetState::from_parts(Cidr { addr: 0xAC140000, prefix: 31 }, Vec::new());
    assert!(!st.cidr_ok());
}

// distinct hostnames receive distinct addresses and MACs, inside the
// allocatable range
#[test]
fn test_reservations_distinct() {
    let mut st = NetState::new();
    let r1 = st.new_reservation("host-a").unwrap();
    let r2 = st.new_reservation("host-b").unwrap();
    assert_ne!(r1.ip(), r2.ip());
    assert_ne!(r1.mac(), r2.mac());
    // skip network, gateway and first usable: allocation starts at .2
    assert_eq!(r1.ip(), 0xAC140002);
    assert_eq!(r2.ip(), 0xAC140003);
    for r in [&r1, &r2] {
        assert!(r.ip() >= 0xAC140002);
        assert!(r.ip() <= 0xAC1400FD);
    }
}

// repeating a reservation returns the same record and does not grow the
// table
#[test]
fn test_reservation_idempotent() {
    let mut st = NetState::new();
    let r1 = st.new_reservation("host-a").unwrap();
    let len1 = st.reservations().len();
    let r2 = st.new_reservation("host-a").unwrap();
    assert_eq!(r1.ip(), r2.ip());
    assert_eq!(r1.mac(), r2.mac());
    assert_eq!(st.reservations().len(), len1);
}

// a lease keeps the record alive through de-reservation; ending the
// lease then purges it
#[test]
fn test_lease_outlives_reservation() {
    let mut st = NetState::new();
    let r = st.new_reservation("host-a").unwrap();
    st.add_lease(r.mac(), r.ip(), Some("host-a".to_string())).unwrap();
    st.remove_reservation("host-a").unwrap();
    let kept: Vec<&NetInfo> =
        st.reservations().iter().filter(|x| x.ip() == r.ip()).collect();
    assert_eq!(kept.len(), 1);
    assert!(kept[0].leased());
    assert!(!kept[0].allocated());
    st.del_lease(r.mac(), r.ip(), Some("host-a".to_string())).unwrap();
    assert!(st.reservations().iter().all(|x| x.ip() != r.ip()));
}

// a record that is allocated but not leased disappears on de-reservation
#[test]
fn test_remove_without_lease_purges() {
    let mut st = NetState::new();
    let r = st.new_reservation("host-a").unwrap();
    st.remove_reservation("host-a").unwrap();
    assert!(st.reservations().iter().all(|x| x.ip() != r.ip()));
    // removing again is quietly accepted
    st.remove_reservation("host-a").unwrap();
}

// a lease for an unknown address synthesizes a record so the address is
// not handed out later
#[test]
fn test_foreign_lease_blocks_address() {
    let mut st = NetState::new();
    st.add_lease("52:54:00:00:00:01", 0xAC140002, None).unwrap();
    let r = st.new_reservation("host-a").unwrap();
    assert_eq!(r.ip(), 0xAC140003);
    let synth: Vec<&NetInfo> =
        st.reservations().iter().filter(|x| x.ip() == 0xAC140002).collect();
    assert_eq!(synth.len(), 1);
    assert!(synth[0].leased());
    assert!(!synth[0].allocated());
    assert_eq!(synth[0].hostname(), "");
}

#[test]
fn test_capacity_exhaustion() {
    let mut st = NetState::new();
    // a /24 leaves 252 allocatable addresses: .2 through .253
    for i in 0..252 {
        let r = st.new_reservation(&format!("host-{}", i)).unwrap();
        assert_eq!(r.ip(), 0xAC140002 + i as u32);
    }
    assert!(matches!(st.new_reservation("one-too-many"), Err(Error::Capacity)));
}
