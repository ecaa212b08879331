use bigiron::api::{get_unique_id, Store};
use sha2::Digest;

#[test]
fn test_get_unique_id() {
    let name = "test1234";
    let id = get_unique_id(name);
    assert_eq!(id, "937e8d5fbb48bd4949536cd65b8d35c4");

    let name = "test1324";
    let id = get_unique_id(name);
    assert_eq!(id, "9884aab1d7385f53a0e96bac13b6d7b5");
}

// the identifier is the truncated hex SHA-256, checked against the hash
// and hex crates directly
#[test]
fn test_get_unique_id_matches_reference_hash() {
    for name in ["", "a", "my-test-vm", "Ünïcode too"] {
        let mut h = sha2::Sha256::new();
        h.update(name.as_bytes());
        let mut expected = hex::encode(h.finalize());
        expected.truncate(32);
        assert_eq!(get_unique_id(name), expected);
    }
}

#[test]
fn test_store_paths() {
    let store = Store::new();
    assert_eq!(store.root(), "/var/lib/bigiron/libvirt");
    assert_eq!(
        store.path_for_machine("test1234"),
        "/var/lib/bigiron/libvirt/937e8d5fbb48bd4949536cd65b8d35c4"
    );
    assert_eq!(
        store.spec_file_for("test1234"),
        "/var/lib/bigiron/libvirt/937e8d5fbb48bd4949536cd65b8d35c4/spec.yaml"
    );
}
