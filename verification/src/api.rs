//! The declarative machine store: machines are filed under a stable
//! identifier derived from their name, so the same name always lands in
//! the same place. This module computes identifiers and paths; reading
//! and writing the spec documents themselves is the caller's business.

use vstd::prelude::*;

use vstd::string::StringSliceAdditionalSpecFns;

use crate::text::{hex_pair, push_hex_pair};

verus! {

/// The SHA-256 digest of a byte sequence.
pub uninterp spec fn sha256_of(data: Seq<u8>) -> Seq<u8>;

/// Relies on sha2: computes the SHA-256 digest of the input, 32 bytes, a
/// function of the input bytes alone.
#[verifier::external_body]
fn sha256_bytes(data: &[u8]) -> (r: Vec<u8>)
    ensures
        r@ == sha256_of(data@),
        r@.len() == 32,
{
    let mut h: sha2::Sha256 = sha2::Digest::new();
    sha2::Digest::update(&mut h, data);
    sha2::Digest::finalize(h).to_vec()
}

/// The lower-case hex text of a byte sequence.
pub open spec fn hex_chars(bs: Seq<u8>) -> Seq<char>
    decreases bs.len(),
{
    if bs.len() == 0 {
        Seq::empty()
    } else {
        hex_chars(bs.drop_last()) + hex_pair(bs.last())
    }
}

/// A machine's stable identifier: the SHA-256 of its name, in hex,
/// truncated to 128 bits so it can stand beside UUIDs.
pub fn get_unique_id(name: &str) -> (r: String)
    ensures
        r@ == hex_chars(sha256_of(name.spec_bytes()).take(16)),
{
    let digest = sha256_bytes(name.as_bytes());
    let ghost prefix = sha256_of(name.spec_bytes()).take(16);
    let mut s = String::new();
    let mut i: usize = 0;
    while i < 16
        invariant
            0 <= i <= 16,
            digest@ == sha256_of(name.spec_bytes()),
            digest@.len() == 32,
            prefix == sha256_of(name.spec_bytes()).take(16),
            s@ == hex_chars(prefix.take(i as int)),
        decreases 16 - i,
    {
        push_hex_pair(&mut s, digest[i]);
        proof {
            assert(prefix.take(i + 1int).drop_last() =~= prefix.take(i as int));
            assert(prefix.take(i + 1int).last() == digest@[i as int]);
        }
        i = i + 1;
    }
    proof {
        assert(prefix.take(16int) =~= prefix);
    }
    s
}

/// The machine store: one directory per machine under a fixed root.
#[derive(Debug)]
pub struct Store {
    path: String,
}

impl View for Store {
    type V = Seq<char>;

    /// A store is identified by its root directory.
    closed spec fn view(&self) -> Seq<char> {
        self.path@
    }
}

impl Store {
    /// The store at its fixed root. The caller creates the directory.
    pub fn new() -> (r: Store)
        ensures
            r@ == "/var/lib/bigiron/libvirt"@,
    {
        Store { path: "/var/lib/bigiron/libvirt".to_owned() }
    }

    /// The store's root directory.
    pub fn root(&self) -> (r: &str)
        ensures
            r@ == self@,
    {
        self.path.as_str()
    }

    /// The directory a machine named `id` is filed under.
    pub fn path_for_machine(&self, id: &str) -> (r: String)
        ensures
            r@ == self@ + "/"@ + hex_chars(sha256_of(id.spec_bytes()).take(16)),
    {
        let mut s = self.path.clone();
        s.append("/");
        let uid = get_unique_id(id);
        s.append(uid.as_str());
        s
    }

    /// The spec document of the machine named `id`.
    pub fn spec_file_for(&self, id: &str) -> (r: String)
        ensures
            r@ == self@ + "/"@ + hex_chars(sha256_of(id.spec_bytes()).take(16)) + "/spec.yaml"@,
    {
        let mut s = self.path_for_machine(id);
        s.append("/spec.yaml");
        s
    }
}

} // verus!
