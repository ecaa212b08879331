//! Declarative machine descriptions: the resource documents a caller
//! submits, and the size-string grammar their memory and storage fields
//! use. Reading and writing these documents from disk is the caller's
//! business; this module defines the data and the size arithmetic.

use vstd::prelude::*;

use crate::error::Error;
use crate::text::{all_dec_digits, digits_val, parse_dec_u64};

verus! {

/// A size such as "100M" or "12Gi": digits, one scale suffix, and an
/// optional binary marker.
pub type SizeString = String;

/// A top-level document: so far only machines are described.
#[derive(Debug, Clone)]
pub enum Resource {
    Machine(Machine),
}

/// One machine description: a name, an optional observed status, and the
/// specification to realize.
#[derive(Debug, Clone)]
pub struct Machine {
    pub name: String,
    pub status: Option<String>,
    pub spec: Spec,
}

/// What the machine should look like.
#[derive(Debug, Clone)]
pub struct Spec {
    pub cpu: u32,
    pub memory: SizeString,
    pub image: Image,
    pub storage: Option<Vec<StorageKind>>,
    pub network: Option<Vec<NetKind>>,
}

/// Where the boot image comes from, and an optional size to grow it to.
#[derive(Debug, Clone)]
pub struct Image {
    pub url: String,
    pub resize: Option<SizeString>,
}

/// Additional storage to attach.
#[derive(Debug, Clone)]
pub enum StorageKind {
    DiskFile(DiskFile),
}

/// A local disk file of a given size.
#[derive(Debug, Clone)]
pub struct DiskFile {
    pub local: String,
    pub size: SizeString,
}

/// Additional networks to attach.
#[derive(Debug, Clone)]
pub enum NetKind {
    Vlan(Vlan),
}

/// A VLAN attachment.
#[derive(Debug, Clone)]
pub struct Vlan {
    pub vlan: u32,
}

/// The byte multiplier a scale suffix stands for: T scales by the fourth
/// power, G by the cube, M by the square, K by one factor, of 1000 (or of
/// 1024 with the binary marker). Any other suffix is not part of the
/// grammar.
pub open spec fn size_multiplier(suf: char, binary: bool) -> Option<nat> {
    let co: nat = if binary {
        1024
    } else {
        1000
    };
    if suf == 'T' || suf == 't' {
        Some(co * co * co * co)
    } else if suf == 'G' || suf == 'g' {
        Some(co * co * co)
    } else if suf == 'M' || suf == 'm' {
        Some(co * co)
    } else if suf == 'K' || suf == 'k' {
        Some(co)
    } else {
        None
    }
}

/// The value of a size string: decimal digits, then a recognized scale
/// suffix, then an optional trailing 'i' selecting binary scaling. Any
/// other shape has no value.
pub open spec fn size_spec(s: Seq<char>) -> Option<nat> {
    if s.len() < 2 {
        None
    } else {
        let binary = s.last() == 'i';
        let sufpos: int = if binary {
            s.len() - 2
        } else {
            s.len() - 1
        };
        let num = s.take(sufpos);
        match size_multiplier(s[sufpos], binary) {
            Some(m) => if num.len() > 0 && all_dec_digits(num) {
                Some(digits_val(num) * m)
            } else {
                None
            },
            None => None,
        }
    }
}

/// Parse a size string into a byte count.
///
/// Returns `Ok(v)` exactly when the string matches the suffix grammar and
/// its value `v` fits in 64 bits; every other input is a size error.
pub fn to_size(s: &str) -> (r: Result<u64, Error>)
    ensures
        match r {
            Ok(v) => size_spec(s@) == Some(v as nat),
            Err(e) => e == Error::BadSize && (match size_spec(s@) {
                Some(v) => v > u64::MAX,
                None => true,
            }),
        },
{
    let n = s.unicode_len();
    if n < 2 {
        return Err(Error::BadSize);
    }
    let lastc = s.get_char(n - 1);
    let binary = lastc as u32 == 105;
    proof {
        assert('i' as u32 == 105);
    }
    let sufpos: usize = if binary {
        n - 2
    } else {
        n - 1
    };
    let sufc = s.get_char(sufpos) as u32;
    let co: u64 = if binary {
        1024
    } else {
        1000
    };
    let mult: u64 = if sufc == 84 || sufc == 116 {
        co * co * co * co
    } else if sufc == 71 || sufc == 103 {
        co * co * co
    } else if sufc == 77 || sufc == 109 {
        co * co
    } else if sufc == 75 || sufc == 107 {
        co
    } else {
        return Err(Error::BadSize);
    };
    assert(size_multiplier(s@[sufpos as int], binary) == Some(mult as nat));
    let num = s.substring_char(0, sufpos);
    assert(num@ =~= s@.take(sufpos as int));
    let scalar = match parse_dec_u64(num) {
        Some(v) => v,
        None => {
            proof {
                if digits_val(num@) > u64::MAX {
                    crate::text::lemma_mul_ge(digits_val(num@), mult as nat);
                }
            }
            return Err(Error::BadSize);
        },
    };
    match scalar.checked_mul(mult) {
        Some(v) => Ok(v),
        None => {
            proof {
                assert((scalar as nat) * (mult as nat) > u64::MAX);
            }
            Err(Error::BadSize)
        },
    }
}

} // verus!
