//! The permissions of a directory entry.
use crate::proto::item::Item;
use crate::proto::reader;
use crate::proto::reader::{Fault, MapReader, ProtoError};
use vstd::prelude::*;

verus! {

/// All four permission bits.
pub const MAX_VALID: u8 = 15;

/// A set of the four permissions: browse (1), download (2), upload (4) and delete (8).
#[derive(Debug, Clone, Copy, PartialEq, Eq, Structural)]
pub struct VfsPerms {
    bits: u8,
}

impl View for VfsPerms {
    type V = u8;

    /// The bits that are set.
    closed spec fn view(&self) -> u8 {
        self.bits
    }
}

impl VfsPerms {
    /// No bit but the four is ever set.
    #[verifier::type_invariant]
    spec fn well_formed(self) -> bool {
        self.bits <= MAX_VALID
    }

    /// The empty set.
    pub fn none() -> (perms: VfsPerms)
        ensures
            perms@ == 0,
    {
        VfsPerms { bits: 0 }
    }

    /// The permission to see an entry.
    pub fn browse() -> (perms: VfsPerms)
        ensures
            perms@ == 1,
    {
        VfsPerms { bits: 1 }
    }

    /// The permission to read a file.
    pub fn download() -> (perms: VfsPerms)
        ensures
            perms@ == 2,
    {
        VfsPerms { bits: 2 }
    }

    /// The permission to write.
    pub fn upload() -> (perms: VfsPerms)
        ensures
            perms@ == 4,
    {
        VfsPerms { bits: 4 }
    }

    /// The permission to remove or overwrite.
    pub fn delete() -> (perms: VfsPerms)
        ensures
            perms@ == 8,
    {
        VfsPerms { bits: 8 }
    }

    /// The set with the given bits, unless one of them stands for no permission.
    pub fn from_bits_truncate_checked(bits: u8) -> (perms: Option<Self>)
        ensures
            match perms {
                Some(p) => bits <= MAX_VALID && p@ == bits,
                None => bits > MAX_VALID,
            },
    {
        if bits <= MAX_VALID {
            Some(VfsPerms { bits })
        } else {
            None
        }
    }

    pub fn bits(self) -> (bits: u8)
        ensures
            bits == self@,
            bits <= MAX_VALID,
    {
        proof {
            use_type_invariant(&self);
        }
        self.bits
    }

    /// The permissions of either set.
    pub fn union(self, other: VfsPerms) -> (both: VfsPerms)
        ensures
            both@ == self@ | other@,
    {
        proof {
            use_type_invariant(&self);
            use_type_invariant(&other);
            let (a, b) = (self.bits, other.bits);
            assert(a <= 15 && b <= 15 ==> a | b <= 15) by (bit_vector);
        }
        VfsPerms { bits: self.bits | other.bits }
    }

    /// Whether every permission of `other` is in this set.
    pub fn contains(self, other: VfsPerms) -> (all: bool)
        ensures
            all == (self@ & other@ == other@),
    {
        self.bits & other.bits == other.bits
    }
}

impl Default for VfsPerms {
    fn default() -> (perms: Self)
        ensures
            perms@ == 0,
    {
        VfsPerms { bits: 0 }
    }
}

/// The permissions in the `name` field.
pub open spec fn perms_field(entries: Seq<(Item, Item)>, name: Seq<char>) -> Result<u8, Fault> {
    match reader::u8_field(entries, name) {
        Err(f) => Err(f),
        Ok(bits) => if bits <= MAX_VALID {
            Ok(bits)
        } else {
            Err(Fault::IntOutOfRange(name))
        },
    }
}

/// Reads the permissions in the `key` field.
pub fn perms_from_reader(m: &MapReader<'_>, key: &'static str) -> (r: Result<VfsPerms, ProtoError>)
    ensures
        reader::seen(r) == perms_field(m@, key@),
{
    let bits: u8 = m.u8(key)?;
    match VfsPerms::from_bits_truncate_checked(bits) {
        Some(perms) => Ok(perms),
        None => Err(ProtoError::IntOutOfRange(key)),
    }
}

/// A union holds both sets, and nothing that is in neither: any set that holds both holds it.
pub proof fn law_union_is_least(a: u8, b: u8, c: u8)
    ensures
        (a | b) & a == a,
        (a | b) & b == b,
        c & a == a && c & b == b ==> c & (a | b) == a | b,
        a | b == b | a,
        a | 0 == a,
{
    assert((a | b) & a == a) by (bit_vector);
    assert((a | b) & b == b) by (bit_vector);
    assert(c & a == a && c & b == b ==> c & (a | b) == a | b) by (bit_vector);
    assert(a | b == b | a) by (bit_vector);
    assert(a | 0 == a) by (bit_vector);
}

} // verus!
