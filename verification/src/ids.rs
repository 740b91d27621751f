//! Tagged 64-bit entity identifiers.
//!
//! On the wire an entity id carries its domain in the most significant
//! byte: 0 for unassigned, 1 for lobby, 2 for user. Internally only the
//! untagged low 56 bits are stored. Every id that crosses the boundary
//! goes through this type; nothing splices tag bytes by hand.
use vstd::prelude::*;

verus! {

/// Highest value the untagged 56-bit inner id can take, plus one.
pub const INNER_ID_LIMIT: u64 = 0x0100_0000_0000_0000;

/// Mask keeping the low 56 bits of a wire id.
pub const INNER_ID_MASK: u64 = 0x00FF_FFFF_FFFF_FFFF;

#[derive(Clone, Copy, Debug, PartialEq, Eq, Structural)]
pub enum IDType {
    Unassigned(u64),
    Lobby(u64),
    User(u64),
}

impl IDType {
    /// The untagged inner id.
    pub open spec fn spec_inner(self) -> u64 {
        match self {
            IDType::Unassigned(id) => id,
            IDType::Lobby(id) => id,
            IDType::User(id) => id,
        }
    }

    /// The wire form: inner id with the domain tag in the top byte.
    pub open spec fn spec_value(self) -> u64 {
        match self {
            IDType::Unassigned(id) => id,
            IDType::Lobby(id) => (1u64 << 56) | id,
            IDType::User(id) => (2u64 << 56) | id,
        }
    }

    /// A well-formed id keeps its tag out of the inner value.
    pub open spec fn wf(self) -> bool {
        self.spec_inner() < INNER_ID_LIMIT
    }

    /// The id denoted by a wire value: the top byte picks the domain,
    /// the low 56 bits are the inner id.
    pub open spec fn spec_parse(id: u64) -> IDType {
        if id >> 56 == 1 {
            IDType::Lobby(id & INNER_ID_MASK)
        } else if id >> 56 == 2 {
            IDType::User(id & INNER_ID_MASK)
        } else {
            IDType::Unassigned(id & INNER_ID_MASK)
        }
    }

    /// Parse a wire entity id into its domain and inner value.
    pub fn parse(id: u64) -> (r: Self)
        ensures
            r == Self::spec_parse(id),
            r.wf(),
    {
        let flag = id >> 56;
        let new_value = id << 8 >> 8;
        proof {
            assert(id << 8 >> 8 == id & INNER_ID_MASK) by (bit_vector);
            assert(id & INNER_ID_MASK < 0x0100_0000_0000_0000u64) by (bit_vector);
        }
        match flag {
            1 => Self::Lobby(new_value),
            2 => Self::User(new_value),
            _ => IDType::Unassigned(new_value),
        }
    }

    /// The wire value: inner id with the domain's magic tag byte.
    pub fn value(&self) -> (r: u64)
        ensures
            r == self.spec_value(),
    {
        match self {
            Self::Unassigned(id) => *id,
            Self::Lobby(id) => 1u64 << 56 | *id,
            Self::User(id) => 2u64 << 56 | *id,
        }
    }

    /// The untagged inner entity id.
    pub fn inner(&self) -> (r: u64)
        ensures
            r == self.spec_inner(),
    {
        match self {
            Self::Unassigned(id) | Self::Lobby(id) | Self::User(id) => *id,
        }
    }
}

/// Every well-formed user id carries the tag byte 2 on the wire: the
/// top byte of its wire value is exactly 2.
pub proof fn lemma_user_id_tagged(inner: u64)
    requires
        inner < INNER_ID_LIMIT,
    ensures
        IDType::User(inner).spec_value() >> 56 == 2,
{
    assert(inner < 0x0100_0000_0000_0000 ==> ((2u64 << 56) | inner) >> 56 == 2) by (bit_vector);
}

/// Tagging is lossless: parsing the wire value of a well-formed id
/// gives the id back, and the wire value never loses the inner bits.
pub proof fn lemma_id_round_trip(t: IDType)
    requires
        t.wf(),
    ensures
        IDType::spec_parse(t.spec_value()) == t,
{
    let inner = t.spec_inner();
    assert(inner < 0x0100_0000_0000_0000 ==> ((1u64 << 56) | inner) >> 56 == 1) by (bit_vector);
    assert(inner < 0x0100_0000_0000_0000 ==> ((2u64 << 56) | inner) >> 56 == 2) by (bit_vector);
    assert(inner < 0x0100_0000_0000_0000 ==> inner >> 56 == 0) by (bit_vector);
    assert(inner < 0x0100_0000_0000_0000 ==> ((1u64 << 56) | inner) & 0x00FF_FFFF_FFFF_FFFFu64 == inner) by (bit_vector);
    assert(inner < 0x0100_0000_0000_0000 ==> ((2u64 << 56) | inner) & 0x00FF_FFFF_FFFF_FFFFu64 == inner) by (bit_vector);
    assert(inner < 0x0100_0000_0000_0000 ==> inner & 0x00FF_FFFF_FFFF_FFFFu64 == inner)
        by (bit_vector);
}

} // verus!
