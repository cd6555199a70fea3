//! The encode sets: for each region of URI syntax, the bytes that must be
//! written as `%HH` there.
//!
//! A set is modelled as a `Set<u8>`. Every byte outside the selected set is
//! copied to the output as it is.

use vstd::prelude::*;
use vstd::string::*;

verus! {

/// The C0 controls, DEL, and every byte from 0x80 up: the bytes that have no
/// printable ASCII form. Space is not a member.
pub open spec fn simple_set() -> Set<u8> {
    Set::new(|b: u8| b < 0x20 || b > 0x7E)
}

/// Members in a query string: the simple set, space, and `" # < >`.
pub open spec fn query_set() -> Set<u8> {
    simple_set().union(set![0x20, 0x22, 0x23, 0x3C, 0x3E])
}

/// Members in a query string that is put into plus form afterwards: the
/// simple set and `" # < > +`. Space stays out, so that the later
/// substitution of `+` for space is unambiguous.
pub open spec fn plus_query_set() -> Set<u8> {
    simple_set().union(set![0x22, 0x23, 0x3C, 0x3E, 0x2B])
}

/// Members in a path: the query set and `` ? ` { } ``.
pub open spec fn default_set() -> Set<u8> {
    query_set().union(set![0x3F, 0x60, 0x7B, 0x7D])
}

/// Members in user name and password: the path set and
/// `/ : ; = @ [ \ ] ^ |`.
pub open spec fn userinfo_set() -> Set<u8> {
    default_set().union(set![0x2F, 0x3A, 0x3B, 0x3D, 0x40, 0x5B, 0x5C, 0x5D, 0x5E, 0x7C])
}

/// Members in a single path segment: the path set and
/// `% / : ; = @ [ \ ] ^ |`.
pub open spec fn path_segment_set() -> Set<u8> {
    default_set().union(
        set![0x25, 0x2F, 0x3A, 0x3B, 0x3D, 0x40, 0x5B, 0x5C, 0x5D, 0x5E, 0x7C],
    )
}

/// Every character reserved anywhere in a URI except space, besides the
/// simple set: `` : / ? # [ ] @ ! $ & ' ` ( ) * + , ; = % ``.
pub open spec fn all_reserved_plus_set() -> Set<u8> {
    simple_set().union(
        set![
            0x3A, 0x2F, 0x3F, 0x23, 0x5B, 0x5D, 0x40, 0x21, 0x24, 0x26, 0x27, 0x60, 0x28,
            0x29, 0x2A, 0x2B, 0x2C, 0x3B, 0x3D, 0x25,
        ],
    )
}

/// Every character reserved anywhere in a URI, space included.
pub open spec fn all_reserved_set() -> Set<u8> {
    all_reserved_plus_set().insert(0x20)
}

/// All 256 bytes.
pub open spec fn all_set() -> Set<u8> {
    Set::new(|b: u8| true)
}

/// All bytes but space.
pub open spec fn all_except_space_set() -> Set<u8> {
    Set::new(|b: u8| b != 0x20)
}

/// The named sets grow from the simple set to the set for a path segment,
/// and every one of them holds what the simple set holds.
pub proof fn lemma_named_sets_nest()
    ensures
        simple_set().subset_of(query_set()),
        query_set().subset_of(default_set()),
        default_set().subset_of(userinfo_set()),
        userinfo_set().subset_of(path_segment_set()),
        simple_set().subset_of(plus_query_set()),
        simple_set().subset_of(all_reserved_plus_set()),
        all_reserved_plus_set().subset_of(all_reserved_set()),
        all_reserved_set().subset_of(all_set()),
        simple_set().subset_of(all_except_space_set()),
{
}

/// The set behind each plus form is the set of the plain form without
/// space; for a query, `+` joins it.
pub proof fn lemma_plus_sets()
    ensures
        plus_query_set() == query_set().remove(0x20).insert(0x2B),
        all_reserved_plus_set() == all_reserved_set().remove(0x20),
        all_except_space_set() == all_set().remove(0x20),
        !plus_query_set().contains(0x20),
        plus_query_set().contains(0x2B),
        all_reserved_plus_set().contains(0x2B),
        all_except_space_set().contains(0x2B),
{
    assert(plus_query_set() =~= query_set().remove(0x20).insert(0x2B));
    assert(all_reserved_plus_set() =~= all_reserved_set().remove(0x20));
    assert(all_except_space_set() =~= all_set().remove(0x20));
}

/// `%` is a member of the sets for a path segment, for the reserved
/// characters and for all characters, and of no other named set.
pub proof fn lemma_sets_with_percent()
    ensures
        path_segment_set().contains(0x25),
        all_reserved_set().contains(0x25),
        all_reserved_plus_set().contains(0x25),
        all_set().contains(0x25),
        all_except_space_set().contains(0x25),
        !simple_set().contains(0x25),
        !query_set().contains(0x25),
        !plus_query_set().contains(0x25),
        !default_set().contains(0x25),
        !userinfo_set().contains(0x25),
{
}

/// `percent_encoding::SIMPLE_ENCODE_SET.contains`: true exactly of the bytes
/// below 0x20 and above 0x7E.
#[verifier::external_body]
fn simple_contains(byte: u8) -> (found: bool)
    ensures
        found == simple_set().contains(byte),
{
    percent_encoding::EncodeSet::contains(&percent_encoding::SIMPLE_ENCODE_SET, byte)
}

/// `percent_encoding::QUERY_ENCODE_SET.contains`: true of space, `" # < >`,
/// and of what the simple set holds.
#[verifier::external_body]
fn query_contains(byte: u8) -> (found: bool)
    ensures
        found == query_set().contains(byte),
{
    percent_encoding::EncodeSet::contains(&percent_encoding::QUERY_ENCODE_SET, byte)
}

/// `percent_encoding::DEFAULT_ENCODE_SET.contains`: true of `` ` ? { } `` and
/// of what the query set holds.
#[verifier::external_body]
fn default_contains(byte: u8) -> (found: bool)
    ensures
        found == default_set().contains(byte),
{
    percent_encoding::EncodeSet::contains(&percent_encoding::DEFAULT_ENCODE_SET, byte)
}

/// `percent_encoding::USERINFO_ENCODE_SET.contains`: true of
/// `/ : ; = @ [ \ ] ^ |` and of what the path set holds.
#[verifier::external_body]
fn userinfo_contains(byte: u8) -> (found: bool)
    ensures
        found == userinfo_set().contains(byte),
{
    percent_encoding::EncodeSet::contains(&percent_encoding::USERINFO_ENCODE_SET, byte)
}

/// A set made of the bytes of a string given by the caller.
pub struct CustomEncodeSet {
    chars: Vec<u8>,
}

impl Clone for CustomEncodeSet {
    fn clone(&self) -> (copy: CustomEncodeSet)
        ensures
            copy.bytes() == self.bytes(),
    {
        CustomEncodeSet { chars: self.chars.clone() }
    }
}

impl CustomEncodeSet {
    /// The bytes the set was made from, in their order.
    pub closed spec fn bytes(&self) -> Seq<u8> {
        self.chars@
    }

    /// The bytes that are written as `%HH` under this set: those it was
    /// made from.
    pub open spec fn members(&self) -> Set<u8> {
        Set::new(|b: u8| self.bytes().contains(b))
    }

    /// The set of the bytes of `string` in UTF-8.
    pub fn from(string: &str) -> (set: CustomEncodeSet)
        ensures
            set.bytes() == string.spec_bytes(),
    {
        CustomEncodeSet { chars: string.as_bytes_vec() }
    }

    /// Whether `byte` is a member.
    pub fn contains(&self, byte: u8) -> (found: bool)
        ensures
            found == self.members().contains(byte),
    {
        let mut i: usize = 0;
        while i < self.chars.len()
            invariant
                i <= self.chars.len(),
                forall|j: int| 0 <= j < i ==> self.chars@[j] != byte,
            decreases self.chars.len() - i,
        {
            if self.chars[i] == byte {
                return true;
            }
            i += 1;
        }
        false
    }
}

impl percent_encoding::EncodeSet for CustomEncodeSet {
    fn contains(&self, byte: u8) -> (found: bool)
        ensures
            found == self.members().contains(byte),
    {
        CustomEncodeSet::contains(self, byte)
    }
}

/// The set of all bytes.
#[derive(Clone, Copy)]
pub struct AllCharactersEncodeSet {}

impl AllCharactersEncodeSet {
    pub fn new() -> (set: AllCharactersEncodeSet) {
        AllCharactersEncodeSet {  }
    }

    pub open spec fn members(&self) -> Set<u8> {
        all_set()
    }

    /// Whether `byte` is a member: it is.
    pub fn contains(&self, byte: u8) -> (found: bool)
        ensures
            found == self.members().contains(byte),
    {
        true
    }
}

impl percent_encoding::EncodeSet for AllCharactersEncodeSet {
    fn contains(&self, byte: u8) -> (found: bool)
        ensures
            found == self.members().contains(byte),
    {
        AllCharactersEncodeSet::contains(self, byte)
    }
}

/// The set of all bytes but space.
#[derive(Clone, Copy)]
pub struct AllCharactersExceptSpaceEncodeSet {}

impl AllCharactersExceptSpaceEncodeSet {
    pub fn new() -> (set: AllCharactersExceptSpaceEncodeSet) {
        AllCharactersExceptSpaceEncodeSet {  }
    }

    pub open spec fn members(&self) -> Set<u8> {
        all_except_space_set()
    }

    /// Whether `byte` is a member: whether it is not space.
    pub fn contains(&self, byte: u8) -> (found: bool)
        ensures
            found == self.members().contains(byte),
    {
        byte != 0x20
    }
}

impl percent_encoding::EncodeSet for AllCharactersExceptSpaceEncodeSet {
    fn contains(&self, byte: u8) -> (found: bool)
        ensures
            found == self.members().contains(byte),
    {
        AllCharactersExceptSpaceEncodeSet::contains(self, byte)
    }
}

/// One of the encode sets, held by value.
pub enum EncodeSet {
    Simple,
    Query,
    PlusQuery,
    Default,
    PathSegment,
    Userinfo,
    AllReserved,
    AllReservedPlus,
    All(AllCharactersEncodeSet),
    AllExceptSpace(AllCharactersExceptSpaceEncodeSet),
    Custom(CustomEncodeSet),
}

impl Clone for EncodeSet {
    fn clone(&self) -> (copy: EncodeSet)
        ensures
            copy.members() == self.members(),
    {
        match self {
            EncodeSet::Simple => EncodeSet::Simple,
            EncodeSet::Query => EncodeSet::Query,
            EncodeSet::PlusQuery => EncodeSet::PlusQuery,
            EncodeSet::Default => EncodeSet::Default,
            EncodeSet::PathSegment => EncodeSet::PathSegment,
            EncodeSet::Userinfo => EncodeSet::Userinfo,
            EncodeSet::AllReserved => EncodeSet::AllReserved,
            EncodeSet::AllReservedPlus => EncodeSet::AllReservedPlus,
            EncodeSet::All(_) => EncodeSet::All(AllCharactersEncodeSet::new()),
            EncodeSet::AllExceptSpace(_) => EncodeSet::AllExceptSpace(
                AllCharactersExceptSpaceEncodeSet::new(),
            ),
            EncodeSet::Custom(set) => EncodeSet::Custom(set.clone()),
        }
    }
}

impl EncodeSet {
    /// The bytes that are written as `%HH` under this set.
    pub open spec fn members(&self) -> Set<u8> {
        match self {
            EncodeSet::Simple => simple_set(),
            EncodeSet::Query => query_set(),
            EncodeSet::PlusQuery => plus_query_set(),
            EncodeSet::Default => default_set(),
            EncodeSet::PathSegment => path_segment_set(),
            EncodeSet::Userinfo => userinfo_set(),
            EncodeSet::AllReserved => all_reserved_set(),
            EncodeSet::AllReservedPlus => all_reserved_plus_set(),
            EncodeSet::All(set) => set.members(),
            EncodeSet::AllExceptSpace(set) => set.members(),
            EncodeSet::Custom(set) => set.members(),
        }
    }

    /// Whether `byte` is written as `%HH` under this set.
    pub fn contains(&self, byte: u8) -> (found: bool)
        ensures
            found == self.members().contains(byte),
    {
        match self {
            EncodeSet::Simple => simple_contains(byte),
            EncodeSet::Query => query_contains(byte),
            EncodeSet::PlusQuery => match byte {
                0x22 | 0x23 | 0x3C | 0x3E | 0x2B => true,
                _ => simple_contains(byte),
            },
            EncodeSet::Default => default_contains(byte),
            EncodeSet::PathSegment => byte == 0x25 || userinfo_contains(byte),
            EncodeSet::Userinfo => userinfo_contains(byte),
            EncodeSet::AllReserved => byte == 0x20 || reserved_contains(byte),
            EncodeSet::AllReservedPlus => reserved_contains(byte),
            EncodeSet::All(set) => set.contains(byte),
            EncodeSet::AllExceptSpace(set) => set.contains(byte),
            EncodeSet::Custom(set) => set.contains(byte),
        }
    }
}

impl percent_encoding::EncodeSet for EncodeSet {
    fn contains(&self, byte: u8) -> (found: bool)
        ensures
            found == self.members().contains(byte),
    {
        EncodeSet::contains(self, byte)
    }
}

/// Whether `byte` is reserved somewhere in a URI or has no printable form;
/// space is neither.
fn reserved_contains(byte: u8) -> (found: bool)
    ensures
        found == all_reserved_plus_set().contains(byte),
{
    match byte {
        0x3A | 0x2F | 0x3F | 0x23 | 0x5B | 0x5D | 0x40 | 0x21 | 0x24 | 0x26 | 0x27 | 0x60
        | 0x28 | 0x29 | 0x2A | 0x2B | 0x2C | 0x3B | 0x3D | 0x25 => true,
        _ => simple_contains(byte),
    }
}

} // verus!
