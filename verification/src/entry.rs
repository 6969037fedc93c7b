//! The chain's record types.
//!
//! An [`Entry`] is an opaque, content-addressed application payload. A
//! [`Header`] binds an Entry to its position in the chain: it carries
//! the content hash of the previous Header (absent only for the genesis
//! record) and the content hash of the Entry it describes. A [`Pair`]
//! is the atomic chain record, one Header plus the Entry it describes;
//! it validates only when the Header in fact references that Entry.

use vstd::prelude::*;
use crate::hash::{hash_chars, mix, spec_hash_chars, spec_mix, HASH_SEED};

verus! {

/// An opaque unit of application data, identified by the content hash
/// of its payload.
#[derive(Debug, PartialEq, Eq)]
pub struct Entry {
    content: String,
}

impl Entry {
    /// The payload, as a character sequence.
    pub closed spec fn spec_content(&self) -> Seq<char> {
        self.content@
    }

    /// The content hash that identifies this Entry: a deterministic
    /// function of the payload alone.
    pub open spec fn spec_hash(&self) -> u64 {
        spec_hash_chars(self.spec_content())
    }

    /// Entry-level validity is owned by the application layer; this
    /// core imposes no constraint of its own on a payload.
    pub open spec fn spec_valid(&self) -> bool {
        true
    }

    pub fn new(content: &str) -> (e: Entry)
        ensures
            e.spec_content() == content@,
    {
        Entry { content: content.to_owned() }
    }

    pub fn content(&self) -> (r: String)
        ensures
            r@ == self.spec_content(),
    {
        self.content.clone()
    }

    pub fn hash(&self) -> (r: u64)
        ensures
            r == self.spec_hash(),
    {
        hash_chars(self.content.as_str())
    }

    pub fn validate(&self) -> (r: bool)
        ensures
            r == self.spec_valid(),
    {
        true
    }
}

impl Clone for Entry {
    fn clone(&self) -> (r: Self)
        ensures
            r == *self,
    {
        Entry { content: self.content.clone() }
    }
}

/// Chain metadata for one Entry: the hash of the previous Header in
/// the chain (`None` only for the genesis record) and the content hash
/// of the Entry this Header describes.
#[derive(Clone, Copy, Debug, PartialEq, Eq)]
pub struct Header {
    previous: Option<u64>,
    entry_hash: u64,
}

impl Header {
    /// The hash of the predecessor Header, absent for genesis.
    pub closed spec fn spec_previous(&self) -> Option<u64> {
        self.previous
    }

    /// The content hash of the Entry this Header describes.
    pub closed spec fn spec_entry_hash(&self) -> u64 {
        self.entry_hash
    }

    /// The Header's own content hash: a deterministic function of its
    /// fields, with the absent and present previous-reference kept
    /// distinct by a tag.
    pub closed spec fn spec_hash(&self) -> u64 {
        let prev_part = match self.previous {
            Option::None => spec_mix(HASH_SEED, 0),
            Option::Some(h) => spec_mix(spec_mix(HASH_SEED, 1), h),
        };
        spec_mix(prev_part, self.entry_hash)
    }

    /// A Header is structurally well-formed as built: its
    /// previous-reference is either explicitly absent or a hash value,
    /// and its own hash is computable from its fields.
    pub open spec fn spec_valid(&self) -> bool {
        true
    }

    pub fn new(previous: Option<u64>, entry: &Entry) -> (h: Header)
        ensures
            h.spec_previous() == previous,
            h.spec_entry_hash() == entry.spec_hash(),
    {
        Header { previous, entry_hash: entry.hash() }
    }

    pub fn previous(&self) -> (r: Option<u64>)
        ensures
            r == self.spec_previous(),
    {
        self.previous
    }

    pub fn entry_hash(&self) -> (r: u64)
        ensures
            r == self.spec_entry_hash(),
    {
        self.entry_hash
    }

    pub fn hash(&self) -> (r: u64)
        ensures
            r == self.spec_hash(),
    {
        let prev_part = match self.previous {
            Option::None => mix(HASH_SEED, 0),
            Option::Some(h) => mix(mix(HASH_SEED, 1), h),
        };
        mix(prev_part, self.entry_hash)
    }

    pub fn validate(&self) -> (r: bool)
        ensures
            r == self.spec_valid(),
    {
        true
    }
}

/// The atomic chain record: one Header plus the Entry it describes.
#[derive(Debug, PartialEq, Eq)]
pub struct Pair {
    pub header: Header,
    pub entry: Entry,
}

impl Pair {
    /// A Pair is well-formed when its Header and Entry each validate
    /// and the Header in fact references this Entry: the Entry hash
    /// carried by the Header equals the Entry's content hash.
    pub open spec fn spec_valid(&self) -> bool {
        &&& self.header.spec_valid()
        &&& self.entry.spec_valid()
        &&& self.header.spec_entry_hash() == self.entry.spec_hash()
    }

    pub fn new(header: &Header, entry: &Entry) -> (p: Pair)
        ensures
            p.header == *header,
            p.entry == *entry,
    {
        Pair { header: *header, entry: entry.clone() }
    }

    pub fn validate(&self) -> (r: bool)
        ensures
            r == self.spec_valid(),
    {
        self.header.validate() && self.entry.validate() && self.header.entry_hash()
            == self.entry.hash()
    }
}

impl Clone for Pair {
    fn clone(&self) -> (r: Self)
        ensures
            r == *self,
    {
        Pair { header: self.header, entry: self.entry.clone() }
    }
}

} // verus!
