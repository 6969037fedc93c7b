//! The hash-linked, append-only chain of records.
//!
//! A [`SourceChain`] holds its [`Pair`]s most-recent-first: position 0
//! is the head, the last position is the genesis record. `push` is the
//! single invariant-enforcement chokepoint: it accepts a record only
//! when the record validates and its previous-reference matches the
//! current head, so every chain built through `push` satisfies
//! [`linked`] and [`all_valid`] by construction.

use vstd::prelude::*;
use vstd::pervasive::cloned;
use crate::entry::Pair;

verus! {

/// Why an attempted append was refused. The chain is left untouched
/// in either case.
#[derive(Clone, Copy, Debug, PartialEq, Eq, Structural)]
pub enum ChainError {
    /// The record itself does not validate: its Header does not
    /// reference its Entry.
    InvalidRecord,
    /// The record's previous-reference does not match the current
    /// chain head.
    BrokenLinkage,
}

/// Every record in the sequence satisfies its own validity predicate.
pub open spec fn all_valid(s: Seq<Pair>) -> bool {
    forall|i: int| 0 <= i < s.len() ==> (#[trigger] s[i]).spec_valid()
}

/// The record at position `i` of a most-recent-first sequence points
/// at its direct predecessor: its previous-reference is the hash of
/// the Header one position later, or absent when `i` is the genesis
/// record (the last position).
pub open spec fn linked_at(s: Seq<Pair>, i: int) -> bool {
    s[i].header.spec_previous() == if i == s.len() - 1 {
        Option::<u64>::None
    } else {
        Option::Some(s[i + 1].header.spec_hash())
    }
}

/// The whole sequence is hash-linked from head to genesis.
pub open spec fn linked(s: Seq<Pair>) -> bool {
    forall|i: int| 0 <= i < s.len() ==> #[trigger] linked_at(s, i)
}

/// A record may extend the chain exactly when it validates and its
/// previous-reference matches the current head: absent on an empty
/// chain, the head Header's hash otherwise.
pub open spec fn can_push(s: Seq<Pair>, p: Pair) -> bool {
    &&& p.spec_valid()
    &&& p.header.spec_previous() == if s.len() == 0 {
        Option::<u64>::None
    } else {
        Option::Some(s[0].header.spec_hash())
    }
}

/// The first record, scanning head to genesis, whose Header hash is
/// `h`; `None` when no record has that Header hash.
pub open spec fn find_by_header(s: Seq<Pair>, h: u64) -> Option<Pair>
    decreases s.len(),
{
    if s.len() == 0 {
        Option::None
    } else if s[0].header.spec_hash() == h {
        Option::Some(s[0])
    } else {
        find_by_header(s.drop_first(), h)
    }
}

/// The first record, scanning head to genesis, whose Entry hash is
/// `h`; `None` when no record has that Entry hash.
pub open spec fn find_by_entry(s: Seq<Pair>, h: u64) -> Option<Pair>
    decreases s.len(),
{
    if s.len() == 0 {
        Option::None
    } else if s[0].entry.spec_hash() == h {
        Option::Some(s[0])
    } else {
        find_by_entry(s.drop_first(), h)
    }
}

/// An ordered sequence of Pairs, most-recent-first, extended only by
/// validated appends.
#[derive(Debug, PartialEq, Eq)]
pub struct SourceChain {
    pairs: Vec<Pair>,
}

impl View for SourceChain {
    type V = Seq<Pair>;

    closed spec fn view(&self) -> Seq<Pair> {
        self.pairs@
    }
}

impl SourceChain {
    /// The chain invariant: hash-linked throughout, every record
    /// individually valid. Established by `new`, preserved by `push`.
    pub open spec fn wf(&self) -> bool {
        linked(self@) && all_valid(self@)
    }

    pub fn new() -> (c: SourceChain)
        ensures
            c@ == Seq::<Pair>::empty(),
            c.wf(),
    {
        let c = SourceChain { pairs: Vec::new() };
        proof {
            assert(c@ =~= Seq::<Pair>::empty());
        }
        c
    }

    pub fn len(&self) -> (n: usize)
        ensures
            n == self@.len(),
    {
        self.pairs.len()
    }

    /// Appends `pair` as the new head after validating it against the
    /// current head; on refusal the chain is left exactly as it was.
    pub fn push(&mut self, pair: &Pair) -> (r: Result<(), ChainError>)
        ensures
            r is Ok <==> can_push(old(self)@, *pair),
            r is Ok ==> final(self)@ == old(self)@.insert(0, *pair),
            r is Ok ==> final(self)@.len() == old(self)@.len() + 1 && final(self)@[0] == *pair,
            r is Err ==> final(self)@ == old(self)@,
            !pair.spec_valid() ==> r == Result::<(), ChainError>::Err(ChainError::InvalidRecord),
            pair.spec_valid() && !can_push(old(self)@, *pair) ==> r == Result::<
                (),
                ChainError,
            >::Err(ChainError::BrokenLinkage),
            old(self).wf() && r is Ok ==> final(self).wf(),
    {
        if !pair.validate() {
            return Err(ChainError::InvalidRecord);
        }
        let linkage_ok = if self.pairs.len() == 0 {
            pair.header.previous().is_none()
        } else {
            match pair.header.previous() {
                Option::Some(h) => h == self.pairs[0].header.hash(),
                Option::None => false,
            }
        };
        if !linkage_ok {
            return Err(ChainError::BrokenLinkage);
        }
        proof {
            if old(self).wf() {
                lemma_push_preserves_wf(old(self)@, *pair);
            }
        }
        self.pairs.insert(0, pair.clone());
        Ok(())
    }

    /// True exactly when every record currently held validates
    /// individually.
    pub fn validate(&self) -> (r: bool)
        ensures
            r == all_valid(self@),
    {
        let mut i: usize = 0;
        let n = self.pairs.len();
        let mut ok = true;
        while i < n
            invariant
                i <= n,
                n == self@.len(),
                ok == forall|j: int| 0 <= j < i ==> (#[trigger] self@[j]).spec_valid(),
            decreases n - i,
        {
            ok = ok && self.pairs[i].validate();
            i = i + 1;
        }
        ok
    }

    /// Content-addressed lookup by Header hash: the first match in
    /// head-to-genesis order, as a copy.
    pub fn get(&self, header_hash: u64) -> (r: Option<Pair>)
        ensures
            r == find_by_header(self@, header_hash),
    {
        let n = self.pairs.len();
        let mut i: usize = 0;
        proof {
            assert(self@.skip(0) =~= self@);
        }
        while i < n
            invariant
                i <= n,
                n == self@.len(),
                find_by_header(self@, header_hash) == find_by_header(
                    self@.skip(i as int),
                    header_hash,
                ),
                forall|j: int| 0 <= j < i ==> (#[trigger] self@[j]).header.spec_hash()
                    != header_hash,
            decreases n - i,
        {
            if self.pairs[i].header.hash() == header_hash {
                proof {
                    assert(self@.skip(i as int)[0] == self@[i as int]);
                }
                return Some(self.pairs[i].clone());
            }
            proof {
                assert(self@.skip(i as int).drop_first() =~= self@.skip(i as int + 1));
            }
            i = i + 1;
        }
        proof {
            assert(self@.skip(n as int) =~= Seq::<Pair>::empty());
        }
        None
    }

    /// Content-addressed lookup by Entry hash: the first match in
    /// head-to-genesis order, as a copy.
    pub fn get_entry(&self, entry_hash: u64) -> (r: Option<Pair>)
        ensures
            r == find_by_entry(self@, entry_hash),
    {
        let n = self.pairs.len();
        let mut i: usize = 0;
        proof {
            assert(self@.skip(0) =~= self@);
        }
        while i < n
            invariant
                i <= n,
                n == self@.len(),
                find_by_entry(self@, entry_hash) == find_by_entry(self@.skip(i as int), entry_hash),
                forall|j: int| 0 <= j < i ==> (#[trigger] self@[j]).entry.spec_hash() != entry_hash,
            decreases n - i,
        {
            if self.pairs[i].entry.hash() == entry_hash {
                proof {
                    assert(self@.skip(i as int)[0] == self@[i as int]);
                }
                return Some(self.pairs[i].clone());
            }
            proof {
                assert(self@.skip(i as int).drop_first() =~= self@.skip(i as int + 1));
            }
            i = i + 1;
        }
        proof {
            assert(self@.skip(n as int) =~= Seq::<Pair>::empty());
        }
        None
    }

    /// Non-consuming traversal: the records copied out in
    /// head-to-genesis order, exactly the chain's own sequence.
    pub fn iter(&self) -> (r: Vec<Pair>)
        ensures
            r@ == self@,
    {
        let n = self.pairs.len();
        let mut out: Vec<Pair> = Vec::new();
        let mut i: usize = 0;
        while i < n
            invariant
                i <= n,
                n == self@.len(),
                out@ =~= self@.take(i as int),
            decreases n - i,
        {
            out.push(self.pairs[i].clone());
            i = i + 1;
        }
        proof {
            assert(out@ =~= self@);
        }
        out
    }

    /// Consuming traversal: the records moved out in head-to-genesis
    /// order, exactly the chain's own sequence. Consuming and
    /// non-consuming traversal yield the same records in the same
    /// order.
    pub fn into_iter(self) -> (r: Vec<Pair>)
        ensures
            r@ == self@,
    {
        self.pairs
    }
}

impl Clone for SourceChain {
    /// A clone is a deep value copy: it holds the same records in the
    /// same order, with no shared mutable state.
    fn clone(&self) -> (r: Self)
        ensures
            r@ == self@,
    {
        let pairs = self.pairs.clone();
        proof {
            assert forall|i: int| 0 <= i < pairs@.len() implies pairs@[i] == self.pairs@[i] by {
                assert(cloned::<Pair>(self.pairs[i], pairs[i]));
            }
            assert(pairs@ =~= self.pairs@);
        }
        SourceChain { pairs }
    }
}

impl Default for SourceChain {
    /// The default chain is the empty chain.
    fn default() -> (c: Self)
        ensures
            c@ == Seq::<Pair>::empty(),
            c.wf(),
    {
        SourceChain::new()
    }
}

/// A validated append preserves the chain invariant: with `pair` as
/// the new head of a well-formed chain, the result is hash-linked
/// throughout and every record in it is valid.
pub proof fn lemma_push_preserves_wf(s: Seq<Pair>, pair: Pair)
    requires
        linked(s),
        all_valid(s),
        can_push(s, pair),
    ensures
        linked(s.insert(0, pair)),
        all_valid(s.insert(0, pair)),
{
    let s2 = s.insert(0, pair);
    assert(s2[0] == pair);
    assert(forall|i: int| 1 <= i < s2.len() ==> s2[i] == s[i - 1]);
    assert(linked_at(s2, 0));
    assert forall|i: int| 0 <= i < s2.len() implies #[trigger] linked_at(s2, i) by {
        if i >= 1 {
            assert(linked_at(s, i - 1));
        }
    }
}

/// Empty-chain validity: a chain holding no records is hash-linked
/// and all-valid, so a newly created chain is well-formed and
/// validates.
pub proof fn lemma_empty_chain_wf(s: Seq<Pair>)
    requires
        s.len() == 0,
    ensures
        linked(s),
        all_valid(s),
{
}

/// The linkage invariant, read off a well-formed sequence: every
/// record's previous-reference is the hash of the Header one position
/// toward genesis, and the genesis record carries none.
pub proof fn lemma_linkage(s: Seq<Pair>, i: int)
    requires
        linked(s),
        0 <= i < s.len(),
    ensures
        i < s.len() - 1 ==> s[i].header.spec_previous() == Option::Some(
            s[i + 1].header.spec_hash(),
        ),
        i == s.len() - 1 ==> s[i].header.spec_previous() is None,
{
    assert(linked_at(s, i));
}

/// Lookup by Header hash finds an appended record: when the Header
/// hashes in the chain are pairwise distinct, looking up the Header
/// hash of the record at any position returns exactly that record.
pub proof fn lemma_find_by_header_present(s: Seq<Pair>, i: int)
    requires
        0 <= i < s.len(),
        forall|j: int, k: int|
            0 <= j < s.len() && 0 <= k < s.len() && j != k ==> (#[trigger] s[j]).header.spec_hash()
                != (#[trigger] s[k]).header.spec_hash(),
    ensures
        find_by_header(s, s[i].header.spec_hash()) == Option::Some(s[i]),
    decreases s.len(),
{
    if i > 0 {
        assert(s[0].header.spec_hash() != s[i].header.spec_hash());
        lemma_find_by_header_present(s.drop_first(), i - 1);
    }
}

/// Lookup by Header hash reports absence: a hash held by no record in
/// the chain is looked up as `None`.
pub proof fn lemma_find_by_header_absent(s: Seq<Pair>, h: u64)
    requires
        forall|i: int| 0 <= i < s.len() ==> (#[trigger] s[i]).header.spec_hash() != h,
    ensures
        find_by_header(s, h) is None,
    decreases s.len(),
{
    if s.len() > 0 {
        lemma_find_by_header_absent(s.drop_first(), h);
    }
}

/// Lookup by Entry hash finds an appended record: when the Entry
/// hashes in the chain are pairwise distinct, looking up the Entry
/// hash of the record at any position returns exactly that record.
pub proof fn lemma_find_by_entry_present(s: Seq<Pair>, i: int)
    requires
        0 <= i < s.len(),
        forall|j: int, k: int|
            0 <= j < s.len() && 0 <= k < s.len() && j != k ==> (#[trigger] s[j]).entry.spec_hash()
                != (#[trigger] s[k]).entry.spec_hash(),
    ensures
        find_by_entry(s, s[i].entry.spec_hash()) == Option::Some(s[i]),
    decreases s.len(),
{
    if i > 0 {
        assert(s[0].entry.spec_hash() != s[i].entry.spec_hash());
        lemma_find_by_entry_present(s.drop_first(), i - 1);
    }
}

/// Lookup by Entry hash reports absence: a hash held by no record's
/// Entry in the chain is looked up as `None`.
pub proof fn lemma_find_by_entry_absent(s: Seq<Pair>, h: u64)
    requires
        forall|i: int| 0 <= i < s.len() ==> (#[trigger] s[i]).entry.spec_hash() != h,
    ensures
        find_by_entry(s, h) is None,
    decreases s.len(),
{
    if s.len() > 0 {
        lemma_find_by_entry_absent(s.drop_first(), h);
    }
}

} // verus!
