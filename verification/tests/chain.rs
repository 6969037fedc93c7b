use source_chain::chain::{ChainError, SourceChain};
use source_chain::entry::{Entry, Header, Pair};
use source_chain::hash::HASH_SEED;

// helper to spin up pairs for testing
fn test_pair(previous_pair: Option<&Pair>, s: &str) -> Pair {
    let e = Entry::new(s);
    let previous = match previous_pair {
        Some(p) => Some(p.header.hash()),
        None => None,
    };
    let h = Header::new(previous, &e);
    Pair::new(&h, &e)
}

#[test]
fn validate() {
    let p1 = test_pair(None, "foo");
    let p2 = test_pair(Some(&p1), "bar");

    let mut chain = SourceChain::new();
    assert!(chain.validate());
    chain.push(&p1).unwrap();
    assert!(chain.validate());
    chain.push(&p2).unwrap();
    assert!(chain.validate());
}

#[test]
fn get() {
    let p1 = test_pair(None, "foo");
    let p2 = test_pair(Some(&p1), "bar");
    let p3 = test_pair(Some(&p2), "baz");

    let mut chain = SourceChain::new();
    chain.push(&p1).unwrap();
    chain.push(&p2).unwrap();
    chain.push(&p3).unwrap();

    assert_eq!(None, chain.get(0));
    assert_eq!(Some(p1.clone()), chain.get(p1.header.hash()));
    assert_eq!(Some(p2.clone()), chain.get(p2.header.hash()));
    assert_eq!(Some(p3.clone()), chain.get(p3.header.hash()));
}

#[test]
fn get_entry() {
    let p1 = test_pair(None, "foo");
    let p2 = test_pair(Some(&p1), "bar");
    let p3 = test_pair(Some(&p2), "baz");

    let mut chain = SourceChain::new();
    chain.push(&p1).unwrap();
    chain.push(&p2).unwrap();
    chain.push(&p3).unwrap();

    assert_eq!(None, chain.get(0));
    assert_eq!(Some(p1.clone()), chain.get_entry(p1.entry.hash()));
    assert_eq!(Some(p2.clone()), chain.get_entry(p2.entry.hash()));
    assert_eq!(Some(p3.clone()), chain.get_entry(p3.entry.hash()));
}

#[test]
fn valid_push() {
    let p1 = test_pair(None, "foo");
    let p2 = test_pair(Some(&p1), "bar");

    let mut chain = SourceChain::new();
    chain.push(&p1).unwrap();
    chain.push(&p2).unwrap();
}

#[test]
fn invalid_push() {
    let p1 = test_pair(None, "foo");
    let p2 = test_pair(Some(&p1), "bar");

    let mut chain = SourceChain::new();

    // wrong order: p2 references p1, which is not in the chain
    assert_eq!(Err(ChainError::BrokenLinkage), chain.push(&p2));
    assert_eq!(0, chain.len());
    assert_eq!(Ok(()), chain.push(&p1));
}

#[test]
fn iter() {
    // setup
    let p1 = test_pair(None, "foo");
    let p2 = test_pair(Some(&p1), "bar");
    let p3 = test_pair(Some(&p2), "foo");

    let mut chain = SourceChain::new();
    chain.push(&p1).unwrap();
    chain.push(&p2).unwrap();
    chain.push(&p3).unwrap();

    // iter() yields the records from top (most recent) to bottom (genesis)
    assert_eq!(
        vec![p3.clone(), p2.clone(), p1.clone()],
        chain.iter()
    );

    // iter() should support functional logic
    assert_eq!(
        vec![p3.clone(), p1.clone()],
        chain
            .iter()
            .into_iter()
            .filter(|p| p.entry.content() == "foo")
            .collect::<Vec<Pair>>()
    );
}

#[test]
fn into_iter() {
    // setup
    let p1 = test_pair(None, "foo");
    let p2 = test_pair(Some(&p1), "bar");
    let p3 = test_pair(Some(&p2), "baz");

    let mut chain = SourceChain::new();
    chain.push(&p1).unwrap();
    chain.push(&p2).unwrap();
    chain.push(&p3).unwrap();

    // non-consuming traversal by reference to each record
    let mut i = 0;
    let expected = [&p3, &p2, &p1];
    for p in &chain.iter() {
        assert_eq!(expected[i], p);
        i = i + 1;
    }

    // do functional things with the traversal
    assert_eq!(
        vec![p1.clone()],
        chain
            .iter()
            .into_iter()
            .filter(|p| p.header.previous() == None)
            .collect::<Vec<Pair>>()
    );

    // into_iter() move
    let mut i = 0;
    let expected = [p3.clone(), p2.clone(), p1.clone()];
    for p in chain.clone().into_iter() {
        assert_eq!(expected[i], p);
        i = i + 1;
    }

    // consuming and non-consuming traversal agree
    assert_eq!(chain.iter(), chain.into_iter());
}

#[test]
fn empty_chain() {
    let chain = SourceChain::new();
    assert_eq!(0, chain.len());
    assert!(chain.validate());
    assert_eq!(Vec::<Pair>::new(), chain.iter());
    assert_eq!(None, chain.get(HASH_SEED));
    assert_eq!(None, chain.get_entry(HASH_SEED));
}

#[test]
fn append_monotonicity() {
    let p1 = test_pair(None, "foo");
    let p2 = test_pair(Some(&p1), "bar");
    let p3 = test_pair(Some(&p2), "baz");

    let mut chain = SourceChain::new();
    chain.push(&p1).unwrap();
    assert_eq!(1, chain.len());
    assert_eq!(p1, chain.iter()[0]);
    chain.push(&p2).unwrap();
    assert_eq!(2, chain.len());
    assert_eq!(p2, chain.iter()[0]);
    chain.push(&p3).unwrap();
    assert_eq!(3, chain.len());
    assert_eq!(p3, chain.iter()[0]);
}

#[test]
fn rejects_invalid_record() {
    let e1 = Entry::new("foo");
    let e2 = Entry::new("bar");
    // a Header built for e1 does not describe e2
    let h = Header::new(None, &e1);
    let mismatched = Pair::new(&h, &e2);
    assert!(!mismatched.validate());

    let mut chain = SourceChain::new();
    assert_eq!(Err(ChainError::InvalidRecord), chain.push(&mismatched));
    assert_eq!(0, chain.len());
}

#[test]
fn rejects_genesis_on_nonempty_chain() {
    let p1 = test_pair(None, "foo");
    let stray_genesis = test_pair(None, "bar");

    let mut chain = SourceChain::new();
    chain.push(&p1).unwrap();
    assert_eq!(Err(ChainError::BrokenLinkage), chain.push(&stray_genesis));
    assert_eq!(vec![p1.clone()], chain.iter());
}

#[test]
fn hash_values() {
    // the content hash is the seed mixed with each character in order:
    // h := (h * 31 + char) mod 2^64
    let e = Entry::new("foo");
    assert_eq!(11394041827441597313u64, e.hash());
    // a genesis Header mixes a 0 tag for the absent previous-reference,
    // then the Entry hash
    let h = Header::new(None, &e);
    assert_eq!(4025860178061511014u64, h.hash());
    assert_eq!(None, h.previous());
    assert_eq!(e.hash(), h.entry_hash());
}

#[test]
fn round_trip() {
    let a = test_pair(None, "foo");
    let b = test_pair(Some(&a), "bar");
    let c = test_pair(Some(&b), "baz");

    let mut chain = SourceChain::new();
    chain.push(&a).unwrap();
    chain.push(&b).unwrap();
    chain.push(&c).unwrap();

    assert_eq!(3, chain.len());
    assert!(chain.validate());
    assert_eq!(vec![c.clone(), b.clone(), a.clone()], chain.iter());
    assert_eq!(Some(b.clone()), chain.get(b.header.hash()));
    assert_eq!(Some(c.clone()), chain.get_entry(c.entry.hash()));

    // a record referencing the stale head A instead of C is rejected
    let d = test_pair(Some(&a), "qux");
    assert_eq!(Err(ChainError::BrokenLinkage), chain.push(&d));
    assert_eq!(vec![c.clone(), b.clone(), a.clone()], chain.iter());
}
