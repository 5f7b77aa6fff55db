//! Deduplicated URL collections: the result set built during one extraction
//! pass, and the shared scan ledger that records every URL already scanned
//! or queued.

use vstd::prelude::*;

verus! {

/// A set of URL strings with no duplicates; its view is the set of the
/// strings' character sequences.
#[derive(Debug)]
pub struct UrlSet {
    urls: Vec<String>,
}

impl View for UrlSet {
    type V = Set<Seq<char>>;

    closed spec fn view(&self) -> Set<Seq<char>> {
        self.urls.deep_view().to_set()
    }
}

impl UrlSet {
    /// The backing vector holds each member exactly once.
    pub closed spec fn wf(&self) -> bool {
        self.urls.deep_view().no_duplicates()
    }

    pub fn new() -> (s: Self)
        ensures
            s@ == Set::<Seq<char>>::empty(),
            s.wf(),
    {
        let s = UrlSet { urls: Vec::new() };
        proof {
            assert(s.urls.deep_view() =~= Seq::<Seq<char>>::empty());
            assert(s.urls.deep_view().to_set() =~= Set::<Seq<char>>::empty());
        }
        s
    }

    /// Whether `url` is already a member.
    pub fn contains(&self, url: &String) -> (b: bool)
        ensures
            b == self@.contains(url@),
    {
        let mut i: usize = 0;
        let n = self.urls.len();
        while i < n
            invariant
                i <= n,
                n == self.urls.len(),
                forall|k: int| 0 <= k < i ==> self.urls.deep_view()[k] != url@,
            decreases n - i,
        {
            let hit = self.urls[i] == *url;
            proof {
                assert(self.urls.deep_view()[i as int] == self.urls@[i as int]@);
            }
            if hit {
                proof {
                    assert(self.urls.deep_view()[i as int] == url@);
                    assert(self.urls.deep_view().contains(url@));
                }
                return true;
            }
            i = i + 1;
        }
        proof {
            assert(!self.urls.deep_view().contains(url@)) by {
                if self.urls.deep_view().contains(url@) {
                    let k = choose|k: int|
                        0 <= k < self.urls.deep_view().len() && self.urls.deep_view()[k] == url@;
                    assert(self.urls.deep_view()[k] != url@);
                }
            }
        }
        false
    }

    /// Insert `url`, reporting whether it was new; inserting a member again
    /// leaves the set unchanged.
    pub fn insert(&mut self, url: String) -> (added: bool)
        requires
            old(self).wf(),
        ensures
            final(self)@ == old(self)@.insert(url@),
            final(self).wf(),
            added == !old(self)@.contains(url@),
    {
        let present = self.contains(&url);
        if present {
            proof {
                assert(self@ =~= old(self)@.insert(url@));
            }
            false
        } else {
            let ghost old_dv = self.urls.deep_view();
            self.urls.push(url);
            proof {
                assert(self.urls.deep_view() =~= old_dv.push(url@));
                old_dv.lemma_push_to_set_commute(url@);
                assert(self.urls.deep_view().to_set() =~= old_dv.to_set().insert(url@));
                assert(!old_dv.contains(url@)) by {
                    if old_dv.contains(url@) {
                        let k = choose|k: int| 0 <= k < old_dv.len() && old_dv[k] == url@;
                        assert(old_dv.to_set().contains(url@));
                    }
                }
                assert(self.urls.deep_view().no_duplicates());
            }
            true
        }
    }

    /// The number of members.
    pub fn len(&self) -> (n: usize)
        requires
            self.wf(),
        ensures
            n == self@.len(),
    {
        proof {
            self.urls.deep_view().unique_seq_to_set();
        }
        self.urls.len()
    }

    /// The members, each exactly once, in insertion order.
    pub fn items(&self) -> (v: &Vec<String>)
        requires
            self.wf(),
        ensures
            v.deep_view().to_set() == self@,
            v.deep_view().no_duplicates(),
    {
        &self.urls
    }
}

/// The shared ledger of URLs already scanned or queued. One claim is the
/// single point of truth: a URL is treated as newly discovered by exactly
/// the call that first inserts it.
pub struct ScanLedger {
    seen: UrlSet,
}

impl View for ScanLedger {
    type V = Set<Seq<char>>;

    closed spec fn view(&self) -> Set<Seq<char>> {
        self.seen@
    }
}

impl ScanLedger {
    pub closed spec fn wf(&self) -> bool {
        self.seen.wf()
    }

    pub fn new() -> (s: Self)
        ensures
            s@ == Set::<Seq<char>>::empty(),
            s.wf(),
    {
        ScanLedger { seen: UrlSet::new() }
    }

    /// Whether `url` was already scanned or queued.
    pub fn contains(&self, url: &String) -> (b: bool)
        ensures
            b == self@.contains(url@),
    {
        self.seen.contains(url)
    }

    /// Claim `url`: record it and report whether this call was the first to
    /// see it. Within one call both the membership test and the insertion
    /// happen, so racing claimants must be serialized around this single
    /// operation for exactly one of them to observe a new URL.
    pub fn insert(&mut self, url: String) -> (new_entry: bool)
        requires
            old(self).wf(),
        ensures
            final(self)@ == old(self)@.insert(url@),
            final(self).wf(),
            new_entry == !old(self)@.contains(url@),
    {
        self.seen.insert(url)
    }
}

/// Inserting a URL that the set already holds changes nothing: the second
/// of two equal insertions is absorbed by the first.
pub proof fn lemma_insert_idempotent(s: Set<Seq<char>>, u: Seq<char>)
    ensures
        s.insert(u).insert(u) == s.insert(u),
{
    assert(s.insert(u).insert(u) =~= s.insert(u));
}

/// Once a URL has been claimed in a ledger, every later claim of the same
/// URL observes it as already seen, whatever else was claimed in between:
/// of any series of claims of one URL, exactly the first reports it new.
pub proof fn lemma_claim_once(s: Set<Seq<char>>, others: Set<Seq<char>>, u: Seq<char>)
    ensures
        s.insert(u).contains(u),
        s.insert(u).union(others).contains(u),
{
    assert(s.insert(u).union(others).contains(u));
}

} // verus!
