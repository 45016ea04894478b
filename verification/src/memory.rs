//! An in-memory storage backend. It keeps the two collections as plain
//! vectors, assigns storage identifiers from the collection size, and is
//! the backend the ingestion workflow is exercised against in tests.

use crate::codec::{dec_digits, dec_string_of_u64, lemma_dec_round_trip, parse_dec};
use crate::model::{
    AuthorView, DBID, LocalRetweet, LocalTweetAuthor, Retweet, RetweetView, StatusID, TweetAuthor,
    UserID,
};
use crate::storage::{
    author_ref_exists, has_author, has_retweet, lemma_inv_push_author, lemma_inv_push_retweet,
    store_inv, Database, StoreError,
};
use vstd::prelude::*;

verus! {

/// Storage backed by two in-memory vectors.
pub struct MemoryStore {
    retweets: Vec<Retweet>,
    authors: Vec<TweetAuthor>,
}

impl MemoryStore {
    /// Storage identifiers are assigned from the record's position: the
    /// record at position `j` carries the decimal string of `j`. This is
    /// what makes each newly assigned identifier fresh.
    #[verifier::type_invariant]
    spec fn ids_sequential(self) -> bool {
        &&& forall|j: int|
            0 <= j < self.retweets@.len() ==> (#[trigger] self.retweets@[j]@).id == dec_digits(
                j as nat,
            )
        &&& forall|j: int|
            0 <= j < self.authors@.len() ==> (#[trigger] self.authors@[j]@).id == dec_digits(
                j as nat,
            )
    }

    /// Two positions have two storage identifiers: the decimal strings of
    /// distinct numbers differ, since each parses back to its own number.
    proof fn lemma_position_ids_differ(a: int, b: int)
        requires
            0 <= a <= u64::MAX,
            0 <= b <= u64::MAX,
            a != b,
        ensures
            dec_digits(a as nat) != dec_digits(b as nat),
    {
        lemma_dec_round_trip(a as u64);
        lemma_dec_round_trip(b as u64);
        if dec_digits(a as nat) == dec_digits(b as nat) {
            assert(parse_dec(dec_digits(a as nat)) == parse_dec(dec_digits(b as nat)));
        }
    }

    /// An empty store; it trivially satisfies the storage invariant.
    pub fn new() -> (s: MemoryStore)
        ensures
            s.retweets() == Seq::<RetweetView>::empty(),
            s.authors() == Seq::<AuthorView>::empty(),
            store_inv(s.retweets(), s.authors()),
    {
        let s = MemoryStore { retweets: Vec::new(), authors: Vec::new() };
        proof {
            assert(s.retweets() =~= Seq::<RetweetView>::empty());
            assert(s.authors() =~= Seq::<AuthorView>::empty());
        }
        s
    }

    /// Number of stored retweet records.
    pub fn retweet_count(&self) -> (n: usize)
        ensures
            n == self.retweets().len(),
    {
        self.retweets.len()
    }

    /// Number of stored author records.
    pub fn author_count(&self) -> (n: usize)
        ensures
            n == self.authors().len(),
    {
        self.authors.len()
    }

    /// The stored retweet record at a position, in insertion order.
    pub fn retweet_at(&self, i: usize) -> (r: &Retweet)
        requires
            i < self.retweets().len(),
        ensures
            r@ == self.retweets()[i as int],
    {
        &self.retweets[i]
    }

    /// The stored author record at a position, in insertion order.
    pub fn author_at(&self, i: usize) -> (a: &TweetAuthor)
        requires
            i < self.authors().len(),
        ensures
            a@ == self.authors()[i as int],
    {
        &self.authors[i]
    }
}

impl Database for MemoryStore {
    closed spec fn retweets(&self) -> Seq<RetweetView> {
        self.retweets@.map_values(|r: Retweet| r@)
    }

    closed spec fn authors(&self) -> Seq<AuthorView> {
        self.authors@.map_values(|a: TweetAuthor| a@)
    }

    fn contains_rt(&self, status_id: StatusID) -> (r: Result<bool, StoreError>)
        ensures
            r is Ok,
    {
        let n = self.retweets.len();
        let mut i: usize = 0;
        while i < n
            invariant
                0 <= i <= n,
                n == self.retweets@.len(),
                forall|k: int|
                    0 <= k < i ==> (#[trigger] self.retweets()[k]).twitter_id != status_id.0,
            decreases n - i,
        {
            if self.retweets[i].twitter_id.0 == status_id.0 {
                proof {
                    assert(self.retweets()[i as int].twitter_id == status_id.0);
                }
                return Ok(true);
            }
            i = i + 1;
        }
        proof {
            if has_retweet(self.retweets(), status_id.0) {
                let k = choose|k: int|
                    0 <= k < self.retweets().len() && (#[trigger] self.retweets()[k]).twitter_id
                        == status_id.0;
                assert(false);
            }
        }
        Ok(false)
    }

    fn contains_author(&self, user_id: UserID) -> (r: Result<bool, StoreError>)
        ensures
            r is Ok,
    {
        let n = self.authors.len();
        let mut i: usize = 0;
        while i < n
            invariant
                0 <= i <= n,
                n == self.authors@.len(),
                forall|k: int|
                    0 <= k < i ==> (#[trigger] self.authors()[k]).twitter_id != user_id.0,
            decreases n - i,
        {
            if self.authors[i].twitter_id.0 == user_id.0 {
                proof {
                    assert(self.authors()[i as int].twitter_id == user_id.0);
                }
                return Ok(true);
            }
            i = i + 1;
        }
        proof {
            if has_author(self.authors(), user_id.0) {
                let k = choose|k: int|
                    0 <= k < self.authors().len() && (#[trigger] self.authors()[k]).twitter_id
                        == user_id.0;
                assert(false);
            }
        }
        Ok(false)
    }

    fn get_author(&self, user_id: UserID) -> (r: Result<TweetAuthor, StoreError>)
        ensures
            r is Ok <==> has_author(self.authors(), user_id.0),
            !has_author(self.authors(), user_id.0) ==> r == Err::<TweetAuthor, StoreError>(
                StoreError::NotFound,
            ),
    {
        let n = self.authors.len();
        let mut i: usize = 0;
        while i < n
            invariant
                0 <= i <= n,
                n == self.authors@.len(),
                forall|k: int|
                    0 <= k < i ==> (#[trigger] self.authors()[k]).twitter_id != user_id.0,
            decreases n - i,
        {
            if self.authors[i].twitter_id.0 == user_id.0 {
                let found = &self.authors[i];
                let copy = TweetAuthor {
                    id: DBID(found.id.0.clone()),
                    screen_name: found.screen_name.clone(),
                    name: found.name.clone(),
                    twitter_id: found.twitter_id,
                };
                proof {
                    assert(copy@ == self.authors()[i as int]);
                }
                return Ok(copy);
            }
            i = i + 1;
        }
        proof {
            if has_author(self.authors(), user_id.0) {
                let k = choose|k: int|
                    0 <= k < self.authors().len() && (#[trigger] self.authors()[k]).twitter_id
                        == user_id.0;
                assert(false);
            }
        }
        Err(StoreError::NotFound)
    }

    fn save_retweet(&mut self, entry: LocalRetweet) -> (r: Result<Retweet, StoreError>)
        ensures
            r is Ok,
    {
        proof {
            use_type_invariant(&*self);
        }
        let id_string = dec_string_of_u64(self.retweets.len() as u64);
        let stored = Retweet {
            id: DBID(id_string.clone()),
            time: entry.time,
            author: DBID(entry.author.0.clone()),
            twitter_id: entry.twitter_id,
        };
        let returned = Retweet {
            id: DBID(id_string),
            time: entry.time,
            author: entry.author,
            twitter_id: entry.twitter_id,
        };
        proof {
            assert(stored@ == returned@);
        }
        let mut rts: Vec<Retweet> = Vec::new();
        core::mem::swap(&mut self.retweets, &mut rts);
        rts.push(stored);
        proof {
            assert forall|j: int| 0 <= j < rts@.len() implies (#[trigger] rts@[j]@).id
                == dec_digits(j as nat) by {
                if j < rts@.len() - 1 {
                    assert(rts@[j] == old(self).retweets@[j]);
                }
            }
        }
        core::mem::swap(&mut self.retweets, &mut rts);
        proof {
            assert(self.retweets() =~= old(self).retweets().push(returned@));
            lemma_inv_push_retweet(old(self).retweets(), old(self).authors(), returned@);
            let m = old(self).retweets().len() as int;
            assert forall|j: int| 0 <= j < m implies (#[trigger] old(self).retweets()[j]).id
                != returned@.id by {
                Self::lemma_position_ids_differ(j, m);
            }
        }
        Ok(returned)
    }

    fn save_author(&mut self, entry: LocalTweetAuthor) -> (r: Result<TweetAuthor, StoreError>)
        ensures
            r is Ok,
    {
        proof {
            use_type_invariant(&*self);
        }
        let id_string = dec_string_of_u64(self.authors.len() as u64);
        let stored = TweetAuthor {
            id: DBID(id_string.clone()),
            screen_name: entry.screen_name.clone(),
            name: entry.name.clone(),
            twitter_id: entry.twitter_id,
        };
        let returned = TweetAuthor {
            id: DBID(id_string),
            screen_name: entry.screen_name,
            name: entry.name,
            twitter_id: entry.twitter_id,
        };
        proof {
            assert(stored@ == returned@);
        }
        let mut auths: Vec<TweetAuthor> = Vec::new();
        core::mem::swap(&mut self.authors, &mut auths);
        auths.push(stored);
        proof {
            assert forall|j: int| 0 <= j < auths@.len() implies (#[trigger] auths@[j]@).id
                == dec_digits(j as nat) by {
                if j < auths@.len() - 1 {
                    assert(auths@[j] == old(self).authors@[j]);
                }
            }
        }
        core::mem::swap(&mut self.authors, &mut auths);
        proof {
            assert(self.authors() =~= old(self).authors().push(returned@));
            lemma_inv_push_author(old(self).retweets(), old(self).authors(), returned@);
            let m = old(self).authors().len() as int;
            assert forall|j: int| 0 <= j < m implies (#[trigger] old(self).authors()[j]).id
                != returned@.id by {
                Self::lemma_position_ids_differ(j, m);
            }
        }
        Ok(returned)
    }

    fn update_author(&mut self, author_id: DBID, screen_name: &str, name: &str) -> (r: Result<
        (),
        StoreError,
    >)
        ensures
            r is Ok,
    {
        let n = self.authors.len();
        let mut i: usize = 0;
        while i < n
            invariant
                0 <= i <= n,
                n == self.authors@.len(),
                *self == *old(self),
                store_inv(old(self).retweets(), old(self).authors()),
                forall|k: int| 0 <= k < i ==> (#[trigger] self.authors()[k]).id != author_id@,
            decreases n - i,
        {
            if self.authors[i].id.0 == author_id.0 {
                proof {
                    use_type_invariant(&*self);
                }
                let mut auths: Vec<TweetAuthor> = Vec::new();
                core::mem::swap(&mut self.authors, &mut auths);
                let found = auths.remove(i);
                let corrected = TweetAuthor {
                    id: found.id,
                    screen_name: screen_name.to_owned(),
                    name: name.to_owned(),
                    twitter_id: found.twitter_id,
                };
                auths.insert(i, corrected);
                proof {
                    assert forall|j: int| 0 <= j < auths@.len() implies (
                    #[trigger] auths@[j]@).id == dec_digits(j as nat) by {
                        if j != i as int {
                            assert(auths@[j] == old(self).authors@[j]);
                        } else {
                            assert(auths@[j]@.id == old(self).authors@[j]@.id);
                        }
                    }
                }
                core::mem::swap(&mut self.authors, &mut auths);
                proof {
                    let k = i as int;
                    let olds = old(self).authors();
                    assert(old(self).authors()[k].id == author_id@);
                    let updated = AuthorView {
                        id: olds[k].id,
                        screen_name: screen_name@,
                        name: name@,
                        twitter_id: olds[k].twitter_id,
                    };
                    assert(self.authors() =~= olds.update(k, updated));
                    assert(author_ref_exists(olds, author_id@));
                    lemma_inv_same_keys(old(self).retweets(), olds, self.authors());
                }
                return Ok(());
            }
            i = i + 1;
        }
        proof {
            if author_ref_exists(self.authors(), author_id@) {
                let k = choose|k: int|
                    0 <= k < self.authors().len() && (#[trigger] self.authors()[k]).id
                        == author_id@;
                assert(false);
            }
        }
        Ok(())
    }
}

/// Replacing author records by records with the same storage identifier
/// and the same platform identifier preserves the storage invariant.
proof fn lemma_inv_same_keys(rts: Seq<RetweetView>, a1: Seq<AuthorView>, a2: Seq<AuthorView>)
    requires
        store_inv(rts, a1),
        a1.len() == a2.len(),
        forall|i: int|
            0 <= i < a1.len() ==> (#[trigger] a2[i]).id == a1[i].id && a2[i].twitter_id
                == a1[i].twitter_id,
    ensures
        store_inv(rts, a2),
{
    assert forall|i: int| 0 <= i < rts.len() implies author_ref_exists(
        a2,
        (#[trigger] rts[i]).author,
    ) by {
        let j = choose|j: int| 0 <= j < a1.len() && (#[trigger] a1[j]).id == rts[i].author;
        assert(a2[j].id == rts[i].author);
    }
}

} // verus!
