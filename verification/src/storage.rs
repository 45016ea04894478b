//! The storage port: the capability set the ingestion workflow needs from a
//! persistence backend, stated as a trait whose contracts speak about the
//! mathematical contents of the two collections, together with the
//! well-formedness invariant those collections must keep — at most one
//! retweet and one author per platform identifier, and every retweet's
//! `author` field referring to a stored author.

use crate::model::{
    AuthorView, DBID, LocalRetweet, LocalTweetAuthor, Retweet, RetweetView, StatusID, TweetAuthor,
    UserID,
};
use vstd::prelude::*;

verus! {

/// Errors a storage backend can report, mirroring the adapter's taxonomy:
/// transport failures, connection setup failures, data-shape failures,
/// absence, uniqueness violations, and update failures.
#[derive(Debug)]
pub enum StoreError {
    Request,
    URLParse,
    ClientCreate,
    Serialize,
    InvalidSerialize(&'static str),
    Deserialize,
    InvalidDeserialize(&'static str),
    NotFound,
    InvalidEntry(&'static str),
    Update,
}

/// The set of platform identifiers of the stored retweets.
pub open spec fn rt_ids(rts: Seq<RetweetView>) -> Set<u64> {
    Set::new(
        |x: u64| exists|i: int| 0 <= i < rts.len() && (#[trigger] rts[i]).twitter_id == x,
    )
}

/// True iff a retweet with the given platform identifier is stored.
pub open spec fn has_retweet(rts: Seq<RetweetView>, sid: u64) -> bool {
    rt_ids(rts).contains(sid)
}

/// The set of platform identifiers of the stored authors.
pub open spec fn author_ids(authors: Seq<AuthorView>) -> Set<u64> {
    Set::new(
        |x: u64| exists|i: int| 0 <= i < authors.len() && (#[trigger] authors[i]).twitter_id
            == x,
    )
}

/// True iff an author with the given platform identifier is stored.
pub open spec fn has_author(authors: Seq<AuthorView>, uid: u64) -> bool {
    author_ids(authors).contains(uid)
}

/// At most one stored retweet per platform identifier.
pub open spec fn retweets_unique(rts: Seq<RetweetView>) -> bool {
    forall|i: int, j: int|
        0 <= i < j < rts.len() ==> (#[trigger] rts[i]).twitter_id != (#[trigger] rts[j]).twitter_id
}

/// At most one stored author per platform identifier.
pub open spec fn authors_unique(authors: Seq<AuthorView>) -> bool {
    forall|i: int, j: int|
        0 <= i < j < authors.len() ==> (#[trigger] authors[i]).twitter_id
            != (#[trigger] authors[j]).twitter_id
}

/// True iff some stored author carries the given storage identifier.
pub open spec fn author_ref_exists(authors: Seq<AuthorView>, id: Seq<char>) -> bool {
    exists|j: int| 0 <= j < authors.len() && (#[trigger] authors[j]).id == id
}

/// Referential integrity: every stored retweet's `author` field is the
/// storage identifier of some stored author.
pub open spec fn refs_ok(rts: Seq<RetweetView>, authors: Seq<AuthorView>) -> bool {
    forall|i: int| 0 <= i < rts.len() ==> author_ref_exists(authors, (#[trigger] rts[i]).author)
}

/// The storage invariant: uniqueness per platform identifier in both
/// collections, and referential integrity from retweets to authors.
pub open spec fn store_inv(rts: Seq<RetweetView>, authors: Seq<AuthorView>) -> bool {
    &&& retweets_unique(rts)
    &&& authors_unique(authors)
    &&& refs_ok(rts, authors)
}

/// The persistence interface the ingestion workflow is written against.
/// The two `spec` functions give the mathematical contents of the retweet
/// and author collections, in insertion order; the contracts of the six
/// operations are stated over them. An operation may fail at any time (a
/// backend may sit behind a network); the contracts say what holds of the
/// answer and of the stored contents when it succeeds.
pub trait Database: Sized {
    /// The stored retweet records, in insertion order.
    spec fn retweets(&self) -> Seq<RetweetView>;

    /// The stored author records, in insertion order.
    spec fn authors(&self) -> Seq<AuthorView>;

    /// Whether a retweet with this platform identifier is already stored.
    fn contains_rt(&self, status_id: StatusID) -> (r: Result<bool, StoreError>)
        requires
            store_inv(self.retweets(), self.authors()),
        ensures
            r matches Ok(b) ==> b == has_retweet(self.retweets(), status_id.0),
    ;

    /// Whether an author with this platform identifier is already stored.
    fn contains_author(&self, user_id: UserID) -> (r: Result<bool, StoreError>)
        requires
            store_inv(self.retweets(), self.authors()),
        ensures
            r matches Ok(b) ==> b == has_author(self.authors(), user_id.0),
    ;

    /// The stored author with this platform identifier; `NotFound` only
    /// when no such author is stored.
    fn get_author(&self, user_id: UserID) -> (r: Result<TweetAuthor, StoreError>)
        requires
            store_inv(self.retweets(), self.authors()),
        ensures
            r matches Ok(a) ==> self.authors().contains(a@) && a@.twitter_id == user_id.0,
            r matches Err(e) ==> (e is NotFound ==> !has_author(self.authors(), user_id.0)),
    ;

    /// Persists a local retweet record; on success the returned record
    /// carries the same fields plus a freshly assigned storage identifier
    /// (one no stored retweet carries), and is appended to the retweet
    /// collection.
    fn save_retweet(&mut self, entry: LocalRetweet) -> (r: Result<Retweet, StoreError>)
        requires
            store_inv(old(self).retweets(), old(self).authors()),
            !has_retweet(old(self).retweets(), entry.twitter_id.0),
            author_ref_exists(old(self).authors(), entry.author@),
        ensures
            r matches Ok(rt) ==> {
                &&& final(self).retweets() == old(self).retweets().push(rt@)
                &&& final(self).authors() == old(self).authors()
                &&& rt@.time == entry.time
                &&& rt@.author == entry.author@
                &&& rt@.twitter_id == entry.twitter_id.0
                &&& (forall|j: int|
                    0 <= j < old(self).retweets().len() ==> (#[trigger] old(
                        self,
                    ).retweets()[j]).id != rt@.id)
                &&& store_inv(final(self).retweets(), final(self).authors())
            },
    ;

    /// Persists a local author record; on success the returned record
    /// carries the same fields plus a freshly assigned storage identifier
    /// (one no stored author carries), and is appended to the author
    /// collection.
    fn save_author(&mut self, entry: LocalTweetAuthor) -> (r: Result<TweetAuthor, StoreError>)
        requires
            store_inv(old(self).retweets(), old(self).authors()),
            !has_author(old(self).authors(), entry.twitter_id.0),
        ensures
            r matches Ok(a) ==> {
                &&& final(self).authors() == old(self).authors().push(a@)
                &&& final(self).retweets() == old(self).retweets()
                &&& a@.screen_name == entry.screen_name@
                &&& a@.name == entry.name@
                &&& a@.twitter_id == entry.twitter_id.0
                &&& (forall|j: int|
                    0 <= j < old(self).authors().len() ==> (#[trigger] old(
                        self,
                    ).authors()[j]).id != a@.id)
                &&& store_inv(final(self).retweets(), final(self).authors())
            },
    ;

    /// Corrects the display fields of the stored author with this storage
    /// identifier; observably a no-op when no author carries it.
    fn update_author(&mut self, author_id: DBID, screen_name: &str, name: &str) -> (r: Result<
        (),
        StoreError,
    >)
        requires
            store_inv(old(self).retweets(), old(self).authors()),
        ensures
            r matches Ok(u) ==> {
                &&& final(self).retweets() == old(self).retweets()
                &&& (if author_ref_exists(old(self).authors(), author_id@) {
                    exists|k: int|
                        0 <= k < old(self).authors().len() && (#[trigger] old(self).authors()[k]).id
                            == author_id@ && final(self).authors() == old(self).authors().update(
                            k,
                            (AuthorView {
                                id: old(self).authors()[k].id,
                                screen_name: screen_name@,
                                name: name@,
                                twitter_id: old(self).authors()[k].twitter_id,
                            }),
                        )
                } else {
                    final(self).authors() == old(self).authors()
                })
                &&& store_inv(final(self).retweets(), final(self).authors())
            },
    ;
}

/// Existence checks read a count of documents matching a platform
/// identifier: zero and one are the two boolean answers, while more than
/// one means the uniqueness invariant is broken outside this system.
pub fn count_to_contains(count: i64, dup_message: &'static str) -> (r: Result<bool, StoreError>)
    ensures
        count == 0 ==> r == Ok::<bool, StoreError>(false),
        count == 1 ==> r == Ok::<bool, StoreError>(true),
        count != 0 && count != 1 ==> r == Err::<bool, StoreError>(
            StoreError::InvalidEntry(dup_message),
        ),
{
    match count {
        0 => Ok(false),
        1 => Ok(true),
        _ => Err(StoreError::InvalidEntry(dup_message)),
    }
}

/// Appending a retweet adds exactly its platform identifier to the stored
/// identifier set.
pub proof fn lemma_rt_ids_push(rts: Seq<RetweetView>, r: RetweetView)
    ensures
        rt_ids(rts.push(r)) == rt_ids(rts).insert(r.twitter_id),
{
    assert forall|x: u64| rt_ids(rts.push(r)).contains(x) implies rt_ids(rts).insert(
        r.twitter_id,
    ).contains(x) by {
        let i = choose|i: int| 0 <= i < rts.push(r).len() && (#[trigger] rts.push(r)[i]).twitter_id
            == x;
        if i < rts.len() {
            assert(rts[i].twitter_id == x);
        }
    }
    assert forall|x: u64| rt_ids(rts).insert(r.twitter_id).contains(x) implies rt_ids(
        rts.push(r),
    ).contains(x) by {
        if x == r.twitter_id {
            assert(rts.push(r)[rts.len() as int].twitter_id == x);
        } else {
            let i = choose|i: int| 0 <= i < rts.len() && (#[trigger] rts[i]).twitter_id == x;
            assert(rts.push(r)[i].twitter_id == x);
        }
    }
    assert(rt_ids(rts.push(r)) =~= rt_ids(rts).insert(r.twitter_id));
}

/// Appending an author adds exactly its platform identifier to the stored
/// identifier set.
pub proof fn lemma_author_ids_push(authors: Seq<AuthorView>, a: AuthorView)
    ensures
        author_ids(authors.push(a)) == author_ids(authors).insert(a.twitter_id),
{
    assert forall|x: u64| author_ids(authors.push(a)).contains(x) implies author_ids(
        authors,
    ).insert(a.twitter_id).contains(x) by {
        let i = choose|i: int|
            0 <= i < authors.push(a).len() && (#[trigger] authors.push(a)[i]).twitter_id == x;
        if i < authors.len() {
            assert(authors[i].twitter_id == x);
        }
    }
    assert forall|x: u64| author_ids(authors).insert(a.twitter_id).contains(x) implies author_ids(
        authors.push(a),
    ).contains(x) by {
        if x == a.twitter_id {
            assert(authors.push(a)[authors.len() as int].twitter_id == x);
        } else {
            let i = choose|i: int| 0 <= i < authors.len() && (#[trigger] authors[i]).twitter_id
                == x;
            assert(authors.push(a)[i].twitter_id == x);
        }
    }
    assert(author_ids(authors.push(a)) =~= author_ids(authors).insert(a.twitter_id));
}

/// Appending a retweet whose platform identifier is new and whose author
/// reference is stored preserves the storage invariant.
pub proof fn lemma_inv_push_retweet(rts: Seq<RetweetView>, authors: Seq<AuthorView>, r: RetweetView)
    requires
        store_inv(rts, authors),
        !has_retweet(rts, r.twitter_id),
        author_ref_exists(authors, r.author),
    ensures
        store_inv(rts.push(r), authors),
{
    assert forall|i: int, j: int| 0 <= i < j < rts.push(r).len() implies (#[trigger] rts.push(
        r,
    )[i]).twitter_id != (#[trigger] rts.push(r)[j]).twitter_id by {
        if j < rts.len() {
        } else {
            assert(rts.push(r)[i] == rts[i]);
            if rts[i].twitter_id == r.twitter_id {
                assert(rt_ids(rts).contains(r.twitter_id));
            }
        }
    }
    assert forall|i: int| 0 <= i < rts.push(r).len() implies author_ref_exists(
        authors,
        (#[trigger] rts.push(r)[i]).author,
    ) by {
        if i < rts.len() {
            assert(rts.push(r)[i] == rts[i]);
        } else {
            assert(rts.push(r)[i] == r);
        }
    }
}

/// Uniqueness: under the storage invariant a platform identifier names at
/// most one stored retweet and at most one stored author.
pub proof fn lemma_platform_ids_unique(
    rts: Seq<RetweetView>,
    authors: Seq<AuthorView>,
    i: int,
    j: int,
)
    requires
        store_inv(rts, authors),
    ensures
        0 <= i < rts.len() && 0 <= j < rts.len() && rts[i].twitter_id == rts[j].twitter_id ==> i
            == j,
        0 <= i < authors.len() && 0 <= j < authors.len() && authors[i].twitter_id
            == authors[j].twitter_id ==> i == j,
{
}

/// Referential integrity: under the storage invariant every stored
/// retweet's `author` field is the storage identifier of a stored author.
pub proof fn lemma_referential_integrity(rts: Seq<RetweetView>, authors: Seq<AuthorView>, i: int)
    requires
        store_inv(rts, authors),
        0 <= i < rts.len(),
    ensures
        exists|j: int| 0 <= j < authors.len() && (#[trigger] authors[j]).id == rts[i].author,
{
    assert(author_ref_exists(authors, rts[i].author));
}

/// Round trip: after an author record is saved into a store that did not
/// yet hold its platform identifier, a stored author fetched by that
/// platform identifier is the saved record — same screen name, display
/// name and platform identifier.
pub proof fn lemma_author_round_trip(
    authors: Seq<AuthorView>,
    saved: AuthorView,
    fetched: AuthorView,
)
    requires
        !has_author(authors, saved.twitter_id),
        authors.push(saved).contains(fetched),
        fetched.twitter_id == saved.twitter_id,
    ensures
        fetched == saved,
{
    let i = choose|i: int|
        0 <= i < authors.push(saved).len() && authors.push(saved)[i] == fetched;
    if i < authors.len() {
        assert(authors[i].twitter_id == saved.twitter_id);
        assert(author_ids(authors).contains(saved.twitter_id));
        assert(false);
    }
}

/// Appending an author whose platform identifier is new preserves the
/// storage invariant.
pub proof fn lemma_inv_push_author(rts: Seq<RetweetView>, authors: Seq<AuthorView>, a: AuthorView)
    requires
        store_inv(rts, authors),
        !has_author(authors, a.twitter_id),
    ensures
        store_inv(rts, authors.push(a)),
{
    assert forall|i: int, j: int| 0 <= i < j < authors.push(a).len() implies (
    #[trigger] authors.push(a)[i]).twitter_id != (#[trigger] authors.push(a)[j]).twitter_id by {
        if j < authors.len() {
        } else {
            assert(authors.push(a)[i] == authors[i]);
            if authors[i].twitter_id == a.twitter_id {
                assert(author_ids(authors).contains(a.twitter_id));
            }
        }
    }
    assert forall|i: int| 0 <= i < rts.len() implies author_ref_exists(
        authors.push(a),
        (#[trigger] rts[i]).author,
    ) by {
        let j = choose|j: int| 0 <= j < authors.len() && (#[trigger] authors[j]).id
            == rts[i].author;
        assert(authors.push(a)[j].id == rts[i].author);
    }
}

} // verus!
