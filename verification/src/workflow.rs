//! The ingestion step: walk one fetched timeline page in order, keep the
//! entries that are retweets, skip the ones already stored, create missing
//! author records, and store one retweet record per new entry. The effect
//! of a whole page is pinned to a fold of a per-entry transition over the
//! page, so that what a cycle adds — and that a repeated cycle adds
//! nothing — is stated and proved once, for every storage backend.

use crate::model::{AuthorView, LocalRetweet, LocalTweetAuthor, RetweetView, StatusID, UserID};
use crate::storage::{
    author_ids, author_ref_exists, lemma_author_ids_push,
    lemma_rt_ids_push, rt_ids, store_inv, Database, StoreError,
};
use chrono::Timelike;
use vstd::prelude::*;

verus! {

/// The original author carried by a timeline entry's nested retweeted
/// status.
pub struct OriginalAuthor {
    pub id: u64,
    pub screen_name: String,
    pub name: String,
}

/// One item of a fetched timeline page: the entry's own platform
/// identifier, its creation time, and, when the entry is a retweet, the
/// original author it reposts.
pub struct TimelineEntry {
    pub id: u64,
    pub created_at: i64,
    pub retweeted_status: Option<OriginalAuthor>,
}

/// Mathematical value of an original author.
pub ghost struct OriginalAuthorView {
    pub id: u64,
    pub screen_name: Seq<char>,
    pub name: Seq<char>,
}

/// Mathematical value of a timeline entry.
pub ghost struct EntryView {
    pub id: u64,
    pub created_at: i64,
    pub retweeted_status: Option<OriginalAuthorView>,
}

impl View for OriginalAuthor {
    type V = OriginalAuthorView;

    open spec fn view(&self) -> OriginalAuthorView {
        OriginalAuthorView { id: self.id, screen_name: self.screen_name@, name: self.name@ }
    }
}

impl View for TimelineEntry {
    type V = EntryView;

    open spec fn view(&self) -> EntryView {
        EntryView {
            id: self.id,
            created_at: self.created_at,
            retweeted_status: match self.retweeted_status {
                Option::None => Option::None,
                Option::Some(a) => Option::Some(a@),
            },
        }
    }
}

/// The views of a page's entries, in timeline order.
pub open spec fn views_of_page(page: Seq<TimelineEntry>) -> Seq<EntryView> {
    page.map_values(|e: TimelineEntry| e@)
}

/// What the ingestion step tracks while walking a page: which platform
/// identifiers are stored, and how many records this cycle added.
pub ghost struct IngestState {
    pub rts: Set<u64>,
    pub auths: Set<u64>,
    pub new_retweets: nat,
    pub new_authors: nat,
}

/// The ingestion state before a page is walked.
pub open spec fn start_state(rts: Seq<RetweetView>, authors: Seq<AuthorView>) -> IngestState {
    IngestState {
        rts: rt_ids(rts),
        auths: author_ids(authors),
        new_retweets: 0,
        new_authors: 0,
    }
}

/// Effect of one timeline entry: entries that are not retweets, and
/// retweets already stored, change nothing; a new retweet is stored, and
/// its author first when not yet known.
pub open spec fn ingest_step(s: IngestState, e: EntryView) -> IngestState {
    match e.retweeted_status {
        Option::None => s,
        Option::Some(a) => {
            if s.rts.contains(e.id) {
                s
            } else {
                let s1 = if s.auths.contains(a.id) {
                    s
                } else {
                    IngestState {
                        rts: s.rts,
                        auths: s.auths.insert(a.id),
                        new_retweets: s.new_retweets,
                        new_authors: s.new_authors + 1,
                    }
                };
                IngestState {
                    rts: s1.rts.insert(e.id),
                    auths: s1.auths,
                    new_retweets: s1.new_retweets + 1,
                    new_authors: s1.new_authors,
                }
            }
        },
    }
}

/// Effect of a whole page, entry by entry in timeline order.
pub open spec fn ingest_fold(s: IngestState, page: Seq<EntryView>) -> IngestState
    decreases page.len(),
{
    if page.len() == 0 {
        s
    } else {
        ingest_step(ingest_fold(s, page.drop_last()), page.last())
    }
}

/// True when a stored retweet record carries a timeline entry's platform
/// identifier and creation time, and its `author` field is the storage
/// identifier of a stored author record for the entry's original author.
pub open spec fn entry_makes_retweet(
    e: EntryView,
    r: RetweetView,
    authors: Seq<AuthorView>,
) -> bool {
    match e.retweeted_status {
        Option::None => false,
        Option::Some(oa) => {
            &&& r.twitter_id == e.id
            &&& r.time == e.created_at
            &&& exists|j: int|
                0 <= j < authors.len() && (#[trigger] authors[j]).id == r.author && authors[
                    j
                ].twitter_id == oa.id
        },
    }
}

/// True when a stored author record carries the original author fields of
/// a timeline entry's retweeted status.
pub open spec fn entry_makes_author(e: EntryView, a: AuthorView) -> bool {
    match e.retweeted_status {
        Option::None => false,
        Option::Some(oa) => {
            &&& a.twitter_id == oa.id
            &&& a.screen_name == oa.screen_name
            &&& a.name == oa.name
        },
    }
}

/// The platform identifiers of a sequence of retweet records, in order.
pub open spec fn twitter_ids_of(rts: Seq<RetweetView>) -> Seq<u64> {
    rts.map_values(|r: RetweetView| r.twitter_id)
}

/// The platform identifiers of the retweet records a page appends, in the
/// order they are stored: page order, keeping only entries that are
/// retweets and not yet stored when their turn comes.
pub open spec fn rt_id_trace(s: IngestState, page: Seq<EntryView>) -> Seq<u64>
    decreases page.len(),
{
    if page.len() == 0 {
        Seq::empty()
    } else {
        let pre = rt_id_trace(s, page.drop_last());
        let t = ingest_fold(s, page.drop_last());
        let e = page.last();
        if e.retweeted_status is Some && !t.rts.contains(e.id) {
            pre.push(e.id)
        } else {
            pre
        }
    }
}

/// What one cycle reports: how many retweet and author records it added.
pub struct CycleCounts {
    pub new_retweets: usize,
    pub new_authors: usize,
}

/// A page never removes stored identifiers, and after it is walked every
/// retweet entry of the page is stored.
pub proof fn lemma_ingest_covers(s: IngestState, page: Seq<EntryView>)
    ensures
        s.rts.subset_of(ingest_fold(s, page).rts),
        s.auths.subset_of(ingest_fold(s, page).auths),
        forall|i: int|
            0 <= i < page.len() && (#[trigger] page[i]).retweeted_status is Some ==> ingest_fold(
                s,
                page,
            ).rts.contains(page[i].id),
    decreases page.len(),
{
    if page.len() == 0 {
    } else {
        let dl = page.drop_last();
        lemma_ingest_covers(s, dl);
        let t = ingest_fold(s, dl);
        let e = page.last();
        assert forall|i: int|
            0 <= i < page.len() && (#[trigger] page[i]).retweeted_status is Some implies ingest_fold(
            s,
            page,
        ).rts.contains(page[i].id) by {
            if i < page.len() - 1 {
                assert(page[i] == dl[i]);
                assert(t.rts.contains(page[i].id));
            } else {
                assert(page[i] == e);
            }
        }
    }
}

/// Idempotence: walking a page whose retweet entries are all already
/// stored changes nothing and counts nothing.
pub proof fn lemma_ingest_idempotent(s: IngestState, page: Seq<EntryView>)
    requires
        forall|i: int|
            0 <= i < page.len() && (#[trigger] page[i]).retweeted_status is Some ==> s.rts.contains(
                page[i].id,
            ),
    ensures
        ingest_fold(s, page) == s,
    decreases page.len(),
{
    if page.len() == 0 {
    } else {
        let dl = page.drop_last();
        assert(forall|i: int|
            0 <= i < dl.len() && (#[trigger] dl[i]).retweeted_status is Some ==> s.rts.contains(
                dl[i].id,
            )) by {
            assert(forall|i: int| 0 <= i < dl.len() ==> dl[i] == page[i]);
        }
        lemma_ingest_idempotent(s, dl);
        assert(page.last() == page[page.len() - 1]);
    }
}

/// Idempotence of a whole cycle: folding the same page a second time over
/// the state the first fold produced changes nothing.
pub proof fn lemma_ingest_twice(s: IngestState, page: Seq<EntryView>)
    ensures
        ingest_fold(ingest_fold(s, page), page) == ingest_fold(s, page),
{
    lemma_ingest_covers(s, page);
    lemma_ingest_idempotent(ingest_fold(s, page), page);
}

/// Walks one fetched timeline page against a storage backend, in timeline
/// order. On success the stored identifier sets and the two counters are
/// exactly what the page fold yields from the starting contents; when
/// nothing was new, the backend is untouched. A storage failure aborts the
/// walk and is handed back.
pub fn ingest_page<D: Database>(db: &mut D, page: &Vec<TimelineEntry>) -> (r: Result<
    CycleCounts,
    StoreError,
>)
    requires
        store_inv(old(db).retweets(), old(db).authors()),
    ensures
        (forall|i: int|
            0 <= i < page@.len() ==> !((#[trigger] views_of_page(page@)[i]).retweeted_status
                is Some)) ==> r is Ok,
        r matches Ok(c) ==> ({
            let s1 = ingest_fold(
                start_state(old(db).retweets(), old(db).authors()),
                views_of_page(page@),
            );
            &&& store_inv(final(db).retweets(), final(db).authors())
            &&& rt_ids(final(db).retweets()) == s1.rts
            &&& author_ids(final(db).authors()) == s1.auths
            &&& c.new_retweets == s1.new_retweets
            &&& c.new_authors == s1.new_authors
            &&& (s1.new_retweets == 0 ==> *final(db) == *old(db))
            &&& old(db).retweets().is_prefix_of(final(db).retweets())
            &&& old(db).authors().is_prefix_of(final(db).authors())
            &&& twitter_ids_of(final(db).retweets().skip(old(db).retweets().len() as int))
                == rt_id_trace(
                start_state(old(db).retweets(), old(db).authors()),
                views_of_page(page@),
            )
            &&& (forall|k: int|
                old(db).retweets().len() <= k < final(db).retweets().len() ==> exists|i: int|
                    0 <= i < views_of_page(page@).len() && entry_makes_retweet(
                        views_of_page(page@)[i],
                        #[trigger] final(db).retweets()[k],
                        final(db).authors(),
                    ))
            &&& (forall|k: int|
                old(db).authors().len() <= k < final(db).authors().len() ==> exists|i: int|
                    0 <= i < views_of_page(page@).len() && entry_makes_author(
                        views_of_page(page@)[i],
                        #[trigger] final(db).authors()[k],
                    ))
        }),
{
    let ghost s0 = start_state(old(db).retweets(), old(db).authors());
    let ghost pv = views_of_page(page@);
    let mut new_retweet_count: usize = 0;
    let mut new_author_count: usize = 0;
    let n = page.len();
    let mut idx: usize = 0;
    proof {
        assert(pv.take(0) =~= Seq::<EntryView>::empty());
        assert(old(db).retweets().skip(old(db).retweets().len() as int) =~= Seq::<
            RetweetView,
        >::empty());
        assert(twitter_ids_of(Seq::<RetweetView>::empty()) =~= Seq::<u64>::empty());
    }
    while idx < n
        invariant
            idx <= n,
            n == page@.len(),
            pv == views_of_page(page@),
            pv.len() == n,
            s0 == start_state(old(db).retweets(), old(db).authors()),
            store_inv(db.retweets(), db.authors()),
            rt_ids(db.retweets()) == ingest_fold(s0, pv.take(idx as int)).rts,
            author_ids(db.authors()) == ingest_fold(s0, pv.take(idx as int)).auths,
            new_retweet_count == ingest_fold(s0, pv.take(idx as int)).new_retweets,
            new_author_count == ingest_fold(s0, pv.take(idx as int)).new_authors,
            ingest_fold(s0, pv.take(idx as int)).new_retweets == 0 ==> *db == *old(db),
            new_retweet_count <= idx,
            new_author_count <= idx,
            old(db).retweets().is_prefix_of(db.retweets()),
            old(db).authors().is_prefix_of(db.authors()),
            twitter_ids_of(db.retweets().skip(old(db).retweets().len() as int)) == rt_id_trace(
                s0,
                pv.take(idx as int),
            ),
            forall|k: int|
                old(db).retweets().len() <= k < db.retweets().len() ==> exists|i: int|
                    0 <= i < pv.len() && entry_makes_retweet(
                        pv[i],
                        #[trigger] db.retweets()[k],
                        db.authors(),
                    ),
            forall|k: int|
                old(db).authors().len() <= k < db.authors().len() ==> exists|i: int|
                    0 <= i < pv.len() && entry_makes_author(
                        pv[i],
                        #[trigger] db.authors()[k],
                    ),
        decreases n - idx,
    {
        let ghost si = ingest_fold(s0, pv.take(idx as int));
        proof {
            assert(pv.take(idx as int + 1).drop_last() =~= pv.take(idx as int));
            assert(pv.take(idx as int + 1).last() == pv[idx as int]);
            assert(pv[idx as int] == page@[idx as int]@);
        }
        let entry = &page[idx];
        let ghost e = pv[idx as int];
        match &entry.retweeted_status {
            None => {
                proof {
                    assert(e.retweeted_status is None);
                    assert(ingest_fold(s0, pv.take(idx as int + 1)) == si);
                    assert(rt_id_trace(s0, pv.take(idx as int + 1)) == rt_id_trace(
                        s0,
                        pv.take(idx as int),
                    ));
                }
            },
            Some(author_info) => {
                proof {
                    assert(e.retweeted_status == Some(author_info@));
                }
                let already = match db.contains_rt(StatusID(entry.id)) {
                    Ok(b) => b,
                    Err(err) => {
                        return Err(err);
                    },
                };
                if already {
                    proof {
                        assert(si.rts.contains(e.id));
                        assert(ingest_fold(s0, pv.take(idx as int + 1)) == si);
                        assert(rt_id_trace(s0, pv.take(idx as int + 1)) == rt_id_trace(
                            s0,
                            pv.take(idx as int),
                        ));
                    }
                } else {
                    let known = match db.contains_author(UserID(author_info.id)) {
                        Ok(b) => b,
                        Err(err) => {
                            return Err(err);
                        },
                    };
                    if !known {
                        let local = LocalTweetAuthor {
                            screen_name: author_info.screen_name.clone(),
                            name: author_info.name.clone(),
                            twitter_id: UserID(author_info.id),
                        };
                        let ghost before = db.authors();
                        let saved = match db.save_author(local) {
                            Ok(a) => a,
                            Err(err) => {
                                return Err(err);
                            },
                        };
                        proof {
                            lemma_author_ids_push(before, saved@);
                            assert(entry_makes_author(e, saved@));
                            assert forall|k: int|
                                old(db).retweets().len() <= k < db.retweets().len() implies exists|
                                i: int,
                            |
                                0 <= i < pv.len() && entry_makes_retweet(
                                    pv[i],
                                    #[trigger] db.retweets()[k],
                                    db.authors(),
                                ) by {
                                let i = choose|i: int|
                                    0 <= i < pv.len() && entry_makes_retweet(
                                        pv[i],
                                        db.retweets()[k],
                                        before,
                                    );
                                let oa = pv[i].retweeted_status->Some_0;
                                let j = choose|j: int|
                                    0 <= j < before.len() && (#[trigger] before[j]).id
                                        == db.retweets()[k].author && before[j].twitter_id == oa.id;
                                assert(db.authors()[j] == before[j]);
                                assert(entry_makes_retweet(pv[i], db.retweets()[k], db.authors()));
                            }
                            assert forall|k: int|
                                old(db).authors().len() <= k < db.authors().len() implies exists|
                                i: int,
                            |
                                0 <= i < pv.len() && entry_makes_author(
                                    pv[i],
                                    #[trigger] db.authors()[k],
                                ) by {
                                if k < db.authors().len() - 1 {
                                    assert(db.authors()[k] == before[k]);
                                } else {
                                    assert(db.authors()[k] == saved@);
                                    assert(entry_makes_author(pv[idx as int], db.authors()[k]));
                                }
                            }
                        }
                        new_author_count = new_author_count + 1;
                    }
                    let db_author = match db.get_author(UserID(author_info.id)) {
                        Ok(a) => a,
                        Err(err) => {
                            return Err(err);
                        },
                    };
                    proof {
                        let auths = db.authors();
                        let j = choose|j: int| 0 <= j < auths.len() && auths[j] == db_author@;
                        assert(auths[j].id == db_author.id@);
                        assert(author_ref_exists(auths, db_author.id@));
                    }
                    let local_rt = LocalRetweet {
                        time: entry.created_at,
                        author: db_author.id,
                        twitter_id: StatusID(entry.id),
                    };
                    let ghost before_rts = db.retweets();
                    let saved_rt = match db.save_retweet(local_rt) {
                        Ok(x) => x,
                        Err(err) => {
                            return Err(err);
                        },
                    };
                    proof {
                        lemma_rt_ids_push(before_rts, saved_rt@);
                        assert(rt_ids(db.retweets()) == ingest_fold(
                            s0,
                            pv.take(idx as int + 1),
                        ).rts);
                        let m = old(db).retweets().len() as int;
                        assert(db.retweets().skip(m) =~= before_rts.skip(m).push(saved_rt@));
                        assert(twitter_ids_of(db.retweets().skip(m)) =~= twitter_ids_of(
                            before_rts.skip(m),
                        ).push(saved_rt@.twitter_id));
                        assert(!si.rts.contains(e.id));
                        assert(rt_id_trace(s0, pv.take(idx as int + 1)) == rt_id_trace(
                            s0,
                            pv.take(idx as int),
                        ).push(e.id));
                        let auths = db.authors();
                        let j = choose|j: int|
                            0 <= j < auths.len() && auths[j] == db_author@;
                        assert(auths[j].id == saved_rt@.author && auths[j].twitter_id
                            == e.retweeted_status->Some_0.id);
                        assert(entry_makes_retweet(e, saved_rt@, auths));
                        assert forall|k: int|
                            old(db).retweets().len() <= k < db.retweets().len() implies exists|
                            i: int,
                        |
                            0 <= i < pv.len() && entry_makes_retweet(
                                pv[i],
                                #[trigger] db.retweets()[k],
                                db.authors(),
                            ) by {
                            if k < db.retweets().len() - 1 {
                                assert(db.retweets()[k] == before_rts[k]);
                            } else {
                                assert(db.retweets()[k] == saved_rt@);
                                assert(entry_makes_retweet(
                                    pv[idx as int],
                                    db.retweets()[k],
                                    db.authors(),
                                ));
                            }
                        }
                    }
                    new_retweet_count = new_retweet_count + 1;
                }
            },
        }
        idx = idx + 1;
    }
    proof {
        assert(pv.take(n as int) =~= pv);
    }
    Ok(CycleCounts { new_retweets: new_retweet_count, new_authors: new_author_count })
}

/// Relies on chrono: `Local::now` read through the `Timelike` accessors,
/// whose minute and second values are below sixty. (`Local::now` itself
/// dies on a machine whose clock is set before the Unix epoch; the call
/// takes no input that could exclude such a machine state.)
#[verifier::external_body]
fn local_minute_second() -> (r: (u32, u32))
    ensures
        r.0 < 60,
        r.1 < 60,
{
    let now = chrono::Local::now();
    (now.minute(), now.second())
}

/// Seconds from a clock reading to the top of the next hour.
pub fn secs_to_next_hour(minute: u32, second: u32) -> (r: u64)
    requires
        minute < 60,
        second < 60,
    ensures
        r == 3600 - 60 * minute - second,
        1 <= r <= 3600,
{
    3600 - 60 * (minute as u64) - (second as u64)
}

/// How long to sleep until the top of the next clock hour, in seconds.
pub fn until_next_hour() -> (r: u64)
    ensures
        1 <= r <= 3600,
{
    let reading = local_minute_second();
    secs_to_next_hour(reading.0, reading.1)
}

} // verus!
