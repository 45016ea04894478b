use noobest_rt::memory::MemoryStore;
use noobest_rt::model::{LocalRetweet, LocalTweetAuthor, StatusID, UserID};
use noobest_rt::storage::{count_to_contains, Database, StoreError};
use noobest_rt::workflow::{ingest_page, OriginalAuthor, TimelineEntry};

fn retweet_entry(id: u64, time: i64, author_id: u64, screen: &str, name: &str) -> TimelineEntry {
    TimelineEntry {
        id,
        created_at: time,
        retweeted_status: Some(OriginalAuthor {
            id: author_id,
            screen_name: String::from(screen),
            name: String::from(name),
        }),
    }
}

fn plain_entry(id: u64, time: i64) -> TimelineEntry {
    TimelineEntry { id, created_at: time, retweeted_status: None }
}

#[test]
fn ordering_cycle_two_retweets_one_new_author() {
    let mut db = MemoryStore::new();
    let page = vec![
        retweet_entry(101, 1000, 7, "alpha", "Alpha"),
        retweet_entry(102, 2000, 7, "alpha", "Alpha"),
    ];
    let counts = ingest_page(&mut db, &page).unwrap();
    assert_eq!(counts.new_retweets, 2);
    assert_eq!(counts.new_authors, 1);
    assert_eq!(db.retweet_count(), 2);
    assert_eq!(db.author_count(), 1);
    let author = db.author_at(0);
    assert_eq!(author.screen_name, "alpha");
    assert_eq!(author.name, "Alpha");
    assert_eq!(author.twitter_id.0, 7);
    let first = db.retweet_at(0);
    let second = db.retweet_at(1);
    assert_eq!(first.twitter_id.0, 101);
    assert_eq!(first.time, 1000);
    assert_eq!(second.twitter_id.0, 102);
    assert_eq!(second.time, 2000);
    assert_eq!(first.author.0, author.id.0);
    assert_eq!(second.author.0, author.id.0);
}

#[test]
fn idempotence_second_run_adds_nothing() {
    let mut db = MemoryStore::new();
    let page = vec![
        retweet_entry(11, 10, 1, "a", "A"),
        plain_entry(12, 20),
        retweet_entry(13, 30, 2, "b", "B"),
    ];
    let first = ingest_page(&mut db, &page).unwrap();
    assert_eq!(first.new_retweets, 2);
    assert_eq!(first.new_authors, 2);
    let second = ingest_page(&mut db, &page).unwrap();
    assert_eq!(second.new_retweets, 0);
    assert_eq!(second.new_authors, 0);
    assert_eq!(db.retweet_count(), 2);
    assert_eq!(db.author_count(), 2);
}

#[test]
fn duplicate_entry_in_storage_is_skipped() {
    let mut db = MemoryStore::new();
    let seed = vec![retweet_entry(500, 1, 9, "seed", "Seed")];
    ingest_page(&mut db, &seed).unwrap();
    let page = vec![retweet_entry(500, 1, 9, "seed", "Seed")];
    let counts = ingest_page(&mut db, &page).unwrap();
    assert_eq!(counts.new_retweets, 0);
    assert_eq!(counts.new_authors, 0);
    assert_eq!(db.retweet_count(), 1);
    assert_eq!(db.author_count(), 1);
}

#[test]
fn duplicate_ids_inside_one_page_stored_once() {
    let mut db = MemoryStore::new();
    let page = vec![
        retweet_entry(42, 5, 3, "c", "C"),
        retweet_entry(42, 5, 3, "c", "C"),
    ];
    let counts = ingest_page(&mut db, &page).unwrap();
    assert_eq!(counts.new_retweets, 1);
    assert_eq!(counts.new_authors, 1);
    assert_eq!(db.retweet_count(), 1);
    assert_eq!(db.author_count(), 1);
}

#[test]
fn empty_page_changes_nothing() {
    let mut db = MemoryStore::new();
    let counts = ingest_page(&mut db, &Vec::new()).unwrap();
    assert_eq!(counts.new_retweets, 0);
    assert_eq!(counts.new_authors, 0);
    assert_eq!(db.retweet_count(), 0);
    assert_eq!(db.author_count(), 0);
}

#[test]
fn uniqueness_and_referential_integrity_after_cycles() {
    let mut db = MemoryStore::new();
    let page1 = vec![
        retweet_entry(1, 1, 10, "x", "X"),
        retweet_entry(2, 2, 11, "y", "Y"),
    ];
    let page2 = vec![
        retweet_entry(2, 2, 11, "y", "Y"),
        retweet_entry(3, 3, 10, "x", "X"),
    ];
    ingest_page(&mut db, &page1).unwrap();
    ingest_page(&mut db, &page2).unwrap();
    let n_rt = db.retweet_count();
    let n_au = db.author_count();
    assert_eq!(n_rt, 3);
    assert_eq!(n_au, 2);
    for i in 0..n_rt {
        for j in 0..n_rt {
            if i != j {
                assert_ne!(db.retweet_at(i).twitter_id.0, db.retweet_at(j).twitter_id.0);
            }
        }
    }
    for i in 0..n_au {
        for j in 0..n_au {
            if i != j {
                assert_ne!(db.author_at(i).twitter_id.0, db.author_at(j).twitter_id.0);
            }
        }
    }
    for i in 0..n_rt {
        let referenced = &db.retweet_at(i).author.0;
        let mut found = false;
        for j in 0..n_au {
            if &db.author_at(j).id.0 == referenced {
                found = true;
            }
        }
        assert!(found);
    }
}

#[test]
fn author_save_and_fetch_round_trip() {
    let mut db = MemoryStore::new();
    let local = LocalTweetAuthor {
        screen_name: String::from("noobest"),
        name: String::from("ぬーべすと"),
        twitter_id: UserID(1122912368021737472),
    };
    let saved = db.save_author(local).unwrap();
    let fetched = db.get_author(UserID(1122912368021737472)).unwrap();
    assert_eq!(fetched.screen_name, "noobest");
    assert_eq!(fetched.name, "ぬーべすと");
    assert_eq!(fetched.twitter_id.0, 1122912368021737472);
    assert_eq!(fetched.id.0, saved.id.0);
}

#[test]
fn retweet_save_round_trip_keeps_fields() {
    let mut db = MemoryStore::new();
    let author = db
        .save_author(LocalTweetAuthor {
            screen_name: String::from("a"),
            name: String::from("A"),
            twitter_id: UserID(u64::MAX),
        })
        .unwrap();
    let saved = db
        .save_retweet(LocalRetweet {
            time: 1234567890,
            author: author.id,
            twitter_id: StatusID(u64::MAX),
        })
        .unwrap();
    assert_eq!(saved.time, 1234567890);
    assert_eq!(saved.twitter_id.0, u64::MAX);
    let stored = db.retweet_at(0);
    assert_eq!(stored.time, 1234567890);
    assert_eq!(stored.twitter_id.0, u64::MAX);
}

#[test]
fn max_identifier_survives_store_and_lookup() {
    let mut db = MemoryStore::new();
    let page = vec![retweet_entry(u64::MAX, 77, u64::MAX - 1, "m", "M")];
    let counts = ingest_page(&mut db, &page).unwrap();
    assert_eq!(counts.new_retweets, 1);
    assert_eq!(db.retweet_at(0).twitter_id.0, u64::MAX);
    assert_eq!(db.author_at(0).twitter_id.0, u64::MAX - 1);
    assert!(db.contains_rt(StatusID(u64::MAX)).unwrap());
    assert!(!db.contains_rt(StatusID(u64::MAX - 1)).unwrap());
}

#[test]
fn existence_checks_and_get_author_errors() {
    let db = MemoryStore::new();
    assert!(!db.contains_rt(StatusID(1)).unwrap());
    assert!(!db.contains_author(UserID(1)).unwrap());
    assert!(matches!(db.get_author(UserID(1)), Err(StoreError::NotFound)));
}

#[test]
fn count_to_contains_maps_counts() {
    assert!(matches!(count_to_contains(0, "dup"), Ok(false)));
    assert!(matches!(count_to_contains(1, "dup"), Ok(true)));
    assert!(matches!(
        count_to_contains(2, "dup"),
        Err(StoreError::InvalidEntry("dup"))
    ));
    assert!(matches!(
        count_to_contains(-3, "dup"),
        Err(StoreError::InvalidEntry("dup"))
    ));
}

#[test]
fn update_author_corrects_display_fields() {
    let mut db = MemoryStore::new();
    let saved = db
        .save_author(LocalTweetAuthor {
            screen_name: String::from("old"),
            name: String::from("Old"),
            twitter_id: UserID(5),
        })
        .unwrap();
    db.update_author(saved.id, "new", "New").unwrap();
    let fetched = db.get_author(UserID(5)).unwrap();
    assert_eq!(fetched.screen_name, "new");
    assert_eq!(fetched.name, "New");
    assert_eq!(fetched.twitter_id.0, 5);
}

#[test]
fn update_author_with_unknown_id_is_noop() {
    let mut db = MemoryStore::new();
    db.save_author(LocalTweetAuthor {
        screen_name: String::from("keep"),
        name: String::from("Keep"),
        twitter_id: UserID(6),
    })
    .unwrap();
    db.update_author(noobest_rt::model::DBID(String::from("no-such-id")), "x", "X").unwrap();
    let fetched = db.get_author(UserID(6)).unwrap();
    assert_eq!(fetched.screen_name, "keep");
    assert_eq!(fetched.name, "Keep");
}

#[test]
fn sleep_computation_reaches_top_of_hour() {
    assert_eq!(noobest_rt::workflow::secs_to_next_hour(59, 59), 1);
    assert_eq!(noobest_rt::workflow::secs_to_next_hour(0, 0), 3600);
    assert_eq!(noobest_rt::workflow::secs_to_next_hour(30, 15), 1785);
    let wait = noobest_rt::workflow::until_next_hour();
    assert!(1 <= wait && wait <= 3600);
}

#[test]
fn assigned_ids_are_fresh() {
    let mut db = MemoryStore::new();
    let a1 = db
        .save_author(LocalTweetAuthor {
            screen_name: String::from("p"),
            name: String::from("P"),
            twitter_id: UserID(1),
        })
        .unwrap();
    let a2 = db
        .save_author(LocalTweetAuthor {
            screen_name: String::from("q"),
            name: String::from("Q"),
            twitter_id: UserID(2),
        })
        .unwrap();
    assert_ne!(a1.id.0, a2.id.0);
    let r1 = db
        .save_retweet(LocalRetweet { time: 1, author: a1.id, twitter_id: StatusID(1) })
        .unwrap();
    let r2 = db
        .save_retweet(LocalRetweet { time: 2, author: a2.id, twitter_id: StatusID(2) })
        .unwrap();
    assert_ne!(r1.id.0, r2.id.0);
}
