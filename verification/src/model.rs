//! Domain records: platform identifiers, storage identifiers, authors and
//! retweets, both in their persisted form (carrying a `DBID`) and in their
//! local form (not yet persisted). Times are Unix timestamps in seconds.

use vstd::prelude::*;

verus! {

/// Identifies an author on the social platform. Assigned by the platform,
/// never generated locally.
#[derive(Clone, Copy)]
pub struct UserID(pub u64);

/// Identifies a retweet event on the social platform.
#[derive(Clone, Copy)]
pub struct StatusID(pub u64);

/// Identifies a stored document inside the persistence layer; assigned by
/// the storage engine on insert and opaque to everything else.
pub struct DBID(pub String);

impl View for DBID {
    type V = Seq<char>;

    open spec fn view(&self) -> Seq<char> {
        self.0@
    }
}

/// A retweet's original author as stored.
pub struct TweetAuthor {
    pub id: DBID,
    pub screen_name: String,
    pub name: String,
    pub twitter_id: UserID,
}

/// An author record not yet persisted: it has no `DBID`.
pub struct LocalTweetAuthor {
    pub screen_name: String,
    pub name: String,
    pub twitter_id: UserID,
}

/// A recorded retweet as stored. `author` is a foreign key: the `DBID` of a
/// stored `TweetAuthor`.
pub struct Retweet {
    pub id: DBID,
    pub time: i64,
    pub author: DBID,
    pub twitter_id: StatusID,
}

/// A retweet record not yet persisted: it has no `DBID`.
pub struct LocalRetweet {
    pub time: i64,
    pub author: DBID,
    pub twitter_id: StatusID,
}

/// Mathematical value of a stored author record.
pub ghost struct AuthorView {
    pub id: Seq<char>,
    pub screen_name: Seq<char>,
    pub name: Seq<char>,
    pub twitter_id: u64,
}

/// Mathematical value of a stored retweet record.
pub ghost struct RetweetView {
    pub id: Seq<char>,
    pub time: i64,
    pub author: Seq<char>,
    pub twitter_id: u64,
}

impl View for TweetAuthor {
    type V = AuthorView;

    open spec fn view(&self) -> AuthorView {
        AuthorView {
            id: self.id@,
            screen_name: self.screen_name@,
            name: self.name@,
            twitter_id: self.twitter_id.0,
        }
    }
}

impl View for Retweet {
    type V = RetweetView;

    open spec fn view(&self) -> RetweetView {
        RetweetView {
            id: self.id@,
            time: self.time,
            author: self.author@,
            twitter_id: self.twitter_id.0,
        }
    }
}

} // verus!
