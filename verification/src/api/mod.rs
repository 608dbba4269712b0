//! The aggregate of sub-APIs round one shared connection, and the error
//! envelope that every failure is reported in.

pub mod backup;

use std::sync::Arc;
use vstd::prelude::*;
use crate::json::{error_object, frame_error, json_quoted, quote};
use crate::text::{chars_of, string_of};

verus! {

/// The status of a reply.
#[derive(Clone, Copy, Debug, PartialEq, Eq, Structural)]
pub enum Status {
    Success,
    BadRequest,
    InternalServerError,
}

impl Status {
    /// The numeric code of the status.
    pub open spec fn code(self) -> nat {
        match self {
            Status::Success => 200,
            Status::BadRequest => 400,
            Status::InternalServerError => 500,
        }
    }

    /// The numeric code of the status.
    pub fn to_u16(&self) -> (code: u16)
        ensures
            code == self.code(),
    {
        match self {
            Status::Success => 200,
            Status::BadRequest => 400,
            Status::InternalServerError => 500,
        }
    }
}

/// A failure as it is built where it happens: a status and two borrowed
/// messages, one for developers and one for users.
pub struct ErrorResponse<'a> {
    pub status: Status,
    pub developer_message: &'a str,
    pub user_message: &'a str,
}

/// A failure with its messages owned and its status as a number: the form
/// that is encoded.
pub struct RawErrorResponse {
    pub status: u16,
    pub developer_message: String,
    pub user_message: String,
}

impl RawErrorResponse {
    /// The JSON text of the envelope.
    pub open spec fn json(self) -> Seq<char> {
        error_object(
            self.status as nat,
            json_quoted(self.developer_message@),
            json_quoted(self.user_message@),
        )
    }

    /// Encodes the envelope as a JSON object with the members `status`,
    /// `developerMessage` and `userMessage`, in that order.
    pub fn to_json(&self) -> (text: String)
        ensures
            text@ == self.json(),
    {
        let developer = quote(&self.developer_message);
        let user = quote(&self.user_message);
        frame_error(self.status, developer.as_str(), user.as_str())
    }
}

impl<'a> ErrorResponse<'a> {
    /// The JSON text of the envelope.
    pub open spec fn json(self) -> Seq<char> {
        error_object(
            self.status.code(),
            json_quoted(self.developer_message@),
            json_quoted(self.user_message@),
        )
    }

    /// The owned form of this failure: the same status as a number, and the
    /// same two messages.
    pub fn get_raw(&self) -> (raw: RawErrorResponse)
        ensures
            raw.status == self.status.code(),
            raw.developer_message@ == self.developer_message@,
            raw.user_message@ == self.user_message@,
            raw.json() == self.json(),
    {
        RawErrorResponse {
            status: self.status.to_u16(),
            developer_message: self.developer_message.to_owned(),
            user_message: self.user_message.to_owned(),
        }
    }

    /// Encodes the envelope as its owned form is encoded.
    pub fn to_json(&self) -> (text: String)
        ensures
            text@ == self.json(),
    {
        let raw = self.get_raw();
        raw.to_json()
    }
}

/// The deck operations, round the shared connection.
#[derive(Debug)]
pub struct DecksAPI<C> {
    pub db: Arc<C>,
}

/// The card operations, round the shared connection.
#[derive(Debug)]
pub struct CardsAPI<C> {
    pub db: Arc<C>,
}

/// The stash operations, round the shared connection.
#[derive(Debug)]
pub struct StashesAPI<C> {
    pub db: Arc<C>,
}

/// The review operations, round the shared connection.
#[derive(Debug)]
pub struct ReviewAPI<C> {
    pub db: Arc<C>,
}

/// The configuration operations, round the shared connection.
#[derive(Debug)]
pub struct ConfigsAPI<C> {
    pub db: Arc<C>,
}

/// Every sub-API of one database, all of them round the same connection
/// `C`, which guards itself against concurrent use.
#[derive(Debug)]
pub struct GrokDB<C> {
    pub base_db_name: String,
    pub backup_base_dest: Option<String>,
    pub decks: DecksAPI<C>,
    pub cards: CardsAPI<C>,
    pub stashes: StashesAPI<C>,
    pub review: ReviewAPI<C>,
    pub configs: ConfigsAPI<C>,
}

impl<C> GrokDB<C> {
    /// Whether every sub-API holds the connection `connection`.
    pub open spec fn shares(self, connection: C) -> bool {
        &&& *self.decks.db == connection
        &&& *self.cards.db == connection
        &&& *self.stashes.db == connection
        &&& *self.review.db == connection
        &&& *self.configs.db == connection
    }
}

impl<C> Clone for GrokDB<C> {
    /// One more aggregate round the same connection.
    fn clone(&self) -> (copy: Self)
        ensures
            copy.base_db_name@ == self.base_db_name@,
            copy.backup_base_dest == self.backup_base_dest,
            copy.decks.db == self.decks.db,
            copy.cards.db == self.cards.db,
            copy.stashes.db == self.stashes.db,
            copy.review.db == self.review.db,
            copy.configs.db == self.configs.db,
    {
        GrokDB {
            base_db_name: self.base_db_name.clone(),
            backup_base_dest: match &self.backup_base_dest {
                Some(dest) => Some(dest.clone()),
                None => None,
            },
            decks: DecksAPI { db: share(&self.decks.db) },
            cards: CardsAPI { db: share(&self.cards.db) },
            stashes: StashesAPI { db: share(&self.stashes.db) },
            review: ReviewAPI { db: share(&self.review.db) },
            configs: ConfigsAPI { db: share(&self.configs.db) },
        }
    }
}

/// `Arc::clone` gives one more handle to the value that `handle` points to.
#[verifier::external_body]
fn share<C>(handle: &Arc<C>) -> (other: Arc<C>)
    ensures
        other == *handle,
{
    Arc::clone(handle)
}

/// Whether `name` ends in the snapshot extension `.db`, in either case of
/// its letters.
pub open spec fn has_db_extension(name: Seq<char>) -> bool {
    &&& name.len() >= 3
    &&& name[name.len() - 3] == '.'
    &&& (name[name.len() - 2] == 'd' || name[name.len() - 2] == 'D')
    &&& (name[name.len() - 1] == 'b' || name[name.len() - 1] == 'B')
}

/// The base name of the database `name`: `name` without a trailing snapshot
/// extension.
pub open spec fn base_name_of(name: Seq<char>) -> Seq<char> {
    if has_db_extension(name) {
        name.subrange(0, name.len() - 3)
    } else {
        name
    }
}

/// The base name of the database `database_name`.
pub fn base_name(database_name: &str) -> (base: String)
    ensures
        base@ == base_name_of(database_name@),
{
    let mut chars = chars_of(database_name);
    let n = chars.len();
    if n >= 3 && chars[n - 3] == '.' && (chars[n - 2] == 'd' || chars[n - 2] == 'D') && (chars[n
        - 1] == 'b' || chars[n - 1] == 'B') {
        chars.truncate(n - 3);
    }
    string_of(&chars)
}

/// Builds the aggregate for the database `database_name` from what opening
/// it gave. A failure to open is handed on as it is. On success every
/// sub-API gets a handle to the one connection, the base name is derived
/// from the database name, and no backup destination is set.
pub fn new<C, E>(database_name: String, opened: Result<C, E>) -> (built: Result<GrokDB<C>, E>)
    ensures
        match opened {
            Ok(connection) => built matches Ok(api) && api.shares(connection)
                && api.base_db_name@ == base_name_of(database_name@) && api.backup_base_dest
                is None,
            Err(failure) => built == Err::<GrokDB<C>, E>(failure),
        },
{
    let connection = match opened {
        Ok(connection) => connection,
        Err(failure) => {
            return Err(failure);
        },
    };
    let db: Arc<C> = Arc::new(connection);
    let api = GrokDB {
        base_db_name: base_name(database_name.as_str()),
        backup_base_dest: None,
        decks: DecksAPI { db: share(&db) },
        cards: CardsAPI { db: share(&db) },
        stashes: StashesAPI { db: share(&db) },
        review: ReviewAPI { db: share(&db) },
        configs: ConfigsAPI { db },
    };
    Ok(api)
}

} // verus!
