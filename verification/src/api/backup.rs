//! The backup operation: from an optional request to a destination path,
//! and from what the engine reported to a reply.

use vstd::prelude::*;
use crate::api::{ErrorResponse, RawErrorResponse, Status};
use crate::clock::{epoch_seconds, format_utc, stamp_format, utc_formatted};
use crate::json::{backup_object, error_object, frame_backup, json_quoted, quote};
use crate::path::{
    ends_with, file_name, is_named, is_normalized, is_plain, is_storable, lemma_ends_with_chain,
    lemma_file_name_ends, lemma_file_name_kept, lemma_file_name_of_joined,
    lemma_normalized_idempotent, lemma_segments_append_plain, lemma_segments_shape, normalize_chars,
    normalized, segments, starts_with,
};
use crate::text::{chars_of, holds, string_of, text_of};

verus! {

/// Why a request resolves to no path.
#[derive(Clone, Copy, Debug, PartialEq, Eq, Structural)]
pub enum PathError {
    /// A fragment of the path holds a character that no path can hold, or
    /// the timestamp that the request asks for cannot be written.
    InvalidPath,
}

/// What a client may say about the backup it asks for. Each field may be
/// left out.
#[derive(Clone, Debug)]
pub struct BackupRequest {
    pub name: Option<String>,
    pub dest_path: Option<String>,
    pub with_timestamp: Option<bool>,
}

/// A backup request as a value of specifications.
pub struct RequestModel {
    pub name: Option<Seq<char>>,
    pub dest_path: Option<Seq<char>>,
    pub with_timestamp: Option<bool>,
}

/// The extension of every snapshot file.
pub open spec fn extension() -> Seq<char> {
    seq!['.', 'd', 'b']
}

/// The directory that a request without a destination is written to.
pub open spec fn current_dir() -> Seq<char> {
    seq!['.', '/']
}

impl RequestModel {
    /// Whether the file name gets a timestamp: as the request says, and by
    /// default it does.
    pub open spec fn stamped(self) -> bool {
        match self.with_timestamp {
            Some(wanted) => wanted,
            None => true,
        }
    }

    /// The name of the backup: the one of the request unless it is missing
    /// or empty, else `default_name`.
    pub open spec fn chosen_name(self, default_name: Seq<char>) -> Seq<char> {
        match self.name {
            Some(name) => if name.len() > 0 {
                name
            } else {
                default_name
            },
            None => default_name,
        }
    }

    /// The directory of the backup: the one of the request, else the
    /// current directory.
    pub open spec fn chosen_dest(self) -> Seq<char> {
        match self.dest_path {
            Some(dest) => dest,
            None => current_dir(),
        }
    }

    /// The file of the backup: the name, then a dash and the timestamp
    /// token if the request is stamped, then the extension.
    pub open spec fn file(self, default_name: Seq<char>, token: Option<Seq<char>>) -> Seq<char> {
        if self.stamped() && token is Some {
            self.chosen_name(default_name) + seq!['-'] + token->0 + extension()
        } else {
            self.chosen_name(default_name) + extension()
        }
    }

    /// The directory and the file with a separator between them, before
    /// normalisation.
    pub open spec fn joined_path(self, default_name: Seq<char>, token: Option<Seq<char>>) -> Seq<
        char,
    > {
        self.chosen_dest() + seq!['/'] + self.file(default_name, token)
    }

    /// Whether a path can hold the directory and the name of the backup.
    pub open spec fn storable(self, default_name: Seq<char>) -> bool {
        is_storable(self.chosen_dest()) && is_storable(self.chosen_name(default_name))
    }

    /// Whether the request has a path: its directory and name are storable
    /// and, if it is stamped, there is a token that is storable and holds
    /// no separator.
    pub open spec fn resolvable(self, default_name: Seq<char>, token: Option<Seq<char>>) -> bool {
        &&& self.storable(default_name)
        &&& self.stamped() ==> token is Some && is_storable(token->0) && is_plain(token->0)
    }

    /// The path of the backup, where `token` is the timestamp token that the
    /// clock gave, if it gave one. A request that is not stamped ignores it.
    pub open spec fn resolved(self, default_name: Seq<char>, token: Option<Seq<char>>) -> Result<
        Seq<char>,
        PathError,
    > {
        if self.resolvable(default_name, token) {
            Ok(normalized(self.joined_path(default_name, token)))
        } else {
            Err(PathError::InvalidPath)
        }
    }
}

/// A resolution with its path as a sequence of characters.
pub open spec fn path_of(resolution: Result<String, PathError>) -> Result<Seq<char>, PathError> {
    match resolution {
        Ok(path) => Ok(path@),
        Err(error) => Err(error),
    }
}

impl View for BackupRequest {
    type V = RequestModel;

    open spec fn view(&self) -> RequestModel {
        RequestModel {
            name: text_of(self.name),
            dest_path: text_of(self.dest_path),
            with_timestamp: self.with_timestamp,
        }
    }
}

impl BackupRequest {
    /// A request with the given fields.
    pub fn new(name: Option<String>, dest_path: Option<String>, with_timestamp: Option<bool>) -> (request:
        BackupRequest)
        ensures
            request.name == name,
            request.dest_path == dest_path,
            request.with_timestamp == with_timestamp,
    {
        BackupRequest { name, dest_path, with_timestamp }
    }

    /// Whether the file name gets a timestamp.
    pub fn with_timestamp(&self) -> (wanted: bool)
        ensures
            wanted == self@.stamped(),
    {
        match self.with_timestamp {
            Some(wanted) => wanted,
            None => true,
        }
    }

    /// The name of the backup.
    pub fn get_name(&self, default_name: &String) -> (name: String)
        ensures
            name@ == self@.chosen_name(default_name@),
    {
        match &self.name {
            Some(name) => {
                if name.as_str().is_empty() {
                    default_name.clone()
                } else {
                    name.clone()
                }
            },
            None => default_name.clone(),
        }
    }

    /// The directory of the backup.
    pub fn get_dest(&self) -> (dest: String)
        ensures
            dest@ == self@.chosen_dest(),
    {
        match &self.dest_path {
            Some(dest) => dest.clone(),
            None => {
                let mut here: Vec<char> = Vec::new();
                here.push('.');
                here.push('/');
                string_of(&here)
            },
        }
    }

    /// The path of the backup, given the timestamp token that the clock
    /// gave, if any. Fails exactly when the request is not resolvable.
    pub fn resolve(&self, default_name: &String, token: &Option<String>) -> (resolution: Result<
        String,
        PathError,
    >)
        ensures
            path_of(resolution) == self@.resolved(default_name@, text_of(*token)),
            resolution matches Ok(path) ==> is_normalized(path@) && ends_with(path@, extension()),
    {
        let dest = self.get_dest();
        let name = self.get_name(default_name);
        let mut path = chars_of(dest.as_str());
        let mut name_chars = chars_of(name.as_str());
        if holds(&path, '\0') || holds(&name_chars, '\0') {
            return Err(PathError::InvalidPath);
        }
        path.push('/');
        path.append(&mut name_chars);
        if self.with_timestamp() {
            match token {
                Some(token) => {
                    let mut token_chars = chars_of(token.as_str());
                    proof {
                        lemma_plain_has_no_separator(token@);
                    }
                    if holds(&token_chars, '\0') || holds(&token_chars, '/') {
                        return Err(PathError::InvalidPath);
                    }
                    path.push('-');
                    path.append(&mut token_chars);
                },
                None => {
                    return Err(PathError::InvalidPath);
                },
            }
        }
        path.push('.');
        path.push('d');
        path.push('b');
        proof {
            assert(path@ =~= self@.joined_path(default_name@, text_of(*token)));
            lemma_resolved_shape(self@, default_name@, text_of(*token));
        }
        let normal = normalize_chars(&path);
        Ok(string_of(&normal))
    }

    /// The path of the backup, were the clock to show `seconds` seconds
    /// after the Unix epoch. There is one exactly when the directory and
    /// the name are storable and, for a stamped request, the moment has a
    /// date.
    pub fn get_path_at(&self, default_name: &String, seconds: i64) -> (resolution: Result<
        String,
        PathError,
    >)
        ensures
            path_of(resolution) == self@.resolved(
                default_name@,
                utc_formatted(seconds, stamp_format()),
            ),
            resolution is Ok <==> self@.storable(default_name@) && (self@.stamped()
                ==> utc_formatted(seconds, stamp_format()) is Some),
            resolution matches Ok(path) ==> is_normalized(path@) && ends_with(path@, extension()),
    {
        let token = if self.with_timestamp() {
            format_utc(seconds, "%a-%b-%e--%H-%M-%S-%Y")
        } else {
            None
        };
        self.resolve(default_name, &token)
    }

    /// The path of the backup at the moment of the call. The clock is read
    /// only for a stamped request; the path of any other is fixed by the
    /// request and the default name alone. Where the clock stands before
    /// the epoch, a stamped request is resolved as without a token, and so
    /// has no path.
    pub fn get_path(&self, default_name: &String) -> (resolution: Result<String, PathError>)
        ensures
            path_of(resolution) == self@.resolved(default_name@, None) || exists|seconds: i64|
                0 <= seconds && path_of(resolution) == self@.resolved(
                    default_name@,
                    #[trigger] utc_formatted(seconds, stamp_format()),
                ),
            !self@.stamped() ==> path_of(resolution) == self@.resolved(default_name@, None),
            !self@.stamped() && self@.storable(default_name@) ==> resolution is Ok,
            !self@.storable(default_name@) ==> resolution is Err,
            resolution matches Ok(path) ==> is_normalized(path@) && ends_with(path@, extension()),
    {
        if self.with_timestamp() {
            match epoch_seconds() {
                Some(seconds) => self.get_path_at(default_name, seconds),
                None => self.resolve(default_name, &None),
            }
        } else {
            self.resolve(default_name, &None)
        }
    }
}

/// A sequence is plain exactly when it does not contain the separator.
pub proof fn lemma_plain_has_no_separator(fragment: Seq<char>)
    ensures
        is_plain(fragment) == !fragment.contains('/'),
{
    if !fragment.contains('/') {
        assert forall|i: int| 0 <= i < fragment.len() implies fragment[i] != '/' by {
            if fragment[i] == '/' {
                assert(fragment.contains('/'));
            }
        }
    }
}

/// Every path that a request resolves to is in normal form and ends with
/// the snapshot extension.
pub proof fn lemma_resolved_shape(
    request: RequestModel,
    default_name: Seq<char>,
    token: Option<Seq<char>>,
)
    ensures
        request.resolved(default_name, token) matches Ok(path) ==> is_normalized(path)
            && ends_with(path, extension()),
{
    if request.resolvable(default_name, token) {
        let joined = request.joined_path(default_name, token);
        let stem = if request.stamped() && token is Some {
            request.chosen_dest() + seq!['/'] + request.chosen_name(default_name) + seq!['-']
                + token->0
        } else {
            request.chosen_dest() + seq!['/'] + request.chosen_name(default_name)
        };
        assert(joined =~= stem + extension());
        assert(is_plain(extension()));
        lemma_file_name_ends(stem, extension());
        let file = file_name(joined);
        assert(file.len() >= 3);
        assert(is_named(file));
        lemma_file_name_kept(joined);
        lemma_ends_with_chain(normalized(joined), file, extension());
        lemma_normalized_idempotent(joined);
    }
}

/// What a completed backup reports: the path that was written.
#[derive(Debug)]
pub struct BackupResponse {
    pub dest_file: String,
}

impl BackupResponse {
    /// The JSON text of the response.
    pub open spec fn json(self) -> Seq<char> {
        backup_object(json_quoted(self.dest_file@))
    }

    /// Encodes the response as a JSON object with the one member
    /// `dest_file`.
    pub fn to_json(&self) -> (text: String)
        ensures
            text@ == self.json(),
    {
        let quoted = quote(&self.dest_file);
        frame_backup(quoted.as_str())
    }
}

/// What reading the body of a request gave.
pub enum BodyOutcome {
    /// The request had no body.
    Absent,
    /// The body was a well-formed backup request.
    Parsed(BackupRequest),
    /// The body could not be read as a backup request. `detail` is the
    /// parser's diagnostic, `description` its short cause.
    Malformed { detail: String, description: String },
}

/// What the engine reported of a snapshot.
pub enum EngineOutcome {
    /// The snapshot was written.
    Completed,
    /// The engine failed. `detail` is its diagnostic.
    Failed { detail: String },
}

/// What is sent back to the client.
pub struct Reply {
    pub status: Status,
    pub body: String,
}

/// What is to be done once the body of a request has been read.
pub enum Step {
    /// Take the connection for exclusive use, write a snapshot of the main
    /// database to `dest_path`, release the connection however that went,
    /// and report what the engine said.
    Snapshot { dest_path: String },
    /// Send the reply. Neither the connection nor any file is touched.
    Respond(Reply),
}

/// A step as a value of specifications.
pub enum StepModel {
    Snapshot { dest_path: Seq<char> },
    Respond { status: Status, body: Seq<char> },
}

impl View for Step {
    type V = StepModel;

    open spec fn view(&self) -> StepModel {
        match *self {
            Step::Snapshot { dest_path } => StepModel::Snapshot { dest_path: dest_path@ },
            Step::Respond(reply) => StepModel::Respond { status: reply.status, body: reply.body@ },
        }
    }
}

/// The request that stands for a missing body: the database's own name,
/// the current directory, and a timestamp.
pub open spec fn default_request(base_db_name: Seq<char>) -> RequestModel {
    RequestModel {
        name: Some(base_db_name),
        dest_path: Some(current_dir()),
        with_timestamp: Some(true),
    }
}

/// The request that a body which is not malformed asks for.
pub open spec fn request_of(body: BodyOutcome, base_db_name: Seq<char>) -> RequestModel {
    match body {
        BodyOutcome::Parsed(request) => request@,
        _ => default_request(base_db_name),
    }
}

/// The JSON text of a failure.
pub open spec fn failure_body(status: Status, detail: Seq<char>, message: Seq<char>) -> Seq<char> {
    error_object(status.code(), json_quoted(detail), json_quoted(message))
}

/// What developers are told of a request without a path.
pub open spec fn invalid_path_detail() -> Seq<char> {
    "InvalidPath: the destination cannot be written as a path"@
}

/// What users are told of a request without a path.
pub open spec fn invalid_path_message() -> Seq<char> {
    "invalid backup destination"@
}

/// What users are told when the engine fails.
pub open spec fn engine_failure_message() -> Seq<char> {
    "unable to back up the database"@
}

/// The step that follows a resolution: a snapshot to the path, or a
/// bad-request reply where there is no path.
pub open spec fn planned_step(resolution: Result<Seq<char>, PathError>) -> StepModel {
    match resolution {
        Ok(path) => StepModel::Snapshot { dest_path: path },
        Err(_) => StepModel::Respond {
            status: Status::BadRequest,
            body: failure_body(Status::BadRequest, invalid_path_detail(), invalid_path_message()),
        },
    }
}

/// The request that a body asks for, or the bad-request reply to a
/// malformed one. A missing body asks for a stamped backup under the
/// database's own name in the current directory.
pub fn received(body: BodyOutcome, base_db_name: &String) -> (request: Result<BackupRequest, Reply>)
    ensures
        match body {
            BodyOutcome::Malformed { detail, description } => request matches Err(reply)
                && reply.status == Status::BadRequest && reply.body@ == failure_body(
                Status::BadRequest,
                detail@,
                description@,
            ),
            _ => request matches Ok(asked) && asked@ == request_of(body, base_db_name@),
        },
{
    match body {
        BodyOutcome::Parsed(request) => Ok(request),
        BodyOutcome::Absent => {
            let mut here: Vec<char> = Vec::new();
            here.push('.');
            here.push('/');
            let request = BackupRequest {
                name: Some(base_db_name.clone()),
                dest_path: Some(string_of(&here)),
                with_timestamp: Some(true),
            };
            assert(request@.dest_path->0 =~= current_dir());
            Ok(request)
        },
        BodyOutcome::Malformed { detail, description } => {
            let failure = ErrorResponse {
                status: Status::BadRequest,
                developer_message: detail.as_str(),
                user_message: description.as_str(),
            };
            Err(Reply { status: Status::BadRequest, body: failure.to_json() })
        },
    }
}

/// The step that follows a resolution.
pub fn planned(resolution: Result<String, PathError>) -> (step: Step)
    ensures
        step@ == planned_step(path_of(resolution)),
{
    match resolution {
        Ok(dest_path) => Step::Snapshot { dest_path },
        Err(_) => {
            let failure = ErrorResponse {
                status: Status::BadRequest,
                developer_message: "InvalidPath: the destination cannot be written as a path",
                user_message: "invalid backup destination",
            };
            Step::Respond(Reply { status: Status::BadRequest, body: failure.to_json() })
        },
    }
}

/// The first decision of a backup: what to do with the body that was read.
/// A malformed body is answered at once with a bad-request reply, and no
/// snapshot is asked for. Any other body is resolved to a path at the
/// moment of the call, or as without a token where the clock stands before
/// the epoch.
pub fn begin(body: BodyOutcome, base_db_name: &String) -> (step: Step)
    ensures
        match body {
            BodyOutcome::Malformed { detail, description } => step@ == (StepModel::Respond {
                status: Status::BadRequest,
                body: failure_body(Status::BadRequest, detail@, description@),
            }),
            _ => step@ == planned_step(
                request_of(body, base_db_name@).resolved(base_db_name@, None),
            ) || exists|seconds: i64|
                0 <= seconds && step@ == planned_step(
                    request_of(body, base_db_name@).resolved(
                        base_db_name@,
                        #[trigger] utc_formatted(seconds, stamp_format()),
                    ),
                ),
        },
{
    match received(body, base_db_name) {
        Ok(request) => planned(request.get_path(base_db_name)),
        Err(reply) => Step::Respond(reply),
    }
}

/// The outcome of a backup to `dest_path`: the response that names the
/// path if the engine completed the snapshot, else an internal failure
/// that carries the engine's diagnostic and a fixed message for users.
pub fn conclude(dest_path: String, outcome: EngineOutcome) -> (result: Result<
    BackupResponse,
    RawErrorResponse,
>)
    ensures
        match outcome {
            EngineOutcome::Completed => result matches Ok(response) && response.dest_file
                == dest_path,
            EngineOutcome::Failed { detail } => result matches Err(failure) && failure.status
                == Status::InternalServerError.code() && failure.developer_message@ == detail@
                && failure.user_message@ == engine_failure_message(),
        },
{
    match outcome {
        EngineOutcome::Completed => Ok(BackupResponse { dest_file: dest_path }),
        EngineOutcome::Failed { detail } => {
            let failure = ErrorResponse {
                status: Status::InternalServerError,
                developer_message: detail.as_str(),
                user_message: "unable to back up the database",
            };
            Err(failure.get_raw())
        },
    }
}

/// The last decision of a backup: the reply to what the engine reported of
/// the snapshot to `dest_path`.
pub fn finish(dest_path: String, outcome: EngineOutcome) -> (reply: Reply)
    ensures
        match outcome {
            EngineOutcome::Completed => reply.status == Status::Success && reply.body@
                == backup_object(json_quoted(dest_path@)),
            EngineOutcome::Failed { detail } => reply.status == Status::InternalServerError
                && reply.body@ == failure_body(
                Status::InternalServerError,
                detail@,
                engine_failure_message(),
            ),
        },
{
    match conclude(dest_path, outcome) {
        Ok(response) => Reply { status: Status::Success, body: response.to_json() },
        Err(failure) => Reply { status: Status::InternalServerError, body: failure.to_json() },
    }
}

/// Where the request gives no name, the file name of the path starts with
/// the default name, provided that name holds no separator.
pub proof fn law_default_name_leads(
    request: RequestModel,
    default_name: Seq<char>,
    token: Option<Seq<char>>,
)
    requires
        request.name is None,
        is_plain(default_name),
    ensures
        request.resolved(default_name, token) matches Ok(path) ==> starts_with(
            file_name(path),
            default_name,
        ),
{
    if request.resolvable(default_name, token) {
        let file = request.file(default_name, token);
        let joined = request.joined_path(default_name, token);
        assert(is_plain(extension()));
        assert(is_plain(seq!['-']));
        assert(is_plain(file));
        assert(file.len() >= 3);
        lemma_file_name_of_joined(request.chosen_dest(), file);
        lemma_file_name_kept(joined);
        assert(file.subrange(0, default_name.len() as int) =~= default_name);
    }
}

/// A request that declines the timestamp resolves to the same path
/// whatever the clock shows: the normal form of directory, separator, name
/// and extension, and that text itself where it is in normal form already.
pub proof fn law_unstamped_path(
    request: RequestModel,
    default_name: Seq<char>,
    token: Option<Seq<char>>,
)
    requires
        request.with_timestamp == Some(false),
        request.storable(default_name),
    ensures
        request.resolved(default_name, token) == Ok::<Seq<char>, PathError>(
            normalized(
                request.chosen_dest() + seq!['/'] + request.chosen_name(default_name)
                    + extension(),
            ),
        ),
        is_normalized(
            request.chosen_dest() + seq!['/'] + request.chosen_name(default_name) + extension(),
        ) ==> request.resolved(default_name, token) == Ok::<Seq<char>, PathError>(
            request.chosen_dest() + seq!['/'] + request.chosen_name(default_name) + extension(),
        ),
{
    assert(request.joined_path(default_name, token) =~= request.chosen_dest() + seq!['/']
        + request.chosen_name(default_name) + extension());
}

/// A stamped request resolves to different paths under different
/// timestamp tokens.
pub proof fn law_tokens_tell_paths_apart(
    request: RequestModel,
    default_name: Seq<char>,
    first: Seq<char>,
    second: Seq<char>,
)
    requires
        request.stamped(),
        first != second,
        request.resolvable(default_name, Some(first)),
        request.resolvable(default_name, Some(second)),
    ensures
        request.resolved(default_name, Some(first)) != request.resolved(
            default_name,
            Some(second),
        ),
{
    let stem = request.chosen_dest() + seq!['/'] + request.chosen_name(default_name) + seq!['-'];
    let lead = segments(stem).last();
    let first_path = request.joined_path(default_name, Some(first));
    let second_path = request.joined_path(default_name, Some(second));
    assert(is_plain(extension()));
    assert(is_plain(first + extension()));
    assert(is_plain(second + extension()));
    assert(first_path =~= stem + (first + extension()));
    assert(second_path =~= stem + (second + extension()));
    lemma_segments_shape(stem);
    lemma_segments_append_plain(stem, first + extension());
    lemma_segments_append_plain(stem, second + extension());
    let first_file = lead + (first + extension());
    let second_file = lead + (second + extension());
    assert(file_name(first_path) == first_file);
    assert(file_name(second_path) == second_file);
    assert(first_file.len() >= 3);
    assert(second_file.len() >= 3);
    lemma_file_name_kept(first_path);
    lemma_file_name_kept(second_path);
    if normalized(first_path) == normalized(second_path) {
        assert(first_file == second_file);
        assert(first.len() == second.len());
        assert forall|k: int| 0 <= k < first.len() implies first[k] == second[k] by {
            assert(first[k] == first_file[lead.len() + k]);
            assert(second[k] == second_file[lead.len() + k]);
        }
        assert(first =~= second);
    }
}

/// A missing body is resolved as a request without any field is: under the
/// database's own name, in the current directory, with a timestamp.
pub proof fn law_missing_body_defaults(base_db_name: Seq<char>, token: Option<Seq<char>>)
    ensures
        request_of(BodyOutcome::Absent, base_db_name) == default_request(base_db_name),
        default_request(base_db_name).stamped(),
        default_request(base_db_name).chosen_name(base_db_name) == base_db_name,
        default_request(base_db_name).chosen_dest() == current_dir(),
        default_request(base_db_name).resolved(base_db_name, token) == (RequestModel {
            name: None,
            dest_path: None,
            with_timestamp: None,
        }).resolved(base_db_name, token),
{
}

} // verus!
