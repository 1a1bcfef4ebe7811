//! Looking up a player's UUID with the Mojang API and downloading a skin
//! from Crafatar: the requests to make and what each answer leads to.

use crate::api::{is_error, APIError, Status};
use crate::json::{
    distinct_keys, json_string_object, lookup, map_get, pairs_map, pairs_view, parse_string_object,
};
use vstd::prelude::*;
use vstd::string::*;

verus! {

/// A player as the Mojang API names it: its UUID (`id`) and its name.
#[derive(Default, Debug, Clone, PartialEq)]
pub struct PlayerProfile {
    pub id: String,
    pub name: String,
}

/// The Mojang profile URL of player `name`.
pub open spec fn uuid_lookup_url_spec(name: Seq<char>) -> Seq<char> {
    "https://api.mojang.com/users/profiles/minecraft/"@ + name
}

/// The URL at which the UUID of player `name` is looked up.
pub fn uuid_lookup_url(name: &str) -> (r: String)
    ensures
        r@ == uuid_lookup_url_spec(name@),
{
    let mut url = String::from_str("https://api.mojang.com/users/profiles/minecraft/");
    url.append(name);
    url
}

/// The Crafatar URL of the skin of `uuid`.
pub open spec fn skin_download_url_spec(uuid: Seq<char>) -> Seq<char> {
    "https://crafatar.com/skins/"@ + uuid
}

/// The URL from which the skin of `uuid` is downloaded.
pub fn skin_download_url(uuid: &str) -> (r: String)
    ensures
        r@ == skin_download_url_spec(uuid@),
{
    let mut url = String::from_str("https://crafatar.com/skins/");
    url.append(uuid);
    url
}

/// Where the downloaded skin of `uuid` is kept: `./skins/cache/<uuid>.png`.
pub open spec fn cached_skin_path_spec(uuid: Seq<char>) -> Seq<char> {
    "./skins/cache/"@ + uuid + ".png"@
}

/// The path of the downloaded skin of `uuid`.
pub fn cached_skin_path(uuid: &str) -> (r: String)
    ensures
        r@ == cached_skin_path_spec(uuid@),
{
    let mut path = String::from_str("./skins/cache/");
    path.append(uuid);
    path.append(".png");
    path
}

/// What happened since the UUID lookup last decided.
pub enum UuidEvent {
    /// The lookup begins.
    Started,
    /// The request could not be made.
    RequestFailed,
    /// The server answered with this status.
    Responded(u16),
    /// The answer's body could not be read.
    BodyFailed,
    /// The answer's body.
    BodyRead(Vec<u8>),
}

/// What the UUID lookup does next.
pub enum UuidAction {
    /// Send a GET request to this URL.
    Fetch(String),
    /// Read the answer's body.
    ReadBody,
    /// The lookup is over with this outcome.
    Finish(Result<PlayerProfile, APIError>),
    /// The answer lacks a field that the lookup takes for granted; the
    /// lookup cannot go on.
    Abort,
}

/// What a Mojang answer object says: `None` where it lacks a field that must
/// be there, else the error message it reports or the player's (id, name).
pub open spec fn profile_from_object(m: Map<Seq<char>, Seq<char>>) -> Option<
    Result<(Seq<char>, Seq<char>), Seq<char>>,
> {
    if m.contains_key("error"@) {
        match map_get(m, "errorMessage"@) {
            Some(msg) => Some(Err(msg)),
            None => None,
        }
    } else {
        match (map_get(m, "id"@), map_get(m, "name"@)) {
            (Some(id), Some(name)) => Some(Ok((id, name))),
            _ => None,
        }
    }
}

/// What a Mojang answer object gives, field by field: an object with an
/// `error` field reports its `errorMessage` (and cannot be read without one);
/// any other object gives the player's `id` and `name`, in that order (and
/// cannot be read without both).
pub proof fn lemma_answer_object(m: Map<Seq<char>, Seq<char>>)
    ensures
        m.contains_key("error"@) && m.contains_key("errorMessage"@) ==> profile_from_object(m)
            == Some(Err::<(Seq<char>, Seq<char>), Seq<char>>(m["errorMessage"@])),
        m.contains_key("error"@) && !m.contains_key("errorMessage"@) ==> profile_from_object(m)
            is None,
        !m.contains_key("error"@) && m.contains_key("id"@) && m.contains_key("name"@)
            ==> profile_from_object(m) == Some(
            Ok::<(Seq<char>, Seq<char>), Seq<char>>((m["id"@], m["name"@])),
        ),
        !m.contains_key("error"@) && !(m.contains_key("id"@) && m.contains_key("name"@))
            ==> profile_from_object(m) is None,
{
}

/// The lookup ends with error `msg` and status `st`.
pub open spec fn uuid_fails(a: UuidAction, msg: Seq<char>, st: Status) -> bool {
    a matches UuidAction::Finish(Err(e)) && is_error(e, msg, st)
}

/// What the answer object `m` leads the lookup to.
pub open spec fn uuid_outcome(a: UuidAction, m: Map<Seq<char>, Seq<char>>) -> bool {
    match profile_from_object(m) {
        None => a is Abort,
        Some(Err(msg)) => uuid_fails(a, msg, Status::InternalServerError),
        Some(Ok((id, name))) => a matches UuidAction::Finish(Ok(p)) && p.id@ == id && p.name@
            == name,
    }
}

/// What an answer object, held as `entries` with distinct keys, leads the
/// lookup to: its `errorMessage` where it has an `error` field, else its
/// `id` and `name`; `Abort` where a field it needs is missing.
pub fn profile_from_entries(entries: &Vec<(String, String)>) -> (a: UuidAction)
    requires
        distinct_keys(pairs_view(entries@)),
    ensures
        uuid_outcome(a, pairs_map(pairs_view(entries@))),
{
    let error_key = String::from_str("error");
    if lookup(entries, &error_key).is_some() {
        let message_key = String::from_str("errorMessage");
        match lookup(entries, &message_key) {
            Some(msg) => UuidAction::Finish(Err(APIError(msg, Status::InternalServerError))),
            None => UuidAction::Abort,
        }
    } else {
        let name_key = String::from_str("name");
        let id_key = String::from_str("id");
        match (lookup(entries, &name_key), lookup(entries, &id_key)) {
            (Some(name), Some(id)) => UuidAction::Finish(Ok(PlayerProfile { id, name })),
            _ => UuidAction::Abort,
        }
    }
}

/// The next step of looking up the UUID of player `name`: fetch the profile
/// URL; a failed request, or a status other than 200, ends the lookup with
/// 404; an unreadable or malformed body ends it with 500; an object with an
/// `error` field ends it with its `errorMessage` and 500; else its `id` and
/// `name` are the answer.
pub fn get_uuid(name: &str, event: UuidEvent) -> (a: UuidAction)
    ensures
        match event {
            UuidEvent::Started => a matches UuidAction::Fetch(url) && url@ == uuid_lookup_url_spec(
                name@,
            ),
            UuidEvent::RequestFailed => uuid_fails(
                a,
                "Failed to get uuid from Mojang API"@,
                Status::NotFound,
            ),
            UuidEvent::Responded(code) => if code == 200 {
                a is ReadBody
            } else {
                uuid_fails(
                    a,
                    "Failed to get uuid from Mojang API (Failed to unwrap response)"@,
                    Status::NotFound,
                )
            },
            UuidEvent::BodyFailed => uuid_fails(
                a,
                "Failed to read uuid response from Mojang (is it malformed?)"@,
                Status::InternalServerError,
            ),
            UuidEvent::BodyRead(body) => match json_string_object(body@) {
                None => uuid_fails(
                    a,
                    "Failed to read uuid response from Mojang (is it malformed?)"@,
                    Status::InternalServerError,
                ),
                Some(m) => uuid_outcome(a, m),
            },
        },
{
    match event {
        UuidEvent::Started => UuidAction::Fetch(uuid_lookup_url(name)),
        UuidEvent::RequestFailed => UuidAction::Finish(
            Err(APIError(String::from_str("Failed to get uuid from Mojang API"), Status::NotFound)),
        ),
        UuidEvent::Responded(code) => if code == 200 {
            UuidAction::ReadBody
        } else {
            UuidAction::Finish(
                Err(
                    APIError(
                        String::from_str(
                            "Failed to get uuid from Mojang API (Failed to unwrap response)",
                        ),
                        Status::NotFound,
                    ),
                ),
            )
        },
        UuidEvent::BodyFailed => UuidAction::Finish(Err(malformed_uuid_answer())),
        UuidEvent::BodyRead(body) => match parse_string_object(body.as_slice()) {
            None => UuidAction::Finish(Err(malformed_uuid_answer())),
            Some(entries) => profile_from_entries(&entries),
        },
    }
}

/// The error for an answer body that cannot be read as a string object.
fn malformed_uuid_answer() -> (e: APIError)
    ensures
        is_error(
            e,
            "Failed to read uuid response from Mojang (is it malformed?)"@,
            Status::InternalServerError,
        ),
{
    APIError(
        String::from_str("Failed to read uuid response from Mojang (is it malformed?)"),
        Status::InternalServerError,
    )
}

/// Where the skin download stands.
pub enum DownloadState {
    /// Nothing done yet.
    Starting,
    /// Waiting for the answer to the request.
    Fetching,
    /// Waiting for the answer's body (the status was 200).
    Reading,
    /// Waiting for the cache file, holding the body that was read.
    Creating(Vec<u8>),
    /// Waiting for the body to be written into the cache file.
    Copying,
    /// Nothing more to do.
    Done,
}

/// What happened since the skin download last decided.
pub enum DownloadEvent {
    /// The download begins.
    Started,
    /// The request could not be made.
    RequestFailed,
    /// The server answered with this status.
    Responded(u16),
    /// The answer's body could not be read.
    BodyFailed,
    /// The answer's body was read in full: these bytes.
    BodyRead(Vec<u8>),
    /// The cache file could not be created.
    FileCreateFailed,
    /// The cache file was created.
    FileCreated,
    /// Writing the body into the file failed.
    CopyFailed,
    /// The body was written into the file.
    Copied,
}

/// What the skin download does next.
pub enum DownloadAction {
    /// Send a GET request to this URL.
    Fetch(String),
    /// Read the answer's body.
    ReadBody,
    /// Create (or truncate) the file at this path.
    CreateFile(String),
    /// Write these bytes into the created file.
    CopyBody(Vec<u8>),
    /// The download is over with this outcome.
    Finish(Result<(), APIError>),
}

/// The events the download expects in each state.
pub open spec fn download_accepts(state: DownloadState, event: DownloadEvent) -> bool {
    match (state, event) {
        (DownloadState::Starting, DownloadEvent::Started) => true,
        (DownloadState::Fetching, DownloadEvent::RequestFailed) => true,
        (DownloadState::Fetching, DownloadEvent::Responded(_)) => true,
        (DownloadState::Reading, DownloadEvent::BodyFailed) => true,
        (DownloadState::Reading, DownloadEvent::BodyRead(_)) => true,
        (DownloadState::Creating(_), DownloadEvent::FileCreateFailed) => true,
        (DownloadState::Creating(_), DownloadEvent::FileCreated) => true,
        (DownloadState::Copying, DownloadEvent::CopyFailed) => true,
        (DownloadState::Copying, DownloadEvent::Copied) => true,
        _ => false,
    }
}

/// The download ends with error `msg` and status 500.
pub open spec fn download_fails(r: (DownloadState, DownloadAction), msg: Seq<char>) -> bool {
    &&& r.0 is Done
    &&& (r.1 matches DownloadAction::Finish(Err(e)) && is_error(e, msg, Status::InternalServerError))
}

/// What every step of the download keeps to, from state `s` on event `e` to
/// state `next` with action `a`: the only request is the GET of the skin's
/// Crafatar URL, made at the start; the download never starts over; the only
/// file is the cache file of `uuid`, created only once a 200 answer's body was
/// read; the bytes written into it are exactly the body that was read.
pub open spec fn download_step(
    uuid: Seq<char>,
    s: DownloadState,
    e: DownloadEvent,
    next: DownloadState,
    a: DownloadAction,
) -> bool {
    &&& !(next is Starting)
    &&& (a matches DownloadAction::Fetch(url) ==> url@ == skin_download_url_spec(uuid)
        && s is Starting)
    &&& (a matches DownloadAction::CreateFile(path) ==> path@ == cached_skin_path_spec(uuid)
        && s is Reading && e is BodyRead)
    &&& (next is Reading ==> s is Fetching && e == DownloadEvent::Responded(200))
    &&& (next matches DownloadState::Creating(kept) ==> e matches DownloadEvent::BodyRead(body)
        && kept@ == body@)
    &&& (a matches DownloadAction::CopyBody(bytes) ==> s matches DownloadState::Creating(kept)
        && bytes@ == kept@)
}

/// Over any run of the download from its start (`states[i]` and `events[i]`
/// give `states[i + 1]` and `actions[i]`): the request is made only at the
/// first step; a file is created only at the cache path, right after a 200
/// answer, on reading its body; and what is written into the file is the
/// body read at an earlier step.
pub proof fn lemma_download_run(
    uuid: Seq<char>,
    states: Seq<DownloadState>,
    events: Seq<DownloadEvent>,
    actions: Seq<DownloadAction>,
)
    requires
        states.len() == events.len() + 1,
        actions.len() == events.len(),
        states[0] is Starting,
        forall|i: int|
            0 <= i < events.len() ==> download_step(
                uuid,
                #[trigger] states[i],
                events[i],
                states[i + 1],
                actions[i],
            ),
    ensures
        forall|i: int| 0 <= i < actions.len() && #[trigger] actions[i] is Fetch ==> i == 0,
        forall|i: int|
            0 <= i < actions.len() && #[trigger] actions[i] is CreateFile ==> {
                &&& (actions[i] matches DownloadAction::CreateFile(p) && p@ == cached_skin_path_spec(
                    uuid,
                ))
                &&& 1 <= i
                &&& events[i - 1] == DownloadEvent::Responded(200)
                &&& events[i] is BodyRead
            },
        forall|i: int|
            0 <= i < actions.len() && #[trigger] actions[i] is CopyBody ==> exists|j: int|
                0 <= j < i && (#[trigger] events[j] matches DownloadEvent::BodyRead(body) && actions[i]
                    matches DownloadAction::CopyBody(bytes) && bytes@ == body@),
{
    assert forall|i: int| 0 <= i < actions.len() && #[trigger] actions[i] is Fetch implies i == 0 by {
        assert(download_step(uuid, states[i], events[i], states[i + 1], actions[i]));
        if i > 0 {
            assert(download_step(uuid, states[i - 1], events[i - 1], states[i], actions[i - 1]));
        }
    }
    assert forall|i: int| 0 <= i < actions.len() && #[trigger] actions[i] is CreateFile implies {
        &&& (actions[i] matches DownloadAction::CreateFile(p) && p@ == cached_skin_path_spec(uuid))
        &&& 1 <= i
        &&& events[i - 1] == DownloadEvent::Responded(200)
        &&& events[i] is BodyRead
    } by {
        assert(download_step(uuid, states[i], events[i], states[i + 1], actions[i]));
        if i > 0 {
            assert(download_step(uuid, states[i - 1], events[i - 1], states[i], actions[i - 1]));
        }
    }
    assert forall|i: int| 0 <= i < actions.len() && #[trigger] actions[i] is CopyBody implies exists|j: int|
        0 <= j < i && (#[trigger] events[j] matches DownloadEvent::BodyRead(body) && actions[i]
            matches DownloadAction::CopyBody(bytes) && bytes@ == body@) by {
        assert(download_step(uuid, states[i], events[i], states[i + 1], actions[i]));
        if i > 0 {
            assert(download_step(uuid, states[i - 1], events[i - 1], states[i], actions[i - 1]));
            assert(0 <= i - 1 < i);
        }
    }
}

/// The next step of downloading the skin of `uuid` into the cache: fetch it
/// from Crafatar, insist on status 200, read the body, create
/// `./skins/cache/<uuid>.png` and write exactly the body that was read into
/// it; each failure ends the download with its own message and status 500.
/// The only request is the one GET, the only file is the cache file, and it
/// is created only once a 200 answer's body has been read.
pub fn download_skin(uuid: &str, state: DownloadState, event: DownloadEvent) -> (r: (
    DownloadState,
    DownloadAction,
))
    requires
        download_accepts(state, event),
    ensures
        download_step(uuid@, state, event, r.0, r.1),
        match (state, event) {
            (DownloadState::Starting, DownloadEvent::Started) => {
                &&& r.0 is Fetching
                &&& (r.1 matches DownloadAction::Fetch(url) && url@ == skin_download_url_spec(uuid@))
            },
            (DownloadState::Fetching, DownloadEvent::RequestFailed) => download_fails(
                r,
                "Failed to download user skin!"@,
            ),
            (DownloadState::Fetching, DownloadEvent::Responded(code)) => if code == 200 {
                r.0 is Reading && r.1 is ReadBody
            } else {
                download_fails(r, "Failed to unwrap Mojang API response!"@)
            },
            (DownloadState::Reading, DownloadEvent::BodyFailed) => download_fails(
                r,
                "Failed to get byte stream!"@,
            ),
            (DownloadState::Reading, DownloadEvent::BodyRead(body)) => {
                &&& (r.0 matches DownloadState::Creating(kept) && kept@ == body@)
                &&& (r.1 matches DownloadAction::CreateFile(path) && path@ == cached_skin_path_spec(
                    uuid@,
                ))
            },
            (DownloadState::Creating(_), DownloadEvent::FileCreateFailed) => download_fails(
                r,
                "Failed to create file stream!"@,
            ),
            (DownloadState::Creating(body), DownloadEvent::FileCreated) => {
                &&& r.0 is Copying
                &&& (r.1 matches DownloadAction::CopyBody(bytes) && bytes@ == body@)
            },
            (DownloadState::Copying, DownloadEvent::CopyFailed) => download_fails(
                r,
                "Failed to copy skin datastream!"@,
            ),
            (DownloadState::Copying, DownloadEvent::Copied) => {
                &&& r.0 is Done
                &&& r.1 matches DownloadAction::Finish(Ok(()))
            },
            _ => false,
        },
{
    match (state, event) {
        (DownloadState::Starting, DownloadEvent::Started) => (
            DownloadState::Fetching,
            DownloadAction::Fetch(skin_download_url(uuid)),
        ),
        (DownloadState::Fetching, DownloadEvent::Responded(code)) => if code == 200 {
            (DownloadState::Reading, DownloadAction::ReadBody)
        } else {
            download_error("Failed to unwrap Mojang API response!")
        },
        (DownloadState::Fetching, _) => download_error("Failed to download user skin!"),
        (DownloadState::Reading, DownloadEvent::BodyRead(body)) => (
            DownloadState::Creating(body),
            DownloadAction::CreateFile(cached_skin_path(uuid)),
        ),
        (DownloadState::Reading, _) => download_error("Failed to get byte stream!"),
        (DownloadState::Creating(body), DownloadEvent::FileCreated) => (
            DownloadState::Copying,
            DownloadAction::CopyBody(body),
        ),
        (DownloadState::Creating(_), _) => download_error("Failed to create file stream!"),
        (DownloadState::Copying, DownloadEvent::Copied) => (
            DownloadState::Done,
            DownloadAction::Finish(Ok(())),
        ),
        (_, _) => download_error("Failed to copy skin datastream!"),
    }
}

/// Ends the download with message `msg` and status 500.
fn download_error(msg: &str) -> (r: (DownloadState, DownloadAction))
    ensures
        download_fails(r, msg@),
{
    (DownloadState::Done, DownloadAction::Finish(Err(APIError(String::from_str(msg), Status::InternalServerError))))
}

} // verus!
