//! Errors answered to clients, the paths of generated skins and the
//! decisions of the HTTP handlers.

use crate::json::{json_string, json_string_literal};
use crate::mojang::PlayerProfile;
use vstd::prelude::*;
use vstd::string::*;

verus! {

/// The HTTP statuses the handlers answer with on failure.
#[derive(Clone, Copy, PartialEq, Eq, Debug, Structural)]
pub enum Status {
    Forbidden,
    NotFound,
    InternalServerError,
}

/// The numeric code of a status.
pub open spec fn status_code(s: Status) -> u16 {
    match s {
        Status::Forbidden => 403,
        Status::NotFound => 404,
        Status::InternalServerError => 500,
    }
}

impl Status {
    /// The numeric HTTP code of this status.
    pub fn code(&self) -> (c: u16)
        ensures
            c == status_code(*self),
    {
        match self {
            Status::Forbidden => 403,
            Status::NotFound => 404,
            Status::InternalServerError => 500,
        }
    }
}

/// An error answered to a client: a message and the status it is sent with.
#[derive(Clone, Debug)]
pub struct APIError(pub String, pub Status);

/// The JSON body sent for an error with message `msg`: `{"error":<msg>}`.
pub open spec fn error_json(msg: Seq<char>) -> Seq<char> {
    "{\"error\":"@ + json_string_literal(msg) + "}"@
}

/// `e` carries message `msg` and status `st`.
pub open spec fn is_error(e: APIError, msg: Seq<char>, st: Status) -> bool {
    e.0@ == msg && e.1 == st
}

impl APIError {
    /// The JSON body answered for this error.
    pub fn to_json(&self) -> (r: String)
        ensures
            r@ == error_json(self.0@),
    {
        let quoted = json_string(self.0.as_str());
        let mut body = String::from_str("{\"error\":");
        body.append(quoted.as_str());
        body.append("}");
        body
    }
}

/// Where the generated skin of `uuid` is kept: `./skins/modified/<uuid>.png`.
pub open spec fn modified_skin_path_spec(uuid: Seq<char>) -> Seq<char> {
    "./skins/modified/"@ + uuid + ".png"@
}

/// The path of the generated skin of `uuid`.
pub fn modified_skin_path(uuid: &str) -> (r: String)
    ensures
        r@ == modified_skin_path_spec(uuid@),
{
    let mut path = String::from_str("./skins/modified/");
    path.append(uuid);
    path.append(".png");
    path
}

/// The message a refused client is answered with.
pub open spec fn rate_limited_message() -> Seq<char> {
    "You are currently rate-limited!"@
}

/// The error answered to a client that is rate-limited.
pub fn rate_limited_error() -> (e: APIError)
    ensures
        is_error(e, rate_limited_message(), Status::Forbidden),
{
    APIError(String::from_str("You are currently rate-limited!"), Status::Forbidden)
}

/// The JSON body answered for a found player: `{"name":<name>,"uuid":<id>}`.
pub open spec fn profile_json(name: Seq<char>, id: Seq<char>) -> Seq<char> {
    "{\"name\":"@ + json_string_literal(name) + ",\"uuid\":"@ + json_string_literal(id) + "}"@
}

/// The JSON body answered for `profile`.
pub fn profile_to_json(profile: &PlayerProfile) -> (r: String)
    ensures
        r@ == profile_json(profile.name@, profile.id@),
{
    let name = json_string(profile.name.as_str());
    let id = json_string(profile.id.as_str());
    let mut body = String::from_str("{\"name\":");
    body.append(name.as_str());
    body.append(",\"uuid\":");
    body.append(id.as_str());
    body.append("}");
    body
}

/// What happened since the UUID handler last decided.
pub enum NameEvent {
    /// The request arrived; whether its client is rate-limited.
    Started { limited: bool },
    /// The outcome of looking up the player's UUID.
    LookedUp(Result<PlayerProfile, APIError>),
}

/// What the UUID handler does next.
pub enum NameAction {
    /// Look up the UUID of this player.
    LookUp(String),
    /// Answer with this JSON body.
    Respond(String),
    /// Answer with this error.
    Fail(APIError),
}

/// The next step of `GET /api/uuid/<name>`: a rate-limited client is refused
/// with 403; else the player is looked up and answered with its name and
/// UUID, or with 404 where the lookup failed.
pub fn name(player: &str, event: NameEvent) -> (a: NameAction)
    ensures
        match event {
            NameEvent::Started { limited } => if limited {
                a matches NameAction::Fail(e) && is_error(e, rate_limited_message(), Status::Forbidden)
            } else {
                a matches NameAction::LookUp(n) && n@ == player@
            },
            NameEvent::LookedUp(Ok(p)) => a matches NameAction::Respond(body) && body@
                == profile_json(p.name@, p.id@),
            NameEvent::LookedUp(Err(_)) => a matches NameAction::Fail(e) && is_error(
                e,
                "Failed to get UUID from Mojang API"@,
                Status::NotFound,
            ),
        },
{
    match event {
        NameEvent::Started { limited } => if limited {
            NameAction::Fail(rate_limited_error())
        } else {
            NameAction::LookUp(String::from_str(player))
        },
        NameEvent::LookedUp(Ok(p)) => NameAction::Respond(profile_to_json(&p)),
        NameEvent::LookedUp(Err(_)) => NameAction::Fail(
            APIError(String::from_str("Failed to get UUID from Mojang API"), Status::NotFound),
        ),
    }
}

/// What happened since generating a player's skin last decided.
pub enum GenerateEvent {
    /// The generation begins.
    Started,
    /// Whether the generated skin is already on disk.
    Exists(bool),
    /// The outcome of downloading the player's skin.
    Downloaded(Result<(), APIError>),
    /// The outcome of composing the skin.
    Diamondagified(Result<String, APIError>),
}

/// What generating a player's skin does next.
pub enum GenerateAction {
    /// Check whether a file exists at this path.
    CheckExists(String),
    /// Download the skin of this UUID.
    Download(String),
    /// Compose the skin of this UUID.
    Diamondagify(String),
    /// The generation is over: the path of the generated skin, or the error.
    Finish(Result<String, APIError>),
}

/// The next step of making sure the generated skin of `uuid` is on disk: a
/// skin already at `./skins/modified/<uuid>.png` is used as it is; else the
/// player's skin is downloaded and composed, and the first error ends it.
pub fn generate_skin(uuid: &str, event: GenerateEvent) -> (a: GenerateAction)
    ensures
        match event {
            GenerateEvent::Started => a matches GenerateAction::CheckExists(p) && p@
                == modified_skin_path_spec(uuid@),
            GenerateEvent::Exists(true) => a matches GenerateAction::Finish(Ok(p)) && p@
                == modified_skin_path_spec(uuid@),
            GenerateEvent::Exists(false) => a matches GenerateAction::Download(u) && u@ == uuid@,
            GenerateEvent::Downloaded(Ok(())) => a matches GenerateAction::Diamondagify(u) && u@
                == uuid@,
            GenerateEvent::Downloaded(Err(e)) => a matches GenerateAction::Finish(Err(f)) && f == e,
            GenerateEvent::Diamondagified(Ok(_)) => a matches GenerateAction::Finish(Ok(p)) && p@
                == modified_skin_path_spec(uuid@),
            GenerateEvent::Diamondagified(Err(e)) => a matches GenerateAction::Finish(Err(f)) && f
                == e,
        },
{
    match event {
        GenerateEvent::Started => GenerateAction::CheckExists(modified_skin_path(uuid)),
        GenerateEvent::Exists(true) => GenerateAction::Finish(Ok(modified_skin_path(uuid))),
        GenerateEvent::Exists(false) => GenerateAction::Download(String::from_str(uuid)),
        GenerateEvent::Downloaded(Ok(())) => GenerateAction::Diamondagify(String::from_str(uuid)),
        GenerateEvent::Downloaded(Err(e)) => GenerateAction::Finish(Err(e)),
        GenerateEvent::Diamondagified(Ok(_)) => GenerateAction::Finish(Ok(modified_skin_path(uuid))),
        GenerateEvent::Diamondagified(Err(e)) => GenerateAction::Finish(Err(e)),
    }
}

/// The three routes that answer with a generated skin.
#[derive(Clone, Copy, PartialEq, Eq, Debug, Structural)]
pub enum SkinRoute {
    /// `GET /api/skin/<uuid>`: fails on the first error while generating.
    Skin,
    /// `GET /api/skin/<uuid>/minecraft.png`: ignores errors while generating.
    Minecraft,
    /// `GET /api/skin/<uuid>/download`: ignores errors and answers with an attachment.
    Download,
}

/// What happened since a skin handler last decided.
pub enum ServeEvent {
    /// The request arrived; whether its client is rate-limited.
    Started { limited: bool },
    /// The outcome of generating the skin (first route only).
    Generated(Result<String, APIError>),
    /// Whether the generated skin is already on disk.
    Exists(bool),
    /// The download finished, whatever its outcome.
    Downloaded,
    /// The composition finished, whatever its outcome.
    Diamondagified,
    /// The outcome of opening the file, with the reason of a failure.
    Opened(Result<(), String>),
}

/// What a skin handler does next.
pub enum ServeAction {
    /// Make sure the generated skin of this UUID is on disk.
    Generate(String),
    /// Check whether a file exists at this path.
    CheckExists(String),
    /// Download the skin of this UUID.
    Download(String),
    /// Compose the skin of this UUID.
    Diamondagify(String),
    /// Open the file at this path.
    Open(String),
    /// Answer with the opened file.
    SendFile,
    /// Answer with the file at this path as an attachment.
    SendDownload(String),
    /// Answer with this error.
    Fail(APIError),
}

/// The events each skin route expects.
pub open spec fn serve_accepts(route: SkinRoute, event: ServeEvent) -> bool {
    match event {
        ServeEvent::Started { .. } => true,
        ServeEvent::Generated(_) => route == SkinRoute::Skin,
        ServeEvent::Opened(_) => route != SkinRoute::Download,
        _ => route != SkinRoute::Skin,
    }
}

/// The message of an error met while opening the generated skin.
pub open spec fn open_failure_message(reason: Seq<char>) -> Seq<char> {
    "Skin generation failed: "@ + reason + "!"@
}

/// What a skin route for `uuid` does on `event`.
pub open spec fn serves(route: SkinRoute, uuid: Seq<char>, event: ServeEvent, a: ServeAction) -> bool {
    match event {
        ServeEvent::Started { limited } => if limited {
            a matches ServeAction::Fail(e) && is_error(e, rate_limited_message(), Status::Forbidden)
        } else if route == SkinRoute::Skin {
            a matches ServeAction::Generate(u) && u@ == uuid
        } else {
            a matches ServeAction::CheckExists(p) && p@ == modified_skin_path_spec(uuid)
        },
        ServeEvent::Generated(Ok(p)) => a matches ServeAction::Open(q) && q@ == p@,
        ServeEvent::Generated(Err(e)) => a matches ServeAction::Fail(f) && f == e,
        ServeEvent::Exists(false) => a matches ServeAction::Download(u) && u@ == uuid,
        ServeEvent::Downloaded => a matches ServeAction::Diamondagify(u) && u@ == uuid,
        ServeEvent::Exists(true) | ServeEvent::Diamondagified => if route == SkinRoute::Download {
            a matches ServeAction::SendDownload(p) && p@ == modified_skin_path_spec(uuid)
        } else {
            a matches ServeAction::Open(p) && p@ == modified_skin_path_spec(uuid)
        },
        ServeEvent::Opened(Ok(())) => a is SendFile,
        ServeEvent::Opened(Err(reason)) => a matches ServeAction::Fail(e) && is_error(
            e,
            open_failure_message(reason@),
            Status::InternalServerError,
        ),
    }
}

/// On every route, a skin that is not on disk is downloaded first: learning
/// that the generated skin is missing leads to downloading the skin of that
/// very player, never to answering.
pub proof fn lemma_missing_skin_is_downloaded(route: SkinRoute, uuid: Seq<char>, a: ServeAction)
    requires
        serve_accepts(route, ServeEvent::Exists(false)),
        serves(route, uuid, ServeEvent::Exists(false), a),
    ensures
        a matches ServeAction::Download(u) && u@ == uuid,
{
}

/// On every route that opens the generated skin, a file that opened is
/// answered with, never turned into an error.
pub proof fn lemma_opened_file_is_sent(route: SkinRoute, uuid: Seq<char>, a: ServeAction)
    requires
        serve_accepts(route, ServeEvent::Opened(Ok(()))),
        serves(route, uuid, ServeEvent::Opened(Ok(())), a),
    ensures
        a is SendFile,
{
}

/// A skin route answers with the generated file only once it is known to be
/// there: the opened file only after it opened, and the file (to open or to
/// send as an attachment) only after it was found on disk, composed, or
/// generated; only the download route sends an attachment.
pub proof fn lemma_file_answered_only_when_there(
    route: SkinRoute,
    uuid: Seq<char>,
    event: ServeEvent,
    a: ServeAction,
)
    requires
        serve_accepts(route, event),
        serves(route, uuid, event, a),
    ensures
        a is SendFile ==> event matches ServeEvent::Opened(Ok(_)),
        a is SendDownload || a is Open ==> event == ServeEvent::Exists(true) || event is Diamondagified
            || event is Generated,
        a is SendDownload ==> route == SkinRoute::Download,
        event is Exists && event != ServeEvent::Exists(true) ==> (a matches ServeAction::Download(u)
            && u@ == uuid),
{
}

/// Where each skin route goes: a rate-limited client is refused with 403
/// before anything is done; otherwise the first route asks for the skin to
/// be generated and the other two look for it at
/// `./skins/modified/<uuid>.png`; once there (found, composed or generated)
/// the download route sends that file as an attachment and the other two
/// open it; a file that cannot be opened is answered with 500.
pub proof fn lemma_serve_routes(route: SkinRoute, uuid: Seq<char>, event: ServeEvent, a: ServeAction)
    requires
        serve_accepts(route, event),
        serves(route, uuid, event, a),
    ensures
        event == (ServeEvent::Started { limited: true }) ==> (a matches ServeAction::Fail(e) && e.1
            == Status::Forbidden),
        event == (ServeEvent::Started { limited: false }) && route == SkinRoute::Skin ==> (a matches ServeAction::Generate(
            u,
        ) && u@ == uuid),
        event == (ServeEvent::Started { limited: false }) && route != SkinRoute::Skin ==> (a matches ServeAction::CheckExists(
            p,
        ) && p@ == "./skins/modified/"@ + uuid + ".png"@),
        (event == ServeEvent::Exists(true) || event is Diamondagified) && route == SkinRoute::Download
            ==> (a matches ServeAction::SendDownload(p) && p@ == "./skins/modified/"@ + uuid
            + ".png"@),
        (event == ServeEvent::Exists(true) || event is Diamondagified) && route != SkinRoute::Download
            ==> (a matches ServeAction::Open(p) && p@ == "./skins/modified/"@ + uuid + ".png"@),
        event is Downloaded ==> (a matches ServeAction::Diamondagify(u) && u@ == uuid),
        event matches ServeEvent::Opened(Err(_)) ==> (a matches ServeAction::Fail(e) && e.1
            == Status::InternalServerError),
{
}

/// The next step of a skin route for `uuid`: a rate-limited client is refused
/// with 403; the first route makes sure the skin is generated and fails on the
/// first error; the other two download and compose the skin when it is not on
/// disk, whatever comes of that; the first two then open
/// `./skins/modified/<uuid>.png` and answer with it, or with 500 where it
/// cannot be opened; the download route answers with it as an attachment.
pub fn serve_skin(route: SkinRoute, uuid: &str, event: ServeEvent) -> (a: ServeAction)
    requires
        serve_accepts(route, event),
    ensures
        serves(route, uuid@, event, a),
        event is Exists && event != ServeEvent::Exists(true) ==> (a matches ServeAction::Download(u)
            && u@ == uuid@),
        event == ServeEvent::Opened(Ok(())) ==> a is SendFile,
        a is SendFile ==> event matches ServeEvent::Opened(Ok(_)),
        a is SendDownload || a is Open ==> event == ServeEvent::Exists(true) || event is Diamondagified
            || event is Generated,
        a is SendDownload ==> route == SkinRoute::Download,
{
    match event {
        ServeEvent::Started { limited } => if limited {
            ServeAction::Fail(rate_limited_error())
        } else {
            match route {
                SkinRoute::Skin => ServeAction::Generate(String::from_str(uuid)),
                _ => ServeAction::CheckExists(modified_skin_path(uuid)),
            }
        },
        ServeEvent::Generated(Ok(p)) => ServeAction::Open(p),
        ServeEvent::Generated(Err(e)) => ServeAction::Fail(e),
        ServeEvent::Exists(false) => ServeAction::Download(String::from_str(uuid)),
        ServeEvent::Downloaded => ServeAction::Diamondagify(String::from_str(uuid)),
        ServeEvent::Exists(true) | ServeEvent::Diamondagified => match route {
            SkinRoute::Download => ServeAction::SendDownload(modified_skin_path(uuid)),
            _ => ServeAction::Open(modified_skin_path(uuid)),
        },
        ServeEvent::Opened(Ok(())) => ServeAction::SendFile,
        ServeEvent::Opened(Err(reason)) => {
            let mut msg = String::from_str("Skin generation failed: ");
            msg.append(reason.as_str());
            msg.append("!");
            ServeAction::Fail(APIError(msg, Status::InternalServerError))
        },
    }
}

/// `GET /api/skin/<uuid>`: the first skin route.
pub fn skin(uuid: &str, event: ServeEvent) -> (a: ServeAction)
    requires
        serve_accepts(SkinRoute::Skin, event),
    ensures
        serves(SkinRoute::Skin, uuid@, event, a),
{
    serve_skin(SkinRoute::Skin, uuid, event)
}

/// `GET /api/skin/<uuid>/minecraft.png`: the second skin route.
pub fn skin_minecraft(uuid: &str, event: ServeEvent) -> (a: ServeAction)
    requires
        serve_accepts(SkinRoute::Minecraft, event),
    ensures
        serves(SkinRoute::Minecraft, uuid@, event, a),
{
    serve_skin(SkinRoute::Minecraft, uuid, event)
}

/// `GET /api/skin/<uuid>/download`: the third skin route.
pub fn skin_download(uuid: &str, event: ServeEvent) -> (a: ServeAction)
    requires
        serve_accepts(SkinRoute::Download, event),
    ensures
        serves(SkinRoute::Download, uuid@, event, a),
{
    serve_skin(SkinRoute::Download, uuid, event)
}

} // verus!
