//! The decisions of the `GET /profile` handler: fetch a player's skin by
//! name and answer with the composed skin.

use crate::ashcon::PlayerProfile;
use crate::json::{json_string, json_string_literal};
use crate::png::{
    channels, decode_png, decoded_png, encode_png, lemma_pixel_in_image, lemma_pixel_index, native_sample,
    png_file, PngColor,
};
use crate::skin_creation::{
    band_facts, band_laid, block_pixels, byte_at, sample_of, crop, crop_extent, decode_skin, decoded_rgba, is_decoded,
    lay_band, SkinImage, BAND_HEIGHT, BAND_WIDTH,
};
use vstd::prelude::*;
use vstd::string::*;

verus! {

/// The query of `GET /profile`: the player's name and whether the skin is
/// wanted as an attachment.
pub struct ProfileOptions {
    pub username: String,
    pub download: Option<bool>,
}

/// The body of an answer.
pub enum ReplyBody {
    /// A PNG image.
    Png(Vec<u8>),
    /// A JSON text.
    Json(String),
}

/// An answer: its content type, its content disposition if any, its body.
pub struct SkinReply {
    pub content_type: String,
    pub content_disposition: Option<String>,
    pub body: ReplyBody,
}

/// Where answering `GET /profile` stands.
pub enum GetSkinState {
    /// Waiting for the player's profile.
    FetchingProfile,
    /// Waiting for the player's skin file.
    FetchingSkin,
    /// The player's skin is decoded; waiting for the base skin's file.
    ReadingBase(SkinImage),
    /// Nothing more to do.
    Done,
}

/// What happened since the handler last decided.
pub enum GetSkinEvent {
    /// The request arrived.
    Started,
    /// The player's profile, or `None` where it could not be had.
    ProfileFetched(Option<PlayerProfile>),
    /// The bytes of the player's skin file, or `None` where they could not be had.
    SkinFetched(Option<Vec<u8>>),
    /// The bytes of the base skin's file, or `None` where it could not be read.
    BaseRead(Option<Vec<u8>>),
}

/// What the handler does next.
pub enum GetSkinAction {
    /// Fetch the profile of this player.
    FetchProfile(String),
    /// Fetch the file at this URL.
    FetchSkin(String),
    /// Read the file at this path.
    ReadBase(String),
    /// Answer with this.
    Reply(SkinReply),
    /// Something the handler takes for granted did not hold; it cannot go on.
    Abort,
}

/// The message answered for a player that cannot be found.
pub open spec fn unknown_player_message() -> Seq<char> {
    "error: shit wrong name dude"@
}

/// The JSON body answered for a player that cannot be found: a list holding
/// the message.
pub open spec fn unknown_player_json() -> Seq<char> {
    "["@ + json_string_literal(unknown_player_message()) + "]"@
}

/// The path of the base skin this handler composes onto.
pub open spec fn base_path_spec() -> Seq<char> {
    "diamonddagger.png"@
}

/// The top band of the player's skin: what `crop(0, 0, BAND_WIDTH,
/// BAND_HEIGHT)` cuts out of it.
pub open spec fn skin_top_band(skin: SkinImage) -> Seq<u8> {
    block_pixels(
        skin.pixels@,
        skin.width,
        0,
        0,
        crop_extent(skin.width, 0, BAND_WIDTH),
        crop_extent(skin.height, 0, BAND_HEIGHT),
    )
}

/// The samples of the decoded base skin `base` (width, height, layout,
/// samples) with the top band of `skin` laid over it.
pub open spec fn composed_skin(base: (u32, u32, PngColor, Seq<u16>), skin: SkinImage) -> Seq<u16> {
    band_laid(
        base.2,
        base.0,
        base.1,
        base.3,
        crop_extent(skin.width, 0, BAND_WIDTH),
        crop_extent(skin.height, 0, BAND_HEIGHT),
        skin_top_band(skin),
    )
}

/// The band cut from the player's skin is the skin's top left corner:
/// pixel (x, y) of the band is pixel (x, y) of the skin, for every pixel of
/// the band.
pub proof fn lemma_top_band_is_the_head(skin: SkinImage)
    requires
        skin.wf(),
    ensures
        forall|px: int, py: int, c: int|
            0 <= px < crop_extent(skin.width, 0, BAND_WIDTH) && 0 <= py < crop_extent(
                skin.height,
                0,
                BAND_HEIGHT,
            ) && 0 <= c < 4 ==> #[trigger] byte_at(
                skin_top_band(skin),
                crop_extent(skin.width, 0, BAND_WIDTH) as int,
                px,
                py,
                c,
            ) == skin.byte(px, py, c),
{
    let bw = crop_extent(skin.width, 0, BAND_WIDTH) as int;
    let bh = crop_extent(skin.height, 0, BAND_HEIGHT) as int;
    assert forall|px: int, py: int, c: int| 0 <= px < bw && 0 <= py < bh && 0 <= c < 4 implies #[trigger] byte_at(
        skin_top_band(skin),
        bw,
        px,
        py,
        c,
    ) == skin.byte(px, py, c) by {
        lemma_pixel_index(4, bw, px, py, c);
        lemma_pixel_in_image(bw, bh, px, py);
        assert(4 * (bw * bh) == 4 * bw * bh) by (nonlinear_arith);
    }
}

/// What laying the player's head over a `width` × `height` base with samples
/// `base` in layout `color` gives for the samples `out`: every opaque pixel
/// of the skin's top left 64 × 16 block (as far as skin and base reach) shows
/// at the same place, stored in the base's layout, and every pixel of the
/// base outside that block is kept.
pub open spec fn head_shows(
    color: PngColor,
    width: u32,
    height: u32,
    base: Seq<u16>,
    out: Seq<u16>,
    skin: SkinImage,
) -> bool {
    forall|px: int, py: int, i: int|
        0 <= px < width && 0 <= py < height && 0 <= i < channels(color) ==> {
            &&& px < 64 && px < skin.width && py < 16 && py < skin.height && skin.byte(px, py, 3)
                == 255 ==> #[trigger] sample_of(out, color, width, px, py, i) == native_sample(
                color,
                skin.byte(px, py, 0),
                skin.byte(px, py, 1),
                skin.byte(px, py, 2),
                skin.byte(px, py, 3),
                i,
            )
            &&& !(px < 64 && px < skin.width && py < 16 && py < skin.height) ==> sample_of(
                out,
                color,
                width,
                px,
                py,
                i,
            ) == sample_of(base, color, width, px, py, i)
        }
}

/// Laying the skin's top band over the base shows the player's head: every
/// opaque pixel of the skin's top left 64 × 16 block lands on the same pixel
/// of the base.
pub proof fn lemma_head_shows_through(
    base: (u32, u32, PngColor, Seq<u16>),
    skin: SkinImage,
    out: Seq<u16>,
)
    requires
        skin.wf(),
        band_facts(
            base.2,
            base.0,
            base.1,
            base.3,
            crop_extent(skin.width, 0, BAND_WIDTH),
            crop_extent(skin.height, 0, BAND_HEIGHT),
            skin_top_band(skin),
            out,
        ),
    ensures
        head_shows(base.2, base.0, base.1, base.3, out, skin),
{
    lemma_top_band_is_the_head(skin);
    let bw = crop_extent(skin.width, 0, BAND_WIDTH);
    assert forall|px: int, py: int, i: int|
        0 <= px < base.0 && 0 <= py < base.1 && 0 <= i < channels(base.2) && px < bw && py
            < crop_extent(skin.height, 0, BAND_HEIGHT) && skin.byte(px, py, 3) == 255 implies #[trigger] sample_of(
        out,
        base.2,
        base.0,
        px,
        py,
        i,
    ) == native_sample(
        base.2,
        skin.byte(px, py, 0),
        skin.byte(px, py, 1),
        skin.byte(px, py, 2),
        skin.byte(px, py, 3),
        i,
    ) by {
        assert(byte_at(skin_top_band(skin), bw as int, px, py, 0) == skin.byte(px, py, 0));
        assert(byte_at(skin_top_band(skin), bw as int, px, py, 1) == skin.byte(px, py, 1));
        assert(byte_at(skin_top_band(skin), bw as int, px, py, 2) == skin.byte(px, py, 2));
        assert(byte_at(skin_top_band(skin), bw as int, px, py, 3) == skin.byte(px, py, 3));
    }
}

/// The events the handler expects in each state.
pub open spec fn get_skin_accepts(state: GetSkinState, event: GetSkinEvent) -> bool {
    match (state, event) {
        (GetSkinState::FetchingProfile, GetSkinEvent::Started) => true,
        (GetSkinState::FetchingProfile, GetSkinEvent::ProfileFetched(_)) => true,
        (GetSkinState::FetchingSkin, GetSkinEvent::SkinFetched(_)) => true,
        (GetSkinState::ReadingBase(skin), GetSkinEvent::BaseRead(_)) => skin.wf(),
        _ => false,
    }
}

/// The answer carrying the PNG `png`, as an attachment when the query asks for one.
pub open spec fn png_reply(r: SkinReply, png: Seq<u8>, download: Option<bool>) -> bool {
    &&& r.content_type@ == "image/png"@
    &&& (r.body matches ReplyBody::Png(b) && b@ == png)
    &&& if download == Some(true) {
        r.content_disposition matches Some(d) && d@ == "attachment; filename=\"skin.png\""@
    } else {
        r.content_disposition is None
    }
}

/// What the handler asks of the outside: the profile of the player named in
/// the query, the skin file its profile points to (the URL is checked where
/// the profile is handed in) and the base skin's file, which it only reads.
pub open spec fn get_skin_touches(options: ProfileOptions, a: GetSkinAction) -> bool {
    match a {
        GetSkinAction::FetchProfile(u) => u@ == options.username@,
        GetSkinAction::ReadBase(p) => p@ == base_path_spec(),
        _ => true,
    }
}

/// What every step of the handler keeps to, from state `s` on event `e` to
/// state `next` with action `a`: it asks for the profile only when the
/// request arrives, and for the skin file only at the URL of the profile just
/// fetched; it never goes back to fetching once it has moved on.
pub open spec fn get_skin_step(
    options: ProfileOptions,
    s: GetSkinState,
    e: GetSkinEvent,
    next: GetSkinState,
    a: GetSkinAction,
) -> bool {
    &&& get_skin_touches(options, a)
    &&& (a is FetchProfile ==> s is FetchingProfile && e is Started)
    &&& (a matches GetSkinAction::FetchSkin(url) ==> s is FetchingProfile && (e matches GetSkinEvent::ProfileFetched(
        Some(p),
    ) && url@ == p.textures.skin.url@))
    &&& (next is FetchingProfile ==> s is FetchingProfile && e is Started)
    &&& (next is FetchingSkin ==> s is FetchingProfile && e is ProfileFetched)
}

/// Once a run of the handler has left `FetchingProfile` it never comes back.
proof fn lemma_no_return(
    options: ProfileOptions,
    states: Seq<GetSkinState>,
    events: Seq<GetSkinEvent>,
    actions: Seq<GetSkinAction>,
    i: int,
    j: int,
)
    requires
        states.len() == events.len() + 1,
        actions.len() == events.len(),
        forall|k: int|
            0 <= k < events.len() ==> get_skin_step(
                options,
                #[trigger] states[k],
                events[k],
                states[k + 1],
                actions[k],
            ),
        0 <= i <= j < states.len(),
        !(states[i] is FetchingProfile),
    ensures
        !(states[j] is FetchingProfile),
    decreases j - i,
{
    if j > i {
        lemma_no_return(options, states, events, actions, i, j - 1);
        assert(get_skin_step(options, states[j - 1], events[j - 1], states[j], actions[j - 1]));
    }
}

/// Over any run of the handler (`states[i]` and `events[i]` give
/// `states[i + 1]` and `actions[i]`): the player's profile is asked for only
/// when a request arrives, under the queried name; the skin file is fetched
/// at most once, from the URL of the profile that was just fetched; the only
/// file touched is the base skin, which is only read.
pub proof fn lemma_get_skin_run(
    options: ProfileOptions,
    states: Seq<GetSkinState>,
    events: Seq<GetSkinEvent>,
    actions: Seq<GetSkinAction>,
)
    requires
        states.len() == events.len() + 1,
        actions.len() == events.len(),
        forall|i: int|
            0 <= i < events.len() ==> get_skin_step(
                options,
                #[trigger] states[i],
                events[i],
                states[i + 1],
                actions[i],
            ),
    ensures
        forall|i: int|
            0 <= i < actions.len() && #[trigger] actions[i] is FetchProfile ==> events[i] is Started
                && (actions[i] matches GetSkinAction::FetchProfile(u) && u@ == options.username@),
        forall|i: int|
            0 <= i < actions.len() && #[trigger] actions[i] is FetchSkin ==> (actions[i] matches GetSkinAction::FetchSkin(url)
                && events[i] matches GetSkinEvent::ProfileFetched(Some(p)) && url@ == p.textures.skin.url@),
        forall|i: int, j: int|
            0 <= i < j < actions.len() && #[trigger] actions[i] is FetchSkin ==> !(#[trigger] actions[j] is FetchSkin),
        forall|i: int|
            0 <= i < actions.len() && #[trigger] actions[i] is ReadBase ==> (actions[i] matches GetSkinAction::ReadBase(p)
                && p@ == base_path_spec()),
{
    assert forall|i: int| 0 <= i < actions.len() && #[trigger] actions[i] is FetchProfile implies events[i] is Started
        && (actions[i] matches GetSkinAction::FetchProfile(u) && u@ == options.username@) by {
        assert(get_skin_step(options, states[i], events[i], states[i + 1], actions[i]));
    }
    assert forall|i: int| 0 <= i < actions.len() && #[trigger] actions[i] is FetchSkin implies (actions[i] matches GetSkinAction::FetchSkin(url)
        && events[i] matches GetSkinEvent::ProfileFetched(Some(p)) && url@ == p.textures.skin.url@) by {
        assert(get_skin_step(options, states[i], events[i], states[i + 1], actions[i]));
    }
    assert forall|i: int, j: int|
        0 <= i < j < actions.len() && #[trigger] actions[i] is FetchSkin implies !(#[trigger] actions[j] is FetchSkin) by {
        assert(get_skin_step(options, states[i], events[i], states[i + 1], actions[i]));
        assert(get_skin_step(options, states[j], events[j], states[j + 1], actions[j]));
        if states[i + 1] is FetchingProfile {
        }
        lemma_no_return(options, states, events, actions, i + 1, j);
    }
    assert forall|i: int| 0 <= i < actions.len() && #[trigger] actions[i] is ReadBase implies (actions[i] matches GetSkinAction::ReadBase(p)
        && p@ == base_path_spec()) by {
        assert(get_skin_step(options, states[i], events[i], states[i + 1], actions[i]));
    }
}

/// The next step of `GET /profile?username=<name>[&download=<bool>]`: fetch
/// the player's profile (an unknown player is answered with a JSON error),
/// fetch and decode the skin its textures point to, read and decode the base
/// skin as PNG, lay the skin's top band over it and answer with the PNG, in the
/// base skin's own sample layout, as an attachment when `download` is true. A skin file that cannot be fetched or
/// decoded, a base skin that cannot be read or decoded or a result that cannot
/// be encoded stop the handler.
pub fn get_skin(options: &ProfileOptions, state: GetSkinState, event: GetSkinEvent) -> (r: (
    GetSkinState,
    GetSkinAction,
))
    requires
        get_skin_accepts(state, event),
    ensures
        get_skin_touches(*options, r.1),
        get_skin_step(*options, state, event, r.0, r.1),
        match (state, event) {
            (GetSkinState::FetchingProfile, GetSkinEvent::Started) => {
                &&& r.0 is FetchingProfile
                &&& (r.1 matches GetSkinAction::FetchProfile(u) && u@ == options.username@)
            },
            (GetSkinState::FetchingProfile, GetSkinEvent::ProfileFetched(None)) => {
                &&& r.0 is Done
                &&& (r.1 matches GetSkinAction::Reply(reply) && {
                    &&& reply.content_type@ == "application/json"@
                    &&& reply.content_disposition is None
                    &&& (reply.body matches ReplyBody::Json(j) && j@ == unknown_player_json())
                })
            },
            (GetSkinState::FetchingProfile, GetSkinEvent::ProfileFetched(Some(p))) => {
                &&& r.0 is FetchingSkin
                &&& (r.1 matches GetSkinAction::FetchSkin(url) && url@ == p.textures.skin.url@)
            },
            (GetSkinState::FetchingSkin, GetSkinEvent::SkinFetched(None)) => r.0 is Done
                && r.1 is Abort,
            (GetSkinState::FetchingSkin, GetSkinEvent::SkinFetched(Some(bytes))) => match decoded_rgba(
                bytes@,
            ) {
                Ok(t) => {
                    &&& (r.0 matches GetSkinState::ReadingBase(skin) && is_decoded(skin, t))
                    &&& (r.1 matches GetSkinAction::ReadBase(p) && p@ == base_path_spec())
                },
                Err(_) => r.0 is Done && r.1 is Abort,
            },
            (GetSkinState::ReadingBase(_), GetSkinEvent::BaseRead(None)) => r.0 is Done && r.1
                is Abort,
            (GetSkinState::ReadingBase(skin), GetSkinEvent::BaseRead(Some(bytes))) => {
                &&& r.0 is Done
                &&& match decoded_png(bytes@) {
                    Err(_) => r.1 is Abort,
                    Ok(t) => band_facts(
                        t.2,
                        t.0,
                        t.1,
                        t.3,
                        crop_extent(skin.width, 0, BAND_WIDTH),
                        crop_extent(skin.height, 0, BAND_HEIGHT),
                        skin_top_band(skin),
                        composed_skin(t, skin),
                    ) && head_shows(t.2, t.0, t.1, t.3, composed_skin(t, skin), skin) && match png_file(
                        t.0,
                        t.1,
                        t.2,
                        composed_skin(t, skin),
                    ) {
                        Err(_) => r.1 is Abort,
                        Ok(png) => r.1 matches GetSkinAction::Reply(reply) && png_reply(
                            reply,
                            png,
                            options.download,
                        ),
                    },
                }
            },
            _ => false,
        },
{
    match (state, event) {
        (GetSkinState::FetchingProfile, GetSkinEvent::Started) => (
            GetSkinState::FetchingProfile,
            GetSkinAction::FetchProfile(options.username.clone()),
        ),
        (GetSkinState::FetchingProfile, GetSkinEvent::ProfileFetched(None)) => {
            let mut body = String::from_str("[");
            let message = json_string("error: shit wrong name dude");
            body.append(message.as_str());
            body.append("]");
            let reply = SkinReply {
                content_type: String::from_str("application/json"),
                content_disposition: None,
                body: ReplyBody::Json(body),
            };
            (GetSkinState::Done, GetSkinAction::Reply(reply))
        },
        (GetSkinState::FetchingProfile, GetSkinEvent::ProfileFetched(Some(p))) => (
            GetSkinState::FetchingSkin,
            GetSkinAction::FetchSkin(p.textures.skin.url),
        ),
        (GetSkinState::FetchingSkin, GetSkinEvent::SkinFetched(Some(bytes))) => {
            match decode_skin(bytes.as_slice()) {
                Some(skin) => (
                    GetSkinState::ReadingBase(skin),
                    GetSkinAction::ReadBase(String::from_str("diamonddagger.png")),
                ),
                None => (GetSkinState::Done, GetSkinAction::Abort),
            }
        },
        (GetSkinState::ReadingBase(skin), GetSkinEvent::BaseRead(Some(bytes))) => {
            match decode_png(bytes.as_slice()) {
                Ok(base) => {
                    let band = crop(&skin, 0, 0, BAND_WIDTH, BAND_HEIGHT);
                    let composed = lay_band(&base, &band);
                    proof {
                        lemma_head_shows_through(
                            (base.width, base.height, base.color, base.samples@),
                            skin,
                            composed.samples@,
                        );
                    }
                    match encode_png(&composed) {
                        Ok(png) => {
                            let attachment = match options.download {
                                Some(true) => Some(
                                    String::from_str("attachment; filename=\"skin.png\""),
                                ),
                                _ => None,
                            };
                            let reply = SkinReply {
                                content_type: String::from_str("image/png"),
                                content_disposition: attachment,
                                body: ReplyBody::Png(png),
                            };
                            (GetSkinState::Done, GetSkinAction::Reply(reply))
                        },
                        Err(_) => (GetSkinState::Done, GetSkinAction::Abort),
                    }
                },
                Err(_) => (GetSkinState::Done, GetSkinAction::Abort),
            }
        },
        (_, _) => (GetSkinState::Done, GetSkinAction::Abort),
    }
}

} // verus!
