//! A player's profile as the Ashcon API describes it.

use vstd::prelude::*;
use vstd::string::*;

verus! {

/// A JSON value, carried through as it was read.
#[verifier::external_type_specification]
#[verifier::external_body]
pub struct ExJsonValue(serde_json::Value);

/// A player's profile: UUID, current name, earlier names, textures and the
/// account's creation date as given.
pub struct PlayerProfile {
    pub uuid: String,
    pub username: String,
    pub username_history: Vec<UsernameHistory>,
    pub textures: Textures,
    pub created_at: Option<serde_json::Value>,
}

/// The textures of a player.
pub struct Textures {
    pub custom: bool,
    pub slim: bool,
    pub skin: Skin,
    pub raw: Raw,
}

/// The textures property as Mojang signs it.
pub struct Raw {
    pub value: String,
    pub signature: String,
}

/// A player's skin: where it is served and its data.
pub struct Skin {
    pub url: String,
    pub data: String,
}

/// A name a player has had, and since when.
pub struct UsernameHistory {
    pub username: String,
    pub changed_at: Option<String>,
}

/// The Ashcon URL of the profile of `username`.
pub open spec fn profile_url_spec(username: Seq<char>) -> Seq<char> {
    "https://api.ashcon.app/mojang/v2/user/"@ + username
}

/// The URL at which the profile of `username` is fetched.
pub fn profile_url(username: &str) -> (r: String)
    ensures
        r@ == profile_url_spec(username@),
{
    let mut url = String::from_str("https://api.ashcon.app/mojang/v2/user/");
    url.append(username);
    url
}

} // verus!
