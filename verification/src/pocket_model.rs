//! Data types for the saved-articles subsystem: requests, responses and the
//! source classification of a saved item.

use vstd::prelude::*;

verus! {

/// The answer handed to a user asked to connect their account.
pub struct PockerUrlResponse {
    pub url: String,
    pub code: String,
    pub is_connected: bool,
}

/// The body of a request-code answer.
pub struct PocketCodeResponseBody {
    pub code: String,
}

/// The body of an access-token answer.
pub struct PocketTokenResponseBody {
    /// The access token for the user.
    pub access_token: String,
    /// The name of the user.
    pub username: String,
    /// The state that was passed in the request.
    pub state: String,
}

/// One item to push to the saved-articles service.
pub struct PocketPushData {
    /// The url to push.
    pub url: String,
    /// The title of the url.
    pub title: String,
    /// The tags to add to the url.
    pub tags: String,
}

/// Video metadata attached to a saved item.
#[derive(Clone, Debug, PartialEq, Eq)]
pub struct DtkPocketVideoData {
    pub item_id: u16,
    pub video_id: u8,
    pub src: String,
    pub width: u8,
    pub height: u8,
    pub kind: u8,
    pub vid: u16,
    pub length: u16,
}

/// Where a saved item came from.
pub enum PocketSrcType {
    INSTAGRAM,
    TWITTER,
    YOUTUBE,
    GITHUB,
    ARTICLE,
}

impl PocketSrcType {
    /// The tag text of the source type.
    pub fn to_string(&self) -> (r: &'static str)
        ensures
            r@ == match *self {
                PocketSrcType::INSTAGRAM => "instagram"@,
                PocketSrcType::TWITTER => "twitter"@,
                PocketSrcType::YOUTUBE => "youtube"@,
                PocketSrcType::GITHUB => "github"@,
                PocketSrcType::ARTICLE => "article"@,
            },
    {
        match self {
            PocketSrcType::INSTAGRAM => "instagram",
            PocketSrcType::TWITTER => "twitter",
            PocketSrcType::YOUTUBE => "youtube",
            PocketSrcType::GITHUB => "github",
            PocketSrcType::ARTICLE => "article",
        }
    }
}

} // verus!
