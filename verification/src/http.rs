//! The HTTP endpoints: what they answer, and who may open a session.
use crate::config::Config;
use crate::json::{empty_object, Json, JsonTree};
use crate::text::{concat, same, trim, trimmed};
use vstd::prelude::*;

verus! {

/// The answer of the health endpoint.
pub fn health() -> (r: Json)
    ensures
        r.tree() == empty_object().with("status"@, JsonTree::Str("ok"@)),
{
    Json::object().with("status", Json::str("ok"))
}

/// The firmware that is offered: none.
pub open spec fn firmware_tree() -> JsonTree {
    empty_object().with("version"@, JsonTree::Str("0.0.0"@)).with("force"@, JsonTree::Int(0))
}

/// Where sessions are opened.
pub open spec fn websocket_tree(url: Seq<char>, token: Seq<char>) -> JsonTree {
    empty_object().with("url"@, JsonTree::Str(url)).with("token"@, JsonTree::Str(token)).with(
        "version"@,
        JsonTree::Int(1),
    )
}

/// The time, in milliseconds since the epoch, and the offset of the time zone in
/// minutes.
pub open spec fn server_time_tree(timestamp: u64) -> JsonTree {
    empty_object().with("timestamp"@, JsonTree::Int(timestamp as int)).with(
        "timezone_offset"@,
        JsonTree::Int(480),
    )
}

/// The answer of the update endpoint.
pub open spec fn ota_tree(url: Seq<char>, token: Seq<char>, timestamp: u64) -> JsonTree {
    empty_object().with("firmware"@, firmware_tree()).with(
        "websocket"@,
        websocket_tree(url, token),
    ).with("server_time"@, server_time_tree(timestamp))
}

/// The answer of the update endpoint at a time in milliseconds since the epoch.
pub fn ota(config: &Config, timestamp: u64) -> (r: Json)
    ensures
        r.tree() == ota_tree(config.public_ws_url@, config.token@, timestamp),
{
    let firmware = Json::object().with("version", Json::str("0.0.0")).with("force", Json::UInt(0));
    let websocket = Json::object().with("url", Json::str(config.public_ws_url.as_str())).with(
        "token",
        Json::str(config.token.as_str()),
    ).with("version", Json::UInt(1));
    let server_time = Json::object().with("timestamp", Json::UInt(timestamp)).with(
        "timezone_offset",
        Json::UInt(480),
    );
    Json::object().with("firmware", firmware).with("websocket", websocket).with(
        "server_time",
        server_time,
    )
}

/// An empty token lets everyone in, and so does a missing header: boards can be
/// debugged before they are provisioned. A header has to hold the token, alone or
/// after `Bearer `.
pub open spec fn authorized(token: Seq<char>, header: Option<Seq<char>>) -> bool {
    token.len() == 0 || match header {
        Some(h) => trimmed(h) == token || trimmed(h) == "Bearer "@ + token,
        None => true,
    }
}

/// Whether a session may be opened with the text of this authorization header.
pub fn is_authorized(config: &Config, header: Option<&str>) -> (r: bool)
    ensures
        r == authorized(config.token@, crate::text::opt_str(header)),
{
    if config.token.as_str().is_empty() {
        return true;
    }
    match header {
        Some(h) => {
            let h = trim(h);
            let bearer = concat("Bearer ", config.token.as_str());
            same(h, config.token.as_str()) || same(h, bearer.as_str())
        },
        None => true,
    }
}

/// A header that names neither the token nor, after `Bearer `, the token is
/// refused.
pub proof fn law_wrong_token_is_refused(token: Seq<char>, header: Seq<char>)
    requires
        token.len() > 0,
        trimmed(header) != token,
        trimmed(header) != "Bearer "@ + token,
    ensures
        !authorized(token, Some(header)),
{
}

/// The members of the answer of the update endpoint.
pub proof fn law_update_answer(url: Seq<char>, token: Seq<char>, timestamp: u64)
    ensures
        ota_tree(url, token, timestamp) == JsonTree::Object(
            map![
                "firmware"@ => JsonTree::Object(
                    map!["version"@ => JsonTree::Str("0.0.0"@), "force"@ => JsonTree::Int(0)],
                ),
                "websocket"@ => JsonTree::Object(
                    map![
                        "url"@ => JsonTree::Str(url),
                        "token"@ => JsonTree::Str(token),
                        "version"@ => JsonTree::Int(1),
                    ],
                ),
                "server_time"@ => JsonTree::Object(
                    map![
                        "timestamp"@ => JsonTree::Int(timestamp as int),
                        "timezone_offset"@ => JsonTree::Int(480),
                    ],
                ),
            ],
        ),
{
}

/// A header that holds the token, alone or after `Bearer `, with white space around it
/// at most, lets a device in; so does an empty token, and a missing header.
pub proof fn law_token_lets_in(
    token: Seq<char>,
    before: Seq<char>,
    after: Seq<char>,
    header: Option<Seq<char>>,
)
    requires
        forall|i: int| 0 <= i < before.len() ==> crate::text::is_white_space(#[trigger] before[i]),
        forall|i: int| 0 <= i < after.len() ==> crate::text::is_white_space(#[trigger] after[i]),
        token.len() > 0 ==> !crate::text::is_white_space(token[0])
            && !crate::text::is_white_space(token.last()),
    ensures
        token.len() == 0 ==> authorized(token, header),
        authorized(token, None),
        authorized(token, Some(before + token + after)),
        authorized(token, Some(before + ("Bearer "@ + token) + after)),
{
    if token.len() > 0 {
        reveal_strlit("Bearer ");
        let bearer = "Bearer "@ + token;
        assert(bearer[0] == 'B');
        assert(bearer.last() == token.last());
        crate::text::law_trimming(before, token, after);
        crate::text::law_trimming(before, bearer, after);
    }
}

} // verus!
