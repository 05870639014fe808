//! Command dispatch outcomes.
//!
//! The control channel answers each command with a reserved response
//! name (`_result`, `_error`, `onStatus`) and, for stream operations, a
//! status code. The functions here fix those pairings: what a publish
//! attempt reports for each registry outcome, what a play start emits,
//! and which response name a command uses. The host serializes these
//! over AMF0 and the chunk layer.

use vstd::prelude::*;

use crate::registry::RegistryError;

verus! {

/// The status code an `onStatus` response carries for a publish attempt:
/// success for a granted key, BadName when the key is already owned.
pub fn publish_status_code(result: &Result<(), RegistryError>) -> (r: &'static str)
    ensures
        result is Ok ==> r@ == "NetStream.Publish.Start"@,
        result is Err ==> r@ == "NetStream.Publish.BadName"@,
{
    match result {
        Ok(_) => "NetStream.Publish.Start",
        Err(_) => "NetStream.Publish.BadName",
    }
}

/// The two status codes a successful play start emits, in order: the
/// reset notice, then the start notice.
pub fn play_status_codes() -> (r: (&'static str, &'static str))
    ensures
        r.0@ == "NetStream.Play.Reset"@,
        r.1@ == "NetStream.Play.Start"@,
{
    ("NetStream.Play.Reset", "NetStream.Play.Start")
}

/// The status code of a successful connect response.
pub fn connect_status_code() -> (r: &'static str)
    ensures
        r@ == "NetConnection.Connect.Success"@,
{
    "NetConnection.Connect.Success"
}

/// The level field accompanying a success status.
pub fn status_level() -> (r: &'static str)
    ensures
        r@ == "status"@,
{
    "status"
}

/// Whether a command is answered with `_result` (connect and
/// createStream), with `onStatus` (publish and play), or not at all
/// (the OBS-compatibility no-ops and everything unknown).
pub fn response_name_for(command: &str) -> (r: Option<&'static str>)
    ensures
        (command@ == "connect"@ || command@ == "createStream"@) ==> (r matches Some(n) && n@
            == "_result"@),
        (command@ == "publish"@ || command@ == "play"@) ==> (r matches Some(n) && n@
            == "onStatus"@),
        (command@ == "releaseStream"@ || command@ == "FCPublish"@) ==> r is None,
{
    proof {
        reveal_strlit("connect");
        reveal_strlit("createStream");
        reveal_strlit("publish");
        reveal_strlit("play");
        reveal_strlit("releaseStream");
        reveal_strlit("FCPublish");
        assert(("connect"@)[0] != ("publish"@)[0]);
        assert("connect"@ != "publish"@);
        assert(("connect"@).len() == 7);
        assert(("createStream"@).len() == 12);
        assert(("publish"@).len() == 7);
        assert(("play"@).len() == 4);
        assert(("releaseStream"@).len() == 13);
        assert(("FCPublish"@).len() == 9);
    }
    if str_matches(command, "connect") || str_matches(command, "createStream") {
        Some("_result")
    } else if str_matches(command, "publish") || str_matches(command, "play") {
        Some("onStatus")
    } else {
        None
    }
}

fn str_matches(s: &str, lit: &str) -> (r: bool)
    ensures
        r == (s@ == lit@),
{
    let a = String::from_str(s);
    let b = String::from_str(lit);
    a == b
}

} // verus!
