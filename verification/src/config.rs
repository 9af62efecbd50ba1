//! Where the server listens and what it tells devices.
use crate::env::{is_off, means_off, or, or_text, Env};
use crate::text::{concat, decimal, decimal_text, lowered, to_ascii_lowercase};
use vstd::prelude::*;

verus! {

/// The server's own settings. The address is kept as text; its port is known once
/// it has been resolved.
#[derive(Clone, Debug)]
pub struct Config {
    pub bind: String,
    pub public_ws_url: String,
    pub token: String,
}

/// The address to listen on.
pub open spec fn bind_text(env: Env) -> Seq<char> {
    or_text(env.var("XIAOZHI_BIND"@), "0.0.0.0:8080"@)
}

/// The address to listen on.
pub fn bind_address(env: &Env) -> (r: String)
    ensures
        r@ == bind_text(*env),
{
    or(env.get("XIAOZHI_BIND"), "0.0.0.0:8080")
}

/// The address that devices connect to, unless it is set.
pub open spec fn default_ws_url(port: u16) -> Seq<char> {
    "ws://127.0.0.1:"@ + decimal_text(port as nat) + "/ws"@
}

impl Config {
    /// The settings, given the port of the address to listen on.
    pub fn from_env(env: &Env, port: u16) -> (r: Config)
        ensures
            r.bind@ == bind_text(*env),
            r.public_ws_url@ == or_text(env.var("XIAOZHI_PUBLIC_WS_URL"@), default_ws_url(port)),
            r.token@ == or_text(env.var("XIAOZHI_TOKEN"@), "dev-token"@),
    {
        let url = concat("ws://127.0.0.1:", decimal(port as u64).as_str());
        let url = concat(url.as_str(), "/ws");
        Config {
            bind: bind_address(env),
            public_ws_url: or(env.get("XIAOZHI_PUBLIC_WS_URL"), url.as_str()),
            token: or(env.get("XIAOZHI_TOKEN"), "dev-token"),
        }
    }
}

/// Whether voice activity detection is switched on.
pub open spec fn vad_enabled(env: Env) -> bool {
    !means_off(lowered(or_text(env.var("XIAOZHI_VAD_PROVIDER"@), "silero"@)))
}

/// Whether voice activity detection is switched on.
pub fn vad_enabled_from_env(env: &Env) -> (r: bool)
    ensures
        r == vad_enabled(*env),
{
    let provider = or(env.get("XIAOZHI_VAD_PROVIDER"), "silero");
    !is_off(to_ascii_lowercase(provider.as_str()).as_str())
}

/// Whether speaker identification is switched on.
pub open spec fn speaker_id_enabled(env: Env) -> bool {
    !means_off(
        lowered(or_text(env.var2("XIAOZHI_SPEAKER_PROVIDER"@, "SPEAKER_PROVIDER"@), "none"@)),
    )
}

/// Whether speaker identification is switched on.
pub fn speaker_id_enabled_from_env(env: &Env) -> (r: bool)
    ensures
        r == speaker_id_enabled(*env),
{
    let provider = or(env.get2("XIAOZHI_SPEAKER_PROVIDER", "SPEAKER_PROVIDER"), "none");
    !is_off(to_ascii_lowercase(provider.as_str()).as_str())
}

/// The inference runtime is loaded only if something uses it.
pub fn needs_onnx_runtime(env: &Env) -> (r: bool)
    ensures
        r == (vad_enabled(*env) || speaker_id_enabled(*env)),
{
    vad_enabled_from_env(env) || speaker_id_enabled_from_env(env)
}

/// Where nothing is set, the server listens on port 8080 of all addresses and sends
/// devices to this machine; what is set takes the place of that.
pub proof fn law_server_settings(env: Env, port: u16, bind: Seq<char>)
    ensures
        env.var("XIAOZHI_BIND"@) is None ==> bind_text(env) == "0.0.0.0:8080"@,
        env.var("XIAOZHI_BIND"@) == Some(bind) ==> bind_text(env) == bind,
        default_ws_url(port) == "ws://127.0.0.1:"@ + decimal_text(port as nat) + "/ws"@,
{
}

/// Voice detection is on and speaker identification off unless something else is set.
pub proof fn law_detectors_are_switched(env: Env, s: Seq<char>)
    ensures
        env.var("XIAOZHI_VAD_PROVIDER"@) is None ==> vad_enabled(env),
        env.var("XIAOZHI_VAD_PROVIDER"@) == Some(s) ==> vad_enabled(env) == !(lowered(s) == "none"@
            || lowered(s) == "off"@ || lowered(s) == "disabled"@ || lowered(s) == "false"@
            || lowered(s) == "0"@),
        env.var("XIAOZHI_SPEAKER_PROVIDER"@) is None && env.var("SPEAKER_PROVIDER"@) is None
            ==> !speaker_id_enabled(env),
        env.var("XIAOZHI_SPEAKER_PROVIDER"@) == Some(s) ==> speaker_id_enabled(env) == !(lowered(s)
            == "none"@ || lowered(s) == "off"@ || lowered(s) == "disabled"@ || lowered(s)
            == "false"@ || lowered(s) == "0"@),
        env.var("XIAOZHI_SPEAKER_PROVIDER"@) is None && env.var("SPEAKER_PROVIDER"@) == Some(s)
            ==> speaker_id_enabled(env) == !(lowered(s) == "none"@ || lowered(s) == "off"@
            || lowered(s) == "disabled"@ || lowered(s) == "false"@ || lowered(s) == "0"@),
{
    reveal_strlit("silero");
    reveal_strlit("none");
    reveal_strlit("off");
    reveal_strlit("disabled");
    reveal_strlit("false");
    reveal_strlit("0");
    assert(lowered("silero"@)[0] == 's');
    assert("disabled"@[0] == 'd' && "none"@[0] == 'n' && "off"@[0] == 'o' && "false"@[0] == 'f'
        && "0"@[0] == '0');
    assert(lowered("none"@) =~= "none"@);
}

} // verus!
