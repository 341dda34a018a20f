//! Configuration consumed by the supervisor: poll and idle intervals, the
//! status-listing text and the login-refusal text, and the optional server
//! icon, already Base64-encoded.  Discovering and parsing the
//! configuration file is the caller's business; the library only fixes the
//! defaults and encodes the icon bytes.

use vstd::prelude::*;

verus! {

/// A name for what base64's STANDARD engine returns for a byte sequence;
/// it depends on the bytes alone.
pub uninterp spec fn base64_standard_of(bytes: Seq<u8>) -> Seq<char>;

/// Relies on base64's `Engine::encode` with the STANDARD (padded)
/// alphabet: the encoding is a function of the input bytes alone.
#[verifier::external_body]
fn encode_base64(bytes: &[u8]) -> (r: String)
    ensures
        r@ == base64_standard_of(bytes@),
{
    base64::Engine::encode(&base64::engine::general_purpose::STANDARD, bytes)
}

/// The frozen configuration record.
pub struct Config {
    /// Seconds between two polls of the admin channel.
    pub rcon_poll_interval: u64,
    /// Seconds without players after which the server is stopped.
    pub rcon_idle_timeout: u64,
    /// Status-listing description text.
    pub motd_text: String,
    /// Status-listing description color.
    pub motd_color: String,
    /// Whether the status-listing description is bold.
    pub motd_bold: bool,
    /// The 64 by 64 server icon, Base64-encoded, if one exists.
    pub server_icon: Option<String>,
    /// Login-refusal message text.
    pub connection_msg_text: String,
    /// Login-refusal message color.
    pub connection_msg_color: String,
    /// Whether the login-refusal message is bold.
    pub connection_msg_bold: bool,
    /// Name of the directory the configuration file lives in.
    pub config_directory_name: String,
}

impl Default for Config {
    /// The defaults that hold wherever the configuration file is absent or
    /// leaves a field out.
    fn default() -> (c: Config)
        ensures
            c.rcon_poll_interval == 60,
            c.rcon_idle_timeout == 600,
            c.motd_text@ == "Napping... Join to start server"@,
            c.motd_color@ == "aqua"@,
            c.motd_bold == true,
            c.server_icon is None,
            c.connection_msg_text@ == "Server is now starting up. Please wait and try again shortly..."@,
            c.connection_msg_color@ == "light_purple"@,
            c.connection_msg_bold == true,
            c.config_directory_name@ == "config"@,
    {
        Config {
            rcon_poll_interval: 60,
            rcon_idle_timeout: 600,
            motd_text: "Napping... Join to start server".to_owned(),
            motd_color: "aqua".to_owned(),
            motd_bold: true,
            server_icon: None,
            connection_msg_text: "Server is now starting up. Please wait and try again shortly..."
                .to_owned(),
            connection_msg_color: "light_purple".to_owned(),
            connection_msg_bold: true,
            config_directory_name: "config".to_owned(),
        }
    }
}

/// Base64-encode the bytes of the server icon for the status listing's
/// favicon field.
pub fn convert_servericon_to_base64(image_bytes: &[u8]) -> (r: String)
    ensures
        r@ == base64_standard_of(image_bytes@),
{
    encode_base64(image_bytes)
}

} // verus!
