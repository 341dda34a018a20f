//! Precomputed response packets: the status-listing response and the
//! login-refusal response, derived once from the configuration and shared
//! read-only afterwards.  Both are length-prefixed packets with id 0 whose
//! body is a length-prefixed UTF-8 JSON document.

use vstd::prelude::*;
use vstd::string::StringExecFns;
use vstd::string::StringSliceAdditionalSpecFns;

use crate::config::Config;
use crate::varint::lemma_varint_enc_len;
use crate::varint::varint_enc;
use crate::varint::write_varint;

verus! {

/// A name for the JSON string literal (opening quote, escaped characters,
/// closing quote, as UTF-8 bytes) that serde_json writes for a string; it
/// depends on the characters alone.
pub uninterp spec fn json_string_bytes(s: Seq<char>) -> Seq<u8>;

/// Relies on serde_json::to_string on `&str`, which writes the JSON
/// string literal for it and cannot fail on a string.
#[verifier::external_body]
fn json_quote(s: &str) -> (r: Vec<u8>)
    ensures
        r@ == json_string_bytes(s@),
{
    serde_json::to_string(s).unwrap().into_bytes()
}

/// The UTF-8 bytes of a JSON boolean.
pub open spec fn json_bool_bytes(b: bool) -> Seq<u8> {
    if b {
        ("true").spec_bytes()
    } else {
        ("false").spec_bytes()
    }
}

/// The JSON document `{"text":<text>,"color":<color>,"bold":<bold>}`, as
/// UTF-8 bytes with both strings JSON-escaped.
pub open spec fn text_component_json(text: Seq<char>, color: Seq<char>, bold: bool) -> Seq<u8> {
    ("{\"text\":").spec_bytes() + json_string_bytes(text) + (",\"color\":").spec_bytes()
        + json_string_bytes(color) + (",\"bold\":").spec_bytes() + json_bool_bytes(bold) + (
    "}").spec_bytes()
}

/// The status-listing JSON document: a fixed version and players header, a
/// text component as description, and, when an icon is present, a favicon
/// data URL holding its Base64 encoding.
pub open spec fn listing_json(
    text: Seq<char>,
    color: Seq<char>,
    bold: bool,
    icon: Option<Seq<char>>,
) -> Seq<u8> {
    (
    "{\"version\":{\"name\":\"MCServerNap (1.20.5)\",\"protocol\":766},\"players\":{\"max\":0,\"online\":0,\"sample\":[]},\"description\":{\"text\":").spec_bytes()
        + json_string_bytes(text) + (",\"color\":").spec_bytes() + json_string_bytes(color) + (
    ",\"bold\":").spec_bytes() + json_bool_bytes(bold) + ("}").spec_bytes() + (match icon {
        Option::None => Seq::<u8>::empty(),
        Option::Some(ic) => (",\"favicon\":").spec_bytes() + json_string_bytes(
            ("data:image/png;base64,")@ + ic,
        ),
    }) + ("}").spec_bytes()
}

/// Whether a JSON document is small enough for the packet framing, whose
/// length prefixes are signed 32-bit varints.
pub open spec fn packet_fits(json: Seq<u8>) -> bool {
    json.len() + 6 <= 0x7fff_ffff
}

/// The wire-format packet around a JSON document:
/// `varint(totalLen) | varint(0) | varint(jsonLen) | jsonBytes`.
pub open spec fn framed_packet(json: Seq<u8>) -> Seq<u8> {
    let body = varint_enc(0) + varint_enc(json.len() as u32) + json;
    varint_enc(body.len() as u32) + body
}

/// The login-refusal JSON for this configuration.
pub open spec fn starting_message_json_of(c: Config) -> Seq<u8> {
    text_component_json(c.connection_msg_text@, c.connection_msg_color@, c.connection_msg_bold)
}

/// The status-listing JSON for this configuration.
pub open spec fn motd_json_of(c: Config) -> Seq<u8> {
    listing_json(
        c.motd_text@,
        c.motd_color@,
        c.motd_bold,
        match c.server_icon {
            Option::None => Option::None,
            Option::Some(s) => Option::Some(s@),
        },
    )
}

/// Append the UTF-8 bytes of a string slice to a byte buffer.
fn push_str_bytes(out: &mut Vec<u8>, s: &str)
    ensures
        final(out)@ == old(out)@ + s.spec_bytes(),
{
    let bs: &[u8] = s.as_bytes();
    let n: usize = bs.len();
    let mut i: usize = 0;
    while i < n
        invariant
            i <= n,
            n == bs@.len(),
            bs@ == s.spec_bytes(),
            out@ == old(out)@ + bs@.take(i as int),
        decreases n - i,
    {
        out.push(bs[i]);
        proof {
            assert(old(out)@ + bs@.take(i as int) + seq![bs@[i as int]] =~= old(out)@ + bs@.take(
                i as int + 1,
            ));
        }
        i = i + 1;
    }
    proof {
        assert(bs@.take(n as int) =~= bs@);
    }
}

/// Frame a JSON document as a packet with id 0 and the two length
/// prefixes.
fn frame_packet(json: Vec<u8>) -> (r: Vec<u8>)
    requires
        packet_fits(json@),
    ensures
        r@ == framed_packet(json@),
{
    let json_len: usize = json.len();
    let mut body: Vec<u8> = Vec::new();
    write_varint(0, &mut body);
    write_varint(json_len as i32, &mut body);
    proof {
        assert((json_len as i32) as u32 == json_len as u32);
        lemma_varint_enc_len(0);
        lemma_varint_enc_len(json_len as u32);
    }
    let mut json_bytes: Vec<u8> = json;
    body.append(&mut json_bytes);
    let body_len: usize = body.len();
    let mut packet: Vec<u8> = Vec::new();
    write_varint(body_len as i32, &mut packet);
    packet.append(&mut body);
    proof {
        assert((body_len as i32) as u32 == body_len as u32);
    }
    packet
}

/// The two response packets, derived once from the configuration.
pub struct PreserializedPackets {
    /// The login-refusal packet, written to a client that tries to join
    /// while the server is not running.
    pub starting_message_packet: Vec<u8>,
    /// The status-listing packet, written to a probing client.
    pub motd_packet: Vec<u8>,
}

impl PreserializedPackets {
    /// Build both packets from the configuration.  A document too large
    /// for the 32-bit packet framing leaves the corresponding packet
    /// empty.
    pub fn new(config: &Config) -> (p: Self)
        ensures
            packet_fits(starting_message_json_of(*config)) ==> p.starting_message_packet@
                == framed_packet(starting_message_json_of(*config)),
            !packet_fits(starting_message_json_of(*config)) ==> p.starting_message_packet@
                == Seq::<u8>::empty(),
            packet_fits(motd_json_of(*config)) ==> p.motd_packet@ == framed_packet(motd_json_of(
                *config,
            )),
            !packet_fits(motd_json_of(*config)) ==> p.motd_packet@ == Seq::<u8>::empty(),
    {
        let starting_message_packet = Self::serialize_starting_message(config);
        let motd_packet = Self::serialize_motd(config);
        PreserializedPackets { starting_message_packet, motd_packet }
    }

    /// Serialize the login-refusal packet.
    fn serialize_starting_message(config: &Config) -> (r: Vec<u8>)
        ensures
            packet_fits(starting_message_json_of(*config)) ==> r@ == framed_packet(
                starting_message_json_of(*config),
            ),
            !packet_fits(starting_message_json_of(*config)) ==> r@ == Seq::<u8>::empty(),
    {
        let mut json: Vec<u8> = Vec::new();
        push_str_bytes(&mut json, "{\"text\":");
        let mut quoted_text = json_quote(config.connection_msg_text.as_str());
        json.append(&mut quoted_text);
        push_str_bytes(&mut json, ",\"color\":");
        let mut quoted_color = json_quote(config.connection_msg_color.as_str());
        json.append(&mut quoted_color);
        push_str_bytes(&mut json, ",\"bold\":");
        if config.connection_msg_bold {
            push_str_bytes(&mut json, "true");
        } else {
            push_str_bytes(&mut json, "false");
        }
        push_str_bytes(&mut json, "}");
        proof {
            assert(json@ =~= starting_message_json_of(*config));
        }
        if json.len() <= 0x7fff_ffff - 6 {
            frame_packet(json)
        } else {
            Vec::new()
        }
    }

    /// Serialize the status-listing packet.
    fn serialize_motd(config: &Config) -> (r: Vec<u8>)
        ensures
            packet_fits(motd_json_of(*config)) ==> r@ == framed_packet(motd_json_of(*config)),
            !packet_fits(motd_json_of(*config)) ==> r@ == Seq::<u8>::empty(),
    {
        let mut json: Vec<u8> = Vec::new();
        push_str_bytes(
            &mut json,
            "{\"version\":{\"name\":\"MCServerNap (1.20.5)\",\"protocol\":766},\"players\":{\"max\":0,\"online\":0,\"sample\":[]},\"description\":{\"text\":",
        );
        let mut quoted_text = json_quote(config.motd_text.as_str());
        json.append(&mut quoted_text);
        push_str_bytes(&mut json, ",\"color\":");
        let mut quoted_color = json_quote(config.motd_color.as_str());
        json.append(&mut quoted_color);
        push_str_bytes(&mut json, ",\"bold\":");
        if config.motd_bold {
            push_str_bytes(&mut json, "true");
        } else {
            push_str_bytes(&mut json, "false");
        }
        push_str_bytes(&mut json, "}");
        match &config.server_icon {
            Option::None => {},
            Option::Some(icon) => {
                push_str_bytes(&mut json, ",\"favicon\":");
                let mut data_url: String = "data:image/png;base64,".to_owned();
                data_url.append(icon.as_str());
                let mut quoted_icon = json_quote(data_url.as_str());
                json.append(&mut quoted_icon);
            },
        }
        push_str_bytes(&mut json, "}");
        proof {
            assert(json@ =~= motd_json_of(*config));
        }
        if json.len() <= 0x7fff_ffff - 6 {
            frame_packet(json)
        } else {
            Vec::new()
        }
    }
}

} // verus!
