//! The message shapes this core sends: headers, the execute request, and
//! which request/reply channel a message type belongs on.

use vstd::prelude::*;

use crate::codec::WireMessage;
use crate::descriptor::ChannelRole;
use crate::json;
use crate::json::spec_field;
use crate::router::bytes_eq;
use crate::text::ascii_bytes;
use crate::text::push_ascii;

verus! {

/// The header of one message: its identifier, originating user, session,
/// timestamp text, message type and protocol version, rendered as a flat
/// object of string fields in this order.
pub open spec fn spec_header(
    msg_id: Seq<u8>,
    username: Seq<u8>,
    session: Seq<u8>,
    date: Seq<u8>,
    msg_type: Seq<u8>,
    version: Seq<u8>,
) -> Seq<u8> {
    seq![123u8] + spec_field("msg_id"@, msg_id) + seq![44u8] + spec_field("username"@, username)
        + seq![44u8] + spec_field("session"@, session) + seq![44u8] + spec_field("date"@, date)
        + seq![44u8] + spec_field("msg_type"@, msg_type) + seq![44u8] + spec_field(
        "version"@,
        version,
    ) + seq![125u8]
}

/// Renders a header.
pub fn render_header(
    msg_id: &Vec<u8>,
    username: &Vec<u8>,
    session: &Vec<u8>,
    date: &Vec<u8>,
    msg_type: &Vec<u8>,
    version: &Vec<u8>,
) -> (r: Vec<u8>)
    ensures
        r@ == spec_header(msg_id@, username@, session@, date@, msg_type@, version@),
{
    proof {
        reveal_strlit("msg_id");
        reveal_strlit("username");
        reveal_strlit("session");
        reveal_strlit("date");
        reveal_strlit("msg_type");
        reveal_strlit("version");
        assert(vstd::utf8::is_ascii_chars("msg_id"@));
        assert(vstd::utf8::is_ascii_chars("username"@));
        assert(vstd::utf8::is_ascii_chars("session"@));
        assert(vstd::utf8::is_ascii_chars("date"@));
        assert(vstd::utf8::is_ascii_chars("msg_type"@));
        assert(vstd::utf8::is_ascii_chars("version"@));
    }
    let mut out: Vec<u8> = Vec::new();
    out.push(123);
    json::push_field(&mut out, "msg_id", msg_id);
    out.push(44);
    json::push_field(&mut out, "username", username);
    out.push(44);
    json::push_field(&mut out, "session", session);
    out.push(44);
    json::push_field(&mut out, "date", date);
    out.push(44);
    json::push_field(&mut out, "msg_type", msg_type);
    out.push(44);
    json::push_field(&mut out, "version", version);
    out.push(125);
    proof {
        assert(out@ =~= spec_header(msg_id@, username@, session@, date@, msg_type@, version@));
    }
    out
}

/// The content of an execute request: the code to run, with the options
/// this front-end fixes (not silent, recorded in history, no user
/// expressions, stop on error) and whether interactive stdin prompts are
/// allowed.
pub open spec fn spec_execute_content(code: Seq<u8>, allow_stdin: bool) -> Seq<u8> {
    seq![123u8] + spec_field("code"@, code) + ascii_bytes(
        ",\"silent\":false,\"store_history\":true,\"user_expressions\":{},\"allow_stdin\":"@,
    ) + (if allow_stdin {
        ascii_bytes("true"@)
    } else {
        ascii_bytes("false"@)
    }) + ascii_bytes(",\"stop_on_error\":true"@) + seq![125u8]
}

/// Renders the content of an execute request.
pub fn render_execute_content(code: &Vec<u8>, allow_stdin: bool) -> (r: Vec<u8>)
    ensures
        r@ == spec_execute_content(code@, allow_stdin),
{
    proof {
        reveal_strlit("code");
        reveal_strlit(",\"silent\":false,\"store_history\":true,\"user_expressions\":{},\"allow_stdin\":");
        reveal_strlit("true");
        reveal_strlit("false");
        reveal_strlit(",\"stop_on_error\":true");
        assert(vstd::utf8::is_ascii_chars("code"@));
        assert(vstd::utf8::is_ascii_chars(
            ",\"silent\":false,\"store_history\":true,\"user_expressions\":{},\"allow_stdin\":"@,
        ));
        assert(vstd::utf8::is_ascii_chars("true"@));
        assert(vstd::utf8::is_ascii_chars("false"@));
        assert(vstd::utf8::is_ascii_chars(",\"stop_on_error\":true"@));
    }
    let mut out: Vec<u8> = Vec::new();
    out.push(123);
    json::push_field(&mut out, "code", code);
    push_ascii(
        &mut out,
        ",\"silent\":false,\"store_history\":true,\"user_expressions\":{},\"allow_stdin\":",
    );
    if allow_stdin {
        push_ascii(&mut out, "true");
    } else {
        push_ascii(&mut out, "false");
    }
    push_ascii(&mut out, ",\"stop_on_error\":true");
    out.push(125);
    proof {
        assert(out@ =~= spec_execute_content(code@, allow_stdin));
    }
    out
}

/// The bytes of an ASCII text as an owned value.
pub fn ascii_vec(s: &str) -> (r: Vec<u8>)
    requires
        vstd::utf8::is_ascii_chars(s@),
    ensures
        r@ == ascii_bytes(s@),
{
    let mut out: Vec<u8> = Vec::new();
    push_ascii(&mut out, s);
    proof {
        assert(out@ =~= ascii_bytes(s@));
    }
    out
}

/// The username this front-end stamps on every header it renders.
pub fn username_vec() -> (r: Vec<u8>)
    ensures
        r@ == ascii_bytes("jute"@),
{
    proof {
        reveal_strlit("jute");
        assert(vstd::utf8::is_ascii_chars("jute"@));
    }
    ascii_vec("jute")
}

/// The message type of an execute request.
pub fn execute_request_type() -> (r: Vec<u8>)
    ensures
        r@ == ascii_bytes("execute_request"@),
{
    proof {
        reveal_strlit("execute_request");
        assert(vstd::utf8::is_ascii_chars("execute_request"@));
    }
    ascii_vec("execute_request")
}

/// The protocol version this front-end speaks.
pub fn protocol_version() -> (r: Vec<u8>)
    ensures
        r@ == ascii_bytes("5.3"@),
{
    proof {
        reveal_strlit("5.3");
        assert(vstd::utf8::is_ascii_chars("5.3"@));
    }
    ascii_vec("5.3")
}

/// Which request/reply channel a request of this message type is sent
/// on: shutdown, interrupt and debug requests travel on control,
/// everything else on shell.
pub open spec fn spec_request_channel(msg_type: Seq<u8>) -> ChannelRole {
    if msg_type == ascii_bytes("shutdown_request"@) || msg_type == ascii_bytes(
        "interrupt_request"@,
    ) || msg_type == ascii_bytes("debug_request"@) {
        ChannelRole::Control
    } else {
        ChannelRole::Shell
    }
}

/// Picks the channel a request of this message type is sent on.
pub fn request_channel(msg_type: &Vec<u8>) -> (r: ChannelRole)
    ensures
        r == spec_request_channel(msg_type@),
{
    proof {
        reveal_strlit("shutdown_request");
        reveal_strlit("interrupt_request");
        reveal_strlit("debug_request");
        assert(vstd::utf8::is_ascii_chars("shutdown_request"@));
        assert(vstd::utf8::is_ascii_chars("interrupt_request"@));
        assert(vstd::utf8::is_ascii_chars("debug_request"@));
    }
    let shutdown = ascii_vec("shutdown_request");
    let interrupt = ascii_vec("interrupt_request");
    let debug = ascii_vec("debug_request");
    if bytes_eq(msg_type, &shutdown) || bytes_eq(msg_type, &interrupt) || bytes_eq(
        msg_type,
        &debug,
    ) {
        ChannelRole::Control
    } else {
        ChannelRole::Shell
    }
}

/// Assembles a message around a rendered header: empty parent header and
/// metadata, the given content, no buffers — the shape of a fresh request.
pub fn request_message(header: Vec<u8>, content: Vec<u8>) -> (m: WireMessage)
    ensures
        m@.header == header@,
        m@.parent_header == json::spec_empty_object(),
        m@.metadata == json::spec_empty_object(),
        m@.content == content@,
        m@.buffers == Seq::<Seq<u8>>::empty(),
{
    let m = WireMessage {
        header,
        parent_header: json::empty_object(),
        metadata: json::empty_object(),
        content,
        buffers: Vec::new(),
    };
    proof {
        assert(m@.buffers =~= Seq::<Seq<u8>>::empty());
    }
    m
}

} // verus!
