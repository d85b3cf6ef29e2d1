//! The signaling messages and their JSON text.
//!
//! A message is one JSON object with a `type` member that says which message
//! it is. This module writes that text itself, with `serde_json` quoting the
//! strings, and reads it through `serde_json`'s parser.

use crate::json::{
    as_number, as_text, elements, json_elements, json_keys, json_member, json_number, json_parse,
    json_quoted, json_text, keys, member, parse, quote, texts,
};
use crate::stun::MappedAddress;
use crate::text::{decimal_text, dotted_quad, dotted_quad_spec, push_decimal_text};
use vstd::prelude::*;
use vstd::string::StringExecFns;

verus! {

/// A message of the signaling protocol.
#[allow(inconsistent_fields)]
#[derive(Debug, Clone, PartialEq, Eq)]
pub enum SignalingMessage {
    /// Announces a user with the public addresses that discovery found; a
    /// family whose discovery failed is absent.
    Register {
        username: String,
        ipv4_ip: Option<String>,
        ipv4_port: Option<u16>,
        ipv6_ip: Option<String>,
        ipv6_port: Option<u16>,
    },
    /// Asks for the peers, to be answered with an array of names.
    RequestPeer,
    /// Asks for the users, to be answered with an object keyed by name.
    GetUsers,
    /// The answer to `request_peer`: the names of the peers. On the wire it
    /// is a bare array.
    PeerList { peers: Vec<String> },
    /// Asks the server to relay to `target`.
    InitiateRelay { target: String },
    /// The relay stands; the message names the other side.
    RelayInitiated { initiator: Option<String>, target: Option<String> },
    /// Steers a relay; the action `end` closes it.
    RelayControl { action: String },
    /// A file follows in binary frames.
    FileMetadata { name: String, size: u64 },
    /// The file is complete.
    FileEnd { name: String },
    /// The server reports an error.
    Error { message: String },
}

/// What a [`SignalingMessage`] holds, with texts as sequences of characters.
#[allow(inconsistent_fields)]
pub ghost enum MessageView {
    Register {
        username: Seq<char>,
        ipv4_ip: Option<Seq<char>>,
        ipv4_port: Option<u16>,
        ipv6_ip: Option<Seq<char>>,
        ipv6_port: Option<u16>,
    },
    RequestPeer,
    GetUsers,
    PeerList { peers: Seq<Seq<char>> },
    InitiateRelay { target: Seq<char> },
    RelayInitiated { initiator: Option<Seq<char>>, target: Option<Seq<char>> },
    RelayControl { action: Seq<char> },
    FileMetadata { name: Seq<char>, size: u64 },
    FileEnd { name: Seq<char> },
    Error { message: Seq<char> },
}

/// Why a text is no signaling message. None of these closes the channel.
#[derive(Debug, Clone, Copy, PartialEq, Eq, Structural)]
pub enum ProtocolError {
    /// The text is not JSON.
    Malformed,
    /// The object has no `type`, is no grant of a relay by its `status`, and
    /// reports no error.
    MissingType,
    /// The type is none of this protocol's.
    UnknownType,
    /// A member that the message needs is missing, or is of the wrong kind.
    MissingField,
}

/// The view of a text that may be absent.
pub open spec fn opt_text(o: Option<String>) -> Option<Seq<char>> {
    match o {
        Some(s) => Some(s@),
        None => None,
    }
}

impl View for SignalingMessage {
    type V = MessageView;

    open spec fn view(&self) -> MessageView {
        match *self {
            SignalingMessage::Register { username, ipv4_ip, ipv4_port, ipv6_ip, ipv6_port } => {
                MessageView::Register {
                    username: username@,
                    ipv4_ip: opt_text(ipv4_ip),
                    ipv4_port,
                    ipv6_ip: opt_text(ipv6_ip),
                    ipv6_port,
                }
            },
            SignalingMessage::RequestPeer => MessageView::RequestPeer,
            SignalingMessage::GetUsers => MessageView::GetUsers,
            SignalingMessage::PeerList { peers } => MessageView::PeerList { peers: texts(peers@) },
            SignalingMessage::InitiateRelay { target } => MessageView::InitiateRelay {
                target: target@,
            },
            SignalingMessage::RelayInitiated { initiator, target } => MessageView::RelayInitiated {
                initiator: opt_text(initiator),
                target: opt_text(target),
            },
            SignalingMessage::RelayControl { action } => MessageView::RelayControl {
                action: action@,
            },
            SignalingMessage::FileMetadata { name, size } => MessageView::FileMetadata {
                name: name@,
                size,
            },
            SignalingMessage::FileEnd { name } => MessageView::FileEnd { name: name@ },
            SignalingMessage::Error { message } => MessageView::Error { message: message@ },
        }
    }
}

/// A text member as JSON: quoted, or `null` where it is absent.
pub open spec fn text_or_null(o: Option<Seq<char>>) -> Seq<char> {
    match o {
        Some(s) => json_quoted(s),
        None => "null"@,
    }
}

/// A port as JSON: in decimal, or `null` where it is absent.
pub open spec fn port_or_null(o: Option<u16>) -> Seq<char> {
    match o {
        Some(n) => decimal_text(n as nat),
        None => "null"@,
    }
}

/// Names as JSON: each quoted, with commas between them.
pub open spec fn quoted_list(names: Seq<Seq<char>>) -> Seq<char>
    decreases names.len(),
{
    if names.len() == 0 {
        Seq::empty()
    } else if names.len() == 1 {
        json_quoted(names[0])
    } else {
        quoted_list(names.drop_last()) + ","@ + json_quoted(names.last())
    }
}

/// The JSON text of a message: one object, the `type` first, then the
/// message's members in the order of their declaration. The list of peers
/// alone is an array.
pub open spec fn message_text(m: MessageView) -> Seq<char> {
    match m {
        MessageView::PeerList { peers } => "["@ + quoted_list(peers) + "]"@,
        MessageView::Register { username, ipv4_ip, ipv4_port, ipv6_ip, ipv6_port } => {
            "{\"type\":\"register\",\"username\":"@ + json_quoted(username) + ",\"ipv4_ip\":"@
                + text_or_null(ipv4_ip) + ",\"ipv4_port\":"@ + port_or_null(ipv4_port)
                + ",\"ipv6_ip\":"@ + text_or_null(ipv6_ip) + ",\"ipv6_port\":"@ + port_or_null(
                ipv6_port,
            ) + "}"@
        },
        MessageView::RequestPeer => "{\"type\":\"request_peer\"}"@,
        MessageView::GetUsers => "{\"type\":\"getusers\"}"@,
        MessageView::InitiateRelay { target } => "{\"type\":\"initiate_relay\",\"target\":"@
            + json_quoted(target) + "}"@,
        MessageView::RelayInitiated { initiator, target } => {
            "{\"type\":\"relay_initiated\",\"initiator\":"@ + text_or_null(initiator)
                + ",\"target\":"@ + text_or_null(target) + "}"@
        },
        MessageView::RelayControl { action } => "{\"type\":\"relay_control\",\"action\":"@
            + json_quoted(action) + "}"@,
        MessageView::FileMetadata { name, size } => "{\"type\":\"file_metadata\",\"name\":"@
            + json_quoted(name) + ",\"size\":"@ + decimal_text(size as nat) + "}"@,
        MessageView::FileEnd { name } => "{\"type\":\"file_end\",\"name\":"@ + json_quoted(name)
            + "}"@,
        MessageView::Error { message } => "{\"type\":\"error\",\"error\":"@ + json_quoted(message)
            + "}"@,
    }
}

/// Appends a string in JSON quotes.
fn push_quoted(out: &mut String, s: &str)
    ensures
        final(out)@ == old(out)@ + json_quoted(s@),
{
    let q = quote(s);
    out.append(q.as_str());
}

/// Appends a text member, or `null`.
fn push_text_or_null(out: &mut String, o: &Option<String>)
    ensures
        final(out)@ == old(out)@ + text_or_null(opt_text(*o)),
{
    match o {
        Some(s) => push_quoted(out, s.as_str()),
        None => out.append("null"),
    }
}

/// Appends a port, or `null`.
fn push_port_or_null(out: &mut String, o: Option<u16>)
    ensures
        final(out)@ == old(out)@ + port_or_null(o),
{
    match o {
        Some(n) => push_decimal_text(out, n as u64),
        None => out.append("null"),
    }
}

/// Appends names in JSON quotes, with commas between them.
fn push_quoted_list(out: &mut String, names: &Vec<String>)
    ensures
        final(out)@ == old(out)@ + quoted_list(texts(names@)),
{
    let ghost all = texts(names@);
    let mut i: usize = 0;
    assert(all.take(0) =~= Seq::<Seq<char>>::empty());
    assert(out@ =~= old(out)@ + quoted_list(all.take(0)));
    while i < names.len()
        invariant
            i <= names@.len(),
            all == texts(names@),
            out@ == old(out)@ + quoted_list(all.take(i as int)),
        decreases names@.len() - i,
    {
        let ghost before = out@;
        let ghost done = quoted_list(all.take(i as int));
        proof {
            assert(all.take(i + 1).drop_last() =~= all.take(i as int));
            assert(all.take(i + 1).last() == names@[i as int]@);
            assert(all.take(i + 1)[0] == all[0]);
        }
        if i > 0 {
            out.append(",");
        }
        push_quoted(out, names[i].as_str());
        proof {
            let q = json_quoted(names@[i as int]@);
            if i > 0 {
                assert(out@ =~= old(out)@ + (done + ","@ + q));
            } else {
                assert(done =~= Seq::<char>::empty());
                assert(out@ =~= old(out)@ + q);
            }
        }
        i += 1;
    }
    assert(all.take(i as int) =~= all);
}

/// The JSON text of a message, to be sent as one text frame.
pub fn encode_message(message: &SignalingMessage) -> (text: String)
    ensures
        text@ == message_text(message@),
{
    match message {
        SignalingMessage::PeerList { peers } => {
            let mut text = String::from_str("[");
            push_quoted_list(&mut text, peers);
            text.append("]");
            text
        },
        SignalingMessage::Register { username, ipv4_ip, ipv4_port, ipv6_ip, ipv6_port } => {
            let mut text = String::from_str("{\"type\":\"register\",\"username\":");
            push_quoted(&mut text, username.as_str());
            text.append(",\"ipv4_ip\":");
            push_text_or_null(&mut text, ipv4_ip);
            text.append(",\"ipv4_port\":");
            push_port_or_null(&mut text, *ipv4_port);
            text.append(",\"ipv6_ip\":");
            push_text_or_null(&mut text, ipv6_ip);
            text.append(",\"ipv6_port\":");
            push_port_or_null(&mut text, *ipv6_port);
            text.append("}");
            text
        },
        SignalingMessage::RequestPeer => String::from_str("{\"type\":\"request_peer\"}"),
        SignalingMessage::GetUsers => String::from_str("{\"type\":\"getusers\"}"),
        SignalingMessage::InitiateRelay { target } => {
            let mut text = String::from_str("{\"type\":\"initiate_relay\",\"target\":");
            push_quoted(&mut text, target.as_str());
            text.append("}");
            text
        },
        SignalingMessage::RelayInitiated { initiator, target } => {
            let mut text = String::from_str("{\"type\":\"relay_initiated\",\"initiator\":");
            push_text_or_null(&mut text, initiator);
            text.append(",\"target\":");
            push_text_or_null(&mut text, target);
            text.append("}");
            text
        },
        SignalingMessage::RelayControl { action } => {
            let mut text = String::from_str("{\"type\":\"relay_control\",\"action\":");
            push_quoted(&mut text, action.as_str());
            text.append("}");
            text
        },
        SignalingMessage::FileMetadata { name, size } => {
            let mut text = String::from_str("{\"type\":\"file_metadata\",\"name\":");
            push_quoted(&mut text, name.as_str());
            text.append(",\"size\":");
            push_decimal_text(&mut text, *size);
            text.append("}");
            text
        },
        SignalingMessage::FileEnd { name } => {
            let mut text = String::from_str("{\"type\":\"file_end\",\"name\":");
            push_quoted(&mut text, name.as_str());
            text.append("}");
            text
        },
        SignalingMessage::Error { message } => {
            let mut text = String::from_str("{\"type\":\"error\",\"error\":");
            push_quoted(&mut text, message.as_str());
            text.append("}");
            text
        },
    }
}

/// The members of a JSON object that the protocol reads, each present only
/// where the object has it with the right kind of value.
#[derive(Debug, Clone, PartialEq, Eq)]
pub struct RawFields {
    pub kind: Option<String>,
    pub status: Option<String>,
    pub username: Option<String>,
    pub target: Option<String>,
    pub initiator: Option<String>,
    pub action: Option<String>,
    pub name: Option<String>,
    pub error: Option<String>,
    pub size: Option<u64>,
    pub ipv4_ip: Option<String>,
    pub ipv4_port: Option<u64>,
    pub ipv6_ip: Option<String>,
    pub ipv6_port: Option<u64>,
}

/// What a [`RawFields`] holds.
pub ghost struct RawFieldsView {
    pub kind: Option<Seq<char>>,
    pub status: Option<Seq<char>>,
    pub username: Option<Seq<char>>,
    pub target: Option<Seq<char>>,
    pub initiator: Option<Seq<char>>,
    pub action: Option<Seq<char>>,
    pub name: Option<Seq<char>>,
    pub error: Option<Seq<char>>,
    pub size: Option<u64>,
    pub ipv4_ip: Option<Seq<char>>,
    pub ipv4_port: Option<u64>,
    pub ipv6_ip: Option<Seq<char>>,
    pub ipv6_port: Option<u64>,
}

impl View for RawFields {
    type V = RawFieldsView;

    open spec fn view(&self) -> RawFieldsView {
        RawFieldsView {
            kind: opt_text(self.kind),
            status: opt_text(self.status),
            username: opt_text(self.username),
            target: opt_text(self.target),
            initiator: opt_text(self.initiator),
            action: opt_text(self.action),
            name: opt_text(self.name),
            error: opt_text(self.error),
            size: self.size,
            ipv4_ip: opt_text(self.ipv4_ip),
            ipv4_port: self.ipv4_port,
            ipv6_ip: opt_text(self.ipv6_ip),
            ipv6_port: self.ipv6_port,
        }
    }
}

/// The member `key` of `v` where it is a string.
pub open spec fn text_member(v: serde_json::Value, key: Seq<char>) -> Option<Seq<char>> {
    match json_member(v, key) {
        Some(m) => json_text(m),
        None => None,
    }
}

/// The member `key` of `v` where it is a number from zero to `u64::MAX`.
pub open spec fn number_member(v: serde_json::Value, key: Seq<char>) -> Option<u64> {
    match json_member(v, key) {
        Some(m) => json_number(m),
        None => None,
    }
}

/// The members that the protocol reads, as found in `v`.
pub open spec fn fields_of(v: serde_json::Value) -> RawFieldsView {
    RawFieldsView {
        kind: text_member(v, "type"@),
        status: text_member(v, "status"@),
        username: text_member(v, "username"@),
        target: text_member(v, "target"@),
        initiator: text_member(v, "initiator"@),
        action: text_member(v, "action"@),
        name: text_member(v, "name"@),
        error: text_member(v, "error"@),
        size: number_member(v, "size"@),
        ipv4_ip: text_member(v, "ipv4_ip"@),
        ipv4_port: number_member(v, "ipv4_port"@),
        ipv6_ip: text_member(v, "ipv6_ip"@),
        ipv6_port: number_member(v, "ipv6_port"@),
    }
}

/// A port out of a JSON number: absent where the number is no port.
pub open spec fn port_of(o: Option<u64>) -> Option<u16> {
    match o {
        Some(n) => if n <= u16::MAX {
            Some(n as u16)
        } else {
            None
        },
        None => None,
    }
}

/// Whether an object without a `type` is the reply that grants a relay: its
/// `status` says `relay_initiated`. No other status names a message.
pub open spec fn grants_by_status(f: RawFieldsView) -> bool {
    f.status == Some("relay_initiated"@)
}

/// What an object without a `type` spells: the grant of a relay if its
/// `status` says so, else an error report if it has an `error` text, else
/// nothing.
pub open spec fn untyped_spec(f: RawFieldsView) -> Result<MessageView, ProtocolError> {
    if grants_by_status(f) {
        Ok(MessageView::RelayInitiated { initiator: f.initiator, target: f.target })
    } else {
        match f.error {
            Some(e) => Ok(MessageView::Error { message: e }),
            None => Err(ProtocolError::MissingType),
        }
    }
}

/// The message with one required text member, or the lack of that member.
pub open spec fn require(o: Option<Seq<char>>, make: spec_fn(Seq<char>) -> MessageView) -> Result<
    MessageView,
    ProtocolError,
> {
    match o {
        Some(s) => Ok(make(s)),
        None => Err(ProtocolError::MissingField),
    }
}

/// The message that an object's members spell.
///
/// The `type` alone says which message an object is. Without one, the object
/// is what [`untyped_spec`] says. Optional members that are missing or of the
/// wrong kind are absent; a required one makes the object no message.
pub open spec fn interpret_spec(f: RawFieldsView) -> Result<MessageView, ProtocolError> {
    match f.kind {
        None => untyped_spec(f),
        Some(k) => if k == "register"@ {
            require(
                f.username,
                |u: Seq<char>|
                    MessageView::Register {
                        username: u,
                        ipv4_ip: f.ipv4_ip,
                        ipv4_port: port_of(f.ipv4_port),
                        ipv6_ip: f.ipv6_ip,
                        ipv6_port: port_of(f.ipv6_port),
                    },
            )
        } else if k == "request_peer"@ {
            Ok(MessageView::RequestPeer)
        } else if k == "getusers"@ {
            Ok(MessageView::GetUsers)
        } else if k == "initiate_relay"@ {
            require(f.target, |t: Seq<char>| MessageView::InitiateRelay { target: t })
        } else if k == "relay_initiated"@ {
            Ok(MessageView::RelayInitiated { initiator: f.initiator, target: f.target })
        } else if k == "relay_control"@ {
            require(f.action, |a: Seq<char>| MessageView::RelayControl { action: a })
        } else if k == "file_metadata"@ {
            match f.size {
                Some(size) => require(
                    f.name,
                    |n: Seq<char>| MessageView::FileMetadata { name: n, size },
                ),
                None => Err(ProtocolError::MissingField),
            }
        } else if k == "file_end"@ {
            require(f.name, |n: Seq<char>| MessageView::FileEnd { name: n })
        } else if k == "error"@ {
            require(f.error, |e: Seq<char>| MessageView::Error { message: e })
        } else {
            Err(ProtocolError::UnknownType)
        },
    }
}

/// The elements that are strings, in their order.
pub open spec fn text_elements(elems: Seq<serde_json::Value>) -> Seq<Seq<char>> {
    elems.filter_map(|e: serde_json::Value| json_text(e))
}

/// The message that a parsed value spells: an array is a list of peers, its
/// string elements being the names; anything else is judged by its members.
pub open spec fn message_of(v: serde_json::Value) -> Result<MessageView, ProtocolError> {
    match json_elements(v) {
        Some(a) => Ok(MessageView::PeerList { peers: text_elements(a) }),
        None => interpret_spec(fields_of(v)),
    }
}

/// Without a `type` an object is the grant of a relay, an error report, or
/// no message: its `status` never makes it a message that arms, ends or
/// steers a transfer.
pub proof fn lemma_status_is_no_type(f: RawFieldsView)
    requires
        f.kind is None,
    ensures
        interpret_spec(f) is Ok ==> interpret_spec(f)->Ok_0 is RelayInitiated || interpret_spec(
            f,
        )->Ok_0 is Error,
        interpret_spec(f) is Err ==> interpret_spec(f)->Err_0 == ProtocolError::MissingType,
        interpret_spec(f) is Ok && interpret_spec(f)->Ok_0 is RelayInitiated <==> grants_by_status(
            f,
        ),
{
}

/// The message that a text spells.
pub open spec fn decode_spec(text: Seq<char>) -> Result<MessageView, ProtocolError> {
    match json_parse(text) {
        Some(v) => message_of(v),
        None => Err(ProtocolError::Malformed),
    }
}

/// An exec result and the spec result it stands for.
pub open spec fn decoded_as(
    r: Result<SignalingMessage, ProtocolError>,
    s: Result<MessageView, ProtocolError>,
) -> bool {
    match r {
        Ok(m) => s == Ok::<MessageView, ProtocolError>(m@),
        Err(e) => s == Err::<MessageView, ProtocolError>(e),
    }
}

/// Whether a text is exactly the given literal.
pub(crate) fn text_is(text: &String, literal: &str) -> (yes: bool)
    ensures
        yes == (text@ == literal@),
{
    *text == String::from_str(literal)
}

/// The member `key` of `v` where it is a string.
fn read_text(v: &serde_json::Value, key: &str) -> (r: Option<String>)
    ensures
        opt_text(r) == text_member(*v, key@),
{
    match member(v, key) {
        Some(m) => match as_text(m) {
            Some(s) => Some(String::from_str(s)),
            None => None,
        },
        None => None,
    }
}

/// The member `key` of `v` where it is a number from zero to `u64::MAX`.
fn read_number(v: &serde_json::Value, key: &str) -> (r: Option<u64>)
    ensures
        r == number_member(*v, key@),
{
    match member(v, key) {
        Some(m) => as_number(m),
        None => None,
    }
}

/// Reads the members that the protocol knows out of a parsed value.
fn read_fields(v: &serde_json::Value) -> (f: RawFields)
    ensures
        f@ == fields_of(*v),
{
    RawFields {
        kind: read_text(v, "type"),
        status: read_text(v, "status"),
        username: read_text(v, "username"),
        target: read_text(v, "target"),
        initiator: read_text(v, "initiator"),
        action: read_text(v, "action"),
        name: read_text(v, "name"),
        error: read_text(v, "error"),
        size: read_number(v, "size"),
        ipv4_ip: read_text(v, "ipv4_ip"),
        ipv4_port: read_number(v, "ipv4_port"),
        ipv6_ip: read_text(v, "ipv6_ip"),
        ipv6_port: read_number(v, "ipv6_port"),
    }
}

/// A port out of a JSON number.
fn port(o: Option<u64>) -> (r: Option<u16>)
    ensures
        r == port_of(o),
{
    match o {
        Some(n) => if n <= u16::MAX as u64 {
            Some(n as u16)
        } else {
            None
        },
        None => None,
    }
}

/// The message that an object's members spell.
///
/// The `type` decides. `register`
/// needs a `username`, `initiate_relay` a `target`, `relay_control` an
/// `action`, `file_metadata` a `name` and a `size`, `file_end` a `name`, and
/// `error` an `error` text: without it the result is `MissingField`. A type
/// that is none of the protocol's is `UnknownType`.
///
/// The `status` stands in for a missing `type` in one case only: an object
/// without `type` whose `status` is `relay_initiated` is the grant of a
/// relay. Any other object without `type` is an error report if it has an
/// `error` text, and `MissingType` otherwise, whatever its `status` says.
pub fn interpret(fields: RawFields) -> (r: Result<SignalingMessage, ProtocolError>)
    ensures
        decoded_as(r, interpret_spec(fields@)),
{
    let RawFields {
        kind,
        status,
        username,
        target,
        initiator,
        action,
        name,
        error,
        size,
        ipv4_ip,
        ipv4_port,
        ipv6_ip,
        ipv6_port,
    } = fields;
    let k = match kind {
        Some(k) => k,
        None => {
            let granted = match &status {
                Some(s) => text_is(s, "relay_initiated"),
                None => false,
            };
            return if granted {
                Ok(SignalingMessage::RelayInitiated { initiator, target })
            } else {
                match error {
                    Some(message) => Ok(SignalingMessage::Error { message }),
                    None => Err(ProtocolError::MissingType),
                }
            };
        },
    };
    if text_is(&k, "register") {
        match username {
            Some(username) => Ok(
                SignalingMessage::Register {
                    username,
                    ipv4_ip,
                    ipv4_port: port(ipv4_port),
                    ipv6_ip,
                    ipv6_port: port(ipv6_port),
                },
            ),
            None => Err(ProtocolError::MissingField),
        }
    } else if text_is(&k, "request_peer") {
        Ok(SignalingMessage::RequestPeer)
    } else if text_is(&k, "getusers") {
        Ok(SignalingMessage::GetUsers)
    } else if text_is(&k, "initiate_relay") {
        match target {
            Some(target) => Ok(SignalingMessage::InitiateRelay { target }),
            None => Err(ProtocolError::MissingField),
        }
    } else if text_is(&k, "relay_initiated") {
        Ok(SignalingMessage::RelayInitiated { initiator, target })
    } else if text_is(&k, "relay_control") {
        match action {
            Some(action) => Ok(SignalingMessage::RelayControl { action }),
            None => Err(ProtocolError::MissingField),
        }
    } else if text_is(&k, "file_metadata") {
        match (name, size) {
            (Some(name), Some(size)) => Ok(SignalingMessage::FileMetadata { name, size }),
            _ => Err(ProtocolError::MissingField),
        }
    } else if text_is(&k, "file_end") {
        match name {
            Some(name) => Ok(SignalingMessage::FileEnd { name }),
            None => Err(ProtocolError::MissingField),
        }
    } else if text_is(&k, "error") {
        match error {
            Some(message) => Ok(SignalingMessage::Error { message }),
            None => Err(ProtocolError::MissingField),
        }
    } else {
        Err(ProtocolError::UnknownType)
    }
}

/// The elements that are strings, in their order; the others are passed over.
fn text_items(items: &Vec<serde_json::Value>) -> (names: Vec<String>)
    ensures
        texts(names@) == text_elements(items@),
{
    let ghost pick = |e: serde_json::Value| json_text(e);
    let mut names: Vec<String> = Vec::new();
    let mut i: usize = 0;
    assert(items@.take(0) =~= Seq::<serde_json::Value>::empty());
    assert(texts(names@) =~= items@.take(0).filter_map(pick));
    while i < items.len()
        invariant
            i <= items@.len(),
            pick == (|e: serde_json::Value| json_text(e)),
            texts(names@) == items@.take(i as int).filter_map(pick),
        decreases items@.len() - i,
    {
        proof {
            assert(items@.take(i + 1).drop_last() =~= items@.take(i as int));
            assert(items@.take(i + 1).last() == items@[i as int]);
        }
        let ghost before = names@;
        match as_text(&items[i]) {
            Some(s) => {
                names.push(String::from_str(s));
                assert(texts(names@) =~= texts(before).push(s@));
                assert(texts(before).push(s@) =~= texts(before) + seq![s@]);
            },
            None => {},
        }
        i += 1;
    }
    assert(items@.take(i as int) =~= items@);
    names
}

/// Reads a text frame as a signaling message.
///
/// A text that is not JSON is `Malformed`. An array is a list of peers.
/// Otherwise the members that the protocol knows are read from the value and
/// [`interpret`] says which message they spell.
pub fn decode_message(text: &str) -> (r: Result<SignalingMessage, ProtocolError>)
    ensures
        decoded_as(r, decode_spec(text@)),
{
    match parse(text) {
        Ok(v) => match elements(&v) {
            Some(items) => Ok(SignalingMessage::PeerList { peers: text_items(items) }),
            None => interpret(read_fields(&v)),
        },
        Err(_) => Err(ProtocolError::Malformed),
    }
}

/// The two ways to ask for the peers.
#[derive(Debug, Clone, Copy, PartialEq, Eq, Structural)]
pub enum PeerQuery {
    /// `request_peer`, answered with an array of names.
    RequestPeer,
    /// `getusers`, answered with an object whose keys are the names.
    GetUsers,
}

/// The request that a query sends.
pub fn peer_request(query: PeerQuery) -> (m: SignalingMessage)
    ensures
        m@ == match query {
            PeerQuery::RequestPeer => MessageView::RequestPeer,
            PeerQuery::GetUsers => MessageView::GetUsers,
        },
{
    match query {
        PeerQuery::RequestPeer => SignalingMessage::RequestPeer,
        PeerQuery::GetUsers => SignalingMessage::GetUsers,
    }
}

/// The peers that a parsed reply names.
pub open spec fn peers_of(query: PeerQuery, v: serde_json::Value) -> Seq<Seq<char>> {
    match query {
        PeerQuery::RequestPeer => match json_elements(v) {
            Some(a) => text_elements(a),
            None => Seq::empty(),
        },
        PeerQuery::GetUsers => match json_keys(v) {
            Some(k) => k,
            None => Seq::empty(),
        },
    }
}

/// The peers that the reply to a query names.
pub open spec fn peers_spec(query: PeerQuery, text: Seq<char>) -> Result<
    Seq<Seq<char>>,
    ProtocolError,
> {
    match json_parse(text) {
        Some(v) => Ok(peers_of(query, v)),
        None => Err(ProtocolError::Malformed),
    }
}

/// Reads the one reply to a peer query.
///
/// The reply to `request_peer` is an array: its string elements are the
/// peers, other elements are passed over. The reply to `getusers` is an
/// object: its keys are the peers. A reply of another shape names no peers,
/// and a reply that is not JSON is `Malformed`.
pub fn peers_from_reply(query: PeerQuery, text: &str) -> (r: Result<Vec<String>, ProtocolError>)
    ensures
        match r {
            Ok(peers) => peers_spec(query, text@) == Ok::<Seq<Seq<char>>, ProtocolError>(
                texts(peers@),
            ),
            Err(e) => peers_spec(query, text@) == Err::<Seq<Seq<char>>, ProtocolError>(e),
        },
{
    let v = match parse(text) {
        Ok(v) => v,
        Err(_) => {
            return Err(ProtocolError::Malformed);
        },
    };
    match query {
        PeerQuery::GetUsers => match keys(&v) {
            Some(k) => Ok(k),
            None => {
                let none: Vec<String> = Vec::new();
                assert(texts(none@) =~= Seq::<Seq<char>>::empty());
                Ok(none)
            },
        },
        PeerQuery::RequestPeer => match elements(&v) {
            Some(items) => Ok(text_items(items)),
            None => {
                let none: Vec<String> = Vec::new();
                assert(texts(none@) =~= Seq::<Seq<char>>::empty());
                Ok(none)
            },
        },
    }
}

/// The names that are the keys of a JSON object, as `getusers` is answered.
/// A text that is JSON but no object has none; a text that is not JSON is
/// `Malformed`.
pub fn keys_from_json_str(json_str: &str) -> (r: Result<Vec<String>, ProtocolError>)
    ensures
        match r {
            Ok(names) => peers_spec(PeerQuery::GetUsers, json_str@) == Ok::<
                Seq<Seq<char>>,
                ProtocolError,
            >(texts(names@)),
            Err(e) => peers_spec(PeerQuery::GetUsers, json_str@) == Err::<
                Seq<Seq<char>>,
                ProtocolError,
            >(e),
        },
{
    peers_from_reply(PeerQuery::GetUsers, json_str)
}

/// The private address that a value reports: its member `pip`, where that is
/// a string.
pub fn get_pip_from_json(data: &serde_json::Value) -> (r: Option<String>)
    ensures
        opt_text(r) == text_member(*data, "pip"@),
{
    read_text(data, "pip")
}

/// Whether the reply to `initiate_relay` lets the relay begin.
pub open spec fn relay_granted(reply: Result<MessageView, ProtocolError>) -> bool {
    reply matches Ok(MessageView::RelayInitiated { .. })
}

/// The server refused the relay, or answered with something else than
/// `relay_initiated`.
#[derive(Debug, Clone, Copy, PartialEq, Eq, Structural)]
pub struct RelayRejected;

/// Judges the reply to `initiate_relay`.
///
/// Only a `relay_initiated` message lets the relay begin. An error report,
/// any other message and any text that is no message are a rejection.
pub fn check_relay_reply(reply: &Result<SignalingMessage, ProtocolError>) -> (r: Result<
    (),
    RelayRejected,
>)
    ensures
        r is Ok <==> (reply matches Ok(m) && m@ is RelayInitiated),
{
    match reply {
        Ok(SignalingMessage::RelayInitiated { .. }) => Ok(()),
        _ => Err(RelayRejected),
    }
}

/// A public address of one family, as discovery found it.
#[derive(Debug, Clone, PartialEq, Eq)]
pub struct Endpoint {
    /// The public address as text.
    pub public_ip: String,
    /// The public port.
    pub public_port: u16,
    /// The local address, where it could be found out. It is a hint only.
    pub private_ip: Option<String>,
}

/// The endpoint for an address that a STUN server reported.
pub fn endpoint_from_mapped(address: &MappedAddress, private_ip: Option<String>) -> (e: Endpoint)
    ensures
        e.public_ip@ == dotted_quad_spec(address.ip@),
        e.public_port == address.port,
        e.private_ip == private_ip,
{
    Endpoint { public_ip: dotted_quad(&address.ip), public_port: address.port, private_ip }
}

/// The address of an endpoint that may be absent.
pub open spec fn ip_of(e: Option<Endpoint>) -> Option<Seq<char>> {
    match e {
        Some(e) => Some(e.public_ip@),
        None => None,
    }
}

/// The port of an endpoint that may be absent.
pub open spec fn port_of_endpoint(e: Option<Endpoint>) -> Option<u16> {
    match e {
        Some(e) => Some(e.public_port),
        None => None,
    }
}

/// The `register` message for a user. A family without an endpoint, because
/// its discovery failed, leaves its two members absent; the other family is
/// registered all the same.
pub fn registration(username: String, ipv4: Option<Endpoint>, ipv6: Option<Endpoint>) -> (m:
    SignalingMessage)
    ensures
        m@ == (MessageView::Register {
            username: username@,
            ipv4_ip: ip_of(ipv4),
            ipv4_port: port_of_endpoint(ipv4),
            ipv6_ip: ip_of(ipv6),
            ipv6_port: port_of_endpoint(ipv6),
        }),
{
    let (ipv4_ip, ipv4_port) = match ipv4 {
        Some(e) => (Some(e.public_ip), Some(e.public_port)),
        None => (None, None),
    };
    let (ipv6_ip, ipv6_port) = match ipv6 {
        Some(e) => (Some(e.public_ip), Some(e.public_port)),
        None => (None, None),
    };
    SignalingMessage::Register { username, ipv4_ip, ipv4_port, ipv6_ip, ipv6_port }
}

} // verus!
