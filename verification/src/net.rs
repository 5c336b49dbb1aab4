//! RoRnet wire codec: the fixed 16-byte packet header and the fixed-layout
//! ServerInfo and UserInfo payloads.
//!
//! Every datagram is `header (16 bytes) || payload (at most 8192 bytes)`.
//! Integers travel little-endian; string fields are UTF-8 bytes zero-padded
//! to their declared width and silently truncated when the source string is
//! longer. Layouts are written out by hand, field by field, so the bytes on
//! the wire are pinned down exactly.

use vstd::prelude::*;
use vstd::bytes::{
    lemma_auto_spec_u32_to_from_le_bytes,
    spec_u32_from_le_bytes,
    spec_u32_to_le_bytes,
    u32_from_le_bytes,
    u32_to_le_bytes,
};
use vstd::slice::{slice_subrange, slice_to_vec};
use vstd::string::StringSliceAdditionalSpecFns;

use crate::config::Config;

verus! {

/// Number of bytes in a packet header.
pub const HEADER_BYTES: usize = 16;

/// Number of bytes in an encoded ServerInfo payload.
pub const SERVER_INFO_BYTES: usize = 4373;

/// Number of bytes in an encoded UserInfo payload.
pub const USER_INFO_BYTES: usize = 359;

/// The command carried by a packet header. Each variant has a fixed,
/// wire-stable numeric tag (1025 through 1035, in declaration order);
/// unknown tags are a decode error, never a fallback variant.
#[derive(Clone, Copy, PartialEq, Eq, Structural, Debug)]
pub enum MessageType {
    /// Client sends its protocol version as its first message.
    Hello,
    /// No more slots free.
    Full,
    /// Wrong password.
    WrongPw,
    /// Wrong protocol version.
    WrongVer,
    /// Client is not allowed to join.
    Banned,
    /// Handshake may proceed.
    Welcome,
    /// Server responds with its version.
    Version,
    /// Server sends the client the terrain name (a ServerInfo payload).
    ServerSettings,
    /// User data exchanged once a client is known.
    UserInfo,
    /// Master-server information response.
    MasterInfo,
    /// Network quality information.
    NetQuality,
}

impl MessageType {
    /// The fixed numeric tag this command travels as.
    pub open spec fn spec_tag(self) -> u32 {
        match self {
            MessageType::Hello => 1025,
            MessageType::Full => 1026,
            MessageType::WrongPw => 1027,
            MessageType::WrongVer => 1028,
            MessageType::Banned => 1029,
            MessageType::Welcome => 1030,
            MessageType::Version => 1031,
            MessageType::ServerSettings => 1032,
            MessageType::UserInfo => 1033,
            MessageType::MasterInfo => 1034,
            MessageType::NetQuality => 1035,
        }
    }

    pub fn tag(self) -> (t: u32)
        ensures
            t == self.spec_tag(),
    {
        match self {
            MessageType::Hello => 1025,
            MessageType::Full => 1026,
            MessageType::WrongPw => 1027,
            MessageType::WrongVer => 1028,
            MessageType::Banned => 1029,
            MessageType::Welcome => 1030,
            MessageType::Version => 1031,
            MessageType::ServerSettings => 1032,
            MessageType::UserInfo => 1033,
            MessageType::MasterInfo => 1034,
            MessageType::NetQuality => 1035,
        }
    }

    pub fn from_tag(t: u32) -> (r: Option<MessageType>)
        ensures
            r == spec_message_type_of_tag(t),
    {
        if t == 1025 {
            Some(MessageType::Hello)
        } else if t == 1026 {
            Some(MessageType::Full)
        } else if t == 1027 {
            Some(MessageType::WrongPw)
        } else if t == 1028 {
            Some(MessageType::WrongVer)
        } else if t == 1029 {
            Some(MessageType::Banned)
        } else if t == 1030 {
            Some(MessageType::Welcome)
        } else if t == 1031 {
            Some(MessageType::Version)
        } else if t == 1032 {
            Some(MessageType::ServerSettings)
        } else if t == 1033 {
            Some(MessageType::UserInfo)
        } else if t == 1034 {
            Some(MessageType::MasterInfo)
        } else if t == 1035 {
            Some(MessageType::NetQuality)
        } else {
            None
        }
    }
}

/// The command a tag stands for, if any.
pub open spec fn spec_message_type_of_tag(t: u32) -> Option<MessageType> {
    if t == 1025 {
        Some(MessageType::Hello)
    } else if t == 1026 {
        Some(MessageType::Full)
    } else if t == 1027 {
        Some(MessageType::WrongPw)
    } else if t == 1028 {
        Some(MessageType::WrongVer)
    } else if t == 1029 {
        Some(MessageType::Banned)
    } else if t == 1030 {
        Some(MessageType::Welcome)
    } else if t == 1031 {
        Some(MessageType::Version)
    } else if t == 1032 {
        Some(MessageType::ServerSettings)
    } else if t == 1033 {
        Some(MessageType::UserInfo)
    } else if t == 1034 {
        Some(MessageType::MasterInfo)
    } else if t == 1035 {
        Some(MessageType::NetQuality)
    } else {
        None
    }
}

/// What can go wrong when framing or parsing packets.
#[derive(Clone, Copy, PartialEq, Eq, Structural, Debug)]
pub enum WireError {
    /// Datagram shorter than a header, or an unknown command tag.
    MalformedHeader,
    /// Payload does not have the exact length its layout demands.
    MalformedPayload,
    /// Encode request for a payload over the protocol maximum.
    PayloadTooLarge,
}

/// Packet header: command tag, stream owner id (-1 for server-originated),
/// stream id, and the length of the trailing payload.
#[derive(Clone, Copy, PartialEq, Eq, Structural, Debug)]
pub struct Header {
    pub command: MessageType,
    pub source: i32,
    pub streamid: u32,
    pub size: i32,
}

/// Two's-complement image of an `i32` in a `u32`, as it travels on the wire.
pub open spec fn spec_u32_of_i32(x: i32) -> u32 {
    if x >= 0 {
        x as u32
    } else {
        (x as int + 0x100000000) as u32
    }
}

/// Inverse of [`spec_u32_of_i32`].
pub open spec fn spec_i32_of_u32(x: u32) -> i32 {
    if x < 0x80000000 {
        x as i32
    } else {
        (x as int - 0x100000000) as i32
    }
}

fn i32_to_u32(x: i32) -> (r: u32)
    ensures
        r == spec_u32_of_i32(x),
{
    if x >= 0 {
        x as u32
    } else {
        let y: i64 = x as i64 + 0x100000000i64;
        y as u32
    }
}

fn u32_to_i32(x: u32) -> (r: i32)
    ensures
        r == spec_i32_of_u32(x),
{
    if x < 0x80000000 {
        x as i32
    } else {
        let y: i64 = x as i64 - 0x100000000i64;
        y as i32
    }
}

/// The 16 bytes a header is laid out as: four little-endian 32-bit words.
pub open spec fn spec_header_bytes(h: Header) -> Seq<u8> {
    spec_u32_to_le_bytes(h.command.spec_tag()) + spec_u32_to_le_bytes(spec_u32_of_i32(h.source))
        + spec_u32_to_le_bytes(h.streamid) + spec_u32_to_le_bytes(spec_u32_of_i32(h.size))
}

/// The header encoded in the first 16 bytes of `s`, if its tag is known.
pub open spec fn spec_header_of_bytes(s: Seq<u8>) -> Option<Header>
    recommends
        s.len() >= 16,
{
    let tag = spec_u32_from_le_bytes(s.subrange(0, 4));
    match spec_message_type_of_tag(tag) {
        Some(command) => Some(
            Header {
                command,
                source: spec_i32_of_u32(spec_u32_from_le_bytes(s.subrange(4, 8))),
                streamid: spec_u32_from_le_bytes(s.subrange(8, 12)),
                size: spec_i32_of_u32(spec_u32_from_le_bytes(s.subrange(12, 16))),
            },
        ),
        None => None,
    }
}

impl Header {
    /// Lays the header out as its 16 wire bytes.
    pub fn encode(&self) -> (r: Vec<u8>)
        ensures
            r@ == spec_header_bytes(*self),
            r@.len() == 16,
    {
        proof {
            lemma_auto_spec_u32_to_from_le_bytes();
        }
        let mut r = u32_to_le_bytes(self.command.tag());
        let mut w1 = u32_to_le_bytes(i32_to_u32(self.source));
        let mut w2 = u32_to_le_bytes(self.streamid);
        let mut w3 = u32_to_le_bytes(i32_to_u32(self.size));
        r.append(&mut w1);
        r.append(&mut w2);
        r.append(&mut w3);
        r
    }

    /// Builds one whole packet: this header's bytes followed by the payload.
    /// The header's `size` field is taken as given; use [`encode_packet`]
    /// to frame a payload with a consistent size.
    pub fn build_packet(command: MessageType, source: i32, streamid: u32, size: u32) -> (r: Vec<u8>)
        ensures
            r@ == spec_header_bytes(
                Header { command, source, streamid, size: spec_i32_of_u32(size) },
            ),
    {
        let h = Header { command, source, streamid, size: u32_to_i32(size) };
        h.encode()
    }
}

/// Reads a packet header off the front of a datagram.
///
/// Fails with `MalformedHeader` when the datagram is shorter than 16 bytes
/// or when the command tag is not one of the enumerated values; otherwise
/// returns the header and the remaining payload slice.
pub fn decode_header<'a>(data: &'a [u8]) -> (r: Result<(Header, &'a [u8]), WireError>)
    ensures
        r is Ok <==> data@.len() >= 16 && spec_header_of_bytes(data@) is Some,
        r matches Ok(hp) ==> Some(hp.0) == spec_header_of_bytes(data@) && hp.1@ == data@.subrange(
            16,
            data@.len() as int,
        ),
        r matches Err(e) ==> e == WireError::MalformedHeader,
        data@.len() < 16 ==> r == Err::<(Header, &'a [u8]), WireError>(WireError::MalformedHeader),
{
    if data.len() < 16 {
        return Err(WireError::MalformedHeader);
    }
    let tag = u32_from_le_bytes(slice_subrange(data, 0, 4));
    match MessageType::from_tag(tag) {
        Some(command) => {
            let source = u32_to_i32(u32_from_le_bytes(slice_subrange(data, 4, 8)));
            let streamid = u32_from_le_bytes(slice_subrange(data, 8, 12));
            let size = u32_to_i32(u32_from_le_bytes(slice_subrange(data, 12, 16)));
            let payload = slice_subrange(data, 16, data.len());
            Ok((Header { command, source, streamid, size }, payload))
        },
        None => Err(WireError::MalformedHeader),
    }
}

/// Encoding a header and decoding the result gives the identical header
/// back, whatever payload follows it.
pub proof fn lemma_header_round_trip(h: Header, payload: Seq<u8>)
    ensures
        spec_header_of_bytes(spec_header_bytes(h) + payload) == Some(h),
{
    lemma_auto_spec_u32_to_from_le_bytes();
    let s = spec_header_bytes(h) + payload;
    assert(s.subrange(0, 4) =~= spec_u32_to_le_bytes(h.command.spec_tag()));
    assert(s.subrange(4, 8) =~= spec_u32_to_le_bytes(spec_u32_of_i32(h.source)));
    assert(s.subrange(8, 12) =~= spec_u32_to_le_bytes(h.streamid));
    assert(s.subrange(12, 16) =~= spec_u32_to_le_bytes(spec_u32_of_i32(h.size)));
}

/// Frames a payload: a header computed from the payload's length, then the
/// payload itself. Fails with `PayloadTooLarge` exactly when the payload is
/// over the 8192-byte protocol maximum.
pub fn encode_packet(command: MessageType, source: i32, streamid: u32, payload: &[u8]) -> (r: Result<
    Vec<u8>,
    WireError,
>)
    ensures
        r is Ok <==> payload@.len() <= crate::RORNET_MAX_MESSAGE_LENGTH,
        r matches Ok(v) ==> v@ == spec_header_bytes(
            Header { command, source, streamid, size: payload@.len() as i32 },
        ) + payload@,
        r matches Err(e) ==> e == WireError::PayloadTooLarge,
{
    if payload.len() > crate::RORNET_MAX_MESSAGE_LENGTH as usize {
        return Err(WireError::PayloadTooLarge);
    }
    let mut v = Header::build_packet(command, source, streamid, payload.len() as u32);
    let mut tail = slice_to_vec(payload);
    v.append(&mut tail);
    proof {
        assert(spec_i32_of_u32(payload@.len() as u32) == payload@.len() as i32);
    }
    Ok(v)
}

/// `src`'s UTF-8 bytes laid into a field of width `w`: truncated to `w`
/// when longer, zero-padded to `w` when shorter.
pub open spec fn spec_pad_truncate(s: Seq<u8>, w: nat) -> Seq<u8> {
    if s.len() >= w {
        s.subrange(0, w as int)
    } else {
        s + Seq::new((w - s.len()) as nat, |i: int| 0u8)
    }
}

/// A padded-or-truncated field always has exactly the declared width, and a
/// longer source is cut to exactly its first `w` bytes.
pub proof fn lemma_pad_truncate_width(s: Seq<u8>, w: nat)
    ensures
        spec_pad_truncate(s, w).len() == w,
        s.len() >= w ==> spec_pad_truncate(s, w) == s.subrange(0, w as int),
        forall|i: int| 0 <= i < w && i < s.len() ==> spec_pad_truncate(s, w)[i] == s[i],
        forall|i: int| s.len() <= i < w ==> spec_pad_truncate(s, w)[i] == 0u8,
{
}

/// Copies a string into a fixed-width zero-padded byte field, truncating
/// when the string is longer than the field.
pub fn copy_str_bytes(src: &str, width: usize) -> (r: Vec<u8>)
    ensures
        r@ == spec_pad_truncate(src.spec_bytes(), width as nat),
{
    let b = src.as_bytes();
    let mut r: Vec<u8> = Vec::new();
    let mut i: usize = 0;
    while i < width
        invariant
            i <= width,
            b@ == src.spec_bytes(),
            r@.len() == i,
            forall|j: int| 0 <= j < i && j < b@.len() ==> r@[j] == b@[j],
            forall|j: int| b@.len() <= j < i ==> r@[j] == 0u8,
        decreases width - i,
    {
        if i < b.len() {
            r.push(b[i]);
        } else {
            r.push(0u8);
        }
        i += 1;
    }
    proof {
        lemma_pad_truncate_width(src.spec_bytes(), width as nat);
        assert(r@ =~= spec_pad_truncate(src.spec_bytes(), width as nat));
    }
    r
}

/// The fixed-layout payload a server answers a valid Hello with:
/// protocol version, terrain name, server name, password flag, and the
/// info/message-of-the-day block, each at its fixed width.
pub struct ServerInfo {
    /// Protocol version string, 20 bytes.
    pub protocol_version: Vec<u8>,
    /// Terrain name, 128 bytes.
    pub terrain: Vec<u8>,
    /// Server name, 128 bytes.
    pub server_name: Vec<u8>,
    /// 1 when a public password is set, 0 otherwise.
    pub has_password: u8,
    /// Info / message-of-the-day block, 4096 bytes.
    pub info: Vec<u8>,
}

/// The server-info bytes a given configuration produces: every field
/// zero-padded or truncated to its declared width, in layout order.
pub open spec fn spec_server_info_bytes(c: Config) -> Seq<u8> {
    spec_pad_truncate("RoRnet_2.44".spec_bytes(), 20)
        + spec_pad_truncate(spec_str_bytes(c.s_terrain_name@), 128)
        + spec_pad_truncate(spec_str_bytes(c.s_server_name@), 128)
        + seq![if c.s_public_password@.len() != 0 { 1u8 } else { 0u8 }]
        + Seq::new(4096, |i: int| 0u8)
}

/// UTF-8 bytes of a string value.
pub open spec fn spec_str_bytes(s: Seq<char>) -> Seq<u8> {
    vstd::utf8::encode_utf8(s)
}

impl ServerInfo {
    /// Every field has exactly its declared width.
    pub open spec fn wf(&self) -> bool {
        &&& self.protocol_version@.len() == 20
        &&& self.terrain@.len() == 128
        &&& self.server_name@.len() == 128
        &&& self.info@.len() == 4096
    }

    /// The 4373 bytes this payload is laid out as.
    pub open spec fn spec_bytes(&self) -> Seq<u8> {
        self.protocol_version@ + self.terrain@ + self.server_name@ + seq![self.has_password]
            + self.info@
    }

    /// Builds the payload from the configuration snapshot: a pure function
    /// of the configuration, deterministic, truncating oversized strings
    /// rather than failing.
    pub fn build(conf: &Config) -> (s: ServerInfo)
        ensures
            s.wf(),
            s.spec_bytes() == spec_server_info_bytes(*conf),
            s.protocol_version@ == spec_pad_truncate("RoRnet_2.44".spec_bytes(), 20),
            s.terrain@ == spec_pad_truncate(spec_str_bytes(conf.s_terrain_name@), 128),
            s.server_name@ == spec_pad_truncate(spec_str_bytes(conf.s_server_name@), 128),
            s.has_password == (if conf.s_public_password@.len() != 0 { 1u8 } else { 0u8 }),
            s.info@ == Seq::new(4096, |i: int| 0u8),
    {
        let protocol_version = copy_str_bytes(crate::RORNET_VERSION, 20);
        let terrain = copy_str_bytes(conf.get_terrain_name(), 128);
        let server_name = copy_str_bytes(conf.get_server_name(), 128);
        let has_password: u8 = if conf.is_public() {
            1
        } else {
            0
        };
        let info = copy_str_bytes("", 4096);
        proof {
            reveal_strlit("");
            assert(spec_str_bytes(""@) =~= Seq::<u8>::empty());
            lemma_pad_truncate_width("".spec_bytes(), 4096);
            assert(info@ =~= Seq::new(4096, |i: int| 0u8));
        }
        ServerInfo { protocol_version, terrain, server_name, has_password, info }
    }

    /// Lays the payload out as its 4373 wire bytes.
    pub fn encode(&self) -> (r: Vec<u8>)
        requires
            self.wf(),
        ensures
            r@ == self.spec_bytes(),
            r@.len() == SERVER_INFO_BYTES,
    {
        let mut r = slice_to_vec(self.protocol_version.as_slice());
        let mut t = slice_to_vec(self.terrain.as_slice());
        r.append(&mut t);
        let mut n = slice_to_vec(self.server_name.as_slice());
        r.append(&mut n);
        r.push(self.has_password);
        let mut i = slice_to_vec(self.info.as_slice());
        r.append(&mut i);
        proof {
            assert(r@ =~= self.spec_bytes());
        }
        r
    }

    /// Builds the fully encoded ServerInfo payload for this configuration.
    pub fn build_packet(conf: &Config) -> (r: Vec<u8>)
        ensures
            r@ == spec_server_info_bytes(*conf),
            r@.len() == SERVER_INFO_BYTES,
    {
        let s = ServerInfo::build(conf);
        s.encode()
    }
}

/// The user data a peer sends to finish its handshake, at fixed offsets in
/// a 359-byte payload.
pub struct UserInfo {
    pub uniqueid: u32,
    pub authstatus: i32,
    pub slotnum: i32,
    pub colournum: i32,
    /// 40 bytes.
    pub username: Vec<u8>,
    /// 40 bytes.
    pub usertoken: Vec<u8>,
    /// 40 bytes.
    pub serverpassword: Vec<u8>,
    /// 10 bytes.
    pub language: Vec<u8>,
    /// 10 bytes.
    pub clientname: Vec<u8>,
    /// 25 bytes.
    pub clientversion: Vec<u8>,
    /// 40 bytes.
    pub clientguid: Vec<u8>,
    /// 10 bytes.
    pub sessiontype: Vec<u8>,
    /// 128 bytes.
    pub sessionoptions: Vec<u8>,
}

/// Mathematical image of a UserInfo value: integers and byte sequences.
pub struct UserInfoView {
    pub uniqueid: u32,
    pub authstatus: i32,
    pub slotnum: i32,
    pub colournum: i32,
    pub username: Seq<u8>,
    pub usertoken: Seq<u8>,
    pub serverpassword: Seq<u8>,
    pub language: Seq<u8>,
    pub clientname: Seq<u8>,
    pub clientversion: Seq<u8>,
    pub clientguid: Seq<u8>,
    pub sessiontype: Seq<u8>,
    pub sessionoptions: Seq<u8>,
}

impl View for UserInfo {
    type V = UserInfoView;

    open spec fn view(&self) -> UserInfoView {
        UserInfoView {
            uniqueid: self.uniqueid,
            authstatus: self.authstatus,
            slotnum: self.slotnum,
            colournum: self.colournum,
            username: self.username@,
            usertoken: self.usertoken@,
            serverpassword: self.serverpassword@,
            language: self.language@,
            clientname: self.clientname@,
            clientversion: self.clientversion@,
            clientguid: self.clientguid@,
            sessiontype: self.sessiontype@,
            sessionoptions: self.sessionoptions@,
        }
    }
}

impl UserInfoView {
    /// Every byte field has exactly its declared width.
    pub open spec fn wf(&self) -> bool {
        &&& self.username.len() == 40
        &&& self.usertoken.len() == 40
        &&& self.serverpassword.len() == 40
        &&& self.language.len() == 10
        &&& self.clientname.len() == 10
        &&& self.clientversion.len() == 25
        &&& self.clientguid.len() == 40
        &&& self.sessiontype.len() == 10
        &&& self.sessionoptions.len() == 128
    }

    /// The 359 bytes a UserInfo travels as.
    pub open spec fn spec_bytes(&self) -> Seq<u8> {
        spec_u32_to_le_bytes(self.uniqueid) + spec_u32_to_le_bytes(spec_u32_of_i32(self.authstatus))
            + spec_u32_to_le_bytes(spec_u32_of_i32(self.slotnum)) + spec_u32_to_le_bytes(
            spec_u32_of_i32(self.colournum),
        ) + self.username + self.usertoken + self.serverpassword + self.language + self.clientname
            + self.clientversion + self.clientguid + self.sessiontype + self.sessionoptions
    }
}

/// The UserInfo encoded in a 359-byte payload.
pub open spec fn spec_user_info_of_bytes(s: Seq<u8>) -> UserInfoView
    recommends
        s.len() == 359,
{
    UserInfoView {
        uniqueid: spec_u32_from_le_bytes(s.subrange(0, 4)),
        authstatus: spec_i32_of_u32(spec_u32_from_le_bytes(s.subrange(4, 8))),
        slotnum: spec_i32_of_u32(spec_u32_from_le_bytes(s.subrange(8, 12))),
        colournum: spec_i32_of_u32(spec_u32_from_le_bytes(s.subrange(12, 16))),
        username: s.subrange(16, 56),
        usertoken: s.subrange(56, 96),
        serverpassword: s.subrange(96, 136),
        language: s.subrange(136, 146),
        clientname: s.subrange(146, 156),
        clientversion: s.subrange(156, 181),
        clientguid: s.subrange(181, 221),
        sessiontype: s.subrange(221, 231),
        sessionoptions: s.subrange(231, 359),
    }
}

/// Parses a UserInfo payload. Fails with `MalformedPayload` exactly when
/// the payload is not exactly 359 bytes.
pub fn parse_user_info(data: &[u8]) -> (r: Result<UserInfo, WireError>)
    ensures
        r is Ok <==> data@.len() == USER_INFO_BYTES,
        r matches Ok(u) ==> u@ == spec_user_info_of_bytes(data@) && u@.wf(),
        r matches Err(e) ==> e == WireError::MalformedPayload,
{
    if data.len() != USER_INFO_BYTES {
        return Err(WireError::MalformedPayload);
    }
    let uniqueid = u32_from_le_bytes(slice_subrange(data, 0, 4));
    let authstatus = u32_to_i32(u32_from_le_bytes(slice_subrange(data, 4, 8)));
    let slotnum = u32_to_i32(u32_from_le_bytes(slice_subrange(data, 8, 12)));
    let colournum = u32_to_i32(u32_from_le_bytes(slice_subrange(data, 12, 16)));
    let username = slice_to_vec(slice_subrange(data, 16, 56));
    let usertoken = slice_to_vec(slice_subrange(data, 56, 96));
    let serverpassword = slice_to_vec(slice_subrange(data, 96, 136));
    let language = slice_to_vec(slice_subrange(data, 136, 146));
    let clientname = slice_to_vec(slice_subrange(data, 146, 156));
    let clientversion = slice_to_vec(slice_subrange(data, 156, 181));
    let clientguid = slice_to_vec(slice_subrange(data, 181, 221));
    let sessiontype = slice_to_vec(slice_subrange(data, 221, 231));
    let sessionoptions = slice_to_vec(slice_subrange(data, 231, 359));
    Ok(
        UserInfo {
            uniqueid,
            authstatus,
            slotnum,
            colournum,
            username,
            usertoken,
            serverpassword,
            language,
            clientname,
            clientversion,
            clientguid,
            sessiontype,
            sessionoptions,
        },
    )
}

/// Builds a UserInfo from plain values, zero-padding or truncating each
/// string to its field's declared width.
pub fn build_user_info(
    uniqueid: u32,
    authstatus: i32,
    slotnum: i32,
    colournum: i32,
    username: &str,
    usertoken: &str,
    serverpassword: &str,
    language: &str,
    clientname: &str,
    clientversion: &str,
    clientguid: &str,
    sessiontype: &str,
    sessionoptions: &str,
) -> (u: UserInfo)
    ensures
        u@.wf(),
        u@.uniqueid == uniqueid,
        u@.authstatus == authstatus,
        u@.slotnum == slotnum,
        u@.colournum == colournum,
        u@.username == spec_pad_truncate(username.spec_bytes(), 40),
        u@.usertoken == spec_pad_truncate(usertoken.spec_bytes(), 40),
        u@.serverpassword == spec_pad_truncate(serverpassword.spec_bytes(), 40),
        u@.language == spec_pad_truncate(language.spec_bytes(), 10),
        u@.clientname == spec_pad_truncate(clientname.spec_bytes(), 10),
        u@.clientversion == spec_pad_truncate(clientversion.spec_bytes(), 25),
        u@.clientguid == spec_pad_truncate(clientguid.spec_bytes(), 40),
        u@.sessiontype == spec_pad_truncate(sessiontype.spec_bytes(), 10),
        u@.sessionoptions == spec_pad_truncate(sessionoptions.spec_bytes(), 128),
{
    UserInfo {
        uniqueid,
        authstatus,
        slotnum,
        colournum,
        username: copy_str_bytes(username, 40),
        usertoken: copy_str_bytes(usertoken, 40),
        serverpassword: copy_str_bytes(serverpassword, 40),
        language: copy_str_bytes(language, 10),
        clientname: copy_str_bytes(clientname, 10),
        clientversion: copy_str_bytes(clientversion, 25),
        clientguid: copy_str_bytes(clientguid, 40),
        sessiontype: copy_str_bytes(sessiontype, 10),
        sessionoptions: copy_str_bytes(sessionoptions, 128),
    }
}

impl UserInfo {
    /// Lays the user data out as its 359 wire bytes; parsing them gives
    /// this value's image back.
    pub fn encode(&self) -> (r: Vec<u8>)
        requires
            self@.wf(),
        ensures
            r@.len() == USER_INFO_BYTES,
            r@ == self@.spec_bytes(),
            spec_user_info_of_bytes(r@) == self@,
    {
        proof {
            lemma_auto_spec_u32_to_from_le_bytes();
        }
        let mut r = u32_to_le_bytes(self.uniqueid);
        let mut w1 = u32_to_le_bytes(i32_to_u32(self.authstatus));
        r.append(&mut w1);
        let mut w2 = u32_to_le_bytes(i32_to_u32(self.slotnum));
        r.append(&mut w2);
        let mut w3 = u32_to_le_bytes(i32_to_u32(self.colournum));
        r.append(&mut w3);
        let mut f = slice_to_vec(self.username.as_slice());
        r.append(&mut f);
        let mut f = slice_to_vec(self.usertoken.as_slice());
        r.append(&mut f);
        let mut f = slice_to_vec(self.serverpassword.as_slice());
        r.append(&mut f);
        let mut f = slice_to_vec(self.language.as_slice());
        r.append(&mut f);
        let mut f = slice_to_vec(self.clientname.as_slice());
        r.append(&mut f);
        let mut f = slice_to_vec(self.clientversion.as_slice());
        r.append(&mut f);
        let mut f = slice_to_vec(self.clientguid.as_slice());
        r.append(&mut f);
        let mut f = slice_to_vec(self.sessiontype.as_slice());
        r.append(&mut f);
        let mut f = slice_to_vec(self.sessionoptions.as_slice());
        r.append(&mut f);
        proof {
            assert(r@ =~= self@.spec_bytes());
            lemma_user_info_bytes_round_trip(self@);
        }
        r
    }
}

/// Encoding a well-formed UserInfo and parsing the bytes gives the same
/// value back.
pub proof fn lemma_user_info_bytes_round_trip(u: UserInfoView)
    requires
        u.wf(),
    ensures
        u.spec_bytes().len() == USER_INFO_BYTES,
        spec_user_info_of_bytes(u.spec_bytes()) == u,
{
    lemma_auto_spec_u32_to_from_le_bytes();
    let s = u.spec_bytes();
    assert(s.subrange(0, 4) =~= spec_u32_to_le_bytes(u.uniqueid));
    assert(s.subrange(4, 8) =~= spec_u32_to_le_bytes(spec_u32_of_i32(u.authstatus)));
    assert(s.subrange(8, 12) =~= spec_u32_to_le_bytes(spec_u32_of_i32(u.slotnum)));
    assert(s.subrange(12, 16) =~= spec_u32_to_le_bytes(spec_u32_of_i32(u.colournum)));
    assert(s.subrange(16, 56) =~= u.username);
    assert(s.subrange(56, 96) =~= u.usertoken);
    assert(s.subrange(96, 136) =~= u.serverpassword);
    assert(s.subrange(136, 146) =~= u.language);
    assert(s.subrange(146, 156) =~= u.clientname);
    assert(s.subrange(156, 181) =~= u.clientversion);
    assert(s.subrange(181, 221) =~= u.clientguid);
    assert(s.subrange(221, 231) =~= u.sessiontype);
    assert(s.subrange(231, 359) =~= u.sessionoptions);
}

/// Byte-for-byte equality of two slices.
pub fn bytes_eq(a: &[u8], b: &[u8]) -> (r: bool)
    ensures
        r == (a@ == b@),
{
    if a.len() != b.len() {
        proof {
            assert(a@.len() != b@.len());
        }
        return false;
    }
    let mut i: usize = 0;
    while i < a.len()
        invariant
            i <= a@.len(),
            a@.len() == b@.len(),
            forall|j: int| 0 <= j < i ==> a@[j] == b@[j],
        decreases a@.len() - i,
    {
        if a[i] != b[i] {
            return false;
        }
        i += 1;
    }
    proof {
        assert(a@ =~= b@);
    }
    true
}

} // verus!
