//! Packet framing: a little-endian `u16` length, a one-byte message kind
//! and the payload (`exdata`); the length counts the kind byte and the
//! payload.
use vstd::prelude::*;
use crate::traits::IntoExdata;
use crate::wire::{le16, push_le16, read_le16, u16_le_bytes};

verus! {

/// What the protocol code refuses.
#[derive(Debug, PartialEq, Eq, Structural)]
pub enum YgoError {
    /// Fewer bytes than a packet header; holds the number of bytes given.
    PacketTooShort(usize),
    /// A server message kind that the protocol does not define; holds the byte.
    UnknownProto(u8),
    /// A payload shorter than its message needs; holds the payload's length.
    ExdataTooShort(usize),
    /// A room description whose flag bytes are neither 0 nor 1.
    InvalidHostInfo,
}

/// The number of bytes of a packet header: the length and the kind.
pub open spec fn spec_packet_len_min() -> usize {
    3
}

/// The number of bytes of a packet header: the length and the kind.
pub fn packet_len_min() -> (r: usize)
    ensures
        r == spec_packet_len_min(),
{
    3
}

/// The length field of the packet that starts `b`.
pub open spec fn frame_len(b: Seq<u8>) -> u16 {
    le16(b[0], b[1])
}

/// The packet that starts `b` lies within `b` and its length counts at least the kind byte.
pub open spec fn frame_fits(b: Seq<u8>) -> bool {
    &&& b.len() >= 3
    &&& 1 <= frame_len(b)
    &&& frame_len(b) + 2 <= b.len()
}

/// The payload of the packet that starts `b`.
pub open spec fn frame_exdata(b: Seq<u8>) -> Seq<u8> {
    b.subrange(3, frame_len(b) + 2)
}

/// The bytes of a packet with the given fields.
pub open spec fn packet_wire(packet_len: u16, proto: u8, exdata: Seq<u8>) -> Seq<u8> {
    u16_le_bytes(packet_len) + seq![proto] + exdata
}

/// A packet of the protocol.
pub struct YGOPacket {
    pub packet_len: u16,
    pub proto: u8,
    pub exdata: Vec<u8>,
}

/// The direction and kind of a message.
pub enum YGOProto {
    CTOS(CTOSMsg),
    STOC(STOCMsg),
}

/// Kinds of client-to-server messages.
#[allow(non_camel_case_types)]
#[derive(Clone, Copy, Debug, PartialEq, Eq, Structural)]
pub enum CTOSMsg {
    RESPONSE,
    UPDATE_DECK,
    HAND_RESULT,
    TP_RESULT,
    PLAYER_INFO,
    CREATE_GAME,
    JOIN_GAME,
    LEAVE_GAME,
    SURRENDER,
    TIME_CONFIRM,
    CHAT,
    HS_TODUELIST,
    HS_TOOBSERVER,
    HS_READY,
    HS_NOTREADY,
    HS_KICK,
    HS_START,
    REQUEST_FIELD,
}

/// The byte that stands for a client-to-server message kind.
pub open spec fn ctos_code(m: CTOSMsg) -> u8 {
    match m {
        CTOSMsg::RESPONSE => 1,
        CTOSMsg::UPDATE_DECK => 2,
        CTOSMsg::HAND_RESULT => 3,
        CTOSMsg::TP_RESULT => 4,
        CTOSMsg::PLAYER_INFO => 16,
        CTOSMsg::CREATE_GAME => 17,
        CTOSMsg::JOIN_GAME => 18,
        CTOSMsg::LEAVE_GAME => 19,
        CTOSMsg::SURRENDER => 20,
        CTOSMsg::TIME_CONFIRM => 21,
        CTOSMsg::CHAT => 22,
        CTOSMsg::HS_TODUELIST => 32,
        CTOSMsg::HS_TOOBSERVER => 33,
        CTOSMsg::HS_READY => 34,
        CTOSMsg::HS_NOTREADY => 35,
        CTOSMsg::HS_KICK => 36,
        CTOSMsg::HS_START => 37,
        CTOSMsg::REQUEST_FIELD => 48,
    }
}

impl CTOSMsg {
    /// The byte that stands for this kind on the wire.
    pub fn to_u8(&self) -> (r: u8)
        ensures
            r == ctos_code(*self),
    {
        match self {
            CTOSMsg::RESPONSE => 1,
            CTOSMsg::UPDATE_DECK => 2,
            CTOSMsg::HAND_RESULT => 3,
            CTOSMsg::TP_RESULT => 4,
            CTOSMsg::PLAYER_INFO => 16,
            CTOSMsg::CREATE_GAME => 17,
            CTOSMsg::JOIN_GAME => 18,
            CTOSMsg::LEAVE_GAME => 19,
            CTOSMsg::SURRENDER => 20,
            CTOSMsg::TIME_CONFIRM => 21,
            CTOSMsg::CHAT => 22,
            CTOSMsg::HS_TODUELIST => 32,
            CTOSMsg::HS_TOOBSERVER => 33,
            CTOSMsg::HS_READY => 34,
            CTOSMsg::HS_NOTREADY => 35,
            CTOSMsg::HS_KICK => 36,
            CTOSMsg::HS_START => 37,
            CTOSMsg::REQUEST_FIELD => 48,
        }
    }
}

/// Kinds of server-to-client messages.
#[allow(non_camel_case_types)]
#[derive(Clone, Copy, Debug, PartialEq, Eq, Structural)]
pub enum STOCMsg {
    GAME_MSG,
    ERROR_MSG,
    SELECT_HAND,
    SELECT_TP,
    HAND_RESULT,
    TP_RESULT,
    CHANGE_SIDE,
    WAITTING_SIDE,
    DECK_COUNT,
    CREATE_GAME,
    JOIN_GAME,
    TYPE_CHANGE,
    LEAVE_GAME,
    DUEL_START,
    DUEL_END,
    REPLAY,
    TIME_LIMIT,
    CHAT,
    HS_PLAYER_ENTER,
    HS_PLAYER_CHANGE,
    HS_WATCH_CHANGE,
    FIELD_FINISH,
}

/// The byte that stands for a server-to-client message kind.
pub open spec fn stoc_code(m: STOCMsg) -> u8 {
    match m {
        STOCMsg::GAME_MSG => 1,
        STOCMsg::ERROR_MSG => 2,
        STOCMsg::SELECT_HAND => 3,
        STOCMsg::SELECT_TP => 4,
        STOCMsg::HAND_RESULT => 5,
        STOCMsg::TP_RESULT => 6,
        STOCMsg::CHANGE_SIDE => 7,
        STOCMsg::WAITTING_SIDE => 8,
        STOCMsg::DECK_COUNT => 9,
        STOCMsg::CREATE_GAME => 17,
        STOCMsg::JOIN_GAME => 18,
        STOCMsg::TYPE_CHANGE => 19,
        STOCMsg::LEAVE_GAME => 20,
        STOCMsg::DUEL_START => 21,
        STOCMsg::DUEL_END => 22,
        STOCMsg::REPLAY => 23,
        STOCMsg::TIME_LIMIT => 24,
        STOCMsg::CHAT => 25,
        STOCMsg::HS_PLAYER_ENTER => 32,
        STOCMsg::HS_PLAYER_CHANGE => 33,
        STOCMsg::HS_WATCH_CHANGE => 34,
        STOCMsg::FIELD_FINISH => 48,
    }
}

/// The server-to-client message kind that a byte stands for, if any.
pub open spec fn stoc_from_code(v: u8) -> Result<STOCMsg, YgoError> {
    if v == 1 {
        Ok(STOCMsg::GAME_MSG)
    } else if v == 2 {
        Ok(STOCMsg::ERROR_MSG)
    } else if v == 3 {
        Ok(STOCMsg::SELECT_HAND)
    } else if v == 4 {
        Ok(STOCMsg::SELECT_TP)
    } else if v == 5 {
        Ok(STOCMsg::HAND_RESULT)
    } else if v == 6 {
        Ok(STOCMsg::TP_RESULT)
    } else if v == 7 {
        Ok(STOCMsg::CHANGE_SIDE)
    } else if v == 8 {
        Ok(STOCMsg::WAITTING_SIDE)
    } else if v == 9 {
        Ok(STOCMsg::DECK_COUNT)
    } else if v == 17 {
        Ok(STOCMsg::CREATE_GAME)
    } else if v == 18 {
        Ok(STOCMsg::JOIN_GAME)
    } else if v == 19 {
        Ok(STOCMsg::TYPE_CHANGE)
    } else if v == 20 {
        Ok(STOCMsg::LEAVE_GAME)
    } else if v == 21 {
        Ok(STOCMsg::DUEL_START)
    } else if v == 22 {
        Ok(STOCMsg::DUEL_END)
    } else if v == 23 {
        Ok(STOCMsg::REPLAY)
    } else if v == 24 {
        Ok(STOCMsg::TIME_LIMIT)
    } else if v == 25 {
        Ok(STOCMsg::CHAT)
    } else if v == 32 {
        Ok(STOCMsg::HS_PLAYER_ENTER)
    } else if v == 33 {
        Ok(STOCMsg::HS_PLAYER_CHANGE)
    } else if v == 34 {
        Ok(STOCMsg::HS_WATCH_CHANGE)
    } else if v == 48 {
        Ok(STOCMsg::FIELD_FINISH)
    } else {
        Err(YgoError::UnknownProto(v))
    }
}

impl STOCMsg {
    /// The byte that stands for this kind on the wire.
    pub fn to_u8(&self) -> (r: u8)
        ensures
            r == stoc_code(*self),
    {
        match self {
            STOCMsg::GAME_MSG => 1,
            STOCMsg::ERROR_MSG => 2,
            STOCMsg::SELECT_HAND => 3,
            STOCMsg::SELECT_TP => 4,
            STOCMsg::HAND_RESULT => 5,
            STOCMsg::TP_RESULT => 6,
            STOCMsg::CHANGE_SIDE => 7,
            STOCMsg::WAITTING_SIDE => 8,
            STOCMsg::DECK_COUNT => 9,
            STOCMsg::CREATE_GAME => 17,
            STOCMsg::JOIN_GAME => 18,
            STOCMsg::TYPE_CHANGE => 19,
            STOCMsg::LEAVE_GAME => 20,
            STOCMsg::DUEL_START => 21,
            STOCMsg::DUEL_END => 22,
            STOCMsg::REPLAY => 23,
            STOCMsg::TIME_LIMIT => 24,
            STOCMsg::CHAT => 25,
            STOCMsg::HS_PLAYER_ENTER => 32,
            STOCMsg::HS_PLAYER_CHANGE => 33,
            STOCMsg::HS_WATCH_CHANGE => 34,
            STOCMsg::FIELD_FINISH => 48,
        }
    }
}

impl TryFrom<u8> for STOCMsg {
    type Error = YgoError;

    /// The server-to-client message kind that `value` stands for; any other
    /// byte is refused with `UnknownProto`.
    fn try_from(value: u8) -> (r: Result<Self, Self::Error>)
        ensures
            r == stoc_from_code(value),
    {
        match value {
            1 => Ok(Self::GAME_MSG),
            2 => Ok(Self::ERROR_MSG),
            3 => Ok(Self::SELECT_HAND),
            4 => Ok(Self::SELECT_TP),
            5 => Ok(Self::HAND_RESULT),
            6 => Ok(Self::TP_RESULT),
            7 => Ok(Self::CHANGE_SIDE),
            8 => Ok(Self::WAITTING_SIDE),
            9 => Ok(Self::DECK_COUNT),
            17 => Ok(Self::CREATE_GAME),
            18 => Ok(Self::JOIN_GAME),
            19 => Ok(Self::TYPE_CHANGE),
            20 => Ok(Self::LEAVE_GAME),
            21 => Ok(Self::DUEL_START),
            22 => Ok(Self::DUEL_END),
            23 => Ok(Self::REPLAY),
            24 => Ok(Self::TIME_LIMIT),
            25 => Ok(Self::CHAT),
            32 => Ok(Self::HS_PLAYER_ENTER),
            33 => Ok(Self::HS_PLAYER_CHANGE),
            34 => Ok(Self::HS_WATCH_CHANGE),
            48 => Ok(Self::FIELD_FINISH),
            x => Err(YgoError::UnknownProto(x)),
        }
    }
}

impl vstd::std_specs::convert::TryFromSpecImpl<u8> for STOCMsg {
    open spec fn obeys_try_from_spec() -> bool {
        true
    }

    open spec fn try_from_spec(v: u8) -> Result<Self, YgoError> {
        stoc_from_code(v)
    }
}

/// Every server-to-client kind is read back from its byte, and a byte is
/// accepted exactly when it is the byte of the kind it gives.
pub proof fn law_stoc_code_roundtrip(m: STOCMsg, v: u8)
    ensures
        stoc_from_code(stoc_code(m)) == Ok::<STOCMsg, YgoError>(m),
        stoc_from_code(v) matches Ok(k) ==> stoc_code(k) == v,
{
}

impl YGOPacket {
    /// The length field agrees with the payload: it counts the kind byte and the payload.
    pub open spec fn well_formed(&self) -> bool {
        self.exdata@.len() + 1 == self.packet_len
    }

    /// The bytes of this packet.
    pub open spec fn wire(&self) -> Seq<u8> {
        packet_wire(self.packet_len, self.proto, self.exdata@)
    }

    /// Reads the packet that starts `bytes`: its length, kind and payload;
    /// fewer than three bytes are refused with `PacketTooShort`.
    pub fn from_bytes(bytes: &[u8]) -> (r: Result<Self, YgoError>)
        requires
            bytes@.len() >= 3 ==> frame_fits(bytes@),
        ensures
            bytes@.len() < 3 <==> r is Err,
            r matches Err(e) ==> e == YgoError::PacketTooShort(bytes@.len() as usize),
            r matches Ok(p) ==> {
                &&& p.packet_len == frame_len(bytes@)
                &&& p.proto == bytes@[2]
                &&& p.exdata@ == frame_exdata(bytes@)
            },
    {
        let n = bytes.len();
        if n < packet_len_min() {
            return Err(YgoError::PacketTooShort(n));
        }
        let packet_len = read_le16(bytes[0], bytes[1]);
        let proto = bytes[2];
        let end: usize = packet_len as usize + 2;
        let exdata = vstd::slice::slice_to_vec(vstd::slice::slice_subrange(bytes, 3, end));
        Ok(Self { packet_len, proto, exdata })
    }

    /// Lays the packet out as bytes: the length (little-endian), the kind,
    /// then the payload.
    pub fn into_bytes(self) -> (r: Result<Vec<u8>, YgoError>)
        requires
            self.well_formed(),
        ensures
            r matches Ok(b) && b@ == self.wire(),
    {
        let ghost w = self.wire();
        let mut out: Vec<u8> = Vec::new();
        push_le16(&mut out, self.packet_len);
        out.push(self.proto);
        let mut exdata = self.exdata;
        out.append(&mut exdata);
        assert(out@ =~= w);
        Ok(out)
    }

    /// Frames a client-to-server body: the payload is the body's bytes and
    /// the length counts them and the kind byte.
    pub fn from_proto<T: IntoExdata>(proto: YGOProto, exdata: T) -> (r: Result<Self, YgoError>)
        requires
            proto matches YGOProto::CTOS(m) && (m == CTOSMsg::PLAYER_INFO || m
                == CTOSMsg::JOIN_GAME),
            exdata.exdata_ready(),
            (exdata.exdata_view().len() as u16) < 0xffff,
        ensures
            r matches Ok(p) && {
                &&& p.exdata@ == exdata.exdata_view()
                &&& p.packet_len == (exdata.exdata_view().len() as u16) + 1
                &&& (exdata.exdata_view().len() < 0xffff ==> p.well_formed())
                &&& proto matches YGOProto::CTOS(m) && p.proto == ctos_code(m)
            },
    {
        match proto {
            YGOProto::CTOS(ctos) => {
                let bytes = exdata.into_exdata();
                let n = bytes.len() as u16;
                Ok(Self { packet_len: n + 1, proto: ctos.to_u8(), exdata: bytes })
            },
            YGOProto::STOC(_) => {
                proof {
                    assert(false);
                }
                Err(YgoError::UnknownProto(0))
            },
        }
    }
}

/// A well-formed packet is read back from its bytes.
pub proof fn law_packet_roundtrip(p: YGOPacket)
    requires
        p.well_formed(),
    ensures
        frame_fits(p.wire()),
        frame_len(p.wire()) == p.packet_len,
        p.wire()[2] == p.proto,
        frame_exdata(p.wire()) == p.exdata@,
{
    let w = p.wire();
    assert(w[0] == (p.packet_len % 256) as u8);
    assert(w[1] == (p.packet_len / 256) as u8);
    assert(frame_exdata(w) =~= p.exdata@);
}

/// Reading a packet and laying it out again gives back its bytes.
pub proof fn law_frame_roundtrip(b: Seq<u8>)
    requires
        frame_fits(b),
    ensures
        packet_wire(frame_len(b), b[2], frame_exdata(b)) == b.take(frame_len(b) + 2),
{
    let l = frame_len(b);
    assert(l % 256 == b[0] && l / 256 == b[1]);
    assert(packet_wire(l, b[2], frame_exdata(b)) =~= b.take(l + 2));
}

} // verus!
