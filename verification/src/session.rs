//! The decisions of the client's conversation with a server: the requests
//! that ask to join a room, and what each received packet means while the
//! client waits to be let in.
use vstd::prelude::*;
use vstd::utf8::{encode_utf8, is_char_boundary};
use vstd::string::StringSliceAdditionalSpecFns;
use crate::packet::{
    ctos_code, frame_exdata, frame_fits, frame_len, packet_wire, stoc_from_code, CTOSMsg,
    STOCMsg, YGOPacket, YGOProto, YgoError,
};
use crate::structs::{
    filled_buffer, host_info_bytes_ok, host_info_from, lemma_join_game_len, lemma_player_info_len,
    CTOSJoinGame, CTOSPlayerInfo, HostInfo, STOCChat, STOCJoinGame,
};
use crate::traits::IntoExdata;
use crate::utf16::{
    fill_limit, law_utf16_buffer_roundtrip, lemma_utf16_fill_len, no_nul, utf16_buffer_text,
    utf16_fill, utf8_prefix,
};
use crate::wire::{le16, u16_le_bytes, u16s_le_bytes, u32_le_bytes};

verus! {

/// The client version sent when asking to join a room.
pub const VERSION: u16 = 4947;

/// The size of the buffer that received bytes are read into.
pub const BUFFER_LEN: usize = 0x1000;

/// The bytes of the packet that announces the player's name.
pub open spec fn player_info_wire(name: Seq<char>) -> Seq<u8> {
    packet_wire(41, ctos_code(CTOSMsg::PLAYER_INFO), u16s_le_bytes(utf16_fill(filled_buffer(20), name)))
}

/// The bytes of the packet that asks to join a room.
pub open spec fn join_game_wire(version: u16, pass: Seq<char>) -> Seq<u8> {
    packet_wire(
        47,
        ctos_code(CTOSMsg::JOIN_GAME),
        u16_le_bytes(version) + seq![0u8, 0u8] + u32_le_bytes(0) + u16s_le_bytes(
            utf16_fill(filled_buffer(20), pass).take(19),
        ),
    )
}

/// The packet that announces the player's name.
pub fn player_info_packet(name: &str) -> (r: Vec<u8>)
    requires
        is_char_boundary(name.spec_bytes(), fill_limit(name@, 20)),
    ensures
        r@ == player_info_wire(name@),
{
    let info = CTOSPlayerInfo::new(name);
    proof {
        lemma_player_info_len(info);
    }
    let packet = YGOPacket::from_proto(YGOProto::CTOS(CTOSMsg::PLAYER_INFO), info).unwrap();
    packet.into_bytes().unwrap()
}

/// The packet that asks to join a room with the given client version and password.
pub fn join_game_packet(version: u16, pass: &str) -> (r: Vec<u8>)
    requires
        is_char_boundary(pass.spec_bytes(), fill_limit(pass@, 20)),
    ensures
        r@ == join_game_wire(version, pass@),
{
    let req = CTOSJoinGame::new(version, pass);
    proof {
        lemma_join_game_len(req);
    }
    let packet = YGOPacket::from_proto(YGOProto::CTOS(CTOSMsg::JOIN_GAME), req).unwrap();
    packet.into_bytes().unwrap()
}

/// The name packet is read back: its bytes form one packet of kind
/// `PLAYER_INFO` whose payload holds, as UTF-16 text, the part of the name
/// that fit, provided that part has no NUL.
pub proof fn law_player_info_packet_roundtrip(name: Seq<char>)
    requires
        is_char_boundary(encode_utf8(name), fill_limit(name, 20)),
        no_nul(utf8_prefix(name, fill_limit(name, 20))),
    ensures
        frame_fits(player_info_wire(name)),
        frame_len(player_info_wire(name)) == 41,
        player_info_wire(name)[2] == ctos_code(CTOSMsg::PLAYER_INFO),
        utf16_buffer_text(frame_exdata(player_info_wire(name))) == utf8_prefix(
            name,
            fill_limit(name, 20),
        ),
{
    let buf = utf16_fill(filled_buffer(20), name);
    lemma_utf16_fill_len(filled_buffer(20), name);
    let w = player_info_wire(name);
    let ex = u16s_le_bytes(buf);
    assert(w[0] == 41u8 && w[1] == 0u8);
    assert(frame_exdata(w) =~= ex);
    law_utf16_buffer_roundtrip(filled_buffer(20), name);
}

/// The join request carries the given version: the packet is 49 bytes with
/// length 47 and kind JOIN_GAME, its first two payload bytes are the version
/// (little-endian), then two padding bytes and a zero game id.
pub proof fn law_join_game_packet_version(version: u16, pass: Seq<char>)
    requires
        is_char_boundary(encode_utf8(pass), fill_limit(pass, 20)),
    ensures
        join_game_wire(version, pass).len() == 49,
        join_game_wire(version, pass).subrange(0, 3) == seq![47u8, 0u8, 18u8],
        join_game_wire(version, pass).subrange(3, 5) == u16_le_bytes(version),
        le16(join_game_wire(version, pass)[3], join_game_wire(version, pass)[4]) == version,
        join_game_wire(version, pass).subrange(5, 11) == seq![0u8, 0u8, 0u8, 0u8, 0u8, 0u8],
{
    let w = join_game_wire(version, pass);
    lemma_utf16_fill_len(filled_buffer(20), pass);
    assert(w.subrange(0, 3) =~= seq![47u8, 0u8, 18u8]);
    assert(w.subrange(3, 5) =~= u16_le_bytes(version));
    assert(w.subrange(5, 11) =~= seq![0u8, 0u8, 0u8, 0u8, 0u8, 0u8]);
    assert(le16(w[3], w[4]) as int == (version % 256) + 256 * (version / 256));
}

/// A JOIN_GAME answer of at least 20 bytes whose flag bytes (7 and 8) are
/// 0 or 1 is accepted, whatever its other bytes hold.
pub proof fn law_join_answer_accepted(ex: Seq<u8>)
    requires
        ex.len() >= 20,
        ex[7] <= 1,
        ex[8] <= 1,
    ensures
        host_info_bytes_ok(ex),
{
}

/// What a received packet means to a client waiting to enter a room.
pub enum JoinEvent {
    /// Nothing was received.
    Nothing,
    /// A chat line arrived.
    Chat(STOCChat),
    /// The server let the client in; the room's description.
    Joined(HostInfo),
    /// A message of another kind, which the client passes over.
    Other(STOCMsg),
}

/// The buffer can be read without a packet running past its end, and a chat
/// packet carries its sender.
pub open spec fn join_buffer_readable(buffer: Seq<u8>, recv_len: usize) -> bool {
    recv_len > 0 && buffer.len() >= 3 ==> {
        &&& frame_fits(buffer)
        &&& stoc_from_code(buffer[2]) == Ok::<STOCMsg, YgoError>(STOCMsg::CHAT) ==> frame_len(buffer)
            >= 3
    }
}

/// Reads what the server sent while the client waits to enter a room.
/// `recv_len` is how many bytes the last read brought; the packet is read
/// from the start of `buffer`.
pub fn join_home_step(buffer: &[u8], recv_len: usize) -> (r: Result<JoinEvent, YgoError>)
    requires
        join_buffer_readable(buffer@, recv_len),
    ensures
        recv_len == 0 ==> r matches Ok(JoinEvent::Nothing),
        recv_len > 0 && buffer@.len() < 3 ==> r == Err::<JoinEvent, YgoError>(
            YgoError::PacketTooShort(buffer@.len() as usize),
        ),
        recv_len > 0 && buffer@.len() >= 3 ==> {
            let ex = frame_exdata(buffer@);
            match stoc_from_code(buffer@[2]) {
                Err(e) => r == Err::<JoinEvent, YgoError>(e),
                Ok(STOCMsg::CHAT) => (r matches Ok(JoinEvent::Chat(c)) && c.player == le16(
                    ex[0],
                    ex[1],
                ) && c.msg@ == utf16_buffer_text(ex.skip(2))),
                Ok(STOCMsg::JOIN_GAME) => if ex.len() < 20 {
                    r == Err::<JoinEvent, YgoError>(YgoError::ExdataTooShort(ex.len() as usize))
                } else if !host_info_bytes_ok(ex) {
                    r == Err::<JoinEvent, YgoError>(YgoError::InvalidHostInfo)
                } else {
                    (r matches Ok(JoinEvent::Joined(h)) && h == host_info_from(ex))
                },
                Ok(m) => (r matches Ok(JoinEvent::Other(k)) && k == m),
            }
        },
        recv_len > 0 && buffer@.len() >= 3 && stoc_from_code(buffer@[2]) == Ok::<STOCMsg, YgoError>(
            STOCMsg::JOIN_GAME,
        ) && frame_exdata(buffer@).len() >= 20 && frame_exdata(buffer@)[7] <= 1 && frame_exdata(
            buffer@,
        )[8] <= 1 ==> (r matches Ok(JoinEvent::Joined(h)) && h == host_info_from(
            frame_exdata(buffer@),
        )),
{
    if recv_len == 0 {
        return Ok(JoinEvent::Nothing);
    }
    let packet = YGOPacket::from_bytes(buffer)?;
    let stoc = STOCMsg::try_from(packet.proto)?;
    match stoc {
        STOCMsg::CHAT => {
            let chat = STOCChat::from_exdata(packet.exdata);
            Ok(JoinEvent::Chat(chat))
        },
        STOCMsg::JOIN_GAME => {
            let n = packet.exdata.len();
            if n < 20 {
                return Err(YgoError::ExdataTooShort(n));
            }
            if packet.exdata[7] > 1 || packet.exdata[8] > 1 {
                return Err(YgoError::InvalidHostInfo);
            }
            let join_game = STOCJoinGame::from_exdata(packet.exdata);
            Ok(JoinEvent::Joined(join_game.host_info))
        },
        other => Ok(JoinEvent::Other(other)),
    }
}

/// Reads the packet that a read of `recv_len` bytes left at the start of
/// `buffer`, and the kind of server message it holds; nothing when nothing
/// was read.
pub fn inspect_received(buffer: &[u8], recv_len: usize) -> (r: Result<
    Option<(YGOPacket, STOCMsg)>,
    YgoError,
>)
    requires
        recv_len > 0 && buffer@.len() >= 3 ==> frame_fits(buffer@),
    ensures
        recv_len == 0 ==> r matches Ok(None),
        recv_len > 0 && buffer@.len() < 3 ==> (r matches Err(e) && e
            == YgoError::PacketTooShort(buffer@.len() as usize)),
        recv_len > 0 && buffer@.len() >= 3 ==> match stoc_from_code(buffer@[2]) {
            Err(e) => (r matches Err(e2) && e2 == e),
            Ok(m) => (r matches Ok(Some((p, k))) && {
                &&& k == m
                &&& p.packet_len == frame_len(buffer@)
                &&& p.proto == buffer@[2]
                &&& p.exdata@ == frame_exdata(buffer@)
            }),
        },
{
    if recv_len == 0 {
        return Ok(None);
    }
    let packet = YGOPacket::from_bytes(buffer)?;
    let stoc = STOCMsg::try_from(packet.proto)?;
    Ok(Some((packet, stoc)))
}

} // verus!
