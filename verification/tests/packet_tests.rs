use ygopro::packet::{packet_len_min, CTOSMsg, STOCMsg, YGOPacket, YGOProto, YgoError};
use ygopro::structs::{CTOSEmpty, CTOSJoinGame, CTOSPlayerInfo};

#[test]
fn packet_len_min_is_header_size() {
    assert_eq!(packet_len_min(), 3);
}

#[test]
fn from_bytes_refuses_short_input() {
    assert_eq!(YGOPacket::from_bytes(&[4, 0]).err(), Some(YgoError::PacketTooShort(2)));
    assert_eq!(YGOPacket::from_bytes(&[]).err(), Some(YgoError::PacketTooShort(0)));
}

#[test]
fn from_bytes_reads_header_and_payload() {
    let p = YGOPacket::from_bytes(&[4, 0, 25, 1, 2, 3, 9, 9]).unwrap();
    assert_eq!(p.packet_len, 4);
    assert_eq!(p.proto, 25);
    assert_eq!(p.exdata, vec![1, 2, 3]);
}

#[test]
fn from_bytes_reads_little_endian_length() {
    let mut bytes = vec![0x02, 0x01, 7];
    bytes.extend(std::iter::repeat(5u8).take(0x101));
    let p = YGOPacket::from_bytes(&bytes).unwrap();
    assert_eq!(p.packet_len, 0x0102);
    assert_eq!(p.exdata.len(), 0x101);
}

#[test]
fn from_bytes_kind_only_packet() {
    let p = YGOPacket::from_bytes(&[1, 0, 18]).unwrap();
    assert_eq!(p.packet_len, 1);
    assert!(p.exdata.is_empty());
}

#[test]
fn into_bytes_layout() {
    let p = YGOPacket { packet_len: 4, proto: 16, exdata: vec![1, 2, 3] };
    assert_eq!(p.into_bytes().unwrap(), vec![4, 0, 16, 1, 2, 3]);
}

#[test]
fn packet_roundtrip_through_bytes() {
    let exdata: Vec<u8> = (0..300u32).map(|i| (i % 251) as u8).collect();
    let p = YGOPacket { packet_len: 301, proto: 25, exdata: exdata.clone() };
    let bytes = p.into_bytes().unwrap();
    assert_eq!(bytes.len(), 303);
    let q = YGOPacket::from_bytes(&bytes).unwrap();
    assert_eq!(q.packet_len, 301);
    assert_eq!(q.proto, 25);
    assert_eq!(q.exdata, exdata);
}

#[test]
fn frame_roundtrip_keeps_packet_bytes() {
    let bytes = vec![3, 0, 9, 7, 8, 100, 101];
    let p = YGOPacket::from_bytes(&bytes).unwrap();
    assert_eq!(p.into_bytes().unwrap(), vec![3, 0, 9, 7, 8]);
}

#[test]
fn from_proto_player_info() {
    let info = CTOSPlayerInfo::new("sktt1faker");
    let p = YGOPacket::from_proto(YGOProto::CTOS(CTOSMsg::PLAYER_INFO), info).unwrap();
    assert_eq!(p.packet_len, 41);
    assert_eq!(p.proto, 16);
    assert_eq!(p.exdata.len(), 40);
}

#[test]
fn from_proto_join_game() {
    let req = CTOSJoinGame::new(4947, "TM999#ccc");
    let p = YGOPacket::from_proto(YGOProto::CTOS(CTOSMsg::JOIN_GAME), req).unwrap();
    assert_eq!(p.packet_len, 47);
    assert_eq!(p.proto, 18);
    assert_eq!(p.exdata.len(), 46);
}

#[test]
fn from_proto_empty_body() {
    let p = YGOPacket::from_proto(YGOProto::CTOS(CTOSMsg::JOIN_GAME), CTOSEmpty).unwrap();
    assert_eq!(p.packet_len, 1);
    assert_eq!(p.into_bytes().unwrap(), vec![1, 0, 18]);
}

#[test]
fn ctos_codes() {
    let all = [
        (CTOSMsg::RESPONSE, 1u8),
        (CTOSMsg::UPDATE_DECK, 2),
        (CTOSMsg::HAND_RESULT, 3),
        (CTOSMsg::TP_RESULT, 4),
        (CTOSMsg::PLAYER_INFO, 16),
        (CTOSMsg::CREATE_GAME, 17),
        (CTOSMsg::JOIN_GAME, 18),
        (CTOSMsg::LEAVE_GAME, 19),
        (CTOSMsg::SURRENDER, 20),
        (CTOSMsg::TIME_CONFIRM, 21),
        (CTOSMsg::CHAT, 22),
        (CTOSMsg::HS_TODUELIST, 32),
        (CTOSMsg::HS_TOOBSERVER, 33),
        (CTOSMsg::HS_READY, 34),
        (CTOSMsg::HS_NOTREADY, 35),
        (CTOSMsg::HS_KICK, 36),
        (CTOSMsg::HS_START, 37),
        (CTOSMsg::REQUEST_FIELD, 48),
    ];
    for (m, code) in all {
        assert_eq!(m.to_u8(), code);
    }
}

#[test]
fn stoc_codes_roundtrip() {
    let all = [
        (STOCMsg::GAME_MSG, 1u8),
        (STOCMsg::ERROR_MSG, 2),
        (STOCMsg::SELECT_HAND, 3),
        (STOCMsg::SELECT_TP, 4),
        (STOCMsg::HAND_RESULT, 5),
        (STOCMsg::TP_RESULT, 6),
        (STOCMsg::CHANGE_SIDE, 7),
        (STOCMsg::WAITTING_SIDE, 8),
        (STOCMsg::DECK_COUNT, 9),
        (STOCMsg::CREATE_GAME, 17),
        (STOCMsg::JOIN_GAME, 18),
        (STOCMsg::TYPE_CHANGE, 19),
        (STOCMsg::LEAVE_GAME, 20),
        (STOCMsg::DUEL_START, 21),
        (STOCMsg::DUEL_END, 22),
        (STOCMsg::REPLAY, 23),
        (STOCMsg::TIME_LIMIT, 24),
        (STOCMsg::CHAT, 25),
        (STOCMsg::HS_PLAYER_ENTER, 32),
        (STOCMsg::HS_PLAYER_CHANGE, 33),
        (STOCMsg::HS_WATCH_CHANGE, 34),
        (STOCMsg::FIELD_FINISH, 48),
    ];
    for (m, code) in all {
        assert_eq!(m.to_u8(), code);
        assert_eq!(STOCMsg::try_from(code), Ok(m));
    }
}

#[test]
fn stoc_unknown_codes_refused() {
    for code in [0u8, 10, 16, 26, 31, 35, 47, 49, 255] {
        assert_eq!(STOCMsg::try_from(code), Err(YgoError::UnknownProto(code)));
    }
    let accepted = (0..=255u8).filter(|c| STOCMsg::try_from(*c).is_ok()).count();
    assert_eq!(accepted, 22);
}
