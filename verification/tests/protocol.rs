use bytes::BytesMut;

use rusttorney::codec::{ignore_ill_utf8, AOMessageCodec, DecodeError};
use rusttorney::command::{
    CasePreferences, ClientCommand, CommandError, EvidenceArgs, ServerCommand,
};
use rusttorney::fantacrypt::{fanta_decrypt, fanta_encrypt};

#[test]
fn test_fanta_decrypt_encrypt() {
    let data = "MS";

    assert_eq!("4D90", fanta_encrypt(data))
}

#[test]
fn fanta_decrypt_inverts_encrypt() {
    assert_eq!("MS", fanta_decrypt("4D90"));
    let plain = "Basement/defenseempty.png";
    let coded = fanta_encrypt(plain);
    assert_eq!(plain, fanta_decrypt(&coded));
}

#[test]
fn fanta_empty_string_round_trips() {
    assert_eq!(fanta_encrypt(""), "");
    assert_eq!(fanta_decrypt(""), "");
}

#[test]
fn fanta_encrypt_pads_to_two_digits() {
    for s in ["A", "zz", "0123456789", "#%&"] {
        let coded = fanta_encrypt(s);
        assert_eq!(coded.len(), 2 * s.len());
        assert_eq!(s, fanta_decrypt(&coded));
    }
}

fn args(values: &[&str]) -> Vec<String> {
    values.iter().map(|s| s.to_string()).collect()
}

#[test]
fn from_wire_builds_each_variant() {
    assert!(matches!(
        ClientCommand::from_wire("HI", &args(&["hdid9"])),
        Ok(ClientCommand::Handshake(h)) if h == "hdid9"
    ));
    assert!(matches!(
        ClientCommand::from_wire("ID", &args(&["1111", "AO2", "2.4.0"])),
        Ok(ClientCommand::ClientVersion(1111, sw, v)) if sw == "AO2" && v == "2.4.0"
    ));
    assert!(matches!(ClientCommand::from_wire("CH", &args(&[])), Ok(ClientCommand::KeepAlive)));
    assert!(matches!(
        ClientCommand::from_wire("askchaa", &args(&[])),
        Ok(ClientCommand::AskListLengths)
    ));
    assert!(matches!(
        ClientCommand::from_wire("askchar", &args(&[])),
        Ok(ClientCommand::AskListCharacters)
    ));
    assert!(matches!(
        ClientCommand::from_wire("AN", &args(&["2"])),
        Ok(ClientCommand::CharacterList(2))
    ));
    assert!(matches!(
        ClientCommand::from_wire("AE", &args(&["0"])),
        Ok(ClientCommand::EvidenceList(0))
    ));
    assert!(matches!(
        ClientCommand::from_wire("AM", &args(&["7"])),
        Ok(ClientCommand::MusicList(7))
    ));
    assert!(matches!(ClientCommand::from_wire("AM", &args(&[])), Ok(ClientCommand::AO2MusicList)));
    assert!(matches!(
        ClientCommand::from_wire("AC", &args(&[])),
        Ok(ClientCommand::AO2CharacterList)
    ));
    assert!(matches!(ClientCommand::from_wire("RD", &args(&[])), Ok(ClientCommand::AO2Ready)));
    assert!(matches!(
        ClientCommand::from_wire("CC", &args(&["4", "9", "hw"])),
        Ok(ClientCommand::SelectCharacter(4, 9, h)) if h == "hw"
    ));
    assert!(matches!(ClientCommand::from_wire("MS", &args(&[])), Ok(ClientCommand::ICMessage)));
    assert!(matches!(
        ClientCommand::from_wire("CT", &args(&["judge", "hello"])),
        Ok(ClientCommand::OOCMessage(n, m)) if n == "judge" && m == "hello"
    ));
    assert!(matches!(
        ClientCommand::from_wire("MC", &args(&["12", "0"])),
        Ok(ClientCommand::PlaySong(12, 0))
    ));
    assert!(matches!(
        ClientCommand::from_wire("RT", &args(&["testimony1"])),
        Ok(ClientCommand::WTCEButtons(k)) if k == "testimony1"
    ));
    assert!(matches!(
        ClientCommand::from_wire("HP", &args(&["1", "7"])),
        Ok(ClientCommand::Penalties(1, 7))
    ));
    assert!(matches!(
        ClientCommand::from_wire("PE", &args(&["knife", "sharp", "knife.png"])),
        Ok(ClientCommand::AddEvidence(EvidenceArgs { name, description, image }))
            if name == "knife" && description == "sharp" && image == "knife.png"
    ));
    assert!(matches!(
        ClientCommand::from_wire("DE", &args(&["3"])),
        Ok(ClientCommand::DeleteEvidence(3))
    ));
    assert!(matches!(
        ClientCommand::from_wire("EE", &args(&["3", "rope", "long", "rope.png"])),
        Ok(ClientCommand::EditEvidence(3, _))
    ));
    assert!(matches!(
        ClientCommand::from_wire("ZZ", &args(&[])),
        Ok(ClientCommand::CallModButton(None))
    ));
    assert!(matches!(
        ClientCommand::from_wire("ZZ", &args(&["spam"])),
        Ok(ClientCommand::CallModButton(Some(r))) if r == "spam"
    ));
}

#[test]
fn from_wire_parses_case_preferences() {
    let r = ClientCommand::from_wire("SETCASE", &args(&["5", "1", "0", "1", "0", "1", "0"]));
    match r {
        Ok(ClientCommand::SetCasePreferences(cases, p)) => {
            assert_eq!(cases, "5");
            assert_eq!(
                p,
                CasePreferences {
                    cm: true,
                    def: false,
                    pro: true,
                    judge: false,
                    jury: true,
                    steno: false
                }
            );
        }
        other => panic!("unexpected: {:?}", other),
    }
    let r = ClientCommand::from_wire("CASEA", &args(&["5", "1", "1", "1", "1", "1", "1"]));
    assert!(matches!(r, Ok(ClientCommand::CaseAnnounce(_, _))));
}

#[test]
fn from_wire_arity_mismatch_on_wrong_count() {
    match ClientCommand::from_wire("HI", &args(&[])) {
        Err(CommandError::ArityMismatch { ident, expected, got }) => {
            assert_eq!(ident, "HI");
            assert_eq!(expected, 1);
            assert_eq!(got, 0);
        }
        other => panic!("unexpected: {:?}", other),
    }
    match ClientCommand::from_wire("CT", &args(&["only-one"])) {
        Err(CommandError::ArityMismatch { ident, expected, got }) => {
            assert_eq!(ident, "CT");
            assert_eq!(expected, 2);
            assert_eq!(got, 1);
        }
        other => panic!("unexpected: {:?}", other),
    }
    // Whatever the argument contents are, a wrong count is an arity error.
    assert!(matches!(
        ClientCommand::from_wire("MC", &args(&["not-a-number"])),
        Err(CommandError::ArityMismatch { .. })
    ));
    assert!(matches!(
        ClientCommand::from_wire("AM", &args(&["1", "2"])),
        Err(CommandError::ArityMismatch { expected: 1, got: 2, .. })
    ));
}

#[test]
fn from_wire_type_mismatch_names_position_and_value() {
    match ClientCommand::from_wire("MC", &args(&["12", "x9"])) {
        Err(CommandError::TypeMismatch { ident, position, value }) => {
            assert_eq!(ident, "MC");
            assert_eq!(position, 1);
            assert_eq!(value, "x9");
        }
        other => panic!("unexpected: {:?}", other),
    }
    // Integer overflow is a type mismatch, not a panic.
    assert!(matches!(
        ClientCommand::from_wire("DE", &args(&["4294967295"])),
        Ok(ClientCommand::DeleteEvidence(4294967295))
    ));
    assert!(matches!(
        ClientCommand::from_wire("DE", &args(&["4294967296"])),
        Err(CommandError::TypeMismatch { .. })
    ));
    // A leading plus sign parses, as str::parse does.
    assert!(matches!(
        ClientCommand::from_wire("DE", &args(&["+5"])),
        Ok(ClientCommand::DeleteEvidence(5))
    ));
    // The first bad boolean position is named.
    match ClientCommand::from_wire("SETCASE", &args(&["c", "1", "1", "2", "1", "1", "1"])) {
        Err(CommandError::TypeMismatch { position, value, .. }) => {
            assert_eq!(position, 3);
            assert_eq!(value, "2");
        }
        other => panic!("unexpected: {:?}", other),
    }
}

#[test]
fn from_wire_unknown_command() {
    match ClientCommand::from_wire("NOPE", &args(&["a"])) {
        Err(CommandError::UnknownCommand { ident }) => assert_eq!(ident, "NOPE"),
        other => panic!("unexpected: {:?}", other),
    }
}

#[test]
fn to_wire_round_trips_through_from_wire() {
    let commands = vec![
        ClientCommand::Handshake("hdid".to_string()),
        ClientCommand::ClientVersion(1111, "AO2".to_string(), "2.4.0".to_string()),
        ClientCommand::KeepAlive,
        ClientCommand::MusicList(3),
        ClientCommand::AO2MusicList,
        ClientCommand::PlaySong(4294967295, 0),
        ClientCommand::SetCasePreferences(
            "7".to_string(),
            CasePreferences {
                cm: true,
                def: true,
                pro: false,
                judge: false,
                jury: true,
                steno: false,
            },
        ),
        ClientCommand::EditEvidence(
            9,
            EvidenceArgs {
                name: "badge".to_string(),
                description: "shiny".to_string(),
                image: "badge.png".to_string(),
            },
        ),
        ClientCommand::CallModButton(None),
        ClientCommand::CallModButton(Some("reason".to_string())),
    ];
    for c in commands {
        let before = format!("{:?}", c);
        let (ident, fields) = c.to_wire();
        let back = ClientCommand::from_wire(&ident, &fields)
            .unwrap_or_else(|e| panic!("{} did not round-trip: {:?}", before, e));
        assert_eq!(before, format!("{:?}", back));
    }
}

#[test]
fn decode_extracts_one_frame_and_keeps_the_rest() {
    let mut codec = AOMessageCodec;
    let mut buf = BytesMut::from(&b"HI#abc#%ID#1111#AO2#2.4.0#%"[..]);
    let first = codec.decode(&mut buf);
    assert!(matches!(first, Ok(Some(ClientCommand::Handshake(h))) if h == "abc"));
    assert_eq!(&buf[..], b"ID#1111#AO2#2.4.0#%");
    let second = codec.decode(&mut buf);
    assert!(
        matches!(second, Ok(Some(ClientCommand::ClientVersion(1111, sw, v))) if sw == "AO2" && v == "2.4.0")
    );
    assert_eq!(&buf[..], b"");
}

#[test]
fn decode_leaves_partial_frame_buffered() {
    let mut codec = AOMessageCodec;
    let mut buf = BytesMut::from(&b"HI#ab"[..]);
    assert!(matches!(codec.decode(&mut buf), Ok(None)));
    assert_eq!(&buf[..], b"HI#ab");
    // More bytes arrive and complete the frame.
    buf.extend_from_slice(b"c#%");
    assert!(matches!(codec.decode(&mut buf), Ok(Some(ClientCommand::Handshake(h))) if h == "abc"));
    assert_eq!(&buf[..], b"");
}

#[test]
fn decode_empty_buffer_is_no_message() {
    let mut codec = AOMessageCodec;
    let mut buf = BytesMut::new();
    assert!(matches!(codec.decode(&mut buf), Ok(None)));
}

#[test]
fn decode_frame_with_no_arguments() {
    let mut codec = AOMessageCodec;
    // The terminator field is the only field: zero arguments.
    let mut buf = BytesMut::from(&b"CH#%"[..]);
    assert!(matches!(codec.decode(&mut buf), Ok(Some(ClientCommand::KeepAlive))));
    // Zero arguments where one is required is an arity error.
    let mut buf = BytesMut::from(&b"HI#%"[..]);
    assert!(matches!(
        codec.decode(&mut buf),
        Err(DecodeError::Command(CommandError::ArityMismatch { expected: 1, got: 0, .. }))
    ));
}

#[test]
fn decode_frame_without_separator_is_framing_error() {
    let mut codec = AOMessageCodec;
    let mut buf = BytesMut::from(&b"HIabc%CH#%"[..]);
    assert!(matches!(codec.decode(&mut buf), Err(DecodeError::Framing)));
    // The malformed frame is discarded; the session can go on.
    assert_eq!(&buf[..], b"CH#%");
    assert!(matches!(codec.decode(&mut buf), Ok(Some(ClientCommand::KeepAlive))));
}

#[test]
fn decode_propagates_command_errors() {
    let mut codec = AOMessageCodec;
    let mut buf = BytesMut::from(&b"XX#1#%AN#x#%"[..]);
    assert!(matches!(
        codec.decode(&mut buf),
        Err(DecodeError::Command(CommandError::UnknownCommand { .. }))
    ));
    assert!(matches!(
        codec.decode(&mut buf),
        Err(DecodeError::Command(CommandError::TypeMismatch { .. }))
    ));
    assert_eq!(&buf[..], b"");
}

#[test]
fn encode_writes_ident_args_and_terminator() {
    let mut codec = AOMessageCodec;
    let mut buf = BytesMut::new();
    codec.encode(ServerCommand::Handshake("1111".to_string()), &mut buf);
    assert_eq!(&buf[..], b"HI#1111#%");
    // Encoding appends after what is already buffered.
    codec.encode(ServerCommand::Handshake("2".to_string()), &mut buf);
    assert_eq!(&buf[..], b"HI#1111#%HI#2#%");
}

#[test]
fn server_command_parts() {
    let cmd = ServerCommand::Handshake("77".to_string());
    assert_eq!(cmd.ident(), "HI");
    assert_eq!(cmd.extract_args(), Some(vec!["77"]));
}

#[test]
fn ignore_ill_utf8_drops_invalid_sequences() {
    assert_eq!(ignore_ill_utf8(b"hello"), "hello");
    assert_eq!(ignore_ill_utf8(&[0x48, 0xff, 0x49]), "HI");
    assert_eq!(ignore_ill_utf8(&[0xff, 0xfe]), "");
    // Valid multi-byte sequences pass through.
    assert_eq!(ignore_ill_utf8("héllo".as_bytes()), "h\u{e9}llo");
}

#[test]
fn decode_strips_invalid_bytes_inside_fields() {
    let mut codec = AOMessageCodec;
    let mut buf = BytesMut::new();
    buf.extend_from_slice(b"HI#ab");
    buf.extend_from_slice(&[0xff]);
    buf.extend_from_slice(b"cd#%");
    assert!(
        matches!(codec.decode(&mut buf), Ok(Some(ClientCommand::Handshake(h))) if h == "abcd")
    );
}
