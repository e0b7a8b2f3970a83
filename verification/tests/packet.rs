use gdbstub::protocol::packet::{
    compute_checksum, encode_frame, escape_into, unescape_bytes, Packet, PacketError,
};

fn escaped(payload: &[u8]) -> Vec<u8> {
    let mut out = Vec::new();
    escape_into(payload, &mut out);
    out
}

#[test]
fn checksum_is_the_sum_modulo_256() {
    assert_eq!(compute_checksum(b""), 0);
    assert_eq!(compute_checksum(b"OK"), 0x9a);
    assert_eq!(compute_checksum(b"m7fff0000,4"), 0xf6);
    assert_eq!(compute_checksum(&[0xff, 0x01]), 0);
    assert_eq!(compute_checksum(&[0xff, 0xff, 0xff]), 0xfd);
}

#[test]
fn escape_marks_the_reserved_bytes() {
    assert_eq!(escaped(b"abc"), b"abc".to_vec());
    assert_eq!(escaped(b"$"), vec![b'}', 0x04]);
    assert_eq!(escaped(b"#"), vec![b'}', 0x03]);
    assert_eq!(escaped(b"*"), vec![b'}', 0x0a]);
    assert_eq!(escaped(b"}"), vec![b'}', 0x5d]);
    assert_eq!(escaped(b"a#b"), vec![b'a', b'}', 0x03, b'b']);
}

#[test]
fn escape_into_appends() {
    let mut out = b"xy".to_vec();
    escape_into(b"a$", &mut out);
    assert_eq!(out, vec![b'x', b'y', b'a', b'}', 0x04]);
}

#[test]
fn unescape_undoes_escape() {
    assert_eq!(unescape_bytes(b"abc"), Some(b"abc".to_vec()));
    assert_eq!(unescape_bytes(&[b'}', 0x03]), Some(b"#".to_vec()));
    assert_eq!(unescape_bytes(&[b'a', b'}', 0x5d, b'b']), Some(b"a}b".to_vec()));
    assert_eq!(unescape_bytes(b""), Some(vec![]));
}

#[test]
fn unescape_flips_bit_five_of_whatever_follows_the_mark() {
    assert_eq!(unescape_bytes(b"}a"), Some(b"A".to_vec()));
    assert_eq!(unescape_bytes(b"}}"), Some(vec![0x5d]));
}

#[test]
fn unescape_refuses_a_dangling_mark() {
    assert_eq!(unescape_bytes(b"}"), None);
    assert_eq!(unescape_bytes(b"ab}"), None);
    assert_eq!(unescape_bytes(&[b'}', 0x03, b'}']), None);
}

#[test]
fn empty_payload_frames_to_the_empty_reply() {
    assert_eq!(encode_frame(b""), b"$#00".to_vec());
    assert_eq!(Packet::from_buf(b"$#00"), Ok(Packet::Command(vec![])));
}

#[test]
fn frame_holds_payload_and_checksum() {
    assert_eq!(encode_frame(b"OK"), b"$OK#9a".to_vec());
    assert_eq!(encode_frame(b"m7fff0000,4"), b"$m7fff0000,4#f6".to_vec());
    assert_eq!(encode_frame(b"E01"), b"$E01#a6".to_vec());
}

#[test]
fn frame_checksums_the_escaped_body() {
    // '}' is 0x7d and the escaped '#' is 0x03: the sum is 0x80.
    assert_eq!(encode_frame(b"#"), vec![b'$', b'}', 0x03, b'#', b'8', b'0']);
}

#[test]
fn frame_with_wrong_checksum_is_rejected() {
    assert_eq!(Packet::from_buf(b"$m7fff0000,4#d1"), Err(PacketError::ChecksumMismatch));
}

#[test]
fn frame_with_right_checksum_is_accepted() {
    assert_eq!(
        Packet::from_buf(b"$m7fff0000,4#f6"),
        Ok(Packet::Command(b"m7fff0000,4".to_vec()))
    );
}

#[test]
fn checksum_digits_may_be_upper_case() {
    assert_eq!(
        Packet::from_buf(b"$m7fff0000,4#F6"),
        Ok(Packet::Command(b"m7fff0000,4".to_vec()))
    );
    assert_eq!(Packet::from_buf(b"$OK#9A"), Ok(Packet::Command(b"OK".to_vec())));
}

#[test]
fn acknowledgments_are_single_bytes() {
    assert_eq!(Packet::from_buf(b"+"), Ok(Packet::Ack));
    assert_eq!(Packet::from_buf(b"-"), Ok(Packet::Nack));
    assert_eq!(Packet::from_buf(b"+-"), Err(PacketError::TrailingBytes));
    assert_eq!(Packet::from_buf(b"-$#00"), Err(PacketError::TrailingBytes));
}

#[test]
fn each_framing_error_has_its_input() {
    assert_eq!(Packet::from_buf(b""), Err(PacketError::Empty));
    assert_eq!(Packet::from_buf(b"x"), Err(PacketError::BadHeader));
    assert_eq!(Packet::from_buf(b"#00"), Err(PacketError::BadHeader));
    assert_eq!(Packet::from_buf(&[0x03]), Err(PacketError::BadHeader));
    assert_eq!(Packet::from_buf(b"$"), Err(PacketError::Truncated));
    assert_eq!(Packet::from_buf(b"$abc"), Err(PacketError::Truncated));
    assert_eq!(Packet::from_buf(b"$abc#"), Err(PacketError::Truncated));
    assert_eq!(Packet::from_buf(b"$abc#2"), Err(PacketError::Truncated));
    assert_eq!(Packet::from_buf(b"$abc#269"), Err(PacketError::TrailingBytes));
    assert_eq!(Packet::from_buf(b"$#00$#00"), Err(PacketError::TrailingBytes));
    assert_eq!(Packet::from_buf(b"$abc#2g"), Err(PacketError::BadChecksumDigits));
    assert_eq!(Packet::from_buf(b"$abc# 6"), Err(PacketError::BadChecksumDigits));
    assert_eq!(Packet::from_buf(b"$abc#27"), Err(PacketError::ChecksumMismatch));
    assert_eq!(Packet::from_buf(b"$}#7d"), Err(PacketError::BadEscape));
}

#[test]
fn checksum_is_checked_before_escapes_are_undone() {
    assert_eq!(Packet::from_buf(b"$}#00"), Err(PacketError::ChecksumMismatch));
}

#[test]
fn frame_round_trips_every_byte() {
    let payload: Vec<u8> = (0u8..=255).collect();
    let wire = encode_frame(&payload);
    assert_eq!(wire.iter().filter(|&&b| b == b'#').count(), 1);
    assert_eq!(wire.iter().filter(|&&b| b == b'$').count(), 1);
    assert_eq!(Packet::from_buf(&wire), Ok(Packet::Command(payload)));
}

#[test]
fn frame_round_trips_payloads_of_reserved_bytes() {
    for payload in [&b"$#*}"[..], &b"}}}}"[..], &b"#"[..], &b"a}b#c$d*e"[..], &b""[..]] {
        let wire = encode_frame(payload);
        assert_eq!(Packet::from_buf(&wire), Ok(Packet::Command(payload.to_vec())));
    }
}

#[test]
fn damaged_checksum_digit_is_rejected() {
    let wire = encode_frame(b"m7fff0000,4");
    let n = wire.len();
    for k in [n - 2, n - 1] {
        for b in 0u8..=255 {
            let same_digit = (b as char).to_digit(16) == (wire[k] as char).to_digit(16);
            if same_digit {
                continue;
            }
            let mut damaged = wire.clone();
            damaged[k] = b;
            let decoded = Packet::from_buf(&damaged);
            assert!(
                decoded == Err(PacketError::ChecksumMismatch)
                    || decoded == Err(PacketError::BadChecksumDigits)
            );
        }
    }
}

#[test]
fn checksum_digit_in_the_other_case_is_the_same_digit() {
    assert_eq!(encode_frame(b"m7fff0000,4"), b"$m7fff0000,4#f6".to_vec());
    assert!(Packet::from_buf(b"$m7fff0000,4#F6").is_ok());
}

#[test]
fn describe_names_each_error() {
    assert_eq!(PacketError::Empty.describe(), "no bytes to decode");
    assert_eq!(
        PacketError::BadHeader.describe(),
        "packet starts with none of '+', '-' and '$'"
    );
    assert_eq!(PacketError::Truncated.describe(), "frame ends before its checksum");
    assert_eq!(PacketError::TrailingBytes.describe(), "bytes follow the end of the packet");
    assert_eq!(
        PacketError::BadChecksumDigits.describe(),
        "checksum is not two hexadecimal digits"
    );
    assert_eq!(
        PacketError::ChecksumMismatch.describe(),
        "checksum does not match the frame's body"
    );
    assert_eq!(PacketError::BadEscape.describe(), "frame's body ends inside an escape");
}
