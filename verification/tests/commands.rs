use gdbstub::protocol::commands::{
    c, m, s, Command, ParseError, QSupported, ThreadId, ThreadOp, D, H, M,
};
use gdbstub::protocol::fields::position;

#[test]
fn position_finds_the_first_occurrence() {
    assert_eq!(position(b"a,b,c", b','), Some(1));
    assert_eq!(position(b",", b','), Some(0));
    assert_eq!(position(b"abc", b','), None);
    assert_eq!(position(b"", b','), None);
}

#[test]
fn m_parses_address_and_length() {
    assert_eq!(m::parse("7fff0000,4"), Ok(m { addr: 0x7fff0000, len: 4 }));
}

#[test]
fn m_reads_hexadecimal_in_either_case() {
    assert_eq!(m::parse("0,0"), Ok(m { addr: 0, len: 0 }));
    assert_eq!(m::parse("DEADbeef,1F"), Ok(m { addr: 0xdead_beef, len: 0x1f }));
    assert_eq!(
        m::parse("ffffffffffffffff,10"),
        Ok(m { addr: u64::MAX, len: 16 })
    );
}

#[test]
fn m_parse_bytes_agrees_with_parse() {
    assert_eq!(m::parse_bytes(b"7fff0000,4"), Ok(m { addr: 0x7fff0000, len: 4 }));
    assert_eq!(m::parse_bytes(b"7fff0000"), Err(()));
}

#[test]
fn m_refuses_a_missing_field() {
    assert_eq!(m::parse(""), Err(()));
    assert_eq!(m::parse("7fff0000"), Err(()));
    assert_eq!(m::parse("7fff0000,"), Err(()));
    assert_eq!(m::parse(",4"), Err(()));
    assert_eq!(m::parse(","), Err(()));
}

#[test]
fn m_refuses_what_is_not_hexadecimal() {
    assert_eq!(m::parse("zz,4"), Err(()));
    assert_eq!(m::parse("7fff0000,x"), Err(()));
    assert_eq!(m::parse("0x7fff0000,4"), Err(()));
    assert_eq!(m::parse("+7fff0000,4"), Err(()));
    assert_eq!(m::parse("7fff0000,-4"), Err(()));
    assert_eq!(m::parse("7fff\u{e9},4"), Err(()));
}

#[test]
fn m_refuses_trailing_garbage() {
    assert_eq!(m::parse("7fff0000,4,5"), Err(()));
    assert_eq!(m::parse("7fff0000,4,"), Err(()));
    assert_eq!(m::parse("7fff0000,4 "), Err(()));
    assert_eq!(m::parse("7fff0000,4:00"), Err(()));
}

#[test]
fn m_refuses_a_value_out_of_range() {
    assert_eq!(m::parse("10000000000000000,4"), Err(()));
    assert_eq!(m::parse("4,10000000000000000"), Err(()));
}

#[test]
fn upper_m_parses_address_length_and_data() {
    assert_eq!(
        M::parse_bytes(b"1000,2:abCD"),
        Ok(M { addr: 0x1000, len: 2, val: vec![0xab, 0xcd] })
    );
    assert_eq!(M::parse_bytes(b"0,0:"), Ok(M { addr: 0, len: 0, val: vec![] }));
}

#[test]
fn upper_m_refuses_data_of_another_length() {
    assert_eq!(M::parse_bytes(b"1000,3:abcd"), Err(()));
    assert_eq!(M::parse_bytes(b"1000,1:abcd"), Err(()));
    assert_eq!(M::parse_bytes(b"1000,2:abc"), Err(()));
    assert_eq!(M::parse_bytes(b"1000,2:"), Err(()));
}

#[test]
fn upper_m_refuses_missing_and_malformed_fields() {
    assert_eq!(M::parse_bytes(b""), Err(()));
    assert_eq!(M::parse_bytes(b"1000"), Err(()));
    assert_eq!(M::parse_bytes(b"1000,2"), Err(()));
    assert_eq!(M::parse_bytes(b"1000:2,abcd"), Err(()));
    assert_eq!(M::parse_bytes(b",2:abcd"), Err(()));
    assert_eq!(M::parse_bytes(b"1000,:abcd"), Err(()));
    assert_eq!(M::parse_bytes(b"1000,2:abzz"), Err(()));
    assert_eq!(M::parse_bytes(b"1000,2:ab:cd"), Err(()));
    assert_eq!(M::parse_bytes(b"10x0,2:abcd"), Err(()));
}

#[test]
fn thread_id_parses_all_any_and_numbers() {
    assert_eq!(ThreadId::parse_bytes(b"-1"), Ok(ThreadId::All));
    assert_eq!(ThreadId::parse_bytes(b"0"), Ok(ThreadId::Any));
    assert_eq!(ThreadId::parse_bytes(b"00"), Ok(ThreadId::Any));
    assert_eq!(ThreadId::parse_bytes(b"1f"), Ok(ThreadId::Id(0x1f)));
    assert_eq!(ThreadId::parse_bytes(b""), Err(()));
    assert_eq!(ThreadId::parse_bytes(b"-2"), Err(()));
    assert_eq!(ThreadId::parse_bytes(b"-"), Err(()));
    assert_eq!(ThreadId::parse_bytes(b"-11"), Err(()));
}

#[test]
fn h_parses_operation_and_thread() {
    assert_eq!(H::parse_bytes(b"g0"), Ok(H { kind: ThreadOp::General, id: ThreadId::Any }));
    assert_eq!(H::parse_bytes(b"c-1"), Ok(H { kind: ThreadOp::Resume, id: ThreadId::All }));
    assert_eq!(H::parse_bytes(b"g1f"), Ok(H { kind: ThreadOp::General, id: ThreadId::Id(0x1f) }));
    // After the operation letter `c`, a `c` is a digit.
    assert_eq!(H::parse_bytes(b"cc"), Ok(H { kind: ThreadOp::Resume, id: ThreadId::Id(0xc) }));
}

#[test]
fn h_refuses_malformed_bodies() {
    assert_eq!(H::parse_bytes(b""), Err(()));
    assert_eq!(H::parse_bytes(b"g"), Err(()));
    assert_eq!(H::parse_bytes(b"x1"), Err(()));
    assert_eq!(H::parse_bytes(b"1"), Err(()));
    assert_eq!(H::parse_bytes(b"gz"), Err(()));
    assert_eq!(H::parse_bytes(b"g1,"), Err(()));
}

#[test]
fn q_supported_keeps_the_feature_list() {
    assert_eq!(
        QSupported::parse_bytes(b"Supported:multiprocess+;swbreak+"),
        Some(QSupported { features: b"multiprocess+;swbreak+".to_vec() })
    );
    assert_eq!(
        QSupported::parse_bytes(b"Supported"),
        Some(QSupported { features: vec![] })
    );
    assert_eq!(
        QSupported::parse_bytes(b"Supported:"),
        Some(QSupported { features: vec![] })
    );
}

#[test]
fn q_supported_is_not_any_other_query() {
    assert_eq!(QSupported::parse_bytes(b""), None);
    assert_eq!(QSupported::parse_bytes(b"Support"), None);
    assert_eq!(QSupported::parse_bytes(b"Supportedx"), None);
    assert_eq!(QSupported::parse_bytes(b"supported"), None);
    assert_eq!(QSupported::parse_bytes(b"Attached"), None);
    assert_eq!(QSupported::parse_bytes(b"SupporteD:x"), None);
}

#[test]
fn c_and_s_take_an_optional_address() {
    assert_eq!(c::parse_bytes(b""), Ok(c { addr: None }));
    assert_eq!(c::parse_bytes(b"1000"), Ok(c { addr: Some(0x1000) }));
    assert_eq!(c::parse_bytes(b"zz"), Err(()));
    assert_eq!(c::parse_bytes(b"1000;"), Err(()));
    assert_eq!(s::parse_bytes(b""), Ok(s { addr: None }));
    assert_eq!(s::parse_bytes(b"ffffffffffffffff"), Ok(s { addr: Some(u64::MAX) }));
    assert_eq!(s::parse_bytes(b"10000000000000000"), Err(()));
    assert_eq!(s::parse_bytes(b" "), Err(()));
}

#[test]
fn d_takes_an_optional_process() {
    assert_eq!(D::parse_bytes(b""), Ok(D { pid: None }));
    assert_eq!(D::parse_bytes(b";1a"), Ok(D { pid: Some(0x1a) }));
    assert_eq!(D::parse_bytes(b";"), Err(()));
    assert_eq!(D::parse_bytes(b"1a"), Err(()));
    assert_eq!(D::parse_bytes(b";1a;"), Err(()));
}

#[test]
fn parse_dispatches_on_the_letter() {
    assert_eq!(
        Command::parse_bytes(b'm', b"7fff0000,4"),
        Ok(Command::m(m { addr: 0x7fff0000, len: 4 }))
    );
    assert_eq!(
        Command::parse_bytes(b'M', b"10,1:ff"),
        Ok(Command::M(M { addr: 0x10, len: 1, val: vec![0xff] }))
    );
    assert_eq!(
        Command::parse_bytes(b'H', b"g0"),
        Ok(Command::H(H { kind: ThreadOp::General, id: ThreadId::Any }))
    );
    assert_eq!(
        Command::parse_bytes(b'q', b"Supported:a;b"),
        Ok(Command::QSupported(QSupported { features: b"a;b".to_vec() }))
    );
    assert_eq!(Command::parse_bytes(b'c', b""), Ok(Command::c(c { addr: None })));
    assert_eq!(Command::parse_bytes(b's', b"4"), Ok(Command::s(s { addr: Some(4) })));
    assert_eq!(Command::parse_bytes(b'D', b""), Ok(Command::D(D { pid: None })));
    assert_eq!(Command::parse_bytes(b'k', b""), Ok(Command::k));
}

#[test]
fn malformed_body_of_a_known_letter_is_an_error_naming_it() {
    for (letter, body) in [
        (b'm', &b""[..]),
        (b'm', &b"7fff0000"[..]),
        (b'm', &b"7fff0000,zz"[..]),
        (b'm', &b"7fff0000,4,"[..]),
        (b'M', &b""[..]),
        (b'M', &b"10,1"[..]),
        (b'M', &b"10,1:f"[..]),
        (b'H', &b""[..]),
        (b'H', &b"g"[..]),
        (b'c', &b"x"[..]),
        (b's', &b"1,2"[..]),
        (b'D', &b"1"[..]),
        (b'k', &b"0"[..]),
    ] {
        assert_eq!(Command::parse_bytes(letter, body), Err(ParseError { letter }));
    }
}

#[test]
fn unrecognized_letters_parse_to_unknown() {
    for letter in [b'Z', b'g', b'G', b'?', b'v', b'X', b'p', b'0', b' ', 0u8, 0xffu8] {
        assert_eq!(Command::parse_bytes(letter, b""), Ok(Command::Unknown));
        assert_eq!(Command::parse_bytes(letter, b"7fff0000,4"), Ok(Command::Unknown));
        assert_eq!(Command::parse_bytes(letter, &[0xff, 0x00, b'#']), Ok(Command::Unknown));
    }
}

#[test]
fn other_queries_parse_to_unknown() {
    assert_eq!(Command::parse_bytes(b'q', b""), Ok(Command::Unknown));
    assert_eq!(Command::parse_bytes(b'q', b"Attached"), Ok(Command::Unknown));
    assert_eq!(Command::parse_bytes(b'q', b"Supportedx"), Ok(Command::Unknown));
}

#[test]
fn from_payload_takes_the_first_byte_as_the_letter() {
    assert_eq!(
        Command::from_payload(b"m7fff0000,4"),
        Ok(Command::m(m { addr: 0x7fff0000, len: 4 }))
    );
    assert_eq!(Command::from_payload(b"c"), Ok(Command::c(c { addr: None })));
    assert_eq!(Command::from_payload(b"k"), Ok(Command::k));
    assert_eq!(
        Command::from_payload(b"qSupported"),
        Ok(Command::QSupported(QSupported { features: vec![] }))
    );
    assert_eq!(Command::from_payload(b""), Ok(Command::Unknown));
    assert_eq!(Command::from_payload(b"mzz"), Err(ParseError { letter: b'm' }));
}

#[test]
fn parse_takes_the_body_as_text() {
    assert_eq!(
        Command::parse(b'm', "7fff0000,4"),
        Ok(Command::m(m { addr: 0x7fff0000, len: 4 }))
    );
    assert_eq!(Command::parse(b'c', ""), Ok(Command::c(c { addr: None })));
    assert_eq!(Command::parse(b'm', "7fff0000"), Err(ParseError { letter: b'm' }));
    assert_eq!(Command::parse(b'm', "7fff0000,\u{221e}"), Err(ParseError { letter: b'm' }));
    assert_eq!(Command::parse(b'Z', "7fff0000,4"), Ok(Command::Unknown));
}
