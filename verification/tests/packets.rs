use turnon_net::mac::parse_mac;
use turnon_net::packet::{echo_request, magic_packet, ECHO_PACKET_LEN, MAGIC_PACKET_LEN};
use turnon_net::probe::{check_echo_reply, ProbeError};
use turnon_net::wake::{WakeSession, WolError};

fn mac_of(text: &str) -> turnon_net::mac::MacAddress {
    parse_mac(&text.as_bytes().to_vec()).unwrap()
}

#[test]
fn test_write_magic_packet() {
    let mac_address = mac_of("26:CE:55:A5:C2:33");
    let buffer = magic_packet(&mac_address);
    let expected_packet: [u8; 102] = [
        0xFF, 0xFF, 0xFF, 0xFF, 0xFF, 0xFF, // Six all 1 bytes
        0x26, 0xCE, 0x55, 0xA5, 0xC2, 0x33, // 16 repetitions of the mac address
        0x26, 0xCE, 0x55, 0xA5, 0xC2, 0x33, //
        0x26, 0xCE, 0x55, 0xA5, 0xC2, 0x33, //
        0x26, 0xCE, 0x55, 0xA5, 0xC2, 0x33, //
        0x26, 0xCE, 0x55, 0xA5, 0xC2, 0x33, //
        0x26, 0xCE, 0x55, 0xA5, 0xC2, 0x33, //
        0x26, 0xCE, 0x55, 0xA5, 0xC2, 0x33, //
        0x26, 0xCE, 0x55, 0xA5, 0xC2, 0x33, //
        0x26, 0xCE, 0x55, 0xA5, 0xC2, 0x33, //
        0x26, 0xCE, 0x55, 0xA5, 0xC2, 0x33, //
        0x26, 0xCE, 0x55, 0xA5, 0xC2, 0x33, //
        0x26, 0xCE, 0x55, 0xA5, 0xC2, 0x33, //
        0x26, 0xCE, 0x55, 0xA5, 0xC2, 0x33, //
        0x26, 0xCE, 0x55, 0xA5, 0xC2, 0x33, //
        0x26, 0xCE, 0x55, 0xA5, 0xC2, 0x33, //
        0x26, 0xCE, 0x55, 0xA5, 0xC2, 0x33, //
    ];
    assert_eq!(buffer.as_slice(), expected_packet.as_slice());
}

#[test]
fn magic_packet_layout() {
    let mac = mac_of("00:11:22:33:44:55");
    let p = magic_packet(&mac);
    assert_eq!(p.len(), MAGIC_PACKET_LEN);
    for i in 0..6 {
        assert_eq!(p[i], 0xFF);
    }
    let mac_bytes = [0x00u8, 0x11, 0x22, 0x33, 0x44, 0x55];
    for i in 0..96 {
        assert_eq!(p[6 + i], mac_bytes[i % 6]);
    }
}

#[test]
fn magic_packet_is_deterministic() {
    // Building twice for the same address shares no state and gives the
    // same bytes: two sends of the same packet are independent.
    let mac = mac_of("26:CE:55:A5:C2:33");
    let first = magic_packet(&mac);
    let second = magic_packet(&mac);
    assert_eq!(first, second);
}

#[test]
fn wake_twice_succeeds_twice() {
    let mac = mac_of("26:CE:55:A5:C2:33");
    for _ in 0..2 {
        let packet = magic_packet(&mac);
        let mut session = WakeSession::start();
        session.on_socket(true);
        session.on_writable(true);
        session.on_sent(packet.len());
        assert_eq!(session.outcome(), Some(Ok(())));
    }
}

#[test]
fn wake_error_paths() {
    let mut no_socket = WakeSession::start();
    no_socket.on_socket(false);
    assert!(no_socket.finished());
    assert_eq!(no_socket.outcome(), Some(Err(WolError::SocketSetup)));

    let mut not_writable = WakeSession::start();
    not_writable.on_socket(true);
    not_writable.on_writable(false);
    assert_eq!(not_writable.outcome(), Some(Err(WolError::NotWritable)));

    let mut short = WakeSession::start();
    short.on_socket(true);
    short.on_writable(true);
    short.on_sent(50);
    assert_eq!(short.outcome(), Some(Err(WolError::ShortWrite)));
}

#[test]
fn echo_request_layout_v4() {
    let p = echo_request(false);
    assert_eq!(p.len(), ECHO_PACKET_LEN);
    assert_eq!(p[0], 8);
    for i in 1..8 {
        assert_eq!(p[i], 0);
    }
    let sig = b"turnon-ping\n";
    for i in 0..48 {
        assert_eq!(p[8 + i], sig[i % 12]);
    }
}

#[test]
fn echo_request_layout_v6() {
    let p = echo_request(true);
    assert_eq!(p.len(), 56);
    assert_eq!(p[0], 128);
    assert_eq!(&p[8..20], b"turnon-ping\n");
}

#[test]
fn reply_of_wrong_length_is_always_rejected() {
    // 55 or 57 bytes never pass, whatever the contents.
    for len in [0usize, 1, 55, 57, 100] {
        let mut good_content = vec![0u8; len];
        if len > 0 {
            good_content[0] = 0;
        }
        assert_eq!(
            check_echo_reply(false, &good_content),
            Err(ProbeError::ShortRead)
        );
        let mut good_v6 = vec![0u8; len];
        if len > 0 {
            good_v6[0] = 129;
        }
        assert_eq!(check_echo_reply(true, &good_v6), Err(ProbeError::ShortRead));
    }
}

#[test]
fn reply_type_byte_decides() {
    let mut reply = vec![0u8; 56];
    assert_eq!(check_echo_reply(false, &reply), Ok(()));
    assert_eq!(
        check_echo_reply(true, &reply),
        Err(ProbeError::UnexpectedReply)
    );
    reply[0] = 129;
    assert_eq!(check_echo_reply(true, &reply), Ok(()));
    assert_eq!(
        check_echo_reply(false, &reply),
        Err(ProbeError::UnexpectedReply)
    );
    reply[0] = 8;
    assert_eq!(
        check_echo_reply(false, &reply),
        Err(ProbeError::UnexpectedReply)
    );
}
