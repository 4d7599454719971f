use public_peer::demux::{remote_fragment_of, Demux};

fn binding_request(username: &[u8]) -> Vec<u8> {
    let padded = (username.len() + 3) / 4 * 4;
    let mut datagram = vec![0x00, 0x01];
    datagram.extend_from_slice(&((4 + padded) as u16).to_be_bytes());
    datagram.extend_from_slice(&[0x21, 0x12, 0xa4, 0x42]);
    datagram.extend_from_slice(&[7u8; 12]);
    datagram.extend_from_slice(&[0x00, 0x06]);
    datagram.extend_from_slice(&(username.len() as u16).to_be_bytes());
    datagram.extend_from_slice(username);
    datagram.resize(20 + 4 + padded, 0);
    datagram
}

#[test]
fn the_fragment_after_the_first_colon() {
    assert_eq!(remote_fragment_of("iHa3:abcd", "iHa3"), Some("abcd".to_string()));
    assert_eq!(remote_fragment_of("iHa3:ab:cd", "iHa3"), Some("ab:cd".to_string()));
    assert_eq!(remote_fragment_of("iHa3:", "iHa3"), Some(String::new()));
    assert_eq!(remote_fragment_of(":x", ""), Some("x".to_string()));
    assert_eq!(remote_fragment_of("other:abcd", "iHa3"), None);
    assert_eq!(remote_fragment_of("iHa3", "iHa3"), None);
    assert_eq!(remote_fragment_of("", "iHa3"), None);
    assert_eq!(remote_fragment_of("é:ü", "é"), Some("ü".to_string()));
}

#[test]
fn a_binding_request_announces_its_remote_fragment() {
    let demux = Demux::new("iHa3".to_string());
    assert_eq!(demux.remote_of(&binding_request(b"iHa3:wxyz")), Some("wxyz".to_string()));
    assert_eq!(demux.remote_of(&binding_request(b"iHa3:w")), Some("w".to_string()));
    assert_eq!(demux.remote_of(&binding_request(b"zzzz:wxyz")), None);
    assert_eq!(demux.remote_of(&binding_request(&[0xff, 0xfe, b':', b'a'])), None);
    assert_eq!(demux.remote_of(&[]), None);
    assert_eq!(demux.remote_of(&[0u8; 20]), None);
    let mut no_username = binding_request(b"iHa3:wxyz");
    no_username[21] = 0x14;
    assert_eq!(demux.remote_of(&no_username), None);
    let mut short = binding_request(b"iHa3:wxyz");
    short.truncate(30);
    assert_eq!(demux.remote_of(&short), None);
}

#[test]
fn a_remote_fragment_is_new_once() {
    let mut demux = Demux::new("iHa3".to_string());
    assert!(!demux.knows("a"));
    assert!(demux.note("a".to_string()));
    assert!(demux.knows("a"));
    assert!(!demux.note("a".to_string()));
    assert!(demux.note("b".to_string()));
    assert!(!demux.note("a".to_string()));
    assert!(!demux.note("b".to_string()));
}
