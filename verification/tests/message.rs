use tokio_dtls_example::message::{echo, line_message};

#[test]
fn line_gets_its_line_break_back() {
    assert_eq!(&line_message(String::from("You say goodbye"))[..], b"You say goodbye\n");
    assert_eq!(&line_message(String::new())[..], b"\n");
    assert_eq!(&line_message(String::from("\u{e9}"))[..], [0xc3, 0xa9, 0x0a]);
}

#[test]
fn message_is_echoed_after_the_prefix() {
    assert_eq!(&echo(b"")[..], b"Echo: ");
    assert_eq!(&echo(&[0xff, 0x00])[..], b"Echo: \xff\x00");
    let long = vec![0x61u8; 5000];
    assert_eq!(&echo(&long)[..], [b"Echo: ".to_vec(), long.clone()].concat());
}

#[test]
fn lines_are_echoed_with_the_prefix_prepended() {
    for text in ["You say goodbye", "I say hello"] {
        let answer = echo(&line_message(text.to_string()));
        assert_eq!(&answer[..], format!("Echo: {}\n", text).as_bytes());
    }
}
