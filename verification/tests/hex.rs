use tokio_dtls_example::hex::{hex, hexdump, Hex};

#[test]
fn empty_buffer_shows_an_offset() {
    assert_eq!(hex(&[]).to_string(), "0000: ");
    let mut f = String::new();
    hexdump(&mut f, "> ", &[]);
    assert_eq!(f, "> 0000: ");
}

#[test]
fn short_row_is_padded() {
    assert_eq!(
        Hex(b"Hi\n").to_string(),
        "0000: 48 69 0a                                        Hi."
    );
}

#[test]
fn full_row_has_no_padding_and_no_line_break() {
    let bytes: Vec<u8> = (0x1f..0x2f).collect();
    assert_eq!(
        hex(&bytes).to_string(),
        "0000: 1f 20 21 22 23 24 25 26 27 28 29 2a 2b 2c 2d 2e . !\"#$%&'()*+,-."
    );
}

#[test]
fn rows_are_lines_after_the_prefix() {
    let mut f = String::from("Payload:\n");
    hexdump(&mut f, "| ", b"0123456789abcdef~\x7f");
    assert_eq!(
        f,
        "Payload:\n\
         | 0000: 30 31 32 33 34 35 36 37 38 39 61 62 63 64 65 66 0123456789abcdef\n\
         | 0010: 7e 7f                                           ~."
    );
}

#[test]
fn bytes_outside_ascii_are_dots() {
    let text = hex(&[0x00, 0x1f, 0x20, 0x7e, 0x7f, 0x80, 0xff]).to_string();
    assert!(text.starts_with("0000: 00 1f 20 7e 7f 80 ff "));
    assert!(text.ends_with(" .. ~..."));
}

#[test]
fn offsets_grow_beyond_four_digits() {
    let text = hex(&vec![0u8; 0x10001]).to_string();
    let lines: Vec<&str> = text.split('\n').collect();
    assert_eq!(lines.len(), 0x1001);
    assert!(lines[0x0fff].starts_with("fff0: 00 "));
    assert!(lines[0x1000].starts_with("10000: 00 "));
}

#[test]
fn different_buffers_have_different_dumps() {
    assert_ne!(hex(&[0x80]).to_string(), hex(&[0x81]).to_string());
    assert_ne!(hex(&[]).to_string(), hex(&[0]).to_string());
    assert_ne!(hex(&[0; 16]).to_string(), hex(&[0; 17]).to_string());
}
