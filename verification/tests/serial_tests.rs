use oxide_os::port::PortWrite;
use oxide_os::serial::{init, transmit_ready, write_fmt};

#[test]
fn newline_goes_out_as_crlf() {
    assert_eq!(write_fmt("a\nb"), b"a\r\nb".to_vec());
    assert_eq!(write_fmt("\n\n"), b"\r\n\r\n".to_vec());
}

#[test]
fn text_without_newline_is_unchanged() {
    assert_eq!(write_fmt("Oxide OS"), b"Oxide OS".to_vec());
    assert_eq!(write_fmt(""), Vec::<u8>::new());
}

#[test]
fn transmit_ready_reads_bit_five() {
    assert!(transmit_ready(0x20));
    assert!(transmit_ready(0x60));
    assert!(!transmit_ready(0x1f));
    assert!(!transmit_ready(0x00));
}

#[test]
fn init_programs_com1() {
    let w = |port, value| PortWrite { port, value };
    assert_eq!(
        init(),
        vec![
            w(0x3f9, 0x00),
            w(0x3fb, 0x80),
            w(0x3f8, 0x03),
            w(0x3f9, 0x00),
            w(0x3fb, 0x03),
            w(0x3fa, 0xc7),
            w(0x3fc, 0x0b),
        ]
    );
}
