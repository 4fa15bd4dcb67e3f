use l2tp_handshake::bytes::{push_be16, read_be16};

#[test]
fn push_be16_writes_the_high_byte_first() {
    let mut out = vec![0xff];
    push_be16(&mut out, 0x1234);
    push_be16(&mut out, 0);
    push_be16(&mut out, 0xffff);
    push_be16(&mut out, 0x00ff);
    assert_eq!(out, vec![0xff, 0x12, 0x34, 0x00, 0x00, 0xff, 0xff, 0x00, 0xff]);
}

#[test]
fn read_be16_reads_at_the_index() {
    let bytes = [0x00, 0x12, 0x34, 0xff, 0xff];
    assert_eq!(read_be16(&bytes, 0), 0x0012);
    assert_eq!(read_be16(&bytes, 1), 0x1234);
    assert_eq!(read_be16(&bytes, 2), 0x34ff);
    assert_eq!(read_be16(&bytes, 3), 0xffff);
}

#[test]
fn read_be16_undoes_push_be16() {
    for x in [0u16, 1, 255, 256, 257, 0x7fff, 0x8000, 0xfffe, 0xffff] {
        let mut out = Vec::new();
        push_be16(&mut out, x);
        assert_eq!(out.len(), 2);
        assert_eq!(read_be16(&out, 0), x);
    }
}
