use devsim::codec::build_cmd;
use devsim::codec::build_reg_cmd;
use devsim::datawriter::ConstantDataWriter;
use devsim::device::decode_fb_config;

#[test]
fn command_word_packs_fields() {
    // id in bits 63..60, address in bits 59..30, size in bits 29..0.
    let word = build_cmd(1, 0x100, 4);
    assert_eq!(word, (1u64 << 60) | (0x100u64 << 30) | 4u64);

    let word = build_cmd(2, 0x3fff_ffff, 0x2aaa_aaaa);
    assert_eq!(word >> 60, 2);
    assert_eq!((word >> 30) & 0x3fff_ffff, 0x3fff_ffff);
    assert_eq!(word & 0x3fff_ffff, 0x2aaa_aaaa);
}

#[test]
fn register_command_word_carries_sentinel() {
    let word = build_reg_cmd(2, 1, 0x100);
    // The address subfield shows the reserved register-file pattern with the
    // index in bits 11..2.
    let addr_field = (word >> 30) & 0x3fff_ffff;
    assert_eq!(addr_field, 0x3fff_f000 | (1 << 2));
    assert_eq!(word >> 60, 2);
    assert_eq!(word & 0x3fff_ffff, 0x100);
}

#[test]
fn framebuffer_config_decodes_exponents() {
    // Width exponent 3, height exponent 4: 2^(3+1) x 2^(4+1).
    assert_eq!(decode_fb_config(3 | (4 << 3)), (16, 32));
    // Smallest and largest expressible sizes.
    assert_eq!(decode_fb_config(0), (2, 2));
    assert_eq!(decode_fb_config(7 | (7 << 3)), (256, 256));
    // Unrelated high bits are ignored.
    assert_eq!(decode_fb_config(0xffff_ffc0 | 3 | (4 << 3)), (16, 32));
}

#[test]
fn constant_data_writer_clamps_to_buffer() {
    let mut writer = ConstantDataWriter::new(8);
    assert_eq!(writer.dword_offset(), 0);

    assert_eq!(writer.write(&vec![1, 2, 3, 4, 5]), 5);
    assert_eq!(writer.dword_offset(), 1);

    // Only three bytes remain; the rest of the write is dropped.
    assert_eq!(writer.write(&vec![6, 7, 8, 9, 10]), 3);
    assert_eq!(writer.dword_offset(), 2);
    assert_eq!(writer.contents(), &vec![1, 2, 3, 4, 5, 6, 7, 8]);

    // A full writer accepts nothing more.
    assert_eq!(writer.write(&vec![11]), 0);
    assert_eq!(writer.contents(), &vec![1, 2, 3, 4, 5, 6, 7, 8]);
}
