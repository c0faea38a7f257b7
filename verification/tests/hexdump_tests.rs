use zephyr_grid::hexdump::format_hex_dump;

#[test]
fn hex_dump_of_nothing_is_empty() {
    assert_eq!(format_hex_dump(&[]), "");
}

#[test]
fn hex_dump_pads_a_short_line() {
    assert_eq!(
        format_hex_dump(b"Hello"),
        "00000000  48 65 6c 6c 6f                                    |Hello|\n"
    );
}

#[test]
fn hex_dump_splits_lines_every_sixteen_bytes() {
    let data: Vec<u8> = (0x3c..0x3c + 18).collect();
    assert_eq!(
        format_hex_dump(&data),
        "00000000  3c 3d 3e 3f 40 41 42 43  44 45 46 47 48 49 4a 4b  |<=>?@ABCDEFGHIJK|\n\
         00000010  4c 4d                                             |LM|\n"
    );
}

#[test]
fn hex_dump_shows_unprintable_bytes_as_dots() {
    assert_eq!(
        format_hex_dump(&[0x00, 0x01, 0x20, 0x7e, 0x7f, 0xff]),
        "00000000  00 01 20 7e 7f ff                                 |.. ~..|\n"
    );
}
