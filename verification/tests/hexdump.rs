use ckptmini_tui::ui::hexdump::format_hex_dump;

#[test]
fn full_line() {
    let data = "Reading 16 bytes at 0x1000\n0x1000 41 42 43 44 45 46 47 48 49 4a 4b 4c 4d 4e 4f 50\n";
    assert_eq!(
        format_hex_dump(0x1000, data),
        "0x1000  41 42 43 44 45 46 47 48  49 4a 4b 4c 4d 4e 4f 50  |ABCDEFGHIJKLMNOP|\n"
    );
}

#[test]
fn unprintable_bytes_show_as_dots() {
    let data = "  0x2000 00 1f 20 7e 7f 80 ff 0a 61 62 63 64 65 66 67 68  \n";
    assert_eq!(
        format_hex_dump(0, data),
        "0x2000  00 1f 20 7e 7f 80 ff 0a  61 62 63 64 65 66 67 68  |.. ~....abcdefgh|\n"
    );
}

#[test]
fn short_and_bad_lines() {
    // fifteen bytes: the last column stays empty
    let fifteen = "a 01 02 03 04 05 06 07 08 09 0a 0b 0c 0d 0e 0f\n";
    assert_eq!(
        format_hex_dump(0, fifteen),
        "a  01 02 03 04 05 06 07 08  09 0a 0b 0c 0d 0e 0f     |...............|\n"
    );
    // a word that is not a byte is left out and the rest move up
    let bad = "b 41 zz 42 43 44 45 46 47 48 49 4a 4b 4c 4d 4e 4f 50\n";
    assert_eq!(
        format_hex_dump(0, bad),
        "b  41 42 43 44 45 46 47 48  49 4a 4b 4c 4d 4e 4f     |ABCDEFGHIJKLMNO|\n"
    );
    // too few words: skipped
    assert_eq!(format_hex_dump(0, "c 01 02 03\n"), "");
    assert_eq!(format_hex_dump(0, ""), "");
    assert_eq!(format_hex_dump(0, "Reading a b c d e f g h i j k l m n o p\n\n"), "");
}

#[test]
fn two_lines_and_single_digits() {
    let data = "x 1 2 3 4 5 6 7 8 9 a b c d e f 10\ny 100 41 41 41 41 41 41 41 41 41 41 41 41 41 41 41 41\n";
    assert_eq!(
        format_hex_dump(0, data),
        "x  01 02 03 04 05 06 07 08  09 0a 0b 0c 0d 0e 0f 10  |................|\n\
         y  41 41 41 41 41 41 41 41  41 41 41 41 41 41 41     |AAAAAAAAAAAAAAA|\n"
    );
}
