use uflowmeter::display::{
    blank_transfer, format_reading, glyph, glyph_transfer, init_transfer, seek_transfer,
    update_lines, FONT, INIT,
};
use uflowmeter::legal::totals::Totals;

fn reading(litres: u32) -> Vec<u8> {
    let mut out = [b'#'; 16];
    let n = format_reading(&Totals { litres, ..Totals::default() }, &mut out);
    assert!(out[n..].iter().all(|&b| b == b'#'));
    out[..n].to_vec()
}

#[test]
fn reading_in_cubic_metres() {
    assert_eq!(reading(1234), b"1.234 m3".to_vec());
    assert_eq!(reading(0), b"0.000 m3".to_vec());
    assert_eq!(reading(5), b"0.005 m3".to_vec());
    assert_eq!(reading(10_050), b"10.050 m3".to_vec());
    assert_eq!(reading(99_999_999), b"99999.999 m3".to_vec());
    assert_eq!(reading(123_456_789), b"23456.789 m3".to_vec());
}

#[test]
fn glyph_indices() {
    assert_eq!(glyph(b'0'), 0);
    assert_eq!(glyph(b'9'), 9);
    assert_eq!(glyph(b' '), 10);
    assert_eq!(glyph(b'.'), 11);
    assert_eq!(glyph(b'L'), 12);
    assert_eq!(glyph(b'E'), 13);
    assert_eq!(glyph(b'r'), 14);
    assert_eq!(glyph(b'o'), 15);
    assert_eq!(glyph(b'm'), 16);
    assert_eq!(glyph(b':'), 17);
    assert_eq!(glyph(b'?'), 10);
}

#[test]
fn transfers() {
    assert_eq!(glyph_transfer(b'1'), [0x40, 0x00, 0x42, 0x7f, 0x40, 0x00, 0x00]);
    assert_eq!(glyph_transfer(b'#')[1..6], FONT[10]);
    assert_eq!(seek_transfer(2, 0), [0x00, 0xb2, 0x00, 0x10]);
    assert_eq!(seek_transfer(13, 0x5a), [0x00, 0xb5, 0x0a, 0x15]);
    let init = init_transfer();
    assert_eq!(init[0], 0x00);
    assert_eq!(init[1..], INIT);
    let blank = blank_transfer();
    assert_eq!(blank[0], 0x40);
    assert!(blank[1..].iter().all(|&b| b == 0));
}

#[test]
fn update_draws_reading_and_error() {
    let totals = Totals { litres: 1234, ..Totals::default() };
    let lines = update_lines(&totals, true);
    assert_eq!(lines.len(), 1);
    assert_eq!(lines[0].page, 2);
    assert_eq!(lines[0].text, b"1.234 m3   ".to_vec());
    let lines = update_lines(&Totals { litres: 123_456_789, ..totals }, false);
    assert_eq!(lines.len(), 2);
    assert_eq!(lines[0].text, b"23456.789 m3".to_vec());
    assert_eq!(lines[1].page, 5);
    assert_eq!(lines[1].text, b"Error 0".to_vec());
}
