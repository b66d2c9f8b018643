use quick_keys::encode::encode;
use quick_keys::encode::mk_overlay_chunk;
use quick_keys::encode::mkcmd_rotate_screen;
use quick_keys::encode::mkcmd_set_key_text;
use quick_keys::encode::mkcmd_set_screen_brightness;
use quick_keys::encode::mkcmd_set_sleep_timeout;
use quick_keys::encode::mkcmd_set_wheel_color;
use quick_keys::encode::mkcmd_set_wheel_speed;
use quick_keys::encode::mkcmd_show_overlay_text;
use quick_keys::encode::mkcmd_subscribe_to_battery;
use quick_keys::encode::mkcmd_subscribe_to_key_events;
use quick_keys::encode::pad_zeroes;
use quick_keys::encode::to_array;
use quick_keys::encode::Command;
use quick_keys::encode::EncodeError;
use quick_keys::encode::ScreenBrightness;
use quick_keys::encode::ScreenOrientation;
use quick_keys::encode::WheelSpeed;
use quick_keys::text::encode_utf16_le;

/// A 32-byte buffer holding the given prefix followed by zeros.
fn padded(prefix: &[u8]) -> [u8; 32] {
    let mut b = [0u8; 32];
    b[..prefix.len()].copy_from_slice(prefix);
    b
}

/// A 32-byte buffer with the given prefix and the UTF-16LE encoding of
/// `text` at offsets 16..32.
fn with_text_field(prefix: &[u8], text: &str) -> [u8; 32] {
    let mut b = padded(prefix);
    let mut payload: Vec<u8> = text.encode_utf16().flat_map(|u| u.to_le_bytes()).collect();
    payload.truncate(16);
    payload.resize(16, 0);
    b[16..].copy_from_slice(&payload);
    b
}

#[test]
fn subscribe_to_key_events_buffer() {
    assert_eq!(
        mkcmd_subscribe_to_key_events(),
        padded(&[0x02, 0xb0, 0x04])
    );
}

#[test]
fn subscribe_to_battery_buffer() {
    assert_eq!(mkcmd_subscribe_to_battery(), padded(&[0x02, 0xb4, 0x10]));
}

#[test]
fn rotate_screen_buffers() {
    let cases = [
        (ScreenOrientation::Rotate0, 1u8),
        (ScreenOrientation::Rotate90, 2),
        (ScreenOrientation::Rotate180, 3),
        (ScreenOrientation::Rotate270, 4),
    ];
    for (rot, code) in cases {
        assert_eq!(mkcmd_rotate_screen(rot), padded(&[0x02, 0xb1, code]));
    }
}

#[test]
fn set_screen_brightness_buffers() {
    let cases = [
        (ScreenBrightness::Off, 0u8),
        (ScreenBrightness::Low, 1),
        (ScreenBrightness::Medium, 2),
        (ScreenBrightness::Full, 3),
    ];
    for (level, code) in cases {
        assert_eq!(
            mkcmd_set_screen_brightness(level),
            padded(&[0x02, 0xb1, 0x0a, 0x01, code])
        );
    }
}

#[test]
fn set_wheel_speed_buffers() {
    let cases = [
        (WheelSpeed::Fastest, 1u8),
        (WheelSpeed::Faster, 2),
        (WheelSpeed::Normal, 3),
        (WheelSpeed::Slower, 4),
        (WheelSpeed::Slowest, 5),
    ];
    for (speed, code) in cases {
        assert_eq!(
            mkcmd_set_wheel_speed(speed),
            padded(&[0x02, 0xb4, 0x04, 0x01, 0x01, code])
        );
    }
}

#[test]
fn set_sleep_timeout_buffer() {
    assert_eq!(
        mkcmd_set_sleep_timeout(1),
        padded(&[0x02, 0xb4, 0x08, 0x01, 1])
    );
    assert_eq!(
        mkcmd_set_sleep_timeout(255),
        padded(&[0x02, 0xb4, 0x08, 0x01, 255])
    );
}

#[test]
fn wheel_color_places_rgb_at_offsets_6_7_8() {
    for &r in &[0u8, 255] {
        for &g in &[0u8, 255] {
            for &b in &[0u8, 255] {
                let buf = mkcmd_set_wheel_color(r, g, b);
                assert_eq!(buf, padded(&[0x02, 0xb4, 0x01, 0x01, 0x00, 0x00, r, g, b]));
                assert_eq!(buf[6], r);
                assert_eq!(buf[7], g);
                assert_eq!(buf[8], b);
            }
        }
    }
}

#[test]
fn set_key_text_red_exact_buffer() {
    for k in [0u8, 4] {
        let buf = mkcmd_set_key_text(k, "red");
        let mut expected = padded(&[0x02, 0xb1, 0x00, k + 1, 0x00, 6]);
        expected[16] = b'r';
        expected[18] = b'e';
        expected[20] = b'd';
        assert_eq!(buf, expected);
    }
}

#[test]
fn set_key_text_eight_chars_full_field() {
    let buf = mkcmd_set_key_text(2, "abcdefgh");
    assert_eq!(
        buf,
        with_text_field(&[0x02, 0xb1, 0x00, 3, 0x00, 16], "abcdefgh")
    );
}

#[test]
fn set_key_text_long_text_truncates_to_eight_chars() {
    let buf = mkcmd_set_key_text(5, "turquoise");
    assert_eq!(
        buf,
        with_text_field(&[0x02, 0xb1, 0x00, 6, 0x00, 16], "turquois")
    );
}

#[test]
fn set_key_text_non_ascii() {
    let buf = mkcmd_set_key_text(0, "bleu\u{e9}");
    assert_eq!(
        buf,
        with_text_field(&[0x02, 0xb1, 0x00, 1, 0x00, 10], "bleu\u{e9}")
    );
}

#[test]
fn utf16_encoding_of_surrogate_pair() {
    let bytes = encode_utf16_le("\u{1F600}");
    assert_eq!(bytes, vec![0x3d, 0xd8, 0x00, 0xde]);
}

#[test]
fn overlay_chunk_first_and_continuation() {
    let first = mk_overlay_chunk(false, 2, "This is ", true);
    assert_eq!(
        first,
        with_text_field(&[0x02, 0xb1, 0x05, 2, 0x00, 16, 1], "This is ")
    );
    let last = mk_overlay_chunk(true, 2, "ay!", false);
    assert_eq!(
        last,
        with_text_field(&[0x02, 0xb1, 0x06, 2, 0x00, 6, 0], "ay!")
    );
}

#[test]
fn overlay_three_chunks() {
    let chunks = mkcmd_show_overlay_text(2, "This is an overlay!").unwrap();
    assert_eq!(chunks.len(), 3);
    assert_eq!(
        chunks[0],
        with_text_field(&[0x02, 0xb1, 0x05, 2, 0x00, 16, 1], "This is ")
    );
    assert_eq!(
        chunks[1],
        with_text_field(&[0x02, 0xb1, 0x06, 2, 0x00, 16, 1], "an overl")
    );
    assert_eq!(
        chunks[2],
        with_text_field(&[0x02, 0xb1, 0x06, 2, 0x00, 6, 0], "ay!")
    );
}

#[test]
fn overlay_text_too_long_fails() {
    let text: String = "x".repeat(33);
    assert_eq!(
        mkcmd_show_overlay_text(1, &text),
        Err(EncodeError::TextTooLong)
    );
}

#[test]
fn overlay_text_of_32_chars_gives_four_chunks() {
    let text: String = "y".repeat(32);
    let chunks = mkcmd_show_overlay_text(1, &text).unwrap();
    assert_eq!(chunks.len(), 4);
    for (i, chunk) in chunks.iter().enumerate() {
        assert_eq!(chunk[2], if i == 0 { 0x05 } else { 0x06 });
        assert_eq!(chunk[6], if i == 3 { 0 } else { 1 });
    }
}

#[test]
fn overlay_chunk_counts_at_boundary_lengths() {
    let cases = [(1usize, 1usize), (8, 1), (9, 2), (16, 2), (17, 3), (32, 4)];
    for (len, expected_chunks) in cases {
        let text: String = "z".repeat(len);
        let chunks = mkcmd_show_overlay_text(0, &text).unwrap();
        assert_eq!(chunks.len(), expected_chunks, "length {}", len);
        for (i, chunk) in chunks.iter().enumerate() {
            assert_eq!(chunk[0], 0x02);
            assert_eq!(chunk[2], if i == 0 { 0x05 } else { 0x06 });
            let is_last = i == chunks.len() - 1;
            assert_eq!(chunk[6], if is_last { 0 } else { 1 }, "length {} chunk {}", len, i);
        }
    }
}

#[test]
fn overlay_empty_text_gives_no_chunks() {
    let chunks = mkcmd_show_overlay_text(3, "").unwrap();
    assert_eq!(chunks.len(), 0);
}

#[test]
fn encode_dispatches_each_command() {
    assert_eq!(
        encode(&Command::SubscribeKeyEvents).unwrap(),
        vec![mkcmd_subscribe_to_key_events()]
    );
    assert_eq!(
        encode(&Command::SubscribeBattery).unwrap(),
        vec![mkcmd_subscribe_to_battery()]
    );
    assert_eq!(
        encode(&Command::RotateScreen(ScreenOrientation::Rotate270)).unwrap(),
        vec![mkcmd_rotate_screen(ScreenOrientation::Rotate270)]
    );
    assert_eq!(
        encode(&Command::SetBrightness(ScreenBrightness::Low)).unwrap(),
        vec![mkcmd_set_screen_brightness(ScreenBrightness::Low)]
    );
    assert_eq!(
        encode(&Command::SetWheelSpeed(WheelSpeed::Normal)).unwrap(),
        vec![mkcmd_set_wheel_speed(WheelSpeed::Normal)]
    );
    assert_eq!(
        encode(&Command::SetSleepTimeout(7)).unwrap(),
        vec![mkcmd_set_sleep_timeout(7)]
    );
    assert_eq!(
        encode(&Command::SetWheelColor(255, 0, 0)).unwrap(),
        vec![mkcmd_set_wheel_color(255, 0, 0)]
    );
    assert_eq!(
        encode(&Command::SetKeyText(3, String::from("red"))).unwrap(),
        vec![mkcmd_set_key_text(3, "red")]
    );
    assert_eq!(
        encode(&Command::ShowOverlayText(2, String::from("hello"))).unwrap(),
        mkcmd_show_overlay_text(2, "hello").unwrap()
    );
}

#[test]
fn encode_rejects_key_index_without_wire_form() {
    assert_eq!(
        encode(&Command::SetKeyText(255, String::from("red"))),
        Err(EncodeError::InvalidField)
    );
}

#[test]
fn encode_rejects_long_overlay_text() {
    let text: String = "w".repeat(40);
    assert_eq!(
        encode(&Command::ShowOverlayText(1, text)),
        Err(EncodeError::TextTooLong)
    );
}

#[test]
fn every_encoded_buffer_is_32_bytes_with_marker() {
    let commands = vec![
        Command::SubscribeKeyEvents,
        Command::SubscribeBattery,
        Command::RotateScreen(ScreenOrientation::Rotate90),
        Command::SetBrightness(ScreenBrightness::Full),
        Command::SetWheelSpeed(WheelSpeed::Slowest),
        Command::SetSleepTimeout(1),
        Command::SetWheelColor(1, 2, 3),
        Command::SetKeyText(0, String::from("green")),
        Command::ShowOverlayText(2, String::from("This is an overlay!")),
    ];
    for cmd in &commands {
        let bufs = encode(cmd).unwrap();
        assert!(!bufs.is_empty());
        for buf in &bufs {
            assert_eq!(buf.len(), 32);
            assert_eq!(buf[0], 0x02);
        }
    }
}

#[test]
fn pad_zeroes_copies_prefix() {
    let r: [u8; 32] = pad_zeroes([9u8, 8, 7]);
    assert_eq!(r, padded(&[9, 8, 7]));
}

#[test]
fn to_array_takes_first_32_bytes() {
    let mut v = vec![0u8; 40];
    for (i, b) in v.iter_mut().enumerate() {
        *b = i as u8;
    }
    let r = to_array(&v);
    for (i, b) in r.iter().enumerate() {
        assert_eq!(*b, i as u8);
    }
}
