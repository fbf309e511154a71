use base64::Engine;
use iterm2img::from_bytes;

fn occurrences(hay: &str, needle: &str) -> usize {
    let mut count: usize = 0;
    let mut start: usize = 0;
    while let Some(pos) = hay[start..].find(needle) {
        count += 1;
        start += pos + 1;
    }
    count
}

#[test]
fn size_field_appears_exactly_once() {
    let payload = vec![0u8, 159, 146, 150, 65];
    let result = from_bytes(payload).build();
    assert_eq!(occurrences(&result, "size=5"), 1);

    let result = from_bytes(Vec::new()).build();
    assert_eq!(occurrences(&result, "size=0"), 1);
}

#[test]
fn payload_round_trips_through_base64_segment() {
    let payload: Vec<u8> = (0u8..=255).collect();
    let result = from_bytes(payload.clone()).width(3).build();
    let colon = result.find(':').unwrap();
    let segment = &result[colon + 1..result.len() - 1];
    let decoded = base64::engine::general_purpose::STANDARD.decode(segment).unwrap();
    assert_eq!(decoded, payload);
}

#[test]
fn empty_payload_encodes_to_empty_segment() {
    let result = from_bytes(Vec::new()).build();
    let colon = result.find(':').unwrap();
    let segment = &result[colon + 1..result.len() - 1];
    assert_eq!(segment, "");
}

#[test]
fn field_text_present_iff_setter_called() {
    let with_all = from_bytes(vec![1, 2, 3])
        .name("pic".to_string())
        .width(4)
        .height(5)
        .preserve_aspect_ratio(true)
        .inline(false)
        .build();
    assert!(with_all.contains(";name="));
    assert!(with_all.contains(";width="));
    assert!(with_all.contains(";height="));
    assert!(with_all.contains(";preserve_aspect_ratio="));
    assert!(with_all.contains(";inline="));

    let with_none = from_bytes(vec![1, 2, 3]).build();
    assert!(!with_none.contains(";name="));
    assert!(!with_none.contains(";width="));
    assert!(!with_none.contains(";height="));
    assert!(!with_none.contains(";preserve_aspect_ratio="));
    assert!(!with_none.contains(";inline="));
}

#[test]
fn field_order_is_fixed_regardless_of_call_order() {
    let forward = from_bytes(Vec::new())
        .name("xyz".to_string())
        .width(100)
        .height(200)
        .preserve_aspect_ratio(false)
        .inline(true)
        .build();
    let backward = from_bytes(Vec::new())
        .inline(true)
        .preserve_aspect_ratio(false)
        .height(200)
        .width(100)
        .name("xyz".to_string())
        .build();
    assert_eq!(forward, backward);
    assert_eq!(
        forward,
        "\x1b]1337;File=size=0;name=xyz;width=100;height=200;preserve_aspect_ratio=0;inline=1:\u{0007}"
    );
}

#[test]
fn axis_setter_overwrites_previous_value() {
    let result = from_bytes(Vec::new()).width(1).width(2).build();
    assert_eq!(result, "\x1b]1337;File=size=0;width=2:\u{0007}");

    let result = from_bytes(Vec::new()).width(7).width_auto().build();
    assert_eq!(result, "\x1b]1337;File=size=0;width=auto:\u{0007}");

    let result = from_bytes(Vec::new()).height_px(9).height_percent(40).build();
    assert_eq!(result, "\x1b]1337;File=size=0;height=40%:\u{0007}");
}

#[test]
fn booleans_render_as_single_digits() {
    let result = from_bytes(Vec::new()).preserve_aspect_ratio(true).inline(true).build();
    assert_eq!(result, "\x1b]1337;File=size=0;preserve_aspect_ratio=1;inline=1:\u{0007}");

    let result = from_bytes(Vec::new()).preserve_aspect_ratio(false).inline(false).build();
    assert_eq!(result, "\x1b]1337;File=size=0;preserve_aspect_ratio=0;inline=0:\u{0007}");
}

#[test]
fn large_decimal_sizes_render_exactly() {
    let payload = vec![7u8; 1000];
    let result = from_bytes(payload).build();
    assert!(result.starts_with("\x1b]1337;File=size=1000:"));
}

#[test]
fn two_byte_payload_is_padded_with_one_equals() {
    // $ echo -n hi | base64
    // aGk=
    let result = from_bytes("hi".as_bytes().to_vec()).build();
    assert_eq!(result, "\x1b]1337;File=size=2:aGk=\u{0007}");
}

#[test]
fn one_byte_payload_is_padded_with_two_equals() {
    // $ echo -n h | base64
    // aA==
    let result = from_bytes("h".as_bytes().to_vec()).build();
    assert_eq!(result, "\x1b]1337;File=size=1:aA==\u{0007}");
}
