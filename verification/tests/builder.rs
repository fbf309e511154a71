use iterm2img::from_bytes;

#[test]
fn name() {
    let result = from_bytes(Vec::new()).name("xyz".to_string()).build();
    assert_eq!(result, "\x1b]1337;File=size=0;name=xyz:\u{0007}");
}

#[test]
fn width() {
    let result = from_bytes(Vec::new()).width(100).build();
    assert_eq!(result, "\x1b]1337;File=size=0;width=100:\u{0007}");
}

#[test]
fn width_px() {
    let result = from_bytes(Vec::new()).width_px(100).build();
    assert_eq!(result, "\x1b]1337;File=size=0;width=100px:\u{0007}");
}

#[test]
fn width_percent() {
    let result = from_bytes(Vec::new()).width_percent(100).build();
    assert_eq!(result, "\x1b]1337;File=size=0;width=100%:\u{0007}");
}

#[test]
fn width_auto() {
    let result = from_bytes(Vec::new()).width_auto().build();
    assert_eq!(result, "\x1b]1337;File=size=0;width=auto:\u{0007}");
}

#[test]
fn height() {
    let result = from_bytes(Vec::new()).height(100).build();
    assert_eq!(result, "\x1b]1337;File=size=0;height=100:\u{0007}");
}

#[test]
fn height_px() {
    let result = from_bytes(Vec::new()).height_px(100).build();
    assert_eq!(result, "\x1b]1337;File=size=0;height=100px:\u{0007}");
}

#[test]
fn height_percent() {
    let result = from_bytes(Vec::new()).height_percent(100).build();
    assert_eq!(result, "\x1b]1337;File=size=0;height=100%:\u{0007}");
}

#[test]
fn height_auto() {
    let result = from_bytes(Vec::new()).height_auto().build();
    assert_eq!(result, "\x1b]1337;File=size=0;height=auto:\u{0007}");
}

#[test]
fn preserve_aspect_ratio() {
    let result = from_bytes(Vec::new()).preserve_aspect_ratio(true).build();
    assert_eq!(result, "\x1b]1337;File=size=0;preserve_aspect_ratio=1:\u{0007}");

    let result = from_bytes(Vec::new()).preserve_aspect_ratio(false).build();
    assert_eq!(result, "\x1b]1337;File=size=0;preserve_aspect_ratio=0:\u{0007}");
}

#[test]
fn inline() {
    let result = from_bytes(Vec::new()).inline(true).build();
    assert_eq!(result, "\x1b]1337;File=size=0;inline=1:\u{0007}");

    let result = from_bytes(Vec::new()).inline(false).build();
    assert_eq!(result, "\x1b]1337;File=size=0;inline=0:\u{0007}");
}

#[test]
fn all_options() {
    let result = from_bytes(Vec::new())
        .name("xyz".to_string())
        .width(100)
        .height(200)
        .preserve_aspect_ratio(false)
        .inline(true)
        .build();
    assert_eq!(
        result,
        "\x1b]1337;File=size=0;name=xyz;width=100;height=200;preserve_aspect_ratio=0;inline=1:\u{0007}"
    );
}

#[test]
fn content() {
    // $ echo -n abcdefg | base64
    // YWJjZGVmZw==
    let result = from_bytes("abcdefg".as_bytes().to_vec()).build();
    assert_eq!(result, "\x1b]1337;File=size=7:YWJjZGVmZw==\u{0007}")
}
