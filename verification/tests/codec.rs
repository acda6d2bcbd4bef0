use ptybridge::codec::classify;
use ptybridge::codec::parse_resize;
use ptybridge::codec::Classification;

#[test]
fn resize_exact() {
    let c = classify(br#"{"type":"resize","cols":80,"rows":24}"#);
    assert_eq!(c, Classification::Resize { cols: 80, rows: 24 });
    assert_eq!(parse_resize(br#"{"type":"resize","cols":80,"rows":24}"#), Some((80, 24)));
}

#[test]
fn resize_nonnumeric_field_is_malformed() {
    let c = classify(br#"{"type":"resize","cols":"x"}"#);
    assert_eq!(c, Classification::Malformed);
    assert_eq!(parse_resize(br#"{"type":"resize","cols":"x"}"#), None);
}

#[test]
fn keystrokes_passthrough() {
    assert_eq!(classify(b"ls -la\n"), Classification::Keystrokes);
    assert_eq!(classify(b"x"), Classification::Keystrokes);
}

#[test]
fn empty_message_is_keystrokes() {
    assert_eq!(classify(b""), Classification::Keystrokes);
}

#[test]
fn leading_space_is_keystrokes() {
    // Only a message whose first byte is `{` is treated as an envelope.
    assert_eq!(classify(br#" {"type":"resize","cols":80,"rows":24}"#), Classification::Keystrokes);
}

#[test]
fn member_order_and_blank_space_are_free() {
    let c = classify(b"{ \"rows\" : 24 ,\t\"cols\" : 80 ,\r\n\"type\" : \"resize\" }");
    assert_eq!(c, Classification::Resize { cols: 80, rows: 24 });
}

#[test]
fn unknown_members_are_ignored() {
    let c = classify(br#"{"type":"resize","cols":1,"rows":2,"note":"hi"}"#);
    assert_eq!(c, Classification::Resize { cols: 1, rows: 2 });
}

#[test]
fn unknown_discriminator_is_malformed() {
    assert_eq!(classify(br#"{"type":"open","cols":80,"rows":24}"#), Classification::Malformed);
}

#[test]
fn missing_fields_are_malformed() {
    assert_eq!(classify(br#"{"type":"resize","cols":80}"#), Classification::Malformed);
    assert_eq!(classify(br#"{"type":"resize"}"#), Classification::Malformed);
    assert_eq!(classify(br#"{}"#), Classification::Malformed);
}

#[test]
fn sixteen_bit_bounds() {
    assert_eq!(
        classify(br#"{"type":"resize","cols":65535,"rows":0}"#),
        Classification::Resize { cols: 65535, rows: 0 },
    );
    assert_eq!(classify(br#"{"type":"resize","cols":65536,"rows":0}"#), Classification::Malformed);
    assert_eq!(
        classify(br#"{"type":"resize","cols":1,"rows":99999999999999999999}"#),
        Classification::Malformed,
    );
}

#[test]
fn leading_zero_is_malformed() {
    assert_eq!(classify(br#"{"type":"resize","cols":080,"rows":24}"#), Classification::Malformed);
    assert_eq!(
        classify(br#"{"type":"resize","cols":0,"rows":24}"#),
        Classification::Resize { cols: 0, rows: 24 },
    );
}

#[test]
fn signs_fractions_escapes_are_malformed() {
    assert_eq!(classify(br#"{"type":"resize","cols":-1,"rows":24}"#), Classification::Malformed);
    assert_eq!(classify(br#"{"type":"resize","cols":8.0,"rows":24}"#), Classification::Malformed);
    assert_eq!(
        classify(br#"{"ty\pe":"resize","cols":80,"rows":24}"#),
        Classification::Malformed,
    );
}

#[test]
fn broken_envelopes_are_malformed() {
    assert_eq!(classify(b"{"), Classification::Malformed);
    assert_eq!(classify(br#"{"type":"resize","cols":80,"rows":24"#), Classification::Malformed);
    assert_eq!(classify(br#"{"type":"resize","cols":80,"rows":24}x"#), Classification::Malformed);
    assert_eq!(classify(br#"{"type":"resize",}"#), Classification::Malformed);
}

#[test]
fn first_member_with_a_key_decides() {
    let c = classify(br#"{"type":"resize","cols":1,"cols":2,"rows":3}"#);
    assert_eq!(c, Classification::Resize { cols: 1, rows: 3 });
}
