use ldraw::color::{resolve_color, LdrawColor};

#[test]
fn red_code_is_exact() {
    // Code 4 is the classic red; channels are millionths.
    let c = resolve_color(b"4");
    assert_eq!(c, LdrawColor::Rgba(705882, 0, 0, 1000000));
    // Converted to f32, the channels match the decimal literals bit for bit.
    if let LdrawColor::Rgba(r, g, b, a) = c {
        assert_eq!((r as f32 / 1000000.0).to_bits(), 0.705882f32.to_bits());
        assert_eq!(g as f32 / 1000000.0, 0.0f32);
        assert_eq!(b as f32 / 1000000.0, 0.0f32);
        assert_eq!(a as f32 / 1000000.0, 1.0f32);
    } else {
        panic!("expected an RGBA color");
    }
}

#[test]
fn unknown_code_inherits() {
    assert_eq!(resolve_color(b"99999"), LdrawColor::Main);
}

#[test]
fn sentinel_codes() {
    assert_eq!(resolve_color(b"16"), LdrawColor::Main);
    assert_eq!(resolve_color(b"24"), LdrawColor::Complement);
}

#[test]
fn black_code_is_exact() {
    assert_eq!(resolve_color(b"0"), LdrawColor::Rgba(105882, 164706, 203922, 1000000));
}

#[test]
fn transparent_code_has_partial_alpha() {
    let c = resolve_color(b"33");
    assert_eq!(c, LdrawColor::Rgba(0, 125490, 627451, 501961));
    if let LdrawColor::Rgba(_, _, _, a) = c {
        assert!(a < 1000000);
    }
}

#[test]
fn high_code_aliases_base_color() {
    assert_eq!(resolve_color(b"10002"), resolve_color(b"10"));
    assert_eq!(resolve_color(b"10484"), resolve_color(b"484"));
}

#[test]
fn non_canonical_codes_inherit() {
    assert_eq!(resolve_color(b""), LdrawColor::Main);
    assert_eq!(resolve_color(b"007"), LdrawColor::Main);
    assert_eq!(resolve_color(b"abc"), LdrawColor::Main);
    assert_eq!(resolve_color(b"4.0"), LdrawColor::Main);
    assert_eq!(resolve_color(b"-4"), LdrawColor::Main);
    assert_eq!(resolve_color(b"100000"), LdrawColor::Main);
}
