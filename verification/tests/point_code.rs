use siphon_sigtran::point_code::{parse, PointCode, RawPc, Variant};

#[test]
fn raw_pc_resolves_decimal_under_variant() {
    let pc = RawPc(1000).resolve(Variant::Itu).unwrap();
    assert_eq!(pc.value(), 1000);
    assert_eq!(pc.variant(), Variant::Itu);
}

#[test]
fn same_decimal_differs_by_variant() {
    let itu = RawPc(5000).resolve(Variant::Itu).unwrap();
    let ansi = RawPc(5000).resolve(Variant::Ansi).unwrap();
    assert_ne!(itu, ansi);
}

#[test]
fn rejects_out_of_range_for_variant() {
    assert!(RawPc(20_000).resolve(Variant::Itu).is_err());
    assert!(RawPc(20_000).resolve(Variant::Ansi).is_ok());
}

#[test]
fn parse_accepts_decimal_and_structured() {
    assert_eq!(parse("1000", Variant::Itu).unwrap().value(), 1000);
    assert_eq!(parse("2-1-3", Variant::Itu).unwrap().value(), 4107);
}

#[test]
fn resolution_agrees_with_the_codec_at_the_bounds() {
    for (ours, theirs) in [
        (Variant::Itu, mtp3::Variant::Itu),
        (Variant::Ansi, mtp3::Variant::Ansi),
    ] {
        for v in [0, 1, 0x3FFF, 0x4000, 0xFF_FFFF, 0x100_0000, u32::MAX] {
            let a = PointCode::from_value(v, ours);
            let b = mtp3::PointCode::from_value(v, theirs);
            assert_eq!(a.is_ok(), b.is_ok());
            if let (Err(x), Err(y)) = (a, b) {
                assert_eq!(x.to_string(), y.to_string());
            }
        }
    }
}

#[test]
fn a_malformed_point_code_is_refused_with_the_codec_text() {
    for s in ["", "x", "1-2", "9-0-0", "1-2-3-4"] {
        let a = parse(s, Variant::Itu).unwrap_err().to_string();
        let b = mtp3::PointCode::parse(s, mtp3::Variant::Itu).unwrap_err().to_string();
        assert_eq!(a, b);
    }
}
