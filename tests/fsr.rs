use rres::{Fsr, RresError};

#[test]
fn table_1920x1080() {
    assert_eq!(Fsr::Ultra.generate((1920, 1080)), (1477, 831));
    assert_eq!(Fsr::Quality.generate((1920, 1080)), (1280, 720));
    assert_eq!(Fsr::Balanced.generate((1920, 1080)), (1129, 635));
    assert_eq!(Fsr::Performance.generate((1920, 1080)), (960, 540));
}

#[test]
fn table_2560x1440() {
    assert_eq!(Fsr::Ultra.generate((2560, 1440)), (1970, 1108));
    assert_eq!(Fsr::Quality.generate((2560, 1440)), (1706, 960));
    assert_eq!(Fsr::Balanced.generate((2560, 1440)), (1506, 847));
    assert_eq!(Fsr::Performance.generate((2560, 1440)), (1280, 720));
}

#[test]
fn table_3440x1440() {
    assert_eq!(Fsr::Ultra.generate((3440, 1440)), (2646, 1108));
    assert_eq!(Fsr::Quality.generate((3440, 1440)), (2293, 960));
    assert_eq!(Fsr::Balanced.generate((3440, 1440)), (2024, 847));
    assert_eq!(Fsr::Performance.generate((3440, 1440)), (1720, 720));
}

#[test]
fn table_3840x2160() {
    assert_eq!(Fsr::Ultra.generate((3840, 2160)), (2954, 1662));
    assert_eq!(Fsr::Quality.generate((3840, 2160)), (2560, 1440));
    assert_eq!(Fsr::Balanced.generate((3840, 2160)), (2259, 1270));
    assert_eq!(Fsr::Performance.generate((3840, 2160)), (1920, 1080));
}

#[test]
fn balanced_1080p_example() {
    assert_eq!(Fsr::Balanced.generate((1920, 1080)), (1129, 635));
}

#[test]
fn performance_1366x768_example() {
    assert_eq!(Fsr::Performance.generate((1366, 768)), (683, 384));
}

#[test]
fn formula_exact_values() {
    assert_eq!(Fsr::Ultra.generate((1366, 768)), (1050, 590));
    assert_eq!(Fsr::Quality.generate((1366, 768)), (910, 512));
    assert_eq!(Fsr::Balanced.generate((1366, 768)), (803, 451));
    assert_eq!(Fsr::Performance.generate((1280, 800)), (640, 400));
}

#[test]
fn formula_degenerate_small_target() {
    assert_eq!(Fsr::Performance.generate((1, 1)), (0, 0));
    assert_eq!(Fsr::Ultra.generate((0, 0)), (0, 0));
    assert_eq!(Fsr::Ultra.generate((1, 2)), (0, 1));
}

#[test]
fn formula_largest_target() {
    assert_eq!(Fsr::Ultra.generate((65535, 65535)), (50411, 50411));
    assert_eq!(Fsr::Performance.generate((65535, 65535)), (32767, 32767));
}

#[test]
fn formula_matches_float_division() {
    let tiers = [
        (Fsr::Ultra, 1.3f32),
        (Fsr::Quality, 1.5f32),
        (Fsr::Balanced, 1.7f32),
        (Fsr::Performance, 2.0f32),
    ];
    for (tier, factor) in tiers {
        for x in 0..=u16::MAX {
            if x == 1920 || x == 2560 || x == 3440 || x == 3840 {
                continue;
            }
            let expected = (f32::from(x) / factor).floor() as u16;
            assert_eq!(tier.generate((x, x)), (expected, expected), "{:?} {}", tier, x);
        }
    }
}

#[test]
fn generate_is_deterministic() {
    for tier in [Fsr::Ultra, Fsr::Quality, Fsr::Balanced, Fsr::Performance] {
        assert_eq!(tier.generate((2560, 1080)), tier.generate((2560, 1080)));
        assert_eq!(tier.generate((3840, 2160)), tier.generate((3840, 2160)));
    }
}

#[test]
fn tier_parse_any_case() {
    assert_eq!(Fsr::try_from("ultra"), Ok(Fsr::Ultra));
    assert_eq!(Fsr::try_from("ULTRA"), Ok(Fsr::Ultra));
    assert_eq!(Fsr::try_from("Quality"), Ok(Fsr::Quality));
    assert_eq!(Fsr::try_from("bAlAnCeD"), Ok(Fsr::Balanced));
    assert_eq!(Fsr::parse("PERFORMANCE"), Ok(Fsr::Performance));
}

#[test]
fn tier_parse_rejects_others() {
    assert_eq!(Fsr::try_from(""), Err(RresError::Parse));
    assert_eq!(Fsr::try_from("native"), Err(RresError::Parse));
    assert_eq!(Fsr::try_from("ultra "), Err(RresError::Parse));
    assert_eq!(Fsr::parse("fast"), Err(RresError::Parse));
}

#[test]
fn from_lowercase_is_exact() {
    assert_eq!(Fsr::from_lowercase("balanced"), Ok(Fsr::Balanced));
    assert_eq!(Fsr::from_lowercase("Balanced"), Err(RresError::Parse));
}
