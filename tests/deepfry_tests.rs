use deepfry::{deepfry, deepfry_preset, AlgorithmConfig, ChangeMode, DeepfryAlgorithm, Preset, RgbBuffer};

const ALL_MODES: [ChangeMode; 11] = [
    ChangeMode::ShiftLeft,
    ChangeMode::ShiftRight,
    ChangeMode::Not,
    ChangeMode::Multiply,
    ChangeMode::Sqrt,
    ChangeMode::Xor,
    ChangeMode::Or,
    ChangeMode::And,
    ChangeMode::Exponent,
    ChangeMode::RandomAdd,
    ChangeMode::RandomMul,
];

fn image(width: u32, height: u32, samples: Vec<u8>) -> RgbBuffer {
    RgbBuffer::from_samples(width, height, samples).expect("samples fit the dimensions")
}

fn bit_change(mode: &str, red: Option<u32>, green: Option<u32>, blue: Option<u32>) -> AlgorithmConfig {
    AlgorithmConfig {
        algorithm: "BitChange".to_string(),
        change_mode: Some(mode.to_string()),
        red,
        green,
        blue,
    }
}

#[test]
fn fixed_modes_are_pure() {
    for mode in ALL_MODES.iter().filter(|m| !matches!(m, ChangeMode::RandomAdd | ChangeMode::RandomMul)) {
        for value in 0..=255u8 {
            for other in [0u32, 1, 7, 8, 255, 256, 1000, u32::MAX] {
                assert_eq!(mode.shift(value, other), mode.shift(value, other));
            }
        }
    }
}

#[test]
fn sqrt_table() {
    for value in 0..=255u8 {
        let r = ChangeMode::Sqrt.shift(value, 12345) as u32;
        assert!(r * r <= value as u32);
        assert!((value as u32) < (r + 1) * (r + 1));
    }
    assert_eq!(ChangeMode::Sqrt.shift(0, 0), 0);
    assert_eq!(ChangeMode::Sqrt.shift(1, 0), 1);
    assert_eq!(ChangeMode::Sqrt.shift(4, 0), 2);
    assert_eq!(ChangeMode::Sqrt.shift(8, 0), 2);
    assert_eq!(ChangeMode::Sqrt.shift(9, 0), 3);
    assert_eq!(ChangeMode::Sqrt.shift(255, 0), 15);
}

#[test]
fn multiply_wraps() {
    assert_eq!(ChangeMode::Multiply.shift(200, 200), 64);
    assert_eq!(ChangeMode::Multiply.shift(3, 1000), 184);
    assert_eq!(ChangeMode::Multiply.shift(255, u32::MAX), 1);
}

#[test]
fn shift_amount_modulo_eight() {
    assert_eq!(ChangeMode::ShiftLeft.shift(1, 8), ChangeMode::ShiftLeft.shift(1, 0));
    assert_eq!(ChangeMode::ShiftLeft.shift(1, 8), 1);
    assert_eq!(ChangeMode::ShiftLeft.shift(1, 3), 8);
    assert_eq!(ChangeMode::ShiftLeft.shift(0b1100_0001, 1), 0b1000_0010);
    assert_eq!(ChangeMode::ShiftRight.shift(128, 9), 64);
    assert_eq!(ChangeMode::ShiftRight.shift(128, 7), 1);
}

#[test]
fn bitwise_modes() {
    assert_eq!(ChangeMode::Not.shift(0, 99), 255);
    assert_eq!(ChangeMode::Not.shift(0b1010_0101, 0), 0b0101_1010);
    assert_eq!(ChangeMode::Xor.shift(10, 255), 245);
    assert_eq!(ChangeMode::Xor.shift(10, 256 + 3), 9);
    assert_eq!(ChangeMode::Or.shift(0, 1), 1);
    assert_eq!(ChangeMode::Or.shift(0, 0x1f0), 0xf0);
    assert_eq!(ChangeMode::And.shift(0xff, 254), 254);
    assert_eq!(ChangeMode::And.shift(0xff, 0x100), 0);
}

#[test]
fn exponent_wraps() {
    assert_eq!(ChangeMode::Exponent.shift(3, 0), 1);
    assert_eq!(ChangeMode::Exponent.shift(0, 0), 1);
    assert_eq!(ChangeMode::Exponent.shift(3, 5), 243);
    assert_eq!(ChangeMode::Exponent.shift(3, 6), 217);
    assert_eq!(ChangeMode::Exponent.shift(2, 8), 0);
    assert_eq!(ChangeMode::Exponent.shift(3, u32::MAX), 171);
}

#[test]
fn random_modes_are_deterministic() {
    for value in [0u8, 10, 200, 255] {
        assert_eq!(ChangeMode::RandomAdd.shift(value, 42), ChangeMode::RandomAdd.shift(value, 42));
        assert_eq!(ChangeMode::RandomMul.shift(value, 42), ChangeMode::RandomMul.shift(value, 42));
    }
}

#[test]
fn random_modes_use_seeded_byte() {
    // the first byte of a SmallRng seeded with 42 is 66, with 0 it is 201
    assert_eq!(ChangeMode::RandomAdd.shift(0, 42), 66);
    assert_eq!(ChangeMode::RandomAdd.shift(10, 42), 76);
    assert_eq!(ChangeMode::RandomAdd.shift(100, 0), 45);
    assert_eq!(ChangeMode::RandomMul.shift(3, 42), 198);
    assert_eq!(ChangeMode::RandomMul.shift(1, 0), 201);
}

#[test]
fn names_round_trip() {
    for mode in ALL_MODES {
        assert_eq!(ChangeMode::from_name(&mode.name()), Some(mode));
    }
    assert_eq!(ChangeMode::ShiftLeft.name(), "ShiftLeft");
    assert_eq!(ChangeMode::RandomMul.name(), "RandomMul");
    assert_eq!(ChangeMode::from_name(&"shift-left".to_string()), None);
    assert_eq!(ChangeMode::from_name(&"".to_string()), None);
}

#[test]
fn config_resolves_with_default_parameters() {
    let algo = bit_change("Xor", Some(5), None, Some(7)).algo();
    assert_eq!(algo, Ok(DeepfryAlgorithm::BitChange(ChangeMode::Xor, 5, 0, 7)));
    let algo = bit_change("Sqrt", None, None, None).algo();
    assert_eq!(algo, Ok(DeepfryAlgorithm::BitChange(ChangeMode::Sqrt, 0, 0, 0)));
}

#[test]
fn config_unknown_algorithm() {
    let config = AlgorithmConfig {
        algorithm: "Blur".to_string(),
        change_mode: Some("Xor".to_string()),
        red: None,
        green: None,
        blue: None,
    };
    assert_eq!(config.algo(), Err("invalid algorithm: Blur".to_string()));
}

#[test]
fn config_missing_mode() {
    let config = AlgorithmConfig {
        algorithm: "BitChange".to_string(),
        change_mode: None,
        red: Some(1),
        green: None,
        blue: None,
    };
    assert_eq!(config.algo(), Err("bit changing mode is not set".to_string()));
}

#[test]
fn config_unknown_mode() {
    let config = bit_change("Foo", None, None, None);
    assert_eq!(config.algo(), Err("invalid bit changing mode: Some(\"Foo\")".to_string()));
    let config = bit_change("a\"b", None, None, None);
    assert_eq!(config.algo(), Err("invalid bit changing mode: Some(\"a\\\"b\")".to_string()));
}

#[test]
fn image_buffer_refuses_short_samples() {
    assert!(RgbBuffer::from_samples(2, 1, vec![1, 2, 3]).is_none());
    let img = image(1, 1, vec![1, 2, 3, 4]);
    assert_eq!(img.dimensions(), (1, 1));
    assert_eq!(img.into_samples(), vec![1, 2, 3, 4]);
}

#[test]
fn not_turns_black_white() {
    let mut img = image(1, 1, vec![0, 0, 0]);
    assert!(deepfry(&mut img, DeepfryAlgorithm::BitChange(ChangeMode::Not, 3, 4, 5)).is_ok());
    assert_eq!(img.dimensions(), (1, 1));
    assert_eq!(img.into_samples(), vec![255, 255, 255]);
}

#[test]
fn xor_pixel() {
    let mut img = image(1, 1, vec![10, 20, 30]);
    assert!(deepfry(&mut img, DeepfryAlgorithm::BitChange(ChangeMode::Xor, 255, 255, 255)).is_ok());
    assert_eq!(img.into_samples(), vec![245, 235, 225]);
}

#[test]
fn each_channel_uses_its_parameter() {
    let mut img = image(2, 1, vec![1, 1, 1, 2, 2, 2]);
    assert!(deepfry(&mut img, DeepfryAlgorithm::BitChange(ChangeMode::ShiftLeft, 0, 1, 2)).is_ok());
    assert_eq!(img.dimensions(), (2, 1));
    assert_eq!(img.into_samples(), vec![1, 2, 4, 2, 4, 8]);
}

#[test]
fn samples_past_the_pixels_are_kept() {
    let mut img = image(1, 1, vec![0, 0, 0, 0]);
    assert!(deepfry(&mut img, DeepfryAlgorithm::BitChange(ChangeMode::Not, 0, 0, 0)).is_ok());
    assert_eq!(img.into_samples(), vec![255, 255, 255, 0]);
}

#[test]
fn empty_image_stays_empty() {
    let mut img = image(0, 0, vec![]);
    assert!(deepfry(&mut img, DeepfryAlgorithm::BitChange(ChangeMode::Not, 0, 0, 0)).is_ok());
    assert_eq!(img.dimensions(), (0, 0));
    assert_eq!(img.into_samples(), Vec::<u8>::new());
}

#[test]
fn preset_passes_run_in_order() {
    let preset = Preset {
        algorithms: vec![
            bit_change("Or", Some(1), Some(1), Some(1)),
            bit_change("And", Some(254), Some(254), Some(254)),
        ],
    };
    let mut img = image(1, 1, vec![0, 0, 0]);
    assert_eq!(deepfry_preset(&mut img, &preset), Ok(()));
    assert_eq!(img.into_samples(), vec![0, 0, 0]);

    let reversed = Preset {
        algorithms: vec![
            bit_change("And", Some(254), Some(254), Some(254)),
            bit_change("Or", Some(1), Some(1), Some(1)),
        ],
    };
    let mut img = image(1, 1, vec![0, 0, 0]);
    assert_eq!(deepfry_preset(&mut img, &reversed), Ok(()));
    assert_eq!(img.into_samples(), vec![1, 1, 1]);
}

#[test]
fn preset_fails_before_any_pass() {
    let preset = Preset {
        algorithms: vec![
            bit_change("Not", None, None, None),
            bit_change("Xor", Some(1), Some(2), Some(3)),
            bit_change("Blur", None, None, None),
        ],
    };
    let mut img = image(1, 1, vec![10, 20, 30]);
    assert_eq!(
        deepfry_preset(&mut img, &preset),
        Err("invalid bit changing mode: Some(\"Blur\")".to_string())
    );
    assert_eq!(img.into_samples(), vec![10, 20, 30]);
}

#[test]
fn preset_resolves_all_entries() {
    let preset = Preset {
        algorithms: vec![bit_change("Not", None, None, None), bit_change("Exponent", Some(2), Some(3), None)],
    };
    assert_eq!(
        preset.algos(),
        Ok(vec![
            DeepfryAlgorithm::BitChange(ChangeMode::Not, 0, 0, 0),
            DeepfryAlgorithm::BitChange(ChangeMode::Exponent, 2, 3, 0),
        ])
    );
    let bad = Preset {
        algorithms: vec![
            bit_change("Not", None, None, None),
            AlgorithmConfig { algorithm: "BitChange".to_string(), change_mode: None, red: None, green: None, blue: None },
            bit_change("Nope", None, None, None),
        ],
    };
    assert_eq!(bad.algos(), Err("bit changing mode is not set".to_string()));
    let empty = Preset { algorithms: vec![] };
    assert_eq!(empty.algos(), Ok(vec![]));
}
