use shooter_core::config::{
    only_numbers_mask, parse_u32_saturating, u32_to_dec_string, validate_ok, AppParams,
    AppParamsInput,
};

#[test]
fn test_numbers_mask() {
    let mut test_str = "12 34".to_string();
    only_numbers_mask(&mut test_str);
    assert!("1234" == test_str, "1test_str!={}", test_str);

    test_str = "12  34".to_string();
    only_numbers_mask(&mut test_str);
    assert!("1234" == test_str, "2test_str={}", test_str);

    test_str = "sdf!12 $ 34sf".to_string();
    only_numbers_mask(&mut test_str);
    assert!("1234" == test_str, "3test_str={}", test_str);
}

#[test]
fn test_dec_string() {
    assert_eq!(u32_to_dec_string(0), "0");
    assert_eq!(u32_to_dec_string(7), "7");
    assert_eq!(u32_to_dec_string(640), "640");
    assert_eq!(u32_to_dec_string(1234567), "1234567");
    assert_eq!(u32_to_dec_string(u32::MAX), "4294967295");
}

#[test]
fn test_parse_saturating() {
    assert_eq!(parse_u32_saturating("640"), 640);
    assert_eq!(parse_u32_saturating("004"), 4);
    assert_eq!(parse_u32_saturating("4294967295"), u32::MAX);
    assert_eq!(parse_u32_saturating("4294967296"), u32::MAX);
    assert_eq!(parse_u32_saturating("99999999999999"), u32::MAX);
}

#[test]
fn test_validate_ok_short_name() {
    let mut input = AppParamsInput {
        player_name: "abc".to_string(),
        window_size_x: "64 0".to_string(),
        window_size_y: "480".to_string(),
    };
    assert!(!validate_ok(&mut input));
    // a failing name leaves the size fields untouched
    assert_eq!(input.window_size_x, "64 0");
}

#[test]
fn test_validate_ok_masks_sizes() {
    let mut input = AppParamsInput {
        player_name: "shrubbo".to_string(),
        window_size_x: "6x4y0".to_string(),
        window_size_y: " 480 ".to_string(),
    };
    assert!(validate_ok(&mut input));
    assert_eq!(input.window_size_x, "640");
    assert_eq!(input.window_size_y, "480");
}

#[test]
fn test_validate_ok_small_size() {
    let mut input = AppParamsInput {
        player_name: "shrubbo".to_string(),
        window_size_x: "64".to_string(),
        window_size_y: "480".to_string(),
    };
    assert!(!validate_ok(&mut input));
}

#[test]
fn test_params_dialog_roundtrip() {
    let mut params = AppParams::default();
    assert_eq!(params.player_name, "player1");
    assert_eq!(params.window_width, 640);
    assert_eq!(params.window_height, 480);
    assert!(params.config_file.is_none());
    assert!(params.changed);

    let mut input = AppParamsInput::new(&params);
    assert_eq!(input.window_size_x, "640");
    assert_eq!(input.window_size_y, "480");

    input.player_name = "shrubbo".to_string();
    input.window_size_x = "1024".to_string();
    assert!(validate_ok(&mut input));
    input.to(&mut params);
    assert_eq!(params.player_name, "shrubbo");
    assert_eq!(params.window_width, 1024);
    assert_eq!(params.window_height, 480);

    input.from(&params);
    assert_eq!(input.player_name, "shrubbo");
    assert_eq!(input.window_size_x, "1024");

    let copy = params.dup();
    assert_eq!(copy.player_name, params.player_name);
    assert_eq!(copy.window_width, params.window_width);
    assert_eq!(copy.changed, params.changed);
}
