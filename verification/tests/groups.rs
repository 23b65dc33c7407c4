use attractor_engine::errors::{GroupError, PresetError};
use attractor_engine::group::{apply_preset, build_group, parse_group};
use attractor_engine::presets::parse_preset_line;

const LORENZ_X: &str = "s*(y-x)";
const LORENZ_Y: &str = "x*(r-z)-y";
const LORENZ_Z: &str = "x*y-b*z";

#[test]
fn group_unifies_identifiers_and_forces_reserved_keys() {
    let group = parse_group(LORENZ_X, LORENZ_Y, LORENZ_Z).unwrap();
    // First-seen order across the three axes; x, y, z already discovered.
    let keys: Vec<char> = (0..group.params.len())
        .map(|i| group.params.entry(i).0)
        .collect();
    assert_eq!(keys, vec!['s', 'y', 'x', 'r', 'z', 'b']);
    for k in keys {
        assert_eq!(group.params.get(k), Some(0.0f64.to_bits()));
    }
}

#[test]
fn reserved_keys_are_present_even_if_unreferenced() {
    let group = parse_group("1", "2", "3").unwrap();
    assert_eq!(group.params.get('x'), Some(0.0f64.to_bits()));
    assert_eq!(group.params.get('y'), Some(0.0f64.to_bits()));
    assert_eq!(group.params.get('z'), Some(0.0f64.to_bits()));
    assert_eq!(group.params.len(), 3);
}

#[test]
fn rebuild_preserves_tuned_constants() {
    let mut group = parse_group(LORENZ_X, LORENZ_Y, LORENZ_Z).unwrap();
    group.params.set('s', 10.0f64.to_bits());
    group.params.set('r', 28.0f64.to_bits());
    group.params.set('b', 2.667f64.to_bits());
    // Change only the z-expression; s, r, b keep their tuned values.
    let rebuilt = build_group(LORENZ_X, LORENZ_Y, "x*y-b*z+s", Some(&group.params)).unwrap();
    assert_eq!(rebuilt.params.get('s'), Some(10.0f64.to_bits()));
    assert_eq!(rebuilt.params.get('r'), Some(28.0f64.to_bits()));
    assert_eq!(rebuilt.params.get('b'), Some(2.667f64.to_bits()));
    assert_eq!(rebuilt.params.get('x'), Some(0.0f64.to_bits()));
}

#[test]
fn rebuild_defaults_new_keys_to_zero() {
    let group = parse_group("1", "1", "1").unwrap();
    let rebuilt = build_group("a*2", "1", "1", Some(&group.params)).unwrap();
    assert_eq!(rebuilt.params.get('a'), Some(0.0f64.to_bits()));
}

#[test]
fn derivatives_follow_the_lorenz_field() {
    let mut group = parse_group(LORENZ_X, LORENZ_Y, LORENZ_Z).unwrap();
    let s = 10.0f64;
    let r = 28.0f64;
    let b: f64 = 8.0 / 3.0;
    group.params.set('s', s.to_bits());
    group.params.set('r', r.to_bits());
    group.params.set('b', b.to_bits());
    let (x, y, z) = (1.5f64, -0.5f64, 20.25f64);
    let (dx, dy, dz) = group
        .derivatives(x.to_bits(), y.to_bits(), z.to_bits())
        .unwrap();
    assert_eq!(f64::from_bits(dx), s * (y - x));
    assert_eq!(f64::from_bits(dy), x * (r - z) - y);
    assert_eq!(f64::from_bits(dz), x * y - b * z);
}

#[test]
fn derivatives_share_one_binding_across_axes() {
    // dy reads x: it must see the injected coordinate, not a stale one.
    let mut group = parse_group("y", "x", "z").unwrap();
    let (dx, dy, dz) = group
        .derivatives(1.0f64.to_bits(), 2.0f64.to_bits(), 3.0f64.to_bits())
        .unwrap();
    assert_eq!(f64::from_bits(dx), 2.0);
    assert_eq!(f64::from_bits(dy), 1.0);
    assert_eq!(f64::from_bits(dz), 3.0);
}

#[test]
fn preset_line_parses_name_expressions_and_defaults() {
    let preset = parse_preset_line("lorenz;s*(y-x);x*(r-z)-y;x*y-b*z;10;28;2.667").unwrap();
    assert_eq!(preset.name, "lorenz");
    assert_eq!(preset.expr_x, LORENZ_X);
    assert_eq!(preset.expr_y, LORENZ_Y);
    assert_eq!(preset.expr_z, LORENZ_Z);
    assert_eq!(
        preset.params,
        vec![10.0f64.to_bits(), 28.0f64.to_bits(), 2.667f64.to_bits()]
    );
}

#[test]
fn preset_line_with_too_few_fields_is_malformed() {
    assert!(matches!(
        parse_preset_line("name;only;two"),
        Err(PresetError::MalformedRow)
    ));
}

#[test]
fn preset_line_with_unreadable_default_is_malformed() {
    assert!(matches!(
        parse_preset_line("n;x;y;z;abc"),
        Err(PresetError::MalformedRow)
    ));
}

#[test]
fn apply_preset_binds_defaults_positionally() {
    let preset = parse_preset_line("lorenz;s*(y-x);x*(r-z)-y;x*y-b*z;10;28;2.667").unwrap();
    let group = apply_preset(&preset).unwrap();
    assert_eq!(group.params.get('s'), Some(10.0f64.to_bits()));
    assert_eq!(group.params.get('r'), Some(28.0f64.to_bits()));
    assert_eq!(group.params.get('b'), Some(2.667f64.to_bits()));
    assert_eq!(group.params.get('x'), Some(0.0f64.to_bits()));
}

#[test]
fn apply_preset_with_too_few_defaults_is_an_error() {
    let preset = parse_preset_line("lorenz;s*(y-x);x*(r-z)-y;x*y-b*z;10;28").unwrap();
    assert!(matches!(
        apply_preset(&preset),
        Err(GroupError::Preset(PresetError::InsufficientDefaults))
    ));
}

#[test]
fn apply_preset_reports_parse_errors() {
    let preset = parse_preset_line("bad;foo(1);0;0").unwrap();
    assert!(matches!(apply_preset(&preset), Err(GroupError::Parse(_))));
}
