use galerie_montsouris::binding::{Action, Arg, ArgValue, BindingError, ListItem};
use galerie_montsouris::config::{
    default_keybindings, parse_key, parse_modifiers, Config, ConfigError, GeneralConfig, Key,
    KeyBinding, KeyBindingMap, KeyCombo, ModifierSet,
};
use galerie_montsouris::filters::{Filter, Rgba, RotateFill};
use galerie_montsouris::gallery::BackgroundColor;
use galerie_montsouris::scalar::Scalar;
use galerie_montsouris::viewer::{Direction, ModeTarget};

fn number(x: f32) -> Scalar {
    Scalar { bits: x.to_bits() }
}

fn text(name: &str, value: &str) -> Arg {
    Arg { name: name.to_owned(), value: ArgValue::Text(value.to_owned()) }
}

fn integer(name: &str, value: i64) -> Arg {
    Arg { name: name.to_owned(), value: ArgValue::Integer(value) }
}

fn float(name: &str, value: f32) -> Arg {
    Arg { name: name.to_owned(), value: ArgValue::Float(number(value)) }
}

fn item(value: &toml::Value) -> ListItem {
    match value {
        toml::Value::Integer(n) => ListItem::Integer(*n),
        toml::Value::String(s) => ListItem::Text(s.clone()),
        _ => ListItem::Other,
    }
}

fn args_of(table: &toml::Table) -> Vec<Arg> {
    table
        .iter()
        .map(|(name, value)| Arg {
            name: name.clone(),
            value: match value {
                toml::Value::String(s) => ArgValue::Text(s.clone()),
                toml::Value::Integer(n) => ArgValue::Integer(*n),
                toml::Value::Float(x) => ArgValue::Float(number(*x as f32)),
                toml::Value::Boolean(b) => ArgValue::Boolean(*b),
                toml::Value::Array(items) => ArgValue::List(items.iter().map(item).collect()),
                _ => ArgValue::Other,
            },
        })
        .collect()
}

fn parsed(source: &str) -> Vec<Arg> {
    let table: toml::Table = toml::from_str(source).unwrap();
    args_of(&table)
}

fn turned(degrees: i32) -> Filter {
    Filter::Rotate { degrees, center: None, fill: RotateFill::Transparent }
}

#[test]
fn action_from_binding_navigate() {
    let args = parsed("direction = \"next\"");
    let action = Action::from_binding("Navigate", &args).unwrap();
    assert!(matches!(action, Action::Navigate { direction: Direction::Next, count: 1 }));
}

#[test]
fn action_from_binding_cycle_rating() {
    let args = parsed("values = [1, 2, 3, 4, 5]");
    let action = Action::from_binding("CycleRating", &args).unwrap();
    if let Action::CycleRating { values } = action {
        assert_eq!(values, vec![1, 2, 3, 4, 5]);
    } else {
        panic!("wrong action");
    }
}

#[test]
fn action_from_binding_zoom_tiling() {
    let action = Action::from_binding("ZoomTiling", &parsed("delta = 1")).unwrap();
    assert!(matches!(action, Action::ZoomTiling { delta: 1 }));
    let action = Action::from_binding("ZoomTiling", &parsed("delta = -1\n")).unwrap();
    assert!(matches!(action, Action::ZoomTiling { delta: -1 }));
}

#[test]
fn action_from_binding_unknown() {
    assert!(Action::from_binding("MadeUp", &vec![]).is_err());
    assert_eq!(
        Action::from_binding("MadeUp", &vec![]),
        Err(BindingError::UnknownAction("MadeUp".to_owned()))
    );
}

#[test]
fn run_script_from_binding_defaults() {
    let args = parsed("path = \"~/.local/bin/export.sh\"");
    let action = Action::from_binding("RunScript", &args).unwrap();
    if let Action::RunScript { path, args, pass_filters_stdin } = action {
        assert_eq!(path, "~/.local/bin/export.sh");
        assert_eq!(args, vec!["%p".to_owned()]);
        assert!(!pass_filters_stdin);
    } else {
        panic!("wrong action");
    }
}

#[test]
fn run_script_from_binding_explicit_args() {
    let args = parsed(
        r#"
        path = "~/bin/info.sh"
        args = ["%p", "--width=%d1", "--height=%d2", "--ratio=%r"]
        pass_filters_stdin = true
    "#,
    );
    let action = Action::from_binding("RunScript", &args).unwrap();
    if let Action::RunScript { args, pass_filters_stdin, .. } = action {
        assert_eq!(args, vec!["%p", "--width=%d1", "--height=%d2", "--ratio=%r"]);
        assert!(pass_filters_stdin);
    } else {
        panic!("wrong action");
    }
}

#[test]
fn actions_without_arguments() {
    let none = vec![];
    for (name, action) in [
        ("ToggleSlideshow", Action::ToggleSlideshow),
        ("ToggleFilterSidebar", Action::ToggleFilterSidebar),
        ("Quit", Action::Quit),
        ("CycleBackground", Action::CycleBackground),
        ("ToggleHistogram", Action::ToggleHistogram),
        ("ZoomSingleFit", Action::ZoomSingleFit),
        ("ZoomSingleToOne", Action::ZoomSingleToOne),
        ("ToggleFullscreen", Action::ToggleFullscreen),
        ("ToggleAnnotations", Action::ToggleAnnotations),
    ] {
        assert_eq!(Action::from_binding(name, &none), Ok(action));
    }
}

#[test]
fn every_filter_can_be_bound() {
    let bound = |kind: &str, mut more: Vec<Arg>| {
        more.push(text("filter", kind));
        match Action::from_binding("ApplyFilter", &more) {
            Ok(Action::ApplyFilter { filter }) => filter,
            other => panic!("{:?}", other),
        }
    };
    assert_eq!(bound("RotateRight", vec![]), turned(90));
    assert_eq!(bound("RotateLeft", vec![]), turned(270));
    assert_eq!(bound("Rotate180", vec![]), turned(180));
    assert_eq!(bound("Rotate", vec![integer("degrees", -30)]), turned(-30));
    assert_eq!(bound("FlipHorizontal", vec![]), Filter::FlipHorizontal);
    assert_eq!(bound("FlipVertical", vec![]), Filter::FlipVertical);
    assert_eq!(
        bound("Exposure", vec![float("stops", 0.5)]),
        Filter::Exposure { stops: number(0.5) }
    );
    assert_eq!(
        bound("Contrast", vec![float("factor", 1.5)]),
        Filter::Contrast { factor: number(1.5) }
    );
    assert_eq!(bound("Scale", vec![float("factor", 2.0)]), Filter::Scale { factor: number(2.0) });
    assert_eq!(
        bound("Crop", vec![float("width", 0.5), float("height", 0.25)]),
        Filter::Crop { x: number(0.0), y: number(0.0), width: number(0.5), height: number(0.25) }
    );
    assert_eq!(bound("CapSize", vec![integer("max_px", 800)]), Filter::CapSize { max_px: 800 });
    let color = Arg {
        name: "color".to_owned(),
        value: ArgValue::List(vec![
            ListItem::Integer(1),
            ListItem::Integer(2),
            ListItem::Other,
            ListItem::Integer(255),
        ]),
    };
    assert_eq!(
        bound("Border", vec![integer("thickness", 4), color]),
        Filter::Border { thickness: 4, color: Rgba { r: 1, g: 2, b: 0, a: 255 } }
    );
    assert_eq!(
        bound("Sharpen", vec![float("amount", 1.0)]),
        Filter::Sharpen { amount: number(1.0) }
    );
    assert_eq!(
        bound("Curves", vec![]),
        Filter::Curves { r: vec![], g: vec![], b: vec![] }
    );
}

#[test]
fn faulty_arguments_are_refused() {
    let refused = |name: &str, args: Vec<Arg>| Action::from_binding(name, &args).unwrap_err();
    assert!(matches!(refused("Navigate", vec![]), BindingError::Requires(_)));
    assert_eq!(
        refused("Navigate", vec![text("direction", "up")]),
        BindingError::UnknownDirection("up".to_owned())
    );
    assert_eq!(
        refused("NavigateTilingRow", vec![text("direction", "up")]),
        BindingError::UnknownDirection("up".to_owned())
    );
    assert_eq!(
        refused("SwitchMode", vec![text("mode", "list")]),
        BindingError::UnknownMode("list".to_owned())
    );
    let words = Arg {
        name: "values".to_owned(),
        value: ArgValue::List(vec![ListItem::Text("one".to_owned())]),
    };
    assert_eq!(refused("CycleRating", vec![words]), BindingError::ValuesNotIntegers);
    assert_eq!(
        refused("ApplyFilter", vec![text("filter", "Blur")]),
        BindingError::UnknownFilter("Blur".to_owned())
    );
    assert_eq!(
        refused("ApplyFilterToAll", vec![text("filter", "Crop")]),
        BindingError::UnknownFilterForAll("Crop".to_owned())
    );
    let short = Arg {
        name: "color".to_owned(),
        value: ArgValue::List(vec![ListItem::Integer(1)]),
    };
    assert_eq!(
        refused("ApplyFilter", vec![text("filter", "Border"), integer("thickness", 1), short]),
        BindingError::ColorNotFourParts
    );
    assert!(matches!(
        refused("ApplyFilter", vec![text("filter", "Rotate"), float("degrees", 9.0)]),
        BindingError::Requires(_)
    ));
}

#[test]
fn some_arguments_can_be_left_out() {
    assert_eq!(
        Action::from_binding("ApplyFilterToAll", &vec![text("filter", "Sharpen")]),
        Ok(Action::ApplyFilterToAll { filter: Filter::Sharpen { amount: number(1.0) } })
    );
    assert_eq!(
        Action::from_binding("Navigate", &vec![text("direction", "prev"), integer("count", -3)]),
        Ok(Action::Navigate { direction: Direction::Prev, count: 1 })
    );
    assert_eq!(
        Action::from_binding("SwitchMode", &vec![text("mode", "single")]),
        Ok(Action::SwitchMode { mode: ModeTarget::Single })
    );
}

#[test]
fn defaults_parse() {
    let cfg = Config::default();
    assert_eq!(cfg.general.tile_count, 9);
    assert!(!cfg.keybindings.is_empty());
    assert_eq!(cfg.keybindings.len(), 27);
    assert_eq!(f64::from_bits(cfg.general.slideshow_interval_bits), 5.0);
    assert_eq!(cfg.general.background_color, BackgroundColor::Black);
}

#[test]
fn zoom_tiling_keybinding_parses() {
    let source = r#"
[[keybindings]]
key = "Plus"
modifiers = []
action = "ZoomTiling"
args = { delta = 1 }

[[keybindings]]
key = "Minus"
modifiers = []
action = "ZoomTiling"
args = { delta = -1 }
"#;
    let table: toml::Table = toml::from_str(source).unwrap();
    let keybindings = table["keybindings"]
        .as_array()
        .unwrap()
        .iter()
        .map(|line| KeyBinding {
            key: line["key"].as_str().unwrap().to_owned(),
            modifiers: vec![],
            action: line["action"].as_str().unwrap().to_owned(),
            args: args_of(line["args"].as_table().unwrap()),
        })
        .collect();
    let cfg = Config { general: GeneralConfig::default(), keybindings };
    let map = cfg.build_keybinding_map().unwrap();
    assert_eq!(map.len(), 2);
    assert_eq!(
        map.action_of(KeyCombo { key: Key::Minus, modifiers: ModifierSet::default() }),
        Some(Action::ZoomTiling { delta: -1 })
    );
}

#[test]
fn build_keybinding_map_defaults() {
    let cfg = Config::default();
    let map = cfg.build_keybinding_map().unwrap();
    assert!(!map.is_empty());
    assert_eq!(map.len(), default_keybindings().len());
    assert!(KeyBindingMap::empty().is_empty());
}

#[test]
fn parse_key_roundtrip() {
    assert!(parse_key("ArrowRight").is_some());
    assert!(parse_key("Q").is_some());
    assert!(parse_key("NotAKey").is_none());
    assert_eq!(parse_key("Num7"), Some(Key::Num7));
    assert_eq!(parse_key("F12"), Some(Key::F12));
}

fn bound(key: &str, modifiers: &[&str], action: &str) -> KeyBinding {
    KeyBinding {
        key: key.to_owned(),
        modifiers: modifiers.iter().map(|m| m.to_string()).collect(),
        action: action.to_owned(),
        args: vec![],
    }
}

#[test]
fn later_lines_win() {
    let cfg = Config {
        general: GeneralConfig::default(),
        keybindings: vec![
            bound("Q", &[], "Quit"),
            bound("Q", &["Ctrl"], "ToggleHistogram"),
            bound("Q", &[], "ToggleSlideshow"),
        ],
    };
    let map = cfg.build_keybinding_map().unwrap();
    assert_eq!(map.len(), 2);
    let plain = KeyCombo { key: Key::Q, modifiers: ModifierSet::default() };
    assert_eq!(map.action_of(plain), Some(Action::ToggleSlideshow));
    let ctrl = ModifierSet { ctrl: true, shift: false, alt: false };
    assert_eq!(
        map.action_of(KeyCombo { key: Key::Q, modifiers: ctrl }),
        Some(Action::ToggleHistogram)
    );
    assert_eq!(map.action_of(KeyCombo { key: Key::W, modifiers: ctrl }), None);
}

#[test]
fn faulty_lines_are_refused() {
    let with = |line| Config { general: GeneralConfig::default(), keybindings: vec![line] };
    assert!(matches!(
        with(bound("Hyper", &[], "Quit")).build_keybinding_map(),
        Err(ConfigError::UnknownKey(k)) if k == "Hyper"
    ));
    assert!(matches!(
        with(bound("Q", &[], "Fly")).build_keybinding_map(),
        Err(ConfigError::BadAction(a, BindingError::UnknownAction(_))) if a == "Fly"
    ));
}

#[test]
fn modifiers_are_told_in_any_case() {
    let names: Vec<String> = ["CTRL", "Shift", "hyper"].iter().map(|s| s.to_string()).collect();
    let set = parse_modifiers(&names);
    assert_eq!(set, ModifierSet { ctrl: true, shift: true, alt: false });
    assert!(set.matches(true, true, false));
    assert!(!set.matches(true, false, false));
    assert_eq!(parse_modifiers(&["control".to_owned(), "Alt".to_owned()]).alt, true);
}
