use galerie_montsouris::filters::{
    apply_to_stack, can_stack, compose_filters, edit_filter, filter_add_list, filter_description,
    filter_has_params, filter_kind_name, net_rotation, numbers_to_write, stack_arithmetic,
    Arithmetic, Channel, Filter, FilterEdit, Point, Rgba, RotateFill,
};
use galerie_montsouris::scalar::Scalar;

fn number(x: f32) -> Scalar {
    Scalar { bits: x.to_bits() }
}

fn value(s: Scalar) -> f32 {
    f32::from_bits(s.bits)
}

fn turned(degrees: i32) -> Filter {
    Filter::Rotate { degrees, center: None, fill: RotateFill::Transparent }
}

fn crop(x: f32, y: f32, width: f32, height: f32) -> Filter {
    Filter::Crop { x: number(x), y: number(y), width: number(width), height: number(height) }
}

fn push(stack: &mut Vec<Filter>, incoming: Filter) {
    let combined = match stack_arithmetic(stack, &incoming) {
        Arithmetic::Nothing => number(0.0),
        Arithmetic::Sum { a, b } => number(value(a) + value(b)),
        Arithmetic::Product { a, b } => number(value(a) * value(b)),
    };
    apply_to_stack(stack, incoming, combined);
}

#[test]
fn apply_to_stack_accumulates() {
    let mut stack = vec![];
    push(&mut stack, turned(90));
    push(&mut stack, turned(90));
    assert_eq!(stack, vec![turned(180)]);
}

#[test]
fn apply_to_stack_cancels() {
    let mut stack = vec![turned(270)];
    push(&mut stack, turned(90));
    assert!(stack.is_empty());
}

#[test]
fn apply_to_stack_full_cycle() {
    let mut stack = vec![];
    for _ in 0..4 {
        push(&mut stack, turned(90));
    }
    assert!(stack.is_empty(), "4 × 90° = 360° should cancel");
}

#[test]
fn apply_to_stack_non_adjacent_same_kind_kept_separate() {
    let crop1 = crop(0.0, 0.0, 0.8, 1.0);
    let crop2 = crop(0.0, 0.0, 0.5, 0.5);
    let mut stack = vec![];
    push(&mut stack, crop1.clone());
    push(&mut stack, turned(90));
    push(&mut stack, crop2.clone());
    assert_eq!(stack.len(), 3);
    assert_eq!(stack[0], crop1);
    assert_eq!(stack[1], turned(90));
    assert_eq!(stack[2], crop2);
}

#[test]
fn net_rotation_sums() {
    let filters = vec![turned(90)];
    assert_eq!(net_rotation(&filters), 90);
}

#[test]
fn net_rotation_ignores_other_filters() {
    let filters = vec![turned(90), Filter::FlipHorizontal];
    assert_eq!(net_rotation(&filters), 90);
}

#[test]
fn net_rotation_stays_below_a_full_turn() {
    assert_eq!(net_rotation(&[turned(270), Filter::FlipVertical, turned(180)]), 90);
    assert_eq!(net_rotation(&[turned(-90)]), 270);
    assert_eq!(net_rotation(&[]), 0);
}

#[test]
fn flip_horizontal_is_self_inverse() {
    let mut stack = vec![];
    push(&mut stack, Filter::FlipHorizontal);
    push(&mut stack, Filter::FlipHorizontal);
    assert!(stack.is_empty());
}

#[test]
fn flip_vertical_is_self_inverse() {
    let mut stack = vec![];
    push(&mut stack, Filter::FlipVertical);
    push(&mut stack, Filter::FlipVertical);
    assert!(stack.is_empty());
}

#[test]
fn exposure_accumulates_in_stack() {
    let mut stack = vec![];
    push(&mut stack, Filter::Exposure { stops: number(0.5) });
    push(&mut stack, Filter::Exposure { stops: number(0.5) });
    assert_eq!(stack, vec![Filter::Exposure { stops: number(1.0) }]);
}

#[test]
fn exposure_cancels_in_stack() {
    let mut stack = vec![Filter::Exposure { stops: number(1.0) }];
    push(&mut stack, Filter::Exposure { stops: number(-1.0) });
    assert!(stack.is_empty());
}

#[test]
fn contrast_accumulates_in_stack() {
    let mut stack = vec![];
    push(&mut stack, Filter::Contrast { factor: number(1.2) });
    push(&mut stack, Filter::Contrast { factor: number(1.2) });
    if let Some(Filter::Contrast { factor }) = stack.first() {
        assert!((value(*factor) - 1.44).abs() < 1e-3);
    } else {
        panic!("expected Contrast in stack");
    }
}

#[test]
fn contrast_cancels_in_stack() {
    let mut stack = vec![Filter::Contrast { factor: number(2.0) }];
    push(&mut stack, Filter::Contrast { factor: number(0.5) });
    assert!(stack.is_empty());
}

#[test]
fn crop_identity_removes_from_stack() {
    let mut stack = vec![crop(0.1, 0.0, 0.9, 1.0)];
    push(&mut stack, crop(0.0, 0.0, 1.0, 1.0));
    assert!(stack.is_empty(), "full-image crop should be treated as identity");
}

#[test]
fn scale_identity_removes_from_stack() {
    let mut stack = vec![Filter::Scale { factor: number(0.5) }];
    push(&mut stack, Filter::Scale { factor: number(1.0) });
    assert!(stack.is_empty(), "Scale(1.0) is identity and should be removed");
}

#[test]
fn cap_size_adjacent_takes_min() {
    let mut stack = vec![];
    push(&mut stack, Filter::CapSize { max_px: 2048 });
    push(&mut stack, Filter::CapSize { max_px: 1024 });
    assert_eq!(stack, vec![Filter::CapSize { max_px: 1024 }]);

    let mut stack2 = vec![];
    push(&mut stack2, Filter::CapSize { max_px: 256 });
    push(&mut stack2, Filter::CapSize { max_px: 2048 });
    assert_eq!(stack2, vec![Filter::CapSize { max_px: 256 }]);
}

#[test]
fn border_adjacent_last_wins() {
    let white = Rgba { r: 255, g: 255, b: 255, a: 255 };
    let black = Rgba { r: 0, g: 0, b: 0, a: 255 };
    let mut stack = vec![];
    push(&mut stack, Filter::Border { thickness: 10, color: white });
    push(&mut stack, Filter::Border { thickness: 5, color: black });
    assert_eq!(stack, vec![Filter::Border { thickness: 5, color: black }]);
}

#[test]
fn empty_curves_cancel() {
    let line = vec![Point { x: number(0.0), y: number(0.0) }];
    let mut stack = vec![Filter::Curves { r: line, g: vec![], b: vec![] }];
    push(&mut stack, Filter::Curves { r: vec![], g: vec![], b: vec![] });
    assert!(stack.is_empty());
}

#[test]
fn stacking_never_leaves_two_of_a_kind_side_by_side() {
    let mut stack = vec![];
    for _ in 0..3 {
        push(&mut stack, turned(90));
        push(&mut stack, Filter::FlipHorizontal);
        push(&mut stack, Filter::FlipHorizontal);
        push(&mut stack, Filter::Scale { factor: number(0.5) });
    }
    for pair in stack.windows(2) {
        assert!(!pair[0].same_kind(&pair[1]));
    }
}

#[test]
fn gallery_filters_go_around_those_of_the_photo() {
    let gallery = Some((vec![turned(90)], vec![Filter::FlipVertical]));
    assert_eq!(
        compose_filters(&vec![Filter::FlipHorizontal], &gallery),
        vec![turned(90), Filter::FlipHorizontal, Filter::FlipVertical]
    );
    assert_eq!(compose_filters(&vec![Filter::FlipHorizontal], &None), vec![Filter::FlipHorizontal]);
}

#[test]
fn filters_are_named_and_offered() {
    assert_eq!(filter_kind_name(&Filter::MicroContrast { amount: number(0.5) }), "Clarity");
    assert_eq!(filter_kind_name(&Filter::Preset { name: "dusk".to_owned() }), "Preset: dusk");
    assert!(!filter_has_params(&Filter::FlipVertical));
    assert!(filter_has_params(&turned(0)));
    let list = filter_add_list();
    assert_eq!(list.len(), 12);
    assert_eq!(list[0].0, "Rotate");
    assert_eq!(list[8].1, Filter::MicroContrast { amount: number(0.5) });
    assert_eq!(list[10].1, Filter::CapSize { max_px: 1024 });
    for (label, filter) in list {
        assert_eq!(label, filter_kind_name(&filter));
    }
}

#[test]
fn filters_are_edited_in_place() {
    let mut f = turned(0);
    assert!(edit_filter(&mut f, FilterEdit::Degrees(45)));
    assert!(edit_filter(&mut f, FilterEdit::FillColor));
    let black = Rgba { r: 0, g: 0, b: 0, a: 255 };
    assert_eq!(
        f,
        Filter::Rotate { degrees: 45, center: None, fill: RotateFill::Color(black) }
    );
    assert!(edit_filter(&mut f, FilterEdit::CustomCenter(true)));
    let middle = Point { x: number(0.5), y: number(0.5) };
    assert_eq!(
        f,
        Filter::Rotate { degrees: 45, center: Some(middle), fill: RotateFill::Color(black) }
    );
    let mut c = Filter::Curves { r: vec![], g: vec![], b: vec![] };
    assert!(edit_filter(
        &mut c,
        FilterEdit::Curve { channel: Channel::Green, points: vec![middle] }
    ));
    assert_eq!(c, Filter::Curves { r: vec![], g: vec![middle], b: vec![] });
}

#[test]
fn fill_tells_transparent_from_the_others() {
    assert!(RotateFill::Transparent.is_transparent());
    assert!(!RotateFill::Crop.is_transparent());
}

fn written(filters: &Vec<Filter>) -> Vec<Vec<String>> {
    filters
        .iter()
        .map(|f| {
            numbers_to_write(f)
                .iter()
                .map(|w| {
                    if w.percent {
                        format!("{:.0}", value(w.value) * 100.0)
                    } else {
                        format!("{:.2}", value(w.value))
                    }
                })
                .collect()
        })
        .collect()
}

#[test]
fn a_stack_is_described_in_order() {
    assert_eq!(filter_description(&vec![], &vec![]), "Filters cleared");
    let stack = vec![
        turned(90),
        Filter::FlipHorizontal,
        Filter::Rotate {
            degrees: -30,
            center: Some(Point { x: number(0.25), y: number(0.5) }),
            fill: RotateFill::Crop,
        },
        crop(0.1, 0.2, 0.5, 0.25),
        Filter::Scale { factor: number(0.5) },
        Filter::Exposure { stops: number(1.5) },
        Filter::Exposure { stops: number(-0.5) },
        Filter::Contrast { factor: number(1.25) },
        Filter::CapSize { max_px: 1024 },
        Filter::Border { thickness: 20, color: Rgba { r: 255, g: 10, b: 0, a: 255 } },
        Filter::Sharpen { amount: number(1.0) },
        Filter::MicroContrast { amount: number(0.5) },
        Filter::Curves { r: vec![Point { x: number(0.0), y: number(0.0) }], g: vec![], b: vec![] },
        Filter::FlipVertical,
    ];
    let numbers = written(&stack);
    assert_eq!(
        filter_description(&stack, &numbers),
        "Rotated 90°, Flipped H, Rotated -30° around (25%,50%), \
         Crop 50%×25% at (10%,20%), Scale 50%, +1.50 EV, -0.50 EV, Contrast ×1.25, \
         Cap 1024px, Border 20px #ff0a00, Sharpen 1.00, Clarity 0.50, \
         Curves (1/0/0 pts), Flipped V"
    );
}

#[test]
fn two_presets_do_not_stand_side_by_side() {
    let preset = Filter::Preset { name: "warm".to_owned() };
    assert!(can_stack(&vec![], &preset));
    assert!(can_stack(&vec![turned(90)], &preset));
    assert!(can_stack(&vec![preset.clone()], &turned(90)));
    assert!(!can_stack(&vec![preset.clone()], &preset));
}
