use galerie_montsouris::cluster::{
    assign, draw, first_centroid, gather, group_sizes, most_alike_group, nearest_group,
    next_centroid, select_consistent, store_assignments, ClusterError, GroupRun, Indexed,
};
use galerie_montsouris::curve::{
    add_point, drag_point, hold, largest, nearest_within, place_on, remove_point, smallest,
    sort_points, start_drag, CurvePlace, EditorMemory,
};
use galerie_montsouris::embed::{
    batch_line, batches, build_batch_args, bytes_to_floats, parse_batch_output,
    parse_floats_from_stdout, pending, settle_batch, single_command, skip_line, store_vector,
    store_vectors, EmbedError,
};
use galerie_montsouris::filters::Point;
use galerie_montsouris::gallery::{find_vector, new_entry, Annotation};
use galerie_montsouris::order::stable_order;
use galerie_montsouris::scalar::Scalar;

fn number(x: f32) -> Scalar {
    Scalar { bits: x.to_bits() }
}

fn numbers(xs: &[f32]) -> Vec<Scalar> {
    xs.iter().map(|x| number(*x)).collect()
}

fn at(x: f32, y: f32) -> Point {
    Point { x: number(x), y: number(y) }
}

fn photo(path: &str) -> galerie_montsouris::gallery::GalleryEntry {
    new_entry(path.to_owned(), String::new())
}

#[test]
fn sort_points_orders_by_x() {
    let mut pts = vec![at(0.8, 0.5), at(0.2, 0.3), at(0.5, 0.7)];
    sort_points(&mut pts);
    assert_eq!(pts[0].x, number(0.2));
    assert_eq!(pts[1].x, number(0.5));
    assert_eq!(pts[2].x, number(0.8));
}

#[test]
fn points_at_one_place_keep_their_order() {
    let mut pts = vec![at(0.5, 0.1), at(0.0, 0.2), at(0.5, 0.0)];
    sort_points(&mut pts);
    assert_eq!(pts, vec![at(0.0, 0.2), at(0.5, 0.1), at(0.5, 0.0)]);
}

#[test]
fn points_are_caught_within_the_radius() {
    assert_eq!(nearest_within(&numbers(&[20.0, 5.0, 13.0])), Some(1));
    assert_eq!(nearest_within(&numbers(&[13.5])), None);
    assert_eq!(nearest_within(&numbers(&[13.0])), Some(0));
    assert_eq!(nearest_within(&vec![]), None);
}

#[test]
fn the_dragged_point_is_followed() {
    let mut pts = vec![at(0.0, 0.0), at(0.5, 0.5), at(1.0, 1.0)];
    let mut mem = EditorMemory { dragging: Some(2) };
    assert!(remove_point(&mut pts, &mut mem, Some(1)));
    assert_eq!(mem.dragging, Some(1));
    assert!(drag_point(&mut pts, &mem, at(0.3, 0.9), number(0.0), number(1.0)));
    assert_eq!(pts, vec![at(0.0, 0.0), at(1.0, 0.9)]);
    assert!(remove_point(&mut pts, &mut mem, Some(1)));
    assert_eq!(mem.dragging, None);
    assert!(!remove_point(&mut pts, &mut mem, None));
    assert!(!drag_point(&mut pts, &mem, at(0.3, 0.9), number(0.0), number(1.0)));
}

#[test]
fn a_new_point_is_taken_hold_of() {
    let mut pts = vec![at(0.0, 0.0), at(1.0, 1.0)];
    let mut mem = EditorMemory { dragging: None };
    assert!(start_drag(&mut pts, &mut mem, None, at(0.4, 0.6)));
    assert_eq!(pts[1], at(0.4, 0.6));
    hold(&mut mem, &vec![false, true, false]);
    assert_eq!(mem.dragging, Some(1));
    assert!(drag_point(&mut pts, &mem, at(0.5, 0.7), number(0.0), number(1.0)));
    assert_eq!(pts[1], at(0.5, 0.7));
    assert!(!start_drag(&mut pts, &mut mem, Some(0), at(0.4, 0.6)));
    assert_eq!(mem.dragging, Some(0));
    add_point(&mut pts, at(0.1, 0.1));
    assert_eq!(pts[1], at(0.1, 0.1));
}

#[test]
fn a_dragged_point_stays_between_its_neighbours() {
    let mut pts = vec![at(0.0, 0.0), at(0.5, 0.5), at(0.6, 0.8), at(1.0, 1.0)];
    let mem = EditorMemory { dragging: Some(1) };
    assert!(drag_point(&mut pts, &mem, at(0.9, 1.5), number(0.005), number(0.595)));
    assert_eq!(pts[1], at(0.595, 1.0));
    assert!(drag_point(&mut pts, &mem, at(-0.2, -0.1), number(0.005), number(0.595)));
    assert_eq!(pts[1], at(0.005, 0.0));
    let mem = EditorMemory { dragging: Some(0) };
    assert!(drag_point(&mut pts, &mem, at(0.9, 0.3), number(0.0), number(0.0)));
    assert_eq!(pts[0], at(0.0, 0.3));
    assert!(pts.windows(2).all(|w| f32::from_bits(w[0].x.bits) < f32::from_bits(w[1].x.bits)));
}

#[test]
fn a_number_has_a_place_on_the_curve() {
    let pts = vec![at(0.2, 0.0), at(0.5, 0.5), at(0.5, 0.6), at(0.8, 1.0)];
    assert_eq!(place_on(&pts, number(0.2)), CurvePlace::At(0));
    assert_eq!(place_on(&pts, number(0.0)), CurvePlace::At(0));
    assert_eq!(place_on(&pts, number(0.3)), CurvePlace::After(0));
    assert_eq!(place_on(&pts, number(0.5)), CurvePlace::After(2));
    assert_eq!(place_on(&pts, number(0.7)), CurvePlace::After(2));
    assert_eq!(place_on(&pts, number(0.8)), CurvePlace::At(3));
    assert_eq!(place_on(&pts[..1].to_vec(), number(0.9)), CurvePlace::At(0));
    assert_eq!(place_on(&vec![], number(0.9)), CurvePlace::Nowhere);
}

#[test]
fn extremes_are_found() {
    let v = numbers(&[3.0, -1.0, 7.0, -1.0, 7.0]);
    assert_eq!(smallest(&v), 1);
    assert_eq!(largest(&v), 4);
    assert_eq!(nearest_group(&v), 1);
    assert_eq!(most_alike_group(&v), 4);
}

#[test]
fn equal_keys_keep_their_order() {
    assert_eq!(stable_order(&vec![5, -1, 5, 0, -1]), vec![1, 4, 3, 0, 2]);
    assert_eq!(stable_order(&vec![]), Vec::<usize>::new());
}

#[test]
fn photos_with_vectors_are_gathered() {
    let mut photos = vec![photo("/a"), photo("/b"), photo("/c")];
    photos[0].annotations = vec![Annotation::embedding("clip", &numbers(&[1.0, 2.0]))];
    photos[2].annotations = vec![Annotation::embedding("clip", &numbers(&[3.0]))];
    let all = gather(&photos, "clip");
    assert_eq!(all.len(), 2);
    assert_eq!(all[1].index, 2);
    assert_eq!(all[0].vector, numbers(&[1.0, 2.0]));
    let kept = select_consistent(&all, 1).unwrap();
    assert_eq!(kept.len(), 1);
    assert_eq!(kept[0].index, 0);
    assert_eq!(select_consistent(&all, 3).unwrap_err(), ClusterError::TooFew(2));
    assert_eq!(select_consistent(&all, 2).unwrap_err(), ClusterError::TooFewConsistent);
}

#[test]
fn a_photo_is_in_one_group() {
    let mut notes = vec![Annotation::Note { text: "x".to_owned() }];
    assign(&mut notes, "clip", 3);
    assign(&mut notes, "dino", 4);
    assign(&mut notes, "clip", 5);
    assert_eq!(notes.len(), 3);
    assert_eq!(
        notes[2],
        Annotation::ClusterAssignment { namespace: "clip".to_owned(), cluster_id: 5 }
    );
    let mut photos = vec![photo("/a"), photo("/b")];
    let chosen = vec![Indexed { index: 1, vector: vec![] }];
    store_assignments(&mut photos, &chosen, &vec![7], "clip");
    assert!(photos[0].annotations.is_empty());
    assert_eq!(
        photos[1].annotations,
        vec![Annotation::ClusterAssignment { namespace: "clip".to_owned(), cluster_id: 7 }]
    );
    assert_eq!(group_sizes(&vec![0, 2, 2], 3), vec![1, 0, 2]);
}

#[test]
fn the_start_of_the_groups_is_fixed() {
    let point = numbers(&[1.0, 0.0]);
    let bytes: Vec<u8> = [1.0f32, 0.0].iter().flat_map(|x| x.to_le_bytes()).collect();
    assert_eq!(first_centroid(&point, 20), seahash::hash(&bytes) as usize % 20);
    assert_eq!(draw(1), seahash::hash(&[1]));
    assert_eq!(draw(257), seahash::hash(&[1]));
}

#[test]
fn photos_without_a_vector_are_pending() {
    let mut photos = vec![photo("/a"), photo("/b"), photo("/c")];
    photos[1].annotations = vec![Annotation::embedding("clip", &numbers(&[1.0]))];
    assert_eq!(pending(&photos, "clip", false), vec![0, 2]);
    assert_eq!(pending(&photos, "clip", true), vec![0, 1, 2]);
    assert_eq!(pending(&photos, "dino", false), vec![0, 1, 2]);
}

#[test]
fn batches_hold_all_photos_in_order() {
    let all = vec![4, 5, 6, 7, 8];
    assert_eq!(batches(&all, 2), vec![vec![4, 5], vec![6, 7], vec![8]]);
    assert_eq!(batches(&all, 0).len(), 5);
    assert_eq!(batches(&all, 9).concat(), all);
    assert!(batches(&vec![], 3).is_empty());
}

#[test]
fn commands_name_their_photos() {
    assert_eq!(single_command("embed --in %p -v", "/a.jpg"), vec!["embed", "--in", "/a.jpg", "-v"]);
    let paths = vec!["/a".to_owned(), "/b".to_owned()];
    assert_eq!(build_batch_args("embed %p -v", &paths), vec!["embed", "/a", "/b", "-v"]);
    assert_eq!(build_batch_args("embed -v", &paths), vec!["embed", "-v", "/a", "/b"]);
    assert!(build_batch_args("  ", &paths).is_empty());
}

#[test]
fn numbers_are_read_from_output() {
    let bytes: Vec<u8> = [1.0f32, -2.0].iter().flat_map(|x| x.to_le_bytes()).collect();
    assert_eq!(bytes_to_floats(&bytes), Ok(numbers(&[1.0, -2.0])));
    assert_eq!(bytes_to_floats(&vec![]), Err(EmbedError::Empty));
    assert_eq!(bytes_to_floats(&vec![1, 2, 3]), Err(EmbedError::OddLength(3)));
    assert_eq!(parse_floats_from_stdout(&bytes), Ok(numbers(&[1.0, -2.0])));
    assert_eq!(parse_floats_from_stdout(&b"AACAPwAAAMA=\n".to_vec()), Ok(numbers(&[1.0, -2.0])));
    assert_eq!(
        parse_batch_output(&b"AACAPw==\n\n AAAAwA== \n".to_vec(), 2),
        Ok(vec![numbers(&[1.0]), numbers(&[-2.0])])
    );
    assert_eq!(
        parse_batch_output(&b"AACAPw==\n".to_vec(), 2),
        Err(EmbedError::WrongNumberOfLines { expected: 2, got: 1 })
    );
    assert_eq!(parse_batch_output(&vec![0xff, 0xfe], 1), Err(EmbedError::NotText));
    assert!(matches!(parse_batch_output(&b"??\n".to_vec(), 1), Err(EmbedError::BadLine(_))));
}

#[test]
fn a_stored_vector_is_read_back() {
    let mut notes = vec![
        Annotation::embedding("clip", &numbers(&[9.0])),
        Annotation::embedding("dino", &numbers(&[8.0])),
    ];
    store_vector(&mut notes, "clip", &numbers(&[1.0, 2.0]));
    assert_eq!(notes.len(), 2);
    assert_eq!(find_vector(&notes, "clip"), Some(numbers(&[1.0, 2.0])));
    assert_eq!(find_vector(&notes, "dino"), Some(numbers(&[8.0])));
    let mut photos = vec![photo("/a"), photo("/b")];
    store_vectors(&mut photos, &vec![1, 0], &vec![numbers(&[1.0]), numbers(&[2.0])], "clip");
    assert_eq!(find_vector(&photos[0].annotations, "clip"), Some(numbers(&[2.0])));
    assert_eq!(find_vector(&photos[1].annotations, "clip"), Some(numbers(&[1.0])));
}

#[test]
fn bits_are_compared_as_numbers() {
    let xs = [f32::NEG_INFINITY, -3.5, -0.00005, -0.0, 0.0, 0.00005, 0.99995, 1.0, 1.00005, 7.0];
    for a in xs {
        for b in xs {
            assert_eq!(number(a).lt(number(b)), a < b);
            assert_eq!(number(a).equals(number(b)), a == b);
        }
        assert_eq!(number(a).near_zero(), a.abs() < 1e-4);
        assert_eq!(number(a).near_one(), (a - 1.0).abs() < 1e-4);
        assert_eq!(number(a).below_epsilon(), a < 1e-4);
        assert_eq!(number(a).at_least_zero(), a >= 0.0);
    }
    let nan = number(f32::NAN);
    assert!(nan.is_nan());
    assert!(!nan.lt(number(1.0)) && !number(1.0).lt(nan) && !nan.equals(nan));
}

#[test]
fn points_go_to_the_nearest_and_end_with_the_most_alike() {
    let near = |i: usize| if i < 10 { numbers(&[0.0, 2.0]) } else { numbers(&[2.0, 0.0]) };
    let alike = |i: usize| if i < 10 { numbers(&[1.0, 0.0]) } else { numbers(&[0.0, 1.0]) };
    let mut run = GroupRun::new(20, 2);
    run.regroup(&(0..20).map(near).collect());
    assert!(run.groups[..10].iter().all(|&g| g == 0));
    assert!(run.groups[10..].iter().all(|&g| g == 1));
    run.moved(number(0.0));
    assert!(run.settled);
    let groups = run.finish(&(0..20).map(alike).collect());
    assert!(groups[..10].iter().all(|&g| g == 0));
    assert!(groups[10..].iter().all(|&g| g == 1));
}

#[test]
fn the_next_group_starts_where_the_sum_reaches() {
    let sums = numbers(&[0.0, 1.0, 3.0, 6.0]);
    assert_eq!(next_centroid(&sums, number(0.5)), 1);
    assert_eq!(next_centroid(&sums, number(3.0)), 2);
    assert_eq!(next_centroid(&sums, number(100.0)), 3);
}

#[test]
fn grouping_stops_when_nothing_moves_or_in_time() {
    let mut run = GroupRun::new(3, 2);
    assert_eq!(run.groups, vec![0, 0, 0]);
    run.moved(number(0.5));
    assert!(!run.settled && run.round == 1);
    run.moved(number(1e-9));
    assert!(run.settled && run.round == 2);
    let mut run = GroupRun::new(3, 2);
    let mut rounds = 0;
    while !run.settled {
        run.moved(number(1.0));
        rounds += 1;
    }
    assert_eq!(rounds, 300);
}

#[test]
fn progress_is_written_for_each_batch() {
    assert_eq!(skip_line(0, 5, "a.jpg"), "[1/5] a.jpg … skip");
    assert_eq!(batch_line(&vec![2], 1, 5, "c.jpg"), "[3/5] c.jpg … ");
    assert_eq!(batch_line(&vec![2, 3], 2, 5, "c.jpg"), "[3-4/5] batch of 2 … ");
    let mut photos = vec![photo("/a"), photo("/b")];
    assert_eq!(
        settle_batch(&mut photos, &vec![0], &vec![], "clip"),
        Err("expected 1 embeddings, got 0".to_owned())
    );
    assert!(photos[0].annotations.is_empty());
    assert_eq!(
        settle_batch(&mut photos, &vec![1], &vec![numbers(&[1.0, 2.0])], "clip"),
        Ok("ok (2d)".to_owned())
    );
    assert_eq!(find_vector(&photos[1].annotations, "clip"), Some(numbers(&[1.0, 2.0])));
    assert!(settle_batch(
        &mut photos,
        &vec![0, 1],
        &vec![numbers(&[1.0]), numbers(&[2.0])],
        "clip"
    )
    .is_ok());
    assert_eq!(find_vector(&photos[1].annotations, "clip"), Some(numbers(&[2.0])));
}
