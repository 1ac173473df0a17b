use galerie_montsouris::template::{expand_template, expand_tilde, ratio, script_output};

#[test]
fn expand_template_substitutions() {
    let path = "/photos/img.jpg";
    assert_eq!(expand_template("%p", path, 1920, 1080), "/photos/img.jpg");
    assert_eq!(expand_template("%d1", path, 1920, 1080), "1920");
    assert_eq!(expand_template("%d2", path, 1920, 1080), "1080");
    assert_eq!(
        expand_template("--width=%d1 --height=%d2", path, 800, 600),
        "--width=800 --height=600"
    );
    assert_eq!(expand_template("%%", path, 0, 0), "%");
}

#[test]
fn expand_template_aspect_ratio() {
    let result = expand_template("%r", "/x.jpg", 1920, 1080);
    let ratio: f64 = result.parse().unwrap();
    assert!((ratio - 16.0 / 9.0).abs() < 1e-3);
    assert_eq!(result, "1.7778");
}

#[test]
fn expand_template_zero_height() {
    let result = expand_template("%r", "/x.jpg", 100, 0);
    assert_eq!(result, "0.0000");
}

#[test]
fn other_marks_stay() {
    assert_eq!(expand_template("100%", "/x", 1, 2), "100%");
    assert_eq!(expand_template("%x %d", "/x", 1, 2), "%x %d");
    assert_eq!(expand_template("plain text", "/x", 1, 2), "plain text");
}

#[test]
fn ratio_is_rounded_as_floats_are_written() {
    for w in [1u32, 2, 3, 7, 100, 640, 1920, 4000, 65535, 4294967295] {
        for h in [1u32, 3, 7, 11, 480, 1080, 3000, 16384, 4294967295] {
            assert_eq!(ratio(w, h), format!("{:.4}", w as f64 / h as f64), "{} {}", w, h);
        }
    }
}

#[test]
fn tilde_stands_for_the_home_directory() {
    assert_eq!(expand_tilde("~/bin/x.sh"), Some("bin/x.sh".to_owned()));
    assert_eq!(expand_tilde("/bin/x.sh"), None);
}

#[test]
fn a_script_answers_on_either_stream() {
    assert_eq!(script_output("out\n", ""), "out");
    assert_eq!(script_output(" ", "bad\n"), "stderr: bad");
    assert_eq!(script_output("", "\n"), "(no output)");
    assert_eq!(script_output("out", "bad"), "out");
}
