use unicom::static_files::{content_type_for, static_choice, StaticChoice};

#[test]
fn content_types_by_ending() {
    assert_eq!(content_type_for("assets/Admin-DzhYJw7X.css"), "text/css");
    assert_eq!(content_type_for("assets/index-CGE6agbe.js"), "application/javascript");
    assert_eq!(content_type_for("index.html"), "text/html; charset=utf-8");
    assert_eq!(content_type_for("favicon.ico"), "application/octet-stream");
    assert_eq!(content_type_for("css"), "application/octet-stream");
}

#[test]
fn static_choice_falls_back_to_index() {
    assert_eq!(static_choice(true, false), StaticChoice::Requested);
    assert_eq!(static_choice(false, true), StaticChoice::Index);
    assert_eq!(static_choice(false, false), StaticChoice::NotFound);
}
