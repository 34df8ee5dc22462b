use madparts::element::Text;
use madparts::geom::{Bound, nm_to_string};
use madparts::layers::Layer;

#[test]
fn millimetre_text_is_canonical() {
    assert_eq!(nm_to_string(0), "0");
    assert_eq!(nm_to_string(100_000), "0.1");
    assert_eq!(nm_to_string(50_000), "0.05");
    assert_eq!(nm_to_string(-2_000_000), "-2");
    assert_eq!(nm_to_string(1_500_000), "1.5");
    assert_eq!(nm_to_string(1), "0.000001");
    assert_eq!(nm_to_string(-1), "-0.000001");
    assert_eq!(nm_to_string(1_000_000_000_000), "1000000");
    assert_eq!(nm_to_string(123_456_789), "123.456789");
}

#[test]
fn combine_takes_the_smallest_covering_bound() {
    let a = Bound { min_x: -1, min_y: 0, max_x: 2, max_y: 3 };
    let b = Bound { min_x: 0, min_y: -2, max_x: 1, max_y: 5 };
    assert_eq!(a.combine(&b), Bound { min_x: -1, min_y: -2, max_x: 2, max_y: 5 });
}

#[test]
fn the_default_bound_sits_at_the_origin() {
    assert_eq!(Bound::default(), Bound { min_x: 0, min_y: 0, max_x: 0, max_y: 0 });
}

fn text(txt: &str, shorten: Option<bool>) -> Text {
    Text {
        x: 0,
        y: 0,
        dy: 1_000_000,
        txt: String::from(txt),
        thickness: 150_000,
        shorten,
        layer: Layer::FFab,
    }
}

#[test]
fn shortening_keeps_four_code_points_and_marks_the_cut() {
    assert_eq!(text("TSSOP14", Some(true)).shortened_text(), "TSSO…");
    assert_eq!(text("AB", Some(true)).shortened_text(), "AB…");
}

#[test]
fn a_shorten_flag_that_is_off_leaves_the_text_unchanged() {
    assert_eq!(text("TSSOP14", None).shortened_text(), "TSSOP14");
    assert_eq!(text("TSSOP14", Some(false)).shortened_text(), "TSSOP14");
}
