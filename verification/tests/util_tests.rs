use wik::util::{hex_to_rgb, remainder};

#[test]
fn remainder_of_positive_values() {
    assert_eq!(remainder(7, 3), 1);
    assert_eq!(remainder(9, 3), 0);
    assert_eq!(remainder(2, 5), 2);
}

#[test]
fn remainder_of_negative_dividend_is_non_negative() {
    assert_eq!(remainder(-1, 5), 4);
    assert_eq!(remainder(-5, 5), 0);
    assert_eq!(remainder(-7, 3), 2);
}

#[test]
fn hex_to_rgb_parses_six_digits() {
    assert_eq!(hex_to_rgb("#ff8000"), Ok((255, 128, 0)));
    assert_eq!(hex_to_rgb("2a3138"), Ok((42, 49, 56)));
    assert_eq!(hex_to_rgb("#FFFFFF"), Ok((255, 255, 255)));
}

#[test]
fn hex_to_rgb_strips_all_leading_markers() {
    assert_eq!(hex_to_rgb("###000000"), Ok((0, 0, 0)));
}

#[test]
fn hex_to_rgb_rejects_wrong_length() {
    assert_eq!(
        hex_to_rgb("#fff"),
        Err(String::from("Hex code must be 6 characters long"))
    );
    assert_eq!(
        hex_to_rgb("#1234567"),
        Err(String::from("Hex code must be 6 characters long"))
    );
}

#[test]
fn hex_to_rgb_names_the_failing_component() {
    assert_eq!(hex_to_rgb("gg0000"), Err(String::from("Invalid red component")));
    assert_eq!(hex_to_rgb("00xx00"), Err(String::from("Invalid green component")));
    assert_eq!(hex_to_rgb("0000zz"), Err(String::from("Invalid blue component")));
}

#[test]
fn hex_to_rgb_accepts_plus_prefixed_component() {
    // Integer parsing accepts one leading plus sign per component.
    assert_eq!(hex_to_rgb("+f00+1"), Ok((15, 0, 1)));
}
