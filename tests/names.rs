use telekinesis::{parse_list_string, sanitize_name_list};

#[test]
fn sanitize_lowercases_and_trims() {
    let r = sanitize_name_list(&[String::from("  VIB1 "), String::from("Boss\t")]);
    assert_eq!(r, vec![String::from("vib1"), String::from("boss")]);
}

#[test]
fn sanitize_empty_list() {
    assert!(sanitize_name_list(&[]).is_empty());
}

#[test]
fn parse_list_drops_empty_pieces() {
    let r = parse_list_string("Vaginal, Anal,,Nipple ");
    assert_eq!(
        r,
        vec![String::from("vaginal"), String::from("anal"), String::from("nipple")]
    );
}

#[test]
fn parse_list_keeps_blank_piece_as_empty_name() {
    let r = parse_list_string("a, ,b,");
    assert_eq!(r, vec![String::from("a"), String::from(""), String::from("b")]);
}

#[test]
fn parse_list_of_nothing() {
    assert!(parse_list_string("").is_empty());
}
