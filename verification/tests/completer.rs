use vai::completer::{parse_duck, parse_google, Item, Json};

#[test]
fn completer_test_google_parsing() {
    let response = String::from(
        r#"["bla",["bladet","blake shelton","black","black panther","blake lively","black mirror","blank","bladkongen","blade runner","blacklist"]]"#,
    );
    let _ = parse_google(response);
}

#[test]
fn completer_test_duck_parsing() {
    let response = String::from(
        r#"[{"phrase":"gopher football"},{"phrase":"gopher"},{"phrase":"gophersports.com"},{"phrase":"gopher football schedule"},{"phrase":"gopher sports"},{"phrase":"gopher 5 winning numbers"},{"phrase":"gopher football score"},{"phrase":"gopher snake"},{"phrase":"gopher hockey"},{"phrase":"gopher volleyball"}]"#,
    );
    let _ = parse_duck(response);
}

#[test]
fn parsing_hands_the_answer_on() {
    assert_eq!(parse_google(String::from("[\"a\"]")), Ok(vec![String::from("[\"a\"]")]));
    assert_eq!(parse_duck(String::new()), Ok(vec![String::new()]));
}

#[test]
fn answers_compare_by_their_elements() {
    let answer = Json(vec![Item::Query(String::from("q")), Item::Suggestions(vec![String::from("s")])]);
    assert_eq!(answer, Json(vec![Item::Query(String::from("q")), Item::Suggestions(vec![String::from("s")])]));
    assert_ne!(answer, Json(vec![Item::Query(String::from("q"))]));
}
