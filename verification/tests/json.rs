use space::error::ParseError;
use space::json::Json;

fn text(value: &str) -> Json {
    Json::Text(value.to_string())
}

fn object(members: Vec<(&str, Json)>) -> Json {
    Json::Object(members.into_iter().map(|(key, value)| (key.to_string(), value)).collect())
}

#[test]
fn member_finds_the_one_member_of_a_name() {
    let raw = object(vec![("a", text("1")), ("b", Json::Null), ("c", Json::Integer(3))]);
    assert_eq!(raw.member("a"), Ok(Some(&text("1"))));
    assert_eq!(raw.member("b"), Ok(Some(&Json::Null)));
    assert_eq!(raw.member("c"), Ok(Some(&Json::Integer(3))));
    assert_eq!(raw.member("d"), Ok(None));
    assert_eq!(raw.member(""), Ok(None));
    assert_eq!(raw.member("A"), Ok(None));
}

#[test]
fn member_rejects_a_repeated_name() {
    let raw = object(vec![("a", text("1")), ("b", Json::Null), ("a", text("1"))]);
    assert_eq!(raw.member("a"), Err(ParseError::DuplicateField));
    assert_eq!(raw.member("b"), Ok(Some(&Json::Null)));

    let thrice = object(vec![("a", Json::Null), ("a", Json::Null), ("a", Json::Null)]);
    assert_eq!(thrice.member("a"), Err(ParseError::DuplicateField));
    assert_eq!(thrice.required("a"), Err(ParseError::DuplicateField));
    assert_eq!(thrice.optional("a"), Err(ParseError::DuplicateField));
}

#[test]
fn member_needs_an_object() {
    for raw in [
        Json::Null,
        Json::Bool(true),
        Json::Integer(1),
        Json::Real(0),
        text("a"),
        Json::List(vec![object(vec![("a", Json::Null)])]),
    ] {
        assert_eq!(raw.member("a"), Err(ParseError::NotAnObject));
        assert_eq!(raw.required("a"), Err(ParseError::NotAnObject));
        assert_eq!(raw.optional("a"), Err(ParseError::NotAnObject));
        assert_eq!(raw.required_text("a"), Err(ParseError::NotAnObject));
        assert_eq!(raw.optional_text("a"), Err(ParseError::NotAnObject));
    }
}

#[test]
fn required_and_optional_differ_on_what_is_missing() {
    let raw = object(vec![("a", text("1")), ("b", Json::Null)]);
    assert_eq!(raw.required("a"), Ok(&text("1")));
    assert_eq!(raw.required("b"), Ok(&Json::Null));
    assert_eq!(raw.required("c"), Err(ParseError::MissingField));
    assert_eq!(raw.optional("a"), Ok(Some(&text("1"))));
    assert_eq!(raw.optional("b"), Ok(None));
    assert_eq!(raw.optional("c"), Ok(None));
}

#[test]
fn text_members() {
    let raw = object(vec![("a", text("1")), ("b", Json::Null), ("c", Json::Integer(3))]);
    assert_eq!(raw.required_text("a"), Ok("1".to_string()));
    assert_eq!(raw.required_text("b"), Err(ParseError::WrongType));
    assert_eq!(raw.required_text("c"), Err(ParseError::WrongType));
    assert_eq!(raw.required_text("d"), Err(ParseError::MissingField));
    assert_eq!(raw.optional_text("a"), Ok(Some("1".to_string())));
    assert_eq!(raw.optional_text("b"), Ok(None));
    assert_eq!(raw.optional_text("c"), Err(ParseError::WrongType));
    assert_eq!(raw.optional_text("d"), Ok(None));
    assert_eq!(text("").text(), Ok(String::new()));
    assert_eq!(Json::Bool(false).text(), Err(ParseError::WrongType));
}

#[test]
fn size_takes_whole_numbers_from_zero() {
    assert_eq!(Json::Integer(0).size(), Ok(0));
    assert_eq!(Json::Integer(1000).size(), Ok(1000));
    assert_eq!(Json::Integer(usize::MAX as i128).size(), Ok(usize::MAX));
    assert_eq!(Json::Integer(usize::MAX as i128 + 1).size(), Err(ParseError::WrongType));
    assert_eq!(Json::Integer(-1).size(), Err(ParseError::WrongType));
    assert_eq!(Json::Integer(i128::MIN).size(), Err(ParseError::WrongType));
    assert_eq!(Json::Real(0).size(), Err(ParseError::WrongType));
    assert_eq!(text("1").size(), Err(ParseError::WrongType));
}

#[test]
fn items_needs_an_array() {
    let list = Json::List(vec![Json::Null, text("a")]);
    assert_eq!(list.items(), Ok(&vec![Json::Null, text("a")]));
    assert_eq!(Json::List(vec![]).items(), Ok(&vec![]));
    assert_eq!(object(vec![]).items(), Err(ParseError::WrongType));
    assert_eq!(Json::Null.items(), Err(ParseError::WrongType));
}

#[test]
fn is_null_only_for_null() {
    assert!(Json::Null.is_null());
    assert!(!Json::Bool(false).is_null());
    assert!(!Json::Integer(0).is_null());
    assert!(!text("").is_null());
    assert!(!Json::List(vec![]).is_null());
    assert!(!object(vec![]).is_null());
}

#[test]
fn clone_copies_the_whole_document() {
    let raw = object(vec![
        ("a", Json::List(vec![Json::Null, Json::Bool(true), Json::Integer(-7), Json::Real(9)])),
        ("b", object(vec![("c", text("d")), ("c", object(vec![]))])),
        ("", Json::List(vec![])),
    ]);
    assert_eq!(raw.clone(), raw);
    assert_eq!(Json::Null.clone(), Json::Null);
    assert_eq!(text("x").clone(), text("x"));
}
