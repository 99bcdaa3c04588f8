use mcp_irc_client::json::{parse_json, Json};

fn again(text: &str) -> String {
    parse_json(text).unwrap().render()
}

#[test]
fn values_are_read_and_written() {
    assert_eq!(
        again("{ \"b\" : -1, \"a\" : [true, null, \"x\\ny\", 1.5, 18446744073709551615] }"),
        "{\"a\":[true,null,\"x\\ny\",1.5,18446744073709551615],\"b\":-1}"
    );
    assert_eq!(again("\"\u{e9}\""), "\"\u{e9}\"");
    assert_eq!(again("[]"), "[]");
    assert_eq!(again("{}"), "{}");
    assert_eq!(again("false"), "false");
}

#[test]
fn what_is_written_is_what_the_crate_writes() {
    let text = "{\"z\":{\"k\":[0.1,1e300,-0.0]},\"id\":\"a\\u0007\"}";
    let value: serde_json::Value = serde_json::from_str(text).unwrap();
    assert_eq!(again(text), value.to_string());
}

#[test]
fn a_written_value_stands_on_one_line() {
    let j = Json::object().with("a\nb", Json::text("c\r\nd"));
    assert!(!j.render().contains('\n'));
    assert_eq!(j.render(), "{\"a\\nb\":\"c\\r\\nd\"}");
}

#[test]
fn what_is_not_json_is_not_read() {
    assert!(parse_json("").is_none());
    assert!(parse_json("{").is_none());
    assert!(parse_json("{} x").is_none());
    assert!(parse_json("nul").is_none());
}

#[test]
fn the_later_of_two_members_counts() {
    let read = parse_json("{\"a\":1,\"a\":2}").unwrap();
    assert_eq!(read.get("a").unwrap().render(), "2");
    let built = Json::object().with("a", Json::integer(1)).with("a", Json::integer(2));
    assert_eq!(built.get("a").unwrap().render(), "2");
    assert_eq!(built.render(), "{\"a\":2}");
    assert_eq!(built.copy().render(), "{\"a\":2}");
}

#[test]
fn members_of_objects_only() {
    let j = parse_json("{\"a\":{\"b\":\"c\"},\"n\":7}").unwrap();
    assert_eq!(j.get("a").unwrap().get("b").unwrap().as_str(), Some("c"));
    assert!(j.get("x").is_none());
    assert!(j.get("n").unwrap().as_str().is_none());
    assert_eq!(j.get("n").unwrap().to_number().unwrap().as_i64(), Some(7));
    assert!(j.to_number().is_none());
    assert!(parse_json("[1]").unwrap().get("a").is_none());
    assert!(parse_json("\"a\"").unwrap().get("a").is_none());
    assert_eq!(Json::Null.with("a", Json::Null).render(), "null");
}

#[test]
fn copies_are_alike() {
    let text = "{\"a\":[1,{\"b\":null}],\"c\":\"d\",\"e\":true}";
    assert_eq!(parse_json(text).unwrap().copy().render(), text);
}

#[test]
fn built_arrays_and_integers() {
    let j = Json::array(vec![Json::integer(-32601), Json::Bool(true), Json::text("x")]);
    assert_eq!(j.render(), "[-32601,true,\"x\"]");
}
