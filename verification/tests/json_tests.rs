use net_tools::json::{answer_or_default, pretty, show_answer, InvalidJson, NO_ANSWER};

#[test]
fn pretty_lays_an_object_out() {
    assert_eq!(pretty("{\"a\":1}"), Ok("{\n  \"a\": 1\n}".to_string()));
}

#[test]
fn pretty_changes_the_text() {
    let text = "{\"gecko_says\":\"(V3) To the Moon!\"}";
    let laid_out = pretty(text).unwrap();
    assert_ne!(laid_out, text);
    assert_eq!(laid_out, "{\n  \"gecko_says\": \"(V3) To the Moon!\"\n}");
}

#[test]
fn pretty_lays_nested_values_out() {
    assert_eq!(
        pretty("{\"bitcoin\":{\"usd\":1.5,\"ok\":true},\"list\":[1,null]}"),
        Ok("{\n  \"bitcoin\": {\n    \"ok\": true,\n    \"usd\": 1.5\n  },\n  \"list\": [\n    1,\n    null\n  ]\n}"
            .to_string())
    );
}

#[test]
fn pretty_refuses_what_is_not_json() {
    assert_eq!(pretty("not json"), Err(InvalidJson));
    assert_eq!(pretty(""), Err(InvalidJson));
    assert_eq!(pretty("{\"a\":"), Err(InvalidJson));
    assert_eq!(pretty("{} trailing"), Err(InvalidJson));
}

#[test]
fn missing_answer_is_an_empty_object() {
    assert_eq!(NO_ANSWER, "{}");
    assert_eq!(answer_or_default(None), "{}");
    assert_eq!(answer_or_default(Some("[1]".to_string())), "[1]");
}

#[test]
fn show_answer_of_a_failed_request() {
    assert_eq!(show_answer(None), Ok("{}".to_string()));
}

#[test]
fn show_answer_of_a_body() {
    assert_eq!(show_answer(Some("[1,2]".to_string())), Ok("[\n  1,\n  2\n]".to_string()));
    assert_eq!(show_answer(Some("<html>".to_string())), Err(InvalidJson));
}
