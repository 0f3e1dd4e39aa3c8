use nulang::json::pretty_json;

/// Members in ascending order, so that a parsed document keeps its order.
fn same_as_serializer(compact: &str) {
    let value: serde_json::Value = serde_json::from_str(compact).expect("a document");
    assert_eq!(serde_json::to_string(&value).expect("compact"), compact);
    assert_eq!(
        pretty_json(compact),
        serde_json::to_string_pretty(&value).expect("pretty")
    );
}

#[test]
fn documents_are_laid_out_like_the_serializer_does() {
    same_as_serializer("null");
    same_as_serializer("{}");
    same_as_serializer("[]");
    same_as_serializer("[1,2,[],{},[3]]");
    same_as_serializer("{\"a\":1,\"b\":[true,false],\"c\":{\"d\":{}}}");
    same_as_serializer("{\"a\":\"x, y: {[]}\",\"b\":\"\\\"\\\\\",\"c\":\"\\\\\"}");
    same_as_serializer("[\"\",\"grüß\",{\"k\":[[[]]]}]");
}

#[test]
fn each_member_stands_on_a_line() {
    assert_eq!(
        pretty_json("{\"a\":[1,{\"b\":\"c,d\"}],\"e\":[]}"),
        "{\n  \"a\": [\n    1,\n    {\n      \"b\": \"c,d\"\n    }\n  ],\n  \"e\": []\n}"
    );
}
