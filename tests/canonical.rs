use provenance::json::{canonicalize, Json, JsonNumber};

fn s(x: &str) -> Json {
    Json::Str(x.to_string())
}

fn n(x: u64) -> Json {
    Json::Number(JsonNumber::PosInt(x))
}

fn obj(members: Vec<(&str, Json)>) -> Json {
    Json::Object(members.into_iter().map(|(k, v)| (k.to_string(), v)).collect())
}

fn from_value(v: &serde_json::Value) -> Json {
    match v {
        serde_json::Value::Null => Json::Null,
        serde_json::Value::Bool(b) => Json::Bool(*b),
        serde_json::Value::Number(x) => {
            if let Some(u) = x.as_u64() {
                Json::Number(JsonNumber::PosInt(u))
            } else if let Some(i) = x.as_i64() {
                Json::Number(JsonNumber::NegInt(i))
            } else {
                Json::Number(JsonNumber::Float(x.to_string()))
            }
        }
        serde_json::Value::String(t) => Json::Str(t.clone()),
        serde_json::Value::Array(a) => Json::Array(a.iter().map(from_value).collect()),
        serde_json::Value::Object(m) => {
            Json::Object(m.iter().map(|(k, x)| (k.clone(), from_value(x))).collect())
        }
    }
}

fn text(j: &Json) -> String {
    String::from_utf8(canonicalize(j)).unwrap()
}

fn sample(reordered: bool) -> Json {
    let artifact = if reordered {
        obj(vec![
            ("title", s("Tests")),
            ("sha256", s("00...ff")),
            ("id", s("tests-summary")),
        ])
    } else {
        obj(vec![
            ("id", s("tests-summary")),
            ("sha256", s("00...ff")),
            ("title", s("Tests")),
        ])
    };
    let run = obj(vec![("attempt", n(1)), ("id", n(123))]);
    if reordered {
        obj(vec![("workflow_run", run), ("artifacts", Json::Array(vec![artifact])), ("version", n(1))])
    } else {
        obj(vec![("version", n(1)), ("artifacts", Json::Array(vec![artifact])), ("workflow_run", run)])
    }
}

#[test]
fn canonicalization_sorts_keys_recursively() {
    let input = obj(vec![
        ("commit", s("8c6a9f4e")),
        ("version", n(1)),
        ("repo", s("acme/provenance")),
        ("front_page", obj(vec![("markup", s("ci/front_page.pml")), ("title", s("QA Evidence"))])),
        (
            "workflow_run",
            obj(vec![("attempt", n(1)), ("url", s("https://github.com/...")), ("id", n(123))]),
        ),
        (
            "artifacts",
            Json::Array(vec![obj(vec![
                ("sha256", s("00...ff")),
                ("id", s("tests-summary")),
                ("title", s("Tests")),
                ("render", s("summary:test")),
                ("media_type", s("application/json")),
                ("path", s("ci/tests/summary.json")),
            ])]),
        ),
    ]);
    let canon_text = text(&input);
    let expected = "{\"artifacts\":[{\"id\":\"tests-summary\",\"media_type\":\"application/json\",\"path\":\"ci/tests/summary.json\",\"render\":\"summary:test\",\"sha256\":\"00...ff\",\"title\":\"Tests\"}],\"commit\":\"8c6a9f4e\",\"front_page\":{\"markup\":\"ci/front_page.pml\",\"title\":\"QA Evidence\"},\"repo\":\"acme/provenance\",\"version\":1,\"workflow_run\":{\"attempt\":1,\"id\":123,\"url\":\"https://github.com/...\"}}";
    assert_eq!(canon_text, expected);
}

#[test]
fn canonicalization_is_idempotent_through_parsing() {
    let x = sample(true);
    let a = canonicalize(&x);
    let reparsed: serde_json::Value = serde_json::from_slice(&a).unwrap();
    let c = canonicalize(&from_value(&reparsed));
    assert_eq!(a, c);
    assert_eq!(a, canonicalize(&x));
}

#[test]
fn key_order_does_not_change_canonical_bytes() {
    assert_eq!(canonicalize(&sample(true)), canonicalize(&sample(false)));
}

#[test]
fn canonical_form_matches_compact_serde_output() {
    let doc = "{\"z\":[3,-7,1.5,true,null,\"q\\\"\\\\\\n\\u0001\"],\"a\":{\"y\":\"\u{e9}\",\"b\":-9223372036854775808}}";
    let v: serde_json::Value = serde_json::from_str(doc).unwrap();
    let expected = serde_json::to_string(&v).unwrap();
    assert_eq!(text(&from_value(&v)), expected);
    assert_eq!(
        text(&from_value(&v)),
        "{\"a\":{\"b\":-9223372036854775808,\"y\":\"\u{e9}\"},\"z\":[3,-7,1.5,true,null,\"q\\\"\\\\\\n\\u0001\"]}"
    );
}

#[test]
fn last_of_equal_keys_wins() {
    let j = obj(vec![("k", n(1)), ("a", n(2)), ("k", n(3))]);
    assert_eq!(text(&j), "{\"a\":2,\"k\":3}");
}

#[test]
fn scalars_and_empty_containers() {
    assert_eq!(text(&Json::Null), "null");
    assert_eq!(text(&Json::Bool(false)), "false");
    assert_eq!(text(&Json::Number(JsonNumber::NegInt(-42))), "-42");
    assert_eq!(text(&Json::Number(JsonNumber::PosInt(0))), "0");
    assert_eq!(text(&Json::Number(JsonNumber::PosInt(u64::MAX))), "18446744073709551615");
    assert_eq!(text(&Json::Array(vec![])), "[]");
    assert_eq!(text(&Json::Object(vec![])), "{}");
    assert_eq!(text(&s("tab\there\r\u{8}\u{c}")), "\"tab\\there\\r\\b\\f\"");
}

#[test]
fn keys_sort_by_code_point() {
    let j = obj(vec![("b", n(1)), ("B", n(2)), ("\u{e9}", n(3)), ("ab", n(4)), ("a", n(5))]);
    assert_eq!(text(&j), "{\"B\":2,\"a\":5,\"ab\":4,\"b\":1,\"\u{e9}\":3}");
}
