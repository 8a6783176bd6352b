use ironforge_git::api::packages::{
    helm_metadata_of, parse_helm_metadata, parse_nuget_metadata, parse_rubygems_deps,
    parse_rubygems_info,
};
use ironforge_git::json::{parse_json, str_member, JsonValue};

fn s(text: &str) -> String {
    text.to_string()
}

#[test]
fn json_documents_are_read_member_by_member() {
    let doc = parse_json(r#"{"name":"x","n":3,"list":[1,"a"],"nested":{"k":true}}"#).expect("json");
    assert_eq!(str_member(&doc, "name"), Some(s("x")));
    assert_eq!(str_member(&doc, "n"), None);
    assert_eq!(str_member(&doc, "missing"), None);
    assert!(parse_json("{not json").is_none());
    assert!(matches!(parse_json("null"), Some(JsonValue::Null)));
    assert!(matches!(parse_json("[true]"), Some(JsonValue::Array(items)) if matches!(items.as_slice(), [JsonValue::Bool(true)])));
}

#[test]
fn helm_metadata_fields() {
    assert_eq!(
        parse_helm_metadata(Some(r#"{"appVersion":"1.2","apiVersion":"v2","keywords":["a",3,"b"]}"#)),
        (Some(s("1.2")), Some(s("v2")), vec![s("a"), s("b")])
    );
    assert_eq!(parse_helm_metadata(None), (None, None, vec![]));
    assert_eq!(parse_helm_metadata(Some("not json")), (None, None, vec![]));
    assert_eq!(
        parse_helm_metadata(Some(r#"{"keywords":"web"}"#)),
        (None, None, vec![])
    );
    let doc = Some(JsonValue::Object(vec![
        (s("appVersion"), JsonValue::Str(s("9"))),
        (s("keywords"), JsonValue::Array(vec![JsonValue::Str(s("k"))])),
    ]));
    assert_eq!(helm_metadata_of(&doc), (Some(s("9")), None, vec![s("k")]));
}

#[test]
fn nuget_metadata_fields() {
    assert_eq!(
        parse_nuget_metadata(Some(
            r#"{"description":"d","homepage":"h","license":"MIT","tags":"x y"}"#
        )),
        (Some(s("d")), Some(s("h")), Some(s("MIT")), Some(s("x y")))
    );
    assert_eq!(
        parse_nuget_metadata(Some(
            r#"{"projectUrl":"p","homepage":"h","licenseUrl":"u","license":"MIT"}"#
        )),
        (None, Some(s("p")), Some(s("u")), None)
    );
    assert_eq!(parse_nuget_metadata(None), (None, None, None, None));
}

#[test]
fn rubygems_dependencies_and_info() {
    let deps = parse_rubygems_deps(Some(
        r#"{"dependencies":[{"name":"rack","requirements":"~> 2.0"},{"name":"json"},{"requirements":"x"}]}"#,
    ));
    let deps: Vec<(String, String)> = deps.into_iter().map(|d| (d.name, d.requirements)).collect();
    assert_eq!(deps, vec![(s("rack"), s("~> 2.0")), (s("json"), s(">= 0"))]);
    assert!(parse_rubygems_deps(Some(r#"{"dependencies":{}}"#)).is_empty());
    assert!(parse_rubygems_deps(None).is_empty());

    assert_eq!(
        parse_rubygems_info(Some(
            r#"{"summary":"s","description":"d","homepage":"h","licenses":["MIT","Apache-2.0"],"license":"GPL"}"#
        )),
        (Some(s("s")), Some(s("d")), Some(s("h")), Some(s("MIT, Apache-2.0")))
    );
    assert_eq!(
        parse_rubygems_info(Some(r#"{"license":"GPL"}"#)),
        (None, None, None, Some(s("GPL")))
    );
    assert_eq!(
        parse_rubygems_info(Some(r#"{"licenses":[]}"#)),
        (None, None, None, Some(s("")))
    );
}
