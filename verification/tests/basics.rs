//! Tests of texts, paths, stages and configuration.

use harvest::config::{
    list_stages, order_stages, unknown_field_warning, Config, Stage,
};
use harvest::json::{parse_json, Json};
use harvest::path;
use harvest::text;
use harvest::text_map::TextMap;
use harvest::tools::load_test_suite::configured_input_path;

fn texts(v: &[&str]) -> Vec<String> {
    v.iter().map(|s| s.to_string()).collect()
}

#[test]
fn texts_are_cut_into_pieces() {
    assert_eq!(text::pieces("a,,b", ','), ["a", "", "b"]);
    assert_eq!(text::pieces("", ','), [""]);
    assert_eq!(text::lines("a\r\nb\n\nc"), ["a", "b", "", "c"]);
    assert_eq!(text::lines("a\n"), ["a"]);
    assert_eq!(text::words("  a \t b\nc "), ["a", "b", "c"]);
    assert_eq!(text::split_once("k=v=w", '='), Some(("k".to_string(), "v=w".to_string())));
    assert_eq!(text::split_once("k", '='), None);
    assert_eq!(text::join(&texts(&["a", "b"]), "; "), "a; b");
    assert_eq!(text::join(&Vec::new(), "; "), "");
}

#[test]
fn texts_are_trimmed_and_filled() {
    assert_eq!(text::trim(" \u{a0}a b\n"), "a b");
    assert_eq!(text::trim_char("\"\"x\"", '"'), "x");
    assert_eq!(text::trim_end_char("x\n\n", '\n'), "x");
    assert_eq!(text::replace("aaa", "aa", "b"), "ba");
    assert_eq!(text::replace("{X} and {X}", "{X}", "y"), "y and y");
    assert_eq!(text::pad_right("ab", 4), "ab  ");
    assert_eq!(text::pad_left("7", 3), "  7");
    assert_eq!(text::pad_left("long", 3), "long");
    assert_eq!(text::decimal(0), "0");
    assert_eq!(text::decimal(u64::MAX), "18446744073709551615");
}

#[test]
fn texts_are_ordered_and_counted() {
    assert_eq!(text::sorted(&texts(&["b", "a", "b"])), ["a", "b", "b"]);
    assert_eq!(text::distinct_sorted(&texts(&["b", "a", "b"])), ["a", "b"]);
    assert!(text::less("ab", "b") && text::less("a", "ab") && !text::less("a", "a"));
    assert_eq!(text::count("{a{b}", '{'), 2);
    assert!(text::contains("abc", "bc") && !text::contains("abc", "ac"));
    assert!(text::starts_with("abc", "ab") && text::ends_with("abc", "bc"));
    assert_eq!(text::ascii_lower("AbÄ"), "abÄ");
    assert_eq!(text::debug_opt(&Some("a\"b".to_string())), "Some(\"a\\\"b\")");
    assert_eq!(text::debug_opt(&None), "None");
}

#[test]
fn paths_have_parents_and_names() {
    assert_eq!(path::join("/a", "b"), "/a/b");
    assert_eq!(path::join("/a", "/b"), "/b");
    assert_eq!(path::parent("/a/b"), Some("/a".to_string()));
    assert_eq!(path::parent("/"), None);
    assert_eq!(path::parent_or("/"), "/");
    assert_eq!(path::file_name("/a/b/"), Some("b".to_string()));
    assert_eq!(path::file_name("a/.."), None);
    assert_eq!(path::extension("x.json"), Some("json".to_string()));
    assert_eq!(path::extension("x.json.bak"), Some("bak".to_string()));
    assert_eq!(path::extension(".json"), None);
    assert!(path::is_absolute("/a") && !path::is_absolute("a"));
    assert!(path::same_path("a//b/./c", "a/b/c") && !path::same_path("a", "./a"));
    assert_eq!(path::text_of_components(&path::components("/a//b/c"), 3), "/a/b");
}

#[test]
fn maps_keep_their_keys_in_order() {
    let mut map = TextMap::new();
    map.insert("b".to_string(), "1".to_string());
    map.insert("a".to_string(), "2".to_string());
    map.insert("b".to_string(), "3".to_string());
    let pairs: Vec<(&str, &str)> =
        map.entries.iter().map(|(k, v)| (k.as_str(), v.as_str())).collect();
    assert_eq!(pairs, [("a", "2"), ("b", "3")]);
}

#[test]
fn stages_come_in_pipeline_order() {
    let given = vec![Stage::Conform, Stage::Translate, Stage::Verify, Stage::Translate];
    let ordered = order_stages(&given);
    assert_eq!(ordered, [Stage::Translate, Stage::Verify, Stage::Conform]);
    assert_eq!(list_stages(&ordered, "+"), "translate+verify+conform");
    for s in ordered {
        assert_eq!(Stage::parse(s.as_str()), Ok(s));
    }
    assert_eq!(
        Stage::parse("Build"),
        Err("unknown stage: build (expected: translate/t, verify/v, conform/c)".to_string())
    );
}

#[test]
fn unknown_fields_are_told_in_order() {
    let names = texts(&["zeta", "alpha"]);
    assert_eq!(
        unknown_field_warning("tools", &names),
        ["Warning: unknown config key tools.alpha", "Warning: unknown config key tools.zeta"]
    );
    assert_eq!(
        unknown_field_warning("", &texts(&["x"])),
        ["Warning: unknown config key x"]
    );
}

#[test]
fn the_suite_path_is_configured() {
    let mut config = Config::mock();
    assert_eq!(configured_input_path(&config), None);
    let tool = vec![("input_path".to_string(), Json::Str("/bench/lz4".to_string()))];
    config.tools = vec![("load_test_suite".to_string(), Json::Object(tool))];
    assert_eq!(configured_input_path(&config), Some("/bench/lz4".to_string()));
}

#[test]
fn json_is_read_by_key() {
    let doc = parse_json("{\"a\": 3, \"b\": {\"c\": \"x\"}, \"d\": true, \"a\": 4}").unwrap();
    assert_eq!(doc.get_u64("a"), Some(4));
    assert_eq!(doc.get("b").unwrap().get_str("c"), Some("x"));
    assert_eq!(doc.get("d").unwrap().as_bool(), Some(true));
    assert!(doc.get("e").is_none() && doc.get_str("a").is_none());
    assert!(parse_json("{").is_none());
}
