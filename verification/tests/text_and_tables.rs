use std::collections::BTreeMap;

use routectl_router::json::colliding_paths;
use routectl_router::json::deep_merge_value;
use routectl_router::json::Json;
use routectl_router::json::JsonObject;
use routectl_router::names::NameTable;
use routectl_router::text::chars_of;
use routectl_router::text::copy_list;
use routectl_router::text::eq_ignore_ascii_case;
use routectl_router::text::fold_char;
use routectl_router::text::holds;
use routectl_router::text::is_whitespace;
use routectl_router::text::place;
use routectl_router::text::push_pieces;
use routectl_router::text::push_token;
use routectl_router::text::same_text;
use routectl_router::text::split;
use routectl_router::text::split_all;
use routectl_router::text::trim;
use routectl_router::text::Place;

const SAMPLES: [&str; 12] = [
    "",
    " ",
    "a",
    "A",
    "ab",
    "aB",
    "\u{a0}x\u{3000}",
    "\u{200b}x",
    "\u{e9}t\u{e9}",
    "\u{1f600}",
    "\u{ffff}",
    "x,y",
];

fn object(members: Vec<(&str, Json)>) -> Json {
    let mut out = JsonObject::new();
    for (key, value) in members {
        out.insert(key.to_string(), value);
    }
    Json::object(out)
}

fn number(n: &str) -> Json {
    Json::Number(n.to_string())
}

/// A value as compact JSON with its members in the order of their keys.
fn written(value: &Json) -> String {
    match value {
        Json::Null => "null".to_string(),
        Json::Bool(b) => b.to_string(),
        Json::Number(n) => n.clone(),
        Json::Text(t) => format!("{t:?}"),
        Json::Array(items) => {
            let items: Vec<String> = items.iter().map(|i| written(i)).collect();
            format!("[{}]", items.join(","))
        }
        Json::Object(members) => {
            let mut keys = members.keys();
            keys.sort();
            let members: Vec<String> = keys
                .iter()
                .map(|k| format!("{k}:{}", written(members.get(k).expect("a member"))))
                .collect();
            format!("{{{}}}", members.join(","))
        }
    }
}

#[test]
fn white_space_is_that_of_char() {
    for code in 0..=0x10ffffu32 {
        if let Some(c) = char::from_u32(code) {
            assert_eq!(is_whitespace(c), c.is_whitespace(), "{code:x}");
            assert_eq!(fold_char(c), c.to_ascii_lowercase(), "{code:x}");
        }
    }
}

#[test]
fn texts_are_trimmed_split_and_told_apart_as_by_str() {
    for a in SAMPLES {
        assert_eq!(chars_of(a), a.chars().collect::<Vec<char>>());
        assert_eq!(trim(a), a.trim());
        assert_eq!(split(a, ','), a.split(',').collect::<Vec<&str>>());
        for b in SAMPLES {
            assert_eq!(same_text(a, b), a == b);
            assert_eq!(eq_ignore_ascii_case(a, b), a.eq_ignore_ascii_case(b));
            let expected = match a.cmp(b) {
                std::cmp::Ordering::Less => Place::Before,
                std::cmp::Ordering::Equal => Place::Same,
                std::cmp::Ordering::Greater => Place::After,
            };
            assert_eq!(place(a, b), expected, "{a:?} against {b:?}");
        }
    }
    assert_eq!(split(",a,,b,", ','), vec!["", "a", "", "b", ""]);
    let entries = vec!["a,b".to_string(), "".to_string(), "c".to_string()];
    assert_eq!(split_all(&entries, ','), vec!["a", "b", "", "c"]);
    assert!(split_all(&Vec::new(), ',').is_empty());
    assert_eq!(trim(" \t a b\u{2003}\n"), "a b");
}

#[test]
fn tokens_are_kept_once_in_the_order_of_their_first_mention() {
    let mut list = vec!["x".to_string()];
    for token in ["", "y", "x", "z", "y"] {
        push_token(&mut list, token);
    }
    assert_eq!(list, vec!["x", "y", "z"]);
    push_pieces(&mut list, &split(" z , w ,, x,W", ','));
    assert_eq!(list, vec!["x", "y", "z", "w", "W"]);
    assert!(holds(&list, "w"));
    assert!(!holds(&list, " w"));
    assert_eq!(copy_list(&list), list);
}

#[test]
fn a_table_keeps_its_names_in_order_and_each_once() {
    let mut table = NameTable::new();
    let mut model = BTreeMap::new();
    assert!(table.is_empty());
    for (i, name) in ["m", "z", "a", "m", "\u{1f600}", "\u{ffff}", "", "zz"].iter().enumerate() {
        table.insert(name.to_string(), i);
        model.insert(name.to_string(), i);
    }
    table.insert_if_absent("a".to_string(), 99);
    table.insert_if_absent("new".to_string(), 100);
    model.insert("new".to_string(), 100);

    assert_eq!(table.len(), model.len());
    for (at, (name, value)) in model.iter().enumerate() {
        assert_eq!(table.name_at(at), name);
        assert_eq!(table.value_at(at), value);
        assert_eq!(table.get(name), Some(value));
    }
    assert!(table.contains("zz"));
    assert!(!table.contains("b"));
    assert_eq!(table.get("b"), None);
}

#[test]
fn objects_merge_by_key_and_anything_else_is_replaced() {
    let mut base = object(vec![
        ("a", number("1")),
        ("b", object(vec![("c", number("2")), ("d", Json::Null)])),
        ("c", Json::Array(vec![number("1"), number("2")])),
    ]);
    let layer = object(vec![
        ("b", object(vec![("c", Json::Text("x".to_string())), ("a", Json::Bool(true))])),
        ("c", Json::Array(vec![number("9")])),
        ("d", object(vec![])),
    ]);

    deep_merge_value(&mut base, &layer);

    assert_eq!(
        written(&base),
        r#"{a:1,b:{a:true,c:"x",d:null},c:[9],d:{}}"#,
    );
    let once = written(&base);
    deep_merge_value(&mut base, &layer);
    assert_eq!(written(&base), once, "laying the same over again changes nothing");
    let same = base.copy();
    deep_merge_value(&mut base, &same);
    assert_eq!(written(&base), once, "nor does laying a value over itself");
    deep_merge_value(&mut base, &object(vec![]));
    assert_eq!(written(&base), once, "nor an empty object");

    deep_merge_value(&mut base, &number("3"));
    assert_eq!(written(&base), "3");
    deep_merge_value(&mut base, &layer);
    assert_eq!(written(&base), written(&layer));
    assert!(layer.is_object());
    assert!(!layer.is_empty_object());
    assert!(object(vec![]).is_empty_object());
    assert!(!Json::Null.is_object());
}

#[test]
fn collisions_are_listed_by_path_in_order() {
    let below = object(vec![
        ("z", number("1")),
        ("b", object(vec![("y", number("2")), ("x", Json::Null), ("only", number("3"))])),
        ("a", object(vec![("k", number("4"))])),
        ("kept", number("5")),
    ]);
    let layer = object(vec![
        ("z", number("1")),
        ("new", number("6")),
        ("b", object(vec![("y", object(vec![])), ("x", number("7")), ("fresh", Json::Null)])),
        ("a", Json::Text("over".to_string())),
    ]);

    assert_eq!(
        colliding_paths(&below, &layer),
        vec![vec!["a"], vec!["b", "x"], vec!["b", "y"], vec!["z"]],
    );
    assert!(colliding_paths(&below, &number("1")).is_empty());
    assert!(colliding_paths(&Json::Null, &layer).is_empty());
}
