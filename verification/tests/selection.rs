use scheduler_core::accumulator::{DynamicItemMapping, GenerateItemsAction};
use scheduler_core::config::{ItemSelectConfig, SelectionStrategy, TieBreak};
use scheduler_core::dynamic_items::{
    dynamic_item_order_numbers, extract_dynamic_items, extract_dynamic_items_from_document, extract_field, parse_path,
    GenerateItemsError, JsonValue,
};
use scheduler_core::segment::ItemEvalState;
use scheduler_core::selection::{break_tie, execute_item_select, ItemSelectError};
use scheduler_core::strmap::StrMap;

fn make_item(id: &str, vars: Vec<(&str, &str)>) -> ItemEvalState {
    let mut pipeline_vars: StrMap<String> = StrMap::new();
    for (k, v) in vars {
        pipeline_vars.insert(k.to_string(), v.to_string());
    }
    ItemEvalState { item_id: id.to_string(), pipeline_vars }
}

fn make_config(strategy: SelectionStrategy) -> ItemSelectConfig {
    ItemSelectConfig {
        strategy,
        metric_var: Some("score".to_string()),
        store_result: None,
        tie_break: TieBreak::First,
    }
}

// The strategies rank by floating-point metrics outside the library; each
// case hands the library the best-ranked candidates that ranking yields.

#[test]
fn test_select_min() {
    let items = vec![
        make_item("a", vec![("score", "5.0")]),
        make_item("b", vec![("score", "2.0")]),
        make_item("c", vec![("score", "8.0")]),
    ];
    let config = make_config(SelectionStrategy::Min);
    let result = execute_item_select(&items, &config, &Ok(vec![1])).ok().unwrap();
    assert_eq!(result.winner_id, "b");
    assert_eq!(result.eliminated_ids.len(), 2);
}

#[test]
fn test_select_max() {
    let items = vec![
        make_item("a", vec![("score", "5.0")]),
        make_item("b", vec![("score", "2.0")]),
        make_item("c", vec![("score", "8.0")]),
    ];
    let config = make_config(SelectionStrategy::Max);
    let result = execute_item_select(&items, &config, &Ok(vec![2])).ok().unwrap();
    assert_eq!(result.winner_id, "c");
}

#[test]
fn test_select_threshold() {
    let items = vec![
        make_item("a", vec![("score", "3.0")]),
        make_item("b", vec![("score", "7.0")]),
        make_item("c", vec![("score", "9.0")]),
    ];
    let config = make_config(SelectionStrategy::Threshold);
    // b and c pass the threshold; the first wins.
    let result = execute_item_select(&items, &config, &Ok(vec![1, 2])).ok().unwrap();
    assert_eq!(result.winner_id, "b");
}

#[test]
fn test_single_item() {
    let items = vec![make_item("only", vec![("score", "5.0")])];
    let config = make_config(SelectionStrategy::Min);
    let result = execute_item_select(&items, &config, &Err("unused".to_string())).ok().unwrap();
    assert_eq!(result.winner_id, "only");
    assert!(result.eliminated_ids.is_empty());
}

#[test]
fn test_empty_items_fails() {
    let items: Vec<ItemEvalState> = vec![];
    let config = make_config(SelectionStrategy::Min);
    assert!(execute_item_select(&items, &config, &Ok(vec![0])).is_err());
}

#[test]
fn test_tie_break_last() {
    let items = vec![make_item("a", vec![("score", "5.0")]), make_item("b", vec![("score", "5.0")])];
    let mut config = make_config(SelectionStrategy::Min);
    config.tie_break = TieBreak::Last;
    let result = execute_item_select(&items, &config, &Ok(vec![0, 1])).ok().unwrap();
    assert_eq!(result.winner_id, "b");
}

#[test]
fn selection_reports_strategy_failure_and_keeps_winner_vars() {
    let items = vec![make_item("a", vec![("score", "1")]), make_item("b", vec![("score", "2")])];
    let config = make_config(SelectionStrategy::Min);
    match execute_item_select(&items, &config, &Err("no items pass".to_string())) {
        Err(ItemSelectError::Strategy(m)) => assert_eq!(m, "no items pass"),
        _ => panic!("expected a strategy error"),
    }
    match execute_item_select(&items, &config, &Ok(vec![1])) {
        Ok(r) => {
            assert_eq!(r.eliminated_ids, vec!["a".to_string()]);
            assert_eq!(r.winner_vars.get("score").unwrap(), "2");
        }
        Err(_) => panic!("expected a winner"),
    }
    assert!(matches!(execute_item_select(&Vec::<ItemEvalState>::new(), &config, &Ok(vec![0])), Err(ItemSelectError::NoItems)));
}

#[test]
fn break_tie_picks_first_last_and_first_for_random() {
    assert_eq!(break_tie(&vec![3, 5, 7], TieBreak::First), 3);
    assert_eq!(break_tie(&vec![3, 5, 7], TieBreak::Last), 7);
    assert_eq!(break_tie(&vec![3, 5, 7], TieBreak::Random), 3);
}

// ── generated items ─────────────────────────────────────────────

fn s(v: &str) -> JsonValue {
    JsonValue::Str(v.to_string())
}

fn obj(members: Vec<(&str, JsonValue)>) -> JsonValue {
    JsonValue::Object(members.into_iter().map(|(k, v)| (k.to_string(), v)).collect())
}

fn action(from_var: &str, label: Option<&str>, vars: Vec<(&str, &str)>) -> GenerateItemsAction {
    let mut m: StrMap<String> = StrMap::new();
    for (k, v) in vars {
        m.insert(k.to_string(), v.to_string());
    }
    GenerateItemsAction {
        from_var: from_var.to_string(),
        json_path: "$.items".to_string(),
        mapping: DynamicItemMapping {
            item_id: "$.id".to_string(),
            label: label.map(|l| l.to_string()),
            vars: m,
        },
        replace: false,
    }
}

#[test]
fn test_extract_dynamic_items() {
    let mut vars: StrMap<String> = StrMap::new();
    vars.insert(
        "candidates".to_string(),
        r#"{"items": [
            {"id": "approach_a", "name": "Approach A", "config": "/a.yaml"},
            {"id": "approach_b", "name": "Approach B", "config": "/b.yaml"}
        ]}"#
        .to_string(),
    );
    let act = action("candidates", Some("$.name"), vec![("config", "$.config")]);
    let items = extract_dynamic_items(&vars, &act).ok().expect("extract items");
    assert_eq!(items.len(), 2);
    assert_eq!(items[0].item_id, "approach_a");
    assert_eq!(items[0].label, Some("Approach A".to_string()));
    assert_eq!(items[0].vars.get("config"), Some(&"/a.yaml".to_string()));
    assert_eq!(items[1].item_id, "approach_b");
}

#[test]
fn test_extract_dynamic_items_missing_var() {
    let vars: StrMap<String> = StrMap::new();
    let act = action("missing", None, vec![]);
    assert!(extract_dynamic_items(&vars, &act).is_err());
}

#[test]
fn test_extract_dynamic_items_skips_missing_id() {
    let mut vars: StrMap<String> = StrMap::new();
    vars.insert(
        "data".to_string(),
        r#"{"items": [{"name": "no_id"}, {"id": "has_id"}]}"#.to_string(),
    );
    let act = action("data", None, vec![]);
    let items = extract_dynamic_items(&vars, &act).ok().expect("extract items");
    assert_eq!(items.len(), 1);
    assert_eq!(items[0].item_id, "has_id");
}

#[test]
fn generated_items_errors_name_their_cause() {
    let mut vars: StrMap<String> = StrMap::new();
    vars.insert("data".to_string(), "not json".to_string());
    let act = action("data", None, vec![]);
    assert!(matches!(extract_dynamic_items(&vars, &act), Err(GenerateItemsError::InvalidJson(_))));
    let mut v2: StrMap<String> = StrMap::new();
    v2.insert("data".to_string(), r#"{"items": "x"}"#.to_string());
    assert!(matches!(extract_dynamic_items(&v2, &act), Err(GenerateItemsError::NoArray(_))));
    assert!(matches!(
        extract_dynamic_items(&StrMap::new(), &act),
        Err(GenerateItemsError::MissingVar(_))
    ));
}

#[test]
fn generated_items_from_a_parsed_document() {
    let mut vars: StrMap<String> = StrMap::new();
    vars.insert("data".to_string(), "ignored".to_string());
    let act = action("data", None, vec![]);
    let document = obj(vec![("items", JsonValue::Array(vec![obj(vec![("id", JsonValue::Number("7".to_string()))])]))]);
    let items = extract_dynamic_items_from_document(&vars, &act, &Some(document)).ok().expect("items");
    assert_eq!(items[0].item_id, "7");
    assert!(matches!(
        extract_dynamic_items_from_document(&vars, &act, &None),
        Err(GenerateItemsError::InvalidJson(_))
    ));
}

#[test]
fn json_paths_and_fields() {
    assert_eq!(parse_path("$").map(|k| k.len()), Some(0));
    assert_eq!(parse_path("$.a.b").map(|k| k.len()), Some(2));
    assert!(parse_path("$.a..b").is_none());
    assert!(parse_path("items").is_none());
    let v = obj(vec![
        ("n", JsonValue::Number("42".to_string())),
        ("b", JsonValue::Bool(true)),
        ("o", obj(vec![("x", s("deep"))])),
        ("z", JsonValue::Null),
    ]);
    assert_eq!(extract_field(&v, "$.n"), Some("42".to_string()));
    assert_eq!(extract_field(&v, "$.b"), Some("true".to_string()));
    assert_eq!(extract_field(&v, "$.o.x"), Some("deep".to_string()));
    assert_eq!(extract_field(&v, "$.z"), None);
    assert_eq!(extract_field(&v, "$.missing"), None);
}

#[test]
fn dynamic_items_follow_the_current_last_order() {
    assert_eq!(dynamic_item_order_numbers(7, 3), vec![8, 9, 10]);
    assert!(dynamic_item_order_numbers(0, 0).is_empty());
}
