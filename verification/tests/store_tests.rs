use recipe_browser::JsonValue;
use recipe_browser::LoadError;
use recipe_browser::Recipes;
use recipe_browser::StateError;
use recipe_browser::strip_quotes;

fn s(text: &str) -> JsonValue {
    JsonValue::Str(text.to_string())
}

fn strings(items: &[&str]) -> JsonValue {
    JsonValue::Array(items.iter().map(|t| s(t)).collect())
}

fn entry(title: &str, ingredients: &[&str], methods: &[&str]) -> JsonValue {
    JsonValue::Object(vec![
        ("title".to_string(), s(title)),
        ("ingredients".to_string(), strings(ingredients)),
        ("methods".to_string(), strings(methods)),
    ])
}

fn document(entries: Vec<JsonValue>) -> JsonValue {
    JsonValue::Object(vec![(
        "recipe_details".to_string(),
        JsonValue::Array(entries),
    )])
}

#[test]
fn strip_quotes_removes_matching_pair() {
    assert_eq!(strip_quotes("\"Flour\""), "Flour");
}

#[test]
fn strip_quotes_leaves_plain_value_unchanged() {
    assert_eq!(strip_quotes("Flour"), "Flour");
}

#[test]
fn strip_quotes_removes_lone_leading_quote() {
    assert_eq!(strip_quotes("\"Flour"), "Flour");
}

#[test]
fn strip_quotes_removes_lone_trailing_quote() {
    assert_eq!(strip_quotes("Flour\""), "Flour");
}

#[test]
fn strip_quotes_keeps_interior_quotes() {
    assert_eq!(strip_quotes("\"Fl\"our\""), "Fl\"our");
}

#[test]
fn strip_quotes_on_single_quote_yields_empty() {
    assert_eq!(strip_quotes("\""), "");
    assert_eq!(strip_quotes("\"\""), "");
}

#[test]
fn empty_collection_loads_and_counts_zero() {
    let recipes = Recipes::load(&document(vec![])).unwrap();
    assert_eq!(recipes.len(), 0);
    assert!(matches!(recipes.get(0), Err(StateError::IndexError)));
}

#[test]
fn bare_array_document_loads() {
    let recipes = Recipes::load(&JsonValue::Array(vec![entry("Cake", &["Egg"], &["Bake"])]))
        .unwrap();
    assert_eq!(recipes.len(), 1);
    assert_eq!(recipes.get(0).unwrap().title().as_str(), "Cake");
}

#[test]
fn load_normalizes_quoted_fields() {
    let doc = document(vec![entry(
        "\"Cake\"",
        &["\"Egg\"", "Flour"],
        &["\"Mix\"", "Bake\""],
    )]);
    let recipes = Recipes::load(&doc).unwrap();
    let r = recipes.get(0).unwrap();
    assert_eq!(r.title().as_str(), "Cake");
    assert_eq!(r.ingredients(), &vec!["Egg".to_string(), "Flour".to_string()]);
    assert_eq!(r.methods(), &vec!["Mix".to_string(), "Bake".to_string()]);
}

#[test]
fn missing_ingredient_and_method_fields_default_to_empty() {
    let doc = document(vec![JsonValue::Object(vec![(
        "title".to_string(),
        s("Toast"),
    )])]);
    let recipes = Recipes::load(&doc).unwrap();
    let r = recipes.get(0).unwrap();
    assert_eq!(r.title().as_str(), "Toast");
    assert!(r.ingredients().is_empty());
    assert!(r.methods().is_empty());
}

#[test]
fn singular_method_field_is_accepted() {
    let doc = document(vec![JsonValue::Object(vec![
        ("title".to_string(), s("Soup")),
        ("method".to_string(), strings(&["Simmer"])),
    ])]);
    let recipes = Recipes::load(&doc).unwrap();
    assert_eq!(recipes.get(0).unwrap().methods(), &vec!["Simmer".to_string()]);
}

#[test]
fn plural_methods_field_wins_over_singular() {
    let doc = document(vec![JsonValue::Object(vec![
        ("title".to_string(), s("Soup")),
        ("methods".to_string(), strings(&["Boil"])),
        ("method".to_string(), strings(&["Simmer"])),
    ])]);
    let recipes = Recipes::load(&doc).unwrap();
    assert_eq!(recipes.get(0).unwrap().methods(), &vec!["Boil".to_string()]);
}

#[test]
fn first_occurrence_of_a_repeated_key_wins() {
    let doc = document(vec![JsonValue::Object(vec![
        ("title".to_string(), s("First")),
        ("title".to_string(), s("Second")),
    ])]);
    let recipes = Recipes::load(&doc).unwrap();
    assert_eq!(recipes.get(0).unwrap().title().as_str(), "First");
}

#[test]
fn top_level_string_is_malformed() {
    assert!(matches!(Recipes::load(&s("nope")), Err(LoadError::Malformed)));
}

#[test]
fn object_without_recipe_array_is_malformed() {
    let doc = JsonValue::Object(vec![("other".to_string(), JsonValue::Null)]);
    assert!(matches!(Recipes::load(&doc), Err(LoadError::Malformed)));
}

#[test]
fn recipe_array_of_wrong_shape_is_malformed() {
    let doc = JsonValue::Object(vec![("recipe_details".to_string(), s("nope"))]);
    assert!(matches!(Recipes::load(&doc), Err(LoadError::Malformed)));
}

#[test]
fn non_object_entry_is_malformed() {
    assert!(matches!(Recipes::load(&document(vec![JsonValue::Bool(true)])), Err(LoadError::Malformed)));
}

#[test]
fn non_array_ingredients_field_is_malformed() {
    let doc = document(vec![JsonValue::Object(vec![
        ("title".to_string(), s("Cake")),
        ("ingredients".to_string(), s("Egg")),
    ])]);
    assert!(matches!(Recipes::load(&doc), Err(LoadError::Malformed)));
}

#[test]
fn non_string_ingredient_element_is_malformed() {
    let doc = document(vec![JsonValue::Object(vec![
        ("title".to_string(), s("Cake")),
        ("ingredients".to_string(), JsonValue::Array(vec![JsonValue::Null])),
    ])]);
    assert!(matches!(Recipes::load(&doc), Err(LoadError::Malformed)));
}

#[test]
fn absent_title_is_missing_title() {
    let doc = document(vec![JsonValue::Object(vec![(
        "ingredients".to_string(),
        strings(&["Egg"]),
    )])]);
    assert!(matches!(Recipes::load(&doc), Err(LoadError::MissingTitle)));
}

#[test]
fn non_string_title_is_missing_title() {
    let doc = document(vec![JsonValue::Object(vec![(
        "title".to_string(),
        JsonValue::Bool(false),
    )])]);
    assert!(matches!(Recipes::load(&doc), Err(LoadError::MissingTitle)));
}

#[test]
fn title_empty_after_normalization_is_missing_title() {
    let doc = document(vec![entry("\"\"", &[], &[])]);
    assert!(matches!(Recipes::load(&doc), Err(LoadError::MissingTitle)));
}

#[test]
fn one_bad_entry_rejects_the_whole_document() {
    let doc = document(vec![
        entry("Good", &["Egg"], &["Mix"]),
        JsonValue::Bool(false),
    ]);
    assert!(matches!(Recipes::load(&doc), Err(LoadError::Malformed)));
}

#[test]
fn leftmost_failing_entry_decides_the_error() {
    let doc = document(vec![
        JsonValue::Object(vec![]),
        JsonValue::Bool(false),
    ]);
    assert!(matches!(Recipes::load(&doc), Err(LoadError::MissingTitle)));
}

#[test]
fn new_collection_is_empty() {
    let recipes = Recipes::new();
    assert_eq!(recipes.len(), 0);
}

#[test]
fn get_returns_each_recipe_in_order() {
    let doc = document(vec![
        entry("A", &["Egg", "Flour"], &["Mix", "Bake"]),
        entry("B", &[], &["Serve"]),
    ]);
    let recipes = Recipes::load(&doc).unwrap();
    assert_eq!(recipes.len(), 2);
    assert_eq!(recipes.get(0).unwrap().title().as_str(), "A");
    assert_eq!(recipes.get(1).unwrap().title().as_str(), "B");
    assert!(matches!(recipes.get(2), Err(StateError::IndexError)));
}

#[test]
fn index_groups_ordinals_by_title() {
    let doc = document(vec![
        entry("Cake", &["Egg"], &[]),
        entry("Soup", &[], &[]),
        entry("Cake", &["Flour"], &[]),
    ]);
    let recipes = Recipes::load(&doc).unwrap();
    let cake = recipes.ordinals_for_title(&"Cake".to_string()).unwrap();
    assert_eq!(cake, &vec![0usize, 2usize]);
    let soup = recipes.ordinals_for_title(&"Soup".to_string()).unwrap();
    assert_eq!(soup, &vec![1usize]);
    assert!(recipes.ordinals_for_title(&"Stew".to_string()).is_none());
}

#[test]
fn get_field_returns_the_first_match() {
    let obj = JsonValue::Object(vec![
        ("a".to_string(), JsonValue::Bool(true)),
        ("b".to_string(), JsonValue::Null),
        ("a".to_string(), JsonValue::Bool(false)),
    ]);
    assert!(matches!(obj.get_field("a"), Some(JsonValue::Bool(true))));
    assert!(matches!(obj.get_field("b"), Some(JsonValue::Null)));
    assert!(obj.get_field("c").is_none());
}

#[test]
fn get_field_on_a_non_object_finds_nothing() {
    assert!(s("text").get_field("a").is_none());
    assert!(JsonValue::Array(vec![]).get_field("a").is_none());
}

#[test]
fn numeric_ingredient_element_is_malformed() {
    let doc = document(vec![JsonValue::Object(vec![
        ("title".to_string(), s("Cake")),
        ("ingredients".to_string(), JsonValue::Array(vec![JsonValue::Other])),
    ])]);
    assert!(matches!(Recipes::load(&doc), Err(LoadError::Malformed)));
}
