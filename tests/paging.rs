use recipe_mock::fixture::Environment;
use recipe_mock::handlers::collection_content;
use recipe_mock::models::{ContentKind, Timestamp};
use recipe_mock::pagination::{get_offset_limit, page_of, parse_usize, resolve};
use recipe_mock::store::{MutableStaticData, StoreError};

fn strings(items: &[&str]) -> Vec<String> {
    items.iter().map(|s| s.to_string()).collect()
}

fn four_recipes() -> MutableStaticData {
    let mut state = MutableStaticData::empty(Environment::CODE);
    state.insert_collection(
        "collection1".to_string(),
        strings(&["recep1", "recep2", "recep3", "recep4"]),
    );
    state
}

fn page(state: &MutableStaticData, offset: &str, limit: &str) -> Vec<String> {
    let now = Timestamp { unix_nanos: 0 };
    collection_content(state, "collection1", Some(offset), Some(limit), now)
        .unwrap()
        .content
}

#[test]
fn test_get_collection_content_limits() {
    let state = four_recipes();

    let content_array = page(&state, "0", "2");
    assert_eq!(content_array.len(), 2);
    assert_eq!(content_array[0], "recep1");
    assert_eq!(content_array[1], "recep2");

    let page_two_content_array = page(&state, "1", "2");
    assert_eq!(page_two_content_array.len(), 2);
    assert_eq!(page_two_content_array[0], "recep2");
    assert_eq!(page_two_content_array[1], "recep3");

    let last_page_content_array = page(&state, "3", "2");
    assert_eq!(last_page_content_array.len(), 1);
    assert_eq!(last_page_content_array[0], "recep4");

    let empty_page_content_array = page(&state, "56", "2");
    assert_eq!(empty_page_content_array.len(), 0);
}

#[test]
fn content_response_is_stamped_and_typed() {
    let state = four_recipes();
    let now = Timestamp { unix_nanos: 1_700_000_000_123_456_789 };
    let response = collection_content(&state, "collection1", None, None, now).unwrap();
    assert_eq!(response.content, strings(&["recep1", "recep2", "recep3", "recep4"]));
    assert_eq!(response.content_type, ContentKind::Recipe);
    assert_eq!(response.last_modified, Some(now));
}

#[test]
fn content_of_unknown_collection_is_not_found() {
    let state = four_recipes();
    let now = Timestamp { unix_nanos: 0 };
    let result = collection_content(&state, "does-not-exist", None, None, now);
    assert_eq!(result.unwrap_err(), StoreError::NotFound);
}

#[test]
fn parse_accepts_plain_and_plus_signed_digits() {
    assert_eq!(parse_usize("0"), Some(0));
    assert_eq!(parse_usize("12"), Some(12));
    assert_eq!(parse_usize("+7"), Some(7));
    assert_eq!(parse_usize("007"), Some(7));
    assert_eq!(parse_usize(&usize::MAX.to_string()), Some(usize::MAX));
}

#[test]
fn parse_rejects_malformed_numbers() {
    assert_eq!(parse_usize(""), None);
    assert_eq!(parse_usize("+"), None);
    assert_eq!(parse_usize("-1"), None);
    assert_eq!(parse_usize(" 5"), None);
    assert_eq!(parse_usize("5 "), None);
    assert_eq!(parse_usize("1a"), None);
    assert_eq!(parse_usize("abc"), None);
    assert_eq!(parse_usize("99999999999999999999999999"), None);
}

#[test]
fn parse_agrees_with_std() {
    for text in ["0", "1", "+1", "-0", "", "+", "18446744073709551615", "18446744073709551616", "12x", "٣"] {
        assert_eq!(parse_usize(text), text.parse::<usize>().ok(), "{}", text);
    }
}

#[test]
fn offset_limit_defaults() {
    assert_eq!(get_offset_limit(None, None), (0, 100));
    assert_eq!(get_offset_limit(Some("x"), Some("-3")), (0, 100));
    assert_eq!(get_offset_limit(Some("4"), Some("9")), (4, 9));
    assert_eq!(get_offset_limit(Some("4"), None), (4, 100));
}

#[test]
fn resolve_falls_back_to_first_hundred() {
    let items: Vec<String> = (0..150).map(|i| i.to_string()).collect();
    let page = resolve(&items, Some("bad"), None);
    assert_eq!(page.len(), 100);
    assert_eq!(page, items[..100].to_vec());
}

#[test]
fn resolve_is_bounded() {
    let items = strings(&["a", "b", "c"]);
    assert_eq!(resolve(&items, Some("1"), Some("0")), Vec::<String>::new());
    assert_eq!(resolve(&items, Some("3"), Some("5")), Vec::<String>::new());
    assert_eq!(resolve(&items, Some("1"), Some("18446744073709551615")), strings(&["b", "c"]));
    assert_eq!(resolve(&items, Some("18446744073709551615"), Some("2")), Vec::<String>::new());
    assert_eq!(resolve(&Vec::new(), None, None), Vec::<String>::new());
}

#[test]
fn page_of_copies_the_run() {
    let items = vec![10u32, 20, 30, 40];
    assert_eq!(page_of(&items, 1, 2), vec![20, 30]);
    assert_eq!(page_of(&items, 2, 100), vec![30, 40]);
    assert_eq!(page_of(&items, 4, 1), Vec::<u32>::new());
}
