use recipe_mock::fixture::{gen_user_collections, Environment, COOKED_COLLECTION_ID, SAVED_COLLECTION_ID};
use recipe_mock::handlers::{
    apply_id_param, bad_url_reply, mutation_reply, split_id_list, unknown_collection_reply, MutationKind,
};
use recipe_mock::models::{CollectionKind, Timestamp};
use recipe_mock::store::{MutableStaticData, StoreError};

fn strings(items: &[&str]) -> Vec<String> {
    items.iter().map(|s| s.to_string()).collect()
}

#[test]
fn code_profile_seeds_two_collections() {
    let state = MutableStaticData::new(Environment::CODE);
    assert_eq!(state.collection_count(), 2);
    assert_eq!(state.env(), Environment::CODE);
    let saved = state.get(SAVED_COLLECTION_ID).unwrap();
    assert_eq!(saved.len(), 6);
    assert_eq!(saved[0], "99ea87d53eb3dc2f2f445b38919d9b9cbda4b7b1");
    assert_eq!(saved[5], "4e69b3b3563d4c7b8171875029fb55ea");
    let cooked = state.get(COOKED_COLLECTION_ID).unwrap();
    assert_eq!(cooked.len(), 5);
    assert_eq!(cooked[1], "70265dd004fc4b03a5cb50f972fe13f5");
}

#[test]
fn prod_profile_seeds_two_collections() {
    let state = MutableStaticData::new(Environment::PROD);
    assert_eq!(state.collection_count(), 2);
    let saved = state.get("F8895D13-CCB2-4864-9DE6-C35A1FC943BE").unwrap();
    assert_eq!(saved[0], "ed9e148c614d47f0b236f5ce7113d196");
    let cooked = state.get("22468120-81C4-4E4A-8B9D-71AEE5E25C40").unwrap();
    assert_eq!(cooked.len(), 5);
    assert_eq!(cooked[4], "9a6b1e956f774667ad7562d6410ab73e");
    assert!(state.get("does-not-exist").is_none());
}

#[test]
fn environment_names_and_default() {
    assert_eq!(Environment::CODE.to_string(), "code");
    assert_eq!(Environment::PROD.to_string(), "prod");
    assert_eq!(Environment::default(), Environment::PROD);
}

#[test]
fn user_collections_listing() {
    let now = Timestamp { unix_nanos: 42 };
    let listing = gen_user_collections(now);
    assert_eq!(listing.collections.len(), 2);
    assert_eq!(listing.collections[0].id, SAVED_COLLECTION_ID);
    assert_eq!(listing.collections[0].collection_type, CollectionKind::Saved);
    assert_eq!(listing.collections[0].last_modified, now);
    assert_eq!(listing.collections[1].id, COOKED_COLLECTION_ID);
    assert_eq!(listing.collections[1].collection_type, CollectionKind::Cooked);
}

#[test]
fn id_parameter_splits_at_commas() {
    assert_eq!(split_id_list("a"), strings(&["a"]));
    assert_eq!(split_id_list("a,b"), strings(&["a", "b"]));
    assert_eq!(split_id_list(""), strings(&[""]));
    assert_eq!(split_id_list("a,,b"), strings(&["a", "", "b"]));
    assert_eq!(split_id_list(","), strings(&["", ""]));
    assert_eq!(split_id_list("é,ü"), strings(&["é", "ü"]));
}

#[test]
fn missing_id_parameter_changes_nothing() {
    let mut state = MutableStaticData::new(Environment::CODE);
    let outcome = apply_id_param(&mut state, MutationKind::Put, SAVED_COLLECTION_ID, None);
    assert_eq!(outcome, None);
    assert_eq!(state.get(SAVED_COLLECTION_ID).unwrap().len(), 6);
    let (code, body) = mutation_reply(MutationKind::Put, outcome);
    assert_eq!(code, 400);
    assert_eq!(body.status, "bad_request");
    assert_eq!(body.detail.as_deref(), Some("you must provide ?id= to indicate the ids to put"));
    let (_, body) = mutation_reply(MutationKind::Delete, None);
    assert_eq!(body.detail.as_deref(), Some("you must provide ?id= to indicate the ids to remove"));
}

#[test]
fn id_parameter_put_and_delete() {
    let mut state = MutableStaticData::empty(Environment::PROD);
    state.insert_collection("c".to_string(), strings(&["a"]));
    let outcome = apply_id_param(&mut state, MutationKind::Put, "c", Some("b,c"));
    assert_eq!(outcome, Some(Ok(())));
    assert_eq!(state.get("c").cloned(), Some(strings(&["a", "b", "c"])));
    let outcome = apply_id_param(&mut state, MutationKind::Delete, "c", Some("a,c"));
    assert_eq!(outcome, Some(Ok(())));
    assert_eq!(state.get("c").cloned(), Some(strings(&["b"])));
    let outcome = apply_id_param(&mut state, MutationKind::Delete, "nope", Some("b"));
    assert_eq!(outcome, Some(Err(StoreError::NotFound)));
}

#[test]
fn mutation_replies() {
    let (code, body) = mutation_reply(MutationKind::Put, Some(Ok(())));
    assert_eq!(code, 204);
    assert_eq!(body.status, "updated");
    assert_eq!(body.detail, None);
    let (code, body) = mutation_reply(MutationKind::Delete, Some(Err(StoreError::ClientInput)));
    assert_eq!(code, 400);
    assert_eq!(body.status, "not_found");
    assert_eq!(body.detail.as_deref(), Some("no recipes to add"));
    let (code, body) = mutation_reply(MutationKind::Put, Some(Err(StoreError::NotFound)));
    assert_eq!(code, 404);
    assert_eq!(body.detail.as_deref(), Some("collection did not exist"));
}

#[test]
fn fixed_replies() {
    let (code, body) = bad_url_reply();
    assert_eq!(code, 404);
    assert_eq!(body.status, "not_found");
    assert_eq!(body.detail.as_deref(), Some("Bad URL"));
    let (code, body) = unknown_collection_reply();
    assert_eq!(code, 404);
    assert_eq!(body.detail.as_deref(), Some("That collection ID does not exist"));
}
