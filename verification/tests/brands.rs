use brand_catalog::brand::{Brand, Brands};
use brand_catalog::error_handler::CustomError;
use brand_catalog::store::Store;

fn fresh_brand(name: &str, is_active: Option<bool>) -> Brand {
    Brand { name: name.to_string(), is_active }
}

#[test]
fn create_defaults_status_to_active() {
    let mut store = Store::new();
    let created = Brands::create_brand(&mut store, fresh_brand("Acme", None)).unwrap();
    assert_eq!(created.name, "Acme");
    assert!(created.is_active);
    assert!(store.brands[0].is_active);
}

#[test]
fn create_keeps_explicit_status() {
    let mut store = Store::new();
    let created = Brands::create_brand(&mut store, fresh_brand("Acme", Some(false))).unwrap();
    assert!(!created.is_active);
}

#[test]
fn retrieve_after_create_returns_same_row() {
    let mut store = Store::new();
    let created = Brands::create_brand(&mut store, fresh_brand("Acme", Some(true))).unwrap();
    let got = Brands::retrieve_brand(&store, created.id).unwrap();
    assert_eq!(got.id, created.id);
    assert_eq!(got.name, created.name);
    assert_eq!(got.is_active, created.is_active);
}

#[test]
fn retrieve_missing_brand_is_not_found() {
    let store = Store::new();
    let err = Brands::retrieve_brand(&store, 7).unwrap_err();
    assert_eq!(err, CustomError::NotFound);
    assert_eq!(err.status_code(), 404);
}

#[test]
fn retrieve_brands_keeps_insertion_order() {
    let mut store = Store::new();
    let a = Brands::create_brand(&mut store, fresh_brand("A", None)).unwrap();
    let b = Brands::create_brand(&mut store, fresh_brand("B", Some(false))).unwrap();
    let c = Brands::create_brand(&mut store, fresh_brand("C", None)).unwrap();
    let all = Brands::retrieve_brands(&store).unwrap();
    assert_eq!(all.len(), 3);
    assert_eq!(all[0].id, a.id);
    assert_eq!(all[1].id, b.id);
    assert_eq!(all[2].id, c.id);
    assert_eq!(all[0].name, "A");
    assert_eq!(all[1].name, "B");
    assert_eq!(all[2].name, "C");
}

#[test]
fn create_with_taken_id_is_internal_error() {
    let mut store = Store::new();
    let first = Brands::create_brand_with_id(&mut store, 42, fresh_brand("A", None)).unwrap();
    assert_eq!(first.id, 42);
    let err = Brands::create_brand_with_id(&mut store, 42, fresh_brand("B", None)).unwrap_err();
    assert_eq!(err, CustomError::InternalError);
    assert_eq!(err.status_code(), 500);
    assert_eq!(store.brands.len(), 1);
    assert_eq!(store.brands[0].name, "A");
}

#[test]
fn update_replaces_name_and_status() {
    let mut store = Store::new();
    let created = Brands::create_brand(&mut store, fresh_brand("Old", Some(true))).unwrap();
    let updated =
        Brands::update_brand(&mut store, created.id, fresh_brand("New", Some(false))).unwrap();
    assert_eq!(updated.id, created.id);
    assert_eq!(updated.name, "New");
    assert!(!updated.is_active);
    let got = Brands::retrieve_brand(&store, created.id).unwrap();
    assert_eq!(got.name, "New");
    assert!(!got.is_active);
}

#[test]
fn update_with_omitted_status_keeps_stored_status() {
    let mut store = Store::new();
    let created = Brands::create_brand(&mut store, fresh_brand("Old", Some(false))).unwrap();
    let updated = Brands::update_brand(&mut store, created.id, fresh_brand("New", None)).unwrap();
    assert_eq!(updated.name, "New");
    assert!(!updated.is_active);
}

#[test]
fn update_missing_brand_is_not_found_without_side_effects() {
    let mut store = Store::new();
    let created = Brands::create_brand(&mut store, fresh_brand("Keep", Some(true))).unwrap();
    let err = Brands::update_brand(&mut store, created.id + 1, fresh_brand("X", None)).unwrap_err();
    assert_eq!(err, CustomError::NotFound);
    assert_eq!(store.brands.len(), 1);
    assert_eq!(store.brands[0].name, "Keep");
    assert!(store.brands[0].is_active);
}

#[test]
fn update_status_touches_only_the_status() {
    let mut store = Store::new();
    let created = Brands::create_brand(&mut store, fresh_brand("Acme", None)).unwrap();
    let updated = Brands::update_brand_status(&mut store, created.id, false).unwrap();
    assert_eq!(updated.id, created.id);
    assert_eq!(updated.name, "Acme");
    assert!(!updated.is_active);
    let got = Brands::retrieve_brand(&store, created.id).unwrap();
    assert!(!got.is_active);
    assert_eq!(got.name, "Acme");
}

#[test]
fn update_status_missing_brand_is_not_found_without_side_effects() {
    let mut store = Store::new();
    let created = Brands::create_brand(&mut store, fresh_brand("Keep", Some(true))).unwrap();
    let err = Brands::update_brand_status(&mut store, created.id + 1, false).unwrap_err();
    assert_eq!(err, CustomError::NotFound);
    assert_eq!(store.brands.len(), 1);
    assert!(store.brands[0].is_active);
}

#[test]
fn delete_missing_brand_is_not_found_and_store_unchanged() {
    let mut store = Store::new();
    let created = Brands::create_brand(&mut store, fresh_brand("Keep", None)).unwrap();
    let err = Brands::delete_brand(&mut store, created.id + 1).unwrap_err();
    assert_eq!(err, CustomError::NotFound);
    assert_eq!(store.brands.len(), 1);
    assert_eq!(store.brands[0].name, "Keep");
}

#[test]
fn delete_removes_the_row_and_reports_one() {
    let mut store = Store::new();
    let a = Brands::create_brand(&mut store, fresh_brand("A", None)).unwrap();
    let b = Brands::create_brand(&mut store, fresh_brand("B", None)).unwrap();
    let gone = Brands::delete_brand(&mut store, a.id).unwrap();
    assert_eq!(gone, Some(1));
    assert_eq!(store.brands.len(), 1);
    assert_eq!(store.brands[0].id, b.id);
    let err = Brands::retrieve_brand(&store, a.id).unwrap_err();
    assert_eq!(err, CustomError::NotFound);
}

#[test]
fn error_messages_match_their_kind() {
    assert_eq!(CustomError::NotFound.message(), "Not found");
    assert_eq!(CustomError::InternalError.message(), "Internal error");
    assert_eq!(CustomError::NotFound.status_code(), 404);
    assert_eq!(CustomError::InternalError.status_code(), 500);
}

#[test]
fn health_reports_running() {
    let r = brand_catalog::response::health();
    assert_eq!(r.status, "ok");
    assert_eq!(r.message, "Server is running");
}
