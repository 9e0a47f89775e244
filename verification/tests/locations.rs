use brand_catalog::brand::{Brand, Brands};
use brand_catalog::brand_model::{BrandModel, BrandModels};
use brand_catalog::error_handler::CustomError;
use brand_catalog::ident::{brand_model_uri, brand_uri, generate_id, uuid_hyphenated};
use brand_catalog::store::Store;

#[test]
fn hyphenated_zero() {
    assert_eq!(uuid_hyphenated(0), "00000000-0000-0000-0000-000000000000");
}

#[test]
fn hyphenated_known_value() {
    let v = 0x123e4567_e89b_12d3_a456_426614174000u128;
    assert_eq!(uuid_hyphenated(v), "123e4567-e89b-12d3-a456-426614174000");
}

#[test]
fn hyphenated_matches_uuid_display() {
    for _ in 0..8 {
        let u = uuid::Uuid::new_v4();
        assert_eq!(uuid_hyphenated(u.as_u128()), u.to_string());
    }
}

#[test]
fn generated_ids_round_trip_through_uuid() {
    let id = generate_id();
    let u = uuid::Uuid::from_u128(id);
    assert_eq!(u.as_u128(), id);
    assert_eq!(uuid_hyphenated(id), u.to_string());
}

#[test]
fn brand_location_layout() {
    let v = 0xffu128;
    assert_eq!(brand_uri(v), "brand/00000000-0000-0000-0000-0000000000ff");
}

#[test]
fn brand_model_location_layout() {
    assert_eq!(
        brand_model_uri(1, 2),
        "brand/00000000-0000-0000-0000-000000000001/model/00000000-0000-0000-0000-000000000002"
    );
}

#[test]
fn brand_lifecycle_end_to_end() {
    let mut store = Store::new();
    let created = Brands::create_brand(
        &mut store,
        Brand { name: "Acme".to_string(), is_active: None },
    )
    .unwrap();
    let location = brand_uri(created.id);
    assert_eq!(location, format!("brand/{}", uuid::Uuid::from_u128(created.id)));

    let got = Brands::retrieve_brand(&store, created.id).unwrap();
    assert!(got.is_active);

    let patched = Brands::update_brand_status(&mut store, created.id, false).unwrap();
    assert!(!patched.is_active);
    let got = Brands::retrieve_brand(&store, created.id).unwrap();
    assert!(!got.is_active);

    let gone = Brands::delete_brand(&mut store, created.id).unwrap();
    assert_eq!(gone, Some(1));

    let err = Brands::retrieve_brand(&store, created.id).unwrap_err();
    assert_eq!(err, CustomError::NotFound);
    assert_eq!(err.status_code(), 404);
}

#[test]
fn brand_model_lifecycle_end_to_end() {
    let mut store = Store::new();
    let brand = Brands::create_brand(
        &mut store,
        Brand { name: "Acme".to_string(), is_active: None },
    )
    .unwrap();
    let created = BrandModels::create_brand_model(
        &mut store,
        BrandModel { name: "M1".to_string(), is_active: true, brand_id: None },
        brand.id,
    )
    .unwrap();
    let location = brand_model_uri(brand.id, created.id);
    assert_eq!(
        location,
        format!(
            "brand/{}/model/{}",
            uuid::Uuid::from_u128(brand.id),
            uuid::Uuid::from_u128(created.id)
        )
    );

    let list = BrandModels::retrieve_brand_models(&store, brand.id).unwrap();
    assert_eq!(list.len(), 1);
    assert_eq!(list[0].id, created.id);
    assert_eq!(list[0].name, "M1");
    assert_eq!(list[0].brand_id, brand.id);
}
