use bakery_data::entities::bakery;
use bakery_data::entities::chef;
use bakery_data::error::StoreError;
use bakery_data::store::bakery_table::BakeryTable;
use bakery_data::store::chef_table::ChefTable;

#[test]
fn basic_crud_operations() {
    let mut bakeries = BakeryTable::new();
    let mut chefs = ChefTable::new();

    let happy = bakery::ActiveModel {
        name: Some(String::from("Happy Bakery")),
        profit_margin_bits: Some(0.0f64.to_bits()),
    };
    let bakery_key = bakeries.insert(happy).unwrap();
    assert_eq!(bakery_key, 1);

    let sad = bakery::ActiveModel {
        name: Some(String::from("Sad Bakery")),
        profit_margin_bits: None,
    };
    bakeries.update_by_key(bakery_key, sad).unwrap();

    let john = chef::ActiveModel {
        name: Some(String::from("John")),
        contact_details: None,
        bakery_id: Some(bakery_key),
    };
    let chef_key = chefs.insert(john).unwrap();
    assert_eq!(chef_key, 1);

    let all = bakeries.find_all();
    assert_eq!(all.len(), 1);

    let refetched = bakeries.find_by_key(bakery_key).unwrap();
    assert_eq!(refetched.id, bakery_key);
    assert_eq!(refetched.name, "Sad Bakery");
    assert_eq!(f64::from_bits(refetched.profit_margin_bits), 0.0);

    let by_name = bakeries.find_where(&bakery::Filter::NameEq(String::from("Sad Bakery")));
    assert_eq!(by_name.len(), 1);
    assert_eq!(by_name[0].id, bakery_key);

    chefs.delete_by_key(chef_key).unwrap();
    bakeries.delete_by_key(bakery_key).unwrap();
    assert!(bakeries.find_all().is_empty());
}

#[test]
fn round_trip_insert_then_fetch() {
    let mut bakeries = BakeryTable::new();
    let margin = 17.89f64.to_bits();
    let am = bakery::ActiveModel {
        name: Some(String::from("La Boulangerie")),
        profit_margin_bits: Some(margin),
    };
    let key = bakeries.insert(am).unwrap();
    let fetched = bakeries.find_by_key(key).unwrap();
    let expected = bakery::Model {
        id: key,
        name: String::from("La Boulangerie"),
        profit_margin_bits: margin,
    };
    assert_eq!(fetched, expected);
}

#[test]
fn insert_applies_margin_default() {
    let mut bakeries = BakeryTable::new();
    let am = bakery::ActiveModel {
        name: Some(String::from("Defaulted")),
        profit_margin_bits: None,
    };
    let key = bakeries.insert(am).unwrap();
    let fetched = bakeries.find_by_key(key).unwrap();
    assert_eq!(fetched.profit_margin_bits, bakery::DEFAULT_PROFIT_MARGIN_BITS);
    assert_eq!(f64::from_bits(fetched.profit_margin_bits), 0.0);
}

#[test]
fn insert_without_name_is_constraint_error() {
    let mut bakeries = BakeryTable::new();
    assert_eq!(bakeries.insert(bakery::ActiveModel::unset()), Err(StoreError::Constraint));
    assert!(bakeries.find_all().is_empty());
}

#[test]
fn insert_chef_requires_foreign_key() {
    let mut chefs = ChefTable::new();
    let am = chef::ActiveModel {
        name: Some(String::from("Unattached")),
        contact_details: None,
        bakery_id: None,
    };
    assert_eq!(chefs.insert(am), Err(StoreError::Constraint));
}

#[test]
fn partial_update_preserves_unset_fields() {
    let mut bakeries = BakeryTable::new();
    let margin = 42.5f64.to_bits();
    let am = bakery::ActiveModel {
        name: Some(String::from("Original")),
        profit_margin_bits: Some(margin),
    };
    let key = bakeries.insert(am).unwrap();

    let rename = bakery::ActiveModel {
        name: Some(String::from("Renamed")),
        profit_margin_bits: None,
    };
    bakeries.update_by_key(key, rename).unwrap();
    let fetched = bakeries.find_by_key(key).unwrap();
    assert_eq!(fetched.name, "Renamed");
    assert_eq!(fetched.profit_margin_bits, margin);
    assert_eq!(fetched.id, key);

    let remargin = bakery::ActiveModel {
        name: None,
        profit_margin_bits: Some(100.0f64.to_bits()),
    };
    bakeries.update_by_key(key, remargin).unwrap();
    let fetched = bakeries.find_by_key(key).unwrap();
    assert_eq!(fetched.name, "Renamed");
    assert_eq!(f64::from_bits(fetched.profit_margin_bits), 100.0);
}

#[test]
fn update_missing_key_is_not_found() {
    let mut bakeries = BakeryTable::new();
    let am = bakery::ActiveModel {
        name: Some(String::from("Nobody")),
        profit_margin_bits: None,
    };
    assert_eq!(bakeries.update_by_key(7, am), Err(StoreError::NotFound));
}

#[test]
fn idempotent_delete() {
    let mut bakeries = BakeryTable::new();
    let am = bakery::ActiveModel {
        name: Some(String::from("Short Lived")),
        profit_margin_bits: None,
    };
    let key = bakeries.insert(am).unwrap();
    assert_eq!(bakeries.delete_by_key(key), Ok(()));
    assert_eq!(bakeries.delete_by_key(key), Ok(()));
    assert!(bakeries.find_by_key(key).is_none());
    assert_eq!(bakeries.find_where(&bakery::Filter::IdEq(key)).len(), 0);
    assert!(bakeries.find_all().is_empty());
}

#[test]
fn delete_all_counts_and_keys_are_not_reused() {
    let mut bakeries = BakeryTable::new();
    for name in ["One", "Two"] {
        let am = bakery::ActiveModel {
            name: Some(name.to_string()),
            profit_margin_bits: None,
        };
        bakeries.insert(am).unwrap();
    }
    assert_eq!(bakeries.delete_all(), 2);
    assert!(bakeries.find_all().is_empty());
    let am = bakery::ActiveModel {
        name: Some(String::from("Three")),
        profit_margin_bits: None,
    };
    assert_eq!(bakeries.insert(am).unwrap(), 3);
}

#[test]
fn filter_returns_exactly_the_matches() {
    let mut bakeries = BakeryTable::new();
    for name in ["Sad Bakery", "Happy Bakery", "Sad Bakery"] {
        let am = bakery::ActiveModel {
            name: Some(name.to_string()),
            profit_margin_bits: None,
        };
        bakeries.insert(am).unwrap();
    }
    let sad = bakeries.find_where(&bakery::Filter::NameEq(String::from("Sad Bakery")));
    assert_eq!(sad.len(), 2);
    assert_eq!(sad[0].id, 1);
    assert_eq!(sad[1].id, 3);
    for m in &sad {
        assert_eq!(m.name, "Sad Bakery");
    }
    let none = bakeries.find_where(&bakery::Filter::NameEq(String::from("Closed Bakery")));
    assert!(none.is_empty());
}

#[test]
fn relationship_select() {
    let mut bakeries = BakeryTable::new();
    let mut chefs = ChefTable::new();

    let la_boulangerie = bakery::ActiveModel {
        name: Some(String::from("La Boulangerie")),
        profit_margin_bits: Some(0.0f64.to_bits()),
    };
    let bakery_key = bakeries.insert(la_boulangerie).unwrap();

    let other = bakery::ActiveModel {
        name: Some(String::from("Elsewhere")),
        profit_margin_bits: None,
    };
    let other_key = bakeries.insert(other).unwrap();

    for chef_name in ["Jolie", "Charles", "Madeleine", "Frederic"] {
        let am = chef::ActiveModel {
            name: Some(chef_name.to_string()),
            contact_details: None,
            bakery_id: Some(bakery_key),
        };
        chefs.insert(am).unwrap();
    }
    let stranger = chef::ActiveModel {
        name: Some(String::from("Stranger")),
        contact_details: None,
        bakery_id: Some(other_key),
    };
    chefs.insert(stranger).unwrap();

    let parent = bakeries.find_by_key(bakery_key).unwrap();
    let related = chefs.find_related(&parent);
    assert_eq!(related.len(), 4);
    let mut chef_names: Vec<String> = related.into_iter().map(|c| c.name).collect();
    chef_names.sort_unstable();
    assert_eq!(
        chef_names,
        vec![
            String::from("Charles"),
            String::from("Frederic"),
            String::from("Jolie"),
            String::from("Madeleine"),
        ]
    );
}

#[test]
fn chef_contact_details_distinguish_null_from_unset() {
    let mut chefs = ChefTable::new();
    let am = chef::ActiveModel {
        name: Some(String::from("Jolie")),
        contact_details: Some(Some(String::from("jolie@example.com"))),
        bakery_id: Some(1),
    };
    let key = chefs.insert(am).unwrap();

    let untouched = chef::ActiveModel {
        name: Some(String::from("Jolie B.")),
        contact_details: None,
        bakery_id: None,
    };
    chefs.update_by_key(key, untouched).unwrap();
    let fetched = chefs.find_by_key(key).unwrap();
    assert_eq!(fetched.contact_details, Some(String::from("jolie@example.com")));

    let cleared = chef::ActiveModel {
        name: None,
        contact_details: Some(None),
        bakery_id: None,
    };
    chefs.update_by_key(key, cleared).unwrap();
    let fetched = chefs.find_by_key(key).unwrap();
    assert_eq!(fetched.contact_details, None);
    assert_eq!(fetched.name, "Jolie B.");
    assert_eq!(fetched.bakery_id, 1);
}

#[test]
fn error_descriptions() {
    assert_eq!(StoreError::Connection.describe(), "connection error");
    assert_eq!(StoreError::Constraint.describe(), "constraint violation");
    assert_eq!(StoreError::NotFound.describe(), "record not found");
    assert_eq!(StoreError::QueryBuild.describe(), "malformed statement");
}
