use bakery_data::api;
use bakery_data::entities::bakery;
use bakery_data::entities::chef;

#[test]
fn fixed_greetings() {
    assert_eq!(api::hello(), "hello world!");
    assert_eq!(api::graphql_hello(), "Hello GraphQL");
}

#[test]
fn write_api_partials() {
    let b = bakery::ActiveModel::with_name(String::from("Happy Bakery"));
    assert_eq!(b.name, Some(String::from("Happy Bakery")));
    assert_eq!(b.profit_margin_bits, Some(bakery::DEFAULT_PROFIT_MARGIN_BITS));

    let c = chef::ActiveModel::with_name_and_bakery(String::from("John"), 1);
    assert_eq!(c.name, Some(String::from("John")));
    assert_eq!(c.contact_details, None);
    assert_eq!(c.bakery_id, Some(1));
}

#[test]
fn relationship_declaration() {
    let rel = bakery::Relation::Chef;
    assert_eq!(rel.related_table(), "chef");
    assert_eq!(rel.foreign_key_column(), "bakery_id");
}
