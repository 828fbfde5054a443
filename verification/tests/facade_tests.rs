use bakery_data::entities::bakery;
use bakery_data::entities::chef;
use bakery_data::error::StoreError;
use bakery_data::facade::ScriptedFacade;

fn bakery_model(id: i32, name: &str, margin: f64) -> bakery::Model {
    bakery::Model {
        id,
        name: name.to_string(),
        profit_margin_bits: margin.to_bits(),
    }
}

fn chef_model(id: i32, name: &str, bakery_id: i32) -> chef::Model {
    chef::Model {
        id,
        name: name.to_string(),
        contact_details: None,
        bakery_id,
    }
}

#[test]
fn scripted_batches_are_consumed_in_order() {
    let mut facade: ScriptedFacade<bakery::Model> = ScriptedFacade::new();
    facade.append_query_results(vec![
        vec![bakery_model(1, "Happy Bakery", 0.0)],
        vec![
            bakery_model(1, "Happy Bakery", 0.0),
            bakery_model(2, "Sad Bakery", 100.0),
            bakery_model(3, "La Boulangerie", 17.89),
        ],
    ]);
    assert_eq!(facade.remaining(), 2);

    let first = facade.fetch_next("a statement the facade never reads").unwrap();
    assert_eq!(first, vec![bakery_model(1, "Happy Bakery", 0.0)]);

    let second = facade.fetch_next("a completely different statement").unwrap();
    assert_eq!(
        second,
        vec![
            bakery_model(1, "Happy Bakery", 0.0),
            bakery_model(2, "Sad Bakery", 100.0),
            bakery_model(3, "La Boulangerie", 17.89),
        ]
    );

    assert_eq!(facade.remaining(), 0);
    assert_eq!(
        facade.fetch_next("one read too many"),
        Err(StoreError::Connection)
    );
}

#[test]
fn scripted_chef_batch_replays() {
    let mut facade: ScriptedFacade<chef::Model> = ScriptedFacade::new();
    facade.append_query_results(vec![vec![
        chef_model(1, "Jolie", 3),
        chef_model(2, "Charles", 3),
        chef_model(3, "Madeleine", 3),
        chef_model(4, "Frederic", 3),
    ]]);
    let batch = facade.fetch_next("list the chefs").unwrap();
    assert_eq!(batch.len(), 4);
    assert_eq!(batch[0].name, "Jolie");
    assert_eq!(batch[1].name, "Charles");
    assert_eq!(batch[2].name, "Madeleine");
    assert_eq!(batch[3].name, "Frederic");
    for c in &batch {
        assert_eq!(c.bakery_id, 3);
        assert_eq!(c.contact_details, None);
    }
}

#[test]
fn fetch_ignores_statement_content() {
    let script = vec![vec![bakery_model(9, "Same Either Way", 1.5)]];
    let mut one: ScriptedFacade<bakery::Model> = ScriptedFacade::new();
    one.append_query_results(script.clone());
    let mut two: ScriptedFacade<bakery::Model> = ScriptedFacade::new();
    two.append_query_results(script);

    let from_one = one.fetch_next("SELECT nothing in particular").unwrap();
    let from_two = two.fetch_next("DELETE everything, please").unwrap();
    assert_eq!(from_one, from_two);
}

#[test]
fn appends_extend_the_script_in_order() {
    let mut facade: ScriptedFacade<bakery::Model> = ScriptedFacade::new();
    assert_eq!(facade.remaining(), 0);
    facade.append_query_results(vec![vec![bakery_model(1, "First", 0.0)]]);
    let n = facade.append_query_results(vec![vec![bakery_model(2, "Second", 0.0)]]);
    assert_eq!(n, 2);
    assert_eq!(facade.fetch_next("x").unwrap()[0].id, 1);
    assert_eq!(facade.fetch_next("y").unwrap()[0].id, 2);
}

#[test]
fn exhausted_facade_stays_exhausted() {
    let mut facade: ScriptedFacade<bakery::Model> = ScriptedFacade::new();
    assert_eq!(facade.fetch_next("first try"), Err(StoreError::Connection));
    assert_eq!(facade.fetch_next("second try"), Err(StoreError::Connection));
}
