use functional_game_engine::game::component::{
    Component, ComponentHolder, ComponentTable, ComponentType,
};
use functional_game_engine::game::entity::Entity;
use functional_game_engine::game::GameState;

struct Comp1 {
    x: i32,
}

struct Comp2 {
    a: i32,
    b: i32,
}

impl ComponentType for Comp1 {
    fn static_type_identifier() -> &'static str {
        "Comp1"
    }
}

impl ComponentType for Comp2 {
    fn static_type_identifier() -> &'static str {
        "Comp2"
    }
}

#[test]
fn test_as_type() {
    let comp1_box: Box<dyn Component> = Box::new(Comp1 { x: 10 });
    let comp1 = comp1_box.as_type::<Comp1>();
    assert!(
        comp1.is_ok(),
        "Component::as_type failed: returned None when typecast should have been valid!"
    );
    assert_eq!(
        comp1.unwrap().x,
        10,
        "Component::as_type failed: data inside the component was corrupted!"
    );
    let error = comp1_box.as_type::<Comp2>();
    assert!(error.is_err(), "Component::as_type failed: function did an invalid cast!");
}

#[test]
fn test_as_mut_type() {
    let mut comp2_box: Box<dyn Component> = Box::new(Comp2 { a: 5, b: 9 });
    {
        let comp2 = comp2_box.as_mut_type::<Comp2>();
        assert!(
            comp2.is_ok(),
            "Component::as_mut_type failed: returned None when typecast should have been valid!"
        );

        let c = comp2.unwrap();
        c.a = 10;
        c.b = c.a + 5;
    }
    assert_eq!(
        comp2_box.as_mut_type::<Comp2>().unwrap().a,
        10,
        "Component::as_mut_type failed: data inside the component was corrupted!"
    );
    assert_eq!(
        comp2_box.as_mut_type::<Comp2>().unwrap().b,
        15,
        "Component::as_mut_type failed: data inside the component was corrupted!"
    );

    let error = comp2_box.as_mut_type::<Comp1>();
    assert!(error.is_err(), "Component::as_mut_type failed: function did an invalid cast!");
}

/// A component that goes by the name of another type.
struct Impostor;

impl ComponentType for Impostor {
    fn static_type_identifier() -> &'static str {
        "Comp1"
    }
}

#[test]
fn cast_error_names_both_types() {
    let comp: Box<dyn Component> = Box::new(Comp2 { a: 1, b: 2 });
    let error = comp.as_type::<Comp1>().err().unwrap();
    assert_eq!(error.found, "Comp2");
    assert_eq!(error.wanted, "Comp1");
    assert_eq!(error.message(), "Component of Comp2 was wrongly tried to be cast as Comp1");
}

#[test]
fn a_shared_name_does_not_make_a_cast() {
    let mut comp: Box<dyn Component> = Box::new(Impostor);
    assert!(comp.as_type::<Comp1>().is_err());
    assert!(comp.as_mut_type::<Comp1>().is_err());
    assert!(comp.as_type::<Impostor>().is_ok());
}

#[test]
fn table_files_components_by_type_and_finds_them_by_entity() {
    let mut table = ComponentTable::new();
    table.insert_component_holder(ComponentHolder { entity_id: 1, data: Box::new(Comp1 { x: 1 }) });
    table.insert_component_holder(ComponentHolder { entity_id: 2, data: Box::new(Comp2 { a: 2, b: 0 }) });
    table.insert_component_holder(ComponentHolder { entity_id: 2, data: Box::new(Comp1 { x: 3 }) });
    table.insert_component_holder(ComponentHolder { entity_id: 1, data: Box::new(Comp2 { a: 4, b: 0 }) });

    let of_two = table.entity_components(2);
    assert_eq!(of_two.len(), 2);
    assert_eq!(of_two[0].data.as_type::<Comp1>().unwrap().x, 3);
    assert_eq!(of_two[1].data.as_type::<Comp2>().unwrap().a, 2);

    let of_one = table.entity_components(1);
    assert_eq!(of_one.len(), 2);
    assert_eq!(of_one[0].data.as_type::<Comp1>().unwrap().x, 1);
    assert_eq!(of_one[1].data.as_type::<Comp2>().unwrap().b, 0);

    assert!(table.entity_components(3).is_empty());
}

#[test]
fn entity_files_its_components_under_its_identifier() {
    let mut table = ComponentTable::new();
    let entity = Entity::new(9);
    entity.add_comp(&mut table, Box::new(Comp1 { x: 5 }));
    let held = table.entity_components(9);
    assert_eq!(held.len(), 1);
    assert_eq!(held[0].entity_id, 9);
    assert_eq!(held[0].data.as_type::<Comp1>().unwrap().x, 5);
}

#[test]
fn simulation_files_components_for_its_entities() {
    let mut state = GameState::new();
    state.new_entity();
    let second = state.new_entity();
    assert!(state.add_comp(1, Box::new(Comp1 { x: 8 })));
    assert!(!state.add_comp(2, Box::new(Comp1 { x: 9 })));
    assert!(state.component_table().entity_components(0).is_empty());
    let held = state.component_table().entity_components(second);
    assert_eq!(held.len(), 1);
    assert_eq!(held[0].data.as_type::<Comp1>().unwrap().x, 8);

    state
        .component_table_mut()
        .insert_component_holder(ComponentHolder { entity_id: 0, data: Box::new(Comp2 { a: 1, b: 2 }) });
    assert_eq!(state.component_table().entity_components(0).len(), 1);
}
