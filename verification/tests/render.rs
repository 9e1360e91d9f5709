use functional_game_engine::game::entity::Entity;
use functional_game_engine::game::GameState;
use functional_game_engine::render::asset::{get_material_id, AssetsToLoad};
use functional_game_engine::render::layout::{packed_layout, Attribute};
use functional_game_engine::render::sprite::{sprite_draws, Sprite, SpriteDraw};
use functional_game_engine::util::Byteable;

#[test]
fn sprite_is_twelve_bytes() {
    let sprite = Sprite { material_id: 0x0102, instance_id: 0x0304 };
    assert_eq!(sprite.into_bytes(), vec![2, 1, 0, 0, 0, 0, 0, 0, 4, 3, 0, 0]);
    assert_eq!(Sprite::size(), 12);
    assert_eq!(Sprite::from_bytes(&[2, 1, 0, 0, 0, 0, 0, 0, 4, 3, 0, 0]), Some(sprite));
    assert_eq!(Sprite::from_bytes(&[2, 1, 0, 0]), None);
}

#[test]
fn new_sprite_has_no_instance() {
    assert_eq!(Sprite::new(3), Sprite { material_id: 3, instance_id: 0 });
}

#[test]
fn sprite_takes_the_instance_of_its_entity() {
    let mut entity = Entity::new(5);
    Sprite::new(2).to_entity(&mut entity);
    assert_eq!(entity.data().get::<Sprite>("sprite"), Some(Sprite { material_id: 2, instance_id: 5 }));

    let mut far = Entity::new(0x1_0000_0007);
    Sprite::new(0).to_entity(&mut far);
    assert_eq!(far.data().get::<Sprite>("sprite"), Some(Sprite { material_id: 0, instance_id: 7 }));
}

#[test]
fn draws_follow_the_entities() {
    let mut state = GameState::new();
    Sprite::new(1).to_entity(state.new_entity_mut());
    state.new_entity();
    Sprite::new(0).to_entity(state.new_entity_mut());
    Sprite::new(2).to_entity(state.new_entity_mut());
    state.new_entity_mut().mut_data().allocate(1u8, "sprite");
    state
        .new_entity_mut()
        .mut_data()
        .allocate(Sprite { material_id: 0, instance_id: u32::MAX }, "sprite");
    assert_eq!(
        sprite_draws(state.entities(), 2),
        vec![
            SpriteDraw { material_id: 1, first_instance: 0, end_instance: 1 },
            SpriteDraw { material_id: 0, first_instance: 2, end_instance: 3 },
        ]
    );
    assert!(sprite_draws(state.entities(), 0).is_empty());
}

#[test]
fn materials_are_found_by_name() {
    let assets = AssetsToLoad {
        texture_files: vec!["cat.png".to_string(), "dog.png".to_string(), "cat.png".to_string()],
    };
    assert_eq!(get_material_id(&assets.texture_files, "cat.png"), Some(0));
    assert_eq!(get_material_id(&assets.texture_files, "dog.png"), Some(1));
    assert_eq!(get_material_id(&assets.texture_files, "bird.png"), None);
}

#[test]
fn attributes_are_packed_one_behind_the_other() {
    let (attributes, stride) = packed_layout(&[4, 4, 4, 4, 3, 3, 3], 5).unwrap();
    let offsets: Vec<u64> = attributes.iter().map(|a| a.offset).collect();
    let locations: Vec<u32> = attributes.iter().map(|a| a.shader_location).collect();
    assert_eq!(offsets, vec![0, 16, 32, 48, 64, 76, 88]);
    assert_eq!(locations, vec![5, 6, 7, 8, 9, 10, 11]);
    assert_eq!(stride, 100);
    assert_eq!(attributes[4], Attribute { offset: 64, shader_location: 9, lanes: 3 });

    let (attributes, stride) = packed_layout(&[2, 2, 2], 2).unwrap();
    assert_eq!(attributes[2], Attribute { offset: 16, shader_location: 4, lanes: 2 });
    assert_eq!(stride, 24);
}

#[test]
fn a_layout_needs_room_for_its_locations() {
    assert_eq!(packed_layout(&[], 7), Some((vec![], 0)));
    assert!(packed_layout(&[1], u32::MAX).is_some());
    assert!(packed_layout(&[1, 1], u32::MAX).is_none());
    assert!(packed_layout(&[u32::MAX; 5], 0).is_some());
}
