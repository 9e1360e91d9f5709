//! The sprite component.

use vstd::prelude::*;
use vstd::bytes::{
    lemma_auto_spec_u32_to_from_le_bytes, lemma_auto_spec_u64_to_from_le_bytes,
    spec_u32_from_le_bytes, spec_u32_to_le_bytes, spec_u64_from_le_bytes, spec_u64_to_le_bytes,
    u32_from_le_bytes, u32_to_le_bytes, u64_from_le_bytes, u64_to_le_bytes,
};
use vstd::slice::slice_subrange;
use crate::game::entity::{Entity, EntityView};
use crate::game::entity_views;
use crate::render::asset::MaterialId;
use crate::util::{decodes, encodes, round_trips, Byteable};

verus! {

/// What is drawn for an entity: a material, and the place of the entity among
/// the instances handed to the renderer.
#[derive(Debug, Clone, Copy, PartialEq, Eq, Structural)]
pub struct Sprite {
    pub material_id: MaterialId,
    pub instance_id: u32,
}

/// The bytes of a sprite: the material in eight bytes, then the instance in
/// four, both little endian.
pub open spec fn sprite_bytes(sprite: Sprite) -> Seq<u8> {
    spec_u64_to_le_bytes(sprite.material_id as u64) + spec_u32_to_le_bytes(sprite.instance_id)
}

/// The instance that stands for the entity `id`: the low 32 bits of it.
pub open spec fn instance_of(id: u64) -> u32 {
    (id % 0x1_0000_0000) as u32
}

impl Sprite {
    /// A sprite of the given material that is not attached to an entity yet.
    pub fn new(material_id: MaterialId) -> (r: Self)
        ensures
            r == (Sprite { material_id, instance_id: 0 }),
    {
        Sprite { material_id, instance_id: 0 }
    }

    /// Attaches the sprite to `entity`: takes the entity's instance and stores
    /// the sprite under the label `sprite`.
    pub fn to_entity(self, entity: &mut Entity)
        requires
            old(entity)@.arena.data.len() + 12 <= usize::MAX,
        ensures
            final(entity)@.wf(),
            final(entity)@ == (EntityView {
                id: old(entity)@.id,
                arena: old(entity)@.arena.alloc_raw(
                    sprite_bytes(
                        Sprite {
                            material_id: self.material_id,
                            instance_id: instance_of(old(entity)@.id),
                        },
                    ),
                    "sprite"@,
                ),
            }),
    {
        let attached = Sprite {
            material_id: self.material_id,
            instance_id: (entity.id() % 0x1_0000_0000) as u32,
        };
        entity.mut_data().allocate(attached, "sprite");
    }
}

impl Byteable for Sprite {
    fn size() -> (n: usize)
        ensures
            n == 12,
    {
        12
    }

    fn from_bytes(bytes: &[u8]) -> (r: Option<Self>)
        ensures
            r == sprite_read(bytes@),
    {
        if bytes.len() != 12 {
            return None;
        }
        let material = u64_from_le_bytes(slice_subrange(bytes, 0, 8));
        let instance = u32_from_le_bytes(slice_subrange(bytes, 8, 12));
        if material > usize::MAX as u64 {
            return None;
        }
        Some(Sprite { material_id: material as usize, instance_id: instance })
    }

    fn into_bytes(self) -> (out: Vec<u8>)
        ensures
            out@ == sprite_bytes(self),
            out@.len() == 12,
    {
        let mut out = u64_to_le_bytes(self.material_id as u64);
        let mut instance = u32_to_le_bytes(self.instance_id);
        out.append(&mut instance);
        out
    }
}

/// The sprite that `bytes` are the representation of, if they are one.
pub open spec fn sprite_read(bytes: Seq<u8>) -> Option<Sprite> {
    if bytes.len() == 12 && spec_u64_from_le_bytes(bytes.subrange(0, 8)) <= usize::MAX {
        Some(
            Sprite {
                material_id: spec_u64_from_le_bytes(bytes.subrange(0, 8)) as usize,
                instance_id: spec_u32_from_le_bytes(bytes.subrange(8, 12)),
            },
        )
    } else {
        None
    }
}

/// One draw of a sprite: the material, and the instances `first..end` to draw
/// with it.
#[derive(Debug, Clone, Copy, PartialEq, Eq, Structural)]
pub struct SpriteDraw {
    pub material_id: MaterialId,
    pub first_instance: u32,
    pub end_instance: u32,
}

/// The draw that an entity calls for: that of its own instance, when it holds
/// a sprite whose material is among the `materials` loaded.
pub open spec fn draw_of(entity: EntityView, materials: int) -> Option<SpriteDraw> {
    match entity.arena.get_bytes("sprite"@) {
        Some(bytes) => match sprite_read(bytes) {
            Some(sprite) => if sprite.material_id < materials && sprite.instance_id < u32::MAX {
                Some(
                    SpriteDraw {
                        material_id: sprite.material_id,
                        first_instance: sprite.instance_id,
                        end_instance: (sprite.instance_id + 1) as u32,
                    },
                )
            } else {
                None
            },
            None => None,
        },
        None => None,
    }
}

/// The draws that the entities call for, in entity order.
pub open spec fn draws_of(entities: Seq<EntityView>, materials: int) -> Seq<SpriteDraw>
    decreases entities.len(),
{
    if entities.len() == 0 {
        Seq::empty()
    } else {
        let before = draws_of(entities.drop_last(), materials);
        match draw_of(entities.last(), materials) {
            Some(draw) => before.push(draw),
            None => before,
        }
    }
}

/// The draws of one frame: one for each entity that holds a sprite of a
/// loaded material, in entity order.
pub fn sprite_draws(entities: &Vec<Entity>, materials: usize) -> (r: Vec<SpriteDraw>)
    ensures
        r@ == draws_of(entity_views(entities@), materials as int),
{
    let ghost views = entity_views(entities@);
    let mut out: Vec<SpriteDraw> = Vec::new();
    let mut i: usize = 0;
    while i < entities.len()
        invariant
            views == entity_views(entities@),
            0 <= i <= entities@.len(),
            out@ == draws_of(views.subrange(0, i as int), materials as int),
        decreases entities@.len() - i,
    {
        proof {
            let next = views.subrange(0, i + 1);
            assert(next.drop_last() =~= views.subrange(0, i as int));
        }
        match entities[i].data().get::<Sprite>("sprite") {
            Some(sprite) => {
                if sprite.material_id < materials && sprite.instance_id < u32::MAX {
                    out.push(
                        SpriteDraw {
                            material_id: sprite.material_id,
                            first_instance: sprite.instance_id,
                            end_instance: sprite.instance_id + 1,
                        },
                    );
                }
            },
            None => {},
        }
        i += 1;
    }
    assert(views.subrange(0, i as int) =~= views);
    out
}

/// Reading a sprite gives back what was written.
pub proof fn law_sprite_round_trips()
    ensures
        round_trips::<Sprite>(),
{
    lemma_auto_spec_u32_to_from_le_bytes();
    lemma_auto_spec_u64_to_from_le_bytes();
    assert forall|value: Sprite, bytes: Seq<u8>, r: Option<Sprite>|
        encodes(value, bytes) && decodes(bytes, r) implies r == Some(value) by {
        let material = spec_u64_to_le_bytes(value.material_id as u64);
        let instance = spec_u32_to_le_bytes(value.instance_id);
        assert(bytes.subrange(0, 8) =~= material);
        assert(bytes.subrange(8, 12) =~= instance);
    }
}

} // verus!
