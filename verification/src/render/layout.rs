//! The layout of a vertex or an instance in a buffer: its attributes, packed
//! one behind the other.

use vstd::prelude::*;

verus! {

/// The bytes of one lane of an attribute: a 32-bit float.
pub const LANE_BYTES: u64 = 4;

/// One attribute of a layout: where it starts, the shader location it is
/// bound to, and the number of lanes it has.
#[derive(Debug, Clone, Copy, PartialEq, Eq, Structural)]
pub struct Attribute {
    pub offset: u64,
    pub shader_location: u32,
    pub lanes: u32,
}

/// The number of lanes in all of `lanes`.
pub open spec fn total_lanes(lanes: Seq<u32>) -> nat
    decreases lanes.len(),
{
    if lanes.len() == 0 {
        0
    } else {
        total_lanes(lanes.drop_last()) + lanes.last() as nat
    }
}

/// The attribute at place `i` of the packed layout of `lanes`: it starts
/// where those before it end, and is bound to the location `i` after `first`.
pub open spec fn packed_at(lanes: Seq<u32>, first: u32, i: int) -> Attribute {
    Attribute {
        offset: (LANE_BYTES * total_lanes(lanes.take(i))) as u64,
        shader_location: (first + i) as u32,
        lanes: lanes[i],
    }
}

/// The packed layout of `lanes` can be written down: every location fits in
/// 32 bits, and every offset and the stride in 64.
pub open spec fn packs(lanes: Seq<u32>, first: u32) -> bool {
    first + lanes.len() <= u32::MAX + 1 && LANE_BYTES * total_lanes(lanes) <= u64::MAX
}

/// The number of lanes grows along a sequence.
pub proof fn lemma_total_lanes_grows(lanes: Seq<u32>, i: int)
    requires
        0 <= i <= lanes.len(),
    ensures
        total_lanes(lanes.take(i)) <= total_lanes(lanes),
    decreases lanes.len() - i,
{
    if i < lanes.len() {
        assert(lanes.take(i + 1).drop_last() =~= lanes.take(i));
        lemma_total_lanes_grows(lanes, i + 1);
    } else {
        assert(lanes.take(i) =~= lanes);
    }
}

/// The attributes of the layout that packs attributes of the given numbers
/// of lanes one behind the other, bound to the locations from `first_location`
/// on, and the stride of the layout in bytes. Nothing when a location or the
/// stride cannot be written down.
pub fn packed_layout(lanes: &[u32], first_location: u32) -> (r: Option<(Vec<Attribute>, u64)>)
    ensures
        r is Some <==> packs(lanes@, first_location),
        r matches Some((attributes, stride)) ==> {
            &&& stride == LANE_BYTES * total_lanes(lanes@)
            &&& attributes@.len() == lanes@.len()
            &&& forall|i: int|
                0 <= i < lanes@.len() ==> #[trigger] attributes@[i] == packed_at(
                    lanes@,
                    first_location,
                    i,
                )
        },
{
    let mut attributes: Vec<Attribute> = Vec::new();
    let mut offset: u64 = 0;
    let mut i: usize = 0;
    assert(lanes@.take(0) =~= Seq::<u32>::empty());
    while i < lanes.len()
        invariant
            0 <= i <= lanes@.len(),
            offset == LANE_BYTES * total_lanes(lanes@.take(i as int)),
            first_location + i <= u32::MAX + 1,
            attributes@.len() == i,
            forall|k: int|
                0 <= k < i ==> #[trigger] attributes@[k] == packed_at(lanes@, first_location, k),
        decreases lanes@.len() - i,
    {
        proof {
            assert(lanes@.take(i + 1).drop_last() =~= lanes@.take(i as int));
            lemma_total_lanes_grows(lanes@, i + 1);
            lemma_total_lanes_grows(lanes@, i as int);
        }
        if i as u64 > u32::MAX as u64 - first_location as u64 {
            return None;
        }
        let width = LANE_BYTES * lanes[i] as u64;
        if width > u64::MAX - offset {
            return None;
        }
        attributes.push(
            Attribute {
                offset,
                shader_location: first_location + i as u32,
                lanes: lanes[i],
            },
        );
        offset = offset + width;
        i += 1;
    }
    assert(lanes@.take(i as int) =~= lanes@);
    Some((attributes, offset))
}

} // verus!
