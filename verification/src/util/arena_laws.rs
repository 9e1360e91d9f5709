//! What holds of every arena, stated over the model and proved once.

use vstd::prelude::*;
use crate::util::arena_model::{ArenaError, ArenaView};
use crate::util::{decodes, encodes, round_trips, Byteable};

verus! {

/// Allocating keeps an arena well formed.
pub proof fn law_alloc_keeps_wf(a: ArenaView, bytes: Seq<u8>, label: Seq<char>)
    requires
        a.wf(),
    ensures
        a.alloc_raw(bytes, label).wf(),
{
    let b = a.alloc_raw(bytes, label);
    assert forall|l: Seq<char>| #[trigger] b.index.contains_key(l) <==> b.labels.contains(l) by {
        if !a.has(label) {
            assert(b.labels.last() == label);
            if a.labels.contains(l) {
                let i = choose|i: int| 0 <= i < a.labels.len() && a.labels[i] == l;
                assert(b.labels[i] == l);
            }
        }
    }
}

/// An in-place write keeps an arena well formed.
pub proof fn law_insert_keeps_wf(a: ArenaView, bytes: Seq<u8>, label: Seq<char>)
    requires
        a.wf(),
        a.insert_raw(bytes, label) is Ok,
    ensures
        a.insert_raw(bytes, label)->Ok_0.wf(),
        a.insert_raw(bytes, label)->Ok_0.data.len() == a.data.len(),
{
}

/// Bytes allocated under a label are the bytes read back under it.
pub proof fn law_alloc_then_get_bytes(a: ArenaView, bytes: Seq<u8>, label: Seq<char>)
    ensures
        a.alloc_raw(bytes, label).get_bytes(label) == Some(bytes),
        a.alloc_raw(bytes, label).get_length(label) == Some(bytes.len() as int),
{
}

/// A value allocated under a label is the value read back under it, for every
/// type whose reader inverts its writer: `bytes` stands for what the writer
/// gave, `read` for what the reader made of the stored bytes.
pub proof fn law_round_trip<T: Byteable>(
    a: ArenaView,
    value: T,
    bytes: Seq<u8>,
    label: Seq<char>,
    read: Option<T>,
)
    requires
        round_trips::<T>(),
        encodes(value, bytes),
        decodes(a.alloc_raw(bytes, label).get_bytes(label)->0, read),
    ensures
        read == Some(value),
{
    law_alloc_then_get_bytes(a, bytes, label);
}

/// After a write of the slot's own length, a read gives the new bytes.
pub proof fn law_insert_then_get_bytes(a: ArenaView, bytes: Seq<u8>, label: Seq<char>)
    requires
        a.wf(),
        a.get_length(label) == Some(bytes.len() as int),
    ensures
        a.insert_raw(bytes, label) is Ok,
        a.insert_raw(bytes, label)->Ok_0.get_bytes(label) == Some(bytes),
        a.insert_raw(bytes, label)->Ok_0.span(label) == a.span(label),
{
}

/// A write of the same length after an allocation replaces what a read gives:
/// the second value, not the first.
pub proof fn law_update_visible(a: ArenaView, first: Seq<u8>, second: Seq<u8>, label: Seq<char>)
    requires
        a.wf(),
        first.len() == second.len(),
    ensures
        a.alloc_raw(first, label).insert_raw(second, label) is Ok,
        a.alloc_raw(first, label).insert_raw(second, label)->Ok_0.get_bytes(label) == Some(second),
{
}

/// The typed form of [`law_update_visible`].
pub proof fn law_update_visible_typed<T: Byteable>(
    a: ArenaView,
    first: Seq<u8>,
    value: T,
    second: Seq<u8>,
    label: Seq<char>,
    read: Option<T>,
)
    requires
        a.wf(),
        round_trips::<T>(),
        encodes(value, second),
        first.len() == second.len(),
        decodes(a.alloc_raw(first, label).insert_raw(second, label)->Ok_0.get_bytes(label)->0, read),
    ensures
        read == Some(value),
{
    law_update_visible(a, first, second, label);
}

/// A write whose length differs from the slot's is refused as a size mismatch
/// that names both lengths.
pub proof fn law_size_mismatch(a: ArenaView, bytes: Seq<u8>, label: Seq<char>)
    requires
        a.has(label),
        a.get_length(label) != Some(bytes.len() as int),
    ensures
        a.insert_raw(bytes, label) == Err::<ArenaView, ArenaError>(
            ArenaError::SizeMismatch {
                expected: a.get_length(label)->0 as usize,
                found: bytes.len() as usize,
            },
        ),
{
}

/// An unknown label reads as nothing and cannot be written.
pub proof fn law_missing_label(a: ArenaView, bytes: Seq<u8>, label: Seq<char>)
    requires
        !a.has(label),
    ensures
        a.get_bytes(label) is None,
        a.get_length(label) is None,
        a.span(label) is None,
        a.insert_raw(bytes, label) == Err::<ArenaView, ArenaError>(ArenaError::LabelNotFound),
{
}

/// Allocating under one label changes neither the range nor the bytes of any
/// other label.
pub proof fn law_alloc_leaves_others(
    a: ArenaView,
    bytes: Seq<u8>,
    label: Seq<char>,
    other: Seq<char>,
)
    requires
        a.wf(),
        other != label,
    ensures
        a.alloc_raw(bytes, label).span(other) == a.span(other),
        a.alloc_raw(bytes, label).get_bytes(other) == a.get_bytes(other),
        a.alloc_raw(bytes, label).get_length(other) == a.get_length(other),
{
    if a.has(other) {
        let span = a.index[other];
        assert(a.alloc_raw(bytes, label).data.subrange(span.start, span.end) =~= a.data.subrange(
            span.start,
            span.end,
        ));
    }
}

/// Writing one label in place changes neither the range nor the bytes of any
/// other label.
pub proof fn law_insert_leaves_others(
    a: ArenaView,
    bytes: Seq<u8>,
    label: Seq<char>,
    other: Seq<char>,
)
    requires
        a.wf(),
        other != label,
        a.insert_raw(bytes, label) is Ok,
    ensures
        a.insert_raw(bytes, label)->Ok_0.span(other) == a.span(other),
        a.insert_raw(bytes, label)->Ok_0.get_bytes(other) == a.get_bytes(other),
        a.insert_raw(bytes, label)->Ok_0.get_length(other) == a.get_length(other),
{
    if a.has(other) {
        let span = a.index[other];
        assert(a.insert_raw(bytes, label)->Ok_0.data.subrange(span.start, span.end)
            =~= a.data.subrange(span.start, span.end));
    }
}

} // verus!
