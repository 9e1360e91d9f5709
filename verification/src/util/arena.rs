//! The component arena: an append-only byte buffer with a label index.

use vstd::prelude::*;
use vstd::hash_map::StringHashMap;
use vstd::slice::slice_subrange;
use vstd::string::StringExecFns;
use vstd::slice::slice_to_vec;
use crate::util::arena_laws::law_alloc_keeps_wf;
use crate::util::arena_model::{ArenaError, ArenaView, Span};
use crate::util::decimal::to_decimal;
use crate::util::{decodes, decodes_either, encodes, sized, Byteable, Either};

verus! {

/// Label-indexed storage for the components of one entity.
///
/// Values are kept as raw bytes, one contiguous range per label. The buffer
/// only grows: allocating a label again appends a new range and leaves the old
/// bytes behind.
pub struct ComponentArena {
    data: Vec<u8>,
    index: StringHashMap<(usize, usize)>,
    names: Vec<String>,
}

/// `Vec::index_mut` of the standard library, with a range: the bytes
/// `start..end` of `data`, for writing. A slice keeps its length, and what is
/// written through it is written to `data` at the same place; nothing else of
/// `data` changes. Within the bounds required, the call does not panic.
#[verifier::external_body]
fn range_mut(data: &mut Vec<u8>, start: usize, end: usize) -> (r: &mut [u8])
    requires
        start <= end <= old(data)@.len(),
    ensures
        r@ == old(data)@.subrange(start as int, end as int),
        final(r)@.len() == r@.len(),
        final(data)@ == old(data)@.subrange(0, start as int) + final(r)@ + old(data)@.subrange(
            end as int,
            old(data)@.len() as int,
        ),
    no_unwind
{
    &mut data[start..end]
}

/// The arena that the three parts of the representation stand for.
spec fn view_of(
    data: Vec<u8>,
    index: StringHashMap<(usize, usize)>,
    names: Vec<String>,
) -> ArenaView {
    ArenaView {
        data: data@,
        index: index@.map_values(|r: (usize, usize)| Span { start: r.0 as int, end: r.1 as int }),
        labels: names@.map_values(|s: String| s@),
    }
}

impl View for ComponentArena {
    type V = ArenaView;

    closed spec fn view(&self) -> ArenaView {
        view_of(self.data, self.index, self.names)
    }
}

impl ComponentArena {
    /// What holds of every arena at every moment: it is well formed.
    #[verifier::type_invariant]
    pub open spec fn inv(&self) -> bool {
        self@.wf()
    }

    /// An arena without labels and without bytes.
    pub fn new() -> (r: Self)
        ensures
            r@.wf(),
            r@ == ArenaView::empty(),
    {
        let r = ComponentArena { data: Vec::new(), index: StringHashMap::new(), names: Vec::new() };
        r
    }

    /// The number of bytes in the buffer, orphaned ranges included.
    pub fn buffer_len(&self) -> (r: usize)
        ensures
            r == self@.data.len(),
    {
        self.data.len()
    }

    /// Whether `label` was allocated.
    pub fn has(&self, label: &str) -> (r: bool)
        ensures
            self@.wf(),
            r == self@.has(label@),
    {
        proof {
            use_type_invariant(self);
        }
        self.index.contains_key(label)
    }

    /// The number of bytes stored under `label`.
    pub fn get_length(&self, label: &str) -> (r: Option<usize>)
        ensures
            self@.wf(),
            match r {
                Some(n) => self@.get_length(label@) == Some(n as int),
                None => self@.get_length(label@) is None,
            },
    {
        proof {
            use_type_invariant(self);
        }
        match self.index.get(label) {
            Some(range) => Some(range.1 - range.0),
            None => None,
        }
    }

    /// The bytes stored under `label`.
    pub fn get_bytes(&self, label: &str) -> (r: Option<&[u8]>)
        ensures
            self@.wf(),
            match r {
                Some(bytes) => self@.get_bytes(label@) == Some(bytes@),
                None => self@.get_bytes(label@) is None,
            },
    {
        proof {
            use_type_invariant(self);
        }
        match self.index.get(label) {
            Some(range) => Some(slice_subrange(self.data.as_slice(), range.0, range.1)),
            None => None,
        }
    }

    /// The bytes stored under `label`, for writing in place. The arena is the
    /// same but for what is written through the slice handed out.
    pub fn get_mut_bytes(&mut self, label: &str) -> (r: Option<&mut [u8]>)
        ensures
            old(self)@.wf(),
            final(self)@.wf(),
            match r {
                Some(bytes) => old(self)@.get_bytes(label@) == Some(bytes@) && final(bytes)@.len()
                    == bytes@.len() && final(self)@ == (ArenaView {
                    data: old(self)@.overwrite(old(self)@.index[label@], final(bytes)@),
                    ..old(self)@
                }),
                None => old(self)@.get_bytes(label@) is None && final(self)@ == old(self)@,
            },
    {
        proof {
            use_type_invariant(&*self);
        }
        let (start, end) = match self.index.get(label) {
            Some(range) => *range,
            None => {
                return None;
            },
        };
        Some(range_mut(&mut self.data, start, end))
    }

    /// The labels of this arena, in the order in which they were first allocated.
    pub fn labels(&self) -> (r: Vec<String>)
        ensures
            self@.wf(),
            r@.map_values(|s: String| s@) == self@.labels,
    {
        proof {
            use_type_invariant(self);
        }
        let mut out: Vec<String> = Vec::new();
        let mut i: usize = 0;
        while i < self.names.len()
            invariant
                0 <= i <= self.names@.len(),
                out@ =~= self.names@.subrange(0, i as int),
            decreases self.names@.len() - i,
        {
            out.push(self.names[i].clone());
            i += 1;
        }
        out
    }

    /// A listing of the labels with their ranges, `[start <-- label --> end]`
    /// for each, in the order in which the labels were first allocated.
    pub fn get_content_string(&self) -> (r: String)
        ensures
            self@.wf(),
            r@ == self@.content_text(),
    {
        proof {
            use_type_invariant(self);
        }
        let mut out = String::new();
        let mut i: usize = 0;
        while i < self.names.len()
            invariant
                self@.wf(),
                0 <= i <= self.names@.len(),
                out@ == self@.listing(i as int),
            decreases self.names@.len() - i,
        {
            let name = self.names[i].as_str();
            assert(self@.labels[i as int] == name@);
            let range = match self.index.get(name) {
                Some(range) => *range,
                None => (0, 0),
            };
            proof {
                reveal_strlit("[");
                reveal_strlit(" <-- ");
                reveal_strlit(" --> ");
                reveal_strlit("]");
            }
            out.append("[");
            out.append(to_decimal(range.0).as_str());
            out.append(" <-- ");
            out.append(name);
            out.append(" --> ");
            out.append(to_decimal(range.1).as_str());
            out.append("]");
            proof {
                assert(self@.index.contains_key(name@));
            }
            i += 1;
        }
        out
    }

    /// Appends `data` to the buffer and records the new range under `label`.
    pub fn alloc_raw(&mut self, data: &[u8], label: &str)
        requires
            old(self)@.data.len() + data@.len() <= usize::MAX,
        ensures
            final(self)@.wf(),
            final(self)@ == old(self)@.alloc_raw(data@, label@),
    {
        proof {
            use_type_invariant(&*self);
        }
        let mut taken = ComponentArena::new();
        core::mem::swap(self, &mut taken);
        let ComponentArena { data: mut bytes, mut index, mut names } = taken;
        let start = bytes.len();
        let end = start + data.len();
        if !index.contains_key(label) {
            names.push(label.to_string());
        }
        index.insert(label.to_string(), (start, end));
        let mut tail = slice_to_vec(data);
        bytes.append(&mut tail);
        proof {
            let goal = old(self)@.alloc_raw(data@, label@);
            let made = view_of(bytes, index, names);
            assert(made =~= goal);
            law_alloc_keeps_wf(old(self)@, data@, label@);
        }
        *self = ComponentArena { data: bytes, index, names };
    }

    /// Overwrites the bytes stored under `label` with `data`, in place.
    ///
    /// Nothing is written unless the label exists and `data` has exactly the
    /// length of its slot.
    pub fn insert_raw(&mut self, data: &[u8], label: &str) -> (r: Result<(), ArenaError>)
        ensures
            final(self)@.wf(),
            match old(self)@.insert_raw(data@, label@) {
                Ok(after) => r is Ok && final(self)@ == after,
                Err(e) => r == Err::<(), ArenaError>(e) && final(self)@ == old(self)@,
            },
    {
        proof {
            use_type_invariant(&*self);
        }
        let (start, end) = match self.index.get(label) {
            None => {
                return Err(ArenaError::LabelNotFound);
            },
            Some(range) => *range,
        };
        if end - start != data.len() {
            return Err(ArenaError::SizeMismatch { expected: end - start, found: data.len() });
        }
        let ghost before = self@;
        let mut i: usize = 0;
        while i < data.len()
            invariant
                before.wf(),
                0 <= i <= data@.len(),
                start + data@.len() == end <= self.data@.len(),
                self.data@.len() == before.data.len(),
                self@.index == before.index,
                self@.labels == before.labels,
                forall|j: int|
                    0 <= j < self.data@.len() ==> self.data@[j] == if start <= j < start + i {
                        data@[j - start]
                    } else {
                        before.data[j]
                    },
            decreases data@.len() - i,
        {
            self.data[start + i] = data[i];
            i += 1;
        }
        Ok(())
    }

    /// Stores `data` under `label`, as [`Self::alloc_raw`] does with its bytes.
    pub fn allocate<T: Byteable>(&mut self, data: T, label: &str)
        requires
            forall|bytes: Seq<u8>| #[trigger]
                encodes(data, bytes) ==> old(self)@.data.len() + bytes.len() <= usize::MAX,
        ensures
            final(self)@.wf(),
            exists|bytes: Seq<u8>| #[trigger]
                encodes(data, bytes) && final(self)@ == old(self)@.alloc_raw(bytes, label@),
    {
        let bytes = data.into_bytes();
        assert(encodes(data, bytes@));
        self.alloc_raw(bytes.as_slice(), label);
    }

    /// Reads the value stored under `label`: a copy, decoded from the stored
    /// bytes. `None` when the label is unknown or `T` does not accept the bytes.
    pub fn get<T: Byteable>(&self, label: &str) -> (r: Option<T>)
        ensures
            self@.wf(),
            match self@.get_bytes(label@) {
                Some(bytes) => decodes(bytes, r),
                None => r is None,
            },
    {
        match self.get_bytes(label) {
            Some(bytes) => T::from_bytes(bytes),
            None => None,
        }
    }

    /// Overwrites the value stored under `label`, as [`Self::insert_raw`] does
    /// with the bytes of `data`.
    pub fn insert<T: Byteable>(&mut self, data: T, label: &str) -> (r: Result<(), ArenaError>)
        ensures
            final(self)@.wf(),
            exists|bytes: Seq<u8>| #[trigger]
                encodes(data, bytes) && match old(self)@.insert_raw(bytes, label@) {
                    Ok(after) => r is Ok && final(self)@ == after,
                    Err(e) => r == Err::<(), ArenaError>(e) && final(self)@ == old(self)@,
                },
    {
        let bytes = data.into_bytes();
        assert(encodes(data, bytes@));
        self.insert_raw(bytes.as_slice(), label)
    }

    /// Reads a slot that holds a value of one of two types, told apart by the
    /// stored length: an `A` when the length is that of `A`, else a `B` when it
    /// is that of `B`, else nothing.
    pub fn get_either<A: Byteable, B: Byteable>(&self, label: &str) -> (r: Option<Either<A, B>>)
        ensures
            self@.wf(),
            match self@.get_bytes(label@) {
                Some(bytes) => decodes_either(bytes, r),
                None => r is None,
            },
    {
        let bytes = match self.get_bytes(label) {
            Some(bytes) => bytes,
            None => {
                return None;
            },
        };
        let size_a = A::size();
        let size_b = B::size();
        assert(sized::<A>(size_a) && sized::<B>(size_b));
        if bytes.len() == size_a {
            let a = A::from_bytes(bytes);
            assert(decodes(bytes@, a));
            match a {
                Some(value) => Some(Either::This(value)),
                None => None,
            }
        } else if bytes.len() == size_b {
            let b = B::from_bytes(bytes);
            assert(decodes(bytes@, b));
            match b {
                Some(value) => Some(Either::That(value)),
                None => None,
            }
        } else {
            None
        }
    }
}

} // verus!
