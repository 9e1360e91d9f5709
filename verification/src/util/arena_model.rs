//! The mathematical model of an arena: what its operations mean, independent
//! of how the bytes and the index are held in memory.

use vstd::prelude::*;
use vstd::string::StringExecFns;
use crate::util::decimal::{decimal, to_decimal};

verus! {

/// Why a write into an arena was refused.
#[derive(Debug, Clone, Copy, PartialEq, Eq, Structural)]
pub enum ArenaError {
    /// The label was never allocated in this arena.
    LabelNotFound,
    /// The payload does not have the length of the slot recorded for the label.
    SizeMismatch { expected: usize, found: usize },
}

impl ArenaError {
    /// The text of the error.
    pub open spec fn text(self) -> Seq<char> {
        match self {
            ArenaError::LabelNotFound => "label does not exist!"@,
            ArenaError::SizeMismatch { expected, found } => "data of "@ + decimal(found as nat)
                + " bytes does not fit a slot of "@ + decimal(expected as nat) + " bytes!"@,
        }
    }

    /// The error in words.
    pub fn message(&self) -> (r: String)
        ensures
            r@ == self.text(),
    {
        match self {
            ArenaError::LabelNotFound => "label does not exist!".to_string(),
            ArenaError::SizeMismatch { expected, found } => {
                let mut out = "data of ".to_string();
                out.append(to_decimal(*found).as_str());
                out.append(" bytes does not fit a slot of ");
                out.append(to_decimal(*expected).as_str());
                out.append(" bytes!");
                out
            },
        }
    }
}

/// A half-open byte range `[start, end)` of an arena's buffer.
pub struct Span {
    pub start: int,
    pub end: int,
}

impl Span {
    /// The number of bytes in the range.
    pub open spec fn len(self) -> int {
        self.end - self.start
    }

    /// The range lies inside a buffer of `n` bytes.
    pub open spec fn within(self, n: int) -> bool {
        0 <= self.start <= self.end <= n
    }

    /// The two ranges share no byte.
    pub open spec fn disjoint(self, other: Span) -> bool {
        self.end <= other.start || other.end <= self.start
    }
}

/// One entry of a listing: `[start <-- label --> end]`, the numbers in decimal.
pub open spec fn entry_text(label: Seq<char>, span: Span) -> Seq<char> {
    seq!['['] + decimal(span.start as nat) + seq![' ', '<', '-', '-', ' '] + label + seq![
        ' ',
        '-',
        '-',
        '>',
        ' ',
    ] + decimal(span.end as nat) + seq![']']
}

/// An arena as a value: the buffer, the range recorded for each label, and the
/// labels in the order in which they were first allocated.
#[verifier::ext_equal]
pub struct ArenaView {
    pub data: Seq<u8>,
    pub index: Map<Seq<char>, Span>,
    pub labels: Seq<Seq<char>>,
}

impl ArenaView {
    /// The arena without labels and without bytes.
    pub open spec fn empty() -> Self {
        ArenaView { data: Seq::empty(), index: Map::empty(), labels: Seq::empty() }
    }

    /// Every recorded range lies inside the buffer, ranges of distinct labels
    /// do not overlap, and `labels` lists exactly the indexed labels, each once.
    pub open spec fn wf(self) -> bool {
        &&& forall|l: Seq<char>| #[trigger]
            self.index.contains_key(l) ==> self.index[l].within(self.data.len() as int)
        &&& forall|l1: Seq<char>, l2: Seq<char>|
            #![trigger self.index[l1], self.index[l2]]
            self.index.contains_key(l1) && self.index.contains_key(l2) && l1 != l2
                ==> self.index[l1].disjoint(self.index[l2])
        &&& self.labels.no_duplicates()
        &&& forall|l: Seq<char>| #[trigger] self.index.contains_key(l) <==> self.labels.contains(l)
    }

    /// `label` was allocated.
    pub open spec fn has(self, label: Seq<char>) -> bool {
        self.index.contains_key(label)
    }

    /// The range recorded for `label`.
    pub open spec fn span(self, label: Seq<char>) -> Option<Span> {
        if self.has(label) {
            Some(self.index[label])
        } else {
            None
        }
    }

    /// The bytes stored under `label`.
    pub open spec fn get_bytes(self, label: Seq<char>) -> Option<Seq<u8>> {
        if self.has(label) {
            Some(self.data.subrange(self.index[label].start, self.index[label].end))
        } else {
            None
        }
    }

    /// The number of bytes stored under `label`.
    pub open spec fn get_length(self, label: Seq<char>) -> Option<int> {
        if self.has(label) {
            Some(self.index[label].len())
        } else {
            None
        }
    }

    /// The listing of the first `n` labels with their ranges, one entry
    /// after the other.
    pub open spec fn listing(self, n: int) -> Seq<char>
        decreases n,
    {
        if n <= 0 {
            Seq::empty()
        } else {
            self.listing(n - 1) + entry_text(self.labels[n - 1], self.index[self.labels[n - 1]])
        }
    }

    /// The listing of all labels with their ranges, in the order of `labels`.
    pub open spec fn content_text(self) -> Seq<char> {
        self.listing(self.labels.len() as int)
    }

    /// Appends `bytes` and records them under `label`. An earlier range of the
    /// label stays in the buffer but is no longer indexed.
    pub open spec fn alloc_raw(self, bytes: Seq<u8>, label: Seq<char>) -> Self {
        ArenaView {
            data: self.data + bytes,
            index: self.index.insert(
                label,
                Span { start: self.data.len() as int, end: (self.data.len() + bytes.len()) as int },
            ),
            labels: if self.has(label) {
                self.labels
            } else {
                self.labels.push(label)
            },
        }
    }

    /// The buffer with the bytes of `span` replaced by `bytes`.
    pub open spec fn overwrite(self, span: Span, bytes: Seq<u8>) -> Seq<u8> {
        self.data.subrange(0, span.start) + bytes + self.data.subrange(
            span.end,
            self.data.len() as int,
        )
    }

    /// Overwrites the slot of `label` in place; refused when the label is
    /// unknown or `bytes` does not have the slot's length.
    pub open spec fn insert_raw(self, bytes: Seq<u8>, label: Seq<char>) -> Result<Self, ArenaError> {
        if !self.has(label) {
            Err(ArenaError::LabelNotFound)
        } else if self.index[label].len() != bytes.len() {
            Err(
                ArenaError::SizeMismatch {
                    expected: self.index[label].len() as usize,
                    found: bytes.len() as usize,
                },
            )
        } else {
            Ok(ArenaView { data: self.overwrite(self.index[label], bytes), ..self })
        }
    }
}

} // verus!
