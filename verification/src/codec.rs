//! The numeric codec: the bidirectional mapping between a raw integer
//! and a logical flag value.
//!
//! Encoding scans the resolved schema in declaration order and tags the
//! integer as [`FlagValue::Named`] when some declared variant carries
//! exactly that value, and as [`FlagValue::Composed`] otherwise.
//! Decoding returns the underlying raw integer either way. Both
//! directions are total over the configured width.

use vstd::prelude::*;

use crate::schema::{fits_width, Schema, Variant};

verus! {

/// A flag value: a raw unsigned integer, tagged by whether it equals
/// some declared variant's resolved value exactly.
#[derive(Clone, Copy, PartialEq, Eq, Structural, Debug)]
pub enum FlagValue {
    /// The raw integer equals a declared variant's value.
    Named(u64),
    /// The raw integer matches no declared variant exactly.
    Composed(u64),
}

impl FlagValue {
    /// The raw integer behind this value, whatever its tag.
    pub open spec fn spec_raw(self) -> u64 {
        match self {
            FlagValue::Named(v) => v,
            FlagValue::Composed(v) => v,
        }
    }

    /// Decodes this value to its raw integer. Total: both tags simply
    /// surrender the stored integer.
    pub fn as_num(&self) -> (n: u64)
        ensures
            n == self.spec_raw(),
    {
        match self {
            FlagValue::Named(v) => *v,
            FlagValue::Composed(v) => *v,
        }
    }
}

/// Holds when some entry of the resolved table carries exactly the
/// value `raw`.
pub open spec fn spec_has_value(entries: Seq<Variant>, raw: u64) -> bool {
    exists|i: int| 0 <= i < entries.len() && (#[trigger] entries[i]).value == raw
}

impl Schema {
    /// Holds when a flag value is representable in this schema's width.
    pub open spec fn admits(self, v: FlagValue) -> bool {
        fits_width(v.spec_raw(), self.spec_width())
    }

    /// What encoding a raw integer under this schema yields: the same
    /// integer, tagged `Named` exactly when some declared variant
    /// resolves to it.
    pub open spec fn spec_encode(self, raw: u64) -> FlagValue {
        if spec_has_value(self.variants(), raw) {
            FlagValue::Named(raw)
        } else {
            FlagValue::Composed(raw)
        }
    }

    /// Encodes a raw integer of the configured width into a flag
    /// value by exact-match lookup in declaration order. Never fails.
    pub fn from_num(&self, raw: u64) -> (v: FlagValue)
        requires
            fits_width(raw, self.spec_width()),
        ensures
            v == self.spec_encode(raw),
            v.spec_raw() == raw,
            self.admits(v),
    {
        let n = self.entries.len();
        let mut i: usize = 0;
        while i < n
            invariant
                n == self.variants().len(),
                0 <= i <= n,
                fits_width(raw, self.spec_width()),
                forall|j: int| 0 <= j < i ==> (#[trigger] self.variants()[j]).value != raw,
            decreases n - i,
        {
            if self.entries[i].value == raw {
                return FlagValue::Named(raw);
            }
            i = i + 1;
        }
        FlagValue::Composed(raw)
    }
}

/// The codec round trip: decoding what a raw integer encodes to gives
/// back exactly that integer.
pub proof fn lemma_codec_round_trip(s: Schema, raw: u64)
    ensures
        s.spec_encode(raw).spec_raw() == raw,
{
}

} // verus!
