//! The bitwise set algebra over flag values.
//!
//! Every operation is defined over raw integers through the codec, with
//! closure under encoding: the raw results are combined bitwise and
//! re-encoded, so results are always canonically tagged. Containment
//! follows the zero rule: the zero value contains only the zero flag,
//! and a nonzero value never contains it.

use vstd::prelude::*;

use crate::codec::{spec_has_value, FlagValue};
use crate::schema::{fits_width, Schema, Variant};

verus! {

/// The containment rule on raw integers: zero contains exactly zero;
/// a nonzero value contains whatever overlaps it in at least one bit.
pub open spec fn spec_contains(a: u64, b: u64) -> bool {
    if a == 0 {
        b == 0
    } else {
        a & b != 0
    }
}

impl FlagValue {
    /// Returns `true` if all of the flags in `other` are contained
    /// within `self`, under the zero rule: the zero value contains
    /// only the zero flag, and a nonzero value never contains it.
    pub fn contains(&self, other: FlagValue) -> (r: bool)
        ensures
            r == spec_contains(self.spec_raw(), other.spec_raw()),
    {
        let a = self.as_num();
        let b = other.as_num();
        if a == 0 {
            b == 0
        } else {
            (a & b) != 0
        }
    }

    /// Returns `true` if all of the flags in `other` are contained
    /// within `self`.
    pub fn has_flag(&self, other: FlagValue) -> (r: bool)
        ensures
            r == spec_contains(self.spec_raw(), other.spec_raw()),
    {
        self.contains(other)
    }

    /// Returns `true` if no flags are currently stored.
    pub fn is_empty(&self) -> (r: bool)
        ensures
            r == (self.spec_raw() == 0),
    {
        self.as_num() == 0
    }

    /// Numeric equality: a flag value equals a raw integer exactly
    /// when it decodes to it.
    pub fn eq_num(&self, n: u64) -> (r: bool)
        ensures
            r == (self.spec_raw() == n),
    {
        self.as_num() == n
    }
}

/// The OR-reduction of every resolved value of the table: the raw
/// integer with all declared flags set.
pub open spec fn spec_or_all(entries: Seq<Variant>) -> u64
    decreases entries.len(),
{
    if entries.len() == 0 {
        0
    } else {
        spec_or_all(entries.drop_last()) | entries.last().value
    }
}

proof fn lemma_or_fits(a: u64, b: u64, m: u64)
    by (bit_vector)
    requires
        a & m == a,
        b & m == b,
    ensures
        (a | b) & m == (a | b),
{
}

proof fn lemma_and_fits(a: u64, b: u64, m: u64)
    by (bit_vector)
    requires
        a & m == a,
    ensures
        (a & b) & m == (a & b),
{
}

proof fn lemma_xor_fits(a: u64, b: u64, m: u64)
    by (bit_vector)
    requires
        a & m == a,
        b & m == b,
    ensures
        (a ^ b) & m == (a ^ b),
{
}

proof fn lemma_masked_fits(a: u64, m: u64)
    by (bit_vector)
    ensures
        (a & m) & m == (a & m),
        (0u64 & m) == 0u64,
{
}

impl Schema {
    /// What union yields: the bitwise or of the raws, re-encoded.
    pub open spec fn spec_union(self, a: FlagValue, b: FlagValue) -> FlagValue {
        self.spec_encode(a.spec_raw() | b.spec_raw())
    }

    /// What intersection yields: the bitwise and of the raws,
    /// re-encoded.
    pub open spec fn spec_intersection(self, a: FlagValue, b: FlagValue) -> FlagValue {
        self.spec_encode(a.spec_raw() & b.spec_raw())
    }

    /// What symmetric difference yields: the bitwise xor of the raws,
    /// re-encoded.
    pub open spec fn spec_symmetric_difference(self, a: FlagValue, b: FlagValue) -> FlagValue {
        self.spec_encode(a.spec_raw() ^ b.spec_raw())
    }

    /// What complement yields: the bitwise not of the raw, masked to
    /// the configured width and re-encoded.
    pub open spec fn spec_complement(self, a: FlagValue) -> FlagValue {
        self.spec_encode(!a.spec_raw() & self.spec_width().spec_mask())
    }

    /// What difference yields: the flags of `a` with the flags of `b`
    /// cleared, masked to the configured width and re-encoded.
    pub open spec fn spec_difference(self, a: FlagValue, b: FlagValue) -> FlagValue {
        self.spec_encode((a.spec_raw() & !b.spec_raw()) & self.spec_width().spec_mask())
    }

    /// Returns the union of the flags in `a` and `b`.
    pub fn union(&self, a: FlagValue, b: FlagValue) -> (r: FlagValue)
        requires
            self.admits(a),
            self.admits(b),
        ensures
            r == self.spec_union(a, b),
            r.spec_raw() == a.spec_raw() | b.spec_raw(),
            self.admits(r),
    {
        proof {
            lemma_or_fits(a.spec_raw(), b.spec_raw(), self.spec_width().spec_mask());
        }
        self.from_num(a.as_num() | b.as_num())
    }

    /// Returns the intersection of the flags in `a` and `b`.
    pub fn intersection(&self, a: FlagValue, b: FlagValue) -> (r: FlagValue)
        requires
            self.admits(a),
            self.admits(b),
        ensures
            r == self.spec_intersection(a, b),
            r.spec_raw() == a.spec_raw() & b.spec_raw(),
            self.admits(r),
    {
        proof {
            lemma_and_fits(a.spec_raw(), b.spec_raw(), self.spec_width().spec_mask());
        }
        self.from_num(a.as_num() & b.as_num())
    }

    /// Returns the symmetric difference of the flags in `a` and `b`:
    /// the flags set in exactly one of the two.
    pub fn symmetric_difference(&self, a: FlagValue, b: FlagValue) -> (r: FlagValue)
        requires
            self.admits(a),
            self.admits(b),
        ensures
            r == self.spec_symmetric_difference(a, b),
            r.spec_raw() == a.spec_raw() ^ b.spec_raw(),
            self.admits(r),
    {
        proof {
            lemma_xor_fits(a.spec_raw(), b.spec_raw(), self.spec_width().spec_mask());
        }
        self.from_num(a.as_num() ^ b.as_num())
    }

    /// Returns the complement of `a` within the configured width.
    pub fn complement(&self, a: FlagValue) -> (r: FlagValue)
        requires
            self.admits(a),
        ensures
            r == self.spec_complement(a),
            r.spec_raw() == !a.spec_raw() & self.spec_width().spec_mask(),
            self.admits(r),
    {
        proof {
            lemma_masked_fits(!a.spec_raw(), self.spec_width().spec_mask());
        }
        let m = self.width().mask();
        self.from_num(!a.as_num() & m)
    }

    /// Returns the difference of the flags in `a` and `b`: the flags
    /// of `a` with the flags of `b` cleared.
    pub fn difference(&self, a: FlagValue, b: FlagValue) -> (r: FlagValue)
        requires
            self.admits(a),
            self.admits(b),
        ensures
            r == self.spec_difference(a, b),
            r.spec_raw() == (a.spec_raw() & !b.spec_raw()) & self.spec_width().spec_mask(),
            self.admits(r),
    {
        let c = self.complement(b);
        let r = self.intersection(a, c);
        proof {
            lemma_difference_is_intersection_with_complement(*self, a, b);
        }
        r
    }

    /// Returns `true` if every declared flag is set in `a`: the raw of
    /// `a` equals, exactly, the OR-reduction of all resolved values.
    pub fn is_all(&self, a: FlagValue) -> (r: bool)
        ensures
            r == (a.spec_raw() == spec_or_all(self.variants())),
    {
        let n = self.entries.len();
        let mut acc: u64 = 0;
        let mut i: usize = 0;
        while i < n
            invariant
                n == self.variants().len(),
                0 <= i <= n,
                acc == spec_or_all(self.variants().take(i as int)),
            decreases n - i,
        {
            let v = self.entries[i].value;
            proof {
                let vs = self.variants();
                let t = vs.take(i as int + 1);
                assert(t.drop_last() =~= vs.take(i as int));
                assert(t.last() == vs[i as int]);
            }
            acc = acc | v;
            i = i + 1;
        }
        proof {
            assert(self.variants().take(n as int) =~= self.variants());
        }
        a.as_num() == acc
    }

    /// The per-variant predicate: whether `a` contains the flag of the
    /// variant at index `i`, under the containment rule.
    pub fn has_variant(&self, a: FlagValue, i: usize) -> (r: bool)
        requires
            i < self.variants().len(),
        ensures
            r == spec_contains(a.spec_raw(), self.variants()[i as int].value),
    {
        a.contains(FlagValue::Named(self.entries[i].value))
    }

    /// Inserts the flags of `other` into `v` in place.
    pub fn insert(&self, v: &mut FlagValue, other: FlagValue)
        requires
            self.admits(*old(v)),
            self.admits(other),
        ensures
            *final(v) == self.spec_union(*old(v), other),
            self.admits(*final(v)),
    {
        *v = self.union(*v, other);
    }

    /// Removes the flags of `other` from `v` in place.
    pub fn remove(&self, v: &mut FlagValue, other: FlagValue)
        requires
            self.admits(*old(v)),
            self.admits(other),
        ensures
            *final(v) == self.spec_difference(*old(v), other),
            self.admits(*final(v)),
    {
        *v = self.difference(*v, other);
    }

    /// Toggles the flags of `other` in `v` in place.
    pub fn toggle(&self, v: &mut FlagValue, other: FlagValue)
        requires
            self.admits(*old(v)),
            self.admits(other),
        ensures
            *final(v) == self.spec_symmetric_difference(*old(v), other),
            self.admits(*final(v)),
    {
        *v = self.symmetric_difference(*v, other);
    }

    /// Inserts or removes the flags of `other` in place, depending on
    /// the passed value.
    pub fn set(&self, v: &mut FlagValue, other: FlagValue, value: bool)
        requires
            self.admits(*old(v)),
            self.admits(other),
        ensures
            *final(v) == if value {
                self.spec_union(*old(v), other)
            } else {
                self.spec_difference(*old(v), other)
            },
            self.admits(*final(v)),
    {
        if value {
            self.insert(v, other);
        } else {
            self.remove(v, other);
        }
    }

    /// Clears every flag of `v` in place, leaving the encoded zero
    /// value.
    pub fn clear(&self, v: &mut FlagValue)
        ensures
            *final(v) == self.spec_encode(0),
            (*final(v)).spec_raw() == 0,
            self.admits(*final(v)),
    {
        proof {
            lemma_masked_fits(0, self.spec_width().spec_mask());
        }
        *v = self.from_num(0);
    }
}

/// Union is commutative: joining two flag values in either order
/// yields the same flag value.
pub proof fn lemma_union_commutative(s: Schema, a: FlagValue, b: FlagValue)
    ensures
        s.spec_union(a, b) == s.spec_union(b, a),
{
    let x = a.spec_raw();
    let y = b.spec_raw();
    assert(x | y == y | x) by (bit_vector);
}

/// Union is associative: the grouping of three flag values under
/// union does not matter.
pub proof fn lemma_union_associative(s: Schema, a: FlagValue, b: FlagValue, c: FlagValue)
    ensures
        s.spec_union(s.spec_union(a, b), c) == s.spec_union(a, s.spec_union(b, c)),
{
    let x = a.spec_raw();
    let y = b.spec_raw();
    let z = c.spec_raw();
    assert((x | y) | z == x | (y | z)) by (bit_vector);
}

/// Intersection is commutative: meeting two flag values in either
/// order yields the same flag value.
pub proof fn lemma_intersection_commutative(s: Schema, a: FlagValue, b: FlagValue)
    ensures
        s.spec_intersection(a, b) == s.spec_intersection(b, a),
{
    let x = a.spec_raw();
    let y = b.spec_raw();
    assert(x & y == y & x) by (bit_vector);
}

/// Intersection is associative: the grouping of three flag values
/// under intersection does not matter.
pub proof fn lemma_intersection_associative(s: Schema, a: FlagValue, b: FlagValue, c: FlagValue)
    ensures
        s.spec_intersection(s.spec_intersection(a, b), c) == s.spec_intersection(
            a,
            s.spec_intersection(b, c),
        ),
{
    let x = a.spec_raw();
    let y = b.spec_raw();
    let z = c.spec_raw();
    assert((x & y) & z == x & (y & z)) by (bit_vector);
}

/// The complement law: a flag value intersected with its own
/// complement is the encoded zero value.
pub proof fn lemma_complement_law(s: Schema, a: FlagValue)
    ensures
        s.spec_intersection(a, s.spec_complement(a)) == s.spec_encode(0),
{
    let x = a.spec_raw();
    let m = s.spec_width().spec_mask();
    assert(x & (!x & m) == 0) by (bit_vector);
}

/// The difference identity: difference equals intersection with the
/// complement.
pub proof fn lemma_difference_is_intersection_with_complement(
    s: Schema,
    a: FlagValue,
    b: FlagValue,
)
    ensures
        s.spec_difference(a, b) == s.spec_intersection(a, s.spec_complement(b)),
{
    let x = a.spec_raw();
    let y = b.spec_raw();
    let m = s.spec_width().spec_mask();
    assert((x & !y) & m == x & (!y & m)) by (bit_vector);
}

} // verus!
