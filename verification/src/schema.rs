//! Schema declaration and discriminant resolution.
//!
//! A schema is an ordered list of `(name, optional explicit value)`
//! entries together with a configured unsigned integer width. The
//! resolver assigns every entry a concrete value: an explicit entry
//! keeps its literal, and an implicit entry takes the previous value
//! plus one (starting from zero). Resolution fails on an empty list,
//! on a value that the configured width cannot represent, and on a
//! declared name that collides with the reserved composed-fallback
//! name.

use vstd::prelude::*;
use vstd::string::StrSliceExecFns;

verus! {

/// The width, in bits, of the unsigned integers that back a flag type.
#[derive(Clone, Copy, PartialEq, Eq, Structural, Debug)]
pub enum Width {
    W8,
    W16,
    W32,
    W64,
}

impl Width {
    /// The all-ones bit mask of this width.
    pub open spec fn spec_mask(self) -> u64 {
        match self {
            Width::W8 => 0xff,
            Width::W16 => 0xffff,
            Width::W32 => 0xffff_ffff,
            Width::W64 => 0xffff_ffff_ffff_ffff,
        }
    }

    /// Returns the all-ones bit mask of this width.
    pub fn mask(self) -> (m: u64)
        ensures
            m == self.spec_mask(),
    {
        match self {
            Width::W8 => 0xff,
            Width::W16 => 0xffff,
            Width::W32 => 0xffff_ffff,
            Width::W64 => 0xffff_ffff_ffff_ffff,
        }
    }
}

impl Default for Width {
    /// The width used when none is configured: the native word width
    /// of the supported hosts.
    fn default() -> (w: Width)
        ensures
            w == Width::W64,
    {
        Width::W64
    }
}

/// Holds exactly when `raw` is representable in width `w`: masking to
/// the width leaves it unchanged.
pub open spec fn fits_width(raw: u64, w: Width) -> bool {
    raw & w.spec_mask() == raw
}

/// A raw value is representable in a width exactly when it is at most
/// the width's all-ones mask.
pub proof fn lemma_fits_width_iff_le(raw: u64, w: Width)
    ensures
        fits_width(raw, w) <==> raw <= w.spec_mask(),
{
    match w {
        Width::W8 => {
            assert(raw & 0xff == raw <==> raw <= 0xff) by (bit_vector);
        },
        Width::W16 => {
            assert(raw & 0xffff == raw <==> raw <= 0xffff) by (bit_vector);
        },
        Width::W32 => {
            assert(raw & 0xffff_ffff == raw <==> raw <= 0xffff_ffff) by (bit_vector);
        },
        Width::W64 => {
            assert(raw & 0xffff_ffff_ffff_ffff == raw) by (bit_vector);
        },
    }
}

/// One declared schema entry: a name and an optional explicit value.
pub struct SchemaEntry {
    pub name: String,
    pub explicit_value: Option<u64>,
}

/// A resolved schema entry: a name and its concrete value.
pub struct Variant {
    pub name: String,
    pub value: u64,
}

/// Why a schema was rejected at definition time.
#[derive(Clone, Copy, PartialEq, Eq, Structural, Debug)]
pub enum SchemaError {
    /// The schema declares no entries.
    EmptySchema,
    /// A resolved value is not representable in the configured width.
    UnrepresentableValue,
    /// A declared name equals the reserved composed-fallback name.
    ReservedNameCollision,
}

/// The value that resolution assigns to entry `i`: its explicit literal
/// if it has one, otherwise one more than the previous entry's value
/// (zero for the first entry). Sequential increment only: an implicit
/// entry is never re-aligned to the next unused bit.
pub open spec fn spec_resolved_value(entries: Seq<SchemaEntry>, i: int) -> nat
    decreases i,
{
    if 0 <= i < entries.len() {
        match entries[i].explicit_value {
            Some(e) => e as nat,
            None => if i == 0 {
                0
            } else {
                spec_resolved_value(entries, i - 1) + 1
            },
        }
    } else {
        0
    }
}

/// Holds when every resolved value of `entries` is representable in
/// width `w`.
pub open spec fn spec_all_values_fit(entries: Seq<SchemaEntry>, w: Width) -> bool {
    forall|i: int| 0 <= i < entries.len() ==> #[trigger] spec_resolved_value(entries, i) <= w.spec_mask()
}

/// Holds when some entry is declared under the given name.
pub open spec fn spec_has_name(entries: Seq<SchemaEntry>, name: Seq<char>) -> bool {
    exists|i: int| 0 <= i < entries.len() && (#[trigger] entries[i].name)@ == name
}

/// Compares two string slices by length and characters.
pub fn str_eq(a: &str, b: &str) -> (r: bool)
    ensures
        r == (a@ == b@),
{
    let la = a.unicode_len();
    let lb = b.unicode_len();
    if la != lb {
        return false;
    }
    let mut i: usize = 0;
    while i < la
        invariant
            la == a@.len(),
            la == b@.len(),
            0 <= i <= la,
            forall|j: int| 0 <= j < i ==> a@[j] == b@[j],
        decreases la - i,
    {
        let ca = a.get_char(i);
        let cb = b.get_char(i);
        if ca != cb {
            return false;
        }
        i = i + 1;
    }
    proof {
        assert(a@ =~= b@);
    }
    true
}

/// Resolves every entry to its concrete value, in declaration order.
/// Fails on an empty schema and on a resolved value that the width
/// cannot represent; never reports a name collision.
pub fn resolve(entries: &Vec<SchemaEntry>, width: Width) -> (r: Result<Vec<Variant>, SchemaError>)
    ensures
        r is Ok <==> entries@.len() > 0 && spec_all_values_fit(entries@, width),
        match r {
            Ok(vs) => vs@.len() == entries@.len() && (forall|i: int|
                0 <= i < entries@.len() ==> (#[trigger] vs@[i]).name@ == entries@[i].name@)
                && (forall|i: int|
                0 <= i < entries@.len() ==> (#[trigger] vs@[i]).value as nat
                    == spec_resolved_value(entries@, i)) && (forall|i: int|
                0 <= i < entries@.len() ==> fits_width((#[trigger] vs@[i]).value, width)),
            Err(e) => (e == SchemaError::EmptySchema <==> entries@.len() == 0) && (e
                == SchemaError::UnrepresentableValue <==> entries@.len() > 0
                && !spec_all_values_fit(entries@, width)) && e
                != SchemaError::ReservedNameCollision,
        },
{
    if entries.len() == 0 {
        return Err(SchemaError::EmptySchema);
    }
    let mask = width.mask();
    let mut out: Vec<Variant> = Vec::new();
    let mut next: u128 = 0;
    let mut i: usize = 0;
    while i < entries.len()
        invariant
            0 < entries@.len(),
            0 <= i <= entries@.len(),
            out@.len() == i,
            mask == width.spec_mask(),
            forall|j: int| 0 <= j < i ==> (#[trigger] out@[j]).name@ == entries@[j].name@,
            forall|j: int|
                0 <= j < i ==> (#[trigger] out@[j]).value as nat == spec_resolved_value(
                    entries@,
                    j,
                ),
            forall|j: int| 0 <= j < i ==> #[trigger] spec_resolved_value(entries@, j)
                <= width.spec_mask(),
            next as nat == if i == 0 {
                0nat
            } else {
                spec_resolved_value(entries@, i - 1) + 1
            },
        decreases entries@.len() - i,
    {
        let e = &entries[i];
        let value: u64 = match e.explicit_value {
            Some(ev) => {
                if ev > mask {
                    assert(spec_resolved_value(entries@, i as int) == ev as nat);
                    return Err(SchemaError::UnrepresentableValue);
                }
                ev
            },
            None => {
                assert(spec_resolved_value(entries@, i as int) == next as nat);
                if next > mask as u128 {
                    return Err(SchemaError::UnrepresentableValue);
                }
                assert(next <= u64::MAX as u128);
                next as u64
            },
        };
        assert(value as nat == spec_resolved_value(entries@, i as int));
        out.push(Variant { name: e.name.clone(), value });
        next = value as u128 + 1;
        i = i + 1;
    }
    proof {
        assert forall|j: int| 0 <= j < entries@.len() implies fits_width(
            (#[trigger] out@[j]).value,
            width,
        ) by {
            lemma_fits_width_iff_le(out@[j].value, width);
        }
    }
    Ok(out)
}

/// A resolved, immutable flag schema: the ordered variant table and the
/// configured width.
pub struct Schema {
    pub(crate) entries: Vec<Variant>,
    pub(crate) width: Width,
}

impl Schema {
    /// The ordered, resolved variant table.
    pub open(crate) spec fn variants(self) -> Seq<Variant> {
        self.entries@
    }

    /// The configured integer width.
    pub open(crate) spec fn spec_width(self) -> Width {
        self.width
    }

    /// Well-formed: at least one variant, and every resolved value is
    /// representable in the configured width.
    pub open spec fn wf(self) -> bool {
        self.variants().len() > 0 && forall|i: int|
            0 <= i < self.variants().len() ==> fits_width(
                (#[trigger] self.variants()[i]).value,
                self.spec_width(),
            )
    }

    /// Builds a schema: resolves every declared value and rejects a
    /// declared name equal to the reserved composed-fallback name.
    pub fn new(entries: &Vec<SchemaEntry>, width: Width, reserved: &str) -> (r: Result<
        Schema,
        SchemaError,
    >)
        ensures
            r is Ok <==> entries@.len() > 0 && spec_all_values_fit(entries@, width)
                && !spec_has_name(entries@, reserved@),
            match r {
                Ok(s) => s.wf() && s.spec_width() == width && s.variants().len()
                    == entries@.len() && (forall|i: int|
                    0 <= i < entries@.len() ==> (#[trigger] s.variants()[i]).name@
                        == entries@[i].name@) && (forall|i: int|
                    0 <= i < entries@.len() ==> (#[trigger] s.variants()[i]).value as nat
                        == spec_resolved_value(entries@, i)),
                Err(e) => (e == SchemaError::EmptySchema <==> entries@.len() == 0) && (e
                    == SchemaError::UnrepresentableValue <==> entries@.len() > 0
                    && !spec_all_values_fit(entries@, width)) && (e
                    == SchemaError::ReservedNameCollision <==> entries@.len() > 0
                    && spec_all_values_fit(entries@, width) && spec_has_name(entries@, reserved@)),
            },
    {
        let vs = match resolve(entries, width) {
            Ok(vs) => vs,
            Err(e) => {
                return Err(e);
            },
        };
        let mut i: usize = 0;
        while i < entries.len()
            invariant
                0 <= i <= entries@.len(),
                entries@.len() > 0,
                spec_all_values_fit(entries@, width),
                forall|j: int| 0 <= j < i ==> (#[trigger] entries@[j].name)@ != reserved@,
            decreases entries@.len() - i,
        {
            if str_eq(entries[i].name.as_str(), reserved) {
                proof {
                    assert(entries@[i as int].name@ == reserved@);
                    assert(spec_has_name(entries@, reserved@));
                }
                return Err(SchemaError::ReservedNameCollision);
            }
            i = i + 1;
        }
        Ok(Schema { entries: vs, width })
    }

    /// The number of declared variants.
    pub fn variant_count(&self) -> (n: usize)
        ensures
            n == self.variants().len(),
    {
        self.entries.len()
    }

    /// The resolved value of the variant at index `i`.
    pub fn variant_value(&self, i: usize) -> (v: u64)
        requires
            i < self.variants().len(),
        ensures
            v == self.variants()[i as int].value,
    {
        self.entries[i].value
    }

    /// The declared name of the variant at index `i`.
    pub fn variant_name(&self, i: usize) -> (n: &String)
        requires
            i < self.variants().len(),
        ensures
            n@ == self.variants()[i as int].name@,
    {
        &self.entries[i].name
    }

    /// The configured integer width.
    pub fn width(&self) -> (w: Width)
        ensures
            w == self.spec_width(),
    {
        self.width
    }
}

} // verus!
