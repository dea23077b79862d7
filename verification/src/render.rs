//! The canonical textual rendering of a flag value.
//!
//! The formatter walks the resolved schema in declaration order,
//! keeps the names whose per-variant containment test succeeds, and
//! renders them pipe-joined between parentheses; a value with no
//! matching name renders as `"()"`. A composed value renders as the
//! names of the declared flags its bits overlap: rendering never needs
//! the value to equal a declared discriminant.

use vstd::prelude::*;
use vstd::string::StringExecFns;

use crate::algebra::spec_contains;
use crate::codec::FlagValue;
use crate::schema::{Schema, Variant};

verus! {

/// The names of the declared variants whose containment test against
/// `raw` succeeds, in declaration order.
pub open spec fn spec_selected_names(entries: Seq<Variant>, raw: u64) -> Seq<Seq<char>>
    decreases entries.len(),
{
    if entries.len() == 0 {
        Seq::empty()
    } else {
        spec_selected_names(entries.drop_last(), raw) + (if spec_contains(
            raw,
            entries.last().value,
        ) {
            seq![entries.last().name@]
        } else {
            Seq::<Seq<char>>::empty()
        })
    }
}

/// The given names joined by `" | "`.
pub open spec fn spec_join(names: Seq<Seq<char>>) -> Seq<char>
    decreases names.len(),
{
    if names.len() == 0 {
        Seq::empty()
    } else if names.len() == 1 {
        names[0]
    } else {
        spec_join(names.drop_last()) + " | "@ + names.last()
    }
}

/// The canonical rendering of `raw` under the resolved table: the
/// selected names, pipe-joined, between parentheses.
pub open spec fn spec_rendered(entries: Seq<Variant>, raw: u64) -> Seq<char> {
    "("@ + spec_join(spec_selected_names(entries, raw)) + ")"@
}

impl Schema {
    /// Renders `a` canonically: the declared names whose flags `a`
    /// carries, in declaration order, pipe-joined between parentheses;
    /// `"()"` when no containment test succeeds.
    pub fn format(&self, a: FlagValue) -> (r: String)
        ensures
            r@ == spec_rendered(self.variants(), a.spec_raw()),
    {
        let ghost raw = a.spec_raw();
        let mut out = String::from_str("(");
        let mut first = true;
        let n = self.entries.len();
        let mut i: usize = 0;
        proof {
            assert(self.variants().take(0) =~= Seq::<Variant>::empty());
            assert(out@ =~= "("@ + spec_join(spec_selected_names(self.variants().take(0), raw)));
        }
        while i < n
            invariant
                n == self.variants().len(),
                0 <= i <= n,
                raw == a.spec_raw(),
                first <==> spec_selected_names(self.variants().take(i as int), raw).len() == 0,
                out@ == "("@ + spec_join(spec_selected_names(self.variants().take(i as int), raw)),
            decreases n - i,
        {
            let ghost vs = self.variants();
            let ghost t0 = spec_selected_names(vs.take(i as int), raw);
            proof {
                assert(vs.take(i as int + 1).drop_last() =~= vs.take(i as int));
                assert(vs.take(i as int + 1).last() == vs[i as int]);
            }
            let ghost t1 = spec_selected_names(vs.take(i as int + 1), raw);
            if self.has_variant(a, i) {
                proof {
                    assert(t1 =~= t0.push(vs[i as int].name@));
                    if t0.len() == 0 {
                        assert(spec_join(t1) == vs[i as int].name@);
                    } else {
                        assert(t1.drop_last() =~= t0);
                        assert(t1.last() == vs[i as int].name@);
                        assert(spec_join(t1) == spec_join(t0) + " | "@ + vs[i as int].name@);
                    }
                }
                if first {
                    first = false;
                } else {
                    out.append(" | ");
                }
                out.append(self.entries[i].name.as_str());
                proof {
                    assert(out@ =~= "("@ + spec_join(t1));
                }
            } else {
                proof {
                    assert(t1 =~= t0);
                }
            }
            i = i + 1;
        }
        proof {
            assert(self.variants().take(n as int) =~= self.variants());
        }
        out.append(")");
        proof {
            assert(out@ =~= spec_rendered(self.variants(), raw));
        }
        out
    }
}

} // verus!
