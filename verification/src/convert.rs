//! Conversions from literal forms to emitted constants.

use vstd::prelude::*;

use crate::ast::StringGroup;
use crate::mangler::append_str;

verus! {

/// The two's-complement low 64 bits of an integer literal given as a sign
/// and the low 64 bits of its absolute value.
pub open spec fn spec_truncate_bigint(negative: bool, magnitude: u64) -> u64 {
    if negative {
        if magnitude == 0 {
            0u64
        } else {
            (0x10000000000000000 - magnitude) as u64
        }
    } else {
        magnitude
    }
}

/// Reduce an integer literal to the 64-bit two's-complement pattern the
/// emitter works with: the magnitude for a non-negative literal, its
/// wrapping negation for a negative one.
pub fn truncate_bigint_to_u64(negative: bool, magnitude: u64) -> (r: u64)
    ensures
        r == spec_truncate_bigint(negative, magnitude),
{
    if negative {
        if magnitude == 0 {
            0
        } else {
            (u64::MAX - magnitude) + 1
        }
    } else {
        magnitude
    }
}

/// The constant contents of a string literal, if every piece is constant.
pub open spec fn spec_constant_string(sg: StringGroup) -> Option<Seq<char>>
    decreases sg,
{
    match sg {
        StringGroup::Constant { value } => Some(value@),
        StringGroup::Joined { values } => spec_constant_join(values@),
        StringGroup::FormattedValue => None,
    }
}

/// The concatenation of the constant contents of the pieces, if all are
/// constant.
pub open spec fn spec_constant_join(vs: Seq<StringGroup>) -> Option<Seq<char>>
    decreases vs,
{
    if vs.len() == 0 {
        Some(Seq::empty())
    } else {
        match spec_constant_string(vs[0]) {
            Some(head) => match spec_constant_join(vs.skip(1)) {
                Some(tail) => Some(head + tail),
                None => None,
            },
            None => None,
        }
    }
}

/// Extract the contents of a string literal when every piece is constant;
/// an interpolated piece makes the whole literal non-constant.
pub fn try_get_constant_string(string: &StringGroup) -> (r: Option<String>)
    ensures
        match r {
            Some(s) => spec_constant_string(*string) == Some(s@),
            None => spec_constant_string(*string) is None,
        },
    decreases *string,
{
    match string {
        StringGroup::Constant { value } => Some(value.clone()),
        StringGroup::Joined { values } => {
            let mut out = String::new();
            let n = values.len();
            let mut i: usize = 0;
            proof {
                assert(values@.skip(0) =~= values@);
                assert(decreases_to!(*string => *values));
            }
            while i < n
                invariant
                    n == values.len(),
                    i <= n,
                    spec_constant_string(*string) == spec_constant_join(values@),
                    decreases_to!(*string => *values),
                    match spec_constant_join(values@) {
                        Some(whole) => match spec_constant_join(values@.skip(i as int)) {
                            Some(rest) => whole == out@ + rest,
                            None => false,
                        },
                        None => spec_constant_join(values@.skip(i as int)) is None,
                    },
                decreases n - i,
            {
                proof {
                    assert(values@.skip(i as int)[0] == values@[i as int]);
                    assert(values@.skip(i as int).skip(1) =~= values@.skip(i as int + 1));
                }
                proof {
                    vstd::std_specs::vec::axiom_vec_index_decreases(*values, i as int);
                    assert(decreases_to!(*string => *values));
                    assert(decreases_to!(*string => values@[i as int]));
                }
                match try_get_constant_string(&values[i]) {
                    Some(piece) => {
                        append_str(&mut out, piece.as_str());
                    },
                    None => {
                        proof {
                            assert(spec_constant_join(values@.skip(i as int)) is None);
                            assert(spec_constant_join(values@) is None);
                        }
                        return None;
                    },
                }
                i += 1;
            }
            proof {
                assert(values@.skip(n as int).len() == 0);
            }
            Some(out)
        },
        StringGroup::FormattedValue => None,
    }
}

} // verus!
