//! Index keys.

use vstd::prelude::*;

use crate::text::{decimal_chars, spec_decimal};

verus! {

/// A fixed-width index key of `N` characters, used by tests: a number's
/// decimal digits, truncated to or padded with `'0'` up to the width.
#[derive(Debug, PartialEq, Eq, PartialOrd, Ord)]
pub struct GenericKey<const N: usize> {
    pub data: Vec<char>,
}

/// The key characters for `value`: the first `N` characters of its
/// decimal representation, padded at the end with `'0'`.
pub open spec fn spec_generic_key(n: nat, value: nat) -> Seq<char> {
    Seq::new(
        n,
        |i: int|
            if i < spec_decimal(value).len() {
                spec_decimal(value)[i]
            } else {
                '0'
            },
    )
}

impl<const N: usize> GenericKey<N> {
    /// Build the key for `value`.
    pub fn from_usize(value: usize) -> (key: GenericKey<N>)
        ensures
            key.data@ == spec_generic_key(N as nat, value as nat),
    {
        let digits = decimal_chars(value);
        let mut data: Vec<char> = Vec::new();
        let mut i: usize = 0;
        while i < N
            invariant
                i <= N,
                data@.len() == i,
                digits@ == spec_decimal(value as nat),
                forall|j: int|
                    0 <= j < i ==> data@[j] == spec_generic_key(N as nat, value as nat)[j],
            decreases N - i,
        {
            if i < digits.len() {
                data.push(digits[i]);
            } else {
                data.push('0');
            }
            i = i + 1;
        }
        proof {
            assert(data@ =~= spec_generic_key(N as nat, value as nat));
        }
        GenericKey { data }
    }
}

impl<const N: usize> From<usize> for GenericKey<N> {
    fn from(value: usize) -> (key: GenericKey<N>)
        ensures
            key.data@ == spec_generic_key(N as nat, value as nat),
    {
        GenericKey::<N>::from_usize(value)
    }
}

// `From` carries its contract directly; `.into()` through the blanket
// `Into` impl adds nothing beyond it.
impl<const N: usize> vstd::std_specs::convert::FromSpecImpl<usize> for GenericKey<N> {
    open spec fn obeys_from_spec() -> bool {
        false
    }

    open spec fn from_spec(value: usize) -> GenericKey<N> {
        arbitrary()
    }
}

} // verus!
