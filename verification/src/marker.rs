//! Marker types that read a token as something other than itself.
use vstd::prelude::*;

use crate::source::{parse_next, read_failure, read_value, reads_as, ReadError, Readable};

verus! {

/// A 1-based index in the input, read as the 0-based `usize` one less.
pub struct Usize1;

impl Readable for Usize1 {
    type Output = usize;

    /// The token must be a `usize` of at least 1: a 0 has no index before it.
    open spec fn accepts(tok: Option<Seq<char>>) -> bool {
        reads_as::<usize>(tok) && read_value::<usize>(tok) >= 1
    }

    open spec fn value_of(tok: Option<Seq<char>>) -> usize {
        (read_value::<usize>(tok) - 1) as usize
    }

    fn read_from(tok: Option<String>) -> (r: Result<usize, ReadError>)
        ensures
            r matches Err(e) ==> e == if reads_as::<usize>(tok.deep_view()) {
                ReadError::ZeroIndex
            } else {
                read_failure(tok.deep_view())
            },
    {
        match parse_next::<usize>(tok) {
            Ok(v) => if v >= 1 {
                Ok(v - 1)
            } else {
                Err(ReadError::ZeroIndex)
            },
            Err(e) => Err(e),
        }
    }
}

} // verus!
