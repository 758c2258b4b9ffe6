//! The length-limited structural parsing contract the application
//! decoder composes: a parser takes a recursion- and byte-budget and
//! returns how much it consumed and the value, or a structured fault.

use vstd::prelude::*;
use crate::error::ParseFault;
use crate::wire::{be_val, read_be, lemma_be_val_bound, lemma_pow256_values};

verus! {

/// The budget a parser may spend: nesting depth and consumable bytes.
#[derive(Clone, Copy, PartialEq, Eq, Structural, Debug)]
pub struct Limit {
    /// How deep parsers may still nest.
    pub depth: u32,
    /// How many bytes parsers may still consume.
    pub bytes: usize,
}

/// A value that can be parsed out of a byte stream under a [`Limit`].
pub trait Absorb: View + Sized {
    /// What parsing `input` under `limit` yields: the bytes consumed
    /// and the parsed value's model, or the fault.
    spec fn absorbed(input: Seq<u8>, limit: Limit) -> Result<(nat, Self::V), ParseFault>;

    /// Parse the bytes of `input` from `start` on, under `limit`.
    fn absorb(input: &Vec<u8>, start: usize, limit: Limit) -> (r: Result<(usize, Self), ParseFault>)
        requires
            start <= input@.len(),
        ensures
            (match r {
                Ok((n, v)) => Self::absorbed(
                    input@.subrange(start as int, input@.len() as int),
                    limit,
                ) == Ok::<(nat, Self::V), ParseFault>(((n as nat), v@)) && start + n
                    <= input@.len(),
                Err(e) => Self::absorbed(input@.subrange(start as int, input@.len() as int), limit)
                    == Err::<(nat, Self::V), ParseFault>(e),
            }),
    ;
}

impl Absorb for u8 {
    open spec fn absorbed(input: Seq<u8>, limit: Limit) -> Result<(nat, u8), ParseFault> {
        if limit.bytes < 1 {
            Err(ParseFault::LimitExceeded)
        } else if input.len() < 1 {
            Err(ParseFault::LengthExceedsInput)
        } else {
            Ok((1, input[0]))
        }
    }

    fn absorb(input: &Vec<u8>, start: usize, limit: Limit) -> (r: Result<(usize, u8), ParseFault>) {
        if limit.bytes < 1 {
            Err(ParseFault::LimitExceeded)
        } else if input.len() - start < 1 {
            Err(ParseFault::LengthExceedsInput)
        } else {
            Ok((1, input[start]))
        }
    }
}

impl Absorb for u64 {
    open spec fn absorbed(input: Seq<u8>, limit: Limit) -> Result<(nat, u64), ParseFault> {
        if limit.bytes < 8 {
            Err(ParseFault::LimitExceeded)
        } else if input.len() < 8 {
            Err(ParseFault::LengthExceedsInput)
        } else {
            Ok((8, be_val(input.subrange(0, 8)) as u64))
        }
    }

    fn absorb(input: &Vec<u8>, start: usize, limit: Limit) -> (r: Result<(usize, u64), ParseFault>) {
        if limit.bytes < 8 {
            Err(ParseFault::LimitExceeded)
        } else if input.len() - start < 8 {
            Err(ParseFault::LengthExceedsInput)
        } else {
            let v = read_be(input, start, 8);
            proof {
                let whole = input@.subrange(start as int, input@.len() as int);
                assert(input@.subrange(start as int, start + 8) =~= whole.subrange(0, 8));
                lemma_be_val_bound(whole.subrange(0, 8));
                lemma_pow256_values();
            }
            Ok((8, v))
        }
    }
}

impl Absorb for Vec<u8> {
    open spec fn absorbed(input: Seq<u8>, limit: Limit) -> Result<(nat, Seq<u8>), ParseFault> {
        if limit.bytes < 4 {
            Err(ParseFault::LimitExceeded)
        } else if input.len() < 4 {
            Err(ParseFault::LengthExceedsInput)
        } else {
            let n = be_val(input.subrange(0, 4));
            if n > limit.bytes - 4 {
                Err(ParseFault::LimitExceeded)
            } else if input.len() < n + 4 {
                Err(ParseFault::LengthExceedsInput)
            } else {
                Ok(((n + 4) as nat, input.subrange(4, (n + 4) as int)))
            }
        }
    }

    fn absorb(input: &Vec<u8>, start: usize, limit: Limit) -> (r: Result<
        (usize, Vec<u8>),
        ParseFault,
    >) {
        if limit.bytes < 4 {
            Err(ParseFault::LimitExceeded)
        } else if input.len() - start < 4 {
            Err(ParseFault::LengthExceedsInput)
        } else {
            proof {
                let whole = input@.subrange(start as int, input@.len() as int);
                assert(input@.subrange(start as int, start + 4) =~= whole.subrange(0, 4));
                lemma_be_val_bound(whole.subrange(0, 4));
                lemma_pow256_values();
            }
            let n = read_be(input, start, 4);
            if n > (limit.bytes - 4) as u64 {
                Err(ParseFault::LimitExceeded)
            } else if ((input.len() - start - 4) as u64) < n {
                Err(ParseFault::LengthExceedsInput)
            } else {
                let count = n as usize;
                let ilen = input.len();
                let mut out: Vec<u8> = Vec::new();
                let mut i: usize = 0;
                while i < count
                    invariant
                        i <= count,
                        ilen == input@.len(),
                        start + 4 + count <= ilen,
                        out@ =~= input@.subrange(start + 4, start + 4 + i),
                    decreases count - i,
                {
                    out.push(input[start + 4 + i]);
                    proof {
                        assert(out@ =~= input@.subrange(start + 4, start + 4 + i + 1));
                    }
                    i = i + 1;
                }
                proof {
                    let whole = input@.subrange(start as int, input@.len() as int);
                    assert(input@.subrange(start + 4, start + 4 + count) =~= whole.subrange(
                        4,
                        count + 4,
                    ));
                }
                Ok((count + 4, out))
            }
        }
    }
}

} // verus!
