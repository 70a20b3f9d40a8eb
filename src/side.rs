use vstd::prelude::*;
use vstd::string::StringSliceAdditionalSpecFns;
use crate::commands::{lit_blue, lit_red, lit_neutrals, starts_with_exec};

verus! {

/// The three coalitions of a mission.
#[derive(Debug, Clone, Copy, PartialEq, Eq, Structural)]
pub enum Side {
    Neutral,
    Red,
    Blue,
}

/// The side that loses what `s` gains. Neutral has no opponent and is its own.
pub open spec fn opposite_spec(s: Side) -> Side {
    match s {
        Side::Red => Side::Blue,
        Side::Blue => Side::Red,
        Side::Neutral => Side::Neutral,
    }
}

/// The name a side goes by in chat and in the host's tables.
pub open spec fn side_name(s: Side) -> Seq<char> {
    match s {
        Side::Blue => seq!['b', 'l', 'u', 'e'],
        Side::Red => seq!['r', 'e', 'd'],
        Side::Neutral => seq!['n', 'e', 'u', 't', 'r', 'a', 'l', 's'],
    }
}

/// A side's name that is none of `blue`, `red` and `neutrals`.
#[derive(Debug, Clone, Copy, PartialEq, Eq, Structural)]
pub struct UnknownSide;

/// The side named by the bytes `s`, exactly as `to_str` writes it.
pub open spec fn side_of_name(s: Seq<u8>) -> Option<Side> {
    if s == lit_blue() {
        Some(Side::Blue)
    } else if s == lit_red() {
        Some(Side::Red)
    } else if s == lit_neutrals() {
        Some(Side::Neutral)
    } else {
        None
    }
}

impl Side {
    /// The side that `s` names: `blue`, `red` or `neutrals`.
    pub fn from_str(s: &str) -> (r: Result<Side, UnknownSide>)
        ensures
            match side_of_name(s.spec_bytes()) {
                Some(side) => r == Ok::<Side, UnknownSide>(side),
                None => r == Err::<Side, UnknownSide>(UnknownSide),
            },
    {
        let b = s.as_bytes();
        let blue: Vec<u8> = vec![98u8, 108, 117, 101];
        let red: Vec<u8> = vec![114u8, 101, 100];
        let neutrals: Vec<u8> = vec![110u8, 101, 117, 116, 114, 97, 108, 115];
        assert(blue@ =~= lit_blue());
        assert(red@ =~= lit_red());
        assert(neutrals@ =~= lit_neutrals());
        if b.len() == 4 && starts_with_exec(b, &blue) {
            assert(b@ =~= b@.subrange(0, 4));
            Ok(Side::Blue)
        } else if b.len() == 3 && starts_with_exec(b, &red) {
            assert(b@ =~= b@.subrange(0, 3));
            Ok(Side::Red)
        } else if b.len() == 8 && starts_with_exec(b, &neutrals) {
            assert(b@ =~= b@.subrange(0, 8));
            Ok(Side::Neutral)
        } else {
            proof {
                if b@ == lit_blue() {
                    assert(b@.subrange(0, 4) =~= b@);
                }
                if b@ == lit_red() {
                    assert(b@.subrange(0, 3) =~= b@);
                }
                if b@ == lit_neutrals() {
                    assert(b@.subrange(0, 8) =~= b@);
                }
            }
            Err(UnknownSide)
        }
    }

    pub fn opposite(&self) -> (r: Side)
        ensures
            r == opposite_spec(*self),
    {
        match self {
            Side::Red => Side::Blue,
            Side::Blue => Side::Red,
            Side::Neutral => Side::Neutral,
        }
    }

    pub fn to_str(&self) -> (r: &'static str)
        ensures
            r@ == side_name(*self),
    {
        match self {
            Side::Blue => {
                proof { reveal_strlit("blue"); }
                "blue"
            },
            Side::Red => {
                proof { reveal_strlit("red"); }
                "red"
            },
            Side::Neutral => {
                proof { reveal_strlit("neutrals"); }
                "neutrals"
            },
        }
    }
}

} // verus!
