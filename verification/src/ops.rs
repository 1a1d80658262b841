//! Operator tags used by the type-checker.
//!
//! Field access, indexing, slicing, iteration and binary operators are all
//! resolved through one "attribute" mechanism, so a single tag type
//! [`TypingAttr`] names them uniformly.

use vstd::prelude::*;

verus! {

/// Unary operator for the type-checker.
#[derive(Clone, Copy, Debug, PartialEq, Eq, Structural)]
pub enum TypingUnOp {
    /// `+`.
    Plus,
    /// `-`.
    Minus,
    /// `~`.
    BitNot,
}

/// Binary operator for the type-checker.
#[derive(Clone, Copy, Debug, PartialEq, Eq, Structural)]
pub enum TypingBinOp {
    /// `+`.
    Add,
    /// `-`.
    Sub,
    /// `/`.
    Div,
    /// `//`.
    FloorDiv,
    /// `*`.
    Mul,
    /// `%`.
    Percent,
    /// `y in x`.
    In,
    /// `|`.
    BitOr,
    /// `^`.
    BitXor,
    /// `&`.
    BitAnd,
    /// `<`, also standing for the other orderings.
    Less,
    /// `<<`.
    LeftShift,
    /// `>>`.
    RightShift,
}

/// An attribute of a type, in the widened sense the resolver uses: a regular
/// field or method, or one of the pseudo-attributes (iteration, indexing,
/// slicing, a binary operator).
#[derive(Clone, Debug, PartialEq, Eq)]
pub enum TypingAttr {
    /// A regular attribute, by name.
    Regular(String),
    /// The element obtained by iterating.
    Iter,
    /// `x[i]`, as a function of the index.
    Index,
    /// `x[a:b:c]`.
    Slice,
    /// A binary operator, as a function of the right operand.
    BinOp(TypingBinOp),
}

/// Ghost mirror of [`TypingAttr`], with the name as a character sequence.
pub enum TypingAttrV {
    /// A regular attribute, by name.
    Regular(Seq<char>),
    /// The element obtained by iterating.
    Iter,
    /// `x[i]`.
    Index,
    /// `x[a:b:c]`.
    Slice,
    /// A binary operator.
    BinOp(TypingBinOp),
}

impl View for TypingAttr {
    type V = TypingAttrV;

    open spec fn view(&self) -> TypingAttrV {
        match self {
            TypingAttr::Regular(s) => TypingAttrV::Regular(s@),
            TypingAttr::Iter => TypingAttrV::Iter,
            TypingAttr::Index => TypingAttrV::Index,
            TypingAttr::Slice => TypingAttrV::Slice,
            TypingAttr::BinOp(op) => TypingAttrV::BinOp(*op),
        }
    }
}

impl TypingAttr {
    /// Whether two attribute tags are the same attribute.
    pub fn same(&self, other: &TypingAttr) -> (r: bool)
        ensures
            r == (self@ == other@),
    {
        match (self, other) {
            (TypingAttr::Regular(a), TypingAttr::Regular(b)) => {
                let r = *a == *b;
                assert(r == (self@ == other@));
                r
            },
            (TypingAttr::Iter, TypingAttr::Iter) => true,
            (TypingAttr::Index, TypingAttr::Index) => true,
            (TypingAttr::Slice, TypingAttr::Slice) => true,
            (TypingAttr::BinOp(a), TypingAttr::BinOp(b)) => {
                let r = *a == *b;
                assert(r == (self@ == other@));
                r
            },
            _ => false,
        }
    }
}

} // verus!
