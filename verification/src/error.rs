//! Diagnostics: genuine type violations and acknowledged approximations.
//!
//! Nothing here ever aborts a check: errors are accumulated and reported
//! together once the whole module has been walked.

use vstd::prelude::*;

use crate::codemap::Span;
use crate::ops::TypingAttr;
use crate::ops::TypingBinOp;
use crate::ops::TypingUnOp;
use crate::ty::new_string;
use crate::ty::render_basic;
use crate::ty::Ty;
use crate::ty::TyBasic;
use crate::ty::TyV;

verus! {

/// What went wrong, with the values involved. The kinds are distinguishable
/// so that callers and tests can match on the kind rather than on text.
#[derive(Debug)]
pub enum TypingErrorKind {
    /// An attribute (or operator pseudo-attribute) is not available on a type.
    AttributeNotAvailable {
        /// The type missing the attribute.
        ty: Ty,
        /// The attribute looked up.
        attr: TypingAttr,
    },
    /// A global name is not known.
    UnknownBuiltin {
        /// The name looked up.
        name: String,
    },
    /// A unary operator is not available on a type.
    UnaryOperatorNotAvailable {
        /// The operator.
        un_op: TypingUnOp,
        /// The operand type.
        ty: Ty,
    },
    /// A binary operator is not available on a pair of types.
    BinaryOperatorNotAvailable {
        /// The operator.
        bin_op: TypingBinOp,
        /// The left operand type.
        left: Ty,
        /// The right operand type.
        right: Ty,
    },
    /// A value of one type stood where another type was required.
    IncompatibleType {
        /// The type that was found.
        got: Ty,
        /// The type that was required.
        require: Ty,
    },
    /// A call to something that is not callable.
    CallToNonCallable {
        /// The type called.
        ty: Ty,
    },
    /// A required parameter received no argument.
    MissingRequiredParameter {
        /// The parameter's name.
        name: String,
    },
    /// A named argument matched no parameter.
    UnexpectedNamedArgument {
        /// The argument's name.
        name: String,
    },
    /// More positional arguments than positional parameters.
    TooManyPositionalArguments,
    /// Every alternative of a union failed the call, for differing reasons.
    CallArgumentsIncompatible,
}

/// Ghost mirror of [`TypingErrorKind`].
pub enum TypingErrorKindV {
    /// An attribute is not available on a type.
    AttributeNotAvailable { ty: TyV, attr: <TypingAttr as View>::V },
    /// A global name is not known.
    UnknownBuiltin { name: Seq<char> },
    /// A unary operator is not available on a type.
    UnaryOperatorNotAvailable { un_op: TypingUnOp, ty: TyV },
    /// A binary operator is not available on a pair of types.
    BinaryOperatorNotAvailable { bin_op: TypingBinOp, left: TyV, right: TyV },
    /// A value of one type stood where another type was required.
    IncompatibleType { got: TyV, require: TyV },
    /// A call to something that is not callable.
    CallToNonCallable { ty: TyV },
    /// A required parameter received no argument.
    MissingRequiredParameter { name: Seq<char> },
    /// A named argument matched no parameter.
    UnexpectedNamedArgument { name: Seq<char> },
    /// More positional arguments than positional parameters.
    TooManyPositionalArguments,
    /// Every alternative of a union failed the call, for differing reasons.
    CallArgumentsIncompatible,
}

/// Ghost mirror of [`TypingError`].
pub struct TypingErrorV {
    /// Where in the source.
    pub span: Span,
    /// What went wrong.
    pub kind: TypingErrorKindV,
}

/// A genuine type violation: kind plus source position. Collected, never
/// thrown; the check always continues to the end of the module.
#[derive(Debug)]
pub struct TypingError {
    /// Where in the source.
    pub span: Span,
    /// What went wrong.
    pub kind: TypingErrorKind,
}

impl View for TypingErrorKind {
    type V = TypingErrorKindV;

    open spec fn view(&self) -> TypingErrorKindV {
        match self {
            TypingErrorKind::AttributeNotAvailable { ty, attr } => {
                TypingErrorKindV::AttributeNotAvailable { ty: ty@, attr: attr@ }
            },
            TypingErrorKind::UnknownBuiltin { name } => {
                TypingErrorKindV::UnknownBuiltin { name: name@ }
            },
            TypingErrorKind::UnaryOperatorNotAvailable { un_op, ty } => {
                TypingErrorKindV::UnaryOperatorNotAvailable { un_op: *un_op, ty: ty@ }
            },
            TypingErrorKind::BinaryOperatorNotAvailable { bin_op, left, right } => {
                TypingErrorKindV::BinaryOperatorNotAvailable {
                    bin_op: *bin_op,
                    left: left@,
                    right: right@,
                }
            },
            TypingErrorKind::IncompatibleType { got, require } => {
                TypingErrorKindV::IncompatibleType { got: got@, require: require@ }
            },
            TypingErrorKind::CallToNonCallable { ty } => {
                TypingErrorKindV::CallToNonCallable { ty: ty@ }
            },
            TypingErrorKind::MissingRequiredParameter { name } => {
                TypingErrorKindV::MissingRequiredParameter { name: name@ }
            },
            TypingErrorKind::UnexpectedNamedArgument { name } => {
                TypingErrorKindV::UnexpectedNamedArgument { name: name@ }
            },
            TypingErrorKind::TooManyPositionalArguments => {
                TypingErrorKindV::TooManyPositionalArguments
            },
            TypingErrorKind::CallArgumentsIncompatible => {
                TypingErrorKindV::CallArgumentsIncompatible
            },
        }
    }
}

impl View for TypingError {
    type V = TypingErrorV;

    open spec fn view(&self) -> TypingErrorV {
        TypingErrorV { span: self.span, kind: self.kind@ }
    }
}

impl TypingError {
    /// A new diagnostic.
    pub fn new(span: Span, kind: TypingErrorKind) -> (r: TypingError)
        ensures
            r == (TypingError { span, kind }),
            r@ == (TypingErrorV { span, kind: kind@ }),
    {
        TypingError { span, kind }
    }

    /// The diagnostic as text.
    pub fn message(&self) -> String {
        match &self.kind {
            TypingErrorKind::AttributeNotAvailable { ty, attr } => {
                let mut s = new_string("The attribute `");
                let a = render_attr(attr);
                s.append(a.as_str());
                s.append("` is not available on the type `");
                let t = ty.render();
                s.append(t.as_str());
                s.append("`");
                s
            },
            TypingErrorKind::UnknownBuiltin { name } => {
                let mut s = new_string("The builtin `");
                s.append(name.as_str());
                s.append("` is not known");
                s
            },
            TypingErrorKind::UnaryOperatorNotAvailable { un_op, ty } => {
                let mut s = new_string("Unary operator `");
                s.append(render_un_op(*un_op));
                s.append("` is not available on the type `");
                let t = ty.render();
                s.append(t.as_str());
                s.append("`");
                s
            },
            TypingErrorKind::BinaryOperatorNotAvailable { bin_op, left, right } => {
                let mut s = new_string("Binary operator `");
                s.append(render_bin_op(*bin_op));
                s.append("` is not available on the types `");
                let l = left.render();
                s.append(l.as_str());
                s.append("` and `");
                let r = right.render();
                s.append(r.as_str());
                s.append("`");
                s
            },
            TypingErrorKind::IncompatibleType { got, require } => {
                let mut s = new_string("Expected type `");
                let r = require.render();
                s.append(r.as_str());
                s.append("` but got `");
                let g = got.render();
                s.append(g.as_str());
                s.append("`");
                s
            },
            TypingErrorKind::CallToNonCallable { ty } => {
                let mut s = new_string("Call to a non-callable type `");
                let t = ty.render();
                s.append(t.as_str());
                s.append("`");
                s
            },
            TypingErrorKind::MissingRequiredParameter { name } => {
                let mut s = new_string("Missing required parameter `");
                s.append(name.as_str());
                s.append("`");
                s
            },
            TypingErrorKind::UnexpectedNamedArgument { name } => {
                let mut s = new_string("Unexpected parameter named `");
                s.append(name.as_str());
                s.append("`");
                s
            },
            TypingErrorKind::TooManyPositionalArguments => new_string(
                "Too many positional arguments",
            ),
            TypingErrorKind::CallArgumentsIncompatible => new_string(
                "Call arguments incompatible",
            ),
        }
    }
}

/// An attribute tag as text.
pub fn render_attr(attr: &TypingAttr) -> String {
    match attr {
        TypingAttr::Regular(name) => name.clone(),
        TypingAttr::Iter => new_string("(iter)"),
        TypingAttr::Index => new_string("[]"),
        TypingAttr::Slice => new_string("[::]"),
        TypingAttr::BinOp(op) => new_string(render_bin_op(*op)),
    }
}

/// A unary operator as text.
pub fn render_un_op(op: TypingUnOp) -> &'static str {
    match op {
        TypingUnOp::Plus => "+",
        TypingUnOp::Minus => "-",
        TypingUnOp::BitNot => "~",
    }
}

/// A binary operator as text.
pub fn render_bin_op(op: TypingBinOp) -> &'static str {
    match op {
        TypingBinOp::Add => "+",
        TypingBinOp::Sub => "-",
        TypingBinOp::Div => "/",
        TypingBinOp::FloorDiv => "//",
        TypingBinOp::Mul => "*",
        TypingBinOp::Percent => "%",
        TypingBinOp::In => "in",
        TypingBinOp::BitOr => "|",
        TypingBinOp::BitXor => "^",
        TypingBinOp::BitAnd => "&",
        TypingBinOp::Less => "<",
        TypingBinOp::LeftShift => "<<",
        TypingBinOp::RightShift => ">>",
    }
}

/// An acknowledged gap in modelling: the checker widened to `Any` instead of
/// rejecting a construct it cannot model.
pub struct Approximation {
    /// The category of the approximation.
    pub category: String,
    /// The precise detail, e.g. which construct was unmodelled.
    pub message: String,
}

impl Approximation {
    /// A new approximation note.
    pub fn new(category: &str, message: &str) -> (r: Approximation)
        ensures
            r.category@ == category@,
            r.message@ == message@,
    {
        Approximation { category: category.to_owned(), message: message.to_owned() }
    }
}

/// A fault in the input itself (an unresolved binding reaching the collector),
/// as opposed to a type violation in the checked program.
pub struct InternalError {
    /// Where in the source.
    pub span: Span,
    /// What was malformed.
    pub message: String,
}

} // verus!
