//! Deferred elliptic-curve operations.
use vstd::prelude::*;

use crate::target::Target;
use crate::vars::{AffinePointVariable, CompressedEdwardsYVariable, NonNativeVariable};

verus! {

/// The kind of a deferred curve operation.
#[derive(Clone, Copy, Debug, PartialEq, Eq, Structural)]
pub enum EcOpRequestType {
    Add,
    ScalarMul,
    Decompress,
    IsValid,
}

/// Whether an operation of this kind yields a point that a placeholder
/// must be bound to.
pub open spec fn yields_point(t: EcOpRequestType) -> bool {
    t != EcOpRequestType::IsValid
}

/// A request for one curve operation, holding its operands.
#[derive(Clone, Debug)]
pub enum EcOpRequest {
    Add(AffinePointVariable, AffinePointVariable),
    ScalarMul(NonNativeVariable, AffinePointVariable),
    Decompress(CompressedEdwardsYVariable),
    IsValid(AffinePointVariable),
}

impl EcOpRequest {
    /// The kind of this request, determined by its variant.
    pub open spec fn spec_req_type(&self) -> EcOpRequestType {
        match self {
            EcOpRequest::Add(_, _) => EcOpRequestType::Add,
            EcOpRequest::ScalarMul(_, _) => EcOpRequestType::ScalarMul,
            EcOpRequest::Decompress(_) => EcOpRequestType::Decompress,
            EcOpRequest::IsValid(_) => EcOpRequestType::IsValid,
        }
    }

    /// The operand targets in the order the result hint reads them:
    /// a then b; scalar then point; the compressed point; the point.
    pub open spec fn operands(&self) -> Seq<Target> {
        match self {
            EcOpRequest::Add(a, b) => a.targets@ + b.targets@,
            EcOpRequest::ScalarMul(s, p) => s.targets@ + p.targets@,
            EcOpRequest::Decompress(c) => c.targets@,
            EcOpRequest::IsValid(p) => p.targets@,
        }
    }

    /// Returns the type of the request.
    pub fn req_type(&self) -> (r: EcOpRequestType)
        ensures
            r == self.spec_req_type(),
    {
        match self {
            EcOpRequest::Add(_, _) => EcOpRequestType::Add,
            EcOpRequest::ScalarMul(_, _) => EcOpRequestType::ScalarMul,
            EcOpRequest::Decompress(_) => EcOpRequestType::Decompress,
            EcOpRequest::IsValid(_) => EcOpRequestType::IsValid,
        }
    }

    /// The operand targets, written in the order the result hint reads them.
    pub fn input_targets(&self) -> (r: Vec<Target>)
        ensures
            r@ == self.operands(),
    {
        let mut r: Vec<Target> = Vec::new();
        match self {
            EcOpRequest::Add(a, b) => {
                let mut x = a.targets.clone();
                let mut y = b.targets.clone();
                r.append(&mut x);
                r.append(&mut y);
            },
            EcOpRequest::ScalarMul(s, p) => {
                let mut x = s.targets.clone();
                let mut y = p.targets.clone();
                r.append(&mut x);
                r.append(&mut y);
            },
            EcOpRequest::Decompress(c) => {
                let mut x = c.targets.clone();
                r.append(&mut x);
            },
            EcOpRequest::IsValid(p) => {
                let mut x = p.targets.clone();
                r.append(&mut x);
            },
        }
        assert(r@ =~= self.operands());
        r
    }
}

} // verus!
