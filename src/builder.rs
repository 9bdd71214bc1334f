//! The circuit builder's record of handles, equality constraints and hint
//! calls, and the accelerator that batches deferred curve operations.
use vstd::prelude::*;

use crate::request::{yields_point, EcOpRequest, EcOpRequestType};
use crate::target::Target;
use crate::vars::{AffinePointVariable, AFFINE_POINT_TARGETS};

verus! {

/// An equality constraint between two equally long lists of targets.
#[derive(Clone, Debug)]
pub struct Constraint {
    pub left: Vec<Target>,
    pub right: Vec<Target>,
}

/// One call of the curve-operation result hint: the operation, the targets
/// it reads and the targets it writes.
#[derive(Clone, Debug)]
pub struct HintCall {
    pub op: EcOpRequestType,
    pub inputs: Vec<Target>,
    pub outputs: Vec<Target>,
}

/// The circuit under construction.
pub struct CircuitBuilder {
    chain_id: u64,
    num_virtual: usize,
    constraints: Vec<Constraint>,
    hints: Vec<HintCall>,
}

/// `n` virtual targets with consecutive indices from `start`.
pub open spec fn virtual_run(start: int, n: int) -> Seq<Target> {
    Seq::new(n as nat, |i: int| Target::VirtualTarget { index: (start + i) as usize })
}

/// How many of the first `n` requests yield a point.
pub open spec fn count_yielding(reqs: Seq<EcOpRequest>, n: int) -> nat
    decreases n,
{
    if n <= 0 {
        0
    } else {
        count_yielding(reqs, n - 1) + if yields_point(reqs[n - 1].spec_req_type()) {
            1nat
        } else {
            0nat
        }
    }
}

/// The constraints that draining the first `n` requests emits: for each
/// request that yields a point, in order, its hint's output equals its
/// placeholder.
pub open spec fn drain_constraints(
    reqs: Seq<EcOpRequest>,
    resps: Seq<Option<AffinePointVariable>>,
    outs: Seq<Seq<Target>>,
    n: int,
) -> Seq<(Seq<Target>, Seq<Target>)>
    decreases n,
{
    if n <= 0 {
        Seq::empty()
    } else if yields_point(reqs[n - 1].spec_req_type()) {
        drain_constraints(reqs, resps, outs, n - 1).push((outs[n - 1], resps[n - 1].unwrap().targets@))
    } else {
        drain_constraints(reqs, resps, outs, n - 1)
    }
}

/// The targets that the hint for request `i` writes, when the first hint
/// output is allocated at `start`.
pub open spec fn drain_outputs(reqs: Seq<EcOpRequest>, start: int, i: int) -> Seq<Target> {
    if yields_point(reqs[i].spec_req_type()) {
        virtual_run(start + AFFINE_POINT_TARGETS * count_yielding(reqs, i), AFFINE_POINT_TARGETS as int)
    } else {
        Seq::empty()
    }
}

/// Deferred curve operations of one circuit, in the order they were issued,
/// each with the placeholder its result is bound to.
pub struct EcOpAccelerator {
    pub ec_op_requests: Vec<EcOpRequest>,
    pub ec_op_responses: Vec<Option<AffinePointVariable>>,
}

impl EcOpAccelerator {
    /// Requests and responses line up, and a request has a placeholder
    /// exactly when it yields a point.
    pub open spec fn wf(&self) -> bool {
        &&& self.ec_op_requests@.len() == self.ec_op_responses@.len()
        &&& forall|i: int|
            0 <= i < self.ec_op_requests@.len() ==> (#[trigger] self.ec_op_responses@[i] is Some
                <==> yields_point(self.ec_op_requests@[i].spec_req_type()))
    }

    /// An accelerator with no requests.
    pub fn new() -> (r: EcOpAccelerator)
        ensures
            r.wf(),
            r.ec_op_requests@.len() == 0,
    {
        EcOpAccelerator { ec_op_requests: Vec::new(), ec_op_responses: Vec::new() }
    }

    /// Records a request with its placeholder.
    pub fn push(&mut self, request: EcOpRequest, response: Option<AffinePointVariable>)
        requires
            old(self).wf(),
            response is Some <==> yields_point(request.spec_req_type()),
        ensures
            final(self).wf(),
            final(self).ec_op_requests@ == old(self).ec_op_requests@.push(request),
            final(self).ec_op_responses@ == old(self).ec_op_responses@.push(response),
    {
        self.ec_op_requests.push(request);
        self.ec_op_responses.push(response);
    }
}

impl CircuitBuilder {
    pub closed spec fn spec_chain_id(&self) -> u64 {
        self.chain_id
    }

    /// How many virtual targets have been allocated.
    pub closed spec fn spec_num_virtual(&self) -> usize {
        self.num_virtual
    }

    /// The equality constraints, in the order they were added.
    pub closed spec fn spec_constraints(&self) -> Seq<(Seq<Target>, Seq<Target>)> {
        self.constraints@.map_values(|c: Constraint| (c.left@, c.right@))
    }

    /// The hint calls, in the order they were added.
    pub closed spec fn spec_hints(&self) -> Seq<HintCall> {
        self.hints@
    }

    /// An empty circuit for the chain `chain_id`.
    pub fn new(chain_id: u64) -> (r: CircuitBuilder)
        ensures
            r.spec_chain_id() == chain_id,
            r.spec_num_virtual() == 0,
            r.spec_constraints().len() == 0,
            r.spec_hints().len() == 0,
    {
        CircuitBuilder { chain_id, num_virtual: 0, constraints: Vec::new(), hints: Vec::new() }
    }

    /// The chain that outside data is read from.
    pub fn get_chain_id(&self) -> (r: u64)
        ensures
            r == self.spec_chain_id(),
    {
        self.chain_id
    }

    /// How many virtual targets have been allocated.
    pub fn num_virtual_targets(&self) -> (r: usize)
        ensures
            r == self.spec_num_virtual(),
    {
        self.num_virtual
    }

    /// The equality constraints, in the order they were added.
    pub fn constraints(&self) -> (r: &Vec<Constraint>)
        ensures
            r@.map_values(|c: Constraint| (c.left@, c.right@)) == self.spec_constraints(),
    {
        &self.constraints
    }

    /// The hint calls, in the order they were added.
    pub fn hints(&self) -> (r: &Vec<HintCall>)
        ensures
            r@ == self.spec_hints(),
    {
        &self.hints
    }

    /// Allocates `n` fresh virtual targets.
    pub fn add_virtual_targets(&mut self, n: usize) -> (r: Vec<Target>)
        requires
            old(self).spec_num_virtual() + n <= usize::MAX,
        ensures
            r@ == virtual_run(old(self).spec_num_virtual() as int, n as int),
            final(self).spec_num_virtual() == old(self).spec_num_virtual() + n,
            final(self).spec_chain_id() == old(self).spec_chain_id(),
            final(self).spec_constraints() == old(self).spec_constraints(),
            final(self).spec_hints() == old(self).spec_hints(),
    {
        let start = self.num_virtual;
        let mut r: Vec<Target> = Vec::new();
        let mut i: usize = 0;
        while i < n
            invariant
                i <= n,
                start + n <= usize::MAX,
                r@ == virtual_run(start as int, i as int),
            decreases n - i,
        {
            r.push(Target::VirtualTarget { index: start + i });
            assert(r@ =~= virtual_run(start as int, i + 1));
            i = i + 1;
        }
        self.num_virtual = start + n;
        r
    }

    /// Constrains `a` and `b` to be equal.
    pub fn assert_is_equal(&mut self, a: Vec<Target>, b: Vec<Target>)
        requires
            a@.len() == b@.len(),
        ensures
            final(self).spec_constraints() == old(self).spec_constraints().push((a@, b@)),
            final(self).spec_num_virtual() == old(self).spec_num_virtual(),
            final(self).spec_chain_id() == old(self).spec_chain_id(),
            final(self).spec_hints() == old(self).spec_hints(),
    {
        let ghost before = self.constraints@;
        self.constraints.push(Constraint { left: a, right: b });
        assert(self.constraints@.map_values(|c: Constraint| (c.left@, c.right@))
            =~= before.map_values(|c: Constraint| (c.left@, c.right@)).push((a@, b@)));
    }

    /// Issues a deferred curve operation: records it in `accelerator` with a
    /// fresh placeholder where it yields a point, and returns the placeholder.
    pub fn ec_op(&mut self, accelerator: &mut EcOpAccelerator, request: EcOpRequest) -> (r: Option<
        AffinePointVariable,
    >)
        requires
            old(accelerator).wf(),
            old(self).spec_num_virtual() + AFFINE_POINT_TARGETS <= usize::MAX,
        ensures
            final(accelerator).wf(),
            final(accelerator).ec_op_requests@ == old(accelerator).ec_op_requests@.push(request),
            final(accelerator).ec_op_responses@.len() == old(accelerator).ec_op_responses@.len() + 1,
            final(accelerator).ec_op_responses@.drop_last() == old(accelerator).ec_op_responses@,
            final(accelerator).ec_op_responses@.last() is Some <==> r is Some,
            final(accelerator).ec_op_responses@.last() matches Some(q) ==> q.targets@
                == r.unwrap().targets@,
            r is Some <==> yields_point(request.spec_req_type()),
            r matches Some(p) ==> p.targets@ == virtual_run(
                old(self).spec_num_virtual() as int,
                AFFINE_POINT_TARGETS as int,
            ),
            final(self).spec_num_virtual() == old(self).spec_num_virtual() + if r is Some {
                AFFINE_POINT_TARGETS
            } else {
                0
            },
            final(self).spec_chain_id() == old(self).spec_chain_id(),
            final(self).spec_constraints() == old(self).spec_constraints(),
            final(self).spec_hints() == old(self).spec_hints(),
    {
        let response = match request.req_type() {
            EcOpRequestType::IsValid => None,
            _ => Some(AffinePointVariable { targets: self.add_virtual_targets(AFFINE_POINT_TARGETS) }),
        };
        let copy = match &response {
            Some(p) => Some(AffinePointVariable { targets: p.targets.clone() }),
            None => None,
        };
        accelerator.push(request, copy);
        response
    }

    /// Binds every deferred operation of `accelerator`, in the order issued:
    /// one result-hint call per request, reading its operands, and for each
    /// request that yields a point, a constraint that the hint's output
    /// equals the request's placeholder.
    pub fn curta_constrain_ec_op(&mut self, accelerator: EcOpAccelerator)
        requires
            accelerator.wf(),
            forall|i: int|
                0 <= i < accelerator.ec_op_responses@.len() ==> (
                #[trigger] accelerator.ec_op_responses@[i] matches Some(p)
                    ==> p.targets@.len() == AFFINE_POINT_TARGETS),
            old(self).spec_num_virtual() + AFFINE_POINT_TARGETS * accelerator.ec_op_requests@.len()
                <= usize::MAX,
        ensures
            ({
                let reqs = accelerator.ec_op_requests@;
                let n = reqs.len() as int;
                let h0 = old(self).spec_hints().len() as int;
                let start = old(self).spec_num_virtual() as int;
                &&& final(self).spec_hints().len() == h0 + n
                &&& final(self).spec_hints().subrange(0, h0) == old(self).spec_hints()
                &&& forall|i: int|
                    0 <= i < n ==> {
                        let h = #[trigger] final(self).spec_hints()[h0 + i];
                        &&& h.op == reqs[i].spec_req_type()
                        &&& h.inputs@ == reqs[i].operands()
                        &&& h.outputs@ == drain_outputs(reqs, start, i)
                    }
                &&& final(self).spec_constraints() == old(self).spec_constraints()
                    + drain_constraints(
                    reqs,
                    accelerator.ec_op_responses@,
                    Seq::new(n as nat, |i: int| drain_outputs(reqs, start, i)),
                    n,
                )
                &&& final(self).spec_num_virtual() == start + AFFINE_POINT_TARGETS
                    * count_yielding(reqs, n)
                &&& final(self).spec_chain_id() == old(self).spec_chain_id()
            }),
    {
        let ghost reqs = accelerator.ec_op_requests@;
        let ghost resps = accelerator.ec_op_responses@;
        let ghost h0 = self.hints@.len() as int;
        let ghost c0 = self.spec_constraints();
        let ghost start = self.num_virtual as int;
        let ghost outs = Seq::new(reqs.len(), |i: int| drain_outputs(reqs, start, i));
        let n = accelerator.ec_op_requests.len();
        let mut i: usize = 0;
        while i < n
            invariant
                accelerator.wf(),
                n == reqs.len(),
                reqs == accelerator.ec_op_requests@,
                resps == accelerator.ec_op_responses@,
                forall|j: int|
                    0 <= j < resps.len() ==> (#[trigger] resps[j] matches Some(p)
                        ==> p.targets@.len() == AFFINE_POINT_TARGETS),
                outs == Seq::new(reqs.len(), |j: int| drain_outputs(reqs, start, j)),
                start + AFFINE_POINT_TARGETS * n <= usize::MAX,
                i <= n,
                h0 == old(self).hints@.len(),
                start == old(self).num_virtual,
                c0 == old(self).spec_constraints(),
                self.hints@.len() == h0 + i,
                self.chain_id == old(self).chain_id,
                self.hints@.subrange(0, h0) == old(self).hints@,
                forall|j: int|
                    0 <= j < i ==> {
                        let h = #[trigger] self.hints@[h0 + j];
                        &&& h.op == reqs[j].spec_req_type()
                        &&& h.inputs@ == reqs[j].operands()
                        &&& h.outputs@ == drain_outputs(reqs, start, j)
                    },
                self.spec_constraints() == c0 + drain_constraints(reqs, resps, outs, i as int),
                self.num_virtual == start + AFFINE_POINT_TARGETS * count_yielding(reqs, i as int),
            decreases n - i,
        {
            let request = &accelerator.ec_op_requests[i];
            let op = request.req_type();
            let inputs = request.input_targets();
            proof {
                lemma_count_yielding_bound(reqs, i as int);
            }
            assert(AFFINE_POINT_TARGETS * count_yielding(reqs, i as int) + AFFINE_POINT_TARGETS
                <= AFFINE_POINT_TARGETS * n) by (nonlinear_arith)
                requires
                    count_yielding(reqs, i as int) <= i,
                    i < n,
            ;
            let outputs = match op {
                EcOpRequestType::IsValid => Vec::new(),
                _ => self.add_virtual_targets(AFFINE_POINT_TARGETS),
            };
            let ghost hints_before = self.hints@;
            self.hints.push(HintCall { op, inputs, outputs: outputs.clone() });
            proof {
                lemma_push_prefix(hints_before, self.hints@.last(), h0);
            }
            match &accelerator.ec_op_responses[i] {
                Some(placeholder) => {
                    if op != EcOpRequestType::IsValid {
                        self.assert_is_equal(outputs, placeholder.targets.clone());
                    }
                },
                None => {},
            }
            assert(outs[i as int] == drain_outputs(reqs, start, i as int));
            assert(self.hints@[h0 + i] == hints_before.push(self.hints@[h0 + i]).last());
            i = i + 1;
        }
        assert(self.hints@ == self.spec_hints());
    }
}

proof fn lemma_push_prefix<A>(s: Seq<A>, x: A, k: int)
    requires
        0 <= k <= s.len(),
    ensures
        s.push(x).subrange(0, k) == s.subrange(0, k),
        forall|j: int| 0 <= j < s.len() ==> #[trigger] s.push(x)[j] == s[j],
{
    assert(s.push(x).subrange(0, k) =~= s.subrange(0, k));
}

proof fn lemma_count_yielding_bound(reqs: Seq<EcOpRequest>, n: int)
    requires
        0 <= n,
    ensures
        count_yielding(reqs, n) <= n,
    decreases n,
{
    if n > 0 {
        lemma_count_yielding_bound(reqs, n - 1);
    }
}

/// After a drain, the number of equality constraints emitted equals the
/// number of requests that yield a point; validity checks emit none.
pub proof fn lemma_drain_constraint_count(
    reqs: Seq<EcOpRequest>,
    resps: Seq<Option<AffinePointVariable>>,
    outs: Seq<Seq<Target>>,
    n: int,
)
    requires
        0 <= n,
    ensures
        drain_constraints(reqs, resps, outs, n).len() == count_yielding(reqs, n),
    decreases n,
{
    if n > 0 {
        lemma_drain_constraint_count(reqs, resps, outs, n - 1);
    }
}

/// A drain keeps the order of issue: the k-th emitted constraint belongs to
/// the k-th request that yields a point, and binds that request's hint
/// output to the placeholder returned when it was issued.
pub proof fn lemma_drain_order(
    reqs: Seq<EcOpRequest>,
    resps: Seq<Option<AffinePointVariable>>,
    outs: Seq<Seq<Target>>,
    n: int,
    i: int,
)
    requires
        0 <= i < n,
        yields_point(reqs[i].spec_req_type()),
    ensures
        drain_constraints(reqs, resps, outs, n)[count_yielding(reqs, i) as int] == (
        outs[i],
        resps[i].unwrap().targets@,
        ),
    decreases n,
{
    lemma_drain_constraint_count(reqs, resps, outs, n - 1);
    lemma_drain_constraint_count(reqs, resps, outs, i);
    if i < n - 1 {
        lemma_drain_order(reqs, resps, outs, n - 1, i);
        lemma_count_monotone(reqs, i + 1, n - 1);
    }
}

proof fn lemma_count_monotone(reqs: Seq<EcOpRequest>, a: int, b: int)
    requires
        0 <= a <= b,
    ensures
        count_yielding(reqs, a) <= count_yielding(reqs, b),
    decreases b - a,
{
    if a < b {
        lemma_count_monotone(reqs, a, b - 1);
    }
}

} // verus!
