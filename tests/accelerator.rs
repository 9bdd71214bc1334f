use plonky2x_witness::builder::{CircuitBuilder, EcOpAccelerator};
use plonky2x_witness::request::{EcOpRequest, EcOpRequestType};
use plonky2x_witness::target::Target;
use plonky2x_witness::vars::{
    AffinePointVariable, CompressedEdwardsYVariable, NonNativeVariable, AFFINE_POINT_TARGETS,
};

fn point(builder: &mut CircuitBuilder) -> AffinePointVariable {
    AffinePointVariable { targets: builder.add_virtual_targets(AFFINE_POINT_TARGETS) }
}

fn compressed(builder: &mut CircuitBuilder) -> CompressedEdwardsYVariable {
    CompressedEdwardsYVariable { targets: builder.add_virtual_targets(32) }
}

fn scalar(builder: &mut CircuitBuilder) -> NonNativeVariable {
    NonNativeVariable { targets: builder.add_virtual_targets(16) }
}

#[test]
fn req_type_matches_variant_and_is_stable() {
    let mut b = CircuitBuilder::new(1);
    let p = point(&mut b);
    let q = point(&mut b);
    let s = scalar(&mut b);
    let c = compressed(&mut b);
    let add = EcOpRequest::Add(p.clone(), q.clone());
    assert_eq!(add.req_type(), EcOpRequestType::Add);
    assert_eq!(add.req_type(), add.req_type());
    assert_eq!(EcOpRequest::ScalarMul(s, p.clone()).req_type(), EcOpRequestType::ScalarMul);
    assert_eq!(EcOpRequest::Decompress(c).req_type(), EcOpRequestType::Decompress);
    assert_eq!(EcOpRequest::IsValid(q).req_type(), EcOpRequestType::IsValid);
}

#[test]
fn input_targets_follow_operand_order() {
    let mut b = CircuitBuilder::new(1);
    let s = scalar(&mut b);
    let p = point(&mut b);
    let r = EcOpRequest::ScalarMul(s.clone(), p.clone());
    let mut expected = s.targets.clone();
    expected.extend(p.targets.iter().copied());
    assert_eq!(r.input_targets(), expected);
}

#[test]
fn drain_keeps_issue_order_and_binds_each_placeholder() {
    let mut b = CircuitBuilder::new(1);
    let mut acc = EcOpAccelerator::new();
    let (p1, p2, p3, p4, p5) = (point(&mut b), point(&mut b), point(&mut b), point(&mut b), point(&mut b));
    let s = scalar(&mut b);
    let c = compressed(&mut b);
    let requests = vec![
        EcOpRequest::Add(p1.clone(), p2.clone()),
        EcOpRequest::ScalarMul(s.clone(), p3.clone()),
        EcOpRequest::Decompress(c.clone()),
        EcOpRequest::IsValid(p4.clone()),
        EcOpRequest::Add(p5.clone(), p1.clone()),
    ];
    let mut placeholders = Vec::new();
    for r in requests.iter() {
        placeholders.push(b.ec_op(&mut acc, r.clone()));
    }
    assert!(placeholders[3].is_none());
    assert!(placeholders.iter().enumerate().all(|(i, p)| i == 3 || p.is_some()));

    let hints_before = b.hints().len();
    let constraints_before = b.constraints().len();
    b.curta_constrain_ec_op(acc);

    let hints = &b.hints()[hints_before..];
    let ops: Vec<EcOpRequestType> = hints.iter().map(|h| h.op).collect();
    assert_eq!(
        ops,
        vec![
            EcOpRequestType::Add,
            EcOpRequestType::ScalarMul,
            EcOpRequestType::Decompress,
            EcOpRequestType::IsValid,
            EcOpRequestType::Add
        ]
    );
    for (h, r) in hints.iter().zip(requests.iter()) {
        assert_eq!(h.inputs, r.input_targets());
    }
    assert!(hints[3].outputs.is_empty());

    let constraints = &b.constraints()[constraints_before..];
    assert_eq!(constraints.len(), 4);
    let bound = [0usize, 1, 2, 4];
    for (k, &i) in bound.iter().enumerate() {
        assert_eq!(constraints[k].left, hints[i].outputs);
        assert_eq!(constraints[k].right, placeholders[i].as_ref().unwrap().targets);
    }
}

#[test]
fn single_decompress_emits_one_constraint() {
    let mut b = CircuitBuilder::new(1);
    let mut acc = EcOpAccelerator::new();
    let c = compressed(&mut b);
    let placeholder = b.ec_op(&mut acc, EcOpRequest::Decompress(c.clone())).unwrap();
    let before = b.num_virtual_targets();
    b.curta_constrain_ec_op(acc);
    assert_eq!(b.hints().len(), 1);
    assert_eq!(b.hints()[0].op, EcOpRequestType::Decompress);
    assert_eq!(b.hints()[0].inputs, c.targets);
    assert_eq!(b.constraints().len(), 1);
    assert_eq!(b.constraints()[0].right, placeholder.targets);
    assert_eq!(b.constraints()[0].left, b.hints()[0].outputs);
    let expected: Vec<Target> = (before..before + AFFINE_POINT_TARGETS)
        .map(|index| Target::VirtualTarget { index })
        .collect();
    assert_eq!(b.constraints()[0].left, expected);
}

#[test]
fn is_valid_requests_emit_no_constraint() {
    let mut b = CircuitBuilder::new(1);
    let mut acc = EcOpAccelerator::new();
    let p = point(&mut b);
    let q = point(&mut b);
    assert!(b.ec_op(&mut acc, EcOpRequest::IsValid(p)).is_none());
    assert!(b.ec_op(&mut acc, EcOpRequest::IsValid(q)).is_none());
    b.curta_constrain_ec_op(acc);
    assert_eq!(b.hints().len(), 2);
    assert_eq!(b.constraints().len(), 0);
}

#[test]
fn empty_accelerator_drains_to_nothing() {
    let mut b = CircuitBuilder::new(5);
    b.curta_constrain_ec_op(EcOpAccelerator::new());
    assert_eq!(b.hints().len(), 0);
    assert_eq!(b.constraints().len(), 0);
    assert_eq!(b.get_chain_id(), 5);
}

#[test]
fn virtual_targets_are_allocated_in_order() {
    let mut b = CircuitBuilder::new(1);
    let first = b.add_virtual_targets(2);
    let second = b.add_virtual_targets(1);
    assert_eq!(first, vec![Target::VirtualTarget { index: 0 }, Target::VirtualTarget { index: 1 }]);
    assert_eq!(second, vec![Target::VirtualTarget { index: 2 }]);
    assert_eq!(b.num_virtual_targets(), 3);
}
