use melior::{
    register_all_dialects, Attribute, Block, Context, DialectRegistry, Error, Identifier, Location,
    OperationBuilder, Region, Type, Value,
};

fn create_test_context() -> Context {
    let mut registry = DialectRegistry::new();
    register_all_dialects(&mut registry);
    Context::with_registry(registry)
}

#[test]
fn new() {
    let mut context = create_test_context();
    context.set_allow_unregistered_dialects(true);

    OperationBuilder::new("foo", Location::unknown())
        .build(&context)
        .unwrap();
}

#[test]
fn add_operands() {
    let mut context = create_test_context();
    context.set_allow_unregistered_dialects(true);

    let location = Location::unknown();
    let index_type = Type::index();
    let block = Block::new(&[(index_type, location)]);
    let argument = block.argument(0).unwrap();

    OperationBuilder::new("foo", Location::unknown())
        .add_operands(&[argument])
        .build(&context)
        .unwrap();
}

#[test]
fn add_results() {
    let mut context = create_test_context();
    context.set_allow_unregistered_dialects(true);

    OperationBuilder::new("foo", Location::unknown())
        .add_results(&[Type::parse("i1").unwrap()])
        .build(&context)
        .unwrap();
}

#[test]
fn add_regions() {
    let mut context = create_test_context();
    context.set_allow_unregistered_dialects(true);

    OperationBuilder::new("foo", Location::unknown())
        .add_regions(vec![Region::new()])
        .build(&context)
        .unwrap();
}

#[test]
fn add_successors() {
    let mut context = create_test_context();
    context.set_allow_unregistered_dialects(true);

    OperationBuilder::new("foo", Location::unknown())
        .add_successors(&[&Block::new(&[])])
        .build(&context)
        .unwrap();
}

#[test]
fn add_attributes() {
    let mut context = create_test_context();
    context.set_allow_unregistered_dialects(true);

    OperationBuilder::new("foo", Location::unknown())
        .add_attributes(vec![(Identifier::new("foo"), Attribute::parse("unit").unwrap())])
        .build(&context)
        .unwrap();
}

#[test]
fn enable_result_type_inference() {
    let mut context = create_test_context();
    context.set_allow_unregistered_dialects(true);

    let location = Location::unknown();
    let index_type = Type::index();
    let block = Block::new(&[(index_type, location)]);
    let argument = block.argument(0).unwrap();

    assert_eq!(
        OperationBuilder::new("arith.addi", location)
            .add_operands(&[argument, argument])
            .enable_result_type_inference()
            .build(&context)
            .unwrap()
            .result(0)
            .unwrap()
            .value_type(),
        index_type,
    );
}

#[test]
fn add_operands_with_segment_sizes() {
    let mut context = create_test_context();
    context.set_allow_unregistered_dialects(true);

    let location = Location::unknown();
    let index_type = Type::index();
    let block = Block::new(&[(index_type, location), (index_type, location), (index_type, location)]);
    let arg0: Value = block.argument(0).unwrap();
    let arg1: Value = block.argument(1).unwrap();
    let arg2: Value = block.argument(2).unwrap();

    // Segment sizes 0, 1 and 2.
    let op = OperationBuilder::new("test.variadic_op", location)
        .add_operands_with_segment_sizes(&[&[], &[arg0], &[arg1, arg2]])
        .build(&context)
        .unwrap();

    assert_eq!(op.operand_count(), 3);

    let attr = op.attribute("operandSegmentSizes").unwrap();
    let sizes = attr.dense_i32_elements().unwrap();
    assert!(
        sizes.contains(&0) && sizes.contains(&1) && sizes.contains(&2),
        "Expected segment sizes in attribute, got: {:?}",
        sizes
    );
    assert_eq!(sizes, &vec![0, 1, 2]);
}

#[test]
fn segment_operands_keep_their_order() {
    let context = create_test_context();
    let block = Block::new(&[
        (Type::index(), Location::unknown()),
        (Type::integer(32), Location::unknown()),
        (Type::integer(1), Location::unknown()),
    ]);
    let a = block.argument(0).unwrap();
    let b = block.argument(1).unwrap();
    let c = block.argument(2).unwrap();
    let builder = OperationBuilder::new("func.return", Location::unknown())
        .add_operands_with_segment_sizes(&[&[c, a], &[], &[b], &[]]);
    let op = builder.build(&context).unwrap();
    assert_eq!(op.operand_count(), 3);
    assert_eq!(op.operand(0), Some(c));
    assert_eq!(op.operand(1), Some(a));
    assert_eq!(op.operand(2), Some(b));
    assert_eq!(op.operand(3), None);
    let sizes = op.attribute("operandSegmentSizes").unwrap().dense_i32_elements().unwrap();
    assert_eq!(sizes, &vec![2, 0, 1, 0]);
}

#[test]
fn empty_segment_list_records_empty_sizes() {
    let mut context = create_test_context();
    context.set_allow_unregistered_dialects(true);
    let op = OperationBuilder::new("test.none", Location::unknown())
        .add_operands_with_segment_sizes(&[])
        .build(&context)
        .unwrap();
    assert_eq!(op.operand_count(), 0);
    assert_eq!(op.attribute_count(), 1);
    let sizes = op.attribute("operandSegmentSizes").unwrap().dense_i32_elements().unwrap();
    assert!(sizes.is_empty());
}

#[test]
fn unregistered_baseline_builds_only_when_allowed() {
    let mut context = create_test_context();
    assert!(matches!(
        OperationBuilder::new("foo.bar", Location::unknown()).build(&context),
        Err(Error::OperationBuild)
    ));
    context.set_allow_unregistered_dialects(true);
    let op = OperationBuilder::new("foo.bar", Location::unknown()).build(&context).unwrap();
    assert_eq!(op.name(), "foo.bar");
    assert_eq!(op.result_count(), 0);
    assert_eq!(op.operand_count(), 0);
    assert_eq!(op.region_count(), 0);
    assert_eq!(op.successor_count(), 0);
}

#[test]
fn empty_name_fails() {
    let mut context = create_test_context();
    context.set_allow_unregistered_dialects(true);
    assert!(OperationBuilder::new("", Location::unknown()).build(&context).is_err());
}

#[test]
fn inference_without_rule_fails() {
    let mut context = create_test_context();
    context.set_allow_unregistered_dialects(true);
    let block = Block::new(&[(Type::index(), Location::unknown())]);
    let argument = block.argument(0).unwrap();
    // Not registered at all.
    assert!(OperationBuilder::new("foo", Location::unknown())
        .add_operands(&[argument])
        .enable_result_type_inference()
        .build(&context)
        .is_err());
    // Registered, without an inference rule.
    assert!(OperationBuilder::new("func.return", Location::unknown())
        .add_operands(&[argument])
        .enable_result_type_inference()
        .build(&context)
        .is_err());
}

#[test]
fn inference_with_fixed_rule_and_errors() {
    let context = create_test_context();
    let block = Block::new(&[(Type::integer(8), Location::unknown())]);
    let argument = block.argument(0).unwrap();
    let op = OperationBuilder::new("arith.cmpi", Location::unknown())
        .add_operands(&[argument, argument])
        .enable_result_type_inference()
        .build(&context)
        .unwrap();
    assert_eq!(op.result_count(), 1);
    assert_eq!(op.result(0).unwrap().value_type(), Type::integer(1));
    // Wrong operand count for a registered operation.
    assert!(OperationBuilder::new("arith.addi", Location::unknown())
        .add_operands(&[argument])
        .enable_result_type_inference()
        .build(&context)
        .is_err());
    // Inference together with explicit results.
    assert!(OperationBuilder::new("arith.addi", Location::unknown())
        .add_operands(&[argument, argument])
        .add_results(&[Type::integer(8)])
        .enable_result_type_inference()
        .build(&context)
        .is_err());
}

#[test]
fn operands_accumulate_across_calls() {
    let mut context = create_test_context();
    context.set_allow_unregistered_dialects(true);
    let block = Block::new(&[(Type::index(), Location::unknown()), (Type::integer(64), Location::unknown())]);
    let a = block.argument(0).unwrap();
    let b = block.argument(1).unwrap();
    let op = OperationBuilder::new("foo", Location::unknown())
        .add_operands(&[a])
        .add_operands(&[b])
        .build(&context)
        .unwrap();
    assert_eq!(op.operand_count(), 2);
    assert_eq!(op.operand(0), Some(a));
    assert_eq!(op.operand(1), Some(b));
}

#[test]
fn fields_are_carried_into_the_operation() {
    let mut context = create_test_context();
    context.set_allow_unregistered_dialects(true);
    let successor = Block::new(&[(Type::integer(16), Location::unknown())]);
    let op = OperationBuilder::new("test.op", Location::LineColumn(3, 4))
        .add_results(&[Type::integer(32), Type::index()])
        .add_regions_vec(vec![Region::new(), Region::new()])
        .add_successors(&[&successor, &successor])
        .add_attributes(vec![(Identifier::new("flag"), Attribute::parse("true").unwrap())])
        .add_attributes(vec![(Identifier::new("flag"), Attribute::parse("false").unwrap())])
        .build(&context)
        .unwrap();
    assert_eq!(op.result_count(), 2);
    assert_eq!(op.result(1).unwrap().value_type(), Type::index());
    assert!(op.result(2).is_none());
    assert_eq!(op.region_count(), 2);
    assert_eq!(op.successor_count(), 2);
    assert_eq!(op.attribute_count(), 2);
    assert!(matches!(op.attribute("flag"), Some(Attribute::Bool(true))));
    assert!(op.attribute("missing").is_none());
    assert_eq!(op.location, Location::LineColumn(3, 4));
}

#[test]
fn type_and_attribute_texts() {
    assert_eq!(Type::parse("index"), Some(Type::index()));
    assert_eq!(Type::parse("none"), Some(Type::NoneType));
    assert_eq!(Type::parse("i32"), Some(Type::integer(32)));
    assert_eq!(Type::parse("i16777215"), Some(Type::integer(16777215)));
    assert_eq!(Type::parse("i16777216"), None);
    assert_eq!(Type::parse("i0"), None);
    assert_eq!(Type::parse("i"), None);
    assert_eq!(Type::parse("i3x"), None);
    assert_eq!(Type::parse("f32"), None);
    assert!(matches!(Attribute::parse("unit"), Some(Attribute::Unit)));
    assert!(matches!(Attribute::parse("false"), Some(Attribute::Bool(false))));
    assert!(Attribute::parse("unity").is_none());
}

#[test]
fn error_messages() {
    assert_eq!(Error::OperationBuild.message(), "failed to build an operation");
    assert_eq!(
        Error::ParsePassPipeline("x".to_string()).message(),
        "failed to parse pass pipeline: x"
    );
}
