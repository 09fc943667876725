use melior::{
    apply_named_sequence, merge_symbols_into_from_clone, register_all_dialects, Attribute, Block, Context,
    DialectRegistry, Identifier, Location, Module, OperationBuilder, Region, TransformOptions,
};

fn load_all_dialects() -> Context {
    let mut registry = DialectRegistry::new();
    register_all_dialects(&mut registry);
    Context::with_registry(registry)
}

fn symbol(context: &Context, name: &str) -> melior::Operation {
    OperationBuilder::new("func.func", Location::unknown())
        .add_attributes(vec![(Identifier::new("sym_name"), Attribute::Text(name.to_string()))])
        .add_regions(vec![Region::new()])
        .build(context)
        .unwrap()
}

#[test]
fn transform_options_new() {
    let options = TransformOptions::new();
    // The options can be created and queried without assuming default values.
    let _expensive_checks = options.expensive_checks_enabled();
    let _single_top_level = options.single_top_level_transform_op_enforced();
}

#[test]
fn transform_options_enable_expensive_checks() {
    let mut options = TransformOptions::new();

    options.enable_expensive_checks(true);
    assert!(options.expensive_checks_enabled());

    options.enable_expensive_checks(false);
    assert!(!options.expensive_checks_enabled());
}

#[test]
fn transform_options_enforce_single_top_level() {
    let mut options = TransformOptions::new();

    options.enforce_single_top_level_transform_op(true);
    assert!(options.single_top_level_transform_op_enforced());

    options.enforce_single_top_level_transform_op(false);
    assert!(!options.single_top_level_transform_op_enforced());
}

#[test]
fn transform_options_flags_are_independent() {
    let mut options = TransformOptions::default();
    options.enable_expensive_checks(false);
    options.enforce_single_top_level_transform_op(true);
    assert!(!options.expensive_checks_enabled());
    assert!(options.single_top_level_transform_op_enforced());
    options.enforce_single_top_level_transform_op(false);
    assert!(!options.expensive_checks_enabled());
    options.enable_expensive_checks(true);
    assert!(!options.single_top_level_transform_op_enforced());
    assert!(options.expensive_checks_enabled());
}

#[test]
fn transform_dialect_handle() {
    let context = load_all_dialects();
    let block = Block::new(&[]);
    assert!(OperationBuilder::new("transform.yield", Location::unknown()).build(&context).is_ok());
    assert_eq!(block.operation_count(), 0);
}

#[test]
fn merge_symbols_test() {
    let context = load_all_dialects();
    let _ = &context;

    let location = Location::unknown();
    let mut module1 = Module::new(location);
    let module2 = Module::new(location);

    // This should not fail with empty modules.
    merge_symbols_into_from_clone(&mut module1.operation, module2.as_operation()).unwrap();
    assert_eq!(module1.body().operation_count(), 0);
}

#[test]
fn merge_copies_symbols_and_refuses_conflicts() {
    let mut context = load_all_dialects();
    context.set_allow_unregistered_dialects(true);
    let mut target = Module::new(Location::unknown());
    let mut other = Module::new(Location::unknown());
    target.operation.regions[0].blocks[0].append_operation(symbol(&context, "a"));
    other.operation.regions[0].blocks[0].append_operation(symbol(&context, "b"));
    other.operation.regions[0].blocks[0]
        .append_operation(OperationBuilder::new("func.return", Location::unknown()).build(&context).unwrap());
    other.operation.regions[0].blocks[0].append_operation(symbol(&context, "c"));

    merge_symbols_into_from_clone(&mut target.operation, other.as_operation()).unwrap();
    let body = target.body();
    assert_eq!(body.operation_count(), 3);
    let names: Vec<String> = body
        .operations
        .iter()
        .map(|op| op.attribute("sym_name").unwrap().text().unwrap().clone())
        .collect();
    assert_eq!(names, vec!["a".to_string(), "b".to_string(), "c".to_string()]);
    assert_eq!(body.operations[1].region_count(), 1);
    assert_eq!(other.body().operation_count(), 3);

    // Merging again defines `b` and `c` twice.
    assert!(merge_symbols_into_from_clone(&mut target.operation, other.as_operation()).is_err());
    assert_eq!(target.body().operation_count(), 3);

    // An operation without a body cannot take symbols.
    let mut bare = OperationBuilder::new("func.return", Location::unknown()).build(&context).unwrap();
    assert!(merge_symbols_into_from_clone(&mut bare, other.as_operation()).is_err());
}

#[test]
fn apply_named_sequence_of_yield() {
    let context = load_all_dialects();
    let payload = Module::new(Location::unknown());
    let mut body = Block::new(&[]);
    body.append_operation(OperationBuilder::new("transform.yield", Location::unknown()).build(&context).unwrap());
    let mut region = Region::new();
    region.append_block(body);
    let root = OperationBuilder::new("transform.named_sequence", Location::unknown())
        .add_regions(vec![region])
        .build(&context)
        .unwrap();
    let empty_module = Module::new(Location::unknown());
    let mut options = TransformOptions::new();

    // A single top-level transform operation is demanded, the module has none.
    assert!(apply_named_sequence(payload.as_operation(), &root, empty_module.as_operation(), &options).is_err());
    options.enforce_single_top_level_transform_op(false);
    assert!(apply_named_sequence(payload.as_operation(), &root, empty_module.as_operation(), &options).is_ok());

    // A sequence with an operation that is not interpreted fails.
    let mut body = Block::new(&[]);
    body.append_operation(OperationBuilder::new("func.return", Location::unknown()).build(&context).unwrap());
    let mut region = Region::new();
    region.append_block(body);
    let other_root = OperationBuilder::new("transform.named_sequence", Location::unknown())
        .add_regions(vec![region])
        .build(&context)
        .unwrap();
    assert!(apply_named_sequence(payload.as_operation(), &other_root, empty_module.as_operation(), &options).is_err());

    // The root must be a named sequence.
    assert!(apply_named_sequence(payload.as_operation(), payload.as_operation(), empty_module.as_operation(), &options)
        .is_err());
}
