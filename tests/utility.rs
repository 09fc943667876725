use melior::transform::load_irdl_dialects;
use melior::{
    handle_parse_error, Attribute, Block, Identifier, Location, Module, OperationBuilder, Region, parse_pass_pipeline, register_all_dialects, register_all_llvm_translations, register_all_passes,
    Context, DialectRegistry, Error, OperationPassManager, PassRegistry,
};

fn registered_passes() -> PassRegistry {
    let mut registry = PassRegistry::new();
    register_all_passes(&mut registry);
    registry
}

#[test]
fn register_dialects() {
    let mut registry = DialectRegistry::new();

    register_all_dialects(&mut registry);
    assert_eq!(registry.operations.len(), 7);
}

#[test]
fn register_dialects_twice() {
    let mut registry = DialectRegistry::new();

    register_all_dialects(&mut registry);
    register_all_dialects(&mut registry);
    assert_eq!(registry.operations.len(), 7);
}

#[test]
fn register_llvm_translations() {
    let mut context = Context::new();

    register_all_llvm_translations(&mut context);
    assert!(context.llvm_translations_registered);
}

#[test]
fn register_llvm_translations_twice() {
    let mut context = Context::new();

    register_all_llvm_translations(&mut context);
    register_all_llvm_translations(&mut context);
    assert!(context.llvm_translations_registered);
}

#[test]
fn register_passes() {
    let mut registry = PassRegistry::new();
    register_all_passes(&mut registry);
    assert_eq!(registry.passes.len(), 6);
}

#[test]
fn register_passes_twice() {
    let mut registry = PassRegistry::new();
    register_all_passes(&mut registry);
    register_all_passes(&mut registry);
    assert_eq!(registry.passes.len(), 6);
}

#[test]
fn register_passes_many_times() {
    let mut registry = PassRegistry::new();
    for _ in 0..1000 {
        register_all_passes(&mut registry);
    }
    assert_eq!(registry.passes.len(), 6);
    assert!(registry.all_registered);
}

#[test]
fn parse_valid_pipelines() {
    let registry = registered_passes();
    let mut manager = OperationPassManager::new("builtin.module");
    assert!(parse_pass_pipeline(&mut manager, &registry, "builtin.module(func.func(cse, canonicalize), inline)").is_ok());
    let names: Vec<&str> = manager.passes.iter().map(|s| s.as_str()).collect();
    assert_eq!(names, vec!["cse", "canonicalize", "inline"]);
    assert!(parse_pass_pipeline(&mut manager, &registry, "sccp").is_ok());
    assert_eq!(manager.pass_count(), 4);
    assert!(parse_pass_pipeline(&mut manager, &registry, "").is_ok());
    assert!(parse_pass_pipeline(&mut manager, &registry, "func.func()").is_ok());
    assert_eq!(manager.pass_count(), 4);
}

#[test]
fn parse_invalid_pipelines() {
    let registry = registered_passes();
    let mut manager = OperationPassManager::new("builtin.module");
    for text in ["builtin.module(func.func(cse)", "cse)", "cse,", ",cse", "cse(", "no-such-pass", "cse;", "func.func(cse)(cse)"] {
        match parse_pass_pipeline(&mut manager, &registry, text) {
            Err(Error::ParsePassPipeline(message)) => {
                assert!(!message.is_empty());
                assert_eq!(message, format!("'{}' is not a valid pass pipeline", text));
            }
            other => panic!("{:?} parsed as {:?}", text, other),
        }
    }
    assert_eq!(manager.pass_count(), 0);
}

#[test]
fn parse_needs_registered_passes() {
    let registry = PassRegistry::new();
    let mut manager = OperationPassManager::new("builtin.module");
    assert!(parse_pass_pipeline(&mut manager, &registry, "cse").is_err());
}

#[test]
fn diagnostics_accumulate() {
    let mut message: Option<String> = None;
    handle_parse_error(&mut message, None);
    assert!(message.is_none());
    handle_parse_error(&mut message, Some("first"));
    assert_eq!(message.as_deref(), Some("first"));
    handle_parse_error(&mut message, Some(", second"));
    handle_parse_error(&mut message, None);
    assert_eq!(message.as_deref(), Some("first, second"));
}

#[test]
fn print_string_chunks() {
    let mut writer = String::new();
    let mut result: Result<(), Error> = Ok(());
    melior::pass::print_string_callback(&mut writer, &mut result, Some("ab"));
    melior::pass::print_string_callback(&mut writer, &mut result, Some("cd"));
    assert_eq!(writer, "abcd");
    melior::pass::print_string_callback(&mut writer, &mut result, None);
    melior::pass::print_string_callback(&mut writer, &mut result, Some("ef"));
    assert_eq!(writer, "abcd");
    assert!(result.is_err());
}

#[test]
fn test_load_irdl_dialects() {
    let context = Context::new();
    let _ = &context;
    let module = Module::new(Location::unknown());
    let mut registry = DialectRegistry::new();

    assert!(load_irdl_dialects(&module, &mut registry));
    assert_eq!(registry.operations.len(), 0);
}

fn named(name: &str, symbol: Option<&str>, regions: Vec<Region>) -> melior::Operation {
    let mut context = Context::new();
    context.set_allow_unregistered_dialects(true);
    let mut builder = OperationBuilder::new(name, Location::unknown()).add_regions(regions);
    if let Some(s) = symbol {
        builder = builder.add_attributes(vec![(Identifier::new("sym_name"), Attribute::Text(s.to_string()))]);
    }
    builder.build(&context).unwrap()
}

#[test]
fn load_irdl_dialect_operations() {
    let mut body = Block::new(&[]);
    body.append_operation(named("irdl.operation", Some("frob"), vec![]));
    body.append_operation(named("irdl.type", Some("thing"), vec![]));
    body.append_operation(named("irdl.operation", Some("twiddle"), vec![]));
    let mut region = Region::new();
    region.append_block(body);
    let mut module = Module::new(Location::unknown());
    module.operation.regions[0].blocks[0].append_operation(named("irdl.dialect", Some("toy"), vec![region]));
    let mut registry = DialectRegistry::new();
    assert!(load_irdl_dialects(&module, &mut registry));
    let names: Vec<&str> = registry.operations.iter().map(|d| d.name.as_str()).collect();
    assert_eq!(names, vec!["toy.frob", "toy.twiddle"]);
    assert!(registry.operations.iter().all(|d| d.operand_count.is_none() && d.inference.is_none()));

    // A dialect without a body is refused and nothing is loaded.
    module.operation.regions[0].blocks[0].append_operation(named("irdl.dialect", Some("bad"), vec![]));
    let mut fresh = DialectRegistry::new();
    assert!(!load_irdl_dialects(&module, &mut fresh));
    assert_eq!(fresh.operations.len(), 0);
}
