//! Operation definitions, dialect registries and the context that builds with them.

use vstd::prelude::*;
use crate::ir::Type;

verus! {

/// How a registered operation computes its result types from its operands.
#[derive(Clone, Copy, Debug, PartialEq, Eq, Structural)]
pub enum InferenceRule {
    /// One result, of the type of the first operand.
    SameAsFirstOperand,
    /// One result, of the given type.
    Fixed(Type),
}

/// The schema of a registered operation.
#[derive(Debug)]
pub struct OperationDefinition {
    /// The namespaced name, such as `arith.addi`.
    pub name: String,
    /// The number of operands the operation takes, or `None` where it is variadic.
    pub operand_count: Option<usize>,
    /// The result type inference procedure, where there is one.
    pub inference: Option<InferenceRule>,
}

/// A set of operation definitions, looked up by name; the first definition of
/// a name is the one that counts.
#[derive(Debug)]
pub struct DialectRegistry {
    pub operations: Vec<OperationDefinition>,
}

/// `i` is the first position of a definition named `name`.
pub open spec fn is_first_definition(defs: Seq<OperationDefinition>, name: Seq<char>, i: int) -> bool {
    &&& 0 <= i < defs.len()
    &&& defs[i].name@ == name
    &&& forall|j: int| 0 <= j < i ==> (#[trigger] defs[j]).name@ != name
}

/// The definition that counts for a name, if the name is defined.
pub open spec fn definition_of(defs: Seq<OperationDefinition>, name: Seq<char>) -> Option<OperationDefinition> {
    if exists|i: int| is_first_definition(defs, name, i) {
        Some(defs[choose|i: int| is_first_definition(defs, name, i)])
    } else {
        None
    }
}

/// `name` is defined with the given operand count and inference rule.
pub open spec fn defines(
    defs: Seq<OperationDefinition>,
    name: Seq<char>,
    operand_count: Option<usize>,
    inference: Option<InferenceRule>,
) -> bool {
    &&& definition_of(defs, name) is Some
    &&& definition_of(defs, name)->0.operand_count == operand_count
    &&& definition_of(defs, name)->0.inference == inference
}

/// The first definition of a name is unique.
proof fn lemma_first_definition_unique(defs: Seq<OperationDefinition>, name: Seq<char>, i: int, k: int)
    requires
        is_first_definition(defs, name, i),
        is_first_definition(defs, name, k),
    ensures
        i == k,
{
    if i < k {
        assert(defs[i].name@ != name);
    } else if k < i {
        assert(defs[k].name@ != name);
    }
}

/// Finds the position of the definition that counts for a name.
pub fn find_definition(defs: &Vec<OperationDefinition>, name: &str) -> (r: Option<usize>)
    ensures
        match r {
            Some(i) => is_first_definition(defs@, name@, i as int)
                && definition_of(defs@, name@) == Some(defs@[i as int]),
            None => definition_of(defs@, name@).is_none()
                && forall|j: int| 0 <= j < defs@.len() ==> (#[trigger] defs@[j]).name@ != name@,
        },
{
    let key = String::from_str(name);
    let mut i: usize = 0;
    while i < defs.len()
        invariant
            i <= defs@.len(),
            key@ == name@,
            forall|j: int| 0 <= j < i ==> (#[trigger] defs@[j]).name@ != name@,
        decreases defs@.len() - i,
    {
        if defs[i].name == key {
            proof {
                assert(is_first_definition(defs@, name@, i as int));
                let c = choose|k: int| is_first_definition(defs@, name@, k);
                lemma_first_definition_unique(defs@, name@, i as int, c);
            }
            return Some(i);
        }
        i = i + 1;
    }
    None
}

/// Definitions that are already there keep counting when more are appended.
proof fn lemma_definition_of_extend(defs: Seq<OperationDefinition>, more: Seq<OperationDefinition>, name: Seq<char>)
    requires
        definition_of(defs, name) is Some,
    ensures
        definition_of(defs + more, name) == definition_of(defs, name),
{
    let i = choose|i: int| is_first_definition(defs, name, i);
    assert(is_first_definition(defs + more, name, i)) by {
        assert forall|j: int| 0 <= j < i implies (#[trigger] (defs + more)[j]).name@ != name by {
            assert((defs + more)[j] == defs[j]);
        }
    }
    let c = choose|k: int| is_first_definition(defs + more, name, k);
    lemma_first_definition_unique(defs + more, name, i, c);
}

impl DialectRegistry {
    /// Creates a registry without definitions.
    pub fn new() -> (r: DialectRegistry)
        ensures
            r.operations@.len() == 0,
    {
        DialectRegistry { operations: Vec::new() }
    }

    /// Defines an operation, unless its name is defined already.
    pub fn register(&mut self, name: &str, operand_count: Option<usize>, inference: Option<InferenceRule>)
        ensures
            registered_step(old(self).operations@, final(self).operations@, name@, operand_count, inference),
            definition_of(old(self).operations@, name@) is None ==> {
                &&& final(self).operations@.len() == old(self).operations@.len() + 1
                &&& final(self).operations@.subrange(0, old(self).operations@.len() as int) == old(self).operations@
            },
    {
        match find_definition(&self.operations, name) {
            Some(_) => {},
            None => {
                let ghost before = self.operations@;
                let d = OperationDefinition { name: String::from_str(name), operand_count, inference };
                self.operations.push(d);
                proof {
                    let after = self.operations@;
                    assert(after == before + seq![d]);
                    assert(after.subrange(0, before.len() as int) == before);
                    let i = before.len() as int;
                    assert(is_first_definition(after, name@, i));
                    let c = choose|k: int| is_first_definition(after, name@, k);
                    lemma_first_definition_unique(after, name@, i, c);
                    assert forall|n: Seq<char>| definition_of(before, n) is Some || n != name@ implies
                        #[trigger] definition_of(after, n) == definition_of(before, n) by {
                        if definition_of(before, n) is Some {
                            lemma_definition_of_extend(before, seq![d], n);
                        } else {
                            assert forall|k: int| !is_first_definition(after, n, k) by {
                                if is_first_definition(after, n, k) && k < before.len() {
                                    assert(is_first_definition(before, n, k));
                                }
                            }
                        }
                    }
                }
            },
        }
    }
}

/// The definitions that every dialect of the library provides.
pub open spec fn all_dialects_registered(defs: Seq<OperationDefinition>) -> bool {
    &&& defines(defs, "arith.addi"@, Some(2), Some(InferenceRule::SameAsFirstOperand))
    &&& defines(defs, "arith.muli"@, Some(2), Some(InferenceRule::SameAsFirstOperand))
    &&& defines(defs, "arith.cmpi"@, Some(2), Some(InferenceRule::Fixed(Type::Integer(1))))
    &&& defines(defs, "func.return"@, None, None)
    &&& defines(defs, "builtin.module"@, Some(0), None)
    &&& defines(defs, "transform.named_sequence"@, Some(0), None)
    &&& defines(defs, "transform.yield"@, None, None)
}

/// `new_defs` defines `name` as `old_defs` did, or with the given definition
/// where `old_defs` did not define it.
pub open spec fn provides(
    old_defs: Seq<OperationDefinition>,
    new_defs: Seq<OperationDefinition>,
    name: Seq<char>,
    operand_count: Option<usize>,
    inference: Option<InferenceRule>,
) -> bool {
    if definition_of(old_defs, name) is Some {
        definition_of(new_defs, name) == definition_of(old_defs, name)
    } else {
        defines(new_defs, name, operand_count, inference)
    }
}

/// One registration step: `new_defs` is `old_defs` with `name` defined as
/// given unless it was defined, and every other name as it was.
pub open spec fn registered_step(
    old_defs: Seq<OperationDefinition>,
    new_defs: Seq<OperationDefinition>,
    name: Seq<char>,
    operand_count: Option<usize>,
    inference: Option<InferenceRule>,
) -> bool {
    &&& provides(old_defs, new_defs, name, operand_count, inference)
    &&& forall|n: Seq<char>| n != name ==> #[trigger] definition_of(new_defs, n) == definition_of(old_defs, n)
    &&& (definition_of(old_defs, name) is Some ==> new_defs == old_defs)
}

/// Registers the operations of every dialect of the library into a registry:
/// `arith.addi` and `arith.muli` with two operands and the first operand's
/// type as result, `arith.cmpi` with two operands and an `i1` result,
/// variadic `func.return`, `builtin.module` without operands,
/// `transform.named_sequence` without operands, and variadic
/// `transform.yield`. Names that are defined already keep their
/// definitions, so registering twice is the same as registering once.
pub fn register_all_dialects(registry: &mut DialectRegistry)
    ensures
        provides(old(registry).operations@, final(registry).operations@, "arith.addi"@, Some(2), Some(InferenceRule::SameAsFirstOperand)),
        provides(old(registry).operations@, final(registry).operations@, "arith.muli"@, Some(2), Some(InferenceRule::SameAsFirstOperand)),
        provides(old(registry).operations@, final(registry).operations@, "arith.cmpi"@, Some(2), Some(InferenceRule::Fixed(Type::Integer(1)))),
        provides(old(registry).operations@, final(registry).operations@, "func.return"@, None, None),
        provides(old(registry).operations@, final(registry).operations@, "builtin.module"@, Some(0), None),
        provides(old(registry).operations@, final(registry).operations@, "transform.named_sequence"@, Some(0), None),
        provides(old(registry).operations@, final(registry).operations@, "transform.yield"@, None, None),
        forall|n: Seq<char>| definition_of(old(registry).operations@, n) is Some
            ==> #[trigger] definition_of(final(registry).operations@, n) == definition_of(old(registry).operations@, n),
        all_dialects_registered(old(registry).operations@) ==> final(registry).operations@ == old(registry).operations@,
{
    let ghost s0 = registry.operations@;
    registry.register("arith.addi", Some(2), Some(InferenceRule::SameAsFirstOperand));
    let ghost s1 = registry.operations@;
    registry.register("arith.muli", Some(2), Some(InferenceRule::SameAsFirstOperand));
    let ghost s2 = registry.operations@;
    registry.register("arith.cmpi", Some(2), Some(InferenceRule::Fixed(Type::Integer(1))));
    let ghost s3 = registry.operations@;
    registry.register("func.return", None, None);
    let ghost s4 = registry.operations@;
    registry.register("builtin.module", Some(0), None);
    let ghost s5 = registry.operations@;
    registry.register("transform.named_sequence", Some(0), None);
    let ghost s6 = registry.operations@;
    registry.register("transform.yield", None, None);
    let ghost s7 = registry.operations@;
    proof {
        reveal_strlit("arith.addi");
        reveal_strlit("arith.muli");
        reveal_strlit("arith.cmpi");
        reveal_strlit("func.return");
        reveal_strlit("builtin.module");
        reveal_strlit("transform.named_sequence");
        reveal_strlit("transform.yield");
        let n1 = "arith.addi"@;
        let n2 = "arith.muli"@;
        let n3 = "arith.cmpi"@;
        let n4 = "func.return"@;
        let n5 = "builtin.module"@;
        let n6 = "transform.named_sequence"@;
        let n7 = "transform.yield"@;
        assert(n1[6] != n2[6] && n1[6] != n3[6] && n2[6] != n3[6]);
        assert(n4.len() != n5.len() && n5.len() != n6.len() && n6.len() != n7.len() && n4.len() != n7.len());
        assert(n4.len() != n6.len() && n5.len() != n7.len());
        assert(n1 != n2 && n1 != n3 && n2 != n3);
        assert(n1.len() != n4.len() && n1.len() != n5.len() && n1.len() != n6.len() && n1.len() != n7.len());
    }
}

/// Registering into a registry without definitions defines every
/// operation of the library's dialects as `register_all_dialects` lists them.
pub proof fn lemma_register_into_empty(old_defs: Seq<OperationDefinition>, new_defs: Seq<OperationDefinition>)
    requires
        old_defs.len() == 0,
        provides(old_defs, new_defs, "arith.addi"@, Some(2), Some(InferenceRule::SameAsFirstOperand)),
        provides(old_defs, new_defs, "arith.muli"@, Some(2), Some(InferenceRule::SameAsFirstOperand)),
        provides(old_defs, new_defs, "arith.cmpi"@, Some(2), Some(InferenceRule::Fixed(Type::Integer(1)))),
        provides(old_defs, new_defs, "func.return"@, None, None),
        provides(old_defs, new_defs, "builtin.module"@, Some(0), None),
        provides(old_defs, new_defs, "transform.named_sequence"@, Some(0), None),
        provides(old_defs, new_defs, "transform.yield"@, None, None),
    ensures
        all_dialects_registered(new_defs),
{
}

/// The state that operations are built against: the registered operations
/// and whether names that are not registered may be built.
#[derive(Debug)]
pub struct Context {
    pub registry: DialectRegistry,
    pub allow_unregistered_dialects: bool,
    pub llvm_translations_registered: bool,
}

impl Context {
    /// Creates a context without registered operations that refuses
    /// unregistered names.
    pub fn new() -> (r: Context)
        ensures
            r.registry.operations@.len() == 0,
            !r.allow_unregistered_dialects,
            !r.llvm_translations_registered,
    {
        Context { registry: DialectRegistry::new(), allow_unregistered_dialects: false, llvm_translations_registered: false }
    }

    /// Creates a context that takes over the definitions of a registry.
    pub fn with_registry(registry: DialectRegistry) -> (r: Context)
        ensures
            r.registry == registry,
            !r.allow_unregistered_dialects,
            !r.llvm_translations_registered,
    {
        Context { registry, allow_unregistered_dialects: false, llvm_translations_registered: false }
    }

    /// Sets whether operations with unregistered names may be built.
    pub fn set_allow_unregistered_dialects(&mut self, allow: bool)
        ensures
            final(self).allow_unregistered_dialects == allow,
            final(self).registry == old(self).registry,
            final(self).llvm_translations_registered == old(self).llvm_translations_registered,
    {
        self.allow_unregistered_dialects = allow;
    }

    /// Whether operations with unregistered names may be built.
    pub fn allow_unregistered_dialects(&self) -> (r: bool)
        ensures
            r == self.allow_unregistered_dialects,
    {
        self.allow_unregistered_dialects
    }
}


/// Registers the translations of every dialect to the LLVM dialect into a
/// context. Registering twice is the same as registering once.
pub fn register_all_llvm_translations(context: &mut Context)
    ensures
        final(context).llvm_translations_registered,
        final(context).registry == old(context).registry,
        final(context).allow_unregistered_dialects == old(context).allow_unregistered_dialects,
{
    context.llvm_translations_registered = true;
}

} // verus!
