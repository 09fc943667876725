//! Transform options, symbol merging between modules, and the application of
//! named transform sequences.

use vstd::prelude::*;
use crate::context::{definition_of, DialectRegistry};
use crate::error::Error;
use crate::ir::{contains_name, name_views, is_first_binding, same_attribute, same_bindings, Attribute, Block, Module, Operation, Region};

verus! {

/// Options for applying transform sequences; each flag is set and read on
/// its own.
#[derive(Debug)]
pub struct TransformOptions {
    pub expensive_checks: bool,
    pub single_top_level_transform_op: bool,
}

impl TransformOptions {
    /// Creates options with both flags set.
    pub fn new() -> (r: TransformOptions)
        ensures
            r.expensive_checks,
            r.single_top_level_transform_op,
    {
        TransformOptions { expensive_checks: true, single_top_level_transform_op: true }
    }

    /// Enables or disables expensive checks.
    pub fn enable_expensive_checks(&mut self, enable: bool)
        ensures
            final(self).expensive_checks == enable,
            final(self).single_top_level_transform_op == old(self).single_top_level_transform_op,
    {
        self.expensive_checks = enable;
    }

    /// Whether expensive checks are enabled.
    pub fn expensive_checks_enabled(&self) -> (r: bool)
        ensures
            r == self.expensive_checks,
    {
        self.expensive_checks
    }

    /// Enables or disables the demand for a single top-level transform operation.
    pub fn enforce_single_top_level_transform_op(&mut self, enable: bool)
        ensures
            final(self).single_top_level_transform_op == enable,
            final(self).expensive_checks == old(self).expensive_checks,
    {
        self.single_top_level_transform_op = enable;
    }

    /// Whether a single top-level transform operation is demanded.
    pub fn single_top_level_transform_op_enforced(&self) -> (r: bool)
        ensures
            r == self.single_top_level_transform_op,
    {
        self.single_top_level_transform_op
    }
}


impl Default for TransformOptions {
    fn default() -> (r: TransformOptions)
        ensures
            r.expensive_checks,
            r.single_top_level_transform_op,
    {
        TransformOptions::new()
    }
}

/// Setting one flag of the options leaves the other as it was, and reading a
/// flag right after setting it gives the value set.
pub proof fn lemma_flags_independent(before: TransformOptions, after: TransformOptions, expensive: Option<bool>, single: Option<bool>)
    requires
        expensive is Some ==> after.expensive_checks == expensive->0,
        expensive is None ==> after.expensive_checks == before.expensive_checks,
        single is Some ==> after.single_top_level_transform_op == single->0,
        single is None ==> after.single_top_level_transform_op == before.single_top_level_transform_op,
    ensures
        after.expensive_checks == match expensive { Some(e) => e, None => before.expensive_checks },
        after.single_top_level_transform_op == match single { Some(e) => e, None => before.single_top_level_transform_op },
{
}

/// The operation has a first region whose first block is its body.
pub open spec fn has_body(op: Operation) -> bool {
    op.regions@.len() >= 1 && op.regions@[0].blocks@.len() >= 1
}

/// The operations of the body of an operation that has one.
pub open spec fn body_operations(op: Operation) -> Seq<Operation> {
    op.regions@[0].blocks@[0].operations@
}

/// The name that an operation defines as a symbol: the text of its first
/// `sym_name` binding, where that binding holds a string.
pub open spec fn symbol_name(op: Operation) -> Option<Seq<char>> {
    if exists|i: int| is_first_binding(op.attributes@, "sym_name"@, i) {
        let i = choose|i: int| is_first_binding(op.attributes@, "sym_name"@, i);
        match op.attributes@[i].1 {
            Attribute::Text(t) => Some(t@),
            _ => None,
        }
    } else {
        None
    }
}

/// The symbol names that a sequence of operations defines, in order.
pub open spec fn symbol_names(ops: Seq<Operation>) -> Seq<Seq<char>>
    decreases ops.len(),
{
    if ops.len() == 0 {
        Seq::empty()
    } else {
        symbol_names(ops.drop_last()) + match symbol_name(ops.last()) {
            Some(n) => seq![n],
            None => Seq::empty(),
        }
    }
}

/// The symbols of `other` can be merged into `target`: each name is defined
/// once among both.
pub open spec fn mergeable(target: Seq<Operation>, other: Seq<Operation>) -> bool {
    (symbol_names(target) + symbol_names(other)).no_duplicates()
}

/// What `merge_symbols_into_from_clone` does to `old_target`, given `other`.
pub open spec fn merge_outcome(old_target: Operation, other: Operation, new_target: Operation, r: Result<(), Error>) -> bool {
    if has_body(old_target) && has_body(other) && mergeable(body_operations(old_target), body_operations(other)) {
        &&& r is Ok
        &&& has_body(new_target)
        &&& body_operations(new_target).len() == body_operations(old_target).len() + symbol_names(body_operations(other)).len()
        &&& body_operations(new_target).subrange(0, body_operations(old_target).len() as int) == body_operations(old_target)
        &&& symbol_names(body_operations(new_target)) == symbol_names(body_operations(old_target)) + symbol_names(body_operations(other))
    } else {
        r matches Err(Error::OperationBuild) && new_target == old_target
    }
}

/// The first binding of a name is unique.
proof fn lemma_first_binding_unique(attrs: Seq<(crate::ir::Identifier, Attribute)>, name: Seq<char>, i: int, k: int)
    requires
        is_first_binding(attrs, name, i),
        is_first_binding(attrs, name, k),
    ensures
        i == k,
{
    if i < k {
        assert(attrs[i].0.name@ != name);
    } else if k < i {
        assert(attrs[k].0.name@ != name);
    }
}

/// Bindings with the same names and values define the same symbol.
proof fn lemma_same_bindings_same_symbol(a: Operation, b: Operation)
    requires
        same_bindings(a.attributes@, b.attributes@),
    ensures
        symbol_name(a) == symbol_name(b),
{
    let name = "sym_name"@;
    if exists|i: int| is_first_binding(a.attributes@, name, i) {
        let i = choose|i: int| is_first_binding(a.attributes@, name, i);
        assert(is_first_binding(b.attributes@, name, i)) by {
            assert forall|j: int| 0 <= j < i implies (#[trigger] b.attributes@[j]).0.name@ != name by {
                assert(a.attributes@[j].0.name@ == b.attributes@[j].0.name@);
            }
        }
        let k = choose|k: int| is_first_binding(b.attributes@, name, k);
        lemma_first_binding_unique(b.attributes@, name, i, k);
        assert(same_attribute(a.attributes@[i].1, b.attributes@[i].1));
    } else {
        assert forall|i: int| !is_first_binding(b.attributes@, name, i) by {
            if is_first_binding(b.attributes@, name, i) {
                assert forall|j: int| 0 <= j < i implies (#[trigger] a.attributes@[j]).0.name@ != name by {
                    assert(a.attributes@[j].0.name@ == b.attributes@[j].0.name@);
                }
                assert(is_first_binding(a.attributes@, name, i));
            }
        }
    }
}

/// The symbol name that an operation defines.
pub fn operation_symbol(op: &Operation) -> (r: Option<&String>)
    ensures
        match r {
            Some(s) => symbol_name(*op) == Some(s@),
            None => symbol_name(*op).is_none(),
        },
{
    proof {
        reveal_strlit("sym_name");
    }
    match op.attribute("sym_name") {
        Some(a) => {
            proof {
                let i = choose|i: int| is_first_binding(op.attributes@, "sym_name"@, i) && a == &op.attributes@[i].1;
                let c = choose|i: int| is_first_binding(op.attributes@, "sym_name"@, i);
                lemma_first_binding_unique(op.attributes@, "sym_name"@, i, c);
            }
            a.text()
        },
        None => None,
    }
}

/// Symbol names of a sequence extended by one operation.
proof fn lemma_symbol_names_push(ops: Seq<Operation>, op: Operation)
    ensures
        symbol_names(ops.push(op)) == symbol_names(ops) + match symbol_name(op) {
            Some(n) => seq![n],
            None => Seq::<Seq<char>>::empty(),
        },
{
    assert(ops.push(op).drop_last() == ops);
}

/// Symbol names of a concatenation.
proof fn lemma_symbol_names_append(a: Seq<Operation>, b: Seq<Operation>)
    ensures
        symbol_names(a + b) == symbol_names(a) + symbol_names(b),
    decreases b.len(),
{
    if b.len() == 0 {
        assert(a + b == a);
    } else {
        lemma_symbol_names_append(a, b.drop_last());
        assert((a + b).drop_last() == a + b.drop_last());
        assert((a + b).last() == b.last());
    }
}

/// A sequence with a repeated element keeps it when extended.
proof fn lemma_duplicate_extends(s: Seq<Seq<char>>, t: Seq<Seq<char>>)
    requires
        !s.no_duplicates(),
    ensures
        !(s + t).no_duplicates(),
{
    let (i, j) = choose|i: int, j: int| 0 <= i < s.len() && 0 <= j < s.len() && i != j && s[i] == s[j];
    assert((s + t)[i] == (s + t)[j]);
}

/// Scans the symbol names of `ops` onto `names`, failing on a repeated name.
fn collect_symbol_names(names: &mut Vec<String>, ops: &Vec<Operation>) -> (ok: bool)
    requires
        name_views(old(names)@).no_duplicates(),
    ensures
        ok ==> name_views(final(names)@) == name_views(old(names)@) + symbol_names(ops@),
        ok ==> name_views(final(names)@).no_duplicates(),
        !ok ==> !(name_views(old(names)@) + symbol_names(ops@)).no_duplicates(),
{
    let ghost start = name_views(names@);
    let mut i: usize = 0;
    while i < ops.len()
        invariant
            i <= ops@.len(),
            start == name_views(old(names)@),
            name_views(names@) == start + symbol_names(ops@.subrange(0, i as int)),
            name_views(names@).no_duplicates(),
        decreases ops@.len() - i,
    {
        let ghost prefix = ops@.subrange(0, i as int);
        proof {
            assert(ops@.subrange(0, i as int + 1) == prefix.push(ops@[i as int]));
            lemma_symbol_names_push(prefix, ops@[i as int]);
        }
        match operation_symbol(&ops[i]) {
            Some(s) => {
                if contains_name(names, s) {
                    proof {
                        let v = name_views(names@);
                        let k = choose|k: int| 0 <= k < v.len() && #[trigger] v[k] == s@;
                        let w = v.push(s@);
                        assert(w[k] == w[v.len() as int]);
                        assert(!w.no_duplicates());
                        let rest = ops@.subrange(i as int + 1, ops@.len() as int);
                        assert(ops@ == ops@.subrange(0, i as int + 1) + rest);
                        lemma_symbol_names_append(ops@.subrange(0, i as int + 1), rest);
                        lemma_duplicate_extends(w, symbol_names(rest));
                        assert(symbol_names(ops@.subrange(0, i as int + 1)) == symbol_names(prefix).push(s@));
                        assert(start + symbol_names(ops@) == w + symbol_names(rest));
                        assert(!(start + symbol_names(ops@)).no_duplicates());
                        assert(start == name_views(old(names)@));
                    }
                    return false;
                }
                let ghost v = name_views(names@);
                names.push(s.clone());
                proof {
                    assert(name_views(names@) == v.push(s@));
                    assert forall|a: int, b: int| 0 <= a < b < v.len() + 1 implies
                        v.push(s@)[a] != v.push(s@)[b] by {
                        if b == v.len() {
                            assert(v[a] != s@);
                        }
                    }
                }
            },
            None => {},
        }
        i = i + 1;
    }
    assert(ops@.subrange(0, ops@.len() as int) == ops@);
    true
}

/// Merges a copy of every top-level symbol definition of `other` into
/// `target`. Both operations must have a body, and no symbol name may be
/// defined twice among both; otherwise the merge fails and `target` is left
/// as it was.
pub fn merge_symbols_into_from_clone(target: &mut Operation, other: &Operation) -> (r: Result<(), Error>)
    ensures
        merge_outcome(*old(target), *other, *final(target), r),
{
    if target.regions.len() == 0 || target.regions[0].blocks.len() == 0 || other.regions.len() == 0
        || other.regions[0].blocks.len() == 0 {
        return Err(Error::OperationBuild);
    }
    let ghost target_ops = body_operations(*target);
    let ghost other_ops = body_operations(*other);
    let mut names: Vec<String> = Vec::new();
    assert(name_views(names@) == Seq::<Seq<char>>::empty());
    if !collect_symbol_names(&mut names, &target.regions[0].blocks[0].operations) {
        proof {
            lemma_duplicate_extends(symbol_names(target_ops), symbol_names(other_ops));
            assert(Seq::<Seq<char>>::empty() + symbol_names(target_ops) == symbol_names(target_ops));
        }
        return Err(Error::OperationBuild);
    }
    assert(Seq::<Seq<char>>::empty() + symbol_names(target_ops) == symbol_names(target_ops));
    if !collect_symbol_names(&mut names, &other.regions[0].blocks[0].operations) {
        return Err(Error::OperationBuild);
    }
    let other_block: &Block = &other.regions[0].blocks[0];
    let mut region: Region = target.regions.remove(0);
    let mut block: Block = region.blocks.remove(0);
    let mut j: usize = 0;
    while j < other_block.operations.len()
        invariant
            other_block.operations@ == other_ops,
            j <= other_ops.len(),
            block.operations@.len() == target_ops.len() + symbol_names(other_ops.subrange(0, j as int)).len(),
            block.operations@.subrange(0, target_ops.len() as int) == target_ops,
            symbol_names(block.operations@) == symbol_names(target_ops) + symbol_names(other_ops.subrange(0, j as int)),
        decreases other_ops.len() - j,
    {
        let ghost prefix = other_ops.subrange(0, j as int);
        proof {
            assert(other_ops.subrange(0, j as int + 1) == prefix.push(other_ops[j as int]));
            lemma_symbol_names_push(prefix, other_ops[j as int]);
        }
        let op: &Operation = &other_block.operations[j];
        if operation_symbol(op).is_some() {
            let copy = op.duplicate();
            let ghost before = block.operations@;
            block.operations.push(copy);
            proof {
                lemma_same_bindings_same_symbol(*op, copy);
                lemma_symbol_names_push(before, copy);
                assert(block.operations@.subrange(0, target_ops.len() as int) == before.subrange(0, target_ops.len() as int));
            }
        }
        j = j + 1;
    }
    assert(other_ops.subrange(0, other_ops.len() as int) == other_ops);
    region.blocks.insert(0, block);
    target.regions.insert(0, region);
    Ok(())
}


/// Merging the symbols of a module with an empty body into another module
/// with an empty body succeeds and leaves the target's symbols as they were.
pub proof fn lemma_merge_empty_modules(old_target: Operation, other: Operation, new_target: Operation, r: Result<(), Error>)
    requires
        has_body(old_target),
        has_body(other),
        body_operations(old_target).len() == 0,
        body_operations(other).len() == 0,
        merge_outcome(old_target, other, new_target, r),
    ensures
        r is Ok,
        body_operations(new_target) == body_operations(old_target),
        symbol_names(body_operations(new_target)).len() == 0,
{
    assert(symbol_names(body_operations(old_target)) + symbol_names(body_operations(other)) =~= Seq::<Seq<char>>::empty());
    assert(body_operations(new_target).subrange(0, 0) =~= body_operations(new_target));
}

/// The transform sequence rooted at `root` can be applied with `module` and
/// `options`: `root` is a `transform.named_sequence` with a body of
/// `transform.yield` operations only, and where a single top-level transform
/// operation is demanded, `module` has a body with exactly one operation.
pub open spec fn sequence_applies(root: Operation, module: Operation, options: TransformOptions) -> bool {
    &&& root.name@ == "transform.named_sequence"@
    &&& has_body(root)
    &&& forall|i: int| 0 <= i < body_operations(root).len() ==> (#[trigger] body_operations(root)[i]).name@ == "transform.yield"@
    &&& options.single_top_level_transform_op ==> has_body(module) && body_operations(module).len() == 1
}

/// Applies the named transform sequence rooted at `transform_root`, with the
/// symbols of `transform_module`, to `payload`. The one transform operation
/// interpreted is `transform.yield`, which ends the sequence and leaves the
/// payload as it is; a sequence with any other operation fails. Expensive
/// checks have nothing to check on such a sequence.
pub fn apply_named_sequence(
    payload: &Operation,
    transform_root: &Operation,
    transform_module: &Operation,
    transform_options: &TransformOptions,
) -> (r: Result<(), Error>)
    ensures
        r is Ok <==> sequence_applies(*transform_root, *transform_module, *transform_options),
        r matches Err(e) ==> e is OperationBuild,
{
    if transform_root.name != String::from_str("transform.named_sequence") {
        return Err(Error::OperationBuild);
    }
    if transform_root.regions.len() == 0 || transform_root.regions[0].blocks.len() == 0 {
        return Err(Error::OperationBuild);
    }
    let body: &Block = &transform_root.regions[0].blocks[0];
    let yield_name = String::from_str("transform.yield");
    let mut i: usize = 0;
    while i < body.operations.len()
        invariant
            body.operations@ == body_operations(*transform_root),
            yield_name@ == "transform.yield"@,
            i <= body.operations@.len(),
            forall|k: int| 0 <= k < i ==> (#[trigger] body.operations@[k]).name@ == "transform.yield"@,
        decreases body.operations@.len() - i,
    {
        if body.operations[i].name != yield_name {
            return Err(Error::OperationBuild);
        }
        i = i + 1;
    }
    if transform_options.single_top_level_transform_op {
        if transform_module.regions.len() == 0 || transform_module.regions[0].blocks.len() == 0
            || transform_module.regions[0].blocks[0].operations.len() != 1 {
            return Err(Error::OperationBuild);
        }
    }
    Ok(())
}


/// `op` is an `irdl.dialect` operation.
pub open spec fn is_irdl_dialect(op: Operation) -> bool {
    op.name@ == "irdl.dialect"@
}

/// Each `irdl.dialect` operation among `ops` defines a symbol and has a body.
pub open spec fn irdl_well_formed(ops: Seq<Operation>) -> bool {
    forall|i: int| 0 <= i < ops.len() && is_irdl_dialect(#[trigger] ops[i])
        ==> symbol_name(ops[i]) is Some && has_body(ops[i])
}

/// The name of the operation that the `j`-th operation of the body of the
/// `i`-th operation defines, where the first is an `irdl.dialect` and the
/// second an `irdl.operation`, both with symbols: `dialect.operation`.
pub open spec fn irdl_operation_name(ops: Seq<Operation>, i: int, j: int) -> Option<Seq<char>> {
    if 0 <= i < ops.len() && is_irdl_dialect(ops[i]) && symbol_name(ops[i]) is Some && has_body(ops[i])
        && 0 <= j < body_operations(ops[i]).len() && body_operations(ops[i])[j].name@ == "irdl.operation"@
        && symbol_name(body_operations(ops[i])[j]) is Some {
        Some(symbol_name(ops[i])->0 + "."@ + symbol_name(body_operations(ops[i])[j])->0)
    } else {
        None
    }
}

/// Loads the IRDL dialects of a module into a registry: for each
/// `irdl.operation` inside an `irdl.dialect`, the operation
/// `dialect.operation` is defined as variadic and without inference, unless
/// its name is defined already. Fails, changing nothing, where the module has
/// no body or an `irdl.dialect` has no symbol or no body.
pub fn load_irdl_dialects(module: &Module, registry: &mut DialectRegistry) -> (r: bool)
    ensures
        r == (has_body(module.operation) && irdl_well_formed(body_operations(module.operation))),
        !r ==> final(registry).operations@ == old(registry).operations@,
        r ==> forall|i: int, j: int| #[trigger] irdl_operation_name(body_operations(module.operation), i, j) is Some
            ==> definition_of(final(registry).operations@, irdl_operation_name(body_operations(module.operation), i, j)->0) is Some,
        forall|n: Seq<char>| definition_of(old(registry).operations@, n) is Some
            ==> #[trigger] definition_of(final(registry).operations@, n) == definition_of(old(registry).operations@, n),
{
    if module.operation.regions.len() == 0 || module.operation.regions[0].blocks.len() == 0 {
        return false;
    }
    let ops: &Vec<Operation> = &module.operation.regions[0].blocks[0].operations;
    let ghost body = ops@;
    let dialect_name = String::from_str("irdl.dialect");
    let operation_name = String::from_str("irdl.operation");
    let mut i: usize = 0;
    while i < ops.len()
        invariant
            body == ops@,
            body == body_operations(module.operation),
            has_body(module.operation),
            dialect_name@ == "irdl.dialect"@,
            i <= body.len(),
            forall|k: int| 0 <= k < i && is_irdl_dialect(#[trigger] body[k]) ==> symbol_name(body[k]) is Some && has_body(body[k]),
        decreases body.len() - i,
    {
        if ops[i].name == dialect_name {
            if operation_symbol(&ops[i]).is_none() || ops[i].regions.len() == 0 || ops[i].regions[0].blocks.len() == 0 {
                assert(is_irdl_dialect(body[i as int]));
                return false;
            }
        }
        i = i + 1;
    }
    let ghost start = registry.operations@;
    let mut i: usize = 0;
    while i < ops.len()
        invariant
            body == ops@,
            body == body_operations(module.operation),
            has_body(module.operation),
            irdl_well_formed(body),
            dialect_name@ == "irdl.dialect"@,
            operation_name@ == "irdl.operation"@,
            i <= body.len(),
            forall|n: Seq<char>| definition_of(start, n) is Some
                ==> #[trigger] definition_of(registry.operations@, n) == definition_of(start, n),
            forall|a: int, b: int| 0 <= a < i && #[trigger] irdl_operation_name(body, a, b) is Some
                ==> definition_of(registry.operations@, irdl_operation_name(body, a, b)->0) is Some,
        decreases body.len() - i,
    {
        if ops[i].name == dialect_name {
            let d = operation_symbol(&ops[i]).unwrap();
            let inner: &Vec<Operation> = &ops[i].regions[0].blocks[0].operations;
            let mut j: usize = 0;
            while j < inner.len()
                invariant
                    body == ops@,
                    i < body.len(),
                    is_irdl_dialect(body[i as int]),
                    symbol_name(body[i as int]) == Some(d@),
                    has_body(body[i as int]),
                    inner@ == body_operations(body[i as int]),
                    operation_name@ == "irdl.operation"@,
                    j <= inner@.len(),
                    forall|n: Seq<char>| definition_of(start, n) is Some
                        ==> #[trigger] definition_of(registry.operations@, n) == definition_of(start, n),
                    forall|a: int, b: int| 0 <= a < i && #[trigger] irdl_operation_name(body, a, b) is Some
                        ==> definition_of(registry.operations@, irdl_operation_name(body, a, b)->0) is Some,
                    forall|b: int| 0 <= b < j && #[trigger] irdl_operation_name(body, i as int, b) is Some
                        ==> definition_of(registry.operations@, irdl_operation_name(body, i as int, b)->0) is Some,
                decreases inner@.len() - j,
            {
                if inner[j].name == operation_name {
                    match operation_symbol(&inner[j]) {
                        Some(o) => {
                            let mut full = d.clone();
                            full.append(".");
                            full.append(o.as_str());
                            registry.register(full.as_str(), None, None);
                            assert(irdl_operation_name(body, i as int, j as int) == Some(full@));
                        },
                        None => {},
                    }
                }
                j = j + 1;
            }
        }
        i = i + 1;
    }
    true
}

} // verus!
