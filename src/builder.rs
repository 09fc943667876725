//! The operation builder: accumulates the fragments of one operation, then
//! turns them into that operation in one step.

use vstd::prelude::*;
use crate::context::{definition_of, find_definition, Context, InferenceRule};
use crate::error::Error;
use crate::ir::{copy_types, is_first_binding, Attribute, Block, Identifier, Location, Operation, Region, Type, Value};

verus! {


/// An accumulator for the fields of one operation. Every `add_` method
/// appends; `build` consumes the builder whether or not it succeeds.
#[derive(Debug)]
pub struct OperationBuilder {
    pub name: String,
    pub location: Location,
    pub results: Vec<Type>,
    pub operands: Vec<Value>,
    pub regions: Vec<Region>,
    pub attributes: Vec<(Identifier, Attribute)>,
    pub successors: Vec<Vec<Type>>,
    pub infer_result_types: bool,
}

/// The operands of a list of segments, in order.
pub open spec fn flatten(segments: Seq<Seq<Value>>) -> Seq<Value>
    decreases segments.len(),
{
    if segments.len() == 0 {
        Seq::empty()
    } else {
        flatten(segments.drop_last()) + segments.last()
    }
}

/// The sum of the lengths of a list of segments.
pub open spec fn total_length(segments: Seq<Seq<Value>>) -> int
    decreases segments.len(),
{
    if segments.len() == 0 {
        0
    } else {
        total_length(segments.drop_last()) + segments.last().len()
    }
}

/// The size of each segment, as a 32-bit integer.
pub open spec fn segment_sizes(segments: Seq<Seq<Value>>) -> Seq<i32> {
    segments.map_values(|s: Seq<Value>| s.len() as i32)
}

/// The views of a slice of operand slices.
pub open spec fn segment_views(segments: Seq<&[Value]>) -> Seq<Seq<Value>> {
    segments.map_values(|s: &[Value]| s@)
}

/// The result types that an inference rule gives for a list of operands.
pub open spec fn inferred_results(rule: InferenceRule, operands: Seq<Value>) -> Option<Seq<Type>> {
    match rule {
        InferenceRule::SameAsFirstOperand => if operands.len() >= 1 {
            Some(seq![operands[0].ty])
        } else {
            None
        },
        InferenceRule::Fixed(t) => Some(seq![t]),
    }
}

/// `segments_added(b, a, s)`: `a` is `b` with the segments `s` added.
pub open spec fn segments_added(before: OperationBuilder, after: OperationBuilder, segments: Seq<Seq<Value>>) -> bool {
    &&& after.operands@ == before.operands@ + flatten(segments)
    &&& after.attributes@.len() == before.attributes@.len() + 1
    &&& after.attributes@.subrange(0, before.attributes@.len() as int) == before.attributes@
    &&& after.attributes@.last().0.name@ == "operandSegmentSizes"@
    &&& after.attributes@.last().1 matches Attribute::DenseI32Array(sizes) && sizes@ == segment_sizes(segments)
    &&& after.name == before.name
    &&& after.location == before.location
    &&& after.results == before.results
    &&& after.regions == before.regions
    &&& after.successors == before.successors
    &&& after.infer_result_types == before.infer_result_types
}

impl OperationBuilder {
    /// The result types of the operation that `build` makes in a context, or
    /// `None` where `build` fails.
    ///
    /// It fails where the name is empty; where the name is not registered and
    /// the context refuses unregistered names, or inference was asked for;
    /// where the registered operand count differs from the operands given; and
    /// where inference was asked for but results were given too, or the
    /// operation has no inference rule, or its rule does not apply.
    pub open spec fn build_outcome(self, context: Context) -> Option<Seq<Type>> {
        if self.name@.len() == 0 {
            None
        } else {
            match definition_of(context.registry.operations@, self.name@) {
                None => if context.allow_unregistered_dialects && !self.infer_result_types {
                    Some(self.results@)
                } else {
                    None
                },
                Some(d) => if d.operand_count is Some && d.operand_count->0 != self.operands@.len() {
                    None
                } else if self.infer_result_types {
                    if self.results@.len() == 0 && d.inference is Some {
                        inferred_results(d.inference->0, self.operands@)
                    } else {
                        None
                    }
                } else {
                    Some(self.results@)
                },
            }
        }
    }

    /// What `build` returns for a builder in a context.
    pub open spec fn built(self, context: Context, r: Result<Operation, Error>) -> bool {
        match r {
            Ok(op) => {
                &&& self.build_outcome(context) is Some
                &&& op.results@ == self.build_outcome(context)->0
                &&& op.name@ == self.name@
                &&& op.location == self.location
                &&& op.operands@ == self.operands@
                &&& op.regions == self.regions
                &&& op.attributes == self.attributes
                &&& op.successors == self.successors
            },
            Err(e) => self.build_outcome(context) is None && e is OperationBuild,
        }
    }

    /// Creates a builder for an operation with the given name and location,
    /// with no fields yet.
    pub fn new(name: &str, location: Location) -> (r: OperationBuilder)
        ensures
            r.name@ == name@,
            r.location == location,
            r.results@.len() == 0,
            r.operands@.len() == 0,
            r.regions@.len() == 0,
            r.attributes@.len() == 0,
            r.successors@.len() == 0,
            !r.infer_result_types,
    {
        OperationBuilder {
            name: String::from_str(name),
            location,
            results: Vec::new(),
            operands: Vec::new(),
            regions: Vec::new(),
            attributes: Vec::new(),
            successors: Vec::new(),
            infer_result_types: false,
        }
    }

    /// Appends result types.
    pub fn add_results(self, results: &[Type]) -> (r: OperationBuilder)
        ensures
            r.results@ == self.results@ + results@,
            r.name == self.name && r.location == self.location && r.operands == self.operands,
            r.regions == self.regions && r.attributes == self.attributes,
            r.successors == self.successors && r.infer_result_types == self.infer_result_types,
    {
        let mut b = self;
        let mut i: usize = 0;
        while i < results.len()
            invariant
                i <= results@.len(),
                b.results@ == self.results@ + results@.subrange(0, i as int),
                b.name == self.name && b.location == self.location && b.operands == self.operands,
                b.regions == self.regions && b.attributes == self.attributes,
                b.successors == self.successors && b.infer_result_types == self.infer_result_types,
            decreases results@.len() - i,
        {
            b.results.push(results[i]);
            proof {
                assert(results@.subrange(0, i as int + 1) == results@.subrange(0, i as int).push(results@[i as int]));
            }
            i = i + 1;
        }
        assert(results@.subrange(0, results@.len() as int) == results@);
        b
    }

    /// Appends operands.
    pub fn add_operands(self, operands: &[Value]) -> (r: OperationBuilder)
        ensures
            r.operands@ == self.operands@ + operands@,
            r.name == self.name && r.location == self.location && r.results == self.results,
            r.regions == self.regions && r.attributes == self.attributes,
            r.successors == self.successors && r.infer_result_types == self.infer_result_types,
    {
        let mut b = self;
        let mut i: usize = 0;
        while i < operands.len()
            invariant
                i <= operands@.len(),
                b.operands@ == self.operands@ + operands@.subrange(0, i as int),
                b.name == self.name && b.location == self.location && b.results == self.results,
                b.regions == self.regions && b.attributes == self.attributes,
                b.successors == self.successors && b.infer_result_types == self.infer_result_types,
            decreases operands@.len() - i,
        {
            b.operands.push(operands[i]);
            proof {
                assert(operands@.subrange(0, i as int + 1) == operands@.subrange(0, i as int).push(operands@[i as int]));
            }
            i = i + 1;
        }
        assert(operands@.subrange(0, operands@.len() as int) == operands@);
        b
    }

    /// Appends the operands of each segment, in order, and records the size of
    /// each segment, in order, as a dense integer array attribute named
    /// `operandSegmentSizes`.
    pub fn add_operands_with_segment_sizes(self, segments: &[&[Value]]) -> (r: OperationBuilder)
        requires
            forall|i: int| 0 <= i < segments@.len() ==> (#[trigger] segments@[i])@.len() <= i32::MAX,
        ensures
            segments_added(self, r, segment_views(segments@)),
    {
        let ghost views = segment_views(segments@);
        let mut b = self;
        let mut sizes: Vec<i32> = Vec::new();
        let mut i: usize = 0;
        while i < segments.len()
            invariant
                i <= segments@.len(),
                views == segment_views(segments@),
                forall|k: int| 0 <= k < segments@.len() ==> (#[trigger] segments@[k])@.len() <= i32::MAX,
                b.operands@ == self.operands@ + flatten(views.subrange(0, i as int)),
                sizes@ == segment_sizes(views.subrange(0, i as int)),
                b.name == self.name && b.location == self.location && b.results == self.results,
                b.regions == self.regions && b.attributes == self.attributes,
                b.successors == self.successors && b.infer_result_types == self.infer_result_types,
            decreases segments@.len() - i,
        {
            let segment: &[Value] = segments[i];
            let ghost before = b.operands@;
            let mut j: usize = 0;
            while j < segment.len()
                invariant
                    j <= segment@.len(),
                    b.operands@ == before + segment@.subrange(0, j as int),
                    b.name == self.name && b.location == self.location && b.results == self.results,
                    b.regions == self.regions && b.attributes == self.attributes,
                    b.successors == self.successors && b.infer_result_types == self.infer_result_types,
                decreases segment@.len() - j,
            {
                b.operands.push(segment[j]);
                proof {
                    assert(segment@.subrange(0, j as int + 1) == segment@.subrange(0, j as int).push(segment@[j as int]));
                }
                j = j + 1;
            }
            sizes.push(segment.len() as i32);
            proof {
                assert(segment@.subrange(0, segment@.len() as int) == segment@);
                let next = views.subrange(0, i as int + 1);
                assert(next.drop_last() == views.subrange(0, i as int));
                assert(next.last() == segment@);
                assert(segment_sizes(next) == segment_sizes(views.subrange(0, i as int)).push(segment@.len() as i32));
            }
            i = i + 1;
        }
        proof {
            assert(views.subrange(0, segments@.len() as int) == views);
        }
        let ghost before_attributes = b.attributes@;
        b.attributes.push((Identifier::new("operandSegmentSizes"), Attribute::DenseI32Array(sizes)));
        proof {
            assert(b.attributes@.subrange(0, before_attributes.len() as int) == before_attributes);
        }
        b
    }

    /// Hands regions over to the operation being built.
    pub fn add_regions(self, regions: Vec<Region>) -> (r: OperationBuilder)
        ensures
            r.regions@ == self.regions@ + regions@,
            r.name == self.name && r.location == self.location && r.results == self.results,
            r.operands == self.operands && r.attributes == self.attributes,
            r.successors == self.successors && r.infer_result_types == self.infer_result_types,
    {
        self.add_regions_vec(regions)
    }

    /// Hands the regions of a vector over to the operation being built.
    pub fn add_regions_vec(self, regions: Vec<Region>) -> (r: OperationBuilder)
        ensures
            r.regions@ == self.regions@ + regions@,
            r.name == self.name && r.location == self.location && r.results == self.results,
            r.operands == self.operands && r.attributes == self.attributes,
            r.successors == self.successors && r.infer_result_types == self.infer_result_types,
    {
        let mut b = self;
        let mut moved = regions;
        b.regions.append(&mut moved);
        b
    }

    /// Records successor blocks. A successor is referred to, not owned: what
    /// is recorded is the argument types of each block.
    pub fn add_successors(self, successors: &[&Block]) -> (r: OperationBuilder)
        ensures
            r.successors@.len() == self.successors@.len() + successors@.len(),
            forall|i: int| 0 <= i < self.successors@.len() ==> r.successors@[i] == self.successors@[i],
            forall|i: int| 0 <= i < successors@.len()
                ==> (#[trigger] r.successors@[self.successors@.len() + i])@ == successors@[i].arguments@,
            r.name == self.name && r.location == self.location && r.results == self.results,
            r.operands == self.operands && r.attributes == self.attributes,
            r.regions == self.regions && r.infer_result_types == self.infer_result_types,
    {
        let mut b = self;
        let mut i: usize = 0;
        while i < successors.len()
            invariant
                i <= successors@.len(),
                b.successors@.len() == self.successors@.len() + i,
                forall|k: int| 0 <= k < self.successors@.len() ==> b.successors@[k] == self.successors@[k],
                forall|k: int| 0 <= k < i
                    ==> (#[trigger] b.successors@[self.successors@.len() + k])@ == successors@[k].arguments@,
                b.name == self.name && b.location == self.location && b.results == self.results,
                b.operands == self.operands && b.attributes == self.attributes,
                b.regions == self.regions && b.infer_result_types == self.infer_result_types,
            decreases successors@.len() - i,
        {
            let block: &Block = successors[i];
            let types = copy_types(block.arguments.as_slice());
            b.successors.push(types);
            i = i + 1;
        }
        b
    }

    /// Appends attribute bindings. Names are not checked for duplicates here.
    pub fn add_attributes(self, attributes: Vec<(Identifier, Attribute)>) -> (r: OperationBuilder)
        ensures
            r.attributes@ == self.attributes@ + attributes@,
            r.name == self.name && r.location == self.location && r.results == self.results,
            r.operands == self.operands && r.regions == self.regions,
            r.successors == self.successors && r.infer_result_types == self.infer_result_types,
    {
        let mut b = self;
        let mut moved = attributes;
        b.attributes.append(&mut moved);
        b
    }

    /// Asks `build` to compute the result types with the operation's
    /// registered inference rule.
    pub fn enable_result_type_inference(self) -> (r: OperationBuilder)
        ensures
            r.infer_result_types,
            r.name == self.name && r.location == self.location && r.results == self.results,
            r.operands == self.operands && r.regions == self.regions,
            r.attributes == self.attributes && r.successors == self.successors,
    {
        let mut b = self;
        b.infer_result_types = true;
        b
    }

    /// Turns the accumulated fields into an operation, as `build_outcome`
    /// describes.
    pub fn build(self, context: &Context) -> (r: Result<Operation, Error>)
        ensures
            self.built(*context, r),
    {
        if self.name.unicode_len() == 0 {
            return Err(Error::OperationBuild);
        }
        let results = match find_definition(&context.registry.operations, self.name.as_str()) {
            None => {
                if !context.allow_unregistered_dialects || self.infer_result_types {
                    return Err(Error::OperationBuild);
                }
                self.results
            },
            Some(i) => {
                let d = &context.registry.operations[i];
                if let Some(n) = d.operand_count {
                    if n != self.operands.len() {
                        return Err(Error::OperationBuild);
                    }
                }
                if self.infer_result_types {
                    if self.results.len() != 0 {
                        return Err(Error::OperationBuild);
                    }
                    match d.inference {
                        None => {
                            return Err(Error::OperationBuild);
                        },
                        Some(InferenceRule::SameAsFirstOperand) => {
                            if self.operands.len() == 0 {
                                return Err(Error::OperationBuild);
                            }
                            let mut v: Vec<Type> = Vec::new();
                            v.push(self.operands[0].ty);
                            v
                        },
                        Some(InferenceRule::Fixed(t)) => {
                            let mut v: Vec<Type> = Vec::new();
                            v.push(t);
                            v
                        },
                    }
                } else {
                    self.results
                }
            },
        };
        proof {
            assert(self.build_outcome(*context) is Some);
            assert(results@ =~= self.build_outcome(*context)->0);
        }
        Ok(Operation {
            name: self.name,
            location: self.location,
            results,
            operands: self.operands,
            regions: self.regions,
            attributes: self.attributes,
            successors: self.successors,
        })
    }
}


/// The operands of a list of segments are as many as the segments hold together.
pub proof fn lemma_flatten_length(segments: Seq<Seq<Value>>)
    ensures
        flatten(segments).len() == total_length(segments),
    decreases segments.len(),
{
    if segments.len() > 0 {
        lemma_flatten_length(segments.drop_last());
    }
}

/// Adding operand segments to a builder that has no operands and no
/// attributes, then building, gives an operation whose operand count is the
/// sum of the segment sizes and whose first attribute, `operandSegmentSizes`,
/// lists exactly the segment sizes in order.
pub proof fn lemma_segment_sizes_recorded(
    before: OperationBuilder,
    after: OperationBuilder,
    segments: Seq<Seq<Value>>,
    context: Context,
    r: Result<Operation, Error>,
)
    requires
        before.operands@.len() == 0,
        before.attributes@.len() == 0,
        forall|i: int| 0 <= i < segments.len() ==> (#[trigger] segments[i]).len() <= i32::MAX,
        segments_added(before, after, segments),
        after.built(context, r),
        r is Ok,
    ensures
        r->Ok_0.operands@.len() == total_length(segments),
        is_first_binding(r->Ok_0.attributes@, "operandSegmentSizes"@, 0),
        r->Ok_0.attributes@[0].1 matches Attribute::DenseI32Array(sizes) && sizes@.len() == segments.len()
            && forall|i: int| 0 <= i < segments.len() ==> sizes@[i] as int == (#[trigger] segments[i]).len(),
{
    lemma_flatten_length(segments);
    assert(before.operands@ + flatten(segments) == flatten(segments));
}

/// An operation with no results, operands or regions and a non-empty name
/// that is not registered is built, where the context allows unregistered
/// names.
pub proof fn lemma_unregistered_baseline_builds(builder: OperationBuilder, context: Context, r: Result<Operation, Error>)
    requires
        builder.name@.len() > 0,
        builder.results@.len() == 0,
        builder.operands@.len() == 0,
        builder.regions@.len() == 0,
        !builder.infer_result_types,
        definition_of(context.registry.operations@, builder.name@) is None,
        context.allow_unregistered_dialects,
        builder.built(context, r),
    ensures
        r is Ok,
        r->Ok_0.results@.len() == 0,
        r->Ok_0.operands@.len() == 0,
        r->Ok_0.regions@.len() == 0,
{
}

/// Asking for result type inference for an operation whose name has no
/// registered inference rule makes `build` fail.
pub proof fn lemma_inference_without_rule_fails(builder: OperationBuilder, context: Context, r: Result<Operation, Error>)
    requires
        builder.infer_result_types,
        definition_of(context.registry.operations@, builder.name@) is None
            || definition_of(context.registry.operations@, builder.name@)->0.inference is None,
        builder.built(context, r),
    ensures
        r is Err,
{
}

/// Two calls of `add_operands` accumulate: the operands of the second call
/// follow those of the first.
pub proof fn lemma_operands_accumulate(
    b0: OperationBuilder,
    b1: OperationBuilder,
    b2: OperationBuilder,
    first: Seq<Value>,
    second: Seq<Value>,
)
    requires
        b1.operands@ == b0.operands@ + first,
        b2.operands@ == b1.operands@ + second,
    ensures
        b2.operands@ == b0.operands@ + first + second,
        b2.operands@.subrange(b0.operands@.len() as int, (b0.operands@.len() + first.len()) as int) == first,
        b2.operands@.subrange((b0.operands@.len() + first.len()) as int, b2.operands@.len() as int) == second,
{
    assert(b2.operands@.subrange(b0.operands@.len() as int, (b0.operands@.len() + first.len()) as int) =~= first);
    assert(b2.operands@.subrange((b0.operands@.len() + first.len()) as int, b2.operands@.len() as int) =~= second);
}

} // verus!
