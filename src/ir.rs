//! The IR data model: types, attributes, values, blocks, regions and operations.

use vstd::prelude::*;

verus! {

/// The largest width of an integer type.
pub const MAX_INTEGER_WIDTH: u32 = 16777215;

/// An IR type. Types are plain values: two types are equal exactly when they
/// have the same structure.
#[derive(Clone, Copy, Debug, PartialEq, Eq, Structural)]
pub enum Type {
    /// The target-sized index type.
    Index,
    /// A signless integer type of the given bit width.
    Integer(u32),
    /// The unit type.
    NoneType,
}

/// The value of one decimal digit.
pub open spec fn digit_value(c: char) -> int {
    c as int - '0' as int
}

pub open spec fn is_digit(c: char) -> bool {
    '0' <= c && c <= '9'
}

/// The number that a sequence of decimal digits writes.
pub open spec fn decimal_value(s: Seq<char>) -> int
    decreases s.len(),
{
    if s.len() == 0 {
        0
    } else {
        decimal_value(s.drop_last()) * 10 + digit_value(s.last())
    }
}

/// The type that a text denotes: `index`, `none`, or `i` followed by a decimal
/// width between 1 and [`MAX_INTEGER_WIDTH`].
pub open spec fn type_of_text(s: Seq<char>) -> Option<Type> {
    if s == "index"@ {
        Some(Type::Index)
    } else if s == "none"@ {
        Some(Type::NoneType)
    } else if s.len() >= 2 && s[0] == 'i' && (forall|k: int| 1 <= k < s.len() ==> is_digit(#[trigger] s[k]))
        && 1 <= decimal_value(s.subrange(1, s.len() as int)) <= MAX_INTEGER_WIDTH {
        Some(Type::Integer(decimal_value(s.subrange(1, s.len() as int)) as u32))
    } else {
        None
    }
}

impl Type {
    /// The index type.
    pub fn index() -> (r: Type)
        ensures
            r == Type::Index,
    {
        Type::Index
    }

    /// The integer type of the given width.
    pub fn integer(width: u32) -> (r: Type)
        ensures
            r == Type::Integer(width),
    {
        Type::Integer(width)
    }

    /// Parses a type from its textual form.
    pub fn parse(text: &str) -> (r: Option<Type>)
        ensures
            r == type_of_text(text@),
    {
        let s = String::from_str(text);
        if s == String::from_str("index") {
            return Some(Type::Index);
        }
        if s == String::from_str("none") {
            return Some(Type::NoneType);
        }
        proof {
            reveal_strlit("index");
            reveal_strlit("none");
        }
        assert(text@ != "index"@ && text@ != "none"@);
        let n = text.unicode_len();
        if n < 2 || text.get_char(0) != 'i' {
            return None;
        }
        let mut value: u32 = 0;
        let mut i: usize = 1;
        while i < n
            invariant
                n == text@.len(),
                text@ != "index"@ && text@ != "none"@ && text@[0] == 'i',
                1 <= i <= n,
                forall|k: int| 1 <= k < i ==> is_digit(#[trigger] text@[k]),
                value as int == decimal_value(text@.subrange(1, i as int)),
                value <= MAX_INTEGER_WIDTH,
            decreases n - i,
        {
            let c = text.get_char(i);
            if !('0' <= c && c <= '9') {
                assert(!is_digit(text@[i as int]));
                return None;
            }
            let d = (c as u32) - ('0' as u32);
            assert(text@.subrange(1, i as int + 1).drop_last() == text@.subrange(1, i as int));
            if value * 10 + d > MAX_INTEGER_WIDTH {
                proof {
                    let t = text@.subrange(1, n as int);
                    if forall|j: int| 0 <= j < t.len() ==> is_digit(#[trigger] t[j]) {
                        lemma_decimal_value_grows(t, i as int - 1);
                        assert(t.subrange(0, i as int) == text@.subrange(1, i as int + 1));
                    }
                }
                return None;
            }
            value = value * 10 + d;
            i = i + 1;
        }
        if value == 0 {
            return None;
        }
        Some(Type::Integer(value))
    }
}

/// A decimal number only grows when digits are appended.
proof fn lemma_decimal_value_grows(s: Seq<char>, k: int)
    requires
        0 <= k < s.len(),
        forall|j: int| 0 <= j < s.len() ==> is_digit(#[trigger] s[j]),
    ensures
        decimal_value(s.subrange(0, k + 1)) <= decimal_value(s),
    decreases s.len(),
{
    if k + 1 < s.len() {
        lemma_decimal_value_grows(s.drop_last(), k);
        assert(s.drop_last().subrange(0, k + 1) == s.subrange(0, k + 1));
        assert(decimal_value(s.drop_last()) >= 0) by {
            lemma_decimal_value_nonneg(s.drop_last());
        }
    } else {
        assert(s.subrange(0, k + 1) == s);
    }
}

proof fn lemma_decimal_value_nonneg(s: Seq<char>)
    requires
        forall|j: int| 0 <= j < s.len() ==> is_digit(#[trigger] s[j]),
    ensures
        decimal_value(s) >= 0,
    decreases s.len(),
{
    if s.len() > 0 {
        lemma_decimal_value_nonneg(s.drop_last());
    }
}


/// A source position attached to an operation or a block argument.
#[derive(Clone, Copy, Debug, PartialEq, Eq, Structural)]
pub enum Location {
    /// No known position.
    Unknown,
    /// A line and a column.
    LineColumn(u32, u32),
}

impl Location {
    /// The unknown location.
    pub fn unknown() -> (r: Location)
        ensures
            r == Location::Unknown,
    {
        Location::Unknown
    }
}

/// What a value is a reference into.
#[derive(Clone, Copy, Debug, PartialEq, Eq, Structural)]
pub enum ValueKind {
    /// An argument of a block.
    BlockArgument,
    /// A result of an operation.
    OperationResult,
}

/// A reference to a block argument or an operation result: its owner's kind,
/// its position there and its type. A value is never allocated on its own.
#[derive(Clone, Copy, Debug, PartialEq, Eq, Structural)]
pub struct Value {
    pub kind: ValueKind,
    pub index: usize,
    pub ty: Type,
}

impl Value {
    /// The type of the value.
    pub fn value_type(&self) -> (r: Type)
        ensures
            r == self.ty,
    {
        self.ty
    }
}

/// The name of an attribute binding.
#[derive(Debug)]
pub struct Identifier {
    pub name: String,
}

impl Identifier {
    /// Creates an identifier from its text.
    pub fn new(name: &str) -> (r: Identifier)
        ensures
            r.name@ == name@,
    {
        Identifier { name: String::from_str(name) }
    }

    /// The identifier's text.
    pub fn as_str(&self) -> (r: &str)
        ensures
            r@ == self.name@,
    {
        self.name.as_str()
    }
}

/// An attribute value.
#[derive(Debug)]
pub enum Attribute {
    /// The unit attribute, which carries nothing but its presence.
    Unit,
    /// A boolean.
    Bool(bool),
    /// A 64-bit integer.
    Integer(i64),
    /// A dense array of 32-bit integers.
    DenseI32Array(Vec<i32>),
    /// A string.
    Text(String),
}

/// The attribute that a text denotes, where it is one of the keyword forms.
pub open spec fn attribute_of_text(s: Seq<char>) -> Option<Attribute> {
    if s == "unit"@ {
        Some(Attribute::Unit)
    } else if s == "true"@ {
        Some(Attribute::Bool(true))
    } else if s == "false"@ {
        Some(Attribute::Bool(false))
    } else {
        None
    }
}

impl Attribute {
    /// Parses an attribute from one of its keyword forms: `unit`, `true` or
    /// `false`.
    pub fn parse(text: &str) -> (r: Option<Attribute>)
        ensures
            r == attribute_of_text(text@),
    {
        let s = String::from_str(text);
        if s == String::from_str("unit") {
            Some(Attribute::Unit)
        } else if s == String::from_str("true") {
            Some(Attribute::Bool(true))
        } else if s == String::from_str("false") {
            Some(Attribute::Bool(false))
        } else {
            None
        }
    }

    /// The elements of a dense integer array attribute.
    pub fn dense_i32_elements(&self) -> (r: Option<&Vec<i32>>)
        ensures
            match self {
                Attribute::DenseI32Array(v) => r == Some(v),
                _ => r.is_none(),
            },
    {
        match self {
            Attribute::DenseI32Array(v) => Some(v),
            _ => None,
        }
    }

    /// The text of a string attribute.
    pub fn text(&self) -> (r: Option<&String>)
        ensures
            match self {
                Attribute::Text(t) => r == Some(t),
                _ => r.is_none(),
            },
    {
        match self {
            Attribute::Text(t) => Some(t),
            _ => None,
        }
    }
}

/// Copies a sequence of types.
pub fn copy_types(v: &[Type]) -> (r: Vec<Type>)
    ensures
        r@ == v@,
{
    let mut r: Vec<Type> = Vec::new();
    let mut i: usize = 0;
    while i < v.len()
        invariant
            i <= v@.len(),
            r@ == v@.subrange(0, i as int),
        decreases v@.len() - i,
    {
        r.push(v[i]);
        i = i + 1;
    }
    assert(r@ == v@.subrange(0, v@.len() as int));
    r
}

/// A block: typed arguments and an ordered sequence of owned operations.
#[derive(Debug)]
pub struct Block {
    pub arguments: Vec<Type>,
    pub argument_locations: Vec<Location>,
    pub operations: Vec<Operation>,
}

impl Block {
    /// Creates a block with the given arguments and no operations.
    pub fn new(arguments: &[(Type, Location)]) -> (r: Block)
        ensures
            r.arguments@.len() == arguments@.len(),
            r.argument_locations@.len() == arguments@.len(),
            forall|i: int| 0 <= i < arguments@.len() ==> r.arguments@[i] == (#[trigger] arguments@[i]).0
                && r.argument_locations@[i] == arguments@[i].1,
            r.operations@.len() == 0,
    {
        let mut types: Vec<Type> = Vec::new();
        let mut locations: Vec<Location> = Vec::new();
        let mut i: usize = 0;
        while i < arguments.len()
            invariant
                i <= arguments@.len(),
                types@.len() == i && locations@.len() == i,
                forall|j: int| 0 <= j < i ==> types@[j] == (#[trigger] arguments@[j]).0
                    && locations@[j] == arguments@[j].1,
            decreases arguments@.len() - i,
        {
            types.push(arguments[i].0);
            locations.push(arguments[i].1);
            i = i + 1;
        }
        Block { arguments: types, argument_locations: locations, operations: Vec::new() }
    }

    /// The number of arguments.
    pub fn argument_count(&self) -> (r: usize)
        ensures
            r == self.arguments@.len(),
    {
        self.arguments.len()
    }

    /// The argument at a position, if there is one.
    pub fn argument(&self, index: usize) -> (r: Option<Value>)
        ensures
            index < self.arguments@.len() ==> r == Some(
                Value { kind: ValueKind::BlockArgument, index, ty: self.arguments@[index as int] },
            ),
            index >= self.arguments@.len() ==> r.is_none(),
    {
        if index < self.arguments.len() {
            Some(Value { kind: ValueKind::BlockArgument, index, ty: self.arguments[index] })
        } else {
            None
        }
    }

    /// Appends an operation, which the block then owns.
    pub fn append_operation(&mut self, operation: Operation)
        ensures
            final(self).operations@ == old(self).operations@.push(operation),
            final(self).arguments == old(self).arguments,
            final(self).argument_locations == old(self).argument_locations,
    {
        self.operations.push(operation);
    }

    /// The number of operations.
    pub fn operation_count(&self) -> (r: usize)
        ensures
            r == self.operations@.len(),
    {
        self.operations.len()
    }
}

/// A region: an ordered sequence of owned blocks. A region without blocks is
/// a placeholder.
#[derive(Debug)]
pub struct Region {
    pub blocks: Vec<Block>,
}

impl Region {
    /// Creates a region without blocks.
    pub fn new() -> (r: Region)
        ensures
            r.blocks@.len() == 0,
    {
        Region { blocks: Vec::new() }
    }

    /// Appends a block, which the region then owns.
    pub fn append_block(&mut self, block: Block)
        ensures
            final(self).blocks@ == old(self).blocks@.push(block),
    {
        self.blocks.push(block);
    }

    /// The number of blocks.
    pub fn block_count(&self) -> (r: usize)
        ensures
            r == self.blocks@.len(),
    {
        self.blocks.len()
    }
}

/// An operation: a name, typed results, operands, owned regions, attribute
/// bindings, successor edges and a location. An operation is put together by
/// an operation builder.
///
/// A successor is referred to, not owned: the operation records the argument
/// types of each successor block.
#[derive(Debug)]
pub struct Operation {
    pub name: String,
    pub location: Location,
    pub results: Vec<Type>,
    pub operands: Vec<Value>,
    pub regions: Vec<Region>,
    pub attributes: Vec<(Identifier, Attribute)>,
    pub successors: Vec<Vec<Type>>,
}

/// The names of a sequence of attribute bindings.
pub open spec fn attribute_names(attributes: Seq<(Identifier, Attribute)>) -> Seq<Seq<char>> {
    attributes.map_values(|a: (Identifier, Attribute)| a.0.name@)
}

/// `i` is the first position of a binding named `name`.
pub open spec fn is_first_binding(attributes: Seq<(Identifier, Attribute)>, name: Seq<char>, i: int) -> bool {
    &&& 0 <= i < attributes.len()
    &&& attributes[i].0.name@ == name
    &&& forall|j: int| 0 <= j < i ==> (#[trigger] attributes[j]).0.name@ != name
}

impl Operation {
    /// The operation's name.
    pub fn name(&self) -> (r: &str)
        ensures
            r@ == self.name@,
    {
        self.name.as_str()
    }

    /// The number of operands.
    pub fn operand_count(&self) -> (r: usize)
        ensures
            r == self.operands@.len(),
    {
        self.operands.len()
    }

    /// The operand at a position, if there is one.
    pub fn operand(&self, index: usize) -> (r: Option<Value>)
        ensures
            index < self.operands@.len() ==> r == Some(self.operands@[index as int]),
            index >= self.operands@.len() ==> r.is_none(),
    {
        if index < self.operands.len() {
            Some(self.operands[index])
        } else {
            None
        }
    }

    /// The number of results.
    pub fn result_count(&self) -> (r: usize)
        ensures
            r == self.results@.len(),
    {
        self.results.len()
    }

    /// The result at a position, if there is one.
    pub fn result(&self, index: usize) -> (r: Option<Value>)
        ensures
            index < self.results@.len() ==> r == Some(
                Value { kind: ValueKind::OperationResult, index, ty: self.results@[index as int] },
            ),
            index >= self.results@.len() ==> r.is_none(),
    {
        if index < self.results.len() {
            Some(Value { kind: ValueKind::OperationResult, index, ty: self.results[index] })
        } else {
            None
        }
    }

    /// The number of regions.
    pub fn region_count(&self) -> (r: usize)
        ensures
            r == self.regions@.len(),
    {
        self.regions.len()
    }

    /// The number of successors.
    pub fn successor_count(&self) -> (r: usize)
        ensures
            r == self.successors@.len(),
    {
        self.successors.len()
    }

    /// The number of attribute bindings.
    pub fn attribute_count(&self) -> (r: usize)
        ensures
            r == self.attributes@.len(),
    {
        self.attributes.len()
    }

    /// The value of the first attribute binding with the given name.
    pub fn attribute(&self, name: &str) -> (r: Option<&Attribute>)
        ensures
            match r {
                Some(a) => exists|i: int|
                    is_first_binding(self.attributes@, name@, i) && a == &self.attributes@[i].1,
                None => forall|i: int|
                    0 <= i < self.attributes@.len() ==> (#[trigger] self.attributes@[i]).0.name@ != name@,
            },
    {
        let key = String::from_str(name);
        let mut i: usize = 0;
        while i < self.attributes.len()
            invariant
                i <= self.attributes@.len(),
                key@ == name@,
                forall|j: int| 0 <= j < i ==> (#[trigger] self.attributes@[j]).0.name@ != name@,
            decreases self.attributes@.len() - i,
        {
            if self.attributes[i].0.name == key {
                assert(is_first_binding(self.attributes@, name@, i as int));
                return Some(&self.attributes[i].1);
            }
            i = i + 1;
        }
        None
    }
}


/// Two attributes hold the same value.
pub open spec fn same_attribute(a: Attribute, b: Attribute) -> bool {
    match a {
        Attribute::Unit => b is Unit,
        Attribute::Bool(x) => b matches Attribute::Bool(y) && x == y,
        Attribute::Integer(x) => b matches Attribute::Integer(y) && x == y,
        Attribute::DenseI32Array(x) => b matches Attribute::DenseI32Array(y) && x@ == y@,
        Attribute::Text(x) => b matches Attribute::Text(y) && x@ == y@,
    }
}

/// Two sequences of attribute bindings bind the same names to the same values.
pub open spec fn same_bindings(a: Seq<(Identifier, Attribute)>, b: Seq<(Identifier, Attribute)>) -> bool {
    &&& a.len() == b.len()
    &&& forall|i: int| 0 <= i < a.len() ==> (#[trigger] a[i]).0.name@ == b[i].0.name@ && same_attribute(a[i].1, b[i].1)
}

impl Attribute {
    /// A copy of the attribute.
    pub fn duplicate(&self) -> (r: Attribute)
        ensures
            same_attribute(*self, r),
    {
        match self {
            Attribute::Unit => Attribute::Unit,
            Attribute::Bool(flag) => Attribute::Bool(*flag),
            Attribute::Integer(n) => Attribute::Integer(*n),
            Attribute::DenseI32Array(v) => Attribute::DenseI32Array(copy_i32s(v)),
            Attribute::Text(t) => Attribute::Text(t.clone()),
        }
    }
}

/// Copies a sequence of 32-bit integers.
fn copy_i32s(v: &Vec<i32>) -> (w: Vec<i32>)
    ensures
        w@ == v@,
{
    let mut w: Vec<i32> = Vec::new();
    let mut i: usize = 0;
    while i < v.len()
        invariant
            i <= v@.len(),
            w@ == v@.subrange(0, i as int),
        decreases v@.len() - i,
    {
        w.push(v[i]);
        i = i + 1;
    }
    assert(w@ == v@.subrange(0, v@.len() as int));
    w
}

/// Copies a sequence of attribute bindings.
pub fn duplicate_bindings(a: &Vec<(Identifier, Attribute)>) -> (r: Vec<(Identifier, Attribute)>)
    ensures
        same_bindings(a@, r@),
{
    let mut r: Vec<(Identifier, Attribute)> = Vec::new();
    let mut i: usize = 0;
    while i < a.len()
        invariant
            i <= a@.len(),
            r@.len() == i,
            forall|k: int| 0 <= k < i ==> (#[trigger] a@[k]).0.name@ == r@[k].0.name@ && same_attribute(a@[k].1, r@[k].1),
        decreases a@.len() - i,
    {
        let name = Identifier { name: a[i].0.name.clone() };
        let value = a[i].1.duplicate();
        r.push((name, value));
        i = i + 1;
    }
    r
}

/// Copies a sequence of successor signatures.
fn duplicate_successors(a: &Vec<Vec<Type>>) -> (r: Vec<Vec<Type>>)
    ensures
        r@.len() == a@.len(),
        forall|i: int| 0 <= i < a@.len() ==> (#[trigger] r@[i])@ == a@[i]@,
{
    let mut r: Vec<Vec<Type>> = Vec::new();
    let mut i: usize = 0;
    while i < a.len()
        invariant
            i <= a@.len(),
            r@.len() == i,
            forall|k: int| 0 <= k < i ==> (#[trigger] r@[k])@ == a@[k]@,
        decreases a@.len() - i,
    {
        r.push(copy_types(a[i].as_slice()));
        i = i + 1;
    }
    r
}

impl Operation {
    /// A deep copy of the operation: its fields, and a copy of each of its
    /// regions.
    pub fn duplicate(&self) -> (r: Operation)
        ensures
            r.name@ == self.name@,
            r.location == self.location,
            r.results@ == self.results@,
            r.operands@ == self.operands@,
            r.regions@.len() == self.regions@.len(),
            forall|i: int| 0 <= i < self.regions@.len() ==> (#[trigger] r.regions@[i]).blocks@.len() == self.regions@[i].blocks@.len(),
            same_bindings(self.attributes@, r.attributes@),
            r.successors@.len() == self.successors@.len(),
            forall|i: int| 0 <= i < self.successors@.len() ==> (#[trigger] r.successors@[i])@ == self.successors@[i]@,
        decreases self,
    {
        let mut regions: Vec<Region> = Vec::new();
        let mut i: usize = 0;
        while i < self.regions.len()
            invariant
                i <= self.regions@.len(),
                regions@.len() == i,
                forall|k: int| 0 <= k < i ==> (#[trigger] regions@[k]).blocks@.len() == self.regions@[k].blocks@.len(),
            decreases self.regions@.len() - i,
        {
            proof {
                assert(decreases_to!(self => self.regions));
                assert(decreases_to!(self.regions => self.regions[i as int]));
            }
            regions.push(self.regions[i].duplicate());
            i = i + 1;
        }
        Operation {
            name: self.name.clone(),
            location: self.location,
            results: copy_types(self.results.as_slice()),
            operands: copy_values(self.operands.as_slice()),
            regions,
            attributes: duplicate_bindings(&self.attributes),
            successors: duplicate_successors(&self.successors),
        }
    }
}

impl Region {
    /// A deep copy of the region.
    pub fn duplicate(&self) -> (r: Region)
        ensures
            r.blocks@.len() == self.blocks@.len(),
            forall|i: int| 0 <= i < self.blocks@.len() ==> (#[trigger] r.blocks@[i]).arguments@ == self.blocks@[i].arguments@
                && r.blocks@[i].operations@.len() == self.blocks@[i].operations@.len(),
        decreases self,
    {
        let mut blocks: Vec<Block> = Vec::new();
        let mut i: usize = 0;
        while i < self.blocks.len()
            invariant
                i <= self.blocks@.len(),
                blocks@.len() == i,
                forall|k: int| 0 <= k < i ==> (#[trigger] blocks@[k]).arguments@ == self.blocks@[k].arguments@
                    && blocks@[k].operations@.len() == self.blocks@[k].operations@.len(),
            decreases self.blocks@.len() - i,
        {
            proof {
                assert(decreases_to!(self => self.blocks));
                assert(decreases_to!(self.blocks => self.blocks[i as int]));
            }
            blocks.push(self.blocks[i].duplicate());
            i = i + 1;
        }
        Region { blocks }
    }
}

impl Block {
    /// A deep copy of the block.
    pub fn duplicate(&self) -> (r: Block)
        ensures
            r.arguments@ == self.arguments@,
            r.argument_locations@ == self.argument_locations@,
            r.operations@.len() == self.operations@.len(),
        decreases self,
    {
        let mut operations: Vec<Operation> = Vec::new();
        let mut i: usize = 0;
        while i < self.operations.len()
            invariant
                i <= self.operations@.len(),
                operations@.len() == i,
            decreases self.operations@.len() - i,
        {
            proof {
                assert(decreases_to!(self => self.operations));
                assert(decreases_to!(self.operations => self.operations[i as int]));
            }
            operations.push(self.operations[i].duplicate());
            i = i + 1;
        }
        let mut locations: Vec<Location> = Vec::new();
        let mut k: usize = 0;
        while k < self.argument_locations.len()
            invariant
                k <= self.argument_locations@.len(),
                locations@ == self.argument_locations@.subrange(0, k as int),
            decreases self.argument_locations@.len() - k,
        {
            locations.push(self.argument_locations[k]);
            k = k + 1;
        }
        assert(locations@ == self.argument_locations@.subrange(0, self.argument_locations@.len() as int));
        Block { arguments: copy_types(self.arguments.as_slice()), argument_locations: locations, operations }
    }
}

/// The texts of a sequence of strings.
pub open spec fn name_views(names: Seq<String>) -> Seq<Seq<char>> {
    names.map_values(|s: String| s@)
}

/// Whether a list of names holds one.
pub fn contains_name(names: &Vec<String>, name: &String) -> (r: bool)
    ensures
        r == name_views(names@).contains(name@),
{
    let mut i: usize = 0;
    while i < names.len()
        invariant
            i <= names@.len(),
            forall|k: int| 0 <= k < i ==> (#[trigger] names@[k])@ != name@,
        decreases names@.len() - i,
    {
        if names[i] == *name {
            assert(name_views(names@)[i as int] == name@);
            return true;
        }
        i = i + 1;
    }
    proof {
        let v = name_views(names@);
        if v.contains(name@) {
            let k = choose|k: int| 0 <= k < v.len() && #[trigger] v[k] == name@;
            assert(names@[k]@ != name@);
        }
    }
    false
}

/// Copies a sequence of values.
pub fn copy_values(v: &[Value]) -> (r: Vec<Value>)
    ensures
        r@ == v@,
{
    let mut r: Vec<Value> = Vec::new();
    let mut i: usize = 0;
    while i < v.len()
        invariant
            i <= v@.len(),
            r@ == v@.subrange(0, i as int),
        decreases v@.len() - i,
    {
        r.push(v[i]);
        i = i + 1;
    }
    assert(r@ == v@.subrange(0, v@.len() as int));
    r
}


/// A module: a `builtin.module` operation with one region of one block, the
/// root of ownership of an IR tree.
#[derive(Debug)]
pub struct Module {
    pub operation: Operation,
}

impl Module {
    /// The module is a `builtin.module` operation with a body.
    pub open spec fn wf(&self) -> bool {
        &&& self.operation.name@ == "builtin.module"@
        &&& self.operation.regions@.len() == 1
        &&& self.operation.regions@[0].blocks@.len() == 1
    }

    /// Creates a module with an empty body.
    pub fn new(location: Location) -> (r: Module)
        ensures
            r.wf(),
            r.operation.location == location,
            r.operation.regions@[0].blocks@[0].operations@.len() == 0,
            r.operation.regions@[0].blocks@[0].arguments@.len() == 0,
            r.operation.results@.len() == 0,
            r.operation.operands@.len() == 0,
            r.operation.attributes@.len() == 0,
            r.operation.successors@.len() == 0,
    {
        let block = Block { arguments: Vec::new(), argument_locations: Vec::new(), operations: Vec::new() };
        let mut blocks: Vec<Block> = Vec::new();
        blocks.push(block);
        let mut regions: Vec<Region> = Vec::new();
        regions.push(Region { blocks });
        Module {
            operation: Operation {
                name: String::from_str("builtin.module"),
                location,
                results: Vec::new(),
                operands: Vec::new(),
                regions,
                attributes: Vec::new(),
                successors: Vec::new(),
            },
        }
    }

    /// The module as an operation.
    pub fn as_operation(&self) -> (r: &Operation)
        ensures
            r == &self.operation,
    {
        &self.operation
    }

    /// The body of the module.
    pub fn body(&self) -> (r: &Block)
        requires
            self.wf(),
        ensures
            r == &self.operation.regions@[0].blocks@[0],
    {
        &self.operation.regions[0].blocks[0]
    }
}

} // verus!
