//! Runtime values: the tagged value type, its truthiness, equality and ordering, and the
//! function and closure objects.
//!
//! A number is an IEEE-754 double held as its 64-bit pattern. Negation, ordering and equality
//! are decided on the bits here; addition, subtraction, multiplication and division are left to
//! the host of the virtual machine.

use vstd::prelude::*;
use crate::chunk::Chunk;
use crate::chunk::ChunkView;

verus! {

/// Where a closure finds one captured variable when it is created.
#[derive(Debug, Clone, Copy, PartialEq, Eq, Structural)]
pub struct UpvalueDescriptor {
    /// A local slot of the enclosing function if `is_local`, else an upvalue index of it.
    pub index: u8,
    /// Does the variable live in the immediately enclosing function's locals?
    pub is_local: bool,
}

/// A compiled function.
#[derive(Debug)]
pub struct Function {
    pub name: String,
    /// The number of parameters the function expects.
    pub arity: usize,
    pub chunk: Chunk,
    /// One descriptor for each variable the function captures.
    pub upvalues: Vec<UpvalueDescriptor>,
}

/// The mathematical content of a [`Function`].
pub struct FunctionView {
    pub name: Seq<char>,
    pub arity: usize,
    pub chunk: ChunkView,
    pub upvalues: Seq<UpvalueDescriptor>,
}

impl View for Function {
    type V = FunctionView;

    open spec fn view(&self) -> FunctionView {
        FunctionView {
            name: self.name@,
            arity: self.arity,
            chunk: self.chunk@,
            upvalues: self.upvalues@,
        }
    }
}

impl Function {
    /// An unnamed function without parameters and with an empty chunk.
    pub fn new() -> (r: Function)
        ensures
            r@.name == Seq::<char>::empty(),
            r@.arity == 0,
            r@.chunk == ChunkView::empty(),
            r@.upvalues == Seq::<UpvalueDescriptor>::empty(),
    {
        Function { name: String::new(), arity: 0, chunk: Chunk::new(), upvalues: Vec::new() }
    }
}

/// The views of a sequence of functions.
pub open spec fn functions_view(s: Seq<Function>) -> Seq<FunctionView> {
    Seq::new(s.len(), |i: int| s[i]@)
}

/// A function together with the cells of the variables it captured.
///
/// A closure names its function by the compilation unit that holds it and its index there, and
/// each captured variable by the index of its cell in the virtual machine.
#[derive(Debug)]
pub struct Closure {
    pub unit: usize,
    pub function: usize,
    pub upvalues: Vec<usize>,
}

/// The mathematical content of a [`Closure`].
pub struct ClosureView {
    pub unit: usize,
    pub function: usize,
    pub upvalues: Seq<usize>,
}

impl View for Closure {
    type V = ClosureView;

    open spec fn view(&self) -> ClosureView {
        ClosureView { unit: self.unit, function: self.function, upvalues: self.upvalues@ }
    }
}

impl Closure {
    pub fn new(unit: usize, function: usize, upvalues: Vec<usize>) -> (r: Closure)
        ensures
            r@ == (ClosureView { unit, function, upvalues: upvalues@ }),
    {
        Closure { unit, function, upvalues }
    }
}

impl Clone for Closure {
    fn clone(&self) -> (r: Closure)
        ensures
            r@ == self@,
    {
        let upvalues = self.upvalues.clone();
        assert(upvalues@ =~= self.upvalues@);
        Closure { unit: self.unit, function: self.function, upvalues }
    }
}

/// A function provided by the host, named by its number in the host's table.
#[derive(Debug, Clone, Copy, PartialEq, Eq, Structural)]
pub struct NativeFunction(pub usize);

/// Tells top-level code from the body of a function.
#[derive(Debug, Clone, Copy, PartialEq, Eq, Structural)]
pub enum FunctionType {
    Function,
    Script,
}

impl Default for FunctionType {
    fn default() -> (r: FunctionType)
        ensures
            r == FunctionType::Script,
    {
        FunctionType::Script
    }
}

/// A value of the language.
#[derive(Debug)]
pub enum Value {
    Bool(bool),
    Nil,
    /// The bit pattern of an IEEE-754 double.
    Number(u64),
    String(String),
    /// A function of the current compilation unit, by its index.
    Func(usize),
    NativeFunc(NativeFunction),
    Closure(Closure),
}

/// The mathematical content of a [`Value`].
pub enum ValueView {
    Bool(bool),
    Nil,
    Number(u64),
    String(Seq<char>),
    Func(usize),
    NativeFunc(usize),
    Closure(ClosureView),
}

impl View for Value {
    type V = ValueView;

    open spec fn view(&self) -> ValueView {
        match self {
            Value::Bool(b) => ValueView::Bool(*b),
            Value::Nil => ValueView::Nil,
            Value::Number(n) => ValueView::Number(*n),
            Value::String(s) => ValueView::String(s@),
            Value::Func(f) => ValueView::Func(*f),
            Value::NativeFunc(n) => ValueView::NativeFunc(n.0),
            Value::Closure(c) => ValueView::Closure(c@),
        }
    }
}

/// The views of a sequence of values.
pub open spec fn values_view(s: Seq<Value>) -> Seq<ValueView> {
    Seq::new(s.len(), |i: int| s[i]@)
}

pub const SIGN_BIT: u64 = 0x8000_0000_0000_0000;

pub const MAGNITUDE_MASK: u64 = 0x7FFF_FFFF_FFFF_FFFF;

pub const INFINITY_BITS: u64 = 0x7FF0_0000_0000_0000;

/// Is this bit pattern a NaN: all exponent bits set and a fraction that is not zero?
pub open spec fn number_is_nan(bits: u64) -> bool {
    (bits & MAGNITUDE_MASK) > INFINITY_BITS
}

/// The place of a number that is no NaN on the number line, as an integer that grows with the
/// number: the magnitude bits, negated where the sign bit is set. Both zeros have place 0.
pub open spec fn number_rank(bits: u64) -> int {
    if bits & SIGN_BIT != 0 {
        -((bits & MAGNITUDE_MASK) as int)
    } else {
        (bits & MAGNITUDE_MASK) as int
    }
}

/// IEEE-754 `<` on bit patterns: false where either side is a NaN.
pub open spec fn number_less(a: u64, b: u64) -> bool {
    !number_is_nan(a) && !number_is_nan(b) && number_rank(a) < number_rank(b)
}

/// IEEE-754 negation on bit patterns: the sign bit is flipped.
pub open spec fn number_negated(bits: u64) -> u64 {
    bits ^ SIGN_BIT
}

/// Only `nil` and `false` are falsey.
pub open spec fn is_falsey_spec(v: ValueView) -> bool {
    v == ValueView::Nil || v == ValueView::Bool(false)
}

/// Equality of the language: booleans, numbers (by their bits) and strings (by their
/// characters) are equal to what holds the same; `nil` is equal to `nil`; nothing else is equal
/// to anything.
pub open spec fn values_equal_spec(a: ValueView, b: ValueView) -> bool {
    match (a, b) {
        (ValueView::Bool(x), ValueView::Bool(y)) => x == y,
        (ValueView::Nil, ValueView::Nil) => true,
        (ValueView::Number(x), ValueView::Number(y)) => x == y,
        (ValueView::String(x), ValueView::String(y)) => x == y,
        _ => false,
    }
}

/// Does `a < b` hold under IEEE-754 ordering?
pub fn less_than(a: u64, b: u64) -> (r: bool)
    ensures
        r == number_less(a, b),
{
    let ma: u64 = a & MAGNITUDE_MASK;
    let mb: u64 = b & MAGNITUDE_MASK;
    if ma > INFINITY_BITS || mb > INFINITY_BITS {
        return false;
    }
    let negative_a = (a & SIGN_BIT) != 0;
    let negative_b = (b & SIGN_BIT) != 0;
    if negative_a {
        if negative_b {
            ma > mb
        } else {
            ma != 0 || mb != 0
        }
    } else {
        if negative_b {
            false
        } else {
            ma < mb
        }
    }
}

impl Value {
    /// Only `nil` and `false` are falsey; everything else is truthy.
    pub fn is_falsey(&self) -> (r: bool)
        ensures
            r == is_falsey_spec(self@),
    {
        match self {
            Value::Nil => true,
            Value::Bool(b) => !*b,
            _ => false,
        }
    }

    /// Equality of the language.
    pub fn values_equal(&self, other: &Value) -> (r: bool)
        ensures
            r == values_equal_spec(self@, other@),
    {
        match (self, other) {
            (Value::Bool(x), Value::Bool(y)) => *x == *y,
            (Value::Nil, Value::Nil) => true,
            (Value::Number(x), Value::Number(y)) => *x == *y,
            (Value::String(x), Value::String(y)) => *x == *y,
            _ => false,
        }
    }

    /// The negation of a number.
    pub fn neg(self) -> (r: Value)
        requires
            self is Number,
        ensures
            r@ == ValueView::Number(number_negated(self->Number_0)),
    {
        match self {
            Value::Number(bits) => Value::Number(bits ^ SIGN_BIT),
            _ => Value::Nil,
        }
    }
}

impl Clone for Value {
    fn clone(&self) -> (r: Value)
        ensures
            r@ == self@,
    {
        match self {
            Value::Bool(b) => Value::Bool(*b),
            Value::Nil => Value::Nil,
            Value::Number(n) => Value::Number(*n),
            Value::String(s) => Value::String(s.clone()),
            Value::Func(f) => Value::Func(*f),
            Value::NativeFunc(n) => Value::NativeFunc(*n),
            Value::Closure(c) => Value::Closure(c.clone()),
        }
    }
}

/// The constants that appear in a chunk.
#[derive(Debug)]
pub struct ValueArray {
    pub values: Vec<Value>,
}

impl View for ValueArray {
    type V = Seq<ValueView>;

    open spec fn view(&self) -> Seq<ValueView> {
        values_view(self.values@)
    }
}

impl ValueArray {
    pub fn new() -> (r: ValueArray)
        ensures
            r@ == Seq::<ValueView>::empty(),
    {
        let r = ValueArray { values: Vec::new() };
        assert(r@ =~= Seq::<ValueView>::empty());
        r
    }

    /// Appends a value.
    pub fn write(&mut self, val: Value)
        ensures
            final(self)@ == old(self)@.push(val@),
    {
        self.values.push(val);
        assert(self@ =~= old(self)@.push(val@));
    }
}

} // verus!
