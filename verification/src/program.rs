//! Instruction programs, decode failures, and the decode environment.
//!
//! A front end compiles a message description into a [`Context`]: an ordered
//! instruction sequence plus the number of registers it writes.  Nested
//! sub-sequences (loop bodies, conditional bodies, wrap preludes) appear as
//! fields of the owning instruction.  The environment supplies what a program
//! refers to by name: other message types and enumeration definitions.

use vstd::prelude::*;
use crate::resolver::{ForeignTransformObj, ForeignTypeObj};
use crate::values::{PrimitiveType, ScalarType, Value};

verus! {

/// Why a decode aborted.  Every failure aborts the whole in-progress decode
/// and surfaces to the caller; there is no retry and no partial result.
#[derive(Clone, Copy, PartialEq, Eq, Structural, Debug)]
pub enum Error {
    /// The underlying source was exhausted before a read was satisfied.
    Eof,
    /// An enumeration decode found no variant for the discriminant read.
    MalformedDiscriminant,
    /// A register held a value of the wrong shape for the instruction.
    Conversion,
    /// A name (a referenced message type or enumeration) had no definition.
    UnresolvedName,
    /// The instruction delegates to a foreign codec capability whose concrete
    /// byte algorithm is an external collaborator, not part of this engine.
    ForeignUnsupported,
    /// The program broke the register discipline (single assignment, reads
    /// only after the write, indices below the declared register count).
    InvalidProgram,
    /// A terminator-delimited or read-to-end loop iteration consumed no
    /// bytes; aborting guarantees forward progress and termination.
    NoProgress,
    /// Nested message references exceeded the caller's recursion budget.
    RecursionLimit,
}

/// Which byte source an instruction reads from.
///
/// `Direct` is the root reader of the decode invocation.  `Stream(r)` and
/// `Buf(r)` both address the sub-stream held in register `r`; the original
/// distinction — by value versus by mutable reference — selects how the
/// handle is passed, not which bytes are read, and collapses against the
/// engine's in-memory streams.
#[derive(Clone, Copy, PartialEq, Eq, Structural, Debug)]
pub enum Target {
    Direct,
    Stream(usize),
    Buf(usize),
}

/// A resolved stream handle: the root reader, or the stream in a register.
#[derive(Clone, Copy, PartialEq, Eq, Structural, Debug)]
pub enum StreamHandle {
    Root,
    Register(usize),
}

/// Resolves a [`Target`] to the concrete handle an instruction reads from.
pub fn emit_target(target: &Target) -> (h: StreamHandle)
    ensures
        h == spec_emit_target(*target),
{
    match target {
        Target::Direct => StreamHandle::Root,
        Target::Stream(x) => StreamHandle::Register(*x),
        Target::Buf(x) => StreamHandle::Register(*x),
    }
}

pub open spec fn spec_emit_target(target: Target) -> StreamHandle {
    match target {
        Target::Direct => StreamHandle::Root,
        Target::Stream(x) => StreamHandle::Register(x),
        Target::Buf(x) => StreamHandle::Register(x),
    }
}

/// The expression form an `Eval` instruction carries.
///
/// The full expression evaluator is an external collaborator; the engine
/// supplies only its leaf lookup: a literal, or a field reference resolved
/// through the context's field-to-register map.
#[derive(Debug)]
pub enum Expression {
    Literal(Value),
    FieldRef(String),
}

/// How a `Construct` instruction assembles a value from registers.
#[derive(Debug)]
pub enum Constructable {
    Tuple(Vec<usize>),
    TaggedTuple { name: String, items: Vec<usize> },
    Struct { name: String, items: Vec<(String, usize)> },
}

/// One operation of the decode virtual machine.
///
/// Register operands are indices into the write-once register file; nested
/// `Vec<Instruction>` fields are the sub-programs of structured constructs.
#[derive(Debug)]
pub enum Instruction {
    /// Evaluate an expression and write it to the register.
    Eval(usize, Expression),
    /// Assemble a value from registers; pure, no I/O.
    Construct(usize, Constructable),
    /// Bound the target to the length in the third register's value, writing
    /// the bounded view into the second operand's stream register.
    Constrict(Target, usize, usize),
    /// Wrap the target with a transformer capability, parameterized by
    /// argument registers, writing the new view's stream register.
    WrapStream(Target, usize, ForeignTransformObj, Vec<usize>),
    /// A boolean register picks between wrapping (after a prelude
    /// sub-program) and passing the target through unmodified.
    ConditionalWrapStream(usize, Vec<Instruction>, Target, usize, ForeignTransformObj, Vec<usize>),
    /// Delegate one value's decode to a foreign type capability.
    DecodeForeign(Target, usize, ForeignTypeObj, Vec<usize>),
    /// Delegate to the named message type's decode entry point, passing the
    /// current stream and extra argument registers.
    DecodeRef(Target, usize, String, Vec<usize>),
    /// Read a fixed-width big-endian discriminant and map it through the
    /// named enumeration's reverse lookup.
    DecodeEnum(String, ScalarType, usize, Target),
    /// Read one boolean byte or one fixed-width big-endian scalar.
    DecodePrimitive(Target, usize, PrimitiveType),
    /// Read a block of scalars: exactly the count in the length register, or
    /// to end of stream when no length register is given.
    DecodePrimitiveArray(Target, usize, ScalarType, Option<usize>),
    /// A loop over the body: fixed-count when the stop register is given,
    /// terminator-delimited when the terminator register is given, else
    /// to end of stream.
    Loop(Target, Option<usize>, Option<usize>, usize, Vec<Instruction>),
    /// Append the item register's value to the loop's output register.
    LoopOutput(usize, usize),
    /// A boolean register guards the body; false produces "absent" and the
    /// untaken body has no effect.
    Conditional(usize, usize, usize, Vec<Instruction>),
}

/// One message type's compiled decode program.
#[derive(Debug)]
pub struct Context {
    /// Field name to the register holding its decoded value; used only to
    /// resolve field references inside `Eval` expressions.
    pub field_register_map: Vec<(String, usize)>,
    pub instructions: Vec<Instruction>,
    /// Registers are `0 .. register_count`; the final decoded value is the
    /// one with the highest index.
    pub register_count: usize,
}

/// An enumeration definition: backing scalar kind and the discriminant of
/// each variant, in declared order.
#[derive(Debug)]
pub struct EnumDef {
    pub rep: ScalarType,
    pub variants: Vec<(u128, String)>,
}

/// What a running program may refer to by name: the decode entry points of
/// other message types, and enumeration definitions.
#[derive(Debug)]
pub struct DecodeEnv {
    pub types: Vec<(String, Context)>,
    pub enums: Vec<(String, EnumDef)>,
}

/// First match in an association list keyed by name, the shared shape of
/// every by-name lookup the engine performs.
pub open spec fn spec_assoc<T>(table: Seq<(Seq<char>, T)>, name: Seq<char>) -> Option<T>
    decreases table.len(),
{
    if table.len() == 0 {
        None
    } else if table[0].0 == name {
        Some(table[0].1)
    } else {
        spec_assoc(table.drop_first(), name)
    }
}

} // verus!
