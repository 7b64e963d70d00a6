//! The mathematical semantics of the decode virtual machine.
//!
//! These spec functions define, instruction by instruction, what a decode
//! must produce: a big-step interpreter over [`SState`] — the register file,
//! the stream registers and the root stream.  The executable driver in
//! `decoder` is proved to return exactly what [`spec_decode`] says, so every
//! property of decoding can be read off, and proved from, the definitions in
//! this module.
//!
//! Register bindings made inside a loop body are local to one iteration, as
//! the bindings of a loop body's scope are; [`scope_restore`] forgets them
//! while keeping stream consumption and the loop's output container.

use vstd::prelude::*;
use crate::program::{
    spec_assoc, spec_emit_target, Constructable, Context, DecodeEnv, Error, Expression,
    Instruction, StreamHandle, Target,
};
use crate::resolver::assoc_model;
use crate::stream::{sread, sread_to_end, SStream};
use crate::values::{vval, PrimitiveType, ScalarType, VVal};

verus! {

broadcast use {
    vstd::std_specs::vec::axiom_vec_decreases_to_view,
    vstd::std_specs::vec::axiom_vec_index_decreases,
    vstd::seq::axiom_seq_index_decreases,
    vstd::seq::axiom_seq_subrange_decreases,
};

/// The whole machine state: value registers, stream registers, root stream.
#[verifier::ext_equal]
pub ghost struct SState {
    pub vals: Seq<Option<VVal>>,
    pub strs: Seq<Option<SStream>>,
    pub root: SStream,
}

/// 256 to the `n`: the number of byte strings of length `n`, bounding every
/// big-endian value read from `n` bytes.
pub open spec fn pow256(n: nat) -> nat
    decreases n,
{
    if n == 0 {
        1
    } else {
        256 * pow256((n - 1) as nat)
    }
}

/// The big-endian value of a byte string.
pub open spec fn be_value(s: Seq<u8>) -> nat
    decreases s.len(),
{
    if s.len() == 0 {
        0
    } else {
        (be_value(s.drop_last()) * 256 + s.last()) as nat
    }
}

pub proof fn lemma_be_value_bound(s: Seq<u8>)
    ensures
        be_value(s) < pow256(s.len()),
    decreases s.len(),
{
    if s.len() > 0 {
        lemma_be_value_bound(s.drop_last());
    }
}

pub proof fn lemma_pow256_mono(a: nat, b: nat)
    requires
        a <= b,
    ensures
        pow256(a) <= pow256(b),
    decreases b,
{
    if a < b && b > 0 {
        lemma_pow256_mono(a, (b - 1) as nat);
    }
}

/// The raw pattern at and above which a signed scalar of this kind is
/// negative.
pub open spec fn spec_sign_threshold(t: ScalarType) -> u128 {
    match t {
        ScalarType::I8 => 0x80,
        ScalarType::I16 => 0x8000,
        ScalarType::I32 => 0x80000000,
        ScalarType::I64 => 0x8000000000000000,
        ScalarType::I128 => 0x80000000000000000000000000000000,
        ScalarType::U8 => 0,
        ScalarType::U16 => 0,
        ScalarType::U32 => 0,
        ScalarType::U64 => 0,
        ScalarType::U128 => 0,
    }
}

/// A register value used as a count or length: the scalar's nonnegative
/// value; a negative or non-scalar value is a conversion failure.
pub open spec fn sval_count(v: VVal) -> Result<u128, Error> {
    match v {
        VVal::Scalar(t, raw) => if !t.spec_signed() {
            Ok(raw)
        } else if raw < spec_sign_threshold(t) {
            Ok(raw)
        } else {
            Err(Error::Conversion)
        },
        _ => Err(Error::Conversion),
    }
}

/// Read a value register: written registers only.
pub open spec fn sread_val(s: SState, r: int) -> Result<VVal, Error> {
    if 0 <= r < s.vals.len() && s.vals[r] is Some {
        Ok(s.vals[r]->0)
    } else {
        Err(Error::InvalidProgram)
    }
}

/// Write a value register: single assignment, never twice.
pub open spec fn swrite_val(s: SState, r: int, v: VVal) -> Result<SState, Error> {
    if 0 <= r < s.vals.len() && s.vals[r] is None {
        Ok(SState { vals: s.vals.update(r, Some(v)), strs: s.strs, root: s.root })
    } else {
        Err(Error::InvalidProgram)
    }
}

/// Replace the content of an already-written register; only loop output
/// containers are updated this way.
pub open spec fn supdate_val(s: SState, r: int, v: VVal) -> Result<SState, Error> {
    if 0 <= r < s.vals.len() && s.vals[r] is Some {
        Ok(SState { vals: s.vals.update(r, Some(v)), strs: s.strs, root: s.root })
    } else {
        Err(Error::InvalidProgram)
    }
}

/// Write a stream register: single assignment, never twice.
pub open spec fn swrite_str(s: SState, r: int, ns: SStream) -> Result<SState, Error> {
    if 0 <= r < s.strs.len() && s.strs[r] is None {
        Ok(SState { vals: s.vals, strs: s.strs.update(r, Some(ns)), root: s.root })
    } else {
        Err(Error::InvalidProgram)
    }
}

/// The stream a target addresses.
pub open spec fn sget_stream(s: SState, t: Target) -> Result<SStream, Error> {
    match spec_emit_target(t) {
        StreamHandle::Root => Ok(s.root),
        StreamHandle::Register(r) => if 0 <= r < s.strs.len() && s.strs[r as int] is Some {
            Ok(s.strs[r as int]->0)
        } else {
            Err(Error::InvalidProgram)
        },
    }
}

/// The state after the target's stream advanced.
pub open spec fn sset_stream(s: SState, t: Target, ns: SStream) -> SState {
    match spec_emit_target(t) {
        StreamHandle::Root => SState { vals: s.vals, strs: s.strs, root: ns },
        StreamHandle::Register(r) => SState {
            vals: s.vals,
            strs: s.strs.update(r as int, Some(ns)),
            root: s.root,
        },
    }
}

/// Remaining bytes of the target's stream; a missing stream counts none.
pub open spec fn tremaining(s: SState, t: Target) -> int {
    match sget_stream(s, t) {
        Ok(st) => st.remaining(),
        Err(_) => 0,
    }
}

/// End of a loop iteration: bindings the body created are forgotten, as a
/// scope's locals are; bindings that existed before — the loop's output
/// container, outer registers, every stream's consumption — persist.
pub open spec fn scope_restore(pre: SState, post: SState) -> SState {
    SState {
        vals: Seq::new(
            post.vals.len(),
            |i: int|
                if 0 <= i < pre.vals.len() && pre.vals[i] is Some {
                    post.vals[i]
                } else {
                    None
                },
        ),
        strs: Seq::new(
            post.strs.len(),
            |i: int|
                if 0 <= i < pre.strs.len() && pre.strs[i] is Some {
                    post.strs[i]
                } else {
                    None
                },
        ),
        root: post.root,
    }
}

/// The values of a list of argument registers, in order.
pub open spec fn sread_args(s: SState, args: Seq<usize>) -> Result<Seq<VVal>, Error>
    decreases args.len(),
{
    if args.len() == 0 {
        Ok(Seq::empty())
    } else {
        match sread_val(s, args[0] as int) {
            Ok(v) => match sread_args(s, args.drop_first()) {
                Ok(rest) => Ok(seq![v] + rest),
                Err(e) => Err(e),
            },
            Err(e) => Err(e),
        }
    }
}

/// The (name, value) pairs of a field-named aggregate, in declared order.
pub open spec fn sread_named(s: SState, items: Seq<(String, usize)>) -> Result<
    Seq<(Seq<char>, VVal)>,
    Error,
>
    decreases items.len(),
{
    if items.len() == 0 {
        Ok(Seq::empty())
    } else {
        match sread_val(s, items[0].1 as int) {
            Ok(v) => match sread_named(s, items.drop_first()) {
                Ok(rest) => Ok(seq![(items[0].0@, v)] + rest),
                Err(e) => Err(e),
            },
            Err(e) => Err(e),
        }
    }
}

/// What an `Eval` leaf produces: a literal, or a field looked up in the
/// context's field-to-register map.
pub open spec fn seval_expr(ctx: Context, e: Expression, s: SState) -> Result<VVal, Error> {
    match e {
        Expression::Literal(v) => Ok(vval(v)),
        Expression::FieldRef(name) => match spec_assoc(
            assoc_model(ctx.field_register_map@),
            name@,
        ) {
            Some(r) => sread_val(s, r as int),
            None => Err(Error::InvalidProgram),
        },
    }
}

/// What a `Construct` assembles: pure, reads registers only.
pub open spec fn sconstruct(s: SState, c: Constructable) -> Result<VVal, Error> {
    match c {
        Constructable::Tuple(items) => match sread_args(s, items@) {
            Ok(vs) => Ok(VVal::Tuple(vs)),
            Err(e) => Err(e),
        },
        Constructable::TaggedTuple { name, items } => match sread_args(s, items@) {
            Ok(vs) => Ok(VVal::TaggedTuple(name@, vs)),
            Err(e) => Err(e),
        },
        Constructable::Struct { name, items } => match sread_named(s, items@) {
            Ok(fs) => Ok(VVal::Record(name@, fs)),
            Err(e) => Err(e),
        },
    }
}

/// One boolean byte — false iff zero — or one big-endian scalar.
pub open spec fn sdecode_primitive(pt: PrimitiveType, src: SStream) -> Result<
    (VVal, SStream),
    Error,
> {
    match pt {
        PrimitiveType::Bool => match sread(src, 1) {
            Ok(p) => Ok((VVal::Bool(p.0[0] != 0), p.1)),
            Err(e) => Err(e),
        },
        PrimitiveType::Scalar(t) => match sread(src, t.spec_size() as int) {
            Ok(p) => Ok((VVal::Scalar(t, be_value(p.0) as u128), p.1)),
            Err(e) => Err(e),
        },
    }
}

/// The first variant mapped to the discriminant, if any.
pub open spec fn svariant(vars: Seq<(u128, String)>, disc: u128) -> Option<Seq<char>>
    decreases vars.len(),
{
    if vars.len() == 0 {
        None
    } else if vars[0].0 == disc {
        Some(vars[0].1@)
    } else {
        svariant(vars.drop_first(), disc)
    }
}

/// Exactly `n` scalars, each read big-endian; stops with the failure of the
/// first short read.
pub open spec fn sread_scalars(src: SStream, t: ScalarType, n: nat) -> Result<
    (Seq<VVal>, SStream),
    Error,
>
    decreases n,
{
    if n == 0 {
        Ok((Seq::empty(), src))
    } else {
        match sread(src, t.spec_size() as int) {
            Ok(p) => match sread_scalars(p.1, t, (n - 1) as nat) {
                Ok(q) => Ok((seq![VVal::Scalar(t, be_value(p.0) as u128)] + q.0, q.1)),
                Err(e) => Err(e),
            },
            Err(e) => Err(e),
        }
    }
}

/// Scalars to end of stream: as many whole elements as remain; a trailing
/// remainder shorter than one element is consumed and dropped.
pub open spec fn sread_scalars_to_end(src: SStream, t: ScalarType) -> (Seq<VVal>, SStream)
    decreases (if src.remaining() >= 0 { src.remaining() } else { 0 }),
{
    if src.remaining() >= t.spec_size() {
        match sread(src, t.spec_size() as int) {
            Ok(p) => {
                let q = sread_scalars_to_end(p.1, t);
                (seq![VVal::Scalar(t, be_value(p.0) as u128)] + q.0, q.1)
            },
            Err(_) => (Seq::empty(), src),
        }
    } else {
        (Seq::empty(), sread_to_end(src).1)
    }
}

/// A bounded view over the target: at most the declared length, fewer when
/// the source itself holds fewer; the region leaves the parent up front.
pub open spec fn sconstrict(s: SState, t: Target, new_stream: int, len_reg: int) -> Result<
    SState,
    Error,
> {
    match sget_stream(s, t) {
        Ok(src) => match sread_val(s, len_reg) {
            Ok(lv) => match sval_count(lv) {
                Ok(n) => {
                    let take = if n as int <= src.remaining() {
                        n as int
                    } else {
                        src.remaining()
                    };
                    match sread(src, take) {
                        Ok(p) => swrite_str(
                            sset_stream(s, t, p.1),
                            new_stream,
                            SStream { data: p.0, pos: 0 },
                        ),
                        Err(e) => Err(e),
                    }
                },
                Err(e) => Err(e),
            },
            Err(e) => Err(e),
        },
        Err(e) => Err(e),
    }
}

/// Append the item register's value to the loop output container.
pub open spec fn sloop_output(s: SState, output: int, item: int) -> Result<SState, Error> {
    match sread_val(s, item) {
        Ok(v) => match sread_val(s, output) {
            Ok(VVal::List(items)) => supdate_val(s, output, VVal::List(items.push(v))),
            Ok(_) => Err(Error::Conversion),
            Err(e) => Err(e),
        },
        Err(e) => Err(e),
    }
}

/// The register file a referenced type's decode starts from: its own
/// registers, the call's arguments written into the lowest ones.
pub open spec fn sinit_sub(sub: Context, argvals: Seq<VVal>, src: SStream) -> SState {
    SState {
        vals: Seq::new(
            sub.register_count as nat,
            |i: int|
                if 0 <= i < argvals.len() {
                    Some(argvals[i])
                } else {
                    None
                },
        ),
        strs: Seq::new(sub.register_count as nat, |i: int| None),
        root: src,
    }
}

/// Run a block: the instructions in program order, stopping at the first
/// failure.
pub open spec fn run_block(
    env: DecodeEnv,
    ctx: Context,
    instrs: Seq<Instruction>,
    s: SState,
    fuel: nat,
) -> Result<SState, Error>
    decreases fuel, instrs, 0nat,
{
    if instrs.len() == 0 {
        Ok(s)
    } else {
        match run_instr(env, ctx, instrs[0], s, fuel) {
            Ok(s2) => run_block(env, ctx, instrs.drop_first(), s2, fuel),
            Err(e) => Err(e),
        }
    }
}

/// Run one instruction.
pub open spec fn run_instr(
    env: DecodeEnv,
    ctx: Context,
    i: Instruction,
    s: SState,
    fuel: nat,
) -> Result<SState, Error>
    decreases fuel, i, 1nat,
{
    match i {
        Instruction::Eval(target, e) => match seval_expr(ctx, e, s) {
            Ok(v) => swrite_val(s, target as int, v),
            Err(e2) => Err(e2),
        },
        Instruction::Construct(target, c) => match sconstruct(s, c) {
            Ok(v) => swrite_val(s, target as int, v),
            Err(e2) => Err(e2),
        },
        Instruction::Constrict(t, new_stream, len_reg) => sconstrict(
            s,
            t,
            new_stream as int,
            len_reg as int,
        ),
        Instruction::WrapStream(_t, _new_stream, _tr, _args) => Err(Error::ForeignUnsupported),
        Instruction::ConditionalWrapStream(cond, prelude, t, new_stream, _tr, _args) => match
        sread_val(s, cond as int) {
            Ok(VVal::Bool(b)) => if b {
                match run_block(env, ctx, prelude@, s, fuel) {
                    Ok(_) => Err(Error::ForeignUnsupported),
                    Err(e2) => Err(e2),
                }
            } else {
                match sget_stream(s, t) {
                    Ok(src) => {
                        let p = sread_to_end(src);
                        swrite_str(
                            sset_stream(s, t, p.1),
                            new_stream as int,
                            SStream { data: p.0, pos: 0 },
                        )
                    },
                    Err(e2) => Err(e2),
                }
            },
            Ok(_) => Err(Error::Conversion),
            Err(e2) => Err(e2),
        },
        Instruction::DecodeForeign(_t, _data, _ty, _args) => Err(Error::ForeignUnsupported),
        Instruction::DecodeRef(t, source, class, args) => match spec_assoc(
            assoc_model(env.types@),
            class@,
        ) {
            None => Err(Error::UnresolvedName),
            Some(sub) => if fuel == 0 {
                Err(Error::RecursionLimit)
            } else if args@.len() > sub.register_count {
                Err(Error::InvalidProgram)
            } else {
                match sread_args(s, args@) {
                    Ok(argvals) => match sget_stream(s, t) {
                        Ok(src) => match run_block(
                            env,
                            sub,
                            sub.instructions@,
                            sinit_sub(sub, argvals, src),
                            (fuel - 1) as nat,
                        ) {
                            Ok(subf) => if sub.register_count == 0 {
                                Err(Error::InvalidProgram)
                            } else {
                                match sread_val(subf, sub.register_count - 1) {
                                    Ok(v) => swrite_val(
                                        sset_stream(s, t, subf.root),
                                        source as int,
                                        v,
                                    ),
                                    Err(e2) => Err(e2),
                                }
                            },
                            Err(e2) => Err(e2),
                        },
                        Err(e2) => Err(e2),
                    },
                    Err(e2) => Err(e2),
                }
            },
        },
        Instruction::DecodeEnum(name, rep, value_reg, t) => match sget_stream(s, t) {
            Ok(src) => match sread(src, rep.spec_size() as int) {
                Ok(p) => match spec_assoc(assoc_model(env.enums@), name@) {
                    None => Err(Error::UnresolvedName),
                    Some(def) => match svariant(def.variants@, be_value(p.0) as u128) {
                        Some(var) => swrite_val(
                            sset_stream(s, t, p.1),
                            value_reg as int,
                            VVal::EnumVariant(name@, var),
                        ),
                        None => Err(Error::MalformedDiscriminant),
                    },
                },
                Err(e2) => Err(e2),
            },
            Err(e2) => Err(e2),
        },
        Instruction::DecodePrimitive(t, data, pt) => match sget_stream(s, t) {
            Ok(src) => match sdecode_primitive(pt, src) {
                Ok(p) => swrite_val(sset_stream(s, t, p.1), data as int, p.0),
                Err(e2) => Err(e2),
            },
            Err(e2) => Err(e2),
        },
        Instruction::DecodePrimitiveArray(t, data, st, len_opt) => match sget_stream(s, t) {
            Ok(src) => match len_opt {
                Some(len_reg) => match sread_val(s, len_reg as int) {
                    Ok(lv) => match sval_count(lv) {
                        Ok(n) => match sread_scalars(src, st, n as nat) {
                            Ok(p) => swrite_val(
                                sset_stream(s, t, p.1),
                                data as int,
                                VVal::List(p.0),
                            ),
                            Err(e2) => Err(e2),
                        },
                        Err(e2) => Err(e2),
                    },
                    Err(e2) => Err(e2),
                },
                None => {
                    let p = sread_scalars_to_end(src, st);
                    swrite_val(sset_stream(s, t, p.1), data as int, VVal::List(p.0))
                },
            },
            Err(e2) => Err(e2),
        },
        Instruction::Loop(t, stop, term, output, inner) => match swrite_val(
            s,
            output as int,
            VVal::List(Seq::empty()),
        ) {
            Ok(s1) => match stop {
                Some(stop_reg) => match sread_val(s1, stop_reg as int) {
                    Ok(v) => match sval_count(v) {
                        Ok(n) => run_fixed(env, ctx, inner@, s1, n as nat, fuel),
                        Err(e2) => Err(e2),
                    },
                    Err(e2) => Err(e2),
                },
                None => match term {
                    Some(term_reg) => match sread_val(s1, term_reg as int) {
                        Ok(VVal::Bytes(tb)) => run_term(env, ctx, inner@, t, tb, s1, fuel),
                        Ok(_) => Err(Error::Conversion),
                        Err(e2) => Err(e2),
                    },
                    None => run_to_end(env, ctx, inner@, t, s1, fuel),
                },
            },
            Err(e2) => Err(e2),
        },
        Instruction::LoopOutput(output, item) => sloop_output(s, output as int, item as int),
        Instruction::Conditional(target, interior, condition, inner) => match sread_val(
            s,
            condition as int,
        ) {
            Ok(VVal::Bool(b)) => if b {
                match run_block(env, ctx, inner@, s, fuel) {
                    Ok(s2) => match sread_val(s2, interior as int) {
                        Ok(v) => swrite_val(s2, target as int, VVal::Present(Box::new(v))),
                        Err(e2) => Err(e2),
                    },
                    Err(e2) => Err(e2),
                }
            } else {
                swrite_val(s, target as int, VVal::Absent)
            },
            Ok(_) => Err(Error::Conversion),
            Err(e2) => Err(e2),
        },
    }
}

/// The fixed-count loop: the body exactly `n` times, each iteration's local
/// bindings forgotten afterwards.
pub open spec fn run_fixed(
    env: DecodeEnv,
    ctx: Context,
    body: Seq<Instruction>,
    s: SState,
    n: nat,
    fuel: nat,
) -> Result<SState, Error>
    decreases fuel, body, 2 + n,
{
    if n == 0 {
        Ok(s)
    } else {
        match run_block(env, ctx, body, s, fuel) {
            Ok(s2) => run_fixed(env, ctx, body, scope_restore(s, s2), (n - 1) as nat, fuel),
            Err(e) => Err(e),
        }
    }
}

/// The terminator-delimited loop.  The buffer is always the complete
/// remainder, so a buffer shorter than the terminator means true stream
/// exhaustion: the terminator cannot begin there, and the bytes are data.
/// An iteration that consumes nothing from the target is a failure, which
/// guarantees forward progress and termination.
pub open spec fn run_term(
    env: DecodeEnv,
    ctx: Context,
    body: Seq<Instruction>,
    t: Target,
    term: Seq<u8>,
    s: SState,
    fuel: nat,
) -> Result<SState, Error>
    decreases fuel, body, 2 + (if tremaining(s, t) >= 0 { tremaining(s, t) } else { 0 }),
{
    match sget_stream(s, t) {
        Err(e) => Err(e),
        Ok(src) => if src.remaining() <= 0 {
            Ok(s)
        } else if src.remaining() >= term.len() && src.rest().take(term.len() as int) == term {
            Ok(sset_stream(s, t, SStream { data: src.data, pos: src.pos + term.len() }))
        } else {
            match run_block(env, ctx, body, s, fuel) {
                Ok(s2) => {
                    let s3 = scope_restore(s, s2);
                    if 0 <= tremaining(s3, t) < src.remaining() {
                        run_term(env, ctx, body, t, term, s3, fuel)
                    } else {
                        Err(Error::NoProgress)
                    }
                },
                Err(e) => Err(e),
            }
        },
    }
}

/// The unbounded loop: the body until the target is exhausted, with the
/// same forward-progress guarantee.
pub open spec fn run_to_end(
    env: DecodeEnv,
    ctx: Context,
    body: Seq<Instruction>,
    t: Target,
    s: SState,
    fuel: nat,
) -> Result<SState, Error>
    decreases fuel, body, 2 + (if tremaining(s, t) >= 0 { tremaining(s, t) } else { 0 }),
{
    match sget_stream(s, t) {
        Err(e) => Err(e),
        Ok(src) => if src.remaining() <= 0 {
            Ok(s)
        } else {
            match run_block(env, ctx, body, s, fuel) {
                Ok(s2) => {
                    let s3 = scope_restore(s, s2);
                    if 0 <= tremaining(s3, t) < src.remaining() {
                        run_to_end(env, ctx, body, t, s3, fuel)
                    } else {
                        Err(Error::NoProgress)
                    }
                },
                Err(e) => Err(e),
            }
        },
    }
}

/// The state a decode starts from: all registers unwritten, the input at
/// the root.
pub open spec fn init_state(ctx: Context, input: Seq<u8>) -> SState {
    SState {
        vals: Seq::new(ctx.register_count as nat, |i: int| None),
        strs: Seq::new(ctx.register_count as nat, |i: int| None),
        root: SStream { data: input, pos: 0 },
    }
}

/// What one whole decode returns: the program run from the initial state,
/// then the value of the last register.  The execution discipline
/// (`is_async`) selects how reads are scheduled, never what they produce,
/// so it does not appear on the right-hand side.
pub open spec fn spec_decode(
    env: DecodeEnv,
    ctx: Context,
    input: Seq<u8>,
    is_async: bool,
    fuel: nat,
) -> Result<VVal, Error> {
    if ctx.register_count == 0 {
        Err(Error::InvalidProgram)
    } else {
        match run_block(env, ctx, ctx.instructions@, init_state(ctx, input), fuel) {
            Ok(sf) => sread_val(sf, ctx.register_count - 1),
            Err(e) => Err(e),
        }
    }
}

} // verus!
