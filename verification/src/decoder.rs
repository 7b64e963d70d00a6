//! The executable decode driver.
//!
//! [`prepare_decoder`] turns a compiled [`Context`] and an execution-mode
//! flag into a [`Decoder`]; [`Decoder::decode`] walks the instruction
//! program over an in-memory input and is proved to return exactly what
//! [`crate::semantics::spec_decode`] defines — for every program, every
//! environment and every input, under either execution discipline.

use vstd::prelude::*;
use crate::program::{
    emit_target, spec_assoc, Constructable, Context, DecodeEnv, Error, Expression, Instruction,
    StreamHandle, Target,
};
use crate::resolver::{assoc_find, assoc_model};
use crate::semantics::{
    be_value, init_state, lemma_be_value_bound, lemma_pow256_mono, pow256, run_block, run_fixed,
    run_instr, run_term, run_to_end, scope_restore, sconstruct, sconstrict, sdecode_primitive,
    seval_expr, sget_stream, sinit_sub, sloop_output, spec_decode, spec_sign_threshold,
    sread_args, sread_named, sread_scalars, sread_scalars_to_end, sread_val, sset_stream,
    supdate_val, sval_count, svariant, swrite_str, swrite_val, tremaining, SState,
};
use crate::stream::{sread, sread_to_end, ByteStream, SStream};
use crate::values::{
    clone_value, lemma_vval_seq, vval, vval_seq, PrimitiveType, ScalarType, Value, VVal,
};

verus! {

broadcast use {
    vstd::std_specs::vec::axiom_vec_decreases_to_view,
    vstd::std_specs::vec::axiom_vec_index_decreases,
    vstd::seq::axiom_seq_index_decreases,
    vstd::seq::axiom_seq_subrange_decreases,
};

/// The running machine: value registers, stream registers, root stream.
pub struct State {
    pub vals: Vec<Option<Value>>,
    pub strs: Vec<Option<ByteStream>>,
    pub root: ByteStream,
}

pub open spec fn view_vals(s: Seq<Option<Value>>) -> Seq<Option<VVal>> {
    Seq::new(
        s.len(),
        |i: int|
            match s[i] {
                Some(v) => Some(vval(v)),
                None => None,
            },
    )
}

pub open spec fn view_strs(s: Seq<Option<ByteStream>>) -> Seq<Option<SStream>> {
    Seq::new(
        s.len(),
        |i: int|
            match s[i] {
                Some(b) => Some(b@),
                None => None,
            },
    )
}

impl View for State {
    type V = SState;

    open spec fn view(&self) -> SState {
        SState { vals: view_vals(self.vals@), strs: view_strs(self.strs@), root: self.root@ }
    }
}

/// Every stream of the state fits its bytes: cursors within bounds.
pub open spec fn state_inv(st: State) -> bool {
    &&& st.root@.wf()
    &&& forall|i: int|
        0 <= i < st.strs@.len() && st.strs@[i] is Some ==> (#[trigger] st.strs@[i])->0@.wf()
}

/// Read a register's value; the register file is read many times, so the
/// caller receives a copy.
fn get_val(st: &State, r: usize) -> (res: Result<Value, Error>)
    ensures
        match sread_val(st@, r as int) {
            Ok(v) => res is Ok && vval(res->Ok_0) == v,
            Err(e) => res == Err::<Value, Error>(e),
        },
{
    if r < st.vals.len() {
        match &st.vals[r] {
            Some(v) => Ok(clone_value(v)),
            None => Err(Error::InvalidProgram),
        }
    } else {
        Err(Error::InvalidProgram)
    }
}

/// Write a register: single assignment, never twice.
fn set_val(st: &mut State, r: usize, v: Value) -> (res: Result<(), Error>)
    requires
        state_inv(*old(st)),
    ensures
        state_inv(*final(st)),
        match swrite_val(old(st)@, r as int, vval(v)) {
            Ok(s2) => res is Ok && final(st)@ == s2,
            Err(e) => res == Err::<(), Error>(e) && final(st)@ == old(st)@,
        },
{
    if r < st.vals.len() {
        if st.vals[r].is_some() {
            Err(Error::InvalidProgram)
        } else {
            st.vals[r] = Some(v);
            proof {
                assert(st@.vals =~= old(st)@.vals.update(r as int, Some(vval(v))));
                assert(st@.strs =~= old(st)@.strs);
                assert(st@ =~= swrite_val(old(st)@, r as int, vval(v))->Ok_0);
            }
            Ok(())
        }
    } else {
        Err(Error::InvalidProgram)
    }
}

/// Replace an already-written register; only loop output containers.
fn update_val(st: &mut State, r: usize, v: Value) -> (res: Result<(), Error>)
    requires
        state_inv(*old(st)),
    ensures
        state_inv(*final(st)),
        match supdate_val(old(st)@, r as int, vval(v)) {
            Ok(s2) => res is Ok && final(st)@ == s2,
            Err(e) => res == Err::<(), Error>(e) && final(st)@ == old(st)@,
        },
{
    if r < st.vals.len() {
        if st.vals[r].is_none() {
            Err(Error::InvalidProgram)
        } else {
            st.vals[r] = Some(v);
            proof {
                assert(st@.vals =~= old(st)@.vals.update(r as int, Some(vval(v))));
                assert(st@.strs =~= old(st)@.strs);
                assert(st@ =~= supdate_val(old(st)@, r as int, vval(v))->Ok_0);
            }
            Ok(())
        }
    } else {
        Err(Error::InvalidProgram)
    }
}

/// Write a stream register: single assignment, never twice.
fn set_stream(st: &mut State, r: usize, bs: ByteStream) -> (res: Result<(), Error>)
    requires
        state_inv(*old(st)),
        bs@.wf(),
    ensures
        state_inv(*final(st)),
        match swrite_str(old(st)@, r as int, bs@) {
            Ok(s2) => res is Ok && final(st)@ == s2,
            Err(e) => res == Err::<(), Error>(e) && final(st)@ == old(st)@,
        },
{
    if r < st.strs.len() {
        if st.strs[r].is_some() {
            Err(Error::InvalidProgram)
        } else {
            let ghost target_view = bs@;
            st.strs[r] = Some(bs);
            proof {
                assert(st@.strs =~= old(st)@.strs.update(r as int, Some(target_view)));
                assert(st@.vals =~= old(st)@.vals);
                assert(st@ =~= swrite_str(old(st)@, r as int, target_view)->Ok_0);
            }
            Ok(())
        }
    } else {
        Err(Error::InvalidProgram)
    }
}

/// Take the target's stream out of the state, leaving an empty one behind;
/// the caller puts the advanced stream back with [`put_target_stream`].
fn take_target_stream(st: &mut State, t: &Target) -> (res: Result<ByteStream, Error>)
    requires
        state_inv(*old(st)),
    ensures
        state_inv(*final(st)),
        match sget_stream(old(st)@, *t) {
            Ok(src) => res is Ok && res->Ok_0@ == src && res->Ok_0@.wf() && final(st)@ == sset_stream(
                old(st)@,
                *t,
                SStream { data: Seq::empty(), pos: 0 },
            ),
            Err(e) => res == Err::<ByteStream, Error>(e) && final(st)@ == old(st)@,
        },
{
    let mut tmp = ByteStream::new(Vec::new());
    match emit_target(t) {
        StreamHandle::Root => {
            core::mem::swap(&mut st.root, &mut tmp);
            proof {
                assert(st@.vals =~= old(st)@.vals);
                assert(st@.strs =~= old(st)@.strs);
                assert(st@ =~= sset_stream(old(st)@, *t, SStream { data: Seq::empty(), pos: 0 }));
            }
            Ok(tmp)
        },
        StreamHandle::Register(x) => {
            if x < st.strs.len() {
                let slot = &mut st.strs[x];
                match slot {
                    Some(bs) => {
                        core::mem::swap(bs, &mut tmp);
                        proof {
                            assert(st@.vals =~= old(st)@.vals);
                            assert(st@.strs =~= old(st)@.strs.update(
                                x as int,
                                Some(SStream { data: Seq::empty(), pos: 0 }),
                            ));
                            assert(st@ =~= sset_stream(
                                old(st)@,
                                *t,
                                SStream { data: Seq::empty(), pos: 0 },
                            ));
                        }
                        Ok(tmp)
                    },
                    None => {
                        proof {
                            assert(st@ =~= old(st)@);
                        }
                        Err(Error::InvalidProgram)
                    },
                }
            } else {
                Err(Error::InvalidProgram)
            }
        },
    }
}

/// Put the advanced stream back where [`take_target_stream`] took it from.
fn put_target_stream(st: &mut State, t: &Target, bs: ByteStream) -> (res: Result<(), Error>)
    requires
        state_inv(*old(st)),
        bs@.wf(),
        sget_stream(old(st)@, *t) is Ok,
    ensures
        state_inv(*final(st)),
        res is Ok,
        final(st)@ == sset_stream(old(st)@, *t, bs@),
{
    let ghost target_view = bs@;
    match emit_target(t) {
        StreamHandle::Root => {
            st.root = bs;
            proof {
                assert(st@.vals =~= old(st)@.vals);
                assert(st@.strs =~= old(st)@.strs);
                assert(st@ =~= sset_stream(old(st)@, *t, target_view));
            }
            Ok(())
        },
        StreamHandle::Register(x) => {
            st.strs[x] = Some(bs);
            proof {
                assert(st@.vals =~= old(st)@.vals);
                assert(st@.strs =~= old(st)@.strs.update(x as int, Some(target_view)));
                assert(st@ =~= sset_stream(old(st)@, *t, target_view));
            }
            Ok(())
        },
    }
}

/// The big-endian value of at most sixteen bytes.
fn be_u128(bytes: &Vec<u8>) -> (r: u128)
    requires
        bytes@.len() <= 16,
    ensures
        r == be_value(bytes@),
{
    let mut acc: u128 = 0;
    let mut i: usize = 0;
    while i < bytes.len()
        invariant
            i <= bytes@.len() <= 16,
            acc == be_value(bytes@.take(i as int)),
        decreases bytes@.len() - i,
    {
        proof {
            lemma_be_value_bound(bytes@.take(i as int));
            lemma_pow256_mono(i as nat, 15);
            assert(pow256(15) == 0x1000000000000000000000000000000) by {
                reveal_with_fuel(pow256, 16);
            }
            assert(bytes@.take(i + 1).drop_last() =~= bytes@.take(i as int));
            assert(bytes@.take(i + 1).last() == bytes@[i as int]);
        }
        acc = acc * 256 + (bytes[i] as u128);
        i = i + 1;
    }
    proof {
        assert(bytes@.take(bytes@.len() as int) =~= bytes@);
    }
    acc
}

/// The raw pattern at and above which a signed scalar is negative.
fn sign_threshold(t: ScalarType) -> (r: u128)
    ensures
        r == spec_sign_threshold(t),
{
    match t {
        ScalarType::I8 => 0x80,
        ScalarType::I16 => 0x8000,
        ScalarType::I32 => 0x80000000,
        ScalarType::I64 => 0x8000000000000000,
        ScalarType::I128 => 0x80000000000000000000000000000000,
        ScalarType::U8 => 0,
        ScalarType::U16 => 0,
        ScalarType::U32 => 0,
        ScalarType::U64 => 0,
        ScalarType::U128 => 0,
    }
}

/// A register value used as a count or length.
fn count_of(v: &Value) -> (res: Result<u128, Error>)
    ensures
        res == sval_count(vval(*v)),
{
    match v {
        Value::Scalar(t, raw) => {
            if !t.is_signed() {
                Ok(*raw)
            } else if *raw < sign_threshold(*t) {
                Ok(*raw)
            } else {
                Err(Error::Conversion)
            }
        },
        _ => Err(Error::Conversion),
    }
}

/// Big-endian values of at most sixteen bytes fit a `u128` exactly.
pub proof fn lemma_be_value_u128(s: Seq<u8>)
    requires
        s.len() <= 16,
    ensures
        be_value(s) <= u128::MAX,
        be_value(s) as u128 == be_value(s),
{
    lemma_be_value_bound(s);
    lemma_pow256_mono(s.len(), 16);
    assert(pow256(16) == 0x100000000000000000000000000000000) by {
        reveal_with_fuel(pow256, 17);
    }
}

/// Remaining bytes of the target's stream.
fn remaining_target(st: &State, t: &Target) -> (res: Result<usize, Error>)
    requires
        state_inv(*st),
    ensures
        match sget_stream(st@, *t) {
            Ok(src) => res is Ok && res->Ok_0 == src.remaining(),
            Err(e) => res == Err::<usize, Error>(e),
        },
{
    match emit_target(t) {
        StreamHandle::Root => Ok(st.root.remaining()),
        StreamHandle::Register(x) => {
            if x < st.strs.len() {
                match &st.strs[x] {
                    Some(bs) => {
                        proof {
                            assert(st.strs@[x as int] is Some);
                        }
                        Ok(bs.remaining())
                    },
                    None => Err(Error::InvalidProgram),
                }
            } else {
                Err(Error::InvalidProgram)
            }
        },
    }
}

/// Whether the target's remainder begins with the pattern, consuming
/// nothing.
fn peek_matches_target(st: &State, t: &Target, pat: &Vec<u8>) -> (res: Result<bool, Error>)
    requires
        state_inv(*st),
    ensures
        match sget_stream(st@, *t) {
            Ok(src) => res is Ok && res->Ok_0 == (src.remaining() >= pat@.len()
                && src.rest().take(pat@.len() as int) == pat@),
            Err(e) => res == Err::<bool, Error>(e),
        },
{
    match emit_target(t) {
        StreamHandle::Root => Ok(st.root.peek_matches(pat)),
        StreamHandle::Register(x) => {
            if x < st.strs.len() {
                match &st.strs[x] {
                    Some(bs) => {
                        proof {
                            assert(st.strs@[x as int] is Some);
                        }
                        Ok(bs.peek_matches(pat))
                    },
                    None => Err(Error::InvalidProgram),
                }
            } else {
                Err(Error::InvalidProgram)
            }
        },
    }
}

/// Consume `n` already-peeked bytes of the target.
fn consume_target(st: &mut State, t: &Target, n: usize) -> (res: Result<(), Error>)
    requires
        state_inv(*old(st)),
        sget_stream(old(st)@, *t) is Ok,
        n <= sget_stream(old(st)@, *t)->Ok_0.remaining(),
    ensures
        state_inv(*final(st)),
        res is Ok,
        final(st)@ == sset_stream(
            old(st)@,
            *t,
            SStream {
                data: sget_stream(old(st)@, *t)->Ok_0.data,
                pos: sget_stream(old(st)@, *t)->Ok_0.pos + n,
            },
        ),
{
    let mut src = match take_target_stream(st, t) {
        Ok(s) => s,
        Err(_) => {
            proof {
                assert(false);
            }
            return Err(Error::InvalidProgram);
        },
    };
    src.consume(n);
    let r = put_target_stream(st, t, src);
    proof {
        assert(final(st)@ =~= sset_stream(
            old(st)@,
            *t,
            SStream {
                data: sget_stream(old(st)@, *t)->Ok_0.data,
                pos: sget_stream(old(st)@, *t)->Ok_0.pos + n,
            },
        ));
    }
    r
}

/// The values of a list of argument registers, in order.
fn read_regs(st: &State, items: &Vec<usize>) -> (res: Result<Vec<Value>, Error>)
    ensures
        match sread_args(st@, items@) {
            Ok(vs) => res is Ok && vval_seq(res->Ok_0@) == vs,
            Err(e) => res == Err::<Vec<Value>, Error>(e),
        },
{
    let ghost full = sread_args(st@, items@);
    let mut acc: Vec<Value> = Vec::new();
    let mut j: usize = 0;
    proof {
        assert(items@.skip(0) =~= items@);
        if full is Ok {
            assert(vval_seq(acc@) + full->Ok_0 =~= full->Ok_0);
        }
    }
    while j < items.len()
        invariant
            j <= items@.len(),
            full == sread_args(st@, items@),
            full == (match sread_args(st@, items@.skip(j as int)) {
                Ok(tail) => Ok::<Seq<VVal>, Error>(vval_seq(acc@) + tail),
                Err(e) => Err(e),
            }),
        decreases items@.len() - j,
    {
        proof {
            assert(items@.skip(j as int)[0] == items@[j as int]);
            assert(items@.skip(j as int).drop_first() =~= items@.skip(j + 1));
        }
        let v = match get_val(st, items[j]) {
            Ok(v) => v,
            Err(e) => {
                return Err(e);
            },
        };
        let ghost acc_pre = acc@;
        let ghost vv = vval(v);
        acc.push(v);
        proof {
            assert(vval_seq(acc@) =~= vval_seq(acc_pre).push(vv)) by {
                assert(acc@.drop_last() =~= acc_pre);
                assert(acc@.last() == acc@[acc@.len() - 1]);
            }
            if sread_args(st@, items@.skip(j + 1)) is Ok {
                let tail = sread_args(st@, items@.skip(j + 1))->Ok_0;
                assert(vval_seq(acc_pre) + (seq![vv] + tail) =~= vval_seq(acc@) + tail);
            }
        }
        j = j + 1;
    }
    proof {
        assert(items@.skip(items@.len() as int).len() == 0);
        if full is Ok {
            assert(vval_seq(acc@) + Seq::<VVal>::empty() =~= vval_seq(acc@));
        }
    }
    Ok(acc)
}

/// The (name, value) pairs of a field-named aggregate, in declared order.
fn read_named(st: &State, items: &Vec<(String, usize)>) -> (res: Result<
    Vec<(String, Value)>,
    Error,
>)
    ensures
        match sread_named(st@, items@) {
            Ok(fs) => res is Ok && crate::values::vval_fields(res->Ok_0@) == fs,
            Err(e) => res == Err::<Vec<(String, Value)>, Error>(e),
        },
{
    let ghost full = sread_named(st@, items@);
    let mut acc: Vec<(String, Value)> = Vec::new();
    let mut j: usize = 0;
    proof {
        assert(items@.skip(0) =~= items@);
        if full is Ok {
            assert(crate::values::vval_fields(acc@) + full->Ok_0 =~= full->Ok_0);
        }
    }
    while j < items.len()
        invariant
            j <= items@.len(),
            full == sread_named(st@, items@),
            full == (match sread_named(st@, items@.skip(j as int)) {
                Ok(tail) => Ok::<Seq<(Seq<char>, VVal)>, Error>(
                    crate::values::vval_fields(acc@) + tail,
                ),
                Err(e) => Err(e),
            }),
        decreases items@.len() - j,
    {
        proof {
            assert(items@.skip(j as int)[0] == items@[j as int]);
            assert(items@.skip(j as int).drop_first() =~= items@.skip(j + 1));
        }
        let entry = &items[j];
        let v = match get_val(st, entry.1) {
            Ok(v) => v,
            Err(e) => {
                return Err(e);
            },
        };
        let name = crate::values::clone_string(&entry.0);
        let ghost acc_pre = acc@;
        let ghost pushed = (entry.0@, vval(v));
        acc.push((name, v));
        proof {
            assert(crate::values::vval_fields(acc@) =~= crate::values::vval_fields(
                acc_pre,
            ).push(pushed)) by {
                assert(acc@.drop_last() =~= acc_pre);
                assert(acc@.last() == acc@[acc@.len() - 1]);
            }
            if sread_named(st@, items@.skip(j + 1)) is Ok {
                let tail = sread_named(st@, items@.skip(j + 1))->Ok_0;
                assert(crate::values::vval_fields(acc_pre) + (seq![pushed] + tail)
                    =~= crate::values::vval_fields(acc@) + tail);
            }
        }
        j = j + 1;
    }
    proof {
        assert(items@.skip(items@.len() as int).len() == 0);
        if full is Ok {
            assert(crate::values::vval_fields(acc@) + Seq::<(Seq<char>, VVal)>::empty()
                =~= crate::values::vval_fields(acc@));
        }
    }
    Ok(acc)
}

/// Assemble a `Construct` value from registers.
fn construct_value(st: &State, c: &Constructable) -> (res: Result<Value, Error>)
    ensures
        match sconstruct(st@, *c) {
            Ok(v) => res is Ok && vval(res->Ok_0) == v,
            Err(e) => res == Err::<Value, Error>(e),
        },
{
    match c {
        Constructable::Tuple(items) => match read_regs(st, items) {
            Ok(vs) => Ok(Value::Tuple(vs)),
            Err(e) => Err(e),
        },
        Constructable::TaggedTuple { name, items } => match read_regs(st, items) {
            Ok(vs) => Ok(Value::TaggedTuple(crate::values::clone_string(name), vs)),
            Err(e) => Err(e),
        },
        Constructable::Struct { name, items } => match read_named(st, items) {
            Ok(fs) => Ok(Value::Record(crate::values::clone_string(name), fs)),
            Err(e) => Err(e),
        },
    }
}

/// Evaluate an `Eval` leaf: a literal, or a field reference through the
/// context's field-to-register map.
fn eval_expr(ctx: &Context, e: &Expression, st: &State) -> (res: Result<Value, Error>)
    ensures
        match seval_expr(*ctx, *e, st@) {
            Ok(v) => res is Ok && vval(res->Ok_0) == v,
            Err(e2) => res == Err::<Value, Error>(e2),
        },
{
    match e {
        Expression::Literal(v) => Ok(clone_value(v)),
        Expression::FieldRef(name) => match assoc_find(&ctx.field_register_map, name.as_str()) {
            Some(i) => {
                proof {
                    assert(assoc_model(ctx.field_register_map@)[i as int]
                        == (ctx.field_register_map@[i as int].0@,
                    ctx.field_register_map@[i as int].1));
                }
                get_val(st, ctx.field_register_map[i].1)
            },
            None => Err(Error::InvalidProgram),
        },
    }
}

/// The first variant mapped to the discriminant.
fn find_variant(vars: &Vec<(u128, String)>, disc: u128) -> (res: Option<String>)
    ensures
        match res {
            Some(name) => svariant(vars@, disc) == Some(name@),
            None => svariant(vars@, disc) is None,
        },
{
    let mut j: usize = 0;
    proof {
        assert(vars@.skip(0) =~= vars@);
    }
    while j < vars.len()
        invariant
            j <= vars@.len(),
            svariant(vars@, disc) == svariant(vars@.skip(j as int), disc),
        decreases vars@.len() - j,
    {
        proof {
            assert(vars@.skip(j as int)[0] == vars@[j as int]);
            assert(vars@.skip(j as int).drop_first() =~= vars@.skip(j + 1));
        }
        let entry = &vars[j];
        if entry.0 == disc {
            return Some(crate::values::clone_string(&entry.1));
        }
        j = j + 1;
    }
    proof {
        assert(vars@.skip(vars@.len() as int).len() == 0);
    }
    None
}

/// Run a block of instructions in program order, stopping at the first
/// failure.
#[verifier::loop_isolation(false)]
fn exec_block(
    env: &DecodeEnv,
    ctx: &Context,
    instrs: &Vec<Instruction>,
    st: &mut State,
    fuel: usize,
) -> (res: Result<(), Error>)
    requires
        state_inv(*old(st)),
    ensures
        state_inv(*final(st)),
        match run_block(*env, *ctx, instrs@, old(st)@, fuel as nat) {
            Ok(s2) => res is Ok && final(st)@ == s2,
            Err(e) => res == Err::<(), Error>(e),
        },
    decreases fuel, *instrs, 0nat,
{
    let ghost s0 = st@;
    let mut j: usize = 0;
    proof {
        assert(instrs@.skip(0) =~= instrs@);
    }
    while j < instrs.len()
        invariant
            state_inv(*st),
            j <= instrs@.len(),
            run_block(*env, *ctx, instrs@, s0, fuel as nat) == run_block(
                *env,
                *ctx,
                instrs@.skip(j as int),
                st@,
                fuel as nat,
            ),
        decreases fuel, *instrs, instrs@.len() - j,
    {
        proof {
            assert(instrs@.skip(j as int)[0] == instrs@[j as int]);
            assert(instrs@.skip(j as int).drop_first() =~= instrs@.skip(j + 1));
        }
        let r = exec_instr(env, ctx, &instrs[j], st, fuel);
        match r {
            Ok(_) => {},
            Err(e) => {
                return Err(e);
            },
        }
        j = j + 1;
    }
    proof {
        assert(instrs@.skip(instrs@.len() as int).len() == 0);
    }
    Ok(())
}

/// One loop iteration: run the body, then forget the register bindings the
/// body created, as a scope forgets its locals; stream consumption and
/// pre-existing registers — the loop's output container among them — stay.
fn iterate_body(
    env: &DecodeEnv,
    ctx: &Context,
    body: &Vec<Instruction>,
    st: &mut State,
    fuel: usize,
) -> (res: Result<(), Error>)
    requires
        state_inv(*old(st)),
    ensures
        state_inv(*final(st)),
        match run_block(*env, *ctx, body@, old(st)@, fuel as nat) {
            Ok(s2) => res is Ok && final(st)@ == scope_restore(old(st)@, s2),
            Err(e) => res == Err::<(), Error>(e),
        },
    decreases fuel, *body, 1nat,
{
    let mut vmask: Vec<bool> = Vec::new();
    let mut k: usize = 0;
    while k < st.vals.len()
        invariant
            *st == *old(st),
            k <= st.vals@.len(),
            vmask@.len() == k,
            forall|p: int| 0 <= p < k ==> vmask@[p] == (st.vals@[p] is Some),
        decreases st.vals@.len() - k,
    {
        vmask.push(st.vals[k].is_some());
        k = k + 1;
    }
    let mut smask: Vec<bool> = Vec::new();
    let mut k2: usize = 0;
    while k2 < st.strs.len()
        invariant
            *st == *old(st),
            k2 <= st.strs@.len(),
            smask@.len() == k2,
            forall|p: int| 0 <= p < k2 ==> smask@[p] == (st.strs@[p] is Some),
        decreases st.strs@.len() - k2,
    {
        smask.push(st.strs[k2].is_some());
        k2 = k2 + 1;
    }
    let ghost pre = st@;
    let ghost vmask_len = vmask@.len();
    let ghost smask_len = smask@.len();
    let r = exec_block(env, ctx, body, st, fuel);
    match r {
        Ok(_) => {},
        Err(e) => {
            return Err(e);
        },
    }
    let ghost s2 = st@;
    let ghost restored = scope_restore(pre, s2);
    let mut idx: usize = 0;
    while idx < st.vals.len()
        invariant
            idx <= st.vals@.len(),
            vmask@.len() == vmask_len,
            vmask_len == pre.vals.len(),
            forall|p: int| 0 <= p < vmask_len ==> vmask@[p] == (pre.vals[p] is Some),
            view_strs(st.strs@) == s2.strs,
            forall|p: int|
                0 <= p < st.strs@.len() && st.strs@[p] is Some ==> (#[trigger] st.strs@[p])->0@.wf(),
            st.root@ == s2.root,
            st.vals@.len() == s2.vals.len(),
            restored == scope_restore(pre, s2),
            forall|p: int| 0 <= p < idx ==> view_vals(st.vals@)[p] == restored.vals[p],
            forall|p: int| idx <= p < st.vals@.len() ==> view_vals(st.vals@)[p] == s2.vals[p],
        decreases st.vals@.len() - idx,
    {
        if idx >= vmask.len() {
            st.vals[idx] = None;
        } else if !vmask[idx] {
            st.vals[idx] = None;
        }
        idx = idx + 1;
    }
    let mut idx2: usize = 0;
    while idx2 < st.strs.len()
        invariant
            idx2 <= st.strs@.len(),
            smask@.len() == smask_len,
            smask_len == pre.strs.len(),
            forall|p: int| 0 <= p < smask_len ==> smask@[p] == (pre.strs[p] is Some),
            forall|p: int| 0 <= p < st.vals@.len() ==> view_vals(st.vals@)[p] == restored.vals[p],
            st.vals@.len() == s2.vals.len(),
            st.root@ == s2.root,
            st.strs@.len() == s2.strs.len(),
            restored == scope_restore(pre, s2),
            forall|p: int| 0 <= p < idx2 ==> view_strs(st.strs@)[p] == restored.strs[p],
            forall|p: int| idx2 <= p < st.strs@.len() ==> view_strs(st.strs@)[p] == s2.strs[p],
            forall|p: int|
                0 <= p < st.strs@.len() && st.strs@[p] is Some ==> (#[trigger] st.strs@[p])->0@.wf(),
        decreases st.strs@.len() - idx2,
    {
        if idx2 >= smask.len() {
            st.strs[idx2] = None;
        } else if !smask[idx2] {
            st.strs[idx2] = None;
        }
        idx2 = idx2 + 1;
    }
    proof {
        assert(st@.vals =~= restored.vals);
        assert(st@.strs =~= restored.strs);
        assert(st@ =~= restored);
    }
    Ok(())
}

/// Run one instruction of the program.
#[verifier::rlimit(100)]
#[verifier::loop_isolation(false)]
fn exec_instr(
    env: &DecodeEnv,
    ctx: &Context,
    i: &Instruction,
    st: &mut State,
    fuel: usize,
) -> (res: Result<(), Error>)
    requires
        state_inv(*old(st)),
    ensures
        state_inv(*final(st)),
        match run_instr(*env, *ctx, *i, old(st)@, fuel as nat) {
            Ok(s2) => res is Ok && final(st)@ == s2,
            Err(e) => res == Err::<(), Error>(e),
        },
    decreases fuel, *i, 1nat,
{
    match i {
        Instruction::Eval(target, e) => {
            let v = match eval_expr(ctx, e, st) {
                Ok(v) => v,
                Err(er) => {
                    return Err(er);
                },
            };
            set_val(st, *target, v)
        },
        Instruction::Construct(target, c) => {
            let v = match construct_value(st, c) {
                Ok(v) => v,
                Err(er) => {
                    return Err(er);
                },
            };
            set_val(st, *target, v)
        },
        Instruction::Constrict(_t, _new_stream, _len_reg) => exec_constrict(
            env,
            ctx,
            i,
            st,
            fuel,
        ),
        Instruction::WrapStream(_t, _new_stream, _tr, _args) => Err(Error::ForeignUnsupported),
        Instruction::ConditionalWrapStream(_c, _p, _t, _n, _tr, _args) => exec_cond_wrap(
            env,
            ctx,
            i,
            st,
            fuel,
        ),
        Instruction::DecodeForeign(_t, _data, _ty, _args) => Err(Error::ForeignUnsupported),
        Instruction::DecodeRef(_t, _source, _class, _args) => exec_decode_ref(
            env,
            ctx,
            i,
            st,
            fuel,
        ),
        Instruction::DecodeEnum(_n, _rep, _v, _t) => exec_decode_enum(
            env,
            ctx,
            i,
            st,
            fuel,
        ),
        Instruction::DecodePrimitive(_t, _d, _p) => exec_decode_primitive(
            env,
            ctx,
            i,
            st,
            fuel,
        ),
        Instruction::DecodePrimitiveArray(t, data, ty, len_opt) => {
            exec_primitive_array(env, st, t, *data, *ty, len_opt)
        },
        Instruction::Loop(_t, _stop, _term, _output, _inner) => exec_loop(
            env,
            ctx,
            i,
            st,
            fuel,
        ),
        Instruction::LoopOutput(output, item) => {
            let iv = match get_val(st, *item) {
                Ok(v) => v,
                Err(er) => {
                    return Err(er);
                },
            };
            let ov = match get_val(st, *output) {
                Ok(v) => v,
                Err(er) => {
                    return Err(er);
                },
            };
            match ov {
                Value::List(mut items) => {
                    let ghost items_pre = items@;
                    let ghost ivv = vval(iv);
                    items.push(iv);
                    proof {
                        assert(vval_seq(items@) =~= vval_seq(items_pre).push(ivv)) by {
                            assert(items@.drop_last() =~= items_pre);
                        }
                    }
                    update_val(st, *output, Value::List(items))
                },
                _ => Err(Error::Conversion),
            }
        },
        Instruction::Conditional(_t, _i2, _c, _b) => exec_conditional(
            env,
            ctx,
            i,
            st,
            fuel,
        ),
    }
}



/// Bound the target to the length register's value, writing the bounded
/// view into a new stream register.
#[verifier::rlimit(100)]
#[verifier::loop_isolation(false)]
fn exec_constrict(
    env: &DecodeEnv,
    ctx: &Context,
    i: &Instruction,
    st: &mut State,
    fuel: usize,
) -> (res: Result<(), Error>)
    requires
        state_inv(*old(st)),
        *i is Constrict,
    ensures
        state_inv(*final(st)),
        match run_instr(*env, *ctx, *i, old(st)@, fuel as nat) {
            Ok(s2) => res is Ok && final(st)@ == s2,
            Err(e) => res == Err::<(), Error>(e),
        },
    decreases fuel, *i, 0nat,
{
    match i {
        Instruction::Constrict(t, new_stream, len_reg) => {
            let mut src = match take_target_stream(st, t) {
                Ok(s) => s,
                Err(er) => {
                    return Err(er);
                },
            };
            let lv = match get_val(st, *len_reg) {
                Ok(v) => v,
                Err(er) => {
                    return Err(er);
                },
            };
            let n = match count_of(&lv) {
                Ok(n) => n,
                Err(er) => {
                    return Err(er);
                },
            };
            let rem = src.remaining();
            let take_n: usize = if n <= rem as u128 {
                n as usize
            } else {
                rem
            };
            let bytes = match src.read_exact(take_n) {
                Ok(b) => b,
                Err(er) => {
                    proof {
                        assert(false);
                    }
                    return Err(er);
                },
            };
            match put_target_stream(st, t, src) {
                Ok(_) => {},
                Err(er) => {
                    return Err(er);
                },
            }
            proof {
                assert(st@ =~= sset_stream(
                    old(st)@,
                    *t,
                    sread(sget_stream(old(st)@, *t)->Ok_0, take_n as int)->Ok_0.1,
                ));
            }
            set_stream(st, *new_stream, ByteStream::new(bytes))
        }
        _ => {
            proof {
                assert(false);
            }
            Err(Error::InvalidProgram)
        },
    }
}

/// A boolean register picks between wrapping the target and passing it
/// through unmodified.
#[verifier::rlimit(100)]
#[verifier::loop_isolation(false)]
fn exec_cond_wrap(
    env: &DecodeEnv,
    ctx: &Context,
    i: &Instruction,
    st: &mut State,
    fuel: usize,
) -> (res: Result<(), Error>)
    requires
        state_inv(*old(st)),
        *i is ConditionalWrapStream,
    ensures
        state_inv(*final(st)),
        match run_instr(*env, *ctx, *i, old(st)@, fuel as nat) {
            Ok(s2) => res is Ok && final(st)@ == s2,
            Err(e) => res == Err::<(), Error>(e),
        },
    decreases fuel, *i, 0nat,
{
    match i {
        Instruction::ConditionalWrapStream(cond, prelude, t, new_stream, _tr, _args) => {
            let cv = match get_val(st, *cond) {
                Ok(v) => v,
                Err(er) => {
                    return Err(er);
                },
            };
            match cv {
                Value::Bool(b) => {
                    if b {
                        match exec_block(env, ctx, prelude, st, fuel) {
                            Ok(_) => Err(Error::ForeignUnsupported),
                            Err(er) => Err(er),
                        }
                    } else {
                        let mut src = match take_target_stream(st, t) {
                            Ok(s) => s,
                            Err(er) => {
                                return Err(er);
                            },
                        };
                        let bytes = src.read_to_end();
                        match put_target_stream(st, t, src) {
                            Ok(_) => {},
                            Err(er) => {
                                return Err(er);
                            },
                        }
                        proof {
                            assert(st@ =~= sset_stream(
                                old(st)@,
                                *t,
                                sread_to_end(sget_stream(old(st)@, *t)->Ok_0).1,
                            ));
                        }
                        set_stream(st, *new_stream, ByteStream::new(bytes))
                    }
                },
                _ => Err(Error::Conversion),
            }
        }
        _ => {
            proof {
                assert(false);
            }
            Err(Error::InvalidProgram)
        },
    }
}

/// Read a fixed-width big-endian discriminant and map it through the
/// named enumeration's reverse lookup.
#[verifier::rlimit(100)]
#[verifier::loop_isolation(false)]
fn exec_decode_enum(
    env: &DecodeEnv,
    ctx: &Context,
    i: &Instruction,
    st: &mut State,
    fuel: usize,
) -> (res: Result<(), Error>)
    requires
        state_inv(*old(st)),
        *i is DecodeEnum,
    ensures
        state_inv(*final(st)),
        match run_instr(*env, *ctx, *i, old(st)@, fuel as nat) {
            Ok(s2) => res is Ok && final(st)@ == s2,
            Err(e) => res == Err::<(), Error>(e),
        },
    decreases fuel, *i, 0nat,
{
    match i {
        Instruction::DecodeEnum(name, rep, value_reg, t) => {
            let mut src = match take_target_stream(st, t) {
                Ok(s) => s,
                Err(er) => {
                    return Err(er);
                },
            };
            let w = rep.size();
            let bytes = match src.read_exact(w) {
                Ok(b) => b,
                Err(er) => {
                    return Err(er);
                },
            };
            proof {
                lemma_be_value_u128(bytes@);
            }
            let disc = be_u128(&bytes);
            let def_idx = match assoc_find(&env.enums, name.as_str()) {
                Some(ix) => ix,
                None => {
                    return Err(Error::UnresolvedName);
                },
            };
            proof {
                assert(assoc_model(env.enums@)[def_idx as int] == (
                env.enums@[def_idx as int].0@,
                env.enums@[def_idx as int].1,
                ));
            }
            let def = &env.enums[def_idx].1;
            match find_variant(&def.variants, disc) {
                Some(var) => {
                    match put_target_stream(st, t, src) {
                        Ok(_) => {},
                        Err(er) => {
                            return Err(er);
                        },
                    }
                    proof {
                        assert(st@ =~= sset_stream(
                            old(st)@,
                            *t,
                            sread(sget_stream(old(st)@, *t)->Ok_0, rep.spec_size() as int)
                                ->Ok_0.1,
                        ));
                    }
                    set_val(
                        st,
                        *value_reg,
                        Value::EnumVariant(crate::values::clone_string(name), var),
                    )
                },
                None => Err(Error::MalformedDiscriminant),
            }
        }
        _ => {
            proof {
                assert(false);
            }
            Err(Error::InvalidProgram)
        },
    }
}

/// Read one boolean byte or one fixed-width big-endian scalar.
#[verifier::rlimit(100)]
#[verifier::loop_isolation(false)]
fn exec_decode_primitive(
    env: &DecodeEnv,
    ctx: &Context,
    i: &Instruction,
    st: &mut State,
    fuel: usize,
) -> (res: Result<(), Error>)
    requires
        state_inv(*old(st)),
        *i is DecodePrimitive,
    ensures
        state_inv(*final(st)),
        match run_instr(*env, *ctx, *i, old(st)@, fuel as nat) {
            Ok(s2) => res is Ok && final(st)@ == s2,
            Err(e) => res == Err::<(), Error>(e),
        },
    decreases fuel, *i, 0nat,
{
    match i {
        Instruction::DecodePrimitive(t, data, pt) => {
            let mut src = match take_target_stream(st, t) {
                Ok(s) => s,
                Err(er) => {
                    return Err(er);
                },
            };
            let v = match pt {
                PrimitiveType::Bool => {
                    let bytes = match src.read_exact(1) {
                        Ok(b) => b,
                        Err(er) => {
                            return Err(er);
                        },
                    };
                    Value::Bool(bytes[0] != 0)
                },
                PrimitiveType::Scalar(ty) => {
                    let w = ty.size();
                    let bytes = match src.read_exact(w) {
                        Ok(b) => b,
                        Err(er) => {
                            return Err(er);
                        },
                    };
                    proof {
                        lemma_be_value_u128(bytes@);
                    }
                    Value::Scalar(*ty, be_u128(&bytes))
                },
            };
            match put_target_stream(st, t, src) {
                Ok(_) => {},
                Err(er) => {
                    return Err(er);
                },
            }
            proof {
                assert(st@ =~= sset_stream(
                    old(st)@,
                    *t,
                    sdecode_primitive(*pt, sget_stream(old(st)@, *t)->Ok_0)->Ok_0.1,
                ));
            }
            set_val(st, *data, v)
        }
        _ => {
            proof {
                assert(false);
            }
            Err(Error::InvalidProgram)
        },
    }
}

/// A boolean register guards the body; false produces "absent" with no
/// effect from the untaken branch.
#[verifier::rlimit(100)]
#[verifier::loop_isolation(false)]
fn exec_conditional(
    env: &DecodeEnv,
    ctx: &Context,
    i: &Instruction,
    st: &mut State,
    fuel: usize,
) -> (res: Result<(), Error>)
    requires
        state_inv(*old(st)),
        *i is Conditional,
    ensures
        state_inv(*final(st)),
        match run_instr(*env, *ctx, *i, old(st)@, fuel as nat) {
            Ok(s2) => res is Ok && final(st)@ == s2,
            Err(e) => res == Err::<(), Error>(e),
        },
    decreases fuel, *i, 0nat,
{
    match i {
        Instruction::Conditional(target, interior, condition, inner) => {
            let cv = match get_val(st, *condition) {
                Ok(v) => v,
                Err(er) => {
                    return Err(er);
                },
            };
            match cv {
                Value::Bool(b) => {
                    if b {
                        match exec_block(env, ctx, inner, st, fuel) {
                            Ok(_) => {},
                            Err(er) => {
                                return Err(er);
                            },
                        }
                        let iv = match get_val(st, *interior) {
                            Ok(v) => v,
                            Err(er) => {
                                return Err(er);
                            },
                        };
                        set_val(st, *target, Value::Present(Box::new(iv)))
                    } else {
                        set_val(st, *target, Value::Absent)
                    }
                },
                _ => Err(Error::Conversion),
            }
        }
        _ => {
            proof {
                assert(false);
            }
            Err(Error::InvalidProgram)
        },
    }
}

/// Run a loop instruction: fixed-count, terminator-delimited, or to end
/// of stream.
#[verifier::rlimit(100)]
#[verifier::loop_isolation(false)]
fn exec_loop(
    env: &DecodeEnv,
    ctx: &Context,
    i: &Instruction,
    st: &mut State,
    fuel: usize,
) -> (res: Result<(), Error>)
    requires
        state_inv(*old(st)),
        *i is Loop,
    ensures
        state_inv(*final(st)),
        match run_instr(*env, *ctx, *i, old(st)@, fuel as nat) {
            Ok(s2) => res is Ok && final(st)@ == s2,
            Err(e) => res == Err::<(), Error>(e),
        },
    decreases fuel, *i, 0nat,
{
    match i {
        Instruction::Loop(t, stop, term, output, inner) => {
            let empty_list = Value::List(Vec::new());
            proof {
                assert(vval(empty_list) == VVal::List(Seq::<VVal>::empty())) by {
                    assert(vval_seq(Seq::<Value>::empty()) =~= Seq::<VVal>::empty());
                }
            }
            match set_val(st, *output, empty_list) {
                Ok(_) => {},
                Err(er) => {
                    return Err(er);
                },
            }
            let ghost s1 = st@;
            match stop {
                Some(stop_reg) => {
                    let sv = match get_val(st, *stop_reg) {
                        Ok(v) => v,
                        Err(er) => {
                            return Err(er);
                        },
                    };
                    let n = match count_of(&sv) {
                        Ok(n) => n,
                        Err(er) => {
                            return Err(er);
                        },
                    };
                    let mut j: u128 = 0;
                    while j < n
                        invariant
                            state_inv(*st),
                            j <= n,
                            run_fixed(*env, *ctx, inner@, s1, n as nat, fuel as nat) == run_fixed(
                                *env,
                                *ctx,
                                inner@,
                                st@,
                                (n - j) as nat,
                                fuel as nat,
                            ),
                        decreases fuel, *i, 1nat, n - j,
                    {
                        match iterate_body(env, ctx, inner, st, fuel) {
                            Ok(_) => {},
                            Err(er) => {
                                return Err(er);
                            },
                        }
                        j = j + 1;
                    }
                    Ok(())
                },
                None => match term {
                    Some(term_reg) => {
                        let tv = match get_val(st, *term_reg) {
                            Ok(v) => v,
                            Err(er) => {
                                return Err(er);
                            },
                        };
                        let tb = match tv {
                            Value::Bytes(b) => b,
                            _ => {
                                return Err(Error::Conversion);
                            },
                        };
                        loop
                            invariant
                                state_inv(*st),
                                run_instr(*env, *ctx, *i, old(st)@, fuel as nat) == run_term(
                                    *env,
                                    *ctx,
                                    inner@,
                                    *t,
                                    tb@,
                                    st@,
                                    fuel as nat,
                                ),
                            decreases fuel, *i, 1nat, tremaining(st@, *t),
                        {
                            let rem = match remaining_target(st, t) {
                                Ok(r) => r,
                                Err(er) => {
                                    return Err(er);
                                },
                            };
                            if rem == 0 {
                                return Ok(());
                            }
                            let m = match peek_matches_target(st, t, &tb) {
                                Ok(m) => m,
                                Err(_) => {
                                    proof {
                                        assert(false);
                                    }
                                    return Err(Error::InvalidProgram);
                                },
                            };
                            if m {
                                let r = consume_target(st, t, tb.len());
                                return r;
                            }
                            match iterate_body(env, ctx, inner, st, fuel) {
                                Ok(_) => {},
                                Err(er) => {
                                    return Err(er);
                                },
                            }
                            let new_rem = match remaining_target(st, t) {
                                Ok(r2) => r2,
                                Err(er) => {
                                    return Err(er);
                                },
                            };
                            if new_rem >= rem {
                                return Err(Error::NoProgress);
                            }
                        }
                    },
                    None => {
                        loop
                            invariant
                                state_inv(*st),
                                run_instr(*env, *ctx, *i, old(st)@, fuel as nat) == run_to_end(
                                    *env,
                                    *ctx,
                                    inner@,
                                    *t,
                                    st@,
                                    fuel as nat,
                                ),
                            decreases fuel, *i, 1nat, tremaining(st@, *t),
                        {
                            let rem = match remaining_target(st, t) {
                                Ok(r) => r,
                                Err(er) => {
                                    return Err(er);
                                },
                            };
                            if rem == 0 {
                                return Ok(());
                            }
                            match iterate_body(env, ctx, inner, st, fuel) {
                                Ok(_) => {},
                                Err(er) => {
                                    return Err(er);
                                },
                            }
                            let new_rem = match remaining_target(st, t) {
                                Ok(r2) => r2,
                                Err(er) => {
                                    return Err(er);
                                },
                            };
                            if new_rem >= rem {
                                return Err(Error::NoProgress);
                            }
                        }
                    },
                },
            }
        }
        _ => {
            proof {
                assert(false);
            }
            Err(Error::InvalidProgram)
        },
    }
}


/// Delegate to a referenced message type's decode entry point.
#[verifier::rlimit(100)]
#[verifier::loop_isolation(false)]
fn exec_decode_ref(
    env: &DecodeEnv,
    ctx: &Context,
    i: &Instruction,
    st: &mut State,
    fuel: usize,
) -> (res: Result<(), Error>)
    requires
        state_inv(*old(st)),
        *i is DecodeRef,
    ensures
        state_inv(*final(st)),
        match run_instr(*env, *ctx, *i, old(st)@, fuel as nat) {
            Ok(s2) => res is Ok && final(st)@ == s2,
            Err(e) => res == Err::<(), Error>(e),
        },
    decreases fuel, *i, 0nat,
{
    match i {
        Instruction::DecodeRef(t, source, class, args) => {
            let sub_idx = match assoc_find(&env.types, class.as_str()) {
                Some(ix) => ix,
                None => {
                    return Err(Error::UnresolvedName);
                },
            };
            proof {
                assert(assoc_model(env.types@)[sub_idx as int] == (
                env.types@[sub_idx as int].0@,
                env.types@[sub_idx as int].1,
                ));
            }
            let subctx = &env.types[sub_idx].1;
            if fuel == 0 {
                return Err(Error::RecursionLimit);
            }
            if args.len() > subctx.register_count {
                return Err(Error::InvalidProgram);
            }
            let argvals = match read_regs(st, args) {
                Ok(v) => v,
                Err(er) => {
                    return Err(er);
                },
            };
            let src = match take_target_stream(st, t) {
                Ok(s) => s,
                Err(er) => {
                    return Err(er);
                },
            };
            let ghost argvv = vval_seq(argvals@);
            let ghost srcv = src@;
            proof {
                lemma_vval_seq(argvals@);
            }
            let mut sub_vals: Vec<Option<Value>> = Vec::new();
            let mut k: usize = 0;
            while k < subctx.register_count
                invariant
                    k <= subctx.register_count,
                    sub_vals@.len() == k,
                    argvv == vval_seq(argvals@),
                    argvv.len() == argvals@.len(),
                    forall|p: int|
                        0 <= p < k ==> (if p < argvv.len() {
                            (#[trigger] sub_vals@[p]) is Some && vval(sub_vals@[p]->0) == argvv[p]
                        } else {
                            sub_vals@[p] is None
                        }),
                decreases subctx.register_count - k,
            {
                proof {
                    lemma_vval_seq(argvals@);
                }
                if k < argvals.len() {
                    let c = clone_value(&argvals[k]);
                    sub_vals.push(Some(c));
                } else {
                    sub_vals.push(None);
                }
                k = k + 1;
            }
            let mut sub_strs: Vec<Option<ByteStream>> = Vec::new();
            let mut k2: usize = 0;
            while k2 < subctx.register_count
                invariant
                    k2 <= subctx.register_count,
                    sub_strs@.len() == k2,
                    forall|p: int| 0 <= p < k2 ==> sub_strs@[p] is None,
                decreases subctx.register_count - k2,
            {
                sub_strs.push(None);
                k2 = k2 + 1;
            }
            let mut sub = State { vals: sub_vals, strs: sub_strs, root: src };
            proof {
                assert(sub@.vals =~= sinit_sub(env.types@[sub_idx as int].1, argvv, srcv).vals);
                assert(sub@.strs =~= sinit_sub(env.types@[sub_idx as int].1, argvv, srcv).strs);
                assert(sub@ =~= sinit_sub(env.types@[sub_idx as int].1, argvv, srcv));
                assert(state_inv(sub));
            }
            match exec_block(env, subctx, &subctx.instructions, &mut sub, fuel - 1) {
                Ok(_) => {},
                Err(er) => {
                    return Err(er);
                },
            }
            if subctx.register_count == 0 {
                return Err(Error::InvalidProgram);
            }
            let v = match get_val(&sub, subctx.register_count - 1) {
                Ok(v) => v,
                Err(er) => {
                    return Err(er);
                },
            };
            match put_target_stream(st, t, sub.root) {
                Ok(_) => {},
                Err(er) => {
                    return Err(er);
                },
            }
            set_val(st, *source, v)
        }
        _ => {
            proof {
                assert(false);
            }
            Err(Error::InvalidProgram)
        },
    }
}

/// The semantics of one primitive-array decode, as `run_instr` states it.
pub open spec fn sprim_array(
    s: SState,
    t: Target,
    data: int,
    ty: ScalarType,
    len_opt: Option<usize>,
) -> Result<SState, Error> {
    match sget_stream(s, t) {
        Ok(src) => match len_opt {
            Some(len_reg) => match sread_val(s, len_reg as int) {
                Ok(lv) => match sval_count(lv) {
                    Ok(n) => match sread_scalars(src, ty, n as nat) {
                        Ok(p) => swrite_val(sset_stream(s, t, p.1), data, VVal::List(p.0)),
                        Err(e2) => Err(e2),
                    },
                    Err(e2) => Err(e2),
                },
                Err(e2) => Err(e2),
            },
            None => {
                let p = sread_scalars_to_end(src, ty);
                swrite_val(sset_stream(s, t, p.1), data, VVal::List(p.0))
            },
        },
        Err(e2) => Err(e2),
    }
}

/// Decode a block of scalars: exactly the count in the length register, or
/// whole elements to end of stream with the remainder dropped.
#[verifier::rlimit(100)]
#[verifier::loop_isolation(false)]
fn exec_primitive_array(
    env: &DecodeEnv,
    st: &mut State,
    t: &Target,
    data: usize,
    ty: ScalarType,
    len_opt: &Option<usize>,
) -> (res: Result<(), Error>)
    requires
        state_inv(*old(st)),
    ensures
        state_inv(*final(st)),
        match sprim_array(old(st)@, *t, data as int, ty, *len_opt) {
            Ok(s2) => res is Ok && final(st)@ == s2,
            Err(e) => res == Err::<(), Error>(e),
        },
{
    let mut src = match take_target_stream(st, t) {
        Ok(s) => s,
        Err(er) => {
            return Err(er);
        },
    };
    proof {
        assert(st@.vals == old(st)@.vals);
    }
    let ghost src0 = src@;
    let w = ty.size();
    match len_opt {
        Some(len_reg) => {
            let lv = match get_val(st, *len_reg) {
                Ok(v) => v,
                Err(er) => {
                    return Err(er);
                },
            };
            let n = match count_of(&lv) {
                Ok(n) => n,
                Err(er) => {
                    return Err(er);
                },
            };
            let mut acc: Vec<Value> = Vec::new();
            let mut j: u128 = 0;
            proof {
                if sread_scalars(src0, ty, n as nat) is Ok {
                    assert(vval_seq(acc@) + sread_scalars(src0, ty, n as nat)->Ok_0.0
                        =~= sread_scalars(src0, ty, n as nat)->Ok_0.0);
                }
            }
            while j < n
                invariant
                    j <= n,
                    src@.wf(),
                    w == ty.spec_size(),
                    sread_scalars(src0, ty, n as nat) == (match sread_scalars(
                        src@,
                        ty,
                        (n - j) as nat,
                    ) {
                        Ok(q) => Ok::<(Seq<VVal>, SStream), Error>((vval_seq(acc@) + q.0, q.1)),
                        Err(e) => Err(e),
                    }),
                decreases n - j,
            {
                let bytes = match src.read_exact(w) {
                    Ok(b) => b,
                    Err(er) => {
                        return Err(er);
                    },
                };
                proof {
                    lemma_be_value_u128(bytes@);
                }
                let el = Value::Scalar(ty, be_u128(&bytes));
                let ghost acc_pre = acc@;
                let ghost elv = vval(el);
                acc.push(el);
                proof {
                    assert(vval_seq(acc@) =~= vval_seq(acc_pre).push(elv)) by {
                        assert(acc@.drop_last() =~= acc_pre);
                    }
                    if sread_scalars(src@, ty, (n - j - 1) as nat) is Ok {
                        let q0 = sread_scalars(src@, ty, (n - j - 1) as nat)->Ok_0.0;
                        assert(vval_seq(acc_pre) + (seq![elv] + q0) =~= vval_seq(acc@) + q0);
                    }
                }
                j = j + 1;
            }
            proof {
                assert(vval_seq(acc@) + Seq::<VVal>::empty() =~= vval_seq(acc@));
            }
            match put_target_stream(st, t, src) {
                Ok(_) => {},
                Err(er) => {
                    return Err(er);
                },
            }
            proof {
                assert(st@ =~= sset_stream(
                    old(st)@,
                    *t,
                    sread_scalars(src0, ty, n as nat)->Ok_0.1,
                ));
            }
            set_val(st, data, Value::List(acc))
        },
        None => {
            let mut acc: Vec<Value> = Vec::new();
            proof {
                assert(vval_seq(acc@) + sread_scalars_to_end(src0, ty).0 =~= sread_scalars_to_end(
                    src0,
                    ty,
                ).0);
            }
            while src.remaining() >= w
                invariant
                    src@.wf(),
                    w == ty.spec_size(),
                    w >= 1,
                    sread_scalars_to_end(src0, ty) == ({
                        let q = sread_scalars_to_end(src@, ty);
                        (vval_seq(acc@) + q.0, q.1)
                    }),
                decreases src@.remaining(),
            {
                let bytes = match src.read_exact(w) {
                    Ok(b) => b,
                    Err(er) => {
                        proof {
                            assert(false);
                        }
                        return Err(er);
                    },
                };
                proof {
                    lemma_be_value_u128(bytes@);
                }
                let el = Value::Scalar(ty, be_u128(&bytes));
                let ghost acc_pre = acc@;
                let ghost elv = vval(el);
                acc.push(el);
                proof {
                    assert(vval_seq(acc@) =~= vval_seq(acc_pre).push(elv)) by {
                        assert(acc@.drop_last() =~= acc_pre);
                    }
                    let q0 = sread_scalars_to_end(src@, ty).0;
                    assert(vval_seq(acc_pre) + (seq![elv] + q0) =~= vval_seq(acc@) + q0);
                }
            }
            let _rest = src.read_to_end();
            proof {
                assert(vval_seq(acc@) + Seq::<VVal>::empty() =~= vval_seq(acc@));
            }
            match put_target_stream(st, t, src) {
                Ok(_) => {},
                Err(er) => {
                    return Err(er);
                },
            }
            proof {
                assert(st@ =~= sset_stream(old(st)@, *t, sread_scalars_to_end(src0, ty).1));
            }
            set_val(st, data, Value::List(acc))
        },
    }
}

/// A prepared decode routine: the program and the execution discipline its
/// reads are scheduled under.
pub struct Decoder {
    pub context: Context,
    pub is_async: bool,
}

/// Prepare the decode routine of a compiled message type: the routine that
/// runs the instruction program and returns the value of the last register.
pub fn prepare_decoder(coder: Context, is_async: bool) -> (d: Decoder)
    ensures
        d.context == coder,
        d.is_async == is_async,
{
    Decoder { context: coder, is_async }
}

impl Decoder {
    /// Decode one message from the input bytes.  `fuel` bounds the nesting
    /// depth of message-type references, nothing else.  The result is
    /// exactly what [`spec_decode`] defines; it does not depend on the
    /// execution discipline the routine was prepared under.
    pub fn decode(&self, input: Vec<u8>, env: &DecodeEnv, fuel: usize) -> (res: Result<
        Value,
        Error,
    >)
        ensures
            match spec_decode(*env, self.context, input@, self.is_async, fuel as nat) {
                Ok(v) => res is Ok && vval(res->Ok_0) == v,
                Err(e) => res == Err::<Value, Error>(e),
            },
    {
        let rc = self.context.register_count;
        if rc == 0 {
            return Err(Error::InvalidProgram);
        }
        let ghost input_view = input@;
        let mut vals: Vec<Option<Value>> = Vec::new();
        let mut k: usize = 0;
        while k < rc
            invariant
                k <= rc,
                vals@.len() == k,
                forall|p: int| 0 <= p < k ==> vals@[p] is None,
            decreases rc - k,
        {
            vals.push(None);
            k = k + 1;
        }
        let mut strs: Vec<Option<ByteStream>> = Vec::new();
        let mut k2: usize = 0;
        while k2 < rc
            invariant
                k2 <= rc,
                strs@.len() == k2,
                forall|p: int| 0 <= p < k2 ==> strs@[p] is None,
            decreases rc - k2,
        {
            strs.push(None);
            k2 = k2 + 1;
        }
        let mut st = State { vals, strs, root: ByteStream::new(input) };
        proof {
            assert(st@.vals =~= init_state(self.context, input_view).vals);
            assert(st@.strs =~= init_state(self.context, input_view).strs);
            assert(st@ =~= init_state(self.context, input_view));
            assert(state_inv(st));
        }
        match exec_block(env, &self.context, &self.context.instructions, &mut st, fuel) {
            Ok(_) => get_val(&st, rc - 1),
            Err(e) => Err(e),
        }
    }
}

} // verus!
