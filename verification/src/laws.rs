//! Engine-wide guarantees, stated and proved over the semantics.
//!
//! Each law speaks of [`crate::semantics`]'s definitions; since the
//! executable driver is proved to return exactly what those definitions
//! say, every law carries over to `Decoder::decode` verbatim.

use vstd::prelude::*;
use crate::program::{Context, DecodeEnv, Error, Instruction, Target};
use crate::resolver::assoc_model;
use crate::semantics::{
    be_value, run_fixed, run_instr, scope_restore, sdecode_primitive, sget_stream, spec_decode,
    sread_val, svariant, SState,
};
use crate::stream::{sread, SStream};
use crate::values::{PrimitiveType, VVal};

verus! {

/// The byte width one `DecodePrimitive` consumes.
pub open spec fn pwidth(pt: PrimitiveType) -> nat {
    match pt {
        PrimitiveType::Bool => 1,
        PrimitiveType::Scalar(t) => t.spec_size(),
    }
}

/// The canonical counted-loop body: decode one primitive into the item
/// register, then append it to the output container.
pub open spec fn counted_item_body(
    body: Seq<Instruction>,
    t: Target,
    r: usize,
    out: usize,
    pt: PrimitiveType,
) -> bool {
    &&& body.len() == 2
    &&& body[0] == Instruction::DecodePrimitive(t, r, pt)
    &&& body[1] == Instruction::LoopOutput(out, r)
}

/// What a state must look like for the counted loop to run: the output
/// container written and a list, the item register still unwritten, and
/// the target stream present and well-formed.
pub open spec fn counted_loop_setup(s: SState, t: Target, r: usize, out: usize) -> bool {
    &&& out < s.vals.len()
    &&& s.vals[out as int] matches Some(VVal::List(_))
    &&& r < s.vals.len()
    &&& s.vals[r as int] is None
    &&& r != out
    &&& sget_stream(s, t) is Ok
    &&& sget_stream(s, t)->Ok_0.wf()
}

/// A fixed-count loop reads exactly `n` elements and never more: when it
/// succeeds, the output container grew by exactly `n` items and the target
/// stream advanced by exactly `n` element widths — however many further
/// bytes the stream still holds.
pub proof fn lemma_fixed_loop_reads_exactly(
    env: DecodeEnv,
    ctx: Context,
    body: Seq<Instruction>,
    t: Target,
    r: usize,
    out: usize,
    pt: PrimitiveType,
    s: SState,
    n: nat,
    fuel: nat,
)
    requires
        counted_item_body(body, t, r, out, pt),
        counted_loop_setup(s, t, r, out),
        run_fixed(env, ctx, body, s, n, fuel) is Ok,
    ensures
        ({
            let rf = run_fixed(env, ctx, body, s, n, fuel)->Ok_0;
            &&& rf.vals.len() == s.vals.len()
            &&& rf.vals[out as int] matches Some(VVal::List(l2)) && l2.len() == s.vals[out as int]->0->List_0.len() + n
            &&& sget_stream(rf, t) is Ok
            &&& sget_stream(rf, t)->Ok_0.data == sget_stream(s, t)->Ok_0.data
            &&& sget_stream(rf, t)->Ok_0.pos == sget_stream(s, t)->Ok_0.pos + n * pwidth(pt)
        }),
    decreases n,
{
    let src = sget_stream(s, t)->Ok_0;
    if n == 0 {
        assert(run_fixed(env, ctx, body, s, n, fuel) == Ok::<SState, Error>(s));
        assert(n * pwidth(pt) == 0);
    } else {
        let blk = crate::semantics::run_block(env, ctx, body, s, fuel);
        assert(blk is Ok);
        let i1 = run_instr(env, ctx, body[0], s, fuel);
        assert(i1 is Ok);
        let s1 = i1->Ok_0;
        let dp = sdecode_primitive(pt, src);
        assert(dp is Ok);
        let adv = dp->Ok_0.1;
        assert(adv.data == src.data && adv.pos == src.pos + pwidth(pt)) by {
            assert(sread(src, pwidth(pt) as int) is Ok);
        }
        assert(s1 == crate::semantics::swrite_val(
            crate::semantics::sset_stream(s, t, adv),
            r as int,
            dp->Ok_0.0,
        )->Ok_0);
        assert(body.drop_first().len() == 1);
        assert(body.drop_first()[0] == body[1]);
        let i2 = run_instr(env, ctx, body[1], s1, fuel);
        assert(i2 is Ok);
        let s2 = i2->Ok_0;
        assert(body.drop_first().drop_first().len() == 0);
        let blk1 = crate::semantics::run_block(env, ctx, body.drop_first(), s1, fuel);
        let blk2 = crate::semantics::run_block(env, ctx, body.drop_first().drop_first(), s2, fuel);
        assert(blk == blk1);
        assert(blk1 == blk2);
        assert(blk2 == Ok::<SState, Error>(s2));
        assert(blk->Ok_0 == s2);
        let s3 = scope_restore(s, s2);
        assert(run_fixed(env, ctx, body, s, n, fuel) == run_fixed(
            env,
            ctx,
            body,
            s3,
            (n - 1) as nat,
            fuel,
        ));
        // the item register is reset, the container grew by one, the
        // target stream advanced one element width
        let l = s.vals[out as int]->0->List_0;
        assert(s1.vals[out as int] == s.vals[out as int]);
        assert(s2.vals == s1.vals.update(
            out as int,
            Some(VVal::List(l.push(dp->Ok_0.0))),
        ));
        assert(s3.vals.len() == s.vals.len());
        assert(s3.vals[out as int] == Some(VVal::List(l.push(dp->Ok_0.0))));
        assert(s3.vals[r as int] is None);
        assert(sget_stream(s3, t) == Ok::<SStream, Error>(adv)) by {
            match crate::program::spec_emit_target(t) {
                crate::program::StreamHandle::Root => {
                    assert(s3.root == s2.root && s2.root == s1.root);
                },
                crate::program::StreamHandle::Register(x) => {
                    assert(s.strs[x as int] is Some);
                    assert(s1.strs == s.strs.update(x as int, Some(adv)));
                    assert(s2.strs == s1.strs);
                    assert(s3.strs[x as int] == s2.strs[x as int]);
                },
            }
        }
        assert(counted_loop_setup(s3, t, r, out));
        lemma_fixed_loop_reads_exactly(env, ctx, body, t, r, out, pt, s3, (n - 1) as nat, fuel);
        let w = pwidth(pt) as int;
        let m = n as int;
        assert(m * w == (m - 1) * w + w) by (nonlinear_arith);
        assert((n - 1) as nat * pwidth(pt) + pwidth(pt) == n * pwidth(pt));
    }
}

/// Decoding is deterministic: the result is a function of the program, the
/// environment, the input bytes and the recursion budget alone.  In
/// particular the execution discipline — blocking or suspending — selects
/// how reads are scheduled, never what they produce, so two decodes of the
/// same bytes yield equal values.
pub proof fn lemma_decode_deterministic(
    env: DecodeEnv,
    ctx: Context,
    input: Seq<u8>,
    mode1: bool,
    mode2: bool,
    fuel: nat,
)
    ensures
        spec_decode(env, ctx, input, mode1, fuel) == spec_decode(env, ctx, input, mode2, fuel),
{
}

/// Boolean decode reads exactly one byte: a zero byte decodes to false and
/// any nonzero byte to true.
pub proof fn lemma_bool_decode(src: SStream)
    requires
        src.wf(),
        src.remaining() >= 1,
    ensures
        sdecode_primitive(PrimitiveType::Bool, src) is Ok,
        sdecode_primitive(PrimitiveType::Bool, src)->Ok_0.0 == VVal::Bool(
            src.data[src.pos] != 0,
        ),
        sdecode_primitive(PrimitiveType::Bool, src)->Ok_0.1 == (SStream {
            data: src.data,
            pos: src.pos + 1,
        }),
{
    assert(sread(src, 1)->Ok_0.0[0] == src.data[src.pos]);
}

/// The terminator loop never waits for more input.  The buffer is always
/// the complete remainder, so at true end of stream it stops at once, and
/// a buffered tail shorter than the terminator is handled as data by one
/// more body run — never by an indefinite re-buffer and retry.  That every
/// run reaches one of these ends is the termination measure proved on
/// [`crate::semantics::run_term`] itself.
pub proof fn lemma_term_loop_short_tail(
    env: DecodeEnv,
    ctx: Context,
    body: Seq<Instruction>,
    t: Target,
    term: Seq<u8>,
    s: SState,
    fuel: nat,
)
    requires
        sget_stream(s, t) is Ok,
        sget_stream(s, t)->Ok_0.remaining() < term.len(),
    ensures
        sget_stream(s, t)->Ok_0.remaining() <= 0 ==> crate::semantics::run_term(
            env,
            ctx,
            body,
            t,
            term,
            s,
            fuel,
        ) == Ok::<SState, Error>(s),
        sget_stream(s, t)->Ok_0.remaining() > 0 ==> crate::semantics::run_term(
            env,
            ctx,
            body,
            t,
            term,
            s,
            fuel,
        ) == (match crate::semantics::run_block(env, ctx, body, s, fuel) {
            Ok(s2) => if 0 <= crate::semantics::tremaining(scope_restore(s, s2), t)
                < sget_stream(s, t)->Ok_0.remaining() {
                crate::semantics::run_term(env, ctx, body, t, term, scope_restore(s, s2), fuel)
            } else {
                Err(Error::NoProgress)
            },
            Err(e) => Err(e),
        }),
{
}

/// An enumeration decode whose discriminant no variant is mapped to fails
/// with the malformed-discriminant error, whatever else the state holds.
pub proof fn lemma_enum_unmapped(
    env: DecodeEnv,
    ctx: Context,
    i: Instruction,
    s: SState,
    fuel: nat,
)
    requires
        ({
            &&& i matches Instruction::DecodeEnum(name, rep, value_reg, t)
            &&& sget_stream(s, t) is Ok
            &&& sread(sget_stream(s, t)->Ok_0, rep.spec_size() as int) is Ok
            &&& crate::program::spec_assoc(assoc_model(env.enums@), name@) is Some
            &&& svariant(
                crate::program::spec_assoc(assoc_model(env.enums@), name@)->0.variants@,
                be_value(
                    sread(sget_stream(s, t)->Ok_0, rep.spec_size() as int)->Ok_0.0,
                ) as u128,
            ) is None
        }),
    ensures
        run_instr(env, ctx, i, s, fuel) == Err::<SState, Error>(Error::MalformedDiscriminant),
{
}

/// A conditional field whose condition register holds false produces
/// "absent" and consumes nothing: the root stream and every stream
/// register are exactly as before, and only the result register changes.
pub proof fn lemma_conditional_absent(
    env: DecodeEnv,
    ctx: Context,
    i: Instruction,
    s: SState,
    fuel: nat,
)
    requires
        ({
            &&& i matches Instruction::Conditional(target, interior, condition, inner)
            &&& sread_val(s, condition as int) == Ok::<VVal, Error>(VVal::Bool(false))
            &&& 0 <= target < s.vals.len()
            &&& s.vals[target as int] is None
        }),
    ensures
        run_instr(env, ctx, i, s, fuel) is Ok,
        run_instr(env, ctx, i, s, fuel)->Ok_0.root == s.root,
        run_instr(env, ctx, i, s, fuel)->Ok_0.strs == s.strs,
        exists|r: int|
            0 <= r < s.vals.len() && run_instr(env, ctx, i, s, fuel)->Ok_0.vals == s.vals.update(
                r,
                Some(VVal::Absent),
            ),
{
    match i {
        Instruction::Conditional(target, _interior, _condition, _inner) => {
            let r2 = run_instr(env, ctx, i, s, fuel);
            assert(r2->Ok_0.vals == s.vals.update(target as int, Some(VVal::Absent)));
        },
        _ => {},
    }
}

} // verus!
