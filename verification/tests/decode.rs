use protospec::decoder::prepare_decoder;
use protospec::program::{
    Constructable, Context, DecodeEnv, EnumDef, Error, Expression, Instruction, Target,
};
use protospec::resolver::{
    ForeignFunctionObj, ForeignTransformObj, ForeignTypeObj, PreludeImportResolver, UserResolver,
};
use protospec::values::{PrimitiveType, ScalarType, Value};

fn empty_env() -> DecodeEnv {
    DecodeEnv { types: Vec::new(), enums: Vec::new() }
}

fn one_instr_ctx(i: Instruction, register_count: usize) -> Context {
    Context { field_register_map: Vec::new(), instructions: vec![i], register_count }
}

#[test]
fn bool_decode_zero_is_false() {
    let ctx = one_instr_ctx(
        Instruction::DecodePrimitive(Target::Direct, 0, PrimitiveType::Bool),
        1,
    );
    let d = prepare_decoder(ctx, false);
    let r = d.decode(vec![0x00], &empty_env(), 8).unwrap();
    assert!(matches!(r, Value::Bool(false)));
}

#[test]
fn bool_decode_nonzero_is_true() {
    let ctx = one_instr_ctx(
        Instruction::DecodePrimitive(Target::Direct, 0, PrimitiveType::Bool),
        1,
    );
    let d = prepare_decoder(ctx, false);
    let r = d.decode(vec![0x01], &empty_env(), 8).unwrap();
    assert!(matches!(r, Value::Bool(true)));
    let ctx2 = one_instr_ctx(
        Instruction::DecodePrimitive(Target::Direct, 0, PrimitiveType::Bool),
        1,
    );
    let d2 = prepare_decoder(ctx2, false);
    let r2 = d2.decode(vec![0xFF], &empty_env(), 8).unwrap();
    assert!(matches!(r2, Value::Bool(true)));
}

#[test]
fn scalar_decode_is_big_endian() {
    let ctx = one_instr_ctx(
        Instruction::DecodePrimitive(
            Target::Direct,
            0,
            PrimitiveType::Scalar(ScalarType::U16),
        ),
        1,
    );
    let d = prepare_decoder(ctx, false);
    let r = d.decode(vec![0x01, 0x02], &empty_env(), 8).unwrap();
    assert!(matches!(r, Value::Scalar(ScalarType::U16, 258)));
}

#[test]
fn scalar_decode_short_stream_is_eof() {
    let ctx = one_instr_ctx(
        Instruction::DecodePrimitive(
            Target::Direct,
            0,
            PrimitiveType::Scalar(ScalarType::U32),
        ),
        1,
    );
    let d = prepare_decoder(ctx, false);
    let r = d.decode(vec![0x01, 0x02], &empty_env(), 8);
    assert!(matches!(r, Err(Error::Eof)));
}

#[test]
fn decode_is_deterministic_across_modes() {
    let mk = || {
        one_instr_ctx(
            Instruction::DecodePrimitive(
                Target::Direct,
                0,
                PrimitiveType::Scalar(ScalarType::U16),
            ),
            1,
        )
    };
    let sync_dec = prepare_decoder(mk(), false);
    let async_dec = prepare_decoder(mk(), true);
    let r1 = sync_dec.decode(vec![0xAB, 0xCD], &empty_env(), 8).unwrap();
    let r2 = async_dec.decode(vec![0xAB, 0xCD], &empty_env(), 8).unwrap();
    assert!(matches!(r1, Value::Scalar(ScalarType::U16, 0xABCD)));
    assert!(matches!(r2, Value::Scalar(ScalarType::U16, 0xABCD)));
}

fn color_env() -> DecodeEnv {
    DecodeEnv {
        types: Vec::new(),
        enums: vec![(
            "color".to_string(),
            EnumDef {
                rep: ScalarType::U8,
                variants: vec![(0, "red".to_string()), (1, "green".to_string())],
            },
        )],
    }
}

#[test]
fn enum_decode_maps_discriminant() {
    let ctx = one_instr_ctx(
        Instruction::DecodeEnum("color".to_string(), ScalarType::U8, 0, Target::Direct),
        1,
    );
    let d = prepare_decoder(ctx, false);
    let r = d.decode(vec![0x01], &color_env(), 8).unwrap();
    match r {
        Value::EnumVariant(name, variant) => {
            assert_eq!(name, "color");
            assert_eq!(variant, "green");
        }
        other => panic!("expected enum variant, got {:?}", other),
    }
}

#[test]
fn enum_decode_unmapped_discriminant_fails() {
    let ctx = one_instr_ctx(
        Instruction::DecodeEnum("color".to_string(), ScalarType::U8, 0, Target::Direct),
        1,
    );
    let d = prepare_decoder(ctx, false);
    let r = d.decode(vec![0x02], &color_env(), 8);
    assert!(matches!(r, Err(Error::MalformedDiscriminant)));
}

#[test]
fn conditional_false_is_absent_and_consumes_nothing() {
    let ctx = Context {
        field_register_map: Vec::new(),
        instructions: vec![
            Instruction::Eval(0, Expression::Literal(Value::Bool(false))),
            Instruction::Conditional(
                2,
                1,
                0,
                vec![Instruction::DecodePrimitive(Target::Direct, 1, PrimitiveType::Bool)],
            ),
        ],
        register_count: 3,
    };
    let d = prepare_decoder(ctx, false);
    // The body would consume the byte; with a false condition it must not.
    let r = d.decode(vec![0xAB], &empty_env(), 8).unwrap();
    assert!(matches!(r, Value::Absent));
}

#[test]
fn conditional_true_wraps_interior() {
    let ctx = Context {
        field_register_map: Vec::new(),
        instructions: vec![
            Instruction::Eval(0, Expression::Literal(Value::Bool(true))),
            Instruction::Conditional(
                2,
                1,
                0,
                vec![Instruction::DecodePrimitive(Target::Direct, 1, PrimitiveType::Bool)],
            ),
        ],
        register_count: 3,
    };
    let d = prepare_decoder(ctx, false);
    let r = d.decode(vec![0x01], &empty_env(), 8).unwrap();
    match r {
        Value::Present(inner) => assert!(matches!(*inner, Value::Bool(true))),
        other => panic!("expected present value, got {:?}", other),
    }
}

#[test]
fn fixed_loop_reads_exactly_stop_elements() {
    let ctx = Context {
        field_register_map: Vec::new(),
        instructions: vec![
            Instruction::Eval(0, Expression::Literal(Value::Scalar(ScalarType::U8, 2))),
            Instruction::Loop(
                Target::Direct,
                Some(0),
                None,
                2,
                vec![
                    Instruction::DecodePrimitive(
                        Target::Direct,
                        1,
                        PrimitiveType::Scalar(ScalarType::U8),
                    ),
                    Instruction::LoopOutput(2, 1),
                ],
            ),
        ],
        register_count: 3,
    };
    let d = prepare_decoder(ctx, false);
    // Three bytes available, but the loop must read exactly two.
    let r = d.decode(vec![1, 2, 3], &empty_env(), 8).unwrap();
    match r {
        Value::List(items) => {
            assert_eq!(items.len(), 2);
            assert!(matches!(items[0], Value::Scalar(ScalarType::U8, 1)));
            assert!(matches!(items[1], Value::Scalar(ScalarType::U8, 2)));
        }
        other => panic!("expected list, got {:?}", other),
    }
}

fn terminator_ctx(term: Vec<u8>) -> Context {
    Context {
        field_register_map: Vec::new(),
        instructions: vec![
            Instruction::Eval(0, Expression::Literal(Value::Bytes(term))),
            Instruction::Loop(
                Target::Direct,
                None,
                Some(0),
                2,
                vec![
                    Instruction::DecodePrimitive(
                        Target::Direct,
                        1,
                        PrimitiveType::Scalar(ScalarType::U8),
                    ),
                    Instruction::LoopOutput(2, 1),
                ],
            ),
        ],
        register_count: 3,
    }
}

#[test]
fn terminator_loop_stops_at_terminator() {
    let d = prepare_decoder(terminator_ctx(vec![0xAA, 0xBB]), false);
    let r = d.decode(vec![0x07, 0xAA, 0xBB], &empty_env(), 8).unwrap();
    match r {
        Value::List(items) => {
            assert_eq!(items.len(), 1);
            assert!(matches!(items[0], Value::Scalar(ScalarType::U8, 7)));
        }
        other => panic!("expected list, got {:?}", other),
    }
}

#[test]
fn terminator_loop_short_tail_terminates() {
    // Adversarial stream: the final chunk is shorter than the terminator,
    // so the loop must still reach end of stream and stop.
    let d = prepare_decoder(terminator_ctx(vec![0xAA, 0xBB]), false);
    let r = d.decode(vec![0x05, 0xCC], &empty_env(), 8).unwrap();
    match r {
        Value::List(items) => {
            assert_eq!(items.len(), 2);
            assert!(matches!(items[0], Value::Scalar(ScalarType::U8, 5)));
            assert!(matches!(items[1], Value::Scalar(ScalarType::U8, 0xCC)));
        }
        other => panic!("expected list, got {:?}", other),
    }
}

#[test]
fn stalled_loop_iteration_fails_instead_of_spinning() {
    let ctx = Context {
        field_register_map: Vec::new(),
        instructions: vec![
            Instruction::Eval(0, Expression::Literal(Value::Bytes(vec![0xAA]))),
            Instruction::Loop(
                Target::Direct,
                None,
                Some(0),
                2,
                vec![Instruction::Eval(1, Expression::Literal(Value::Bool(true)))],
            ),
        ],
        register_count: 3,
    };
    let d = prepare_decoder(ctx, false);
    let r = d.decode(vec![0x01], &empty_env(), 8);
    assert!(matches!(r, Err(Error::NoProgress)));
}

#[test]
fn unbounded_loop_reads_to_end() {
    let ctx = Context {
        field_register_map: Vec::new(),
        instructions: vec![Instruction::Loop(
            Target::Direct,
            None,
            None,
            1,
            vec![
                Instruction::DecodePrimitive(
                    Target::Direct,
                    0,
                    PrimitiveType::Scalar(ScalarType::U8),
                ),
                Instruction::LoopOutput(1, 0),
            ],
        )],
        register_count: 2,
    };
    let d = prepare_decoder(ctx, false);
    let r = d.decode(vec![9, 8, 7], &empty_env(), 8).unwrap();
    match r {
        Value::List(items) => {
            assert_eq!(items.len(), 3);
            assert!(matches!(items[2], Value::Scalar(ScalarType::U8, 7)));
        }
        other => panic!("expected list, got {:?}", other),
    }
}

#[test]
fn fixed_array_reads_count_elements() {
    let ctx = Context {
        field_register_map: Vec::new(),
        instructions: vec![
            Instruction::Eval(0, Expression::Literal(Value::Scalar(ScalarType::U8, 2))),
            Instruction::DecodePrimitiveArray(Target::Direct, 1, ScalarType::U16, Some(0)),
        ],
        register_count: 2,
    };
    let d = prepare_decoder(ctx, false);
    let r = d.decode(vec![0x00, 0x01, 0x00, 0x02], &empty_env(), 8).unwrap();
    match r {
        Value::List(items) => {
            assert_eq!(items.len(), 2);
            assert!(matches!(items[0], Value::Scalar(ScalarType::U16, 1)));
            assert!(matches!(items[1], Value::Scalar(ScalarType::U16, 2)));
        }
        other => panic!("expected list, got {:?}", other),
    }
}

#[test]
fn unbounded_array_drops_trailing_remainder() {
    let ctx = one_instr_ctx(
        Instruction::DecodePrimitiveArray(Target::Direct, 0, ScalarType::U16, None),
        1,
    );
    let d = prepare_decoder(ctx, false);
    let r = d.decode(vec![0x00, 0x01, 0x00, 0x02, 0x09], &empty_env(), 8).unwrap();
    match r {
        Value::List(items) => assert_eq!(items.len(), 2),
        other => panic!("expected list, got {:?}", other),
    }
}

#[test]
fn constrict_bounds_the_nested_read() {
    let ctx = Context {
        field_register_map: Vec::new(),
        instructions: vec![
            Instruction::Eval(0, Expression::Literal(Value::Scalar(ScalarType::U8, 2))),
            Instruction::Constrict(Target::Direct, 1, 0),
            Instruction::DecodePrimitive(
                Target::Stream(1),
                2,
                PrimitiveType::Scalar(ScalarType::U16),
            ),
        ],
        register_count: 3,
    };
    let d = prepare_decoder(ctx, false);
    let r = d.decode(vec![0xAB, 0xCD, 0xEE], &empty_env(), 8).unwrap();
    assert!(matches!(r, Value::Scalar(ScalarType::U16, 0xABCD)));
}

#[test]
fn constricted_view_hits_its_own_end() {
    let ctx = Context {
        field_register_map: Vec::new(),
        instructions: vec![
            Instruction::Eval(0, Expression::Literal(Value::Scalar(ScalarType::U8, 1))),
            Instruction::Constrict(Target::Direct, 1, 0),
            Instruction::DecodePrimitive(
                Target::Stream(1),
                2,
                PrimitiveType::Scalar(ScalarType::U16),
            ),
        ],
        register_count: 3,
    };
    let d = prepare_decoder(ctx, false);
    // The underlying stream has two bytes, but the bounded view has one.
    let r = d.decode(vec![0xAB, 0xCD], &empty_env(), 8);
    assert!(matches!(r, Err(Error::Eof)));
}

#[test]
fn eval_field_reference_reads_the_mapped_register() {
    let ctx = Context {
        field_register_map: vec![("x".to_string(), 0)],
        instructions: vec![
            Instruction::Eval(0, Expression::Literal(Value::Scalar(ScalarType::U8, 5))),
            Instruction::Eval(1, Expression::FieldRef("x".to_string())),
        ],
        register_count: 2,
    };
    let d = prepare_decoder(ctx, false);
    let r = d.decode(Vec::new(), &empty_env(), 8).unwrap();
    assert!(matches!(r, Value::Scalar(ScalarType::U8, 5)));
}

#[test]
fn construct_assembles_a_record() {
    let ctx = Context {
        field_register_map: Vec::new(),
        instructions: vec![
            Instruction::DecodePrimitive(Target::Direct, 0, PrimitiveType::Bool),
            Instruction::DecodePrimitive(
                Target::Direct,
                1,
                PrimitiveType::Scalar(ScalarType::U8),
            ),
            Instruction::Construct(
                2,
                Constructable::Struct {
                    name: "Pair".to_string(),
                    items: vec![("flag".to_string(), 0), ("count".to_string(), 1)],
                },
            ),
        ],
        register_count: 3,
    };
    let d = prepare_decoder(ctx, false);
    let r = d.decode(vec![0x01, 0x2A], &empty_env(), 8).unwrap();
    match r {
        Value::Record(name, fields) => {
            assert_eq!(name, "Pair");
            assert_eq!(fields.len(), 2);
            assert_eq!(fields[0].0, "flag");
            assert!(matches!(fields[0].1, Value::Bool(true)));
            assert_eq!(fields[1].0, "count");
            assert!(matches!(fields[1].1, Value::Scalar(ScalarType::U8, 42)));
        }
        other => panic!("expected record, got {:?}", other),
    }
}

#[test]
fn decode_ref_runs_the_named_type() {
    let inner = Context {
        field_register_map: Vec::new(),
        instructions: vec![Instruction::DecodePrimitive(
            Target::Direct,
            0,
            PrimitiveType::Bool,
        )],
        register_count: 1,
    };
    let env = DecodeEnv { types: vec![("Inner".to_string(), inner)], enums: Vec::new() };
    let ctx = one_instr_ctx(
        Instruction::DecodeRef(Target::Direct, 0, "Inner".to_string(), Vec::new()),
        1,
    );
    let d = prepare_decoder(ctx, false);
    let r = d.decode(vec![0x01], &env, 8).unwrap();
    assert!(matches!(r, Value::Bool(true)));
}

#[test]
fn decode_ref_unknown_type_is_unresolved() {
    let ctx = one_instr_ctx(
        Instruction::DecodeRef(Target::Direct, 0, "Missing".to_string(), Vec::new()),
        1,
    );
    let d = prepare_decoder(ctx, false);
    let r = d.decode(vec![0x01], &empty_env(), 8);
    assert!(matches!(r, Err(Error::UnresolvedName)));
}

#[test]
fn self_referencing_type_exhausts_the_recursion_budget() {
    let rec = Context {
        field_register_map: Vec::new(),
        instructions: vec![Instruction::DecodeRef(
            Target::Direct,
            0,
            "R".to_string(),
            Vec::new(),
        )],
        register_count: 1,
    };
    let ctx = one_instr_ctx(
        Instruction::DecodeRef(Target::Direct, 0, "R".to_string(), Vec::new()),
        1,
    );
    let env = DecodeEnv { types: vec![("R".to_string(), rec)], enums: Vec::new() };
    let d = prepare_decoder(ctx, false);
    let r = d.decode(Vec::new(), &env, 3);
    assert!(matches!(r, Err(Error::RecursionLimit)));
}

#[test]
fn conditional_wrap_false_passes_the_stream_through() {
    let ctx = Context {
        field_register_map: Vec::new(),
        instructions: vec![
            Instruction::Eval(0, Expression::Literal(Value::Bool(false))),
            Instruction::ConditionalWrapStream(
                0,
                Vec::new(),
                Target::Direct,
                1,
                ForeignTransformObj::GzipTransform,
                Vec::new(),
            ),
            Instruction::DecodePrimitive(Target::Stream(1), 2, PrimitiveType::Bool),
        ],
        register_count: 3,
    };
    let d = prepare_decoder(ctx, false);
    let r = d.decode(vec![0x01], &empty_env(), 8).unwrap();
    assert!(matches!(r, Value::Bool(true)));
}

#[test]
fn wrap_stream_needs_the_foreign_codec() {
    let ctx = one_instr_ctx(
        Instruction::WrapStream(
            Target::Direct,
            0,
            ForeignTransformObj::GzipTransform,
            Vec::new(),
        ),
        1,
    );
    let d = prepare_decoder(ctx, false);
    let r = d.decode(vec![0x01], &empty_env(), 8);
    assert!(matches!(r, Err(Error::ForeignUnsupported)));
}

#[test]
fn loop_count_of_wrong_shape_is_a_conversion_failure() {
    let ctx = Context {
        field_register_map: Vec::new(),
        instructions: vec![
            Instruction::Eval(0, Expression::Literal(Value::Bool(true))),
            Instruction::Loop(Target::Direct, Some(0), None, 1, Vec::new()),
        ],
        register_count: 2,
    };
    let d = prepare_decoder(ctx, false);
    let r = d.decode(Vec::new(), &empty_env(), 8);
    assert!(matches!(r, Err(Error::Conversion)));
}

#[test]
fn empty_register_file_is_an_invalid_program() {
    let ctx = Context {
        field_register_map: Vec::new(),
        instructions: Vec::new(),
        register_count: 0,
    };
    let d = prepare_decoder(ctx, false);
    let r = d.decode(Vec::new(), &empty_env(), 8);
    assert!(matches!(r, Err(Error::InvalidProgram)));
}

#[test]
fn gzip_resolves_to_the_builtin_over_a_parent_entry() {
    let mut parent = UserResolver::new();
    parent
        .transforms
        .push(("gzip".to_string(), ForeignTransformObj::Custom(7)));
    let resolver = PreludeImportResolver(parent);
    let r = resolver.resolve_ffi_transform("gzip");
    assert!(matches!(r, Ok(Some(ForeignTransformObj::GzipTransform))));
}

#[test]
fn unknown_transform_with_no_parent_match_is_not_found() {
    let resolver = PreludeImportResolver(UserResolver::new());
    let r = resolver.resolve_ffi_transform("zstd");
    assert!(matches!(r, Ok(None)));
}

#[test]
fn user_transform_is_found_through_delegation() {
    let mut parent = UserResolver::new();
    parent
        .transforms
        .push(("rot13".to_string(), ForeignTransformObj::Custom(13)));
    let resolver = PreludeImportResolver(parent);
    let r = resolver.resolve_ffi_transform("rot13");
    assert!(matches!(r, Ok(Some(ForeignTransformObj::Custom(13)))));
}

#[test]
fn builtin_types_and_functions_resolve() {
    let resolver = PreludeImportResolver(UserResolver::new());
    assert!(matches!(
        resolver.resolve_ffi_type("v32"),
        Ok(Some(ForeignTypeObj::VarInt(ScalarType::I32)))
    ));
    assert!(matches!(
        resolver.resolve_ffi_type("utf8"),
        Ok(Some(ForeignTypeObj::Utf8))
    ));
    assert!(matches!(
        resolver.resolve_ffi_function("len"),
        Ok(Some(ForeignFunctionObj::LenFunction))
    ));
    assert!(matches!(resolver.resolve_ffi_function("crc"), Ok(None)));
}
