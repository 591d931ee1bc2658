use blockwork_core::blocks::{default_block_color, BlockDef, BlockPiece, BlockShape, InputValueType};
use blockwork_core::load::{migrate_wait_duration, SavedMacro};
use blockwork_core::macros::{Comment, FloatingValue, Macro, MacroSettings, Strand, VariableDef};
use blockwork_core::program::{Evaluated, InputToken, Instruction, InstructionKind, Op, Value};

fn num(x: f64) -> Value {
    Value::number(x.to_bits())
}

fn strand(id: &str, x: i32, y: i32, instructions: Vec<Instruction>) -> Strand {
    Strand { id: id.to_string(), x, y, instructions }
}

fn saved(strands: Vec<Strand>, block_defs: Vec<BlockDef>) -> SavedMacro {
    SavedMacro::Current {
        id: "m1".to_string(),
        name: "Old".to_string(),
        description: String::new(),
        strands,
        recording_target: None,
        speed_multiplier_bits: 1.0f64.to_bits(),
        floating_values: vec![],
        comments: vec![],
        variables: vec![],
        lists: vec![],
        block_defs,
        settings: MacroSettings { always_listen: false },
    }
}

fn load(s: SavedMacro) -> Macro {
    assert!(s.legacy_comments_fit());
    Macro::from_saved(s)
}

fn block_def(id: &str, pieces: Vec<BlockPiece>, color: &str) -> BlockDef {
    BlockDef { id: id.to_string(), pieces, shape: BlockShape::Normal, color: color.to_string() }
}

#[test]
fn block_def_migrates_legacy_returns_value_true_to_returns_value_shape() {
    assert_eq!(BlockShape::from_legacy_flag(true), BlockShape::ReturnsValue);
}

#[test]
fn block_def_migrates_legacy_returns_value_false_to_normal_shape() {
    assert_eq!(BlockShape::from_legacy_flag(false), BlockShape::Normal);
}

#[test]
fn block_def_reads_current_shape_field() {
    assert_eq!(BlockShape::from_name("ReturnsBool"), Some(BlockShape::ReturnsBool));
}

#[test]
fn block_def_color_is_normalized_when_loading_a_macro() {
    let mac = load(saved(vec![], vec![block_def("b1", vec![], "#beef00")]));
    assert_eq!(mac.block_defs[0].color, "#BEEF00");
}

#[test]
fn block_def_color_falls_back_when_loading_an_invalid_color() {
    let mac = load(saved(vec![], vec![block_def("b1", vec![], "not a color")]));
    assert_eq!(mac.block_defs[0].color, default_block_color());
}

#[test]
fn new_macro_defaults_to_one_when_ran_strand() {
    let mac = Macro::new("Test".into(), "".into(), vec![]);
    assert_eq!(mac.strands.len(), 1);
    assert!(mac.strands[0].starts_with_when_ran());
}

#[test]
fn legacy_flat_code_migrates_to_when_ran_strand() {
    let s = SavedMacro::Legacy {
        id: "m0".to_string(),
        name: "Old".to_string(),
        description: String::new(),
        code: vec![Instruction::new(InstructionKind::Comment("hi".to_string()))],
    };
    let mac = load(s);
    assert_eq!(mac.strands.len(), 1);
    assert_eq!(mac.strands[0].instructions, vec![Instruction::new(InstructionKind::WhenRan)]);
    assert_eq!(mac.comments.len(), 1);
    assert_eq!(mac.comments[0].text, "hi");
    assert_eq!(mac.comments[0].attached_to, None);
}

#[test]
fn legacy_root_strand_gains_when_ran_on_load() {
    let mac = load(saved(
        vec![
            strand("root", 0, 0, vec![Instruction::new(InstructionKind::Comment("hi".to_string()))]),
            strand("stray", 10, 10, vec![]),
        ],
        vec![],
    ));
    let root = mac.strand("root").unwrap();
    assert!(root.starts_with_when_ran());
    assert_eq!(root.instructions, vec![Instruction::new(InstructionKind::WhenRan)]);
    assert_eq!(mac.comments.len(), 1);
    assert_eq!(mac.comments[0].text, "hi");
    assert!(mac.strand("stray").unwrap().instructions.is_empty());
}

#[test]
fn already_migrated_root_strand_is_not_double_prepended() {
    let mac = load(saved(
        vec![strand(
            "root",
            0,
            0,
            vec![
                Instruction::new(InstructionKind::WhenRan),
                Instruction::new(InstructionKind::Comment("hi".to_string())),
            ],
        )],
        vec![],
    ));
    assert_eq!(mac.strand("root").unwrap().instructions, vec![Instruction::new(InstructionKind::WhenRan)]);
    assert_eq!(mac.comments.len(), 1);
    assert_eq!(mac.comments[0].text, "hi");
}

#[test]
fn migrate_legacy_comments_reaches_into_nested_if_body() {
    let mac = load(saved(
        vec![strand(
            "root",
            0,
            0,
            vec![
                Instruction::new(InstructionKind::WhenRan),
                Instruction::new(InstructionKind::If {
                    condition: Value::Bool,
                    body: vec![Instruction::new(InstructionKind::Comment("nested".to_string()))],
                }),
            ],
        )],
        vec![],
    ));
    let root = mac.strand("root").unwrap();
    match &root.instructions[1].kind {
        InstructionKind::If { body, .. } => assert!(
            body.is_empty(),
            "nested Comment should be extracted, not left in the If body"
        ),
        other => panic!("expected If, got {other:?}"),
    }
    assert_eq!(mac.comments.len(), 1);
    assert_eq!(mac.comments[0].text, "nested");
    assert_eq!(mac.comments[0].attached_to, None);
}

#[test]
fn prune_orphaned_comments_drops_comment_attached_to_removed_instruction() {
    let wait = Instruction::new(InstructionKind::Wait(num(1000.0)));
    let wait_id = wait.id.clone();
    let mut mac = Macro::new("Test".into(), "".into(), vec![wait]);
    mac.comments.push(Comment {
        id: "c1".into(),
        x: 0,
        y: 0,
        text: "hi".into(),
        collapsed: false,
        attached_to: Some(wait_id),
    });
    mac.comments.push(Comment {
        id: "c2".into(),
        x: 0,
        y: 0,
        text: "freestanding".into(),
        collapsed: false,
        attached_to: None,
    });
    mac.strands[0].instructions.remove(1);
    mac.prune_orphaned_comments();
    assert_eq!(mac.comments.len(), 1);
    assert_eq!(mac.comments[0].id, "c2");
}

#[test]
fn prune_orphaned_comments_cascades_into_nested_wrap_body() {
    let inner = Instruction::new(InstructionKind::Wait(num(1.0)));
    let inner_id = inner.id.clone();
    let if_ins = Instruction::new(InstructionKind::If { condition: Value::Bool, body: vec![inner] });
    let mut mac = Macro::new("Test".into(), "".into(), vec![if_ins]);
    mac.comments.push(Comment {
        id: "c1".into(),
        x: 0,
        y: 0,
        text: "nested".into(),
        collapsed: false,
        attached_to: Some(inner_id),
    });
    mac.strands[0].instructions.remove(1);
    mac.prune_orphaned_comments();
    assert!(mac.comments.is_empty());
}

#[test]
fn prune_orphaned_comments_keeps_comment_attached_to_surviving_instruction() {
    let wait = Instruction::new(InstructionKind::Wait(num(1000.0)));
    let wait_id = wait.id.clone();
    let mut mac = Macro::new("Test".into(), "".into(), vec![wait]);
    mac.comments.push(Comment {
        id: "c1".into(),
        x: 0,
        y: 0,
        text: "hi".into(),
        collapsed: false,
        attached_to: Some(wait_id),
    });
    mac.prune_orphaned_comments();
    assert_eq!(mac.comments.len(), 1);
}

#[test]
fn migrate_bool_slots_repairs_poisoned_if_condition_on_load() {
    let mac = load(saved(
        vec![strand(
            "root",
            0,
            0,
            vec![
                Instruction::new(InstructionKind::WhenRan),
                Instruction::new(InstructionKind::If { condition: num(0.0), body: vec![] }),
            ],
        )],
        vec![],
    ));
    match &mac.strand("root").unwrap().instructions[1].kind {
        InstructionKind::If { condition, .. } => assert_eq!(condition, &Value::Bool),
        other => panic!("expected If, got {other:?}"),
    }
}

#[test]
fn migrate_bool_slots_repairs_poisoned_operand_nested_inside_condition() {
    let condition = Value::Op {
        op: Op::And,
        args: vec![
            num(0.0),
            Value::Op { op: Op::Eq, args: vec![num(1.0), num(1.0)], saved: Box::new(num(0.0)) },
        ],
        saved: Box::new(num(0.0)),
    };
    let mac = load(saved(
        vec![strand(
            "root",
            0,
            0,
            vec![
                Instruction::new(InstructionKind::WhenRan),
                Instruction::new(InstructionKind::If { condition, body: vec![] }),
            ],
        )],
        vec![],
    ));
    match &mac.strand("root").unwrap().instructions[1].kind {
        InstructionKind::If { condition: Value::Op { op: Op::And, args, .. }, .. } => {
            assert_eq!(args[0], Value::Bool);
            assert_eq!(
                args[1],
                Value::Op { op: Op::Eq, args: vec![num(1.0), num(1.0)], saved: Box::new(Value::Bool) }
            );
        },
        other => panic!("expected If(And(..)), got {other:?}"),
    }
}

#[test]
fn migrate_bool_slots_repairs_custom_block_boolean_arguments() {
    let call = Instruction::new(InstructionKind::CallBlock {
        block_id: "b1".to_string(),
        args: vec![num(0.0)],
        branches: vec![],
    });
    let def = BlockDef {
        id: "b1".to_string(),
        pieces: vec![BlockPiece::Input {
            id: "i1".to_string(),
            name: "flag".to_string(),
            value_type: InputValueType::Bool,
        }],
        shape: BlockShape::Normal,
        color: default_block_color(),
    };
    let mac = load(saved(vec![strand("root", 0, 0, vec![call])], vec![def]));
    let args = mac.strands[0]
        .instructions
        .iter()
        .find_map(|instruction| match &instruction.kind {
            InstructionKind::CallBlock { args, .. } => Some(args),
            _ => None,
        })
        .expect("expected CallBlock");
    assert_eq!(args, &vec![Value::Bool]);
}

#[test]
fn migrate_bool_slots_leaves_legitimately_numeric_fields_alone() {
    let mac = load(saved(
        vec![strand(
            "root",
            0,
            0,
            vec![Instruction::new(InstructionKind::WhenRan), Instruction::new(InstructionKind::Wait(num(0.0)))],
        )],
        vec![],
    ));
    assert_eq!(
        mac.strand("root").unwrap().instructions[1],
        Instruction::new(InstructionKind::Wait(num(0.0)))
    );
}

#[test]
fn legacy_wait_with_randomness_migrates_to_random_op() {
    let ins = Instruction::new(InstructionKind::Wait(migrate_wait_duration(num(1000.0), num(50.0))));
    assert_eq!(
        ins,
        Instruction::new(InstructionKind::Wait(Value::Op {
            op: Op::Random,
            args: vec![
                Value::Op { op: Op::Sub, args: vec![num(1000.0), num(50.0)], saved: Box::new(num(0.0)) },
                Value::Op { op: Op::Add, args: vec![num(1000.0), num(50.0)], saved: Box::new(num(0.0)) },
            ],
            saved: Box::new(num(0.0)),
        }))
    );
}

#[test]
fn legacy_wait_with_zero_randomness_migrates_to_plain_duration() {
    let ins = Instruction::new(InstructionKind::Wait(migrate_wait_duration(num(1000.0), num(0.0))));
    assert_eq!(ins, Instruction::new(InstructionKind::Wait(num(1000.0))));
}

#[test]
fn rename_variable_renames_declaration_and_every_reference() {
    let mut mac = Macro::new(
        "Test".into(),
        "".into(),
        vec![
            Instruction::new(InstructionKind::SetVariable("x".to_string(), num(1.0))),
            Instruction::new(InstructionKind::ChangeVariable("x".to_string(), Value::Var { name: "x".to_string() })),
            Instruction::new(InstructionKind::Token(InputToken::Text(Value::Var { name: "x".to_string() }))),
        ],
    );
    mac.variables.push(VariableDef { name: "x".to_string(), value: Evaluated::Number(0.0f64.to_bits()) });
    mac.floating_values.push(FloatingValue {
        id: "f1".into(),
        x: 0,
        y: 0,
        value: Value::Var { name: "x".to_string() },
        origin_block_id: None,
    });

    mac.rename_variable("x", "y");

    assert_eq!(mac.variables[0].name, "y");
    let strand = &mac.strands[0];
    assert_eq!(strand.instructions[1], Instruction::new(InstructionKind::SetVariable("y".to_string(), num(1.0))));
    assert_eq!(
        strand.instructions[2],
        Instruction::new(InstructionKind::ChangeVariable("y".to_string(), Value::Var { name: "y".to_string() }))
    );
    assert_eq!(
        strand.instructions[3],
        Instruction::new(InstructionKind::Token(InputToken::Text(Value::Var { name: "y".to_string() })))
    );
    assert_eq!(mac.floating_values[0].value, Value::Var { name: "y".to_string() });
}

#[test]
fn rename_variable_is_a_no_op_for_undeclared_name() {
    let mut mac = Macro::new(
        "Test".into(),
        "".into(),
        vec![Instruction::new(InstructionKind::Token(InputToken::Text(Value::Var { name: "x".to_string() })))],
    );
    mac.rename_variable("x", "y");
    assert_eq!(
        mac.strands[0].instructions[1],
        Instruction::new(InstructionKind::Token(InputToken::Text(Value::Var { name: "x".to_string() })))
    );
}

#[test]
fn rename_var_reaches_into_if_body_and_condition() {
    let mut ins = InstructionKind::If {
        condition: Value::Var { name: "x".to_string() },
        body: vec![Instruction::new(InstructionKind::SetVariable(
            "x".to_string(),
            Value::Var { name: "x".to_string() },
        ))],
    };
    ins.rename_var("x", "y");
    match &ins {
        InstructionKind::If { condition, body } => {
            assert_eq!(*condition, Value::Var { name: "y".to_string() });
            assert_eq!(
                body[0],
                Instruction::new(InstructionKind::SetVariable("y".to_string(), Value::Var { name: "y".to_string() }))
            );
        },
        _ => panic!("expected If"),
    }
}

#[test]
fn rename_var_reaches_into_if_else_both_branches() {
    let mut ins = InstructionKind::IfElse {
        condition: Value::Var { name: "x".to_string() },
        then_body: vec![Instruction::new(InstructionKind::SetVariable("x".to_string(), num(1.0)))],
        else_body: vec![Instruction::new(InstructionKind::SetVariable("x".to_string(), num(2.0)))],
    };
    ins.rename_var("x", "y");
    match &ins {
        InstructionKind::IfElse { then_body, else_body, .. } => {
            assert_eq!(then_body[0], Instruction::new(InstructionKind::SetVariable("y".to_string(), num(1.0))));
            assert_eq!(else_body[0], Instruction::new(InstructionKind::SetVariable("y".to_string(), num(2.0))));
        },
        _ => panic!("expected IfElse"),
    }
}

#[test]
fn scrub_block_calls_reaches_into_nested_if_body() {
    let mut ins = InstructionKind::If {
        condition: num(1.0),
        body: vec![Instruction::new(InstructionKind::SetVariable(
            "x".to_string(),
            Value::Call { block_id: "gone".to_string(), args: vec![], branches: vec![], saved: Box::new(num(0.0)) },
        ))],
    };
    ins.scrub_block_calls("gone");
    match &ins {
        InstructionKind::If { body, .. } => {
            assert_eq!(body[0], Instruction::new(InstructionKind::SetVariable("x".to_string(), num(0.0))));
        },
        _ => panic!("expected If"),
    }
}

#[test]
fn body_mut_addresses_if_and_if_else_slots() {
    let mut if_ins = InstructionKind::If {
        condition: num(1.0),
        body: vec![Instruction::new(InstructionKind::Comment("a".into()))],
    };
    assert_eq!(if_ins.body_mut(0), Some(&mut vec![Instruction::new(InstructionKind::Comment("a".into()))]));
    assert_eq!(if_ins.body_mut(1), None);

    let mut if_else = InstructionKind::IfElse {
        condition: num(1.0),
        then_body: vec![Instruction::new(InstructionKind::Comment("then".into()))],
        else_body: vec![Instruction::new(InstructionKind::Comment("else".into()))],
    };
    assert_eq!(if_else.body_mut(0), Some(&mut vec![Instruction::new(InstructionKind::Comment("then".into()))]));
    assert_eq!(if_else.body_mut(1), Some(&mut vec![Instruction::new(InstructionKind::Comment("else".into()))]));
    assert_eq!(if_else.body_mut(2), None);
}

#[test]
fn body_mut_addresses_loop_slots() {
    let mut repeat = InstructionKind::Repeat {
        count: num(3.0),
        body: vec![Instruction::new(InstructionKind::Comment("a".into()))],
    };
    assert_eq!(repeat.body_mut(0), Some(&mut vec![Instruction::new(InstructionKind::Comment("a".into()))]));
    assert_eq!(repeat.body_mut(1), None);

    let mut forever = InstructionKind::Forever { body: vec![Instruction::new(InstructionKind::Comment("b".into()))] };
    assert_eq!(forever.body_mut(0), Some(&mut vec![Instruction::new(InstructionKind::Comment("b".into()))]));

    let mut while_ins = InstructionKind::While {
        condition: Value::Bool,
        body: vec![Instruction::new(InstructionKind::Comment("c".into()))],
    };
    assert_eq!(while_ins.body_mut(0), Some(&mut vec![Instruction::new(InstructionKind::Comment("c".into()))]));

    assert_eq!(InstructionKind::EscapeLoop.body_mut(0), None);
    assert_eq!(InstructionKind::ContinueLoop.body_mut(0), None);
}
