use blockwork_core::blocks::{default_block_color, normalize_block_color, BlockDef, BlockPiece, BlockShape, InputValueType};
use blockwork_core::edit::ArgSlot;
use blockwork_core::load::{migrate_wait_duration, SavedMacro};
use blockwork_core::macros::{Comment, FloatingValue, ListDef, ListItem, Macro, MacroSettings, Strand, VariableDef};
use blockwork_core::program::{Evaluated, InputToken, Instruction, InstructionKind, Op, Value};
use blockwork_core::watch::{watch_tick, Fingerprint, SeenEntry};

fn num(x: f64) -> Value {
    Value::number(x.to_bits())
}

fn var(name: &str) -> Value {
    Value::Var { name: name.to_string() }
}

fn ins(kind: InstructionKind) -> Instruction {
    Instruction::new(kind)
}

fn input(id: &str, name: &str, value_type: InputValueType) -> BlockPiece {
    BlockPiece::Input { id: id.to_string(), name: name.to_string(), value_type }
}

fn branch(id: &str, name: &str) -> BlockPiece {
    BlockPiece::Branch { id: id.to_string(), name: name.to_string() }
}

fn call(block_id: &str, args: Vec<Value>, branches: Vec<Vec<Instruction>>) -> InstructionKind {
    InstructionKind::CallBlock { block_id: block_id.to_string(), args, branches }
}

fn comment(id: &str, attached_to: Option<String>) -> Comment {
    Comment { id: id.to_string(), x: 0, y: 0, text: String::new(), collapsed: false, attached_to }
}

fn saved_with(strands: Vec<Strand>) -> SavedMacro {
    SavedMacro::Current {
        id: "m1".to_string(),
        name: "M".to_string(),
        description: String::new(),
        strands,
        recording_target: None,
        speed_multiplier_bits: 1.0f64.to_bits(),
        floating_values: vec![],
        comments: vec![],
        variables: vec![],
        lists: vec![],
        block_defs: vec![],
        settings: MacroSettings { always_listen: false },
    }
}

fn is_simple_uuid(s: &str) -> bool {
    s.len() == 32 && s.chars().all(|c| c.is_ascii_digit() || ('a'..='f').contains(&c))
}

// ---------------------------------------------------------------------
// Instructions and values
// ---------------------------------------------------------------------

#[test]
fn new_instructions_get_distinct_simple_uuids() {
    let a = ins(InstructionKind::WhenRan);
    let b = ins(InstructionKind::WhenRan);
    assert!(is_simple_uuid(&a.id));
    assert!(is_simple_uuid(&b.id));
    assert_ne!(a.id, b.id);
}

#[test]
fn instruction_equality_ignores_ids_at_every_depth() {
    let a = ins(InstructionKind::If { condition: Value::Bool, body: vec![ins(InstructionKind::EscapeLoop)] });
    let b = ins(InstructionKind::If { condition: Value::Bool, body: vec![ins(InstructionKind::EscapeLoop)] });
    assert_ne!(a.id, b.id);
    assert_eq!(a, b);
    assert_ne!(a, ins(InstructionKind::If { condition: Value::Bool, body: vec![] }));
}

#[test]
fn header_blocks_are_recognized() {
    assert!(ins(InstructionKind::WhenRan).is_header());
    assert!(ins(InstructionKind::BlockHeader("b".into())).is_header());
    assert!(ins(InstructionKind::WhenClipboardChanged).is_header());
    assert!(!ins(InstructionKind::EscapeLoop).is_header());
    assert!(!ins(InstructionKind::Wait(num(1.0))).is_header());
}

#[test]
fn rename_list_renames_commands_and_reporters() {
    let mut kind = InstructionKind::AddToList { value: Value::List { name: "q".into() }, name: "q".into() };
    kind.rename_list("q", "r");
    assert_eq!(kind, InstructionKind::AddToList { value: Value::List { name: "r".into() }, name: "r".into() });
}

#[test]
fn insert_into_list_index_is_renamed_too() {
    let mut kind = InstructionKind::InsertIntoList { value: var("x"), index: var("x"), name: "l".into() };
    kind.rename_var("x", "y");
    assert_eq!(kind, InstructionKind::InsertIntoList { value: var("y"), index: var("y"), name: "l".into() });
}

#[test]
fn rename_param_reaches_operands() {
    let mut v = Value::Op {
        op: Op::Add,
        args: vec![Value::Param { name: "a".into() }, Value::Param { name: "b".into() }],
        saved: Box::new(num(0.0)),
    };
    v.rename_param("a", "z");
    assert_eq!(
        v,
        Value::Op {
            op: Op::Add,
            args: vec![Value::Param { name: "z".into() }, Value::Param { name: "b".into() }],
            saved: Box::new(num(0.0)),
        }
    );
}

#[test]
fn bool_repair_is_idempotent() {
    let mut kind = InstructionKind::While {
        condition: Value::Op { op: Op::Not, args: vec![num(0.0)], saved: Box::new(num(0.0)) },
        body: vec![ins(InstructionKind::Wait(num(0.0)))],
    };
    kind.migrate_bool_slots();
    let once = kind.clone();
    kind.migrate_bool_slots();
    assert_eq!(kind, once);
    assert_eq!(
        once,
        InstructionKind::While {
            condition: Value::Op { op: Op::Not, args: vec![Value::Bool], saved: Box::new(Value::Bool) },
            body: vec![ins(InstructionKind::Wait(num(0.0)))],
        }
    );
}

#[test]
fn bool_repair_leaves_call_arguments_alone() {
    let mut kind = call("b", vec![num(0.0)], vec![]);
    kind.migrate_bool_slots();
    assert_eq!(kind, call("b", vec![num(0.0)], vec![]));
}

#[test]
fn call_args_are_realigned_to_the_plan() {
    let mut kind = call("b", vec![num(1.0), num(2.0)], vec![]);
    let plan = vec![
        ArgSlot { source: Some(1), value_type: InputValueType::Any },
        ArgSlot { source: None, value_type: InputValueType::Bool },
        ArgSlot { source: Some(7), value_type: InputValueType::Any },
    ];
    kind.for_each_call_args_mut("b", &plan);
    assert_eq!(kind, call("b", vec![num(2.0), Value::Bool, num(0.0)], vec![]));
    let mut other = call("c", vec![num(1.0)], vec![]);
    other.for_each_call_args_mut("b", &plan);
    assert_eq!(other, call("c", vec![num(1.0)], vec![]));
}

#[test]
fn scrub_reaches_into_value_call_branches() {
    let inner = Value::Call { block_id: "gone".into(), args: vec![], branches: vec![], saved: Box::new(num(0.0)) };
    let outer = Value::Call {
        block_id: "kept".into(),
        args: vec![],
        branches: vec![vec![ins(InstructionKind::Return(inner))]],
        saved: Box::new(num(0.0)),
    };
    let mut token = InputToken::Text(outer);
    token.scrub_block_calls("gone");
    let expected = Value::Call {
        block_id: "kept".into(),
        args: vec![],
        branches: vec![vec![ins(InstructionKind::Return(num(0.0)))]],
        saved: Box::new(num(0.0)),
    };
    assert_eq!(token, InputToken::Text(expected));
}

#[test]
fn body_reads_what_body_mut_wrote() {
    let mut kind = InstructionKind::IfElse { condition: var("c"), then_body: vec![], else_body: vec![] };
    kind.body_mut(1).unwrap().push(ins(InstructionKind::EscapeLoop));
    assert_eq!(kind.body(1), Some(&vec![ins(InstructionKind::EscapeLoop)]));
    assert_eq!(kind.body(0), Some(&vec![]));
    assert_eq!(kind.body(2), None);
}

#[test]
fn body_does_not_address_custom_block_branches() {
    let mut kind = call("b", vec![], vec![vec![]]);
    assert_eq!(kind.body_mut(0), None);
    assert_eq!(kind.body(0), None);
}

#[test]
fn branch_reads_what_branch_mut_wrote() {
    let mut kind = call("b", vec![], vec![vec![], vec![]]);
    kind.branch_mut(1).unwrap().push(ins(InstructionKind::EscapeLoop));
    assert_eq!(kind.branch(1), Some(&vec![ins(InstructionKind::EscapeLoop)]));
    assert_eq!(kind.branch(0), Some(&vec![]));
    assert_eq!(kind.branch(2), None);
    assert_eq!(InstructionKind::Forever { body: vec![] }.branch_mut(0), None);
}

#[test]
fn number_literals_compare_as_numbers_at_zero() {
    assert_eq!(num(0.0), num(-0.0));
    assert_ne!(num(0.0), num(1.0));
    assert_eq!(ins(InstructionKind::Wait(num(-0.0))), ins(InstructionKind::Wait(num(0.0))));
}

#[test]
fn nan_literals_equal_nothing() {
    let nan = f64::NAN;
    assert_ne!(num(nan), num(nan));
    assert_ne!(num(nan), num(0.0));
    assert_ne!(ins(InstructionKind::Wait(num(nan))), ins(InstructionKind::Wait(num(nan))));
    assert_ne!(Evaluated::Number(nan.to_bits()), Evaluated::Number(nan.to_bits()));
    assert_ne!(ListItem::Number((-nan).to_bits()), ListItem::Number((-nan).to_bits()));
    assert_eq!(num(f64::INFINITY), num(f64::INFINITY));
    assert_eq!(Evaluated::Number(f64::NEG_INFINITY.to_bits()), Evaluated::Number(f64::NEG_INFINITY.to_bits()));
}

#[test]
fn wait_with_negative_zero_randomness_keeps_the_duration() {
    assert_eq!(migrate_wait_duration(num(5.0), num(-0.0)), num(5.0));
    assert_ne!(migrate_wait_duration(num(5.0), num(1.0)), num(5.0));
}

// ---------------------------------------------------------------------
// Blocks
// ---------------------------------------------------------------------

#[test]
fn colors_are_trimmed_and_upper_cased() {
    assert_eq!(normalize_block_color("  #a1b2c3 "), Some("#A1B2C3".to_string()));
    assert_eq!(normalize_block_color("#A1B2C3"), Some("#A1B2C3".to_string()));
    assert_eq!(normalize_block_color("#A1B2C"), None);
    assert_eq!(normalize_block_color("A1B2C3F"), None);
    assert_eq!(normalize_block_color("#G1B2C3"), None);
    assert_eq!(normalize_block_color(""), None);
    assert_eq!(normalize_block_color("\u{3000}\t#a1b2c3\u{85}\u{2029}"), Some("#A1B2C3".to_string()));
    assert_eq!(normalize_block_color("\u{200b}#a1b2c3"), None);
    assert_eq!(normalize_block_color(" \u{a0} "), None);
    assert_eq!(default_block_color(), "#4C97FF");
}

#[test]
fn normalized_color_normalizes_to_itself() {
    let once = normalize_block_color(" #beef00").unwrap();
    assert_eq!(normalize_block_color(&once), Some(once.clone()));
}

#[test]
fn shapes_and_names() {
    assert!(BlockShape::ReturnsValue.returns_value());
    assert!(BlockShape::ReturnsBool.returns_value());
    assert!(!BlockShape::Normal.returns_value());
    assert!(BlockShape::Ending.is_ending());
    assert!(!BlockShape::ReturnsBool.is_ending());
    assert_eq!(BlockShape::from_name("Ending"), Some(BlockShape::Ending));
    assert_eq!(BlockShape::from_name("ending"), None);
}

#[test]
fn input_names_skip_labels_and_branches() {
    let def = BlockDef {
        id: "b".into(),
        pieces: vec![
            BlockPiece::Label { id: "l".into(), text: "say".into() },
            input("i1", "what", InputValueType::Any),
            branch("br", "then"),
            input("i2", "loud", InputValueType::Bool),
        ],
        shape: BlockShape::Normal,
        color: default_block_color(),
    };
    assert_eq!(def.input_names(), vec!["what", "loud"]);
    assert_eq!(def.pieces[2].id(), "br");
}

#[test]
fn list_items_round_trip_through_evaluated() {
    let item = ListItem::from_evaluated(Evaluated::Text("a".into())).unwrap();
    assert_eq!(item.evaluated(), Evaluated::Text("a".into()));
    assert!(ListItem::from_evaluated(Evaluated::Bool(true)).is_none());
    let n = ListItem::from_evaluated(Evaluated::Number(2.0f64.to_bits())).unwrap();
    assert_eq!(n.evaluated(), Evaluated::Number(2.0f64.to_bits()));
}

// ---------------------------------------------------------------------
// Macros
// ---------------------------------------------------------------------

#[test]
fn new_macro_has_fresh_ids_and_defaults() {
    let mac = Macro::new("N".into(), "D".into(), vec![ins(InstructionKind::EscapeLoop)]);
    assert!(is_simple_uuid(&mac.id));
    assert!(is_simple_uuid(&mac.strands[0].id));
    assert_eq!(mac.strands[0].instructions.len(), 2);
    assert_eq!(mac.strands[0].instructions[1], ins(InstructionKind::EscapeLoop));
    assert_eq!(mac.speed_multiplier_bits, 1.0f64.to_bits());
    assert!(!mac.settings.always_listen);
}

#[test]
fn ensure_id_only_replaces_a_blank_id() {
    let mut mac = Macro::new("N".into(), "".into(), vec![]);
    mac.id = " \t".into();
    mac.ensure_id();
    assert!(is_simple_uuid(&mac.id));
    mac.id = "kept".into();
    mac.ensure_id();
    assert_eq!(mac.id, "kept");
}

#[test]
fn lookups_find_the_first_match() {
    let mut mac = Macro::new("N".into(), "".into(), vec![]);
    mac.strands.push(Strand { id: "s".into(), x: 1, y: 0, instructions: vec![] });
    mac.strands.push(Strand { id: "s".into(), x: 2, y: 0, instructions: vec![] });
    assert_eq!(mac.strand("s").unwrap().x, 1);
    mac.strand_mut("s").unwrap().y = 9;
    assert_eq!(mac.strands[1].y, 9);
    assert!(mac.strand("missing").is_none());
    mac.comments.push(comment("c", None));
    mac.comment_mut("c").unwrap().collapsed = true;
    assert!(mac.comments[0].collapsed);
    mac.floating_values.push(FloatingValue { id: "f".into(), x: 0, y: 0, value: num(1.0), origin_block_id: None });
    mac.floating_value_mut("f").unwrap().x = 4;
    assert_eq!(mac.floating_values[0].x, 4);
    assert!(mac.floating_value_mut("g").is_none());
}

#[test]
fn renaming_back_restores_the_macro() {
    let mut mac = Macro::new(
        "N".into(),
        "".into(),
        vec![
            ins(InstructionKind::SetVariable("v".into(), var("v"))),
            ins(InstructionKind::AddToList { value: Value::List { name: "l".into() }, name: "l".into() }),
        ],
    );
    mac.variables.push(VariableDef { name: "v".into(), value: Evaluated::Bool(false) });
    mac.lists.push(ListDef { name: "l".into(), items: vec![], editor_visible: false, editor_x: 0, editor_y: 0 });
    mac.floating_values.push(FloatingValue { id: "f".into(), x: 0, y: 0, value: var("v"), origin_block_id: None });
    let before = mac.clone();
    mac.rename_variable("v", "w");
    assert_ne!(mac, before);
    mac.rename_variable("w", "v");
    assert_eq!(mac, before);
    mac.rename_list("l", "m");
    assert_ne!(mac, before);
    mac.rename_list("m", "l");
    assert_eq!(mac, before);
    assert_eq!(mac.strands[0].instructions[1].id, before.strands[0].instructions[1].id);
    let mut kind = InstructionKind::SetVariable("v".into(), var("v"));
    kind.rename_var("v", "w");
    kind.rename_var("w", "v");
    assert_eq!(kind, InstructionKind::SetVariable("v".into(), var("v")));
}

#[test]
fn sync_writes_back_declared_variables_and_lists_only() {
    let mut mac = Macro::new("N".into(), "".into(), vec![]);
    mac.variables.push(VariableDef { name: "x".into(), value: Evaluated::Bool(false) });
    mac.variables.push(VariableDef { name: "y".into(), value: Evaluated::Bool(false) });
    mac.lists.push(ListDef { name: "l".into(), items: vec![], editor_visible: false, editor_x: 0, editor_y: 0 });
    mac.sync_variables_from(&vec![
        ("x".to_string(), Evaluated::Text("a".into())),
        ("z".to_string(), Evaluated::Bool(true)),
        ("x".to_string(), Evaluated::Text("b".into())),
    ]);
    assert_eq!(mac.variables[0].value, Evaluated::Text("a".into()));
    assert_eq!(mac.variables[1].value, Evaluated::Bool(false));
    assert_eq!(mac.variables.len(), 2);
    mac.sync_lists_from(&vec![("l".to_string(), vec![ListItem::Text("i".into())])]);
    assert_eq!(mac.lists[0].items.len(), 1);
}

#[test]
fn rename_list_renames_the_declaration_and_floating_reporters() {
    let mut mac = Macro::new("N".into(), "".into(), vec![ins(InstructionKind::ReverseList { name: "q".into() })]);
    mac.lists.push(ListDef { name: "q".into(), items: vec![], editor_visible: false, editor_x: 0, editor_y: 0 });
    mac.floating_values.push(FloatingValue {
        id: "f".into(),
        x: 0,
        y: 0,
        value: Value::List { name: "q".into() },
        origin_block_id: None,
    });
    mac.rename_list("q", "r");
    assert_eq!(mac.lists[0].name, "r");
    assert_eq!(mac.strands[0].instructions[1], ins(InstructionKind::ReverseList { name: "r".into() }));
    assert_eq!(mac.floating_values[0].value, Value::List { name: "r".into() });
    mac.rename_list("missing", "x");
    assert_eq!(mac.lists[0].name, "r");
}

#[test]
fn recording_target_prefers_explicit_then_header_then_first() {
    let mut mac = Macro::new("N".into(), "".into(), vec![]);
    mac.strands.insert(0, Strand { id: "plain".into(), x: 0, y: 0, instructions: vec![] });
    let header_id = mac.strands[1].id.clone();
    assert_eq!(mac.recording_target_id(), Some(header_id.clone()));
    mac.recording_target = Some("plain".into());
    assert_eq!(mac.recording_target_id(), Some("plain".to_string()));
    mac.recording_target = Some("gone".into());
    assert_eq!(mac.recording_target_id(), Some(header_id.clone()));
    mac.recording_target_mut().x = 5;
    assert_eq!(mac.strands[1].x, 5);
    mac.strands.remove(1);
    assert_eq!(mac.recording_target_id(), Some("plain".to_string()));
}

#[test]
fn recording_target_skips_a_custom_block_body_for_the_when_ran_strand() {
    let mut mac = Macro::new("N".into(), "".into(), vec![]);
    mac.strands = vec![
        Strand { id: "blk".into(), x: 0, y: 0, instructions: vec![ins(InstructionKind::BlockHeader("b".into()))] },
        Strand { id: "main".into(), x: 0, y: 0, instructions: vec![ins(InstructionKind::WhenRan)] },
    ];
    assert_eq!(mac.recording_target_id(), Some("main".to_string()));
    mac.recording_target_mut().x = 3;
    assert_eq!(mac.strands[1].x, 3);
    mac.strands.remove(1);
    assert_eq!(mac.recording_target_id(), Some("blk".to_string()));
}

#[test]
fn recording_target_creates_a_strand_in_an_empty_macro() {
    let mut mac = Macro::new("N".into(), "".into(), vec![]);
    mac.strands.clear();
    assert_eq!(mac.recording_target_id(), None);
    let s = mac.recording_target_mut();
    assert!(s.instructions.is_empty());
    assert_eq!(mac.strands.len(), 1);
    assert!(is_simple_uuid(&mac.strands[0].id));
}

#[test]
fn create_block_adds_definition_and_header_strand() {
    let mut mac = Macro::new("N".into(), "".into(), vec![]);
    let id = mac.create_block(vec![input("i", "n", InputValueType::Any)], BlockShape::Ending, "#123456".into(), 3, 4);
    assert!(is_simple_uuid(&id));
    assert_eq!(mac.block_defs.len(), 1);
    assert_eq!(mac.block_defs[0].id, id);
    assert_eq!(mac.block_defs[0].shape, BlockShape::Ending);
    let s = mac.strands.last().unwrap();
    assert_eq!((s.x, s.y), (3, 4));
    assert_eq!(s.instructions, vec![ins(InstructionKind::BlockHeader(id.clone()))]);
}

#[test]
fn rename_block_input_body_is_scoped_to_its_block() {
    let mut mac = Macro::new("N".into(), "".into(), vec![ins(InstructionKind::Return(Value::Param { name: "a".into() }))]);
    let id = mac.create_block(vec![], BlockShape::ReturnsValue, default_block_color(), 0, 0);
    mac.strands[1].instructions.push(ins(InstructionKind::Return(Value::Param { name: "a".into() })));
    mac.rename_block_input_body(&id, "a", "b");
    assert_eq!(mac.strands[1].instructions[1], ins(InstructionKind::Return(Value::Param { name: "b".into() })));
    assert_eq!(mac.strands[0].instructions[1], ins(InstructionKind::Return(Value::Param { name: "a".into() })));
}

#[test]
fn rename_block_branch_body_reaches_nested_markers() {
    let mut mac = Macro::new("N".into(), "".into(), vec![ins(InstructionKind::RunBranch("then".into()))]);
    let id = mac.create_block(vec![branch("br", "then")], BlockShape::Normal, default_block_color(), 0, 0);
    mac.strands[1].instructions.push(ins(InstructionKind::Forever {
        body: vec![ins(InstructionKind::RunBranch("then".into()))],
    }));
    mac.rename_block_branch_body(&id, "then", "next");
    assert_eq!(
        mac.strands[1].instructions[1],
        ins(InstructionKind::Forever { body: vec![ins(InstructionKind::RunBranch("next".into()))] })
    );
    assert_eq!(mac.strands[0].instructions[1], ins(InstructionKind::RunBranch("then".into())));
}

#[test]
fn reconcile_carries_arguments_and_branches_by_piece_id() {
    let old_pieces = vec![input("a", "a", InputValueType::Any), input("b", "b", InputValueType::Any), branch("x", "x")];
    let new_pieces = vec![
        branch("y", "y"),
        input("b", "renamed", InputValueType::Any),
        input("c", "c", InputValueType::Bool),
        branch("x", "x"),
    ];
    let body = vec![ins(InstructionKind::EscapeLoop)];
    let mut mac = Macro::new("N".into(), "".into(), vec![ins(call("blk", vec![num(1.0), num(2.0)], vec![body.clone()]))]);
    mac.floating_values.push(FloatingValue {
        id: "f".into(),
        x: 0,
        y: 0,
        value: Value::Call { block_id: "blk".into(), args: vec![num(1.0), num(2.0)], branches: vec![], saved: Box::new(num(0.0)) },
        origin_block_id: None,
    });
    mac.reconcile_block_call_args("blk", &old_pieces, &new_pieces);
    assert_eq!(mac.strands[0].instructions[1], ins(call("blk", vec![num(2.0), Value::Bool], vec![vec![], body])));
    assert_eq!(
        mac.floating_values[0].value,
        Value::Call { block_id: "blk".into(), args: vec![num(2.0), Value::Bool], branches: vec![], saved: Box::new(num(0.0)) }
    );
}

#[test]
fn remove_block_leaves_nothing_dangling() {
    let mut mac = Macro::new("N".into(), "".into(), vec![]);
    let id = mac.create_block(vec![], BlockShape::Normal, default_block_color(), 0, 0);
    let top = ins(call(&id, vec![], vec![]));
    let top_id = top.id.clone();
    let nested = ins(InstructionKind::If { condition: Value::Bool, body: vec![ins(call(&id, vec![], vec![]))] });
    let reporter = ins(InstructionKind::Wait(Value::Call { block_id: id.clone(), args: vec![], branches: vec![], saved: Box::new(num(0.0)) }));
    mac.strands[0].instructions.push(top);
    mac.strands[0].instructions.push(nested);
    mac.strands[0].instructions.push(reporter);
    mac.comments.push(comment("on-call", Some(top_id)));
    mac.comments.push(comment("free", None));
    mac.remove_block(&id);
    assert!(mac.block_defs.is_empty());
    assert_eq!(mac.strands.len(), 1);
    assert_eq!(
        mac.strands[0].instructions,
        vec![
            ins(InstructionKind::WhenRan),
            ins(InstructionKind::If { condition: Value::Bool, body: vec![] }),
            ins(InstructionKind::Wait(num(0.0))),
        ]
    );
    assert_eq!(mac.comments.len(), 1);
    assert_eq!(mac.comments[0].id, "free");
}

#[test]
fn pruning_twice_is_pruning_once() {
    let mut mac = Macro::new("N".into(), "".into(), vec![]);
    let live = mac.strands[0].instructions[0].id.clone();
    mac.comments.push(comment("a", Some(live)));
    mac.comments.push(comment("b", Some("dead".into())));
    mac.comments.push(comment("c", None));
    mac.prune_orphaned_comments();
    assert_eq!(mac.comments.iter().map(|c| c.id.clone()).collect::<Vec<_>>(), vec!["a", "c"]);
    mac.prune_orphaned_comments();
    assert_eq!(mac.comments.len(), 2);
}

#[test]
fn pruning_keeps_comments_on_instructions_in_late_branches() {
    let deep = ins(InstructionKind::EscapeLoop);
    let deep_id = deep.id.clone();
    let mut branches: Vec<Vec<Instruction>> = vec![vec![]; 300];
    branches[299].push(deep);
    let mut mac = Macro::new("N".into(), "".into(), vec![ins(call("b", vec![], branches))]);
    mac.comments.push(comment("kept", Some(deep_id)));
    mac.comments.push(comment("dropped", Some("dead".into())));
    mac.prune_orphaned_comments();
    assert_eq!(mac.comments.iter().map(|c| c.id.clone()).collect::<Vec<_>>(), vec!["kept"]);
}

#[test]
fn legacy_comments_are_pulled_out_of_late_branches() {
    let mut branches: Vec<Vec<Instruction>> = vec![vec![]; 300];
    branches[299].push(ins(InstructionKind::Comment("late".into())));
    let mut mac = Macro::new("N".into(), "".into(), vec![ins(call("b", vec![], branches))]);
    mac.migrate_legacy_comments();
    assert_eq!(mac.comments.len(), 1);
    assert_eq!(mac.comments[0].text, "late");
    match &mac.strands[0].instructions[1].kind {
        InstructionKind::CallBlock { branches, .. } => assert!(branches.iter().all(|b| b.is_empty())),
        _ => panic!("expected a custom block call"),
    }
}

#[test]
fn custom_block_bool_repair_uses_the_last_definition() {
    let mut mac = Macro::new("N".into(), "".into(), vec![ins(call("b", vec![num(0.0), num(0.0)], vec![]))]);
    mac.block_defs.push(BlockDef {
        id: "b".into(),
        pieces: vec![input("i", "i", InputValueType::Bool), input("j", "j", InputValueType::Bool)],
        shape: BlockShape::Normal,
        color: default_block_color(),
    });
    mac.block_defs.push(BlockDef {
        id: "b".into(),
        pieces: vec![input("i", "i", InputValueType::Any), input("j", "j", InputValueType::Bool)],
        shape: BlockShape::Normal,
        color: default_block_color(),
    });
    mac.migrate_custom_block_bool_args();
    assert_eq!(mac.strands[0].instructions[1], ins(call("b", vec![num(0.0), Value::Bool], vec![])));
}

#[test]
fn legacy_comments_are_parked_by_their_strand() {
    let s = saved_with(vec![Strand {
        id: "s".into(),
        x: 10,
        y: 20,
        instructions: vec![
            ins(InstructionKind::Comment("one".into())),
            ins(InstructionKind::Repeat { count: num(2.0), body: vec![ins(InstructionKind::Comment("two".into()))] }),
        ],
    }]);
    assert!(s.legacy_comments_fit());
    let mut mac = Macro::from_saved(s);
    assert_eq!(mac.comments.len(), 2);
    assert_eq!((mac.comments[0].text.as_str(), mac.comments[0].x, mac.comments[0].y), ("one", 50, 60));
    assert_eq!((mac.comments[1].text.as_str(), mac.comments[1].x, mac.comments[1].y), ("two", 50, 90));
    assert!(is_simple_uuid(&mac.comments[0].id));
    assert_eq!(mac.strands[0].instructions, vec![ins(InstructionKind::Repeat { count: num(2.0), body: vec![] })]);
    mac.migrate_legacy_comments();
    assert_eq!(mac.comments.len(), 2);
}

#[test]
fn legacy_comments_that_would_overflow_do_not_fit() {
    let s = saved_with(vec![Strand {
        id: "s".into(),
        x: 0,
        y: i32::MAX - 60,
        instructions: vec![ins(InstructionKind::Comment("a".into())), ins(InstructionKind::Comment("b".into()))],
    }]);
    assert!(!s.legacy_comments_fit());
    let ok = saved_with(vec![Strand { id: "s".into(), x: i32::MAX, y: i32::MAX, instructions: vec![] }]);
    assert!(ok.legacy_comments_fit());
}

// ---------------------------------------------------------------------
// Clipboard watcher
// ---------------------------------------------------------------------

fn clip(text: &str) -> Fingerprint {
    Fingerprint { text: Some(text.to_string()), has_image: false, has_file_list: false }
}

fn watcher_macro(id: &str, always_listen: bool) -> Macro {
    let mut mac = Macro::new("W".into(), "".into(), vec![]);
    mac.id = id.to_string();
    mac.settings.always_listen = always_listen;
    mac.strands.push(Strand {
        id: "clip".into(),
        x: 0,
        y: 0,
        instructions: vec![ins(InstructionKind::WhenClipboardChanged), ins(InstructionKind::EscapeLoop)],
    });
    mac
}

#[test]
fn first_poll_records_a_baseline_only() {
    let macros = vec![watcher_macro("m", false)];
    let (fire, seen) = watch_tick(&macros, Some("m"), &clip("a"), &vec![]);
    assert!(fire.is_empty());
    assert_eq!(seen.len(), 1);
    assert_eq!((seen[0].macro_id.as_str(), seen[0].strand_id.as_str()), ("m", "clip"));
}

#[test]
fn a_changed_clipboard_fires_and_an_unchanged_one_does_not() {
    let macros = vec![watcher_macro("m", false)];
    let (_, seen) = watch_tick(&macros, Some("m"), &clip("a"), &vec![]);
    let (fire, seen) = watch_tick(&macros, Some("m"), &clip("a"), &seen);
    assert!(fire.is_empty());
    let (fire, _) = watch_tick(&macros, Some("m"), &clip("b"), &seen);
    assert_eq!(fire, vec![(0, 1)]);
}

#[test]
fn only_selected_or_always_listening_macros_are_watched() {
    let macros = vec![watcher_macro("quiet", false), watcher_macro("loud", true)];
    let last = vec![
        SeenEntry { macro_id: "quiet".into(), strand_id: "clip".into(), fingerprint: clip("old") },
        SeenEntry { macro_id: "loud".into(), strand_id: "clip".into(), fingerprint: clip("old") },
    ];
    let (fire, seen) = watch_tick(&macros, None, &clip("new"), &last);
    assert_eq!(fire, vec![(1, 1)]);
    assert_eq!(seen.len(), 1);
    let (fire, _) = watch_tick(&macros, Some("quiet"), &clip("new"), &last);
    assert_eq!(fire, vec![(0, 1), (1, 1)]);
}

#[test]
fn fingerprints_compare_every_field() {
    let a = clip("x");
    let mut b = clip("x");
    assert!(a.same(&b));
    b.has_image = true;
    assert!(!a.same(&b));
    let none = Fingerprint { text: None, has_image: false, has_file_list: false };
    assert!(!a.same(&none));
    assert!(none.same(&none.duplicate()));
}

#[test]
fn documents_compare_and_copy_like_their_parts() {
    let mut mac = Macro::new("N".into(), "".into(), vec![ins(InstructionKind::Wait(num(1.0)))]);
    mac.variables.push(VariableDef { name: "v".into(), value: Evaluated::Number(0.0f64.to_bits()) });
    mac.lists.push(ListDef {
        name: "l".into(),
        items: vec![ListItem::Number((-0.0f64).to_bits())],
        editor_visible: true,
        editor_x: 1,
        editor_y: 2,
    });
    let copy = mac.clone();
    assert_eq!(copy, mac);
    let mut other = mac.clone();
    other.variables[0].value = Evaluated::Number((-0.0f64).to_bits());
    assert_eq!(other, mac);
    other.strands[0].instructions.push(ins(InstructionKind::EscapeLoop));
    assert_ne!(other, mac);
    let mut renamed = mac.clone();
    renamed.strands[0].id = "elsewhere".into();
    assert_ne!(renamed.strands[0], mac.strands[0]);
    let fresh_ids = Strand {
        id: mac.strands[0].id.clone(),
        x: 0,
        y: 0,
        instructions: vec![ins(InstructionKind::WhenRan), ins(InstructionKind::Wait(num(1.0)))],
    };
    assert_eq!(fresh_ids, mac.strands[0]);
}
