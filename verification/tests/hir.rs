use tern::hir::cfg::basic_blocks::{BasicBlock, BasicBlockId, ValueTable};
use tern::hir::cfg::instructions::Instruction;
use tern::hir::cfg::{CheckedModule, Place, Projection, Terminator, Value, ValueId};
use tern::hir::counters::Counters;
use tern::hir::errors::{SemanticError, SemanticErrorKind};
use tern::hir::function_builder::FunctionBuilder;
use tern::hir::program_builder::ModuleBuilder;
use tern::interner::StringId;
use tern::number::NumberKind;
use tern::span::{dummy_span, DefinitionId, IdentifierNode};
use tern::types::checked_type::{CheckedParam, Type};
use tern::types::eq::same_type;
use tern::types::list::List;

#[test]
fn counters_hand_out_successive_ids() {
    let mut c = Counters::new();
    assert_eq!(c.next_value_id(), ValueId(0));
    assert_eq!(c.next_value_id(), ValueId(1));
    assert_eq!(c.next_block_id(), BasicBlockId(0));
    assert_eq!(c.next_constant_id(), BasicBlockId(0));
    assert_eq!(c.next_declaration_id(), BasicBlockId(0));
    assert_eq!(c.next_declaration_id(), BasicBlockId(1));
    c.reset_counters();
    assert_eq!(c.next_value_id(), ValueId(0));
    assert_eq!(c.next_declaration_id(), BasicBlockId(0));
}

#[test]
fn counters_wrap_around() {
    let mut c = Counters::new();
    c.value = usize::MAX;
    assert_eq!(c.next_value_id(), ValueId(usize::MAX));
    assert_eq!(c.next_value_id(), ValueId(0));
}

fn all_kinds() -> Vec<SemanticErrorKind> {
    let id = tern::span::IdentifierNode { name: StringId(0), span: dummy_span() };
    vec![
        SemanticErrorKind::ExpectedANumericOperand,
        SemanticErrorKind::MixedSignedAndUnsigned,
        SemanticErrorKind::MixedFloatAndInteger,
        SemanticErrorKind::CannotCompareType { of: Type::Bool, to: Type::Char },
        SemanticErrorKind::UndeclaredIdentifier(id),
        SemanticErrorKind::ReturnKeywordOutsideFunction,
        SemanticErrorKind::BreakKeywordOutsideLoop,
        SemanticErrorKind::ContinueKeywordOutsideLoop,
        SemanticErrorKind::InvalidLValue,
        SemanticErrorKind::TypeMismatch { expected: Type::Bool, received: Type::Char },
        SemanticErrorKind::ReturnNotLastStatement,
        SemanticErrorKind::ReturnTypeMismatch { expected: Type::Bool, received: Type::Char },
        SemanticErrorKind::UndeclaredType(id),
        SemanticErrorKind::CannotAccess(Type::I32),
        SemanticErrorKind::CannotCall(Type::I32),
        SemanticErrorKind::CannotUseVariableDeclarationAsType,
        SemanticErrorKind::VarDeclWithoutConstraintOrInitializer,
        SemanticErrorKind::AccessToUndefinedField(id),
        SemanticErrorKind::FnArgumentCountMismatch { expected: 1, received: 2 },
        SemanticErrorKind::TypeAliasMustBeDeclaredAtTopLevel,
        SemanticErrorKind::DuplicateStructFieldInitializer(id),
        SemanticErrorKind::UnknownStructFieldInitializer(id),
        SemanticErrorKind::MissingStructFieldInitializers(vec![]),
        SemanticErrorKind::DuplicateIdentifier(id),
        SemanticErrorKind::IncompatibleBranchTypes { first: Type::Bool, second: Type::Char },
        SemanticErrorKind::IfExpressionMissingElse,
        SemanticErrorKind::TypeMismatchExpectedOneOf { expected: vec![], received: Type::Char },
        SemanticErrorKind::CannotCastType { source_type: Type::Bool, target_type: Type::Char },
        SemanticErrorKind::CannotIndex(Type::Bool),
        SemanticErrorKind::CannotStaticAccess(Type::Bool),
        SemanticErrorKind::AccessToUndefinedStaticField(id),
        SemanticErrorKind::CannotUseTypeDeclarationAsValue,
        SemanticErrorKind::CannotDeclareGlobalVariable,
        SemanticErrorKind::UnreachableCode,
        SemanticErrorKind::FromStatementMustBeDeclaredAtTopLevel,
        SemanticErrorKind::ModuleNotFound("a/b".to_string()),
        SemanticErrorKind::CannotUseFunctionDeclarationAsType,
    ]
}

#[test]
fn error_codes_are_one_to_thirty_seven_without_repeats() {
    let codes: Vec<usize> = all_kinds().iter().map(|k| k.code()).collect();
    let mut sorted = codes.clone();
    sorted.sort();
    assert_eq!(sorted, (1..=37).collect::<Vec<usize>>());
    assert_eq!(SemanticErrorKind::TypeMismatch { expected: Type::I8, received: Type::I8 }.code(), 10);
    assert_eq!(SemanticErrorKind::CannotUseFunctionDeclarationAsType.code(), 37);
    assert_eq!(SemanticErrorKind::UnreachableCode.code(), 34);
}

#[test]
fn values_get_successive_ids_and_their_types() {
    let mut values = ValueTable::new();
    let mut b = BasicBlock::new(BasicBlockId(3));
    let p = b.emit_stack_alloc(&mut values, Type::I32, 1);
    assert_eq!(p, ValueId(0));
    match values.type_of(p) {
        Type::Pointer { constraint, narrowed_to } => {
            assert!(matches!(**constraint, Type::I32));
            assert!(matches!(**narrowed_to, Type::I32));
        }
        _ => panic!("expected a pointer"),
    }
    assert_eq!(values.block_of(p), BasicBlockId(3));
    let v = b.emit_load(&mut values, p);
    assert_eq!(v, ValueId(1));
    assert!(matches!(values.type_of(v), Type::I32));
    b.emit_store(p, v);
    let c = b.emit_type_cast(&mut values, v, Type::I64);
    assert!(matches!(values.type_of(c), Type::I64));
    assert_eq!(b.instructions.len(), 4);
    assert!(matches!(b.instructions[0], Instruction::StackAlloc { destination: ValueId(0), count: 1 }));
    assert!(matches!(b.instructions[2], Instruction::Store { ptr: ValueId(0), value: ValueId(1) }));
}

#[test]
fn field_and_element_pointers() {
    let mut values = ValueTable::new();
    let mut b = BasicBlock::new(BasicBlockId(0));
    let fields = || {
        Type::Struct(List::from_vec(vec![
            CheckedParam { id: DefinitionId(0), identifier: IdentifierNode { name: StringId(0), span: dummy_span() }, constraint: Type::Bool },
            CheckedParam { id: DefinitionId(0), identifier: IdentifierNode { name: StringId(1), span: dummy_span() }, constraint: Type::Char },
        ]))
    };
    let s = b.emit_stack_alloc(&mut values, fields(), 1);
    let f = b.emit_get_field_ptr_by_index(&mut values, s, 1);
    match values.type_of(f) {
        Type::Pointer { constraint, narrowed_to } => {
            assert!(matches!(**constraint, Type::Char));
            assert!(matches!(**narrowed_to, Type::Char));
        }
        _ => panic!("expected a pointer"),
    }
    let list = b.new_value_id(&mut values, Type::List(Box::new(Type::U8)));
    let idx = b.new_value_id(&mut values, Type::USize);
    let e = b.emit_get_element_ptr(&mut values, list, idx);
    match values.type_of(e) {
        Type::Pointer { narrowed_to, .. } => assert!(matches!(**narrowed_to, Type::U8)),
        _ => panic!("expected a pointer"),
    }
    let h = b.emit_heap_alloc(&mut values, Type::U8, idx);
    assert!(matches!(b.instructions.last(), Some(Instruction::HeapAlloc { destination, count }) if *destination == h && *count == idx));
}

#[test]
fn terminators_end_a_block() {
    let mut blocks = vec![
        BasicBlock::new(BasicBlockId(0)),
        BasicBlock::new(BasicBlockId(1)),
        BasicBlock::new(BasicBlockId(2)),
        BasicBlock::new(BasicBlockId(3)),
    ];
    BasicBlock::cond_jmp(&mut blocks, BasicBlockId(0), ValueId(4), BasicBlockId(1), vec![], BasicBlockId(2), vec![ValueId(5)]);
    match &blocks[0].terminator {
        Some(Terminator::CondJump { condition, true_target, false_args, .. }) => {
            assert_eq!(*condition, ValueId(4));
            assert_eq!(*true_target, BasicBlockId(1));
            assert_eq!(false_args, &vec![ValueId(5)]);
        }
        _ => panic!(),
    }
    assert_eq!(blocks[1].predecessors, vec![BasicBlockId(0)]);
    assert_eq!(blocks[2].predecessors, vec![BasicBlockId(0)]);
    let mut r = BasicBlock::new(BasicBlockId(1));
    r.ret(Some(ValueId(1)));
    assert!(matches!(r.terminator, Some(Terminator::Return { value: Some(ValueId(1)) })));
    let mut u = BasicBlock::new(BasicBlockId(2));
    u.unreachable();
    assert!(matches!(u.terminator, Some(Terminator::Unreachable)));
    BasicBlock::jmp(&mut blocks, BasicBlockId(3), BasicBlockId(0), vec![]);
    assert!(matches!(blocks[3].terminator, Some(Terminator::Jump { target: BasicBlockId(0), .. })));
    assert_eq!(blocks[0].predecessors, vec![BasicBlockId(3)]);
    // a second edge from the same block is recorded once
    BasicBlock::jmp(&mut blocks, BasicBlockId(1), BasicBlockId(2), vec![]);
    assert_eq!(blocks[2].predecessors, vec![BasicBlockId(0), BasicBlockId(1)]);
}

#[test]
fn mapped_values_latest_wins() {
    let mut b = BasicBlock::new(BasicBlockId(0));
    assert_eq!(b.get_mapped_value(ValueId(1)), None);
    b.map_value(ValueId(1), ValueId(5));
    b.map_value(ValueId(2), ValueId(6));
    b.map_value(ValueId(1), ValueId(7));
    assert_eq!(b.get_mapped_value(ValueId(1)), Some(ValueId(7)));
    assert_eq!(b.get_mapped_value(ValueId(2)), Some(ValueId(6)));
}

#[test]
fn poison_values_record_the_error() {
    let mut values = ValueTable::new();
    let mut errors = Vec::new();
    let b = BasicBlock::new(BasicBlockId(0));
    let v = b.report_error_and_get_poison(
        &mut values,
        &mut errors,
        SemanticError { kind: SemanticErrorKind::InvalidLValue, span: dummy_span() },
    );
    assert_eq!(errors.len(), 1);
    assert!(matches!(values.type_of(v), Type::Unknown));
}

#[test]
fn number_literals_are_their_own_operands() {
    let mut f = FunctionBuilder::new(Type::Void);
    assert_eq!(f.build_number_literal(NumberKind::U8(3)), Value::NumberLiteral(NumberKind::U8(3)));
}

#[test]
fn terminators_record_predecessors() {
    let mut f = FunctionBuilder::new(Type::Void);
    let a = f.new_basic_block();
    let b = f.new_basic_block();
    assert_eq!((a, b), (BasicBlockId(1), BasicBlockId(2)));
    f.set_basic_block_terminator(Terminator::CondJump {
        condition: ValueId(0),
        true_target: a,
        true_args: vec![],
        false_target: b,
        false_args: vec![],
    });
    assert_eq!(f.cfg.blocks[1].predecessors, vec![BasicBlockId(0)]);
    assert_eq!(f.cfg.blocks[2].predecessors, vec![BasicBlockId(0)]);
    f.use_basic_block(a);
    f.set_basic_block_terminator(Terminator::Jump { target: b, args: vec![] });
    assert_eq!(f.cfg.blocks[2].predecessors, vec![BasicBlockId(0), BasicBlockId(1)]);
}

#[test]
fn a_value_used_where_it_is_defined_is_itself() {
    let mut values = ValueTable::new();
    let mut f = FunctionBuilder::new(Type::Void);
    let v = f.cfg.blocks[0].new_value_id(&mut values, Type::I32);
    assert_eq!(f.use_value_in_block(&mut values, BasicBlockId(0), v), v);
    assert_eq!(values.types.len(), 1);
}

#[test]
fn diamond_gets_a_parameter_filled_by_both_sides() {
    let mut values = ValueTable::new();
    let mut f = FunctionBuilder::new(Type::I32);
    let entry = BasicBlockId(0);
    let left = f.new_basic_block();
    let right = f.new_basic_block();
    let merge = f.new_basic_block();
    let x = f.cfg.blocks[0].new_value_id(&mut values, Type::I32);
    let cond = f.cfg.blocks[0].new_value_id(&mut values, Type::Bool);
    f.set_basic_block_terminator(Terminator::CondJump {
        condition: cond,
        true_target: left,
        true_args: vec![],
        false_target: right,
        false_args: vec![],
    });
    f.seal_block(&mut values, left);
    f.seal_block(&mut values, right);
    f.use_basic_block(left);
    let y = f.cfg.blocks[1].new_value_id(&mut values, Type::I32);
    f.set_basic_block_terminator(Terminator::Jump { target: merge, args: vec![] });
    f.use_basic_block(right);
    f.set_basic_block_terminator(Terminator::Jump { target: merge, args: vec![] });
    // merge is still open: the use waits for sealing.
    let p = f.use_value_in_block(&mut values, merge, x);
    assert_eq!(f.cfg.blocks[3].params, vec![p]);
    assert_eq!(f.cfg.blocks[3].incomplete_params, vec![(p, x)]);
    assert!(same_type(values.type_of(p), &Type::I32));
    // a second use gives the same value and adds nothing
    let count = values.types.len();
    assert_eq!(f.use_value_in_block(&mut values, merge, x), p);
    assert_eq!(values.types.len(), count);
    f.seal_block(&mut values, merge);
    assert!(f.cfg.blocks[3].sealed);
    assert!(f.cfg.blocks[3].incomplete_params.is_empty());
    // each side passes its own value for x: both see x through their own parameters
    for side in [1usize, 2] {
        match &f.cfg.blocks[side].terminator {
            Some(Terminator::Jump { target, args }) => {
                assert_eq!(*target, merge);
                assert_eq!(args.len(), 1);
                let passed = args[0];
                assert_eq!(f.cfg.blocks[side].get_mapped_value(x), Some(passed));
                assert_eq!(f.cfg.blocks[side].params, vec![passed]);
            }
            _ => panic!("expected a jump"),
        }
    }
    // the entry defines x and passes it on to both sides
    match &f.cfg.blocks[entry.0].terminator {
        Some(Terminator::CondJump { true_args, false_args, .. }) => {
            assert_eq!(true_args, &vec![x]);
            assert_eq!(false_args, &vec![x]);
        }
        _ => panic!("expected a conditional jump"),
    }
    let _ = y;
}

#[test]
fn loop_header_refers_to_itself_without_looping() {
    let mut values = ValueTable::new();
    let mut f = FunctionBuilder::new(Type::Void);
    let header = f.new_basic_block();
    let x = f.cfg.blocks[0].new_value_id(&mut values, Type::Char);
    f.set_basic_block_terminator(Terminator::Jump { target: header, args: vec![] });
    f.use_basic_block(header);
    f.set_basic_block_terminator(Terminator::Jump { target: header, args: vec![] });
    f.seal_block(&mut values, header);
    let p = f.use_value_in_block(&mut values, header, x);
    match &f.cfg.blocks[1].terminator {
        Some(Terminator::Jump { args, .. }) => assert_eq!(args, &vec![p]),
        _ => panic!(),
    }
    match &f.cfg.blocks[0].terminator {
        Some(Terminator::Jump { args, .. }) => assert_eq!(args, &vec![x]),
        _ => panic!(),
    }
}

#[test]
fn new_module_exports_nothing() {
    let m = CheckedModule::new("src/main.tern".to_string());
    assert_eq!(m.path, "src/main.tern");
    assert!(m.exports.is_empty());
    let b = ModuleBuilder::new("lib.tern".to_string());
    assert_eq!(b.scopes.len(), 1);
    assert!(b.errors.is_empty());
}

#[test]
fn reading_a_field_of_a_local_struct() {
    let mut values = ValueTable::new();
    let mut f = FunctionBuilder::new(Type::Void);
    let fields = Type::Struct(List::from_vec(vec![
        CheckedParam { id: DefinitionId(0), identifier: IdentifierNode { name: StringId(0), span: dummy_span() }, constraint: Type::Bool },
        CheckedParam { id: DefinitionId(0), identifier: IdentifierNode { name: StringId(1), span: dummy_span() }, constraint: Type::Char },
    ]));
    let s = f.cfg.blocks[0].emit_stack_alloc(&mut values, fields, 1);
    let r = f.read_place(&mut values, Place { root: s, projections: vec![Projection::Field(1)] });
    assert!(matches!(values.type_of(r), Type::Char));
    assert_eq!(f.cfg.blocks[0].instructions.len(), 3);
    assert!(matches!(f.cfg.blocks[0].instructions[1], Instruction::GetFieldPtr { base_ptr, field_index: 1, .. } if base_ptr == s));
    assert!(matches!(f.cfg.blocks[0].instructions[2], Instruction::Load { .. }));
}

#[test]
fn reading_through_a_pointer_in_another_block() {
    let mut values = ValueTable::new();
    let mut f = FunctionBuilder::new(Type::Void);
    let p = f.cfg.blocks[0].emit_stack_alloc(&mut values, Type::I32, 1);
    let next = f.new_basic_block();
    f.set_basic_block_terminator(Terminator::Jump { target: next, args: vec![] });
    f.seal_block(&mut values, next);
    f.use_basic_block(next);
    let r = f.read_place(&mut values, Place { root: p, projections: vec![] });
    assert!(matches!(values.type_of(r), Type::I32));
    assert_eq!(f.cfg.blocks[1].params.len(), 1);
    let local = f.cfg.blocks[1].params[0];
    assert_eq!(f.cfg.blocks[1].get_mapped_value(p), Some(local));
    assert!(matches!(f.cfg.blocks[1].instructions[0], Instruction::Load { ptr, .. } if ptr == local));
    match &f.cfg.blocks[0].terminator {
        Some(Terminator::Jump { args, .. }) => assert_eq!(args, &vec![p]),
        _ => panic!(),
    }
}
