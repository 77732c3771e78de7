use codegen_context::abi::{ABIOperand, ABIResults, RetArea};
use codegen_context::builtins::BuiltinFunctions;
use codegen_context::context::CodeGenContext;
use codegen_context::control::{ControlStackFrame, StackState};
use codegen_context::frame::{Frame, LocalSlot};
use codegen_context::listing::ListingAssembler;
use codegen_context::masm::{Address, Imm, Inst, Label, MacroAssembler, RegImm, SPOffset, StackSlot};
use codegen_context::reg::{Reg, RegClass};
use codegen_context::regalloc::{RegAlloc, RegBitSet};
use codegen_context::stack::{Stack, TypedReg, Val};
use codegen_context::types::{OperandSize, WasmHeapType, WasmRefType, WasmType};
use wasmtime_environ::{Module, VMOffsets};

fn offsets() -> VMOffsets<u8> {
    VMOffsets::new(8u8, &Module::new())
}

fn regalloc(gpr: u64, fpr: u64) -> RegAlloc {
    RegAlloc::new(RegBitSet::new(gpr), RegBitSet::new(fpr))
}

fn two_locals() -> Frame {
    Frame::new(vec![LocalSlot::new(WasmType::I32, 8), LocalSlot::new(WasmType::F64, 16)], 16)
}

fn stack_registers(stack: &mut Stack) -> Vec<Reg> {
    let mut regs = Vec::new();
    let mut i = 0;
    while i < stack.len() {
        if let Val::Reg(tr) = stack.get(i) {
            regs.push(tr.reg);
        }
        i += 1;
    }
    regs
}

#[test]
fn new_context_is_reachable_and_keeps_its_parts() {
    let mut builtins = BuiltinFunctions::new(8);
    let vm = offsets();
    let mut stack = Stack::new();
    stack.push(Val::i32(1));
    let ctx = CodeGenContext::new(regalloc(0b11, 0b1), stack, two_locals(), &mut builtins, &vm);
    assert!(ctx.reachable);
    assert_eq!(ctx.regalloc, regalloc(0b11, 0b1));
    assert_eq!(ctx.stack.len(), 1);
    assert_eq!(ctx.frame.get_local(1), Some(LocalSlot::new(WasmType::F64, 16)));
    assert_eq!(ctx.builtins.ptr_size(), 8);
    assert_eq!(ctx.vmoffsets.pointer_size(), 8);
}

#[test]
fn adding_two_constants_takes_one_register() {
    let mut builtins = BuiltinFunctions::new(8);
    let vm = offsets();
    let mut masm = ListingAssembler::new();
    let mut ctx = CodeGenContext::new(regalloc(0b1111, 0b11), Stack::new(), two_locals(), &mut builtins, &vm);
    ctx.stack.push(Val::i32(3));
    ctx.stack.push(Val::i32(4));
    ctx.i32_binop(&mut masm, |masm: &mut ListingAssembler, dst, src, size| {
        masm.add(dst, dst, src, size);
        TypedReg::i32(dst)
    });
    assert_eq!(ctx.stack.len(), 1);
    assert_eq!(ctx.stack.peek(), Some(&Val::Reg(TypedReg { ty: WasmType::I32, reg: Reg::gpr(0) })));
    // Only the destination register is in use.
    assert_eq!(ctx.regalloc.gpr.free, 0b1110);
    assert_eq!(ctx.regalloc.fpr.free, 0b11);
    assert_eq!(
        masm.instructions(),
        &vec![
            Inst::Mov { src: RegImm::Imm(Imm::I32(3)), dst: Reg::gpr(0), size: OperandSize::S32 },
            Inst::Add {
                dst: Reg::gpr(0),
                lhs: Reg::gpr(0),
                rhs: RegImm::Imm(Imm::I32(4)),
                size: OperandSize::S32
            },
        ]
    );
    assert_eq!(masm.sp_offset().as_u32(), 0);
}

#[test]
fn request_beyond_the_last_register_spills_the_stack_entry() {
    let mut builtins = BuiltinFunctions::new(8);
    let vm = offsets();
    let mut masm = ListingAssembler::new();
    let mut ctx = CodeGenContext::new(regalloc(0b111, 0), Stack::new(), two_locals(), &mut builtins, &vm);
    masm.reserve_stack(16);
    // All three registers are handed out; one of them goes on the stack.
    let first = ctx.any_gpr(&mut masm);
    assert_eq!(first, Reg::gpr(0));
    ctx.stack.push(Val::i64(9));
    ctx.stack.push(Val::reg(first, WasmType::I64));
    assert_eq!(ctx.any_gpr(&mut masm), Reg::gpr(1));
    assert_eq!(ctx.any_gpr(&mut masm), Reg::gpr(2));
    assert_eq!(ctx.regalloc.gpr.free, 0);
    assert_eq!(masm.instructions().len(), 1);
    // One more: the entry in a register moves to memory, at the offset that
    // the stack pointer has after the push, and its register is handed out.
    let got = ctx.any_gpr(&mut masm);
    assert_eq!(got, Reg::gpr(0));
    assert_eq!(masm.sp_offset().as_u32(), 24);
    assert_eq!(ctx.stack.len(), 2);
    assert_eq!(ctx.stack.get(0), Val::I64(9));
    assert_eq!(ctx.stack.get(1), Val::mem(WasmType::I64, StackSlot::new(SPOffset::from_u32(24), 8)));
    assert_eq!(ctx.regalloc.gpr.free, 0);
    assert_eq!(
        masm.instructions(),
        &vec![Inst::ReserveStack { bytes: 16 }, Inst::Push { src: Reg::gpr(0), size: OperandSize::S64 }]
    );
}

#[test]
fn named_register_held_by_the_stack_is_spilled_and_handed_out() {
    let mut builtins = BuiltinFunctions::new(8);
    let vm = offsets();
    let mut masm = ListingAssembler::new();
    let mut ctx = CodeGenContext::new(regalloc(0b111, 0), Stack::new(), two_locals(), &mut builtins, &vm);
    let r = ctx.reg(Reg::gpr(2), &mut masm);
    assert_eq!(r, Reg::gpr(2));
    assert_eq!(ctx.regalloc.gpr.free, 0b011);
    assert!(masm.instructions().is_empty());
    ctx.stack.push(Val::reg(r, WasmType::I32));
    let again = ctx.reg(Reg::gpr(2), &mut masm);
    assert_eq!(again, Reg::gpr(2));
    assert_eq!(ctx.stack.get(0), Val::mem(WasmType::I32, StackSlot::new(SPOffset::from_u32(4), 4)));
    assert_eq!(ctx.regalloc.gpr.free, 0b011);
    assert_eq!(masm.instructions(), &vec![Inst::Push { src: Reg::gpr(2), size: OperandSize::S32 }]);
}

#[test]
fn register_for_a_type_comes_from_its_class() {
    let mut builtins = BuiltinFunctions::new(8);
    let vm = offsets();
    let mut masm = ListingAssembler::new();
    let mut ctx = CodeGenContext::new(regalloc(0b1110, 0b110), Stack::new(), two_locals(), &mut builtins, &vm);
    let funcref = WasmType::Ref(WasmRefType { nullable: true, heap_type: WasmHeapType::Func });
    assert_eq!(ctx.reg_for_type(WasmType::I32, &mut masm), Reg::gpr(1));
    assert_eq!(ctx.reg_for_type(WasmType::F32, &mut masm), Reg::fpr(1));
    assert_eq!(ctx.reg_for_type(WasmType::I64, &mut masm), Reg::gpr(2));
    assert_eq!(ctx.reg_for_type(WasmType::F64, &mut masm), Reg::fpr(2));
    assert_eq!(ctx.reg_for_type(funcref, &mut masm), Reg::gpr(3));
    assert_eq!(ctx.regalloc.gpr.free, 0);
    assert_eq!(ctx.regalloc.fpr.free, 0);
    ctx.free_reg(Reg::fpr(1));
    assert_eq!(ctx.reg_for_class(RegClass::Float, &mut masm), Reg::fpr(1));
    assert!(masm.instructions().is_empty());
}

#[test]
fn local_is_stored_through_scratch_and_left_alone() {
    let mut builtins = BuiltinFunctions::new(8);
    let vm = offsets();
    let mut masm = ListingAssembler::new();
    let mut ctx = CodeGenContext::new(regalloc(0b111, 0b11), Stack::new(), two_locals(), &mut builtins, &vm);
    ctx.stack.push(Val::local(0, WasmType::I32));
    ctx.pop_to_addr(&mut masm, Address::Stack(24));
    assert_eq!(ctx.stack.len(), 0);
    assert_eq!(
        masm.instructions(),
        &vec![
            Inst::Load { src: Address::Local(8), dst: Reg::gpr(11), size: OperandSize::S32 },
            Inst::Store { src: RegImm::Reg(Reg::gpr(11)), dst: Address::Stack(24), size: OperandSize::S32 },
        ]
    );
    // Nothing is stored to the local, and the frame and the inventory are
    // as before.
    assert_eq!(ctx.frame.get_local(0), Some(LocalSlot::new(WasmType::I32, 8)));
    assert_eq!(ctx.frame.get_local(1), Some(LocalSlot::new(WasmType::F64, 16)));
    assert_eq!(ctx.regalloc, regalloc(0b111, 0b11));
    assert_eq!(masm.sp_offset().as_u32(), 0);
}

#[test]
fn pop_to_addr_stores_each_kind_of_entry() {
    let mut builtins = BuiltinFunctions::new(8);
    let vm = offsets();
    let mut masm = ListingAssembler::new();
    let mut ctx = CodeGenContext::new(regalloc(0b111, 0b11), Stack::new(), two_locals(), &mut builtins, &vm);
    let r = ctx.reg(Reg::fpr(1), &mut masm);
    let slot = masm.push(Reg::gpr(2), OperandSize::S64);
    ctx.stack.push(Val::mem(WasmType::I64, slot));
    ctx.stack.push(Val::float64(0x4000_0000_0000_0000));
    ctx.stack.push(Val::float32(0x3f80_0000));
    ctx.stack.push(Val::i64(-1));
    ctx.stack.push(Val::i32(5));
    ctx.stack.push(Val::reg(r, WasmType::F32));
    let addr = Address::Local(32);
    for _ in 0..6 {
        ctx.pop_to_addr(&mut masm, addr);
    }
    assert_eq!(ctx.stack.len(), 0);
    assert_eq!(ctx.regalloc, regalloc(0b111, 0b11));
    assert_eq!(masm.sp_offset().as_u32(), 0);
    assert_eq!(
        masm.instructions(),
        &vec![
            Inst::Push { src: Reg::gpr(2), size: OperandSize::S64 },
            Inst::Store { src: RegImm::Reg(Reg::fpr(1)), dst: addr, size: OperandSize::S32 },
            Inst::Store { src: RegImm::Imm(Imm::I32(5)), dst: addr, size: OperandSize::S32 },
            Inst::Store { src: RegImm::Imm(Imm::I64(-1)), dst: addr, size: OperandSize::S64 },
            Inst::Store { src: RegImm::Imm(Imm::F32(0x3f80_0000)), dst: addr, size: OperandSize::S32 },
            Inst::Store { src: RegImm::Imm(Imm::F64(0x4000_0000_0000_0000)), dst: addr, size: OperandSize::S64 },
            Inst::Pop { dst: Reg::gpr(11), size: OperandSize::S64 },
            Inst::Store { src: RegImm::Reg(Reg::gpr(11)), dst: addr, size: OperandSize::S64 },
        ]
    );
}

#[test]
fn dropping_the_top_two_frees_their_registers_only() {
    let mut builtins = BuiltinFunctions::new(8);
    let vm = offsets();
    let mut masm = ListingAssembler::new();
    let mut ctx = CodeGenContext::new(regalloc(0b1111, 0b11), Stack::new(), two_locals(), &mut builtins, &vm);
    let kept = ctx.any_gpr(&mut masm);
    ctx.stack.push(Val::i32(1));
    ctx.stack.push(Val::reg(kept, WasmType::I32));
    ctx.stack.push(Val::local(1, WasmType::F64));
    let a = ctx.any_gpr(&mut masm);
    ctx.stack.push(Val::reg(a, WasmType::I64));
    let b = ctx.reg_for_class(RegClass::Float, &mut masm);
    ctx.stack.push(Val::reg(b, WasmType::F32));
    assert_eq!(ctx.regalloc, RegAlloc {
        gpr: RegBitSet { allocatable: 0b1111, free: 0b1100 },
        fpr: RegBitSet { allocatable: 0b11, free: 0b10 },
    });
    ctx.drop_last(2, |regalloc: &mut RegAlloc, val: &Val| {
        if let Val::Reg(tr) = val {
            regalloc.free(tr.reg);
        }
    });
    let seen = std::cell::RefCell::new(Vec::new());
    ctx.drop_last(0, |_regalloc: &mut RegAlloc, val: &Val| {
        seen.borrow_mut().push(*val);
    });
    assert!(seen.into_inner().is_empty());
    assert_eq!(ctx.stack.len(), 3);
    assert_eq!(ctx.stack.get(0), Val::I32(1));
    assert_eq!(ctx.stack.get(1), Val::reg(Reg::gpr(0), WasmType::I32));
    assert_eq!(ctx.stack.get(2), Val::local(1, WasmType::F64));
    assert_eq!(ctx.regalloc, RegAlloc {
        gpr: RegBitSet { allocatable: 0b1111, free: 0b1110 },
        fpr: RegBitSet { allocatable: 0b11, free: 0b11 },
    });
    assert!(masm.instructions().is_empty());
}

#[test]
fn drop_last_visits_entries_from_the_top_down() {
    let mut builtins = BuiltinFunctions::new(8);
    let vm = offsets();
    let mut ctx = CodeGenContext::new(regalloc(0b11, 0), Stack::new(), two_locals(), &mut builtins, &vm);
    ctx.stack.push(Val::i32(1));
    ctx.stack.push(Val::i32(2));
    ctx.stack.push(Val::i32(3));
    let seen = std::cell::RefCell::new(Vec::new());
    ctx.drop_last(2, |_regalloc: &mut RegAlloc, val: &Val| {
        seen.borrow_mut().push(*val);
    });
    assert_eq!(seen.into_inner(), vec![Val::I32(3), Val::I32(2)]);
    assert_eq!(ctx.stack.len(), 1);
    assert_eq!(ctx.stack.get(0), Val::I32(1));
}

#[test]
fn truncating_frees_the_registers_above_the_cut() {
    let mut builtins = BuiltinFunctions::new(8);
    let vm = offsets();
    let mut masm = ListingAssembler::new();
    let mut ctx = CodeGenContext::new(regalloc(0b111, 0b1), Stack::new(), two_locals(), &mut builtins, &vm);
    let a = ctx.any_gpr(&mut masm);
    ctx.stack.push(Val::reg(a, WasmType::I32));
    let b = ctx.any_gpr(&mut masm);
    ctx.stack.push(Val::reg(b, WasmType::I32));
    ctx.stack.push(Val::i64(4));
    let c = ctx.reg_for_class(RegClass::Float, &mut masm);
    ctx.stack.push(Val::reg(c, WasmType::F64));
    // A target at or above the length changes nothing.
    ctx.truncate_stack_to(4);
    ctx.truncate_stack_to(9);
    assert_eq!(ctx.stack.len(), 4);
    assert_eq!(ctx.regalloc.gpr.free, 0b100);
    assert_eq!(ctx.regalloc.fpr.free, 0);
    ctx.truncate_stack_to(1);
    assert_eq!(ctx.stack.len(), 1);
    assert_eq!(ctx.stack.get(0), Val::reg(Reg::gpr(0), WasmType::I32));
    assert_eq!(ctx.regalloc.gpr.free, 0b110);
    assert_eq!(ctx.regalloc.fpr.free, 0b1);
    ctx.truncate_stack_to(0);
    assert_eq!(ctx.stack.len(), 0);
    assert_eq!(ctx.regalloc, regalloc(0b111, 0b1));
}

#[test]
fn pop_after_push_gives_the_register_back() {
    let mut builtins = BuiltinFunctions::new(8);
    let vm = offsets();
    let mut masm = ListingAssembler::new();
    let mut ctx = CodeGenContext::new(regalloc(0b111, 0b11), Stack::new(), two_locals(), &mut builtins, &vm);
    let r = ctx.reg_for_class(RegClass::Float, &mut masm);
    let before = ctx.regalloc;
    ctx.stack.push(Val::reg(r, WasmType::F64));
    let popped = ctx.pop_to_reg(&mut masm, None);
    assert_eq!(popped, TypedReg { ty: WasmType::F64, reg: r });
    assert_eq!(ctx.stack.len(), 0);
    assert_eq!(ctx.regalloc, before);
    // The same holds when that very register is asked for.
    ctx.stack.push(Val::reg(r, WasmType::F64));
    let popped = ctx.pop_to_reg(&mut masm, Some(r));
    assert_eq!(popped, TypedReg { ty: WasmType::F64, reg: r });
    assert_eq!(ctx.regalloc, before);
    assert!(masm.instructions().is_empty());
}

#[test]
fn pop_into_another_register_moves_and_frees_the_source() {
    let mut builtins = BuiltinFunctions::new(8);
    let vm = offsets();
    let mut masm = ListingAssembler::new();
    let mut ctx = CodeGenContext::new(regalloc(0b111, 0b11), Stack::new(), two_locals(), &mut builtins, &vm);
    let r = ctx.any_gpr(&mut masm);
    assert_eq!(r, Reg::gpr(0));
    ctx.stack.push(Val::reg(r, WasmType::I64));
    let popped = ctx.pop_to_reg(&mut masm, Some(Reg::gpr(2)));
    assert_eq!(popped, TypedReg { ty: WasmType::I64, reg: Reg::gpr(2) });
    assert_eq!(ctx.stack.len(), 0);
    assert_eq!(ctx.regalloc.gpr.free, 0b011);
    assert_eq!(
        masm.instructions(),
        &vec![Inst::Mov { src: RegImm::Reg(Reg::gpr(0)), dst: Reg::gpr(2), size: OperandSize::S64 }]
    );
}

#[test]
fn pop_to_reg_materializes_each_kind_of_entry() {
    let mut builtins = BuiltinFunctions::new(8);
    let vm = offsets();
    let mut masm = ListingAssembler::new();
    let mut ctx = CodeGenContext::new(regalloc(0b1111, 0b1111), Stack::new(), two_locals(), &mut builtins, &vm);
    ctx.stack.push(Val::local(1, WasmType::F64));
    ctx.stack.push(Val::float32(3));
    ctx.stack.push(Val::i64(7));
    ctx.stack.push(Val::local(0, WasmType::I32));
    assert_eq!(ctx.pop_to_reg(&mut masm, None), TypedReg::i32(Reg::gpr(0)));
    assert_eq!(ctx.pop_to_reg(&mut masm, Some(Reg::gpr(3))), TypedReg::i64(Reg::gpr(3)));
    assert_eq!(ctx.pop_to_reg(&mut masm, None), TypedReg::new(WasmType::F32, Reg::fpr(0)));
    assert_eq!(ctx.pop_to_reg(&mut masm, None), TypedReg::new(WasmType::F64, Reg::fpr(1)));
    assert_eq!(ctx.stack.len(), 0);
    assert_eq!(ctx.regalloc.gpr.free, 0b0110);
    assert_eq!(ctx.regalloc.fpr.free, 0b1100);
    assert_eq!(
        masm.instructions(),
        &vec![
            Inst::Load { src: Address::Local(8), dst: Reg::gpr(0), size: OperandSize::S32 },
            Inst::Mov { src: RegImm::Imm(Imm::I64(7)), dst: Reg::gpr(3), size: OperandSize::S64 },
            Inst::Mov { src: RegImm::Imm(Imm::F32(3)), dst: Reg::fpr(0), size: OperandSize::S32 },
            Inst::Load { src: Address::Local(16), dst: Reg::fpr(1), size: OperandSize::S64 },
        ]
    );
}

#[test]
fn pop_to_reg_pops_a_memory_entry_from_the_machine_stack() {
    let mut builtins = BuiltinFunctions::new(8);
    let vm = offsets();
    let mut masm = ListingAssembler::new();
    let mut ctx = CodeGenContext::new(regalloc(0b11, 0b1), Stack::new(), two_locals(), &mut builtins, &vm);
    let r = ctx.any_gpr(&mut masm);
    ctx.stack.push(Val::reg(r, WasmType::I64));
    ctx.spill(&mut masm);
    assert_eq!(masm.sp_offset().as_u32(), 8);
    assert_eq!(ctx.stack.get(0), Val::mem(WasmType::I64, StackSlot::new(SPOffset::from_u32(8), 8)));
    let popped = ctx.pop_to_reg(&mut masm, None);
    assert_eq!(popped, TypedReg::i64(Reg::gpr(0)));
    assert_eq!(masm.sp_offset().as_u32(), 0);
    assert_eq!(ctx.stack.len(), 0);
    assert_eq!(ctx.regalloc.gpr.free, 0b10);
    assert_eq!(
        masm.instructions(),
        &vec![
            Inst::Push { src: Reg::gpr(0), size: OperandSize::S64 },
            Inst::Pop { dst: Reg::gpr(0), size: OperandSize::S64 },
        ]
    );
}

#[test]
fn move_val_to_reg_emits_one_instruction_and_keeps_the_stack() {
    let mut builtins = BuiltinFunctions::new(8);
    let vm = offsets();
    let mut masm = ListingAssembler::new();
    let mut ctx = CodeGenContext::new(regalloc(0b11, 0b1), Stack::new(), two_locals(), &mut builtins, &vm);
    ctx.stack.push(Val::i32(1));
    let dst = Reg::gpr(1);
    let slot = StackSlot::new(SPOffset::from_u32(40), 8);
    ctx.move_val_to_reg(&Val::reg(Reg::gpr(0), WasmType::I32), dst, &mut masm);
    ctx.move_val_to_reg(&Val::i32(-3), dst, &mut masm);
    ctx.move_val_to_reg(&Val::i64(i64::MAX), dst, &mut masm);
    ctx.move_val_to_reg(&Val::float32(u32::MAX), Reg::fpr(0), &mut masm);
    ctx.move_val_to_reg(&Val::float64(1), Reg::fpr(0), &mut masm);
    // The size of a load of a local is that of the slot of the local.
    ctx.move_val_to_reg(&Val::local(1, WasmType::I32), Reg::fpr(0), &mut masm);
    ctx.move_val_to_reg(&Val::mem(WasmType::I64, slot), dst, &mut masm);
    assert_eq!(ctx.stack.len(), 1);
    assert_eq!(ctx.regalloc, regalloc(0b11, 0b1));
    assert_eq!(masm.sp_offset().as_u32(), 0);
    assert_eq!(
        masm.instructions(),
        &vec![
            Inst::Mov { src: RegImm::Reg(Reg::gpr(0)), dst, size: OperandSize::S32 },
            Inst::Mov { src: RegImm::Imm(Imm::I32(-3)), dst, size: OperandSize::S32 },
            Inst::Mov { src: RegImm::Imm(Imm::I64(i64::MAX)), dst, size: OperandSize::S64 },
            Inst::Mov { src: RegImm::Imm(Imm::F32(u32::MAX)), dst: Reg::fpr(0), size: OperandSize::S32 },
            Inst::Mov { src: RegImm::Imm(Imm::F64(1)), dst: Reg::fpr(0), size: OperandSize::S64 },
            Inst::Load { src: Address::Local(16), dst: Reg::fpr(0), size: OperandSize::S64 },
            Inst::Load { src: Address::Stack(40), dst, size: OperandSize::S64 },
        ]
    );
}

#[test]
fn spill_moves_registers_and_locals_to_memory_in_stack_order() {
    let mut builtins = BuiltinFunctions::new(8);
    let vm = offsets();
    let mut masm = ListingAssembler::new();
    let mut ctx = CodeGenContext::new(regalloc(0b111, 0b11), Stack::new(), two_locals(), &mut builtins, &vm);
    let a = ctx.any_gpr(&mut masm);
    let b = ctx.reg_for_class(RegClass::Float, &mut masm);
    ctx.stack.push(Val::i32(1));
    ctx.stack.push(Val::reg(a, WasmType::I32));
    ctx.stack.push(Val::local(1, WasmType::F64));
    ctx.stack.push(Val::local(0, WasmType::I32));
    ctx.stack.push(Val::reg(b, WasmType::F64));
    ctx.spill(&mut masm);
    assert_eq!(ctx.stack.len(), 5);
    assert_eq!(ctx.stack.get(0), Val::I32(1));
    assert_eq!(ctx.stack.get(1), Val::mem(WasmType::I32, StackSlot::new(SPOffset::from_u32(4), 4)));
    assert_eq!(ctx.stack.get(2), Val::mem(WasmType::F64, StackSlot::new(SPOffset::from_u32(12), 8)));
    assert_eq!(ctx.stack.get(3), Val::mem(WasmType::I32, StackSlot::new(SPOffset::from_u32(16), 4)));
    assert_eq!(ctx.stack.get(4), Val::mem(WasmType::F64, StackSlot::new(SPOffset::from_u32(24), 8)));
    // The sizes of the slots add up to the stack pointer offset.
    assert_eq!(masm.sp_offset().as_u32(), 4 + 8 + 4 + 8);
    assert_eq!(ctx.regalloc, regalloc(0b111, 0b11));
    assert_eq!(
        masm.instructions(),
        &vec![
            Inst::Push { src: Reg::gpr(0), size: OperandSize::S32 },
            Inst::Load { src: Address::Local(16), dst: Reg::fpr(15), size: OperandSize::S64 },
            Inst::Push { src: Reg::fpr(15), size: OperandSize::S64 },
            Inst::Load { src: Address::Local(8), dst: Reg::gpr(11), size: OperandSize::S32 },
            Inst::Push { src: Reg::gpr(11), size: OperandSize::S32 },
            Inst::Push { src: Reg::fpr(0), size: OperandSize::S64 },
        ]
    );
    // The locals are where they were.
    assert_eq!(ctx.frame.get_local(0), Some(LocalSlot::new(WasmType::I32, 8)));
    assert_eq!(ctx.frame.get_local(1), Some(LocalSlot::new(WasmType::F64, 16)));
}

#[test]
fn spill_with_nothing_to_spill_changes_nothing() {
    let mut builtins = BuiltinFunctions::new(8);
    let vm = offsets();
    let mut masm = ListingAssembler::new();
    let mut ctx = CodeGenContext::new(regalloc(0b111, 0b11), Stack::new(), two_locals(), &mut builtins, &vm);
    ctx.spill(&mut masm);
    assert_eq!(masm.sp_offset().as_u32(), 0);
    let r = ctx.any_gpr(&mut masm);
    ctx.stack.push(Val::i32(1));
    ctx.stack.push(Val::reg(r, WasmType::I64));
    ctx.stack.push(Val::float64(2));
    ctx.spill(&mut masm);
    let listed = masm.instructions().clone();
    let inventory = ctx.regalloc;
    assert_eq!(masm.sp_offset().as_u32(), 8);
    // A second spill finds constants and memory entries only.
    ctx.spill(&mut masm);
    assert_eq!(masm.sp_offset().as_u32(), 8);
    assert_eq!(masm.instructions(), &listed);
    assert_eq!(ctx.regalloc, inventory);
    assert_eq!(ctx.stack.get(0), Val::I32(1));
    assert_eq!(ctx.stack.get(1), Val::mem(WasmType::I64, StackSlot::new(SPOffset::from_u32(8), 8)));
    assert_eq!(ctx.stack.get(2), Val::F64(2));
}

#[test]
fn jump_brings_the_stack_pointer_to_the_target_offset() {
    let mut builtins = BuiltinFunctions::new(8);
    let vm = offsets();
    let mut masm = ListingAssembler::new();
    let mut ctx = CodeGenContext::new(regalloc(0b111, 0b11), Stack::new(), two_locals(), &mut builtins, &vm);
    ctx.stack.push(Val::i32(1));
    ctx.stack.push(Val::i32(2));
    masm.reserve_stack(24);
    let state = StackState {
        base_offset: SPOffset::from_u32(8),
        target_offset: SPOffset::from_u32(16),
        base_len: 0,
        target_len: 1,
    };
    let mut dest = ControlStackFrame::new(state, Label(7));
    assert!(ctx.reachable);
    ctx.unconditional_jump(&mut dest, &mut masm, |_masm: &mut ListingAssembler, _ctx, _dest| {});
    assert_eq!(masm.sp_offset().as_u32(), 16);
    assert!(!ctx.reachable);
    assert!(dest.is_branch_target());
    // The operand stack is not cut down here.
    assert_eq!(ctx.stack.len(), 2);
    assert_eq!(
        masm.instructions(),
        &vec![Inst::ReserveStack { bytes: 24 }, Inst::FreeStack { bytes: 8 }, Inst::Jmp { target: Label(7) }]
    );
}

#[test]
fn jump_after_results_were_popped_below_the_target() {
    let mut builtins = BuiltinFunctions::new(8);
    let vm = offsets();
    let mut masm = ListingAssembler::new();
    let mut ctx = CodeGenContext::new(regalloc(0b111, 0b11), Stack::new(), two_locals(), &mut builtins, &vm);
    let r = ctx.any_gpr(&mut masm);
    ctx.stack.push(Val::reg(r, WasmType::I64));
    ctx.spill(&mut masm);
    let state = StackState {
        base_offset: SPOffset::from_u32(8),
        target_offset: SPOffset::from_u32(8),
        base_len: 0,
        target_len: 0,
    };
    let mut dest = ControlStackFrame::new(state, Label(2));
    // The callback pops the result into a register, which lowers the stack
    // pointer below the offset it had at the jump site.
    ctx.unconditional_jump(&mut dest, &mut masm, |masm: &mut ListingAssembler, ctx, _dest| {
        ctx.pop_to_reg(masm, Some(Reg::gpr(0)));
        ctx.free_reg(Reg::gpr(0));
    });
    assert_eq!(masm.sp_offset().as_u32(), 8);
    assert!(!ctx.reachable);
    assert_eq!(
        masm.instructions(),
        &vec![
            Inst::Push { src: Reg::gpr(0), size: OperandSize::S64 },
            Inst::Pop { dst: Reg::gpr(0), size: OperandSize::S64 },
            Inst::ReserveStack { bytes: 8 },
            Inst::Jmp { target: Label(2) },
        ]
    );
    // At the target offset already: only the jump is emitted.
    let mut again = ControlStackFrame::new(state, Label(3));
    ctx.unconditional_jump(&mut again, &mut masm, |_masm: &mut ListingAssembler, _ctx, _dest| {});
    assert_eq!(masm.sp_offset().as_u32(), 8);
    assert_eq!(masm.instructions().len(), 5);
    assert_eq!(masm.instructions()[4], Inst::Jmp { target: Label(3) });
}

#[test]
fn immediate_and_register_paths_leave_the_same_state() {
    let add = |masm: &mut ListingAssembler, dst: Reg, src: RegImm, size: OperandSize| {
        masm.add(dst, dst, src, size);
        TypedReg::i32(dst)
    };
    for c in [0, 5, -1, i32::MAX, i32::MIN] {
        // With the constant on the stack, it is used as an immediate.
        let mut builtins = BuiltinFunctions::new(8);
        let vm = offsets();
        let mut masm = ListingAssembler::new();
        let mut ctx = CodeGenContext::new(regalloc(0b111, 0b11), Stack::new(), two_locals(), &mut builtins, &vm);
        let r = ctx.reg(Reg::gpr(1), &mut masm);
        ctx.stack.push(Val::reg(r, WasmType::I32));
        ctx.stack.push(Val::i32(c));
        ctx.i32_binop(&mut masm, add);
        // With the constant loaded into a register first, it is an operand
        // like any other.
        let mut builtins2 = BuiltinFunctions::new(8);
        let mut masm2 = ListingAssembler::new();
        let mut ctx2 = CodeGenContext::new(regalloc(0b111, 0b11), Stack::new(), two_locals(), &mut builtins2, &vm);
        let r2 = ctx2.reg(Reg::gpr(1), &mut masm2);
        ctx2.stack.push(Val::reg(r2, WasmType::I32));
        ctx2.stack.push(Val::i32(c));
        let loaded = ctx2.pop_to_reg(&mut masm2, None);
        ctx2.stack.push(Val::Reg(loaded));
        ctx2.i32_binop(&mut masm2, add);
        assert_eq!(ctx.stack.len(), 1);
        assert_eq!(ctx.stack.get(0), Val::reg(Reg::gpr(1), WasmType::I32));
        assert_eq!(ctx2.stack.len(), 1);
        assert_eq!(ctx2.stack.get(0), ctx.stack.get(0));
        assert_eq!(ctx2.regalloc, ctx.regalloc);
        assert_eq!(masm2.sp_offset(), masm.sp_offset());
        assert_eq!(
            masm.instructions(),
            &vec![Inst::Add {
                dst: Reg::gpr(1),
                lhs: Reg::gpr(1),
                rhs: RegImm::Imm(Imm::I32(c)),
                size: OperandSize::S32
            }]
        );
        assert_eq!(
            masm2.instructions(),
            &vec![
                Inst::Mov { src: RegImm::Imm(Imm::I32(c)), dst: Reg::gpr(0), size: OperandSize::S32 },
                Inst::Add {
                    dst: Reg::gpr(1),
                    lhs: Reg::gpr(1),
                    rhs: RegImm::Reg(Reg::gpr(0)),
                    size: OperandSize::S32
                },
            ]
        );
    }
}

#[test]
fn i64_binop_uses_only_i64_constants_as_immediates() {
    let mut builtins = BuiltinFunctions::new(8);
    let vm = offsets();
    let mut masm = ListingAssembler::new();
    let mut ctx = CodeGenContext::new(regalloc(0b111, 0b11), Stack::new(), two_locals(), &mut builtins, &vm);
    ctx.stack.push(Val::local(0, WasmType::I32));
    ctx.stack.push(Val::i64(1 << 40));
    ctx.i64_binop(&mut masm, |masm: &mut ListingAssembler, dst, src, size| {
        masm.add(dst, dst, src, size);
        TypedReg::i64(dst)
    });
    assert_eq!(ctx.stack.len(), 1);
    assert_eq!(ctx.stack.get(0), Val::reg(Reg::gpr(0), WasmType::I64));
    // A 32-bit constant on top is no immediate for a 64-bit operation.
    ctx.stack.push(Val::i32(2));
    ctx.i64_binop(&mut masm, |masm: &mut ListingAssembler, dst, src, size| {
        masm.add(dst, dst, src, size);
        TypedReg::i64(dst)
    });
    assert_eq!(ctx.stack.len(), 1);
    assert_eq!(ctx.stack.get(0), Val::reg(Reg::gpr(0), WasmType::I64));
    assert_eq!(ctx.regalloc.gpr.free, 0b110);
    assert_eq!(
        masm.instructions(),
        &vec![
            Inst::Load { src: Address::Local(8), dst: Reg::gpr(0), size: OperandSize::S32 },
            Inst::Add {
                dst: Reg::gpr(0),
                lhs: Reg::gpr(0),
                rhs: RegImm::Imm(Imm::I64(1 << 40)),
                size: OperandSize::S64
            },
            Inst::Mov { src: RegImm::Imm(Imm::I32(2)), dst: Reg::gpr(1), size: OperandSize::S32 },
            Inst::Add {
                dst: Reg::gpr(0),
                lhs: Reg::gpr(0),
                rhs: RegImm::Reg(Reg::gpr(1)),
                size: OperandSize::S64
            },
        ]
    );
}

#[test]
fn unop_and_binop_hand_the_registers_to_the_callback() {
    let mut builtins = BuiltinFunctions::new(8);
    let vm = offsets();
    let mut masm = ListingAssembler::new();
    let mut ctx = CodeGenContext::new(regalloc(0b111, 0b11), Stack::new(), two_locals(), &mut builtins, &vm);
    ctx.stack.push(Val::float64(1));
    ctx.stack.push(Val::float64(2));
    let mut seen = Vec::new();
    ctx.binop(&mut masm, OperandSize::S64, |_masm: &mut ListingAssembler, dst, src, size| {
        seen.push((dst, src, size));
        TypedReg::new(WasmType::F64, dst)
    });
    // The top entry is brought into a register first.
    assert_eq!(seen, vec![(Reg::fpr(1), Reg::fpr(0), OperandSize::S64)]);
    assert_eq!(ctx.stack.len(), 1);
    assert_eq!(ctx.stack.get(0), Val::reg(Reg::fpr(1), WasmType::F64));
    assert_eq!(ctx.regalloc.fpr.free, 0b01);
    let mut seen = Vec::new();
    ctx.unop(&mut masm, OperandSize::S64, |_masm: &mut ListingAssembler, reg, size| {
        seen.push((reg, size));
        TypedReg::new(WasmType::F64, reg)
    });
    assert_eq!(seen, vec![(Reg::fpr(1), OperandSize::S64)]);
    assert_eq!(ctx.stack.get(0), Val::reg(Reg::fpr(1), WasmType::F64));
    assert_eq!(ctx.regalloc.fpr.free, 0b01);
    assert_eq!(
        masm.instructions(),
        &vec![
            Inst::Mov { src: RegImm::Imm(Imm::F64(2)), dst: Reg::fpr(0), size: OperandSize::S64 },
            Inst::Mov { src: RegImm::Imm(Imm::F64(1)), dst: Reg::fpr(1), size: OperandSize::S64 },
        ]
    );
}

#[test]
fn float_comparison_leaves_an_integer_of_the_operand_width() {
    let mut builtins = BuiltinFunctions::new(8);
    let vm = offsets();
    let mut masm = ListingAssembler::new();
    let mut ctx = CodeGenContext::new(regalloc(0b111, 0b11), Stack::new(), two_locals(), &mut builtins, &vm);
    ctx.stack.push(Val::float32(1));
    ctx.stack.push(Val::float32(2));
    let mut seen = Vec::new();
    ctx.float_cmp_op(&mut masm, OperandSize::S32, |_masm: &mut ListingAssembler, dst, src1, src2, size| {
        seen.push((dst, src1, src2, size));
    });
    assert_eq!(seen, vec![(Reg::gpr(0), Reg::fpr(0), Reg::fpr(1), OperandSize::S32)]);
    assert_eq!(ctx.stack.len(), 1);
    assert_eq!(ctx.stack.get(0), Val::reg(Reg::gpr(0), WasmType::I32));
    assert_eq!(ctx.regalloc.fpr.free, 0b11);
    assert_eq!(ctx.regalloc.gpr.free, 0b110);
    ctx.stack.push(Val::float64(1));
    ctx.stack.push(Val::local(1, WasmType::F64));
    ctx.float_cmp_op(&mut masm, OperandSize::S64, |_masm: &mut ListingAssembler, _dst, _src1, _src2, _size| {});
    assert_eq!(ctx.stack.len(), 2);
    assert_eq!(ctx.stack.get(1), Val::reg(Reg::gpr(1), WasmType::I64));
    assert_eq!(ctx.regalloc.fpr.free, 0b11);
    assert_eq!(ctx.regalloc.gpr.free, 0b100);
}

#[test]
fn conversion_takes_a_register_of_the_target_type() {
    let mut builtins = BuiltinFunctions::new(8);
    let vm = offsets();
    let mut masm = ListingAssembler::new();
    let mut ctx = CodeGenContext::new(regalloc(0b111, 0b11), Stack::new(), two_locals(), &mut builtins, &vm);
    ctx.stack.push(Val::i32(1));
    let mut seen = Vec::new();
    ctx.convert_op(&mut masm, WasmType::F64, |_masm: &mut ListingAssembler, dst, src, size| {
        seen.push((dst, src, size));
    });
    assert_eq!(seen, vec![(Reg::fpr(0), Reg::gpr(0), OperandSize::S64)]);
    assert_eq!(ctx.stack.get(0), Val::reg(Reg::fpr(0), WasmType::F64));
    assert_eq!(ctx.regalloc, RegAlloc {
        gpr: RegBitSet::new(0b111),
        fpr: RegBitSet { allocatable: 0b11, free: 0b10 },
    });
    let mut seen = Vec::new();
    ctx.convert_op_with_tmp_reg(
        &mut masm,
        WasmType::I32,
        RegClass::Float,
        |_masm: &mut ListingAssembler, dst, src, tmp, size| {
            seen.push((dst, src, tmp, size));
        },
    );
    assert_eq!(seen, vec![(Reg::gpr(0), Reg::fpr(0), Reg::fpr(1), OperandSize::S32)]);
    assert_eq!(ctx.stack.len(), 1);
    assert_eq!(ctx.stack.get(0), Val::reg(Reg::gpr(0), WasmType::I32));
    assert_eq!(ctx.regalloc, RegAlloc {
        gpr: RegBitSet { allocatable: 0b111, free: 0b110 },
        fpr: RegBitSet::new(0b11),
    });
    for (ty, size) in [(WasmType::I64, OperandSize::S64), (WasmType::F32, OperandSize::S32)] {
        let mut seen = Vec::new();
        ctx.convert_op(&mut masm, ty, |_masm: &mut ListingAssembler, _dst, _src, size| {
            seen.push(size);
        });
        assert_eq!(seen, vec![size]);
        assert_eq!(ctx.stack.get(0).ty(), ty);
    }
}

#[test]
fn without_keeps_registers_away_for_the_time_of_the_call() {
    let mut builtins = BuiltinFunctions::new(8);
    let vm = offsets();
    let mut masm = ListingAssembler::new();
    let mut ctx = CodeGenContext::new(regalloc(0b1111, 0b11), Stack::new(), two_locals(), &mut builtins, &vm);
    let held = ctx.reg(Reg::gpr(0), &mut masm);
    ctx.stack.push(Val::reg(held, WasmType::I32));
    let got = ctx.without(&[Reg::gpr(0), Reg::gpr(1)], &mut masm, |ctx, masm: &mut ListingAssembler| {
        assert!(!ctx.regalloc.reg_available(Reg::gpr(0)));
        assert!(!ctx.regalloc.reg_available(Reg::gpr(1)));
        ctx.any_gpr(masm)
    });
    assert_eq!(got, Reg::gpr(2));
    // The entry that was in the first register has been spilled.
    assert_eq!(ctx.stack.get(0), Val::mem(WasmType::I32, StackSlot::new(SPOffset::from_u32(4), 4)));
    assert_eq!(ctx.regalloc.gpr.free, 0b1011);
    assert_eq!(masm.instructions(), &vec![Inst::Push { src: Reg::gpr(0), size: OperandSize::S32 }]);
    let nothing: [Reg; 0] = [];
    assert_eq!(ctx.without(&nothing, &mut masm, |_ctx, _masm: &mut ListingAssembler| 5), 5);
    assert_eq!(ctx.regalloc.gpr.free, 0b1011);
}

#[test]
fn results_go_on_the_stack_where_the_convention_has_them() {
    let mut builtins = BuiltinFunctions::new(8);
    let vm = offsets();
    let mut masm = ListingAssembler::new();
    let mut ctx = CodeGenContext::new(regalloc(0b111, 0b11), Stack::new(), two_locals(), &mut builtins, &vm);
    ctx.stack.push(Val::i32(1));
    masm.reserve_stack(32);
    let results = ABIResults::new(vec![
        ABIOperand::Stack { ty: WasmType::I64, offset: 0, size: 8 },
        ABIOperand::Stack { ty: WasmType::I32, offset: 8, size: 4 },
        ABIOperand::Reg { ty: WasmType::F32, reg: Reg::fpr(0), size: 4 },
        ABIOperand::Reg { ty: WasmType::I64, reg: Reg::gpr(2), size: 8 },
    ]);
    let mut calls = 0;
    ctx.push_abi_results(&results, &mut masm, |_results, _ctx, masm: &mut ListingAssembler| {
        calls += 1;
        Some(RetArea::SP(masm.sp_offset()))
    });
    assert_eq!(calls, 1);
    assert_eq!(ctx.stack.len(), 5);
    assert_eq!(ctx.stack.get(0), Val::I32(1));
    assert_eq!(ctx.stack.get(1), Val::mem(WasmType::I64, StackSlot::new(SPOffset::from_u32(32), 8)));
    assert_eq!(ctx.stack.get(2), Val::mem(WasmType::I32, StackSlot::new(SPOffset::from_u32(24), 4)));
    assert_eq!(ctx.stack.get(3), Val::reg(Reg::fpr(0), WasmType::F32));
    assert_eq!(ctx.stack.get(4), Val::reg(Reg::gpr(2), WasmType::I64));
    assert_eq!(ctx.regalloc.gpr.free, 0b011);
    assert_eq!(ctx.regalloc.fpr.free, 0b10);
    assert_eq!(masm.instructions(), &vec![Inst::ReserveStack { bytes: 32 }]);
}

#[test]
fn results_in_registers_need_no_return_area() {
    let mut builtins = BuiltinFunctions::new(8);
    let vm = offsets();
    let mut masm = ListingAssembler::new();
    let mut ctx = CodeGenContext::new(regalloc(0b111, 0b11), Stack::new(), two_locals(), &mut builtins, &vm);
    let results = ABIResults::new(vec![ABIOperand::Reg { ty: WasmType::I32, reg: Reg::gpr(1), size: 4 }]);
    let mut calls = 0;
    ctx.push_abi_results(&results, &mut masm, |_results, _ctx, _masm: &mut ListingAssembler| {
        calls += 1;
        None
    });
    assert_eq!(calls, 0);
    assert_eq!(ctx.stack.len(), 1);
    assert_eq!(ctx.stack.get(0), Val::reg(Reg::gpr(1), WasmType::I32));
    assert_eq!(ctx.regalloc.gpr.free, 0b101);
    ctx.push_abi_results_in(&ABIResults::new(Vec::new()), &mut masm, None);
    assert_eq!(ctx.stack.len(), 1);
    ctx.push_abi_results_in(
        &ABIResults::new(vec![ABIOperand::Stack { ty: WasmType::F64, offset: 16, size: 8 }]),
        &mut masm,
        Some(RetArea::SP(SPOffset::from_u32(16))),
    );
    assert_eq!(ctx.stack.get(1), Val::mem(WasmType::F64, StackSlot::new(SPOffset::from_u32(0), 8)));
    assert!(masm.instructions().is_empty());
}

#[test]
fn no_two_entries_share_a_register_over_a_run_of_operations() {
    let mut builtins = BuiltinFunctions::new(8);
    let vm = offsets();
    let mut masm = ListingAssembler::new();
    let mut ctx = CodeGenContext::new(regalloc(0b11, 0b1), Stack::new(), two_locals(), &mut builtins, &vm);
    let distinct = |stack: &mut Stack, ra: &RegAlloc| {
        let regs = stack_registers(stack);
        for (i, r) in regs.iter().enumerate() {
            assert!(!ra.reg_available(*r));
            assert!(!regs[i + 1..].contains(r));
        }
    };
    for round in 0..6 {
        ctx.stack.push(Val::i32(round));
        let r = ctx.pop_to_reg(&mut masm, None);
        ctx.stack.push(Val::Reg(r));
        distinct(&mut ctx.stack, &ctx.regalloc);
        ctx.stack.push(Val::local(0, WasmType::I32));
        let r = ctx.pop_to_reg(&mut masm, None);
        ctx.stack.push(Val::Reg(r));
        distinct(&mut ctx.stack, &ctx.regalloc);
        ctx.stack.push(Val::local(1, WasmType::F64));
        let r = ctx.pop_to_reg(&mut masm, None);
        ctx.stack.push(Val::Reg(r));
        distinct(&mut ctx.stack, &ctx.regalloc);
    }
    assert_eq!(ctx.stack.len(), 18);
    // With two general purpose registers and one floating point register,
    // all but the last three entries have been spilled.
    assert_eq!(stack_registers(&mut ctx.stack), vec![Reg::gpr(0), Reg::gpr(1), Reg::fpr(0)]);
    let mut bytes = 0;
    let mut i = 0;
    while i < ctx.stack.len() {
        if let Val::Memory(m) = ctx.stack.get(i) {
            bytes += m.slot.size;
            assert_eq!(m.slot.offset.as_u32(), bytes);
        }
        i += 1;
    }
    assert_eq!(masm.sp_offset().as_u32(), bytes);
}

#[test]
fn invariant_check_finds_each_defect() {
    let mut builtins = BuiltinFunctions::new(8);
    let vm = offsets();
    let mut masm = ListingAssembler::new();
    let mut ctx = CodeGenContext::new(regalloc(0b111, 0b11), Stack::new(), two_locals(), &mut builtins, &vm);
    assert!(ctx.is_wf());
    let r = ctx.any_gpr(&mut masm);
    ctx.stack.push(Val::reg(r, WasmType::I32));
    ctx.stack.push(Val::local(1, WasmType::F64));
    ctx.stack.push(Val::i64(3));
    assert!(ctx.is_wf());
    // Two entries in one register.
    ctx.stack.push(Val::reg(r, WasmType::I32));
    assert!(!ctx.is_wf());
    ctx.stack.pop();
    // An entry in a free register.
    ctx.stack.push(Val::reg(Reg::gpr(2), WasmType::I32));
    assert!(!ctx.is_wf());
    ctx.stack.pop();
    // An entry in a register that cannot be handed out.
    ctx.stack.push(Val::reg(Reg::gpr(11), WasmType::I32));
    assert!(!ctx.is_wf());
    ctx.stack.pop();
    // A local that the frame does not have.
    ctx.stack.push(Val::local(2, WasmType::I32));
    assert!(!ctx.is_wf());
    ctx.stack.pop();
    // A type that code cannot be generated for.
    ctx.stack.push(Val::local(0, WasmType::V128));
    assert!(!ctx.is_wf());
    ctx.stack.pop();
    assert!(ctx.is_wf());
    // A free register that cannot be handed out.
    ctx.regalloc.fpr.free = 0b111;
    assert!(!ctx.is_wf());
    assert!(!ctx.regalloc.fpr.is_wf());
    assert!(ctx.regalloc.gpr.is_wf());
}

#[test]
fn checks_tell_when_a_register_can_be_had() {
    let mut builtins = BuiltinFunctions::new(8);
    let vm = offsets();
    let mut masm = ListingAssembler::new();
    let mut ctx = CodeGenContext::new(regalloc(0b11, 0b1), Stack::new(), two_locals(), &mut builtins, &vm);
    assert!(ctx.regalloc.class_available(RegClass::Int));
    assert!(ctx.regalloc.allocatable(Reg::gpr(1)));
    assert!(!ctx.regalloc.allocatable(Reg::gpr(2)));
    assert!(!ctx.regalloc.allocatable(Reg::fpr(64)));
    let on_stack = ctx.any_gpr(&mut masm);
    let in_flight = ctx.any_gpr(&mut masm);
    ctx.stack.push(Val::i32(1));
    ctx.stack.push(Val::reg(on_stack, WasmType::I32));
    assert!(!ctx.regalloc.class_available(RegClass::Int));
    assert!(ctx.holds_below(2, on_stack));
    assert!(!ctx.holds_below(1, on_stack));
    assert!(!ctx.holds_below(2, in_flight));
    // The register on the stack can be had by a spill; the one in flight
    // cannot; one that is never handed out cannot.
    assert!(ctx.can_reg(on_stack, &masm));
    assert!(!ctx.can_reg(in_flight, &masm));
    assert!(!ctx.can_reg(Reg::gpr(5), &masm));
    assert!(ctx.can_reg(Reg::fpr(0), &masm));
    assert!(ctx.can_reg_for_class(RegClass::Int, &masm));
    assert!(ctx.can_reg_for_class(RegClass::Float, &masm));
    assert!(ctx.can_claim_below(2, on_stack));
    assert!(!ctx.can_claim_below(1, on_stack));
    assert!(ctx.can_claim_class_below(2, RegClass::Int));
    assert!(!ctx.can_claim_class_below(1, RegClass::Int));
    assert_eq!(ctx.spill_bytes_below(2), 4);
    assert_eq!(ctx.spill_bytes_below(1), 0);
    assert!(ctx.can_spill(&masm));
    // With the stack pointer at its limit there is no room for the spill.
    masm.reserve_stack(u32::MAX - 3);
    assert!(!ctx.can_spill(&masm));
    assert!(!ctx.can_reg(on_stack, &masm));
    assert!(!ctx.can_reg_for_class(RegClass::Int, &masm));
    assert!(ctx.can_reg_for_class(RegClass::Float, &masm));
    masm.free_stack(1);
    assert!(ctx.can_spill(&masm));
    assert!(ctx.can_reg_for_class(RegClass::Int, &masm));
}

#[test]
fn checks_tell_when_the_top_can_be_popped_to_a_register() {
    let mut builtins = BuiltinFunctions::new(8);
    let vm = offsets();
    let mut masm = ListingAssembler::new();
    let mut ctx = CodeGenContext::new(regalloc(0b1, 0b1), Stack::new(), two_locals(), &mut builtins, &vm);
    assert!(!ctx.can_pop_to_reg(&masm, None));
    let r = ctx.any_gpr(&mut masm);
    ctx.stack.push(Val::reg(r, WasmType::I64));
    // In a register already.
    assert!(ctx.can_pop_to_reg(&masm, None));
    assert!(ctx.can_pop_to_reg(&masm, Some(r)));
    // Another register is asked for, and it is never handed out.
    assert!(!ctx.can_pop_to_reg(&masm, Some(Reg::gpr(1))));
    ctx.stack.push(Val::i32(2));
    // The one register is on the stack below: a spill frees it.
    assert!(ctx.can_pop_to_reg(&masm, None));
    ctx.stack.pop();
    ctx.spill(&mut masm);
    assert!(ctx.can_pop_to_reg(&masm, None));
    // A memory entry that is not the top of the machine stack.
    masm.reserve_stack(8);
    assert!(!ctx.can_pop_to_reg(&masm, None));
    masm.free_stack(8);
    // A memory entry below which a register would have to be spilled.
    ctx.stack.pop();
    let r = ctx.any_gpr(&mut masm);
    ctx.stack.push(Val::reg(r, WasmType::I32));
    ctx.stack.push(Val::mem(WasmType::I64, StackSlot::new(SPOffset::from_u32(8), 8)));
    assert!(!ctx.can_pop_to_reg(&masm, None));
    assert!(ctx.can_pop_to_reg(&masm, Some(Reg::fpr(0))));
}

#[test]
fn pop_if_asks_the_predicate_about_the_top() {
    let mut s = Stack::new();
    assert_eq!(s.pop_if(|_v: &Val| true), None);
    s.push(Val::i32(1));
    s.push(Val::i64(2));
    assert_eq!(s.pop_if(|v: &Val| v.is_i32_const()), None);
    assert_eq!(s.len(), 2);
    assert_eq!(s.pop_if(|v: &Val| v.is_const()), Some(Val::I64(2)));
    assert_eq!(s.pop_if(|v: &Val| v.is_i32_const()), Some(Val::I32(1)));
    assert_eq!(s.len(), 0);
}
