use codegen_context::abi::{ABIOperand, ABIResults, ABI};
use codegen_context::control::{ControlStackFrame, StackState};
use codegen_context::frame::{Frame, LocalSlot};
use codegen_context::listing::{ListingAbi, ListingAssembler};
use codegen_context::masm::{Address, Imm, Inst, Label, MacroAssembler, RegImm, SPOffset, StackSlot};
use codegen_context::reg::{Reg, RegClass};
use codegen_context::regalloc::{RegAlloc, RegBitSet};
use codegen_context::stack::{Local, Memory, Stack, TypedReg, Val};
use codegen_context::types::{OperandSize, WasmHeapType, WasmRefType, WasmType};

#[test]
fn lowest_free_register_is_handed_out_first() {
    let mut ra = RegAlloc::new(RegBitSet::new(0b1100), RegBitSet::new(0b1));
    assert_eq!(ra.reg_for_class(RegClass::Int), Some(Reg::gpr(2)));
    assert_eq!(ra.reg_for_class(RegClass::Int), Some(Reg::gpr(3)));
    assert_eq!(ra.reg_for_class(RegClass::Int), None);
    assert_eq!(ra.reg_for_class(RegClass::Float), Some(Reg::fpr(0)));
    assert_eq!(ra.reg_for_class(RegClass::Float), None);
}

#[test]
fn named_register_is_handed_out_once() {
    let mut ra = RegAlloc::new(RegBitSet::new(0b1010), RegBitSet::new(0));
    assert!(ra.reg_available(Reg::gpr(3)));
    assert_eq!(ra.reg(Reg::gpr(3)), Some(Reg::gpr(3)));
    assert!(!ra.reg_available(Reg::gpr(3)));
    assert_eq!(ra.reg(Reg::gpr(3)), None);
    assert_eq!(ra, RegAlloc { gpr: RegBitSet { allocatable: 0b1010, free: 0b0010 }, fpr: RegBitSet::new(0) });
    // A register that cannot be handed out is never available.
    assert!(!ra.reg_available(Reg::gpr(0)));
    assert_eq!(ra.reg(Reg::gpr(0)), None);
    assert!(!ra.reg_available(Reg::gpr(64)));
    assert_eq!(ra.reg(Reg::gpr(200)), None);
}

#[test]
fn free_marks_only_allocatable_registers() {
    let mut ra = RegAlloc::new(RegBitSet::new(0b0110), RegBitSet::new(0b1));
    assert_eq!(ra.reg(Reg::gpr(1)), Some(Reg::gpr(1)));
    assert_eq!(ra.reg(Reg::gpr(2)), Some(Reg::gpr(2)));
    ra.free(Reg::gpr(2));
    assert!(ra.reg_available(Reg::gpr(2)));
    assert!(!ra.reg_available(Reg::gpr(1)));
    // Freeing a free register, a register that cannot be handed out, or an
    // encoding past the set changes nothing.
    let before = ra;
    ra.free(Reg::gpr(2));
    ra.free(Reg::gpr(0));
    ra.free(Reg::gpr(77));
    assert_eq!(ra, before);
    // The classes are independent.
    ra.free(Reg::fpr(1));
    assert_eq!(ra, before);
}

#[test]
fn highest_encoding_is_allocatable() {
    let mut ra = RegAlloc::new(RegBitSet::new(1u64 << 63), RegBitSet::new(0));
    assert_eq!(ra.reg_for_class(RegClass::Int), Some(Reg::gpr(63)));
    assert_eq!(ra.gpr.free, 0);
    ra.free(Reg::gpr(63));
    assert_eq!(ra.gpr.free, 1u64 << 63);
}

#[test]
fn registers_know_their_class() {
    let r = Reg::gpr(5);
    assert!(r.is_int());
    assert!(!r.is_float());
    assert_eq!(r.class(), RegClass::Int);
    assert_eq!(r.hw_enc(), 5);
    let f = Reg::fpr(5);
    assert!(f.is_float());
    assert_ne!(r, f);
    assert_eq!(Reg::new(RegClass::Float, 5), f);
}

#[test]
fn operand_sizes_in_bytes() {
    assert_eq!(OperandSize::S32.bytes(), 4);
    assert_eq!(OperandSize::S64.bytes(), 8);
    assert_eq!(OperandSize::S128.bytes(), 16);
}

#[test]
fn sizes_and_classes_of_types() {
    let funcref = WasmType::Ref(WasmRefType { nullable: true, heap_type: WasmHeapType::Func });
    let externref = WasmType::Ref(WasmRefType { nullable: true, heap_type: WasmHeapType::Extern });
    let typed = WasmType::Ref(WasmRefType { nullable: false, heap_type: WasmHeapType::TypedFunc(3) });
    assert_eq!(OperandSize::of(WasmType::I32), OperandSize::S32);
    assert_eq!(OperandSize::of(WasmType::F32), OperandSize::S32);
    assert_eq!(OperandSize::of(WasmType::I64), OperandSize::S64);
    assert_eq!(OperandSize::of(WasmType::F64), OperandSize::S64);
    assert_eq!(OperandSize::of(funcref), OperandSize::S64);
    assert_eq!(WasmType::I32.reg_class(), RegClass::Int);
    assert_eq!(WasmType::I64.reg_class(), RegClass::Int);
    assert_eq!(WasmType::F32.reg_class(), RegClass::Float);
    assert_eq!(WasmType::F64.reg_class(), RegClass::Float);
    assert_eq!(funcref.reg_class(), RegClass::Int);
    assert!(WasmType::I32.supported());
    assert!(WasmType::F64.supported());
    assert!(funcref.supported());
    assert!(!externref.supported());
    assert!(!typed.supported());
    assert!(!WasmType::V128.supported());
}

#[test]
fn stack_pops_what_was_pushed() {
    let mut s = Stack::new();
    assert_eq!(s.len(), 0);
    assert_eq!(s.pop(), None);
    assert_eq!(s.peek(), None);
    s.push(Val::i32(7));
    s.push(Val::reg(Reg::gpr(2), WasmType::I64));
    assert_eq!(s.len(), 2);
    assert_eq!(s.peek(), Some(&Val::Reg(TypedReg { ty: WasmType::I64, reg: Reg::gpr(2) })));
    assert_eq!(s.pop(), Some(Val::Reg(TypedReg::i64(Reg::gpr(2)))));
    assert_eq!(s.pop(), Some(Val::I32(7)));
    assert_eq!(s.pop(), None);
}

#[test]
fn stack_pops_constants_only_of_the_asked_type() {
    let mut s = Stack::new();
    assert_eq!(s.pop_i32_const(), None);
    assert_eq!(s.pop_i64_const(), None);
    s.push(Val::i64(-9));
    assert_eq!(s.pop_i32_const(), None);
    assert_eq!(s.len(), 1);
    assert_eq!(s.pop_i64_const(), Some(-9));
    assert_eq!(s.len(), 0);
    s.push(Val::i32(i32::MIN));
    assert_eq!(s.pop_i64_const(), None);
    assert_eq!(s.pop_i32_const(), Some(i32::MIN));
    s.push(Val::float32(0x3f80_0000));
    assert_eq!(s.pop_i32_const(), None);
    s.push(Val::local(0, WasmType::I32));
    assert_eq!(s.pop_i32_const(), None);
    assert_eq!(s.len(), 2);
}

#[test]
fn stack_pops_registers_only_from_the_top() {
    let mut s = Stack::new();
    assert_eq!(s.pop_reg(), None);
    assert_eq!(s.pop_named_reg(Reg::gpr(1)), None);
    s.push(Val::reg(Reg::gpr(1), WasmType::I32));
    s.push(Val::i32(0));
    assert_eq!(s.pop_reg(), None);
    assert_eq!(s.pop_named_reg(Reg::gpr(1)), None);
    assert_eq!(s.len(), 2);
    s.pop();
    assert_eq!(s.pop_named_reg(Reg::gpr(2)), None);
    assert_eq!(s.pop_named_reg(Reg::fpr(1)), None);
    assert_eq!(s.len(), 1);
    assert_eq!(s.pop_named_reg(Reg::gpr(1)), Some(TypedReg::i32(Reg::gpr(1))));
    assert_eq!(s.len(), 0);
    s.push(Val::reg(Reg::fpr(3), WasmType::F64));
    assert_eq!(s.pop_reg(), Some(TypedReg::new(WasmType::F64, Reg::fpr(3))));
}

#[test]
fn stack_entries_can_be_read_replaced_and_cut() {
    let mut s = Stack::new();
    s.push(Val::i32(1));
    s.push(Val::i32(2));
    s.push(Val::i32(3));
    assert_eq!(s.get(0), Val::I32(1));
    s.set(1, Val::i64(20));
    assert_eq!(s.get(1), Val::I64(20));
    assert_eq!(s.get(2), Val::I32(3));
    s.truncate(3);
    assert_eq!(s.len(), 3);
    s.truncate(1);
    assert_eq!(s.len(), 1);
    assert_eq!(s.peek(), Some(&Val::I32(1)));
    s.truncate(0);
    assert_eq!(s.len(), 0);
}

#[test]
fn values_know_their_kind_and_type() {
    let slot = StackSlot::new(SPOffset::from_u32(8), 8);
    let r = Val::reg(Reg::fpr(1), WasmType::F32);
    let c = Val::i64(5);
    let l = Val::local(4, WasmType::I32);
    let m = Val::mem(WasmType::F64, slot);
    assert!(r.is_reg() && !r.is_mem() && !r.is_const() && !r.is_local());
    assert!(c.is_const() && c.is_i64_const() && !c.is_i32_const() && !c.is_reg());
    assert!(Val::i32(1).is_i32_const());
    assert!(Val::float32(1).is_const() && !Val::float32(1).is_i32_const());
    assert!(Val::float64(1).is_const() && !Val::float64(1).is_i64_const());
    assert!(l.is_local() && !l.is_const());
    assert!(m.is_mem() && !m.is_reg());
    assert_eq!(r.ty(), WasmType::F32);
    assert_eq!(c.ty(), WasmType::I64);
    assert_eq!(Val::i32(1).ty(), WasmType::I32);
    assert_eq!(Val::float32(1).ty(), WasmType::F32);
    assert_eq!(Val::float64(1).ty(), WasmType::F64);
    assert_eq!(l.ty(), WasmType::I32);
    assert_eq!(m.ty(), WasmType::F64);
    assert_eq!(r.unwrap_reg(), TypedReg { ty: WasmType::F32, reg: Reg::fpr(1) });
    assert_eq!(c.unwrap_i64(), 5);
    assert_eq!(Val::i32(-1).unwrap_i32(), -1);
    assert_eq!(l.unwrap_local(), Local { index: 4, ty: WasmType::I32 });
    assert_eq!(m.unwrap_mem(), Memory { ty: WasmType::F64, slot });
    assert_eq!(slot.offset.as_u32(), 8);
}

#[test]
fn frame_finds_locals_by_index() {
    let a = LocalSlot::new(WasmType::I32, 8);
    let b = LocalSlot::new(WasmType::F64, 16);
    let frame = Frame::new(vec![a, b], 16);
    assert_eq!(frame.get_local(0), Some(a));
    assert_eq!(frame.get_local(1), Some(b));
    assert_eq!(frame.get_local(2), None);
    assert_eq!(frame.get_local(u32::MAX), None);
    assert_eq!(frame.locals_size, 16);
    assert_eq!(Frame::new(Vec::new(), 0).get_local(0), None);
}

#[test]
fn results_know_whether_some_are_on_the_stack() {
    let in_reg = ABIOperand::Reg { ty: WasmType::I32, reg: Reg::gpr(0), size: 4 };
    let on_stack = ABIOperand::Stack { ty: WasmType::I64, offset: 8, size: 8 };
    assert!(!ABIResults::new(Vec::new()).on_stack());
    assert!(!ABIResults::new(vec![in_reg]).on_stack());
    assert!(ABIResults::new(vec![on_stack]).on_stack());
    assert!(ABIResults::new(vec![in_reg, on_stack]).on_stack());
    assert!(ABIResults::new(vec![on_stack, in_reg]).on_stack());
    assert_eq!(ABIResults::new(vec![in_reg, on_stack]).operands(), &vec![in_reg, on_stack]);
}

#[test]
fn control_frame_is_marked_as_target() {
    let state = StackState {
        base_offset: SPOffset::from_u32(8),
        target_offset: SPOffset::from_u32(16),
        base_len: 1,
        target_len: 2,
    };
    let mut frame = ControlStackFrame::new(state, Label(3));
    assert!(!frame.is_branch_target());
    assert_eq!(frame.stack_state(), state);
    assert_eq!(*frame.label(), Label(3));
    frame.set_as_target();
    assert!(frame.is_branch_target());
    assert_eq!(frame.stack_state(), state);
    assert_eq!(*frame.label(), Label(3));
}

#[test]
fn listing_abi_scratch_registers() {
    assert_eq!(ListingAbi::scratch_reg(), Reg::gpr(11));
    assert_eq!(ListingAbi::float_scratch_reg(), Reg::fpr(15));
    assert_eq!(ListingAbi::scratch_for(&WasmType::I32), Reg::gpr(11));
    assert_eq!(ListingAbi::scratch_for(&WasmType::I64), Reg::gpr(11));
    assert_eq!(ListingAbi::scratch_for(&WasmType::F32), Reg::fpr(15));
    assert_eq!(ListingAbi::scratch_for(&WasmType::F64), Reg::fpr(15));
    let funcref = WasmType::Ref(WasmRefType { nullable: true, heap_type: WasmHeapType::Func });
    assert_eq!(ListingAbi::scratch_for(&funcref), Reg::gpr(11));
}

#[test]
fn listing_assembler_follows_the_stack_pointer() {
    let mut masm = ListingAssembler::new();
    assert_eq!(masm.sp_offset(), SPOffset::from_u32(0));
    let a = masm.push(Reg::gpr(1), OperandSize::S32);
    assert_eq!(a, StackSlot::new(SPOffset::from_u32(4), 4));
    let b = masm.push(Reg::fpr(2), OperandSize::S64);
    assert_eq!(b, StackSlot::new(SPOffset::from_u32(12), 8));
    assert_eq!(masm.sp_offset().as_u32(), 12);
    masm.pop(Reg::gpr(3), OperandSize::S64);
    assert_eq!(masm.sp_offset().as_u32(), 4);
    masm.reserve_stack(20);
    assert_eq!(masm.sp_offset().as_u32(), 24);
    masm.free_stack(24);
    assert_eq!(masm.sp_offset().as_u32(), 0);
    assert_eq!(
        masm.instructions(),
        &vec![
            Inst::Push { src: Reg::gpr(1), size: OperandSize::S32 },
            Inst::Push { src: Reg::fpr(2), size: OperandSize::S64 },
            Inst::Pop { dst: Reg::gpr(3), size: OperandSize::S64 },
            Inst::ReserveStack { bytes: 20 },
            Inst::FreeStack { bytes: 24 },
        ]
    );
}

#[test]
fn listing_assembler_lists_moves_loads_and_stores() {
    let mut masm = ListingAssembler::new();
    let local = LocalSlot::new(WasmType::I64, 24);
    assert_eq!(masm.local_address(&local), Address::Local(24));
    assert_eq!(masm.address_from_sp(SPOffset::from_u32(16)), Address::Stack(16));
    masm.mov(RegImm::i64(-2), Reg::gpr(0), OperandSize::S64);
    masm.mov(RegImm::reg(Reg::gpr(0)), Reg::gpr(1), OperandSize::S64);
    masm.load(Address::Local(24), Reg::gpr(2), OperandSize::S64);
    masm.store(RegImm::float32(7), Address::Stack(16), OperandSize::S32);
    masm.store(RegImm::float64(9), Address::Stack(8), OperandSize::S64);
    masm.add(Reg::gpr(1), Reg::gpr(1), RegImm::i32(5), OperandSize::S32);
    masm.jmp(Label(1));
    assert_eq!(masm.sp_offset().as_u32(), 0);
    assert_eq!(
        masm.instructions(),
        &vec![
            Inst::Mov { src: RegImm::Imm(Imm::I64(-2)), dst: Reg::gpr(0), size: OperandSize::S64 },
            Inst::Mov { src: RegImm::Reg(Reg::gpr(0)), dst: Reg::gpr(1), size: OperandSize::S64 },
            Inst::Load { src: Address::Local(24), dst: Reg::gpr(2), size: OperandSize::S64 },
            Inst::Store { src: RegImm::Imm(Imm::F32(7)), dst: Address::Stack(16), size: OperandSize::S32 },
            Inst::Store { src: RegImm::Imm(Imm::F64(9)), dst: Address::Stack(8), size: OperandSize::S64 },
            Inst::Add { dst: Reg::gpr(1), lhs: Reg::gpr(1), rhs: RegImm::Imm(Imm::I32(5)), size: OperandSize::S32 },
            Inst::Jmp { target: Label(1) },
        ]
    );
}

#[test]
fn listing_assembler_balances_the_stack_pointer_for_a_jump() {
    let mut masm = ListingAssembler::new();
    masm.reserve_stack(24);
    masm.ensure_sp_for_jump(SPOffset::from_u32(16));
    assert_eq!(masm.sp_offset().as_u32(), 16);
    masm.ensure_sp_for_jump(SPOffset::from_u32(16));
    assert_eq!(masm.sp_offset().as_u32(), 16);
    masm.ensure_sp_for_jump(SPOffset::from_u32(20));
    assert_eq!(masm.sp_offset().as_u32(), 20);
    assert_eq!(
        masm.instructions(),
        &vec![Inst::ReserveStack { bytes: 24 }, Inst::FreeStack { bytes: 8 }, Inst::ReserveStack { bytes: 4 }]
    );
}
