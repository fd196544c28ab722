use auxtools::disassembler::{
    ArgRegister, DisOpcode, Dism, LocalRegister, Location, StringId, TempRegister,
};

#[test]
fn empty_buffer_decodes_empty() {
    let mut d = Dism::new(vec![]);
    assert_eq!(d.disassemble(), vec![]);
}

#[test]
fn truncated_load_immediate_decodes_empty() {
    // Opcode plus only two of its six operand bytes.
    let mut d = Dism::new(vec![0x01, 2, 1]);
    assert_eq!(d.disassemble(), vec![]);
}

#[test]
fn truncated_jump_decodes_empty() {
    let mut d = Dism::new(vec![0x10, 9]);
    assert_eq!(d.disassemble(), vec![]);
}

#[test]
fn unknown_opcode_decodes_empty() {
    let mut d = Dism::new(vec![0xFF, 0x01, 0x02]);
    assert_eq!(d.disassemble(), vec![]);
}

#[test]
fn field_write_opcode_stops_decoding() {
    // 0x06 is the field write's slot; the decode table never produces it.
    let mut d = Dism::new(vec![0x06, 0, 0, 0, 0]);
    assert_eq!(d.disassemble(), vec![]);
}

#[test]
fn decoding_stops_at_first_unknown_byte() {
    let mut d = Dism::new(vec![0x00, 0xFF, 0x00]);
    assert_eq!(d.disassemble(), vec![DisOpcode::Halt]);
}

#[test]
fn load_immediate_round_trip() {
    // dest = 2, type = 1, value = 0x0000002A, little-endian.
    let mut d = Dism::new(vec![0x01, 2, 1, 0x2A, 0, 0, 0]);
    assert_eq!(
        d.disassemble(),
        vec![DisOpcode::LoadImmediate(TempRegister(2), 1, 42)]
    );
}

#[test]
fn load_immediate_value_is_little_endian() {
    let mut d = Dism::new(vec![0x01, 0, 0, 4, 3, 2, 1]);
    assert_eq!(
        d.disassemble(),
        vec![DisOpcode::LoadImmediate(TempRegister(0), 0, 0x01020304)]
    );
}

#[test]
fn halt_round_trip() {
    let mut d = Dism::new(vec![0x00]);
    assert_eq!(d.disassemble(), vec![DisOpcode::Halt]);
}

#[test]
fn load_argument_round_trip() {
    let mut d = Dism::new(vec![0x02, 3, 4]);
    assert_eq!(
        d.disassemble(),
        vec![DisOpcode::LoadArgument(ArgRegister(3), TempRegister(4))]
    );
}

#[test]
fn load_local_round_trip() {
    let mut d = Dism::new(vec![0x03, 5, 6]);
    assert_eq!(
        d.disassemble(),
        vec![DisOpcode::LoadLocal(LocalRegister(5), TempRegister(6))]
    );
}

#[test]
fn store_local_round_trip() {
    let mut d = Dism::new(vec![0x04, 7, 8]);
    assert_eq!(
        d.disassemble(),
        vec![DisOpcode::StoreLocal(TempRegister(7), LocalRegister(8))]
    );
}

#[test]
fn get_field_round_trip() {
    // Field name 0x0102 is encoded little-endian as [0x02, 0x01].
    let mut d = Dism::new(vec![0x05, 9, 0x02, 0x01, 10]);
    assert_eq!(
        d.disassemble(),
        vec![DisOpcode::GetField(
            TempRegister(9),
            StringId(0x0102),
            TempRegister(10)
        )]
    );
}

#[test]
fn arithmetic_round_trips() {
    let mut d = Dism::new(vec![
        0x07, 1, 2, 3, // Add
        0x08, 4, 5, 6, // Sub
        0x09, 7, 8, 9, // Mul
        0x0A, 10, 11, 12, // Div
    ]);
    assert_eq!(
        d.disassemble(),
        vec![
            DisOpcode::Add(TempRegister(1), TempRegister(2), TempRegister(3)),
            DisOpcode::Sub(TempRegister(4), TempRegister(5), TempRegister(6)),
            DisOpcode::Mul(TempRegister(7), TempRegister(8), TempRegister(9)),
            DisOpcode::Div(TempRegister(10), TempRegister(11), TempRegister(12)),
        ]
    );
}

#[test]
fn comparison_round_trips() {
    let mut d = Dism::new(vec![
        0x0B, 1, 2, 3, // LessThan
        0x0C, 1, 2, 3, // LessOrEqual
        0x0D, 1, 2, 3, // Equal
        0x0E, 1, 2, 3, // GreaterOrEqual
        0x0F, 1, 2, 3, // GreaterThan
    ]);
    let regs = (TempRegister(1), TempRegister(2), TempRegister(3));
    assert_eq!(
        d.disassemble(),
        vec![
            DisOpcode::LessThan(regs.0, regs.1, regs.2),
            DisOpcode::LessOrEqual(regs.0, regs.1, regs.2),
            DisOpcode::Equal(regs.0, regs.1, regs.2),
            DisOpcode::GreaterOrEqual(regs.0, regs.1, regs.2),
            DisOpcode::GreaterThan(regs.0, regs.1, regs.2),
        ]
    );
}

#[test]
fn jump_round_trips() {
    let mut d = Dism::new(vec![
        0x10, 0x10, 0x00, 0x00, 0x00, // Jump 16
        0x11, 2, 0x20, 0x00, 0x00, 0x00, // JumpTrue r2, 32
        0x12, 3, 0x04, 0x03, 0x02, 0x01, // JumpFalse r3, 0x01020304
    ]);
    assert_eq!(
        d.disassemble(),
        vec![
            DisOpcode::Jump(Location(16)),
            DisOpcode::JumpTrue(TempRegister(2), Location(32)),
            DisOpcode::JumpFalse(TempRegister(3), Location(0x01020304)),
        ]
    );
}

#[test]
fn push_call_return_round_trips() {
    let mut d = Dism::new(vec![
        0x13, 5, // Push r5
        0x14, 0x02, 0x01, 6, // Call name 0x0102, dest r6
        0x15, 7, // Return r7
    ]);
    assert_eq!(
        d.disassemble(),
        vec![
            DisOpcode::Push(TempRegister(5)),
            DisOpcode::Call(StringId(0x0102), TempRegister(6)),
            DisOpcode::Return(TempRegister(7)),
        ]
    );
}

#[test]
fn disassemble_one_advances_cursor() {
    let mut d = Dism::new(vec![0x13, 5, 0x15, 7]);
    assert_eq!(d.disassemble_one(), Some(DisOpcode::Push(TempRegister(5))));
    assert_eq!(d.disassemble_one(), Some(DisOpcode::Return(TempRegister(7))));
    assert_eq!(d.disassemble_one(), None);
    assert_eq!(d.disassemble_one(), None);
}
