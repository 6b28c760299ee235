use rain_vm::vm::{decode_u32, execute_bytes, ExecutionError, Machine, Reg};

#[test]
fn test_decode_u32() {
    assert_eq!(decode_u32(&vec![0, 0, 0, 0], 0), Ok(0));
    assert_eq!(decode_u32(&vec![0, 0, 0, 1], 0), Ok(1));
    assert_eq!(decode_u32(&vec![0, 0, 34, 130], 0), Ok(8834));
    assert_eq!(decode_u32(&vec![1, 0, 18, 1], 0), Ok(16781825));
    assert_eq!(decode_u32(&vec![255; 4], 0), Ok(4294967295));

    assert_eq!(decode_u32(&vec![], 0), Err(ExecutionError::TruncatedU32));
    assert_eq!(decode_u32(&vec![100], 0), Err(ExecutionError::TruncatedU32));
    assert_eq!(decode_u32(&vec![20; 2], 0), Err(ExecutionError::TruncatedU32));
    assert_eq!(decode_u32(&vec![7; 3], 0), Err(ExecutionError::TruncatedU32));

    assert_eq!(decode_u32(&vec![7; 5], 0), Ok(117901063));
    assert_eq!(decode_u32(&vec![1, 2, 3, 4, 5], 0), Ok(16909060));
}

#[test]
fn test_decode_u32_mid_buffer() {
    assert_eq!(decode_u32(&vec![9, 9, 1, 0, 18, 1], 2), Ok(16781825));
    assert_eq!(decode_u32(&vec![9, 9, 1, 0, 18], 2), Err(ExecutionError::TruncatedU32));
}

#[test]
fn test_empty_buffer_missing_version() {
    assert_eq!(execute_bytes(vec![]), Err(ExecutionError::MissingVersion));
}

#[test]
fn test_version_only_unexpected_end() {
    assert_eq!(execute_bytes(vec![1]), Err(ExecutionError::UnexpectedEndOfProgram));
}

#[test]
fn test_version_mismatch() {
    assert_eq!(execute_bytes(vec![2]), Err(ExecutionError::VersionMismatch { version: 2 }));
    assert_eq!(execute_bytes(vec![0, 8]), Err(ExecutionError::VersionMismatch { version: 0 }));
}

// MOVE imm -> reg is [4, dest, w3, w2, w1, w0]; HALT is [8].
#[test]
fn test_move_imm_halt() {
    assert_eq!(execute_bytes(vec![1, 4, 0, 0, 0, 0, 42, 8]), Ok(42));
}

#[test]
fn test_halt_no_result() {
    assert_eq!(execute_bytes(vec![1, 8]), Err(ExecutionError::NoResult));
}

// MOVE reg -> reg: copy R3 = 9 into R0.  The source id's low 3 bits
// ride in the top 3 bits of the operand byte: (3 & 7) << 5 = 96.
#[test]
fn test_move_reg_copies() {
    assert_eq!(execute_bytes(vec![1, 4, 3, 0, 0, 0, 9, 0, 96, 8]), Ok(9));
}

// A source id of 12 = 0b01100 splits as descriptor low 2 bits = 0b01
// and operand top 3 bits = 0b100: the packed id must be reassembled,
// and reading it unwritten reports exactly 12.
#[test]
fn test_packed_register_id_across_bytes() {
    assert_eq!(
        execute_bytes(vec![1, 1, 128, 8]),
        Err(ExecutionError::NoSuchRegister { reg: Reg(12) })
    );
}

// ADD imm: R0 = 0xFFFFFFFF, then R0 = R0 + 1 wraps to 0.
#[test]
fn test_add_imm_wraps_on_overflow() {
    assert_eq!(
        execute_bytes(vec![1, 4, 0, 255, 255, 255, 255, 20, 0, 0, 0, 0, 1, 8]),
        Ok(0)
    );
}

// ADD reg: R1 = 0xFFFFFFFF, R2 = 1, then R0 = R1 + R2 wraps to 0.
// The operand byte packs src1's low 3 bits and src2: (1 << 5) | 2 = 34.
#[test]
fn test_add_reg_wraps_on_overflow() {
    assert_eq!(
        execute_bytes(vec![
            1, 4, 1, 255, 255, 255, 255, 4, 2, 0, 0, 0, 1, 16, 34, 0, 8,
        ]),
        Ok(0)
    );
}

// ADD reg takes its destination from the top 5 bits of its third
// byte; the low 3 bits are reserved and ignored, so a third byte of 5
// still writes R0.
#[test]
fn test_add_reg_dest_ignores_low_bits() {
    assert_eq!(
        execute_bytes(vec![1, 4, 1, 0, 0, 0, 2, 4, 2, 0, 0, 0, 3, 16, 34, 5, 8]),
        Ok(5)
    );
}

// BNZ on a zero-valued register falls through: the out-of-range
// target 99 is never consulted and the run continues to R0 = 5.
#[test]
fn test_bnz_zero_falls_through() {
    assert_eq!(
        execute_bytes(vec![1, 4, 0, 0, 0, 0, 0, 24, 0, 0, 0, 0, 99, 4, 0, 0, 0, 0, 5, 8]),
        Ok(5)
    );
}

// BNZ on a nonzero register with an in-range target lands exactly at
// that offset: the branch skips the MOVE of 99 and the first HALT,
// landing on the MOVE of 7 at offset 20.
#[test]
fn test_bnz_taken_jumps_to_target() {
    assert_eq!(
        execute_bytes(vec![
            1, 4, 0, 0, 0, 0, 1, 24, 0, 0, 0, 0, 20, 4, 0, 0, 0, 0, 99, 8, 4, 0, 0, 0, 0, 7, 8,
        ]),
        Ok(7)
    );
}

// BNZ on a nonzero register with a target at or past the buffer's end
// fails nowhere-to-jump carrying the target.
#[test]
fn test_bnz_nowhere_to_jump() {
    assert_eq!(
        execute_bytes(vec![1, 4, 0, 0, 0, 0, 1, 24, 0, 0, 0, 0, 100, 8]),
        Err(ExecutionError::NowhereToJump { address: 100 })
    );
}

// The jump-target word is decoded even when the branch is not taken:
// a truncated word fails the run although the test register is zero.
#[test]
fn test_bnz_truncated_word_not_taken() {
    assert_eq!(
        execute_bytes(vec![1, 4, 0, 0, 0, 0, 0, 24, 0, 0, 0]),
        Err(ExecutionError::TruncatedU32)
    );
}

#[test]
fn test_mov_imm_truncated_word() {
    assert_eq!(execute_bytes(vec![1, 4, 0, 0, 0]), Err(ExecutionError::TruncatedU32));
}

#[test]
fn test_unwritten_register_move_source() {
    // MOVE reg -> reg with source R5 never written: (5 & 7) << 5 = 160.
    assert_eq!(
        execute_bytes(vec![1, 0, 160, 8]),
        Err(ExecutionError::NoSuchRegister { reg: Reg(5) })
    );
}

#[test]
fn test_unwritten_register_add_operand() {
    // ADD reg with source R1 never written.
    assert_eq!(
        execute_bytes(vec![1, 16, 34, 0, 8]),
        Err(ExecutionError::NoSuchRegister { reg: Reg(1) })
    );
}

#[test]
fn test_unwritten_register_bnz_test() {
    // BNZ testing R3 never written.
    assert_eq!(
        execute_bytes(vec![1, 24, 3, 0, 0, 0, 0, 8]),
        Err(ExecutionError::NoSuchRegister { reg: Reg(3) })
    );
}

#[test]
fn test_no_such_instruction() {
    // Top 5 bits of 32 encode opcode 4, the lowest undefined value.
    assert_eq!(
        execute_bytes(vec![1, 32]),
        Err(ExecutionError::NoSuchInstruction { opcode: 4 })
    );
    // Top 5 bits of 255 encode opcode 31.
    assert_eq!(
        execute_bytes(vec![1, 255]),
        Err(ExecutionError::NoSuchInstruction { opcode: 31 })
    );
}

#[test]
fn test_machine_distinguishes_zero_from_unwritten() {
    let mut m = Machine::new();
    assert_eq!(m.get(Reg(0)), Err(ExecutionError::NoSuchRegister { reg: Reg(0) }));
    m.insert(Reg(0), 0);
    assert_eq!(m.get(Reg(0)), Ok(0));
}

#[test]
fn test_machine_insert_overwrites() {
    let mut m = Machine::new();
    m.insert(Reg(7), 1);
    m.insert(Reg(7), 2);
    assert_eq!(m.get(Reg(7)), Ok(2));
}

#[test]
fn test_machine_keeps_registers_after_halt() {
    let mut m = Machine::new();
    assert_eq!(m.execute_bytes(vec![1, 4, 5, 0, 0, 0, 3, 8]), Ok(()));
    assert_eq!(m.get(Reg(5)), Ok(3));
    assert_eq!(m.get(Reg(0)), Err(ExecutionError::NoSuchRegister { reg: Reg(0) }));
}

#[test]
fn test_machine_execute_bytes_reports_errors() {
    let mut m = Machine::new();
    assert_eq!(m.execute_bytes(vec![]), Err(ExecutionError::MissingVersion));
    assert_eq!(m.execute_bytes(vec![3]), Err(ExecutionError::VersionMismatch { version: 3 }));
}
