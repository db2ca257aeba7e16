use chip8::disasm::disassemble_chip8;
use chip8::OpCode;

fn line(hi: u8, lo: u8) -> String {
    let buffer: Vec<u8> = vec![hi, lo];
    let (text, next) = disassemble_chip8(&buffer, 0);
    assert_eq!(next, 2);
    text
}

#[test]
fn decode_fields_are_the_instruction_nibbles() {
    let op = OpCode { higher_byte: 0xA2, lower_byte: 0xEC };
    assert_eq!(op.family(), 0xA);
    assert_eq!(op.get_x(), 0x2);
    assert_eq!(op.get_y(), 0xE);
    assert_eq!(op.get_n(), 0xC);
    assert_eq!(op.get_kk(), 0xEC);
    assert_eq!(op.get_nnn(), 0x2EC);
}

#[test]
fn nnn_spans_the_low_twelve_bits() {
    let op = OpCode { higher_byte: 0x1F, lower_byte: 0xFF };
    assert_eq!(op.get_nnn(), 0xFFF);
    let op0 = OpCode { higher_byte: 0x10, lower_byte: 0x00 };
    assert_eq!(op0.get_nnn(), 0x000);
}

#[test]
fn clear_and_return_mnemonics() {
    assert_eq!(line(0x00, 0xE0), "CLS");
    assert_eq!(line(0x00, 0xEE), "RET");
    assert_eq!(line(0x00, 0x12), "not impl");
}

#[test]
fn jump_and_call_mnemonics() {
    assert_eq!(line(0x12, 0x34), "JMP\t$0234");
    assert_eq!(line(0x23, 0x45), "CALL\t$0345");
    assert_eq!(line(0xB1, 0x23), "JMP\t$123(V0)");
}

#[test]
fn skip_mnemonics() {
    assert_eq!(line(0x31, 0x22), "S.EQ\tV1, 22");
    assert_eq!(line(0x41, 0x22), "S.NEQ\tV1, 22");
    assert_eq!(line(0x56, 0x70), "S.EQ\tV6, v7");
    assert_eq!(line(0x96, 0x70), "S.NEQ\tV6, V7");
    assert_eq!(line(0xE1, 0x9E), "SKP\tV1");
    assert_eq!(line(0xE1, 0xA1), "SKNP\tV1");
    assert_eq!(line(0xE1, 0x00), "");
}

#[test]
fn load_and_arithmetic_mnemonics() {
    assert_eq!(line(0x6A, 0x0B), "MVI\tVa, 0b");
    assert_eq!(line(0x7A, 0xFF), "ADI\tVa, ff");
    assert_eq!(line(0x81, 0x20), "MOV\tV1, V2");
    assert_eq!(line(0x81, 0x21), "OR\tV1, V2");
    assert_eq!(line(0x81, 0x22), "AND\tV1, V2");
    assert_eq!(line(0x81, 0x23), "XOR\tV1, V2");
    assert_eq!(line(0x81, 0x24), "ADD\tV1, V2");
    assert_eq!(line(0x81, 0x25), "SUB\tV1, V2");
    assert_eq!(line(0x81, 0x26), "SHR\tV1");
    assert_eq!(line(0x81, 0x27), "SUBN\tV1, V2");
    assert_eq!(line(0x81, 0x2E), "SHL\tV1");
    assert_eq!(line(0x81, 0x28), "");
}

#[test]
fn index_random_and_draw_mnemonics() {
    assert_eq!(line(0xA2, 0xEC), "MVI\tI, $2ec");
    assert_eq!(line(0xC1, 0x0F), "RND\tV1, 0f");
    assert_eq!(line(0xD1, 0x25), "DRW\tV1, V2, 5");
    assert_eq!(line(0xF1, 0x07), "not impl");
}

#[test]
fn disassembly_walks_the_buffer() {
    let buffer: Vec<u8> = vec![0x00, 0xE0, 0xA2, 0x2A, 0xD0, 0x15];
    let mut offset: usize = 0;
    let mut lines: Vec<String> = Vec::new();
    while offset + 1 < buffer.len() {
        let (text, next) = disassemble_chip8(&buffer, offset);
        assert_eq!(next, offset + 2);
        lines.push(text);
        offset = next;
    }
    assert_eq!(lines, vec!["CLS", "MVI\tI, $22a", "DRW\tV0, V1, 5"]);
}
