use lox::chunk::Chunk;
use lox::chunk::OpCode;
use lox::value::Value;

#[test]
fn opcode_bytes_round_trip() {
    for b in 0u8..=28 {
        let op = OpCode::from_byte(b).unwrap();
        assert_eq!(u8::from(op), b);
    }
    assert!(OpCode::from_byte(29).is_none());
    assert!(OpCode::from_byte(255).is_none());
}

#[test]
fn chunk_write_keeps_lines_parallel() {
    let mut chunk = Chunk::new();
    chunk.write(u8::from(OpCode::Nil), 3);
    chunk.write(u8::from(OpCode::Return), 4);
    assert_eq!(chunk.code, vec![7, 0]);
    assert_eq!(chunk.lines, vec![3, 4]);
    let first = chunk.add_constant(Value::Number(1));
    let second = chunk.add_constant(Value::Number(1));
    assert_eq!(first, 0);
    assert_eq!(second, 1);
    assert_eq!(chunk.constants.values.len(), 2);
}
