use almetica::error::Error;
use almetica::opcode::{Opcode, OpcodeTable};

fn build_table() -> OpcodeTable {
    OpcodeTable::new(vec![
        Opcode::C_CHECK_VERSION,
        Opcode::S_CHECK_VERSION,
        Opcode::C_LOGIN_ARBITER,
        Opcode::S_LOGIN_ARBITER,
        Opcode::S_LOADING_SCREEN_CONTROL_INFO,
        Opcode::C_PONG,
        Opcode::S_PING,
        Opcode::C_SET_VISIBLE_RANGE,
        Opcode::C_GET_USER_LIST,
    ])
}

#[test]
fn test_name_code_roundtrip() {
    let table = build_table();
    let names = [
        Opcode::C_CHECK_VERSION,
        Opcode::S_CHECK_VERSION,
        Opcode::C_LOGIN_ARBITER,
        Opcode::S_LOGIN_ARBITER,
        Opcode::S_LOADING_SCREEN_CONTROL_INFO,
        Opcode::C_PONG,
        Opcode::S_PING,
        Opcode::C_SET_VISIBLE_RANGE,
        Opcode::C_GET_USER_LIST,
    ];
    for name in names {
        let code = table.name_to_code(name).expect("name must be mapped");
        assert_eq!(table.code_to_name(code), Ok(name));
    }
}

#[test]
fn test_unknown_code() {
    let table = build_table();
    assert_eq!(table.code_to_name(999), Err(Error::UnknownOpcode(999)));
}

#[test]
fn test_duplicate_name_takes_first_code() {
    let table = OpcodeTable::new(vec![Opcode::S_PING, Opcode::C_PONG, Opcode::S_PING]);
    assert_eq!(table.name_to_code(Opcode::S_PING), Some(0));
    assert_eq!(table.code_to_name(0), Ok(Opcode::S_PING));
}
