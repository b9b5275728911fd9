use huff_codegen::ast::{MacroDefinition, MacroInvocation, Statement};
use huff_codegen::bytecode::{Byte, IRByte, IRBytecode};
use huff_codegen::CodegenErrorKind;

fn definition(statements: Vec<Statement>) -> MacroDefinition {
    MacroDefinition {
        name: "M".to_string(),
        parameters: vec!["a".to_string()],
        statements,
        takes: 1,
        returns: 2,
    }
}

#[test]
fn each_statement_is_lowered_in_order() {
    let invocation = MacroInvocation { macro_name: "N".to_string(), args: vec!["0x01".to_string()] };
    let lowered = definition(vec![
        Statement::Literal(vec![0x60, 0x0a]),
        Statement::Constant("K".to_string()),
        Statement::MacroInvocation(invocation.clone()),
        Statement::ArgCall("a".to_string()),
        Statement::Literal(vec![]),
    ])
    .to_irbytecode();
    assert_eq!(
        lowered,
        Ok(IRBytecode(vec![
            IRByte::Byte(Byte("60".to_string())),
            IRByte::Byte(Byte("0a".to_string())),
            IRByte::Constant("K".to_string()),
            IRByte::Statement(Statement::MacroInvocation(invocation)),
            IRByte::ArgCall("a".to_string()),
        ]))
    );
}

#[test]
fn empty_body_lowers_to_nothing() {
    assert_eq!(definition(vec![]).to_irbytecode(), Ok(IRBytecode(vec![])));
}

#[test]
fn label_has_no_lowered_form() {
    let outcome = definition(vec![Statement::Literal(vec![1]), Statement::Label("l".to_string())]).to_irbytecode();
    let error = outcome.unwrap_err();
    assert_eq!(error.kind, CodegenErrorKind::InvalidMacroStatement);
    assert_eq!(error.span, None);
    assert_eq!(error.token, None);
}

#[test]
fn every_byte_value_lowers_to_two_lowercase_digits() {
    let all: Vec<u8> = (0..=255).collect();
    let lowered = definition(vec![Statement::Literal(all.clone())]).to_irbytecode().unwrap();
    assert_eq!(lowered.0.len(), 256);
    for (i, b) in all.iter().enumerate() {
        assert_eq!(lowered.0[i], IRByte::Byte(Byte(format!("{:02x}", b))));
    }
}
