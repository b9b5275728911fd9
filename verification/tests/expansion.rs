use huff_codegen::ast::{
    ConstVal, ConstantDefinition, Contract, MacroDefinition, MacroInvocation, Statement,
};
use huff_codegen::bytecode::{Byte, IRByte, IRBytecode};
use huff_codegen::{Codegen, CodegenErrorKind};

fn definition(name: &str, statements: Vec<Statement>) -> MacroDefinition {
    MacroDefinition {
        name: name.to_string(),
        parameters: vec![],
        statements,
        takes: 0,
        returns: 0,
    }
}

fn invoke(name: &str) -> Statement {
    Statement::MacroInvocation(MacroInvocation { macro_name: name.to_string(), args: vec![] })
}

fn constant(name: &str, value: ConstVal) -> ConstantDefinition {
    ConstantDefinition { name: name.to_string(), value }
}

fn contract(macros: Vec<MacroDefinition>, constants: Vec<ConstantDefinition>) -> Contract {
    Contract { macros, constants, functions: vec![], events: vec![] }
}

fn bytes(texts: &[&str]) -> Vec<Byte> {
    texts.iter().map(|t| Byte(t.to_string())).collect()
}

fn expand_entry_point(contract: &Contract, position: usize) -> Result<Vec<Byte>, CodegenErrorKind> {
    let entry = contract.macros[position].clone();
    let mut scope = vec![entry.clone()];
    let outcome = Codegen::recurse_bytecode(entry, Some(contract.clone()), &mut scope);
    assert_eq!(scope.len(), 1);
    match outcome {
        Ok(bytes) => Ok(bytes),
        Err(error) => {
            assert_eq!(error.span, None);
            assert_eq!(error.token, None);
            Err(error.kind)
        }
    }
}

#[test]
fn literal_bytes_are_emitted_as_they_stand() {
    let c = contract(vec![definition("M", vec![Statement::Literal(vec![0x00, 0x0f, 0xa0, 0xff])])], vec![]);
    assert_eq!(expand_entry_point(&c, 0), Ok(bytes(&["00", "0f", "a0", "ff"])));
}

#[test]
fn empty_macro_expands_to_nothing() {
    let c = contract(vec![definition("M", vec![])], vec![]);
    assert_eq!(expand_entry_point(&c, 0), Ok(vec![]));
}

#[test]
fn expansion_is_the_same_twice() {
    let c = contract(
        vec![
            definition("M", vec![Statement::Literal(vec![1]), invoke("N"), Statement::Constant("K".to_string())]),
            definition("N", vec![Statement::Literal(vec![2, 3])]),
        ],
        vec![constant("K", ConstVal::Literal(vec![0xab, 0xcd]))],
    );
    let first = expand_entry_point(&c, 0);
    let second = expand_entry_point(&c, 0);
    assert_eq!(first, second);
    assert_eq!(first, Ok(bytes(&["01", "02", "03", "61", "ab", "cd"])));
}

#[test]
fn sibling_invocations_expand_in_order() {
    let c = contract(
        vec![
            definition("M", vec![invoke("A"), invoke("B")]),
            definition("A", vec![Statement::Literal(vec![0xaa, 0x01])]),
            definition("B", vec![Statement::Literal(vec![0xbb])]),
        ],
        vec![],
    );
    let a = expand_entry_point(&c, 1).unwrap();
    let b = expand_entry_point(&c, 2).unwrap();
    let mut joined = a.clone();
    joined.extend(b.clone());
    assert_eq!(expand_entry_point(&c, 0), Ok(joined));
    assert_eq!(expand_entry_point(&c, 0), Ok(bytes(&["aa", "01", "bb"])));
}

#[test]
fn invocation_is_inlined_where_it_stands() {
    let c = contract(
        vec![
            definition("M", vec![Statement::Literal(vec![0x11]), invoke("N"), Statement::Literal(vec![0x22])]),
            definition("N", vec![Statement::Literal(vec![0x33, 0x44])]),
        ],
        vec![],
    );
    assert_eq!(expand_entry_point(&c, 0), Ok(bytes(&["11", "33", "44", "22"])));
}

#[test]
fn nested_invocations_are_inlined_in_depth() {
    let c = contract(
        vec![
            definition("M", vec![invoke("A"), Statement::Literal(vec![0x04])]),
            definition("A", vec![Statement::Literal(vec![0x01]), invoke("B"), Statement::Literal(vec![0x03])]),
            definition("B", vec![Statement::Literal(vec![0x02])]),
        ],
        vec![],
    );
    assert_eq!(expand_entry_point(&c, 0), Ok(bytes(&["01", "02", "03", "04"])));
}

#[test]
fn macro_may_be_invoked_twice_side_by_side() {
    let c = contract(
        vec![definition("M", vec![invoke("A"), invoke("A")]), definition("A", vec![Statement::Literal(vec![0x07])])],
        vec![],
    );
    assert_eq!(expand_entry_point(&c, 0), Ok(bytes(&["07", "07"])));
}

#[test]
fn constant_of_one_byte_is_pushed_with_push1() {
    let c = contract(
        vec![definition("M", vec![Statement::Constant("K".to_string())])],
        vec![constant("K", ConstVal::Literal(vec![0xab]))],
    );
    assert_eq!(expand_entry_point(&c, 0), Ok(bytes(&["60", "ab"])));
}

#[test]
fn constant_of_32_bytes_is_pushed_with_push32() {
    let literal: Vec<u8> = (1..=32).collect();
    let c = contract(
        vec![definition("M", vec![Statement::Constant("K".to_string())])],
        vec![constant("K", ConstVal::Literal(literal.clone()))],
    );
    let expanded = expand_entry_point(&c, 0).unwrap();
    assert_eq!(expanded.len(), 33);
    assert_eq!(expanded[0], Byte("7f".to_string()));
    for (i, b) in literal.iter().enumerate() {
        assert_eq!(expanded[i + 1], Byte(format!("{:02x}", b)));
    }
}

#[test]
fn constant_without_bytes_is_pushed_with_push0() {
    let c = contract(
        vec![definition("M", vec![Statement::Constant("K".to_string())])],
        vec![constant("K", ConstVal::Literal(vec![]))],
    );
    assert_eq!(expand_entry_point(&c, 0), Ok(bytes(&["5f"])));
}

#[test]
fn free_storage_pointer_is_pushed_as_slot_zero() {
    let c = contract(
        vec![definition("M", vec![Statement::Constant("SLOT".to_string())])],
        vec![constant("SLOT", ConstVal::FreeStoragePointer)],
    );
    assert_eq!(expand_entry_point(&c, 0), Ok(bytes(&["60", "00"])));
}

#[test]
fn first_of_two_constants_of_one_name_counts() {
    let c = contract(
        vec![definition("M", vec![Statement::Constant("K".to_string())])],
        vec![constant("K", ConstVal::Literal(vec![1])), constant("K", ConstVal::Literal(vec![2, 2]))],
    );
    assert_eq!(expand_entry_point(&c, 0), Ok(bytes(&["60", "01"])));
}

#[test]
fn argument_reference_contributes_nothing() {
    let c = contract(
        vec![definition(
            "M",
            vec![Statement::Literal(vec![1]), Statement::ArgCall("x".to_string()), Statement::Literal(vec![2])],
        )],
        vec![],
    );
    assert_eq!(expand_entry_point(&c, 0), Ok(bytes(&["01", "02"])));
}

#[test]
fn undefined_macro_is_missing() {
    let c = contract(vec![definition("M", vec![Statement::Literal(vec![1]), invoke("NOWHERE")])], vec![]);
    assert_eq!(expand_entry_point(&c, 0), Err(CodegenErrorKind::MissingMacroDefinition));
}

#[test]
fn undefined_constant_is_missing() {
    let c = contract(vec![definition("M", vec![Statement::Constant("NOWHERE".to_string())])], vec![]);
    assert_eq!(expand_entry_point(&c, 0), Err(CodegenErrorKind::MissingConstantDefinition));
}

#[test]
fn first_failure_in_source_order_is_reported() {
    let c = contract(
        vec![definition("M", vec![Statement::Constant("NOWHERE".to_string()), invoke("NOWHERE")])],
        vec![],
    );
    assert_eq!(expand_entry_point(&c, 0), Err(CodegenErrorKind::MissingConstantDefinition));
    let d = contract(
        vec![definition("M", vec![invoke("NOWHERE"), Statement::Constant("NOWHERE".to_string())])],
        vec![],
    );
    assert_eq!(expand_entry_point(&d, 0), Err(CodegenErrorKind::MissingMacroDefinition));
}

#[test]
fn failure_inside_an_invoked_macro_is_a_failed_recursion() {
    let c = contract(
        vec![
            definition("M", vec![invoke("A")]),
            definition("A", vec![Statement::Constant("NOWHERE".to_string())]),
        ],
        vec![],
    );
    assert_eq!(expand_entry_point(&c, 0), Err(CodegenErrorKind::FailedMacroRecursion));
    assert_eq!(expand_entry_point(&c, 1), Err(CodegenErrorKind::MissingConstantDefinition));
}

#[test]
fn label_declaration_is_an_invalid_statement() {
    let c = contract(
        vec![definition("M", vec![Statement::Literal(vec![1]), Statement::Label("here".to_string())])],
        vec![],
    );
    assert_eq!(expand_entry_point(&c, 0), Err(CodegenErrorKind::InvalidMacroStatement));
}

#[test]
fn body_that_cannot_be_lowered_is_not_expanded() {
    let c = contract(
        vec![definition("M", vec![invoke("NOWHERE"), Statement::Label("here".to_string())])],
        vec![],
    );
    assert_eq!(expand_entry_point(&c, 0), Err(CodegenErrorKind::InvalidMacroStatement));
}

#[test]
fn macro_that_invokes_itself_is_circular() {
    let c = contract(vec![definition("M", vec![Statement::Literal(vec![1]), invoke("M")])], vec![]);
    assert_eq!(expand_entry_point(&c, 0), Err(CodegenErrorKind::CircularMacroReference));
}

#[test]
fn cycle_through_another_macro_is_found_below() {
    let c = contract(
        vec![definition("M", vec![invoke("A")]), definition("A", vec![invoke("M")])],
        vec![],
    );
    assert_eq!(expand_entry_point(&c, 0), Err(CodegenErrorKind::FailedMacroRecursion));
}

#[test]
fn call_path_decides_what_is_circular() {
    let m = definition("M", vec![invoke("A")]);
    let a = definition("A", vec![Statement::Literal(vec![9])]);
    let c = contract(vec![m.clone(), a.clone()], vec![]);
    let mut empty = vec![];
    let free = Codegen::recurse_bytecode(m.clone(), Some(c.clone()), &mut empty);
    assert_eq!(free, Ok(bytes(&["09"])));
    assert!(empty.is_empty());
    let mut inside = vec![a.clone(), m.clone()];
    let blocked = Codegen::recurse_bytecode(m, Some(c), &mut inside);
    assert_eq!(blocked.unwrap_err().kind, CodegenErrorKind::CircularMacroReference);
    assert_eq!(inside.len(), 2);
}

#[test]
fn expansion_without_a_contract_fails() {
    let mut scope = vec![];
    let outcome = Codegen::recurse_bytecode(definition("M", vec![]), None, &mut scope);
    assert_eq!(outcome.unwrap_err().kind, CodegenErrorKind::MissingAst);
}

#[test]
fn lowered_statement_that_is_no_invocation_is_refused() {
    let c = contract(vec![], vec![]);
    let lowered = IRBytecode(vec![
        IRByte::Byte(Byte("01".to_string())),
        IRByte::Statement(Statement::Literal(vec![2])),
    ]);
    let mut scope = vec![];
    let outcome = Codegen::expand_entries(&lowered, &c, &mut scope);
    assert_eq!(outcome.unwrap_err().kind, CodegenErrorKind::InvalidMacroStatement);
}

#[test]
fn lowered_bytes_are_kept_verbatim() {
    let c = contract(vec![], vec![]);
    let lowered = IRBytecode(vec![IRByte::Byte(Byte("zz".to_string())), IRByte::ArgCall("a".to_string())]);
    let mut scope = vec![];
    assert_eq!(Codegen::expand_entries(&lowered, &c, &mut scope), Ok(bytes(&["zz"])));
}

#[test]
fn expand_and_recurse_bytecode_agree() {
    let m = definition("M", vec![Statement::Literal(vec![0xfe]), Statement::Constant("K".to_string())]);
    let c = contract(vec![m.clone()], vec![constant("K", ConstVal::Literal(vec![1, 2, 3]))]);
    let mut scope = vec![m.clone()];
    let direct = Codegen::expand(&m, &c, &mut scope);
    assert_eq!(direct, Ok(bytes(&["fe", "62", "01", "02", "03"])));
    assert_eq!(expand_entry_point(&c, 0), direct.map_err(|e| e.kind));
}
