use huff_codegen::abi::{Abi, Constructor};
use huff_codegen::ast::{
    Argument, ConstVal, ConstantDefinition, Contract, EventDefinition, FunctionDefinition,
    FunctionType, MacroDefinition, MacroInvocation, Statement,
};
use huff_codegen::{Artifact, Codegen, CodegenErrorKind, ConstructorArg, Export};

fn definition(name: &str, statements: Vec<Statement>) -> MacroDefinition {
    MacroDefinition { name: name.to_string(), parameters: vec![], statements, takes: 0, returns: 0 }
}

fn invoke(name: &str) -> Statement {
    Statement::MacroInvocation(MacroInvocation { macro_name: name.to_string(), args: vec![] })
}

fn argument(arg_type: &str, name: &str, indexed: bool) -> Argument {
    Argument { arg_type: arg_type.to_string(), name: name.to_string(), indexed }
}

fn function(name: &str, inputs: Vec<Argument>, fn_type: FunctionType, outputs: Vec<Argument>) -> FunctionDefinition {
    FunctionDefinition { name: name.to_string(), inputs, fn_type, outputs }
}

fn sample_contract() -> Contract {
    Contract {
        macros: vec![
            definition("HELPER", vec![Statement::Literal(vec![0x33])]),
            definition(
                "CONSTRUCTOR",
                vec![Statement::Constant("OWNER".to_string()), invoke("HELPER"), Statement::Literal(vec![0x55])],
            ),
        ],
        constants: vec![ConstantDefinition { name: "OWNER".to_string(), value: ConstVal::Literal(vec![0xca, 0xfe]) }],
        functions: vec![
            function("transfer", vec![argument("address", "to", false)], FunctionType::NonPayable, vec![]),
            function("CONSTRUCTOR", vec![argument("uint256", "supply", false)], FunctionType::NonPayable, vec![]),
            function("balance", vec![], FunctionType::View, vec![argument("uint256", "", false)]),
        ],
        events: vec![EventDefinition {
            name: "Transfer".to_string(),
            parameters: vec![argument("address", "from", true), argument("uint256", "value", false)],
        }],
    }
}

#[test]
fn new_generator_holds_nothing() {
    let codegen = Codegen::new();
    assert_eq!(codegen.ast, None);
    assert_eq!(codegen.artifact, None);
    assert_eq!(codegen.main_bytecode, None);
    assert_eq!(codegen.constructor_bytecode, None);
}

#[test]
fn roll_without_contract_fails() {
    let error = Codegen::roll(None).unwrap_err();
    assert_eq!(error.kind, CodegenErrorKind::MissingAst);
    assert_eq!(error.span, None);
    assert_eq!(error.token, None);
}

#[test]
fn roll_with_contract_gives_empty_code() {
    assert_eq!(Codegen::roll(Some(sample_contract())), Ok(String::new()));
}

#[test]
fn graceful_ast_grab_prefers_the_given_contract() {
    let mut codegen = Codegen::new();
    codegen.ast = Some(sample_contract());
    let given = Contract { macros: vec![], constants: vec![], functions: vec![], events: vec![] };
    assert_eq!(codegen.graceful_ast_grab(Some(given.clone())), Ok(given));
}

#[test]
fn graceful_ast_grab_falls_back_to_the_kept_contract() {
    let mut codegen = Codegen::new();
    codegen.ast = Some(sample_contract());
    assert_eq!(codegen.graceful_ast_grab(None), Ok(sample_contract()));
    assert_eq!(codegen.ast, Some(sample_contract()));
}

#[test]
fn graceful_ast_grab_without_any_contract_fails() {
    let codegen = Codegen::new();
    assert_eq!(codegen.graceful_ast_grab(None).unwrap_err().kind, CodegenErrorKind::MissingAst);
}

#[test]
fn construct_expands_the_constructor_macro() {
    assert_eq!(Codegen::construct(Some(sample_contract())), Ok("61cafe3355".to_string()));
}

#[test]
fn construct_without_contract_fails() {
    assert_eq!(Codegen::construct(None).unwrap_err().kind, CodegenErrorKind::MissingAst);
}

#[test]
fn construct_without_constructor_macro_fails() {
    let mut contract = sample_contract();
    contract.macros.truncate(1);
    assert_eq!(Codegen::construct(Some(contract)).unwrap_err().kind, CodegenErrorKind::MissingConstructor);
}

#[test]
fn construct_with_empty_constructor_gives_empty_code() {
    let contract = Contract {
        macros: vec![definition("CONSTRUCTOR", vec![])],
        constants: vec![],
        functions: vec![],
        events: vec![],
    };
    assert_eq!(Codegen::construct(Some(contract)), Ok(String::new()));
}

#[test]
fn construct_reports_what_the_constructor_lacks() {
    let contract = Contract {
        macros: vec![definition("CONSTRUCTOR", vec![invoke("NOWHERE")])],
        constants: vec![],
        functions: vec![],
        events: vec![],
    };
    assert_eq!(Codegen::construct(Some(contract)).unwrap_err().kind, CodegenErrorKind::MissingMacroDefinition);
}

#[test]
fn construct_refuses_a_constructor_that_invokes_itself() {
    let contract = Contract {
        macros: vec![definition("CONSTRUCTOR", vec![invoke("CONSTRUCTOR")])],
        constants: vec![],
        functions: vec![],
        events: vec![],
    };
    assert_eq!(Codegen::construct(Some(contract)).unwrap_err().kind, CodegenErrorKind::CircularMacroReference);
}

#[test]
fn constructor_name_is_case_sensitive() {
    let contract = Contract {
        macros: vec![definition("constructor", vec![])],
        constants: vec![],
        functions: vec![],
        events: vec![],
    };
    assert_eq!(Codegen::construct(Some(contract)).unwrap_err().kind, CodegenErrorKind::MissingConstructor);
}

#[test]
fn find_macro_by_name_finds_the_first_definition() {
    let mut contract = sample_contract();
    contract.macros.push(definition("HELPER", vec![Statement::Literal(vec![0x99])]));
    assert_eq!(contract.find_macro_by_name("HELPER"), Some(definition("HELPER", vec![Statement::Literal(vec![0x33])])));
    assert_eq!(contract.find_macro_by_name("helper"), None);
    assert_eq!(contract.macro_position(&"CONSTRUCTOR".to_string()), Some(1));
    assert_eq!(contract.constant_position(&"OWNER".to_string()), Some(0));
    assert_eq!(contract.constant_position(&"NOBODY".to_string()), None);
}

#[test]
fn abi_is_derived_from_the_declarations() {
    let abi = Abi::from_contract(&sample_contract());
    assert_eq!(abi.constructor, Some(Constructor { inputs: vec![argument("uint256", "supply", false)] }));
    assert_eq!(
        abi.functions,
        vec![
            function("transfer", vec![argument("address", "to", false)], FunctionType::NonPayable, vec![]),
            function("balance", vec![], FunctionType::View, vec![argument("uint256", "", false)]),
        ]
    );
    assert_eq!(abi.events, sample_contract().events);
    assert!(!abi.receive);
    assert!(!abi.fallback);
}

#[test]
fn abi_of_an_empty_contract_is_empty() {
    let contract = Contract { macros: vec![], constants: vec![], functions: vec![], events: vec![] };
    let abi = Abi::from_contract(&contract);
    assert_eq!(abi, Abi { constructor: None, functions: vec![], events: vec![], receive: false, fallback: false });
}

#[test]
fn abigen_creates_the_artifact() {
    let mut codegen = Codegen::new();
    let abi = codegen.abigen(sample_contract()).unwrap();
    assert_eq!(abi, Abi::from_contract(&sample_contract()));
    assert_eq!(
        codegen.artifact,
        Some(Artifact { bytecode: String::new(), runtime: String::new(), abi: Some(abi) })
    );
    assert_eq!(codegen.ast, None);
}

#[test]
fn abigen_keeps_the_code_of_the_artifact() {
    let mut codegen = Codegen::new();
    let churned = codegen.churn(vec![], "6001", "").unwrap();
    let abi = codegen.abigen(sample_contract()).unwrap();
    assert_eq!(
        codegen.artifact,
        Some(Artifact { bytecode: churned.bytecode, runtime: "6001".to_string(), abi: Some(abi) })
    );
}

#[test]
fn churn_keeps_the_abi_of_the_artifact() {
    let mut codegen = Codegen::new();
    let abi = codegen.abigen(sample_contract()).unwrap();
    let artifact = codegen.churn(vec![], "6001", "").unwrap();
    assert_eq!(artifact.abi, Some(abi));
    assert_eq!(artifact.runtime, "6001");
    assert_eq!(codegen.artifact, Some(artifact));
}

#[test]
fn export_before_any_artifact_writes_nothing() {
    let codegen = Codegen::new();
    assert_eq!(codegen.export("out.json".to_string()), Ok(Export::Nothing { output: "out.json".to_string() }));
}

#[test]
fn export_hands_out_the_artifact() {
    let mut codegen = Codegen::new();
    let artifact = codegen.churn(vec![ConstructorArg::Bool(false)], "00", "ff").unwrap();
    assert_eq!(
        codegen.export("out.json".to_string()),
        Ok(Export::Write { output: "out.json".to_string(), artifact })
    );
}

#[test]
fn churn_without_constructor_or_arguments() {
    let mut codegen = Codegen::new();
    let runtime = "00112233445566778899";
    let artifact = codegen.churn(vec![], runtime, "").unwrap();
    assert_eq!(artifact.bytecode, "61000a8061000d6000396000f300112233445566778899");
    assert_eq!(artifact.runtime, runtime);
    assert_eq!(artifact.abi, None);
    assert_eq!(codegen.artifact, Some(artifact));
}

#[test]
fn churn_counts_the_constructor_into_the_offset() {
    let mut codegen = Codegen::new();
    let artifact = codegen.churn(vec![], "6001", "600260036004").unwrap();
    assert_eq!(artifact.bytecode, "600260036004610002806100136000396000f36001");
}

#[test]
fn churn_replaces_earlier_code() {
    let mut codegen = Codegen::new();
    codegen.churn(vec![], "6001", "").unwrap();
    let artifact = codegen.churn(vec![], "", "").unwrap();
    assert_eq!(artifact.bytecode, "6100008061000d6000396000f3");
    assert_eq!(artifact.runtime, "");
}

#[test]
fn churn_writes_long_lengths_in_full() {
    let mut codegen = Codegen::new();
    let runtime = "00".repeat(0x1_0000);
    let artifact = codegen.churn(vec![], &runtime, "").unwrap();
    assert!(artifact.bytecode.starts_with("61100008061000d6000396000f3"));
}

#[test]
fn constructed_code_can_be_churned() {
    let constructor = Codegen::construct(Some(sample_contract())).unwrap();
    let mut codegen = Codegen::new();
    let artifact = codegen.churn(vec![], "60ff", &constructor).unwrap();
    assert_eq!(artifact.bytecode, "61cafe3355610002806100126000396000f360ff");
}

#[test]
fn constants_fit_when_no_literal_is_over_32_bytes() {
    let mut contract = sample_contract();
    assert!(contract.constants_fit());
    contract.constants.push(ConstantDefinition { name: "SLOT".to_string(), value: ConstVal::FreeStoragePointer });
    contract.constants.push(ConstantDefinition { name: "WORD".to_string(), value: ConstVal::Literal(vec![1; 32]) });
    assert!(contract.constants_fit());
    contract.constants.push(ConstantDefinition { name: "LONG".to_string(), value: ConstVal::Literal(vec![1; 33]) });
    assert!(!contract.constants_fit());
}

#[test]
fn default_generator_holds_nothing() {
    assert_eq!(Codegen::default(), Codegen::new());
}

#[test]
fn clone_of_a_generator_holds_the_same() {
    let mut codegen = Codegen::new();
    codegen.ast = Some(sample_contract());
    codegen.main_bytecode = Some("6001".to_string());
    codegen.churn(vec![], "6001", "").unwrap();
    assert_eq!(codegen.clone(), codegen);
}
