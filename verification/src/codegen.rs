//! The code generator: from a contract's syntax tree to the code that deploys
//! it.

use crate::abi::{abi_of, constructor_name, Abi, AbiView};
use crate::arguments::{abi_encode, encodings, ConstructorArg};
use crate::artifact::{Artifact, ArtifactView};
use crate::assembler::{assemble, buffers, deployment_code};
use crate::ast::{macro_names, ConstVal, Contract, ContractView, MacroDefinition, Statement};
use crate::bytecode::{byte_views, Byte, IRByte, IRByteView, IRBytecode};
use crate::encoding::{format_hex, hex_encode, hex_of_byte, lemma_hex_string_single};
use crate::error::{CodegenError, CodegenErrorKind};
use crate::expansion::{
    expand_entry, expand_ir, expand_macro, expansion, lemma_unvisited_push, push_bytes,
    push_literal, push_opcode, scope_path, unvisited,
};
use vstd::prelude::*;
use vstd::slice::slice_subrange;

verus! {

/// The code generator. It keeps the contract it works on and the artifact
/// that the steps of a compilation fill.
#[derive(Debug, PartialEq, Eq)]
pub struct Codegen {
    /// The contract's syntax tree.
    pub ast: Option<Contract>,
    /// The artifact of the compilation so far.
    pub artifact: Option<Artifact>,
    /// The runtime code, once generated.
    pub main_bytecode: Option<String>,
    /// The constructor code, once generated.
    pub constructor_bytecode: Option<String>,
}

impl Default for Codegen {
    /// A code generator that has been given nothing yet.
    fn default() -> (codegen: Self)
        ensures
            codegen.ast is None,
            codegen.artifact is None,
            codegen.main_bytecode is None,
            codegen.constructor_bytecode is None,
    {
        Self { ast: None, artifact: None, main_bytecode: None, constructor_bytecode: None }
    }
}

impl Clone for Codegen {
    fn clone(&self) -> (res: Self)
        ensures
            ast_view(res.ast) == ast_view(self.ast),
            artifact_view(res.artifact) == artifact_view(self.artifact),
            res.main_bytecode == self.main_bytecode,
            res.constructor_bytecode == self.constructor_bytecode,
    {
        Codegen {
            ast: match &self.ast {
                Some(contract) => Some(contract.clone()),
                None => None,
            },
            artifact: match &self.artifact {
                Some(artifact) => Some(artifact.clone()),
                None => None,
            },
            main_bytecode: self.main_bytecode.clone(),
            constructor_bytecode: self.constructor_bytecode.clone(),
        }
    }
}

/// What an optional contract says.
pub open spec fn ast_view(ast: Option<Contract>) -> Option<ContractView> {
    match ast {
        Some(contract) => Some(contract@),
        None => None,
    }
}

/// What an optional artifact says.
pub open spec fn artifact_view(artifact: Option<Artifact>) -> Option<ArtifactView> {
    match artifact {
        Some(a) => Some(a@),
        None => None,
    }
}

/// Whether the expander's outcome is the stated one: the very bytes, or a
/// bare error of the very kind.
pub open spec fn expansion_is(
    outcome: Result<Vec<Byte>, CodegenError>,
    stated: Result<Seq<Seq<char>>, CodegenErrorKind>,
) -> bool {
    match outcome {
        Ok(bytes) => stated == Ok::<Seq<Seq<char>>, CodegenErrorKind>(byte_views(bytes@)),
        Err(error) => stated matches Err(kind) && error.is_bare(kind),
    }
}

/// Whether generated code is the stated one: the very text, or a bare error
/// of the very kind.
pub open spec fn code_is(
    outcome: Result<String, CodegenError>,
    stated: Result<Seq<char>, CodegenErrorKind>,
) -> bool {
    match outcome {
        Ok(code) => stated == Ok::<Seq<char>, CodegenErrorKind>(code@),
        Err(error) => stated matches Err(kind) && error.is_bare(kind),
    }
}

/// The constructor code of a contract: the expansion of its macro
/// `CONSTRUCTOR`, byte after byte, as one text.
pub open spec fn constructor_code(ast: Option<ContractView>) -> Result<
    Seq<char>,
    CodegenErrorKind,
> {
    match ast {
        None => Err(CodegenErrorKind::MissingAst),
        Some(contract) => match contract.find_macro(constructor_name()) {
            None => Err(CodegenErrorKind::MissingConstructor),
            Some(definition) => match expansion(contract, definition) {
                Err(kind) => Err(kind),
                Ok(bytes) => Ok(bytes.flatten()),
            },
        },
    }
}

/// The artifact after the deployment code has been put together: the code,
/// the runtime code as it was given, and the interface that the artifact had.
pub open spec fn churned(
    before: Option<ArtifactView>,
    args: Seq<ConstructorArg>,
    main_bytecode: Seq<char>,
    constructor_bytecode: Seq<char>,
) -> ArtifactView {
    ArtifactView {
        bytecode: deployment_code(constructor_bytecode, main_bytecode, encodings(args)),
        runtime: main_bytecode,
        abi: match before {
            Some(artifact) => artifact.abi,
            None => None,
        },
    }
}

/// The artifact after the interface has been derived: the interface, and the
/// code that the artifact had, or none.
pub open spec fn with_abi(before: Option<ArtifactView>, abi: AbiView) -> ArtifactView {
    match before {
        Some(artifact) => ArtifactView {
            bytecode: artifact.bytecode,
            runtime: artifact.runtime,
            abi: Some(abi),
        },
        None => ArtifactView { bytecode: Seq::empty(), runtime: Seq::empty(), abi: Some(abi) },
    }
}

/// What an export asks of whoever can write files.
#[derive(Debug, PartialEq, Eq)]
pub enum Export {
    /// Write this artifact to this location.
    Write { output: String, artifact: Artifact },
    /// There is no artifact: write nothing, and warn that nothing was written
    /// to this location.
    Nothing { output: String },
}

/// Whether an export is the one that is due for the given artifact and
/// location: to write the artifact where there is one, and nothing else.
pub open spec fn export_is(export: Export, artifact: Option<Artifact>, output: Seq<char>) -> bool {
    match artifact {
        Some(kept) => export matches Export::Write { output: to, artifact: written } && to@
            == output && written@ == kept@,
        None => export matches Export::Nothing { output: to } && to@ == output,
    }
}

/// Whether the macro `name` is on the call path.
fn on_path(scope: &Vec<MacroDefinition>, name: &String) -> (found: bool)
    ensures
        found == scope_path(scope@).contains(name@),
{
    let ghost path = scope_path(scope@);
    let mut i: usize = 0;
    while i < scope.len()
        invariant
            i <= scope.len(),
            path == scope_path(scope@),
            path.len() == scope.len(),
            forall|j: int| 0 <= j < i ==> path[j] != name@,
        decreases scope.len() - i,
    {
        if scope[i].name == *name {
            assert(path[i as int] == name@);
            return true;
        }
        i = i + 1;
    }
    false
}

/// The bytes that push a literal: the opcode for its length, then the
/// literal, byte by byte.
fn emit_push(literal: &Vec<u8>) -> (bytes: Vec<Byte>)
    ensures
        byte_views(bytes@) == push_literal(literal@),
{
    let mut bytes: Vec<Byte> = Vec::new();
    bytes.push(Byte(format_hex(literal.len() as u128 + 95, 2)));
    let ghost texts = literal@.map_values(|b: u8| hex_of_byte(b));
    let ghost head = byte_views(bytes@);
    assert(head =~= seq![push_opcode(literal@.len())]);
    assert(byte_views(bytes@) =~= head + texts.take(0));
    let mut i: usize = 0;
    while i < literal.len()
        invariant
            i <= literal.len(),
            texts == literal@.map_values(|b: u8| hex_of_byte(b)),
            byte_views(bytes@) == head + texts.take(i as int),
        decreases literal.len() - i,
    {
        let ghost done = byte_views(bytes@);
        let one = slice_subrange(literal.as_slice(), i, i + 1);
        let text = hex_encode(one);
        proof {
            assert(one@ =~= seq![literal[i as int]]);
            lemma_hex_string_single(literal[i as int]);
        }
        bytes.push(Byte(text));
        assert(byte_views(bytes@) =~= done.push(texts[i as int]));
        assert(texts.take(i as int + 1) =~= texts.take(i as int).push(texts[i as int]));
        i = i + 1;
    }
    assert(texts.take(i as int) =~= texts);
    bytes
}

/// The bytes that push the value of a constant.
fn emit_constant(value: &ConstVal) -> (bytes: Vec<Byte>)
    ensures
        byte_views(bytes@) == push_bytes(value@),
{
    match value {
        ConstVal::Literal(literal) => emit_push(literal),
        ConstVal::FreeStoragePointer => {
            let mut offset: Vec<u8> = Vec::new();
            offset.push(0);
            assert(offset@ =~= seq![0u8]);
            emit_push(&offset)
        },
    }
}

/// The bytes of a list, byte after byte, as one text.
pub fn join_bytes(bytes: &Vec<Byte>) -> (code: String)
    ensures
        code@ == byte_views(bytes@).flatten(),
{
    let ghost texts = byte_views(bytes@);
    let mut code = String::new();
    let mut i: usize = 0;
    assert(texts.take(0) =~= Seq::<Seq<char>>::empty());
    while i < bytes.len()
        invariant
            i <= bytes.len(),
            texts == byte_views(bytes@),
            code@ == texts.take(i as int).flatten(),
        decreases bytes.len() - i,
    {
        code.append(bytes[i].0.as_str());
        proof {
            assert(texts.take(i as int + 1) =~= texts.take(i as int).push(texts[i as int]));
            texts.take(i as int).lemma_flatten_push(texts[i as int]);
        }
        i = i + 1;
    }
    assert(texts.take(i as int) =~= texts);
    code
}

impl Codegen {
    /// A code generator that has been given nothing yet.
    pub fn new() -> (codegen: Self)
        ensures
            codegen.ast is None,
            codegen.artifact is None,
            codegen.main_bytecode is None,
            codegen.constructor_bytecode is None,
    {
        Self { ast: None, artifact: None, main_bytecode: None, constructor_bytecode: None }
    }

    /// Generates the runtime code of a contract. No runtime code is generated
    /// from a contract yet: with a contract the code is empty, without one
    /// the call fails.
    pub fn roll(ast: Option<Contract>) -> (outcome: Result<String, CodegenError>)
        ensures
            match ast {
                Some(_) => outcome matches Ok(code) && code@ == Seq::<char>::empty(),
                None => outcome matches Err(error) && error.is_bare(CodegenErrorKind::MissingAst),
            },
    {
        match ast {
            Some(_) => Ok(String::new()),
            None => Err(CodegenError::new(CodegenErrorKind::MissingAst)),
        }
    }

    /// The contract to work on: the one that is passed in or, where none is,
    /// a copy of the one that the generator keeps.
    pub fn graceful_ast_grab(&self, ast: Option<Contract>) -> (outcome: Result<
        Contract,
        CodegenError,
    >)
        ensures
            match ast {
                Some(given) => outcome == Ok::<Contract, CodegenError>(given),
                None => match self.ast {
                    Some(kept) => outcome matches Ok(contract) && contract@ == kept@,
                    None => outcome matches Err(error) && error.is_bare(
                        CodegenErrorKind::MissingAst,
                    ),
                },
            },
    {
        match ast {
            Some(given) => Ok(given),
            None => match &self.ast {
                Some(kept) => Ok(kept.clone()),
                None => Err(CodegenError::new(CodegenErrorKind::MissingAst)),
            },
        }
    }

    /// Expands a macro on the call path `scope`: lowers its body, then expands
    /// the lowered body. A body that cannot be lowered is not expanded at all.
    /// The call path is the same after the call as before.
    pub fn expand(
        macro_def: &MacroDefinition,
        contract: &Contract,
        scope: &mut Vec<MacroDefinition>,
    ) -> (outcome: Result<Vec<Byte>, CodegenError>)
        ensures
            final(scope)@ == old(scope)@,
            expansion_is(outcome, expand_macro(contract@, macro_def@, scope_path(old(scope)@))),
        decreases unvisited(macro_names(contract@.macros), scope_path(old(scope)@)), 1nat,
    {
        match macro_def.to_irbytecode() {
            Ok(lowered) => Self::expand_entries(&lowered, contract, scope),
            Err(error) => Err(error),
        }
    }

    /// Expands a lowered body on the call path `scope`: replaces every entry
    /// by its bytes, in order. A final byte stands for itself, a constant
    /// becomes the push of its value, an invocation becomes the expansion of
    /// the macro that it invokes, and a reference to an argument contributes
    /// nothing. The first failure ends the expansion: a constant or a macro
    /// that the contract does not define, a macro that is invoked while it is
    /// being expanded, an invoked macro whose expansion fails, or a statement
    /// that is no invocation. The call path is the same after the call as
    /// before.
    pub fn expand_entries(
        lowered: &IRBytecode,
        contract: &Contract,
        scope: &mut Vec<MacroDefinition>,
    ) -> (outcome: Result<Vec<Byte>, CodegenError>)
        ensures
            final(scope)@ == old(scope)@,
            expansion_is(outcome, expand_ir(contract@, lowered@, scope_path(old(scope)@))),
        decreases unvisited(macro_names(contract@.macros), scope_path(old(scope)@)), 0nat,
    {
        let ghost path = scope_path(scope@);
        let ghost entry_scope = scope@;
        let ghost names = macro_names(contract@.macros);
        let ghost entries = lowered@;
        let mut bytes: Vec<Byte> = Vec::new();
        let mut i: usize = 0;
        assert(entries.take(0) =~= Seq::<IRByteView>::empty());
        assert(byte_views(bytes@) =~= Seq::<Seq<char>>::empty());
        while i < lowered.0.len()
            invariant
                i <= lowered.0.len(),
                entries == lowered@,
                entries.len() == lowered.0.len(),
                scope@ == entry_scope,
                entry_scope == old(scope)@,
                path == scope_path(entry_scope),
                names == macro_names(contract@.macros),
                expand_ir(contract@, entries.take(i as int), path) == Ok::<
                    Seq<Seq<char>>,
                    CodegenErrorKind,
                >(byte_views(bytes@)),
            decreases lowered.0.len() - i,
        {
            let ghost done = byte_views(bytes@);
            let ghost prefix = entries.take(i as int + 1);
            assert(prefix.drop_last() =~= entries.take(i as int));
            assert(prefix.last() == lowered.0[i as int]@);
            match &lowered.0[i] {
                IRByte::Byte(byte) => {
                    bytes.push(byte.clone());
                    assert(byte_views(bytes@) =~= done + seq![byte@]);
                },
                IRByte::Constant(name) => {
                    match contract.constant_position(name) {
                        None => {
                            proof {
                                assert(contract@.find_constant(name@) is None);
                                assert(expand_entry(contract@, prefix.last(), path) is Err);
                                lemma_expand_prefix_error(contract@, entries, path, i as int + 1);
                            }
                            return Err(
                                CodegenError::new(CodegenErrorKind::MissingConstantDefinition),
                            );
                        },
                        Some(k) => {
                            let mut pushed = emit_constant(&contract.constants[k].value);
                            assert(contract@.find_constant(name@) == Some(
                                contract.constants[k as int]@,
                            ));
                            bytes.append(&mut pushed);
                            assert(byte_views(bytes@) =~= done + push_bytes(
                                contract.constants[k as int]@.value,
                            ));
                        },
                    }
                },
                IRByte::Statement(Statement::MacroInvocation(invocation)) => {
                    match contract.macro_position(&invocation.macro_name) {
                        None => {
                            proof {
                                assert(contract@.find_macro(invocation.macro_name@) is None);
                                assert(expand_entry(contract@, prefix.last(), path) is Err);
                                lemma_expand_prefix_error(contract@, entries, path, i as int + 1);
                            }
                            return Err(CodegenError::new(CodegenErrorKind::MissingMacroDefinition));
                        },
                        Some(k) => {
                            assert(contract@.find_macro(invocation.macro_name@) == Some(
                                contract.macros[k as int]@,
                            ));
                            if on_path(scope, &invocation.macro_name) {
                                proof {
                                    lemma_expand_prefix_error(
                                        contract@,
                                        entries,
                                        path,
                                        i as int + 1,
                                    );
                                }
                                return Err(
                                    CodegenError::new(CodegenErrorKind::CircularMacroReference),
                                );
                            }
                            let invoked = &contract.macros[k];
                            scope.push(invoked.clone());
                            proof {
                                names.index_of_first_ensures(invocation.macro_name@);
                                lemma_unvisited_push(names, path, invocation.macro_name@);
                                assert(scope_path(scope@) =~= path.push(invocation.macro_name@));
                            }
                            let inner = Self::expand(invoked, contract, scope);
                            scope.pop();
                            assert(scope@ =~= entry_scope);
                            match inner {
                                Ok(mut inlined) => {
                                    let ghost more = byte_views(inlined@);
                                    bytes.append(&mut inlined);
                                    assert(byte_views(bytes@) =~= done + more);
                                },
                                Err(_) => {
                                    proof {
                                        lemma_expand_prefix_error(
                                            contract@,
                                            entries,
                                            path,
                                            i as int + 1,
                                        );
                                    }
                                    return Err(
                                        CodegenError::new(CodegenErrorKind::FailedMacroRecursion),
                                    );
                                },
                            }
                        },
                    }
                },
                IRByte::Statement(_) => {
                    proof {
                        lemma_expand_prefix_error(contract@, entries, path, i as int + 1);
                    }
                    return Err(CodegenError::new(CodegenErrorKind::InvalidMacroStatement));
                },
                IRByte::ArgCall(_) => {
                    assert(byte_views(bytes@) =~= done + Seq::<Seq<char>>::empty());
                },
            }
            i = i + 1;
        }
        assert(entries.take(i as int) =~= entries);
        Ok(bytes)
    }

    /// Expands a macro of the given contract on the call path `scope`.
    /// Without a contract there is nothing to expand.
    pub fn recurse_bytecode(
        macro_def: MacroDefinition,
        ast: Option<Contract>,
        scope: &mut Vec<MacroDefinition>,
    ) -> (outcome: Result<Vec<Byte>, CodegenError>)
        ensures
            final(scope)@ == old(scope)@,
            match ast {
                Some(contract) => expansion_is(
                    outcome,
                    expand_macro(contract@, macro_def@, scope_path(old(scope)@)),
                ),
                None => outcome matches Err(error) && error.is_bare(CodegenErrorKind::MissingAst),
            },
    {
        match &ast {
            Some(contract) => Self::expand(&macro_def, contract, scope),
            None => Err(CodegenError::new(CodegenErrorKind::MissingAst)),
        }
    }

    /// Generates the constructor code of a contract: the expansion of its
    /// macro `CONSTRUCTOR`, as hexadecimal text.
    pub fn construct(ast: Option<Contract>) -> (outcome: Result<String, CodegenError>)
        ensures
            code_is(outcome, constructor_code(ast_view(ast))),
    {
        let contract = match &ast {
            Some(contract) => contract,
            None => {
                return Err(CodegenError::new(CodegenErrorKind::MissingAst));
            },
        };
        let reserved = "CONSTRUCTOR".to_owned();
        let position = match contract.macro_position(&reserved) {
            Some(position) => position,
            None => {
                return Err(CodegenError::new(CodegenErrorKind::MissingConstructor));
            },
        };
        let c_macro = &contract.macros[position];
        let mut scope: Vec<MacroDefinition> = Vec::new();
        scope.push(c_macro.clone());
        proof {
            macro_names(contract@.macros).index_of_first_ensures(reserved@);
            assert(scope_path(scope@) =~= seq![c_macro@.name]);
        }
        match Self::expand(c_macro, contract, &mut scope) {
            Ok(bytes) => Ok(join_bytes(&bytes)),
            Err(error) => Err(error),
        }
    }

    /// Puts the deployment code together and records it, with the runtime
    /// code, in the artifact, which is created if there is none yet. The code
    /// is the constructor code, the bootstrap sequence, the runtime code and
    /// the arguments, each encoded by itself, in the order given. Returns a
    /// copy of the artifact.
    pub fn churn(
        &mut self,
        args: Vec<ConstructorArg>,
        main_bytecode: &str,
        constructor_bytecode: &str,
    ) -> (outcome: Result<Artifact, CodegenError>)
        requires
            forall|i: int| 0 <= i < args.len() ==> (#[trigger] args[i]).encodable(),
        ensures
            outcome matches Ok(artifact) && artifact@ == churned(
                artifact_view(old(self).artifact),
                args@,
                main_bytecode@,
                constructor_bytecode@,
            ) && artifact_view(final(self).artifact) == Some(artifact@),
            final(self).ast == old(self).ast,
            final(self).main_bytecode == old(self).main_bytecode,
            final(self).constructor_bytecode == old(self).constructor_bytecode,
    {
        let mut encoded: Vec<Vec<u8>> = Vec::new();
        let mut i: usize = 0;
        assert(buffers(encoded@) =~= encodings(args@.take(0)));
        while i < args.len()
            invariant
                i <= args.len(),
                forall|i: int| 0 <= i < args.len() ==> (#[trigger] args[i]).encodable(),
                buffers(encoded@) == encodings(args@.take(i as int)),
            decreases args.len() - i,
        {
            let ghost done = buffers(encoded@);
            encoded.push(abi_encode(&args[i]));
            assert(buffers(encoded@) =~= done.push(args[i as int].encoding()));
            assert(encodings(args@.take(i as int + 1)) =~= encodings(args@.take(i as int)).push(
                args[i as int].encoding(),
            ));
            i = i + 1;
        }
        assert(args@.take(i as int) =~= args@);
        let bytecode = assemble(constructor_bytecode, main_bytecode, &encoded);
        let abi = match self.artifact.take() {
            Some(artifact) => artifact.abi,
            None => None,
        };
        let artifact = Artifact { bytecode, runtime: main_bytecode.to_owned(), abi };
        let copy = artifact.clone();
        self.artifact = Some(artifact);
        Ok(copy)
    }

    /// Says what is to be written where: the artifact, to `output`. Where no
    /// artifact exists yet nothing is to be written, which is no failure; the
    /// caller is asked to warn instead.
    pub fn export(&self, output: String) -> (outcome: Result<Export, CodegenError>)
        ensures
            outcome matches Ok(export) && export_is(export, self.artifact, output@),
    {
        match &self.artifact {
            Some(artifact) => Ok(Export::Write { output, artifact: artifact.clone() }),
            None => Ok(Export::Nothing { output }),
        }
    }

    /// Derives the interface that the contract declares and records it in
    /// the artifact, which is created if there is none yet. Returns the
    /// interface.
    pub fn abigen(&mut self, ast: Contract) -> (outcome: Result<Abi, CodegenError>)
        ensures
            outcome matches Ok(abi) && abi@ == abi_of(ast@),
            artifact_view(final(self).artifact) == Some(
                with_abi(artifact_view(old(self).artifact), abi_of(ast@)),
            ),
            final(self).ast == old(self).ast,
            final(self).main_bytecode == old(self).main_bytecode,
            final(self).constructor_bytecode == old(self).constructor_bytecode,
    {
        let abi = Abi::from_contract(&ast);
        let artifact = match self.artifact.take() {
            Some(artifact) => Artifact {
                bytecode: artifact.bytecode,
                runtime: artifact.runtime,
                abi: Some(abi.clone()),
            },
            None => Artifact { bytecode: String::new(), runtime: String::new(), abi: Some(abi.clone()) },
        };
        self.artifact = Some(artifact);
        Ok(abi)
    }
}

/// Where the expansion of a beginning of a lowered body fails, the expansion
/// of the body fails in the same way.
pub proof fn lemma_expand_prefix_error(
    contract: ContractView,
    entries: Seq<IRByteView>,
    path: Seq<Seq<char>>,
    n: int,
)
    requires
        0 <= n <= entries.len(),
        expand_ir(contract, entries.take(n), path) is Err,
    ensures
        expand_ir(contract, entries, path) == expand_ir(contract, entries.take(n), path),
    decreases entries.len(),
{
    if n == entries.len() {
        assert(entries.take(n) =~= entries);
    } else {
        assert(entries.drop_last().take(n) =~= entries.take(n));
        lemma_expand_prefix_error(contract, entries.drop_last(), path, n);
    }
}

} // verus!
