//! What the expansion of a macro is: the bytes that remain when every
//! invocation under it has been inlined and every constant resolved.
//!
//! Expansion is stated here over what the syntax tree says, as a function of
//! the contract, the macro and the call path. The executable expander is
//! proved to compute it.

use crate::ast::{
    macro_names, macro_views, ConstValView, ContractView, MacroDefinition, MacroDefinitionView,
    StatementView,
};
use crate::bytecode::{lower, IRByteView};
use crate::encoding::{hex_of_byte, hex_padded};
use crate::error::CodegenErrorKind;
use vstd::prelude::*;

verus! {

/// The opcode that pushes `length` literal bytes, as the text of one byte:
/// `0x5f` for none, and one more for each byte.
pub open spec fn push_opcode(length: nat) -> Seq<char> {
    hex_padded(95 + length, 2)
}

/// The bytes that push a literal: the opcode for its length, then the literal.
pub open spec fn push_literal(bytes: Seq<u8>) -> Seq<Seq<char>> {
    seq![push_opcode(bytes.len())] + bytes.map_values(|b: u8| hex_of_byte(b))
}

/// The bytes that push the value of a constant. A storage slot that is still
/// to be assigned counts as slot zero, pushed as one byte.
pub open spec fn push_bytes(value: ConstValView) -> Seq<Seq<char>> {
    match value {
        ConstValView::Literal(bytes) => push_literal(bytes),
        ConstValView::FreeStoragePointer => push_literal(seq![0u8]),
    }
}

/// The names of the macros on a call path, outermost first.
pub open spec fn scope_path(scope: Seq<MacroDefinition>) -> Seq<Seq<char>> {
    macro_names(macro_views(scope))
}

/// How many of `names` are not on `path`. Each nested invocation that
/// expansion follows takes one away, which is why expansion ends.
pub open spec fn unvisited(names: Seq<Seq<char>>, path: Seq<Seq<char>>) -> nat
    decreases names.len(),
{
    if names.len() == 0 {
        0
    } else {
        unvisited(names.drop_last(), path) + if path.contains(names.last()) {
            0nat
        } else {
            1nat
        }
    }
}

/// A longer path leaves no more names unvisited, and fewer if the name that
/// it gained is one of `names` and was not on the path before.
pub proof fn lemma_unvisited_push(names: Seq<Seq<char>>, path: Seq<Seq<char>>, name: Seq<char>)
    ensures
        unvisited(names, path.push(name)) <= unvisited(names, path),
        names.contains(name) && !path.contains(name) ==> unvisited(names, path.push(name))
            < unvisited(names, path),
    decreases names.len(),
{
    if names.len() > 0 {
        let longer = path.push(name);
        let last = names.last();
        lemma_unvisited_push(names.drop_last(), path, name);
        if path.contains(last) {
            let i = choose|i: int| 0 <= i < path.len() && path[i] == last;
            assert(longer[i] == last);
        }
        if names.contains(name) && !path.contains(name) {
            if last == name {
                assert(longer[path.len() as int] == name);
            } else {
                let k = choose|k: int| 0 <= k < names.len() && names[k] == name;
                assert(names.drop_last()[k] == name);
            }
        }
    }
}

/// The bytes that a lowered body expands to on the given call path, or the
/// first failure met on the way. Entries are expanded in order and their
/// bytes joined in that order.
pub open spec fn expand_ir(
    contract: ContractView,
    entries: Seq<IRByteView>,
    path: Seq<Seq<char>>,
) -> Result<Seq<Seq<char>>, CodegenErrorKind>
    decreases unvisited(macro_names(contract.macros), path), 0nat, entries.len(),
{
    if entries.len() == 0 {
        Ok(Seq::empty())
    } else {
        match expand_ir(contract, entries.drop_last(), path) {
            Err(e) => Err(e),
            Ok(bytes) => match expand_entry(contract, entries.last(), path) {
                Err(e) => Err(e),
                Ok(more) => Ok(bytes + more),
            },
        }
    }
}

/// The bytes that one lowered entry expands to on the given call path.
///
/// A final byte stands for itself. A constant becomes the push of its value.
/// An invocation becomes the expansion of the invoked macro, with that macro
/// added to the call path; a macro that is already on the path cannot be
/// invoked. Any other statement is refused. A reference to an argument
/// contributes nothing.
pub open spec fn expand_entry(
    contract: ContractView,
    entry: IRByteView,
    path: Seq<Seq<char>>,
) -> Result<Seq<Seq<char>>, CodegenErrorKind>
    decreases unvisited(macro_names(contract.macros), path), 0nat, 0nat,
{
    match entry {
        IRByteView::Byte(byte) => Ok(seq![byte]),
        IRByteView::Constant(name) => match contract.find_constant(name) {
            None => Err(CodegenErrorKind::MissingConstantDefinition),
            Some(constant) => Ok(push_bytes(constant.value)),
        },
        IRByteView::Statement(StatementView::MacroInvocation(invocation)) => {
            match contract.find_macro(invocation.macro_name) {
                None => Err(CodegenErrorKind::MissingMacroDefinition),
                Some(invoked) => if path.contains(invocation.macro_name) {
                    Err(CodegenErrorKind::CircularMacroReference)
                } else {
                    proof {
                        let names = macro_names(contract.macros);
                        names.index_of_first_ensures(invocation.macro_name);
                        lemma_unvisited_push(names, path, invocation.macro_name);
                    }
                    match expand_body(
                        contract,
                        invoked.statements,
                        path.push(invocation.macro_name),
                    ) {
                        Ok(bytes) => Ok(bytes),
                        Err(_) => Err(CodegenErrorKind::FailedMacroRecursion),
                    }
                },
            }
        },
        IRByteView::Statement(_) => Err(CodegenErrorKind::InvalidMacroStatement),
        IRByteView::ArgCall(_) => Ok(Seq::empty()),
    }
}

/// The bytes that a macro body expands to on the given call path: the body
/// is lowered, then the lowered body is expanded.
pub open spec fn expand_body(
    contract: ContractView,
    statements: Seq<StatementView>,
    path: Seq<Seq<char>>,
) -> Result<Seq<Seq<char>>, CodegenErrorKind>
    decreases unvisited(macro_names(contract.macros), path), 1nat, 0nat,
{
    match lower(statements) {
        Err(e) => Err(e),
        Ok(entries) => expand_ir(contract, entries, path),
    }
}

/// The bytes that a macro expands to on the given call path: those of its
/// body.
pub open spec fn expand_macro(
    contract: ContractView,
    definition: MacroDefinitionView,
    path: Seq<Seq<char>>,
) -> Result<Seq<Seq<char>>, CodegenErrorKind> {
    expand_body(contract, definition.statements, path)
}

/// The expansion of a macro as the entry point of a program: it alone is on
/// the call path.
pub open spec fn expansion(contract: ContractView, definition: MacroDefinitionView) -> Result<
    Seq<Seq<char>>,
    CodegenErrorKind,
> {
    expand_macro(contract, definition, seq![definition.name])
}

} // verus!
