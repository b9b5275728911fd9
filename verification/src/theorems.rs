//! What holds of expansion whatever the contract: its order, its
//! independence of what stands further out on the call path, and the failures
//! that a missing definition brings.

use crate::abi::constructor_name;
use crate::ast::{
    macro_names, Contract, ContractView, MacroDefinition, MacroDefinitionView,
    MacroInvocationView, StatementView,
};
use crate::bytecode::{
    lemma_lower_error, lemma_lower_single, lower, lower_literal, lower_statement, IRByteView,
};
use crate::bytecode::{byte_views, Byte};
use crate::codegen::{constructor_code, expansion_is};
use crate::encoding::{digits_in_base, hex_char, hex_of_byte, hex_padded, zero_digits};
use crate::error::{CodegenError, CodegenErrorKind};
use crate::expansion::{
    expand_body, expand_entry, expand_ir, expand_macro, expansion, lemma_unvisited_push,
    push_literal, push_opcode, scope_path, unvisited,
};
use vstd::prelude::*;

verus! {

/// The texts of literal bytes, one for each byte.
pub open spec fn literal_texts(bytes: Seq<u8>) -> Seq<Seq<char>> {
    bytes.map_values(|b: u8| hex_of_byte(b))
}

/// Lowering goes statement by statement: two bodies joined lower to their
/// lowered forms joined, and cannot be lowered if one of them cannot.
pub proof fn lemma_lower_concat(first: Seq<StatementView>, second: Seq<StatementView>)
    ensures
        lower(first + second) == match lower(first) {
            Err(e) => Err::<Seq<IRByteView>, CodegenErrorKind>(e),
            Ok(a) => match lower(second) {
                Err(e) => Err(e),
                Ok(b) => Ok(a + b),
            },
        },
    decreases second.len(),
{
    lemma_lower_error(first);
    lemma_lower_error(second);
    if second.len() == 0 {
        assert(first + second =~= first);
        if let Ok(a) = lower(first) {
            assert(a + Seq::<IRByteView>::empty() =~= a);
        }
    } else {
        lemma_lower_concat(first, second.drop_last());
        lemma_lower_error(second.drop_last());
        assert((first + second).drop_last() =~= first + second.drop_last());
        assert((first + second).last() == second.last());
        if let Ok(a) = lower(first) {
            if let Ok(b) = lower(second.drop_last()) {
                if let Ok(t) = lower_statement(second.last()) {
                    assert((a + b) + t =~= a + (b + t));
                }
            }
        }
    }
}

/// Expansion goes entry by entry: two lowered bodies joined expand to their
/// expansions joined, and fail as the first of them that fails.
pub proof fn lemma_expand_ir_concat(
    contract: ContractView,
    first: Seq<IRByteView>,
    second: Seq<IRByteView>,
    path: Seq<Seq<char>>,
)
    ensures
        expand_ir(contract, first + second, path) == match expand_ir(contract, first, path) {
            Err(e) => Err::<Seq<Seq<char>>, CodegenErrorKind>(e),
            Ok(a) => match expand_ir(contract, second, path) {
                Err(e) => Err(e),
                Ok(b) => Ok(a + b),
            },
        },
    decreases second.len(),
{
    if second.len() == 0 {
        assert(first + second =~= first);
        if let Ok(a) = expand_ir(contract, first, path) {
            assert(a + Seq::<Seq<char>>::empty() =~= a);
        }
    } else {
        lemma_expand_ir_concat(contract, first, second.drop_last(), path);
        assert((first + second).drop_last() =~= first + second.drop_last());
        assert((first + second).last() == second.last());
        if let Ok(a) = expand_ir(contract, first, path) {
            if let Ok(b) = expand_ir(contract, second.drop_last(), path) {
                if let Ok(t) = expand_entry(contract, second.last(), path) {
                    assert((a + b) + t =~= a + (b + t));
                }
            }
        }
    }
}

/// A lowered body of one entry expands to what the entry expands to.
pub proof fn lemma_expand_ir_single(
    contract: ContractView,
    entry: IRByteView,
    path: Seq<Seq<char>>,
)
    ensures
        expand_ir(contract, seq![entry], path) == expand_entry(contract, entry, path),
{
    let entries = seq![entry];
    assert(entries.drop_last() =~= Seq::<IRByteView>::empty());
    assert(expand_ir(contract, entries.drop_last(), path) == Ok::<
        Seq<Seq<char>>,
        CodegenErrorKind,
    >(Seq::empty()));
    if let Ok(more) = expand_entry(contract, entry, path) {
        assert(Seq::<Seq<char>>::empty() + more =~= more);
    }
}

/// Literal bytes expand to their own texts, whatever the contract and the
/// call path.
pub proof fn lemma_expand_literal(contract: ContractView, bytes: Seq<u8>, path: Seq<Seq<char>>)
    ensures
        expand_ir(contract, lower_literal(bytes), path) == Ok::<Seq<Seq<char>>, CodegenErrorKind>(
            literal_texts(bytes),
        ),
    decreases bytes.len(),
{
    let entries = lower_literal(bytes);
    if bytes.len() == 0 {
        assert(literal_texts(bytes) =~= Seq::<Seq<char>>::empty());
    } else {
        lemma_expand_literal(contract, bytes.drop_last(), path);
        assert(entries.drop_last() =~= lower_literal(bytes.drop_last()));
        assert(entries.last() == IRByteView::Byte(hex_of_byte(bytes.last())));
        assert(expand_entry(contract, entries.last(), path) == Ok::<
            Seq<Seq<char>>,
            CodegenErrorKind,
        >(seq![hex_of_byte(bytes.last())]));
        assert(literal_texts(bytes.drop_last()) + seq![hex_of_byte(bytes.last())]
            =~= literal_texts(bytes));
        assert(expand_ir(contract, entries, path) == Ok::<Seq<Seq<char>>, CodegenErrorKind>(
            literal_texts(bytes.drop_last()) + seq![hex_of_byte(bytes.last())],
        ));
    }
}

/// **Expansion keeps the order of the source.** A body made of two parts
/// expands if and only if both parts expand, and then to the bytes of the
/// first part followed by the bytes of the second.
pub proof fn theorem_expansion_in_source_order(
    contract: ContractView,
    first: Seq<StatementView>,
    second: Seq<StatementView>,
    path: Seq<Seq<char>>,
)
    ensures
        expand_body(contract, first + second, path) is Ok <==> expand_body(contract, first, path)
            is Ok && expand_body(contract, second, path) is Ok,
        expand_body(contract, first + second, path) is Ok ==> expand_body(
            contract,
            first + second,
            path,
        ) == Ok::<Seq<Seq<char>>, CodegenErrorKind>(
            expand_body(contract, first, path)->Ok_0 + expand_body(contract, second, path)->Ok_0,
        ),
{
    lemma_lower_concat(first, second);
    if let Ok(a) = lower(first) {
        if let Ok(b) = lower(second) {
            lemma_expand_ir_concat(contract, a, b, path);
        }
    }
}

/// A body that is one literal expands to the literal's bytes.
pub proof fn lemma_expand_literal_statement(
    contract: ContractView,
    bytes: Seq<u8>,
    path: Seq<Seq<char>>,
)
    ensures
        expand_body(contract, seq![StatementView::Literal(bytes)], path) == Ok::<
            Seq<Seq<char>>,
            CodegenErrorKind,
        >(literal_texts(bytes)),
{
    lemma_lower_single(StatementView::Literal(bytes));
    lemma_expand_literal(contract, bytes, path);
}

/// A body that is one invocation expands as the invocation does.
pub proof fn lemma_expand_invocation_statement(
    contract: ContractView,
    invocation: MacroInvocationView,
    path: Seq<Seq<char>>,
)
    ensures
        expand_body(contract, seq![StatementView::MacroInvocation(invocation)], path)
            == expand_entry(
            contract,
            IRByteView::Statement(StatementView::MacroInvocation(invocation)),
            path,
        ),
{
    let statement = StatementView::MacroInvocation(invocation);
    lemma_lower_single(statement);
    lemma_expand_ir_single(contract, IRByteView::Statement(statement), path);
}

/// Whether every name on `inner` is on `outer` too.
pub open spec fn within(inner: Seq<Seq<char>>, outer: Seq<Seq<char>>) -> bool {
    forall|name: Seq<char>| inner.contains(name) ==> outer.contains(name)
}

/// Adding one name to both keeps one path within the other.
pub proof fn lemma_within_push(inner: Seq<Seq<char>>, outer: Seq<Seq<char>>, name: Seq<char>)
    requires
        within(inner, outer),
    ensures
        within(inner.push(name), outer.push(name)),
{
    assert forall|n: Seq<char>| inner.push(name).contains(n) implies outer.push(name).contains(
        n,
    ) by {
        let i = choose|i: int| 0 <= i < inner.push(name).len() && inner.push(name)[i] == n;
        if i < inner.len() {
            assert(inner[i] == n);
            assert(inner.contains(n));
            let j = choose|j: int| 0 <= j < outer.len() && outer[j] == n;
            assert(outer.push(name)[j] == n);
        } else {
            assert(outer.push(name)[outer.len() as int] == n);
        }
    }
}

/// What expands on a call path expands to the same bytes on every call path
/// that holds no other names: the bytes of a macro do not depend on where it
/// is invoked from.
pub proof fn lemma_expand_ir_on_shorter_path(
    contract: ContractView,
    entries: Seq<IRByteView>,
    outer: Seq<Seq<char>>,
    inner: Seq<Seq<char>>,
)
    requires
        within(inner, outer),
        expand_ir(contract, entries, outer) is Ok,
    ensures
        expand_ir(contract, entries, inner) == expand_ir(contract, entries, outer),
    decreases unvisited(macro_names(contract.macros), outer), 0nat, entries.len(),
{
    if entries.len() > 0 {
        lemma_expand_ir_on_shorter_path(contract, entries.drop_last(), outer, inner);
        lemma_expand_entry_on_shorter_path(contract, entries.last(), outer, inner);
    }
}

/// The same, of one entry.
pub proof fn lemma_expand_entry_on_shorter_path(
    contract: ContractView,
    entry: IRByteView,
    outer: Seq<Seq<char>>,
    inner: Seq<Seq<char>>,
)
    requires
        within(inner, outer),
        expand_entry(contract, entry, outer) is Ok,
    ensures
        expand_entry(contract, entry, inner) == expand_entry(contract, entry, outer),
    decreases unvisited(macro_names(contract.macros), outer), 0nat, 0nat,
{
    match entry {
        IRByteView::Statement(StatementView::MacroInvocation(invocation)) => {
            let name = invocation.macro_name;
            match contract.find_macro(name) {
                Some(invoked) => {
                    assert(!outer.contains(name));
                    assert(!inner.contains(name));
                    let names = macro_names(contract.macros);
                    names.index_of_first_ensures(name);
                    lemma_unvisited_push(names, outer, name);
                    lemma_within_push(inner, outer, name);
                    lemma_expand_body_on_shorter_path(
                        contract,
                        invoked.statements,
                        outer.push(name),
                        inner.push(name),
                    );
                },
                None => {},
            }
        },
        _ => {},
    }
}

/// The same, of a macro body.
pub proof fn lemma_expand_body_on_shorter_path(
    contract: ContractView,
    statements: Seq<StatementView>,
    outer: Seq<Seq<char>>,
    inner: Seq<Seq<char>>,
)
    requires
        within(inner, outer),
        expand_body(contract, statements, outer) is Ok,
    ensures
        expand_body(contract, statements, inner) == expand_body(contract, statements, outer),
    decreases unvisited(macro_names(contract.macros), outer), 1nat, 0nat,
{
    match lower(statements) {
        Ok(entries) => {
            lemma_expand_ir_on_shorter_path(contract, entries, outer, inner);
        },
        Err(_) => {},
    }
}

/// An invocation that expands inside a macro yields the bytes that the invoked
/// macro expands to as an entry point.
pub proof fn lemma_invocation_inlines_expansion(
    contract: ContractView,
    invocation: MacroInvocationView,
    path: Seq<Seq<char>>,
)
    requires
        expand_body(contract, seq![StatementView::MacroInvocation(invocation)], path) is Ok,
    ensures
        contract.find_macro(invocation.macro_name) matches Some(invoked) && expansion(
            contract,
            invoked,
        ) == expand_body(contract, seq![StatementView::MacroInvocation(invocation)], path),
{
    lemma_expand_invocation_statement(contract, invocation, path);
    let name = invocation.macro_name;
    let invoked = contract.find_macro(name)->Some_0;
    let names = macro_names(contract.macros);
    names.index_of_first_ensures(name);
    assert(invoked.name == name);
    let outer = path.push(name);
    let inner = seq![name];
    assert forall|n: Seq<char>| inner.contains(n) implies outer.contains(n) by {
        let i = choose|i: int| 0 <= i < inner.len() && inner[i] == n;
        assert(outer[path.len() as int] == n);
    }
    lemma_expand_body_on_shorter_path(contract, invoked.statements, outer, inner);
}

/// **Siblings expand in order.** Where a macro that invokes one macro and
/// then another expands, both invoked macros expand, and the macro's bytes are
/// those of the first followed by those of the second.
pub proof fn theorem_sibling_invocations_in_order(
    contract: ContractView,
    definition: MacroDefinitionView,
    first: MacroInvocationView,
    second: MacroInvocationView,
)
    requires
        definition.statements == seq![
            StatementView::MacroInvocation(first),
            StatementView::MacroInvocation(second),
        ],
        expansion(contract, definition) is Ok,
    ensures
        ({
            &&& contract.find_macro(first.macro_name) matches Some(a)
            &&& contract.find_macro(second.macro_name) matches Some(b)
            &&& expansion(contract, a) matches Ok(bytes_a)
            &&& expansion(contract, b) matches Ok(bytes_b)
            &&& expansion(contract, definition) == Ok::<Seq<Seq<char>>, CodegenErrorKind>(
                bytes_a + bytes_b,
            )
        }),
{
    let path = seq![definition.name];
    let one = seq![StatementView::MacroInvocation(first)];
    let two = seq![StatementView::MacroInvocation(second)];
    assert(definition.statements =~= one + two);
    theorem_expansion_in_source_order(contract, one, two, path);
    lemma_invocation_inlines_expansion(contract, first, path);
    lemma_invocation_inlines_expansion(contract, second, path);
}

/// **An invocation is inlined where it stands.** Where a macro made of literal
/// bytes, an invocation and further literal bytes expands, the invoked macro
/// expands, and the macro's bytes are the first literal, the bytes of the
/// invoked macro, and the second literal, in that order.
pub proof fn theorem_invocation_inlined_in_place(
    contract: ContractView,
    definition: MacroDefinitionView,
    before: Seq<u8>,
    invocation: MacroInvocationView,
    after: Seq<u8>,
)
    requires
        definition.statements == seq![
            StatementView::Literal(before),
            StatementView::MacroInvocation(invocation),
            StatementView::Literal(after),
        ],
        expansion(contract, definition) is Ok,
    ensures
        ({
            &&& contract.find_macro(invocation.macro_name) matches Some(invoked)
            &&& expansion(contract, invoked) matches Ok(inlined)
            &&& expansion(contract, definition) == Ok::<Seq<Seq<char>>, CodegenErrorKind>(
                literal_texts(before) + inlined + literal_texts(after),
            )
        }),
{
    let path = seq![definition.name];
    let one = seq![StatementView::Literal(before)];
    let two = seq![StatementView::MacroInvocation(invocation)];
    let three = seq![StatementView::Literal(after)];
    assert(definition.statements =~= (one + two) + three);
    theorem_expansion_in_source_order(contract, one + two, three, path);
    theorem_expansion_in_source_order(contract, one, two, path);
    lemma_expand_literal_statement(contract, before, path);
    lemma_expand_literal_statement(contract, after, path);
    lemma_invocation_inlines_expansion(contract, invocation, path);
}

/// **An undefined macro is reported as missing.** Where the statements before
/// an invocation expand and the contract defines no macro of the invoked
/// name, the body fails for want of the macro's definition, provided that all
/// of the body can be lowered.
pub proof fn theorem_undefined_macro_is_missing(
    contract: ContractView,
    before: Seq<StatementView>,
    invocation: MacroInvocationView,
    after: Seq<StatementView>,
    path: Seq<Seq<char>>,
)
    requires
        expand_body(contract, before, path) is Ok,
        lower(after) is Ok,
        contract.find_macro(invocation.macro_name) is None,
    ensures
        expand_body(
            contract,
            before + seq![StatementView::MacroInvocation(invocation)] + after,
            path,
        ) == Err::<Seq<Seq<char>>, CodegenErrorKind>(CodegenErrorKind::MissingMacroDefinition),
{
    let statement = StatementView::MacroInvocation(invocation);
    lemma_lower_single(statement);
    lemma_expand_ir_single(contract, IRByteView::Statement(statement), path);
    lemma_failure_in_place(contract, before, statement, after, path);
}

/// **An undefined constant is reported as missing.** Where the statements
/// before a reference to a constant expand and the contract defines no
/// constant of that name, the body fails for want of the constant's
/// definition, provided that all of the body can be lowered.
pub proof fn theorem_undefined_constant_is_missing(
    contract: ContractView,
    before: Seq<StatementView>,
    name: Seq<char>,
    after: Seq<StatementView>,
    path: Seq<Seq<char>>,
)
    requires
        expand_body(contract, before, path) is Ok,
        lower(after) is Ok,
        contract.find_constant(name) is None,
    ensures
        expand_body(contract, before + seq![StatementView::Constant(name)] + after, path) == Err::<
            Seq<Seq<char>>,
            CodegenErrorKind,
        >(CodegenErrorKind::MissingConstantDefinition),
{
    let statement = StatementView::Constant(name);
    lemma_lower_single(statement);
    lemma_expand_ir_single(contract, IRByteView::Constant(name), path);
    lemma_failure_in_place(contract, before, statement, after, path);
}

/// Where the statements before a statement expand and the rest can be
/// lowered, a failure of that statement is the failure of the body.
pub proof fn lemma_failure_in_place(
    contract: ContractView,
    before: Seq<StatementView>,
    statement: StatementView,
    after: Seq<StatementView>,
    path: Seq<Seq<char>>,
)
    requires
        expand_body(contract, before, path) is Ok,
        lower(seq![statement]) is Ok,
        lower(after) is Ok,
        expand_body(contract, seq![statement], path) is Err,
    ensures
        expand_body(contract, before + seq![statement] + after, path) == expand_body(
            contract,
            seq![statement],
            path,
        ),
{
    let one = seq![statement];
    lemma_lower_concat(before, one);
    lemma_lower_concat(before + one, after);
    let a = lower(before)->Ok_0;
    let b = lower(one)->Ok_0;
    let c = lower(after)->Ok_0;
    lemma_expand_ir_concat(contract, a, b, path);
    lemma_expand_ir_concat(contract, a + b, c, path);
}

/// **Expansion is deterministic.** Two runs of the expander on macros,
/// contracts and call paths that say the same end alike: both with the same
/// bytes, or both with an error of the same kind.
pub proof fn theorem_expansion_deterministic(
    macro_def: MacroDefinition,
    contract: Contract,
    scope: Seq<MacroDefinition>,
    outcome: Result<Vec<Byte>, CodegenError>,
    again_macro_def: MacroDefinition,
    again_contract: Contract,
    again_scope: Seq<MacroDefinition>,
    again_outcome: Result<Vec<Byte>, CodegenError>,
)
    requires
        macro_def@ == again_macro_def@,
        contract@ == again_contract@,
        scope_path(scope) == scope_path(again_scope),
        expansion_is(outcome, expand_macro(contract@, macro_def@, scope_path(scope))),
        expansion_is(
            again_outcome,
            expand_macro(again_contract@, again_macro_def@, scope_path(again_scope)),
        ),
    ensures
        match (outcome, again_outcome) {
            (Ok(bytes), Ok(again_bytes)) => byte_views(bytes@) == byte_views(again_bytes@),
            (Err(error), Err(again_error)) => error.kind == again_error.kind,
            _ => false,
        },
{
}

/// **A contract without a constructor has no constructor code.** Where the
/// contract defines no macro under the constructor's name, generating the
/// constructor code fails for want of the constructor.
pub proof fn theorem_missing_constructor(contract: ContractView)
    requires
        forall|i: int| 0 <= i < contract.macros.len() ==> contract.macros[i].name
            != constructor_name(),
    ensures
        constructor_code(Some(contract)) == Err::<Seq<char>, CodegenErrorKind>(
            CodegenErrorKind::MissingConstructor,
        ),
{
    macro_names(contract.macros).index_of_first_ensures(constructor_name());
    if macro_names(contract.macros).contains(constructor_name()) {
        let i = choose|i: int|
            0 <= i < macro_names(contract.macros).len() && macro_names(contract.macros)[i]
                == constructor_name();
        assert(contract.macros[i].name == constructor_name());
    }
}

/// **A push is the opcode for the length, then the literal.** A literal of at
/// most 32 bytes is pushed by one byte of opcode, `0x5f` and one more for each
/// byte of the literal, followed by the bytes of the literal as they stand.
pub proof fn theorem_push_encoding(bytes: Seq<u8>)
    requires
        bytes.len() <= 32,
    ensures
        push_literal(bytes) == seq![hex_of_byte((0x5f + bytes.len()) as u8)] + literal_texts(
            bytes,
        ),
        push_literal(bytes).len() == 1 + bytes.len(),
{
    let n = (0x5f + bytes.len()) as nat;
    assert(n / 16 < 16 && n >= 16);
    assert(digits_in_base(n / 16, 16) =~= seq![hex_char(n as int / 16)]);
    assert(digits_in_base(n, 16) =~= seq![
        hex_char(n as int / 16),
        hex_char(n as int % 16),
    ]);
    assert(zero_digits(0) =~= Seq::<char>::empty());
    assert(hex_padded(n, 2) =~= hex_of_byte(n as u8));
    assert(push_opcode(bytes.len()) == hex_of_byte(n as u8));
}

} // verus!
