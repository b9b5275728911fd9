//! What holds of generated code: every byte of an expansion is written as two
//! hexadecimal digits, so that the length of the code is the number of its
//! bytes.

use crate::abi::constructor_name;
use crate::assembler::{arguments_text, bootstrap_code, code_length, deployment_code};
use crate::ast::{constant_names, macro_names, ConstValView, ContractView, StatementView};
use crate::bytecode::{lower, lower_statement, IRByteView};
use crate::codegen::constructor_code;
use crate::encoding::{digits_in_base, hex_char, hex_of_byte, hex_padded, zero_digits};
use crate::error::CodegenErrorKind;
use crate::expansion::{
    expand_body, expand_entry, expand_ir, expansion, lemma_unvisited_push, push_bytes,
    push_literal, unvisited,
};
use crate::theorems::{literal_texts, theorem_push_encoding};
use vstd::prelude::*;
use vstd::utf8::{encode_utf8, is_ascii_chars, is_ascii_chars_encode_utf8};

verus! {

/// Whether a text is the two hexadecimal digits of some byte.
pub open spec fn is_byte_text(text: Seq<char>) -> bool {
    exists|b: u8| text == #[trigger] hex_of_byte(b)
}

/// Whether each of the texts is the two hexadecimal digits of some byte.
pub open spec fn are_byte_texts(texts: Seq<Seq<char>>) -> bool {
    forall|i: int| 0 <= i < texts.len() ==> is_byte_text(#[trigger] texts[i])
}

/// Whether every final byte of a lowered body is the two hexadecimal digits
/// of some byte.
pub open spec fn has_proper_bytes(entries: Seq<IRByteView>) -> bool {
    forall|i: int|
        0 <= i < entries.len() ==> (#[trigger] entries[i] matches IRByteView::Byte(text)
            ==> is_byte_text(text))
}

/// The texts of literal bytes are the digits of bytes.
pub proof fn lemma_literal_texts_are_byte_texts(bytes: Seq<u8>)
    ensures
        are_byte_texts(literal_texts(bytes)),
{
    assert forall|i: int| 0 <= i < literal_texts(bytes).len() implies is_byte_text(
        #[trigger] literal_texts(bytes)[i],
    ) by {
        assert(literal_texts(bytes)[i] == hex_of_byte(bytes[i]));
    }
}

/// What joins two lists of byte texts is a list of byte texts.
pub proof fn lemma_byte_texts_concat(first: Seq<Seq<char>>, second: Seq<Seq<char>>)
    requires
        are_byte_texts(first),
        are_byte_texts(second),
    ensures
        are_byte_texts(first + second),
{
    assert forall|i: int| 0 <= i < (first + second).len() implies is_byte_text(
        #[trigger] (first + second)[i],
    ) by {
        if i < first.len() {
            assert((first + second)[i] == first[i]);
        } else {
            assert((first + second)[i] == second[i - first.len()]);
        }
    }
}

/// The push of a value that fits a word is written in bytes.
pub proof fn lemma_push_bytes_are_byte_texts(value: ConstValView)
    requires
        value.fits_word(),
    ensures
        are_byte_texts(push_bytes(value)),
{
    let bytes = match value {
        ConstValView::Literal(bytes) => bytes,
        ConstValView::FreeStoragePointer => seq![0u8],
    };
    theorem_push_encoding(bytes);
    lemma_literal_texts_are_byte_texts(bytes);
    let opcode = seq![hex_of_byte((0x5f + bytes.len()) as u8)];
    assert(are_byte_texts(opcode)) by {
        assert(is_byte_text(opcode[0]));
    }
    lemma_byte_texts_concat(opcode, literal_texts(bytes));
    assert(push_bytes(value) == push_literal(bytes));
}

/// Lowering writes every final byte as two hexadecimal digits.
pub proof fn lemma_lowered_bytes_are_proper(statements: Seq<StatementView>)
    ensures
        lower(statements) matches Ok(entries) ==> has_proper_bytes(entries),
    decreases statements.len(),
{
    if statements.len() > 0 {
        lemma_lowered_bytes_are_proper(statements.drop_last());
        if let Ok(entries) = lower(statements.drop_last()) {
            if let Ok(more) = lower_statement(statements.last()) {
                assert forall|i: int| 0 <= i < (entries + more).len() implies (#[trigger] (entries
                    + more)[i] matches IRByteView::Byte(text) ==> is_byte_text(text)) by {
                    if i < entries.len() {
                        assert((entries + more)[i] == entries[i]);
                    } else {
                        let j = i - entries.len();
                        assert((entries + more)[i] == more[j]);
                        match statements.last() {
                            StatementView::Literal(bytes) => {
                                assert(more[j] == IRByteView::Byte(hex_of_byte(bytes[j])));
                            },
                            _ => {},
                        }
                    }
                }
            }
        }
    }
}

/// Where every constant fits a word, a lowered body with proper bytes expands
/// to bytes.
pub proof fn lemma_expand_ir_yields_bytes(
    contract: ContractView,
    entries: Seq<IRByteView>,
    path: Seq<Seq<char>>,
)
    requires
        contract.constants_fit(),
        has_proper_bytes(entries),
    ensures
        expand_ir(contract, entries, path) matches Ok(bytes) ==> are_byte_texts(bytes),
    decreases unvisited(macro_names(contract.macros), path), 0nat, entries.len(),
{
    if entries.len() == 0 {
    } else {
        assert(has_proper_bytes(entries.drop_last())) by {
            assert forall|i: int| 0 <= i < entries.drop_last().len() implies (
            #[trigger] entries.drop_last()[i] matches IRByteView::Byte(text) ==> is_byte_text(
                text,
            )) by {
                assert(entries.drop_last()[i] == entries[i]);
            }
        }
        lemma_expand_ir_yields_bytes(contract, entries.drop_last(), path);
        assert(entries[entries.len() - 1] == entries.last());
        lemma_expand_entry_yields_bytes(contract, entries.last(), path);
        if let Ok(bytes) = expand_ir(contract, entries.drop_last(), path) {
            if let Ok(more) = expand_entry(contract, entries.last(), path) {
                lemma_byte_texts_concat(bytes, more);
            }
        }
    }
}

/// The same, of one entry.
pub proof fn lemma_expand_entry_yields_bytes(
    contract: ContractView,
    entry: IRByteView,
    path: Seq<Seq<char>>,
)
    requires
        contract.constants_fit(),
        entry matches IRByteView::Byte(text) ==> is_byte_text(text),
    ensures
        expand_entry(contract, entry, path) matches Ok(bytes) ==> are_byte_texts(bytes),
    decreases unvisited(macro_names(contract.macros), path), 0nat, 0nat,
{
    match entry {
        IRByteView::Byte(text) => {
            assert(are_byte_texts(seq![text])) by {
                assert(seq![text][0] == text);
            }
        },
        IRByteView::Constant(name) => {
            match contract.find_constant(name) {
                Some(constant) => {
                    let names = constant_names(contract.constants);
                    names.index_of_first_ensures(name);
                    let k = names.index_of_first(name)->Some_0;
                    assert(contract.constants[k].value.fits_word());
                    lemma_push_bytes_are_byte_texts(constant.value);
                },
                None => {},
            }
        },
        IRByteView::Statement(StatementView::MacroInvocation(invocation)) => {
            let name = invocation.macro_name;
            match contract.find_macro(name) {
                Some(invoked) => {
                    if !path.contains(name) {
                        let names = macro_names(contract.macros);
                        names.index_of_first_ensures(name);
                        lemma_unvisited_push(names, path, name);
                        lemma_expand_body_yields_bytes(
                            contract,
                            invoked.statements,
                            path.push(name),
                        );
                    }
                },
                None => {},
            }
        },
        IRByteView::Statement(_) => {},
        IRByteView::ArgCall(_) => {},
    }
}

/// **Generated code is written in bytes.** Where every constant of the
/// contract fits a word, every byte that a macro body expands to is written
/// as the two hexadecimal digits of some byte.
pub proof fn lemma_expand_body_yields_bytes(
    contract: ContractView,
    statements: Seq<StatementView>,
    path: Seq<Seq<char>>,
)
    requires
        contract.constants_fit(),
    ensures
        expand_body(contract, statements, path) matches Ok(bytes) ==> are_byte_texts(bytes),
    decreases unvisited(macro_names(contract.macros), path), 1nat, 0nat,
{
    lemma_lowered_bytes_are_proper(statements);
    match lower(statements) {
        Ok(entries) => {
            lemma_expand_ir_yields_bytes(contract, entries, path);
        },
        Err(_) => {},
    }
}

/// Byte texts joined into one text have two characters for each byte, all of
/// them characters of one byte in UTF-8.
pub proof fn lemma_joined_byte_texts(texts: Seq<Seq<char>>)
    requires
        are_byte_texts(texts),
    ensures
        texts.flatten().len() == 2 * texts.len(),
        is_ascii_chars(texts.flatten()),
    decreases texts.len(),
{
    if texts.len() == 0 {
    } else {
        let front = texts.drop_last();
        assert(are_byte_texts(front)) by {
            assert forall|i: int| 0 <= i < front.len() implies is_byte_text(#[trigger] front[i]) by {
                assert(front[i] == texts[i]);
            }
        }
        lemma_joined_byte_texts(front);
        front.lemma_flatten_push(texts.last());
        assert(front.push(texts.last()) =~= texts);
        assert(is_byte_text(texts[texts.len() - 1]));
        let b = choose|b: u8| texts.last() == hex_of_byte(b);
        let joined = front.flatten() + texts.last();
        assert(texts.flatten() == joined);
        assert forall|i: int| 0 <= i < joined.len() implies '\0' <= #[trigger] joined[i]
            <= '\u{7f}' by {
            if i >= front.flatten().len() {
                let j = i - front.flatten().len();
                assert(joined[i] == hex_of_byte(b)[j]);
                lemma_hex_char_is_ascii(b as int / 16);
                lemma_hex_char_is_ascii(b as int % 16);
            } else {
                assert(joined[i] == front.flatten()[i]);
            }
        }
    }
}

/// A hexadecimal digit is a character of one byte in UTF-8.
pub proof fn lemma_hex_char_is_ascii(d: int)
    ensures
        '\0' <= hex_char(d) <= '\u{7f}',
{
}

/// **The length of constructor code is the number of its bytes.** Where every
/// constant of the contract fits a word and the constructor expands, the
/// number of bytes that the deployment code counts for the constructor is the
/// number of bytes that the constructor expands to.
pub proof fn theorem_constructor_length(contract: ContractView)
    requires
        contract.constants_fit(),
        constructor_code(Some(contract)) is Ok,
    ensures
        ({
            &&& contract.find_macro(constructor_name()) matches Some(definition)
            &&& expansion(contract, definition) matches Ok(bytes)
            &&& constructor_code(Some(contract)) == Ok::<Seq<char>, CodegenErrorKind>(
                bytes.flatten(),
            )
            &&& are_byte_texts(bytes)
            &&& code_length(bytes.flatten()) == bytes.len()
        }),
{
    let definition = contract.find_macro(constructor_name())->Some_0;
    lemma_expand_body_yields_bytes(contract, definition.statements, seq![definition.name]);
    let bytes = expansion(contract, definition)->Ok_0;
    lemma_joined_byte_texts(bytes);
    is_ascii_chars_encode_utf8(bytes.flatten());
    assert(encode_utf8(bytes.flatten()).len() == 2 * bytes.len());
}

/// A number below `0x10000` is written in exactly four hexadecimal digits
/// when it is filled up to four.
pub proof fn lemma_four_digits(n: nat)
    requires
        n <= 0xffff,
    ensures
        hex_padded(n, 4).len() == 4,
{
    let digits = digits_in_base(n, 16);
    if n < 16 {
        assert(digits.len() == 1);
    } else if n < 0x100 {
        assert(digits_in_base(n / 16, 16).len() == 1);
        assert(digits.len() == 2);
    } else if n < 0x1000 {
        assert(digits_in_base(n / 16 / 16, 16).len() == 1);
        assert(digits_in_base(n / 16, 16).len() == 2);
        assert(digits.len() == 3);
    } else {
        assert(digits_in_base(n / 16 / 16 / 16, 16).len() == 1);
        assert(digits_in_base(n / 16 / 16, 16).len() == 2);
        assert(digits_in_base(n / 16, 16).len() == 3);
        assert(digits.len() == 4);
    }
    assert(zero_digits(4 - digits.len()).len() == 4 - digits.len());
}

/// **The bootstrap points at the runtime code.** Where the constructor code
/// is hexadecimal text of whole bytes and both lengths can be written in two
/// bytes, the bootstrap sequence has 13 bytes, and the offset that it pushes,
/// counted in bytes from the start of the deployment code, is where the
/// runtime code begins.
pub proof fn theorem_runtime_code_at_offset(
    constructor_code: Seq<char>,
    runtime_code: Seq<char>,
    encoded: Seq<Seq<u8>>,
)
    requires
        is_ascii_chars(constructor_code),
        constructor_code.len() % 2 == 0,
        code_length(runtime_code) <= 0xffff,
        13 + code_length(constructor_code) <= 0xffff,
    ensures
        bootstrap_code(code_length(runtime_code), code_length(constructor_code)).len() == 2 * 13,
        ({
            let offset = 13 + code_length(constructor_code) as int;
            deployment_code(constructor_code, runtime_code, encoded).subrange(
                2 * offset,
                2 * offset + runtime_code.len(),
            ) == runtime_code
        }),
{
    reveal_strlit("61");
    reveal_strlit("8061");
    reveal_strlit("6000396000f3");
    let contract_length = code_length(runtime_code);
    let constructor_length = code_length(constructor_code);
    lemma_four_digits(contract_length);
    lemma_four_digits(13 + constructor_length);
    is_ascii_chars_encode_utf8(constructor_code);
    let bootstrap = bootstrap_code(contract_length, constructor_length);
    assert(bootstrap.len() == 26);
    assert(constructor_code.len() == 2 * constructor_length);
    let offset = 13 + constructor_length as int;
    let whole = deployment_code(constructor_code, runtime_code, encoded);
    assert(whole == constructor_code + bootstrap + runtime_code + arguments_text(encoded));
    assert(whole.subrange(2 * offset, 2 * offset + runtime_code.len()) =~= runtime_code);
}

} // verus!
