//! How runtime code, constructor code and constructor arguments are put
//! together into the code that deploys a contract.

use crate::encoding::{format_hex, hex_encode, hex_padded, hex_string};
use vstd::prelude::*;
use vstd::utf8::encode_utf8;

verus! {

/// The number of bytes of the bootstrap sequence.
pub const BOOTSTRAP_LENGTH: usize = 13;

/// The number of bytes of code that a hexadecimal text stands for: half its
/// length in bytes.
pub open spec fn code_length(code: Seq<char>) -> nat {
    encode_utf8(code).len() / 2
}

/// The bootstrap sequence: the instructions that copy the runtime code, which
/// stands behind the constructor code and the bootstrap itself, into memory
/// and return it. In order: push the runtime code's length as two bytes,
/// duplicate it, push the offset at which the runtime code starts as two
/// bytes, push zero, copy the code, push zero, return.
pub open spec fn bootstrap_code(contract_length: nat, constructor_length: nat) -> Seq<char> {
    "61"@ + hex_padded(contract_length, 4) + "8061"@ + hex_padded(
        BOOTSTRAP_LENGTH as nat + constructor_length,
        4,
    ) + "6000396000f3"@
}

/// The hexadecimal text of a list of byte strings, one after the other.
pub open spec fn arguments_text(encoded: Seq<Seq<u8>>) -> Seq<char> {
    encoded.map_values(|bytes: Seq<u8>| hex_string(bytes)).flatten()
}

/// The code that deploys a contract: the constructor code, the bootstrap
/// sequence, the runtime code, and the encoded constructor arguments.
pub open spec fn deployment_code(
    constructor_code: Seq<char>,
    runtime_code: Seq<char>,
    encoded: Seq<Seq<u8>>,
) -> Seq<char> {
    constructor_code + bootstrap_code(code_length(runtime_code), code_length(constructor_code))
        + runtime_code + arguments_text(encoded)
}

/// The byte strings that a list of buffers holds.
pub open spec fn buffers(encoded: Seq<Vec<u8>>) -> Seq<Seq<u8>> {
    encoded.map_values(|bytes: Vec<u8>| bytes@)
}

/// Writes the bootstrap sequence for runtime code of `contract_length` bytes
/// that follows constructor code of `constructor_length` bytes.
pub fn bootstrap(contract_length: usize, constructor_length: usize) -> (code: String)
    ensures
        code@ == bootstrap_code(contract_length as nat, constructor_length as nat),
{
    let contract_size = format_hex(contract_length as u128, 4);
    let contract_code_offset = format_hex(BOOTSTRAP_LENGTH as u128 + constructor_length as u128, 4);
    let mut code = String::new();
    code.append("61");
    code.append(contract_size.as_str());
    code.append("8061");
    code.append(contract_code_offset.as_str());
    code.append("6000396000f3");
    assert(code@ =~= bootstrap_code(contract_length as nat, constructor_length as nat));
    code
}

/// Puts the deployment code together from runtime code and constructor code,
/// both as hexadecimal text, and the constructor arguments, already encoded.
pub fn assemble(constructor_bytecode: &str, main_bytecode: &str, encoded: &Vec<Vec<u8>>) -> (code:
    String)
    ensures
        code@ == deployment_code(constructor_bytecode@, main_bytecode@, buffers(encoded@)),
{
    let contract_length = main_bytecode.as_bytes().len() / 2;
    let constructor_length = constructor_bytecode.as_bytes().len() / 2;
    let bootstrap_code = bootstrap(contract_length, constructor_length);

    let mut code = String::new();
    code.append(constructor_bytecode);
    code.append(bootstrap_code.as_str());
    code.append(main_bytecode);
    let ghost head = code@;
    let ghost texts = buffers(encoded@).map_values(|bytes: Seq<u8>| hex_string(bytes));
    let mut i: usize = 0;
    assert(texts.take(0) =~= Seq::<Seq<char>>::empty());
    assert(code@ =~= head + texts.take(0).flatten());
    while i < encoded.len()
        invariant
            i <= encoded.len(),
            texts == buffers(encoded@).map_values(|bytes: Seq<u8>| hex_string(bytes)),
            code@ == head + texts.take(i as int).flatten(),
        decreases encoded.len() - i,
    {
        let text = hex_encode(encoded[i].as_slice());
        code.append(text.as_str());
        proof {
            assert(texts.take(i as int + 1) =~= texts.take(i as int).push(texts[i as int]));
            texts.take(i as int).lemma_flatten_push(texts[i as int]);
            assert(code@ =~= head + texts.take(i as int + 1).flatten());
        }
        i = i + 1;
    }
    assert(texts.take(i as int) =~= texts);
    assert(code@ =~= deployment_code(constructor_bytecode@, main_bytecode@, buffers(encoded@)));
    code
}

} // verus!
