//! The values that a constructor is called with, and how each is encoded for
//! the virtual machine.

use vstd::prelude::*;
use vstd::utf8::encode_utf8;

verus! {

/// The longest payload, in bytes, of an argument that can be encoded: the
/// encoder counts lengths and offsets in 32 bits.
pub const MAX_PAYLOAD: usize = 0x7fff_ffff;

/// One value of an elementary type, to be handed to a constructor.
#[derive(Debug, PartialEq, Eq, Clone)]
pub enum ConstructorArg {
    /// An address of 20 bytes.
    Address([u8; 20]),
    /// Bytes of a fixed length.
    FixedBytes(Vec<u8>),
    /// Bytes of any length.
    Bytes(Vec<u8>),
    /// A signed integer, as a big-endian word in two's complement.
    Int([u8; 32]),
    /// An unsigned integer, as a big-endian word.
    Uint([u8; 32]),
    /// A truth value.
    Bool(bool),
    /// A text.
    String(String),
}

/// `count` bytes of zero.
pub open spec fn zero_bytes(count: nat) -> Seq<u8> {
    Seq::new(count, |i: int| 0u8)
}

/// A length or an offset as a word of 32 bytes: the number in the last four,
/// big-endian, after 28 bytes of zero.
pub open spec fn length_word(n: nat) -> Seq<u8> {
    zero_bytes(28) + seq![
        (n / 0x100_0000 % 0x100) as u8,
        (n / 0x1_0000 % 0x100) as u8,
        (n / 0x100 % 0x100) as u8,
        (n % 0x100) as u8,
    ]
}

/// Bytes filled up with zeros on the right to the next multiple of 32.
pub open spec fn right_padded(bytes: Seq<u8>) -> Seq<u8> {
    bytes + zero_bytes(((32 - bytes.len() % 32) % 32) as nat)
}

/// The encoding of bytes of any length, as the only value: the offset of the
/// data, which is one word, then the length of the data, then the data filled
/// up on the right.
pub open spec fn dynamic_encoding(bytes: Seq<u8>) -> Seq<u8> {
    length_word(32) + length_word(bytes.len()) + right_padded(bytes)
}

impl ConstructorArg {
    /// The bytes that carry the value, where their number is not fixed.
    pub open spec fn payload_len(self) -> nat {
        match self {
            ConstructorArg::FixedBytes(bytes) => bytes@.len(),
            ConstructorArg::Bytes(bytes) => bytes@.len(),
            ConstructorArg::String(text) => encode_utf8(text@).len(),
            _ => 0,
        }
    }

    /// Whether the value can be encoded: its payload is not over
    /// [`MAX_PAYLOAD`].
    pub open spec fn encodable(self) -> bool {
        self.payload_len() <= MAX_PAYLOAD
    }

    /// The value's encoding in the interface's binary format, as the only
    /// value that is encoded. An address and a truth value are filled up on
    /// the left to one word; an integer is its word; bytes of a fixed length
    /// are filled up on the right to whole words; bytes of any length and
    /// texts are encoded with offset and length, a text by its UTF-8 bytes.
    pub open spec fn encoding(self) -> Seq<u8> {
        match self {
            ConstructorArg::Address(address) => zero_bytes(12) + address@,
            ConstructorArg::FixedBytes(bytes) => right_padded(bytes@),
            ConstructorArg::Bytes(bytes) => dynamic_encoding(bytes@),
            ConstructorArg::Int(word) => word@,
            ConstructorArg::Uint(word) => word@,
            ConstructorArg::Bool(truth) => zero_bytes(31).push(
                if truth {
                    1u8
                } else {
                    0u8
                },
            ),
            ConstructorArg::String(text) => dynamic_encoding(encode_utf8(text@)),
        }
    }

    /// Tests whether the value can be encoded.
    pub fn is_encodable(&self) -> (b: bool)
        ensures
            b == self.encodable(),
    {
        match self {
            ConstructorArg::FixedBytes(bytes) => bytes.len() <= MAX_PAYLOAD,
            ConstructorArg::Bytes(bytes) => bytes.len() <= MAX_PAYLOAD,
            ConstructorArg::String(text) => text.as_str().as_bytes().len() <= MAX_PAYLOAD,
            _ => true,
        }
    }
}

/// The encodings of a list of values, in order.
pub open spec fn encodings(args: Seq<ConstructorArg>) -> Seq<Seq<u8>> {
    args.map_values(|arg: ConstructorArg| arg.encoding())
}

/// `ethers::abi::encode`, applied to one value alone. The value is handed over
/// as the token of its type; the outside function returns the token's encoding
/// in the interface's binary format, which for a single elementary value is
/// what [`ConstructorArg::encoding`] states. The outside function counts in 32
/// bits, so a payload over [`MAX_PAYLOAD`] is kept from it.
#[verifier::external_body]
pub(crate) fn abi_encode(arg: &ConstructorArg) -> (encoded: Vec<u8>)
    requires
        arg.encodable(),
    ensures
        encoded@ == arg.encoding(),
{
    let token = match arg {
        ConstructorArg::Address(a) => ethers::abi::Token::Address(ethers::types::H160(*a)),
        ConstructorArg::FixedBytes(b) => ethers::abi::Token::FixedBytes(b.clone()),
        ConstructorArg::Bytes(b) => ethers::abi::Token::Bytes(b.clone()),
        ConstructorArg::Int(w) => ethers::abi::Token::Int(ethers::types::U256::from_big_endian(w)),
        ConstructorArg::Uint(w) => ethers::abi::Token::Uint(ethers::types::U256::from_big_endian(w)),
        ConstructorArg::Bool(b) => ethers::abi::Token::Bool(*b),
        ConstructorArg::String(s) => ethers::abi::Token::String(s.clone()),
    };
    ethers::abi::encode(&[token])
}

} // verus!
