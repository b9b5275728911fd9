//! The tokens that the lexer hands to the parser, and that an error may point at.

use crate::encoding::{decimal_digits, format_byte, format_bytes, format_decimal, hex_of_byte, hex_string};
use vstd::prelude::*;

verus! {

/// A stretch of source text, from `start` up to `end`.
#[derive(Debug, PartialEq, Eq, Clone, Copy, Structural)]
pub struct Span {
    /// Where the stretch begins.
    pub start: usize,
    /// Where it ends.
    pub end: usize,
}

/// An instruction of the virtual machine, by the byte that encodes it.
#[derive(Debug, PartialEq, Eq, PartialOrd, Ord, Clone, Copy)]
pub struct Opcode(pub u8);

/// A primitive type of the virtual machine's interface.
#[derive(Debug, PartialEq, Eq, PartialOrd, Ord, Clone, Copy)]
pub enum PrimitiveEVMType {
    /// `address`
    Address,
    /// `bytes`, of any length
    DynBytes,
    /// `bool`
    Bool,
    /// `string`
    String,
    /// `int` of the given width in bits
    Int(usize),
    /// `bytes` of the given length
    Bytes(usize),
    /// `uint` of the given width in bits
    Uint(usize),
}

/// The kind of a token.
#[derive(Debug, PartialEq, Eq, PartialOrd, Ord, Clone)]
pub enum TokenKind {
    /// The end of the input
    Eof,
    /// A comment
    Comment(String),
    /// Division
    Div,
    /// The keyword `#define`
    Define,
    /// The keyword `#include`
    Include,
    /// The keyword `macro`
    Macro,
    /// The keyword `function`
    Function,
    /// The keyword `event`
    Event,
    /// The keyword `constant`
    Constant,
    /// The keyword `takes`
    Takes,
    /// The keyword `returns`
    Returns,
    /// The keyword `view`
    View,
    /// The keyword `pure`
    Pure,
    /// The keyword `payable`
    Payable,
    /// The keyword `nonpayable`
    NonPayable,
    /// The keyword `indexed`
    Indexed,
    /// The keyword `FREE_STORAGE_POINTER()`
    FreeStoragePointer,
    /// An identifier
    Ident(String),
    /// The equal sign
    Assign,
    /// An opening parenthesis
    OpenParen,
    /// A closing parenthesis
    CloseParen,
    /// An opening bracket
    OpenBracket,
    /// A closing bracket
    CloseBracket,
    /// An opening brace
    OpenBrace,
    /// A closing brace
    CloseBrace,
    /// A less-than sign
    LeftAngle,
    /// A greater-than sign
    RightAngle,
    /// Addition
    Add,
    /// Subtraction
    Sub,
    /// Multiplication
    Mul,
    /// A comma
    Comma,
    /// A colon
    Colon,
    /// A number
    Num(usize),
    /// A space
    Whitespace,
    /// A string literal
    Str(String),
    /// A literal of 32 bytes
    Literal([u8; 32]),
    /// An instruction
    Opcode(Opcode),
    /// A jump label
    Label(String),
    /// A primitive type
    PrimitiveType(PrimitiveEVMType),
    /// An array of a primitive type, with the size of each dimension; a size of
    /// zero stands for a dimension of any length
    ArrayType(PrimitiveEVMType, Vec<usize>),
    /// The keyword `jumptable`
    JumpTable,
    /// The keyword `jumptable__packed`
    JumpTablePacked,
    /// The keyword `table`
    CodeTable,
    /// A built-in function, by name
    BuiltinFunction(String),
}

/// A token: its kind, and where it stands in the source.
#[derive(Debug, PartialEq, Eq, Clone)]
pub struct Token {
    /// The kind of token
    pub kind: TokenKind,
    /// Where the token stands
    pub span: Span,
}

impl Token {
    /// A token of the given kind at the given place.
    pub fn new(kind: TokenKind, span: Span) -> (token: Self)
        ensures
            token.kind == kind,
            token.span == span,
    {
        Self { kind, span }
    }
}

impl Opcode {
    /// How the instruction is written: the two hexadecimal digits of its byte.
    pub open spec fn text(self) -> Seq<char> {
        hex_of_byte(self.0)
    }

    /// Writes the instruction.
    pub fn to_string(&self) -> (s: String)
        ensures
            s@ == self.text(),
    {
        format_byte(self.0)
    }
}

impl PrimitiveEVMType {
    /// How the type is written: its name, followed by its width or length
    /// where it has one.
    pub open spec fn text(self) -> Seq<char> {
        match self {
            PrimitiveEVMType::Address => "address"@,
            PrimitiveEVMType::DynBytes => "bytes"@,
            PrimitiveEVMType::Bool => "bool"@,
            PrimitiveEVMType::String => "string"@,
            PrimitiveEVMType::Int(size) => "int"@ + decimal_digits(size as nat),
            PrimitiveEVMType::Bytes(size) => "bytes"@ + decimal_digits(size as nat),
            PrimitiveEVMType::Uint(size) => "uint"@ + decimal_digits(size as nat),
        }
    }

    /// Writes the type.
    pub fn to_string(&self) -> (s: String)
        ensures
            s@ == self.text(),
    {
        match self {
            PrimitiveEVMType::Address => "address".to_owned(),
            PrimitiveEVMType::DynBytes => "bytes".to_owned(),
            PrimitiveEVMType::Bool => "bool".to_owned(),
            PrimitiveEVMType::String => "string".to_owned(),
            PrimitiveEVMType::Int(size) => "int".to_owned().concat(format_decimal(*size).as_str()),
            PrimitiveEVMType::Bytes(size) => "bytes".to_owned().concat(
                format_decimal(*size).as_str(),
            ),
            PrimitiveEVMType::Uint(size) => "uint".to_owned().concat(
                format_decimal(*size).as_str(),
            ),
        }
    }
}

/// How one dimension of an array type is written: its size in brackets, or
/// empty brackets for a dimension of any length.
pub open spec fn dimension_text(size: usize) -> Seq<char> {
    if size > 0 {
        "["@ + decimal_digits(size as nat) + "]"@
    } else {
        "[]"@
    }
}

/// How the dimensions of an array type are written, one after the other.
pub open spec fn dimensions_text(sizes: Seq<usize>) -> Seq<char>
    decreases sizes.len(),
{
    if sizes.len() == 0 {
        Seq::empty()
    } else {
        dimensions_text(sizes.drop_last()) + dimension_text(sizes.last())
    }
}

/// Writes the dimensions of an array type.
fn format_dimensions(sizes: &Vec<usize>) -> (s: String)
    ensures
        s@ == dimensions_text(sizes@),
{
    let mut out = String::new();
    let mut i: usize = 0;
    assert(sizes@.take(0) =~= Seq::<usize>::empty());
    while i < sizes.len()
        invariant
            i <= sizes.len(),
            out@ == dimensions_text(sizes@.take(i as int)),
        decreases sizes.len() - i,
    {
        let ghost done = out@;
        if sizes[i] > 0 {
            out.append("[");
            out.append(format_decimal(sizes[i]).as_str());
            out.append("]");
        } else {
            out.append("[]");
        }
        proof {
            let prefix = sizes@.take(i as int + 1);
            assert(prefix.drop_last() =~= sizes@.take(i as int));
            assert(prefix.last() == sizes[i as int]);
            assert(out@ =~= done + dimension_text(sizes[i as int]));
        }
        i = i + 1;
    }
    assert(sizes@.take(i as int) =~= sizes@);
    out
}

impl TokenKind {
    /// How a token of this kind is written. A keyword or a sign is written as
    /// in the source; an identifier, a label and a string literal as their
    /// text; a number in base ten; a literal as 64 hexadecimal digits; a
    /// comment and a built-in function with their kind around the text.
    pub open spec fn text(self) -> Seq<char> {
        match self {
            TokenKind::Eof => "EOF"@,
            TokenKind::Comment(text) => "Comment("@ + text@ + ")"@,
            TokenKind::Div => "/"@,
            TokenKind::Define => "#define"@,
            TokenKind::Include => "#include"@,
            TokenKind::Macro => "macro"@,
            TokenKind::Function => "function"@,
            TokenKind::Event => "event"@,
            TokenKind::Constant => "constant"@,
            TokenKind::Takes => "takes"@,
            TokenKind::Returns => "returns"@,
            TokenKind::View => "view"@,
            TokenKind::Pure => "pure"@,
            TokenKind::Payable => "payable"@,
            TokenKind::NonPayable => "nonpayable"@,
            TokenKind::Indexed => "indexed"@,
            TokenKind::FreeStoragePointer => "FREE_STORAGE_POINTER()"@,
            TokenKind::Ident(name) => name@,
            TokenKind::Assign => "="@,
            TokenKind::OpenParen => "("@,
            TokenKind::CloseParen => ")"@,
            TokenKind::OpenBracket => "["@,
            TokenKind::CloseBracket => "]"@,
            TokenKind::OpenBrace => "{"@,
            TokenKind::CloseBrace => "}"@,
            TokenKind::LeftAngle => "<"@,
            TokenKind::RightAngle => ">"@,
            TokenKind::Add => "+"@,
            TokenKind::Sub => "-"@,
            TokenKind::Mul => "*"@,
            TokenKind::Comma => ","@,
            TokenKind::Colon => ":"@,
            TokenKind::Num(number) => decimal_digits(number as nat),
            TokenKind::Whitespace => " "@,
            TokenKind::Str(text) => text@,
            TokenKind::Literal(literal) => hex_string(literal@),
            TokenKind::Opcode(opcode) => opcode.text(),
            TokenKind::Label(name) => name@,
            TokenKind::PrimitiveType(primitive) => primitive.text(),
            TokenKind::ArrayType(primitive, sizes) => primitive.text() + dimensions_text(sizes@),
            TokenKind::JumpTable => "jumptable"@,
            TokenKind::JumpTablePacked => "jumptable__packed"@,
            TokenKind::CodeTable => "table"@,
            TokenKind::BuiltinFunction(name) => "BuiltinFunction("@ + name@ + ")"@,
        }
    }

    /// Writes a token of this kind.
    pub fn to_string(&self) -> (s: String)
        ensures
            s@ == self.text(),
    {
        match self {
            TokenKind::Eof => "EOF".to_owned(),
            TokenKind::Comment(text) => {
                let s = "Comment(".to_owned().concat(text.as_str()).concat(")");
                assert(s@ =~= self.text());
                s
            },
            TokenKind::Div => "/".to_owned(),
            TokenKind::Define => "#define".to_owned(),
            TokenKind::Include => "#include".to_owned(),
            TokenKind::Macro => "macro".to_owned(),
            TokenKind::Function => "function".to_owned(),
            TokenKind::Event => "event".to_owned(),
            TokenKind::Constant => "constant".to_owned(),
            TokenKind::Takes => "takes".to_owned(),
            TokenKind::Returns => "returns".to_owned(),
            TokenKind::View => "view".to_owned(),
            TokenKind::Pure => "pure".to_owned(),
            TokenKind::Payable => "payable".to_owned(),
            TokenKind::NonPayable => "nonpayable".to_owned(),
            TokenKind::Indexed => "indexed".to_owned(),
            TokenKind::FreeStoragePointer => "FREE_STORAGE_POINTER()".to_owned(),
            TokenKind::Ident(name) => name.clone(),
            TokenKind::Assign => "=".to_owned(),
            TokenKind::OpenParen => "(".to_owned(),
            TokenKind::CloseParen => ")".to_owned(),
            TokenKind::OpenBracket => "[".to_owned(),
            TokenKind::CloseBracket => "]".to_owned(),
            TokenKind::OpenBrace => "{".to_owned(),
            TokenKind::CloseBrace => "}".to_owned(),
            TokenKind::LeftAngle => "<".to_owned(),
            TokenKind::RightAngle => ">".to_owned(),
            TokenKind::Add => "+".to_owned(),
            TokenKind::Sub => "-".to_owned(),
            TokenKind::Mul => "*".to_owned(),
            TokenKind::Comma => ",".to_owned(),
            TokenKind::Colon => ":".to_owned(),
            TokenKind::Num(number) => format_decimal(*number),
            TokenKind::Whitespace => " ".to_owned(),
            TokenKind::Str(text) => text.clone(),
            TokenKind::Literal(literal) => format_bytes(literal.as_slice()),
            TokenKind::Opcode(opcode) => opcode.to_string(),
            TokenKind::Label(name) => name.clone(),
            TokenKind::PrimitiveType(primitive) => primitive.to_string(),
            TokenKind::ArrayType(primitive, sizes) => primitive.to_string().concat(
                format_dimensions(sizes).as_str(),
            ),
            TokenKind::JumpTable => "jumptable".to_owned(),
            TokenKind::JumpTablePacked => "jumptable__packed".to_owned(),
            TokenKind::CodeTable => "table".to_owned(),
            TokenKind::BuiltinFunction(name) => {
                let s = "BuiltinFunction(".to_owned().concat(name.as_str()).concat(")");
                assert(s@ =~= self.text());
                s
            },
        }
    }
}

} // verus!
