use huff_codegen::assembler::{assemble, bootstrap};
use huff_codegen::{Codegen, ConstructorArg};

const BOOTSTRAP_OF_NOTHING: &str = "6100008061000d6000396000f3";

fn encoded(arg: ConstructorArg) -> String {
    assert!(arg.is_encodable());
    let mut codegen = Codegen::new();
    let artifact = codegen.churn(vec![arg], "", "").unwrap();
    assert!(artifact.bytecode.starts_with(BOOTSTRAP_OF_NOTHING));
    artifact.bytecode[BOOTSTRAP_OF_NOTHING.len()..].to_string()
}

fn word(last: u8) -> String {
    format!("{}{:02x}", "00".repeat(31), last)
}

#[test]
fn address_is_padded_on_the_left() {
    let mut address = [0u8; 20];
    for (i, b) in address.iter_mut().enumerate() {
        *b = 0xa0 + i as u8;
    }
    assert_eq!(
        encoded(ConstructorArg::Address(address)),
        "000000000000000000000000a0a1a2a3a4a5a6a7a8a9aaabacadaeafb0b1b2b3"
    );
}

#[test]
fn unsigned_integer_is_its_word() {
    let mut value = [0u8; 32];
    value[0] = 0x80;
    value[30] = 0x01;
    value[31] = 0x02;
    assert_eq!(
        encoded(ConstructorArg::Uint(value)),
        "8000000000000000000000000000000000000000000000000000000000000102"
    );
}

#[test]
fn signed_integer_is_its_word() {
    assert_eq!(encoded(ConstructorArg::Int([0xff; 32])), "ff".repeat(32));
}

#[test]
fn truth_values_are_one_and_zero() {
    assert_eq!(encoded(ConstructorArg::Bool(true)), word(1));
    assert_eq!(encoded(ConstructorArg::Bool(false)), word(0));
}

#[test]
fn fixed_bytes_are_padded_on_the_right() {
    assert_eq!(encoded(ConstructorArg::FixedBytes(vec![])), "");
    assert_eq!(encoded(ConstructorArg::FixedBytes(vec![0x12, 0x34])), format!("1234{}", "00".repeat(30)));
    assert_eq!(encoded(ConstructorArg::FixedBytes(vec![0x11; 32])), "11".repeat(32));
    assert_eq!(
        encoded(ConstructorArg::FixedBytes(vec![0x22; 33])),
        format!("{}{}", "22".repeat(33), "00".repeat(31))
    );
}

#[test]
fn bytes_carry_offset_and_length() {
    assert_eq!(encoded(ConstructorArg::Bytes(vec![])), format!("{}{}", word(0x20), word(0)));
    assert_eq!(
        encoded(ConstructorArg::Bytes(vec![0xde, 0xad])),
        format!("{}{}dead{}", word(0x20), word(2), "00".repeat(30))
    );
    assert_eq!(
        encoded(ConstructorArg::Bytes(vec![0x33; 32])),
        format!("{}{}{}", word(0x20), word(32), "33".repeat(32))
    );
    let long = vec![0x44; 0x1_02];
    assert_eq!(
        encoded(ConstructorArg::Bytes(long)),
        format!("{}{}0102{}{}", word(0x20), "00".repeat(30), "44".repeat(0x102), "00".repeat(30))
    );
}

#[test]
fn text_is_encoded_by_its_utf8_bytes() {
    assert_eq!(
        encoded(ConstructorArg::String("hi".to_string())),
        format!("{}{}6869{}", word(0x20), word(2), "00".repeat(30))
    );
    assert_eq!(
        encoded(ConstructorArg::String("\u{e9}".to_string())),
        format!("{}{}c3a9{}", word(0x20), word(2), "00".repeat(30))
    );
    assert_eq!(encoded(ConstructorArg::String(String::new())), format!("{}{}", word(0x20), word(0)));
}

#[test]
fn arguments_are_joined_in_order() {
    let mut codegen = Codegen::new();
    let mut value = [0u8; 32];
    value[31] = 0x2a;
    let args = vec![ConstructorArg::Uint(value), ConstructorArg::Bool(true), ConstructorArg::Bytes(vec![7])];
    let artifact = codegen.churn(args, "6001", "6002").unwrap();
    let expected = format!(
        "60026100028061000f6000396000f36001{}{}{}{}07{}",
        word(0x2a),
        word(1),
        word(0x20),
        word(1),
        "00".repeat(31)
    );
    assert_eq!(artifact.bytecode, expected);
}

#[test]
fn every_elementary_value_is_encodable() {
    assert!(ConstructorArg::Address([0; 20]).is_encodable());
    assert!(ConstructorArg::Int([0; 32]).is_encodable());
    assert!(ConstructorArg::Uint([0; 32]).is_encodable());
    assert!(ConstructorArg::Bool(true).is_encodable());
    assert!(ConstructorArg::Bytes(vec![0; 1000]).is_encodable());
    assert!(ConstructorArg::FixedBytes(vec![0; 1000]).is_encodable());
    assert!(ConstructorArg::String("x".repeat(1000)).is_encodable());
}

#[test]
fn bootstrap_has_thirteen_bytes() {
    assert_eq!(bootstrap(10, 0), "61000a8061000d6000396000f3");
    assert_eq!(bootstrap(10, 0).len(), 26);
    assert_eq!(bootstrap(0xffff, 0xfff2), "61ffff8061ffff6000396000f3");
    assert_eq!(bootstrap(0, 0xfff3), "6100008061100006000396000f3");
}

#[test]
fn assemble_joins_code_and_encoded_arguments() {
    let encoded = vec![vec![0x01, 0x02], vec![], vec![0xff]];
    assert_eq!(assemble("aa", "bbcc", &encoded), "aa6100028061000e6000396000f3bbcc0102ff");
}

#[test]
fn assemble_halves_odd_lengths() {
    assert_eq!(assemble("abc", "12345", &vec![]), "abc6100028061000e6000396000f312345");
}

#[test]
fn runtime_code_stands_at_the_pushed_offset() {
    let constructor = "6001600255";
    let runtime = "60ff60005260206000f3";
    let mut codegen = Codegen::new();
    let artifact = codegen.churn(vec![ConstructorArg::Bool(true)], runtime, constructor).unwrap();
    let bootstrap_at = constructor.len();
    let pushed = &artifact.bytecode[bootstrap_at + 10..bootstrap_at + 14];
    let offset = usize::from_str_radix(pushed, 16).unwrap();
    assert_eq!(offset, 13 + constructor.len() / 2);
    assert_eq!(&artifact.bytecode[2 * offset..2 * offset + runtime.len()], runtime);
    let size = usize::from_str_radix(&artifact.bytecode[bootstrap_at + 2..bootstrap_at + 6], 16).unwrap();
    assert_eq!(size, runtime.len() / 2);
}
