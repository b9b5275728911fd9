//! Bytes of generated code, and the intermediate form that a macro body is
//! lowered to before it is expanded.

use crate::ast::{MacroDefinition, Statement, StatementView};
use crate::encoding::{format_byte, hex_of_byte};
use crate::error::{CodegenError, CodegenErrorKind};
use vstd::prelude::*;

verus! {

/// One byte of generated code, written as two hexadecimal digits.
#[derive(Debug, PartialEq, Eq)]
pub struct Byte(pub String);

impl View for Byte {
    type V = Seq<char>;

    open spec fn view(&self) -> Seq<char> {
        self.0@
    }
}

impl Clone for Byte {
    fn clone(&self) -> (res: Self)
        ensures
            res@ == self@,
    {
        Byte(self.0.clone())
    }
}

/// The texts of a list of bytes, in order.
pub open spec fn byte_views(bytes: Seq<Byte>) -> Seq<Seq<char>> {
    bytes.map_values(|b: Byte| b@)
}

/// One entry of a lowered macro body.
#[derive(Debug, PartialEq, Eq)]
pub enum IRByte {
    /// A byte that is final.
    Byte(Byte),
    /// A statement that is still to be expanded: a macro invocation.
    Statement(Statement),
    /// A reference to a constant, still to be resolved.
    Constant(String),
    /// A reference to an argument of the enclosing macro.
    ArgCall(String),
}

/// What an [`IRByte`] says.
pub enum IRByteView {
    Byte(Seq<char>),
    Statement(StatementView),
    Constant(Seq<char>),
    ArgCall(Seq<char>),
}

impl View for IRByte {
    type V = IRByteView;

    open spec fn view(&self) -> IRByteView {
        match self {
            IRByte::Byte(byte) => IRByteView::Byte(byte@),
            IRByte::Statement(statement) => IRByteView::Statement(statement@),
            IRByte::Constant(name) => IRByteView::Constant(name@),
            IRByte::ArgCall(name) => IRByteView::ArgCall(name@),
        }
    }
}

/// What a list of lowered entries says.
pub open spec fn ir_views(entries: Seq<IRByte>) -> Seq<IRByteView> {
    entries.map_values(|e: IRByte| e@)
}

/// A lowered macro body.
#[derive(Debug, PartialEq, Eq)]
pub struct IRBytecode(pub Vec<IRByte>);

impl View for IRBytecode {
    type V = Seq<IRByteView>;

    open spec fn view(&self) -> Seq<IRByteView> {
        ir_views(self.0@)
    }
}

/// The entries that literal bytes lower to: one final byte each.
pub open spec fn lower_literal(bytes: Seq<u8>) -> Seq<IRByteView> {
    bytes.map_values(|b: u8| IRByteView::Byte(hex_of_byte(b)))
}

/// The entries that one statement lowers to. Literal bytes become final
/// bytes; an invocation is kept as it is, to be expanded; references to
/// constants and arguments are kept by name. A label declaration has no
/// lowered form.
pub open spec fn lower_statement(statement: StatementView) -> Result<
    Seq<IRByteView>,
    CodegenErrorKind,
> {
    match statement {
        StatementView::Literal(bytes) => Ok(lower_literal(bytes)),
        StatementView::MacroInvocation(_) => Ok(seq![IRByteView::Statement(statement)]),
        StatementView::Constant(name) => Ok(seq![IRByteView::Constant(name)]),
        StatementView::ArgCall(name) => Ok(seq![IRByteView::ArgCall(name)]),
        StatementView::Label(_) => Err(CodegenErrorKind::InvalidMacroStatement),
    }
}

/// The lowered form of a macro body: what its statements lower to, in order.
/// The body is lowered whole or not at all.
pub open spec fn lower(statements: Seq<StatementView>) -> Result<
    Seq<IRByteView>,
    CodegenErrorKind,
>
    decreases statements.len(),
{
    if statements.len() == 0 {
        Ok(Seq::empty())
    } else {
        match lower(statements.drop_last()) {
            Err(e) => Err(e),
            Ok(entries) => match lower_statement(statements.last()) {
                Err(e) => Err(e),
                Ok(more) => Ok(entries + more),
            },
        }
    }
}

/// Lowering fails in one way only.
pub proof fn lemma_lower_error(statements: Seq<StatementView>)
    ensures
        lower(statements) matches Err(kind) ==> kind == CodegenErrorKind::InvalidMacroStatement,
    decreases statements.len(),
{
    if statements.len() > 0 {
        lemma_lower_error(statements.drop_last());
    }
}

/// A body of one statement lowers to what the statement lowers to.
pub proof fn lemma_lower_single(statement: StatementView)
    ensures
        lower(seq![statement]) == lower_statement(statement),
{
    let s = seq![statement];
    assert(s.drop_last() =~= Seq::<StatementView>::empty());
    assert(lower(s.drop_last()) == Ok::<Seq<IRByteView>, CodegenErrorKind>(Seq::empty()));
    match lower_statement(statement) {
        Ok(more) => {
            assert(Seq::<IRByteView>::empty() + more =~= more);
        },
        Err(_) => {},
    }
}

/// Appends to `entries` the final bytes of a literal.
fn lower_literal_into(entries: &mut Vec<IRByte>, bytes: &Vec<u8>)
    ensures
        ir_views(final(entries)@) == ir_views(old(entries)@) + lower_literal(bytes@),
{
    let ghost before = ir_views(entries@);
    let mut i: usize = 0;
    assert(before + lower_literal(bytes@.take(0)) =~= before);
    while i < bytes.len()
        invariant
            i <= bytes.len(),
            ir_views(entries@) == before + lower_literal(bytes@.take(i as int)),
        decreases bytes.len() - i,
    {
        let ghost done = ir_views(entries@);
        entries.push(IRByte::Byte(Byte(format_byte(bytes[i]))));
        i = i + 1;
        proof {
            let last = IRByteView::Byte(hex_of_byte(bytes[i - 1]));
            assert(ir_views(entries@) =~= done.push(last));
            assert(bytes@.take(i as int) =~= bytes@.take(i - 1).push(bytes[i - 1]));
            assert(lower_literal(bytes@.take(i as int)) =~= lower_literal(
                bytes@.take(i - 1),
            ).push(last));
            assert(done.push(last) =~= before + lower_literal(bytes@.take(i as int)));
        }
    }
    assert(bytes@.take(i as int) =~= bytes@);
}

impl MacroDefinition {
    /// Lowers the macro's body. Every statement is lowered, in source order,
    /// unless one of them has no lowered form: then nothing is.
    pub fn to_irbytecode(&self) -> (lowered: Result<IRBytecode, CodegenError>)
        ensures
            match lowered {
                Ok(ir) => lower(self@.statements) == Ok::<Seq<IRByteView>, CodegenErrorKind>(ir@),
                Err(e) => lower(self@.statements) == Err::<Seq<IRByteView>, CodegenErrorKind>(
                    CodegenErrorKind::InvalidMacroStatement,
                ) && e.is_bare(CodegenErrorKind::InvalidMacroStatement),
            },
    {
        let mut entries: Vec<IRByte> = Vec::new();
        let ghost statements = self@.statements;
        let mut i: usize = 0;
        assert(statements.take(0) =~= Seq::<StatementView>::empty());
        assert(ir_views(entries@) =~= Seq::<IRByteView>::empty());
        while i < self.statements.len()
            invariant
                i <= self.statements.len(),
                statements == self@.statements,
                statements.len() == self.statements.len(),
                lower(statements.take(i as int)) == Ok::<Seq<IRByteView>, CodegenErrorKind>(
                    ir_views(entries@),
                ),
            decreases self.statements.len() - i,
        {
            let ghost before = ir_views(entries@);
            let ghost prefix = statements.take(i as int + 1);
            assert(prefix.drop_last() =~= statements.take(i as int));
            assert(prefix.last() == self.statements[i as int]@);
            match &self.statements[i] {
                Statement::Literal(bytes) => {
                    lower_literal_into(&mut entries, bytes);
                },
                Statement::MacroInvocation(invocation) => {
                    entries.push(IRByte::Statement(Statement::MacroInvocation(invocation.clone())));
                    assert(ir_views(entries@) =~= before + seq![
                        IRByteView::Statement(prefix.last()),
                    ]);
                },
                Statement::Constant(name) => {
                    entries.push(IRByte::Constant(name.clone()));
                    assert(ir_views(entries@) =~= before + seq![IRByteView::Constant(name@)]);
                },
                Statement::ArgCall(name) => {
                    entries.push(IRByte::ArgCall(name.clone()));
                    assert(ir_views(entries@) =~= before + seq![IRByteView::ArgCall(name@)]);
                },
                Statement::Label(_) => {
                    proof {
                        lemma_lower_prefix_error(statements, i as int + 1);
                    }
                    return Err(CodegenError::new(CodegenErrorKind::InvalidMacroStatement));
                },
            }
            i = i + 1;
        }
        assert(statements.take(i as int) =~= statements);
        Ok(IRBytecode(entries))
    }
}

/// Where a beginning of a body cannot be lowered, the body cannot be either.
pub proof fn lemma_lower_prefix_error(statements: Seq<StatementView>, n: int)
    requires
        0 <= n <= statements.len(),
        lower(statements.take(n)) is Err,
    ensures
        lower(statements) == Err::<Seq<IRByteView>, CodegenErrorKind>(
            CodegenErrorKind::InvalidMacroStatement,
        ),
    decreases statements.len(),
{
    lemma_lower_error(statements);
    if n == statements.len() {
        assert(statements.take(n) =~= statements);
    } else {
        assert(statements.drop_last().take(n) =~= statements.take(n));
        lemma_lower_prefix_error(statements.drop_last(), n);
    }
}

} // verus!
