//! The syntax tree that code generation reads.

use vstd::prelude::*;

verus! {

/// The texts of a list of strings.
pub open spec fn texts(strings: Seq<String>) -> Seq<Seq<char>> {
    strings.map_values(|s: String| s@)
}

/// A copy of a list of strings.
pub fn clone_strings(strings: &Vec<String>) -> (res: Vec<String>)
    ensures
        texts(res@) == texts(strings@),
{
    let res = strings.clone();
    assert(res@ =~= strings@);
    res
}

/// An invocation of a macro from inside another macro's body.
#[derive(Debug, PartialEq, Eq)]
pub struct MacroInvocation {
    /// The name of the macro that is invoked.
    pub macro_name: String,
    /// The argument expressions, by position.
    pub args: Vec<String>,
}

/// What a [`MacroInvocation`] says.
pub struct MacroInvocationView {
    pub macro_name: Seq<char>,
    pub args: Seq<Seq<char>>,
}

impl View for MacroInvocation {
    type V = MacroInvocationView;

    open spec fn view(&self) -> MacroInvocationView {
        MacroInvocationView { macro_name: self.macro_name@, args: texts(self.args@) }
    }
}

impl Clone for MacroInvocation {
    fn clone(&self) -> (res: Self)
        ensures
            res@ == self@,
    {
        MacroInvocation { macro_name: self.macro_name.clone(), args: clone_strings(&self.args) }
    }
}

/// One statement of a macro's body.
#[derive(Debug, PartialEq, Eq)]
pub enum Statement {
    /// Bytes that are emitted as they stand.
    Literal(Vec<u8>),
    /// The invocation of another macro, expanded in place.
    MacroInvocation(MacroInvocation),
    /// A reference to a constant by name: a push of its value.
    Constant(String),
    /// A reference to one of the enclosing macro's arguments by name.
    ArgCall(String),
    /// The declaration of a jump label.
    Label(String),
}

/// What a [`Statement`] says.
pub enum StatementView {
    Literal(Seq<u8>),
    MacroInvocation(MacroInvocationView),
    Constant(Seq<char>),
    ArgCall(Seq<char>),
    Label(Seq<char>),
}

impl View for Statement {
    type V = StatementView;

    open spec fn view(&self) -> StatementView {
        match self {
            Statement::Literal(bytes) => StatementView::Literal(bytes@),
            Statement::MacroInvocation(invocation) => StatementView::MacroInvocation(invocation@),
            Statement::Constant(name) => StatementView::Constant(name@),
            Statement::ArgCall(name) => StatementView::ArgCall(name@),
            Statement::Label(name) => StatementView::Label(name@),
        }
    }
}

impl Clone for Statement {
    fn clone(&self) -> (res: Self)
        ensures
            res@ == self@,
    {
        match self {
            Statement::Literal(bytes) => Statement::Literal(bytes.clone()),
            Statement::MacroInvocation(invocation) => Statement::MacroInvocation(
                invocation.clone(),
            ),
            Statement::Constant(name) => Statement::Constant(name.clone()),
            Statement::ArgCall(name) => Statement::ArgCall(name.clone()),
            Statement::Label(name) => Statement::Label(name.clone()),
        }
    }
}

/// What a list of statements says.
pub open spec fn statement_views(statements: Seq<Statement>) -> Seq<StatementView> {
    statements.map_values(|s: Statement| s@)
}

/// A copy of a list of statements.
pub fn clone_statements(statements: &Vec<Statement>) -> (res: Vec<Statement>)
    ensures
        statement_views(res@) == statement_views(statements@),
{
    let res = statements.clone();
    assert(statement_views(res@) =~= statement_views(statements@));
    res
}

/// A named, reusable body of statements. Invoking it inlines the body.
#[derive(Debug, PartialEq, Eq)]
pub struct MacroDefinition {
    /// The name by which the macro is invoked.
    pub name: String,
    /// The names of the declared arguments.
    pub parameters: Vec<String>,
    /// The body, in source order.
    pub statements: Vec<Statement>,
    /// How many stack items the macro says it takes.
    pub takes: usize,
    /// How many stack items the macro says it returns.
    pub returns: usize,
}

/// What a [`MacroDefinition`] says.
pub struct MacroDefinitionView {
    pub name: Seq<char>,
    pub parameters: Seq<Seq<char>>,
    pub statements: Seq<StatementView>,
    pub takes: nat,
    pub returns: nat,
}

impl View for MacroDefinition {
    type V = MacroDefinitionView;

    open spec fn view(&self) -> MacroDefinitionView {
        MacroDefinitionView {
            name: self.name@,
            parameters: texts(self.parameters@),
            statements: statement_views(self.statements@),
            takes: self.takes as nat,
            returns: self.returns as nat,
        }
    }
}

impl Clone for MacroDefinition {
    fn clone(&self) -> (res: Self)
        ensures
            res@ == self@,
    {
        MacroDefinition {
            name: self.name.clone(),
            parameters: clone_strings(&self.parameters),
            statements: clone_statements(&self.statements),
            takes: self.takes,
            returns: self.returns,
        }
    }
}

/// What a list of macro definitions says.
pub open spec fn macro_views(macros: Seq<MacroDefinition>) -> Seq<MacroDefinitionView> {
    macros.map_values(|m: MacroDefinition| m@)
}

/// The names of a list of macro definitions, in order.
pub open spec fn macro_names(macros: Seq<MacroDefinitionView>) -> Seq<Seq<char>> {
    macros.map_values(|m: MacroDefinitionView| m.name)
}

/// The value of a constant.
#[derive(Debug, PartialEq, Eq)]
pub enum ConstVal {
    /// Literal bytes, at most 32 of them in a well-formed constant.
    Literal(Vec<u8>),
    /// A storage slot that is still to be assigned.
    FreeStoragePointer,
}

/// What a [`ConstVal`] says.
pub enum ConstValView {
    Literal(Seq<u8>),
    FreeStoragePointer,
}

impl View for ConstVal {
    type V = ConstValView;

    open spec fn view(&self) -> ConstValView {
        match self {
            ConstVal::Literal(bytes) => ConstValView::Literal(bytes@),
            ConstVal::FreeStoragePointer => ConstValView::FreeStoragePointer,
        }
    }
}

impl Clone for ConstVal {
    fn clone(&self) -> (res: Self)
        ensures
            res@ == self@,
    {
        match self {
            ConstVal::Literal(bytes) => ConstVal::Literal(bytes.clone()),
            ConstVal::FreeStoragePointer => ConstVal::FreeStoragePointer,
        }
    }
}

/// A named constant.
#[derive(Debug, PartialEq, Eq)]
pub struct ConstantDefinition {
    /// The name by which the constant is referred to.
    pub name: String,
    /// Its value.
    pub value: ConstVal,
}

/// What a [`ConstantDefinition`] says.
pub struct ConstantDefinitionView {
    pub name: Seq<char>,
    pub value: ConstValView,
}

impl View for ConstantDefinition {
    type V = ConstantDefinitionView;

    open spec fn view(&self) -> ConstantDefinitionView {
        ConstantDefinitionView { name: self.name@, value: self.value@ }
    }
}

impl Clone for ConstantDefinition {
    fn clone(&self) -> (res: Self)
        ensures
            res@ == self@,
    {
        ConstantDefinition { name: self.name.clone(), value: self.value.clone() }
    }
}

/// What a list of constant definitions says.
pub open spec fn constant_views(constants: Seq<ConstantDefinition>) -> Seq<
    ConstantDefinitionView,
> {
    constants.map_values(|c: ConstantDefinition| c@)
}

/// The names of a list of constant definitions, in order.
pub open spec fn constant_names(constants: Seq<ConstantDefinitionView>) -> Seq<Seq<char>> {
    constants.map_values(|c: ConstantDefinitionView| c.name)
}

/// An argument of a function or a parameter of an event.
#[derive(Debug, PartialEq, Eq)]
pub struct Argument {
    /// The type, as written.
    pub arg_type: String,
    /// The name; empty where none was given.
    pub name: String,
    /// Whether an event parameter is indexed.
    pub indexed: bool,
}

/// What an [`Argument`] says.
pub struct ArgumentView {
    pub arg_type: Seq<char>,
    pub name: Seq<char>,
    pub indexed: bool,
}

impl View for Argument {
    type V = ArgumentView;

    open spec fn view(&self) -> ArgumentView {
        ArgumentView { arg_type: self.arg_type@, name: self.name@, indexed: self.indexed }
    }
}

impl Clone for Argument {
    fn clone(&self) -> (res: Self)
        ensures
            res@ == self@,
    {
        Argument {
            arg_type: self.arg_type.clone(),
            name: self.name.clone(),
            indexed: self.indexed,
        }
    }
}

/// What a list of arguments says.
pub open spec fn argument_views(arguments: Seq<Argument>) -> Seq<ArgumentView> {
    arguments.map_values(|a: Argument| a@)
}

/// A copy of a list of arguments.
pub fn clone_arguments(arguments: &Vec<Argument>) -> (res: Vec<Argument>)
    ensures
        argument_views(res@) == argument_views(arguments@),
{
    let res = arguments.clone();
    assert(argument_views(res@) =~= argument_views(arguments@));
    res
}

/// How a function treats the state of the chain.
#[derive(Debug, PartialEq, Eq, Clone, Copy, Structural)]
pub enum FunctionType {
    /// Reads the state and does not change it.
    View,
    /// Accepts value.
    Payable,
    /// Accepts no value.
    NonPayable,
    /// Neither reads the state nor changes it.
    Pure,
}

/// The declaration of an externally callable function.
#[derive(Debug, PartialEq, Eq)]
pub struct FunctionDefinition {
    /// The function's name.
    pub name: String,
    /// Its inputs, by position.
    pub inputs: Vec<Argument>,
    /// How it treats the state.
    pub fn_type: FunctionType,
    /// Its outputs, by position.
    pub outputs: Vec<Argument>,
}

/// What a [`FunctionDefinition`] says.
pub struct FunctionDefinitionView {
    pub name: Seq<char>,
    pub inputs: Seq<ArgumentView>,
    pub fn_type: FunctionType,
    pub outputs: Seq<ArgumentView>,
}

impl View for FunctionDefinition {
    type V = FunctionDefinitionView;

    open spec fn view(&self) -> FunctionDefinitionView {
        FunctionDefinitionView {
            name: self.name@,
            inputs: argument_views(self.inputs@),
            fn_type: self.fn_type,
            outputs: argument_views(self.outputs@),
        }
    }
}

impl Clone for FunctionDefinition {
    fn clone(&self) -> (res: Self)
        ensures
            res@ == self@,
    {
        FunctionDefinition {
            name: self.name.clone(),
            inputs: clone_arguments(&self.inputs),
            fn_type: self.fn_type,
            outputs: clone_arguments(&self.outputs),
        }
    }
}

/// What a list of function declarations says.
pub open spec fn function_views(functions: Seq<FunctionDefinition>) -> Seq<
    FunctionDefinitionView,
> {
    functions.map_values(|f: FunctionDefinition| f@)
}

/// The declaration of an event.
#[derive(Debug, PartialEq, Eq)]
pub struct EventDefinition {
    /// The event's name.
    pub name: String,
    /// Its parameters, by position.
    pub parameters: Vec<Argument>,
}

/// What an [`EventDefinition`] says.
pub struct EventDefinitionView {
    pub name: Seq<char>,
    pub parameters: Seq<ArgumentView>,
}

impl View for EventDefinition {
    type V = EventDefinitionView;

    open spec fn view(&self) -> EventDefinitionView {
        EventDefinitionView { name: self.name@, parameters: argument_views(self.parameters@) }
    }
}

impl Clone for EventDefinition {
    fn clone(&self) -> (res: Self)
        ensures
            res@ == self@,
    {
        EventDefinition {
            name: self.name.clone(),
            parameters: clone_arguments(&self.parameters),
        }
    }
}

/// What a list of event declarations says.
pub open spec fn event_views(events: Seq<EventDefinition>) -> Seq<EventDefinitionView> {
    events.map_values(|e: EventDefinition| e@)
}

/// The root of the syntax tree: everything one contract declares.
#[derive(Debug, PartialEq, Eq)]
pub struct Contract {
    /// The macro definitions, in source order.
    pub macros: Vec<MacroDefinition>,
    /// The constant definitions, in source order.
    pub constants: Vec<ConstantDefinition>,
    /// The declared functions, in source order.
    pub functions: Vec<FunctionDefinition>,
    /// The declared events, in source order.
    pub events: Vec<EventDefinition>,
}

/// What a [`Contract`] says.
pub struct ContractView {
    pub macros: Seq<MacroDefinitionView>,
    pub constants: Seq<ConstantDefinitionView>,
    pub functions: Seq<FunctionDefinitionView>,
    pub events: Seq<EventDefinitionView>,
}

impl View for Contract {
    type V = ContractView;

    open spec fn view(&self) -> ContractView {
        ContractView {
            macros: macro_views(self.macros@),
            constants: constant_views(self.constants@),
            functions: function_views(self.functions@),
            events: event_views(self.events@),
        }
    }
}

impl Clone for Contract {
    fn clone(&self) -> (res: Self)
        ensures
            res@ == self@,
    {
        let macros = self.macros.clone();
        let constants = self.constants.clone();
        let functions = self.functions.clone();
        let events = self.events.clone();
        assert(macro_views(macros@) =~= macro_views(self.macros@));
        assert(constant_views(constants@) =~= constant_views(self.constants@));
        assert(function_views(functions@) =~= function_views(self.functions@));
        assert(event_views(events@) =~= event_views(self.events@));
        Contract { macros, constants, functions, events }
    }
}

impl ConstValView {
    /// Whether the value fits a word of the virtual machine: a literal has at
    /// most 32 bytes.
    pub open spec fn fits_word(self) -> bool {
        match self {
            ConstValView::Literal(bytes) => bytes.len() <= 32,
            ConstValView::FreeStoragePointer => true,
        }
    }
}

impl ContractView {
    /// Whether the value of every constant fits a word of the virtual
    /// machine.
    pub open spec fn constants_fit(self) -> bool {
        forall|i: int| 0 <= i < self.constants.len() ==> (#[trigger] self.constants[i]).value.fits_word()
    }

    /// The first macro with the given name, if the contract defines one.
    pub open spec fn find_macro(self, name: Seq<char>) -> Option<MacroDefinitionView> {
        match macro_names(self.macros).index_of_first(name) {
            Some(k) => Some(self.macros[k]),
            None => None,
        }
    }

    /// The first constant with the given name, if the contract defines one.
    pub open spec fn find_constant(self, name: Seq<char>) -> Option<ConstantDefinitionView> {
        match constant_names(self.constants).index_of_first(name) {
            Some(k) => Some(self.constants[k]),
            None => None,
        }
    }
}

/// Where the first entry of `names` that equals `name` stands: at `k` if
/// `names[k]` is `name` and no earlier entry is.
pub proof fn lemma_first_at(names: Seq<Seq<char>>, name: Seq<char>, k: int)
    requires
        0 <= k < names.len(),
        names[k] == name,
        forall|j: int| 0 <= j < k ==> names[j] != name,
    ensures
        names.index_of_first(name) == Some(k),
{
    names.index_of_first_ensures(name);
    assert(names.contains(name));
}

/// No entry of `names` equals `name`: there is no first one.
pub proof fn lemma_first_absent(names: Seq<Seq<char>>, name: Seq<char>)
    requires
        forall|j: int| 0 <= j < names.len() ==> names[j] != name,
    ensures
        names.index_of_first(name) is None,
{
    names.index_of_first_ensures(name);
}

impl Contract {
    /// Tests whether the value of every constant fits a word of the virtual
    /// machine.
    pub fn constants_fit(&self) -> (fit: bool)
        ensures
            fit == self@.constants_fit(),
    {
        let mut i: usize = 0;
        while i < self.constants.len()
            invariant
                i <= self.constants.len(),
                forall|j: int| 0 <= j < i ==> (#[trigger] self@.constants[j]).value.fits_word(),
            decreases self.constants.len() - i,
        {
            match &self.constants[i].value {
                ConstVal::Literal(bytes) => {
                    if bytes.len() > 32 {
                        assert(!self@.constants[i as int].value.fits_word());
                        return false;
                    }
                },
                ConstVal::FreeStoragePointer => {},
            }
            i = i + 1;
        }
        true
    }

    /// The position of the first macro named `name`.
    pub fn macro_position(&self, name: &String) -> (found: Option<usize>)
        ensures
            match found {
                Some(k) => k < self.macros.len() && macro_names(self@.macros).index_of_first(
                    name@,
                ) == Some(k as int),
                None => macro_names(self@.macros).index_of_first(name@) is None,
            },
    {
        let ghost names = macro_names(self@.macros);
        let mut i: usize = 0;
        while i < self.macros.len()
            invariant
                i <= self.macros.len(),
                names == macro_names(self@.macros),
                forall|j: int| 0 <= j < i ==> names[j] != name@,
            decreases self.macros.len() - i,
        {
            if self.macros[i].name == *name {
                proof {
                    lemma_first_at(names, name@, i as int);
                }
                return Some(i);
            }
            i = i + 1;
        }
        proof {
            lemma_first_absent(names, name@);
        }
        None
    }

    /// The position of the first constant named `name`.
    pub fn constant_position(&self, name: &String) -> (found: Option<usize>)
        ensures
            match found {
                Some(k) => k < self.constants.len() && constant_names(
                    self@.constants,
                ).index_of_first(name@) == Some(k as int),
                None => constant_names(self@.constants).index_of_first(name@) is None,
            },
    {
        let ghost names = constant_names(self@.constants);
        let mut i: usize = 0;
        while i < self.constants.len()
            invariant
                i <= self.constants.len(),
                names == constant_names(self@.constants),
                forall|j: int| 0 <= j < i ==> names[j] != name@,
            decreases self.constants.len() - i,
        {
            if self.constants[i].name == *name {
                proof {
                    lemma_first_at(names, name@, i as int);
                }
                return Some(i);
            }
            i = i + 1;
        }
        proof {
            lemma_first_absent(names, name@);
        }
        None
    }

    /// Looks a macro up by its name. Among several definitions of one name the
    /// first is the one that counts.
    pub fn find_macro_by_name(&self, name: &str) -> (found: Option<MacroDefinition>)
        ensures
            match found {
                Some(m) => self@.find_macro(name@) == Some(m@),
                None => self@.find_macro(name@) is None,
            },
    {
        let owned = name.to_owned();
        match self.macro_position(&owned) {
            Some(k) => Some(self.macros[k].clone()),
            None => None,
        }
    }
}

} // verus!
