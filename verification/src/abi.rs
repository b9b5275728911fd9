//! The interface of a contract: what callers need to know to call its
//! functions and to read its events.

use crate::ast::{
    argument_views, clone_arguments, event_views, function_views, Argument, ArgumentView,
    Contract, ContractView, EventDefinition, EventDefinitionView, FunctionDefinition,
    FunctionDefinitionView,
};
use vstd::prelude::*;

verus! {

/// The name under which a contract declares its constructor.
pub open spec fn constructor_name() -> Seq<char> {
    "CONSTRUCTOR"@
}

/// The interface of a constructor: its inputs.
#[derive(Debug, PartialEq, Eq)]
pub struct Constructor {
    /// The inputs, by position.
    pub inputs: Vec<Argument>,
}

/// What a [`Constructor`] says.
pub struct ConstructorView {
    pub inputs: Seq<ArgumentView>,
}

impl View for Constructor {
    type V = ConstructorView;

    open spec fn view(&self) -> ConstructorView {
        ConstructorView { inputs: argument_views(self.inputs@) }
    }
}

impl Clone for Constructor {
    fn clone(&self) -> (res: Self)
        ensures
            res@ == self@,
    {
        Constructor { inputs: clone_arguments(&self.inputs) }
    }
}

/// The interface of a contract.
#[derive(Debug, PartialEq, Eq)]
pub struct Abi {
    /// The constructor, where one is declared.
    pub constructor: Option<Constructor>,
    /// The callable functions, in the order of their declaration.
    pub functions: Vec<FunctionDefinition>,
    /// The events, in the order of their declaration.
    pub events: Vec<EventDefinition>,
    /// Whether the contract receives plain transfers.
    pub receive: bool,
    /// Whether the contract has a fallback.
    pub fallback: bool,
}

/// What an [`Abi`] says.
pub struct AbiView {
    pub constructor: Option<ConstructorView>,
    pub functions: Seq<FunctionDefinitionView>,
    pub events: Seq<EventDefinitionView>,
    pub receive: bool,
    pub fallback: bool,
}

impl View for Abi {
    type V = AbiView;

    open spec fn view(&self) -> AbiView {
        AbiView {
            constructor: match self.constructor {
                Some(c) => Some(c@),
                None => None,
            },
            functions: function_views(self.functions@),
            events: event_views(self.events@),
            receive: self.receive,
            fallback: self.fallback,
        }
    }
}

impl Clone for Abi {
    fn clone(&self) -> (res: Self)
        ensures
            res@ == self@,
    {
        let constructor = match &self.constructor {
            Some(c) => Some(c.clone()),
            None => None,
        };
        let functions = self.functions.clone();
        let events = self.events.clone();
        assert(function_views(functions@) =~= function_views(self.functions@));
        assert(event_views(events@) =~= event_views(self.events@));
        Abi { constructor, functions, events, receive: self.receive, fallback: self.fallback }
    }
}

/// Whether a declared function is an ordinary one, not the constructor.
pub open spec fn is_callable(function: FunctionDefinitionView) -> bool {
    function.name != constructor_name()
}

/// The constructor that a list of function declarations holds: the inputs of
/// the first declaration under the constructor's name.
pub open spec fn declared_constructor(functions: Seq<FunctionDefinitionView>) -> Option<
    ConstructorView,
>
    decreases functions.len(),
{
    if functions.len() == 0 {
        None
    } else {
        match declared_constructor(functions.drop_last()) {
            Some(c) => Some(c),
            None => if is_callable(functions.last()) {
                None
            } else {
                Some(ConstructorView { inputs: functions.last().inputs })
            },
        }
    }
}

/// The interface that a contract declares. The first function declared under
/// the constructor's name gives the constructor; every other function is
/// callable; functions and events keep the order of their declaration. A
/// contract declares neither a receiver of plain transfers nor a fallback.
pub open spec fn abi_of(contract: ContractView) -> AbiView {
    AbiView {
        constructor: declared_constructor(contract.functions),
        functions: contract.functions.filter(|f: FunctionDefinitionView| is_callable(f)),
        events: contract.events,
        receive: false,
        fallback: false,
    }
}

impl Abi {
    /// Derives the interface that a contract declares.
    pub fn from_contract(contract: &Contract) -> (abi: Self)
        ensures
            abi@ == abi_of(contract@),
    {
        let reserved = "CONSTRUCTOR".to_owned();
        let ghost declared = contract@.functions;
        let ghost callable = |f: FunctionDefinitionView| is_callable(f);
        let mut constructor: Option<Constructor> = None;
        let mut functions: Vec<FunctionDefinition> = Vec::new();
        let mut i: usize = 0;
        proof {
            reveal(Seq::filter);
            assert(declared.take(0) =~= Seq::<FunctionDefinitionView>::empty());
            assert(function_views(functions@) =~= Seq::<FunctionDefinitionView>::empty());
        }
        while i < contract.functions.len()
            invariant
                i <= contract.functions.len(),
                reserved@ == constructor_name(),
                declared == contract@.functions,
                declared.len() == contract.functions.len(),
                callable == |f: FunctionDefinitionView| is_callable(f),
                function_views(functions@) == declared.take(i as int).filter(callable),
                declared_constructor(declared.take(i as int)) == match constructor {
                    Some(c) => Some(c@),
                    None => None,
                },
            decreases contract.functions.len() - i,
        {
            let function = &contract.functions[i];
            let ghost kept = function_views(functions@);
            proof {
                reveal(Seq::filter);
                let prefix = declared.take(i as int + 1);
                assert(prefix.drop_last() =~= declared.take(i as int));
                assert(prefix.last() == function@);
            }
            if function.name == reserved {
                if constructor.is_none() {
                    constructor = Some(Constructor { inputs: clone_arguments(&function.inputs) });
                }
            } else {
                functions.push(function.clone());
                assert(function_views(functions@) =~= kept.push(function@));
            }
            i = i + 1;
        }
        assert(declared.take(i as int) =~= declared);
        let events = contract.events.clone();
        assert(event_views(events@) =~= event_views(contract.events@));
        Abi { constructor, functions, events, receive: false, fallback: false }
    }
}

} // verus!
