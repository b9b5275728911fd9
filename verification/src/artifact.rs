//! The record of what was compiled.

use crate::abi::{Abi, AbiView};
use vstd::prelude::*;

verus! {

/// What compiling one contract yields. The fields are filled one after the
/// other, by the steps that produce them.
#[derive(Debug, PartialEq, Eq)]
pub struct Artifact {
    /// The code that deploys the contract, as hexadecimal text: constructor,
    /// bootstrap, runtime code and constructor arguments.
    pub bytecode: String,
    /// The code that stays after deployment, as hexadecimal text.
    pub runtime: String,
    /// The contract's interface, once it has been derived.
    pub abi: Option<Abi>,
}

/// What an [`Artifact`] says.
pub struct ArtifactView {
    pub bytecode: Seq<char>,
    pub runtime: Seq<char>,
    pub abi: Option<AbiView>,
}

impl View for Artifact {
    type V = ArtifactView;

    open spec fn view(&self) -> ArtifactView {
        ArtifactView {
            bytecode: self.bytecode@,
            runtime: self.runtime@,
            abi: match self.abi {
                Some(abi) => Some(abi@),
                None => None,
            },
        }
    }
}

impl Clone for Artifact {
    fn clone(&self) -> (res: Self)
        ensures
            res@ == self@,
    {
        Artifact {
            bytecode: self.bytecode.clone(),
            runtime: self.runtime.clone(),
            abi: match &self.abi {
                Some(abi) => Some(abi.clone()),
                None => None,
            },
        }
    }
}

impl Default for Artifact {
    /// The artifact of nothing: no code and no interface.
    fn default() -> (artifact: Self)
        ensures
            artifact@ == (ArtifactView { bytecode: Seq::empty(), runtime: Seq::empty(), abi: None }),
    {
        Artifact { bytecode: String::new(), runtime: String::new(), abi: None }
    }
}

} // verus!
