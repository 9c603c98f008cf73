//! A sample key/value contract, independent of the ledger.

use vstd::prelude::*;

verus! {

/// The request a contract executes.
#[derive(Clone, Debug)]
pub struct ContractParams {
    pub key: String,
    pub value: String,
}

/// Why a contract refused a request.
#[derive(Clone, Copy, Debug, PartialEq, Eq, Structural)]
pub enum ContractError {
    /// The key or the value is empty.
    InvalidParams,
    /// The contract could not act on the request.
    ExecutionFailed,
}

/// The message that describes an error.
pub open spec fn error_message(e: ContractError) -> Seq<char> {
    match e {
        ContractError::InvalidParams => "Invalid parameters provided"@,
        ContractError::ExecutionFailed => "Execution failed"@,
    }
}

impl ContractError {
    /// The message that describes this error.
    pub fn message(&self) -> (r: &'static str)
        ensures
            r@ == error_message(*self),
    {
        match self {
            ContractError::InvalidParams => "Invalid parameters provided",
            ContractError::ExecutionFailed => "Execution failed",
        }
    }
}

/// A contract that executes requests.
pub trait SmartContract {
    /// What executing `params` gives.
    spec fn outcome(&self, params: ContractParams) -> Result<(), ContractError>;

    fn execute(&self, params: &ContractParams) -> (r: Result<(), ContractError>)
        ensures
            r == self.outcome(*params),
    ;
}

/// A contract over a key/value state: a request succeeds when its key is
/// present in the state.
pub struct SampleContract {
    state: Vec<(String, String)>,
}

impl View for SampleContract {
    type V = Seq<(Seq<char>, Seq<char>)>;

    closed spec fn view(&self) -> Seq<(Seq<char>, Seq<char>)> {
        self.state@.map_values(|e: (String, String)| (e.0@, e.1@))
    }
}

/// Whether `key` has an entry in `state`.
pub open spec fn has_key(state: Seq<(Seq<char>, Seq<char>)>, key: Seq<char>) -> bool {
    exists|i: int| 0 <= i < state.len() && (#[trigger] state[i]).0 == key
}

/// No key has two entries in `state`.
pub open spec fn keys_unique(state: Seq<(Seq<char>, Seq<char>)>) -> bool {
    forall|i: int, j: int|
        0 <= i < j < state.len() ==> (#[trigger] state[i]).0 != (#[trigger] state[j]).0
}

impl SampleContract {
    /// The state's invariant: one entry per key.
    pub open spec fn wf(&self) -> bool {
        keys_unique(self@)
    }

    /// A contract with an empty state.
    pub fn new() -> (r: SampleContract)
        ensures
            r@.len() == 0,
            r.wf(),
    {
        let r = SampleContract { state: Vec::new() };
        assert(r@ =~= Seq::empty());
        r
    }
}

impl SmartContract for SampleContract {
    open spec fn outcome(&self, params: ContractParams) -> Result<(), ContractError> {
        if params.key@.len() == 0 || params.value@.len() == 0 {
            Err(ContractError::InvalidParams)
        } else if has_key(self@, params.key@) {
            Ok(())
        } else {
            Err(ContractError::ExecutionFailed)
        }
    }

    fn execute(&self, params: &ContractParams) -> (r: Result<(), ContractError>) {
        if params.key.as_str().is_empty() || params.value.as_str().is_empty() {
            return Err(ContractError::InvalidParams);
        }
        let mut i: usize = 0;
        while i < self.state.len()
            invariant
                i <= self.state@.len(),
                params.key@.len() > 0,
                params.value@.len() > 0,
                forall|j: int| 0 <= j < i ==> (#[trigger] self@[j]).0 != params.key@,
            decreases self.state@.len() - i,
        {
            if self.state[i].0 == params.key {
                assert(self@[i as int].0 == params.key@);
                assert(has_key(self@, params.key@));
                return Ok(());
            }
            i = i + 1;
        }
        Err(ContractError::ExecutionFailed)
    }
}

/// Executes a request of `key` and `value` on `contract` and words the
/// outcome.
pub fn execute_contract<C: SmartContract>(contract: &C, key: String, value: String) -> (r: Result<
    &'static str,
    String,
>)
    ensures
        contract.outcome((ContractParams { key, value })) is Ok ==> (r matches Ok(s) && s@
            == "Contract executed successfully"@),
        contract.outcome((ContractParams { key, value })) matches Err(e) ==> (r matches Err(m)
            && m@ == "Contract execution failed: "@ + error_message(e)),
{
    let params = ContractParams { key, value };
    match contract.execute(&params) {
        Ok(()) => Ok("Contract executed successfully"),
        Err(e) => {
            let message = String::from_str("Contract execution failed: ");
            Err(message.concat(e.message()))
        },
    }
}

} // verus!
