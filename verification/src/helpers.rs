//! A handle on a deployed escrow, for those who call it.

use vstd::prelude::*;
use crate::coin::Coin;
use crate::error::ContractError;
use crate::msg::ExecuteMsg;

verus! {

/// A message for the host to deliver to a contract, before it is encoded.
#[derive(Debug, PartialEq, Eq)]
pub enum WasmMsg {
    /// Call the contract at `contract_addr` with `msg`, attaching `funds`.
    Execute { contract_addr: String, msg: ExecuteMsg, funds: Vec<Coin> },
}

/// The address of a deployed escrow, with helpers that address calls to it.
#[derive(Debug, PartialEq, Eq)]
pub struct CwTemplateContract(pub String);

impl CwTemplateContract {
    /// The address of the escrow.
    pub fn addr(&self) -> (addr: String)
        ensures
            addr@ == self.0@,
    {
        self.0.clone()
    }

    /// The call of the escrow with `msg` and no funds.
    pub fn call(&self, msg: ExecuteMsg) -> (r: Result<WasmMsg, ContractError>)
        ensures
            r matches Ok(WasmMsg::Execute { contract_addr, msg: sent, funds }) && contract_addr@
                == self.0@ && sent == msg && funds@.len() == 0,
    {
        Ok(WasmMsg::Execute { contract_addr: self.addr(), msg, funds: Vec::new() })
    }

    /// The call of the escrow with `msg` and `funds` attached.
    pub fn call_with_funds(&self, msg: ExecuteMsg, funds: Vec<Coin>) -> (r: Result<
        WasmMsg,
        ContractError,
    >)
        ensures
            r matches Ok(WasmMsg::Execute { contract_addr, msg: sent, funds: attached })
                && contract_addr@ == self.0@ && sent == msg && attached == funds,
    {
        Ok(WasmMsg::Execute { contract_addr: self.addr(), msg, funds })
    }
}

} // verus!
