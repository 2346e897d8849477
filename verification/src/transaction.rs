//! Contract transactions: validation against the sender's account, and their
//! processing into receipts by the runtime.

use vstd::prelude::*;
use crate::address::ContractAddress;
use crate::error::{ContractError, error_message};
use crate::executor::{ExecutionResult, opt_message};
use crate::gas::{saturate, Gas};
use crate::runtime::{BlockInfo, ContractRuntime, DeployResult, gas_min, block_begun, block_ended, runtime_call_effect, runtime_deploy_effect};
use crate::text::{contains_str, decimal, occurs_in, push_decimal};
use crate::types::{ContractCall, ContractDeploy, ContractPayload, ContractReceipt, ExecutionStatus};

verus! {

broadcast use ContractAddress::lemma_view_len;

/// A contract transaction.
#[derive(Debug, Clone)]
pub struct ContractTransaction {
    /// Transaction hash
    pub hash: crate::digest::Hash,
    /// Sender address
    pub from: ContractAddress,
    /// Transaction nonce
    pub nonce: u64,
    /// Gas price (in sompis per gas)
    pub gas_price: u64,
    /// Gas limit
    pub gas_limit: Gas,
    /// Contract payload
    pub payload: ContractPayload,
}

/// The value a payload sends.
pub open spec fn payload_value(p: ContractPayload) -> u64 {
    match p {
        ContractPayload::Deploy(d) => d.value,
        ContractPayload::Call(c) => c.value,
    }
}

/// The most a transaction can pay for gas: price times limit, saturating.
pub open spec fn max_fee_spec(tx: ContractTransaction) -> u64 {
    saturate(tx.gas_price * tx.gas_limit) as u64
}

/// What the sender must hold: the maximal fee plus the value, saturating.
pub open spec fn required_balance(tx: ContractTransaction) -> u64 {
    saturate(max_fee_spec(tx) + payload_value(tx.payload)) as u64
}

/// The message of a nonce mismatch.
pub open spec fn nonce_message(expected: u64, got: u64) -> Seq<char> {
    "Invalid nonce: expected "@ + decimal(expected as nat) + ", got "@ + decimal(got as nat)
}

/// Whether `tx` passes validation against the sender's balance and nonce.
pub open spec fn tx_valid(tx: ContractTransaction, balance: u64, nonce: u64) -> bool {
    tx.nonce == nonce && balance >= required_balance(tx) && tx.gas_limit != 0
}

/// Whether `r` is the outcome of validating `tx`: the nonce is checked first,
/// then the balance, then the gas limit.
pub open spec fn validation_matches(tx: ContractTransaction, balance: u64, nonce: u64, r: Result<(), ContractError>) -> bool {
    if tx.nonce != nonce {
        r matches Err(ContractError::InvalidArguments(m)) && m@ == nonce_message(nonce, tx.nonce)
    } else if balance < required_balance(tx) {
        r == Err::<(), ContractError>(ContractError::InsufficientBalance { required: required_balance(tx), available: balance })
    } else if tx.gas_limit == 0 {
        r matches Err(ContractError::InvalidArguments(m)) && m@ == "Gas limit cannot be zero"@
    } else {
        r is Ok
    }
}

impl ContractTransaction {
    /// A deployment transaction.
    pub fn deploy(
        hash: crate::digest::Hash,
        from: ContractAddress,
        nonce: u64,
        gas_price: u64,
        gas_limit: Gas,
        code: Vec<u8>,
        init_data: Vec<u8>,
        value: u64,
    ) -> (r: Self)
        ensures
            r.hash == hash,
            r.from == from,
            r.nonce == nonce,
            r.gas_price == gas_price,
            r.gas_limit == gas_limit,
            r.payload matches ContractPayload::Deploy(d) && d.code@ == code@ && d.init_data@ == init_data@
                && d.gas_limit == gas_limit && d.value == value && d.salt is None,
    {
        ContractTransaction {
            hash,
            from,
            nonce,
            gas_price,
            gas_limit,
            payload: ContractPayload::Deploy(ContractDeploy::new(code, init_data, gas_limit, value)),
        }
    }

    /// A call transaction.
    pub fn call(
        hash: crate::digest::Hash,
        from: ContractAddress,
        nonce: u64,
        gas_price: u64,
        gas_limit: Gas,
        to: ContractAddress,
        data: Vec<u8>,
        value: u64,
    ) -> (r: Self)
        ensures
            r.hash == hash,
            r.from == from,
            r.nonce == nonce,
            r.gas_price == gas_price,
            r.gas_limit == gas_limit,
            r.payload matches ContractPayload::Call(c) && c.to == to && c.data@ == data@
                && c.gas_limit == gas_limit && c.value == value,
    {
        ContractTransaction {
            hash,
            from,
            nonce,
            gas_price,
            gas_limit,
            payload: ContractPayload::Call(ContractCall::new(to, data, gas_limit, value)),
        }
    }

    /// The target of a call, `None` for a deployment.
    pub fn to(&self) -> (r: Option<ContractAddress>)
        ensures
            match self.payload {
                ContractPayload::Deploy(_) => r is None,
                ContractPayload::Call(c) => r == Some(c.to),
            },
    {
        match &self.payload {
            ContractPayload::Deploy(_) => None,
            ContractPayload::Call(call) => Some(call.to),
        }
    }

    /// The value sent.
    pub fn value(&self) -> (r: u64)
        ensures
            r == payload_value(self.payload),
    {
        match &self.payload {
            ContractPayload::Deploy(d) => d.value,
            ContractPayload::Call(c) => c.value,
        }
    }

    /// The maximal gas fee: price times limit, saturating.
    pub fn max_fee(&self) -> (r: u64)
        ensures
            r == max_fee_spec(*self),
    {
        crate::gas::saturating_mul(self.gas_price, self.gas_limit)
    }

    /// Validates the transaction against the sender's balance and nonce.
    pub fn validate(&self, sender_balance: u64, sender_nonce: u64) -> (r: Result<(), ContractError>)
        ensures
            validation_matches(*self, sender_balance, sender_nonce, r),
            r is Ok <==> tx_valid(*self, sender_balance, sender_nonce),
    {
        if self.nonce != sender_nonce {
            let mut m = String::from_str("Invalid nonce: expected ");
            push_decimal(&mut m, sender_nonce);
            m.append(", got ");
            push_decimal(&mut m, self.nonce);
            return Err(ContractError::InvalidArguments(m));
        }
        let fee = self.max_fee();
        let required = fee.saturating_add(self.value());
        if sender_balance < required {
            return Err(ContractError::insufficient_balance(required, sender_balance));
        }
        if self.gas_limit == 0 {
            return Err(ContractError::InvalidArguments(String::from_str("Gas limit cannot be zero")));
        }
        Ok(())
    }
}

/// Whether `rc` is the receipt of a deployment that ended in `dr`: on success the
/// gas used and the new address; on failure all the gas and the error's message.
pub open spec fn deploy_receipt(tx: ContractTransaction, dr: Result<DeployResult, ContractError>, rc: ContractReceipt) -> bool {
    &&& rc.tx_hash == tx.hash
    &&& rc.return_data@.len() == 0
    &&& rc.logs@.len() == 0
    &&& match dr {
        Ok(d) => rc.status == ExecutionStatus::Success && rc.gas_used == d.gas_used && rc.contract_address == Some(d.address)
            && rc.error is None,
        Err(e) => rc.status == ExecutionStatus::Failed && rc.gas_used == tx.gas_limit && rc.contract_address is None
            && opt_message(rc.error) == Some(error_message(e)),
    }
}

/// Whether an execution failed by a revert: its error mentions "reverted".
pub open spec fn is_revert_result(res: ExecutionResult) -> bool {
    res.error matches Some(m) && occurs_in(m@, "reverted"@)
}

/// Whether `rc` is the receipt of a call whose execution gave `res`.
pub open spec fn call_receipt(tx: ContractTransaction, res: ExecutionResult, rc: ContractReceipt) -> bool {
    &&& rc.tx_hash == tx.hash
    &&& rc.gas_used == res.gas_used
    &&& rc.contract_address is None
    &&& if res.success {
        rc.status == ExecutionStatus::Success && rc.return_data@ == res.return_data@ && rc.logs@ == res.logs@ && rc.error is None
    } else if is_revert_result(res) {
        rc.status == ExecutionStatus::Reverted && rc.return_data@.len() == 0 && rc.logs@ == res.logs@
            && opt_message(rc.error) == opt_message(res.error)
    } else {
        rc.status == ExecutionStatus::Failed && rc.return_data@.len() == 0 && rc.logs@.len() == 0
            && opt_message(rc.error) == Some(match opt_message(res.error) { Some(m) => m, None => Seq::empty() })
    }
}

/// What `process` does with `tx` on runtime `before`, leaving `after` and
/// returning `r`: a transaction that fails validation against the sender's
/// account is refused and changes nothing; a deployment gives a receipt whatever
/// its outcome; a call gives a receipt of its execution, or the runtime's refusal.
pub open spec fn process_effect(
    before: ContractRuntime,
    after: ContractRuntime,
    tx: ContractTransaction,
    block_info: BlockInfo,
    r: Result<ContractReceipt, ContractError>,
) -> bool {
    &&& after.wf()
    &&& after.spec_config() == before.spec_config()
    &&& after.spec_block_gas_used() == before.spec_block_gas_used()
    &&& {
        let rt = before;
        let balance = rt.spec_accounts().get_spec(tx.from@).balance;
        let nonce = rt.spec_accounts().get_spec(tx.from@).nonce;
        if !tx_valid(tx, balance, nonce) {
            &&& r is Err && validation_matches(tx, balance, nonce, match r { Ok(_) => Ok(()), Err(e) => Err(e) })
            &&& after == rt
        } else {
            match tx.payload {
                ContractPayload::Deploy(d) => exists|dr: Result<DeployResult, ContractError>|
                    #[trigger] runtime_deploy_effect(rt, after, tx.from@, d.code@, d.init_data@, d.value, tx.gas_limit, block_info.number, dr)
                    && (r matches Ok(rc) && deploy_receipt(tx, dr, rc)),
                ContractPayload::Call(c) => exists|cr: Result<ExecutionResult, ContractError>|
                    #[trigger] runtime_call_effect(rt, after, c.to@, c.data@, tx.gas_limit, cr)
                    && match cr {
                        Ok(res) => r matches Ok(rc) && call_receipt(tx, res, rc),
                        Err(e) => r == Err::<ContractReceipt, ContractError>(e),
                    },
            }
        }
    }
}

/// `states` is a run of a batch: the block begins on `before`, each transaction
/// is processed on the state the previous one left, giving its result, and the
/// block ends in `after`.
pub open spec fn batch_run(
    before: ContractRuntime,
    after: ContractRuntime,
    txs: Seq<ContractTransaction>,
    block_info: BlockInfo,
    results: Seq<Result<ContractReceipt, ContractError>>,
    states: Seq<ContractRuntime>,
) -> bool {
    &&& states.len() == txs.len() + 1
    &&& results.len() == txs.len()
    &&& block_begun(before, states[0])
    &&& forall|i: int| 0 <= i < txs.len() ==> #[trigger] process_effect(states[i], states[i + 1], txs[i], block_info, results[i])
    &&& block_ended(states[txs.len() as int], after)
}

/// Processes contract transactions on a runtime.
pub struct TransactionProcessor {
    runtime: ContractRuntime,
}

impl TransactionProcessor {
    /// The runtime.
    pub closed spec fn spec_runtime(&self) -> ContractRuntime {
        self.runtime
    }

    /// Creates a processor over a runtime.
    pub fn new(runtime: ContractRuntime) -> (r: Self)
        ensures
            r.spec_runtime() == runtime,
    {
        TransactionProcessor { runtime }
    }

    /// Processes a transaction: validates it against the sender's account, then
    /// deploys or calls. A failed deployment still gives a receipt (charging all
    /// the gas); a call that the runtime refuses gives its error.
    pub fn process(&mut self, tx: &ContractTransaction, block_info: BlockInfo) -> (r: Result<ContractReceipt, ContractError>)
        requires
            old(self).spec_runtime().wf(),
            tx_valid(*tx, old(self).spec_runtime().spec_accounts().get_spec(tx.from@).balance,
                old(self).spec_runtime().spec_accounts().get_spec(tx.from@).nonce)
                ==> old(self).spec_runtime().spec_block_gas_used()
                    + gas_min(tx.gas_limit, old(self).spec_runtime().spec_config().tx_gas_limit) <= u64::MAX,
        ensures
            process_effect(old(self).spec_runtime(), final(self).spec_runtime(), *tx, block_info, r),
    {
        let sender_balance = self.runtime.get_balance(&tx.from);
        let sender_nonce = self.runtime.get_nonce(&tx.from);
        match tx.validate(sender_balance, sender_nonce) {
            Ok(()) => {},
            Err(e) => {
                return Err(e);
            },
        }
        match &tx.payload {
            ContractPayload::Deploy(deploy) => self.process_deploy(tx, deploy, block_info),
            ContractPayload::Call(call) => self.process_call(tx, call, block_info),
        }
    }

    /// Deploys and turns the outcome into a receipt.
    fn process_deploy(&mut self, tx: &ContractTransaction, deploy: &ContractDeploy, block_info: BlockInfo) -> (r: Result<ContractReceipt, ContractError>)
        requires
            old(self).spec_runtime().wf(),
            old(self).spec_runtime().spec_block_gas_used()
                + gas_min(tx.gas_limit, old(self).spec_runtime().spec_config().tx_gas_limit) <= u64::MAX,
        ensures
            final(self).spec_runtime().wf(),
            final(self).spec_runtime().spec_config() == old(self).spec_runtime().spec_config(),
            final(self).spec_runtime().spec_block_gas_used() == old(self).spec_runtime().spec_block_gas_used(),
            exists|dr: Result<DeployResult, ContractError>|
                #[trigger] runtime_deploy_effect(old(self).spec_runtime(), final(self).spec_runtime(), tx.from@, deploy.code@, deploy.init_data@, deploy.value, tx.gas_limit, block_info.number, dr)
                && (r matches Ok(rc) && deploy_receipt(*tx, dr, rc)),
    {
        let code = deploy.code.clone();
        let init_data = deploy.init_data.clone();
        assert(code@ =~= deploy.code@);
        assert(init_data@ =~= deploy.init_data@);
        let result = self.runtime.deploy(tx.from, code, init_data, deploy.value, tx.gas_limit, block_info);
        let ghost dr = result;
        match result {
            Ok(deploy_result) => {
                let _fee = crate::gas::saturating_mul(tx.gas_price, deploy_result.gas_used);
                let rc = ContractReceipt::success(tx.hash, deploy_result.gas_used, Some(deploy_result.address), Vec::new(), Vec::new());
                assert(deploy_receipt(*tx, dr, rc));
                Ok(rc)
            },
            Err(e) => {
                let rc = ContractReceipt::failed(tx.hash, tx.gas_limit, e.to_string());
                assert(deploy_receipt(*tx, dr, rc));
                Ok(rc)
            },
        }
    }

    /// Calls and turns the execution result into a receipt: success, reverted (the
    /// error mentions "reverted") or failed.
    fn process_call(&mut self, tx: &ContractTransaction, call: &ContractCall, block_info: BlockInfo) -> (r: Result<ContractReceipt, ContractError>)
        requires
            old(self).spec_runtime().wf(),
            old(self).spec_runtime().spec_block_gas_used()
                + gas_min(tx.gas_limit, old(self).spec_runtime().spec_config().tx_gas_limit) <= u64::MAX,
        ensures
            final(self).spec_runtime().wf(),
            final(self).spec_runtime().spec_config() == old(self).spec_runtime().spec_config(),
            final(self).spec_runtime().spec_block_gas_used() == old(self).spec_runtime().spec_block_gas_used(),
            exists|cr: Result<ExecutionResult, ContractError>|
                #[trigger] runtime_call_effect(old(self).spec_runtime(), final(self).spec_runtime(), call.to@, call.data@, tx.gas_limit, cr)
                && match cr {
                    Ok(res) => r matches Ok(rc) && call_receipt(*tx, res, rc),
                    Err(e) => r == Err::<ContractReceipt, ContractError>(e),
                },
    {
        let data = call.data.clone();
        assert(data@ =~= call.data@);
        let result = self.runtime.call(tx.from, call.to, data, call.value, tx.gas_limit, block_info);
        let ghost cr = result;
        let result = match result {
            Ok(res) => res,
            Err(e) => {
                return Err(e);
            },
        };
        let ghost res = result;
        if result.success {
            let rc = ContractReceipt::success(tx.hash, result.gas_used, None, result.return_data, result.logs);
            assert(call_receipt(*tx, res, rc));
            return Ok(rc);
        }
        let reverted = match &result.error {
            Some(e) => contains_str(e.as_str(), "reverted"),
            None => false,
        };
        let message = match result.error {
            Some(e) => e,
            None => String::new(),
        };
        if reverted {
            let rc = ContractReceipt::reverted(tx.hash, result.gas_used, message, result.logs);
            assert(call_receipt(*tx, res, rc));
            Ok(rc)
        } else {
            let rc = ContractReceipt::failed(tx.hash, result.gas_used, message);
            assert(call_receipt(*tx, res, rc));
            Ok(rc)
        }
    }

    /// Processes a batch of transactions as one block: starts the block, processes
    /// each transaction in order on the state the previous ones left, and ends the
    /// block, committing what is pending. One outcome per transaction.
    pub fn process_batch(&mut self, txs: &[ContractTransaction], block_info: BlockInfo) -> (r: Vec<Result<ContractReceipt, ContractError>>)
        requires
            old(self).spec_runtime().wf(),
        ensures
            final(self).spec_runtime().wf(),
            final(self).spec_runtime().spec_config() == old(self).spec_runtime().spec_config(),
            final(self).spec_runtime().spec_block_gas_used() == 0,
            r@.len() == txs@.len(),
            exists|states: Seq<ContractRuntime>| #[trigger] batch_run(old(self).spec_runtime(), final(self).spec_runtime(), txs@, block_info, r@, states),
    {
        self.runtime.begin_block();
        let ghost start = self.runtime;
        let ghost mut states: Seq<ContractRuntime> = seq![self.runtime];
        let mut results: Vec<Result<ContractReceipt, ContractError>> = Vec::new();
        let mut i: usize = 0;
        while i < txs.len()
            invariant
                self.runtime.wf(),
                self.runtime.spec_config() == old(self).spec_runtime().spec_config(),
                self.runtime.spec_block_gas_used() == 0,
                i <= txs@.len(),
                results@.len() == i,
                states.len() == i + 1,
                states[0] == start,
                block_begun(old(self).spec_runtime(), start),
                states[i as int] == self.runtime,
                forall|k: int| 0 <= k < i ==> #[trigger] process_effect(states[k], states[k + 1], txs@[k], block_info, results@[k]),
            decreases txs@.len() - i,
        {
            let ghost before = self.runtime;
            let receipt = self.process(&txs[i], block_info);
            let ghost rc = receipt;
            results.push(receipt);
            proof {
                let prev = states;
                states = states.push(self.runtime);
                assert forall|k: int| 0 <= k < i + 1 implies #[trigger] process_effect(states[k], states[k + 1], txs@[k], block_info, results@[k]) by {
                    if k < i {
                        assert(states[k] == prev[k] && states[k + 1] == prev[k + 1]);
                        assert(process_effect(prev[k], prev[k + 1], txs@[k], block_info, results@[k]));
                    } else {
                        assert(states[k] == before && states[k + 1] == self.runtime);
                        assert(results@[k] == rc);
                    }
                }
            }
            i = i + 1;
        }
        self.runtime.end_block();
        proof {
            assert(batch_run(old(self).spec_runtime(), self.spec_runtime(), txs@, block_info, results@, states));
        }
        results
    }

    /// The runtime.
    pub fn runtime(&self) -> (r: &ContractRuntime)
        ensures
            *r == self.spec_runtime(),
    {
        &self.runtime
    }
}

} // verus!
