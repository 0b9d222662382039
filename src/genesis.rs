//! The genesis state, built from the initial deposits.
use vstd::prelude::*;

use crate::chain_spec::ChainSpec;
use crate::deposit::Deposit;
use crate::fork::Fork;
use crate::primitives::{Hash256, PublicKey, Signature};
use crate::records::{DepositData, DepositInput, Eth1Data, Validator};
use crate::state::BeaconState;

verus! {

/// Why the genesis state could not be built.
#[derive(Debug, Clone, Copy, PartialEq, Eq, Structural)]
pub enum BeaconStateError {
    /// A deposit failed validation.
    InvalidDeposit,
}

/// The registry entry that the deposit `d` makes at genesis: active from the
/// genesis epoch, never exiting.
pub open spec fn genesis_validator(d: DepositData, spec: ChainSpec) -> Validator {
    Validator {
        pubkey: d.deposit_input.pubkey,
        withdrawal_credentials: d.deposit_input.withdrawal_credentials,
        activation_epoch: spec.genesis_epoch,
        exit_epoch: spec.far_future_epoch,
    }
}

/// The data of each deposit of `ds`.
pub open spec fn deposit_datas(ds: Seq<Deposit>) -> Seq<DepositData> {
    ds.map_values(|d: Deposit| d.deposit_data)
}

/// The fork in force at genesis.
pub open spec fn genesis_fork(spec: ChainSpec) -> Fork {
    Fork {
        previous_version: spec.genesis_fork_version,
        current_version: spec.genesis_fork_version,
        epoch: spec.genesis_epoch,
    }
}

/// The state that genesis builds from the deposits `ds`: one validator per
/// deposit, in order, with the deposited amount as its balance.
pub open spec fn is_genesis_state(
    st: BeaconState,
    genesis_time: u64,
    ds: Seq<DepositData>,
    latest_eth1_data: Eth1Data,
    spec: ChainSpec,
) -> bool {
    &&& st.slot == spec.genesis_slot
    &&& st.genesis_time == genesis_time
    &&& st.fork == genesis_fork(spec)
    &&& st.validator_registry@.len() == ds.len()
    &&& st.validator_balances@.len() == ds.len()
    &&& forall|i: int|
        0 <= i < ds.len() ==> #[trigger] st.validator_registry@[i] == genesis_validator(
            ds[i],
            spec,
        ) && st.validator_balances@[i] == ds[i].amount
    &&& st.latest_eth1_data == latest_eth1_data
}

/// Builds the genesis state: each deposit, in order, adds a validator that is
/// active from the genesis epoch with the deposited amount as its balance,
/// and the fork is the genesis fork version throughout.
pub fn genesis_state(
    genesis_time: u64,
    deposits: &Vec<Deposit>,
    latest_eth1_data: Eth1Data,
    spec: &ChainSpec,
) -> (r: Result<BeaconState, BeaconStateError>)
    ensures
        r matches Ok(st) && is_genesis_state(
            st,
            genesis_time,
            deposit_datas(deposits@),
            latest_eth1_data,
            *spec,
        ),
{
    let ghost ds = deposit_datas(deposits@);
    let mut registry: Vec<Validator> = Vec::new();
    let mut balances: Vec<u64> = Vec::new();
    let count = deposits.len();
    let mut i: usize = 0;
    while i < count
        invariant
            i <= count,
            count == deposits@.len(),
            ds == deposit_datas(deposits@),
            registry@.len() == i,
            balances@.len() == i,
            forall|j: int|
                0 <= j < i ==> #[trigger] registry@[j] == genesis_validator(ds[j], *spec)
                    && balances@[j] == ds[j].amount,
        decreases count - i,
    {
        let d = deposits[i].deposit_data;
        registry.push(
            Validator {
                pubkey: d.deposit_input.pubkey,
                withdrawal_credentials: d.deposit_input.withdrawal_credentials,
                activation_epoch: spec.genesis_epoch,
                exit_epoch: spec.far_future_epoch,
            },
        );
        balances.push(d.amount);
        i = i + 1;
    }
    Ok(
        BeaconState {
            slot: spec.genesis_slot,
            genesis_time,
            fork: Fork {
                previous_version: spec.genesis_fork_version,
                current_version: spec.genesis_fork_version,
                epoch: spec.genesis_epoch,
            },
            validator_registry: registry,
            validator_balances: balances,
            latest_eth1_data,
        },
    )
}

/// Genesis over deposits of 32 ETH each gives one validator per deposit,
/// each active from the genesis epoch with a balance of 32 ETH in Gwei.
pub proof fn lemma_full_deposits_genesis(
    st: BeaconState,
    genesis_time: u64,
    deposits: Seq<Deposit>,
    latest_eth1_data: Eth1Data,
    spec: ChainSpec,
)
    requires
        forall|i: int| 0 <= i < deposits.len() ==> #[trigger] deposits[i].deposit_data.amount == 32_000_000_000,
        is_genesis_state(st, genesis_time, deposit_datas(deposits), latest_eth1_data, spec),
    ensures
        st.validator_registry@.len() == deposits.len(),
        st.validator_balances@.len() == deposits.len(),
        forall|i: int|
            0 <= i < deposits.len() ==> #[trigger] st.validator_balances@[i] == 32_000_000_000
                && st.validator_registry@[i].activation_epoch == spec.genesis_epoch
                && st.validator_registry@[i].pubkey == deposits[i].deposit_data.deposit_input.pubkey,
{
    assert forall|i: int| 0 <= i < deposits.len() implies #[trigger] st.validator_balances@[i] == 32_000_000_000
        && st.validator_registry@[i].activation_epoch == spec.genesis_epoch
        && st.validator_registry@[i].pubkey == deposits[i].deposit_data.deposit_input.pubkey by {
        assert(deposit_datas(deposits)[i] == deposits[i].deposit_data);
        assert(deposits[i].deposit_data.amount == 32_000_000_000);
        assert(st.validator_registry@[i] == genesis_validator(deposit_datas(deposits)[i], spec));
    }
}

/// The inputs of a genesis state.
pub struct BeaconStateTestBuilder {
    pub genesis_time: u64,
    pub initial_validator_deposits: Vec<Deposit>,
    pub latest_eth1_data: Eth1Data,
    pub spec: ChainSpec,
}

impl BeaconStateTestBuilder {
    /// Genesis inputs with one full deposit for each key and its proof of
    /// possession: 32 ETH in Gwei, made just before genesis, with zero
    /// withdrawal credentials, an empty branch and index 0.
    pub fn with_random_validators(keys: &Vec<(PublicKey, Signature)>) -> (r: BeaconStateTestBuilder)
        ensures
            r.genesis_time == 10_000_000,
            r.initial_validator_deposits@.len() == keys@.len(),
            forall|i: int|
                0 <= i < keys@.len() ==> {
                    let d = #[trigger] r.initial_validator_deposits@[i];
                    &&& d.branch@.len() == 0
                    &&& d.index == 0
                    &&& d.deposit_data.amount == 32_000_000_000
                    &&& d.deposit_data.timestamp == 10_000_000 - 1
                    &&& d.deposit_data.deposit_input.pubkey == keys@[i].0
                    &&& d.deposit_data.deposit_input.withdrawal_credentials.spec_is_zero()
                    &&& d.deposit_data.deposit_input.proof_of_possession == keys@[i].1
                },
            r.latest_eth1_data.deposit_root.spec_is_zero(),
            r.latest_eth1_data.block_hash.spec_is_zero(),
            r.spec.genesis_slot == 0,
            r.spec.genesis_epoch == 0,
            r.spec.genesis_fork_version == 0,
            r.spec.far_future_epoch == u64::MAX,
            r.spec.max_deposit_amount == 32_000_000_000,
            r.spec.zero_hash.spec_is_zero(),
            r.spec.empty_signature.spec_is_empty(),
    {
        let genesis_time: u64 = 10_000_000;
        let mut deposits: Vec<Deposit> = Vec::new();
        let n = keys.len();
        let mut i: usize = 0;
        while i < n
            invariant
                i <= n,
                n == keys@.len(),
                genesis_time == 10_000_000,
                deposits@.len() == i,
                forall|j: int|
                    0 <= j < i ==> {
                        let d = #[trigger] deposits@[j];
                        &&& d.branch@.len() == 0
                        &&& d.index == 0
                        &&& d.deposit_data.amount == 32_000_000_000
                        &&& d.deposit_data.timestamp == 10_000_000 - 1
                        &&& d.deposit_data.deposit_input.pubkey == keys@[j].0
                        &&& d.deposit_data.deposit_input.withdrawal_credentials.spec_is_zero()
                        &&& d.deposit_data.deposit_input.proof_of_possession == keys@[j].1
                    },
            decreases n - i,
        {
            let (pubkey, proof_of_possession) = keys[i];
            deposits.push(
                Deposit {
                    branch: Vec::new(),
                    index: 0,
                    deposit_data: DepositData {
                        amount: 32_000_000_000,
                        timestamp: genesis_time - 1,
                        deposit_input: DepositInput {
                            pubkey,
                            withdrawal_credentials: Hash256::zero(),
                            proof_of_possession,
                        },
                    },
                },
            );
            i = i + 1;
        }
        BeaconStateTestBuilder {
            genesis_time,
            initial_validator_deposits: deposits,
            latest_eth1_data: Eth1Data { deposit_root: Hash256::zero(), block_hash: Hash256::zero() },
            spec: ChainSpec::foundation(),
        }
    }

    /// The genesis state of these inputs.
    pub fn build(&self) -> (r: Result<BeaconState, BeaconStateError>)
        ensures
            r matches Ok(st) && is_genesis_state(
                st,
                self.genesis_time,
                deposit_datas(self.initial_validator_deposits@),
                self.latest_eth1_data,
                self.spec,
            ),
    {
        genesis_state(
            self.genesis_time,
            &self.initial_validator_deposits,
            self.latest_eth1_data,
            &self.spec,
        )
    }
}

} // verus!
