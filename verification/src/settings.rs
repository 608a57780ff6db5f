//! The settings of a chain and of the checkpoint storage, as the
//! configuration files give them, and what is read out of their texts.

use vstd::prelude::*;
use vstd::string::StringExecFns;
use crate::parsing::{parsed_address, parsed_u32, read_address, read_u32};
use crate::primitives::{padded_address, Address, H256};

verus! {

/// How an Ethereum node is reached.
#[derive(Clone, Debug, PartialEq, Eq)]
pub enum Connection {
    /// Over HTTP.
    Http { url: String },
    /// Over a websocket.
    Ws { url: String },
}

impl Default for Connection {
    fn default() -> (c: Connection)
        ensures
            c matches Connection::Http { url } && url@ == Seq::<char>::empty(),
    {
        Connection::Http { url: String::new() }
    }
}

/// A connection to some blockchain.
#[derive(Clone, Debug, PartialEq, Eq)]
pub enum ChainConf {
    /// Ethereum configuration.
    Ethereum(Connection),
}

impl Default for ChainConf {
    fn default() -> (c: ChainConf)
        ensures
            c matches ChainConf::Ethereum(Connection::Http { url }) && url@ == Seq::<char>::empty(),
    {
        ChainConf::Ethereum(Connection::default())
    }
}

/// Addresses for outbox chain contracts.
#[derive(Clone, Debug)]
pub struct OutboxAddresses {
    /// Address of the Outbox contract.
    pub outbox: String,
    /// Address of the InterchainGasPaymaster contract.
    pub interchain_gas_paymaster: String,
}

impl Default for OutboxAddresses {
    fn default() -> (a: OutboxAddresses)
        ensures
            a.outbox@ == Seq::<char>::empty(),
            a.interchain_gas_paymaster@ == Seq::<char>::empty(),
    {
        OutboxAddresses { outbox: String::new(), interchain_gas_paymaster: String::new() }
    }
}

/// Addresses for inbox chain contracts.
#[derive(Clone, Debug)]
pub struct InboxAddresses {
    /// Address of the Inbox contract.
    pub inbox: String,
    /// Address of the InboxValidatorManager contract.
    pub validator_manager: String,
}

impl Default for InboxAddresses {
    fn default() -> (a: InboxAddresses)
        ensures
            a.inbox@ == Seq::<char>::empty(),
            a.validator_manager@ == Seq::<char>::empty(),
    {
        InboxAddresses { inbox: String::new(), validator_manager: String::new() }
    }
}

/// What the metrics say of one contract.
#[derive(Clone, Debug, PartialEq, Eq)]
pub struct ContractInfo {
    /// A name for the contract.
    pub name: Option<String>,
}

/// Which contracts the metrics of a chain name.
#[derive(Clone, Debug, PartialEq, Eq)]
pub struct PrometheusMiddlewareConf {
    /// The contracts by address. `metrics_conf()` adds an entry only for an
    /// address that has none, so a list that holds no address twice stays
    /// so.
    pub contracts: Vec<(Address, ContractInfo)>,
}

/// Whether no address has two entries.
pub open spec fn named_once(contracts: Seq<(Address, ContractInfo)>) -> bool {
    forall|i: int, j: int|
        0 <= i < j < contracts.len() ==> (#[trigger] contracts[i]).0@ != (
        #[trigger] contracts[j]).0@
}

/// Whether the contracts hold an entry for the address.
pub open spec fn names_contract(contracts: Seq<(Address, ContractInfo)>, address: Seq<u8>) -> bool {
    exists|i: int| 0 <= i < contracts.len() && (#[trigger] contracts[i]).0@ == address
}

/// The contracts with one more entry, for the address that `text` stands
/// for and under `name`, unless `text` is no address or the contracts hold
/// an entry for it already.
pub open spec fn with_contract(
    contracts: Seq<(Address, ContractInfo)>,
    text: Seq<char>,
    name: Seq<char>,
    added: Seq<(Address, ContractInfo)>,
) -> bool {
    match parsed_address(text) {
        Some(address) => if names_contract(contracts, address) {
            added == contracts
        } else {
            &&& added.len() == contracts.len() + 1
            &&& added.drop_last() == contracts
            &&& added.last().0@ == address
            &&& added.last().1.name matches Some(n)
            &&& n@ == name
        },
        None => added == contracts,
    }
}

/// Adding a contract to a list that holds no address twice gives a list that
/// holds no address twice.
pub proof fn law_named_once_is_kept(
    contracts: Seq<(Address, ContractInfo)>,
    text: Seq<char>,
    name: Seq<char>,
    added: Seq<(Address, ContractInfo)>,
)
    requires
        named_once(contracts),
        with_contract(contracts, text, name, added),
    ensures
        named_once(added),
{
    if added != contracts {
        assert forall|i: int, j: int| 0 <= i < j < added.len() implies (#[trigger] added[i]).0@
            != (#[trigger] added[j]).0@ by {
            assert(added.drop_last()[i] == added[i]);
            if j < contracts.len() {
                assert(added.drop_last()[j] == added[j]);
            } else {
                assert(contracts[i].0@ != parsed_address(text)->0);
            }
        }
    }
}

/// A copy of the contracts.
fn copy_contracts(contracts: &Vec<(Address, ContractInfo)>) -> (out: Vec<(Address, ContractInfo)>)
    ensures
        out@ == contracts@,
{
    let mut out: Vec<(Address, ContractInfo)> = Vec::new();
    let mut i: usize = 0;
    while i < contracts.len()
        invariant
            i <= contracts.len(),
            out@ == contracts@.take(i as int),
        decreases contracts.len() - i,
    {
        let name = match &contracts[i].1.name {
            Some(n) => Some(n.clone()),
            None => None,
        };
        out.push((contracts[i].0, ContractInfo { name }));
        assert(out@ =~= contracts@.take(i + 1));
        i = i + 1;
    }
    assert(contracts@.take(contracts.len() as int) =~= contracts@);
    out
}

/// Adds an entry for the address that `text` stands for, under `name`,
/// unless `text` is no address or there is an entry for it already.
fn add_contract(contracts: &mut Vec<(Address, ContractInfo)>, text: &String, name: &str)
    ensures
        with_contract(old(contracts)@, text@, name@, final(contracts)@),
{
    match read_address(text) {
        Some(address) => {
            let mut i: usize = 0;
            while i < contracts.len()
                invariant
                    i <= contracts.len(),
                    *contracts == *old(contracts),
                    parsed_address(text@) == Some(address@),
                    forall|j: int| 0 <= j < i ==> (#[trigger] contracts@[j]).0@ != address@,
                decreases contracts.len() - i,
            {
                if contracts[i].0.same(&address) {
                    assert(names_contract(contracts@, address@));
                    return ;
                }
                i = i + 1;
            }
            contracts.push((address, ContractInfo { name: Some(String::from_str(name)) }));
            assert(contracts@.drop_last() =~= old(contracts)@);
        },
        None => {},
    }
}

/// Where a contract is: the chain's name, its domain and the contract's
/// address as a word.
#[derive(Clone, Debug, PartialEq, Eq)]
pub struct ContractLocator {
    pub chain_name: String,
    pub domain: u32,
    pub address: H256,
}

/// All that is needed to reach a contract.
#[derive(Clone, Debug)]
pub struct ContractSetup {
    /// How the chain is reached.
    pub chain: ChainConf,
    /// Where the contract is.
    pub locator: ContractLocator,
    /// Which contracts the chain's metrics name.
    pub metrics_conf: PrometheusMiddlewareConf,
}

/// All that is needed to reach a validator manager.
#[derive(Clone, Debug)]
pub struct ValidatorManagerSetup {
    /// The inbox that the validator manager serves.
    pub inbox_address: Address,
    /// How to reach the validator manager itself.
    pub setup: ContractSetup,
}

/// Why a chain's settings were refused.
#[derive(Clone, Copy, Debug, PartialEq, Eq, Structural)]
pub enum ChainSetupError {
    /// A text that should be a contract address is none.
    InvalidAddress,
}

/// A chain setup is a domain ID, the addresses of the contracts on that
/// chain and details for connecting to the chain API.
#[derive(Clone, Debug)]
pub struct ChainSetup<T> {
    /// Chain name.
    pub name: String,
    /// Chain domain identifier.
    pub domain: String,
    /// Number of blocks until finality.
    pub finality_blocks: String,
    /// Addresses of contracts on the chain.
    pub addresses: T,
    /// The chain connection details.
    pub chain: ChainConf,
    /// Set this key to disable the inbox. Does nothing for outboxes.
    pub disabled: Option<String>,
    /// Chain-specific metrics information. `metrics_conf()` adds the
    /// contract addresses of the chain to it.
    pub metrics_conf: PrometheusMiddlewareConf,
}

/// A copy of a connection.
fn copy_chain(chain: &ChainConf) -> (out: ChainConf)
    ensures
        out == *chain,
{
    match chain {
        ChainConf::Ethereum(Connection::Http { url }) => ChainConf::Ethereum(
            Connection::Http { url: url.clone() },
        ),
        ChainConf::Ethereum(Connection::Ws { url }) => ChainConf::Ethereum(
            Connection::Ws { url: url.clone() },
        ),
    }
}

/// Whether `res` is what the settings give for the contract whose address
/// `text` holds: the chain's connection, name and domain with the address as
/// a word, or an error where `text` is no address.
pub open spec fn is_setup_for<T>(
    chain_setup: ChainSetup<T>,
    text: Seq<char>,
    res: Result<ContractSetup, ChainSetupError>,
) -> bool {
    match parsed_address(text) {
        Some(address) => {
            &&& res matches Ok(setup)
            &&& setup.chain == chain_setup.chain
            &&& setup.locator.chain_name@ == chain_setup.name@
            &&& Some(setup.locator.domain) == parsed_u32(chain_setup.domain@)
            &&& setup.locator.address@ == padded_address(address)
        },
        None => res == Err::<ContractSetup, ChainSetupError>(ChainSetupError::InvalidAddress),
    }
}

impl<T> ChainSetup<T> {
    /// Get the number of blocks until finality.
    pub fn finality_blocks(&self) -> (blocks: u32)
        requires
            parsed_u32(self.finality_blocks@) is Some,
        ensures
            Some(blocks) == parsed_u32(self.finality_blocks@),
    {
        match read_u32(&self.finality_blocks) {
            Some(n) => n,
            None => 0,
        }
    }

    /// The number of blocks until finality, where the settings give one
    /// that can be read.
    pub fn checked_finality_blocks(&self) -> (blocks: Option<u32>)
        ensures
            blocks == parsed_u32(self.finality_blocks@),
    {
        match read_u32(&self.finality_blocks) {
            Some(_) => Some(self.finality_blocks()),
            None => None,
        }
    }

    /// The chain's domain, where the settings give one that can be read.
    pub fn checked_domain(&self) -> (domain: Option<u32>)
        ensures
            domain == parsed_u32(self.domain@),
    {
        read_u32(&self.domain)
    }

    /// The setup for the contract whose address `text` gives, with the
    /// given metrics configuration.
    fn setup_for(&self, text: &String, metrics_conf: PrometheusMiddlewareConf) -> (res: Result<
        ContractSetup,
        ChainSetupError,
    >)
        requires
            parsed_u32(self.domain@) is Some,
        ensures
            is_setup_for(*self, text@, res),
            res matches Ok(setup) ==> setup.metrics_conf == metrics_conf,
    {
        let chain_name = self.name.clone();
        let domain = match read_u32(&self.domain) {
            Some(d) => d,
            None => 0,
        };
        match read_address(text) {
            Some(address) => Ok(
                ContractSetup {
                    chain: copy_chain(&self.chain),
                    locator: ContractLocator {
                        chain_name,
                        domain,
                        address: H256::from_address(&address),
                    },
                    metrics_conf,
                },
            ),
            None => Err(ChainSetupError::InvalidAddress),
        }
    }
}

impl ChainSetup<OutboxAddresses> {
    /// Get a copy of the metrics conf with the outbox contract named in it.
    pub fn metrics_conf(&self) -> (cfg: PrometheusMiddlewareConf)
        ensures
            with_contract(
                self.metrics_conf.contracts@,
                self.addresses.outbox@,
                "outbox"@,
                cfg.contracts@,
            ),
    {
        let mut contracts = copy_contracts(&self.metrics_conf.contracts);
        add_contract(&mut contracts, &self.addresses.outbox, "outbox");
        PrometheusMiddlewareConf { contracts }
    }

    /// Try to convert the chain setting into the setup of an Outbox
    /// contract.
    pub fn try_into_outbox(&self) -> (res: Result<ContractSetup, ChainSetupError>)
        requires
            parsed_u32(self.domain@) is Some,
        ensures
            is_setup_for(*self, self.addresses.outbox@, res),
            res matches Ok(setup) ==> with_contract(
                self.metrics_conf.contracts@,
                self.addresses.outbox@,
                "outbox"@,
                setup.metrics_conf.contracts@,
            ),
    {
        let cfg = self.metrics_conf();
        self.setup_for(&self.addresses.outbox, cfg)
    }

    /// Try to convert the chain setting into the setup of an
    /// InterchainGasPaymaster contract.
    pub fn try_into_interchain_gas_paymaster(&self) -> (res: Result<
        ContractSetup,
        ChainSetupError,
    >)
        requires
            parsed_u32(self.domain@) is Some,
        ensures
            is_setup_for(*self, self.addresses.interchain_gas_paymaster@, res),
            res matches Ok(setup) ==> with_contract(
                self.metrics_conf.contracts@,
                self.addresses.outbox@,
                "outbox"@,
                setup.metrics_conf.contracts@,
            ),
    {
        let cfg = self.metrics_conf();
        self.setup_for(&self.addresses.interchain_gas_paymaster, cfg)
    }

    /// The setups of the outbox and of the gas paymaster, where the
    /// settings give a domain that can be read.
    pub fn checked_setups(&self) -> (res: Option<
        (Result<ContractSetup, ChainSetupError>, Result<ContractSetup, ChainSetupError>),
    >)
        ensures
            res is Some <==> parsed_u32(self.domain@) is Some,
            res matches Some(pair) ==> {
                &&& is_setup_for(*self, self.addresses.outbox@, pair.0)
                &&& is_setup_for(*self, self.addresses.interchain_gas_paymaster@, pair.1)
                &&& pair.0 matches Ok(setup) ==> with_contract(
                    self.metrics_conf.contracts@,
                    self.addresses.outbox@,
                    "outbox"@,
                    setup.metrics_conf.contracts@,
                )
                &&& pair.1 matches Ok(setup) ==> with_contract(
                    self.metrics_conf.contracts@,
                    self.addresses.outbox@,
                    "outbox"@,
                    setup.metrics_conf.contracts@,
                )
            },
    {
        match self.checked_domain() {
            Some(_) => Some((self.try_into_outbox(), self.try_into_interchain_gas_paymaster())),
            None => None,
        }
    }
}

impl ChainSetup<InboxAddresses> {
    /// Get a copy of the metrics conf with the inbox and the validator
    /// manager named in it.
    pub fn metrics_conf(&self) -> (cfg: PrometheusMiddlewareConf)
        ensures
            exists|between: Seq<(Address, ContractInfo)>|
                with_contract(
                    self.metrics_conf.contracts@,
                    self.addresses.inbox@,
                    "inbox"@,
                    between,
                ) && with_contract(
                    between,
                    self.addresses.validator_manager@,
                    "validator_manager"@,
                    cfg.contracts@,
                ),
    {
        let mut contracts = copy_contracts(&self.metrics_conf.contracts);
        add_contract(&mut contracts, &self.addresses.inbox, "inbox");
        let ghost between = contracts@;
        add_contract(&mut contracts, &self.addresses.validator_manager, "validator_manager");
        let cfg = PrometheusMiddlewareConf { contracts };
        assert(with_contract(
            self.metrics_conf.contracts@,
            self.addresses.inbox@,
            "inbox"@,
            between,
        ) && with_contract(
            between,
            self.addresses.validator_manager@,
            "validator_manager"@,
            cfg.contracts@,
        ));
        cfg
    }

    /// Try to convert the chain setting into the setup of an inbox
    /// contract. The metrics configuration is passed on as the settings
    /// give it.
    pub fn try_into_inbox(&self) -> (res: Result<ContractSetup, ChainSetupError>)
        requires
            parsed_u32(self.domain@) is Some,
        ensures
            is_setup_for(*self, self.addresses.inbox@, res),
            res matches Ok(setup) ==> setup.metrics_conf.contracts@
                == self.metrics_conf.contracts@,
    {
        let cfg = PrometheusMiddlewareConf {
            contracts: copy_contracts(&self.metrics_conf.contracts),
        };
        self.setup_for(&self.addresses.inbox, cfg)
    }

    /// Try to convert the chain setting into the setup of an
    /// InboxValidatorManager contract. The inbox address is read first: a
    /// text that is no address is refused before anything else is looked at.
    pub fn try_into_inbox_validator_manager(&self) -> (res: Result<
        ValidatorManagerSetup,
        ChainSetupError,
    >)
        requires
            parsed_address(self.addresses.inbox@) is Some ==> parsed_u32(self.domain@) is Some,
        ensures
            res is Ok <==> parsed_address(self.addresses.inbox@) is Some && parsed_address(
                self.addresses.validator_manager@,
            ) is Some,
            res matches Err(e) ==> e == ChainSetupError::InvalidAddress,
            res matches Ok(vm) ==> Some(vm.inbox_address@) == parsed_address(
                self.addresses.inbox@,
            ) && is_setup_for(
                *self,
                self.addresses.validator_manager@,
                Ok::<ContractSetup, ChainSetupError>(vm.setup),
            ) && vm.setup.metrics_conf.contracts@ == self.metrics_conf.contracts@,
    {
        let inbox_address = match read_address(&self.addresses.inbox) {
            Some(a) => a,
            None => {
                return Err(ChainSetupError::InvalidAddress);
            },
        };
        let cfg = PrometheusMiddlewareConf {
            contracts: copy_contracts(&self.metrics_conf.contracts),
        };
        match self.setup_for(&self.addresses.validator_manager, cfg) {
            Ok(setup) => Ok(ValidatorManagerSetup { inbox_address, setup }),
            Err(e) => Err(e),
        }
    }

    /// The setups of the inbox and of its validator manager, where the
    /// settings give a domain that can be read.
    pub fn checked_setups(&self) -> (res: Option<
        (Result<ContractSetup, ChainSetupError>, Result<ValidatorManagerSetup, ChainSetupError>),
    >)
        ensures
            res is Some <==> parsed_u32(self.domain@) is Some,
            res matches Some(pair) ==> {
                &&& is_setup_for(*self, self.addresses.inbox@, pair.0)
                &&& pair.0 matches Ok(setup) ==> setup.metrics_conf.contracts@
                    == self.metrics_conf.contracts@
                &&& pair.1 is Ok <==> parsed_address(self.addresses.inbox@) is Some
                    && parsed_address(self.addresses.validator_manager@) is Some
                &&& pair.1 matches Err(e) ==> e == ChainSetupError::InvalidAddress
                &&& pair.1 matches Ok(vm) ==> Some(vm.inbox_address@) == parsed_address(
                    self.addresses.inbox@,
                ) && is_setup_for(
                    *self,
                    self.addresses.validator_manager@,
                    Ok::<ContractSetup, ChainSetupError>(vm.setup),
                ) && vm.setup.metrics_conf.contracts@ == self.metrics_conf.contracts@
            },
    {
        match self.checked_domain() {
            Some(_) => Some((self.try_into_inbox(), self.try_into_inbox_validator_manager())),
            None => None,
        }
    }
}

/// Checkpoint syncer types.
#[derive(Clone, Debug)]
pub enum CheckpointSyncerConf {
    /// A local checkpoint syncer.
    LocalStorage {
        /// Path.
        path: String,
    },
    /// A checkpoint syncer on S3.
    S3 {
        /// Bucket name.
        bucket: String,
        /// S3 region.
        region: String,
    },
}

/// A directory that holds one file per checkpoint.
#[derive(Clone, Debug, PartialEq, Eq)]
pub struct LocalStorage {
    pub path: String,
}

/// A bucket that holds one object per checkpoint.
#[derive(Clone, Debug, PartialEq, Eq)]
pub struct S3Storage {
    pub bucket: String,
    pub region: String,
}

/// Checkpoint syncers.
#[derive(Clone, Debug, PartialEq, Eq)]
pub enum CheckpointSyncers {
    /// A local checkpoint syncer.
    Local(LocalStorage),
    /// A checkpoint syncer on S3.
    S3(S3Storage),
}

impl CheckpointSyncerConf {
    /// Turn the conf into the checkpoint syncer that it describes.
    pub fn try_into_checkpoint_syncer(&self) -> (res: Result<CheckpointSyncers, ChainSetupError>)
        ensures
            res matches Ok(syncer) && (match (*self, syncer) {
                (CheckpointSyncerConf::LocalStorage { path }, CheckpointSyncers::Local(local)) => {
                    local.path == path
                },
                (CheckpointSyncerConf::S3 { bucket, region }, CheckpointSyncers::S3(s3)) => {
                    s3.bucket == bucket && s3.region == region
                },
                _ => false,
            }),
    {
        match self {
            CheckpointSyncerConf::LocalStorage { path } => Ok(
                CheckpointSyncers::Local(LocalStorage { path: path.clone() }),
            ),
            CheckpointSyncerConf::S3 { bucket, region } => Ok(
                CheckpointSyncers::S3(S3Storage { bucket: bucket.clone(), region: region.clone() }),
            ),
        }
    }
}

} // verus!
