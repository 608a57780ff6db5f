use abacus_agents::accumulator::Prover;
use abacus_agents::checkpoint::{Checkpoint, MultisigSignedCheckpoint, Signature};
use abacus_agents::message::AbacusMessage;
use abacus_agents::parsing::{read_address, read_u32, read_u64};
use abacus_agents::primitives::{Address, H256};
use abacus_agents::settings::{
    ChainConf, ChainSetup, ChainSetupError, CheckpointSyncerConf, CheckpointSyncers, Connection,
    ContractInfo, ContractLocator, InboxAddresses, LocalStorage, OutboxAddresses,
    PrometheusMiddlewareConf, S3Storage,
};
use abacus_agents::validator_manager::{
    gas_limit, EthereumInboxValidatorManager, InboxValidatorManagerBuilder, GAS_MARGIN, U256,
};

const OUTBOX: &str = "0x00000000000000000000000000000000000000aa";
const PAYMASTER: &str = "00000000000000000000000000000000000000bb";
const INBOX: &str = "0x00000000000000000000000000000000000000cc";
const MANAGER: &str = "0x00000000000000000000000000000000000000dd";

fn tail(tag: u8) -> Address {
    let mut bytes = [0u8; 20];
    bytes[19] = tag;
    Address { bytes }
}

fn wordt(tag: u8) -> H256 {
    let mut bytes = [0u8; 32];
    bytes[31] = tag;
    H256 { bytes }
}

fn outbox_setup(outbox: &str, paymaster: &str, domain: &str) -> ChainSetup<OutboxAddresses> {
    ChainSetup {
        name: "alfajores".to_string(),
        domain: domain.to_string(),
        finality_blocks: "12".to_string(),
        addresses: OutboxAddresses {
            outbox: outbox.to_string(),
            interchain_gas_paymaster: paymaster.to_string(),
        },
        chain: ChainConf::Ethereum(Connection::Http { url: "http://node".to_string() }),
        disabled: None,
        metrics_conf: PrometheusMiddlewareConf { contracts: vec![] },
    }
}

fn inbox_setup(inbox: &str, manager: &str) -> ChainSetup<InboxAddresses> {
    ChainSetup {
        name: "kovan".to_string(),
        domain: "3000".to_string(),
        finality_blocks: "1".to_string(),
        addresses: InboxAddresses {
            inbox: inbox.to_string(),
            validator_manager: manager.to_string(),
        },
        chain: ChainConf::Ethereum(Connection::Ws { url: "ws://node".to_string() }),
        disabled: None,
        metrics_conf: PrometheusMiddlewareConf {
            contracts: vec![(tail(0x01), ContractInfo { name: Some("other".to_string()) })],
        },
    }
}

#[test]
fn numbers_are_read_from_decimal_text() {
    assert_eq!(read_u32(&"0".to_string()), Some(0));
    assert_eq!(read_u32(&"1000".to_string()), Some(1000));
    assert_eq!(read_u32(&"4294967295".to_string()), Some(u32::MAX));
    assert_eq!(read_u32(&"4294967296".to_string()), None);
    assert_eq!(read_u32(&"".to_string()), None);
    assert_eq!(read_u32(&"12a".to_string()), None);
    assert_eq!(read_u32(&"-1".to_string()), None);
    assert_eq!(read_u64(&"18446744073709551615".to_string()), Some(u64::MAX));
    assert_eq!(read_u64(&"5".to_string()), Some(5));
    assert_eq!(read_u64(&"five".to_string()), None);
    assert_eq!(read_u32(&"+7".to_string()), Some(7));
    assert_eq!(read_u32(&"+".to_string()), None);
    assert_eq!(read_u32(&"++7".to_string()), None);
    assert_eq!(read_u32(&"007".to_string()), Some(7));
    assert_eq!(read_u32(&"0000000000004294967295".to_string()), Some(u32::MAX));
    assert_eq!(read_u32(&"1_000".to_string()), None);
    assert_eq!(read_u32(&" 5".to_string()), None);
    assert_eq!(read_u32(&"5 ".to_string()), None);
    assert_eq!(read_u32(&"\u{0663}".to_string()), None);
    assert_eq!(read_u32(&"12".to_string()), Some(12));
    assert_eq!(read_u64(&"+18446744073709551615".to_string()), Some(u64::MAX));
    assert_eq!(read_u64(&"18446744073709551616".to_string()), None);
    assert_eq!(read_u64(&"".to_string()), None);
    assert_eq!(read_u64(&"-0".to_string()), None);
}

#[test]
fn addresses_are_read_from_hex_text() {
    assert_eq!(read_address(&OUTBOX.to_string()), Some(tail(0xaa)));
    assert_eq!(read_address(&PAYMASTER.to_string()), Some(tail(0xbb)));
    let mixed = "0xABCDEFabcdef0123456789ABCDEFabcdef012345".to_string();
    let expected = Address {
        bytes: [
            0xab, 0xcd, 0xef, 0xab, 0xcd, 0xef, 0x01, 0x23, 0x45, 0x67, 0x89, 0xab, 0xcd, 0xef,
            0xab, 0xcd, 0xef, 0x01, 0x23, 0x45,
        ],
    };
    assert_eq!(read_address(&mixed), Some(expected));
    assert_eq!(read_address(&"0x1234".to_string()), None);
    assert_eq!(read_address(&"".to_string()), None);
    assert_eq!(read_address(&format!("{}00", OUTBOX)), None);
    assert_eq!(read_address(&"0x00000000000000000000000000000000000000zz".to_string()), None);
}

#[test]
fn finality_blocks_are_parsed() {
    let setup = outbox_setup(OUTBOX, PAYMASTER, "1000");
    assert_eq!(setup.finality_blocks(), 12);
    assert_eq!(setup.checked_finality_blocks(), Some(12));
    assert_eq!(setup.checked_domain(), Some(1000));
    let mut bad = outbox_setup(OUTBOX, PAYMASTER, "x");
    bad.finality_blocks = "many".to_string();
    assert_eq!(bad.checked_finality_blocks(), None);
    assert_eq!(bad.checked_domain(), None);
}

#[test]
fn outbox_setup_locates_the_outbox() {
    let setup = outbox_setup(OUTBOX, PAYMASTER, "1000");
    let outbox = setup.try_into_outbox().unwrap();
    assert_eq!(outbox.chain, setup.chain);
    assert_eq!(
        outbox.locator,
        ContractLocator {
            chain_name: "alfajores".to_string(),
            domain: 1000,
            address: H256::from_address(&tail(0xaa)),
        }
    );
    assert_eq!(
        outbox.metrics_conf.contracts,
        vec![(tail(0xaa), ContractInfo { name: Some("outbox".to_string()) })]
    );
    let paymaster = setup.try_into_interchain_gas_paymaster().unwrap();
    assert_eq!(paymaster.locator.address, H256::from_address(&tail(0xbb)));
    assert_eq!(paymaster.locator.domain, 1000);
    assert_eq!(paymaster.metrics_conf.contracts, outbox.metrics_conf.contracts);
}

#[test]
fn bad_outbox_address_is_refused() {
    let setup = outbox_setup("nonsense", PAYMASTER, "1000");
    assert_eq!(setup.try_into_outbox().err(), Some(ChainSetupError::InvalidAddress));
    assert!(setup.try_into_interchain_gas_paymaster().is_ok());
    assert_eq!(setup.metrics_conf().contracts, vec![]);
    let other = outbox_setup(OUTBOX, "0x12", "1000");
    assert_eq!(
        other.try_into_interchain_gas_paymaster().err(),
        Some(ChainSetupError::InvalidAddress)
    );
}

#[test]
fn checked_setups_need_a_readable_domain() {
    assert!(outbox_setup(OUTBOX, PAYMASTER, "domain").checked_setups().is_none());
    let (outbox, paymaster) = outbox_setup(OUTBOX, "zz", "7").checked_setups().unwrap();
    assert_eq!(outbox.unwrap().locator.domain, 7);
    assert_eq!(paymaster.err(), Some(ChainSetupError::InvalidAddress));
    let mut inbox = inbox_setup(INBOX, MANAGER);
    inbox.domain = "".to_string();
    assert!(inbox.checked_setups().is_none());
    let (i, m) = inbox_setup(INBOX, MANAGER).checked_setups().unwrap();
    assert!(i.is_ok());
    assert!(m.is_ok());
}

#[test]
fn metrics_conf_names_a_contract_once() {
    let mut setup = outbox_setup(OUTBOX, PAYMASTER, "1000");
    setup.metrics_conf.contracts =
        vec![(tail(0xaa), ContractInfo { name: Some("mine".to_string()) })];
    assert_eq!(setup.metrics_conf().contracts, setup.metrics_conf.contracts);
    setup.metrics_conf.contracts = vec![(tail(0x01), ContractInfo { name: None })];
    assert_eq!(
        setup.metrics_conf().contracts,
        vec![
            (tail(0x01), ContractInfo { name: None }),
            (tail(0xaa), ContractInfo { name: Some("outbox".to_string()) }),
        ]
    );
}

#[test]
fn inbox_metrics_conf_names_inbox_and_validator_manager() {
    let setup = inbox_setup(INBOX, MANAGER);
    assert_eq!(
        setup.metrics_conf().contracts,
        vec![
            (tail(0x01), ContractInfo { name: Some("other".to_string()) }),
            (tail(0xcc), ContractInfo { name: Some("inbox".to_string()) }),
            (tail(0xdd), ContractInfo { name: Some("validator_manager".to_string()) }),
        ]
    );
    let same = inbox_setup(INBOX, INBOX);
    assert_eq!(same.metrics_conf().contracts.len(), 2);
    let none = inbox_setup("x", "y");
    assert_eq!(none.metrics_conf().contracts.len(), 1);
}

#[test]
fn inbox_setup_locates_inbox_and_validator_manager() {
    let setup = inbox_setup(INBOX, MANAGER);
    let inbox = setup.try_into_inbox().unwrap();
    assert_eq!(inbox.locator.address, H256::from_address(&tail(0xcc)));
    assert_eq!(inbox.locator.chain_name, "kovan");
    assert_eq!(inbox.locator.domain, 3000);
    assert_eq!(inbox.metrics_conf, setup.metrics_conf);
    let vm = setup.try_into_inbox_validator_manager().unwrap();
    assert_eq!(vm.inbox_address, tail(0xcc));
    assert_eq!(vm.setup.locator.address, H256::from_address(&tail(0xdd)));
    assert_eq!(vm.setup.chain, setup.chain);
    assert_eq!(vm.setup.metrics_conf, setup.metrics_conf);
}

#[test]
fn bad_inbox_addresses_are_refused() {
    assert_eq!(
        inbox_setup("bad", MANAGER).try_into_inbox().err(),
        Some(ChainSetupError::InvalidAddress)
    );
    assert_eq!(
        inbox_setup("bad", MANAGER).try_into_inbox_validator_manager().err(),
        Some(ChainSetupError::InvalidAddress)
    );
    assert_eq!(
        inbox_setup(INBOX, "bad").try_into_inbox_validator_manager().err(),
        Some(ChainSetupError::InvalidAddress)
    );
}

#[test]
fn defaults_are_empty() {
    assert_eq!(ChainConf::default(), ChainConf::Ethereum(Connection::Http { url: String::new() }));
    assert_eq!(Connection::default(), Connection::Http { url: String::new() });
    assert_eq!(OutboxAddresses::default().outbox, "");
    assert_eq!(OutboxAddresses::default().interchain_gas_paymaster, "");
    assert_eq!(InboxAddresses::default().inbox, "");
    assert_eq!(InboxAddresses::default().validator_manager, "");
}

#[test]
fn checkpoint_syncer_conf_becomes_its_syncer() {
    let local = CheckpointSyncerConf::LocalStorage { path: "/tmp/checkpoints".to_string() };
    assert_eq!(
        local.try_into_checkpoint_syncer(),
        Ok(CheckpointSyncers::Local(LocalStorage { path: "/tmp/checkpoints".to_string() }))
    );
    let s3 = CheckpointSyncerConf::S3 {
        bucket: "bucket".to_string(),
        region: "us-east-1".to_string(),
    };
    assert_eq!(
        s3.try_into_checkpoint_syncer(),
        Ok(CheckpointSyncers::S3(S3Storage {
            bucket: "bucket".to_string(),
            region: "us-east-1".to_string(),
        }))
    );
}

#[test]
fn gas_limit_adds_the_margin() {
    assert_eq!(GAS_MARGIN, 100_000);
    assert_eq!(gas_limit(&U256::from_u64(21_000)), U256::from_u64(121_000));
    assert_eq!(gas_limit(&U256::from_u64(0)), U256::from_u64(100_000));
    let carry = U256 { limbs: [u64::MAX, 0, 0, 0] };
    assert_eq!(gas_limit(&carry), U256 { limbs: [99_999, 1, 0, 0] });
    let top = U256 { limbs: [0, 0, 0, 7] };
    assert_eq!(gas_limit(&top), U256 { limbs: [100_000, 0, 0, 7] });
}

#[test]
fn gas_limit_saturates_at_the_largest_number() {
    let max = U256 { limbs: [u64::MAX; 4] };
    assert_eq!(gas_limit(&max), max);
    let near = U256 { limbs: [u64::MAX - 5, u64::MAX, u64::MAX, u64::MAX] };
    assert_eq!(gas_limit(&near), max);
    let just = U256 { limbs: [u64::MAX - 100_000, u64::MAX, u64::MAX, u64::MAX] };
    assert_eq!(gas_limit(&just), max);
    let below = U256 { limbs: [u64::MAX - 100_001, u64::MAX, u64::MAX, u64::MAX] };
    assert_eq!(gas_limit(&below), U256 { limbs: [u64::MAX - 1, u64::MAX, u64::MAX, u64::MAX] });
}

#[test]
fn process_call_carries_checkpoint_message_and_proof() {
    let locator = ContractLocator {
        chain_name: "kovan".to_string(),
        domain: 3000,
        address: H256::from_address(&tail(0xdd)),
    };
    let builder = InboxValidatorManagerBuilder { inbox_address: tail(0xcc) };
    let vm = builder.make_with_locator(&locator);
    assert_eq!(vm.contract, locator.address);
    assert_eq!(vm.domain, 3000);
    assert_eq!(vm.chain_name, "kovan");
    assert_eq!(vm.inbox_address, tail(0xcc));
    let direct = EthereumInboxValidatorManager::new(&locator, tail(0xcc));
    assert_eq!(direct.inbox_address, vm.inbox_address);

    let message = AbacusMessage {
        origin: 1000,
        sender: wordt(0x11),
        nonce: 0,
        destination: 3000,
        recipient: wordt(0x22),
        body: vec![1, 2, 3],
    };
    let mut prover = Prover::new();
    prover.ingest(message.to_leaf()).unwrap();
    prover.ingest(wordt(5)).unwrap();
    let proof = prover.prove(1).unwrap();
    let sig_a = Signature { r: wordt(1), s: wordt(2), v: 27 };
    let sig_b = Signature { r: wordt(3), s: wordt(4), v: 28 };
    let bundle = MultisigSignedCheckpoint {
        checkpoint: Checkpoint {
            outbox_domain: 1000,
            outbox_address: wordt(0xaa),
            root: prover.root(),
            index: 1,
        },
        signatures: vec![sig_a, sig_b],
    };
    let call = vm.process(&bundle, &message, &proof);
    assert_eq!(call.inbox, tail(0xcc));
    assert_eq!(call.root, prover.root());
    assert_eq!(call.index, 1);
    assert_eq!(call.signatures, vec![sig_a.to_vec(), sig_b.to_vec()]);
    assert_eq!(call.signatures[1][64], 28);
    assert_eq!(call.message, message.to_vec());
    assert_eq!(call.proof, proof.path);
    assert_eq!(call.leaf_index, 1);
}
