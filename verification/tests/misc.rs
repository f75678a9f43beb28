use scalar::cli::{Commands, Level, LogDirective, NodeCommand, Verbosity};
use jsonrpsee::types::error;
use scalar::json_rpc_error::{self, Error};
use scalar::kv_store::{
    count_from_presence, count_from_record, get_next_key, init_plan, insert_plan, reservation_check, InnerKvError, KvError,
    StoreOp, StoredValue,
};
use scalar::messages_safe_client::PlainTransactionInfoResponse;
use scalar::scalar_ext::{ConsensusArgs, IpAddress, ScalarRethNodeCommandConfig, DEFAULT_CONSENSUS_PORT};
use scalar::swarm::validator_network_address;

type Answer = PlainTransactionInfoResponse<u8, u16, u32, u64, ()>;

#[test]
fn verbosity_levels() {
    let v = |n: u8| Verbosity { verbosity: n, quiet: false }.directive();
    assert_eq!(v(1), LogDirective::Level(Level::Error));
    assert_eq!(v(2), LogDirective::Level(Level::Warn));
    assert_eq!(v(3), LogDirective::Level(Level::Info));
    assert_eq!(v(4), LogDirective::Level(Level::Debug));
    assert_eq!(v(5), LogDirective::Level(Level::Trace));
    assert_eq!(v(200), LogDirective::Level(Level::Trace));
    assert_eq!(Verbosity { verbosity: 3, quiet: true }.directive(), LogDirective::Off);
    assert_eq!(Level::Debug.as_str(), "DEBUG");
}

#[test]
fn node_extension_is_set_on_the_node_command_only() {
    let mut c = Commands::Node(NodeCommand { ext: 1u32 });
    c.set_node_extension(5);
    assert!(matches!(c, Commands::Node(NodeCommand { ext: 5 })));
    let mut c: Commands<u32> = Commands::Init;
    c.set_node_extension(5);
    assert!(matches!(c, Commands::Init));
}

#[test]
fn json_rpc_error_classes() {
    let e = |code: i32| Error { code, message: "m".to_owned(), data: None };
    assert!(!e(-32001).is_call_error());
    assert!(e(-32700).is_call_error());
    for code in [-32700, -32007, -32602, -32600, -32601, -32005, -32002] {
        assert!(e(code).is_client_error());
    }
    assert!(!e(-32603).is_client_error());
    assert!(e(-32002).is_execution_error());
    assert!(e(-32050).is_transient_error());
    assert!(!e(-32002).is_transient_error());
    assert_eq!(e(-32700).to_string(), "code: '-32700', message: 'm'");
    assert_eq!(e(12).to_string(), "code: '12', message: 'm'");
    assert_eq!(e(i32::MIN).to_string(), format!("code: '{}', message: 'm'", i32::MIN));
}

#[test]
fn mnemonic_keys() {
    assert_eq!(get_next_key(0), ("mnemonic".to_owned(), 0));
    assert_eq!(get_next_key(1), ("mnemonic_1".to_owned(), 1));
    assert_eq!(get_next_key(12), ("mnemonic_12".to_owned(), 12));
}

#[test]
fn validator_addresses() {
    assert_eq!(validator_network_address(Some("10.0.0.1"), Some(8000), 2).unwrap(), "/ip4/10.0.0.1/tcp/8002/http");
    assert_eq!(validator_network_address(None, Some(9000), 0).unwrap(), "/ip4/127.0.0.1/tcp/9000/http");
    assert!(validator_network_address(Some("h"), None, 1).is_none());
}

#[test]
fn json_rpc_error_codes_are_those_of_the_rpc_library() {
    assert_eq!(json_rpc_error::UNKNOWN_ERROR_CODE, error::UNKNOWN_ERROR_CODE);
    assert_eq!(json_rpc_error::PARSE_ERROR_CODE, error::PARSE_ERROR_CODE);
    assert_eq!(json_rpc_error::OVERSIZED_REQUEST_CODE, error::OVERSIZED_REQUEST_CODE);
    assert_eq!(json_rpc_error::INVALID_PARAMS_CODE, error::INVALID_PARAMS_CODE);
    assert_eq!(json_rpc_error::INVALID_REQUEST_CODE, error::INVALID_REQUEST_CODE);
    assert_eq!(json_rpc_error::METHOD_NOT_FOUND_CODE, error::METHOD_NOT_FOUND_CODE);
    assert_eq!(json_rpc_error::BATCHES_NOT_SUPPORTED_CODE, error::BATCHES_NOT_SUPPORTED_CODE);
}

#[test]
fn json_rpc_errors_from_client_errors() {
    let e = Error::from_call_parts(Ok((-32602, "Invalid params".to_owned())));
    assert_eq!((e.code, e.message.as_str()), (-32602, "Invalid params"));
    assert!(e.data.is_none());
    assert!(e.is_client_error());
    let e = Error::from_call_parts(Err("RequestTimeout".to_owned()));
    assert_eq!((e.code, e.message.as_str()), (-32001, "RequestTimeout"));
    assert!(!e.is_call_error());
}

#[test]
fn consensus_settings() {
    let d = ConsensusArgs::default();
    assert!(!d.consensus_enable);
    assert_eq!(d.consensus_protocol, "narwhal");
    assert!(matches!(d.consensus_addr, IpAddress::V4([127, 0, 0, 1])));
    assert_eq!((d.consensus_port, d.consensus_blocktime, d.consensus_max_transactions), (8555, 12000, 2000));
    let (addr, port) = ScalarRethNodeCommandConfig::default().consensus_endpoint();
    assert!(matches!(addr, IpAddress::V4([127, 0, 0, 1])));
    assert_eq!(port, DEFAULT_CONSENSUS_PORT);
    let given = ConsensusArgs { consensus_addr: IpAddress::V4([10, 1, 2, 3]), consensus_port: 9000, ..ConsensusArgs::default() };
    let config = ScalarRethNodeCommandConfig { consensus: Some(given) };
    let (addr, port) = config.consensus_endpoint();
    assert!(matches!(addr, IpAddress::V4([10, 1, 2, 3])));
    assert_eq!(port, 9000);
}

#[test]
fn executed_transaction_answers() {
    assert!(!Answer::Signed(1).is_executed());
    assert!(Answer::ExecutedWithCert(2, 3, ()).is_executed());
    assert!(Answer::ExecutedWithoutCert(1, 3, ()).is_executed());
}

#[test]
fn mnemonic_bookkeeping() {
    assert_eq!(count_from_record(Ok(Some(Some(4)))), Some(Ok(4)));
    assert_eq!(count_from_record(Ok(Some(None))), Some(Err(KvError::GetErr(InnerKvError::DeserializationErr))));
    assert_eq!(count_from_record(Ok(None)), None);
    assert_eq!(count_from_record(Err("db".to_owned())), Some(Err(KvError::GetErr(InnerKvError::LogicalErr("db".to_owned())))));
    assert_eq!(count_from_presence::<()>(Ok(true)), 1);
    assert_eq!(count_from_presence::<()>(Ok(false)), 0);
    assert_eq!(count_from_presence::<()>(Err(())), 0);
    let key = "mnemonic".to_owned();
    assert_eq!(
        reservation_check::<()>(&key, Ok(true)),
        Err(KvError::ExistsErr(InnerKvError::LogicalErr("kv_manager key <mnemonic> already reserved.".to_owned())))
    );
    assert_eq!(reservation_check::<()>(&key, Ok(false)), Ok(()));
    assert_eq!(reservation_check::<()>(&key, Err(())), Ok(()));
}

#[test]
fn mnemonic_store_plans() {
    let plan = insert_plan(2, vec![9, 9]);
    assert_eq!(
        plan,
        vec![
            StoreOp::Reserve("mnemonic_2".to_owned()),
            StoreOp::Write("mnemonic_2".to_owned(), StoredValue::Entropy(vec![9, 9])),
            StoreOp::Remove("mnemonic_count".to_owned()),
            StoreOp::Reserve("mnemonic_count".to_owned()),
            StoreOp::Write("mnemonic_count".to_owned(), StoredValue::Count(3)),
        ]
    );
    assert!(init_plan(true, 0, vec![1]).is_empty());
    assert_eq!(init_plan(false, 0, vec![1])[0], StoreOp::Reserve("mnemonic".to_owned()));
}
