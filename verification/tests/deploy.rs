use ethcontract::abi::{count_words, encode_constructor_call, Abi, Argument, Constructor, Param, ParamKind, MAX_WORDS};
use ethcontract::bytecode::Bytecode;
use ethcontract::contract::deploy::{confirm, resolve, DeployBuilder, DeployFuture, DeployedFuture};
use ethcontract::contract::Instance;
use ethcontract::errors::DeployError;
use ethcontract::table::Table;
use ethcontract::transaction::{Receipt, TransactionBuilder};
use ethcontract::truffle::{Artifact, Network};
use ethcontract::types::{Address, U256};

fn param(name: &str, kind: ParamKind) -> Param {
    Param { name: name.to_string(), kind }
}

fn abi_with(inputs: Vec<Param>) -> Abi {
    Abi { constructor: Some(Constructor { inputs }) }
}

fn artifact(abi: Abi, code: &str, networks: &[(&str, [u8; 20])]) -> Artifact {
    let mut table = Table::new();
    for (id, address) in networks {
        table.insert(id.to_string(), Network { address: Address::new(*address) });
    }
    Artifact { abi, bytecode: Bytecode::from_hex_str(code).unwrap(), networks: table }
}

fn word(low: u16) -> Vec<u8> {
    let mut w = vec![0u8; 32];
    w[30] = (low >> 8) as u8;
    w[31] = (low & 0xff) as u8;
    w
}

fn placeholder_text(name: &str) -> String {
    format!("__{:_<38}", name)
}

#[test]
fn resolver_finds_the_address_of_the_connected_network() {
    let artifact = artifact(abi_with(vec![]), "6060", &[("3", [0x11; 20])]);
    let mut future = DeployedFuture::from_args("web3", artifact);
    assert!(future.pending());
    let outcome: Option<Result<Instance<&str>, DeployError<String>>> = future.poll(Some(Ok("3".to_string())));
    let instance = outcome.unwrap().unwrap();
    assert_eq!(instance.address, Address::new([0x11; 20]));
    assert_eq!(instance.web3, "web3");
    assert_eq!(instance.abi, abi_with(vec![]));
    assert!(!future.pending());
}

#[test]
fn resolver_fails_with_the_identifier_of_an_unknown_network() {
    let artifact = artifact(abi_with(vec![]), "6060", &[("3", [0x11; 20])]);
    let mut future = DeployedFuture::from_args("web3", artifact);
    let outcome: Option<Result<Instance<&str>, DeployError<String>>> = future.poll(Some(Ok("4".to_string())));
    match outcome {
        Some(Err(DeployError::NotFound(id))) => assert_eq!(id, "4"),
        other => panic!("unexpected outcome: {:?}", other),
    }
    assert!(!future.pending());
}

#[test]
fn resolver_matches_the_identifier_exactly() {
    for id in ["", "33", " 3", "3 ", "03", "0x3"] {
        let artifact = artifact(abi_with(vec![]), "", &[("3", [0x11; 20]), ("1", [0x22; 20])]);
        let outcome: Result<Instance<u8>, DeployError<String>> = resolve(7, artifact, Ok(id.to_string()));
        match outcome {
            Err(DeployError::NotFound(got)) => assert_eq!(got, id),
            other => panic!("unexpected outcome: {:?}", other),
        }
    }
    let artifact = artifact(abi_with(vec![]), "", &[("3", [0x11; 20]), ("1", [0x22; 20])]);
    assert_eq!(artifact.address_on(&"1".to_string()), Some(Address::new([0x22; 20])));
    assert_eq!(artifact.address_on(&"2".to_string()), None);
    let outcome: Result<Instance<u8>, DeployError<String>> = resolve(7, artifact, Ok("1".to_string()));
    assert_eq!(outcome.unwrap().address, Address::new([0x22; 20]));
}

#[test]
fn resolver_stays_pending_while_the_node_has_not_answered() {
    let artifact = artifact(abi_with(vec![]), "6060", &[("3", [0x11; 20])]);
    let mut future = DeployedFuture::from_args(1u8, artifact);
    for _ in 0..3 {
        let outcome: Option<Result<Instance<u8>, DeployError<String>>> = future.poll(None);
        assert!(outcome.is_none());
        assert!(future.pending());
    }
    let outcome: Option<Result<Instance<u8>, DeployError<String>>> = future.poll(Some(Ok("3".to_string())));
    assert_eq!(outcome.unwrap().unwrap().address, Address::new([0x11; 20]));
    assert!(!future.pending());
}

#[test]
fn resolver_hands_on_the_error_of_the_node() {
    let artifact = artifact(abi_with(vec![]), "6060", &[("3", [0x11; 20])]);
    let mut future = DeployedFuture::from_args(1u8, artifact);
    let outcome = future.poll(Some(Err("connection refused".to_string())));
    match outcome {
        Some(Err(DeployError::TransportFailure(error))) => assert_eq!(error, "connection refused"),
        other => panic!("unexpected outcome: {:?}", other),
    }
    assert!(!future.pending());
}

#[test]
fn resolver_gives_its_arguments_up_once() {
    let artifact = artifact(abi_with(vec![]), "6060", &[("3", [0x11; 20])]);
    let mut future = DeployedFuture::from_args(9u8, artifact);
    let (web3, artifact) = future.args();
    assert_eq!(web3, 9);
    assert_eq!(artifact.bytecode.as_bytes(), b"6060");
    assert!(!future.pending());
}

#[test]
fn words_are_counted_head_and_tail() {
    assert_eq!(count_words(&vec![], 0), Some(0));
    assert_eq!(count_words(&vec![Argument::Bool(true)], 1), Some(1));
    assert_eq!(count_words(&vec![Argument::Bool(true)], 0), None);
    assert_eq!(Argument::Uint(U256::from_u64(1)).words(10), Some(1));
    assert_eq!(Argument::Int(U256::from_u64(1)).words(10), Some(1));
    assert_eq!(Argument::Address(Address::new([0; 20])).words(10), Some(1));
    assert_eq!(Argument::FixedBytes(vec![]).words(10), Some(0));
    assert_eq!(Argument::FixedBytes(vec![1]).words(10), Some(1));
    assert_eq!(Argument::FixedBytes(vec![1; 32]).words(10), Some(1));
    assert_eq!(Argument::FixedBytes(vec![1; 33]).words(10), Some(2));
    assert_eq!(Argument::Bytes(vec![]).words(10), Some(2));
    assert_eq!(Argument::Bytes(vec![1; 64]).words(10), Some(4));
    assert_eq!(Argument::Bytes(vec![1; 65]).words(10), Some(5));
    assert_eq!(Argument::Bytes(vec![1; 65]).words(4), None);
    assert_eq!(Argument::String("héllo".to_string()).words(10), Some(3));
    assert_eq!(Argument::String("a".repeat(32)).words(10), Some(3));
    assert_eq!(Argument::String("é".repeat(17)).words(10), Some(4));
    assert_eq!(Argument::Array(vec![]).words(10), Some(2));
    assert_eq!(Argument::FixedArray(vec![]).words(10), Some(1));
    let nested = Argument::Array(vec![
        Argument::FixedArray(vec![Argument::Bool(true), Argument::Bool(false)]),
        Argument::Bytes(vec![7; 3]),
    ]);
    assert_eq!(nested.words(8), Some(8));
    assert_eq!(nested.words(7), None);
    assert_eq!(count_words(&vec![nested, Argument::Bool(true)], 9), Some(9));
    assert_eq!(MAX_WORDS, (1 << 27) - 1);
}

#[test]
fn arguments_are_encoded_as_the_constructor_takes_them() {
    let abi = abi_with(vec![param("x", ParamKind::Uint(256))]);
    let encoded = encode_constructor_call(&abi, &vec![Argument::Uint(U256::from_u64(42))]).unwrap();
    assert_eq!(encoded, word(42));

    let abi = abi_with(vec![param("owner", ParamKind::Address), param("on", ParamKind::Bool)]);
    let encoded =
        encode_constructor_call(&abi, &vec![Argument::Address(Address::new([0xab; 20])), Argument::Bool(true)])
            .unwrap();
    let mut expected = vec![0u8; 12];
    expected.extend([0xab; 20]);
    expected.extend(word(1));
    assert_eq!(encoded, expected);

    let abi = abi_with(vec![param("data", ParamKind::Bytes)]);
    let encoded = encode_constructor_call(&abi, &vec![Argument::Bytes(vec![1, 2, 3])]).unwrap();
    let mut expected = word(0x20);
    expected.extend(word(3));
    let mut data = vec![0u8; 32];
    data[..3].copy_from_slice(&[1, 2, 3]);
    expected.extend(data);
    assert_eq!(encoded, expected);
}

#[test]
fn arguments_of_every_kind_are_handed_to_the_encoder() {
    let abi = abi_with(vec![
        param("a", ParamKind::Int(256)),
        param("b", ParamKind::FixedBytes(2)),
        param("c", ParamKind::String),
        param("d", ParamKind::FixedArray(Box::new(ParamKind::Uint(8)), 2)),
        param("e", ParamKind::Array(Box::new(ParamKind::Bool))),
    ]);
    let arguments = vec![
        Argument::Int(U256 { limbs: [u64::MAX; 4] }),
        Argument::FixedBytes(vec![0xca, 0xfe]),
        Argument::String("hi".to_string()),
        Argument::FixedArray(vec![Argument::Uint(U256::from_u64(1)), Argument::Uint(U256 { limbs: [0, 1, 0, 0] })]),
        Argument::Array(vec![Argument::Bool(true)]),
    ];
    let encoded = encode_constructor_call(&abi, &arguments).unwrap();
    let mut expected = vec![0xff; 32];
    let mut fixed = vec![0u8; 32];
    fixed[0] = 0xca;
    fixed[1] = 0xfe;
    expected.extend(fixed);
    expected.extend(word(0xc0));
    expected.extend(word(1));
    let mut high = vec![0u8; 32];
    high[23] = 1;
    expected.extend(high);
    expected.extend(word(0x100));
    expected.extend(word(2));
    let mut text = vec![0u8; 32];
    text[0] = b'h';
    text[1] = b'i';
    expected.extend(text);
    expected.extend(word(1));
    expected.extend(word(1));
    assert_eq!(encoded, expected);
}

#[test]
fn encoder_refuses_arguments_that_do_not_fit_the_constructor() {
    let two = || abi_with(vec![param("a", ParamKind::Uint(256)), param("b", ParamKind::Bool)]);
    assert!(encode_constructor_call(&two(), &vec![Argument::Uint(U256::from_u64(1))]).is_err());
    assert!(encode_constructor_call(&two(), &vec![]).is_err());
    assert!(encode_constructor_call(
        &two(),
        &vec![Argument::Uint(U256::from_u64(1)), Argument::Bool(true), Argument::Bool(true)]
    )
    .is_err());
    assert!(encode_constructor_call(&two(), &vec![Argument::Bool(true), Argument::Uint(U256::from_u64(1))]).is_err());
    assert!(encode_constructor_call(&two(), &vec![Argument::Uint(U256::from_u64(1)), Argument::Bool(true)]).is_ok());
}

#[test]
fn interface_without_a_constructor_takes_no_arguments() {
    let none = Abi { constructor: None };
    assert_eq!(encode_constructor_call(&none, &vec![]).unwrap(), Vec::<u8>::new());
    assert!(encode_constructor_call(&none, &vec![Argument::Bool(true)]).is_err());
    assert_eq!(encode_constructor_call(&abi_with(vec![]), &vec![]).unwrap(), Vec::<u8>::new());
}

#[test]
fn builder_fails_at_once_on_too_few_arguments() {
    let abi = abi_with(vec![param("a", ParamKind::Uint(256)), param("b", ParamKind::Uint(256))]);
    let artifact = artifact(abi, "6060", &[]);
    let built: Result<DeployBuilder<u8>, DeployError<String>> =
        DeployBuilder::new(1, artifact, vec![Argument::Uint(U256::from_u64(1))]);
    assert!(matches!(built, Err(DeployError::AbiMismatch(_))));
}

#[test]
fn builder_fails_on_arguments_of_the_wrong_type() {
    let abi = abi_with(vec![param("a", ParamKind::Uint(256))]);
    let artifact = artifact(abi, "6060", &[]);
    let built: Result<DeployBuilder<u8>, DeployError<String>> =
        DeployBuilder::new(1, artifact, vec![Argument::Bool(true)]);
    assert!(matches!(built, Err(DeployError::AbiMismatch(_))));
}

#[test]
fn deployment_sends_linked_code_and_encoded_arguments() {
    let abi = abi_with(vec![param("x", ParamKind::Uint(256))]);
    let code = format!("6060{}6040", placeholder_text("Lib"));
    let artifact = artifact(abi, &code, &[]);
    let built: Result<DeployBuilder<&str>, DeployError<String>> =
        DeployBuilder::new("web3", artifact, vec![Argument::Uint(U256::from_u64(42))]);
    let builder = built.unwrap().link("Lib".to_string(), Address::new([0x22; 20]));
    let deployed: Result<(DeployFuture<&str>, TransactionBuilder), DeployError<String>> = builder.deploy();
    let (future, tx) = deployed.unwrap();
    let mut expected = vec![0x60, 0x60];
    expected.extend([0x22; 20]);
    expected.extend([0x60, 0x40]);
    let code_len = expected.len();
    expected.extend(word(42));
    assert_eq!(tx.data, expected);
    assert_eq!(&tx.data[code_len..], &word(42)[..]);
    assert!(!tx.data.contains(&b'_'));
    assert_eq!(tx.from, None);
    assert_eq!(tx.gas, None);
    assert_eq!(tx.value, None);
    assert!(future.pending());
}

#[test]
fn deployment_refuses_code_with_a_placeholder_left() {
    let code = format!("6060{}6040", placeholder_text("Lib"));
    let built: Result<DeployBuilder<u8>, DeployError<String>> =
        DeployBuilder::new(1, artifact(abi_with(vec![]), &code, &[]), vec![]);
    let deployed: Result<(DeployFuture<u8>, TransactionBuilder), DeployError<String>> = built.unwrap().deploy();
    assert!(matches!(deployed, Err(DeployError::UnresolvedLibraryPlaceholder)));

    let built: Result<DeployBuilder<u8>, DeployError<String>> =
        DeployBuilder::new(1, artifact(abi_with(vec![]), &code, &[]), vec![]);
    let builder = built.unwrap().link("Other".to_string(), Address::new([0x22; 20]));
    let deployed: Result<(DeployFuture<u8>, TransactionBuilder), DeployError<String>> = builder.deploy();
    assert!(matches!(deployed, Err(DeployError::UnresolvedLibraryPlaceholder)));
}

#[test]
fn deployment_links_the_address_last_given_for_a_name() {
    let code = placeholder_text("Lib");
    let built: Result<DeployBuilder<u8>, DeployError<String>> =
        DeployBuilder::new(1, artifact(abi_with(vec![]), &code, &[]), vec![]);
    let builder = built
        .unwrap()
        .link("Lib".to_string(), Address::new([0x11; 20]))
        .link("Lib".to_string(), Address::new([0x22; 20]));
    let deployed: Result<(DeployFuture<u8>, TransactionBuilder), DeployError<String>> = builder.deploy();
    assert_eq!(deployed.unwrap().1.data, vec![0x22; 20]);
}

#[test]
fn deployment_carries_the_options_of_the_transaction() {
    let built: Result<DeployBuilder<u8>, DeployError<String>> =
        DeployBuilder::new(1, artifact(Abi { constructor: None }, "60ff", &[]), vec![]);
    let builder = built
        .unwrap()
        .from(Address::new([0x0a; 20]))
        .gas(U256::from_u64(21000))
        .value(U256::from_u64(7));
    let deployed: Result<(DeployFuture<u8>, TransactionBuilder), DeployError<String>> = builder.deploy();
    let (_, tx) = deployed.unwrap();
    assert_eq!(
        tx,
        TransactionBuilder {
            from: Some(Address::new([0x0a; 20])),
            gas: Some(U256::from_u64(21000)),
            value: Some(U256::from_u64(7)),
            data: vec![0x60, 0xff],
        }
    );
}

#[test]
fn builder_takes_arguments_that_were_encoded_elsewhere() {
    let built: Result<DeployBuilder<u8>, DeployError<String>> =
        DeployBuilder::from_encoded(1, artifact(abi_with(vec![]), "6001", &[]), Ok(vec![1, 2, 3]));
    let deployed: Result<(DeployFuture<u8>, TransactionBuilder), DeployError<String>> = built.unwrap().deploy();
    assert_eq!(deployed.unwrap().1.data, vec![0x60, 0x01, 1, 2, 3]);
}

#[test]
fn transaction_setters_change_one_option_each() {
    let tx = TransactionBuilder::new();
    assert_eq!(tx, TransactionBuilder { from: None, gas: None, value: None, data: vec![] });
    let tx = tx.gas(U256::from_u64(5));
    assert_eq!(tx, TransactionBuilder { from: None, gas: Some(U256::from_u64(5)), value: None, data: vec![] });
    let tx = tx.data(vec![1]).from(Address::new([1; 20])).value(U256::zero());
    assert_eq!(
        tx,
        TransactionBuilder {
            from: Some(Address::new([1; 20])),
            gas: Some(U256::from_u64(5)),
            value: Some(U256::zero()),
            data: vec![1],
        }
    );
}

#[test]
fn deployment_resolver_reads_the_address_from_the_receipt() {
    let mut future = DeployFuture::from_args("web3", abi_with(vec![]));
    assert!(future.pending());
    let waiting: Option<Result<Instance<&str>, DeployError<String>>> = future.poll(None);
    assert!(waiting.is_none());
    assert!(future.pending());
    let outcome: Option<Result<Instance<&str>, DeployError<String>>> =
        future.poll(Some(Ok(Receipt { contract_address: Address::new([0x33; 20]) })));
    let instance = outcome.unwrap().unwrap();
    assert_eq!(instance.address, Address::new([0x33; 20]));
    assert_eq!(instance.web3, "web3");
    assert!(!future.pending());
}

#[test]
fn deployment_resolver_hands_on_the_error_of_the_node() {
    let mut future = DeployFuture::from_args(1u8, Abi { constructor: None });
    let outcome = future.poll(Some(Err(503u16)));
    assert!(matches!(outcome, Some(Err(DeployError::TransportFailure(503)))));
    assert!(!future.pending());
    let outcome: Result<Instance<u8>, DeployError<u16>> = confirm(1, Abi { constructor: None }, Err(7));
    assert!(matches!(outcome, Err(DeployError::TransportFailure(7))));
    let handle = Instance::at(1u8, Abi { constructor: None }, Address::new([5; 20]));
    assert_eq!(handle.address, Address::new([5; 20]));
    assert_eq!(handle.web3, 1);
}

#[test]
fn deployment_resolver_gives_its_arguments_up_once() {
    let mut future = DeployFuture::from_args(4u8, abi_with(vec![]));
    let (web3, abi) = future.args();
    assert_eq!(web3, 4);
    assert_eq!(abi, abi_with(vec![]));
    assert!(!future.pending());
}
