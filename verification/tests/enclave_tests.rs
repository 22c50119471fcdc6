use weigand_access::artifactory::enclave::{
    AuthConfig, AuthCredential, Enclave, EnclaveConfig, EnclaveError, EnclaveLoader,
};
use weigand_access::artifactory::hex::HexError;
use weigand_access::artifactory::keys::{weigand_to_key, Key, KeyConfig, Keys};
use weigand_access::io::backend::mock::{Controller, TEST_FRAME};
use weigand_access::io::reader::{ReaderAction, ReaderEvent, WeigandReader};
use weigand_access::io::weigand::Weigand;

fn key(name: &str, door_id: u32) -> Key {
    Key { name: name.to_string(), groups: vec![], door_id }
}

fn loader(auth_enabled: bool) -> EnclaveLoader {
    EnclaveLoader::new(
        EnclaveConfig { remote: String::new(), local: "./config".to_string() },
        KeyConfig { remote: String::new(), local: "./config/enclave_keys.json".to_string() },
        AuthConfig { is_enabled: auth_enabled, local: "./config/enclave_auth.json".to_string() },
    )
}

fn operator() -> AuthCredential {
    AuthCredential { username: "operator".to_string(), password: "secret".to_string() }
}

fn listing() -> Keys {
    Keys::new(vec![
        ("000000000102".to_string(), key("Ada", 1)),
        ("000000040407".to_string(), key("Grace", 2)),
    ])
}

#[test]
fn loader_hands_its_parts_back() {
    let loader = loader(true);
    assert_eq!(loader.config().local, "./config");
    assert_eq!(loader.key_config().local, "./config/enclave_keys.json");
    assert!(loader.auth_config().is_enabled);
    assert_eq!(loader.auth_config().local, "./config/enclave_auth.json");
}

#[test]
fn a_known_credential_is_found_with_its_identifier() {
    let enclave = Enclave::assemble(&loader(false), None, &listing()).unwrap();
    let credential = Weigand::new(0x8704_0404).unwrap();
    let (id, record) = enclave.weigand_auth_check(&credential).unwrap();
    assert_eq!(id, 263_175);
    assert_eq!(record.get_name(), "Grace");
    assert_eq!(record.get_door_id(), 2);
}

#[test]
fn an_unknown_credential_is_not_found() {
    let enclave = Enclave::assemble(&loader(false), None, &listing()).unwrap();
    let stranger = Weigand::new_unchecked(0x0000_0010);
    assert_eq!(weigand_to_key(&stranger), 16);
    assert!(enclave.weigand_auth_check(&stranger).is_none());
}

#[test]
fn the_same_question_gets_the_same_answer() {
    let enclave = Enclave::assemble(&loader(false), None, &listing()).unwrap();
    let known = Weigand::new(0x8704_0404).unwrap();
    let stranger = Weigand::new_unchecked(0);
    for _ in 0..5 {
        let (id, record) = enclave.weigand_auth_check(&known).unwrap();
        assert_eq!((id, record.get_name().as_str(), record.get_door_id()), (263_175, "Grace", 2));
        assert!(enclave.weigand_auth_check(&stranger).is_none());
    }
}

#[test]
fn an_empty_registry_knows_nobody() {
    let enclave = Enclave::new(None, std::collections::HashMap::new());
    assert!(enclave.weigand_auth_check(&Weigand::new(0x8704_0404).unwrap()).is_none());
}

#[test]
fn credentials_are_kept_only_where_asked_for() {
    let enclave = Enclave::assemble(&loader(true), Some(operator()), &listing()).unwrap();
    let kept = enclave.update_files().unwrap();
    assert_eq!(kept.username, "operator");
    assert_eq!(kept.password, "secret");

    let enclave = Enclave::assemble(&loader(false), Some(operator()), &listing()).unwrap();
    assert!(enclave.update_files().is_none());

    let enclave = Enclave::assemble(&loader(false), None, &listing()).unwrap();
    assert!(enclave.update_files().is_none());
}

#[test]
fn missing_credentials_fail_the_assembly() {
    let failed = Enclave::assemble(&loader(true), None, &listing());
    assert_eq!(failed.err(), Some(EnclaveError::MissingCredentials));
}

#[test]
fn a_bad_key_fails_the_assembly() {
    let bad = Keys::new(vec![("0000zz000102".to_string(), key("Ada", 1))]);
    let failed = Enclave::assemble(&loader(false), None, &bad);
    assert_eq!(failed.err(), Some(EnclaveError::BadKey(HexError::InvalidDigit { index: 0 })));
    // credentials are looked at before the keys
    let failed = Enclave::assemble(&loader(true), None, &bad);
    assert_eq!(failed.err(), Some(EnclaveError::MissingCredentials));
}

#[test]
fn new_enclave_holds_what_it_is_given() {
    let registry = listing().get_keys().unwrap();
    let enclave = Enclave::new(Some(operator()), registry);
    assert_eq!(enclave.update_files().unwrap().username, "operator");
    // facility code 2 and card number 64 make the identifier 64 * 4 + 2
    let credential = Weigand::new_unchecked((2 << 24) | (64 << 2));
    let (id, record) = enclave.weigand_auth_check(&credential).unwrap();
    assert_eq!(id, 258);
    assert_eq!(record.get_name(), "Ada");
    Enclave::run();
}

#[test]
fn duplicate_listing_leaves_one_record_in_the_registry() {
    let twice = Keys::new(vec![
        ("aaaa00040407".to_string(), key("first", 1)),
        ("bbbb00040407".to_string(), key("second", 2)),
    ]);
    assert_eq!(twice.duplicates(), vec![1]);
    assert_eq!(twice.get_keys().unwrap().len(), 1);
    let enclave = Enclave::assemble(&loader(false), None, &twice).unwrap();
    let (_, record) = enclave.weigand_auth_check(&Weigand::new(0x8704_0404).unwrap()).unwrap();
    assert_eq!(record.get_name(), "second");
}

#[test]
fn from_the_simulated_reader_to_the_registry() {
    let enclave = Enclave::assemble(&loader(false), None, &listing()).unwrap();
    let mut reader = WeigandReader::with_default_gap();
    let mut found = Vec::new();
    let mut now = 0u64;
    for (zero_line, one_line) in Controller::transmission(TEST_FRAME) {
        let bits = [
            WeigandReader::edge_to_bit(0, zero_line),
            WeigandReader::edge_to_bit(1, one_line),
        ];
        for bit in bits.into_iter().flatten() {
            now += 1_000_000;
            match reader.step(ReaderEvent::Bit { value: bit, at: now }).unwrap() {
                ReaderAction::Emit(credential) => {
                    let (id, record) = enclave.weigand_auth_check(&credential).unwrap();
                    found.push((id, record.get_name().clone()));
                }
                ReaderAction::Wait => {}
                ReaderAction::Reject(error) => panic!("rejected: {error:?}"),
            }
        }
    }
    assert_eq!(found, vec![(263_175, "Grace".to_string())]);
}
