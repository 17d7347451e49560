use trident_fuzz::light::account::{AccountMeta, Instruction, TridentAccount};
use trident_fuzz::light::light_client::{is_closed, AccountInfo, CallRoute, FuzzClientError, FuzzingProgramLight, LightClient};
use trident_fuzz::light::serialization_light::{deserialize_custom, get_duplicate_accounts, serialize_accounts_custom};
use trident_fuzz::pubkey::Pubkey;

fn key(b: u8) -> Pubkey {
    Pubkey::new_from_array([b; 32])
}

fn token_program() -> Pubkey {
    Pubkey::new_from_array(solana_sdk::pubkey::Pubkey::from_str_const("TokenkegQfeZyiNwAJbNbGKPFXCWuBvf9Ss623VQ5DA").to_bytes())
}

fn client_with(program: Pubkey) -> LightClient {
    LightClient::new(&[FuzzingProgramLight::new("prog", &program, true)]).unwrap()
}

#[test]
fn new_client_loads_system_user_and_token_programs() {
    let client = client_with(key(9));
    assert_eq!(client.programs.len(), 3);
    assert_eq!(client.programs[0], key(9));
    assert_eq!(client.programs[1], token_program());
    for k in [Pubkey::default(), key(9), token_program()] {
        let a = client.get_account(&k).unwrap();
        assert!(a.executable);
        assert_eq!(a.lamports, 890_880);
        assert!(a.data.is_empty());
    }
}

#[test]
fn new_client_refuses_a_program_without_entrypoint() {
    let r = LightClient::new(&[FuzzingProgramLight::new("prog", &key(9), false)]);
    assert!(matches!(r, Err(FuzzClientError::NotImplemnted)));
}

#[test]
fn sysvar_accounts_hold_their_data_and_rent() {
    let mut client = client_with(key(9));
    client.add_sysvar(key(30), &[0u8; 40]);
    let a = client.get_account(&key(30)).unwrap();
    assert_eq!(a.lamports, (128 + 40) * 6960);
    assert_eq!(a.data, vec![0u8; 40]);
    assert!(!a.executable);
    assert_eq!(
        a.owner.to_bytes(),
        solana_sdk::pubkey::Pubkey::from_str_const("Sysvar1111111111111111111111111111111111111").to_bytes()
    );
}

#[test]
fn set_then_get_gives_the_account_back() {
    let mut client = client_with(key(9));
    client.set_account_custom(&key(40), TridentAccount::new(77, 3, &key(41)));
    let a = client.get_account(&key(40)).unwrap();
    assert_eq!(a.lamports, 77);
    assert_eq!(a.data, vec![0, 0, 0]);
    assert_eq!(a.owner, key(41));
    assert!(client.get_account(&key(42)).is_none());
}

#[test]
fn set_account_stores_a_fresh_keypair_account() {
    let mut client = client_with(key(9));
    let kp = client.set_account(5_000);
    let a = client.get_account(&kp.pubkey()).unwrap();
    assert_eq!(a.lamports, 5_000);
    assert!(a.data.is_empty());
    assert_eq!(a.owner, Pubkey::default());
    let sdk_kp = solana_sdk::signer::keypair::Keypair::new_from_array(kp.secret);
    assert_eq!(kp.pubkey().to_bytes(), solana_sdk::signer::Signer::pubkey(&sdk_kp).to_bytes());
}

fn info(k: Pubkey, writable: bool, lamports: u64, data: Vec<u8>, owner: Pubkey) -> AccountInfo {
    AccountInfo { key: k, is_signer: false, is_writable: writable, lamports, data, owner, executable: false }
}

#[test]
fn taking_back_accounts_after_a_call() {
    let mut client = client_with(key(9));
    client.set_account_custom(&key(50), TridentAccount::new(10, 0, &Pubkey::default()));
    client.set_account_custom(&key(51), TridentAccount::new(10, 2, &key(9)));
    client.set_account_custom(&key(52), TridentAccount::new(10, 0, &Pubkey::default()));
    let infos = vec![
        info(key(50), true, 0, vec![], Pubkey::default()),
        info(key(51), true, 4, vec![1, 2, 3], key(9)),
        info(key(52), false, 0, vec![], Pubkey::default()),
        info(key(53), true, 8, vec![9], key(9)),
    ];
    assert!(is_closed(&infos[0]));
    assert!(!is_closed(&infos[1]));
    client.post_ix_accounts_update(&infos);
    assert!(client.get_account(&key(50)).is_none());
    let a = client.get_account(&key(51)).unwrap();
    assert_eq!((a.lamports, a.data.clone()), (4, vec![1, 2, 3]));
    assert_eq!(client.get_account(&key(52)).unwrap().lamports, 10);
    let fresh = client.get_account(&key(53)).unwrap();
    assert_eq!((fresh.lamports, fresh.data.clone(), fresh.owner), (8, vec![9], key(9)));
}

#[test]
fn routing_of_instructions() {
    let client = client_with(key(9));
    assert_eq!(client.route(&key(9)), CallRoute::Entrypoint);
    assert_eq!(client.route(&Pubkey::default()), CallRoute::SystemProgram);
    assert_eq!(client.route(&key(8)), CallRoute::NotFound);
}

#[test]
fn accounts_are_serialized_for_a_call_and_read_back() {
    let mut client = client_with(key(9));
    client.set_account_custom(&key(60), TridentAccount::new(1234, 5, &key(9)));
    let mut ix = Instruction {
        program_id: key(9),
        accounts: vec![
            AccountMeta { pubkey: key(60), is_signer: false, is_writable: true },
            AccountMeta { pubkey: key(61), is_signer: true, is_writable: false },
            AccountMeta { pubkey: key(60), is_signer: true, is_writable: false },
        ],
        data: vec![],
    };
    let dedup = get_duplicate_accounts(&mut ix.accounts);
    assert!(ix.accounts[0].is_signer && ix.accounts[0].is_writable);
    let accounts = client.pre_ix_accounts(&ix.accounts);
    assert!(accounts[0].is_some() && accounts[1].is_none());
    let mut buffer = serialize_accounts_custom(&ix, &dedup, &accounts);
    assert_eq!(&buffer[0..8], &3u64.to_le_bytes());
    let parsed = deserialize_custom(&mut buffer).unwrap();
    assert_eq!(parsed.len(), 3);
    assert_eq!(parsed[2].key, key(60));
    assert_eq!(parsed[2].offset, parsed[0].offset);
    assert!(parsed[2].is_signer && parsed[2].is_writable);
    assert_eq!(parsed[2].lamports, 1234);
    assert!(parsed[1].is_signer && !parsed[1].is_writable);
    assert_eq!(parsed[0].key, key(60));
    assert_eq!(parsed[0].lamports, 1234);
    assert_eq!(parsed[0].data_len, 5);
    assert!(parsed[0].is_signer && parsed[0].is_writable);
    assert_eq!(parsed[1].key, key(61));
    assert_eq!(parsed[1].lamports, 0);
    let copies = client.get_accounts(&ix.accounts);
    assert_eq!(copies.len(), 3);
    assert!(copies[1].is_none());
}

#[test]
fn new_client_stores_the_rent_and_clock_sysvars() {
    let client = client_with(key(9));
    let rent_key = Pubkey::new_from_array(solana_sdk::sysvar::rent::id().to_bytes());
    let rent = client.get_account(&rent_key).unwrap();
    let mut want = vec![0x98u8, 0x0d, 0, 0, 0, 0, 0, 0, 0, 0, 0, 0, 0, 0, 0, 0x40, 50];
    want.resize(24, 0);
    assert_eq!(rent.data, want);
    assert_eq!(rent.lamports, (128 + 24) * 6960);
    let decoded: solana_sdk::rent::Rent = solana_sdk::account::from_account(&solana_sdk::account::Account {
        lamports: rent.lamports,
        data: rent.data.clone(),
        owner: solana_sdk::sysvar::id(),
        executable: false,
        rent_epoch: 0,
    })
    .unwrap();
    assert_eq!(decoded, solana_sdk::rent::Rent::default());
    let clock_key = Pubkey::new_from_array(solana_sdk::sysvar::clock::id().to_bytes());
    let clock = client.get_account(&clock_key).unwrap();
    assert_eq!(clock.data, vec![0u8; 40]);
    assert_eq!(clock.lamports, (128 + 40) * 6960);
    assert!(!clock.executable);
}
