use counter::account::Account;
use counter::address::{counter_address, find_counter_address, same_key};
use counter::error::CounterError;
use counter::instruction::CounterInstruction;
use counter::processor::{CreateAccountRequest, Processor};
use counter::state::{CounterPDA, COUNTER_LEN};
use solana_program::pubkey::Pubkey;
use solana_program::rent::Rent;

const PROGRAM_ID: &str = "3ie3FnnMBYqS6nN6UQWDxs4FcrN2UsnrZPCWrnM5242z";

fn program_id() -> [u8; 32] {
    Pubkey::from_str_const(PROGRAM_ID).to_bytes()
}

fn system_id() -> [u8; 32] {
    solana_program::system_program::ID.to_bytes()
}

fn wallet(key: [u8; 32], lamports: u64) -> Account {
    Account {
        key,
        owner: system_id(),
        lamports,
        data: Vec::new(),
        is_signer: true,
        is_writable: true,
    }
}

fn blank(key: [u8; 32]) -> Account {
    Account {
        key,
        owner: system_id(),
        lamports: 0,
        data: Vec::new(),
        is_signer: false,
        is_writable: true,
    }
}

fn payer_key() -> [u8; 32] {
    [7u8; 32]
}

fn rent_exempt() -> u64 {
    Rent::default().minimum_balance(COUNTER_LEN)
}

/// Performs the allocation the way the system program does.
fn allocate(accounts: &mut Vec<Account>, req: &CreateAccountRequest) {
    let lamports = rent_exempt();
    assert!(accounts[0].key == req.payer);
    assert!(accounts[1].key == req.address);
    accounts[0].lamports -= lamports;
    accounts[1].lamports += lamports;
    accounts[1].data = vec![0u8; req.space as usize];
    accounts[1].owner = req.owner;
}

/// Runs Initialize for `payer` and returns the accounts and the counter's address.
fn init_counter(payer: [u8; 32]) -> (Vec<Account>, [u8; 32]) {
    let pid = program_id();
    let (pda, _bump) = find_counter_address(&payer, &pid).unwrap();
    let mut accounts = vec![wallet(payer, 5_000_000_000), blank(pda), blank(system_id())];
    let req = Processor::process(&pid, &mut accounts, &[0]).unwrap().unwrap();
    allocate(&mut accounts, &req);
    Processor::finish_initialize_counter(&mut accounts[1], req.bump).unwrap();
    (accounts, pda)
}

fn increment_payload(by: u64) -> Vec<u8> {
    let mut payload = vec![1u8];
    payload.extend_from_slice(&by.to_le_bytes());
    payload
}

fn stored(account: &Account) -> CounterPDA {
    CounterPDA::unpack_from_slice(&account.data).unwrap()
}

#[test]
fn test_initialize_counter() {
    let pid = program_id();
    let payer = payer_key();
    let (expected_pda, expected_bump) =
        Pubkey::find_program_address(&[b"counter", &payer], &Pubkey::new_from_array(pid));
    let (accounts, pda) = init_counter(payer);
    assert_eq!(pda, expected_pda.to_bytes());
    let record = stored(&accounts[1]);
    assert_eq!(record.value, 0);
    assert!(record.is_initialized());
    assert_eq!(record.bump, expected_bump);
    assert_eq!(accounts[1].owner, pid);
    assert_eq!(accounts[1].lamports, rent_exempt());
    assert_eq!(counter_address(&payer, record.bump, &pid), Some(pda));
}

#[test]
fn test_init_and_increment_counter() {
    let pid = program_id();
    let (mut accounts, _pda) = init_counter(payer_key());
    accounts.truncate(2);
    let r = Processor::process(&pid, &mut accounts, &increment_payload(101));
    assert_eq!(r, Ok(None));
    let record = stored(&accounts[1]);
    assert_eq!(record.value, 101);
    assert!(record.is_initialized);
}

#[test]
fn test_init_and_close_counter() {
    let pid = program_id();
    let payer = payer_key();
    let (mut accounts, pda) = init_counter(payer);
    let recipient = [9u8; 32];
    accounts[2] = blank(recipient);
    let r = Processor::process(&pid, &mut accounts, &[2]);
    assert_eq!(r, Ok(None));
    assert_eq!(accounts[2].lamports, rent_exempt());
    assert_eq!(accounts[1].lamports, 0);
    assert!(accounts[1].data.is_empty());
    assert_eq!(accounts[1].owner, system_id());

    // the same owner can initialize again at the same address
    let mut again = vec![accounts[0].clone(), accounts[1].clone(), blank(system_id())];
    let req = Processor::process(&pid, &mut again, &[0]).unwrap().unwrap();
    assert_eq!(req.address, pda);
    allocate(&mut again, &req);
    Processor::finish_initialize_counter(&mut again[1], req.bump).unwrap();
    assert_eq!(stored(&again[1]).value, 0);
}

#[test]
fn increment_twice_accumulates() {
    let pid = program_id();
    let (mut accounts, _pda) = init_counter(payer_key());
    Processor::process_increment_counter(&pid, &mut accounts, 40).unwrap();
    Processor::process_increment_counter(&pid, &mut accounts, 2).unwrap();
    assert_eq!(stored(&accounts[1]).value, 42);
    assert_eq!(accounts[1].data[8], 1);
}

#[test]
fn increment_overflow_keeps_max() {
    let pid = program_id();
    let (mut accounts, _pda) = init_counter(payer_key());
    Processor::process(&pid, &mut accounts, &increment_payload(u64::MAX)).unwrap();
    let before = accounts.clone();
    let r = Processor::process(&pid, &mut accounts, &increment_payload(1));
    assert_eq!(r, Err(CounterError::ArithmeticOverflow));
    assert_eq!(stored(&accounts[1]).value, u64::MAX);
    assert_eq!(accounts, before);
}

#[test]
fn increment_on_foreign_account_is_refused() {
    let pid = program_id();
    let (mut accounts, _pda) = init_counter(payer_key());
    accounts[1].owner = [3u8; 32];
    let before = accounts.clone();
    let r = Processor::process(&pid, &mut accounts, &increment_payload(5));
    assert_eq!(r, Err(CounterError::IncorrectProgramId));
    assert_eq!(accounts, before);
}

#[test]
fn close_on_foreign_account_is_refused() {
    let pid = program_id();
    let (mut accounts, _pda) = init_counter(payer_key());
    accounts[1].owner = system_id();
    let before = accounts.clone();
    let r = Processor::process(&pid, &mut accounts, &[2]);
    assert_eq!(r, Err(CounterError::IncorrectProgramId));
    assert_eq!(accounts, before);
}

#[test]
fn increment_by_another_payer_is_invalid_seeds() {
    let pid = program_id();
    let (mut accounts, _pda) = init_counter(payer_key());
    accounts[0].key = [8u8; 32];
    let before = accounts.clone();
    let r = Processor::process_increment_counter(&pid, &mut accounts, 1);
    assert_eq!(r, Err(CounterError::InvalidSeeds));
    assert_eq!(accounts, before);
}

#[test]
fn increment_on_short_data_is_invalid_account_data() {
    let pid = program_id();
    let (mut accounts, _pda) = init_counter(payer_key());
    accounts[1].data.truncate(9);
    let r = Processor::process_increment_counter(&pid, &mut accounts, 1);
    assert_eq!(r, Err(CounterError::InvalidAccountData));
}

#[test]
fn close_with_overflowing_recipient_changes_nothing() {
    let pid = program_id();
    let (mut accounts, _pda) = init_counter(payer_key());
    accounts[2] = blank([9u8; 32]);
    accounts[2].lamports = u64::MAX;
    let before = accounts.clone();
    let r = Processor::process_close_counter(&pid, &mut accounts);
    assert_eq!(r, Err(CounterError::ArithmeticOverflow));
    assert_eq!(accounts, before);
}

#[test]
fn missing_accounts_are_reported() {
    let pid = program_id();
    let mut one = vec![wallet(payer_key(), 10)];
    assert_eq!(
        Processor::process(&pid, &mut one, &increment_payload(1)),
        Err(CounterError::NotEnoughAccountKeys)
    );
    assert_eq!(Processor::process(&pid, &mut one, &[0]), Err(CounterError::NotEnoughAccountKeys));
    let (mut two, _pda) = init_counter(payer_key());
    two.truncate(2);
    assert_eq!(Processor::process(&pid, &mut two, &[2]), Err(CounterError::NotEnoughAccountKeys));
}

#[test]
fn initialize_request_names_the_allocation() {
    let pid = program_id();
    let payer = payer_key();
    let (pda, bump) = find_counter_address(&payer, &pid).unwrap();
    let accounts = vec![wallet(payer, 10), blank(pda), blank(system_id())];
    let req = Processor::process_initialize_counter(&pid, &accounts).unwrap();
    assert_eq!(req.payer, payer);
    assert_eq!(req.address, pda);
    assert_eq!(req.space, 10);
    assert_eq!(req.owner, pid);
    assert_eq!(req.bump, bump);
    assert_eq!(req.signer_seeds, vec![b"counter".to_vec(), payer.to_vec(), vec![bump]]);
}

#[test]
fn finish_initialize_on_short_data_fails() {
    let mut account = blank([1u8; 32]);
    account.data = vec![0u8; 9];
    assert_eq!(
        Processor::finish_initialize_counter(&mut account, 250),
        Err(CounterError::InvalidAccountData)
    );
    assert_eq!(account.data, vec![0u8; 9]);
}

#[test]
fn direct_mode_matches_search_mode() {
    let pid = program_id();
    for seed in 0u8..20 {
        let owner = [seed; 32];
        let (pda, bump) = find_counter_address(&owner, &pid).unwrap();
        assert_eq!(counter_address(&owner, bump, &pid), Some(pda));
        let direct = Pubkey::create_program_address(
            &[b"counter", &owner, &[bump]],
            &Pubkey::new_from_array(pid),
        )
        .unwrap();
        assert_eq!(pda, direct.to_bytes());
        assert_ne!(pda, owner);
    }
}

#[test]
fn same_key_compares_all_bytes() {
    let a = [1u8; 32];
    let mut b = a;
    assert!(same_key(&a, &b));
    b[31] = 2;
    assert!(!same_key(&a, &b));
}

#[test]
fn unpack_decodes_each_opcode() {
    assert_eq!(CounterInstruction::unpack(&[0]), Ok(CounterInstruction::InitializeCounter));
    assert_eq!(CounterInstruction::unpack(&[2]), Ok(CounterInstruction::CloseCounter));
    assert_eq!(
        CounterInstruction::unpack(&increment_payload(101)),
        Ok(CounterInstruction::IncrementCounter { increment_by: 101 })
    );
    assert_eq!(
        CounterInstruction::unpack(&[1, 1, 2, 0, 0, 0, 0, 0, 0]),
        Ok(CounterInstruction::IncrementCounter { increment_by: 513 })
    );
}

#[test]
fn unpack_rejects_malformed_payloads() {
    let bad = Err(CounterError::InvalidInstructionData);
    assert_eq!(CounterInstruction::unpack(&[]), bad);
    assert_eq!(CounterInstruction::unpack(&[3]), bad);
    assert_eq!(CounterInstruction::unpack(&[255, 0]), bad);
    assert_eq!(CounterInstruction::unpack(&[1, 0, 0, 0, 0, 0, 0, 0]), bad);
    assert_eq!(CounterInstruction::unpack(&[1, 0, 0, 0, 0, 0, 0, 0, 0, 0]), bad);
    assert_eq!(CounterInstruction::unpack(&[1]), bad);
}

#[test]
fn record_layout_is_exact() {
    let record = CounterPDA::new(0x0102030405060708, 254);
    let mut buf = vec![0xaau8; 12];
    record.pack_into_slice(&mut buf);
    assert_eq!(buf, vec![8, 7, 6, 5, 4, 3, 2, 1, 1, 254, 0xaa, 0xaa]);
}

#[test]
fn record_round_trips() {
    for record in [
        CounterPDA::new(0, 255),
        CounterPDA::new(u64::MAX, 1),
        CounterPDA { value: 77, is_initialized: false, bump: 0 },
    ] {
        let mut buf = vec![0u8; COUNTER_LEN];
        record.pack_into_slice(&mut buf);
        assert_eq!(CounterPDA::unpack_from_slice(&buf), Ok(record));
    }
}

#[test]
fn unpack_record_edges() {
    assert_eq!(
        CounterPDA::unpack_from_slice(&[0u8; 9]),
        Err(CounterError::InvalidAccountData)
    );
    let r = CounterPDA::unpack_from_slice(&[5, 0, 0, 0, 0, 0, 0, 0, 2, 9]).unwrap();
    assert_eq!(r, CounterPDA { value: 5, is_initialized: true, bump: 9 });
    let r = CounterPDA::unpack_from_slice(&[0, 0, 0, 0, 0, 0, 0, 0, 0, 9]).unwrap();
    assert!(!r.is_initialized());
}
