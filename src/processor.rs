use crate::account::{views, Account, AccountView};
use crate::address::{
    counter_address, counter_seeds, direct_address, find_counter_address, is_canonical_bump,
    same_key, search_fails, seeds_view, signer_seed_vecs,
};
use crate::error::CounterError;
use crate::instruction::{parse_instruction, CounterInstruction};
use crate::state::{encode, CounterPDA, COUNTER_LEN};
use vstd::bytes::{
    lemma_auto_spec_u64_to_from_le_bytes, spec_u64_from_le_bytes, spec_u64_to_le_bytes,
    u64_from_le_bytes, u64_to_le_bytes,
};
use vstd::prelude::*;
use vstd::slice::slice_subrange;

verus! {

/// The address of the system program, which owns every account that no
/// other program has claimed.
pub open spec fn system_program_key() -> Seq<u8> {
    Seq::new(32, |i: int| 0u8)
}

/// Relies on solana_program's `system_program::ID`, declared from the base58
/// text of 32 ones, which decodes to 32 zero bytes.
#[verifier::external_body]
fn system_program_id() -> (r: [u8; 32])
    ensures
        r@ == system_program_key(),
{
    solana_program::system_program::ID.to_bytes()
}

/// The counter value held in the first eight bytes of a record.
pub open spec fn stored_value(data: Seq<u8>) -> u64 {
    spec_u64_from_le_bytes(data.subrange(0, 8))
}

/// `data` with its first eight bytes replaced by the encoding of `v`.
pub open spec fn with_value(data: Seq<u8>, v: u64) -> Seq<u8> {
    spec_u64_to_le_bytes(v) + data.subrange(8, data.len() as int)
}

/// What Increment does to the accounts `[payer, counter, ..]`, or why it
/// fails.
pub open spec fn increment_result(program_id: Seq<u8>, accs: Seq<AccountView>, increment_by: u64) -> Result<
    Seq<AccountView>,
    CounterError,
> {
    if accs.len() < 2 {
        Err(CounterError::NotEnoughAccountKeys)
    } else if accs[1].owner != program_id {
        Err(CounterError::IncorrectProgramId)
    } else if accs[1].data.len() < COUNTER_LEN {
        Err(CounterError::InvalidAccountData)
    } else if direct_address(accs[0].key, accs[1].data[9], program_id) != Some(accs[1].key) {
        Err(CounterError::InvalidSeeds)
    } else if stored_value(accs[1].data) + increment_by > u64::MAX {
        Err(CounterError::ArithmeticOverflow)
    } else {
        Ok(
            accs.update(
                1,
                AccountView {
                    data: with_value(accs[1].data, (stored_value(accs[1].data) + increment_by) as u64),
                    ..accs[1]
                },
            ),
        )
    }
}

/// What Close does to the accounts `[payer, counter, recipient, ..]`, or why
/// it fails: the counter's data is released, its whole balance moves to the
/// recipient and the system program becomes its owner.
pub open spec fn close_result(program_id: Seq<u8>, accs: Seq<AccountView>) -> Result<
    Seq<AccountView>,
    CounterError,
> {
    if accs.len() < 2 {
        Err(CounterError::NotEnoughAccountKeys)
    } else if accs[1].owner != program_id {
        Err(CounterError::IncorrectProgramId)
    } else if accs.len() < 3 {
        Err(CounterError::NotEnoughAccountKeys)
    } else if accs[2].lamports + accs[1].lamports > u64::MAX {
        Err(CounterError::ArithmeticOverflow)
    } else {
        Ok(
            accs.update(
                1,
                AccountView { data: Seq::empty(), lamports: 0, owner: system_program_key(), ..accs[1] },
            ).update(
                2,
                AccountView { lamports: (accs[2].lamports + accs[1].lamports) as u64, ..accs[2] },
            ),
        )
    }
}

/// `accounts` became `new` where the operation succeeded, and stayed as they
/// were where it failed with the error it gives.
pub open spec fn applied(
    outcome: Result<Seq<AccountView>, CounterError>,
    r: Result<(), CounterError>,
    before: Seq<Account>,
    after: Seq<Account>,
) -> bool {
    match outcome {
        Ok(new) => r is Ok && views(after) == new,
        Err(e) => r == Err::<(), CounterError>(e) && after == before,
    }
}

/// The accounts `[payer, counter, ..]` hold a counter of the payer: the
/// counter account is owned by this program and holds a record whose bump
/// re-derives the account's address from the payer.
pub open spec fn is_payer_counter(program_id: Seq<u8>, accs: Seq<AccountView>) -> bool {
    &&& accs.len() >= 2
    &&& accs[1].owner == program_id
    &&& accs[1].data.len() >= COUNTER_LEN
    &&& direct_address(accs[0].key, accs[1].data[9], program_id) == Some(accs[1].key)
}

/// An increment whose sum with the stored value exceeds `u64::MAX` fails with
/// an arithmetic overflow and leaves the accounts, and so the value, as they
/// were.
pub proof fn lemma_increment_overflow_fails(
    program_id: Seq<u8>,
    before: Seq<Account>,
    after: Seq<Account>,
    increment_by: u64,
    r: Result<(), CounterError>,
)
    requires
        is_payer_counter(program_id, views(before)),
        stored_value(before[1].data@) + increment_by > u64::MAX,
        applied(increment_result(program_id, views(before), increment_by), r, before, after),
    ensures
        r == Err::<(), CounterError>(CounterError::ArithmeticOverflow),
        after == before,
        stored_value(after[1].data@) == stored_value(before[1].data@),
{
}

/// Increment on a counter account that this program does not own fails with
/// `IncorrectProgramId` and changes nothing.
pub proof fn lemma_increment_ownership_gate(
    program_id: Seq<u8>,
    before: Seq<Account>,
    after: Seq<Account>,
    increment_by: u64,
    r: Result<(), CounterError>,
)
    requires
        before.len() >= 2,
        before[1].owner@ != program_id,
        applied(increment_result(program_id, views(before), increment_by), r, before, after),
    ensures
        r == Err::<(), CounterError>(CounterError::IncorrectProgramId),
        after == before,
{
}

/// Close on a counter account that this program does not own fails with
/// `IncorrectProgramId` and changes nothing.
pub proof fn lemma_close_ownership_gate(
    program_id: Seq<u8>,
    before: Seq<Account>,
    after: Seq<Account>,
    r: Result<(), CounterError>,
)
    requires
        before.len() >= 2,
        before[1].owner@ != program_id,
        applied(close_result(program_id, views(before)), r, before, after),
    ensures
        r == Err::<(), CounterError>(CounterError::IncorrectProgramId),
        after == before,
{
}

/// After a successful Close the counter account holds no lamports and no
/// data and belongs to the system program, and the recipient's balance grew
/// by exactly the counter's balance before the close.
pub proof fn lemma_close_zeroes_and_transfers(
    program_id: Seq<u8>,
    before: Seq<Account>,
    after: Seq<Account>,
    r: Result<(), CounterError>,
)
    requires
        applied(close_result(program_id, views(before)), r, before, after),
        r is Ok,
    ensures
        after.len() == before.len(),
        after[1].lamports == 0,
        after[1].data@.len() == 0,
        after[1].owner@ == system_program_key(),
        after[2].lamports == before[2].lamports + before[1].lamports,
        after[1].key == before[1].key,
        after[2].key == before[2].key,
{
    let v = views(after);
    let w = views(before);
    assert(v.len() == after.len());
    assert(w.len() == before.len());
    assert(w[1] == before[1]@);
    assert(w[2] == before[2]@);
    assert(v[1] == after[1]@);
    assert(v[2] == after[2]@);
}

/// The allocation that Initialize asks of the system program: an account at
/// `address`, funded by `payer` with the rent-exempt minimum for `space`
/// bytes and owned by `owner`, signed for with `signer_seeds`.
#[derive(Debug, Clone, PartialEq, Eq)]
pub struct CreateAccountRequest {
    pub payer: [u8; 32],
    pub address: [u8; 32],
    pub space: u64,
    pub owner: [u8; 32],
    pub bump: u8,
    pub signer_seeds: Vec<Vec<u8>>,
}

/// `req` is the allocation that Initialize asks for on the accounts
/// `[payer, counter, system program, ..]`.
pub open spec fn is_initialize_request(program_id: Seq<u8>, accs: Seq<AccountView>, req: CreateAccountRequest) -> bool {
    &&& req.payer@ == accs[0].key
    &&& req.address@ == accs[1].key
    &&& req.space == COUNTER_LEN
    &&& req.owner@ == program_id
    &&& is_canonical_bump(accs[0].key, program_id, req.bump)
    &&& seeds_view(req.signer_seeds@) == counter_seeds(accs[0].key).push(seq![req.bump])
}

/// Replaces the first eight bytes of `data` with the encoding of `v`.
fn write_value(data: &mut Vec<u8>, v: u64)
    requires
        old(data)@.len() >= 8,
    ensures
        final(data)@ == with_value(old(data)@, v),
{
    proof {
        lemma_auto_spec_u64_to_from_le_bytes();
    }
    let bytes = u64_to_le_bytes(v);
    let ghost start = data@;
    let mut i: usize = 0;
    while i < 8
        invariant
            i <= 8,
            bytes@ == spec_u64_to_le_bytes(v),
            bytes@.len() == 8,
            data@.len() == start.len(),
            start.len() >= 8,
            forall|j: int| 0 <= j < i ==> data@[j] == bytes@[j],
            forall|j: int| i <= j < data@.len() ==> data@[j] == start[j],
        decreases 8 - i,
    {
        data[i] = bytes[i];
        i = i + 1;
    }
    assert(data@ =~= with_value(start, v));
}

pub struct Processor;

impl Processor {
    /// Decodes a request and runs it. Increment and Close change `accounts`;
    /// Initialize changes nothing and returns the allocation for the host to
    /// perform, after which `finish_initialize_counter` writes the record.
    pub fn process(program_id: &[u8; 32], accounts: &mut Vec<Account>, data: &[u8]) -> (r: Result<
        Option<CreateAccountRequest>,
        CounterError,
    >)
        ensures
            match parse_instruction(data@) {
                None => r is Err && r->Err_0 == CounterError::InvalidInstructionData
                    && final(accounts)@ == old(accounts)@,
                Some(CounterInstruction::InitializeCounter) => {
                    &&& final(accounts)@ == old(accounts)@
                    &&& old(accounts)@.len() < 3 ==> r is Err && r->Err_0
                        == CounterError::NotEnoughAccountKeys
                    &&& old(accounts)@.len() >= 3 && search_fails(old(accounts)@[0].key@, program_id@)
                        ==> r is Err && r->Err_0 == CounterError::InvalidSeeds
                    &&& old(accounts)@.len() >= 3 && !search_fails(old(accounts)@[0].key@, program_id@)
                        ==> r is Ok && r->Ok_0 is Some && is_initialize_request(
                        program_id@,
                        views(old(accounts)@),
                        r->Ok_0->Some_0,
                    )
                },
                Some(CounterInstruction::IncrementCounter { increment_by }) => {
                    let outcome = increment_result(program_id@, views(old(accounts)@), increment_by);
                    &&& outcome is Ok ==> r is Ok && r->Ok_0 is None && views(final(accounts)@)
                        == outcome->Ok_0
                    &&& outcome is Err ==> r is Err && r->Err_0 == outcome->Err_0 && final(accounts)@
                        == old(accounts)@
                },
                Some(CounterInstruction::CloseCounter) => {
                    let outcome = close_result(program_id@, views(old(accounts)@));
                    &&& outcome is Ok ==> r is Ok && r->Ok_0 is None && views(final(accounts)@)
                        == outcome->Ok_0
                    &&& outcome is Err ==> r is Err && r->Err_0 == outcome->Err_0 && final(accounts)@
                        == old(accounts)@
                },
            },
    {
        let instruction = CounterInstruction::unpack(data)?;
        match instruction {
            CounterInstruction::InitializeCounter => {
                let req = Self::process_initialize_counter(program_id, accounts)?;
                Ok(Some(req))
            },
            CounterInstruction::IncrementCounter { increment_by } => {
                Self::process_increment_counter(program_id, accounts, increment_by)?;
                Ok(None)
            },
            CounterInstruction::CloseCounter => {
                Self::process_close_counter(program_id, accounts)?;
                Ok(None)
            },
        }
    }

    /// Initialize, first part: derives the counter address of the payer by
    /// search and returns the allocation that creates it.
    pub fn process_initialize_counter(program_id: &[u8; 32], accounts: &Vec<Account>) -> (r: Result<
        CreateAccountRequest,
        CounterError,
    >)
        ensures
            accounts@.len() < 3 ==> r == Err::<CreateAccountRequest, CounterError>(
                CounterError::NotEnoughAccountKeys,
            ),
            accounts@.len() >= 3 && search_fails(accounts@[0].key@, program_id@) ==> r
                == Err::<CreateAccountRequest, CounterError>(CounterError::InvalidSeeds),
            accounts@.len() >= 3 && !search_fails(accounts@[0].key@, program_id@) ==> r is Ok
                && is_initialize_request(program_id@, views(accounts@), r->Ok_0),
    {
        if accounts.len() < 3 {
            return Err(CounterError::NotEnoughAccountKeys);
        }
        let payer_key = accounts[0].key;
        let counter_key = accounts[1].key;
        match find_counter_address(&payer_key, program_id) {
            None => Err(CounterError::InvalidSeeds),
            Some(found) => {
                let bump = found.1;
                let signer_seeds = signer_seed_vecs(&payer_key, bump);
                Ok(
                    CreateAccountRequest {
                        payer: payer_key,
                        address: counter_key,
                        space: COUNTER_LEN as u64,
                        owner: *program_id,
                        bump,
                        signer_seeds,
                    },
                )
            },
        }
    }

    /// Initialize, second part, once the account is allocated: writes a fresh
    /// record with value 0 and the bump into it.
    pub fn finish_initialize_counter(counter: &mut Account, bump: u8) -> (r: Result<(), CounterError>)
        ensures
            old(counter)@.data.len() >= COUNTER_LEN ==> r is Ok && final(counter)@ == (AccountView {
                data: encode(CounterPDA { value: 0, is_initialized: true, bump }) + old(
                    counter,
                )@.data.subrange(COUNTER_LEN as int, old(counter)@.data.len() as int),
                ..old(counter)@
            }),
            old(counter)@.data.len() < COUNTER_LEN ==> r == Err::<(), CounterError>(
                CounterError::InvalidAccountData,
            ) && final(counter)@ == old(counter)@,
    {
        if counter.data.len() < COUNTER_LEN {
            return Err(CounterError::InvalidAccountData);
        }
        let record = CounterPDA::new(0, bump);
        record.pack_into_slice(&mut counter.data);
        proof {
            let d = counter.data@;
            assert(d =~= d.subrange(0, COUNTER_LEN as int) + d.subrange(
                COUNTER_LEN as int,
                d.len() as int,
            ));
        }
        Ok(())
    }

    /// Increment: checks that the counter account belongs to this program and
    /// to the payer, then adds `increment_by` to its value.
    pub fn process_increment_counter(
        program_id: &[u8; 32],
        accounts: &mut Vec<Account>,
        increment_by: u64,
    ) -> (r: Result<(), CounterError>)
        ensures
            applied(
                increment_result(program_id@, views(old(accounts)@), increment_by),
                r,
                old(accounts)@,
                final(accounts)@,
            ),
    {
        if accounts.len() < 2 {
            return Err(CounterError::NotEnoughAccountKeys);
        }
        if !same_key(&accounts[1].owner, program_id) {
            return Err(CounterError::IncorrectProgramId);
        }
        if accounts[1].data.len() < COUNTER_LEN {
            return Err(CounterError::InvalidAccountData);
        }
        let bump = accounts[1].data[9];
        let payer_key = accounts[0].key;
        match counter_address(&payer_key, bump, program_id) {
            None => {
                return Err(CounterError::InvalidSeeds);
            },
            Some(expected) => {
                if !same_key(&accounts[1].key, &expected) {
                    return Err(CounterError::InvalidSeeds);
                }
            },
        }
        let value = u64_from_le_bytes(slice_subrange(accounts[1].data.as_slice(), 0, 8));
        match value.checked_add(increment_by) {
            None => Err(CounterError::ArithmeticOverflow),
            Some(sum) => {
                let ghost before = accounts@;
                let mut counter = accounts.remove(1);
                write_value(&mut counter.data, sum);
                accounts.insert(1, counter);
                proof {
                    assert(accounts@ =~= before.update(1, counter));
                    assert(views(accounts@) =~= views(before).update(1, counter@));
                }
                Ok(())
            },
        }
    }

    /// Close: releases the counter account's data, moves its whole balance
    /// to the recipient and hands the account back to the system program.
    pub fn process_close_counter(program_id: &[u8; 32], accounts: &mut Vec<Account>) -> (r: Result<
        (),
        CounterError,
    >)
        ensures
            applied(close_result(program_id@, views(old(accounts)@)), r, old(accounts)@, final(accounts)@),
    {
        if accounts.len() < 2 {
            return Err(CounterError::NotEnoughAccountKeys);
        }
        if !same_key(&accounts[1].owner, program_id) {
            return Err(CounterError::IncorrectProgramId);
        }
        if accounts.len() < 3 {
            return Err(CounterError::NotEnoughAccountKeys);
        }
        let counter_balance = accounts[1].lamports;
        let recipient_balance = accounts[2].lamports;
        match recipient_balance.checked_add(counter_balance) {
            None => Err(CounterError::ArithmeticOverflow),
            Some(total) => {
                let ghost before = accounts@;
                let mut counter = accounts.remove(1);
                counter.data = Vec::new();
                counter.lamports = 0;
                counter.owner = system_program_id();
                accounts.insert(1, counter);
                let ghost middle = accounts@;
                let mut recipient = accounts.remove(2);
                recipient.lamports = total;
                accounts.insert(2, recipient);
                proof {
                    assert(middle =~= before.update(1, counter));
                    assert(accounts@ =~= middle.update(2, recipient));
                    assert(counter@.data =~= Seq::<u8>::empty());
                    assert(views(accounts@) =~= views(before).update(1, counter@).update(
                        2,
                        recipient@,
                    ));
                }
                Ok(())
            },
        }
    }
}

} // verus!
