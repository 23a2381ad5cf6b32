use pinocchio::sysvars::rent::Rent;
use pinocchio::Address;
use shielded_pool::account::{Account, AccountMeta};
use shielded_pool::address::{
    find_audit_address, find_nullifier_address, find_pool_state_address, find_vault_address,
    AUDIT_VERIFIER_ID, GATED_WITHDRAW_VERIFIER_ID, PROGRAM_ID, WITHDRAW_VERIFIER_ID,
};
use shielded_pool::audit::{
    is_audited, is_audited_at, AuditRecord, AUDIT_RECORD_LEN, AUDIT_RECORD_TAG,
};
use shielded_pool::deposit::{
    append_root, check_deposit, check_pool_accounts, check_pool_accounts_at, DepositRequest,
};
use shielded_pool::entry::PanicPolicy;
use shielded_pool::errors::PoolError;
use shielded_pool::initialize::{
    check_initialize, initial_data, open, plan_state, plan_state_at, plan_vault, plan_vault_at,
};
use shielded_pool::instruction::{DEPOSIT, INITIALIZE, SUBMIT_AUDIT, WITHDRAW};
use shielded_pool::layout::{decode_amount, encode_recipient, read_input, read_le_u64};
use shielded_pool::ledger::{zero_bytes, Ledger};
use shielded_pool::nullifier::{claim, claim_at, is_spent, is_spent_at};
use shielded_pool::rent::RentRate;
use shielded_pool::state::{PoolState, POOL_STATE_LEN, POOL_STATE_TAG};
use shielded_pool::submit_audit::{
    self, check_submit_audit, check_submit_audit_at, AuditDecision,
};
use shielded_pool::withdraw::{
    check_audit_link, check_audit_link_at, check_withdraw, check_withdraw_at, pay_out,
    pay_out_of, release, verifier_call, withdrawable, withdrawable_at, Variant, WithdrawRequest,
};
use shielded_pool::words::{read_word, with_tail, word_eq};

const RATE: RentRate = RentRate { lamports_per_byte: 6960 };

fn root(n: u8) -> [u8; 32] {
    let mut r = [0x10u8; 32];
    r[0] = n;
    r
}

fn account(address: [u8; 32], owner: [u8; 32], lamports: u64, data: Vec<u8>) -> Account {
    Account { address, owner, lamports, data, is_signer: false, is_writable: true }
}

fn signer(address: [u8; 32], lamports: u64) -> Account {
    Account {
        address,
        owner: [0u8; 32],
        lamports,
        data: Vec::new(),
        is_signer: true,
        is_writable: true,
    }
}

fn state_data(roots: &[[u8; 32]]) -> Vec<u8> {
    let mut state = PoolState::new();
    for r in roots {
        state.add_root(*r);
    }
    state.encode()
}

#[test]
fn root_history_keeps_up_to_thirty_two_roots() {
    for n in 0..=32u8 {
        let mut state = PoolState::new();
        for k in 1..=n {
            state.add_root(root(k));
        }
        for k in 1..=n {
            assert!(state.check_root(&root(k)), "{} of {}", k, n);
        }
        assert!(!state.check_root(&root(n + 1)));
        assert_eq!(state.roots_index, (n % 32) as u32);
    }
}

#[test]
fn root_history_evicts_the_oldest() {
    let mut state = PoolState::new();
    for k in 1..=100u8 {
        state.add_root(root(k));
        assert_eq!(state.current_root, root(k));
        assert_eq!(state.roots[((k - 1) % 32) as usize], root(k));
    }
    for k in 1..=68u8 {
        assert!(!state.check_root(&root(k)));
    }
    for k in 69..=100u8 {
        assert!(state.check_root(&root(k)));
    }
    assert_eq!(state.roots_index, 100 % 32);
}

#[test]
fn root_history_a_repeated_root_outlives_its_first_slot() {
    let mut state = PoolState::new();
    state.add_root(root(1));
    for k in 2..=32u8 {
        state.add_root(root(k));
    }
    state.add_root(root(1));
    assert!(state.check_root(&root(1)));
    assert!(state.check_root(&root(2)));
    state.add_root(root(40));
    assert!(!state.check_root(&root(2)));
    assert!(state.check_root(&root(1)));
}

#[test]
fn fresh_state_holds_the_zero_root_only() {
    let state = PoolState::new();
    assert!(state.is_initialized());
    assert_eq!(state.discriminator, POOL_STATE_TAG);
    assert_eq!(state.current_root, [0u8; 32]);
    assert_eq!(state.roots_index, 0);
    assert!(state.check_root(&[0u8; 32]));
    assert!(!state.check_root(&root(1)));
    let mut untagged = state;
    untagged.discriminator[7] ^= 1;
    assert!(!untagged.is_initialized());
}

#[test]
fn a_stored_write_position_is_taken_modulo_the_capacity() {
    let mut state = PoolState::new();
    state.roots_index = 35;
    state.add_root(root(9));
    assert_eq!(state.roots[3], root(9));
    assert_eq!(state.roots_index, 4);
    state.roots_index = u32::MAX;
    state.add_root(root(8));
    assert_eq!(state.roots[31], root(8));
    assert_eq!(state.roots_index, 0);
}

#[test]
fn pool_state_layout() {
    let mut state = PoolState::new();
    state.add_root(root(1));
    state.add_root(root(2));
    state.padding = [9, 8, 7, 6];
    let bytes = state.encode();
    assert_eq!(bytes.len(), POOL_STATE_LEN);
    assert_eq!(bytes.len(), 1072);
    assert_eq!(&bytes[0..8], &POOL_STATE_TAG);
    assert_eq!(&bytes[8..40], &root(2));
    assert_eq!(&bytes[40..72], &root(1));
    assert_eq!(&bytes[72..104], &root(2));
    assert_eq!(&bytes[104..136], &[0u8; 32]);
    assert_eq!(&bytes[1064..1068], &[2, 0, 0, 0]);
    assert_eq!(&bytes[1068..1072], &[9, 8, 7, 6]);
    assert_eq!(PoolState::decode(&bytes), Some(state));
    let mut longer = bytes.clone();
    longer.extend_from_slice(&[1, 2, 3]);
    assert_eq!(PoolState::decode(&longer), Some(state));
    assert_eq!(PoolState::decode(&bytes[..1071]), None);
    assert_eq!(PoolState::decode(&[]), None);
    state.roots_index = 0x0403_0201;
    assert_eq!(&state.encode()[1064..1068], &[1, 2, 3, 4]);
    assert_eq!(PoolState::decode(&state.encode()).unwrap().roots_index, 0x0403_0201);
}

#[test]
fn audit_record_layout() {
    let record = AuditRecord::new([0x77u8; 32]);
    assert!(record.is_initialized());
    assert!(record.attests(&[0x77u8; 32]));
    assert!(!record.attests(&[0x76u8; 32]));
    let bytes = record.encode();
    assert_eq!(bytes.len(), AUDIT_RECORD_LEN);
    assert_eq!(bytes.len(), 40);
    assert_eq!(&bytes[0..8], &AUDIT_RECORD_TAG);
    assert_eq!(&bytes[8..40], &[0x77u8; 32]);
    assert_eq!(AuditRecord::decode(&bytes), Some(record));
    assert_eq!(AuditRecord::decode(&bytes[..39]), None);
    let blank = AuditRecord::decode(&[0u8; 40]).unwrap();
    assert!(!blank.is_initialized());
    assert!(!blank.attests(&[0u8; 32]));
}

#[test]
fn amount_is_the_low_eight_bytes_big_endian() {
    let mut field = [0u8; 32];
    field[24..32].copy_from_slice(&[1, 2, 3, 4, 5, 6, 7, 8]);
    assert_eq!(decode_amount(&field), 0x0102_0304_0506_0708);
    assert_eq!(decode_amount(&field), 72_623_859_790_382_856);
    field[0] = 0xff;
    field[23] = 0xff;
    assert_eq!(decode_amount(&field), 72_623_859_790_382_856);
    assert_eq!(decode_amount(&[0xffu8; 32]), u64::MAX);
    assert_eq!(decode_amount(&[0u8; 32]), 0);
    let mut one = [0u8; 32];
    one[31] = 1;
    assert_eq!(decode_amount(&one), 1);
    for v in [500_000u64, 1 << 40, u64::MAX - 1] {
        let mut f = [0u8; 32];
        f[24..].copy_from_slice(&v.to_be_bytes());
        assert_eq!(decode_amount(&f), v);
    }
}

#[test]
fn little_endian_amounts() {
    let data = [9u8, 1, 2, 3, 4, 5, 6, 7, 8, 9];
    assert_eq!(read_le_u64(&data, 1), 0x0807_0605_0403_0201);
    assert_eq!(read_le_u64(&data, 0), u64::from_le_bytes([9, 1, 2, 3, 4, 5, 6, 7]));
    assert_eq!(read_le_u64(&1_000_000u64.to_le_bytes(), 0), 1_000_000);
    assert_eq!(read_le_u64(&[0xffu8; 8], 0), u64::MAX);
}

#[test]
fn recipient_encoding_drops_the_last_two_bytes() {
    let mut address = [0u8; 32];
    for (i, b) in address.iter_mut().enumerate() {
        *b = (i + 1) as u8;
    }
    let field = encode_recipient(&address);
    assert_eq!(field[0], 0);
    assert_eq!(field[1], 0);
    assert_eq!(&field[2..32], &address[0..30]);
    assert_eq!(field[31], 30);
    let mut twin = address;
    twin[30] = 0;
    twin[31] = 0;
    assert_eq!(encode_recipient(&twin), field);
    twin[29] = 0;
    assert_ne!(encode_recipient(&twin), field);
}

#[test]
fn public_inputs_follow_proof_and_header() {
    let mut payload = vec![0u8; 400];
    for k in 0..5u8 {
        payload.extend_from_slice(&[k + 1; 32]);
    }
    for k in 0..5usize {
        assert_eq!(read_input(&payload, k), [(k + 1) as u8; 32]);
    }
}

#[test]
fn word_helpers() {
    assert!(word_eq(&[3u8; 32], &[3u8; 32]));
    let mut other = [3u8; 32];
    other[31] = 4;
    assert!(!word_eq(&[3u8; 32], &other));
    let data: Vec<u8> = (0..100u8).collect();
    let word = read_word(&data, 5);
    assert_eq!(word[0], 5);
    assert_eq!(word[31], 36);
    assert_eq!(with_tail(vec![1, 2], &data, 98), vec![1, 2, 98, 99]);
    assert_eq!(with_tail(vec![1, 2], &data, 100), vec![1, 2]);
    assert_eq!(zero_bytes(3), vec![0u8; 3]);
    assert!(zero_bytes(0).is_empty());
}

#[test]
fn derived_addresses_are_those_of_the_host_library() {
    let program = Address::new_from_array(PROGRAM_ID);
    let (vault, bump) = Address::find_program_address(&[b"vault"], &program);
    assert_eq!(find_vault_address(), Some((vault.to_bytes(), bump)));
    let (state, bump) = Address::find_program_address(&[b"pool_state"], &program);
    assert_eq!(find_pool_state_address(), Some((state.to_bytes(), bump)));
    let n = [0x42u8; 32];
    let (marker, bump) = Address::find_program_address(&[b"nullifier", &n], &program);
    assert_eq!(find_nullifier_address(&n), Some((marker.to_bytes(), bump)));
    let (record, bump) = Address::find_program_address(&[b"audit", &n], &program);
    assert_eq!(find_audit_address(&n), Some((record.to_bytes(), bump)));
    assert_ne!(marker, record);
    assert_ne!(vault, state);
}

#[test]
fn fixed_addresses_are_the_published_ones() {
    assert_eq!(
        Address::from_str_const("H76rmbsE6HxkDw7AWEJLtqYogyP6psq3Fk2wqPH7Cjes").to_bytes(),
        PROGRAM_ID
    );
    assert_eq!(
        Address::from_str_const("Co5ivXmsZDqMZk37Kc3yAtW3dNZgkbAwZKePXNBXLh8T").to_bytes(),
        WITHDRAW_VERIFIER_ID
    );
    assert_eq!(
        Address::from_str_const("3qfJCYMTnPwFgSX1T3Ncem6b5DphHtNoMmgyVeb52Yti").to_bytes(),
        GATED_WITHDRAW_VERIFIER_ID
    );
    assert_eq!(
        Address::from_str_const("2A6wr286RiTEYXVjrqmU87xCNG6nusU5rM8ynSbvfdqb").to_bytes(),
        AUDIT_VERIFIER_ID
    );
}

#[test]
fn minimum_balance_is_that_of_the_host_library() {
    for rate in [0u64, 1, 6960, 1_759_197_129_867, 1_759_197_129_868, u64::MAX] {
        let theirs = Rent::from_bytes(&rate.to_ne_bytes()).unwrap();
        let ours = RentRate { lamports_per_byte: rate };
        for len in [0usize, 40, 1072, 10_485_760, 10_485_761] {
            assert_eq!(ours.minimum_balance(len).ok(), theirs.try_minimum_balance(len).ok());
        }
    }
    assert_eq!(RATE.minimum_balance(1072), Ok(8_352_000));
    assert_eq!(
        RentRate { lamports_per_byte: 1_759_197_129_867 }.minimum_balance(10_485_760),
        Ok(18_446_744_073_706_816_896)
    );
    assert_eq!(RentRate { lamports_per_byte: 0 }.minimum_balance(500), Ok(0));
}

#[test]
fn ledger_addresses_start_vacant() {
    let ledger = Ledger::new();
    let seen = ledger.account(&AccountMeta { address: [5u8; 32], is_signer: true, is_writable: false });
    assert_eq!(seen.address, [5u8; 32]);
    assert_eq!(seen.owner, [0u8; 32]);
    assert_eq!(seen.lamports, 0);
    assert!(seen.data.is_empty());
    assert!(seen.is_signer);
    assert!(!seen.is_writable);
    assert_eq!(ledger.lamports(&[5u8; 32]), 0);
}

#[test]
fn ledger_put_replaces_one_address() {
    let mut ledger = Ledger::new();
    ledger.put(&[1u8; 32], [9u8; 32], 10, vec![1, 2]);
    ledger.put(&[2u8; 32], [8u8; 32], 20, vec![3]);
    ledger.put(&[1u8; 32], [7u8; 32], 30, vec![4, 5, 6]);
    let one = ledger.account(&AccountMeta { address: [1u8; 32], is_signer: false, is_writable: false });
    assert_eq!((one.owner, one.lamports, one.data), ([7u8; 32], 30, vec![4, 5, 6]));
    let two = ledger.account(&AccountMeta { address: [2u8; 32], is_signer: false, is_writable: false });
    assert_eq!((two.owner, two.lamports, two.data), ([8u8; 32], 20, vec![3]));
    ledger.set_lamports(&[2u8; 32], 21);
    ledger.set_data(&[2u8; 32], vec![]);
    let two = ledger.account(&AccountMeta { address: [2u8; 32], is_signer: false, is_writable: false });
    assert_eq!((two.owner, two.lamports, two.data), ([8u8; 32], 21, vec![]));
    let metas = vec![
        AccountMeta { address: [2u8; 32], is_signer: false, is_writable: true },
        AccountMeta { address: [1u8; 32], is_signer: true, is_writable: false },
        AccountMeta { address: [3u8; 32], is_signer: false, is_writable: false },
    ];
    let loaded = ledger.load(&metas);
    assert_eq!(loaded.len(), 3);
    assert_eq!(loaded[0].lamports, 21);
    assert_eq!(loaded[1].lamports, 30);
    assert!(loaded[1].is_signer);
    assert_eq!(loaded[2].lamports, 0);
}

#[test]
fn ledger_duplicate_is_independent() {
    let mut ledger = Ledger::new();
    ledger.put(&[1u8; 32], [9u8; 32], 10, vec![1, 2]);
    let mut copy = ledger.duplicate();
    assert_eq!(copy.lamports(&[1u8; 32]), 10);
    copy.set_lamports(&[1u8; 32], 11);
    copy.put(&[2u8; 32], [0u8; 32], 5, vec![]);
    assert_eq!(ledger.lamports(&[1u8; 32]), 10);
    assert_eq!(ledger.lamports(&[2u8; 32]), 0);
    assert_eq!(copy.lamports(&[1u8; 32]), 11);
}

#[test]
fn ledger_create_account() {
    let mut ledger = Ledger::new();
    ledger.put(&[1u8; 32], [0u8; 32], 100, vec![]);
    assert_eq!(
        ledger.create_account(&[1u8; 32], &[2u8; 32], 101, 4, &[9u8; 32]),
        Err(PoolError::InsufficientFunds)
    );
    assert_eq!(ledger.lamports(&[2u8; 32]), 0);
    assert_eq!(ledger.create_account(&[1u8; 32], &[2u8; 32], 60, 4, &[9u8; 32]), Ok(()));
    assert_eq!(ledger.lamports(&[1u8; 32]), 40);
    let made = ledger.account(&AccountMeta { address: [2u8; 32], is_signer: false, is_writable: false });
    assert_eq!((made.owner, made.lamports, made.data), ([9u8; 32], 60, vec![0u8; 4]));
    assert_eq!(
        ledger.create_account(&[1u8; 32], &[2u8; 32], 1, 4, &[9u8; 32]),
        Err(PoolError::AccountAlreadyInitialized)
    );
    assert_eq!(ledger.lamports(&[1u8; 32]), 40);
    assert_eq!(ledger.lamports(&[2u8; 32]), 60);
}

#[test]
fn ledger_transfer() {
    let mut ledger = Ledger::new();
    ledger.put(&[1u8; 32], [0u8; 32], 100, vec![]);
    ledger.put(&[3u8; 32], [0u8; 32], u64::MAX - 5, vec![]);
    assert_eq!(ledger.transfer(&[1u8; 32], &[2u8; 32], 101), Err(PoolError::InsufficientFunds));
    assert_eq!(ledger.transfer(&[1u8; 32], &[3u8; 32], 6), Err(PoolError::ArithmeticOverflow));
    assert_eq!(ledger.transfer(&[1u8; 32], &[3u8; 32], 5), Ok(()));
    assert_eq!(ledger.lamports(&[3u8; 32]), u64::MAX);
    assert_eq!(ledger.transfer(&[1u8; 32], &[2u8; 32], 95), Ok(()));
    assert_eq!(ledger.lamports(&[1u8; 32]), 0);
    assert_eq!(ledger.lamports(&[2u8; 32]), 95);
    assert_eq!(ledger.transfer(&[2u8; 32], &[2u8; 32], 95), Ok(()));
    assert_eq!(ledger.lamports(&[2u8; 32]), 95);
    assert_eq!(ledger.transfer(&[2u8; 32], &[2u8; 32], 96), Err(PoolError::InsufficientFunds));
    assert_eq!(ledger.transfer(&[1u8; 32], &[2u8; 32], 0), Ok(()));
}

#[test]
fn variants_differ_in_shape_and_verifier() {
    assert_eq!(Variant::Basic.input_count(), 4);
    assert_eq!(Variant::AuditGated.input_count(), 5);
    assert_eq!(Variant::Basic.account_count(), 7);
    assert_eq!(Variant::AuditGated.account_count(), 8);
    assert_eq!(Variant::Basic.verifier_id(), WITHDRAW_VERIFIER_ID);
    assert_eq!(Variant::AuditGated.verifier_id(), GATED_WITHDRAW_VERIFIER_ID);
}

#[test]
fn check_withdraw_yields_the_request() {
    let nullifier = [0x42u8; 32];
    let recipient = [9u8; 32];
    let marker = find_nullifier_address(&nullifier).unwrap();
    let accounts = vec![
        signer([7u8; 32], 5),
        account(recipient, [0u8; 32], 0, vec![]),
        account(find_vault_address().unwrap().0, PROGRAM_ID, 1_000_000, vec![]),
        account(find_pool_state_address().unwrap().0, PROGRAM_ID, 1, state_data(&[root(1)])),
        account(marker.0, [0u8; 32], 0, vec![]),
        account(WITHDRAW_VERIFIER_ID, [0u8; 32], 1, vec![]),
        account([0u8; 32], [0u8; 32], 1, vec![]),
    ];
    let mut amount = [0u8; 32];
    amount[24..].copy_from_slice(&500_000u64.to_be_bytes());
    let mut data = vec![1u8; 400];
    data.extend_from_slice(&root(1));
    data.extend_from_slice(&nullifier);
    data.extend_from_slice(&encode_recipient(&recipient));
    data.extend_from_slice(&amount);
    assert_eq!(
        check_withdraw(&accounts, &data, Variant::Basic),
        Ok(WithdrawRequest {
            root: root(1),
            nullifier,
            recipient: encode_recipient(&recipient),
            amount: 500_000,
            nullifier_bump: marker.1,
        })
    );
    assert_eq!(
        check_withdraw(&accounts, &data, Variant::AuditGated),
        Err(PoolError::NotEnoughAccountKeys)
    );
    let mut stale = data.clone();
    stale[400] ^= 1;
    assert_eq!(check_withdraw(&accounts, &stale, Variant::Basic), Err(PoolError::InvalidAccountData));
    let mut spent = accounts;
    spent[4].lamports = 1;
    assert_eq!(
        check_withdraw(&spent, &data, Variant::Basic),
        Err(PoolError::AccountAlreadyInitialized)
    );
    assert_eq!(
        check_withdraw(&spent, &stale, Variant::Basic),
        Err(PoolError::InvalidAccountData)
    );
}

#[test]
fn audit_link_checks() {
    let commitment = [0x77u8; 32];
    let place = find_audit_address(&commitment).unwrap().0;
    let good = account(place, PROGRAM_ID, 10, AuditRecord::new(commitment).encode());
    assert_eq!(check_audit_link(&good, &commitment), Ok(()));
    assert_eq!(check_audit_link(&good, &[0x78u8; 32]), Err(PoolError::InvalidAccountData));
    let absent = account(place, [0u8; 32], 0, vec![]);
    assert_eq!(check_audit_link(&absent, &commitment), Err(PoolError::AuditRequired));
    let foreign = account(place, [1u8; 32], 10, AuditRecord::new(commitment).encode());
    assert_eq!(check_audit_link(&foreign, &commitment), Err(PoolError::InvalidAccountOwner));
}

#[test]
fn vault_releases_what_is_above_the_floor() {
    let address = find_vault_address().unwrap().0;
    let vault = account(address, PROGRAM_ID, 890_880 + 1_000, vec![]);
    assert_eq!(withdrawable(&vault, &RATE), Ok(1_000));
    let friend = |lamports: u64| account([9u8; 32], [0u8; 32], lamports, vec![]);
    assert_eq!(pay_out(&vault, &friend(7), 1_000, &RATE), Ok((890_880, 1_007)));
    assert_eq!(pay_out(&vault, &friend(7), 0, &RATE), Ok((891_880, 7)));
    assert_eq!(pay_out(&vault, &friend(7), 1_001, &RATE), Err(PoolError::InsufficientFunds));
    assert_eq!(
        pay_out(&vault, &friend(u64::MAX - 999), 1_000, &RATE),
        Err(PoolError::InsufficientFunds)
    );
    assert_eq!(
        pay_out(&vault, &friend(u64::MAX - 1_000), 1_000, &RATE),
        Ok((890_880, u64::MAX))
    );
    assert_eq!(pay_out(&vault, &vault, 1_000, &RATE), Ok((891_880, 891_880)));
    assert_eq!(pay_out(&vault, &vault, 1_001, &RATE), Err(PoolError::InsufficientFunds));
    let with_data = account(address, PROGRAM_ID, 890_880 + 1_000, vec![0u8; 1]);
    assert_eq!(withdrawable(&with_data, &RATE), Err(PoolError::InsufficientFunds));
    let richer = account(address, PROGRAM_ID, 890_880 + 6_960 + 3, vec![0u8; 1]);
    assert_eq!(withdrawable(&richer, &RATE), Ok(3));
    let below = account(address, PROGRAM_ID, 890_879, vec![]);
    assert_eq!(withdrawable(&below, &RATE), Err(PoolError::InsufficientFunds));
    let foreign = account(address, [1u8; 32], 10_000_000, vec![]);
    assert_eq!(withdrawable(&foreign, &RATE), Err(PoolError::InvalidAccountOwner));
    let elsewhere = account([4u8; 32], PROGRAM_ID, 10_000_000, vec![]);
    assert_eq!(withdrawable(&elsewhere, &RATE), Err(PoolError::InvalidAccountData));
    let steep = RentRate { lamports_per_byte: u64::MAX };
    assert_eq!(withdrawable(&vault, &steep), Err(PoolError::InvalidArgument));
}

#[test]
fn check_deposit_reads_the_parameters() {
    let accounts = vec![
        signer([7u8; 32], 5),
        account([1u8; 32], PROGRAM_ID, 1, vec![]),
        account([2u8; 32], PROGRAM_ID, 1, vec![]),
        account([0u8; 32], [0u8; 32], 1, vec![]),
    ];
    let mut data = Vec::new();
    data.extend_from_slice(&1_000_000u64.to_le_bytes());
    data.extend_from_slice(&[0x11u8; 32]);
    data.extend_from_slice(&root(3));
    assert_eq!(
        check_deposit(&accounts, &data),
        Ok(DepositRequest { amount: 1_000_000, commitment: [0x11u8; 32], new_root: root(3) })
    );
    data.push(0);
    assert_eq!(check_deposit(&accounts, &data), Err(PoolError::InvalidInstructionData));
}

#[test]
fn append_root_rewrites_the_state_and_keeps_the_tail() {
    let mut data = state_data(&[root(1)]);
    data.extend_from_slice(&[0xee, 0xef]);
    let updated = append_root(&data, &root(2)).unwrap();
    assert_eq!(updated.len(), 1074);
    assert_eq!(&updated[1072..], &[0xee, 0xef]);
    let state = PoolState::decode(&updated).unwrap();
    assert!(state.check_root(&root(1)));
    assert!(state.check_root(&root(2)));
    assert_eq!(state.current_root, root(2));
    assert_eq!(state.roots_index, 2);
    assert_eq!(append_root(&data[..1000], &root(2)), Err(PoolError::InvalidAccountData));
    assert_eq!(append_root(&[0u8; 1072], &root(2)), Err(PoolError::UninitializedAccount));
}

#[test]
fn pool_accounts_are_the_derived_ones() {
    let state = account(find_pool_state_address().unwrap().0, PROGRAM_ID, 1, vec![]);
    let vault = account(find_vault_address().unwrap().0, PROGRAM_ID, 1, vec![]);
    assert_eq!(check_pool_accounts(&state, &vault), None);
    assert_eq!(check_pool_accounts(&vault, &state), Some(PoolError::InvalidAccountData));
    assert_eq!(check_pool_accounts(&state, &state), Some(PoolError::InvalidAccountData));
    let foreign = account(vault.address, [1u8; 32], 1, vec![]);
    assert_eq!(check_pool_accounts(&state, &foreign), Some(PoolError::InvalidAccountOwner));
    let foreign = account(state.address, [1u8; 32], 1, vec![]);
    assert_eq!(check_pool_accounts(&foreign, &vault), Some(PoolError::InvalidAccountOwner));
}

#[test]
fn initialise_plans() {
    let state_address = find_pool_state_address().unwrap().0;
    let vault_address = find_vault_address().unwrap().0;
    let absent = account(state_address, [0u8; 32], 0, vec![]);
    assert_eq!(plan_state(&absent, &RATE), Ok(Some((128 + 1072) * 6960)));
    let there = account(state_address, PROGRAM_ID, 1, vec![0u8; 1072]);
    assert_eq!(plan_state(&there, &RATE), Ok(None));
    let foreign = account(state_address, [1u8; 32], 1, vec![0u8; 1072]);
    assert_eq!(plan_state(&foreign, &RATE), Err(PoolError::InvalidAccountOwner));
    let elsewhere = account([1u8; 32], PROGRAM_ID, 1, vec![0u8; 1072]);
    assert_eq!(plan_state(&elsewhere, &RATE), Err(PoolError::InvalidAccountData));
    let no_vault = account(vault_address, [0u8; 32], 0, vec![]);
    assert_eq!(plan_vault(&no_vault, &RATE), Ok(Some(128 * 6960)));
    let vault = account(vault_address, PROGRAM_ID, 5, vec![]);
    assert_eq!(plan_vault(&vault, &RATE), Ok(None));
    let funded_foreign = account(vault_address, [1u8; 32], 5, vec![]);
    assert_eq!(plan_vault(&funded_foreign, &RATE), Err(PoolError::InvalidAccountOwner));
    assert_eq!(plan_vault(&elsewhere, &RATE), Err(PoolError::InvalidAccountData));
    assert_eq!(initial_data(&[0u8; 1071]), Err(PoolError::InvalidAccountData));
    assert_eq!(initial_data(&PoolState::new().encode()), Ok(None));
    let mut blank = vec![5u8; 1074];
    blank[0] = 0;
    let written = initial_data(&blank).unwrap().unwrap();
    assert_eq!(&written[..1072], &PoolState::new().encode()[..]);
    assert_eq!(&written[1072..], &[5, 5]);
    let accounts = vec![signer([7u8; 32], 5), absent, no_vault];
    assert_eq!(check_initialize(&accounts), Some(PoolError::NotEnoughAccountKeys));
}

#[test]
fn submission_decisions() {
    let commitment = [0x77u8; 32];
    let (place, bump) = find_audit_address(&commitment).unwrap();
    let mut data = vec![1u8; 400];
    data.extend_from_slice(&commitment);
    data.extend_from_slice(&[2u8; 32]);
    let mut accounts = vec![
        signer([7u8; 32], 5),
        account(place, [0u8; 32], 0, vec![]),
        account(AUDIT_VERIFIER_ID, [0u8; 32], 1, vec![]),
        account([0u8; 32], [0u8; 32], 1, vec![]),
    ];
    assert_eq!(
        check_submit_audit(&accounts, &data),
        Ok(AuditDecision::Submit { commitment, bump })
    );
    accounts[1].lamports = 1;
    assert_eq!(
        check_submit_audit(&accounts, &data),
        Err(PoolError::AccountAlreadyInitialized)
    );
    accounts[1].data = AuditRecord::new(commitment).encode();
    assert_eq!(check_submit_audit(&accounts, &data), Ok(AuditDecision::AlreadyRecorded));
    accounts[1].data.push(0);
    assert_eq!(check_submit_audit(&accounts, &data), Ok(AuditDecision::AlreadyRecorded));
}

#[test]
fn selectors_and_panic_policy() {
    assert_eq!((INITIALIZE, DEPOSIT, WITHDRAW, SUBMIT_AUDIT), (0, 1, 2, 3));
    assert_eq!(shielded_pool::entry::panic(), PanicPolicy::Halt);
}

#[test]
fn a_nullifier_is_claimed_once() {
    let mut ledger = Ledger::new();
    let payer = [7u8; 32];
    let nullifier = [0x42u8; 32];
    ledger.put(&payer, [0u8; 32], 2_000_000, vec![]);
    assert!(!is_spent(&ledger, &nullifier));
    assert_eq!(claim(&mut ledger, &payer, &nullifier, &RATE), Ok(()));
    assert!(is_spent(&ledger, &nullifier));
    assert!(!is_spent(&ledger, &[0x43u8; 32]));
    let marker = find_nullifier_address(&nullifier).unwrap().0;
    assert_eq!(ledger.lamports(&marker), 890_880);
    assert_eq!(ledger.lamports(&payer), 2_000_000 - 890_880);
    assert_eq!(
        claim(&mut ledger, &payer, &nullifier, &RATE),
        Err(PoolError::AccountAlreadyInitialized)
    );
    assert_eq!(ledger.lamports(&payer), 2_000_000 - 890_880);
    assert_eq!(claim(&mut ledger, &payer, &[0x43u8; 32], &RATE), Ok(()));
    assert_eq!(
        claim(&mut ledger, &payer, &[0x44u8; 32], &RATE),
        Err(PoolError::InsufficientFunds)
    );
    assert!(!is_spent(&ledger, &[0x44u8; 32]));
    let steep = RentRate { lamports_per_byte: u64::MAX };
    assert_eq!(claim(&mut ledger, &payer, &[0x45u8; 32], &steep), Err(PoolError::InvalidArgument));
}

#[test]
fn an_audit_is_on_record_only_as_a_written_record_of_the_pool() {
    let mut ledger = Ledger::new();
    let commitment = [0x77u8; 32];
    let place = find_audit_address(&commitment).unwrap().0;
    assert!(!is_audited(&ledger, &commitment));
    ledger.put(&place, PROGRAM_ID, 0, AuditRecord::new(commitment).encode());
    assert!(!is_audited(&ledger, &commitment));
    ledger.put(&place, [1u8; 32], 10, AuditRecord::new(commitment).encode());
    assert!(!is_audited(&ledger, &commitment));
    ledger.put(&place, PROGRAM_ID, 10, AuditRecord::new([0x78u8; 32]).encode());
    assert!(!is_audited(&ledger, &commitment));
    ledger.put(&place, PROGRAM_ID, 10, vec![0u8; 3]);
    assert!(!is_audited(&ledger, &commitment));
    ledger.put(&place, PROGRAM_ID, 10, AuditRecord::new(commitment).encode());
    assert!(is_audited(&ledger, &commitment));
    assert!(!is_audited(&ledger, &[0x78u8; 32]));
}

#[test]
fn the_verifier_is_handed_the_whole_buffer() {
    let data: Vec<u8> = (0..=255u8).collect();
    let call = verifier_call(&data, Variant::Basic);
    assert_eq!(call.program, WITHDRAW_VERIFIER_ID);
    assert_eq!(call.payload, data);
    let call = verifier_call(&data, Variant::AuditGated);
    assert_eq!(call.program, GATED_WITHDRAW_VERIFIER_ID);
    assert_eq!(call.payload, data);
    let call = submit_audit::verifier_call(&data[..10]);
    assert_eq!(call.program, AUDIT_VERIFIER_ID);
    assert_eq!(call.payload, &data[..10]);
}

#[test]
fn checks_against_given_places() {
    let here = Some(([0xa1u8; 32], 250u8));
    let there = Some(([0xa2u8; 32], 251u8));
    let commitment = [0x77u8; 32];
    let record = account([0xa1u8; 32], PROGRAM_ID, 10, AuditRecord::new(commitment).encode());
    assert_eq!(check_audit_link_at(&record, &commitment, here), Ok(()));
    assert_eq!(check_audit_link_at(&record, &commitment, there), Err(PoolError::InvalidAccountData));
    assert_eq!(check_audit_link_at(&record, &commitment, None), Err(PoolError::InvalidSeeds));
    let unfunded = account([0xa1u8; 32], PROGRAM_ID, 0, AuditRecord::new(commitment).encode());
    assert_eq!(check_audit_link_at(&unfunded, &commitment, here), Err(PoolError::AuditRequired));

    let vault = account([0xa2u8; 32], PROGRAM_ID, 890_880 + 50, vec![]);
    assert_eq!(withdrawable_at(&vault, &RATE, there), Ok(50));
    assert_eq!(withdrawable_at(&vault, &RATE, here), Err(PoolError::InvalidAccountData));
    assert_eq!(withdrawable_at(&vault, &RATE, None), Err(PoolError::InvalidSeeds));
    assert_eq!(pay_out_of(Ok(50), 1_000, 5, 50), Ok((950, 55)));
    assert_eq!(pay_out_of(Ok(50), 1_000, 5, 51), Err(PoolError::InsufficientFunds));
    assert_eq!(pay_out_of(Ok(50), 40, 5, 45), Err(PoolError::InsufficientFunds));
    assert_eq!(pay_out_of(Ok(50), 1_000, u64::MAX, 1), Err(PoolError::InsufficientFunds));
    assert_eq!(pay_out_of(Err(PoolError::InvalidSeeds), 1_000, 5, 1), Err(PoolError::InvalidSeeds));

    let state = account([0xa1u8; 32], PROGRAM_ID, 1, vec![]);
    assert_eq!(check_pool_accounts_at(&state, &vault, here, there), None);
    assert_eq!(
        check_pool_accounts_at(&state, &vault, there, here),
        Some(PoolError::InvalidAccountData)
    );
    assert_eq!(check_pool_accounts_at(&state, &vault, None, there), Some(PoolError::InvalidSeeds));
    assert_eq!(check_pool_accounts_at(&state, &vault, here, None), Some(PoolError::InvalidSeeds));

    assert_eq!(plan_state_at(&state, &RATE, here), Ok(Some(8_352_000)));
    assert_eq!(plan_state_at(&state, &RATE, there), Err(PoolError::InvalidAccountData));
    assert_eq!(plan_state_at(&state, &RATE, None), Err(PoolError::InvalidSeeds));
    assert_eq!(plan_vault_at(&vault, &RATE, there), Ok(None));
    assert_eq!(plan_vault_at(&vault, &RATE, None), Err(PoolError::InvalidSeeds));
    let no_vault = account([0xa2u8; 32], [0u8; 32], 0, vec![]);
    assert_eq!(plan_vault_at(&no_vault, &RATE, there), Ok(Some(890_880)));
}

#[test]
fn registry_against_given_places() {
    let mut ledger = Ledger::new();
    let payer = [7u8; 32];
    ledger.put(&payer, [0u8; 32], 2_000_000, vec![]);
    let marker = Some(([0xb1u8; 32], 255u8));
    assert!(!is_spent_at(&ledger, marker));
    assert!(!is_spent_at(&ledger, None));
    assert_eq!(claim_at(&mut ledger, &payer, None, &RATE), Err(PoolError::InvalidSeeds));
    assert_eq!(claim_at(&mut ledger, &payer, marker, &RATE), Ok(()));
    assert!(is_spent_at(&ledger, marker));
    assert_eq!(ledger.lamports(&[0xb1u8; 32]), 890_880);
    assert_eq!(
        claim_at(&mut ledger, &payer, marker, &RATE),
        Err(PoolError::AccountAlreadyInitialized)
    );
    let commitment = [0x77u8; 32];
    let place = Some(([0xb2u8; 32], 254u8));
    assert!(!is_audited_at(&ledger, &commitment, place));
    ledger.put(&[0xb2u8; 32], PROGRAM_ID, 1, AuditRecord::new(commitment).encode());
    assert!(is_audited_at(&ledger, &commitment, place));
    assert!(!is_audited_at(&ledger, &commitment, marker));
    assert!(!is_audited_at(&ledger, &commitment, None));
    assert_eq!(
        open(&mut ledger, &payer, &[0xb3u8; 32], Ok(Some(100)), 7),
        Ok(())
    );
    assert_eq!(ledger.lamports(&[0xb3u8; 32]), 100);
    assert_eq!(open(&mut ledger, &payer, &[0xb4u8; 32], Ok(None), 7), Ok(()));
    assert_eq!(ledger.lamports(&[0xb4u8; 32]), 0);
    assert_eq!(
        open(&mut ledger, &payer, &[0xb4u8; 32], Err(PoolError::InvalidSeeds), 7),
        Err(PoolError::InvalidSeeds)
    );
}

#[test]
fn withdrawal_checks_against_given_places() {
    let marker = Some(([0xc1u8; 32], 200u8));
    let place = Some(([0xc2u8; 32], 201u8));
    let commitment = [0x77u8; 32];
    let recipient = [9u8; 32];
    let accounts = vec![
        signer([7u8; 32], 5),
        account(recipient, [0u8; 32], 0, vec![]),
        account([0xc3u8; 32], PROGRAM_ID, 1_000_000, vec![]),
        account([0xc4u8; 32], PROGRAM_ID, 1, state_data(&[root(1), root(2)])),
        account([0xc1u8; 32], [0u8; 32], 0, vec![]),
        account(GATED_WITHDRAW_VERIFIER_ID, [0u8; 32], 1, vec![]),
        account([0xc2u8; 32], PROGRAM_ID, 3, AuditRecord::new(commitment).encode()),
        account([0u8; 32], [0u8; 32], 1, vec![]),
    ];
    let mut amount = [0u8; 32];
    amount[31] = 9;
    let mut data = vec![1u8; 400];
    data.extend_from_slice(&root(2));
    data.extend_from_slice(&[0x42u8; 32]);
    data.extend_from_slice(&encode_recipient(&recipient));
    data.extend_from_slice(&amount);
    data.extend_from_slice(&commitment);
    let expected = WithdrawRequest {
        root: root(2),
        nullifier: [0x42u8; 32],
        recipient: encode_recipient(&recipient),
        amount: 9,
        nullifier_bump: 200,
    };
    assert_eq!(
        check_withdraw_at(&accounts, &data, Variant::AuditGated, marker, place),
        Ok(expected)
    );
    assert_eq!(
        check_withdraw_at(&accounts, &data, Variant::AuditGated, None, place),
        Err(PoolError::InvalidSeeds)
    );
    assert_eq!(
        check_withdraw_at(&accounts, &data, Variant::AuditGated, marker, None),
        Err(PoolError::InvalidSeeds)
    );
    assert_eq!(
        check_withdraw_at(&accounts, &data, Variant::AuditGated, place, place),
        Err(PoolError::InvalidAccountData)
    );
    assert_eq!(
        check_withdraw_at(&accounts, &data, Variant::AuditGated, marker, marker),
        Err(PoolError::InvalidAccountData)
    );
    assert_eq!(
        check_withdraw_at(&accounts, &data[..559], Variant::AuditGated, marker, place),
        Err(PoolError::InvalidInstructionData)
    );
    let decision = check_submit_audit_at(
        &vec![
            signer([7u8; 32], 5),
            account([0xc2u8; 32], [0u8; 32], 0, vec![]),
            account(AUDIT_VERIFIER_ID, [0u8; 32], 1, vec![]),
            account([0u8; 32], [0u8; 32], 1, vec![]),
        ],
        &data[..464],
        place,
    );
    assert_eq!(decision, Ok(AuditDecision::Submit { commitment: root(2), bump: 201 }));
}

#[test]
fn release_moves_the_amount() {
    let vault = find_vault_address().unwrap().0;
    let mut ledger = Ledger::new();
    ledger.put(&vault, PROGRAM_ID, 890_880 + 500, vec![]);
    ledger.put(&[9u8; 32], [0u8; 32], 5, vec![]);
    let from = AccountMeta { address: vault, is_signer: false, is_writable: true };
    let to = AccountMeta { address: [9u8; 32], is_signer: false, is_writable: true };
    assert_eq!(release(&mut ledger, &from, &to, 501, &RATE), Err(PoolError::InsufficientFunds));
    assert_eq!(release(&mut ledger, &from, &to, 200, &RATE), Ok(()));
    assert_eq!(ledger.lamports(&vault), 890_880 + 300);
    assert_eq!(ledger.lamports(&[9u8; 32]), 205);
    assert_eq!(release(&mut ledger, &from, &from, 300, &RATE), Ok(()));
    assert_eq!(ledger.lamports(&vault), 890_880 + 300);
    assert_eq!(release(&mut ledger, &from, &from, 301, &RATE), Err(PoolError::InsufficientFunds));
    assert_eq!(release(&mut ledger, &to, &from, 1, &RATE), Err(PoolError::InvalidAccountData));
}
