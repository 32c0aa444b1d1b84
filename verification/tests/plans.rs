use escrow::address::{derive_addresses, Address, Derivation};
use escrow::authority::{vault_signer_seeds, ProgramAuthority};
use escrow::ledger::{Step, TokenAccount};
use escrow::program::{plan_cancel, plan_exchange, plan_initialize, EscrowError};
use escrow::record::EscrowAccount;

const PROGRAM: [u8; 32] = [
    180, 7, 63, 106, 249, 160, 2, 244, 42, 34, 148, 83, 206, 221, 40, 226, 187, 64, 109, 35, 115,
    45, 27, 135, 84, 208, 121, 45, 245, 235, 150, 168,
];

const RECORD_1: [u8; 32] = [
    144, 209, 121, 143, 4, 8, 9, 201, 106, 250, 169, 190, 94, 246, 42, 89, 127, 8, 247, 172, 87,
    164, 140, 199, 4, 247, 84, 228, 91, 144, 47, 104,
];

fn p(n: u8) -> Address {
    Address { bytes: [n; 32] }
}

fn account(address: u8, mint: u8, owner: Address, amount: u64) -> TokenAccount {
    TokenAccount { address: p(address), mint: p(mint), owner, amount }
}

fn record() -> EscrowAccount {
    EscrowAccount {
        maker: p(1),
        mint_b: p(11),
        amount_b: 50,
        id: 1,
        escrow_bump: 255,
        vault_bump: 255,
    }
}

fn authority() -> ProgramAuthority {
    ProgramAuthority::reconstruct(&Address { bytes: PROGRAM }, 1, 255).unwrap()
}

fn vault() -> TokenAccount {
    account(50, 10, Address { bytes: RECORD_1 }, 100)
}

#[test]
fn the_authority_speaks_for_the_record_address() {
    assert_eq!(authority().address(), Address { bytes: RECORD_1 });
}

#[test]
fn the_authority_signs_with_tag_id_and_bump() {
    let seeds = authority().signer_seeds();
    assert_eq!(seeds, vec![b"escrow".to_vec(), vec![1, 0, 0, 0, 0, 0, 0, 0], vec![255]]);
    let other = ProgramAuthority::reconstruct(&Address { bytes: PROGRAM }, 0x0102030405060708, 254);
    if let Some(other) = other {
        assert_eq!(
            other.signer_seeds(),
            vec![b"escrow".to_vec(), vec![8, 7, 6, 5, 4, 3, 2, 1], vec![254]]
        );
    }
}

#[test]
fn the_signer_seeds_give_the_address_of_the_authority() {
    let a = authority();
    let seeds = a.signer_seeds();
    let slices: Vec<&[u8]> = seeds.iter().map(|s| s.as_slice()).collect();
    let made = anchor_lang::prelude::Pubkey::create_program_address(
        &slices,
        &anchor_lang::prelude::Pubkey::new_from_array(PROGRAM),
    );
    assert_eq!(made.map(|k| k.to_bytes()).ok(), Some(a.address().bytes));
}

#[test]
fn no_authority_from_a_bump_that_gives_no_address() {
    assert!(ProgramAuthority::reconstruct(&Address { bytes: PROGRAM }, 7, 255).is_none());
    assert!(ProgramAuthority::reconstruct(&Address { bytes: PROGRAM }, 7, 254).is_some());
}

#[test]
fn plan_of_an_opening() {
    let d = Derivation {
        escrow_account: p(60),
        escrow_bump: 255,
        vault_account: p(61),
        vault_bump: 254,
    };
    let source = account(20, 10, p(1), 100);
    assert_eq!(
        plan_initialize(p(1), &source, p(10), 100, &d),
        Ok(vec![
            Step::Open { account: p(61), mint: p(10), owner: p(60) },
            Step::Transfer { from: p(20), to: p(61), amount: 100, authority: p(1) },
        ])
    );
    assert_eq!(
        plan_initialize(p(1), &source, p(10), 101, &d),
        Err(EscrowError::InsufficientBalance)
    );
    assert_eq!(plan_initialize(p(1), &source, p(11), 1, &d), Err(EscrowError::AssetTypeMismatch));
    assert_eq!(
        plan_initialize(p(1), &source, p(11), 101, &d),
        Err(EscrowError::AssetTypeMismatch)
    );
}

#[test]
fn plan_of_a_cancellation() {
    let destination = account(20, 10, p(1), 7);
    let s = plan_cancel(&record(), p(1), &authority(), &vault(), &destination).unwrap();
    assert_eq!(
        s.steps,
        vec![
            Step::Transfer {
                from: p(50),
                to: p(20),
                amount: 100,
                authority: Address { bytes: RECORD_1 },
            },
            Step::Close {
                account: p(50),
                destination: p(1),
                authority: Address { bytes: RECORD_1 },
            },
        ]
    );
    assert_eq!(s.record_refund, p(1));
}

#[test]
fn plan_of_a_cancellation_that_is_refused() {
    let destination = account(20, 10, p(1), 7);
    let foreign = account(22, 10, p(2), 7);
    let other_asset = account(21, 11, p(1), 7);
    assert_eq!(
        plan_cancel(&record(), p(2), &authority(), &vault(), &destination).err(),
        Some(EscrowError::Unauthorized)
    );
    assert_eq!(
        plan_cancel(&record(), p(2), &authority(), &vault(), &foreign).err(),
        Some(EscrowError::Unauthorized)
    );
    assert_eq!(
        plan_cancel(&record(), p(1), &authority(), &vault(), &foreign).err(),
        Some(EscrowError::WrongDestination)
    );
    assert_eq!(
        plan_cancel(&record(), p(1), &authority(), &vault(), &other_asset).err(),
        Some(EscrowError::WrongDestination)
    );
}

#[test]
fn plan_of_a_settlement() {
    let taker_b = account(23, 11, p(2), 80);
    let maker_b = account(21, 11, p(1), 0);
    let s =
        plan_exchange(&record(), p(2), &authority(), &vault(), &taker_b, &maker_b, p(22)).unwrap();
    assert_eq!(
        s.steps,
        vec![
            Step::Transfer { from: p(23), to: p(21), amount: 50, authority: p(2) },
            Step::Transfer {
                from: p(50),
                to: p(22),
                amount: 100,
                authority: Address { bytes: RECORD_1 },
            },
            Step::Close {
                account: p(50),
                destination: p(2),
                authority: Address { bytes: RECORD_1 },
            },
        ]
    );
    assert_eq!(s.record_refund, p(1));
}

#[test]
fn plan_of_a_settlement_that_is_refused() {
    let taker_b = account(23, 11, p(2), 80);
    let maker_b = account(21, 11, p(1), 0);
    let wrong_asset = account(22, 10, p(2), 80);
    let short = account(23, 11, p(2), 49);
    let not_makers = account(24, 11, p(3), 0);
    let makers_other_asset = account(20, 10, p(1), 0);
    let plan = |taker_b: &TokenAccount, maker_b: &TokenAccount| {
        plan_exchange(&record(), p(2), &authority(), &vault(), taker_b, maker_b, p(22)).err()
    };
    assert_eq!(plan(&wrong_asset, &maker_b), Some(EscrowError::AssetTypeMismatch));
    assert_eq!(plan(&wrong_asset, &not_makers), Some(EscrowError::AssetTypeMismatch));
    assert_eq!(plan(&short, &maker_b), Some(EscrowError::InsufficientBalance));
    assert_eq!(plan(&short, &not_makers), Some(EscrowError::InsufficientBalance));
    assert_eq!(plan(&taker_b, &not_makers), Some(EscrowError::WrongDestination));
    assert_eq!(plan(&taker_b, &makers_other_asset), Some(EscrowError::WrongDestination));
    assert_eq!(plan(&taker_b, &maker_b), None);
}

#[test]
fn the_vault_signs_with_tag_record_and_bump() {
    let d = Derivation {
        escrow_account: p(60),
        escrow_bump: 255,
        vault_account: p(61),
        vault_bump: 254,
    };
    assert_eq!(vault_signer_seeds(&d), vec![b"vault".to_vec(), vec![60u8; 32], vec![254]]);
}

#[test]
fn the_vault_seeds_give_the_address_of_the_vault() {
    let d = derive_addresses(&Address { bytes: PROGRAM }, 7).unwrap();
    let seeds = vault_signer_seeds(&d);
    let slices: Vec<&[u8]> = seeds.iter().map(|s| s.as_slice()).collect();
    let made = anchor_lang::prelude::Pubkey::create_program_address(
        &slices,
        &anchor_lang::prelude::Pubkey::new_from_array(PROGRAM),
    );
    assert_eq!(made.map(|k| k.to_bytes()).ok(), Some(d.vault_account.bytes));
}
