//! End-to-end flows through the orchestration entry points, with the
//! real hash and program-address derivation underneath.

use bullposter::addr::Addr;
use bullposter::error::BullPosterError;
use bullposter::instruction::{kind_from_name, parse_instruction, BullPosterInstruction};
use bullposter::ops;
use bullposter::ops::LedgerOp;
use bullposter::pda;
use bullposter::store::RecordStore;
use bullposter::types::{CompetitionKind, CompetitionStatus};

fn addr(b: u8) -> Addr {
    Addr { bytes: vec![b; 32] }
}

fn program_id() -> Addr {
    addr(200)
}

fn derived(seed: Vec<u8>) -> Addr {
    let (a, _bump) = pda::derive_address(&seed, &program_id()).unwrap();
    a
}

fn raw(seed: Vec<u8>) -> Addr {
    let (a, _bump) = pda::derive_raw(&seed, &program_id()).unwrap();
    a
}

fn booted() -> RecordStore {
    let mut store = RecordStore::new();
    let auth = addr(9);
    let ops = ops::initialize_program(&mut store, &program_id(), &auth, &auth).unwrap();
    assert_eq!(ops.len(), 1);
    assert!(matches!(ops[0], LedgerOp::CreateMint { .. }));
    store
}

#[test]
fn derivation_is_deterministic_and_hashes() {
    let seed = pda::build_user_card_seed(&addr(1));
    let (a1, b1) = pda::derive_address(&seed, &program_id()).unwrap();
    let (a2, b2) = pda::derive_address(&seed, &program_id()).unwrap();
    assert_eq!(a1.bytes, a2.bytes);
    assert_eq!(b1, b2);
    assert_eq!(a1.bytes.len(), 32);
    // the derivation is not the seed handed back: different seeds give
    // different addresses, and neither equals its own seed prefix
    let other = pda::build_user_card_seed(&addr(2));
    let (a3, _b3) = pda::derive_address(&other, &program_id()).unwrap();
    assert_ne!(a1.bytes, a3.bytes);
    assert_ne!(a1.bytes[..], seed[..32.min(seed.len())]);
}

#[test]
fn initialize_program_is_guarded_and_once() {
    let mut store = RecordStore::new();
    let auth = addr(9);
    let r = ops::initialize_program(&mut store, &program_id(), &addr(8), &auth);
    assert!(matches!(r, Err(BullPosterError::MissingAuthorization)));
    ops::initialize_program(&mut store, &program_id(), &auth, &auth).unwrap();
    let r = ops::initialize_program(&mut store, &program_id(), &auth, &auth);
    assert!(matches!(r, Err(BullPosterError::AlreadyInitialized)));
}

#[test]
fn user_card_allocation_happens_once() {
    let mut store = booted();
    let user = addr(1);
    let claimed = derived(pda::build_user_card_seed(&user));
    ops::create_user_card(&mut store, &program_id(), &user, &claimed).unwrap();
    // the same derived address cannot be allocated twice
    let r = ops::create_user_card(&mut store, &program_id(), &user, &claimed);
    assert!(matches!(r, Err(BullPosterError::AlreadyInitialized)));
    // a wrong claimed address is rejected before any write
    let r = ops::create_user_card(&mut store, &program_id(), &addr(2), &claimed);
    assert!(matches!(r, Err(BullPosterError::AddressMismatch)));
}

fn register_program(store: &mut RecordStore, user: &Addr, name: &[u8]) -> Addr {
    let claimed_uc = derived(pda::build_user_card_seed(user));
    let prog = derived(pda::build_raid_program_seed(user, &name.to_vec()));
    let tok = derived(pda::build_program_token_seed(&prog));
    let ops_out = ops::initialize_raid_program(
        store,
        &program_id(),
        user,
        &prog,
        &claimed_uc,
        &tok,
        &addr(77),
        name.to_vec(),
        b"desc".to_vec(),
        b"url".to_vec(),
        1_000,
    )
    .unwrap();
    assert_eq!(ops_out.len(), 2);
    assert!(matches!(ops_out[0], LedgerOp::CreateTokenAccount { .. }));
    match &ops_out[1] {
        LedgerOp::Transfer { from, to, amount } => {
            assert_eq!(from.bytes, vec![77u8; 32]);
            assert_eq!(to.bytes, tok.bytes);
            assert_eq!(*amount, 1_000);
        },
        _ => panic!("expected a stake transfer"),
    }
    prog
}

#[test]
fn program_registration_rejects_long_names_and_duplicates() {
    let mut store = booted();
    let user = addr(1);
    let claimed = derived(pda::build_user_card_seed(&user));
    ops::create_user_card(&mut store, &program_id(), &user, &claimed).unwrap();
    let long = vec![b'x'; 33];
    let r = ops::initialize_raid_program(
        &mut store, &program_id(), &user, &addr(0), &claimed, &addr(0), &addr(0),
        long, b"d".to_vec(), b"u".to_vec(), 1,
    );
    assert!(matches!(r, Err(BullPosterError::InvalidArgument)));
    register_program(&mut store, &user, b"alpha");
    // the same (owner, name) pair cannot register twice
    let prog = derived(pda::build_raid_program_seed(&user, &b"alpha".to_vec()));
    let tok = derived(pda::build_program_token_seed(&prog));
    let r = ops::initialize_raid_program(
        &mut store, &program_id(), &user, &prog, &claimed, &tok, &addr(77),
        b"alpha".to_vec(), b"d".to_vec(), b"u".to_vec(), 1,
    );
    assert!(matches!(r, Err(BullPosterError::AlreadyInitialized)));
}

#[test]
fn pool_competition_fills_through_create_raid() {
    let mut store = booted();
    let user = addr(1);
    let uc = derived(pda::build_user_card_seed(&user));
    ops::create_user_card(&mut store, &program_id(), &user, &uc).unwrap();
    let now = 50_000u64;
    // the first creation opens competition number 1 of the kind
    let comp = derived(pda::build_competition_seed(CompetitionKind::Pool4, 1));
    let mut progs = Vec::new();
    for i in 0..4u8 {
        let name = vec![b'p', b'0' + i];
        let prog = register_program(&mut store, &user, &name);
        let raid = derived(pda::build_raid_seed(&comp, &prog));
        ops::create_raid(
            &mut store, &program_id(), &user, &prog, CompetitionKind::Pool4, None, &comp,
            &raid, now,
        )
        .unwrap();
        progs.push(prog);
    }
    // after four enrollments the competition is active
    let buf = store.open(&comp).unwrap();
    let (card, _n) = bullposter::competition::CompetitionCard::custom_deserialize(&buf).unwrap();
    assert!(matches!(card.status, CompetitionStatus::Active));
    assert_eq!(card.enrolled_programs.len(), 4);
    assert_eq!(card.start_time, now + 300);
    assert_eq!(card.end_time, now + 300 + 1200);
    // a fifth program cannot join the full competition: a new one opens
    // under the next sequence number, at a distinct address
    let prog5 = register_program(&mut store, &user, b"p5");
    let comp2 = derived(pda::build_competition_seed(CompetitionKind::Pool4, 2));
    assert_ne!(comp.bytes, comp2.bytes);
    let raid5 = derived(pda::build_raid_seed(&comp2, &prog5));
    ops::create_raid(
        &mut store, &program_id(), &user, &prog5, CompetitionKind::Pool4, None, &comp2, &raid5,
        now,
    )
    .unwrap();
    let buf2 = store.open(&comp2).unwrap();
    let (card2, _n) = bullposter::competition::CompetitionCard::custom_deserialize(&buf2).unwrap();
    assert!(matches!(card2.status, CompetitionStatus::Awaiting));
    assert_eq!(card2.enrolled_programs.len(), 1);
    // the bookkeeping indexes grew with every derived record
    let cidx = raw(pda::competitions_index_seed_bytes());
    let cbuf = store.open(&cidx).unwrap();
    let (cix, _n) =
        bullposter::state_cards::ProgramCompetitionsStateCard::custom_deserialize(&cbuf).unwrap();
    assert_eq!(cix.competition_pubkeys.len(), 2);
    assert_eq!(cix.competition_pubkeys[0].bytes, comp.bytes);
    assert_eq!(cix.competition_pubkeys[1].bytes, comp2.bytes);
    let ridx = raw(pda::raids_index_seed_bytes());
    let rbuf = store.open(&ridx).unwrap();
    let (rix, _n) =
        bullposter::state_cards::ProgramRaidsStateCard::custom_deserialize(&rbuf).unwrap();
    assert_eq!(rix.raid_pubkeys.len(), 5);
    // the registry's ledger entry points at the newest competition
    let reg = raw(pda::registry_seed_bytes());
    let regbuf = store.open(&reg).unwrap();
    let (regcard, _n) =
        bullposter::registry::ProgramStateCard::custom_deserialize(&regbuf).unwrap();
    assert_eq!(regcard.sequence_for(CompetitionKind::Pool4), 2);
    assert_eq!(regcard.last_competition_for(CompetitionKind::Pool4).bytes, comp2.bytes);
    assert_eq!(regcard.registered_programs_count, 5);
    // re-placing a program into its competition is rejected
    let raid0 = derived(pda::build_raid_seed(&comp2, &prog5));
    let r = ops::create_raid(
        &mut store, &program_id(), &user, &prog5, CompetitionKind::Pool4, None, &comp2, &raid0,
        now,
    );
    assert!(r.is_err());
}

#[test]
fn burn_flow_creates_audit_record_once() {
    let mut store = booted();
    let user = addr(1);
    let uc_addr = derived(pda::build_user_card_seed(&user));
    ops::create_user_card(&mut store, &program_id(), &user, &uc_addr).unwrap();
    let now = 10_000u64;
    let comp = derived(pda::build_competition_seed(CompetitionKind::Pool4, 1));
    let mut first_prog = None;
    for i in 0..4u8 {
        let name = vec![b'q', b'0' + i];
        let prog = register_program(&mut store, &user, &name);
        let raid = derived(pda::build_raid_seed(&comp, &prog));
        ops::create_raid(
            &mut store, &program_id(), &user, &prog, CompetitionKind::Pool4, None, &comp,
            &raid, now,
        )
        .unwrap();
        if first_prog.is_none() {
            first_prog = Some(prog);
        }
    }
    let prog = first_prog.unwrap();
    ops::enroll_in_program(&mut store, &user, &uc_addr, &prog).unwrap();
    // during the active window
    let burn_now = now + 400;
    let burn_addr = derived(pda::build_burn_seed(&user, &prog, burn_now));
    let ledger = ops::burn_tokens_for_raid(
        &mut store, &program_id(), &user, &uc_addr, &burn_addr, &prog, &comp, 250, burn_now,
    )
    .unwrap();
    assert_eq!(ledger.len(), 3);
    assert!(matches!(ledger[0], LedgerOp::CreateTokenAccount { .. }));
    assert!(matches!(ledger[1], LedgerOp::Transfer { amount: 250, .. }));
    assert!(matches!(ledger[2], LedgerOp::Burn { amount: 250, .. }));
    let buf = store.open(&burn_addr).unwrap();
    let (bc, _n) = bullposter::raid::BurnCard::custom_deserialize(&buf).unwrap();
    assert_eq!(bc.burn_amount, 250);
    assert_eq!(bc.timestamp, burn_now);
    assert_eq!(bc.user_id.bytes, user.bytes);
    // the same (user, program, timestamp) tuple cannot burn twice
    let r = ops::burn_tokens_for_raid(
        &mut store, &program_id(), &user, &uc_addr, &burn_addr, &prog, &comp, 250, burn_now,
    );
    assert!(matches!(r, Err(BullPosterError::AlreadyInitialized)));
    // after the end time the burn is refused
    let late = now + 300 + 1200;
    let late_addr = derived(pda::build_burn_seed(&user, &prog, late));
    let r = ops::burn_tokens_for_raid(
        &mut store, &program_id(), &user, &uc_addr, &late_addr, &prog, &comp, 1, late,
    );
    assert!(matches!(r, Err(BullPosterError::InvalidCompetitionStatus)));
}

#[test]
fn challenge_flow_accept_and_timeout() {
    let mut store = booted();
    let user_a = addr(1);
    let user_b = addr(2);
    for u in [&user_a, &user_b] {
        let uc = derived(pda::build_user_card_seed(u));
        ops::create_user_card(&mut store, &program_id(), u, &uc).unwrap();
    }
    let prog_a = register_program(&mut store, &user_a, b"attacker");
    let prog_b = register_program(&mut store, &user_b, b"defender");
    let now = 1_000u64;
    let comp = derived(pda::build_challenge_seed(1, &prog_a, &prog_b));
    let raid = derived(pda::build_raid_seed(&comp, &prog_a));
    ops::create_raid(
        &mut store, &program_id(), &user_a, &prog_a, CompetitionKind::PvP, Some(&prog_b),
        &comp, &raid, now,
    )
    .unwrap();
    // acceptance within the window activates
    ops::accept_pvp_challenge(&mut store, &user_b, &comp, &prog_b, now + 100).unwrap();
    let buf = store.open(&comp).unwrap();
    let (card, _n) = bullposter::competition::CompetitionCard::custom_deserialize(&buf).unwrap();
    assert!(matches!(card.status, CompetitionStatus::Active));
    // a second challenge, left past its deadline, expires on acceptance
    let comp2 = derived(pda::build_challenge_seed(2, &prog_a, &prog_b));
    let raid2 = derived(pda::build_raid_seed(&comp2, &prog_a));
    ops::create_raid(
        &mut store, &program_id(), &user_a, &prog_a, CompetitionKind::PvP, Some(&prog_b),
        &comp2, &raid2, now,
    )
    .unwrap();
    let r = ops::accept_pvp_challenge(&mut store, &user_b, &comp2, &prog_b, now + 301);
    assert!(matches!(r, Err(BullPosterError::InvalidCompetitionStatus)));
    let buf2 = store.open(&comp2).unwrap();
    let (card2, _n) = bullposter::competition::CompetitionCard::custom_deserialize(&buf2).unwrap();
    assert!(matches!(card2.status, CompetitionStatus::Expired));
}

#[test]
fn profile_update_and_enroll_errors() {
    let mut store = booted();
    let user = addr(1);
    let uc = derived(pda::build_user_card_seed(&user));
    ops::create_user_card(&mut store, &program_id(), &user, &uc).unwrap();
    ops::update_user_card(
        &mut store, &program_id(), &user, &uc,
        b"a@b.c".to_vec(), b"@h".to_vec(), b"1999".to_vec(), b"pic".to_vec(),
    )
    .unwrap();
    let buf = store.open(&uc).unwrap();
    let (card, _n) = bullposter::user_card::UserCard::custom_deserialize(&buf).unwrap();
    assert_eq!(card.user_email, b"a@b.c".to_vec());
    assert_eq!(card.user_dob, b"1999".to_vec());
    // an oversized picture URL is rejected at the boundary
    let r = ops::update_user_card(
        &mut store, &program_id(), &user, &uc,
        Vec::new(), Vec::new(), Vec::new(), vec![b'u'; 129],
    );
    assert!(matches!(r, Err(BullPosterError::InvalidArgument)));
    // double enrollment is rejected
    let prog = register_program(&mut store, &user, b"alpha");
    ops::enroll_in_program(&mut store, &user, &uc, &prog).unwrap();
    let r = ops::enroll_in_program(&mut store, &user, &uc, &prog);
    assert!(matches!(r, Err(BullPosterError::AlreadyInitialized)));
    // a card that does not belong to the signer is refused
    let r = ops::enroll_in_program(&mut store, &addr(3), &uc, &prog);
    assert!(matches!(r, Err(BullPosterError::MissingAuthorization)));
}

#[test]
fn authority_ops_and_stake() {
    let auth = addr(9);
    let mint = raw(pda::token_mint_seed_bytes());
    let holding = raw(pda::token_account_seed_bytes());
    let r = ops::authority_mint(&program_id(), &addr(8), &auth, &mint, &addr(3), 10);
    assert!(matches!(r, Err(BullPosterError::MissingAuthorization)));
    let r = ops::authority_mint(&program_id(), &auth, &auth, &addr(8), &addr(3), 10);
    assert!(matches!(r, Err(BullPosterError::AddressMismatch)));
    let out = ops::authority_mint(&program_id(), &auth, &auth, &mint, &addr(3), 10).unwrap();
    assert!(matches!(out[0], LedgerOp::MintTo { amount: 10, .. }));
    let out = ops::authority_transfer(&program_id(), &auth, &auth, &mint, &holding, &addr(3), 7)
        .unwrap();
    match &out[0] {
        LedgerOp::Transfer { from, to, amount } => {
            assert_eq!(from.bytes, holding.bytes);
            assert_eq!(to.bytes, vec![3u8; 32]);
            assert_eq!(*amount, 7);
        },
        _ => panic!("expected a transfer"),
    }
    let user = addr(1);
    let stake = derived(pda::build_stake_seed(&user, &b"alpha".to_vec()));
    let out = ops::initialize_bullposter_stake_account(
        &program_id(), &user, &b"alpha".to_vec(), &stake, &addr(77), 1_000,
    )
    .unwrap();
    assert_eq!(out.len(), 2);
}

#[test]
fn instruction_parsing_matches_the_wire() {
    // opcode 2: three length-prefixed strings
    let mut data = vec![2u8];
    for s in [b"nm".as_slice(), b"des".as_slice(), b"u".as_slice()] {
        data.extend_from_slice(&(s.len() as u32).to_le_bytes());
        data.extend_from_slice(s);
    }
    match parse_instruction(&data).unwrap() {
        BullPosterInstruction::CreateRaidProgram { name, description, profile_picture_url } => {
            assert_eq!(name, b"nm".to_vec());
            assert_eq!(description, b"des".to_vec());
            assert_eq!(profile_picture_url, b"u".to_vec());
        },
        _ => panic!("wrong instruction"),
    }
    // opcode 6: exactly eight payload bytes
    let mut data = vec![6u8];
    data.extend_from_slice(&42u64.to_le_bytes());
    match parse_instruction(&data).unwrap() {
        BullPosterInstruction::BurnTokens { burn_amount } => assert_eq!(burn_amount, 42),
        _ => panic!("wrong instruction"),
    }
    let mut bad = data.clone();
    bad.push(0);
    assert!(matches!(parse_instruction(&bad), Err(BullPosterError::InvalidArgument)));
    assert!(matches!(parse_instruction(&[]), Err(BullPosterError::InvalidArgument)));
    assert!(matches!(parse_instruction(&[77]), Err(BullPosterError::InvalidArgument)));
    assert!(matches!(parse_instruction(&[8]), Ok(BullPosterInstruction::CreateUserCard)));
    // competition-type names
    assert!(matches!(kind_from_name(&b"4-program".to_vec()), Some(CompetitionKind::Pool4)));
    assert!(matches!(kind_from_name(&b"6-program".to_vec()), Some(CompetitionKind::Pool6)));
    assert!(matches!(kind_from_name(&b"12-program".to_vec()), Some(CompetitionKind::Pool12)));
    assert!(matches!(kind_from_name(&b"24-program".to_vec()), Some(CompetitionKind::Pool24)));
    assert!(matches!(kind_from_name(&b"PvP".to_vec()), Some(CompetitionKind::PvP)));
    assert!(kind_from_name(&b"5-program".to_vec()).is_none());
}
