use bullposter::addr::Addr;
use bullposter::competition::CompetitionCard;
use bullposter::error::BullPosterError;
use bullposter::lifecycle::{accept_challenge, check_burn, enroll_program};
use bullposter::types::{CompetitionKind, CompetitionStatus};
use bullposter::user_card::UserCard;

fn addr(b: u8) -> Addr {
    Addr { bytes: vec![b; 32] }
}

fn pool4() -> CompetitionCard {
    CompetitionCard {
        competition_id: addr(100),
        competition_type: CompetitionKind::Pool4,
        start_time: 0,
        end_time: 0,
        total_rewards_distributed: 0,
        status: CompetitionStatus::Awaiting,
        enrolled_programs: Vec::new(),
        required_programs: 4,
        challenger_program_id: None,
        challenged_program_id: None,
        start_expiration: None,
        distributed_rewards: Vec::new(),
        placements: Vec::new(),
    }
}

#[test]
fn pool_fills_and_activates_on_fourth() {
    let mut c = pool4();
    let now = 1_000;
    for i in 1..=3u8 {
        enroll_program(&mut c, &addr(i), now).unwrap();
        assert!(matches!(c.status, CompetitionStatus::Awaiting), "after {} members", i);
    }
    enroll_program(&mut c, &addr(4), now).unwrap();
    assert!(matches!(c.status, CompetitionStatus::Active));
    assert_eq!(c.start_time, now + 300);
    assert_eq!(c.end_time, now + 300 + 1200);
    assert_eq!(c.enrolled_programs.len(), 4);
    // the fifth is turned away
    let mut c5 = c;
    c5.status = CompetitionStatus::Awaiting;
    let r = enroll_program(&mut c5, &addr(5), now);
    assert!(matches!(r, Err(BullPosterError::CompetitionFull)));
}

#[test]
fn duplicate_enrollment_is_rejected() {
    let mut c = pool4();
    enroll_program(&mut c, &addr(1), 0).unwrap();
    let r = enroll_program(&mut c, &addr(1), 0);
    assert!(matches!(r, Err(BullPosterError::AlreadyInitialized)));
    assert_eq!(c.enrolled_programs.len(), 1);
}

#[test]
fn enrolling_outside_awaiting_fails() {
    let mut c = pool4();
    c.status = CompetitionStatus::Finalized;
    let r = enroll_program(&mut c, &addr(1), 0);
    assert!(matches!(r, Err(BullPosterError::InvalidCompetitionStatus)));
}

fn challenge(deadline: u64) -> CompetitionCard {
    let mut c = pool4();
    c.competition_type = CompetitionKind::PvP;
    c.required_programs = 2;
    c.challenger_program_id = Some(addr(1));
    c.start_expiration = Some(deadline);
    c
}

#[test]
fn challenge_accepted_before_deadline_activates() {
    let mut c = challenge(1_000);
    accept_challenge(&mut c, &addr(2), 900).unwrap();
    assert!(matches!(c.status, CompetitionStatus::Active));
    assert_eq!(c.challenged_program_id.as_ref().unwrap().bytes, vec![2u8; 32]);
    assert_eq!(c.start_time, 900 + 300);
    assert_eq!(c.end_time, 900 + 300 + 1200);
}

#[test]
fn challenge_timeout_expires_and_fails() {
    let mut c = challenge(1_000);
    let r = accept_challenge(&mut c, &addr(2), 1_001);
    assert!(matches!(r, Err(BullPosterError::InvalidCompetitionStatus)));
    assert!(matches!(c.status, CompetitionStatus::Expired));
    assert_eq!(c.start_time, 0);
}

fn active_comp_with(program: &Addr) -> CompetitionCard {
    let mut c = pool4();
    c.status = CompetitionStatus::Active;
    c.end_time = 10_000;
    c.enrolled_programs = vec![Addr { bytes: program.bytes.clone() }];
    c
}

fn user_card_enrolled(user: &Addr, program: &Addr) -> UserCard {
    UserCard {
        user_pubkey: Addr { bytes: user.bytes.clone() },
        owned_programs: Vec::new(),
        enrolled_programs: vec![Addr { bytes: program.bytes.clone() }],
        is_conducting_raid: false,
        user_email: Vec::new(),
        user_dob: Vec::new(),
        user_twitter_handle: Vec::new(),
        total_rewards: 0,
        participated_raids: 0,
        raid_ranking: 0,
        engagement_score: 0,
        streaks: 0,
        profile_picture_url: Vec::new(),
    }
}

#[test]
fn burn_is_allowed_when_all_preconditions_hold() {
    let program = addr(7);
    let user = addr(8);
    let comp = active_comp_with(&program);
    let uc = user_card_enrolled(&user, &program);
    assert!(check_burn(&comp, &program, &uc, &user, 9_999).is_ok());
}

#[test]
fn burn_fails_after_competition_end() {
    let program = addr(7);
    let user = addr(8);
    let comp = active_comp_with(&program);
    let uc = user_card_enrolled(&user, &program);
    let r = check_burn(&comp, &program, &uc, &user, 10_000);
    assert!(matches!(r, Err(BullPosterError::InvalidCompetitionStatus)));
}

#[test]
fn burn_fails_when_program_not_enrolled() {
    let program = addr(7);
    let user = addr(8);
    let comp = active_comp_with(&addr(9));
    let uc = user_card_enrolled(&user, &program);
    let r = check_burn(&comp, &program, &uc, &user, 5);
    assert!(matches!(r, Err(BullPosterError::InvalidArgument)));
}

#[test]
fn burn_fails_when_user_not_enrolled_in_program() {
    let program = addr(7);
    let user = addr(8);
    let comp = active_comp_with(&program);
    let uc = user_card_enrolled(&user, &addr(9));
    let r = check_burn(&comp, &program, &uc, &user, 5);
    assert!(matches!(r, Err(BullPosterError::InvalidArgument)));
}

#[test]
fn burn_fails_for_wrong_card_owner() {
    let program = addr(7);
    let user = addr(8);
    let comp = active_comp_with(&program);
    let uc = user_card_enrolled(&addr(9), &program);
    let r = check_burn(&comp, &program, &uc, &user, 5);
    assert!(matches!(r, Err(BullPosterError::MissingAuthorization)));
}

#[test]
fn sequence_ledger_is_monotonic_per_kind() {
    let mut reg = bullposter::registry::ProgramStateCard {
        registered_programs_count: 0,
        registered_users_count: 0,
        pool4_sequence: 0,
        pool4_last_competition: addr(0),
        pool6_sequence: 0,
        pool6_last_competition: addr(0),
        pool12_sequence: 0,
        pool12_last_competition: addr(0),
        pool24_sequence: 0,
        pool24_last_competition: addr(0),
        pvp_sequence: 0,
        pvp_last_competition: addr(0),
    };
    let s0 = reg.sequence_for(CompetitionKind::Pool6);
    reg.set_competition(CompetitionKind::Pool6, s0 + 1, addr(1));
    let s1 = reg.sequence_for(CompetitionKind::Pool6);
    reg.set_competition(CompetitionKind::Pool6, s1 + 1, addr(2));
    let s2 = reg.sequence_for(CompetitionKind::Pool6);
    assert!(s2 > s1 && s1 > s0);
    assert_eq!(reg.last_competition_for(CompetitionKind::Pool6).bytes, vec![2u8; 32]);
    // other kinds untouched
    assert_eq!(reg.sequence_for(CompetitionKind::Pool4), 0);
    assert_eq!(reg.sequence_for(CompetitionKind::PvP), 0);
}
