use bullposter::addr::Addr;
use bullposter::competition::CompetitionCard;
use bullposter::error::BullPosterError;
use bullposter::program_card::RaidProgramCard;
use bullposter::raid::{BurnCard, RaidCard};
use bullposter::registry::ProgramStateCard;
use bullposter::state_cards::{ProgramRaidsStateCard, RaidHistory};
use bullposter::types::{CompetitionKind, CompetitionStatus};
use bullposter::user_card::UserCard;

fn addr(b: u8) -> Addr {
    Addr { bytes: vec![b; 32] }
}

#[test]
fn competition_card_round_trips() {
    let card = CompetitionCard {
        competition_id: addr(1),
        competition_type: CompetitionKind::Pool4,
        start_time: 11,
        end_time: 22,
        total_rewards_distributed: 33,
        status: CompetitionStatus::Awaiting,
        enrolled_programs: vec![addr(2), addr(3)],
        required_programs: 4,
        challenger_program_id: Some(addr(4)),
        challenged_program_id: None,
        start_expiration: Some(99),
        distributed_rewards: b"rew".to_vec(),
        placements: b"pl".to_vec(),
    };
    let mut buf = vec![0u8; 1000];
    let n = card.custom_serialize(&mut buf).unwrap();
    let (back, m) = CompetitionCard::custom_deserialize(&buf).unwrap();
    assert_eq!(n, m);
    assert_eq!(back.competition_id.bytes, card.competition_id.bytes);
    assert_eq!(back.start_time, 11);
    assert_eq!(back.end_time, 22);
    assert!(matches!(back.status, CompetitionStatus::Awaiting));
    assert_eq!(back.enrolled_programs.len(), 2);
    assert_eq!(back.enrolled_programs[1].bytes, vec![3u8; 32]);
    assert_eq!(back.required_programs, 4);
    assert_eq!(back.challenger_program_id.unwrap().bytes, vec![4u8; 32]);
    assert!(back.challenged_program_id.is_none());
    assert_eq!(back.start_expiration, Some(99));
    assert_eq!(back.distributed_rewards, b"rew".to_vec());
    assert_eq!(back.placements, b"pl".to_vec());
}

#[test]
fn program_card_round_trips() {
    let card = RaidProgramCard {
        raid_program_id: addr(9),
        name: b"alpha".to_vec(),
        description: b"a program".to_vec(),
        user_key: addr(8),
        profile_picture_url: b"http".to_vec(),
        pvp_requests: vec![addr(5)],
        raids: vec![addr(6), addr(7)],
        is_conducting_raid: true,
        active_raid_id: addr(6),
        size: 1,
        total_rewards_distributed: 2,
        total_raid_wins: 3,
        total_raids_partaken: 4,
        program_rank: 5,
    };
    let mut buf = vec![0u8; 1000];
    let n = card.custom_serialize(&mut buf).unwrap();
    let (back, m) = RaidProgramCard::custom_deserialize(&buf).unwrap();
    assert_eq!(n, m);
    assert_eq!(back.name, b"alpha".to_vec());
    assert_eq!(back.description, b"a program".to_vec());
    assert_eq!(back.user_key.bytes, vec![8u8; 32]);
    assert_eq!(back.pvp_requests.len(), 1);
    assert_eq!(back.raids.len(), 2);
    assert!(back.is_conducting_raid);
    assert_eq!(back.program_rank, 5);
}

#[test]
fn user_card_round_trips() {
    let card = UserCard {
        user_pubkey: addr(1),
        owned_programs: vec![addr(2)],
        enrolled_programs: vec![addr(3), addr(4)],
        is_conducting_raid: false,
        user_email: b"a@b".to_vec(),
        user_dob: b"2000".to_vec(),
        user_twitter_handle: b"@x".to_vec(),
        total_rewards: 10,
        participated_raids: 11,
        raid_ranking: 12,
        engagement_score: 13,
        streaks: 14,
        profile_picture_url: b"pic".to_vec(),
    };
    let mut buf = vec![0u8; 1000];
    let n = card.custom_serialize(&mut buf).unwrap();
    let (back, m) = UserCard::custom_deserialize(&buf).unwrap();
    assert_eq!(n, m);
    assert_eq!(back.user_email, b"a@b".to_vec());
    assert_eq!(back.enrolled_programs.len(), 2);
    assert_eq!(back.streaks, 14);
}

#[test]
fn registry_and_small_records_round_trip() {
    let reg = ProgramStateCard {
        registered_programs_count: 7,
        registered_users_count: 8,
        pool4_sequence: 1,
        pool4_last_competition: addr(1),
        pool6_sequence: 2,
        pool6_last_competition: addr(2),
        pool12_sequence: 3,
        pool12_last_competition: addr(3),
        pool24_sequence: 4,
        pool24_last_competition: addr(4),
        pvp_sequence: 5,
        pvp_last_competition: addr(5),
    };
    let mut buf = vec![0u8; 1000];
    let n = reg.custom_serialize(&mut buf).unwrap();
    let (back, m) = ProgramStateCard::custom_deserialize(&buf).unwrap();
    assert_eq!(n, m);
    assert_eq!(back.registered_programs_count, 7);
    assert_eq!(back.pvp_sequence, 5);
    assert_eq!(back.pool24_last_competition.bytes, vec![4u8; 32]);

    let rc = RaidCard {
        competition_id: addr(1),
        raid_program_id: addr(2),
        raid_id: addr(3),
        distributed_rewards: Vec::new(),
        placements: Vec::new(),
    };
    let n = rc.custom_serialize(&mut buf).unwrap();
    let (back, m) = RaidCard::custom_deserialize(&buf).unwrap();
    assert_eq!(n, m);
    assert_eq!(back.raid_id.bytes, vec![3u8; 32]);

    let bc = BurnCard {
        raid_program_id: addr(1),
        competition_id: addr(2),
        user_id: addr(3),
        burn_amount: 500,
        timestamp: 123456,
    };
    let n = bc.custom_serialize(&mut buf).unwrap();
    let (back, m) = BurnCard::custom_deserialize(&buf).unwrap();
    assert_eq!(n, m);
    assert_eq!(back.burn_amount, 500);
    assert_eq!(back.timestamp, 123456);

    let lb = bullposter::state_cards::ProgramLeaderboardStateCard {
        leaderboard_data: b"[1,2]".to_vec(),
    };
    let n = lb.custom_serialize(&mut buf).unwrap();
    let (back, m) = bullposter::state_cards::ProgramLeaderboardStateCard::custom_deserialize(
        &buf,
    )
    .unwrap();
    assert_eq!(n, m);
    assert_eq!(back.leaderboard_data, b"[1,2]".to_vec());

    let rh = RaidHistory { history: b"{}".to_vec() };
    let n = rh.custom_serialize(&mut buf).unwrap();
    let (back, m) = RaidHistory::custom_deserialize(&buf).unwrap();
    assert_eq!(n, m);
    assert_eq!(back.history, b"{}".to_vec());
}

#[test]
fn exact_wire_bytes_of_index_card() {
    // One fixed expected value: two addresses encode as a 32-bit count
    // followed by each address's 32 bytes.
    let ix = ProgramRaidsStateCard { raid_pubkeys: vec![addr(0xAA), addr(0xBB)] };
    let mut buf = vec![0u8; 100];
    let n = ix.custom_serialize(&mut buf).unwrap();
    assert_eq!(n, 4 + 64);
    assert_eq!(&buf[0..4], &[2, 0, 0, 0]);
    assert_eq!(&buf[4..36], &[0xAA; 32]);
    assert_eq!(&buf[36..68], &[0xBB; 32]);
}

#[test]
fn shrink_leaves_vacated_bytes_zero() {
    let big = RaidHistory { history: vec![7u8; 50] };
    let small = RaidHistory { history: vec![9u8; 10] };
    let mut store = bullposter::store::RecordStore::new();
    let a = addr(1);
    store.allocate(&a, 100).unwrap();
    let mut buf = store.open(&a).unwrap();
    let n_big = big.custom_serialize(&mut buf).unwrap();
    assert_eq!(n_big, 54);
    let small_rec = small.encode_vec();
    bullposter::ops::rewrite_record(&mut buf, &small_rec, n_big).unwrap();
    for i in small_rec.len()..n_big {
        assert_eq!(buf[i], 0, "vacated byte {} not zeroed", i);
    }
}

#[test]
fn decode_rejects_length_past_end() {
    // a declared string length far past the end of the buffer
    let mut data = vec![0u8; 8];
    data[0] = 0xFF;
    data[1] = 0xFF;
    let r = RaidHistory::custom_deserialize(&data);
    assert!(matches!(r, Err(BullPosterError::MalformedRecord)));
}

#[test]
fn serialize_rejects_buffer_too_small() {
    let rh = RaidHistory { history: vec![1u8; 50] };
    let mut buf = vec![0u8; 10];
    let r = rh.custom_serialize(&mut buf);
    assert!(matches!(r, Err(BullPosterError::BufferTooSmall)));
    assert_eq!(buf, vec![0u8; 10]);
}
