//! The orchestration entry points: each reads records through the
//! codec, re-derives and validates addresses, mutates in-memory copies
//! and writes them back, growing or shrinking the occupied region with
//! the vacated bytes zeroed. Every entry point is proved equal to a
//! specification-level decision function over the store's map model,
//! and balance movements are returned as ledger operations for the
//! caller to perform.

use vstd::prelude::*;

use crate::addr::Addr;
use crate::codec::zero_range;
use crate::error::BullPosterError;
use crate::pda::{
    build_user_card_seed, derive_address, derive_raw, derive_spec, pda_of, registry_seed,
    registry_seed_bytes, user_card_seed,
};
use crate::registry::{dec_program_state, enc_program_state, ProgramStateCard, ProgramStateCardView};
use crate::store::{zeros, RecordStore};
use crate::user_card::{dec_user_card, enc_user_card, UserCard, UserCardView};

verus! {

/// The fixed capacity, in bytes, of every record buffer.
pub const RECORD_SPACE: usize = 1000;

/// A record buffer right after its first write: the record's encoding,
/// zero-filled to the buffer's capacity.
pub open spec fn stored_record(rec: Seq<u8>, cap: nat) -> Seq<u8> {
    rec + zeros((cap - rec.len()) as nat)
}

/// A record buffer after an in-place rewrite: the new encoding in
/// front, the vacated region up to the previous occupied size zeroed,
/// and everything past that untouched.
pub open spec fn rewritten(buf: Seq<u8>, rec: Seq<u8>, prev: int) -> Seq<u8> {
    Seq::new(buf.len(), |i: int| if i < rec.len() { rec[i] } else if i < prev { 0u8 } else { buf[i] })
}

/// Write a newly encoded record over a buffer whose previous occupied
/// size was `prev`. Shrink safety: when the new encoding is smaller,
/// every byte of the vacated region `[rec.len(), prev)` is left zero.
pub fn rewrite_record(buf: &mut Vec<u8>, rec: &Vec<u8>, prev: usize) -> (r: Result<
    (),
    BullPosterError,
>)
    ensures
        match r {
            Ok(_) => rec@.len() <= old(buf)@.len()
                && final(buf)@ == rewritten(old(buf)@, rec@, prev as int),
            Err(e) => e == BullPosterError::BufferTooSmall
                && rec@.len() > old(buf)@.len()
                && final(buf)@ == old(buf)@,
        },
{
    let n = rec.len();
    if n > buf.len() {
        return Err(BullPosterError::BufferTooSmall);
    }
    let mut i: usize = 0;
    while i < n
        invariant
            i <= n,
            n == rec@.len(),
            n <= buf@.len(),
            buf@.len() == old(buf)@.len(),
            forall|j: int| 0 <= j < i ==> buf@[j] == rec@[j],
            forall|j: int| i <= j < buf@.len() ==> buf@[j] == old(buf)@[j],
        decreases n - i,
    {
        buf.set(i, rec[i]);
        i += 1;
    }
    let end = if prev > buf.len() { buf.len() } else { prev };
    if n < end {
        zero_range(buf, n, end);
    }
    assert(buf@ =~= rewritten(old(buf)@, rec@, prev as int));
    Ok(())
}

/// Allocate a fresh record at an address and write its first contents;
/// the rest of the new buffer stays zero.
pub fn create_record(store: &mut RecordStore, addr: &Addr, rec: &Vec<u8>) -> (r: Result<
    (),
    BullPosterError,
>)
    requires
        old(store).wf(),
        addr.wf(),
        rec@.len() <= RECORD_SPACE,
    ensures
        final(store).wf(),
        match r {
            Ok(_) => !old(store)@.dom().contains(addr@)
                && final(store)@ == old(store)@.insert(
                    addr@,
                    stored_record(rec@, RECORD_SPACE as nat),
                ),
            Err(e) => e == BullPosterError::AlreadyInitialized
                && old(store)@.dom().contains(addr@)
                && final(store)@ == old(store)@,
        },
{
    match store.allocate(addr, RECORD_SPACE) {
        Ok(_) => {},
        Err(e) => {
            return Err(e);
        },
    }
    let mut buf: Vec<u8> = Vec::new();
    let n = rec.len();
    let mut i: usize = 0;
    while i < n
        invariant
            i <= n,
            n == rec@.len(),
            buf@ == rec@.subrange(0, i as int),
        decreases n - i,
    {
        buf.push(rec[i]);
        assert(buf@ =~= rec@.subrange(0, i + 1));
        i += 1;
    }
    assert(buf@ =~= rec@);
    let mut i: usize = n;
    while i < RECORD_SPACE
        invariant
            n <= i <= RECORD_SPACE,
            buf@.len() == i,
            buf@.subrange(0, n as int) == rec@,
            forall|j: int| n <= j < i ==> buf@[j] == 0u8,
        decreases RECORD_SPACE - i,
    {
        let ghost prev = buf@;
        buf.push(0u8);
        proof {
            assert(buf@.subrange(0, n as int) =~= prev.subrange(0, n as int));
        }
        i += 1;
    }
    assert(buf@ =~= stored_record(rec@, RECORD_SPACE as nat));
    match store.update(addr, buf) {
        Ok(_) => Ok(()),
        Err(e) => {
            proof {
                assert(false);
            }
            Err(e)
        },
    }
}

/// A user card as first created: owned by the user, with every list,
/// profile field and counter empty.
pub open spec fn fresh_user_card(user: Seq<u8>) -> UserCardView {
    UserCardView {
        user_pubkey: user,
        owned_programs: Seq::empty(),
        enrolled_programs: Seq::empty(),
        is_conducting_raid: false,
        user_email: Seq::empty(),
        user_dob: Seq::empty(),
        user_twitter_handle: Seq::empty(),
        total_rewards: 0,
        participated_raids: 0,
        raid_ranking: 0,
        engagement_score: 0,
        streaks: 0,
        profile_picture_url: Seq::empty(),
    }
}

/// Build a fresh user card record.
fn make_fresh_user_card(user: &Addr) -> (c: UserCard)
    requires
        user.wf(),
    ensures
        c.wf(),
        c@ == fresh_user_card(user@),
{
    let c = UserCard {
        user_pubkey: user.duplicate(),
        owned_programs: Vec::new(),
        enrolled_programs: Vec::new(),
        is_conducting_raid: false,
        user_email: Vec::new(),
        user_dob: Vec::new(),
        user_twitter_handle: Vec::new(),
        total_rewards: 0,
        participated_raids: 0,
        raid_ranking: 0,
        engagement_score: 0,
        streaks: 0,
        profile_picture_url: Vec::new(),
    };
    proof {
        assert(crate::addr::views_of(c.owned_programs@) =~= Seq::<Seq<u8>>::empty());
        assert(crate::addr::views_of(c.enrolled_programs@) =~= Seq::<Seq<u8>>::empty());
    }
    c
}

/// What creating a user card decides: the updated store, or the exact
/// error. Success is owed whenever the claimed address matches the
/// derivation, no record occupies it, and a well-formed registry record
/// exists whose user count can still advance.
pub open spec fn create_user_card_spec(
    m: Map<Seq<u8>, Seq<u8>>,
    program_id: Seq<u8>,
    user: Seq<u8>,
    claimed: Seq<u8>,
) -> Result<Map<Seq<u8>, Seq<u8>>, BullPosterError> {
    match derive_spec(user_card_seed(user), program_id) {
        None => Err(BullPosterError::AddressMismatch),
        Some((uc, b)) => {
            if claimed != uc {
                Err(BullPosterError::AddressMismatch)
            } else if m.dom().contains(uc) {
                Err(BullPosterError::AlreadyInitialized)
            } else {
                match pda_of(registry_seed(), program_id) {
                    None => Err(BullPosterError::AddressMismatch),
                    Some((reg, b2)) => {
                        if !m.dom().contains(reg) {
                            Err(BullPosterError::RecordNotFound)
                        } else {
                            match dec_program_state(m[reg]) {
                                None => Err(BullPosterError::MalformedRecord),
                                Some((st, n)) => {
                                    if st.registered_users_count == u64::MAX {
                                        Err(BullPosterError::InvalidArgument)
                                    } else {
                                        let st2 = ProgramStateCardView {
                                            registered_users_count: (st.registered_users_count
                                                + 1) as u64,
                                            ..st
                                        };
                                        if enc_user_card(fresh_user_card(user)).len()
                                            > RECORD_SPACE {
                                            Err(BullPosterError::BufferTooSmall)
                                        } else if enc_program_state(st2).len() > m[reg].len() {
                                            Err(BullPosterError::BufferTooSmall)
                                        } else {
                                            Ok(m.insert(
                                                uc,
                                                stored_record(
                                                    enc_user_card(fresh_user_card(user)),
                                                    RECORD_SPACE as nat,
                                                ),
                                            ).insert(
                                                reg,
                                                rewritten(m[reg], enc_program_state(st2), n),
                                            ))
                                        }
                                    }
                                },
                            }
                        }
                    },
                }
            }
        },
    }
}

/// Create a user card at its derived address and count the new user in
/// the registry.
pub fn create_user_card(
    store: &mut RecordStore,
    program_id: &Addr,
    user: &Addr,
    claimed: &Addr,
) -> (r: Result<(), BullPosterError>)
    requires
        old(store).wf(),
        program_id.wf(),
        user.wf(),
    ensures
        final(store).wf(),
        match r {
            Ok(_) => create_user_card_spec(old(store)@, program_id@, user@, claimed@)
                == Ok::<_, BullPosterError>(final(store)@),
            Err(e) => create_user_card_spec(old(store)@, program_id@, user@, claimed@)
                == Err::<Map<Seq<u8>, Seq<u8>>, _>(e) && final(store)@ == old(store)@,
        },
{
    let seed = build_user_card_seed(user);
    let (uc_addr, _bump) = match derive_address(&seed, program_id) {
        Ok(x) => x,
        Err(e) => {
            return Err(e);
        },
    };
    if !claimed.addr_eq(&uc_addr) {
        return Err(BullPosterError::AddressMismatch);
    }
    if store.occupied(&uc_addr) {
        return Err(BullPosterError::AlreadyInitialized);
    }
    let rseed = registry_seed_bytes();
    let (reg_addr, _rb) = match derive_raw(&rseed, program_id) {
        Ok(x) => x,
        Err(e) => {
            return Err(e);
        },
    };
    let mut reg_buf = match store.open(&reg_addr) {
        Ok(b) => b,
        Err(e) => {
            return Err(e);
        },
    };
    let (mut reg, reg_n) = match ProgramStateCard::custom_deserialize(reg_buf.as_slice()) {
        Ok(x) => x,
        Err(e) => {
            return Err(e);
        },
    };
    if reg.registered_users_count == u64::MAX {
        return Err(BullPosterError::InvalidArgument);
    }
    reg.registered_users_count = reg.registered_users_count + 1;
    let card = make_fresh_user_card(user);
    let card_rec = card.encode_vec();
    if card_rec.len() > RECORD_SPACE {
        return Err(BullPosterError::BufferTooSmall);
    }
    let reg_rec = reg.encode_vec();
    match rewrite_record(&mut reg_buf, &reg_rec, reg_n) {
        Ok(_) => {},
        Err(e) => {
            return Err(e);
        },
    }
    match create_record(store, &uc_addr, &card_rec) {
        Ok(_) => {},
        Err(e) => {
            proof {
                assert(false);
            }
            return Err(e);
        },
    }
    match store.update(&reg_addr, reg_buf) {
        Ok(_) => Ok(()),
        Err(e) => {
            proof {
                assert(false);
            }
            Err(e)
        },
    }
}

} // verus!

use crate::competition::{dec_competition_card, enc_competition_card, CompetitionCard};
use crate::lifecycle::{accept_spec, accept_deadline, enroll_spec};
use crate::program_card::{dec_program_card, enc_program_card, RaidProgramCard};
use crate::types::CompetitionStatus;

verus! {

/// A user card with its profile fields replaced.
pub open spec fn with_profile(
    v: UserCardView,
    email: Seq<u8>,
    twitter: Seq<u8>,
    dob: Seq<u8>,
    url: Seq<u8>,
) -> UserCardView {
    UserCardView {
        user_email: email,
        user_twitter_handle: twitter,
        user_dob: dob,
        profile_picture_url: url,
        ..v
    }
}

/// What updating a user card's profile decides: the updated store, or
/// the exact error. A picture URL over 128 bytes is rejected at the
/// boundary.
pub open spec fn update_user_card_spec(
    m: Map<Seq<u8>, Seq<u8>>,
    program_id: Seq<u8>,
    user: Seq<u8>,
    claimed: Seq<u8>,
    email: Seq<u8>,
    twitter: Seq<u8>,
    dob: Seq<u8>,
    url: Seq<u8>,
) -> Result<Map<Seq<u8>, Seq<u8>>, BullPosterError> {
    if url.len() > 128 {
        Err(BullPosterError::InvalidArgument)
    } else if email.len() > u32::MAX || twitter.len() > u32::MAX || dob.len() > u32::MAX {
        Err(BullPosterError::InvalidArgument)
    } else {
        match derive_spec(user_card_seed(user), program_id) {
            None => Err(BullPosterError::AddressMismatch),
            Some((uc, b)) => {
                if claimed != uc {
                    Err(BullPosterError::AddressMismatch)
                } else if !m.dom().contains(uc) {
                    Err(BullPosterError::RecordNotFound)
                } else {
                    match dec_user_card(m[uc]) {
                        None => Err(BullPosterError::MalformedRecord),
                        Some((c, n)) => {
                            let c2 = with_profile(c, email, twitter, dob, url);
                            if enc_user_card(c2).len() > m[uc].len() {
                                Err(BullPosterError::BufferTooSmall)
                            } else {
                                Ok(m.insert(uc, rewritten(m[uc], enc_user_card(c2), n)))
                            }
                        },
                    }
                }
            },
        }
    }
}

/// Replace the profile fields of the caller's user card.
pub fn update_user_card(
    store: &mut RecordStore,
    program_id: &Addr,
    user: &Addr,
    claimed: &Addr,
    user_email: Vec<u8>,
    user_twitter_handle: Vec<u8>,
    user_dob: Vec<u8>,
    profile_picture_url: Vec<u8>,
) -> (r: Result<(), BullPosterError>)
    requires
        old(store).wf(),
        program_id.wf(),
        user.wf(),
    ensures
        final(store).wf(),
        match r {
            Ok(_) => update_user_card_spec(
                old(store)@, program_id@, user@, claimed@,
                user_email@, user_twitter_handle@, user_dob@, profile_picture_url@,
            ) == Ok::<_, BullPosterError>(final(store)@),
            Err(e) => update_user_card_spec(
                old(store)@, program_id@, user@, claimed@,
                user_email@, user_twitter_handle@, user_dob@, profile_picture_url@,
            ) == Err::<Map<Seq<u8>, Seq<u8>>, _>(e) && final(store)@ == old(store)@,
        },
{
    if profile_picture_url.len() > 128 {
        return Err(BullPosterError::InvalidArgument);
    }
    if user_email.len() > u32::MAX as usize || user_twitter_handle.len() > u32::MAX as usize
        || user_dob.len() > u32::MAX as usize {
        return Err(BullPosterError::InvalidArgument);
    }
    let seed = build_user_card_seed(user);
    let (uc_addr, _bump) = match derive_address(&seed, program_id) {
        Ok(x) => x,
        Err(e) => {
            return Err(e);
        },
    };
    if !claimed.addr_eq(&uc_addr) {
        return Err(BullPosterError::AddressMismatch);
    }
    let mut buf = match store.open(&uc_addr) {
        Ok(b) => b,
        Err(e) => {
            return Err(e);
        },
    };
    let (mut card, n) = match UserCard::custom_deserialize(buf.as_slice()) {
        Ok(x) => x,
        Err(e) => {
            return Err(e);
        },
    };
    card.user_email = user_email;
    card.user_twitter_handle = user_twitter_handle;
    card.user_dob = user_dob;
    card.profile_picture_url = profile_picture_url;
    let rec = card.encode_vec();
    match rewrite_record(&mut buf, &rec, n) {
        Ok(_) => {},
        Err(e) => {
            return Err(e);
        },
    }
    match store.update(&uc_addr, buf) {
        Ok(_) => Ok(()),
        Err(e) => {
            proof {
                assert(false);
            }
            Err(e)
        },
    }
}

/// What enrolling a user into a program decides: the user card named by
/// the caller must belong to the signer, the program record must parse,
/// and a user already enrolled is turned away.
pub open spec fn enroll_in_program_spec(
    m: Map<Seq<u8>, Seq<u8>>,
    user: Seq<u8>,
    user_card_addr: Seq<u8>,
    program_addr: Seq<u8>,
) -> Result<Map<Seq<u8>, Seq<u8>>, BullPosterError> {
    if !m.dom().contains(user_card_addr) {
        Err(BullPosterError::RecordNotFound)
    } else {
        match dec_user_card(m[user_card_addr]) {
            None => Err(BullPosterError::MalformedRecord),
            Some((c, n)) => {
                if c.user_pubkey != user {
                    Err(BullPosterError::MissingAuthorization)
                } else if !m.dom().contains(program_addr) {
                    Err(BullPosterError::RecordNotFound)
                } else {
                    match dec_program_card(m[program_addr]) {
                        None => Err(BullPosterError::MalformedRecord),
                        Some((p, pn)) => {
                            if c.enrolled_programs.contains(p.raid_program_id) {
                                Err(BullPosterError::AlreadyInitialized)
                            } else if c.enrolled_programs.len() >= u32::MAX {
                                Err(BullPosterError::InvalidArgument)
                            } else {
                                let c2 = UserCardView {
                                    enrolled_programs: c.enrolled_programs.push(
                                        p.raid_program_id,
                                    ),
                                    ..c
                                };
                                if enc_user_card(c2).len() > m[user_card_addr].len() {
                                    Err(BullPosterError::BufferTooSmall)
                                } else {
                                    Ok(m.insert(
                                        user_card_addr,
                                        rewritten(m[user_card_addr], enc_user_card(c2), n),
                                    ))
                                }
                            }
                        },
                    }
                }
            },
        }
    }
}

/// Enroll the signing user into a raid program.
pub fn enroll_in_program(
    store: &mut RecordStore,
    user: &Addr,
    user_card_addr: &Addr,
    program_addr: &Addr,
) -> (r: Result<(), BullPosterError>)
    requires
        old(store).wf(),
        user.wf(),
        user_card_addr.wf(),
        program_addr.wf(),
    ensures
        final(store).wf(),
        match r {
            Ok(_) => enroll_in_program_spec(old(store)@, user@, user_card_addr@, program_addr@)
                == Ok::<_, BullPosterError>(final(store)@),
            Err(e) => enroll_in_program_spec(old(store)@, user@, user_card_addr@, program_addr@)
                == Err::<Map<Seq<u8>, Seq<u8>>, _>(e) && final(store)@ == old(store)@,
        },
{
    let mut buf = match store.open(user_card_addr) {
        Ok(b) => b,
        Err(e) => {
            return Err(e);
        },
    };
    let (mut card, n) = match UserCard::custom_deserialize(buf.as_slice()) {
        Ok(x) => x,
        Err(e) => {
            return Err(e);
        },
    };
    if !card.user_pubkey.addr_eq(user) {
        return Err(BullPosterError::MissingAuthorization);
    }
    let prog_buf = match store.open(program_addr) {
        Ok(b) => b,
        Err(e) => {
            return Err(e);
        },
    };
    let (prog, _pn) = match RaidProgramCard::custom_deserialize(prog_buf.as_slice()) {
        Ok(x) => x,
        Err(e) => {
            return Err(e);
        },
    };
    if crate::addr::contains_addr(&card.enrolled_programs, &prog.raid_program_id) {
        return Err(BullPosterError::AlreadyInitialized);
    }
    if card.enrolled_programs.len() >= u32::MAX as usize {
        return Err(BullPosterError::InvalidArgument);
    }
    let ghost prev = card.enrolled_programs@;
    card.enrolled_programs.push(prog.raid_program_id.duplicate());
    proof {
        assert(crate::addr::views_of(card.enrolled_programs@)
            =~= crate::addr::views_of(prev).push(prog.raid_program_id@));
    }
    let rec = card.encode_vec();
    match rewrite_record(&mut buf, &rec, n) {
        Ok(_) => {},
        Err(e) => {
            return Err(e);
        },
    }
    match store.update(user_card_addr, buf) {
        Ok(_) => Ok(()),
        Err(e) => {
            proof {
                assert(false);
            }
            Err(e)
        },
    }
}

/// What accepting a challenge decides: the new store together with the
/// outcome, since a timed-out challenge both persists its `Expired`
/// status and fails the call.
pub open spec fn accept_pvp_spec(
    m: Map<Seq<u8>, Seq<u8>>,
    user: Seq<u8>,
    competition_addr: Seq<u8>,
    challenged_program_addr: Seq<u8>,
    now: u64,
) -> (Map<Seq<u8>, Seq<u8>>, Result<(), BullPosterError>) {
    if !m.dom().contains(challenged_program_addr) {
        (m, Err(BullPosterError::RecordNotFound))
    } else {
        match dec_program_card(m[challenged_program_addr]) {
            None => (m, Err(BullPosterError::MalformedRecord)),
            Some((p, pn)) => {
                if p.user_key != user {
                    (m, Err(BullPosterError::MissingAuthorization))
                } else if !m.dom().contains(competition_addr) {
                    (m, Err(BullPosterError::RecordNotFound))
                } else {
                    match dec_competition_card(m[competition_addr]) {
                        None => (m, Err(BullPosterError::MalformedRecord)),
                        Some((c, cn)) => {
                            let c2 = accept_spec(c, p.raid_program_id, now).0;
                            let res = accept_spec(c, p.raid_program_id, now).1;
                            if c.status != CompetitionStatus::Awaiting {
                                (m, Err(BullPosterError::InvalidCompetitionStatus))
                            } else if now > accept_deadline(c) {
                                if enc_competition_card(c2).len() > m[competition_addr].len() {
                                    (m, Err(BullPosterError::BufferTooSmall))
                                } else {
                                    (
                                        m.insert(
                                            competition_addr,
                                            rewritten(
                                                m[competition_addr],
                                                enc_competition_card(c2),
                                                cn,
                                            ),
                                        ),
                                        Err(BullPosterError::InvalidCompetitionStatus),
                                    )
                                }
                            } else {
                                let p2 = crate::program_card::RaidProgramCardView {
                                    is_conducting_raid: true,
                                    ..p
                                };
                                if enc_competition_card(c2).len() > m[competition_addr].len() {
                                    (m, Err(BullPosterError::BufferTooSmall))
                                } else if enc_program_card(p2).len()
                                    > m[challenged_program_addr].len() {
                                    (m, Err(BullPosterError::BufferTooSmall))
                                } else {
                                    (
                                        m.insert(
                                            competition_addr,
                                            rewritten(
                                                m[competition_addr],
                                                enc_competition_card(c2),
                                                cn,
                                            ),
                                        ).insert(
                                            challenged_program_addr,
                                            rewritten(
                                                m[challenged_program_addr],
                                                enc_program_card(p2),
                                                pn,
                                            ),
                                        ),
                                        Ok(()),
                                    )
                                }
                            }
                        },
                    }
                }
            },
        }
    }
}

/// Accept a challenge on behalf of the challenged program's owner.
/// Acceptance after the deadline persists the competition as `Expired`
/// and fails.
#[verifier::rlimit(100)]
pub fn accept_pvp_challenge(
    store: &mut RecordStore,
    user: &Addr,
    competition_addr: &Addr,
    challenged_program_addr: &Addr,
    now: u64,
) -> (r: Result<(), BullPosterError>)
    requires
        old(store).wf(),
        user.wf(),
        competition_addr.wf(),
        challenged_program_addr.wf(),
        now <= u64::MAX - 1500,
    ensures
        final(store).wf(),
        final(store)@ == accept_pvp_spec(
            old(store)@, user@, competition_addr@, challenged_program_addr@, now,
        ).0,
        match r {
            Ok(_) => accept_pvp_spec(
                old(store)@, user@, competition_addr@, challenged_program_addr@, now,
            ).1 == Ok::<(), BullPosterError>(()),
            Err(e) => accept_pvp_spec(
                old(store)@, user@, competition_addr@, challenged_program_addr@, now,
            ).1 == Err::<(), BullPosterError>(e),
        },
{
    let prog_buf = match store.open(challenged_program_addr) {
        Ok(b) => b,
        Err(e) => {
            return Err(e);
        },
    };
    let (mut prog, pn) = match RaidProgramCard::custom_deserialize(prog_buf.as_slice()) {
        Ok(x) => x,
        Err(e) => {
            return Err(e);
        },
    };
    if !prog.user_key.addr_eq(user) {
        return Err(BullPosterError::MissingAuthorization);
    }
    let mut comp_buf = match store.open(competition_addr) {
        Ok(b) => b,
        Err(e) => {
            return Err(e);
        },
    };
    let (mut comp, cn) = match CompetitionCard::custom_deserialize(comp_buf.as_slice()) {
        Ok(x) => x,
        Err(e) => {
            return Err(e);
        },
    };
    let was_awaiting = matches!(comp.status, CompetitionStatus::Awaiting);
    let accepted = crate::lifecycle::accept_challenge(&mut comp, &prog.raid_program_id, now);
    match accepted {
        Err(e) => {
            if was_awaiting {
                let rec = comp.encode_vec();
                match rewrite_record(&mut comp_buf, &rec, cn) {
                    Ok(_) => {},
                    Err(e2) => {
                        return Err(e2);
                    },
                }
                match store.update(competition_addr, comp_buf) {
                    Ok(_) => {},
                    Err(_) => {
                        proof {
                            assert(false);
                        }
                    },
                }
            }
            Err(BullPosterError::InvalidCompetitionStatus)
        },
        Ok(_) => {
            let comp_rec = comp.encode_vec();
            if comp_rec.len() > comp_buf.len() {
                return Err(BullPosterError::BufferTooSmall);
            }
            let mut prog_buf2 = prog_buf;
            prog.is_conducting_raid = true;
            let prog_rec = prog.encode_vec();
            if prog_rec.len() > prog_buf2.len() {
                return Err(BullPosterError::BufferTooSmall);
            }
            match rewrite_record(&mut comp_buf, &comp_rec, cn) {
                Ok(_) => {},
                Err(_) => {
                    proof {
                        assert(false);
                    }
                },
            }
            match rewrite_record(&mut prog_buf2, &prog_rec, pn) {
                Ok(_) => {},
                Err(_) => {
                    proof {
                        assert(false);
                    }
                },
            }
            match store.update(competition_addr, comp_buf) {
                Ok(_) => {},
                Err(_) => {
                    proof {
                        assert(false);
                    }
                },
            }
            match store.update(challenged_program_addr, prog_buf2) {
                Ok(_) => {},
                Err(_) => {
                    proof {
                        assert(false);
                    }
                },
            }
            Ok(())
        },
    }
}

} // verus!

use crate::addr::zero_addr;
use crate::pda::{build_stake_seed, stake_seed, token_account_seed, token_account_seed_bytes,
    token_mint_seed, token_mint_seed_bytes, raid_programs_index_seed,
    raid_programs_index_seed_bytes, raids_index_seed, raids_index_seed_bytes,
    competitions_index_seed, competitions_index_seed_bytes, leaderboard_seed,
    leaderboard_seed_bytes};
use crate::state_cards::{
    enc_competitions_card, enc_leaderboard_card, enc_raid_programs_card, enc_raids_card,
    ProgramCompetitionsStateCard, ProgramCompetitionsStateCardView, ProgramLeaderboardStateCard,
    ProgramLeaderboardStateCardView, ProgramRaidProgramsStateCard,
    ProgramRaidProgramsStateCardView, ProgramRaidsStateCard, ProgramRaidsStateCardView,
};

verus! {

/// A balance-ledger effect that an entry point asks its caller to
/// perform: the core never touches the external ledger itself, only
/// describes the movement.
pub enum LedgerOp {
    /// Create and initialize the mint under the program's authority.
    CreateMint { mint: Addr, bump: u8 },
    /// Create and initialize a token holding record.
    CreateTokenAccount { account: Addr, bump: u8 },
    /// Move balance between two holdings.
    Transfer { from: Addr, to: Addr, amount: u64 },
    /// Mint fresh balance to a holding.
    MintTo { to: Addr, amount: u64 },
    /// Destroy balance held by a record, signed with its bump.
    Burn { from: Addr, bump: u8, amount: u64 },
}

/// Mathematical content of a ledger operation.
pub ghost enum LedgerOpView {
    CreateMint { mint: Seq<u8>, bump: u8 },
    CreateTokenAccount { account: Seq<u8>, bump: u8 },
    Transfer { from: Seq<u8>, to: Seq<u8>, amount: u64 },
    MintTo { to: Seq<u8>, amount: u64 },
    Burn { from: Seq<u8>, bump: u8, amount: u64 },
}

impl View for LedgerOp {
    type V = LedgerOpView;

    open spec fn view(&self) -> LedgerOpView {
        match self {
            LedgerOp::CreateMint { mint, bump } => LedgerOpView::CreateMint {
                mint: mint@,
                bump: *bump,
            },
            LedgerOp::CreateTokenAccount { account, bump } => LedgerOpView::CreateTokenAccount {
                account: account@,
                bump: *bump,
            },
            LedgerOp::Transfer { from, to, amount } => LedgerOpView::Transfer {
                from: from@,
                to: to@,
                amount: *amount,
            },
            LedgerOp::MintTo { to, amount } => LedgerOpView::MintTo {
                to: to@,
                amount: *amount,
            },
            LedgerOp::Burn { from, bump, amount } => LedgerOpView::Burn {
                from: from@,
                bump: *bump,
                amount: *amount,
            },
        }
    }
}

/// The views of a list of ledger operations, in order.
pub open spec fn ledger_views(l: Seq<LedgerOp>) -> Seq<LedgerOpView> {
    l.map_values(|o: LedgerOp| o@)
}

/// The registry as first created: every counter and sequence at zero,
/// every current-competition pointer the zero address.
pub open spec fn fresh_program_state() -> ProgramStateCardView {
    ProgramStateCardView {
        registered_programs_count: 0,
        registered_users_count: 0,
        pool4_sequence: 0,
        pool4_last_competition: zero_addr(),
        pool6_sequence: 0,
        pool6_last_competition: zero_addr(),
        pool12_sequence: 0,
        pool12_last_competition: zero_addr(),
        pool24_sequence: 0,
        pool24_last_competition: zero_addr(),
        pvp_sequence: 0,
        pvp_last_competition: zero_addr(),
    }
}

/// Build a fresh registry record.
fn make_fresh_program_state() -> (c: ProgramStateCard)
    ensures
        c.wf(),
        c@ == fresh_program_state(),
{
    ProgramStateCard {
        registered_programs_count: 0,
        registered_users_count: 0,
        pool4_sequence: 0,
        pool4_last_competition: Addr::zeroed(),
        pool6_sequence: 0,
        pool6_last_competition: Addr::zeroed(),
        pool12_sequence: 0,
        pool12_last_competition: Addr::zeroed(),
        pool24_sequence: 0,
        pool24_last_competition: Addr::zeroed(),
        pvp_sequence: 0,
        pvp_last_competition: Addr::zeroed(),
    }
}

/// What bootstrapping the program state decides: only the configured
/// authority may do it, the five bookkeeping records appear fresh at
/// their fixed domain addresses, and the caller is asked to create the
/// mint.
pub open spec fn initialize_program_spec(
    m: Map<Seq<u8>, Seq<u8>>,
    program_id: Seq<u8>,
    initializer: Seq<u8>,
    authority: Seq<u8>,
) -> Result<(Map<Seq<u8>, Seq<u8>>, Seq<LedgerOpView>), BullPosterError> {
    if initializer != authority {
        Err(BullPosterError::MissingAuthorization)
    } else {
        match (
            pda_of(registry_seed(), program_id),
            pda_of(raid_programs_index_seed(), program_id),
            pda_of(raids_index_seed(), program_id),
            pda_of(competitions_index_seed(), program_id),
            pda_of(leaderboard_seed(), program_id),
            pda_of(crate::pda::token_mint_seed(), program_id),
        ) {
            (Some(reg), Some(rpi), Some(ri), Some(ci), Some(lb), Some(mint)) => {
                if reg.0 == rpi.0 || reg.0 == ri.0 || reg.0 == ci.0 || reg.0 == lb.0
                    || rpi.0 == ri.0 || rpi.0 == ci.0 || rpi.0 == lb.0
                    || ri.0 == ci.0 || ri.0 == lb.0 || ci.0 == lb.0 {
                    Err(BullPosterError::AlreadyInitialized)
                } else if m.dom().contains(reg.0) || m.dom().contains(rpi.0)
                    || m.dom().contains(ri.0) || m.dom().contains(ci.0)
                    || m.dom().contains(lb.0) {
                    Err(BullPosterError::AlreadyInitialized)
                } else if enc_program_state(fresh_program_state()).len() > RECORD_SPACE
                    || enc_raid_programs_card(ProgramRaidProgramsStateCardView {
                        raid_program_pubkeys: Seq::empty(),
                    }).len() > RECORD_SPACE
                    || enc_raids_card(ProgramRaidsStateCardView {
                        raid_pubkeys: Seq::empty(),
                    }).len() > RECORD_SPACE
                    || enc_competitions_card(ProgramCompetitionsStateCardView {
                        competition_pubkeys: Seq::empty(),
                    }).len() > RECORD_SPACE
                    || enc_leaderboard_card(ProgramLeaderboardStateCardView {
                        leaderboard_data: Seq::empty(),
                    }).len() > RECORD_SPACE {
                    Err(BullPosterError::BufferTooSmall)
                } else {
                    Ok((
                        m.insert(reg.0, stored_record(
                            enc_program_state(fresh_program_state()),
                            RECORD_SPACE as nat,
                        )).insert(rpi.0, stored_record(
                            enc_raid_programs_card(ProgramRaidProgramsStateCardView {
                                raid_program_pubkeys: Seq::empty(),
                            }),
                            RECORD_SPACE as nat,
                        )).insert(ri.0, stored_record(
                            enc_raids_card(ProgramRaidsStateCardView {
                                raid_pubkeys: Seq::empty(),
                            }),
                            RECORD_SPACE as nat,
                        )).insert(ci.0, stored_record(
                            enc_competitions_card(ProgramCompetitionsStateCardView {
                                competition_pubkeys: Seq::empty(),
                            }),
                            RECORD_SPACE as nat,
                        )).insert(lb.0, stored_record(
                            enc_leaderboard_card(ProgramLeaderboardStateCardView {
                                leaderboard_data: Seq::empty(),
                            }),
                            RECORD_SPACE as nat,
                        )),
                        seq![LedgerOpView::CreateMint { mint: mint.0, bump: mint.1 }],
                    ))
                }
            },
            _ => Err(BullPosterError::AddressMismatch),
        }
    }
}

/// Bootstrap the program: create the registry, the three indexes and
/// the leaderboard record at their fixed domain addresses, and ask the
/// caller to create the mint.
#[verifier::rlimit(100)]
pub fn initialize_program(
    store: &mut RecordStore,
    program_id: &Addr,
    initializer: &Addr,
    authority: &Addr,
) -> (r: Result<Vec<LedgerOp>, BullPosterError>)
    requires
        old(store).wf(),
        program_id.wf(),
    ensures
        final(store).wf(),
        match r {
            Ok(ops) => initialize_program_spec(old(store)@, program_id@, initializer@, authority@)
                == Ok::<_, BullPosterError>((final(store)@, ledger_views(ops@))),
            Err(e) => initialize_program_spec(old(store)@, program_id@, initializer@, authority@)
                == Err::<(Map<Seq<u8>, Seq<u8>>, Seq<LedgerOpView>), _>(e)
                && final(store)@ == old(store)@,
        },
{
    if !initializer.addr_eq(authority) {
        return Err(BullPosterError::MissingAuthorization);
    }
    let s1 = registry_seed_bytes();
    let (reg, _b1) = match derive_raw(&s1, program_id) {
        Ok(x) => x,
        Err(e) => {
            return Err(e);
        },
    };
    let s2 = raid_programs_index_seed_bytes();
    let (rpi, _b2) = match derive_raw(&s2, program_id) {
        Ok(x) => x,
        Err(e) => {
            return Err(e);
        },
    };
    let s3 = raids_index_seed_bytes();
    let (ri, _b3) = match derive_raw(&s3, program_id) {
        Ok(x) => x,
        Err(e) => {
            return Err(e);
        },
    };
    let s4 = competitions_index_seed_bytes();
    let (ci, _b4) = match derive_raw(&s4, program_id) {
        Ok(x) => x,
        Err(e) => {
            return Err(e);
        },
    };
    let s5 = leaderboard_seed_bytes();
    let (lb, _b5) = match derive_raw(&s5, program_id) {
        Ok(x) => x,
        Err(e) => {
            return Err(e);
        },
    };
    let s6 = token_mint_seed_bytes();
    let (mint, mint_bump) = match derive_raw(&s6, program_id) {
        Ok(x) => x,
        Err(e) => {
            return Err(e);
        },
    };
    if reg.addr_eq(&rpi) || reg.addr_eq(&ri) || reg.addr_eq(&ci) || reg.addr_eq(&lb)
        || rpi.addr_eq(&ri) || rpi.addr_eq(&ci) || rpi.addr_eq(&lb)
        || ri.addr_eq(&ci) || ri.addr_eq(&lb) || ci.addr_eq(&lb) {
        return Err(BullPosterError::AlreadyInitialized);
    }
    if store.occupied(&reg) || store.occupied(&rpi) || store.occupied(&ri)
        || store.occupied(&ci) || store.occupied(&lb) {
        return Err(BullPosterError::AlreadyInitialized);
    }
    let state = make_fresh_program_state();
    let state_rec = state.encode_vec();
    let rp_card = ProgramRaidProgramsStateCard { raid_program_pubkeys: Vec::new() };
    proof {
        assert(crate::addr::views_of(rp_card.raid_program_pubkeys@)
            =~= Seq::<Seq<u8>>::empty());
    }
    let rp_rec = rp_card.encode_vec();
    let r_card = ProgramRaidsStateCard { raid_pubkeys: Vec::new() };
    proof {
        assert(crate::addr::views_of(r_card.raid_pubkeys@) =~= Seq::<Seq<u8>>::empty());
    }
    let r_rec = r_card.encode_vec();
    let c_card = ProgramCompetitionsStateCard { competition_pubkeys: Vec::new() };
    proof {
        assert(crate::addr::views_of(c_card.competition_pubkeys@) =~= Seq::<Seq<u8>>::empty());
    }
    let c_rec = c_card.encode_vec();
    let l_card = ProgramLeaderboardStateCard { leaderboard_data: Vec::new() };
    let l_rec = l_card.encode_vec();
    if state_rec.len() > RECORD_SPACE || rp_rec.len() > RECORD_SPACE || r_rec.len() > RECORD_SPACE
        || c_rec.len() > RECORD_SPACE || l_rec.len() > RECORD_SPACE {
        return Err(BullPosterError::BufferTooSmall);
    }
    match create_record(store, &reg, &state_rec) {
        Ok(_) => {},
        Err(e) => {
            proof {
                assert(false);
            }
            return Err(e);
        },
    }
    match create_record(store, &rpi, &rp_rec) {
        Ok(_) => {},
        Err(e) => {
            proof {
                assert(false);
            }
            return Err(e);
        },
    }
    match create_record(store, &ri, &r_rec) {
        Ok(_) => {},
        Err(e) => {
            proof {
                assert(false);
            }
            return Err(e);
        },
    }
    match create_record(store, &ci, &c_rec) {
        Ok(_) => {},
        Err(e) => {
            proof {
                assert(false);
            }
            return Err(e);
        },
    }
    match create_record(store, &lb, &l_rec) {
        Ok(_) => {},
        Err(e) => {
            proof {
                assert(false);
            }
            return Err(e);
        },
    }
    let mut ops: Vec<LedgerOp> = Vec::new();
    ops.push(LedgerOp::CreateMint { mint, bump: mint_bump });
    proof {
        assert(ledger_views(ops@) =~= seq![
            LedgerOpView::CreateMint { mint: ops@[0]->CreateMint_mint@, bump: mint_bump },
        ]);
    }
    Ok(ops)
}

} // verus!

verus! {

/// What an authority mint decides: only the configured authority may
/// mint, and only to the mint derived from the program domain.
pub open spec fn authority_mint_spec(
    program_id: Seq<u8>,
    signer: Seq<u8>,
    authority: Seq<u8>,
    claimed_mint: Seq<u8>,
    recipient: Seq<u8>,
    amount: u64,
) -> Result<Seq<LedgerOpView>, BullPosterError> {
    if signer != authority {
        Err(BullPosterError::MissingAuthorization)
    } else {
        match pda_of(token_mint_seed(), program_id) {
            None => Err(BullPosterError::AddressMismatch),
            Some((mint, b)) => {
                if claimed_mint != mint {
                    Err(BullPosterError::AddressMismatch)
                } else {
                    Ok(seq![LedgerOpView::MintTo { to: recipient, amount }])
                }
            },
        }
    }
}

/// Mint balance to a recipient, on the authority's signature alone.
pub fn authority_mint(
    program_id: &Addr,
    signer: &Addr,
    authority: &Addr,
    claimed_mint: &Addr,
    recipient: &Addr,
    amount: u64,
) -> (r: Result<Vec<LedgerOp>, BullPosterError>)
    requires
        program_id.wf(),
        recipient.wf(),
    ensures
        match r {
            Ok(ops) => authority_mint_spec(
                program_id@, signer@, authority@, claimed_mint@, recipient@, amount,
            ) == Ok::<_, BullPosterError>(ledger_views(ops@)),
            Err(e) => authority_mint_spec(
                program_id@, signer@, authority@, claimed_mint@, recipient@, amount,
            ) == Err::<Seq<LedgerOpView>, _>(e),
        },
{
    if !signer.addr_eq(authority) {
        return Err(BullPosterError::MissingAuthorization);
    }
    let s = token_mint_seed_bytes();
    let (mint, _b) = match derive_raw(&s, program_id) {
        Ok(x) => x,
        Err(e) => {
            return Err(e);
        },
    };
    if !claimed_mint.addr_eq(&mint) {
        return Err(BullPosterError::AddressMismatch);
    }
    let mut ops: Vec<LedgerOp> = Vec::new();
    ops.push(LedgerOp::MintTo { to: recipient.duplicate(), amount });
    proof {
        assert(ledger_views(ops@) =~= seq![LedgerOpView::MintTo { to: recipient@, amount }]);
    }
    Ok(ops)
}

/// What an authority transfer decides: only the configured authority
/// may move balance out of the program's own holding, and both the mint
/// and the holding must match their derivations.
pub open spec fn authority_transfer_spec(
    program_id: Seq<u8>,
    signer: Seq<u8>,
    authority: Seq<u8>,
    claimed_mint: Seq<u8>,
    claimed_holding: Seq<u8>,
    recipient: Seq<u8>,
    amount: u64,
) -> Result<Seq<LedgerOpView>, BullPosterError> {
    if signer != authority {
        Err(BullPosterError::MissingAuthorization)
    } else {
        match (pda_of(token_mint_seed(), program_id), pda_of(token_account_seed(), program_id)) {
            (Some(mint), Some(holding)) => {
                if claimed_mint != mint.0 || claimed_holding != holding.0 {
                    Err(BullPosterError::AddressMismatch)
                } else {
                    Ok(seq![LedgerOpView::Transfer { from: holding.0, to: recipient, amount }])
                }
            },
            _ => Err(BullPosterError::AddressMismatch),
        }
    }
}

/// Transfer balance from the program's holding to a recipient, on the
/// authority's signature alone.
pub fn authority_transfer(
    program_id: &Addr,
    signer: &Addr,
    authority: &Addr,
    claimed_mint: &Addr,
    claimed_holding: &Addr,
    recipient: &Addr,
    amount: u64,
) -> (r: Result<Vec<LedgerOp>, BullPosterError>)
    requires
        program_id.wf(),
        recipient.wf(),
    ensures
        match r {
            Ok(ops) => authority_transfer_spec(
                program_id@, signer@, authority@, claimed_mint@, claimed_holding@, recipient@,
                amount,
            ) == Ok::<_, BullPosterError>(ledger_views(ops@)),
            Err(e) => authority_transfer_spec(
                program_id@, signer@, authority@, claimed_mint@, claimed_holding@, recipient@,
                amount,
            ) == Err::<Seq<LedgerOpView>, _>(e),
        },
{
    if !signer.addr_eq(authority) {
        return Err(BullPosterError::MissingAuthorization);
    }
    let s = token_mint_seed_bytes();
    let (mint, _b) = match derive_raw(&s, program_id) {
        Ok(x) => x,
        Err(e) => {
            return Err(e);
        },
    };
    let s2 = token_account_seed_bytes();
    let (holding, _b2) = match derive_raw(&s2, program_id) {
        Ok(x) => x,
        Err(e) => {
            return Err(e);
        },
    };
    if !claimed_mint.addr_eq(&mint) || !claimed_holding.addr_eq(&holding) {
        return Err(BullPosterError::AddressMismatch);
    }
    let mut ops: Vec<LedgerOp> = Vec::new();
    let ghost holding_v = holding@;
    ops.push(LedgerOp::Transfer { from: holding, to: recipient.duplicate(), amount });
    proof {
        assert(ledger_views(ops@) =~= seq![
            LedgerOpView::Transfer { from: holding_v, to: recipient@, amount },
        ]);
    }
    Ok(ops)
}

/// What creating a stake holding decides: the claimed holding must
/// match the derivation from the staking user and the program name, and
/// the caller is asked to create the holding and move the stake into
/// it.
pub open spec fn initialize_stake_spec(
    program_id: Seq<u8>,
    user: Seq<u8>,
    name: Seq<u8>,
    claimed_stake: Seq<u8>,
    user_token: Seq<u8>,
    stake_amount: u64,
) -> Result<Seq<LedgerOpView>, BullPosterError> {
    match derive_spec(stake_seed(user, name), program_id) {
        None => Err(BullPosterError::AddressMismatch),
        Some((stake, bump)) => {
            if claimed_stake != stake {
                Err(BullPosterError::AddressMismatch)
            } else {
                Ok(seq![
                    LedgerOpView::CreateTokenAccount { account: stake, bump },
                    LedgerOpView::Transfer { from: user_token, to: stake, amount: stake_amount },
                ])
            }
        },
    }
}

/// Create a user's stake holding for a program name and move the
/// required stake into it.
pub fn initialize_bullposter_stake_account(
    program_id: &Addr,
    user: &Addr,
    name: &Vec<u8>,
    claimed_stake: &Addr,
    user_token: &Addr,
    stake_amount: u64,
) -> (r: Result<Vec<LedgerOp>, BullPosterError>)
    requires
        program_id.wf(),
        user.wf(),
        user_token.wf(),
    ensures
        match r {
            Ok(ops) => initialize_stake_spec(
                program_id@, user@, name@, claimed_stake@, user_token@, stake_amount,
            ) == Ok::<_, BullPosterError>(ledger_views(ops@)),
            Err(e) => initialize_stake_spec(
                program_id@, user@, name@, claimed_stake@, user_token@, stake_amount,
            ) == Err::<Seq<LedgerOpView>, _>(e),
        },
{
    let seed = build_stake_seed(user, name);
    let (stake, bump) = match derive_address(&seed, program_id) {
        Ok(x) => x,
        Err(e) => {
            return Err(e);
        },
    };
    if !claimed_stake.addr_eq(&stake) {
        return Err(BullPosterError::AddressMismatch);
    }
    let mut ops: Vec<LedgerOp> = Vec::new();
    let ghost stake_v = stake@;
    ops.push(LedgerOp::CreateTokenAccount { account: stake.duplicate(), bump });
    ops.push(LedgerOp::Transfer { from: user_token.duplicate(), to: stake, amount: stake_amount });
    proof {
        assert(ledger_views(ops@) =~= seq![
            LedgerOpView::CreateTokenAccount { account: stake_v, bump },
            LedgerOpView::Transfer { from: user_token@, to: stake_v, amount: stake_amount },
        ]);
    }
    Ok(ops)
}

} // verus!

use crate::lifecycle::burn_allowed;
use crate::pda::{build_burn_seed, build_program_token_seed, build_raid_program_seed, burn_seed,
    program_token_seed, raid_program_seed};
use crate::program_card::RaidProgramCardView;
use crate::raid::{enc_burn_card, BurnCard, BurnCardView};

verus! {

/// What a burn decides: the lifecycle preconditions must hold, the
/// claimed burn record address must match the derivation from the user,
/// the program and the timestamp, and no burn record may already sit
/// there. The caller is asked to create the burn holding, move the
/// balance in, and destroy it.
pub open spec fn burn_tokens_spec(
    m: Map<Seq<u8>, Seq<u8>>,
    program_id: Seq<u8>,
    user: Seq<u8>,
    user_card_addr: Seq<u8>,
    claimed_burn: Seq<u8>,
    raid_program_addr: Seq<u8>,
    competition_addr: Seq<u8>,
    burn_amount: u64,
    now: u64,
) -> Result<(Map<Seq<u8>, Seq<u8>>, Seq<LedgerOpView>), BullPosterError> {
    if !m.dom().contains(raid_program_addr) {
        Err(BullPosterError::RecordNotFound)
    } else {
        match dec_program_card(m[raid_program_addr]) {
            None => Err(BullPosterError::MalformedRecord),
            Some((p, pn)) => {
                if !m.dom().contains(competition_addr) {
                    Err(BullPosterError::RecordNotFound)
                } else {
                    match dec_competition_card(m[competition_addr]) {
                        None => Err(BullPosterError::MalformedRecord),
                        Some((c, cn)) => {
                            if !m.dom().contains(user_card_addr) {
                                Err(BullPosterError::RecordNotFound)
                            } else {
                                match dec_user_card(m[user_card_addr]) {
                                    None => Err(BullPosterError::MalformedRecord),
                                    Some((uc, un)) => {
                                        match burn_allowed(c, p.raid_program_id, uc, user, now) {
                                            Err(e) => Err(e),
                                            Ok(_) => {
                                                match derive_spec(
                                                    burn_seed(user, p.raid_program_id, now),
                                                    program_id,
                                                ) {
                                                    None => Err(BullPosterError::AddressMismatch),
                                                    Some((baddr, bump)) => {
                                                        if claimed_burn != baddr {
                                                            Err(BullPosterError::AddressMismatch)
                                                        } else if m.dom().contains(baddr) {
                                                            Err(
                                                                BullPosterError::AlreadyInitialized,
                                                            )
                                                        } else {
                                                            let bc = BurnCardView {
                                                                raid_program_id:
                                                                    p.raid_program_id,
                                                                competition_id: c.competition_id,
                                                                user_id: user,
                                                                burn_amount,
                                                                timestamp: now,
                                                            };
                                                            if enc_burn_card(bc).len()
                                                                > RECORD_SPACE {
                                                                Err(
                                                                    BullPosterError::BufferTooSmall,
                                                                )
                                                            } else {
                                                                Ok((
                                                                    m.insert(
                                                                        baddr,
                                                                        stored_record(
                                                                            enc_burn_card(bc),
                                                                            RECORD_SPACE as nat,
                                                                        ),
                                                                    ),
                                                                    seq![
                                                                        LedgerOpView::CreateTokenAccount {
                                                                            account: baddr,
                                                                            bump,
                                                                        },
                                                                        LedgerOpView::Transfer {
                                                                            from: user,
                                                                            to: baddr,
                                                                            amount: burn_amount,
                                                                        },
                                                                        LedgerOpView::Burn {
                                                                            from: baddr,
                                                                            bump,
                                                                            amount: burn_amount,
                                                                        },
                                                                    ],
                                                                ))
                                                            }
                                                        }
                                                    },
                                                }
                                            },
                                        }
                                    },
                                }
                            }
                        },
                    }
                }
            },
        }
    }
}

/// Burn balance against an active competition and persist the audit
/// record of it.
#[verifier::rlimit(100)]
#[verifier::spinoff_prover]
pub fn burn_tokens_for_raid(
    store: &mut RecordStore,
    program_id: &Addr,
    user: &Addr,
    user_card_addr: &Addr,
    claimed_burn: &Addr,
    raid_program_addr: &Addr,
    competition_addr: &Addr,
    burn_amount: u64,
    now: u64,
) -> (r: Result<Vec<LedgerOp>, BullPosterError>)
    requires
        old(store).wf(),
        program_id.wf(),
        user.wf(),
        user_card_addr.wf(),
        raid_program_addr.wf(),
        competition_addr.wf(),
    ensures
        final(store).wf(),
        match r {
            Ok(ops) => burn_tokens_spec(
                old(store)@, program_id@, user@, user_card_addr@, claimed_burn@,
                raid_program_addr@, competition_addr@, burn_amount, now,
            ) == Ok::<_, BullPosterError>((final(store)@, ledger_views(ops@))),
            Err(e) => burn_tokens_spec(
                old(store)@, program_id@, user@, user_card_addr@, claimed_burn@,
                raid_program_addr@, competition_addr@, burn_amount, now,
            ) == Err::<(Map<Seq<u8>, Seq<u8>>, Seq<LedgerOpView>), _>(e)
                && final(store)@ == old(store)@,
        },
{
    let prog_buf = match store.open(raid_program_addr) {
        Ok(b) => b,
        Err(e) => {
            return Err(e);
        },
    };
    let (prog, _pn) = match RaidProgramCard::custom_deserialize(prog_buf.as_slice()) {
        Ok(x) => x,
        Err(e) => {
            return Err(e);
        },
    };
    let comp_buf = match store.open(competition_addr) {
        Ok(b) => b,
        Err(e) => {
            return Err(e);
        },
    };
    let (comp, _cn) = match CompetitionCard::custom_deserialize(comp_buf.as_slice()) {
        Ok(x) => x,
        Err(e) => {
            return Err(e);
        },
    };
    let uc_buf = match store.open(user_card_addr) {
        Ok(b) => b,
        Err(e) => {
            return Err(e);
        },
    };
    let (uc, _un) = match UserCard::custom_deserialize(uc_buf.as_slice()) {
        Ok(x) => x,
        Err(e) => {
            return Err(e);
        },
    };
    match crate::lifecycle::check_burn(&comp, &prog.raid_program_id, &uc, user, now) {
        Ok(_) => {},
        Err(e) => {
            return Err(e);
        },
    }
    let seed = build_burn_seed(user, &prog.raid_program_id, now);
    let (baddr, bump) = match derive_address(&seed, program_id) {
        Ok(x) => x,
        Err(e) => {
            return Err(e);
        },
    };
    if !claimed_burn.addr_eq(&baddr) {
        return Err(BullPosterError::AddressMismatch);
    }
    if store.occupied(&baddr) {
        return Err(BullPosterError::AlreadyInitialized);
    }
    let bc = BurnCard {
        raid_program_id: prog.raid_program_id.duplicate(),
        competition_id: comp.competition_id.duplicate(),
        user_id: user.duplicate(),
        burn_amount,
        timestamp: now,
    };
    let rec = bc.encode_vec();
    if rec.len() > RECORD_SPACE {
        return Err(BullPosterError::BufferTooSmall);
    }
    match create_record(store, &baddr, &rec) {
        Ok(_) => {},
        Err(e) => {
            proof {
                assert(false);
            }
            return Err(e);
        },
    }
    let mut ops: Vec<LedgerOp> = Vec::new();
    let ghost baddr_v = baddr@;
    ops.push(LedgerOp::CreateTokenAccount { account: baddr.duplicate(), bump });
    ops.push(LedgerOp::Transfer { from: user.duplicate(), to: baddr.duplicate(), amount: burn_amount });
    ops.push(LedgerOp::Burn { from: baddr, bump, amount: burn_amount });
    proof {
        assert(ledger_views(ops@) =~= seq![
            LedgerOpView::CreateTokenAccount { account: baddr_v, bump },
            LedgerOpView::Transfer { from: user@, to: baddr_v, amount: burn_amount },
            LedgerOpView::Burn { from: baddr_v, bump, amount: burn_amount },
        ]);
    }
    Ok(ops)
}

} // verus!

verus! {

/// A raid program card as first created: named and owned, with every
/// membership list and counter empty.
pub open spec fn fresh_program_card(
    addr: Seq<u8>,
    name: Seq<u8>,
    description: Seq<u8>,
    owner: Seq<u8>,
    url: Seq<u8>,
) -> RaidProgramCardView {
    RaidProgramCardView {
        raid_program_id: addr,
        name,
        description,
        user_key: owner,
        profile_picture_url: url,
        pvp_requests: Seq::empty(),
        raids: Seq::empty(),
        is_conducting_raid: false,
        active_raid_id: zero_addr(),
        size: 0,
        total_rewards_distributed: 0,
        total_raid_wins: 0,
        total_raids_partaken: 0,
        program_rank: 0,
    }
}

/// What registering a raid program decides: the boundary length limits
/// hold, the claimed addresses match their derivations, the program
/// record is created exactly once, the registry's program count and the
/// program index and the owner's card are advanced, and the caller is
/// asked to create the program's token holding and move the stake into
/// it.
pub open spec fn initialize_raid_program_spec(
    m: Map<Seq<u8>, Seq<u8>>,
    program_id: Seq<u8>,
    user: Seq<u8>,
    claimed_program: Seq<u8>,
    claimed_user_card: Seq<u8>,
    claimed_token: Seq<u8>,
    user_token: Seq<u8>,
    name: Seq<u8>,
    description: Seq<u8>,
    url: Seq<u8>,
    stake_amount: u64,
) -> Result<(Map<Seq<u8>, Seq<u8>>, Seq<LedgerOpView>), BullPosterError> {
    if name.len() > 32 || description.len() > 256 || url.len() > 128 {
        Err(BullPosterError::InvalidArgument)
    } else {
        match derive_spec(user_card_seed(user), program_id) {
            None => Err(BullPosterError::AddressMismatch),
            Some((uc, ucb)) => {
                if claimed_user_card != uc {
                    Err(BullPosterError::AddressMismatch)
                } else {
                    match derive_spec(raid_program_seed(user, name), program_id) {
                        None => Err(BullPosterError::AddressMismatch),
                        Some((prog, pb)) => {
                            if claimed_program != prog {
                                Err(BullPosterError::AddressMismatch)
                            } else if m.dom().contains(prog) {
                                Err(BullPosterError::AlreadyInitialized)
                            } else {
                                match derive_spec(program_token_seed(prog), program_id) {
                                    None => Err(BullPosterError::AddressMismatch),
                                    Some((tok, tokb)) => {
                                        if claimed_token != tok {
                                            Err(BullPosterError::AddressMismatch)
                                        } else {
                                            initialize_raid_program_write(
                                                m, program_id, user, uc, prog, tok, tokb,
                                                user_token, name, description, url,
                                                stake_amount,
                                            )
                                        }
                                    },
                                }
                            }
                        },
                    }
                }
            },
        }
    }
}

/// The record mutations of a program registration, once every address
/// has been derived and checked.
pub open spec fn initialize_raid_program_write(
    m: Map<Seq<u8>, Seq<u8>>,
    program_id: Seq<u8>,
    user: Seq<u8>,
    uc: Seq<u8>,
    prog: Seq<u8>,
    tok: Seq<u8>,
    tokb: u8,
    user_token: Seq<u8>,
    name: Seq<u8>,
    description: Seq<u8>,
    url: Seq<u8>,
    stake_amount: u64,
) -> Result<(Map<Seq<u8>, Seq<u8>>, Seq<LedgerOpView>), BullPosterError> {
    match pda_of(registry_seed(), program_id) {
        None => Err(BullPosterError::AddressMismatch),
        Some((reg, regb)) => {
            if !m.dom().contains(reg) {
                Err(BullPosterError::RecordNotFound)
            } else {
                match dec_program_state(m[reg]) {
                    None => Err(BullPosterError::MalformedRecord),
                    Some((st, reg_n)) => {
                        if st.registered_programs_count == u64::MAX {
                            Err(BullPosterError::InvalidArgument)
                        } else {
                            match pda_of(raid_programs_index_seed(), program_id) {
                                None => Err(BullPosterError::AddressMismatch),
                                Some((rpi, rpib)) => {
                                    if !m.dom().contains(rpi) {
                                        Err(BullPosterError::RecordNotFound)
                                    } else {
                                        match crate::state_cards::dec_raid_programs_card(
                                            m[rpi],
                                        ) {
                                            None => Err(BullPosterError::MalformedRecord),
                                            Some((ix, ix_n)) => {
                                                if ix.raid_program_pubkeys.len() >= u32::MAX {
                                                    Err(BullPosterError::InvalidArgument)
                                                } else if !m.dom().contains(uc) {
                                                    Err(BullPosterError::RecordNotFound)
                                                } else {
                                                    match dec_user_card(m[uc]) {
                                                        None => Err(
                                                            BullPosterError::MalformedRecord,
                                                        ),
                                                        Some((c, uc_n)) => {
                                                            if c.owned_programs.len()
                                                                >= u32::MAX {
                                                                Err(
                                                                    BullPosterError::InvalidArgument,
                                                                )
                                                            } else {
                                                                let card = fresh_program_card(
                                                                    prog, name, description,
                                                                    user, url,
                                                                );
                                                                let st2 =
                                                                    ProgramStateCardView {
                                                                    registered_programs_count: (
                                                                    st.registered_programs_count
                                                                        + 1) as u64,
                                                                    ..st
                                                                };
                                                                let ix2 =
                                                                    ProgramRaidProgramsStateCardView {
                                                                    raid_program_pubkeys:
                                                                        ix.raid_program_pubkeys
                                                                        .push(prog),
                                                                };
                                                                let c2 = UserCardView {
                                                                    owned_programs:
                                                                        c.owned_programs.push(
                                                                        prog),
                                                                    ..c
                                                                };
                                                                if enc_program_card(card).len()
                                                                    > RECORD_SPACE
                                                                    || enc_program_state(
                                                                    st2).len() > m[reg].len()
                                                                    || enc_raid_programs_card(
                                                                    ix2).len() > m[rpi].len()
                                                                    || enc_user_card(c2).len()
                                                                    > m[uc].len() {
                                                                    Err(
                                                                        BullPosterError::BufferTooSmall,
                                                                    )
                                                                } else {
                                                                    Ok((
                                                                        m.insert(
                                                                            prog,
                                                                            stored_record(
                                                                                enc_program_card(
                                                                                card),
                                                                                RECORD_SPACE
                                                                                    as nat,
                                                                            ),
                                                                        ).insert(
                                                                            reg,
                                                                            rewritten(
                                                                                m[reg],
                                                                                enc_program_state(
                                                                                st2), reg_n),
                                                                        ).insert(
                                                                            rpi,
                                                                            rewritten(
                                                                                m[rpi],
                                                                                enc_raid_programs_card(
                                                                                ix2), ix_n),
                                                                        ).insert(
                                                                            uc,
                                                                            rewritten(
                                                                                m[uc],
                                                                                enc_user_card(
                                                                                c2), uc_n),
                                                                        ),
                                                                        seq![
                                                                            LedgerOpView::CreateTokenAccount {
                                                                                account: tok,
                                                                                bump: tokb,
                                                                            },
                                                                            LedgerOpView::Transfer {
                                                                                from: user_token,
                                                                                to: tok,
                                                                                amount:
                                                                                    stake_amount,
                                                                            },
                                                                        ],
                                                                    ))
                                                                }
                                                            }
                                                        },
                                                    }
                                                }
                                            },
                                        }
                                    }
                                },
                            }
                        }
                    },
                }
            }
        },
    }
}

/// Register a raid program: create its record at the derived address,
/// stake the required amount, and advance the registry, the program
/// index and the owner's card.
#[verifier::rlimit(100)]
#[verifier::spinoff_prover]
pub fn initialize_raid_program(
    store: &mut RecordStore,
    program_id: &Addr,
    user: &Addr,
    claimed_program: &Addr,
    claimed_user_card: &Addr,
    claimed_token: &Addr,
    user_token: &Addr,
    name: Vec<u8>,
    description: Vec<u8>,
    profile_picture_url: Vec<u8>,
    stake_amount: u64,
) -> (r: Result<Vec<LedgerOp>, BullPosterError>)
    requires
        old(store).wf(),
        program_id.wf(),
        user.wf(),
        user_token.wf(),
    ensures
        final(store).wf(),
        match r {
            Ok(ops) => initialize_raid_program_spec(
                old(store)@, program_id@, user@, claimed_program@, claimed_user_card@,
                claimed_token@, user_token@, name@, description@, profile_picture_url@,
                stake_amount,
            ) == Ok::<_, BullPosterError>((final(store)@, ledger_views(ops@))),
            Err(e) => initialize_raid_program_spec(
                old(store)@, program_id@, user@, claimed_program@, claimed_user_card@,
                claimed_token@, user_token@, name@, description@, profile_picture_url@,
                stake_amount,
            ) == Err::<(Map<Seq<u8>, Seq<u8>>, Seq<LedgerOpView>), _>(e)
                && final(store)@ == old(store)@,
        },
{
    if name.len() > 32 || description.len() > 256 || profile_picture_url.len() > 128 {
        return Err(BullPosterError::InvalidArgument);
    }
    let uc_seed = build_user_card_seed(user);
    let (uc_addr, _ucb) = match derive_address(&uc_seed, program_id) {
        Ok(x) => x,
        Err(e) => {
            return Err(e);
        },
    };
    if !claimed_user_card.addr_eq(&uc_addr) {
        return Err(BullPosterError::AddressMismatch);
    }
    let prog_seed = build_raid_program_seed(user, &name);
    let (prog_addr, _pb) = match derive_address(&prog_seed, program_id) {
        Ok(x) => x,
        Err(e) => {
            return Err(e);
        },
    };
    if !claimed_program.addr_eq(&prog_addr) {
        return Err(BullPosterError::AddressMismatch);
    }
    if store.occupied(&prog_addr) {
        return Err(BullPosterError::AlreadyInitialized);
    }
    let tok_seed = build_program_token_seed(&prog_addr);
    let (tok_addr, tok_bump) = match derive_address(&tok_seed, program_id) {
        Ok(x) => x,
        Err(e) => {
            return Err(e);
        },
    };
    if !claimed_token.addr_eq(&tok_addr) {
        return Err(BullPosterError::AddressMismatch);
    }
    initialize_raid_program_records(
        store, program_id, user, &uc_addr, &prog_addr, tok_addr, tok_bump, user_token, name,
        description, profile_picture_url, stake_amount,
    )
}

/// Perform a program registration's record mutations, after every
/// address has been derived and validated.
#[verifier::rlimit(100)]
#[verifier::spinoff_prover]
fn initialize_raid_program_records(
    store: &mut RecordStore,
    program_id: &Addr,
    user: &Addr,
    uc_addr: &Addr,
    prog_addr: &Addr,
    tok_addr: Addr,
    tok_bump: u8,
    user_token: &Addr,
    name: Vec<u8>,
    description: Vec<u8>,
    profile_picture_url: Vec<u8>,
    stake_amount: u64,
) -> (r: Result<Vec<LedgerOp>, BullPosterError>)
    requires
        old(store).wf(),
        program_id.wf(),
        user.wf(),
        user_token.wf(),
        uc_addr.wf(),
        prog_addr.wf(),
        tok_addr.wf(),
        !old(store)@.dom().contains(prog_addr@),
        name@.len() <= 32,
        description@.len() <= 256,
        profile_picture_url@.len() <= 128,
    ensures
        final(store).wf(),
        match r {
            Ok(ops) => initialize_raid_program_write(
                old(store)@, program_id@, user@, uc_addr@, prog_addr@, tok_addr@, tok_bump,
                user_token@, name@, description@, profile_picture_url@, stake_amount,
            ) == Ok::<_, BullPosterError>((final(store)@, ledger_views(ops@))),
            Err(e) => initialize_raid_program_write(
                old(store)@, program_id@, user@, uc_addr@, prog_addr@, tok_addr@, tok_bump,
                user_token@, name@, description@, profile_picture_url@, stake_amount,
            ) == Err::<(Map<Seq<u8>, Seq<u8>>, Seq<LedgerOpView>), _>(e)
                && final(store)@ == old(store)@,
        },
{
    let rseed = registry_seed_bytes();
    let (reg_addr, _rb) = match derive_raw(&rseed, program_id) {
        Ok(x) => x,
        Err(e) => {
            return Err(e);
        },
    };
    let mut reg_buf = match store.open(&reg_addr) {
        Ok(b) => b,
        Err(e) => {
            return Err(e);
        },
    };
    let (mut reg, reg_n) = match ProgramStateCard::custom_deserialize(reg_buf.as_slice()) {
        Ok(x) => x,
        Err(e) => {
            return Err(e);
        },
    };
    if reg.registered_programs_count == u64::MAX {
        return Err(BullPosterError::InvalidArgument);
    }
    let iseed = raid_programs_index_seed_bytes();
    let (rpi_addr, _ib) = match derive_raw(&iseed, program_id) {
        Ok(x) => x,
        Err(e) => {
            return Err(e);
        },
    };
    let mut ix_buf = match store.open(&rpi_addr) {
        Ok(b) => b,
        Err(e) => {
            return Err(e);
        },
    };
    let (mut ix, ix_n) = match ProgramRaidProgramsStateCard::custom_deserialize(
        ix_buf.as_slice(),
    ) {
        Ok(x) => x,
        Err(e) => {
            return Err(e);
        },
    };
    if ix.raid_program_pubkeys.len() >= u32::MAX as usize {
        return Err(BullPosterError::InvalidArgument);
    }
    let mut uc_buf = match store.open(&uc_addr) {
        Ok(b) => b,
        Err(e) => {
            return Err(e);
        },
    };
    let (mut uc_card, uc_n) = match UserCard::custom_deserialize(uc_buf.as_slice()) {
        Ok(x) => x,
        Err(e) => {
            return Err(e);
        },
    };
    if uc_card.owned_programs.len() >= u32::MAX as usize {
        return Err(BullPosterError::InvalidArgument);
    }
    let card = RaidProgramCard {
        raid_program_id: prog_addr.duplicate(),
        name,
        description,
        user_key: user.duplicate(),
        profile_picture_url,
        pvp_requests: Vec::new(),
        raids: Vec::new(),
        is_conducting_raid: false,
        active_raid_id: Addr::zeroed(),
        size: 0,
        total_rewards_distributed: 0,
        total_raid_wins: 0,
        total_raids_partaken: 0,
        program_rank: 0,
    };
    proof {
        assert(crate::addr::views_of(card.pvp_requests@) =~= Seq::<Seq<u8>>::empty());
        assert(crate::addr::views_of(card.raids@) =~= Seq::<Seq<u8>>::empty());
    }
    reg.registered_programs_count = reg.registered_programs_count + 1;
    let ghost prev_ix = ix.raid_program_pubkeys@;
    ix.raid_program_pubkeys.push(prog_addr.duplicate());
    proof {
        assert(crate::addr::views_of(ix.raid_program_pubkeys@)
            =~= crate::addr::views_of(prev_ix).push(prog_addr@));
    }
    let ghost prev_owned = uc_card.owned_programs@;
    uc_card.owned_programs.push(prog_addr.duplicate());
    proof {
        assert(crate::addr::views_of(uc_card.owned_programs@)
            =~= crate::addr::views_of(prev_owned).push(prog_addr@));
    }
    let card_rec = card.encode_vec();
    let reg_rec = reg.encode_vec();
    let ix_rec = ix.encode_vec();
    let uc_rec = uc_card.encode_vec();
    if card_rec.len() > RECORD_SPACE || reg_rec.len() > reg_buf.len()
        || ix_rec.len() > ix_buf.len() || uc_rec.len() > uc_buf.len() {
        return Err(BullPosterError::BufferTooSmall);
    }
    match rewrite_record(&mut reg_buf, &reg_rec, reg_n) {
        Ok(_) => {},
        Err(_) => {
            proof {
                assert(false);
            }
        },
    }
    match rewrite_record(&mut ix_buf, &ix_rec, ix_n) {
        Ok(_) => {},
        Err(_) => {
            proof {
                assert(false);
            }
        },
    }
    match rewrite_record(&mut uc_buf, &uc_rec, uc_n) {
        Ok(_) => {},
        Err(_) => {
            proof {
                assert(false);
            }
        },
    }
    match create_record(store, &prog_addr, &card_rec) {
        Ok(_) => {},
        Err(e) => {
            proof {
                assert(false);
            }
            return Err(e);
        },
    }
    match store.update(&reg_addr, reg_buf) {
        Ok(_) => {},
        Err(_) => {
            proof {
                assert(false);
            }
        },
    }
    match store.update(&rpi_addr, ix_buf) {
        Ok(_) => {},
        Err(_) => {
            proof {
                assert(false);
            }
        },
    }
    match store.update(&uc_addr, uc_buf) {
        Ok(_) => {},
        Err(_) => {
            proof {
                assert(false);
            }
        },
    }
    let mut ops: Vec<LedgerOp> = Vec::new();
    let ghost tok_v = tok_addr@;
    ops.push(LedgerOp::Transfer {
        from: user_token.duplicate(),
        to: tok_addr.duplicate(),
        amount: stake_amount,
    });
    ops.insert(0, LedgerOp::CreateTokenAccount { account: tok_addr, bump: tok_bump });
    proof {
        assert(ledger_views(ops@) =~= seq![
            LedgerOpView::CreateTokenAccount { account: tok_v, bump: tok_bump },
            LedgerOpView::Transfer { from: user_token@, to: tok_v, amount: stake_amount },
        ]);
    }
    Ok(ops)
}

} // verus!

use crate::competition::CompetitionCardView;
use crate::lifecycle::CHALLENGE_ACCEPT_WINDOW;
use crate::pda::{build_challenge_seed, build_competition_seed, build_raid_seed, challenge_seed,
    competition_seed, raid_seed};
use crate::raid::{enc_raid_card, RaidCard, RaidCardView};
use crate::registry::{last_competition_of, sequence_of, with_competition};
use crate::state_cards::{dec_competitions_card, dec_raids_card};
use crate::types::{required_of, required_programs_of, CompetitionKind};

verus! {

/// A competition card as first created: awaiting, empty, with its
/// requirement and (for a challenge) its parties and deadline set.
pub open spec fn fresh_competition(
    addr: Seq<u8>,
    kind: CompetitionKind,
    required: u64,
    challenger: Option<Seq<u8>>,
    challenged: Option<Seq<u8>>,
    expiry: Option<u64>,
) -> CompetitionCardView {
    CompetitionCardView {
        competition_id: addr,
        competition_type: kind,
        start_time: 0,
        end_time: 0,
        total_rewards_distributed: 0,
        status: CompetitionStatus::Awaiting,
        enrolled_programs: Seq::empty(),
        required_programs: required,
        challenger_program_id: challenger,
        challenged_program_id: challenged,
        start_expiration: expiry,
        distributed_rewards: Seq::empty(),
        placements: Seq::empty(),
    }
}

/// The record mutations every raid creation ends with: the raid record
/// appears at its derived address, the competition is written (fresh or
/// joined), the program card points at its new raid, the raid index
/// grows, and for a new competition the registry's ledger entry and the
/// competition index advance.
pub open spec fn create_raid_apply(
    m: Map<Seq<u8>, Seq<u8>>,
    reg: Seq<u8>,
    st: ProgramStateCardView,
    reg_n: int,
    kind: CompetitionKind,
    new_seq: u64,
    prog_addr: Seq<u8>,
    p: RaidProgramCardView,
    p_n: int,
    comp_addr: Seq<u8>,
    comp: CompetitionCardView,
    comp_n: int,
    is_new: bool,
    raid_addr: Seq<u8>,
    ridx: Seq<u8>,
    rix: ProgramRaidsStateCardView,
    rix_n: int,
    cinfo: Option<(Seq<u8>, ProgramCompetitionsStateCardView, int)>,
) -> Result<Map<Seq<u8>, Seq<u8>>, BullPosterError> {
    let raid = RaidCardView {
        competition_id: comp_addr,
        raid_program_id: prog_addr,
        raid_id: raid_addr,
        distributed_rewards: Seq::empty(),
        placements: Seq::empty(),
    };
    let p2 = RaidProgramCardView {
        is_conducting_raid: true,
        active_raid_id: raid_addr,
        raids: p.raids.push(raid_addr),
        ..p
    };
    let rix2 = ProgramRaidsStateCardView { raid_pubkeys: rix.raid_pubkeys.push(raid_addr) };
    if enc_raid_card(raid).len() > RECORD_SPACE {
        Err(BullPosterError::BufferTooSmall)
    } else if is_new && enc_competition_card(comp).len() > RECORD_SPACE {
        Err(BullPosterError::BufferTooSmall)
    } else if !is_new && enc_competition_card(comp).len() > m[comp_addr].len() {
        Err(BullPosterError::BufferTooSmall)
    } else if enc_program_card(p2).len() > m[prog_addr].len() {
        Err(BullPosterError::BufferTooSmall)
    } else if enc_raids_card(rix2).len() > m[ridx].len() {
        Err(BullPosterError::BufferTooSmall)
    } else {
        match cinfo {
            Some((cidx, cix, cix_n)) => {
                let st2 = with_competition(st, kind, new_seq, comp_addr);
                let cix2 = ProgramCompetitionsStateCardView {
                    competition_pubkeys: cix.competition_pubkeys.push(comp_addr),
                };
                if enc_program_state(st2).len() > m[reg].len()
                    || enc_competitions_card(cix2).len() > m[cidx].len() {
                    Err(BullPosterError::BufferTooSmall)
                } else {
                    Ok(m.insert(
                        comp_addr,
                        stored_record(enc_competition_card(comp), RECORD_SPACE as nat),
                    ).insert(raid_addr, stored_record(enc_raid_card(raid), RECORD_SPACE as nat))
                        .insert(prog_addr, rewritten(m[prog_addr], enc_program_card(p2), p_n))
                        .insert(ridx, rewritten(m[ridx], enc_raids_card(rix2), rix_n))
                        .insert(reg, rewritten(m[reg], enc_program_state(st2), reg_n))
                        .insert(cidx, rewritten(m[cidx], enc_competitions_card(cix2), cix_n)))
                }
            },
            None => {
                Ok(m.insert(
                    comp_addr,
                    rewritten(m[comp_addr], enc_competition_card(comp), comp_n),
                ).insert(raid_addr, stored_record(enc_raid_card(raid), RECORD_SPACE as nat))
                    .insert(prog_addr, rewritten(m[prog_addr], enc_program_card(p2), p_n))
                    .insert(ridx, rewritten(m[ridx], enc_raids_card(rix2), rix_n)))
            },
        }
    }
}

/// The common tail of raid creation, once the competition to join or
/// create is fixed: derive and check the raid record's address, reject
/// a program already placed into this competition, and apply the
/// mutations.
pub open spec fn create_raid_finish(
    m: Map<Seq<u8>, Seq<u8>>,
    program_id: Seq<u8>,
    reg: Seq<u8>,
    st: ProgramStateCardView,
    reg_n: int,
    kind: CompetitionKind,
    new_seq: u64,
    prog_addr: Seq<u8>,
    p: RaidProgramCardView,
    p_n: int,
    comp_addr: Seq<u8>,
    comp: CompetitionCardView,
    comp_n: int,
    is_new: bool,
    claimed_raid: Seq<u8>,
) -> Result<Map<Seq<u8>, Seq<u8>>, BullPosterError> {
    if is_new && m.dom().contains(comp_addr) {
        Err(BullPosterError::AlreadyInitialized)
    } else {
        match derive_spec(raid_seed(comp_addr, prog_addr), program_id) {
            None => Err(BullPosterError::AddressMismatch),
            Some((raid_addr, rb)) => {
                if claimed_raid != raid_addr {
                    Err(BullPosterError::AddressMismatch)
                } else if m.dom().contains(raid_addr) {
                    Err(BullPosterError::AlreadyInitialized)
                } else if is_new && raid_addr == comp_addr {
                    Err(BullPosterError::AlreadyInitialized)
                } else if p.raids.len() >= u32::MAX {
                    Err(BullPosterError::InvalidArgument)
                } else {
                    match pda_of(raids_index_seed(), program_id) {
                        None => Err(BullPosterError::AddressMismatch),
                        Some((ridx, ib)) => {
                            if !m.dom().contains(ridx) {
                                Err(BullPosterError::RecordNotFound)
                            } else {
                                match dec_raids_card(m[ridx]) {
                                    None => Err(BullPosterError::MalformedRecord),
                                    Some((rix, rix_n)) => {
                                        if rix.raid_pubkeys.len() >= u32::MAX {
                                            Err(BullPosterError::InvalidArgument)
                                        } else if !is_new {
                                            create_raid_apply(
                                                m, reg, st, reg_n, kind, new_seq, prog_addr, p,
                                                p_n, comp_addr, comp, comp_n, is_new, raid_addr,
                                                ridx, rix, rix_n, None,
                                            )
                                        } else {
                                            match pda_of(
                                                competitions_index_seed(), program_id,
                                            ) {
                                                None => Err(BullPosterError::AddressMismatch),
                                                Some((cidx, cb)) => {
                                                    if !m.dom().contains(cidx) {
                                                        Err(BullPosterError::RecordNotFound)
                                                    } else {
                                                        match dec_competitions_card(m[cidx]) {
                                                            None => Err(
                                                                BullPosterError::MalformedRecord,
                                                            ),
                                                            Some((cix, cix_n)) => {
                                                                if cix.competition_pubkeys.len()
                                                                    >= u32::MAX {
                                                                    Err(
                                                                        BullPosterError::InvalidArgument,
                                                                    )
                                                                } else {
                                                                    create_raid_apply(
                                                                        m, reg, st, reg_n, kind,
                                                                        new_seq, prog_addr, p,
                                                                        p_n, comp_addr, comp,
                                                                        comp_n, is_new,
                                                                        raid_addr, ridx, rix,
                                                                        rix_n,
                                                                        Some((cidx, cix, cix_n)),
                                                                    )
                                                                }
                                                            },
                                                        }
                                                    }
                                                },
                                            }
                                        }
                                    },
                                }
                            }
                        },
                    }
                }
            },
        }
    }
}

/// Creating under a fresh sequence number: derive the new competition's
/// address from the kind and sequence, check it against the caller's,
/// and finish with a fresh card that already counts the creating
/// program as its first member.
pub open spec fn create_raid_create_new(
    m: Map<Seq<u8>, Seq<u8>>,
    program_id: Seq<u8>,
    reg: Seq<u8>,
    st: ProgramStateCardView,
    reg_n: int,
    kind: CompetitionKind,
    new_seq: u64,
    prog_addr: Seq<u8>,
    p: RaidProgramCardView,
    p_n: int,
    claimed_comp: Seq<u8>,
    claimed_raid: Seq<u8>,
) -> Result<Map<Seq<u8>, Seq<u8>>, BullPosterError> {
    match derive_spec(competition_seed(kind, new_seq), program_id) {
        None => Err(BullPosterError::AddressMismatch),
        Some((nc, b)) => {
            if claimed_comp != nc {
                Err(BullPosterError::AddressMismatch)
            } else {
                create_raid_finish(
                    m, program_id, reg, st, reg_n, kind, new_seq, prog_addr, p, p_n, nc,
                    CompetitionCardView {
                        enrolled_programs: seq![prog_addr],
                        ..fresh_competition(nc, kind, required_of(kind), None, None, None)
                    }, 0, true, claimed_raid,
                )
            }
        },
    }
}

/// What creating a raid decides. A challenge always opens a new
/// competition tied to both parties. A pool enrollment joins the kind's
/// current competition when it is awaiting with free capacity, and
/// otherwise opens a new one under the next sequence number, advancing
/// the registry's ledger entry for the kind.
pub open spec fn create_raid_spec(
    m: Map<Seq<u8>, Seq<u8>>,
    program_id: Seq<u8>,
    user: Seq<u8>,
    prog_addr: Seq<u8>,
    kind: CompetitionKind,
    challenged: Option<Seq<u8>>,
    claimed_comp: Seq<u8>,
    claimed_raid: Seq<u8>,
    now: u64,
) -> Result<Map<Seq<u8>, Seq<u8>>, BullPosterError> {
    match pda_of(registry_seed(), program_id) {
        None => Err(BullPosterError::AddressMismatch),
        Some((reg, rb)) => {
            if !m.dom().contains(reg) {
                Err(BullPosterError::RecordNotFound)
            } else {
                match dec_program_state(m[reg]) {
                    None => Err(BullPosterError::MalformedRecord),
                    Some((st, reg_n)) => {
                        if !m.dom().contains(prog_addr) {
                            Err(BullPosterError::RecordNotFound)
                        } else {
                            match dec_program_card(m[prog_addr]) {
                                None => Err(BullPosterError::MalformedRecord),
                                Some((p, p_n)) => {
                                    if p.user_key != user {
                                        Err(BullPosterError::MissingAuthorization)
                                    } else if sequence_of(st, kind) == u64::MAX {
                                        Err(BullPosterError::InvalidArgument)
                                    } else {
                                        let new_seq = (sequence_of(st, kind) + 1) as u64;
                                        if kind == CompetitionKind::PvP {
                                            match challenged {
                                                None => Err(BullPosterError::InvalidArgument),
                                                Some(ch) => {
                                                    if ch == prog_addr {
                                                        Err(BullPosterError::InvalidArgument)
                                                    } else {
                                                        match derive_spec(
                                                            challenge_seed(
                                                                new_seq, prog_addr, ch,
                                                            ),
                                                            program_id,
                                                        ) {
                                                            None => Err(
                                                                BullPosterError::AddressMismatch,
                                                            ),
                                                            Some((nc, b)) => {
                                                                if claimed_comp != nc {
                                                                    Err(
                                                                        BullPosterError::AddressMismatch,
                                                                    )
                                                                } else {
                                                                    create_raid_finish(
                                                                        m, program_id, reg, st,
                                                                        reg_n, kind, new_seq,
                                                                        prog_addr, p, p_n, nc,
                                                                        fresh_competition(
                                                                            nc, kind, 2,
                                                                            Some(prog_addr),
                                                                            Some(ch),
                                                                            Some((now
                                                                                + CHALLENGE_ACCEPT_WINDOW)
                                                                                as u64),
                                                                        ), 0, true,
                                                                        claimed_raid,
                                                                    )
                                                                }
                                                            },
                                                        }
                                                    }
                                                },
                                            }
                                        } else {
                                            let last = last_competition_of(st, kind);
                                            if m.dom().contains(last) {
                                                match dec_competition_card(m[last]) {
                                                    None => Err(
                                                        BullPosterError::MalformedRecord,
                                                    ),
                                                    Some((c, c_n)) => {
                                                        if c.status
                                                            == CompetitionStatus::Awaiting
                                                            && c.enrolled_programs.len()
                                                            < c.required_programs {
                                                            if c.enrolled_programs.len()
                                                                >= u32::MAX {
                                                                Err(
                                                                    BullPosterError::InvalidArgument,
                                                                )
                                                            } else {
                                                                match enroll_spec(
                                                                    c, prog_addr, now,
                                                                ) {
                                                                    Err(e) => Err(e),
                                                                    Ok(c2) => {
                                                                        create_raid_finish(
                                                                            m, program_id, reg,
                                                                            st, reg_n, kind,
                                                                            new_seq, prog_addr,
                                                                            p, p_n, last, c2,
                                                                            c_n, false,
                                                                            claimed_raid,
                                                                        )
                                                                    },
                                                                }
                                                            }
                                                        } else {
                                                            create_raid_create_new(
                                                                m, program_id, reg, st, reg_n,
                                                                kind, new_seq, prog_addr, p,
                                                                p_n, claimed_comp, claimed_raid,
                                                            )
                                                        }
                                                    },
                                                }
                                            } else {
                                                create_raid_create_new(
                                                    m, program_id, reg, st, reg_n, kind,
                                                    new_seq, prog_addr, p, p_n, claimed_comp,
                                                    claimed_raid,
                                                )
                                            }
                                        }
                                    }
                                },
                            }
                        }
                    },
                }
            }
        },
    }
}

} // verus!

verus! {

/// Perform a raid creation's record mutations, once the competition to
/// join or create is fixed.
#[verifier::rlimit(100)]
#[verifier::spinoff_prover]
fn create_raid_records(
    store: &mut RecordStore,
    program_id: &Addr,
    reg_addr: &Addr,
    mut reg_buf: Vec<u8>,
    reg: ProgramStateCard,
    reg_n: usize,
    kind: CompetitionKind,
    new_seq: u64,
    prog_addr: &Addr,
    mut prog_buf: Vec<u8>,
    mut prog: RaidProgramCard,
    p_n: usize,
    comp_addr: &Addr,
    comp: CompetitionCard,
    comp_buf: Option<Vec<u8>>,
    comp_n: usize,
    is_new: bool,
    claimed_raid: &Addr,
) -> (r: Result<(), BullPosterError>)
    requires
        old(store).wf(),
        program_id.wf(),
        reg_addr.wf(),
        prog_addr.wf(),
        comp_addr.wf(),
        reg.wf(),
        prog.wf(),
        comp.wf(),
        old(store)@.dom().contains(reg_addr@),
        reg_buf@ == old(store)@[reg_addr@],
        old(store)@.dom().contains(prog_addr@),
        prog_buf@ == old(store)@[prog_addr@],
        match comp_buf {
            Some(b) => !is_new && old(store)@.dom().contains(comp_addr@)
                && b@ == old(store)@[comp_addr@],
            None => is_new,
        },
    ensures
        final(store).wf(),
        match r {
            Ok(_) => create_raid_finish(
                old(store)@, program_id@, reg_addr@, reg@, reg_n as int, kind, new_seq,
                prog_addr@, prog@, p_n as int, comp_addr@, comp@, comp_n as int, is_new,
                claimed_raid@,
            ) == Ok::<_, BullPosterError>(final(store)@),
            Err(e) => create_raid_finish(
                old(store)@, program_id@, reg_addr@, reg@, reg_n as int, kind, new_seq,
                prog_addr@, prog@, p_n as int, comp_addr@, comp@, comp_n as int, is_new,
                claimed_raid@,
            ) == Err::<Map<Seq<u8>, Seq<u8>>, _>(e) && final(store)@ == old(store)@,
        },
{
    if is_new && store.occupied(comp_addr) {
        return Err(BullPosterError::AlreadyInitialized);
    }
    let rd_seed = build_raid_seed(comp_addr, prog_addr);
    let (raid_addr, _rb) = match derive_address(&rd_seed, program_id) {
        Ok(x) => x,
        Err(e) => {
            return Err(e);
        },
    };
    if !claimed_raid.addr_eq(&raid_addr) {
        return Err(BullPosterError::AddressMismatch);
    }
    if store.occupied(&raid_addr) {
        return Err(BullPosterError::AlreadyInitialized);
    }
    if is_new && raid_addr.addr_eq(comp_addr) {
        return Err(BullPosterError::AlreadyInitialized);
    }
    if prog.raids.len() >= u32::MAX as usize {
        return Err(BullPosterError::InvalidArgument);
    }
    let iseed = raids_index_seed_bytes();
    let (ridx_addr, _ib) = match derive_raw(&iseed, program_id) {
        Ok(x) => x,
        Err(e) => {
            return Err(e);
        },
    };
    let mut rix_buf = match store.open(&ridx_addr) {
        Ok(b) => b,
        Err(e) => {
            return Err(e);
        },
    };
    let (mut rix, rix_n) = match ProgramRaidsStateCard::custom_deserialize(rix_buf.as_slice()) {
        Ok(x) => x,
        Err(e) => {
            return Err(e);
        },
    };
    if rix.raid_pubkeys.len() >= u32::MAX as usize {
        return Err(BullPosterError::InvalidArgument);
    }
    let mut cinfo: Option<(Addr, Vec<u8>, ProgramCompetitionsStateCard, usize)> = None;
    if is_new {
        let cseed = competitions_index_seed_bytes();
        let (cidx_addr, _cb) = match derive_raw(&cseed, program_id) {
            Ok(x) => x,
            Err(e) => {
                return Err(e);
            },
        };
        let cix_buf = match store.open(&cidx_addr) {
            Ok(b) => b,
            Err(e) => {
                return Err(e);
            },
        };
        let (cix, cix_n) = match ProgramCompetitionsStateCard::custom_deserialize(
            cix_buf.as_slice(),
        ) {
            Ok(x) => x,
            Err(e) => {
                return Err(e);
            },
        };
        if cix.competition_pubkeys.len() >= u32::MAX as usize {
            return Err(BullPosterError::InvalidArgument);
        }
        cinfo = Some((cidx_addr, cix_buf, cix, cix_n));
    }
    let raid_card = RaidCard {
        competition_id: comp_addr.duplicate(),
        raid_program_id: prog_addr.duplicate(),
        raid_id: raid_addr.duplicate(),
        distributed_rewards: Vec::new(),
        placements: Vec::new(),
    };
    prog.is_conducting_raid = true;
    prog.active_raid_id = raid_addr.duplicate();
    let ghost prev_raids = prog.raids@;
    prog.raids.push(raid_addr.duplicate());
    proof {
        assert(crate::addr::views_of(prog.raids@)
            =~= crate::addr::views_of(prev_raids).push(raid_addr@));
    }
    let ghost prev_rix = rix.raid_pubkeys@;
    rix.raid_pubkeys.push(raid_addr.duplicate());
    proof {
        assert(crate::addr::views_of(rix.raid_pubkeys@)
            =~= crate::addr::views_of(prev_rix).push(raid_addr@));
    }
    let raid_rec = raid_card.encode_vec();
    let comp_rec = comp.encode_vec();
    let p_rec = prog.encode_vec();
    let rix_rec = rix.encode_vec();
    if raid_rec.len() > RECORD_SPACE {
        return Err(BullPosterError::BufferTooSmall);
    }
    match comp_buf {
        None => {
            if comp_rec.len() > RECORD_SPACE {
                return Err(BullPosterError::BufferTooSmall);
            }
            if p_rec.len() > prog_buf.len() || rix_rec.len() > rix_buf.len() {
                return Err(BullPosterError::BufferTooSmall);
            }
            let (cidx_addr, mut cix_buf, mut cix, cix_n) = match cinfo {
                Some(x) => x,
                None => {
                    proof {
                        assert(false);
                    }
                    return Err(BullPosterError::RecordNotFound);
                },
            };
            let mut reg2 = reg;
            reg2.set_competition(kind, new_seq, comp_addr.duplicate());
            let ghost prev_cix = cix.competition_pubkeys@;
            cix.competition_pubkeys.push(comp_addr.duplicate());
            proof {
                assert(crate::addr::views_of(cix.competition_pubkeys@)
                    =~= crate::addr::views_of(prev_cix).push(comp_addr@));
            }
            let st_rec = reg2.encode_vec();
            let cix_rec = cix.encode_vec();
            if st_rec.len() > reg_buf.len() || cix_rec.len() > cix_buf.len() {
                return Err(BullPosterError::BufferTooSmall);
            }
            match create_record(store, comp_addr, &comp_rec) {
                Ok(_) => {},
                Err(e) => {
                    proof {
                        assert(false);
                    }
                    return Err(e);
                },
            }
            match create_record(store, &raid_addr, &raid_rec) {
                Ok(_) => {},
                Err(e) => {
                    proof {
                        assert(false);
                    }
                    return Err(e);
                },
            }
            match rewrite_record(&mut prog_buf, &p_rec, p_n) {
                Ok(_) => {},
                Err(_) => {
                    proof {
                        assert(false);
                    }
                },
            }
            match store.update(prog_addr, prog_buf) {
                Ok(_) => {},
                Err(_) => {
                    proof {
                        assert(false);
                    }
                },
            }
            match rewrite_record(&mut rix_buf, &rix_rec, rix_n) {
                Ok(_) => {},
                Err(_) => {
                    proof {
                        assert(false);
                    }
                },
            }
            match store.update(&ridx_addr, rix_buf) {
                Ok(_) => {},
                Err(_) => {
                    proof {
                        assert(false);
                    }
                },
            }
            match rewrite_record(&mut reg_buf, &st_rec, reg_n) {
                Ok(_) => {},
                Err(_) => {
                    proof {
                        assert(false);
                    }
                },
            }
            match store.update(reg_addr, reg_buf) {
                Ok(_) => {},
                Err(_) => {
                    proof {
                        assert(false);
                    }
                },
            }
            match rewrite_record(&mut cix_buf, &cix_rec, cix_n) {
                Ok(_) => {},
                Err(_) => {
                    proof {
                        assert(false);
                    }
                },
            }
            match store.update(&cidx_addr, cix_buf) {
                Ok(_) => {},
                Err(_) => {
                    proof {
                        assert(false);
                    }
                },
            }
            Ok(())
        },
        Some(prev_comp_buf) => {
            let mut comp_buf2 = prev_comp_buf;
            if comp_rec.len() > comp_buf2.len() {
                return Err(BullPosterError::BufferTooSmall);
            }
            if p_rec.len() > prog_buf.len() || rix_rec.len() > rix_buf.len() {
                return Err(BullPosterError::BufferTooSmall);
            }
            match rewrite_record(&mut comp_buf2, &comp_rec, comp_n) {
                Ok(_) => {},
                Err(_) => {
                    proof {
                        assert(false);
                    }
                },
            }
            match store.update(comp_addr, comp_buf2) {
                Ok(_) => {},
                Err(_) => {
                    proof {
                        assert(false);
                    }
                },
            }
            match create_record(store, &raid_addr, &raid_rec) {
                Ok(_) => {},
                Err(e) => {
                    proof {
                        assert(false);
                    }
                    return Err(e);
                },
            }
            match rewrite_record(&mut prog_buf, &p_rec, p_n) {
                Ok(_) => {},
                Err(_) => {
                    proof {
                        assert(false);
                    }
                },
            }
            match store.update(prog_addr, prog_buf) {
                Ok(_) => {},
                Err(_) => {
                    proof {
                        assert(false);
                    }
                },
            }
            match rewrite_record(&mut rix_buf, &rix_rec, rix_n) {
                Ok(_) => {},
                Err(_) => {
                    proof {
                        assert(false);
                    }
                },
            }
            match store.update(&ridx_addr, rix_buf) {
                Ok(_) => {},
                Err(_) => {
                    proof {
                        assert(false);
                    }
                },
            }
            Ok(())
        },
    }
}

} // verus!

verus! {

/// Place a program into a competition of the given kind: join the
/// kind's current pool when it is awaiting with free capacity, open a
/// new competition under the next sequence number otherwise, and create
/// the raid record that ties the program to the competition.
#[verifier::rlimit(100)]
#[verifier::spinoff_prover]
pub fn create_raid(
    store: &mut RecordStore,
    program_id: &Addr,
    user: &Addr,
    raid_program_addr: &Addr,
    competition_type: CompetitionKind,
    challenged: Option<&Addr>,
    claimed_competition: &Addr,
    claimed_raid: &Addr,
    now: u64,
) -> (r: Result<(), BullPosterError>)
    requires
        old(store).wf(),
        program_id.wf(),
        user.wf(),
        raid_program_addr.wf(),
        claimed_competition.wf(),
        match challenged {
            Some(a) => a.wf(),
            None => true,
        },
        now <= u64::MAX - 1500,
    ensures
        final(store).wf(),
        match r {
            Ok(_) => create_raid_spec(
                old(store)@, program_id@, user@, raid_program_addr@, competition_type,
                match challenged {
                    Some(a) => Some(a@),
                    None => None,
                },
                claimed_competition@, claimed_raid@, now,
            ) == Ok::<_, BullPosterError>(final(store)@),
            Err(e) => create_raid_spec(
                old(store)@, program_id@, user@, raid_program_addr@, competition_type,
                match challenged {
                    Some(a) => Some(a@),
                    None => None,
                },
                claimed_competition@, claimed_raid@, now,
            ) == Err::<Map<Seq<u8>, Seq<u8>>, _>(e) && final(store)@ == old(store)@,
        },
{
    let rseed = registry_seed_bytes();
    let (reg_addr, _rb) = match derive_raw(&rseed, program_id) {
        Ok(x) => x,
        Err(e) => {
            return Err(e);
        },
    };
    let reg_buf = match store.open(&reg_addr) {
        Ok(b) => b,
        Err(e) => {
            return Err(e);
        },
    };
    let (reg, reg_n) = match ProgramStateCard::custom_deserialize(reg_buf.as_slice()) {
        Ok(x) => x,
        Err(e) => {
            return Err(e);
        },
    };
    let prog_buf = match store.open(raid_program_addr) {
        Ok(b) => b,
        Err(e) => {
            return Err(e);
        },
    };
    let (prog, p_n) = match RaidProgramCard::custom_deserialize(prog_buf.as_slice()) {
        Ok(x) => x,
        Err(e) => {
            return Err(e);
        },
    };
    if !prog.user_key.addr_eq(user) {
        return Err(BullPosterError::MissingAuthorization);
    }
    let seq = reg.sequence_for(competition_type);
    if seq == u64::MAX {
        return Err(BullPosterError::InvalidArgument);
    }
    let new_seq = seq + 1;
    if matches!(competition_type, CompetitionKind::PvP) {
        let ch = match challenged {
            Some(a) => a,
            None => {
                return Err(BullPosterError::InvalidArgument);
            },
        };
        if ch.addr_eq(raid_program_addr) {
            return Err(BullPosterError::InvalidArgument);
        }
        let cseed = build_challenge_seed(new_seq, raid_program_addr, ch);
        let (nc, _ncb) = match derive_address(&cseed, program_id) {
            Ok(x) => x,
            Err(e) => {
                return Err(e);
            },
        };
        if !claimed_competition.addr_eq(&nc) {
            return Err(BullPosterError::AddressMismatch);
        }
        let comp = CompetitionCard {
            competition_id: nc.duplicate(),
            competition_type,
            start_time: 0,
            end_time: 0,
            total_rewards_distributed: 0,
            status: CompetitionStatus::Awaiting,
            enrolled_programs: Vec::new(),
            required_programs: 2,
            challenger_program_id: Some(raid_program_addr.duplicate()),
            challenged_program_id: Some(ch.duplicate()),
            start_expiration: Some(now + CHALLENGE_ACCEPT_WINDOW),
            distributed_rewards: Vec::new(),
            placements: Vec::new(),
        };
        proof {
            assert(crate::addr::views_of(comp.enrolled_programs@) =~= Seq::<Seq<u8>>::empty());
            assert(comp@ == fresh_competition(
                nc@, competition_type, 2, Some(raid_program_addr@), Some(ch@),
                Some((now + CHALLENGE_ACCEPT_WINDOW) as u64),
            ));
        }
        create_raid_records(
            store, program_id, &reg_addr, reg_buf, reg, reg_n, competition_type, new_seq,
            raid_program_addr, prog_buf, prog, p_n, &nc, comp, None, 0, true, claimed_raid,
        )
    } else {
        let last = reg.last_competition_for(competition_type).duplicate();
        let join = store.occupied(&last);
        if join {
            let comp_buf = match store.open(&last) {
                Ok(b) => b,
                Err(e) => {
                    proof {
                        assert(false);
                    }
                    return Err(e);
                },
            };
            let (mut comp, c_n) = match CompetitionCard::custom_deserialize(comp_buf.as_slice()) {
                Ok(x) => x,
                Err(e) => {
                    return Err(e);
                },
            };
            let awaiting = matches!(comp.status, CompetitionStatus::Awaiting);
            let has_room = (comp.enrolled_programs.len() as u64) < comp.required_programs;
            if awaiting && has_room {
                if comp.enrolled_programs.len() >= u32::MAX as usize {
                    return Err(BullPosterError::InvalidArgument);
                }
                match crate::lifecycle::enroll_program(&mut comp, raid_program_addr, now) {
                    Ok(_) => {},
                    Err(e) => {
                        return Err(e);
                    },
                }
                create_raid_records(
                    store, program_id, &reg_addr, reg_buf, reg, reg_n, competition_type,
                    new_seq, raid_program_addr, prog_buf, prog, p_n, &last, comp,
                    Some(comp_buf), c_n, false, claimed_raid,
                )
            } else {
                create_raid_open_new(
                    store, program_id, &reg_addr, reg_buf, reg, reg_n, competition_type,
                    new_seq, raid_program_addr, prog_buf, prog, p_n, claimed_competition,
                    claimed_raid,
                )
            }
        } else {
            create_raid_open_new(
                store, program_id, &reg_addr, reg_buf, reg, reg_n, competition_type, new_seq,
                raid_program_addr, prog_buf, prog, p_n, claimed_competition, claimed_raid,
            )
        }
    }
}

/// Open a fresh pool competition under a new sequence number and place
/// the program into the records around it.
#[verifier::rlimit(100)]
#[verifier::spinoff_prover]
fn create_raid_open_new(
    store: &mut RecordStore,
    program_id: &Addr,
    reg_addr: &Addr,
    reg_buf: Vec<u8>,
    reg: ProgramStateCard,
    reg_n: usize,
    kind: CompetitionKind,
    new_seq: u64,
    prog_addr: &Addr,
    prog_buf: Vec<u8>,
    prog: RaidProgramCard,
    p_n: usize,
    claimed_competition: &Addr,
    claimed_raid: &Addr,
) -> (r: Result<(), BullPosterError>)
    requires
        old(store).wf(),
        program_id.wf(),
        reg_addr.wf(),
        prog_addr.wf(),
        reg.wf(),
        prog.wf(),
        old(store)@.dom().contains(reg_addr@),
        reg_buf@ == old(store)@[reg_addr@],
        old(store)@.dom().contains(prog_addr@),
        prog_buf@ == old(store)@[prog_addr@],
    ensures
        final(store).wf(),
        match r {
            Ok(_) => create_raid_create_new(
                old(store)@, program_id@, reg_addr@, reg@, reg_n as int, kind, new_seq,
                prog_addr@, prog@, p_n as int, claimed_competition@, claimed_raid@,
            ) == Ok::<_, BullPosterError>(final(store)@),
            Err(e) => create_raid_create_new(
                old(store)@, program_id@, reg_addr@, reg@, reg_n as int, kind, new_seq,
                prog_addr@, prog@, p_n as int, claimed_competition@, claimed_raid@,
            ) == Err::<Map<Seq<u8>, Seq<u8>>, _>(e) && final(store)@ == old(store)@,
        },
{
    let cseed = build_competition_seed(kind, new_seq);
    let (nc, _ncb) = match derive_address(&cseed, program_id) {
        Ok(x) => x,
        Err(e) => {
            return Err(e);
        },
    };
    if !claimed_competition.addr_eq(&nc) {
        return Err(BullPosterError::AddressMismatch);
    }
    let required = required_programs_of(kind);
    let comp = CompetitionCard {
        competition_id: nc.duplicate(),
        competition_type: kind,
        start_time: 0,
        end_time: 0,
        total_rewards_distributed: 0,
        status: CompetitionStatus::Awaiting,
        enrolled_programs: vec![prog_addr.duplicate()],
        required_programs: required,
        challenger_program_id: None,
        challenged_program_id: None,
        start_expiration: None,
        distributed_rewards: Vec::new(),
        placements: Vec::new(),
    };
    proof {
        assert(crate::addr::views_of(comp.enrolled_programs@) =~= seq![prog_addr@]);
        assert(comp@ == CompetitionCardView {
            enrolled_programs: seq![prog_addr@],
            ..fresh_competition(nc@, kind, required_of(kind), None, None, None)
        });
    }
    create_raid_records(
        store, program_id, reg_addr, reg_buf, reg, reg_n, kind, new_seq, prog_addr, prog_buf,
        prog, p_n, &nc, comp, None, 0, true, claimed_raid,
    )
}

} // verus!
