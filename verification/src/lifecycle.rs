//! The competition lifecycle state machine: enrollment into pools,
//! challenge acceptance and expiry, and the preconditions of a burn.
//! Each executable transition is proved equal to a specification-level
//! transition function, and the lifecycle laws are stated over those.

use vstd::prelude::*;

use crate::addr::{contains_addr, views_of, Addr};
use crate::competition::{CompetitionCard, CompetitionCardView};
use crate::error::BullPosterError;
use crate::types::CompetitionStatus;
use crate::user_card::UserCardView;

verus! {

/// Seconds between a competition filling and its start.
pub const COMPETITION_LEAD_TIME: u64 = 300;

/// Seconds a competition runs once started.
pub const COMPETITION_DURATION: u64 = 1200;

/// Seconds a challenged party has to accept a challenge.
pub const CHALLENGE_ACCEPT_WINDOW: u64 = 300;

/// The deadline by which a challenge must be accepted; a challenge
/// without one recorded is treated as immediately expired.
pub open spec fn accept_deadline(v: CompetitionCardView) -> u64 {
    match v.start_expiration {
        Some(t) => t,
        None => 0u64,
    }
}

/// What enrolling a program into a competition yields: the updated
/// card, or the exact error. Enrollment needs an awaiting competition
/// with free capacity and no duplicate membership; the enrollment that
/// reaches the required count activates the competition and fixes its
/// start and end times.
pub open spec fn enroll_spec(
    v: CompetitionCardView,
    program: Seq<u8>,
    now: u64,
) -> Result<CompetitionCardView, BullPosterError> {
    if v.status != CompetitionStatus::Awaiting {
        Err(BullPosterError::InvalidCompetitionStatus)
    } else if v.enrolled_programs.len() >= v.required_programs {
        Err(BullPosterError::CompetitionFull)
    } else if v.enrolled_programs.contains(program) {
        Err(BullPosterError::AlreadyInitialized)
    } else {
        let enrolled = v.enrolled_programs.push(program);
        if enrolled.len() == v.required_programs {
            Ok(CompetitionCardView {
                status: CompetitionStatus::Active,
                start_time: (now + COMPETITION_LEAD_TIME) as u64,
                end_time: (now + COMPETITION_LEAD_TIME + COMPETITION_DURATION) as u64,
                enrolled_programs: enrolled,
                ..v
            })
        } else {
            Ok(CompetitionCardView { enrolled_programs: enrolled, ..v })
        }
    }
}

/// Enroll a program into a competition in place.
pub fn enroll_program(card: &mut CompetitionCard, program: &Addr, now: u64) -> (r: Result<
    (),
    BullPosterError,
>)
    requires
        old(card).wf(),
        program.wf(),
        now <= u64::MAX - 1500,
        old(card)@.enrolled_programs.len() < u32::MAX,
    ensures
        final(card).wf(),
        match r {
            Ok(_) => enroll_spec(old(card)@, program@, now) == Ok::<_, BullPosterError>(
                final(card)@,
            ),
            Err(e) => enroll_spec(old(card)@, program@, now)
                == Err::<CompetitionCardView, _>(e) && final(card)@ == old(card)@,
        },
{
    if !matches!(card.status, CompetitionStatus::Awaiting) {
        return Err(BullPosterError::InvalidCompetitionStatus);
    }
    if card.enrolled_programs.len() as u64 >= card.required_programs {
        return Err(BullPosterError::CompetitionFull);
    }
    if contains_addr(&card.enrolled_programs, program) {
        return Err(BullPosterError::AlreadyInitialized);
    }
    let ghost prev = card.enrolled_programs@;
    card.enrolled_programs.push(program.duplicate());
    proof {
        assert(views_of(card.enrolled_programs@) =~= views_of(prev).push(program@));
    }
    if card.enrolled_programs.len() as u64 == card.required_programs {
        card.status = CompetitionStatus::Active;
        card.start_time = now + COMPETITION_LEAD_TIME;
        card.end_time = now + COMPETITION_LEAD_TIME + COMPETITION_DURATION;
    }
    Ok(())
}

/// What accepting a challenge yields: the updated card and the
/// outcome. Acceptance before the deadline activates the competition
/// with the accepting program recorded as the challenged party;
/// acceptance after it expires the competition instead and fails; a
/// competition not awaiting acceptance is left alone and the call
/// fails.
pub open spec fn accept_spec(
    v: CompetitionCardView,
    challenged: Seq<u8>,
    now: u64,
) -> (CompetitionCardView, Result<(), BullPosterError>) {
    if v.status != CompetitionStatus::Awaiting {
        (v, Err(BullPosterError::InvalidCompetitionStatus))
    } else if now > accept_deadline(v) {
        (
            CompetitionCardView { status: CompetitionStatus::Expired, ..v },
            Err(BullPosterError::InvalidCompetitionStatus),
        )
    } else {
        (
            CompetitionCardView {
                status: CompetitionStatus::Active,
                challenged_program_id: Some(challenged),
                start_time: (now + COMPETITION_LEAD_TIME) as u64,
                end_time: (now + COMPETITION_LEAD_TIME + COMPETITION_DURATION) as u64,
                ..v
            },
            Ok(()),
        )
    }
}

/// Accept a challenge in place.
pub fn accept_challenge(card: &mut CompetitionCard, challenged: &Addr, now: u64) -> (r: Result<
    (),
    BullPosterError,
>)
    requires
        old(card).wf(),
        challenged.wf(),
        now <= u64::MAX - 1500,
    ensures
        final(card).wf(),
        final(card)@ == accept_spec(old(card)@, challenged@, now).0,
        match r {
            Ok(_) => accept_spec(old(card)@, challenged@, now).1 == Ok::<(), BullPosterError>(()),
            Err(e) => accept_spec(old(card)@, challenged@, now).1
                == Err::<(), BullPosterError>(e),
        },
{
    if !matches!(card.status, CompetitionStatus::Awaiting) {
        return Err(BullPosterError::InvalidCompetitionStatus);
    }
    let deadline: u64 = match card.start_expiration {
        Some(t) => t,
        None => 0,
    };
    if now > deadline {
        card.status = CompetitionStatus::Expired;
        return Err(BullPosterError::InvalidCompetitionStatus);
    }
    card.status = CompetitionStatus::Active;
    card.challenged_program_id = Some(challenged.duplicate());
    card.start_time = now + COMPETITION_LEAD_TIME;
    card.end_time = now + COMPETITION_LEAD_TIME + COMPETITION_DURATION;
    Ok(())
}

/// Whether a burn may proceed: the acting program must be enrolled in
/// the competition, the competition must be active and not past its end
/// time, the user card must belong to the acting user, and the user
/// must be enrolled in the acting program. The freshness of the burn
/// record itself is enforced by allocation at its derived address.
pub open spec fn burn_allowed(
    comp: CompetitionCardView,
    program: Seq<u8>,
    user_card: UserCardView,
    user: Seq<u8>,
    now: u64,
) -> Result<(), BullPosterError> {
    if !comp.enrolled_programs.contains(program) {
        Err(BullPosterError::InvalidArgument)
    } else if comp.status != CompetitionStatus::Active {
        Err(BullPosterError::InvalidCompetitionStatus)
    } else if now >= comp.end_time {
        Err(BullPosterError::InvalidCompetitionStatus)
    } else if user_card.user_pubkey != user {
        Err(BullPosterError::MissingAuthorization)
    } else if !user_card.enrolled_programs.contains(program) {
        Err(BullPosterError::InvalidArgument)
    } else {
        Ok(())
    }
}

/// Check the burn preconditions.
pub fn check_burn(
    comp: &CompetitionCard,
    program: &Addr,
    user_card: &crate::user_card::UserCard,
    user: &Addr,
    now: u64,
) -> (r: Result<(), BullPosterError>)
    ensures
        r == burn_allowed(comp@, program@, user_card@, user@, now),
{
    if !contains_addr(&comp.enrolled_programs, program) {
        return Err(BullPosterError::InvalidArgument);
    }
    if !matches!(comp.status, CompetitionStatus::Active) {
        return Err(BullPosterError::InvalidCompetitionStatus);
    }
    if now >= comp.end_time {
        return Err(BullPosterError::InvalidCompetitionStatus);
    }
    if !user_card.user_pubkey.addr_eq(user) {
        return Err(BullPosterError::MissingAuthorization);
    }
    if !contains_addr(&user_card.enrolled_programs, program) {
        return Err(BullPosterError::InvalidArgument);
    }
    Ok(())
}

// ---------------------------------------------------------------------
// Lifecycle laws
// ---------------------------------------------------------------------

/// Pool fill and activation: enrolling a distinct program into an
/// awaiting competition with free capacity succeeds; the competition
/// becomes active exactly when the enrollment reaches the required
/// count, and stays awaiting before that.
pub proof fn lemma_pool_fill_activation(v: CompetitionCardView, program: Seq<u8>, now: u64)
    requires
        v.status == CompetitionStatus::Awaiting,
        v.enrolled_programs.len() < v.required_programs,
        !v.enrolled_programs.contains(program),
    ensures
        match enroll_spec(v, program, now) {
            Ok(c) => c.enrolled_programs == v.enrolled_programs.push(program)
                && (c.status == CompetitionStatus::Active
                    <==> v.enrolled_programs.len() + 1 == v.required_programs)
                && (c.status == CompetitionStatus::Awaiting
                    <==> v.enrolled_programs.len() + 1 < v.required_programs),
            Err(_) => false,
        },
{
}

/// A full competition turns enrollment away: once the member count has
/// reached the requirement, every further enrollment fails with
/// `CompetitionFull`.
pub proof fn lemma_competition_full(v: CompetitionCardView, program: Seq<u8>, now: u64)
    requires
        v.status == CompetitionStatus::Awaiting,
        v.enrolled_programs.len() >= v.required_programs,
    ensures
        enroll_spec(v, program, now)
            == Err::<CompetitionCardView, _>(BullPosterError::CompetitionFull),
{
}

/// Challenge timeout: acceptance after the deadline does not activate
/// the competition; it transitions to `Expired` and the call fails.
pub proof fn lemma_challenge_timeout(v: CompetitionCardView, challenged: Seq<u8>, now: u64)
    requires
        v.status == CompetitionStatus::Awaiting,
        now > accept_deadline(v),
    ensures
        accept_spec(v, challenged, now).0.status == CompetitionStatus::Expired,
        accept_spec(v, challenged, now).1.is_err(),
{
}

/// Burn preconditions: a burn is turned away when the competition has
/// ended, when the acting program is not enrolled in it, or when the
/// acting user is not enrolled in the program.
pub proof fn lemma_burn_preconditions(
    comp: CompetitionCardView,
    program: Seq<u8>,
    user_card: UserCardView,
    user: Seq<u8>,
    now: u64,
)
    ensures
        now >= comp.end_time ==> burn_allowed(comp, program, user_card, user, now).is_err(),
        !comp.enrolled_programs.contains(program)
            ==> burn_allowed(comp, program, user_card, user, now).is_err(),
        user_card.user_pubkey == user && !user_card.enrolled_programs.contains(program)
            ==> burn_allowed(comp, program, user_card, user, now).is_err(),
{
}

} // verus!
