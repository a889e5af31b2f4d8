//! The action-dispatch wire format: a single opcode byte followed by an
//! opcode-specific payload that uses the codec's length-prefixed string
//! convention.

use vstd::prelude::*;

use crate::codec::{bytes_eq, dec_bytes, dec_u64, read_bytes, read_u64};
use crate::error::BullPosterError;
use crate::types::CompetitionKind;

verus! {

/// A decoded action.
pub enum BullPosterInstruction {
    InitializeProgram,
    CreateRaidProgram { name: Vec<u8>, description: Vec<u8>, profile_picture_url: Vec<u8> },
    AuthorityMint { amount: u64 },
    CreateRaid { competition_type: Vec<u8> },
    AcceptPVPRequest,
    BurnTokens { burn_amount: u64 },
    EnrollInProgram,
    CreateUserCard,
    UpdateUserCard {
        user_email: Vec<u8>,
        user_twitter_handle: Vec<u8>,
        user_dob: Vec<u8>,
        profile_picture_url: Vec<u8>,
    },
}

/// Mathematical content of a decoded action.
pub ghost enum BullPosterInstructionView {
    InitializeProgram,
    CreateRaidProgram { name: Seq<u8>, description: Seq<u8>, profile_picture_url: Seq<u8> },
    AuthorityMint { amount: u64 },
    CreateRaid { competition_type: Seq<u8> },
    AcceptPVPRequest,
    BurnTokens { burn_amount: u64 },
    EnrollInProgram,
    CreateUserCard,
    UpdateUserCard {
        user_email: Seq<u8>,
        user_twitter_handle: Seq<u8>,
        user_dob: Seq<u8>,
        profile_picture_url: Seq<u8>,
    },
}

impl View for BullPosterInstruction {
    type V = BullPosterInstructionView;

    open spec fn view(&self) -> BullPosterInstructionView {
        match self {
            BullPosterInstruction::InitializeProgram => BullPosterInstructionView::InitializeProgram,
            BullPosterInstruction::CreateRaidProgram { name, description, profile_picture_url } =>
                BullPosterInstructionView::CreateRaidProgram {
                    name: name@,
                    description: description@,
                    profile_picture_url: profile_picture_url@,
                },
            BullPosterInstruction::AuthorityMint { amount } =>
                BullPosterInstructionView::AuthorityMint { amount: *amount },
            BullPosterInstruction::CreateRaid { competition_type } =>
                BullPosterInstructionView::CreateRaid { competition_type: competition_type@ },
            BullPosterInstruction::AcceptPVPRequest => BullPosterInstructionView::AcceptPVPRequest,
            BullPosterInstruction::BurnTokens { burn_amount } =>
                BullPosterInstructionView::BurnTokens { burn_amount: *burn_amount },
            BullPosterInstruction::EnrollInProgram => BullPosterInstructionView::EnrollInProgram,
            BullPosterInstruction::CreateUserCard => BullPosterInstructionView::CreateUserCard,
            BullPosterInstruction::UpdateUserCard {
                user_email,
                user_twitter_handle,
                user_dob,
                profile_picture_url,
            } => BullPosterInstructionView::UpdateUserCard {
                user_email: user_email@,
                user_twitter_handle: user_twitter_handle@,
                user_dob: user_dob@,
                profile_picture_url: profile_picture_url@,
            },
        }
    }
}

/// Parse an opcode byte and its payload; `None` on an empty buffer, an
/// unknown opcode, a string that runs past the end, or a scalar payload
/// of the wrong size.
pub open spec fn dec_instruction(s: Seq<u8>) -> Option<BullPosterInstructionView> {
    if s.len() == 0 {
        None
    } else if s[0] == 1u8 {
        Some(BullPosterInstructionView::InitializeProgram)
    } else if s[0] == 2u8 {
        match dec_bytes(s, 1) {
            None => None,
            Some((name, p1)) => match dec_bytes(s, p1) {
                None => None,
                Some((description, p2)) => match dec_bytes(s, p2) {
                    None => None,
                    Some((url, p3)) => Some(BullPosterInstructionView::CreateRaidProgram {
                        name,
                        description,
                        profile_picture_url: url,
                    }),
                },
            },
        }
    } else if s[0] == 3u8 {
        if s.len() == 9 {
            match dec_u64(s, 1) {
                None => None,
                Some((amount, p)) => Some(BullPosterInstructionView::AuthorityMint { amount }),
            }
        } else {
            None
        }
    } else if s[0] == 4u8 {
        match dec_bytes(s, 1) {
            None => None,
            Some((t, p)) => Some(BullPosterInstructionView::CreateRaid { competition_type: t }),
        }
    } else if s[0] == 5u8 {
        Some(BullPosterInstructionView::AcceptPVPRequest)
    } else if s[0] == 6u8 {
        if s.len() == 9 {
            match dec_u64(s, 1) {
                None => None,
                Some((amount, p)) => Some(BullPosterInstructionView::BurnTokens {
                    burn_amount: amount,
                }),
            }
        } else {
            None
        }
    } else if s[0] == 7u8 {
        Some(BullPosterInstructionView::EnrollInProgram)
    } else if s[0] == 8u8 {
        Some(BullPosterInstructionView::CreateUserCard)
    } else if s[0] == 9u8 {
        match dec_bytes(s, 1) {
            None => None,
            Some((email, p1)) => match dec_bytes(s, p1) {
                None => None,
                Some((twitter, p2)) => match dec_bytes(s, p2) {
                    None => None,
                    Some((dob, p3)) => match dec_bytes(s, p3) {
                        None => None,
                        Some((url, p4)) => Some(BullPosterInstructionView::UpdateUserCard {
                            user_email: email,
                            user_twitter_handle: twitter,
                            user_dob: dob,
                            profile_picture_url: url,
                        }),
                    },
                },
            },
        }
    } else {
        None
    }
}

/// Read one length-prefixed string of the dispatch payload, returning
/// it with the position just past it.
pub fn unpack_string(input: &[u8], pos: usize) -> (r: Result<(Vec<u8>, usize), BullPosterError>)
    ensures
        match r {
            Ok((b, p)) => dec_bytes(input@, pos as int) == Some((b@, p as int))
                && b@.len() <= u32::MAX,
            Err(e) => e == BullPosterError::InvalidArgument
                && dec_bytes(input@, pos as int).is_none(),
        },
{
    match read_bytes(input, pos) {
        Ok(x) => Ok(x),
        Err(_) => Err(BullPosterError::InvalidArgument),
    }
}

/// Decode a caller-supplied action.
pub fn parse_instruction(data: &[u8]) -> (r: Result<BullPosterInstruction, BullPosterError>)
    ensures
        match r {
            Ok(i) => dec_instruction(data@) == Some(i@),
            Err(e) => e == BullPosterError::InvalidArgument && dec_instruction(data@).is_none(),
        },
{
    if data.len() == 0 {
        return Err(BullPosterError::InvalidArgument);
    }
    let op = data[0];
    if op == 1 {
        Ok(BullPosterInstruction::InitializeProgram)
    } else if op == 2 {
        let (name, p1) = match unpack_string(data, 1) {
            Ok(x) => x,
            Err(e) => {
                return Err(e);
            },
        };
        let (description, p2) = match unpack_string(data, p1) {
            Ok(x) => x,
            Err(e) => {
                return Err(e);
            },
        };
        let (profile_picture_url, _p3) = match unpack_string(data, p2) {
            Ok(x) => x,
            Err(e) => {
                return Err(e);
            },
        };
        Ok(BullPosterInstruction::CreateRaidProgram { name, description, profile_picture_url })
    } else if op == 3 {
        if data.len() != 9 {
            return Err(BullPosterError::InvalidArgument);
        }
        let (amount, _p) = match read_u64(data, 1) {
            Ok(x) => x,
            Err(_) => {
                proof {
                    assert(false);
                }
                return Err(BullPosterError::InvalidArgument);
            },
        };
        Ok(BullPosterInstruction::AuthorityMint { amount })
    } else if op == 4 {
        let (competition_type, _p) = match unpack_string(data, 1) {
            Ok(x) => x,
            Err(e) => {
                return Err(e);
            },
        };
        Ok(BullPosterInstruction::CreateRaid { competition_type })
    } else if op == 5 {
        Ok(BullPosterInstruction::AcceptPVPRequest)
    } else if op == 6 {
        if data.len() != 9 {
            return Err(BullPosterError::InvalidArgument);
        }
        let (burn_amount, _p) = match read_u64(data, 1) {
            Ok(x) => x,
            Err(_) => {
                proof {
                    assert(false);
                }
                return Err(BullPosterError::InvalidArgument);
            },
        };
        Ok(BullPosterInstruction::BurnTokens { burn_amount })
    } else if op == 7 {
        Ok(BullPosterInstruction::EnrollInProgram)
    } else if op == 8 {
        Ok(BullPosterInstruction::CreateUserCard)
    } else if op == 9 {
        let (user_email, p1) = match unpack_string(data, 1) {
            Ok(x) => x,
            Err(e) => {
                return Err(e);
            },
        };
        let (user_twitter_handle, p2) = match unpack_string(data, p1) {
            Ok(x) => x,
            Err(e) => {
                return Err(e);
            },
        };
        let (user_dob, p3) = match unpack_string(data, p2) {
            Ok(x) => x,
            Err(e) => {
                return Err(e);
            },
        };
        let (profile_picture_url, _p4) = match unpack_string(data, p3) {
            Ok(x) => x,
            Err(e) => {
                return Err(e);
            },
        };
        Ok(BullPosterInstruction::UpdateUserCard {
            user_email,
            user_twitter_handle,
            user_dob,
            profile_picture_url,
        })
    } else {
        Err(BullPosterError::InvalidArgument)
    }
}

/// The competition kind that a wire name denotes, if any.
pub open spec fn kind_of_name(s: Seq<u8>) -> Option<CompetitionKind> {
    if false {
        None
    } else if s == seq![52u8, 45, 112, 114, 111, 103, 114, 97, 109] {
        Some(CompetitionKind::Pool4)
    } else if s == seq![54u8, 45, 112, 114, 111, 103, 114, 97, 109] {
        Some(CompetitionKind::Pool6)
    } else if s == seq![49u8, 50, 45, 112, 114, 111, 103, 114, 97, 109] {
        Some(CompetitionKind::Pool12)
    } else if s == seq![50u8, 52, 45, 112, 114, 111, 103, 114, 97, 109] {
        Some(CompetitionKind::Pool24)
    } else if s == seq![80u8, 118, 80] {
        Some(CompetitionKind::PvP)
    } else {
        None
    }
}

/// Map a competition-type name from the wire to its kind.
pub fn kind_from_name(name: &Vec<u8>) -> (r: Option<CompetitionKind>)
    ensures
        r == kind_of_name(name@),
{
    let cand_pool4: Vec<u8> = vec![52u8, 45, 112, 114, 111, 103, 114, 97, 109];
    let cand_pool6: Vec<u8> = vec![54u8, 45, 112, 114, 111, 103, 114, 97, 109];
    let cand_pool12: Vec<u8> = vec![49u8, 50, 45, 112, 114, 111, 103, 114, 97, 109];
    let cand_pool24: Vec<u8> = vec![50u8, 52, 45, 112, 114, 111, 103, 114, 97, 109];
    let cand_pvp: Vec<u8> = vec![80u8, 118, 80];
    proof {
        assert(cand_pool4@ =~= seq![52u8, 45, 112, 114, 111, 103, 114, 97, 109]);
        assert(cand_pool6@ =~= seq![54u8, 45, 112, 114, 111, 103, 114, 97, 109]);
        assert(cand_pool12@ =~= seq![49u8, 50, 45, 112, 114, 111, 103, 114, 97, 109]);
        assert(cand_pool24@ =~= seq![50u8, 52, 45, 112, 114, 111, 103, 114, 97, 109]);
        assert(cand_pvp@ =~= seq![80u8, 118, 80]);
    }
    if bytes_eq(name, &cand_pool4) {
        Some(CompetitionKind::Pool4)
    } else if bytes_eq(name, &cand_pool6) {
        Some(CompetitionKind::Pool6)
    } else if bytes_eq(name, &cand_pool12) {
        Some(CompetitionKind::Pool12)
    } else if bytes_eq(name, &cand_pool24) {
        Some(CompetitionKind::Pool24)
    } else if bytes_eq(name, &cand_pvp) {
        Some(CompetitionKind::PvP)
    } else {
        None
    }
}

} // verus!
