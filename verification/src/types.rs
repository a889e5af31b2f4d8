//! Competition kinds and lifecycle statuses, with their one-byte
//! encodings.

use vstd::prelude::*;

use crate::error::BullPosterError;

verus! {

/// The kind of a competition: a pool of a fixed size, or a two-party
/// challenge.
#[derive(Clone, Copy, Debug, PartialEq, Eq, Structural)]
pub enum CompetitionKind {
    Pool4,
    Pool6,
    Pool12,
    Pool24,
    PvP,
}

/// The lifecycle status of a competition.
#[derive(Clone, Copy, Debug, PartialEq, Eq, Structural)]
pub enum CompetitionStatus {
    Awaiting,
    Active,
    Finalized,
    Expired,
}

/// The wire tag of a competition kind.
pub open spec fn kind_tag(k: CompetitionKind) -> u8 {
    match k {
        CompetitionKind::Pool4 => 0u8,
        CompetitionKind::Pool6 => 1u8,
        CompetitionKind::Pool12 => 2u8,
        CompetitionKind::Pool24 => 3u8,
        CompetitionKind::PvP => 4u8,
    }
}

/// A competition kind as one byte.
pub open spec fn enc_kind(k: CompetitionKind) -> Seq<u8> {
    seq![kind_tag(k)]
}

/// Parse a competition kind at `pos`.
pub open spec fn dec_kind(s: Seq<u8>, pos: int) -> Option<(CompetitionKind, int)> {
    if 0 <= pos && pos + 1 <= s.len() {
        if s[pos] == 0u8 {
            Some((CompetitionKind::Pool4, pos + 1))
        } else if s[pos] == 1u8 {
            Some((CompetitionKind::Pool6, pos + 1))
        } else if s[pos] == 2u8 {
            Some((CompetitionKind::Pool12, pos + 1))
        } else if s[pos] == 3u8 {
            Some((CompetitionKind::Pool24, pos + 1))
        } else if s[pos] == 4u8 {
            Some((CompetitionKind::PvP, pos + 1))
        } else {
            None
        }
    } else {
        None
    }
}

/// The wire tag of a lifecycle status.
pub open spec fn status_tag(st: CompetitionStatus) -> u8 {
    match st {
        CompetitionStatus::Awaiting => 0u8,
        CompetitionStatus::Active => 1u8,
        CompetitionStatus::Finalized => 2u8,
        CompetitionStatus::Expired => 3u8,
    }
}

/// A lifecycle status as one byte.
pub open spec fn enc_status(st: CompetitionStatus) -> Seq<u8> {
    seq![status_tag(st)]
}

/// Parse a lifecycle status at `pos`.
pub open spec fn dec_status(s: Seq<u8>, pos: int) -> Option<(CompetitionStatus, int)> {
    if 0 <= pos && pos + 1 <= s.len() {
        if s[pos] == 0u8 {
            Some((CompetitionStatus::Awaiting, pos + 1))
        } else if s[pos] == 1u8 {
            Some((CompetitionStatus::Active, pos + 1))
        } else if s[pos] == 2u8 {
            Some((CompetitionStatus::Finalized, pos + 1))
        } else if s[pos] == 3u8 {
            Some((CompetitionStatus::Expired, pos + 1))
        } else {
            None
        }
    } else {
        None
    }
}

/// How many enrolled programs a competition of this kind requires
/// before it activates.
pub open spec fn required_of(k: CompetitionKind) -> u64 {
    match k {
        CompetitionKind::Pool4 => 4u64,
        CompetitionKind::Pool6 => 6u64,
        CompetitionKind::Pool12 => 12u64,
        CompetitionKind::Pool24 => 24u64,
        CompetitionKind::PvP => 2u64,
    }
}

/// Executable counterpart of `required_of`.
pub fn required_programs_of(k: CompetitionKind) -> (r: u64)
    ensures
        r == required_of(k),
{
    match k {
        CompetitionKind::Pool4 => 4,
        CompetitionKind::Pool6 => 6,
        CompetitionKind::Pool12 => 12,
        CompetitionKind::Pool24 => 24,
        CompetitionKind::PvP => 2,
    }
}

/// Append a competition kind's byte.
pub fn push_kind(out: &mut Vec<u8>, k: CompetitionKind)
    ensures
        final(out)@ == old(out)@ + enc_kind(k),
{
    let b: u8 = match k {
        CompetitionKind::Pool4 => 0,
        CompetitionKind::Pool6 => 1,
        CompetitionKind::Pool12 => 2,
        CompetitionKind::Pool24 => 3,
        CompetitionKind::PvP => 4,
    };
    out.push(b);
    assert(out@ =~= old(out)@ + enc_kind(k));
}

/// Read a competition kind.
pub fn read_kind(data: &[u8], pos: usize) -> (r: Result<
    (CompetitionKind, usize),
    BullPosterError,
>)
    ensures
        match r {
            Ok((k, p)) => dec_kind(data@, pos as int) == Some((k, p as int)),
            Err(e) => e == BullPosterError::MalformedRecord && dec_kind(data@, pos as int).is_none(),
        },
{
    if pos >= data.len() {
        return Err(BullPosterError::MalformedRecord);
    }
    let b = data[pos];
    if b == 0 {
        Ok((CompetitionKind::Pool4, pos + 1))
    } else if b == 1 {
        Ok((CompetitionKind::Pool6, pos + 1))
    } else if b == 2 {
        Ok((CompetitionKind::Pool12, pos + 1))
    } else if b == 3 {
        Ok((CompetitionKind::Pool24, pos + 1))
    } else if b == 4 {
        Ok((CompetitionKind::PvP, pos + 1))
    } else {
        Err(BullPosterError::MalformedRecord)
    }
}

/// Append a lifecycle status's byte.
pub fn push_status(out: &mut Vec<u8>, st: CompetitionStatus)
    ensures
        final(out)@ == old(out)@ + enc_status(st),
{
    let b: u8 = match st {
        CompetitionStatus::Awaiting => 0,
        CompetitionStatus::Active => 1,
        CompetitionStatus::Finalized => 2,
        CompetitionStatus::Expired => 3,
    };
    out.push(b);
    assert(out@ =~= old(out)@ + enc_status(st));
}

/// Read a lifecycle status.
pub fn read_status(data: &[u8], pos: usize) -> (r: Result<
    (CompetitionStatus, usize),
    BullPosterError,
>)
    ensures
        match r {
            Ok((st, p)) => dec_status(data@, pos as int) == Some((st, p as int)),
            Err(e) => e == BullPosterError::MalformedRecord
                && dec_status(data@, pos as int).is_none(),
        },
{
    if pos >= data.len() {
        return Err(BullPosterError::MalformedRecord);
    }
    let b = data[pos];
    if b == 0 {
        Ok((CompetitionStatus::Awaiting, pos + 1))
    } else if b == 1 {
        Ok((CompetitionStatus::Active, pos + 1))
    } else if b == 2 {
        Ok((CompetitionStatus::Finalized, pos + 1))
    } else if b == 3 {
        Ok((CompetitionStatus::Expired, pos + 1))
    } else {
        Err(BullPosterError::MalformedRecord)
    }
}

/// A competition kind's encoding parses back to the kind.
pub proof fn lemma_dec_kind_of_enc(s: Seq<u8>, pos: int, k: CompetitionKind)
    requires
        0 <= pos,
        pos + 1 <= s.len(),
        s.subrange(pos, pos + 1) == enc_kind(k),
    ensures
        dec_kind(s, pos) == Some((k, pos + 1)),
{
    assert(s[pos] == enc_kind(k)[0]);
}

/// A lifecycle status's encoding parses back to the status.
pub proof fn lemma_dec_status_of_enc(s: Seq<u8>, pos: int, st: CompetitionStatus)
    requires
        0 <= pos,
        pos + 1 <= s.len(),
        s.subrange(pos, pos + 1) == enc_status(st),
    ensures
        dec_status(s, pos) == Some((st, pos + 1)),
{
    assert(s[pos] == enc_status(st)[0]);
}

} // verus!
