//! The program-wide bookkeeping records that hold one field each: the
//! registered-program, raid and competition indexes, the raid history
//! and the leaderboard blob.

use vstd::prelude::*;

use crate::addr::{addrs_wf, views_of, Addr};
use crate::codec::{
    dec_addrs, dec_bytes, dec_u32, enc_addrs, enc_bytes, lemma_dec_addr_list_props,
    lemma_dec_addrs_of_enc, lemma_dec_bytes_of_enc, lemma_subrange_of_subrange, push_addrs,
    push_bytes, read_addrs, read_bytes, write_record,
};
use crate::error::BullPosterError;

verus! {

// ---------------------------------------------------------------------
// ProgramRaidProgramsStateCard: the index of every registered program
// ---------------------------------------------------------------------

/// Mathematical content of a `ProgramRaidProgramsStateCard`.
pub ghost struct ProgramRaidProgramsStateCardView {
    pub raid_program_pubkeys: Seq<Seq<u8>>,
}

/// The index of all registered raid programs' addresses.
pub struct ProgramRaidProgramsStateCard {
    pub raid_program_pubkeys: Vec<Addr>,
}

impl View for ProgramRaidProgramsStateCard {
    type V = ProgramRaidProgramsStateCardView;

    open spec fn view(&self) -> ProgramRaidProgramsStateCardView {
        ProgramRaidProgramsStateCardView {
            raid_program_pubkeys: views_of(self.raid_program_pubkeys@),
        }
    }
}

/// Well-formedness: a list of 32-byte addresses whose count fits the
/// 32-bit prefix.
pub open spec fn wf_raid_programs_card(v: ProgramRaidProgramsStateCardView) -> bool {
    &&& v.raid_program_pubkeys.len() <= u32::MAX
    &&& forall|i: int| 0 <= i < v.raid_program_pubkeys.len()
        ==> (#[trigger] v.raid_program_pubkeys[i]).len() == 32
}

/// The card's serialized form.
#[verifier::opaque]
pub open spec fn enc_raid_programs_card(v: ProgramRaidProgramsStateCardView) -> Seq<u8> {
    enc_addrs(v.raid_program_pubkeys)
}

/// Parse the card from the front of a buffer.
pub open spec fn dec_raid_programs_card(s: Seq<u8>) -> Option<(
    ProgramRaidProgramsStateCardView,
    int,
)> {
    match dec_addrs(s, 0) {
        None => None,
        Some((l, p)) => Some((ProgramRaidProgramsStateCardView { raid_program_pubkeys: l }, p)),
    }
}

impl ProgramRaidProgramsStateCard {
    pub open spec fn wf(&self) -> bool {
        wf_raid_programs_card(self@) && addrs_wf(self.raid_program_pubkeys@)
    }

    /// The card's encoding as a fresh byte vector.
    pub fn encode_vec(&self) -> (out: Vec<u8>)
        requires
            self.wf(),
        ensures
            out@ == enc_raid_programs_card(self@),
    {
        proof {
            reveal(enc_raid_programs_card);
        }
        let mut out: Vec<u8> = Vec::new();
        push_addrs(&mut out, &self.raid_program_pubkeys);
        assert(out@ =~= enc_raid_programs_card(self@));
        out
    }

    /// Serialize into a fixed-capacity buffer; the capacity never
    /// changes and a record too large for it is refused whole.
    pub fn custom_serialize(&self, buffer: &mut Vec<u8>) -> (r: Result<usize, BullPosterError>)
        requires
            self.wf(),
        ensures
            final(buffer)@.len() == old(buffer)@.len(),
            match r {
                Ok(n) => n as int == enc_raid_programs_card(self@).len()
                    && n <= old(buffer)@.len()
                    && final(buffer)@.subrange(0, n as int) == enc_raid_programs_card(self@)
                    && (forall|i: int| n <= i < final(buffer)@.len()
                        ==> final(buffer)@[i] == old(buffer)@[i]),
                Err(e) => e == BullPosterError::BufferTooSmall
                    && enc_raid_programs_card(self@).len() > old(buffer)@.len()
                    && final(buffer)@ == old(buffer)@,
            },
    {
        let rec = self.encode_vec();
        write_record(buffer, &rec)
    }

    /// Decode from a buffer, reporting the bytes consumed.
    pub fn custom_deserialize(data: &[u8]) -> (r: Result<
        (Self, usize),
        BullPosterError,
    >)
        ensures
            match r {
                Ok((c, n)) => c.wf() && dec_raid_programs_card(data@) == Some((c@, n as int)),
                Err(e) => e == BullPosterError::MalformedRecord
                    && dec_raid_programs_card(data@).is_none(),
            },
    {
        let (l, p) = match read_addrs(data, 0) {
            Ok(x) => x,
            Err(e) => {
                return Err(e);
            },
        };
        proof {
            match dec_u32(data@, 0) {
                None => {},
                Some((n, q)) => {
                    lemma_dec_addr_list_props(data@, q, n as nat);
                },
            }
        }
        Ok((ProgramRaidProgramsStateCard { raid_program_pubkeys: l }, p))
    }
}

/// Round trip: a well-formed card, encoded and then decoded from any
/// sufficiently large buffer, comes back unchanged.
pub proof fn lemma_raid_programs_card_round_trip(
    v: ProgramRaidProgramsStateCardView,
    rest: Seq<u8>,
)
    requires
        wf_raid_programs_card(v),
    ensures
        dec_raid_programs_card(enc_raid_programs_card(v) + rest)
            == Some((v, enc_raid_programs_card(v).len() as int)),
{
    reveal(enc_raid_programs_card);
    let e = enc_raid_programs_card(v);
    let s = e + rest;
    assert(s.subrange(0, e.len() as int) =~= e);
    lemma_dec_addrs_of_enc(s, 0, v.raid_program_pubkeys);
}

} // verus!


verus! {

/// Mathematical content of a `ProgramRaidsStateCard`.
pub ghost struct ProgramRaidsStateCardView {
    pub raid_pubkeys: Seq<Seq<u8>>,
}

/// The index of every raid record's address.
pub struct ProgramRaidsStateCard {
    pub raid_pubkeys: Vec<Addr>,
}

impl View for ProgramRaidsStateCard {
    type V = ProgramRaidsStateCardView;

    open spec fn view(&self) -> ProgramRaidsStateCardView {
        ProgramRaidsStateCardView {
            raid_pubkeys: views_of(self.raid_pubkeys@),
        }
    }
}

/// Well-formedness of the record's content: every address holds 32
/// bytes and every variable-length field fits its 32-bit prefix.
pub open spec fn wf_raids_card(v: ProgramRaidsStateCardView) -> bool {
    &&& v.raid_pubkeys.len() <= u32::MAX
    &&& forall|i: int| 0 <= i < v.raid_pubkeys.len() ==> (#[trigger] v.raid_pubkeys[i]).len() == 32
}

/// The record's serialized form: each field's encoding in order.
#[verifier::opaque]
pub open spec fn enc_raids_card(v: ProgramRaidsStateCardView) -> Seq<u8> {
    enc_addrs(v.raid_pubkeys)
}

/// Parse the record from the front of a buffer.
pub open spec fn dec_raids_card(s: Seq<u8>) -> Option<(ProgramRaidsStateCardView, int)> {
    match dec_addrs(s, 0) {
        None => None,
        Some((x0, p1)) => {
            Some((ProgramRaidsStateCardView {
                raid_pubkeys: x0,
            }, p1))
        },
    }
}

impl ProgramRaidsStateCard {
    pub open spec fn wf(&self) -> bool {
        &&& wf_raids_card(self@)
        &&& addrs_wf(self.raid_pubkeys@)
    }

    /// The record's encoding as a fresh byte vector.
    pub fn encode_vec(&self) -> (out: Vec<u8>)
        requires
            self.wf(),
        ensures
            out@ == enc_raids_card(self@),
    {
        proof {
            reveal(enc_raids_card);
        }
        let mut out: Vec<u8> = Vec::new();
        push_addrs(&mut out, &self.raid_pubkeys);
        assert(out@ =~= enc_addrs(self@.raid_pubkeys));
        out
    }

    /// Serialize into a fixed-capacity buffer. The capacity never
    /// changes; a record too large for it is refused whole, and bytes
    /// past the record keep their previous contents.
    pub fn custom_serialize(&self, buffer: &mut Vec<u8>) -> (r: Result<usize, BullPosterError>)
        requires
            self.wf(),
        ensures
            final(buffer)@.len() == old(buffer)@.len(),
            match r {
                Ok(n) => n as int == enc_raids_card(self@).len()
                    && n <= old(buffer)@.len()
                    && final(buffer)@.subrange(0, n as int) == enc_raids_card(self@)
                    && (forall|i: int| n <= i < final(buffer)@.len()
                        ==> final(buffer)@[i] == old(buffer)@[i]),
                Err(e) => e == BullPosterError::BufferTooSmall
                    && enc_raids_card(self@).len() > old(buffer)@.len()
                    && final(buffer)@ == old(buffer)@,
            },
    {
        let rec = self.encode_vec();
        write_record(buffer, &rec)
    }

    /// Decode from a buffer, reporting the bytes consumed.
    pub fn custom_deserialize(data: &[u8]) -> (r: Result<(Self, usize), BullPosterError>)
        ensures
            match r {
                Ok((c, n)) => c.wf() && dec_raids_card(data@) == Some((c@, n as int)),
                Err(e) => e == BullPosterError::MalformedRecord
                    && dec_raids_card(data@).is_none(),
            },
    {
    let (x0, p1) = match read_addrs(data, 0) {
        Ok(x) => x,
        Err(e) => {
            return Err(e);
        },
    };
        Ok((ProgramRaidsStateCard {
            raid_pubkeys: x0,
        }, p1))
    }
}

/// Round trip: a well-formed record, encoded and then decoded from any
/// sufficiently large buffer, comes back unchanged.
pub proof fn lemma_raids_card_round_trip(v: ProgramRaidsStateCardView, rest: Seq<u8>)
    requires
        wf_raids_card(v),
    ensures
        dec_raids_card(enc_raids_card(v) + rest)
            == Some((v, enc_raids_card(v).len() as int)),
{
    reveal(enc_raids_card);
    let e = enc_raids_card(v);
    let s = e + rest;
    assert(s.subrange(0, e.len() as int) =~= e);
    let p0: int = 0;
    let p1: int = p0 + enc_addrs(v.raid_pubkeys).len() as int;
    lemma_subrange_of_subrange(s, 0, e.len() as int, p0, p1);
    assert(e.subrange(p0, p1) =~= enc_addrs(v.raid_pubkeys));
    lemma_dec_addrs_of_enc(s, p0, v.raid_pubkeys);
}

/// Mathematical content of a `ProgramCompetitionsStateCard`.
pub ghost struct ProgramCompetitionsStateCardView {
    pub competition_pubkeys: Seq<Seq<u8>>,
}

/// The index of every competition record's address.
pub struct ProgramCompetitionsStateCard {
    pub competition_pubkeys: Vec<Addr>,
}

impl View for ProgramCompetitionsStateCard {
    type V = ProgramCompetitionsStateCardView;

    open spec fn view(&self) -> ProgramCompetitionsStateCardView {
        ProgramCompetitionsStateCardView {
            competition_pubkeys: views_of(self.competition_pubkeys@),
        }
    }
}

/// Well-formedness of the record's content: every address holds 32
/// bytes and every variable-length field fits its 32-bit prefix.
pub open spec fn wf_competitions_card(v: ProgramCompetitionsStateCardView) -> bool {
    &&& v.competition_pubkeys.len() <= u32::MAX
    &&& forall|i: int| 0 <= i < v.competition_pubkeys.len() ==> (#[trigger] v.competition_pubkeys[i]).len() == 32
}

/// The record's serialized form: each field's encoding in order.
#[verifier::opaque]
pub open spec fn enc_competitions_card(v: ProgramCompetitionsStateCardView) -> Seq<u8> {
    enc_addrs(v.competition_pubkeys)
}

/// Parse the record from the front of a buffer.
pub open spec fn dec_competitions_card(s: Seq<u8>) -> Option<(ProgramCompetitionsStateCardView, int)> {
    match dec_addrs(s, 0) {
        None => None,
        Some((x0, p1)) => {
            Some((ProgramCompetitionsStateCardView {
                competition_pubkeys: x0,
            }, p1))
        },
    }
}

impl ProgramCompetitionsStateCard {
    pub open spec fn wf(&self) -> bool {
        &&& wf_competitions_card(self@)
        &&& addrs_wf(self.competition_pubkeys@)
    }

    /// The record's encoding as a fresh byte vector.
    pub fn encode_vec(&self) -> (out: Vec<u8>)
        requires
            self.wf(),
        ensures
            out@ == enc_competitions_card(self@),
    {
        proof {
            reveal(enc_competitions_card);
        }
        let mut out: Vec<u8> = Vec::new();
        push_addrs(&mut out, &self.competition_pubkeys);
        assert(out@ =~= enc_addrs(self@.competition_pubkeys));
        out
    }

    /// Serialize into a fixed-capacity buffer. The capacity never
    /// changes; a record too large for it is refused whole, and bytes
    /// past the record keep their previous contents.
    pub fn custom_serialize(&self, buffer: &mut Vec<u8>) -> (r: Result<usize, BullPosterError>)
        requires
            self.wf(),
        ensures
            final(buffer)@.len() == old(buffer)@.len(),
            match r {
                Ok(n) => n as int == enc_competitions_card(self@).len()
                    && n <= old(buffer)@.len()
                    && final(buffer)@.subrange(0, n as int) == enc_competitions_card(self@)
                    && (forall|i: int| n <= i < final(buffer)@.len()
                        ==> final(buffer)@[i] == old(buffer)@[i]),
                Err(e) => e == BullPosterError::BufferTooSmall
                    && enc_competitions_card(self@).len() > old(buffer)@.len()
                    && final(buffer)@ == old(buffer)@,
            },
    {
        let rec = self.encode_vec();
        write_record(buffer, &rec)
    }

    /// Decode from a buffer, reporting the bytes consumed.
    pub fn custom_deserialize(data: &[u8]) -> (r: Result<(Self, usize), BullPosterError>)
        ensures
            match r {
                Ok((c, n)) => c.wf() && dec_competitions_card(data@) == Some((c@, n as int)),
                Err(e) => e == BullPosterError::MalformedRecord
                    && dec_competitions_card(data@).is_none(),
            },
    {
    let (x0, p1) = match read_addrs(data, 0) {
        Ok(x) => x,
        Err(e) => {
            return Err(e);
        },
    };
        Ok((ProgramCompetitionsStateCard {
            competition_pubkeys: x0,
        }, p1))
    }
}

/// Round trip: a well-formed record, encoded and then decoded from any
/// sufficiently large buffer, comes back unchanged.
pub proof fn lemma_competitions_card_round_trip(v: ProgramCompetitionsStateCardView, rest: Seq<u8>)
    requires
        wf_competitions_card(v),
    ensures
        dec_competitions_card(enc_competitions_card(v) + rest)
            == Some((v, enc_competitions_card(v).len() as int)),
{
    reveal(enc_competitions_card);
    let e = enc_competitions_card(v);
    let s = e + rest;
    assert(s.subrange(0, e.len() as int) =~= e);
    let p0: int = 0;
    let p1: int = p0 + enc_addrs(v.competition_pubkeys).len() as int;
    lemma_subrange_of_subrange(s, 0, e.len() as int, p0, p1);
    assert(e.subrange(p0, p1) =~= enc_addrs(v.competition_pubkeys));
    lemma_dec_addrs_of_enc(s, p0, v.competition_pubkeys);
}

/// Mathematical content of a `RaidHistory`.
pub ghost struct RaidHistoryView {
    pub history: Seq<u8>,
}

/// An opaque blob of historical raid data.
pub struct RaidHistory {
    pub history: Vec<u8>,
}

impl View for RaidHistory {
    type V = RaidHistoryView;

    open spec fn view(&self) -> RaidHistoryView {
        RaidHistoryView {
            history: self.history@,
        }
    }
}

/// Well-formedness of the record's content: every address holds 32
/// bytes and every variable-length field fits its 32-bit prefix.
pub open spec fn wf_raid_history(v: RaidHistoryView) -> bool {
    &&& v.history.len() <= u32::MAX
}

/// The record's serialized form: each field's encoding in order.
#[verifier::opaque]
pub open spec fn enc_raid_history(v: RaidHistoryView) -> Seq<u8> {
    enc_bytes(v.history)
}

/// Parse the record from the front of a buffer.
pub open spec fn dec_raid_history(s: Seq<u8>) -> Option<(RaidHistoryView, int)> {
    match dec_bytes(s, 0) {
        None => None,
        Some((x0, p1)) => {
            Some((RaidHistoryView {
                history: x0,
            }, p1))
        },
    }
}

impl RaidHistory {
    pub open spec fn wf(&self) -> bool {
        wf_raid_history(self@)
    }

    /// The record's encoding as a fresh byte vector.
    pub fn encode_vec(&self) -> (out: Vec<u8>)
        requires
            self.wf(),
        ensures
            out@ == enc_raid_history(self@),
    {
        proof {
            reveal(enc_raid_history);
        }
        let mut out: Vec<u8> = Vec::new();
        push_bytes(&mut out, &self.history);
        assert(out@ =~= enc_bytes(self@.history));
        out
    }

    /// Serialize into a fixed-capacity buffer. The capacity never
    /// changes; a record too large for it is refused whole, and bytes
    /// past the record keep their previous contents.
    pub fn custom_serialize(&self, buffer: &mut Vec<u8>) -> (r: Result<usize, BullPosterError>)
        requires
            self.wf(),
        ensures
            final(buffer)@.len() == old(buffer)@.len(),
            match r {
                Ok(n) => n as int == enc_raid_history(self@).len()
                    && n <= old(buffer)@.len()
                    && final(buffer)@.subrange(0, n as int) == enc_raid_history(self@)
                    && (forall|i: int| n <= i < final(buffer)@.len()
                        ==> final(buffer)@[i] == old(buffer)@[i]),
                Err(e) => e == BullPosterError::BufferTooSmall
                    && enc_raid_history(self@).len() > old(buffer)@.len()
                    && final(buffer)@ == old(buffer)@,
            },
    {
        let rec = self.encode_vec();
        write_record(buffer, &rec)
    }

    /// Decode from a buffer, reporting the bytes consumed.
    pub fn custom_deserialize(data: &[u8]) -> (r: Result<(Self, usize), BullPosterError>)
        ensures
            match r {
                Ok((c, n)) => c.wf() && dec_raid_history(data@) == Some((c@, n as int)),
                Err(e) => e == BullPosterError::MalformedRecord
                    && dec_raid_history(data@).is_none(),
            },
    {
    let (x0, p1) = match read_bytes(data, 0) {
        Ok(x) => x,
        Err(e) => {
            return Err(e);
        },
    };
        Ok((RaidHistory {
            history: x0,
        }, p1))
    }
}

/// Round trip: a well-formed record, encoded and then decoded from any
/// sufficiently large buffer, comes back unchanged.
pub proof fn lemma_raid_history_round_trip(v: RaidHistoryView, rest: Seq<u8>)
    requires
        wf_raid_history(v),
    ensures
        dec_raid_history(enc_raid_history(v) + rest)
            == Some((v, enc_raid_history(v).len() as int)),
{
    reveal(enc_raid_history);
    let e = enc_raid_history(v);
    let s = e + rest;
    assert(s.subrange(0, e.len() as int) =~= e);
    let p0: int = 0;
    let p1: int = p0 + enc_bytes(v.history).len() as int;
    lemma_subrange_of_subrange(s, 0, e.len() as int, p0, p1);
    assert(e.subrange(p0, p1) =~= enc_bytes(v.history));
    lemma_dec_bytes_of_enc(s, p0, v.history);
}

/// Mathematical content of a `ProgramLeaderboardStateCard`.
pub ghost struct ProgramLeaderboardStateCardView {
    pub leaderboard_data: Seq<u8>,
}

/// An opaque blob of leaderboard data for every competition type.
pub struct ProgramLeaderboardStateCard {
    pub leaderboard_data: Vec<u8>,
}

impl View for ProgramLeaderboardStateCard {
    type V = ProgramLeaderboardStateCardView;

    open spec fn view(&self) -> ProgramLeaderboardStateCardView {
        ProgramLeaderboardStateCardView {
            leaderboard_data: self.leaderboard_data@,
        }
    }
}

/// Well-formedness of the record's content: every address holds 32
/// bytes and every variable-length field fits its 32-bit prefix.
pub open spec fn wf_leaderboard_card(v: ProgramLeaderboardStateCardView) -> bool {
    &&& v.leaderboard_data.len() <= u32::MAX
}

/// The record's serialized form: each field's encoding in order.
#[verifier::opaque]
pub open spec fn enc_leaderboard_card(v: ProgramLeaderboardStateCardView) -> Seq<u8> {
    enc_bytes(v.leaderboard_data)
}

/// Parse the record from the front of a buffer.
pub open spec fn dec_leaderboard_card(s: Seq<u8>) -> Option<(ProgramLeaderboardStateCardView, int)> {
    match dec_bytes(s, 0) {
        None => None,
        Some((x0, p1)) => {
            Some((ProgramLeaderboardStateCardView {
                leaderboard_data: x0,
            }, p1))
        },
    }
}

impl ProgramLeaderboardStateCard {
    pub open spec fn wf(&self) -> bool {
        wf_leaderboard_card(self@)
    }

    /// The record's encoding as a fresh byte vector.
    pub fn encode_vec(&self) -> (out: Vec<u8>)
        requires
            self.wf(),
        ensures
            out@ == enc_leaderboard_card(self@),
    {
        proof {
            reveal(enc_leaderboard_card);
        }
        let mut out: Vec<u8> = Vec::new();
        push_bytes(&mut out, &self.leaderboard_data);
        assert(out@ =~= enc_bytes(self@.leaderboard_data));
        out
    }

    /// Serialize into a fixed-capacity buffer. The capacity never
    /// changes; a record too large for it is refused whole, and bytes
    /// past the record keep their previous contents.
    pub fn custom_serialize(&self, buffer: &mut Vec<u8>) -> (r: Result<usize, BullPosterError>)
        requires
            self.wf(),
        ensures
            final(buffer)@.len() == old(buffer)@.len(),
            match r {
                Ok(n) => n as int == enc_leaderboard_card(self@).len()
                    && n <= old(buffer)@.len()
                    && final(buffer)@.subrange(0, n as int) == enc_leaderboard_card(self@)
                    && (forall|i: int| n <= i < final(buffer)@.len()
                        ==> final(buffer)@[i] == old(buffer)@[i]),
                Err(e) => e == BullPosterError::BufferTooSmall
                    && enc_leaderboard_card(self@).len() > old(buffer)@.len()
                    && final(buffer)@ == old(buffer)@,
            },
    {
        let rec = self.encode_vec();
        write_record(buffer, &rec)
    }

    /// Decode from a buffer, reporting the bytes consumed.
    pub fn custom_deserialize(data: &[u8]) -> (r: Result<(Self, usize), BullPosterError>)
        ensures
            match r {
                Ok((c, n)) => c.wf() && dec_leaderboard_card(data@) == Some((c@, n as int)),
                Err(e) => e == BullPosterError::MalformedRecord
                    && dec_leaderboard_card(data@).is_none(),
            },
    {
    let (x0, p1) = match read_bytes(data, 0) {
        Ok(x) => x,
        Err(e) => {
            return Err(e);
        },
    };
        Ok((ProgramLeaderboardStateCard {
            leaderboard_data: x0,
        }, p1))
    }
}

/// Round trip: a well-formed record, encoded and then decoded from any
/// sufficiently large buffer, comes back unchanged.
pub proof fn lemma_leaderboard_card_round_trip(v: ProgramLeaderboardStateCardView, rest: Seq<u8>)
    requires
        wf_leaderboard_card(v),
    ensures
        dec_leaderboard_card(enc_leaderboard_card(v) + rest)
            == Some((v, enc_leaderboard_card(v).len() as int)),
{
    reveal(enc_leaderboard_card);
    let e = enc_leaderboard_card(v);
    let s = e + rest;
    assert(s.subrange(0, e.len() as int) =~= e);
    let p0: int = 0;
    let p1: int = p0 + enc_bytes(v.leaderboard_data).len() as int;
    lemma_subrange_of_subrange(s, 0, e.len() as int, p0, p1);
    assert(e.subrange(p0, p1) =~= enc_bytes(v.leaderboard_data));
    lemma_dec_bytes_of_enc(s, p0, v.leaderboard_data);
}

} // verus!
