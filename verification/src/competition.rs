//! The competition record.

use vstd::prelude::*;

use crate::addr::{addrs_wf, views_of, Addr};
use crate::codec::{
    dec_addr, dec_addrs, dec_bytes, dec_opt_addr, dec_opt_u64, dec_u64, enc_addr, enc_addrs,
    enc_bytes, enc_opt_addr, enc_opt_u64, lemma_dec_addr_of_enc, lemma_dec_addrs_of_enc,
    lemma_dec_bytes_of_enc, lemma_dec_opt_addr_of_enc, lemma_dec_opt_u64_of_enc,
    lemma_dec_u64_of_enc, lemma_split_concat, push_addr, push_addrs, push_bytes, push_opt_addr,
    push_opt_u64, push_u64, read_addr, read_addrs, read_bytes, read_opt_addr, read_opt_u64,
    read_u64, u64_le_bytes, write_record,
};
use crate::error::BullPosterError;
use crate::types::{
    dec_kind, dec_status, enc_kind, enc_status, lemma_dec_kind_of_enc, lemma_dec_status_of_enc, push_kind, push_status, read_kind, read_status, CompetitionKind, CompetitionStatus,
};

verus! {

/// Mathematical content of a `CompetitionCard`.
pub ghost struct CompetitionCardView {
    pub competition_id: Seq<u8>,
    pub competition_type: CompetitionKind,
    pub start_time: u64,
    pub end_time: u64,
    pub total_rewards_distributed: u64,
    pub status: CompetitionStatus,
    pub enrolled_programs: Seq<Seq<u8>>,
    pub required_programs: u64,
    pub challenger_program_id: Option<Seq<u8>>,
    pub challenged_program_id: Option<Seq<u8>>,
    pub start_expiration: Option<u64>,
    pub distributed_rewards: Seq<u8>,
    pub placements: Seq<u8>,
}

/// A competition: its kind, timing, lifecycle status, enrolled
/// programs and challenge parties.
pub struct CompetitionCard {
    pub competition_id: Addr,
    pub competition_type: CompetitionKind,
    pub start_time: u64,
    pub end_time: u64,
    pub total_rewards_distributed: u64,
    pub status: CompetitionStatus,
    pub enrolled_programs: Vec<Addr>,
    pub required_programs: u64,
    pub challenger_program_id: Option<Addr>,
    pub challenged_program_id: Option<Addr>,
    pub start_expiration: Option<u64>,
    pub distributed_rewards: Vec<u8>,
    pub placements: Vec<u8>,
}

impl View for CompetitionCard {
    type V = CompetitionCardView;

    open spec fn view(&self) -> CompetitionCardView {
        CompetitionCardView {
            competition_id: self.competition_id@,
            competition_type: self.competition_type,
            start_time: self.start_time,
            end_time: self.end_time,
            total_rewards_distributed: self.total_rewards_distributed,
            status: self.status,
            enrolled_programs: views_of(self.enrolled_programs@),
            required_programs: self.required_programs,
            challenger_program_id: match self.challenger_program_id { Some(a) => Some(a@), None => None },
            challenged_program_id: match self.challenged_program_id { Some(a) => Some(a@), None => None },
            start_expiration: self.start_expiration,
            distributed_rewards: self.distributed_rewards@,
            placements: self.placements@,
        }
    }
}

/// Well-formedness of the record's content: every address holds 32
/// bytes and every variable-length field fits its 32-bit prefix.
pub open spec fn wf_competition_card(v: CompetitionCardView) -> bool {
    &&& v.competition_id.len() == 32
    &&& v.enrolled_programs.len() <= u32::MAX
    &&& forall|i: int| 0 <= i < v.enrolled_programs.len() ==> (#[trigger] v.enrolled_programs[i]).len() == 32
    &&& match v.challenger_program_id { Some(a) => a.len() == 32, None => true }
    &&& match v.challenged_program_id { Some(a) => a.len() == 32, None => true }
    &&& v.distributed_rewards.len() <= u32::MAX
    &&& v.placements.len() <= u32::MAX
}

/// The record's serialized form: each field's encoding in order.
pub open spec fn enc_competition_card(v: CompetitionCardView) -> Seq<u8> {
    enc_addr(v.competition_id) + enc_kind(v.competition_type) + u64_le_bytes(v.start_time) + u64_le_bytes(v.end_time) + u64_le_bytes(v.total_rewards_distributed) + enc_status(v.status) + enc_addrs(v.enrolled_programs) + u64_le_bytes(v.required_programs) + enc_opt_addr(v.challenger_program_id) + enc_opt_addr(v.challenged_program_id) + enc_opt_u64(v.start_expiration) + enc_bytes(v.distributed_rewards) + enc_bytes(v.placements)
}

/// Parse the record's leading fields.
pub open spec fn dec_competition_card_front(s: Seq<u8>) -> Option<((Seq<u8>, CompetitionKind, u64, u64, u64, CompetitionStatus, Seq<Seq<u8>>), int)> {
    match dec_addr(s, 0) {
        None => None,
        Some((y0, q1)) => {
            match dec_kind(s, q1) {
                None => None,
                Some((y1, q2)) => {
                    match dec_u64(s, q2) {
                        None => None,
                        Some((y2, q3)) => {
                            match dec_u64(s, q3) {
                                None => None,
                                Some((y3, q4)) => {
                                    match dec_u64(s, q4) {
                                        None => None,
                                        Some((y4, q5)) => {
                                            match dec_status(s, q5) {
                                                None => None,
                                                Some((y5, q6)) => {
                                                    match dec_addrs(s, q6) {
                                                        None => None,
                                                        Some((y6, q7)) => {
                                                            Some(((y0, y1, y2, y3, y4, y5, y6), q7))
                                                        },
                                                    }
                                                },
                                            }
                                        },
                                    }
                                },
                            }
                        },
                    }
                },
            }
        },
    }
}

/// Parse the record's trailing fields, from `pos`.
pub open spec fn dec_competition_card_back(s: Seq<u8>, pos: int) -> Option<((u64, Option<Seq<u8>>, Option<Seq<u8>>, Option<u64>, Seq<u8>, Seq<u8>), int)> {
    match dec_u64(s, pos) {
        None => None,
        Some((y0, q1)) => {
            match dec_opt_addr(s, q1) {
                None => None,
                Some((y1, q2)) => {
                    match dec_opt_addr(s, q2) {
                        None => None,
                        Some((y2, q3)) => {
                            match dec_opt_u64(s, q3) {
                                None => None,
                                Some((y3, q4)) => {
                                    match dec_bytes(s, q4) {
                                        None => None,
                                        Some((y4, q5)) => {
                                            match dec_bytes(s, q5) {
                                                None => None,
                                                Some((y5, q6)) => {
                                                    Some(((y0, y1, y2, y3, y4, y5), q6))
                                                },
                                            }
                                        },
                                    }
                                },
                            }
                        },
                    }
                },
            }
        },
    }
}

/// Parse the record from the front of a buffer.
pub open spec fn dec_competition_card(s: Seq<u8>) -> Option<(CompetitionCardView, int)> {
    match dec_competition_card_front(s) {
        None => None,
        Some((f, p)) => {
            match dec_competition_card_back(s, p) {
                None => None,
                Some((b, p2)) => Some((CompetitionCardView {
                    competition_id: f.0,
                    competition_type: f.1,
                    start_time: f.2,
                    end_time: f.3,
                    total_rewards_distributed: f.4,
                    status: f.5,
                    enrolled_programs: f.6,
                    required_programs: b.0,
                    challenger_program_id: b.1,
                    challenged_program_id: b.2,
                    start_expiration: b.3,
                    distributed_rewards: b.4,
                    placements: b.5,
                }, p2)),
            }
        },
    }
}

impl CompetitionCard {
    pub open spec fn wf(&self) -> bool {
        &&& wf_competition_card(self@)
        &&& self.competition_id.wf()
        &&& addrs_wf(self.enrolled_programs@)
        &&& match self.challenger_program_id { Some(a) => a.wf(), None => true }
        &&& match self.challenged_program_id { Some(a) => a.wf(), None => true }
    }

    /// The record's encoding as a fresh byte vector.
    pub fn encode_vec(&self) -> (out: Vec<u8>)
        requires
            self.wf(),
        ensures
            out@ == enc_competition_card(self@),
    {
        let mut out: Vec<u8> = Vec::new();
        push_addr(&mut out, &self.competition_id);
        assert(out@ =~= enc_addr(self@.competition_id));
        push_kind(&mut out, self.competition_type);
        assert(out@ =~= enc_addr(self@.competition_id) + enc_kind(self@.competition_type));
        push_u64(&mut out, self.start_time);
        assert(out@ =~= enc_addr(self@.competition_id) + enc_kind(self@.competition_type) + u64_le_bytes(self@.start_time));
        push_u64(&mut out, self.end_time);
        assert(out@ =~= enc_addr(self@.competition_id) + enc_kind(self@.competition_type) + u64_le_bytes(self@.start_time) + u64_le_bytes(self@.end_time));
        push_u64(&mut out, self.total_rewards_distributed);
        assert(out@ =~= enc_addr(self@.competition_id) + enc_kind(self@.competition_type) + u64_le_bytes(self@.start_time) + u64_le_bytes(self@.end_time) + u64_le_bytes(self@.total_rewards_distributed));
        push_status(&mut out, self.status);
        assert(out@ =~= enc_addr(self@.competition_id) + enc_kind(self@.competition_type) + u64_le_bytes(self@.start_time) + u64_le_bytes(self@.end_time) + u64_le_bytes(self@.total_rewards_distributed) + enc_status(self@.status));
        push_addrs(&mut out, &self.enrolled_programs);
        assert(out@ =~= enc_addr(self@.competition_id) + enc_kind(self@.competition_type) + u64_le_bytes(self@.start_time) + u64_le_bytes(self@.end_time) + u64_le_bytes(self@.total_rewards_distributed) + enc_status(self@.status) + enc_addrs(self@.enrolled_programs));
        push_u64(&mut out, self.required_programs);
        assert(out@ =~= enc_addr(self@.competition_id) + enc_kind(self@.competition_type) + u64_le_bytes(self@.start_time) + u64_le_bytes(self@.end_time) + u64_le_bytes(self@.total_rewards_distributed) + enc_status(self@.status) + enc_addrs(self@.enrolled_programs) + u64_le_bytes(self@.required_programs));
        push_opt_addr(&mut out, &self.challenger_program_id);
        assert(out@ =~= enc_addr(self@.competition_id) + enc_kind(self@.competition_type) + u64_le_bytes(self@.start_time) + u64_le_bytes(self@.end_time) + u64_le_bytes(self@.total_rewards_distributed) + enc_status(self@.status) + enc_addrs(self@.enrolled_programs) + u64_le_bytes(self@.required_programs) + enc_opt_addr(self@.challenger_program_id));
        push_opt_addr(&mut out, &self.challenged_program_id);
        assert(out@ =~= enc_addr(self@.competition_id) + enc_kind(self@.competition_type) + u64_le_bytes(self@.start_time) + u64_le_bytes(self@.end_time) + u64_le_bytes(self@.total_rewards_distributed) + enc_status(self@.status) + enc_addrs(self@.enrolled_programs) + u64_le_bytes(self@.required_programs) + enc_opt_addr(self@.challenger_program_id) + enc_opt_addr(self@.challenged_program_id));
        push_opt_u64(&mut out, &self.start_expiration);
        assert(out@ =~= enc_addr(self@.competition_id) + enc_kind(self@.competition_type) + u64_le_bytes(self@.start_time) + u64_le_bytes(self@.end_time) + u64_le_bytes(self@.total_rewards_distributed) + enc_status(self@.status) + enc_addrs(self@.enrolled_programs) + u64_le_bytes(self@.required_programs) + enc_opt_addr(self@.challenger_program_id) + enc_opt_addr(self@.challenged_program_id) + enc_opt_u64(self@.start_expiration));
        push_bytes(&mut out, &self.distributed_rewards);
        assert(out@ =~= enc_addr(self@.competition_id) + enc_kind(self@.competition_type) + u64_le_bytes(self@.start_time) + u64_le_bytes(self@.end_time) + u64_le_bytes(self@.total_rewards_distributed) + enc_status(self@.status) + enc_addrs(self@.enrolled_programs) + u64_le_bytes(self@.required_programs) + enc_opt_addr(self@.challenger_program_id) + enc_opt_addr(self@.challenged_program_id) + enc_opt_u64(self@.start_expiration) + enc_bytes(self@.distributed_rewards));
        push_bytes(&mut out, &self.placements);
        assert(out@ =~= enc_addr(self@.competition_id) + enc_kind(self@.competition_type) + u64_le_bytes(self@.start_time) + u64_le_bytes(self@.end_time) + u64_le_bytes(self@.total_rewards_distributed) + enc_status(self@.status) + enc_addrs(self@.enrolled_programs) + u64_le_bytes(self@.required_programs) + enc_opt_addr(self@.challenger_program_id) + enc_opt_addr(self@.challenged_program_id) + enc_opt_u64(self@.start_expiration) + enc_bytes(self@.distributed_rewards) + enc_bytes(self@.placements));
        out
    }

    /// Serialize into a fixed-capacity buffer. The capacity never
    /// changes; a record too large for it is refused whole, and bytes
    /// past the record keep their previous contents.
    pub fn custom_serialize(&self, buffer: &mut Vec<u8>) -> (r: Result<usize, BullPosterError>)
        requires
            self.wf(),
        ensures
            final(buffer)@.len() == old(buffer)@.len(),
            match r {
                Ok(n) => n as int == enc_competition_card(self@).len()
                    && n <= old(buffer)@.len()
                    && final(buffer)@.subrange(0, n as int) == enc_competition_card(self@)
                    && (forall|i: int| n <= i < final(buffer)@.len()
                        ==> final(buffer)@[i] == old(buffer)@[i]),
                Err(e) => e == BullPosterError::BufferTooSmall
                    && enc_competition_card(self@).len() > old(buffer)@.len()
                    && final(buffer)@ == old(buffer)@,
            },
    {
        let rec = self.encode_vec();
        write_record(buffer, &rec)
    }

    /// Decode from a buffer, reporting the bytes consumed.
    pub fn custom_deserialize(data: &[u8]) -> (r: Result<(Self, usize), BullPosterError>)
        ensures
            match r {
                Ok((c, n)) => c.wf() && dec_competition_card(data@) == Some((c@, n as int)),
                Err(e) => e == BullPosterError::MalformedRecord
                    && dec_competition_card(data@).is_none(),
            },
    {
    let (x0, p1) = match read_addr(data, 0) {
        Ok(x) => x,
        Err(e) => {
            return Err(e);
        },
    };
    let (x1, p2) = match read_kind(data, p1) {
        Ok(x) => x,
        Err(e) => {
            return Err(e);
        },
    };
    let (x2, p3) = match read_u64(data, p2) {
        Ok(x) => x,
        Err(e) => {
            return Err(e);
        },
    };
    let (x3, p4) = match read_u64(data, p3) {
        Ok(x) => x,
        Err(e) => {
            return Err(e);
        },
    };
    let (x4, p5) = match read_u64(data, p4) {
        Ok(x) => x,
        Err(e) => {
            return Err(e);
        },
    };
    let (x5, p6) = match read_status(data, p5) {
        Ok(x) => x,
        Err(e) => {
            return Err(e);
        },
    };
    let (x6, p7) = match read_addrs(data, p6) {
        Ok(x) => x,
        Err(e) => {
            return Err(e);
        },
    };
    let (x7, p8) = match read_u64(data, p7) {
        Ok(x) => x,
        Err(e) => {
            return Err(e);
        },
    };
    let (x8, p9) = match read_opt_addr(data, p8) {
        Ok(x) => x,
        Err(e) => {
            return Err(e);
        },
    };
    let (x9, p10) = match read_opt_addr(data, p9) {
        Ok(x) => x,
        Err(e) => {
            return Err(e);
        },
    };
    let (x10, p11) = match read_opt_u64(data, p10) {
        Ok(x) => x,
        Err(e) => {
            return Err(e);
        },
    };
    let (x11, p12) = match read_bytes(data, p11) {
        Ok(x) => x,
        Err(e) => {
            return Err(e);
        },
    };
    let (x12, p13) = match read_bytes(data, p12) {
        Ok(x) => x,
        Err(e) => {
            return Err(e);
        },
    };
        Ok((CompetitionCard {
            competition_id: x0,
            competition_type: x1,
            start_time: x2,
            end_time: x3,
            total_rewards_distributed: x4,
            status: x5,
            enrolled_programs: x6,
            required_programs: x7,
            challenger_program_id: x8,
            challenged_program_id: x9,
            start_expiration: x10,
            distributed_rewards: x11,
            placements: x12,
        }, p13))
    }
}

/// Each trailing field of an encoded record parses back at its own
/// offset; the leading fields stay intact in front of them.
#[verifier::rlimit(100)]
proof fn lemma_competition_card_fields_back(v: CompetitionCardView, rest: Seq<u8>)
    requires
        wf_competition_card(v),
    ensures
        dec_u64(enc_competition_card(v) + rest, (32 + 1 + 8 + 8 + 8 + 1 + enc_addrs(v.enrolled_programs).len()) as int)
            == Some((v.required_programs, (32 + 1 + 8 + 8 + 8 + 1 + enc_addrs(v.enrolled_programs).len() + 8) as int)),
        dec_opt_addr(enc_competition_card(v) + rest, (32 + 1 + 8 + 8 + 8 + 1 + enc_addrs(v.enrolled_programs).len() + 8) as int)
            == Some((v.challenger_program_id, (32 + 1 + 8 + 8 + 8 + 1 + enc_addrs(v.enrolled_programs).len() + 8 + enc_opt_addr(v.challenger_program_id).len()) as int)),
        dec_opt_addr(enc_competition_card(v) + rest, (32 + 1 + 8 + 8 + 8 + 1 + enc_addrs(v.enrolled_programs).len() + 8 + enc_opt_addr(v.challenger_program_id).len()) as int)
            == Some((v.challenged_program_id, (32 + 1 + 8 + 8 + 8 + 1 + enc_addrs(v.enrolled_programs).len() + 8 + enc_opt_addr(v.challenger_program_id).len() + enc_opt_addr(v.challenged_program_id).len()) as int)),
        dec_opt_u64(enc_competition_card(v) + rest, (32 + 1 + 8 + 8 + 8 + 1 + enc_addrs(v.enrolled_programs).len() + 8 + enc_opt_addr(v.challenger_program_id).len() + enc_opt_addr(v.challenged_program_id).len()) as int)
            == Some((v.start_expiration, (32 + 1 + 8 + 8 + 8 + 1 + enc_addrs(v.enrolled_programs).len() + 8 + enc_opt_addr(v.challenger_program_id).len() + enc_opt_addr(v.challenged_program_id).len() + enc_opt_u64(v.start_expiration).len()) as int)),
        dec_bytes(enc_competition_card(v) + rest, (32 + 1 + 8 + 8 + 8 + 1 + enc_addrs(v.enrolled_programs).len() + 8 + enc_opt_addr(v.challenger_program_id).len() + enc_opt_addr(v.challenged_program_id).len() + enc_opt_u64(v.start_expiration).len()) as int)
            == Some((v.distributed_rewards, (32 + 1 + 8 + 8 + 8 + 1 + enc_addrs(v.enrolled_programs).len() + 8 + enc_opt_addr(v.challenger_program_id).len() + enc_opt_addr(v.challenged_program_id).len() + enc_opt_u64(v.start_expiration).len() + enc_bytes(v.distributed_rewards).len()) as int)),
        dec_bytes(enc_competition_card(v) + rest, (32 + 1 + 8 + 8 + 8 + 1 + enc_addrs(v.enrolled_programs).len() + 8 + enc_opt_addr(v.challenger_program_id).len() + enc_opt_addr(v.challenged_program_id).len() + enc_opt_u64(v.start_expiration).len() + enc_bytes(v.distributed_rewards).len()) as int)
            == Some((v.placements, (32 + 1 + 8 + 8 + 8 + 1 + enc_addrs(v.enrolled_programs).len() + 8 + enc_opt_addr(v.challenger_program_id).len() + enc_opt_addr(v.challenged_program_id).len() + enc_opt_u64(v.start_expiration).len() + enc_bytes(v.distributed_rewards).len() + enc_bytes(v.placements).len()) as int)),
        (enc_competition_card(v) + rest).subrange(0, (32 + 1 + 8 + 8 + 8 + 1 + enc_addrs(v.enrolled_programs).len()) as int)
            == enc_addr(v.competition_id) + enc_kind(v.competition_type) + u64_le_bytes(v.start_time) + u64_le_bytes(v.end_time) + u64_le_bytes(v.total_rewards_distributed) + enc_status(v.status) + enc_addrs(v.enrolled_programs),
        enc_competition_card(v).len() == (32 + 1 + 8 + 8 + 8 + 1 + enc_addrs(v.enrolled_programs).len() + 8 + enc_opt_addr(v.challenger_program_id).len() + enc_opt_addr(v.challenged_program_id).len() + enc_opt_u64(v.start_expiration).len() + enc_bytes(v.distributed_rewards).len() + enc_bytes(v.placements).len()) as int,
        (32 + 1 + 8 + 8 + 8 + 1 + enc_addrs(v.enrolled_programs).len()) as int <= (enc_competition_card(v) + rest).len(),
{
    let e = enc_competition_card(v);
    let s = e + rest;
    assert(s.subrange(0, e.len() as int) =~= e);
    let a1 = enc_addr(v.competition_id);
    let a2 = a1 + enc_kind(v.competition_type);
    let a3 = a2 + u64_le_bytes(v.start_time);
    let a4 = a3 + u64_le_bytes(v.end_time);
    let a5 = a4 + u64_le_bytes(v.total_rewards_distributed);
    let a6 = a5 + enc_status(v.status);
    let a7 = a6 + enc_addrs(v.enrolled_programs);
    let a8 = a7 + u64_le_bytes(v.required_programs);
    let a9 = a8 + enc_opt_addr(v.challenger_program_id);
    let a10 = a9 + enc_opt_addr(v.challenged_program_id);
    let a11 = a10 + enc_opt_u64(v.start_expiration);
    let a12 = a11 + enc_bytes(v.distributed_rewards);
    let a13 = a12 + enc_bytes(v.placements);
    assert(a13 == e);
    lemma_split_concat(s, 0, a12, enc_bytes(v.placements));
    lemma_dec_bytes_of_enc(s, a12.len() as int, v.placements);
    lemma_split_concat(s, 0, a11, enc_bytes(v.distributed_rewards));
    lemma_dec_bytes_of_enc(s, a11.len() as int, v.distributed_rewards);
    lemma_split_concat(s, 0, a10, enc_opt_u64(v.start_expiration));
    lemma_dec_opt_u64_of_enc(s, a10.len() as int, v.start_expiration);
    lemma_split_concat(s, 0, a9, enc_opt_addr(v.challenged_program_id));
    lemma_dec_opt_addr_of_enc(s, a9.len() as int, v.challenged_program_id);
    lemma_split_concat(s, 0, a8, enc_opt_addr(v.challenger_program_id));
    lemma_dec_opt_addr_of_enc(s, a8.len() as int, v.challenger_program_id);
    lemma_split_concat(s, 0, a7, u64_le_bytes(v.required_programs));
    lemma_dec_u64_of_enc(s, a7.len() as int, v.required_programs);
}

/// Each leading field of a buffer that starts with the leading
/// fields' encodings parses back at its own offset.
#[verifier::rlimit(100)]
proof fn lemma_competition_card_fields_front(v: CompetitionCardView, s: Seq<u8>)
    requires
        wf_competition_card(v),
        s.subrange(0, (32 + 1 + 8 + 8 + 8 + 1 + enc_addrs(v.enrolled_programs).len()) as int)
            == enc_addr(v.competition_id) + enc_kind(v.competition_type) + u64_le_bytes(v.start_time) + u64_le_bytes(v.end_time) + u64_le_bytes(v.total_rewards_distributed) + enc_status(v.status) + enc_addrs(v.enrolled_programs),
        (32 + 1 + 8 + 8 + 8 + 1 + enc_addrs(v.enrolled_programs).len()) as int <= s.len(),
    ensures
        dec_addr(s, (0) as int)
            == Some((v.competition_id, (32) as int)),
        dec_kind(s, (32) as int)
            == Some((v.competition_type, (32 + 1) as int)),
        dec_u64(s, (32 + 1) as int)
            == Some((v.start_time, (32 + 1 + 8) as int)),
        dec_u64(s, (32 + 1 + 8) as int)
            == Some((v.end_time, (32 + 1 + 8 + 8) as int)),
        dec_u64(s, (32 + 1 + 8 + 8) as int)
            == Some((v.total_rewards_distributed, (32 + 1 + 8 + 8 + 8) as int)),
        dec_status(s, (32 + 1 + 8 + 8 + 8) as int)
            == Some((v.status, (32 + 1 + 8 + 8 + 8 + 1) as int)),
        dec_addrs(s, (32 + 1 + 8 + 8 + 8 + 1) as int)
            == Some((v.enrolled_programs, (32 + 1 + 8 + 8 + 8 + 1 + enc_addrs(v.enrolled_programs).len()) as int)),
{
    let a1 = enc_addr(v.competition_id);
    let a2 = a1 + enc_kind(v.competition_type);
    let a3 = a2 + u64_le_bytes(v.start_time);
    let a4 = a3 + u64_le_bytes(v.end_time);
    let a5 = a4 + u64_le_bytes(v.total_rewards_distributed);
    let a6 = a5 + enc_status(v.status);
    let a7 = a6 + enc_addrs(v.enrolled_programs);
    assert(s.subrange(0, a7.len() as int) == a7);
    lemma_split_concat(s, 0, a6, enc_addrs(v.enrolled_programs));
    lemma_dec_addrs_of_enc(s, a6.len() as int, v.enrolled_programs);
    lemma_split_concat(s, 0, a5, enc_status(v.status));
    lemma_dec_status_of_enc(s, a5.len() as int, v.status);
    lemma_split_concat(s, 0, a4, u64_le_bytes(v.total_rewards_distributed));
    lemma_dec_u64_of_enc(s, a4.len() as int, v.total_rewards_distributed);
    lemma_split_concat(s, 0, a3, u64_le_bytes(v.end_time));
    lemma_dec_u64_of_enc(s, a3.len() as int, v.end_time);
    lemma_split_concat(s, 0, a2, u64_le_bytes(v.start_time));
    lemma_dec_u64_of_enc(s, a2.len() as int, v.start_time);
    lemma_split_concat(s, 0, a1, enc_kind(v.competition_type));
    lemma_dec_kind_of_enc(s, a1.len() as int, v.competition_type);
    lemma_dec_addr_of_enc(s, 0, v.competition_id);
}

/// A buffer whose fields all parse at their offsets parses as the
/// whole record.
proof fn lemma_competition_card_eval(v: CompetitionCardView, s: Seq<u8>)
    requires
        dec_addr(s, (0) as int)
            == Some((v.competition_id, (32) as int)),
        dec_kind(s, (32) as int)
            == Some((v.competition_type, (32 + 1) as int)),
        dec_u64(s, (32 + 1) as int)
            == Some((v.start_time, (32 + 1 + 8) as int)),
        dec_u64(s, (32 + 1 + 8) as int)
            == Some((v.end_time, (32 + 1 + 8 + 8) as int)),
        dec_u64(s, (32 + 1 + 8 + 8) as int)
            == Some((v.total_rewards_distributed, (32 + 1 + 8 + 8 + 8) as int)),
        dec_status(s, (32 + 1 + 8 + 8 + 8) as int)
            == Some((v.status, (32 + 1 + 8 + 8 + 8 + 1) as int)),
        dec_addrs(s, (32 + 1 + 8 + 8 + 8 + 1) as int)
            == Some((v.enrolled_programs, (32 + 1 + 8 + 8 + 8 + 1 + enc_addrs(v.enrolled_programs).len()) as int)),
        dec_u64(s, (32 + 1 + 8 + 8 + 8 + 1 + enc_addrs(v.enrolled_programs).len()) as int)
            == Some((v.required_programs, (32 + 1 + 8 + 8 + 8 + 1 + enc_addrs(v.enrolled_programs).len() + 8) as int)),
        dec_opt_addr(s, (32 + 1 + 8 + 8 + 8 + 1 + enc_addrs(v.enrolled_programs).len() + 8) as int)
            == Some((v.challenger_program_id, (32 + 1 + 8 + 8 + 8 + 1 + enc_addrs(v.enrolled_programs).len() + 8 + enc_opt_addr(v.challenger_program_id).len()) as int)),
        dec_opt_addr(s, (32 + 1 + 8 + 8 + 8 + 1 + enc_addrs(v.enrolled_programs).len() + 8 + enc_opt_addr(v.challenger_program_id).len()) as int)
            == Some((v.challenged_program_id, (32 + 1 + 8 + 8 + 8 + 1 + enc_addrs(v.enrolled_programs).len() + 8 + enc_opt_addr(v.challenger_program_id).len() + enc_opt_addr(v.challenged_program_id).len()) as int)),
        dec_opt_u64(s, (32 + 1 + 8 + 8 + 8 + 1 + enc_addrs(v.enrolled_programs).len() + 8 + enc_opt_addr(v.challenger_program_id).len() + enc_opt_addr(v.challenged_program_id).len()) as int)
            == Some((v.start_expiration, (32 + 1 + 8 + 8 + 8 + 1 + enc_addrs(v.enrolled_programs).len() + 8 + enc_opt_addr(v.challenger_program_id).len() + enc_opt_addr(v.challenged_program_id).len() + enc_opt_u64(v.start_expiration).len()) as int)),
        dec_bytes(s, (32 + 1 + 8 + 8 + 8 + 1 + enc_addrs(v.enrolled_programs).len() + 8 + enc_opt_addr(v.challenger_program_id).len() + enc_opt_addr(v.challenged_program_id).len() + enc_opt_u64(v.start_expiration).len()) as int)
            == Some((v.distributed_rewards, (32 + 1 + 8 + 8 + 8 + 1 + enc_addrs(v.enrolled_programs).len() + 8 + enc_opt_addr(v.challenger_program_id).len() + enc_opt_addr(v.challenged_program_id).len() + enc_opt_u64(v.start_expiration).len() + enc_bytes(v.distributed_rewards).len()) as int)),
        dec_bytes(s, (32 + 1 + 8 + 8 + 8 + 1 + enc_addrs(v.enrolled_programs).len() + 8 + enc_opt_addr(v.challenger_program_id).len() + enc_opt_addr(v.challenged_program_id).len() + enc_opt_u64(v.start_expiration).len() + enc_bytes(v.distributed_rewards).len()) as int)
            == Some((v.placements, (32 + 1 + 8 + 8 + 8 + 1 + enc_addrs(v.enrolled_programs).len() + 8 + enc_opt_addr(v.challenger_program_id).len() + enc_opt_addr(v.challenged_program_id).len() + enc_opt_u64(v.start_expiration).len() + enc_bytes(v.distributed_rewards).len() + enc_bytes(v.placements).len()) as int)),
    ensures
        dec_competition_card(s) == Some((v, (32 + 1 + 8 + 8 + 8 + 1 + enc_addrs(v.enrolled_programs).len() + 8 + enc_opt_addr(v.challenger_program_id).len() + enc_opt_addr(v.challenged_program_id).len() + enc_opt_u64(v.start_expiration).len() + enc_bytes(v.distributed_rewards).len() + enc_bytes(v.placements).len()) as int)),
{
}

/// Round trip: a well-formed record, encoded and then decoded from any
/// sufficiently large buffer, comes back unchanged.
pub proof fn lemma_competition_card_round_trip(v: CompetitionCardView, rest: Seq<u8>)
    requires
        wf_competition_card(v),
    ensures
        dec_competition_card(enc_competition_card(v) + rest)
            == Some((v, enc_competition_card(v).len() as int)),
{
    lemma_competition_card_fields_back(v, rest);
    lemma_competition_card_fields_front(v, enc_competition_card(v) + rest);
    lemma_competition_card_eval(v, enc_competition_card(v) + rest);
}

} // verus!
