//! The registered-program record.

use vstd::prelude::*;

use crate::addr::{addrs_wf, views_of, Addr};
use crate::codec::{
    dec_addr, dec_addrs, dec_bool, dec_bytes, dec_u64, enc_addr, enc_addrs, enc_bool, enc_bytes,
    lemma_dec_addr_of_enc, lemma_dec_addrs_of_enc, lemma_dec_bool_of_enc, lemma_dec_bytes_of_enc,
    lemma_dec_u64_of_enc, lemma_split_concat, push_addr, push_addrs, push_bool, push_bytes,
    push_u64, read_addr, read_addrs, read_bool, read_bytes, read_u64, u64_le_bytes, write_record,
};
use crate::error::BullPosterError;

verus! {

/// Mathematical content of a `RaidProgramCard`.
pub ghost struct RaidProgramCardView {
    pub raid_program_id: Seq<u8>,
    pub name: Seq<u8>,
    pub description: Seq<u8>,
    pub user_key: Seq<u8>,
    pub profile_picture_url: Seq<u8>,
    pub pvp_requests: Seq<Seq<u8>>,
    pub raids: Seq<Seq<u8>>,
    pub is_conducting_raid: bool,
    pub active_raid_id: Seq<u8>,
    pub size: u64,
    pub total_rewards_distributed: u64,
    pub total_raid_wins: u64,
    pub total_raids_partaken: u64,
    pub program_rank: u64,
}

/// A registered raid program: its identity, profile, memberships and
/// lifetime counters.
pub struct RaidProgramCard {
    pub raid_program_id: Addr,
    pub name: Vec<u8>,
    pub description: Vec<u8>,
    pub user_key: Addr,
    pub profile_picture_url: Vec<u8>,
    pub pvp_requests: Vec<Addr>,
    pub raids: Vec<Addr>,
    pub is_conducting_raid: bool,
    pub active_raid_id: Addr,
    pub size: u64,
    pub total_rewards_distributed: u64,
    pub total_raid_wins: u64,
    pub total_raids_partaken: u64,
    pub program_rank: u64,
}

impl View for RaidProgramCard {
    type V = RaidProgramCardView;

    open spec fn view(&self) -> RaidProgramCardView {
        RaidProgramCardView {
            raid_program_id: self.raid_program_id@,
            name: self.name@,
            description: self.description@,
            user_key: self.user_key@,
            profile_picture_url: self.profile_picture_url@,
            pvp_requests: views_of(self.pvp_requests@),
            raids: views_of(self.raids@),
            is_conducting_raid: self.is_conducting_raid,
            active_raid_id: self.active_raid_id@,
            size: self.size,
            total_rewards_distributed: self.total_rewards_distributed,
            total_raid_wins: self.total_raid_wins,
            total_raids_partaken: self.total_raids_partaken,
            program_rank: self.program_rank,
        }
    }
}

/// Well-formedness of the record's content: every address holds 32
/// bytes and every variable-length field fits its 32-bit prefix.
pub open spec fn wf_program_card(v: RaidProgramCardView) -> bool {
    &&& v.raid_program_id.len() == 32
    &&& v.name.len() <= u32::MAX
    &&& v.description.len() <= u32::MAX
    &&& v.user_key.len() == 32
    &&& v.profile_picture_url.len() <= u32::MAX
    &&& v.pvp_requests.len() <= u32::MAX
    &&& forall|i: int| 0 <= i < v.pvp_requests.len() ==> (#[trigger] v.pvp_requests[i]).len() == 32
    &&& v.raids.len() <= u32::MAX
    &&& forall|i: int| 0 <= i < v.raids.len() ==> (#[trigger] v.raids[i]).len() == 32
    &&& v.active_raid_id.len() == 32
}

/// The record's serialized form: each field's encoding in order.
pub open spec fn enc_program_card(v: RaidProgramCardView) -> Seq<u8> {
    enc_addr(v.raid_program_id) + enc_bytes(v.name) + enc_bytes(v.description) + enc_addr(v.user_key) + enc_bytes(v.profile_picture_url) + enc_addrs(v.pvp_requests) + enc_addrs(v.raids) + enc_bool(v.is_conducting_raid) + enc_addr(v.active_raid_id) + u64_le_bytes(v.size) + u64_le_bytes(v.total_rewards_distributed) + u64_le_bytes(v.total_raid_wins) + u64_le_bytes(v.total_raids_partaken) + u64_le_bytes(v.program_rank)
}

/// Parse the record's leading fields.
pub open spec fn dec_program_card_front(s: Seq<u8>) -> Option<((Seq<u8>, Seq<u8>, Seq<u8>, Seq<u8>, Seq<u8>, Seq<Seq<u8>>, Seq<Seq<u8>>), int)> {
    match dec_addr(s, 0) {
        None => None,
        Some((y0, q1)) => {
            match dec_bytes(s, q1) {
                None => None,
                Some((y1, q2)) => {
                    match dec_bytes(s, q2) {
                        None => None,
                        Some((y2, q3)) => {
                            match dec_addr(s, q3) {
                                None => None,
                                Some((y3, q4)) => {
                                    match dec_bytes(s, q4) {
                                        None => None,
                                        Some((y4, q5)) => {
                                            match dec_addrs(s, q5) {
                                                None => None,
                                                Some((y5, q6)) => {
                                                    match dec_addrs(s, q6) {
                                                        None => None,
                                                        Some((y6, q7)) => {
                                                            Some(((y0, y1, y2, y3, y4, y5, y6), q7))
                                                        },
                                                    }
                                                },
                                            }
                                        },
                                    }
                                },
                            }
                        },
                    }
                },
            }
        },
    }
}

/// Parse the record's trailing fields, from `pos`.
pub open spec fn dec_program_card_back(s: Seq<u8>, pos: int) -> Option<((bool, Seq<u8>, u64, u64, u64, u64, u64), int)> {
    match dec_bool(s, pos) {
        None => None,
        Some((y0, q1)) => {
            match dec_addr(s, q1) {
                None => None,
                Some((y1, q2)) => {
                    match dec_u64(s, q2) {
                        None => None,
                        Some((y2, q3)) => {
                            match dec_u64(s, q3) {
                                None => None,
                                Some((y3, q4)) => {
                                    match dec_u64(s, q4) {
                                        None => None,
                                        Some((y4, q5)) => {
                                            match dec_u64(s, q5) {
                                                None => None,
                                                Some((y5, q6)) => {
                                                    match dec_u64(s, q6) {
                                                        None => None,
                                                        Some((y6, q7)) => {
                                                            Some(((y0, y1, y2, y3, y4, y5, y6), q7))
                                                        },
                                                    }
                                                },
                                            }
                                        },
                                    }
                                },
                            }
                        },
                    }
                },
            }
        },
    }
}

/// Parse the record from the front of a buffer.
pub open spec fn dec_program_card(s: Seq<u8>) -> Option<(RaidProgramCardView, int)> {
    match dec_program_card_front(s) {
        None => None,
        Some((f, p)) => {
            match dec_program_card_back(s, p) {
                None => None,
                Some((b, p2)) => Some((RaidProgramCardView {
                    raid_program_id: f.0,
                    name: f.1,
                    description: f.2,
                    user_key: f.3,
                    profile_picture_url: f.4,
                    pvp_requests: f.5,
                    raids: f.6,
                    is_conducting_raid: b.0,
                    active_raid_id: b.1,
                    size: b.2,
                    total_rewards_distributed: b.3,
                    total_raid_wins: b.4,
                    total_raids_partaken: b.5,
                    program_rank: b.6,
                }, p2)),
            }
        },
    }
}

impl RaidProgramCard {
    pub open spec fn wf(&self) -> bool {
        &&& wf_program_card(self@)
        &&& self.raid_program_id.wf()
        &&& self.user_key.wf()
        &&& addrs_wf(self.pvp_requests@)
        &&& addrs_wf(self.raids@)
        &&& self.active_raid_id.wf()
    }

    /// The record's encoding as a fresh byte vector.
    pub fn encode_vec(&self) -> (out: Vec<u8>)
        requires
            self.wf(),
        ensures
            out@ == enc_program_card(self@),
    {
        let mut out: Vec<u8> = Vec::new();
        push_addr(&mut out, &self.raid_program_id);
        assert(out@ =~= enc_addr(self@.raid_program_id));
        push_bytes(&mut out, &self.name);
        assert(out@ =~= enc_addr(self@.raid_program_id) + enc_bytes(self@.name));
        push_bytes(&mut out, &self.description);
        assert(out@ =~= enc_addr(self@.raid_program_id) + enc_bytes(self@.name) + enc_bytes(self@.description));
        push_addr(&mut out, &self.user_key);
        assert(out@ =~= enc_addr(self@.raid_program_id) + enc_bytes(self@.name) + enc_bytes(self@.description) + enc_addr(self@.user_key));
        push_bytes(&mut out, &self.profile_picture_url);
        assert(out@ =~= enc_addr(self@.raid_program_id) + enc_bytes(self@.name) + enc_bytes(self@.description) + enc_addr(self@.user_key) + enc_bytes(self@.profile_picture_url));
        push_addrs(&mut out, &self.pvp_requests);
        assert(out@ =~= enc_addr(self@.raid_program_id) + enc_bytes(self@.name) + enc_bytes(self@.description) + enc_addr(self@.user_key) + enc_bytes(self@.profile_picture_url) + enc_addrs(self@.pvp_requests));
        push_addrs(&mut out, &self.raids);
        assert(out@ =~= enc_addr(self@.raid_program_id) + enc_bytes(self@.name) + enc_bytes(self@.description) + enc_addr(self@.user_key) + enc_bytes(self@.profile_picture_url) + enc_addrs(self@.pvp_requests) + enc_addrs(self@.raids));
        push_bool(&mut out, self.is_conducting_raid);
        assert(out@ =~= enc_addr(self@.raid_program_id) + enc_bytes(self@.name) + enc_bytes(self@.description) + enc_addr(self@.user_key) + enc_bytes(self@.profile_picture_url) + enc_addrs(self@.pvp_requests) + enc_addrs(self@.raids) + enc_bool(self@.is_conducting_raid));
        push_addr(&mut out, &self.active_raid_id);
        assert(out@ =~= enc_addr(self@.raid_program_id) + enc_bytes(self@.name) + enc_bytes(self@.description) + enc_addr(self@.user_key) + enc_bytes(self@.profile_picture_url) + enc_addrs(self@.pvp_requests) + enc_addrs(self@.raids) + enc_bool(self@.is_conducting_raid) + enc_addr(self@.active_raid_id));
        push_u64(&mut out, self.size);
        assert(out@ =~= enc_addr(self@.raid_program_id) + enc_bytes(self@.name) + enc_bytes(self@.description) + enc_addr(self@.user_key) + enc_bytes(self@.profile_picture_url) + enc_addrs(self@.pvp_requests) + enc_addrs(self@.raids) + enc_bool(self@.is_conducting_raid) + enc_addr(self@.active_raid_id) + u64_le_bytes(self@.size));
        push_u64(&mut out, self.total_rewards_distributed);
        assert(out@ =~= enc_addr(self@.raid_program_id) + enc_bytes(self@.name) + enc_bytes(self@.description) + enc_addr(self@.user_key) + enc_bytes(self@.profile_picture_url) + enc_addrs(self@.pvp_requests) + enc_addrs(self@.raids) + enc_bool(self@.is_conducting_raid) + enc_addr(self@.active_raid_id) + u64_le_bytes(self@.size) + u64_le_bytes(self@.total_rewards_distributed));
        push_u64(&mut out, self.total_raid_wins);
        assert(out@ =~= enc_addr(self@.raid_program_id) + enc_bytes(self@.name) + enc_bytes(self@.description) + enc_addr(self@.user_key) + enc_bytes(self@.profile_picture_url) + enc_addrs(self@.pvp_requests) + enc_addrs(self@.raids) + enc_bool(self@.is_conducting_raid) + enc_addr(self@.active_raid_id) + u64_le_bytes(self@.size) + u64_le_bytes(self@.total_rewards_distributed) + u64_le_bytes(self@.total_raid_wins));
        push_u64(&mut out, self.total_raids_partaken);
        assert(out@ =~= enc_addr(self@.raid_program_id) + enc_bytes(self@.name) + enc_bytes(self@.description) + enc_addr(self@.user_key) + enc_bytes(self@.profile_picture_url) + enc_addrs(self@.pvp_requests) + enc_addrs(self@.raids) + enc_bool(self@.is_conducting_raid) + enc_addr(self@.active_raid_id) + u64_le_bytes(self@.size) + u64_le_bytes(self@.total_rewards_distributed) + u64_le_bytes(self@.total_raid_wins) + u64_le_bytes(self@.total_raids_partaken));
        push_u64(&mut out, self.program_rank);
        assert(out@ =~= enc_addr(self@.raid_program_id) + enc_bytes(self@.name) + enc_bytes(self@.description) + enc_addr(self@.user_key) + enc_bytes(self@.profile_picture_url) + enc_addrs(self@.pvp_requests) + enc_addrs(self@.raids) + enc_bool(self@.is_conducting_raid) + enc_addr(self@.active_raid_id) + u64_le_bytes(self@.size) + u64_le_bytes(self@.total_rewards_distributed) + u64_le_bytes(self@.total_raid_wins) + u64_le_bytes(self@.total_raids_partaken) + u64_le_bytes(self@.program_rank));
        out
    }

    /// Serialize into a fixed-capacity buffer. The capacity never
    /// changes; a record too large for it is refused whole, and bytes
    /// past the record keep their previous contents.
    pub fn custom_serialize(&self, buffer: &mut Vec<u8>) -> (r: Result<usize, BullPosterError>)
        requires
            self.wf(),
        ensures
            final(buffer)@.len() == old(buffer)@.len(),
            match r {
                Ok(n) => n as int == enc_program_card(self@).len()
                    && n <= old(buffer)@.len()
                    && final(buffer)@.subrange(0, n as int) == enc_program_card(self@)
                    && (forall|i: int| n <= i < final(buffer)@.len()
                        ==> final(buffer)@[i] == old(buffer)@[i]),
                Err(e) => e == BullPosterError::BufferTooSmall
                    && enc_program_card(self@).len() > old(buffer)@.len()
                    && final(buffer)@ == old(buffer)@,
            },
    {
        let rec = self.encode_vec();
        write_record(buffer, &rec)
    }

    /// Decode from a buffer, reporting the bytes consumed.
    pub fn custom_deserialize(data: &[u8]) -> (r: Result<(Self, usize), BullPosterError>)
        ensures
            match r {
                Ok((c, n)) => c.wf() && dec_program_card(data@) == Some((c@, n as int)),
                Err(e) => e == BullPosterError::MalformedRecord
                    && dec_program_card(data@).is_none(),
            },
    {
    let (x0, p1) = match read_addr(data, 0) {
        Ok(x) => x,
        Err(e) => {
            return Err(e);
        },
    };
    let (x1, p2) = match read_bytes(data, p1) {
        Ok(x) => x,
        Err(e) => {
            return Err(e);
        },
    };
    let (x2, p3) = match read_bytes(data, p2) {
        Ok(x) => x,
        Err(e) => {
            return Err(e);
        },
    };
    let (x3, p4) = match read_addr(data, p3) {
        Ok(x) => x,
        Err(e) => {
            return Err(e);
        },
    };
    let (x4, p5) = match read_bytes(data, p4) {
        Ok(x) => x,
        Err(e) => {
            return Err(e);
        },
    };
    let (x5, p6) = match read_addrs(data, p5) {
        Ok(x) => x,
        Err(e) => {
            return Err(e);
        },
    };
    let (x6, p7) = match read_addrs(data, p6) {
        Ok(x) => x,
        Err(e) => {
            return Err(e);
        },
    };
    let (x7, p8) = match read_bool(data, p7) {
        Ok(x) => x,
        Err(e) => {
            return Err(e);
        },
    };
    let (x8, p9) = match read_addr(data, p8) {
        Ok(x) => x,
        Err(e) => {
            return Err(e);
        },
    };
    let (x9, p10) = match read_u64(data, p9) {
        Ok(x) => x,
        Err(e) => {
            return Err(e);
        },
    };
    let (x10, p11) = match read_u64(data, p10) {
        Ok(x) => x,
        Err(e) => {
            return Err(e);
        },
    };
    let (x11, p12) = match read_u64(data, p11) {
        Ok(x) => x,
        Err(e) => {
            return Err(e);
        },
    };
    let (x12, p13) = match read_u64(data, p12) {
        Ok(x) => x,
        Err(e) => {
            return Err(e);
        },
    };
    let (x13, p14) = match read_u64(data, p13) {
        Ok(x) => x,
        Err(e) => {
            return Err(e);
        },
    };
        Ok((RaidProgramCard {
            raid_program_id: x0,
            name: x1,
            description: x2,
            user_key: x3,
            profile_picture_url: x4,
            pvp_requests: x5,
            raids: x6,
            is_conducting_raid: x7,
            active_raid_id: x8,
            size: x9,
            total_rewards_distributed: x10,
            total_raid_wins: x11,
            total_raids_partaken: x12,
            program_rank: x13,
        }, p14))
    }
}

/// Each trailing field of an encoded record parses back at its own
/// offset; the leading fields stay intact in front of them.
#[verifier::rlimit(100)]
proof fn lemma_program_card_fields_back(v: RaidProgramCardView, rest: Seq<u8>)
    requires
        wf_program_card(v),
    ensures
        dec_bool(enc_program_card(v) + rest, (32 + enc_bytes(v.name).len() + enc_bytes(v.description).len() + 32 + enc_bytes(v.profile_picture_url).len() + enc_addrs(v.pvp_requests).len() + enc_addrs(v.raids).len()) as int)
            == Some((v.is_conducting_raid, (32 + enc_bytes(v.name).len() + enc_bytes(v.description).len() + 32 + enc_bytes(v.profile_picture_url).len() + enc_addrs(v.pvp_requests).len() + enc_addrs(v.raids).len() + 1) as int)),
        dec_addr(enc_program_card(v) + rest, (32 + enc_bytes(v.name).len() + enc_bytes(v.description).len() + 32 + enc_bytes(v.profile_picture_url).len() + enc_addrs(v.pvp_requests).len() + enc_addrs(v.raids).len() + 1) as int)
            == Some((v.active_raid_id, (32 + enc_bytes(v.name).len() + enc_bytes(v.description).len() + 32 + enc_bytes(v.profile_picture_url).len() + enc_addrs(v.pvp_requests).len() + enc_addrs(v.raids).len() + 1 + 32) as int)),
        dec_u64(enc_program_card(v) + rest, (32 + enc_bytes(v.name).len() + enc_bytes(v.description).len() + 32 + enc_bytes(v.profile_picture_url).len() + enc_addrs(v.pvp_requests).len() + enc_addrs(v.raids).len() + 1 + 32) as int)
            == Some((v.size, (32 + enc_bytes(v.name).len() + enc_bytes(v.description).len() + 32 + enc_bytes(v.profile_picture_url).len() + enc_addrs(v.pvp_requests).len() + enc_addrs(v.raids).len() + 1 + 32 + 8) as int)),
        dec_u64(enc_program_card(v) + rest, (32 + enc_bytes(v.name).len() + enc_bytes(v.description).len() + 32 + enc_bytes(v.profile_picture_url).len() + enc_addrs(v.pvp_requests).len() + enc_addrs(v.raids).len() + 1 + 32 + 8) as int)
            == Some((v.total_rewards_distributed, (32 + enc_bytes(v.name).len() + enc_bytes(v.description).len() + 32 + enc_bytes(v.profile_picture_url).len() + enc_addrs(v.pvp_requests).len() + enc_addrs(v.raids).len() + 1 + 32 + 8 + 8) as int)),
        dec_u64(enc_program_card(v) + rest, (32 + enc_bytes(v.name).len() + enc_bytes(v.description).len() + 32 + enc_bytes(v.profile_picture_url).len() + enc_addrs(v.pvp_requests).len() + enc_addrs(v.raids).len() + 1 + 32 + 8 + 8) as int)
            == Some((v.total_raid_wins, (32 + enc_bytes(v.name).len() + enc_bytes(v.description).len() + 32 + enc_bytes(v.profile_picture_url).len() + enc_addrs(v.pvp_requests).len() + enc_addrs(v.raids).len() + 1 + 32 + 8 + 8 + 8) as int)),
        dec_u64(enc_program_card(v) + rest, (32 + enc_bytes(v.name).len() + enc_bytes(v.description).len() + 32 + enc_bytes(v.profile_picture_url).len() + enc_addrs(v.pvp_requests).len() + enc_addrs(v.raids).len() + 1 + 32 + 8 + 8 + 8) as int)
            == Some((v.total_raids_partaken, (32 + enc_bytes(v.name).len() + enc_bytes(v.description).len() + 32 + enc_bytes(v.profile_picture_url).len() + enc_addrs(v.pvp_requests).len() + enc_addrs(v.raids).len() + 1 + 32 + 8 + 8 + 8 + 8) as int)),
        dec_u64(enc_program_card(v) + rest, (32 + enc_bytes(v.name).len() + enc_bytes(v.description).len() + 32 + enc_bytes(v.profile_picture_url).len() + enc_addrs(v.pvp_requests).len() + enc_addrs(v.raids).len() + 1 + 32 + 8 + 8 + 8 + 8) as int)
            == Some((v.program_rank, (32 + enc_bytes(v.name).len() + enc_bytes(v.description).len() + 32 + enc_bytes(v.profile_picture_url).len() + enc_addrs(v.pvp_requests).len() + enc_addrs(v.raids).len() + 1 + 32 + 8 + 8 + 8 + 8 + 8) as int)),
        (enc_program_card(v) + rest).subrange(0, (32 + enc_bytes(v.name).len() + enc_bytes(v.description).len() + 32 + enc_bytes(v.profile_picture_url).len() + enc_addrs(v.pvp_requests).len() + enc_addrs(v.raids).len()) as int)
            == enc_addr(v.raid_program_id) + enc_bytes(v.name) + enc_bytes(v.description) + enc_addr(v.user_key) + enc_bytes(v.profile_picture_url) + enc_addrs(v.pvp_requests) + enc_addrs(v.raids),
        enc_program_card(v).len() == (32 + enc_bytes(v.name).len() + enc_bytes(v.description).len() + 32 + enc_bytes(v.profile_picture_url).len() + enc_addrs(v.pvp_requests).len() + enc_addrs(v.raids).len() + 1 + 32 + 8 + 8 + 8 + 8 + 8) as int,
        (32 + enc_bytes(v.name).len() + enc_bytes(v.description).len() + 32 + enc_bytes(v.profile_picture_url).len() + enc_addrs(v.pvp_requests).len() + enc_addrs(v.raids).len()) as int <= (enc_program_card(v) + rest).len(),
{
    let e = enc_program_card(v);
    let s = e + rest;
    assert(s.subrange(0, e.len() as int) =~= e);
    let a1 = enc_addr(v.raid_program_id);
    let a2 = a1 + enc_bytes(v.name);
    let a3 = a2 + enc_bytes(v.description);
    let a4 = a3 + enc_addr(v.user_key);
    let a5 = a4 + enc_bytes(v.profile_picture_url);
    let a6 = a5 + enc_addrs(v.pvp_requests);
    let a7 = a6 + enc_addrs(v.raids);
    let a8 = a7 + enc_bool(v.is_conducting_raid);
    let a9 = a8 + enc_addr(v.active_raid_id);
    let a10 = a9 + u64_le_bytes(v.size);
    let a11 = a10 + u64_le_bytes(v.total_rewards_distributed);
    let a12 = a11 + u64_le_bytes(v.total_raid_wins);
    let a13 = a12 + u64_le_bytes(v.total_raids_partaken);
    let a14 = a13 + u64_le_bytes(v.program_rank);
    assert(a14 == e);
    lemma_split_concat(s, 0, a13, u64_le_bytes(v.program_rank));
    lemma_dec_u64_of_enc(s, a13.len() as int, v.program_rank);
    lemma_split_concat(s, 0, a12, u64_le_bytes(v.total_raids_partaken));
    lemma_dec_u64_of_enc(s, a12.len() as int, v.total_raids_partaken);
    lemma_split_concat(s, 0, a11, u64_le_bytes(v.total_raid_wins));
    lemma_dec_u64_of_enc(s, a11.len() as int, v.total_raid_wins);
    lemma_split_concat(s, 0, a10, u64_le_bytes(v.total_rewards_distributed));
    lemma_dec_u64_of_enc(s, a10.len() as int, v.total_rewards_distributed);
    lemma_split_concat(s, 0, a9, u64_le_bytes(v.size));
    lemma_dec_u64_of_enc(s, a9.len() as int, v.size);
    lemma_split_concat(s, 0, a8, enc_addr(v.active_raid_id));
    lemma_dec_addr_of_enc(s, a8.len() as int, v.active_raid_id);
    lemma_split_concat(s, 0, a7, enc_bool(v.is_conducting_raid));
    lemma_dec_bool_of_enc(s, a7.len() as int, v.is_conducting_raid);
}

/// Each leading field of a buffer that starts with the leading
/// fields' encodings parses back at its own offset.
#[verifier::rlimit(100)]
proof fn lemma_program_card_fields_front(v: RaidProgramCardView, s: Seq<u8>)
    requires
        wf_program_card(v),
        s.subrange(0, (32 + enc_bytes(v.name).len() + enc_bytes(v.description).len() + 32 + enc_bytes(v.profile_picture_url).len() + enc_addrs(v.pvp_requests).len() + enc_addrs(v.raids).len()) as int)
            == enc_addr(v.raid_program_id) + enc_bytes(v.name) + enc_bytes(v.description) + enc_addr(v.user_key) + enc_bytes(v.profile_picture_url) + enc_addrs(v.pvp_requests) + enc_addrs(v.raids),
        (32 + enc_bytes(v.name).len() + enc_bytes(v.description).len() + 32 + enc_bytes(v.profile_picture_url).len() + enc_addrs(v.pvp_requests).len() + enc_addrs(v.raids).len()) as int <= s.len(),
    ensures
        dec_addr(s, (0) as int)
            == Some((v.raid_program_id, (32) as int)),
        dec_bytes(s, (32) as int)
            == Some((v.name, (32 + enc_bytes(v.name).len()) as int)),
        dec_bytes(s, (32 + enc_bytes(v.name).len()) as int)
            == Some((v.description, (32 + enc_bytes(v.name).len() + enc_bytes(v.description).len()) as int)),
        dec_addr(s, (32 + enc_bytes(v.name).len() + enc_bytes(v.description).len()) as int)
            == Some((v.user_key, (32 + enc_bytes(v.name).len() + enc_bytes(v.description).len() + 32) as int)),
        dec_bytes(s, (32 + enc_bytes(v.name).len() + enc_bytes(v.description).len() + 32) as int)
            == Some((v.profile_picture_url, (32 + enc_bytes(v.name).len() + enc_bytes(v.description).len() + 32 + enc_bytes(v.profile_picture_url).len()) as int)),
        dec_addrs(s, (32 + enc_bytes(v.name).len() + enc_bytes(v.description).len() + 32 + enc_bytes(v.profile_picture_url).len()) as int)
            == Some((v.pvp_requests, (32 + enc_bytes(v.name).len() + enc_bytes(v.description).len() + 32 + enc_bytes(v.profile_picture_url).len() + enc_addrs(v.pvp_requests).len()) as int)),
        dec_addrs(s, (32 + enc_bytes(v.name).len() + enc_bytes(v.description).len() + 32 + enc_bytes(v.profile_picture_url).len() + enc_addrs(v.pvp_requests).len()) as int)
            == Some((v.raids, (32 + enc_bytes(v.name).len() + enc_bytes(v.description).len() + 32 + enc_bytes(v.profile_picture_url).len() + enc_addrs(v.pvp_requests).len() + enc_addrs(v.raids).len()) as int)),
{
    let a1 = enc_addr(v.raid_program_id);
    let a2 = a1 + enc_bytes(v.name);
    let a3 = a2 + enc_bytes(v.description);
    let a4 = a3 + enc_addr(v.user_key);
    let a5 = a4 + enc_bytes(v.profile_picture_url);
    let a6 = a5 + enc_addrs(v.pvp_requests);
    let a7 = a6 + enc_addrs(v.raids);
    assert(s.subrange(0, a7.len() as int) == a7);
    lemma_split_concat(s, 0, a6, enc_addrs(v.raids));
    lemma_dec_addrs_of_enc(s, a6.len() as int, v.raids);
    lemma_split_concat(s, 0, a5, enc_addrs(v.pvp_requests));
    lemma_dec_addrs_of_enc(s, a5.len() as int, v.pvp_requests);
    lemma_split_concat(s, 0, a4, enc_bytes(v.profile_picture_url));
    lemma_dec_bytes_of_enc(s, a4.len() as int, v.profile_picture_url);
    lemma_split_concat(s, 0, a3, enc_addr(v.user_key));
    lemma_dec_addr_of_enc(s, a3.len() as int, v.user_key);
    lemma_split_concat(s, 0, a2, enc_bytes(v.description));
    lemma_dec_bytes_of_enc(s, a2.len() as int, v.description);
    lemma_split_concat(s, 0, a1, enc_bytes(v.name));
    lemma_dec_bytes_of_enc(s, a1.len() as int, v.name);
    lemma_dec_addr_of_enc(s, 0, v.raid_program_id);
}

/// A buffer whose fields all parse at their offsets parses as the
/// whole record.
proof fn lemma_program_card_eval(v: RaidProgramCardView, s: Seq<u8>)
    requires
        dec_addr(s, (0) as int)
            == Some((v.raid_program_id, (32) as int)),
        dec_bytes(s, (32) as int)
            == Some((v.name, (32 + enc_bytes(v.name).len()) as int)),
        dec_bytes(s, (32 + enc_bytes(v.name).len()) as int)
            == Some((v.description, (32 + enc_bytes(v.name).len() + enc_bytes(v.description).len()) as int)),
        dec_addr(s, (32 + enc_bytes(v.name).len() + enc_bytes(v.description).len()) as int)
            == Some((v.user_key, (32 + enc_bytes(v.name).len() + enc_bytes(v.description).len() + 32) as int)),
        dec_bytes(s, (32 + enc_bytes(v.name).len() + enc_bytes(v.description).len() + 32) as int)
            == Some((v.profile_picture_url, (32 + enc_bytes(v.name).len() + enc_bytes(v.description).len() + 32 + enc_bytes(v.profile_picture_url).len()) as int)),
        dec_addrs(s, (32 + enc_bytes(v.name).len() + enc_bytes(v.description).len() + 32 + enc_bytes(v.profile_picture_url).len()) as int)
            == Some((v.pvp_requests, (32 + enc_bytes(v.name).len() + enc_bytes(v.description).len() + 32 + enc_bytes(v.profile_picture_url).len() + enc_addrs(v.pvp_requests).len()) as int)),
        dec_addrs(s, (32 + enc_bytes(v.name).len() + enc_bytes(v.description).len() + 32 + enc_bytes(v.profile_picture_url).len() + enc_addrs(v.pvp_requests).len()) as int)
            == Some((v.raids, (32 + enc_bytes(v.name).len() + enc_bytes(v.description).len() + 32 + enc_bytes(v.profile_picture_url).len() + enc_addrs(v.pvp_requests).len() + enc_addrs(v.raids).len()) as int)),
        dec_bool(s, (32 + enc_bytes(v.name).len() + enc_bytes(v.description).len() + 32 + enc_bytes(v.profile_picture_url).len() + enc_addrs(v.pvp_requests).len() + enc_addrs(v.raids).len()) as int)
            == Some((v.is_conducting_raid, (32 + enc_bytes(v.name).len() + enc_bytes(v.description).len() + 32 + enc_bytes(v.profile_picture_url).len() + enc_addrs(v.pvp_requests).len() + enc_addrs(v.raids).len() + 1) as int)),
        dec_addr(s, (32 + enc_bytes(v.name).len() + enc_bytes(v.description).len() + 32 + enc_bytes(v.profile_picture_url).len() + enc_addrs(v.pvp_requests).len() + enc_addrs(v.raids).len() + 1) as int)
            == Some((v.active_raid_id, (32 + enc_bytes(v.name).len() + enc_bytes(v.description).len() + 32 + enc_bytes(v.profile_picture_url).len() + enc_addrs(v.pvp_requests).len() + enc_addrs(v.raids).len() + 1 + 32) as int)),
        dec_u64(s, (32 + enc_bytes(v.name).len() + enc_bytes(v.description).len() + 32 + enc_bytes(v.profile_picture_url).len() + enc_addrs(v.pvp_requests).len() + enc_addrs(v.raids).len() + 1 + 32) as int)
            == Some((v.size, (32 + enc_bytes(v.name).len() + enc_bytes(v.description).len() + 32 + enc_bytes(v.profile_picture_url).len() + enc_addrs(v.pvp_requests).len() + enc_addrs(v.raids).len() + 1 + 32 + 8) as int)),
        dec_u64(s, (32 + enc_bytes(v.name).len() + enc_bytes(v.description).len() + 32 + enc_bytes(v.profile_picture_url).len() + enc_addrs(v.pvp_requests).len() + enc_addrs(v.raids).len() + 1 + 32 + 8) as int)
            == Some((v.total_rewards_distributed, (32 + enc_bytes(v.name).len() + enc_bytes(v.description).len() + 32 + enc_bytes(v.profile_picture_url).len() + enc_addrs(v.pvp_requests).len() + enc_addrs(v.raids).len() + 1 + 32 + 8 + 8) as int)),
        dec_u64(s, (32 + enc_bytes(v.name).len() + enc_bytes(v.description).len() + 32 + enc_bytes(v.profile_picture_url).len() + enc_addrs(v.pvp_requests).len() + enc_addrs(v.raids).len() + 1 + 32 + 8 + 8) as int)
            == Some((v.total_raid_wins, (32 + enc_bytes(v.name).len() + enc_bytes(v.description).len() + 32 + enc_bytes(v.profile_picture_url).len() + enc_addrs(v.pvp_requests).len() + enc_addrs(v.raids).len() + 1 + 32 + 8 + 8 + 8) as int)),
        dec_u64(s, (32 + enc_bytes(v.name).len() + enc_bytes(v.description).len() + 32 + enc_bytes(v.profile_picture_url).len() + enc_addrs(v.pvp_requests).len() + enc_addrs(v.raids).len() + 1 + 32 + 8 + 8 + 8) as int)
            == Some((v.total_raids_partaken, (32 + enc_bytes(v.name).len() + enc_bytes(v.description).len() + 32 + enc_bytes(v.profile_picture_url).len() + enc_addrs(v.pvp_requests).len() + enc_addrs(v.raids).len() + 1 + 32 + 8 + 8 + 8 + 8) as int)),
        dec_u64(s, (32 + enc_bytes(v.name).len() + enc_bytes(v.description).len() + 32 + enc_bytes(v.profile_picture_url).len() + enc_addrs(v.pvp_requests).len() + enc_addrs(v.raids).len() + 1 + 32 + 8 + 8 + 8 + 8) as int)
            == Some((v.program_rank, (32 + enc_bytes(v.name).len() + enc_bytes(v.description).len() + 32 + enc_bytes(v.profile_picture_url).len() + enc_addrs(v.pvp_requests).len() + enc_addrs(v.raids).len() + 1 + 32 + 8 + 8 + 8 + 8 + 8) as int)),
    ensures
        dec_program_card(s) == Some((v, (32 + enc_bytes(v.name).len() + enc_bytes(v.description).len() + 32 + enc_bytes(v.profile_picture_url).len() + enc_addrs(v.pvp_requests).len() + enc_addrs(v.raids).len() + 1 + 32 + 8 + 8 + 8 + 8 + 8) as int)),
{
}

/// Round trip: a well-formed record, encoded and then decoded from any
/// sufficiently large buffer, comes back unchanged.
pub proof fn lemma_program_card_round_trip(v: RaidProgramCardView, rest: Seq<u8>)
    requires
        wf_program_card(v),
    ensures
        dec_program_card(enc_program_card(v) + rest)
            == Some((v, enc_program_card(v).len() as int)),
{
    lemma_program_card_fields_back(v, rest);
    lemma_program_card_fields_front(v, enc_program_card(v) + rest);
    lemma_program_card_eval(v, enc_program_card(v) + rest);
}

} // verus!
