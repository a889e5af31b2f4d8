//! The program registry: a singleton record holding the per-
//! competition-type sequence ledger (a typed total mapping in place
//! of any loose text blob) and the registration counters.

use vstd::prelude::*;

use crate::addr::{addrs_wf, views_of, Addr};
use crate::codec::{
    dec_addr, dec_u64, enc_addr, lemma_dec_addr_of_enc, lemma_dec_u64_of_enc, lemma_split_concat,
    push_addr, push_u64, read_addr, read_u64, u64_le_bytes, write_record,
};
use crate::error::BullPosterError;

verus! {

/// Mathematical content of a `ProgramStateCard`.
pub ghost struct ProgramStateCardView {
    pub registered_programs_count: u64,
    pub registered_users_count: u64,
    pub pool4_sequence: u64,
    pub pool4_last_competition: Seq<u8>,
    pub pool6_sequence: u64,
    pub pool6_last_competition: Seq<u8>,
    pub pool12_sequence: u64,
    pub pool12_last_competition: Seq<u8>,
    pub pool24_sequence: u64,
    pub pool24_last_competition: Seq<u8>,
    pub pvp_sequence: u64,
    pub pvp_last_competition: Seq<u8>,
}

/// The singleton registry record: the per-competition-type sequence
/// ledger and the registration counters.
pub struct ProgramStateCard {
    pub registered_programs_count: u64,
    pub registered_users_count: u64,
    pub pool4_sequence: u64,
    pub pool4_last_competition: Addr,
    pub pool6_sequence: u64,
    pub pool6_last_competition: Addr,
    pub pool12_sequence: u64,
    pub pool12_last_competition: Addr,
    pub pool24_sequence: u64,
    pub pool24_last_competition: Addr,
    pub pvp_sequence: u64,
    pub pvp_last_competition: Addr,
}

impl View for ProgramStateCard {
    type V = ProgramStateCardView;

    open spec fn view(&self) -> ProgramStateCardView {
        ProgramStateCardView {
            registered_programs_count: self.registered_programs_count,
            registered_users_count: self.registered_users_count,
            pool4_sequence: self.pool4_sequence,
            pool4_last_competition: self.pool4_last_competition@,
            pool6_sequence: self.pool6_sequence,
            pool6_last_competition: self.pool6_last_competition@,
            pool12_sequence: self.pool12_sequence,
            pool12_last_competition: self.pool12_last_competition@,
            pool24_sequence: self.pool24_sequence,
            pool24_last_competition: self.pool24_last_competition@,
            pvp_sequence: self.pvp_sequence,
            pvp_last_competition: self.pvp_last_competition@,
        }
    }
}

/// Well-formedness of the record's content: every address holds 32
/// bytes and every variable-length field fits its 32-bit prefix.
pub open spec fn wf_program_state(v: ProgramStateCardView) -> bool {
    &&& v.pool4_last_competition.len() == 32
    &&& v.pool6_last_competition.len() == 32
    &&& v.pool12_last_competition.len() == 32
    &&& v.pool24_last_competition.len() == 32
    &&& v.pvp_last_competition.len() == 32
}

/// The record's serialized form: each field's encoding in order.
#[verifier::opaque]
pub open spec fn enc_program_state(v: ProgramStateCardView) -> Seq<u8> {
    u64_le_bytes(v.registered_programs_count) + u64_le_bytes(v.registered_users_count) + u64_le_bytes(v.pool4_sequence) + enc_addr(v.pool4_last_competition) + u64_le_bytes(v.pool6_sequence) + enc_addr(v.pool6_last_competition) + u64_le_bytes(v.pool12_sequence) + enc_addr(v.pool12_last_competition) + u64_le_bytes(v.pool24_sequence) + enc_addr(v.pool24_last_competition) + u64_le_bytes(v.pvp_sequence) + enc_addr(v.pvp_last_competition)
}

/// Parse the record's leading fields.
pub open spec fn dec_program_state_front(s: Seq<u8>) -> Option<((u64, u64, u64, Seq<u8>, u64, Seq<u8>), int)> {
    match dec_u64(s, 0) {
        None => None,
        Some((y0, q1)) => {
            match dec_u64(s, q1) {
                None => None,
                Some((y1, q2)) => {
                    match dec_u64(s, q2) {
                        None => None,
                        Some((y2, q3)) => {
                            match dec_addr(s, q3) {
                                None => None,
                                Some((y3, q4)) => {
                                    match dec_u64(s, q4) {
                                        None => None,
                                        Some((y4, q5)) => {
                                            match dec_addr(s, q5) {
                                                None => None,
                                                Some((y5, q6)) => {
                                                    Some(((y0, y1, y2, y3, y4, y5), q6))
                                                },
                                            }
                                        },
                                    }
                                },
                            }
                        },
                    }
                },
            }
        },
    }
}

/// Parse the record's trailing fields, from `pos`.
pub open spec fn dec_program_state_back(s: Seq<u8>, pos: int) -> Option<((u64, Seq<u8>, u64, Seq<u8>, u64, Seq<u8>), int)> {
    match dec_u64(s, pos) {
        None => None,
        Some((y0, q1)) => {
            match dec_addr(s, q1) {
                None => None,
                Some((y1, q2)) => {
                    match dec_u64(s, q2) {
                        None => None,
                        Some((y2, q3)) => {
                            match dec_addr(s, q3) {
                                None => None,
                                Some((y3, q4)) => {
                                    match dec_u64(s, q4) {
                                        None => None,
                                        Some((y4, q5)) => {
                                            match dec_addr(s, q5) {
                                                None => None,
                                                Some((y5, q6)) => {
                                                    Some(((y0, y1, y2, y3, y4, y5), q6))
                                                },
                                            }
                                        },
                                    }
                                },
                            }
                        },
                    }
                },
            }
        },
    }
}

/// Parse the record from the front of a buffer.
pub open spec fn dec_program_state(s: Seq<u8>) -> Option<(ProgramStateCardView, int)> {
    match dec_program_state_front(s) {
        None => None,
        Some((f, p)) => {
            match dec_program_state_back(s, p) {
                None => None,
                Some((b, p2)) => Some((ProgramStateCardView {
                    registered_programs_count: f.0,
                    registered_users_count: f.1,
                    pool4_sequence: f.2,
                    pool4_last_competition: f.3,
                    pool6_sequence: f.4,
                    pool6_last_competition: f.5,
                    pool12_sequence: b.0,
                    pool12_last_competition: b.1,
                    pool24_sequence: b.2,
                    pool24_last_competition: b.3,
                    pvp_sequence: b.4,
                    pvp_last_competition: b.5,
                }, p2)),
            }
        },
    }
}

impl ProgramStateCard {
    pub open spec fn wf(&self) -> bool {
        &&& wf_program_state(self@)
        &&& self.pool4_last_competition.wf()
        &&& self.pool6_last_competition.wf()
        &&& self.pool12_last_competition.wf()
        &&& self.pool24_last_competition.wf()
        &&& self.pvp_last_competition.wf()
    }

    /// The record's encoding as a fresh byte vector.
    pub fn encode_vec(&self) -> (out: Vec<u8>)
        requires
            self.wf(),
        ensures
            out@ == enc_program_state(self@),
    {
        proof {
            reveal(enc_program_state);
        }
        let mut out: Vec<u8> = Vec::new();
        push_u64(&mut out, self.registered_programs_count);
        assert(out@ =~= u64_le_bytes(self@.registered_programs_count));
        push_u64(&mut out, self.registered_users_count);
        assert(out@ =~= u64_le_bytes(self@.registered_programs_count) + u64_le_bytes(self@.registered_users_count));
        push_u64(&mut out, self.pool4_sequence);
        assert(out@ =~= u64_le_bytes(self@.registered_programs_count) + u64_le_bytes(self@.registered_users_count) + u64_le_bytes(self@.pool4_sequence));
        push_addr(&mut out, &self.pool4_last_competition);
        assert(out@ =~= u64_le_bytes(self@.registered_programs_count) + u64_le_bytes(self@.registered_users_count) + u64_le_bytes(self@.pool4_sequence) + enc_addr(self@.pool4_last_competition));
        push_u64(&mut out, self.pool6_sequence);
        assert(out@ =~= u64_le_bytes(self@.registered_programs_count) + u64_le_bytes(self@.registered_users_count) + u64_le_bytes(self@.pool4_sequence) + enc_addr(self@.pool4_last_competition) + u64_le_bytes(self@.pool6_sequence));
        push_addr(&mut out, &self.pool6_last_competition);
        assert(out@ =~= u64_le_bytes(self@.registered_programs_count) + u64_le_bytes(self@.registered_users_count) + u64_le_bytes(self@.pool4_sequence) + enc_addr(self@.pool4_last_competition) + u64_le_bytes(self@.pool6_sequence) + enc_addr(self@.pool6_last_competition));
        push_u64(&mut out, self.pool12_sequence);
        assert(out@ =~= u64_le_bytes(self@.registered_programs_count) + u64_le_bytes(self@.registered_users_count) + u64_le_bytes(self@.pool4_sequence) + enc_addr(self@.pool4_last_competition) + u64_le_bytes(self@.pool6_sequence) + enc_addr(self@.pool6_last_competition) + u64_le_bytes(self@.pool12_sequence));
        push_addr(&mut out, &self.pool12_last_competition);
        assert(out@ =~= u64_le_bytes(self@.registered_programs_count) + u64_le_bytes(self@.registered_users_count) + u64_le_bytes(self@.pool4_sequence) + enc_addr(self@.pool4_last_competition) + u64_le_bytes(self@.pool6_sequence) + enc_addr(self@.pool6_last_competition) + u64_le_bytes(self@.pool12_sequence) + enc_addr(self@.pool12_last_competition));
        push_u64(&mut out, self.pool24_sequence);
        assert(out@ =~= u64_le_bytes(self@.registered_programs_count) + u64_le_bytes(self@.registered_users_count) + u64_le_bytes(self@.pool4_sequence) + enc_addr(self@.pool4_last_competition) + u64_le_bytes(self@.pool6_sequence) + enc_addr(self@.pool6_last_competition) + u64_le_bytes(self@.pool12_sequence) + enc_addr(self@.pool12_last_competition) + u64_le_bytes(self@.pool24_sequence));
        push_addr(&mut out, &self.pool24_last_competition);
        assert(out@ =~= u64_le_bytes(self@.registered_programs_count) + u64_le_bytes(self@.registered_users_count) + u64_le_bytes(self@.pool4_sequence) + enc_addr(self@.pool4_last_competition) + u64_le_bytes(self@.pool6_sequence) + enc_addr(self@.pool6_last_competition) + u64_le_bytes(self@.pool12_sequence) + enc_addr(self@.pool12_last_competition) + u64_le_bytes(self@.pool24_sequence) + enc_addr(self@.pool24_last_competition));
        push_u64(&mut out, self.pvp_sequence);
        assert(out@ =~= u64_le_bytes(self@.registered_programs_count) + u64_le_bytes(self@.registered_users_count) + u64_le_bytes(self@.pool4_sequence) + enc_addr(self@.pool4_last_competition) + u64_le_bytes(self@.pool6_sequence) + enc_addr(self@.pool6_last_competition) + u64_le_bytes(self@.pool12_sequence) + enc_addr(self@.pool12_last_competition) + u64_le_bytes(self@.pool24_sequence) + enc_addr(self@.pool24_last_competition) + u64_le_bytes(self@.pvp_sequence));
        push_addr(&mut out, &self.pvp_last_competition);
        assert(out@ =~= u64_le_bytes(self@.registered_programs_count) + u64_le_bytes(self@.registered_users_count) + u64_le_bytes(self@.pool4_sequence) + enc_addr(self@.pool4_last_competition) + u64_le_bytes(self@.pool6_sequence) + enc_addr(self@.pool6_last_competition) + u64_le_bytes(self@.pool12_sequence) + enc_addr(self@.pool12_last_competition) + u64_le_bytes(self@.pool24_sequence) + enc_addr(self@.pool24_last_competition) + u64_le_bytes(self@.pvp_sequence) + enc_addr(self@.pvp_last_competition));
        out
    }

    /// Serialize into a fixed-capacity buffer. The capacity never
    /// changes; a record too large for it is refused whole, and bytes
    /// past the record keep their previous contents.
    pub fn custom_serialize(&self, buffer: &mut Vec<u8>) -> (r: Result<usize, BullPosterError>)
        requires
            self.wf(),
        ensures
            final(buffer)@.len() == old(buffer)@.len(),
            match r {
                Ok(n) => n as int == enc_program_state(self@).len()
                    && n <= old(buffer)@.len()
                    && final(buffer)@.subrange(0, n as int) == enc_program_state(self@)
                    && (forall|i: int| n <= i < final(buffer)@.len()
                        ==> final(buffer)@[i] == old(buffer)@[i]),
                Err(e) => e == BullPosterError::BufferTooSmall
                    && enc_program_state(self@).len() > old(buffer)@.len()
                    && final(buffer)@ == old(buffer)@,
            },
    {
        let rec = self.encode_vec();
        write_record(buffer, &rec)
    }

    /// Decode from a buffer, reporting the bytes consumed.
    pub fn custom_deserialize(data: &[u8]) -> (r: Result<(Self, usize), BullPosterError>)
        ensures
            match r {
                Ok((c, n)) => c.wf() && dec_program_state(data@) == Some((c@, n as int)),
                Err(e) => e == BullPosterError::MalformedRecord
                    && dec_program_state(data@).is_none(),
            },
    {
    let (x0, p1) = match read_u64(data, 0) {
        Ok(x) => x,
        Err(e) => {
            return Err(e);
        },
    };
    let (x1, p2) = match read_u64(data, p1) {
        Ok(x) => x,
        Err(e) => {
            return Err(e);
        },
    };
    let (x2, p3) = match read_u64(data, p2) {
        Ok(x) => x,
        Err(e) => {
            return Err(e);
        },
    };
    let (x3, p4) = match read_addr(data, p3) {
        Ok(x) => x,
        Err(e) => {
            return Err(e);
        },
    };
    let (x4, p5) = match read_u64(data, p4) {
        Ok(x) => x,
        Err(e) => {
            return Err(e);
        },
    };
    let (x5, p6) = match read_addr(data, p5) {
        Ok(x) => x,
        Err(e) => {
            return Err(e);
        },
    };
    let (x6, p7) = match read_u64(data, p6) {
        Ok(x) => x,
        Err(e) => {
            return Err(e);
        },
    };
    let (x7, p8) = match read_addr(data, p7) {
        Ok(x) => x,
        Err(e) => {
            return Err(e);
        },
    };
    let (x8, p9) = match read_u64(data, p8) {
        Ok(x) => x,
        Err(e) => {
            return Err(e);
        },
    };
    let (x9, p10) = match read_addr(data, p9) {
        Ok(x) => x,
        Err(e) => {
            return Err(e);
        },
    };
    let (x10, p11) = match read_u64(data, p10) {
        Ok(x) => x,
        Err(e) => {
            return Err(e);
        },
    };
    let (x11, p12) = match read_addr(data, p11) {
        Ok(x) => x,
        Err(e) => {
            return Err(e);
        },
    };
        Ok((ProgramStateCard {
            registered_programs_count: x0,
            registered_users_count: x1,
            pool4_sequence: x2,
            pool4_last_competition: x3,
            pool6_sequence: x4,
            pool6_last_competition: x5,
            pool12_sequence: x6,
            pool12_last_competition: x7,
            pool24_sequence: x8,
            pool24_last_competition: x9,
            pvp_sequence: x10,
            pvp_last_competition: x11,
        }, p12))
    }
}

/// Each trailing field of an encoded record parses back at its own
/// offset; the leading fields stay intact in front of them.
#[verifier::rlimit(100)]
proof fn lemma_program_state_fields_back(v: ProgramStateCardView, rest: Seq<u8>)
    requires
        wf_program_state(v),
    ensures
        dec_u64(enc_program_state(v) + rest, (8 + 8 + 8 + 32 + 8 + 32) as int)
            == Some((v.pool12_sequence, (8 + 8 + 8 + 32 + 8 + 32 + 8) as int)),
        dec_addr(enc_program_state(v) + rest, (8 + 8 + 8 + 32 + 8 + 32 + 8) as int)
            == Some((v.pool12_last_competition, (8 + 8 + 8 + 32 + 8 + 32 + 8 + 32) as int)),
        dec_u64(enc_program_state(v) + rest, (8 + 8 + 8 + 32 + 8 + 32 + 8 + 32) as int)
            == Some((v.pool24_sequence, (8 + 8 + 8 + 32 + 8 + 32 + 8 + 32 + 8) as int)),
        dec_addr(enc_program_state(v) + rest, (8 + 8 + 8 + 32 + 8 + 32 + 8 + 32 + 8) as int)
            == Some((v.pool24_last_competition, (8 + 8 + 8 + 32 + 8 + 32 + 8 + 32 + 8 + 32) as int)),
        dec_u64(enc_program_state(v) + rest, (8 + 8 + 8 + 32 + 8 + 32 + 8 + 32 + 8 + 32) as int)
            == Some((v.pvp_sequence, (8 + 8 + 8 + 32 + 8 + 32 + 8 + 32 + 8 + 32 + 8) as int)),
        dec_addr(enc_program_state(v) + rest, (8 + 8 + 8 + 32 + 8 + 32 + 8 + 32 + 8 + 32 + 8) as int)
            == Some((v.pvp_last_competition, (8 + 8 + 8 + 32 + 8 + 32 + 8 + 32 + 8 + 32 + 8 + 32) as int)),
        (enc_program_state(v) + rest).subrange(0, (8 + 8 + 8 + 32 + 8 + 32) as int)
            == u64_le_bytes(v.registered_programs_count) + u64_le_bytes(v.registered_users_count) + u64_le_bytes(v.pool4_sequence) + enc_addr(v.pool4_last_competition) + u64_le_bytes(v.pool6_sequence) + enc_addr(v.pool6_last_competition),
        enc_program_state(v).len() == (8 + 8 + 8 + 32 + 8 + 32 + 8 + 32 + 8 + 32 + 8 + 32) as int,
        (8 + 8 + 8 + 32 + 8 + 32) as int <= (enc_program_state(v) + rest).len(),
{
    reveal(enc_program_state);
    let e = enc_program_state(v);
    let s = e + rest;
    assert(s.subrange(0, e.len() as int) =~= e);
    let a1 = u64_le_bytes(v.registered_programs_count);
    let a2 = a1 + u64_le_bytes(v.registered_users_count);
    let a3 = a2 + u64_le_bytes(v.pool4_sequence);
    let a4 = a3 + enc_addr(v.pool4_last_competition);
    let a5 = a4 + u64_le_bytes(v.pool6_sequence);
    let a6 = a5 + enc_addr(v.pool6_last_competition);
    let a7 = a6 + u64_le_bytes(v.pool12_sequence);
    let a8 = a7 + enc_addr(v.pool12_last_competition);
    let a9 = a8 + u64_le_bytes(v.pool24_sequence);
    let a10 = a9 + enc_addr(v.pool24_last_competition);
    let a11 = a10 + u64_le_bytes(v.pvp_sequence);
    let a12 = a11 + enc_addr(v.pvp_last_competition);
    assert(a12 == e);
    lemma_split_concat(s, 0, a11, enc_addr(v.pvp_last_competition));
    lemma_dec_addr_of_enc(s, a11.len() as int, v.pvp_last_competition);
    lemma_split_concat(s, 0, a10, u64_le_bytes(v.pvp_sequence));
    lemma_dec_u64_of_enc(s, a10.len() as int, v.pvp_sequence);
    lemma_split_concat(s, 0, a9, enc_addr(v.pool24_last_competition));
    lemma_dec_addr_of_enc(s, a9.len() as int, v.pool24_last_competition);
    lemma_split_concat(s, 0, a8, u64_le_bytes(v.pool24_sequence));
    lemma_dec_u64_of_enc(s, a8.len() as int, v.pool24_sequence);
    lemma_split_concat(s, 0, a7, enc_addr(v.pool12_last_competition));
    lemma_dec_addr_of_enc(s, a7.len() as int, v.pool12_last_competition);
    lemma_split_concat(s, 0, a6, u64_le_bytes(v.pool12_sequence));
    lemma_dec_u64_of_enc(s, a6.len() as int, v.pool12_sequence);
}

/// Each leading field of a buffer that starts with the leading
/// fields' encodings parses back at its own offset.
#[verifier::rlimit(100)]
proof fn lemma_program_state_fields_front(v: ProgramStateCardView, s: Seq<u8>)
    requires
        wf_program_state(v),
        s.subrange(0, (8 + 8 + 8 + 32 + 8 + 32) as int)
            == u64_le_bytes(v.registered_programs_count) + u64_le_bytes(v.registered_users_count) + u64_le_bytes(v.pool4_sequence) + enc_addr(v.pool4_last_competition) + u64_le_bytes(v.pool6_sequence) + enc_addr(v.pool6_last_competition),
        (8 + 8 + 8 + 32 + 8 + 32) as int <= s.len(),
    ensures
        dec_u64(s, (0) as int)
            == Some((v.registered_programs_count, (8) as int)),
        dec_u64(s, (8) as int)
            == Some((v.registered_users_count, (8 + 8) as int)),
        dec_u64(s, (8 + 8) as int)
            == Some((v.pool4_sequence, (8 + 8 + 8) as int)),
        dec_addr(s, (8 + 8 + 8) as int)
            == Some((v.pool4_last_competition, (8 + 8 + 8 + 32) as int)),
        dec_u64(s, (8 + 8 + 8 + 32) as int)
            == Some((v.pool6_sequence, (8 + 8 + 8 + 32 + 8) as int)),
        dec_addr(s, (8 + 8 + 8 + 32 + 8) as int)
            == Some((v.pool6_last_competition, (8 + 8 + 8 + 32 + 8 + 32) as int)),
{
    let a1 = u64_le_bytes(v.registered_programs_count);
    let a2 = a1 + u64_le_bytes(v.registered_users_count);
    let a3 = a2 + u64_le_bytes(v.pool4_sequence);
    let a4 = a3 + enc_addr(v.pool4_last_competition);
    let a5 = a4 + u64_le_bytes(v.pool6_sequence);
    let a6 = a5 + enc_addr(v.pool6_last_competition);
    assert(s.subrange(0, a6.len() as int) == a6);
    lemma_split_concat(s, 0, a5, enc_addr(v.pool6_last_competition));
    lemma_dec_addr_of_enc(s, a5.len() as int, v.pool6_last_competition);
    lemma_split_concat(s, 0, a4, u64_le_bytes(v.pool6_sequence));
    lemma_dec_u64_of_enc(s, a4.len() as int, v.pool6_sequence);
    lemma_split_concat(s, 0, a3, enc_addr(v.pool4_last_competition));
    lemma_dec_addr_of_enc(s, a3.len() as int, v.pool4_last_competition);
    lemma_split_concat(s, 0, a2, u64_le_bytes(v.pool4_sequence));
    lemma_dec_u64_of_enc(s, a2.len() as int, v.pool4_sequence);
    lemma_split_concat(s, 0, a1, u64_le_bytes(v.registered_users_count));
    lemma_dec_u64_of_enc(s, a1.len() as int, v.registered_users_count);
    lemma_dec_u64_of_enc(s, 0, v.registered_programs_count);
}

/// A buffer whose fields all parse at their offsets parses as the
/// whole record.
proof fn lemma_program_state_eval(v: ProgramStateCardView, s: Seq<u8>)
    requires
        dec_u64(s, (0) as int)
            == Some((v.registered_programs_count, (8) as int)),
        dec_u64(s, (8) as int)
            == Some((v.registered_users_count, (8 + 8) as int)),
        dec_u64(s, (8 + 8) as int)
            == Some((v.pool4_sequence, (8 + 8 + 8) as int)),
        dec_addr(s, (8 + 8 + 8) as int)
            == Some((v.pool4_last_competition, (8 + 8 + 8 + 32) as int)),
        dec_u64(s, (8 + 8 + 8 + 32) as int)
            == Some((v.pool6_sequence, (8 + 8 + 8 + 32 + 8) as int)),
        dec_addr(s, (8 + 8 + 8 + 32 + 8) as int)
            == Some((v.pool6_last_competition, (8 + 8 + 8 + 32 + 8 + 32) as int)),
        dec_u64(s, (8 + 8 + 8 + 32 + 8 + 32) as int)
            == Some((v.pool12_sequence, (8 + 8 + 8 + 32 + 8 + 32 + 8) as int)),
        dec_addr(s, (8 + 8 + 8 + 32 + 8 + 32 + 8) as int)
            == Some((v.pool12_last_competition, (8 + 8 + 8 + 32 + 8 + 32 + 8 + 32) as int)),
        dec_u64(s, (8 + 8 + 8 + 32 + 8 + 32 + 8 + 32) as int)
            == Some((v.pool24_sequence, (8 + 8 + 8 + 32 + 8 + 32 + 8 + 32 + 8) as int)),
        dec_addr(s, (8 + 8 + 8 + 32 + 8 + 32 + 8 + 32 + 8) as int)
            == Some((v.pool24_last_competition, (8 + 8 + 8 + 32 + 8 + 32 + 8 + 32 + 8 + 32) as int)),
        dec_u64(s, (8 + 8 + 8 + 32 + 8 + 32 + 8 + 32 + 8 + 32) as int)
            == Some((v.pvp_sequence, (8 + 8 + 8 + 32 + 8 + 32 + 8 + 32 + 8 + 32 + 8) as int)),
        dec_addr(s, (8 + 8 + 8 + 32 + 8 + 32 + 8 + 32 + 8 + 32 + 8) as int)
            == Some((v.pvp_last_competition, (8 + 8 + 8 + 32 + 8 + 32 + 8 + 32 + 8 + 32 + 8 + 32) as int)),
    ensures
        dec_program_state(s) == Some((v, (8 + 8 + 8 + 32 + 8 + 32 + 8 + 32 + 8 + 32 + 8 + 32) as int)),
{
}

/// Round trip: a well-formed record, encoded and then decoded from any
/// sufficiently large buffer, comes back unchanged.
pub proof fn lemma_program_state_round_trip(v: ProgramStateCardView, rest: Seq<u8>)
    requires
        wf_program_state(v),
    ensures
        dec_program_state(enc_program_state(v) + rest)
            == Some((v, enc_program_state(v).len() as int)),
{
    lemma_program_state_fields_back(v, rest);
    lemma_program_state_fields_front(v, enc_program_state(v) + rest);
    lemma_program_state_eval(v, enc_program_state(v) + rest);
}

} // verus!

use crate::types::CompetitionKind;

verus! {

/// The ledger's sequence number for a competition kind.
pub open spec fn sequence_of(v: ProgramStateCardView, k: CompetitionKind) -> u64 {
    match k {
        CompetitionKind::Pool4 => v.pool4_sequence,
        CompetitionKind::Pool6 => v.pool6_sequence,
        CompetitionKind::Pool12 => v.pool12_sequence,
        CompetitionKind::Pool24 => v.pool24_sequence,
        CompetitionKind::PvP => v.pvp_sequence,
    }
}

/// The ledger's current competition address for a competition kind.
pub open spec fn last_competition_of(v: ProgramStateCardView, k: CompetitionKind) -> Seq<u8> {
    match k {
        CompetitionKind::Pool4 => v.pool4_last_competition,
        CompetitionKind::Pool6 => v.pool6_last_competition,
        CompetitionKind::Pool12 => v.pool12_last_competition,
        CompetitionKind::Pool24 => v.pool24_last_competition,
        CompetitionKind::PvP => v.pvp_last_competition,
    }
}

/// The registry after one kind's ledger entry is replaced by the given
/// sequence number and competition address; every other field is kept.
pub open spec fn with_competition(
    v: ProgramStateCardView,
    k: CompetitionKind,
    s: u64,
    a: Seq<u8>,
) -> ProgramStateCardView {
    match k {
        CompetitionKind::Pool4 => ProgramStateCardView {
            pool4_sequence: s,
            pool4_last_competition: a,
            ..v
        },
        CompetitionKind::Pool6 => ProgramStateCardView {
            pool6_sequence: s,
            pool6_last_competition: a,
            ..v
        },
        CompetitionKind::Pool12 => ProgramStateCardView {
            pool12_sequence: s,
            pool12_last_competition: a,
            ..v
        },
        CompetitionKind::Pool24 => ProgramStateCardView {
            pool24_sequence: s,
            pool24_last_competition: a,
            ..v
        },
        CompetitionKind::PvP => ProgramStateCardView {
            pvp_sequence: s,
            pvp_last_competition: a,
            ..v
        },
    }
}

impl ProgramStateCard {
    /// The sequence number last used for this competition kind.
    pub fn sequence_for(&self, k: CompetitionKind) -> (s: u64)
        ensures
            s == sequence_of(self@, k),
    {
        match k {
            CompetitionKind::Pool4 => self.pool4_sequence,
            CompetitionKind::Pool6 => self.pool6_sequence,
            CompetitionKind::Pool12 => self.pool12_sequence,
            CompetitionKind::Pool24 => self.pool24_sequence,
            CompetitionKind::PvP => self.pvp_sequence,
        }
    }

    /// The address of the kind's current competition.
    pub fn last_competition_for(&self, k: CompetitionKind) -> (a: &Addr)
        ensures
            a@ == last_competition_of(self@, k),
            self.wf() ==> a.wf(),
    {
        match k {
            CompetitionKind::Pool4 => &self.pool4_last_competition,
            CompetitionKind::Pool6 => &self.pool6_last_competition,
            CompetitionKind::Pool12 => &self.pool12_last_competition,
            CompetitionKind::Pool24 => &self.pool24_last_competition,
            CompetitionKind::PvP => &self.pvp_last_competition,
        }
    }

    /// Write one kind's ledger entry: the sequence number just used and
    /// the address of the competition created under it.
    pub fn set_competition(&mut self, k: CompetitionKind, s: u64, a: Addr)
        requires
            a.wf(),
            old(self).wf(),
        ensures
            final(self).wf(),
            final(self)@ == with_competition(old(self)@, k, s, a@),
    {
        match k {
            CompetitionKind::Pool4 => {
                self.pool4_sequence = s;
                self.pool4_last_competition = a;
            },
            CompetitionKind::Pool6 => {
                self.pool6_sequence = s;
                self.pool6_last_competition = a;
            },
            CompetitionKind::Pool12 => {
                self.pool12_sequence = s;
                self.pool12_last_competition = a;
            },
            CompetitionKind::Pool24 => {
                self.pool24_sequence = s;
                self.pool24_last_competition = a;
            },
            CompetitionKind::PvP => {
                self.pvp_sequence = s;
                self.pvp_last_competition = a;
            },
        }
    }
}

/// Sequence monotonicity: advancing one kind's ledger entry makes that
/// kind's sequence number exactly the one written, leaves every other
/// kind's entry alone, and two successive advances by one yield strictly
/// increasing sequence numbers.
pub proof fn lemma_sequence_monotonic(
    v: ProgramStateCardView,
    k: CompetitionKind,
    a1: Seq<u8>,
    a2: Seq<u8>,
)
    requires
        sequence_of(v, k) < u64::MAX - 1,
    ensures
        ({
            let s1 = (sequence_of(v, k) + 1) as u64;
            let v1 = with_competition(v, k, s1, a1);
            let s2 = (sequence_of(v1, k) + 1) as u64;
            let v2 = with_competition(v1, k, s2, a2);
            &&& sequence_of(v1, k) == s1
            &&& sequence_of(v2, k) == s2
            &&& s2 > s1 > sequence_of(v, k)
            &&& last_competition_of(v1, k) == a1
            &&& last_competition_of(v2, k) == a2
        }),
        forall|k2: CompetitionKind| k2 != k
            ==> sequence_of(with_competition(v, k, (sequence_of(v, k) + 1) as u64, a1), k2)
                == sequence_of(v, k2),
{
}

} // verus!
