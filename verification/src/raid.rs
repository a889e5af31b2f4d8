//! The raid participation record and the burn audit record.

use vstd::prelude::*;

use crate::addr::{addrs_wf, views_of, Addr};
use crate::codec::{
    dec_addr, dec_bytes, dec_u64, enc_addr, enc_bytes, lemma_dec_addr_of_enc,
    lemma_dec_bytes_of_enc, lemma_dec_u64_of_enc, lemma_subrange_of_subrange, push_addr,
    push_bytes, push_u64, read_addr, read_bytes, read_u64, u64_le_bytes, write_record,
};
use crate::error::BullPosterError;

verus! {

/// Mathematical content of a `RaidCard`.
pub ghost struct RaidCardView {
    pub competition_id: Seq<u8>,
    pub raid_program_id: Seq<u8>,
    pub raid_id: Seq<u8>,
    pub distributed_rewards: Seq<u8>,
    pub placements: Seq<u8>,
}

/// One program's participation in one competition, created when the
/// program is placed into it.
pub struct RaidCard {
    pub competition_id: Addr,
    pub raid_program_id: Addr,
    pub raid_id: Addr,
    pub distributed_rewards: Vec<u8>,
    pub placements: Vec<u8>,
}

impl View for RaidCard {
    type V = RaidCardView;

    open spec fn view(&self) -> RaidCardView {
        RaidCardView {
            competition_id: self.competition_id@,
            raid_program_id: self.raid_program_id@,
            raid_id: self.raid_id@,
            distributed_rewards: self.distributed_rewards@,
            placements: self.placements@,
        }
    }
}

/// Well-formedness of the record's content: every address holds 32
/// bytes and every variable-length field fits its 32-bit prefix.
pub open spec fn wf_raid_card(v: RaidCardView) -> bool {
    &&& v.competition_id.len() == 32
    &&& v.raid_program_id.len() == 32
    &&& v.raid_id.len() == 32
    &&& v.distributed_rewards.len() <= u32::MAX
    &&& v.placements.len() <= u32::MAX
}

/// The record's serialized form: each field's encoding in order.
#[verifier::opaque]
pub open spec fn enc_raid_card(v: RaidCardView) -> Seq<u8> {
    enc_addr(v.competition_id) + enc_addr(v.raid_program_id) + enc_addr(v.raid_id) + enc_bytes(v.distributed_rewards) + enc_bytes(v.placements)
}

/// Parse the record from the front of a buffer.
pub open spec fn dec_raid_card(s: Seq<u8>) -> Option<(RaidCardView, int)> {
    match dec_addr(s, 0) {
        None => None,
        Some((x0, p1)) => {
            match dec_addr(s, p1) {
                None => None,
                Some((x1, p2)) => {
                    match dec_addr(s, p2) {
                        None => None,
                        Some((x2, p3)) => {
                            match dec_bytes(s, p3) {
                                None => None,
                                Some((x3, p4)) => {
                                    match dec_bytes(s, p4) {
                                        None => None,
                                        Some((x4, p5)) => {
                                            Some((RaidCardView {
                                                competition_id: x0,
                                                raid_program_id: x1,
                                                raid_id: x2,
                                                distributed_rewards: x3,
                                                placements: x4,
                                            }, p5))
                                        },
                                    }
                                },
                            }
                        },
                    }
                },
            }
        },
    }
}

impl RaidCard {
    pub open spec fn wf(&self) -> bool {
        &&& wf_raid_card(self@)
        &&& self.competition_id.wf()
        &&& self.raid_program_id.wf()
        &&& self.raid_id.wf()
    }

    /// The record's encoding as a fresh byte vector.
    pub fn encode_vec(&self) -> (out: Vec<u8>)
        requires
            self.wf(),
        ensures
            out@ == enc_raid_card(self@),
    {
        proof {
            reveal(enc_raid_card);
        }
        let mut out: Vec<u8> = Vec::new();
        push_addr(&mut out, &self.competition_id);
        assert(out@ =~= enc_addr(self@.competition_id));
        push_addr(&mut out, &self.raid_program_id);
        assert(out@ =~= enc_addr(self@.competition_id) + enc_addr(self@.raid_program_id));
        push_addr(&mut out, &self.raid_id);
        assert(out@ =~= enc_addr(self@.competition_id) + enc_addr(self@.raid_program_id) + enc_addr(self@.raid_id));
        push_bytes(&mut out, &self.distributed_rewards);
        assert(out@ =~= enc_addr(self@.competition_id) + enc_addr(self@.raid_program_id) + enc_addr(self@.raid_id) + enc_bytes(self@.distributed_rewards));
        push_bytes(&mut out, &self.placements);
        assert(out@ =~= enc_addr(self@.competition_id) + enc_addr(self@.raid_program_id) + enc_addr(self@.raid_id) + enc_bytes(self@.distributed_rewards) + enc_bytes(self@.placements));
        out
    }

    /// Serialize into a fixed-capacity buffer. The capacity never
    /// changes; a record too large for it is refused whole, and bytes
    /// past the record keep their previous contents.
    pub fn custom_serialize(&self, buffer: &mut Vec<u8>) -> (r: Result<usize, BullPosterError>)
        requires
            self.wf(),
        ensures
            final(buffer)@.len() == old(buffer)@.len(),
            match r {
                Ok(n) => n as int == enc_raid_card(self@).len()
                    && n <= old(buffer)@.len()
                    && final(buffer)@.subrange(0, n as int) == enc_raid_card(self@)
                    && (forall|i: int| n <= i < final(buffer)@.len()
                        ==> final(buffer)@[i] == old(buffer)@[i]),
                Err(e) => e == BullPosterError::BufferTooSmall
                    && enc_raid_card(self@).len() > old(buffer)@.len()
                    && final(buffer)@ == old(buffer)@,
            },
    {
        let rec = self.encode_vec();
        write_record(buffer, &rec)
    }

    /// Decode from a buffer, reporting the bytes consumed.
    pub fn custom_deserialize(data: &[u8]) -> (r: Result<(Self, usize), BullPosterError>)
        ensures
            match r {
                Ok((c, n)) => c.wf() && dec_raid_card(data@) == Some((c@, n as int)),
                Err(e) => e == BullPosterError::MalformedRecord
                    && dec_raid_card(data@).is_none(),
            },
    {
    let (x0, p1) = match read_addr(data, 0) {
        Ok(x) => x,
        Err(e) => {
            return Err(e);
        },
    };
    let (x1, p2) = match read_addr(data, p1) {
        Ok(x) => x,
        Err(e) => {
            return Err(e);
        },
    };
    let (x2, p3) = match read_addr(data, p2) {
        Ok(x) => x,
        Err(e) => {
            return Err(e);
        },
    };
    let (x3, p4) = match read_bytes(data, p3) {
        Ok(x) => x,
        Err(e) => {
            return Err(e);
        },
    };
    let (x4, p5) = match read_bytes(data, p4) {
        Ok(x) => x,
        Err(e) => {
            return Err(e);
        },
    };
        Ok((RaidCard {
            competition_id: x0,
            raid_program_id: x1,
            raid_id: x2,
            distributed_rewards: x3,
            placements: x4,
        }, p5))
    }
}

/// Round trip: a well-formed record, encoded and then decoded from any
/// sufficiently large buffer, comes back unchanged.
pub proof fn lemma_raid_card_round_trip(v: RaidCardView, rest: Seq<u8>)
    requires
        wf_raid_card(v),
    ensures
        dec_raid_card(enc_raid_card(v) + rest)
            == Some((v, enc_raid_card(v).len() as int)),
{
    reveal(enc_raid_card);
    let e = enc_raid_card(v);
    let s = e + rest;
    assert(s.subrange(0, e.len() as int) =~= e);
    let p0: int = 0;
    let p1: int = p0 + 32;
    lemma_subrange_of_subrange(s, 0, e.len() as int, p0, p1);
    assert(e.subrange(p0, p1) =~= enc_addr(v.competition_id));
    lemma_dec_addr_of_enc(s, p0, v.competition_id);
    let p2: int = p1 + 32;
    lemma_subrange_of_subrange(s, 0, e.len() as int, p1, p2);
    assert(e.subrange(p1, p2) =~= enc_addr(v.raid_program_id));
    lemma_dec_addr_of_enc(s, p1, v.raid_program_id);
    let p3: int = p2 + 32;
    lemma_subrange_of_subrange(s, 0, e.len() as int, p2, p3);
    assert(e.subrange(p2, p3) =~= enc_addr(v.raid_id));
    lemma_dec_addr_of_enc(s, p2, v.raid_id);
    let p4: int = p3 + enc_bytes(v.distributed_rewards).len() as int;
    lemma_subrange_of_subrange(s, 0, e.len() as int, p3, p4);
    assert(e.subrange(p3, p4) =~= enc_bytes(v.distributed_rewards));
    lemma_dec_bytes_of_enc(s, p3, v.distributed_rewards);
    let p5: int = p4 + enc_bytes(v.placements).len() as int;
    lemma_subrange_of_subrange(s, 0, e.len() as int, p4, p5);
    assert(e.subrange(p4, p5) =~= enc_bytes(v.placements));
    lemma_dec_bytes_of_enc(s, p4, v.placements);
}

/// Mathematical content of a `BurnCard`.
pub ghost struct BurnCardView {
    pub raid_program_id: Seq<u8>,
    pub competition_id: Seq<u8>,
    pub user_id: Seq<u8>,
    pub burn_amount: u64,
    pub timestamp: u64,
}

/// The append-only audit record of one burn event.
pub struct BurnCard {
    pub raid_program_id: Addr,
    pub competition_id: Addr,
    pub user_id: Addr,
    pub burn_amount: u64,
    pub timestamp: u64,
}

impl View for BurnCard {
    type V = BurnCardView;

    open spec fn view(&self) -> BurnCardView {
        BurnCardView {
            raid_program_id: self.raid_program_id@,
            competition_id: self.competition_id@,
            user_id: self.user_id@,
            burn_amount: self.burn_amount,
            timestamp: self.timestamp,
        }
    }
}

/// Well-formedness of the record's content: every address holds 32
/// bytes and every variable-length field fits its 32-bit prefix.
pub open spec fn wf_burn_card(v: BurnCardView) -> bool {
    &&& v.raid_program_id.len() == 32
    &&& v.competition_id.len() == 32
    &&& v.user_id.len() == 32
}

/// The record's serialized form: each field's encoding in order.
#[verifier::opaque]
pub open spec fn enc_burn_card(v: BurnCardView) -> Seq<u8> {
    enc_addr(v.raid_program_id) + enc_addr(v.competition_id) + enc_addr(v.user_id) + u64_le_bytes(v.burn_amount) + u64_le_bytes(v.timestamp)
}

/// Parse the record from the front of a buffer.
pub open spec fn dec_burn_card(s: Seq<u8>) -> Option<(BurnCardView, int)> {
    match dec_addr(s, 0) {
        None => None,
        Some((x0, p1)) => {
            match dec_addr(s, p1) {
                None => None,
                Some((x1, p2)) => {
                    match dec_addr(s, p2) {
                        None => None,
                        Some((x2, p3)) => {
                            match dec_u64(s, p3) {
                                None => None,
                                Some((x3, p4)) => {
                                    match dec_u64(s, p4) {
                                        None => None,
                                        Some((x4, p5)) => {
                                            Some((BurnCardView {
                                                raid_program_id: x0,
                                                competition_id: x1,
                                                user_id: x2,
                                                burn_amount: x3,
                                                timestamp: x4,
                                            }, p5))
                                        },
                                    }
                                },
                            }
                        },
                    }
                },
            }
        },
    }
}

impl BurnCard {
    pub open spec fn wf(&self) -> bool {
        &&& wf_burn_card(self@)
        &&& self.raid_program_id.wf()
        &&& self.competition_id.wf()
        &&& self.user_id.wf()
    }

    /// The record's encoding as a fresh byte vector.
    pub fn encode_vec(&self) -> (out: Vec<u8>)
        requires
            self.wf(),
        ensures
            out@ == enc_burn_card(self@),
    {
        proof {
            reveal(enc_burn_card);
        }
        let mut out: Vec<u8> = Vec::new();
        push_addr(&mut out, &self.raid_program_id);
        assert(out@ =~= enc_addr(self@.raid_program_id));
        push_addr(&mut out, &self.competition_id);
        assert(out@ =~= enc_addr(self@.raid_program_id) + enc_addr(self@.competition_id));
        push_addr(&mut out, &self.user_id);
        assert(out@ =~= enc_addr(self@.raid_program_id) + enc_addr(self@.competition_id) + enc_addr(self@.user_id));
        push_u64(&mut out, self.burn_amount);
        assert(out@ =~= enc_addr(self@.raid_program_id) + enc_addr(self@.competition_id) + enc_addr(self@.user_id) + u64_le_bytes(self@.burn_amount));
        push_u64(&mut out, self.timestamp);
        assert(out@ =~= enc_addr(self@.raid_program_id) + enc_addr(self@.competition_id) + enc_addr(self@.user_id) + u64_le_bytes(self@.burn_amount) + u64_le_bytes(self@.timestamp));
        out
    }

    /// Serialize into a fixed-capacity buffer. The capacity never
    /// changes; a record too large for it is refused whole, and bytes
    /// past the record keep their previous contents.
    pub fn custom_serialize(&self, buffer: &mut Vec<u8>) -> (r: Result<usize, BullPosterError>)
        requires
            self.wf(),
        ensures
            final(buffer)@.len() == old(buffer)@.len(),
            match r {
                Ok(n) => n as int == enc_burn_card(self@).len()
                    && n <= old(buffer)@.len()
                    && final(buffer)@.subrange(0, n as int) == enc_burn_card(self@)
                    && (forall|i: int| n <= i < final(buffer)@.len()
                        ==> final(buffer)@[i] == old(buffer)@[i]),
                Err(e) => e == BullPosterError::BufferTooSmall
                    && enc_burn_card(self@).len() > old(buffer)@.len()
                    && final(buffer)@ == old(buffer)@,
            },
    {
        let rec = self.encode_vec();
        write_record(buffer, &rec)
    }

    /// Decode from a buffer, reporting the bytes consumed.
    pub fn custom_deserialize(data: &[u8]) -> (r: Result<(Self, usize), BullPosterError>)
        ensures
            match r {
                Ok((c, n)) => c.wf() && dec_burn_card(data@) == Some((c@, n as int)),
                Err(e) => e == BullPosterError::MalformedRecord
                    && dec_burn_card(data@).is_none(),
            },
    {
    let (x0, p1) = match read_addr(data, 0) {
        Ok(x) => x,
        Err(e) => {
            return Err(e);
        },
    };
    let (x1, p2) = match read_addr(data, p1) {
        Ok(x) => x,
        Err(e) => {
            return Err(e);
        },
    };
    let (x2, p3) = match read_addr(data, p2) {
        Ok(x) => x,
        Err(e) => {
            return Err(e);
        },
    };
    let (x3, p4) = match read_u64(data, p3) {
        Ok(x) => x,
        Err(e) => {
            return Err(e);
        },
    };
    let (x4, p5) = match read_u64(data, p4) {
        Ok(x) => x,
        Err(e) => {
            return Err(e);
        },
    };
        Ok((BurnCard {
            raid_program_id: x0,
            competition_id: x1,
            user_id: x2,
            burn_amount: x3,
            timestamp: x4,
        }, p5))
    }
}

/// Round trip: a well-formed record, encoded and then decoded from any
/// sufficiently large buffer, comes back unchanged.
pub proof fn lemma_burn_card_round_trip(v: BurnCardView, rest: Seq<u8>)
    requires
        wf_burn_card(v),
    ensures
        dec_burn_card(enc_burn_card(v) + rest)
            == Some((v, enc_burn_card(v).len() as int)),
{
    reveal(enc_burn_card);
    let e = enc_burn_card(v);
    let s = e + rest;
    assert(s.subrange(0, e.len() as int) =~= e);
    let p0: int = 0;
    let p1: int = p0 + 32;
    lemma_subrange_of_subrange(s, 0, e.len() as int, p0, p1);
    assert(e.subrange(p0, p1) =~= enc_addr(v.raid_program_id));
    lemma_dec_addr_of_enc(s, p0, v.raid_program_id);
    let p2: int = p1 + 32;
    lemma_subrange_of_subrange(s, 0, e.len() as int, p1, p2);
    assert(e.subrange(p1, p2) =~= enc_addr(v.competition_id));
    lemma_dec_addr_of_enc(s, p1, v.competition_id);
    let p3: int = p2 + 32;
    lemma_subrange_of_subrange(s, 0, e.len() as int, p2, p3);
    assert(e.subrange(p2, p3) =~= enc_addr(v.user_id));
    lemma_dec_addr_of_enc(s, p2, v.user_id);
    let p4: int = p3 + 8;
    lemma_subrange_of_subrange(s, 0, e.len() as int, p3, p4);
    assert(e.subrange(p3, p4) =~= u64_le_bytes(v.burn_amount));
    lemma_dec_u64_of_enc(s, p3, v.burn_amount);
    let p5: int = p4 + 8;
    lemma_subrange_of_subrange(s, 0, e.len() as int, p4, p5);
    assert(e.subrange(p4, p5) =~= u64_le_bytes(v.timestamp));
    lemma_dec_u64_of_enc(s, p4, v.timestamp);
}

} // verus!
