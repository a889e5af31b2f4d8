//! The registered-user record.

use vstd::prelude::*;

use crate::addr::{addrs_wf, views_of, Addr};
use crate::codec::{
    dec_addr, dec_addrs, dec_bool, dec_bytes, dec_u64, enc_addr, enc_addrs, enc_bool, enc_bytes,
    lemma_dec_addr_of_enc, lemma_dec_addrs_of_enc, lemma_dec_bool_of_enc, lemma_dec_bytes_of_enc,
    lemma_dec_u64_of_enc, lemma_split_concat, push_addr, push_addrs, push_bool, push_bytes,
    push_u64, read_addr, read_addrs, read_bool, read_bytes, read_u64, u64_le_bytes, write_record,
};
use crate::error::BullPosterError;

verus! {

/// Mathematical content of a `UserCard`.
pub ghost struct UserCardView {
    pub user_pubkey: Seq<u8>,
    pub owned_programs: Seq<Seq<u8>>,
    pub enrolled_programs: Seq<Seq<u8>>,
    pub is_conducting_raid: bool,
    pub user_email: Seq<u8>,
    pub user_dob: Seq<u8>,
    pub user_twitter_handle: Seq<u8>,
    pub total_rewards: u64,
    pub participated_raids: u64,
    pub raid_ranking: u64,
    pub engagement_score: u64,
    pub streaks: u64,
    pub profile_picture_url: Seq<u8>,
}

/// A registered user: identity, profile fields, memberships and
/// engagement counters.
pub struct UserCard {
    pub user_pubkey: Addr,
    pub owned_programs: Vec<Addr>,
    pub enrolled_programs: Vec<Addr>,
    pub is_conducting_raid: bool,
    pub user_email: Vec<u8>,
    pub user_dob: Vec<u8>,
    pub user_twitter_handle: Vec<u8>,
    pub total_rewards: u64,
    pub participated_raids: u64,
    pub raid_ranking: u64,
    pub engagement_score: u64,
    pub streaks: u64,
    pub profile_picture_url: Vec<u8>,
}

impl View for UserCard {
    type V = UserCardView;

    open spec fn view(&self) -> UserCardView {
        UserCardView {
            user_pubkey: self.user_pubkey@,
            owned_programs: views_of(self.owned_programs@),
            enrolled_programs: views_of(self.enrolled_programs@),
            is_conducting_raid: self.is_conducting_raid,
            user_email: self.user_email@,
            user_dob: self.user_dob@,
            user_twitter_handle: self.user_twitter_handle@,
            total_rewards: self.total_rewards,
            participated_raids: self.participated_raids,
            raid_ranking: self.raid_ranking,
            engagement_score: self.engagement_score,
            streaks: self.streaks,
            profile_picture_url: self.profile_picture_url@,
        }
    }
}

/// Well-formedness of the record's content: every address holds 32
/// bytes and every variable-length field fits its 32-bit prefix.
pub open spec fn wf_user_card(v: UserCardView) -> bool {
    &&& v.user_pubkey.len() == 32
    &&& v.owned_programs.len() <= u32::MAX
    &&& forall|i: int| 0 <= i < v.owned_programs.len() ==> (#[trigger] v.owned_programs[i]).len() == 32
    &&& v.enrolled_programs.len() <= u32::MAX
    &&& forall|i: int| 0 <= i < v.enrolled_programs.len() ==> (#[trigger] v.enrolled_programs[i]).len() == 32
    &&& v.user_email.len() <= u32::MAX
    &&& v.user_dob.len() <= u32::MAX
    &&& v.user_twitter_handle.len() <= u32::MAX
    &&& v.profile_picture_url.len() <= u32::MAX
}

/// The record's serialized form: each field's encoding in order.
#[verifier::opaque]
pub open spec fn enc_user_card(v: UserCardView) -> Seq<u8> {
    enc_addr(v.user_pubkey) + enc_addrs(v.owned_programs) + enc_addrs(v.enrolled_programs) + enc_bool(v.is_conducting_raid) + enc_bytes(v.user_email) + enc_bytes(v.user_dob) + enc_bytes(v.user_twitter_handle) + u64_le_bytes(v.total_rewards) + u64_le_bytes(v.participated_raids) + u64_le_bytes(v.raid_ranking) + u64_le_bytes(v.engagement_score) + u64_le_bytes(v.streaks) + enc_bytes(v.profile_picture_url)
}

/// Parse the record's leading fields.
pub open spec fn dec_user_card_front(s: Seq<u8>) -> Option<((Seq<u8>, Seq<Seq<u8>>, Seq<Seq<u8>>, bool, Seq<u8>, Seq<u8>, Seq<u8>), int)> {
    match dec_addr(s, 0) {
        None => None,
        Some((y0, q1)) => {
            match dec_addrs(s, q1) {
                None => None,
                Some((y1, q2)) => {
                    match dec_addrs(s, q2) {
                        None => None,
                        Some((y2, q3)) => {
                            match dec_bool(s, q3) {
                                None => None,
                                Some((y3, q4)) => {
                                    match dec_bytes(s, q4) {
                                        None => None,
                                        Some((y4, q5)) => {
                                            match dec_bytes(s, q5) {
                                                None => None,
                                                Some((y5, q6)) => {
                                                    match dec_bytes(s, q6) {
                                                        None => None,
                                                        Some((y6, q7)) => {
                                                            Some(((y0, y1, y2, y3, y4, y5, y6), q7))
                                                        },
                                                    }
                                                },
                                            }
                                        },
                                    }
                                },
                            }
                        },
                    }
                },
            }
        },
    }
}

/// Parse the record's trailing fields, from `pos`.
pub open spec fn dec_user_card_back(s: Seq<u8>, pos: int) -> Option<((u64, u64, u64, u64, u64, Seq<u8>), int)> {
    match dec_u64(s, pos) {
        None => None,
        Some((y0, q1)) => {
            match dec_u64(s, q1) {
                None => None,
                Some((y1, q2)) => {
                    match dec_u64(s, q2) {
                        None => None,
                        Some((y2, q3)) => {
                            match dec_u64(s, q3) {
                                None => None,
                                Some((y3, q4)) => {
                                    match dec_u64(s, q4) {
                                        None => None,
                                        Some((y4, q5)) => {
                                            match dec_bytes(s, q5) {
                                                None => None,
                                                Some((y5, q6)) => {
                                                    Some(((y0, y1, y2, y3, y4, y5), q6))
                                                },
                                            }
                                        },
                                    }
                                },
                            }
                        },
                    }
                },
            }
        },
    }
}

/// Parse the record from the front of a buffer.
pub open spec fn dec_user_card(s: Seq<u8>) -> Option<(UserCardView, int)> {
    match dec_user_card_front(s) {
        None => None,
        Some((f, p)) => {
            match dec_user_card_back(s, p) {
                None => None,
                Some((b, p2)) => Some((UserCardView {
                    user_pubkey: f.0,
                    owned_programs: f.1,
                    enrolled_programs: f.2,
                    is_conducting_raid: f.3,
                    user_email: f.4,
                    user_dob: f.5,
                    user_twitter_handle: f.6,
                    total_rewards: b.0,
                    participated_raids: b.1,
                    raid_ranking: b.2,
                    engagement_score: b.3,
                    streaks: b.4,
                    profile_picture_url: b.5,
                }, p2)),
            }
        },
    }
}

impl UserCard {
    pub open spec fn wf(&self) -> bool {
        &&& wf_user_card(self@)
        &&& self.user_pubkey.wf()
        &&& addrs_wf(self.owned_programs@)
        &&& addrs_wf(self.enrolled_programs@)
    }

    /// The record's encoding as a fresh byte vector.
    pub fn encode_vec(&self) -> (out: Vec<u8>)
        requires
            self.wf(),
        ensures
            out@ == enc_user_card(self@),
    {
        proof {
            reveal(enc_user_card);
        }
        let mut out: Vec<u8> = Vec::new();
        push_addr(&mut out, &self.user_pubkey);
        assert(out@ =~= enc_addr(self@.user_pubkey));
        push_addrs(&mut out, &self.owned_programs);
        assert(out@ =~= enc_addr(self@.user_pubkey) + enc_addrs(self@.owned_programs));
        push_addrs(&mut out, &self.enrolled_programs);
        assert(out@ =~= enc_addr(self@.user_pubkey) + enc_addrs(self@.owned_programs) + enc_addrs(self@.enrolled_programs));
        push_bool(&mut out, self.is_conducting_raid);
        assert(out@ =~= enc_addr(self@.user_pubkey) + enc_addrs(self@.owned_programs) + enc_addrs(self@.enrolled_programs) + enc_bool(self@.is_conducting_raid));
        push_bytes(&mut out, &self.user_email);
        assert(out@ =~= enc_addr(self@.user_pubkey) + enc_addrs(self@.owned_programs) + enc_addrs(self@.enrolled_programs) + enc_bool(self@.is_conducting_raid) + enc_bytes(self@.user_email));
        push_bytes(&mut out, &self.user_dob);
        assert(out@ =~= enc_addr(self@.user_pubkey) + enc_addrs(self@.owned_programs) + enc_addrs(self@.enrolled_programs) + enc_bool(self@.is_conducting_raid) + enc_bytes(self@.user_email) + enc_bytes(self@.user_dob));
        push_bytes(&mut out, &self.user_twitter_handle);
        assert(out@ =~= enc_addr(self@.user_pubkey) + enc_addrs(self@.owned_programs) + enc_addrs(self@.enrolled_programs) + enc_bool(self@.is_conducting_raid) + enc_bytes(self@.user_email) + enc_bytes(self@.user_dob) + enc_bytes(self@.user_twitter_handle));
        push_u64(&mut out, self.total_rewards);
        assert(out@ =~= enc_addr(self@.user_pubkey) + enc_addrs(self@.owned_programs) + enc_addrs(self@.enrolled_programs) + enc_bool(self@.is_conducting_raid) + enc_bytes(self@.user_email) + enc_bytes(self@.user_dob) + enc_bytes(self@.user_twitter_handle) + u64_le_bytes(self@.total_rewards));
        push_u64(&mut out, self.participated_raids);
        assert(out@ =~= enc_addr(self@.user_pubkey) + enc_addrs(self@.owned_programs) + enc_addrs(self@.enrolled_programs) + enc_bool(self@.is_conducting_raid) + enc_bytes(self@.user_email) + enc_bytes(self@.user_dob) + enc_bytes(self@.user_twitter_handle) + u64_le_bytes(self@.total_rewards) + u64_le_bytes(self@.participated_raids));
        push_u64(&mut out, self.raid_ranking);
        assert(out@ =~= enc_addr(self@.user_pubkey) + enc_addrs(self@.owned_programs) + enc_addrs(self@.enrolled_programs) + enc_bool(self@.is_conducting_raid) + enc_bytes(self@.user_email) + enc_bytes(self@.user_dob) + enc_bytes(self@.user_twitter_handle) + u64_le_bytes(self@.total_rewards) + u64_le_bytes(self@.participated_raids) + u64_le_bytes(self@.raid_ranking));
        push_u64(&mut out, self.engagement_score);
        assert(out@ =~= enc_addr(self@.user_pubkey) + enc_addrs(self@.owned_programs) + enc_addrs(self@.enrolled_programs) + enc_bool(self@.is_conducting_raid) + enc_bytes(self@.user_email) + enc_bytes(self@.user_dob) + enc_bytes(self@.user_twitter_handle) + u64_le_bytes(self@.total_rewards) + u64_le_bytes(self@.participated_raids) + u64_le_bytes(self@.raid_ranking) + u64_le_bytes(self@.engagement_score));
        push_u64(&mut out, self.streaks);
        assert(out@ =~= enc_addr(self@.user_pubkey) + enc_addrs(self@.owned_programs) + enc_addrs(self@.enrolled_programs) + enc_bool(self@.is_conducting_raid) + enc_bytes(self@.user_email) + enc_bytes(self@.user_dob) + enc_bytes(self@.user_twitter_handle) + u64_le_bytes(self@.total_rewards) + u64_le_bytes(self@.participated_raids) + u64_le_bytes(self@.raid_ranking) + u64_le_bytes(self@.engagement_score) + u64_le_bytes(self@.streaks));
        push_bytes(&mut out, &self.profile_picture_url);
        assert(out@ =~= enc_addr(self@.user_pubkey) + enc_addrs(self@.owned_programs) + enc_addrs(self@.enrolled_programs) + enc_bool(self@.is_conducting_raid) + enc_bytes(self@.user_email) + enc_bytes(self@.user_dob) + enc_bytes(self@.user_twitter_handle) + u64_le_bytes(self@.total_rewards) + u64_le_bytes(self@.participated_raids) + u64_le_bytes(self@.raid_ranking) + u64_le_bytes(self@.engagement_score) + u64_le_bytes(self@.streaks) + enc_bytes(self@.profile_picture_url));
        out
    }

    /// Serialize into a fixed-capacity buffer. The capacity never
    /// changes; a record too large for it is refused whole, and bytes
    /// past the record keep their previous contents.
    pub fn custom_serialize(&self, buffer: &mut Vec<u8>) -> (r: Result<usize, BullPosterError>)
        requires
            self.wf(),
        ensures
            final(buffer)@.len() == old(buffer)@.len(),
            match r {
                Ok(n) => n as int == enc_user_card(self@).len()
                    && n <= old(buffer)@.len()
                    && final(buffer)@.subrange(0, n as int) == enc_user_card(self@)
                    && (forall|i: int| n <= i < final(buffer)@.len()
                        ==> final(buffer)@[i] == old(buffer)@[i]),
                Err(e) => e == BullPosterError::BufferTooSmall
                    && enc_user_card(self@).len() > old(buffer)@.len()
                    && final(buffer)@ == old(buffer)@,
            },
    {
        let rec = self.encode_vec();
        write_record(buffer, &rec)
    }

    /// Decode from a buffer, reporting the bytes consumed.
    pub fn custom_deserialize(data: &[u8]) -> (r: Result<(Self, usize), BullPosterError>)
        ensures
            match r {
                Ok((c, n)) => c.wf() && dec_user_card(data@) == Some((c@, n as int)),
                Err(e) => e == BullPosterError::MalformedRecord
                    && dec_user_card(data@).is_none(),
            },
    {
    let (x0, p1) = match read_addr(data, 0) {
        Ok(x) => x,
        Err(e) => {
            return Err(e);
        },
    };
    let (x1, p2) = match read_addrs(data, p1) {
        Ok(x) => x,
        Err(e) => {
            return Err(e);
        },
    };
    let (x2, p3) = match read_addrs(data, p2) {
        Ok(x) => x,
        Err(e) => {
            return Err(e);
        },
    };
    let (x3, p4) = match read_bool(data, p3) {
        Ok(x) => x,
        Err(e) => {
            return Err(e);
        },
    };
    let (x4, p5) = match read_bytes(data, p4) {
        Ok(x) => x,
        Err(e) => {
            return Err(e);
        },
    };
    let (x5, p6) = match read_bytes(data, p5) {
        Ok(x) => x,
        Err(e) => {
            return Err(e);
        },
    };
    let (x6, p7) = match read_bytes(data, p6) {
        Ok(x) => x,
        Err(e) => {
            return Err(e);
        },
    };
    let (x7, p8) = match read_u64(data, p7) {
        Ok(x) => x,
        Err(e) => {
            return Err(e);
        },
    };
    let (x8, p9) = match read_u64(data, p8) {
        Ok(x) => x,
        Err(e) => {
            return Err(e);
        },
    };
    let (x9, p10) = match read_u64(data, p9) {
        Ok(x) => x,
        Err(e) => {
            return Err(e);
        },
    };
    let (x10, p11) = match read_u64(data, p10) {
        Ok(x) => x,
        Err(e) => {
            return Err(e);
        },
    };
    let (x11, p12) = match read_u64(data, p11) {
        Ok(x) => x,
        Err(e) => {
            return Err(e);
        },
    };
    let (x12, p13) = match read_bytes(data, p12) {
        Ok(x) => x,
        Err(e) => {
            return Err(e);
        },
    };
        Ok((UserCard {
            user_pubkey: x0,
            owned_programs: x1,
            enrolled_programs: x2,
            is_conducting_raid: x3,
            user_email: x4,
            user_dob: x5,
            user_twitter_handle: x6,
            total_rewards: x7,
            participated_raids: x8,
            raid_ranking: x9,
            engagement_score: x10,
            streaks: x11,
            profile_picture_url: x12,
        }, p13))
    }
}

/// Each trailing field of an encoded record parses back at its own
/// offset; the leading fields stay intact in front of them.
#[verifier::rlimit(100)]
proof fn lemma_user_card_fields_back(v: UserCardView, rest: Seq<u8>)
    requires
        wf_user_card(v),
    ensures
        dec_u64(enc_user_card(v) + rest, (32 + enc_addrs(v.owned_programs).len() + enc_addrs(v.enrolled_programs).len() + 1 + enc_bytes(v.user_email).len() + enc_bytes(v.user_dob).len() + enc_bytes(v.user_twitter_handle).len()) as int)
            == Some((v.total_rewards, (32 + enc_addrs(v.owned_programs).len() + enc_addrs(v.enrolled_programs).len() + 1 + enc_bytes(v.user_email).len() + enc_bytes(v.user_dob).len() + enc_bytes(v.user_twitter_handle).len() + 8) as int)),
        dec_u64(enc_user_card(v) + rest, (32 + enc_addrs(v.owned_programs).len() + enc_addrs(v.enrolled_programs).len() + 1 + enc_bytes(v.user_email).len() + enc_bytes(v.user_dob).len() + enc_bytes(v.user_twitter_handle).len() + 8) as int)
            == Some((v.participated_raids, (32 + enc_addrs(v.owned_programs).len() + enc_addrs(v.enrolled_programs).len() + 1 + enc_bytes(v.user_email).len() + enc_bytes(v.user_dob).len() + enc_bytes(v.user_twitter_handle).len() + 8 + 8) as int)),
        dec_u64(enc_user_card(v) + rest, (32 + enc_addrs(v.owned_programs).len() + enc_addrs(v.enrolled_programs).len() + 1 + enc_bytes(v.user_email).len() + enc_bytes(v.user_dob).len() + enc_bytes(v.user_twitter_handle).len() + 8 + 8) as int)
            == Some((v.raid_ranking, (32 + enc_addrs(v.owned_programs).len() + enc_addrs(v.enrolled_programs).len() + 1 + enc_bytes(v.user_email).len() + enc_bytes(v.user_dob).len() + enc_bytes(v.user_twitter_handle).len() + 8 + 8 + 8) as int)),
        dec_u64(enc_user_card(v) + rest, (32 + enc_addrs(v.owned_programs).len() + enc_addrs(v.enrolled_programs).len() + 1 + enc_bytes(v.user_email).len() + enc_bytes(v.user_dob).len() + enc_bytes(v.user_twitter_handle).len() + 8 + 8 + 8) as int)
            == Some((v.engagement_score, (32 + enc_addrs(v.owned_programs).len() + enc_addrs(v.enrolled_programs).len() + 1 + enc_bytes(v.user_email).len() + enc_bytes(v.user_dob).len() + enc_bytes(v.user_twitter_handle).len() + 8 + 8 + 8 + 8) as int)),
        dec_u64(enc_user_card(v) + rest, (32 + enc_addrs(v.owned_programs).len() + enc_addrs(v.enrolled_programs).len() + 1 + enc_bytes(v.user_email).len() + enc_bytes(v.user_dob).len() + enc_bytes(v.user_twitter_handle).len() + 8 + 8 + 8 + 8) as int)
            == Some((v.streaks, (32 + enc_addrs(v.owned_programs).len() + enc_addrs(v.enrolled_programs).len() + 1 + enc_bytes(v.user_email).len() + enc_bytes(v.user_dob).len() + enc_bytes(v.user_twitter_handle).len() + 8 + 8 + 8 + 8 + 8) as int)),
        dec_bytes(enc_user_card(v) + rest, (32 + enc_addrs(v.owned_programs).len() + enc_addrs(v.enrolled_programs).len() + 1 + enc_bytes(v.user_email).len() + enc_bytes(v.user_dob).len() + enc_bytes(v.user_twitter_handle).len() + 8 + 8 + 8 + 8 + 8) as int)
            == Some((v.profile_picture_url, (32 + enc_addrs(v.owned_programs).len() + enc_addrs(v.enrolled_programs).len() + 1 + enc_bytes(v.user_email).len() + enc_bytes(v.user_dob).len() + enc_bytes(v.user_twitter_handle).len() + 8 + 8 + 8 + 8 + 8 + enc_bytes(v.profile_picture_url).len()) as int)),
        (enc_user_card(v) + rest).subrange(0, (32 + enc_addrs(v.owned_programs).len() + enc_addrs(v.enrolled_programs).len() + 1 + enc_bytes(v.user_email).len() + enc_bytes(v.user_dob).len() + enc_bytes(v.user_twitter_handle).len()) as int)
            == enc_addr(v.user_pubkey) + enc_addrs(v.owned_programs) + enc_addrs(v.enrolled_programs) + enc_bool(v.is_conducting_raid) + enc_bytes(v.user_email) + enc_bytes(v.user_dob) + enc_bytes(v.user_twitter_handle),
        enc_user_card(v).len() == (32 + enc_addrs(v.owned_programs).len() + enc_addrs(v.enrolled_programs).len() + 1 + enc_bytes(v.user_email).len() + enc_bytes(v.user_dob).len() + enc_bytes(v.user_twitter_handle).len() + 8 + 8 + 8 + 8 + 8 + enc_bytes(v.profile_picture_url).len()) as int,
        (32 + enc_addrs(v.owned_programs).len() + enc_addrs(v.enrolled_programs).len() + 1 + enc_bytes(v.user_email).len() + enc_bytes(v.user_dob).len() + enc_bytes(v.user_twitter_handle).len()) as int <= (enc_user_card(v) + rest).len(),
{
    reveal(enc_user_card);
    let e = enc_user_card(v);
    let s = e + rest;
    assert(s.subrange(0, e.len() as int) =~= e);
    let a1 = enc_addr(v.user_pubkey);
    let a2 = a1 + enc_addrs(v.owned_programs);
    let a3 = a2 + enc_addrs(v.enrolled_programs);
    let a4 = a3 + enc_bool(v.is_conducting_raid);
    let a5 = a4 + enc_bytes(v.user_email);
    let a6 = a5 + enc_bytes(v.user_dob);
    let a7 = a6 + enc_bytes(v.user_twitter_handle);
    let a8 = a7 + u64_le_bytes(v.total_rewards);
    let a9 = a8 + u64_le_bytes(v.participated_raids);
    let a10 = a9 + u64_le_bytes(v.raid_ranking);
    let a11 = a10 + u64_le_bytes(v.engagement_score);
    let a12 = a11 + u64_le_bytes(v.streaks);
    let a13 = a12 + enc_bytes(v.profile_picture_url);
    assert(a13 == e);
    lemma_split_concat(s, 0, a12, enc_bytes(v.profile_picture_url));
    lemma_dec_bytes_of_enc(s, a12.len() as int, v.profile_picture_url);
    lemma_split_concat(s, 0, a11, u64_le_bytes(v.streaks));
    lemma_dec_u64_of_enc(s, a11.len() as int, v.streaks);
    lemma_split_concat(s, 0, a10, u64_le_bytes(v.engagement_score));
    lemma_dec_u64_of_enc(s, a10.len() as int, v.engagement_score);
    lemma_split_concat(s, 0, a9, u64_le_bytes(v.raid_ranking));
    lemma_dec_u64_of_enc(s, a9.len() as int, v.raid_ranking);
    lemma_split_concat(s, 0, a8, u64_le_bytes(v.participated_raids));
    lemma_dec_u64_of_enc(s, a8.len() as int, v.participated_raids);
    lemma_split_concat(s, 0, a7, u64_le_bytes(v.total_rewards));
    lemma_dec_u64_of_enc(s, a7.len() as int, v.total_rewards);
}

/// Each leading field of a buffer that starts with the leading
/// fields' encodings parses back at its own offset.
#[verifier::rlimit(100)]
proof fn lemma_user_card_fields_front(v: UserCardView, s: Seq<u8>)
    requires
        wf_user_card(v),
        s.subrange(0, (32 + enc_addrs(v.owned_programs).len() + enc_addrs(v.enrolled_programs).len() + 1 + enc_bytes(v.user_email).len() + enc_bytes(v.user_dob).len() + enc_bytes(v.user_twitter_handle).len()) as int)
            == enc_addr(v.user_pubkey) + enc_addrs(v.owned_programs) + enc_addrs(v.enrolled_programs) + enc_bool(v.is_conducting_raid) + enc_bytes(v.user_email) + enc_bytes(v.user_dob) + enc_bytes(v.user_twitter_handle),
        (32 + enc_addrs(v.owned_programs).len() + enc_addrs(v.enrolled_programs).len() + 1 + enc_bytes(v.user_email).len() + enc_bytes(v.user_dob).len() + enc_bytes(v.user_twitter_handle).len()) as int <= s.len(),
    ensures
        dec_addr(s, (0) as int)
            == Some((v.user_pubkey, (32) as int)),
        dec_addrs(s, (32) as int)
            == Some((v.owned_programs, (32 + enc_addrs(v.owned_programs).len()) as int)),
        dec_addrs(s, (32 + enc_addrs(v.owned_programs).len()) as int)
            == Some((v.enrolled_programs, (32 + enc_addrs(v.owned_programs).len() + enc_addrs(v.enrolled_programs).len()) as int)),
        dec_bool(s, (32 + enc_addrs(v.owned_programs).len() + enc_addrs(v.enrolled_programs).len()) as int)
            == Some((v.is_conducting_raid, (32 + enc_addrs(v.owned_programs).len() + enc_addrs(v.enrolled_programs).len() + 1) as int)),
        dec_bytes(s, (32 + enc_addrs(v.owned_programs).len() + enc_addrs(v.enrolled_programs).len() + 1) as int)
            == Some((v.user_email, (32 + enc_addrs(v.owned_programs).len() + enc_addrs(v.enrolled_programs).len() + 1 + enc_bytes(v.user_email).len()) as int)),
        dec_bytes(s, (32 + enc_addrs(v.owned_programs).len() + enc_addrs(v.enrolled_programs).len() + 1 + enc_bytes(v.user_email).len()) as int)
            == Some((v.user_dob, (32 + enc_addrs(v.owned_programs).len() + enc_addrs(v.enrolled_programs).len() + 1 + enc_bytes(v.user_email).len() + enc_bytes(v.user_dob).len()) as int)),
        dec_bytes(s, (32 + enc_addrs(v.owned_programs).len() + enc_addrs(v.enrolled_programs).len() + 1 + enc_bytes(v.user_email).len() + enc_bytes(v.user_dob).len()) as int)
            == Some((v.user_twitter_handle, (32 + enc_addrs(v.owned_programs).len() + enc_addrs(v.enrolled_programs).len() + 1 + enc_bytes(v.user_email).len() + enc_bytes(v.user_dob).len() + enc_bytes(v.user_twitter_handle).len()) as int)),
{
    let a1 = enc_addr(v.user_pubkey);
    let a2 = a1 + enc_addrs(v.owned_programs);
    let a3 = a2 + enc_addrs(v.enrolled_programs);
    let a4 = a3 + enc_bool(v.is_conducting_raid);
    let a5 = a4 + enc_bytes(v.user_email);
    let a6 = a5 + enc_bytes(v.user_dob);
    let a7 = a6 + enc_bytes(v.user_twitter_handle);
    assert(s.subrange(0, a7.len() as int) == a7);
    lemma_split_concat(s, 0, a6, enc_bytes(v.user_twitter_handle));
    lemma_dec_bytes_of_enc(s, a6.len() as int, v.user_twitter_handle);
    lemma_split_concat(s, 0, a5, enc_bytes(v.user_dob));
    lemma_dec_bytes_of_enc(s, a5.len() as int, v.user_dob);
    lemma_split_concat(s, 0, a4, enc_bytes(v.user_email));
    lemma_dec_bytes_of_enc(s, a4.len() as int, v.user_email);
    lemma_split_concat(s, 0, a3, enc_bool(v.is_conducting_raid));
    lemma_dec_bool_of_enc(s, a3.len() as int, v.is_conducting_raid);
    lemma_split_concat(s, 0, a2, enc_addrs(v.enrolled_programs));
    lemma_dec_addrs_of_enc(s, a2.len() as int, v.enrolled_programs);
    lemma_split_concat(s, 0, a1, enc_addrs(v.owned_programs));
    lemma_dec_addrs_of_enc(s, a1.len() as int, v.owned_programs);
    lemma_dec_addr_of_enc(s, 0, v.user_pubkey);
}

/// A buffer whose fields all parse at their offsets parses as the
/// whole record.
proof fn lemma_user_card_eval(v: UserCardView, s: Seq<u8>)
    requires
        dec_addr(s, (0) as int)
            == Some((v.user_pubkey, (32) as int)),
        dec_addrs(s, (32) as int)
            == Some((v.owned_programs, (32 + enc_addrs(v.owned_programs).len()) as int)),
        dec_addrs(s, (32 + enc_addrs(v.owned_programs).len()) as int)
            == Some((v.enrolled_programs, (32 + enc_addrs(v.owned_programs).len() + enc_addrs(v.enrolled_programs).len()) as int)),
        dec_bool(s, (32 + enc_addrs(v.owned_programs).len() + enc_addrs(v.enrolled_programs).len()) as int)
            == Some((v.is_conducting_raid, (32 + enc_addrs(v.owned_programs).len() + enc_addrs(v.enrolled_programs).len() + 1) as int)),
        dec_bytes(s, (32 + enc_addrs(v.owned_programs).len() + enc_addrs(v.enrolled_programs).len() + 1) as int)
            == Some((v.user_email, (32 + enc_addrs(v.owned_programs).len() + enc_addrs(v.enrolled_programs).len() + 1 + enc_bytes(v.user_email).len()) as int)),
        dec_bytes(s, (32 + enc_addrs(v.owned_programs).len() + enc_addrs(v.enrolled_programs).len() + 1 + enc_bytes(v.user_email).len()) as int)
            == Some((v.user_dob, (32 + enc_addrs(v.owned_programs).len() + enc_addrs(v.enrolled_programs).len() + 1 + enc_bytes(v.user_email).len() + enc_bytes(v.user_dob).len()) as int)),
        dec_bytes(s, (32 + enc_addrs(v.owned_programs).len() + enc_addrs(v.enrolled_programs).len() + 1 + enc_bytes(v.user_email).len() + enc_bytes(v.user_dob).len()) as int)
            == Some((v.user_twitter_handle, (32 + enc_addrs(v.owned_programs).len() + enc_addrs(v.enrolled_programs).len() + 1 + enc_bytes(v.user_email).len() + enc_bytes(v.user_dob).len() + enc_bytes(v.user_twitter_handle).len()) as int)),
        dec_u64(s, (32 + enc_addrs(v.owned_programs).len() + enc_addrs(v.enrolled_programs).len() + 1 + enc_bytes(v.user_email).len() + enc_bytes(v.user_dob).len() + enc_bytes(v.user_twitter_handle).len()) as int)
            == Some((v.total_rewards, (32 + enc_addrs(v.owned_programs).len() + enc_addrs(v.enrolled_programs).len() + 1 + enc_bytes(v.user_email).len() + enc_bytes(v.user_dob).len() + enc_bytes(v.user_twitter_handle).len() + 8) as int)),
        dec_u64(s, (32 + enc_addrs(v.owned_programs).len() + enc_addrs(v.enrolled_programs).len() + 1 + enc_bytes(v.user_email).len() + enc_bytes(v.user_dob).len() + enc_bytes(v.user_twitter_handle).len() + 8) as int)
            == Some((v.participated_raids, (32 + enc_addrs(v.owned_programs).len() + enc_addrs(v.enrolled_programs).len() + 1 + enc_bytes(v.user_email).len() + enc_bytes(v.user_dob).len() + enc_bytes(v.user_twitter_handle).len() + 8 + 8) as int)),
        dec_u64(s, (32 + enc_addrs(v.owned_programs).len() + enc_addrs(v.enrolled_programs).len() + 1 + enc_bytes(v.user_email).len() + enc_bytes(v.user_dob).len() + enc_bytes(v.user_twitter_handle).len() + 8 + 8) as int)
            == Some((v.raid_ranking, (32 + enc_addrs(v.owned_programs).len() + enc_addrs(v.enrolled_programs).len() + 1 + enc_bytes(v.user_email).len() + enc_bytes(v.user_dob).len() + enc_bytes(v.user_twitter_handle).len() + 8 + 8 + 8) as int)),
        dec_u64(s, (32 + enc_addrs(v.owned_programs).len() + enc_addrs(v.enrolled_programs).len() + 1 + enc_bytes(v.user_email).len() + enc_bytes(v.user_dob).len() + enc_bytes(v.user_twitter_handle).len() + 8 + 8 + 8) as int)
            == Some((v.engagement_score, (32 + enc_addrs(v.owned_programs).len() + enc_addrs(v.enrolled_programs).len() + 1 + enc_bytes(v.user_email).len() + enc_bytes(v.user_dob).len() + enc_bytes(v.user_twitter_handle).len() + 8 + 8 + 8 + 8) as int)),
        dec_u64(s, (32 + enc_addrs(v.owned_programs).len() + enc_addrs(v.enrolled_programs).len() + 1 + enc_bytes(v.user_email).len() + enc_bytes(v.user_dob).len() + enc_bytes(v.user_twitter_handle).len() + 8 + 8 + 8 + 8) as int)
            == Some((v.streaks, (32 + enc_addrs(v.owned_programs).len() + enc_addrs(v.enrolled_programs).len() + 1 + enc_bytes(v.user_email).len() + enc_bytes(v.user_dob).len() + enc_bytes(v.user_twitter_handle).len() + 8 + 8 + 8 + 8 + 8) as int)),
        dec_bytes(s, (32 + enc_addrs(v.owned_programs).len() + enc_addrs(v.enrolled_programs).len() + 1 + enc_bytes(v.user_email).len() + enc_bytes(v.user_dob).len() + enc_bytes(v.user_twitter_handle).len() + 8 + 8 + 8 + 8 + 8) as int)
            == Some((v.profile_picture_url, (32 + enc_addrs(v.owned_programs).len() + enc_addrs(v.enrolled_programs).len() + 1 + enc_bytes(v.user_email).len() + enc_bytes(v.user_dob).len() + enc_bytes(v.user_twitter_handle).len() + 8 + 8 + 8 + 8 + 8 + enc_bytes(v.profile_picture_url).len()) as int)),
    ensures
        dec_user_card(s) == Some((v, (32 + enc_addrs(v.owned_programs).len() + enc_addrs(v.enrolled_programs).len() + 1 + enc_bytes(v.user_email).len() + enc_bytes(v.user_dob).len() + enc_bytes(v.user_twitter_handle).len() + 8 + 8 + 8 + 8 + 8 + enc_bytes(v.profile_picture_url).len()) as int)),
{
}

/// Round trip: a well-formed record, encoded and then decoded from any
/// sufficiently large buffer, comes back unchanged.
pub proof fn lemma_user_card_round_trip(v: UserCardView, rest: Seq<u8>)
    requires
        wf_user_card(v),
    ensures
        dec_user_card(enc_user_card(v) + rest)
            == Some((v, enc_user_card(v).len() as int)),
{
    lemma_user_card_fields_back(v, rest);
    lemma_user_card_fields_front(v, enc_user_card(v) + rest);
    lemma_user_card_eval(v, enc_user_card(v) + rest);
}

} // verus!
