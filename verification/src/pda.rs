//! The address deriver: every record's 32-byte address is computed from
//! domain seed material, never taken from a caller on faith. Entity
//! seeds are hashed to a fixed 32 bytes and then mapped off the normal
//! address space by a bounded bump search.

use vstd::prelude::*;

use sha2::Digest;

use crate::addr::Addr;
use crate::codec::{push_addr, push_u64, u64_le_bytes, lemma_u64_le_identity};
use crate::error::BullPosterError;
use crate::types::{kind_tag, CompetitionKind};

verus! {

// ---------------------------------------------------------------------
// Domain seed material
// ---------------------------------------------------------------------

/// The fixed domain seed `"program_state"`.
pub open spec fn registry_seed() -> Seq<u8> {
    seq![112u8, 114, 111, 103, 114, 97, 109, 95, 115, 116, 97, 116, 101]
}

/// Executable counterpart of `registry_seed`.
pub fn registry_seed_bytes() -> (r: Vec<u8>)
    ensures
        r@ == registry_seed(),
{
    let r: Vec<u8> = vec![112u8, 114, 111, 103, 114, 97, 109, 95, 115, 116, 97, 116, 101];
    assert(r@ =~= registry_seed());
    r
}

/// The fixed domain seed `"program_raid_programs_state"`.
pub open spec fn raid_programs_index_seed() -> Seq<u8> {
    seq![112u8, 114, 111, 103, 114, 97, 109, 95, 114, 97, 105, 100, 95, 112, 114, 111, 103, 114, 97, 109, 115, 95, 115, 116, 97, 116, 101]
}

/// Executable counterpart of `raid_programs_index_seed`.
pub fn raid_programs_index_seed_bytes() -> (r: Vec<u8>)
    ensures
        r@ == raid_programs_index_seed(),
{
    let r: Vec<u8> = vec![112u8, 114, 111, 103, 114, 97, 109, 95, 114, 97, 105, 100, 95, 112, 114, 111, 103, 114, 97, 109, 115, 95, 115, 116, 97, 116, 101];
    assert(r@ =~= raid_programs_index_seed());
    r
}

/// The fixed domain seed `"program_raids_state"`.
pub open spec fn raids_index_seed() -> Seq<u8> {
    seq![112u8, 114, 111, 103, 114, 97, 109, 95, 114, 97, 105, 100, 115, 95, 115, 116, 97, 116, 101]
}

/// Executable counterpart of `raids_index_seed`.
pub fn raids_index_seed_bytes() -> (r: Vec<u8>)
    ensures
        r@ == raids_index_seed(),
{
    let r: Vec<u8> = vec![112u8, 114, 111, 103, 114, 97, 109, 95, 114, 97, 105, 100, 115, 95, 115, 116, 97, 116, 101];
    assert(r@ =~= raids_index_seed());
    r
}

/// The fixed domain seed `"program_competitions_state"`.
pub open spec fn competitions_index_seed() -> Seq<u8> {
    seq![112u8, 114, 111, 103, 114, 97, 109, 95, 99, 111, 109, 112, 101, 116, 105, 116, 105, 111, 110, 115, 95, 115, 116, 97, 116, 101]
}

/// Executable counterpart of `competitions_index_seed`.
pub fn competitions_index_seed_bytes() -> (r: Vec<u8>)
    ensures
        r@ == competitions_index_seed(),
{
    let r: Vec<u8> = vec![112u8, 114, 111, 103, 114, 97, 109, 95, 99, 111, 109, 112, 101, 116, 105, 116, 105, 111, 110, 115, 95, 115, 116, 97, 116, 101];
    assert(r@ =~= competitions_index_seed());
    r
}

/// The fixed domain seed `"program_leaderboard_state"`.
pub open spec fn leaderboard_seed() -> Seq<u8> {
    seq![112u8, 114, 111, 103, 114, 97, 109, 95, 108, 101, 97, 100, 101, 114, 98, 111, 97, 114, 100, 95, 115, 116, 97, 116, 101]
}

/// Executable counterpart of `leaderboard_seed`.
pub fn leaderboard_seed_bytes() -> (r: Vec<u8>)
    ensures
        r@ == leaderboard_seed(),
{
    let r: Vec<u8> = vec![112u8, 114, 111, 103, 114, 97, 109, 95, 108, 101, 97, 100, 101, 114, 98, 111, 97, 114, 100, 95, 115, 116, 97, 116, 101];
    assert(r@ =~= leaderboard_seed());
    r
}

/// The fixed domain seed `"pda_token_mint"`.
pub open spec fn token_mint_seed() -> Seq<u8> {
    seq![112u8, 100, 97, 95, 116, 111, 107, 101, 110, 95, 109, 105, 110, 116]
}

/// Executable counterpart of `token_mint_seed`.
pub fn token_mint_seed_bytes() -> (r: Vec<u8>)
    ensures
        r@ == token_mint_seed(),
{
    let r: Vec<u8> = vec![112u8, 100, 97, 95, 116, 111, 107, 101, 110, 95, 109, 105, 110, 116];
    assert(r@ =~= token_mint_seed());
    r
}

/// The domain prefix `"user_card_"` of an entity seed.
pub open spec fn user_card_tag() -> Seq<u8> {
    seq![117u8, 115, 101, 114, 95, 99, 97, 114, 100, 95]
}

/// The domain prefix `"raid_program_"` of an entity seed.
pub open spec fn raid_program_tag() -> Seq<u8> {
    seq![114u8, 97, 105, 100, 95, 112, 114, 111, 103, 114, 97, 109, 95]
}

/// The domain prefix `"raid_program_token_account_"` of an entity seed.
pub open spec fn program_token_tag() -> Seq<u8> {
    seq![114u8, 97, 105, 100, 95, 112, 114, 111, 103, 114, 97, 109, 95, 116, 111, 107, 101, 110, 95, 97, 99, 99, 111, 117, 110, 116, 95]
}

/// The domain prefix `"raid_"` of an entity seed.
pub open spec fn raid_tag() -> Seq<u8> {
    seq![114u8, 97, 105, 100, 95]
}

/// The domain prefix `"burn_"` of an entity seed.
pub open spec fn burn_tag() -> Seq<u8> {
    seq![98u8, 117, 114, 110, 95]
}

/// The domain prefix `"competition_"` of an entity seed.
pub open spec fn competition_tag() -> Seq<u8> {
    seq![99u8, 111, 109, 112, 101, 116, 105, 116, 105, 111, 110, 95]
}

/// The domain prefix `"_"` of an entity seed.
pub open spec fn separator_tag() -> Seq<u8> {
    seq![95u8]
}

/// Append raw bytes to a seed under construction.
fn append_bytes(out: &mut Vec<u8>, b: &Vec<u8>)
    ensures
        final(out)@ == old(out)@ + b@,
{
    let n = b.len();
    let mut i: usize = 0;
    while i < n
        invariant
            i <= n,
            n == b@.len(),
            out@ == old(out)@ + b@.subrange(0, i as int),
        decreases n - i,
    {
        out.push(b[i]);
        assert(out@ =~= old(out)@ + b@.subrange(0, i + 1));
        i += 1;
    }
    assert(b@.subrange(0, n as int) =~= b@);
}

// ---------------------------------------------------------------------
// Entity seed construction: one canonical rule per record family
// ---------------------------------------------------------------------

/// Seed material of a user card: the user-card prefix and the owner.
pub open spec fn user_card_seed(user: Seq<u8>) -> Seq<u8> {
    user_card_tag() + user
}

/// Build a user card's seed.
pub fn build_user_card_seed(user: &Addr) -> (r: Vec<u8>)
    requires
        user.wf(),
    ensures
        r@ == user_card_seed(user@),
{
    let mut out: Vec<u8> = vec![117u8, 115, 101, 114, 95, 99, 97, 114, 100, 95];
    assert(out@ =~= user_card_tag());
    push_addr(&mut out, user);
    out
}

/// Seed material of a raid program: the program prefix, the owner, a
/// separator and the program's name.
pub open spec fn raid_program_seed(owner: Seq<u8>, name: Seq<u8>) -> Seq<u8> {
    raid_program_tag() + owner + separator_tag() + name
}

/// Build a raid program's seed.
pub fn build_raid_program_seed(owner: &Addr, name: &Vec<u8>) -> (r: Vec<u8>)
    requires
        owner.wf(),
    ensures
        r@ == raid_program_seed(owner@, name@),
{
    let mut out: Vec<u8> = vec![114u8, 97, 105, 100, 95, 112, 114, 111, 103, 114, 97, 109, 95];
    assert(out@ =~= raid_program_tag());
    push_addr(&mut out, owner);
    out.push(95u8);
    assert(out@ =~= raid_program_tag() + owner@ + separator_tag());
    append_bytes(&mut out, name);
    assert(out@ =~= raid_program_seed(owner@, name@));
    out
}

/// Seed material of a program's token holding record.
pub open spec fn program_token_seed(program: Seq<u8>) -> Seq<u8> {
    program_token_tag() + program
}

/// Build a program token record's seed.
pub fn build_program_token_seed(program: &Addr) -> (r: Vec<u8>)
    requires
        program.wf(),
    ensures
        r@ == program_token_seed(program@),
{
    let mut out: Vec<u8> = vec![114u8, 97, 105, 100, 95, 112, 114, 111, 103, 114, 97, 109, 95, 116, 111, 107, 101, 110, 95, 97, 99, 99, 111, 117, 110, 116, 95];
    assert(out@ =~= program_token_tag());
    push_addr(&mut out, program);
    out
}

/// Seed material of a raid record: the raid prefix, the competition and
/// the program.
pub open spec fn raid_seed(competition: Seq<u8>, program: Seq<u8>) -> Seq<u8> {
    raid_tag() + competition + program
}

/// Build a raid record's seed.
pub fn build_raid_seed(competition: &Addr, program: &Addr) -> (r: Vec<u8>)
    requires
        competition.wf(),
        program.wf(),
    ensures
        r@ == raid_seed(competition@, program@),
{
    let mut out: Vec<u8> = vec![114u8, 97, 105, 100, 95];
    assert(out@ =~= raid_tag());
    push_addr(&mut out, competition);
    assert(out@ =~= raid_tag() + competition@);
    push_addr(&mut out, program);
    assert(out@ =~= raid_seed(competition@, program@));
    out
}

/// Seed material of a burn record: the burn prefix, the user, the
/// program and the timestamp, so each (user, program, time) tuple gets
/// a fresh address.
pub open spec fn burn_seed(user: Seq<u8>, program: Seq<u8>, timestamp: u64) -> Seq<u8> {
    burn_tag() + user + program + u64_le_bytes(timestamp)
}

/// Build a burn record's seed.
pub fn build_burn_seed(user: &Addr, program: &Addr, timestamp: u64) -> (r: Vec<u8>)
    requires
        user.wf(),
        program.wf(),
    ensures
        r@ == burn_seed(user@, program@, timestamp),
{
    let mut out: Vec<u8> = vec![98u8, 117, 114, 110, 95];
    assert(out@ =~= burn_tag());
    push_addr(&mut out, user);
    assert(out@ =~= burn_tag() + user@);
    push_addr(&mut out, program);
    assert(out@ =~= burn_tag() + user@ + program@);
    push_u64(&mut out, timestamp);
    assert(out@ =~= burn_seed(user@, program@, timestamp));
    out
}

/// Seed material of a pool competition: the competition prefix, the
/// kind's tag and the sequence number.
pub open spec fn competition_seed(k: CompetitionKind, sequence: u64) -> Seq<u8> {
    competition_tag() + seq![kind_tag(k)] + u64_le_bytes(sequence)
}

/// Build a pool competition's seed.
pub fn build_competition_seed(k: CompetitionKind, sequence: u64) -> (r: Vec<u8>)
    ensures
        r@ == competition_seed(k, sequence),
{
    let mut out: Vec<u8> = vec![99u8, 111, 109, 112, 101, 116, 105, 116, 105, 111, 110, 95];
    assert(out@ =~= competition_tag());
    let tag: u8 = match k {
        CompetitionKind::Pool4 => 0,
        CompetitionKind::Pool6 => 1,
        CompetitionKind::Pool12 => 2,
        CompetitionKind::Pool24 => 3,
        CompetitionKind::PvP => 4,
    };
    out.push(tag);
    assert(out@ =~= competition_tag() + seq![kind_tag(k)]);
    push_u64(&mut out, sequence);
    assert(out@ =~= competition_seed(k, sequence));
    out
}

/// Seed material of a challenge competition: the pool seed rule plus
/// both parties, so a challenge is tied to its two programs.
pub open spec fn challenge_seed(
    sequence: u64,
    challenger: Seq<u8>,
    challenged: Seq<u8>,
) -> Seq<u8> {
    competition_seed(CompetitionKind::PvP, sequence) + challenger + challenged
}

/// Build a challenge competition's seed.
pub fn build_challenge_seed(sequence: u64, challenger: &Addr, challenged: &Addr) -> (r: Vec<u8>)
    requires
        challenger.wf(),
        challenged.wf(),
    ensures
        r@ == challenge_seed(sequence, challenger@, challenged@),
{
    let mut out = build_competition_seed(CompetitionKind::PvP, sequence);
    push_addr(&mut out, challenger);
    assert(out@ =~= competition_seed(CompetitionKind::PvP, sequence) + challenger@);
    push_addr(&mut out, challenged);
    assert(out@ =~= challenge_seed(sequence, challenger@, challenged@));
    out
}

/// Distinct sequence numbers give distinct competition seeds: the
/// sequence's eight bytes sit at a fixed offset of the seed.
pub proof fn lemma_competition_seed_injective(k: CompetitionKind, s1: u64, s2: u64)
    requires
        s1 != s2,
    ensures
        competition_seed(k, s1) != competition_seed(k, s2),
{
    let e1 = competition_seed(k, s1);
    let e2 = competition_seed(k, s2);
    let off = competition_tag().len() + 1;
    assert(e1[off as int] == u64_le_bytes(s1)[0]);
    assert(e2[off as int] == u64_le_bytes(s2)[0]);
    if e1 == e2 {
        assert(forall|j: int| 0 <= j < 8 ==> u64_le_bytes(s1)[j] == e1[off + j]
            && #[trigger] u64_le_bytes(s2)[j] == e1[off + j]);
        lemma_u64_le_identity(s1);
        lemma_u64_le_identity(s2);
        assert(s1 == s2);
    }
}

} // verus!

verus! {

// ---------------------------------------------------------------------
// The derivation itself, through the hash and the bump search
// ---------------------------------------------------------------------

/// The digest that the hash of a seed yields; it depends on the seed's
/// bytes alone.
pub uninterp spec fn sha256_of(b: Seq<u8>) -> Seq<u8>;

/// The derived address and bump for seed material under a program
/// domain, or nothing in the (statistically improbable) event that no
/// bump yields an address off the normal space; it depends on the seed
/// and domain alone.
pub uninterp spec fn pda_of(seed: Seq<u8>, program_id: Seq<u8>) -> Option<(Seq<u8>, u8)>;

/// Relies on sha2's Sha256: a 32-byte digest computed from the input
/// bytes alone.
#[verifier::external_body]
fn sha256(b: &Vec<u8>) -> (r: Vec<u8>)
    ensures
        r@ == sha256_of(b@),
        r@.len() == 32,
{
    let mut hasher = sha2::Sha256::new();
    hasher.update(b.as_slice());
    hasher.finalize().to_vec()
}

/// Relies on solana-pubkey's Address::try_find_program_address, called
/// with this single seed: the returned address and bump depend on the
/// seed and program id alone, and None comes only when no bump yields
/// an address off the normal space.
#[verifier::external_body]
fn find_program_address(seed: &Vec<u8>, program_id: &Addr) -> (r: Option<(Addr, u8)>)
    requires
        program_id@.len() == 32,
    ensures
        match r {
            Some((a, bump)) => a.wf() && pda_of(seed@, program_id@) == Some((a@, bump)),
            None => pda_of(seed@, program_id@).is_none(),
        },
{
    let mut arr = [0u8; 32];
    arr.copy_from_slice(program_id.bytes.as_slice());
    let pid = solana_program::pubkey::Pubkey::new_from_array(arr);
    match solana_program::pubkey::Pubkey::try_find_program_address(&[seed.as_slice()], &pid) {
        Some((a, bump)) => Some((Addr { bytes: a.to_bytes().to_vec() }, bump)),
        None => None,
    }
}

/// What `derive` computes: the bump search applied to the seed's
/// digest.
pub open spec fn derive_spec(seed: Seq<u8>, program_id: Seq<u8>) -> Option<(Seq<u8>, u8)> {
    pda_of(sha256_of(seed), program_id)
}

/// Derive the address and bump for entity seed material: hash the seed
/// to a fixed 32 bytes, then search for the bump. Identical seeds always
/// yield the identical address. The error covers only the statistically
/// improbable event that no bump works; no address can then be right.
pub fn derive_address(seed: &Vec<u8>, program_id: &Addr) -> (r: Result<(Addr, u8), BullPosterError>)
    requires
        program_id.wf(),
    ensures
        match r {
            Ok((a, bump)) => a.wf() && derive_spec(seed@, program_id@) == Some((a@, bump)),
            Err(e) => e == BullPosterError::AddressMismatch
                && derive_spec(seed@, program_id@).is_none(),
        },
{
    let digest = sha256(seed);
    match find_program_address(&digest, program_id) {
        Some(p) => Ok(p),
        None => Err(BullPosterError::AddressMismatch),
    }
}

/// Derive the address and bump for a fixed domain seed, used as given.
pub fn derive_raw(seed: &Vec<u8>, program_id: &Addr) -> (r: Result<(Addr, u8), BullPosterError>)
    requires
        program_id.wf(),
    ensures
        match r {
            Ok((a, bump)) => a.wf() && pda_of(seed@, program_id@) == Some((a@, bump)),
            Err(e) => e == BullPosterError::AddressMismatch
                && pda_of(seed@, program_id@).is_none(),
        },
{
    match find_program_address(seed, program_id) {
        Some(p) => Ok(p),
        None => Err(BullPosterError::AddressMismatch),
    }
}

/// Address determinism: the derivation is a pure function of the seed
/// material and the program domain, so identical seeds always produce
/// the identical address and bump.
pub proof fn lemma_derive_deterministic(s1: Seq<u8>, s2: Seq<u8>, p1: Seq<u8>, p2: Seq<u8>)
    requires
        s1 == s2,
        p1 == p2,
    ensures
        derive_spec(s1, p1) == derive_spec(s2, p2),
{
}

} // verus!

verus! {

/// The fixed domain seed `"pda_token_account"`.
pub open spec fn token_account_seed() -> Seq<u8> {
    seq![112u8, 100, 97, 95, 116, 111, 107, 101, 110, 95, 97, 99, 99, 111, 117, 110, 116]
}

/// Executable counterpart of `token_account_seed`.
pub fn token_account_seed_bytes() -> (r: Vec<u8>)
    ensures
        r@ == token_account_seed(),
{
    let r: Vec<u8> = vec![112u8, 100, 97, 95, 116, 111, 107, 101, 110, 95, 97, 99, 99, 111, 117, 110, 116];
    assert(r@ =~= token_account_seed());
    r
}

/// The domain prefix `"stake_"` of a stake record's seed.
pub open spec fn stake_tag() -> Seq<u8> {
    seq![115u8, 116, 97, 107, 101, 95]
}

/// Seed material of a stake holding record: the stake prefix, the
/// staking user, a separator and the program name.
pub open spec fn stake_seed(user: Seq<u8>, name: Seq<u8>) -> Seq<u8> {
    stake_tag() + user + separator_tag() + name
}

/// Build a stake record's seed.
pub fn build_stake_seed(user: &Addr, name: &Vec<u8>) -> (r: Vec<u8>)
    requires
        user.wf(),
    ensures
        r@ == stake_seed(user@, name@),
{
    let mut out: Vec<u8> = vec![115u8, 116, 97, 107, 101, 95];
    assert(out@ =~= stake_tag());
    push_addr(&mut out, user);
    out.push(95u8);
    assert(out@ =~= stake_tag() + user@ + separator_tag());
    append_bytes(&mut out, name);
    assert(out@ =~= stake_seed(user@, name@));
    out
}

} // verus!
