//! Found proofs: the files they are stored in, which of them are handed out, the index the
//! prover continues from after a restart, and the indices new proofs get.

use std::path::PathBuf;
use vstd::prelude::*;
use vstd::std_specs::iter::IteratorSpec;
use vstd::string::StringExecFns;

use crate::types::CCProof;
use crate::types::CCProofId;
use crate::types::CUAllocation;
use crate::types::EpochParameters;
use crate::types::GlobalNonce;
use crate::types::LogicalCoreId;
use crate::types::ProofIdx;
use crate::types::RawProof;

verus! {

/// `std::path::PathBuf`, carried through as an opaque value.
#[verifier::external_type_specification]
#[verifier::external_body]
pub struct ExPathBuf(PathBuf);

// ----------------------------------------------------------------------------------------------
// File names of proofs: the decimal index of the proof.

pub open spec fn is_digit(c: char) -> bool {
    '0' <= c && c <= '9'
}

pub open spec fn digit_value(c: char) -> int {
    c as int - '0' as int
}

pub open spec fn digit_char(d: nat) -> char {
    (d + '0' as int) as char
}

/// The number a string of decimal digits stands for.
pub open spec fn digits_value(s: Seq<char>) -> int
    decreases s.len(),
{
    if s.len() == 0 {
        0
    } else {
        digits_value(s.drop_last()) * 10 + digit_value(s.last())
    }
}

/// The digits of an unsigned number, after an optional leading plus sign.
pub open spec fn unsigned_digits(s: Seq<char>) -> Seq<char> {
    if s.len() > 0 && s[0] == '+' {
        s.drop_first()
    } else {
        s
    }
}

/// The number a file name stands for, as `u64::from_str` reads it: an optional plus sign and at
/// least one decimal digit, the value fitting in 64 bits.
pub open spec fn parse_u64_spec(s: Seq<char>) -> Option<u64> {
    let d = unsigned_digits(s);
    if d.len() > 0 && (forall|i: int| 0 <= i < d.len() ==> is_digit(#[trigger] d[i]))
        && digits_value(d) <= u64::MAX {
        Some(digits_value(d) as u64)
    } else {
        None
    }
}

/// The decimal representation of a number, without leading zeros.
pub open spec fn decimal_digits(x: nat) -> Seq<char>
    decreases x,
{
    if x < 10 {
        seq![digit_char(x)]
    } else {
        decimal_digits(x / 10).push(digit_char(x % 10))
    }
}

proof fn lemma_digits_value_prefix(s: Seq<char>)
    requires
        s.len() > 0,
        forall|i: int| 0 <= i < s.len() ==> is_digit(#[trigger] s[i]),
    ensures
        digits_value(s) >= digits_value(s.drop_last()) * 10,
        digits_value(s.drop_last()) >= 0,
    decreases s.len(),
{
    if s.drop_last().len() > 0 {
        lemma_digits_value_prefix(s.drop_last());
    }
}

/// Reading back the decimal representation of a number gives the number.
pub proof fn lemma_parse_decimal(x: u64)
    ensures
        parse_u64_spec(decimal_digits(x as nat)) == Some(x),
{
    lemma_decimal_digits(x as nat);
    let d = decimal_digits(x as nat);
    assert(unsigned_digits(d) == d);
}

proof fn lemma_decimal_digits(x: nat)
    ensures
        decimal_digits(x).len() > 0,
        forall|i: int| 0 <= i < decimal_digits(x).len() ==> is_digit(#[trigger] decimal_digits(x)[i]),
        digits_value(decimal_digits(x)) == x,
        decimal_digits(x)[0] != '+',
    decreases x,
{
    if x < 10 {
        let d = decimal_digits(x);
        assert(d.drop_last() =~= Seq::<char>::empty());
        assert(digit_value(digit_char(x)) == x);
        assert(d.last() == digit_char(x));
        assert(digits_value(d) == digits_value(d.drop_last()) * 10 + digit_value(d.last()));
    } else {
        lemma_decimal_digits(x / 10);
        let d = decimal_digits(x);
        vstd::arithmetic::div_mod::lemma_fundamental_div_mod(x as int, 10);
        assert(digit_value(digit_char((x % 10) as nat)) == x % 10);
        assert(d.drop_last() =~= decimal_digits(x / 10));
        assert forall|i: int| 0 <= i < d.len() implies is_digit(#[trigger] d[i]) by {
            if i < d.len() - 1 {
                assert(d[i] == decimal_digits(x / 10)[i]);
            }
        }
        assert(d[0] == decimal_digits(x / 10)[0]);
        assert(d.last() == digit_char((x % 10) as nat));
        assert(digits_value(d) == digits_value(d.drop_last()) * 10 + digit_value(d.last()));
        assert(digits_value(d.drop_last()) == x / 10);
        assert(digits_value(d) == (x / 10) * 10 + x % 10);
    }
}

/// Collects the characters of a string.
fn chars_of(s: &str) -> (r: Vec<char>)
    ensures
        r@ == s@,
{
    let mut out: Vec<char> = Vec::new();
    for c in it: s.chars()
        invariant
            out@ == it.seq().take(it.index() as int),
            it.seq() == s@,
    {
        proof {
            assert(it.seq().take(it.index() + 1) =~= it.seq().take(it.index() as int).push(c));
        }
        out.push(c);
    }
    proof {
        assert(out@ =~= s@);
    }
    out
}

/// Reads the index of a proof from the name of its file; `None` where the name is not a
/// number, as for files that someone else put into the proof directory.
pub fn proof_idx_from_file_name(file_name: &str) -> (r: Option<ProofIdx>)
    ensures
        r == (match parse_u64_spec(file_name@) {
            Some(v) => Some(ProofIdx(v)),
            None => None::<ProofIdx>,
        }),
{
    let chars = chars_of(file_name);
    let ghost s = file_name@;
    let start: usize = if chars.len() > 0 && chars[0] == '+' {
        1
    } else {
        0
    };
    let ghost d = unsigned_digits(s);
    proof {
        assert(d =~= s.subrange(start as int, s.len() as int));
    }
    if start == chars.len() {
        return None;
    }
    let mut value: u64 = 0;
    let mut overflowed = false;
    let mut i: usize = start;
    while i < chars.len()
        invariant
            chars@ == s,
            s == file_name@,
            d == unsigned_digits(s),
            d == s.subrange(start as int, s.len() as int),
            start <= i <= chars@.len(),
            forall|j: int| start <= j < i ==> is_digit(#[trigger] s[j]),
            !overflowed ==> value == digits_value(s.subrange(start as int, i as int)),
            overflowed ==> digits_value(s.subrange(start as int, i as int)) > u64::MAX,
            digits_value(s.subrange(start as int, i as int)) >= 0,
        decreases chars@.len() - i,
    {
        let c = chars[i];
        if !('0' <= c && c <= '9') {
            proof {
                assert(d[i - start] == c);
                assert(!is_digit(d[i - start]));
                assert(parse_u64_spec(s) is None);
            }
            return None;
        }
        let digit: u64 = (c as u32 - '0' as u32) as u64;
        let ghost prefix = s.subrange(start as int, i as int);
        proof {
            assert(s.subrange(start as int, i + 1).drop_last() =~= prefix);
            assert(s.subrange(start as int, i + 1).last() == c);
        }
        if !overflowed {
            if value > (u64::MAX - digit) / 10 {
                overflowed = true;
                proof {
                    assert(value * 10 + digit > u64::MAX) by (nonlinear_arith)
                        requires
                            value > (u64::MAX - digit) / 10,
                            digit <= 9,
                    ;
                }
            } else {
                proof {
                    assert(value * 10 + digit <= u64::MAX) by (nonlinear_arith)
                        requires
                            value <= (u64::MAX - digit) / 10,
                            digit <= 9,
                    ;
                }
                value = value * 10 + digit;
            }
        } else {
            proof {
                assert(digits_value(prefix) * 10 + digit_value(c) > u64::MAX) by (nonlinear_arith)
                    requires
                        digits_value(prefix) > u64::MAX,
                        digit_value(c) >= 0,
                ;
            }
        }
        i = i + 1;
    }
    proof {
        assert(s.subrange(start as int, i as int) == d);
        assert forall|j: int| 0 <= j < d.len() implies is_digit(#[trigger] d[j]) by {
            assert(d[j] == s[j + start]);
        }
    }
    if overflowed {
        None
    } else {
        Some(ProofIdx(value))
    }
}

/// The one-character string of a decimal digit.
fn digit_str(d: u64) -> (r: &'static str)
    requires
        d < 10,
    ensures
        r@ == seq![digit_char(d as nat)],
{
    if d == 0 {
        proof {
            reveal_strlit("0");
        }
        "0"
    } else if d == 1 {
        proof {
            reveal_strlit("1");
        }
        "1"
    } else if d == 2 {
        proof {
            reveal_strlit("2");
        }
        "2"
    } else if d == 3 {
        proof {
            reveal_strlit("3");
        }
        "3"
    } else if d == 4 {
        proof {
            reveal_strlit("4");
        }
        "4"
    } else if d == 5 {
        proof {
            reveal_strlit("5");
        }
        "5"
    } else if d == 6 {
        proof {
            reveal_strlit("6");
        }
        "6"
    } else if d == 7 {
        proof {
            reveal_strlit("7");
        }
        "7"
    } else if d == 8 {
        proof {
            reveal_strlit("8");
        }
        "8"
    } else {
        proof {
            reveal_strlit("9");
        }
        "9"
    }
}

/// The decimal representation of a number, as `u64::to_string` writes it: its digits, without
/// sign and without leading zeros.
fn u64_to_decimal(x: u64) -> (r: String)
    ensures
        r@ == decimal_digits(x as nat),
    decreases x,
{
    if x < 10 {
        let mut s = String::new();
        s.append(digit_str(x));
        proof {
            assert(s@ =~= decimal_digits(x as nat));
        }
        s
    } else {
        let mut s = u64_to_decimal(x / 10);
        s.append(digit_str(x % 10));
        proof {
            assert(s@ =~= decimal_digits(x as nat));
        }
        s
    }
}

/// The name of the file a proof with index `idx` is stored in.
pub fn proof_file_name(idx: ProofIdx) -> (r: String)
    ensures
        r@ == decimal_digits(idx.0 as nat),
{
    u64_to_decimal(idx.0)
}

/// Whether a file whose name reads as `entry_proof_idx` holds a proof found after `proof_idx`.
pub fn is_file_suitable(entry_proof_idx: Option<ProofIdx>, proof_idx: ProofIdx) -> (r: bool)
    ensures
        r == (match entry_proof_idx {
            Some(current) => proof_idx.0 < current.0,
            None => false,
        }),
{
    match entry_proof_idx {
        Some(current_proof_idx) => proof_idx.is_before(&current_proof_idx),
        None => false,
    }
}

// ----------------------------------------------------------------------------------------------
// Continuing after a restart.

/// Whether a stored proof belongs to the epoch the prover continues with.
pub fn proof_belongs_to_epoch(proof_id: &CCProofId, epoch_params: Option<&EpochParameters>) -> (r:
    bool)
    ensures
        r == (match epoch_params {
            Some(epoch) => proof_id.global_nonce == epoch.global_nonce && proof_id.difficulty
                == epoch.difficulty,
            None => false,
        }),
{
    match epoch_params {
        Some(epoch) => proof_id.global_nonce == epoch.global_nonce && proof_id.difficulty
            == epoch.difficulty,
        None => false,
    }
}

/// The largest index seen so far, once `idx` is seen too.
pub open spec fn observe_step(max: Option<ProofIdx>, idx: ProofIdx) -> Option<ProofIdx> {
    match max {
        Some(m) => if m.0 < idx.0 {
            Some(idx)
        } else {
            Some(m)
        },
        None => Some(idx),
    }
}

/// The largest of the indices `idxs`, seen one after the other.
pub open spec fn observed_max(idxs: Seq<ProofIdx>) -> Option<ProofIdx>
    decreases idxs.len(),
{
    if idxs.len() == 0 {
        None
    } else {
        observe_step(observed_max(idxs.drop_last()), idxs.last())
    }
}

/// The index the next proof gets: one past the largest stored one, or zero if none is stored.
pub open spec fn next_idx_after(max: Option<ProofIdx>) -> int {
    match max {
        Some(m) => m.0 + 1,
        None => 0,
    }
}

/// Once the stored proofs of an epoch are seen, the index a new proof gets is larger than the
/// index of every stored one, so no stored proof is overwritten.
pub proof fn lemma_recovered_idx_is_fresh(idxs: Seq<ProofIdx>)
    ensures
        forall|k: int| 0 <= k < idxs.len() ==> (#[trigger] idxs[k]).0 < next_idx_after(
            observed_max(idxs),
        ),
        observed_max(idxs) matches Some(m) ==> idxs.contains(m),
    decreases idxs.len(),
{
    if idxs.len() > 0 {
        let rest = idxs.drop_last();
        lemma_recovered_idx_is_fresh(rest);
        assert forall|k: int| 0 <= k < idxs.len() implies (#[trigger] idxs[k]).0 < next_idx_after(
            observed_max(idxs),
        ) by {
            if k < rest.len() {
                assert(rest[k] == idxs[k]);
            }
        }
        if observed_max(idxs) != Some(idxs.last()) {
            let m = observed_max(rest)->0;
            let j = choose|j: int| 0 <= j < rest.len() && rest[j] == m;
            assert(idxs[j] == m);
        }
    }
}

/// The largest index among the stored proofs of the current epoch, as they are read one by one.
#[derive(Clone, Copy, Debug)]
pub struct ProofIdxRecovery {
    pub max_proof_idx: Option<ProofIdx>,
}

impl ProofIdxRecovery {
    pub fn new() -> (r: Self)
        ensures
            r.max_proof_idx is None,
    {
        ProofIdxRecovery { max_proof_idx: None }
    }

    /// Accounts a stored proof of the current epoch.
    pub fn observe(&mut self, entry_proof_idx: ProofIdx)
        ensures
            final(self).max_proof_idx == observe_step(old(self).max_proof_idx, entry_proof_idx),
    {
        let current: ProofIdx = match self.max_proof_idx {
            Some(m) => m,
            None => ProofIdx::zero(),
        };
        let larger = if current.0 < entry_proof_idx.0 {
            entry_proof_idx
        } else {
            current
        };
        self.max_proof_idx = Some(larger);
    }

    /// The index a new proof gets: one past the largest stored one, or zero if none is stored.
    pub fn next_proof_idx(&self) -> (r: ProofIdx)
        requires
            self.max_proof_idx matches Some(m) ==> m.0 < u64::MAX,
        ensures
            r.0 == next_idx_after(self.max_proof_idx),
    {
        match self.max_proof_idx {
            Some(m) => {
                let mut idx = m;
                idx.increment();
                idx
            },
            None => ProofIdx::zero(),
        }
    }
}

// ----------------------------------------------------------------------------------------------
// Where proofs and the state live.

/// Stores found proofs, one file per proof.
#[derive(Debug)]
pub struct ProofStorage {
    proof_directory: PathBuf,
}

impl ProofStorage {
    pub closed spec fn spec_directory(&self) -> PathBuf {
        self.proof_directory
    }

    pub fn new(proof_directory: PathBuf) -> (r: Self)
        ensures
            r.spec_directory() == proof_directory,
    {
        ProofStorage { proof_directory }
    }

    pub fn proof_directory(&self) -> (r: &PathBuf)
        ensures
            *r == self.spec_directory(),
    {
        &self.proof_directory
    }
}

/// Reads the stored proofs back, and clears them.
#[derive(Debug)]
pub struct ProofStorageDrainer {
    proof_directory: PathBuf,
}

impl ProofStorageDrainer {
    pub closed spec fn spec_directory(&self) -> PathBuf {
        self.proof_directory
    }

    pub fn new(proof_directory: PathBuf) -> (r: Self)
        ensures
            r.spec_directory() == proof_directory,
    {
        ProofStorageDrainer { proof_directory }
    }

    pub fn proof_directory(&self) -> (r: &PathBuf)
        ensures
            *r == self.spec_directory(),
    {
        &self.proof_directory
    }
}

/// Removes all stored proofs when an epoch ends.
#[derive(Debug)]
pub struct ProofCleaner {
    proof_directory: PathBuf,
}

impl ProofCleaner {
    pub closed spec fn spec_directory(&self) -> PathBuf {
        self.proof_directory
    }

    pub fn new(proof_directory: PathBuf) -> (r: Self)
        ensures
            r.spec_directory() == proof_directory,
    {
        ProofCleaner { proof_directory }
    }

    pub fn proof_directory(&self) -> (r: &PathBuf)
        ensures
            *r == self.spec_directory(),
    {
        &self.proof_directory
    }
}

/// Where the prover saves what it needs to continue after a restart.
pub struct StateStorage {
    state_dir: PathBuf,
}

impl StateStorage {
    pub closed spec fn spec_directory(&self) -> PathBuf {
        self.state_dir
    }

    pub fn new(state_dir: PathBuf) -> (r: Self)
        ensures
            r.spec_directory() == state_dir,
    {
        StateStorage { state_dir }
    }

    pub fn state_dir(&self) -> (r: &PathBuf)
        ensures
            *r == self.spec_directory(),
    {
        &self.state_dir
    }
}

/// What the prover saves to continue after a restart.
#[derive(Debug, Clone)]
pub struct CCPState {
    pub epoch_params: EpochParameters,
    pub cu_allocation: CUAllocation,
    pub utility_cores: Vec<LogicalCoreId>,
}

// ----------------------------------------------------------------------------------------------
// Indices of new proofs.

/// Gives every found proof the next index of its epoch; the indices start at zero again when
/// a proof of a new epoch arrives.
#[derive(Debug)]
pub struct NewProofHandler {
    proof_idx: ProofIdx,
    last_seen_global_nonce: GlobalNonce,
    proof_storage: ProofStorage,
}

impl NewProofHandler {
    pub closed spec fn spec_proof_idx(&self) -> ProofIdx {
        self.proof_idx
    }

    pub closed spec fn spec_last_seen_global_nonce(&self) -> GlobalNonce {
        self.last_seen_global_nonce
    }

    pub closed spec fn spec_storage_directory(&self) -> PathBuf {
        self.proof_storage.spec_directory()
    }

    pub fn new(
        proof_storage: ProofStorage,
        prev_proof_idx: ProofIdx,
        last_seen_global_nonce: Option<GlobalNonce>,
    ) -> (r: Self)
        ensures
            r.spec_proof_idx() == prev_proof_idx,
            last_seen_global_nonce matches Some(nonce) ==> r.spec_last_seen_global_nonce() == nonce,
            last_seen_global_nonce is None ==> r.spec_last_seen_global_nonce().0@ == Seq::new(
                32,
                |i: int| 0u8,
            ),
            r.spec_storage_directory() == proof_storage.spec_directory(),
    {
        let nonce = match last_seen_global_nonce {
            Some(nonce) => nonce,
            None => {
                let zero = GlobalNonce::new([0u8; 32]);
                proof {
                    assert(zero.0@ =~= Seq::new(32, |i: int| 0u8));
                }
                zero
            },
        };
        NewProofHandler { proof_idx: prev_proof_idx, last_seen_global_nonce: nonce, proof_storage }
    }

    pub fn proof_storage(&self) -> (r: &ProofStorage)
        ensures
            r.spec_directory() == self.spec_storage_directory(),
    {
        &self.proof_storage
    }

    /// Whether a proof belongs to another epoch than the last one seen.
    pub fn is_new_epoch(&self, proof: &RawProof) -> (r: bool)
        ensures
            r == (self.spec_last_seen_global_nonce() != proof.epoch.global_nonce),
    {
        self.last_seen_global_nonce != proof.epoch.global_nonce
    }

    /// Starts counting from zero when a proof of a new epoch arrives.
    pub fn maybe_new_epoch(&mut self, proof: &RawProof)
        ensures
            final(self).spec_last_seen_global_nonce() == proof.epoch.global_nonce,
            final(self).spec_proof_idx() == (if old(self).spec_last_seen_global_nonce()
                != proof.epoch.global_nonce {
                ProofIdx(0)
            } else {
                old(self).spec_proof_idx()
            }),
            final(self).spec_storage_directory() == old(self).spec_storage_directory(),
    {
        if self.is_new_epoch(proof) {
            self.last_seen_global_nonce = proof.epoch.global_nonce;
            self.proof_idx = ProofIdx::zero();
        }
    }

    /// The proof to store for a found one: it gets the current index of its epoch.
    pub fn prepare_proof(&mut self, proof: &RawProof) -> (r: CCProof)
        ensures
            final(self).spec_last_seen_global_nonce() == proof.epoch.global_nonce,
            final(self).spec_proof_idx() == (if old(self).spec_last_seen_global_nonce()
                != proof.epoch.global_nonce {
                ProofIdx(0)
            } else {
                old(self).spec_proof_idx()
            }),
            final(self).spec_storage_directory() == old(self).spec_storage_directory(),
            r.id.idx == final(self).spec_proof_idx(),
            r.id.global_nonce == proof.epoch.global_nonce,
            r.id.difficulty == proof.epoch.difficulty,
            r.local_nonce == proof.local_nonce,
            r.cu_id == proof.cu_id,
            r.result_hash == proof.result_hash,
    {
        self.maybe_new_epoch(proof);
        let cc_proof_id = CCProofId::new(
            proof.epoch.global_nonce,
            proof.epoch.difficulty,
            self.proof_idx,
        );
        CCProof::new(cc_proof_id, proof.local_nonce, proof.cu_id, proof.result_hash)
    }

    /// The proof is stored: the next one gets the next index.
    pub fn proof_stored(&mut self)
        requires
            old(self).spec_proof_idx().0 < u64::MAX,
        ensures
            final(self).spec_proof_idx().0 == old(self).spec_proof_idx().0 + 1,
            final(self).spec_last_seen_global_nonce() == old(self).spec_last_seen_global_nonce(),
            final(self).spec_storage_directory() == old(self).spec_storage_directory(),
    {
        self.proof_idx.increment();
    }
}

} // verus!
