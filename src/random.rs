//! Randomness drawn from `rand`, and the random text blocks built from it.
use rand::seq::SliceRandom;
use rand::Rng;
use rand::SeedableRng;
use vstd::prelude::*;

verus! {

/// rand's standard generator, carried through as an opaque value.
#[verifier::external_type_specification]
#[verifier::external_body]
pub struct ExStdRng(rand::rngs::StdRng);

/// Relies on rand's `SeedableRng::from_rng` over `OsRng`: a generator
/// seeded afresh from the operating system, shared with no other caller;
/// `None` where the operating system supplies no entropy.
#[verifier::external_body]
pub(crate) fn fresh_rng() -> (r: Option<rand::rngs::StdRng>) {
    rand::rngs::StdRng::from_rng(rand::rngs::OsRng).ok()
}

/// Relies on rand's `Rng::gen_range` over `lo..hi`: a value in the half-open
/// range (the call panics on an empty range, hence the `requires`).
#[verifier::external_body]
pub(crate) fn draw(rng: &mut rand::rngs::StdRng, lo: usize, hi: usize) -> (r: usize)
    requires
        lo < hi,
    ensures
        lo <= r < hi,
{
    rng.gen_range(lo..hi)
}

/// Relies on rand's `SliceRandom::choose`: `None` exactly for an empty
/// slice, otherwise one of its elements.
#[verifier::external_body]
pub(crate) fn choose_one(rng: &mut rand::rngs::StdRng, pool: &Vec<String>) -> (r: Option<String>)
    ensures
        r.is_none() <==> pool@.len() == 0,
        r matches Some(s) ==> exists|i: int| 0 <= i < pool@.len() && (#[trigger] pool@[i])@ == s@,
{
    pool.as_slice().choose(rng).cloned()
}

/// `c` is an ASCII uppercase letter.
pub open spec fn is_upper(c: char) -> bool {
    'A' <= c <= 'Z'
}

/// Every character of `s` is an ASCII uppercase letter.
pub open spec fn all_upper(s: Seq<char>) -> bool {
    forall|i: int| 0 <= i < s.len() ==> is_upper(#[trigger] s[i])
}

/// `s` is a block of uppercase letters whose length lies in `lo..hi`.
pub open spec fn is_block(s: Seq<char>, lo: nat, hi: nat) -> bool {
    lo <= s.len() < hi && all_upper(s)
}

/// The uppercase letter at position `k` of the alphabet.
pub open spec fn letter(k: int) -> char {
    (65 + k) as char
}

/// The letters at the given alphabet positions, in order.
pub fn letters_of(idx: &Vec<usize>) -> (r: String)
    requires
        forall|i: int| 0 <= i < idx@.len() ==> idx@[i] < 26,
    ensures
        r@.len() == idx@.len(),
        forall|i: int| 0 <= i < idx@.len() ==> r@[i] == letter(idx@[i] as int),
{
    let letters = "ABCDEFGHIJKLMNOPQRSTUVWXYZ";
    proof {
        reveal_strlit("ABCDEFGHIJKLMNOPQRSTUVWXYZ");
    }
    assert(letters@.len() == 26);
    assert(forall|k: int| 0 <= k < 26 ==> #[trigger] letters@[k] == letter(k));
    let mut result = String::new();
    let mut n: usize = 0;
    while n < idx.len()
        invariant
            n <= idx@.len(),
            result@.len() == n,
            forall|i: int| 0 <= i < idx@.len() ==> idx@[i] < 26,
            forall|i: int| 0 <= i < n ==> result@[i] == letter(idx@[i] as int),
            letters@.len() == 26,
            forall|k: int| 0 <= k < 26 ==> #[trigger] letters@[k] == letter(k),
        decreases idx@.len() - n,
    {
        let k = idx[n];
        let ghost before = result@;
        result.append(letters.substring_char(k, k + 1));
        assert(result@ == before + letters@.subrange(k as int, k + 1));
        assert(result@[n as int] == letters@[k as int]);
        n = n + 1;
    }
    result
}

/// Every letter position in `ks` is an uppercase letter.
pub proof fn lemma_letters_upper(ks: Seq<usize>, s: Seq<char>)
    requires
        s.len() == ks.len(),
        forall|i: int| 0 <= i < ks.len() ==> ks[i] < 26,
        forall|i: int| 0 <= i < ks.len() ==> s[i] == letter(ks[i] as int),
    ensures
        all_upper(s),
{
    assert forall|i: int| 0 <= i < s.len() implies is_upper(#[trigger] s[i]) by {
        assert(s[i] == letter(ks[i] as int));
    }
}

/// `size` alphabet positions drawn uniformly from `rng`.
fn draw_positions(rng: &mut rand::rngs::StdRng, size: usize) -> (r: Vec<usize>)
    ensures
        r@.len() == size,
        forall|i: int| 0 <= i < size ==> r@[i] < 26,
{
    let mut out: Vec<usize> = Vec::new();
    let mut n: usize = 0;
    while n < size
        invariant
            n <= size,
            out@.len() == n,
            forall|i: int| 0 <= i < n ==> out@[i] < 26,
        decreases size - n,
    {
        out.push(draw(rng, 0, 26));
        n = n + 1;
    }
    out
}

/// A string of `size` uppercase letters, each drawn uniformly from a
/// generator seeded for this call alone; `None` only where no generator
/// could be seeded.
pub fn build_block(size: usize) -> (r: Option<String>)
    ensures
        r matches Some(b) ==> b@.len() == size && all_upper(b@),
{
    match fresh_rng() {
        None => None,
        Some(mut rng) => {
            let idx = draw_positions(&mut rng, size);
            let b = letters_of(&idx);
            proof {
                lemma_letters_upper(idx@, b@);
            }
            Some(b)
        },
    }
}

} // verus!
