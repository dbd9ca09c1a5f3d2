//! Deterministic hash engine: a stable 64-bit digest over an ordered
//! sequence of tagged contributions, plus hex encoding of digests.
//!
//! Each logical field contributes a unique tag atom before its payload, so
//! that, say, an empty query and an absent fragment can never produce the
//! same contribution stream. The digest is a pure function of the stream:
//! the same contributions give the same digest in every run.

use vstd::prelude::*;

verus! {

/// Multiplier of the mixing step (the 64-bit FNV prime).
pub const FNV_PRIME: u64 = 0x100000001b3;

/// Initial state of the digest (the 64-bit FNV offset basis).
pub const FNV_OFFSET: u64 = 0xcbf29ce484222325;

/// One mixing step: fold one atom into the running state.
pub open spec fn mix(h: u64, a: u64) -> u64 {
    vstd::wrapping::u64_specs::wrapping_mul(h ^ a, FNV_PRIME)
}

/// Digest state after folding `atoms` into state `h`, left to right.
pub open spec fn fold_atoms(h: u64, atoms: Seq<u64>) -> u64
    decreases atoms.len(),
{
    if atoms.len() == 0 {
        h
    } else {
        fold_atoms(mix(h, atoms[0]), atoms.drop_first())
    }
}

/// The 64-bit digest of a whole contribution stream.
pub open spec fn digest(atoms: Seq<u64>) -> u64 {
    fold_atoms(FNV_OFFSET, atoms)
}

/// The atoms a string payload contributes: its length, then each character.
pub open spec fn str_atoms(s: Seq<char>) -> Seq<u64> {
    seq![s.len() as u64] + Seq::new(s.len(), |i: int| s[i] as u64)
}

/// Folding distributes over concatenation of contribution streams.
pub proof fn lemma_fold_atoms_append(h: u64, a: Seq<u64>, b: Seq<u64>)
    ensures
        fold_atoms(h, a + b) == fold_atoms(fold_atoms(h, a), b),
    decreases a.len(),
{
    if a.len() == 0 {
        assert(a + b =~= b);
    } else {
        assert((a + b).drop_first() =~= a.drop_first() + b);
        lemma_fold_atoms_append(mix(h, a[0]), a.drop_first(), b);
    }
}

/// Accumulates tagged contributions into a running 64-bit digest.
///
/// The ghost `atoms` field records the contribution stream so far; the
/// state is always the digest of that stream.
pub struct IdentHasher {
    state: u64,
    atoms: Ghost<Seq<u64>>,
}

impl IdentHasher {
    /// The contribution stream folded into this hasher so far.
    pub closed spec fn atoms(self) -> Seq<u64> {
        self.atoms@
    }

    /// The state is determined by the recorded stream.
    pub closed spec fn wf(self) -> bool {
        self.state == digest(self.atoms@)
    }

    pub fn new() -> (r: IdentHasher)
        ensures
            r.wf(),
            r.atoms() == Seq::<u64>::empty(),
    {
        IdentHasher { state: FNV_OFFSET, atoms: Ghost(Seq::empty()) }
    }

    /// Folds a single atom (such as a field tag) into the digest.
    pub fn write_atom(&mut self, a: u64)
        requires
            old(self).wf(),
        ensures
            final(self).wf(),
            final(self).atoms() == old(self).atoms() + seq![a],
    {
        proof {
            lemma_fold_atoms_append(FNV_OFFSET, self.atoms@, seq![a]);
            reveal_with_fuel(fold_atoms, 2);
            assert(seq![a].drop_first() =~= Seq::<u64>::empty());
            assert(fold_atoms(digest(self.atoms@), seq![a]) == mix(digest(self.atoms@), a));
        }
        self.state = (self.state ^ a).wrapping_mul(FNV_PRIME);
        proof {
            self.atoms@ = self.atoms@ + seq![a];
        }
    }

    /// Folds a string payload in: its length, then each character.
    pub fn write_str(&mut self, s: &str)
        requires
            old(self).wf(),
        ensures
            final(self).wf(),
            final(self).atoms() == old(self).atoms() + str_atoms(s@),
    {
        let n = s.unicode_len();
        self.write_atom(n as u64);
        let mut i: usize = 0;
        while i < n
            invariant
                self.wf(),
                n == s@.len(),
                i <= n,
                self.atoms() == old(self).atoms() + seq![n as u64]
                    + Seq::new(i as nat, |j: int| s@[j] as u64),
            decreases n - i,
        {
            let c = s.get_char(i);
            self.write_atom(c as u64);
            proof {
                assert(Seq::new((i + 1) as nat, |j: int| s@[j] as u64)
                    =~= Seq::new(i as nat, |j: int| s@[j] as u64) + seq![s@[i as int] as u64]);
                assert(self.atoms() =~= old(self).atoms() + seq![n as u64]
                    + Seq::new((i + 1) as nat, |j: int| s@[j] as u64));
            }
            i = i + 1;
        }
        proof {
            assert(self.atoms() =~= old(self).atoms() + str_atoms(s@));
        }
    }

    /// The digest of everything contributed so far.
    pub fn finish(&self) -> (r: u64)
        requires
            self.wf(),
        ensures
            r == digest(self.atoms()),
    {
        self.state
    }
}

/// The sixteen lowercase hexadecimal digit characters.
pub open spec fn hex_char(n: int) -> char {
    seq!['0', '1', '2', '3', '4', '5', '6', '7', '8', '9', 'a', 'b', 'c', 'd', 'e', 'f'][n]
}

/// The 16-character lowercase hex rendering of a 64-bit value, most
/// significant nibble first.
pub open spec fn hex_digits(h: u64) -> Seq<char> {
    Seq::new(16, |i: int| hex_char(((h >> ((15 - i) * 4) as u64) & 0xf) as int))
}

/// Every position of a hex rendering holds one of the sixteen digit
/// characters.
pub proof fn lemma_hex_digits_in_range(h: u64)
    ensures
        forall|i: int| 0 <= i < 16
            ==> #[trigger] hex_digits(h)[i] == hex_char(((h >> ((15 - i) * 4) as u64) & 0xf) as int)
                && 0 <= ((h >> ((15 - i) * 4) as u64) & 0xf) < 16,
{
    assert forall|i: int| 0 <= i < 16
        implies #[trigger] hex_digits(h)[i] == hex_char(((h >> ((15 - i) * 4) as u64) & 0xf) as int)
            && 0 <= ((h >> ((15 - i) * 4) as u64) & 0xf) < 16 by {
        let s = ((15 - i) * 4) as u64;
        assert((h >> s) & 0xf < 16) by (bit_vector);
    }
}

/// Renders a digest as 16 lowercase hex characters, most significant
/// nibble first.
pub fn encode_hex(h: u64) -> (r: String)
    ensures
        r@ == hex_digits(h),
{
    let table = "0123456789abcdef";
    proof {
        reveal_strlit("0123456789abcdef");
    }
    let mut r = String::new();
    let mut i: usize = 0;
    while i < 16
        invariant
            i <= 16,
            table@.len() == 16,
            forall|n: int| 0 <= n < 16 ==> table@[n] == hex_char(n),
            r@ =~= hex_digits(h).subrange(0, i as int),
        decreases 16 - i,
    {
        let shift: u64 = ((15 - i) * 4) as u64;
        let masked: u64 = (h >> shift) & 0xf;
        assert((h >> shift) & 0xf < 16) by (bit_vector);
        let nib: usize = masked as usize;
        let d = table.substring_char(nib, nib + 1);
        r.append(d);
        proof {
            assert(d@ =~= seq![table@[nib as int]]);
            assert(hex_digits(h)[i as int] == hex_char(nib as int));
            assert(r@ =~= hex_digits(h).subrange(0, i + 1));
        }
        i = i + 1;
    }
    proof {
        assert(r@ =~= hex_digits(h));
    }
    r
}

} // verus!
