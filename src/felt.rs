use vstd::prelude::*;
use vstd::array::{spec_array_update, spec_array_fill_for_copy_type};

verus! {

/// A field element as 32 big-endian bytes.
#[derive(Clone, Copy, Debug)]
pub struct Felt {
    pub bytes: [u8; 32],
}

/// The felt whose value is the byte `b`.
pub open spec fn felt_of_byte(b: u8) -> Felt {
    Felt { bytes: spec_array_update(spec_array_fill_for_copy_type::<u8, 32>(0u8), 31, b) }
}

/// A byte that may stand in a short string: a graphic ASCII character or
/// ASCII whitespace.
pub open spec fn is_text_byte(b: u8) -> bool {
    (0x21 <= b && b <= 0x7e) || b == 0x20 || b == 0x09 || b == 0x0a || b == 0x0c || b == 0x0d
}

/// Reads big-endian bytes as a short string: zero bytes before the text are
/// skipped, the text is made of text bytes, and after it only zero bytes may
/// follow. Gives the text so far and whether it has ended.
pub open spec fn short_string_scan(s: Seq<u8>) -> Option<(Seq<u8>, bool)>
    decreases s.len(),
{
    if s.len() == 0 {
        Some((Seq::empty(), false))
    } else {
        match short_string_scan(s.drop_last()) {
            Some((t, ended)) => {
                let b = s.last();
                if b == 0 {
                    Some((t, ended || t.len() > 0))
                } else if ended {
                    None
                } else if is_text_byte(b) {
                    Some((t.push(b), false))
                } else {
                    None
                }
            },
            None => None,
        }
    }
}

/// The short string that a felt holds, if it holds one.
pub open spec fn short_string(f: Felt) -> Option<Seq<u8>> {
    match short_string_scan(f.bytes@) {
        Some((t, _)) => Some(t),
        None => None,
    }
}

/// The number that a big-endian byte sequence denotes.
pub open spec fn be_value(s: Seq<u8>) -> nat
    decreases s.len(),
{
    if s.len() == 0 {
        0
    } else {
        be_value(s.drop_last()) * 256 + s.last() as nat
    }
}

/// True when the first `n` bytes of the felt are zero.
pub open spec fn high_zero(f: Felt, n: int) -> bool {
    forall|i: int| 0 <= i < n ==> f.bytes@[i] == 0
}

/// The value of a felt whose top 24 bytes are zero, that is one below 2^64.
pub open spec fn small_value(f: Felt) -> Option<nat> {
    if high_zero(f, 24) {
        Some(be_value(f.bytes@.subrange(24, 32)))
    } else {
        None
    }
}

pub open spec fn pow256(n: nat) -> nat
    decreases n,
{
    if n == 0 {
        1
    } else {
        256 * pow256((n - 1) as nat)
    }
}

proof fn lemma_be_value_bound(s: Seq<u8>)
    ensures
        be_value(s) < pow256(s.len()),
    decreases s.len(),
{
    if s.len() > 0 {
        lemma_be_value_bound(s.drop_last());
        let a = be_value(s.drop_last());
        let p = pow256(s.drop_last().len());
        let b = s.last() as nat;
        assert(a * 256 + b < 256 * p) by (nonlinear_arith)
            requires
                a < p,
                b < 256,
        ;
    }
}

impl Felt {
    pub fn zero() -> (r: Felt)
        ensures
            r.bytes@ == Seq::new(32, |i: int| 0u8),
            small_value(r) == Some(0nat),
    {
        let r = Felt { bytes: [0u8; 32] };
        assert(r.bytes@ =~= Seq::new(32, |i: int| 0u8));
        proof {
            let s = r.bytes@.subrange(24, 32);
            assert forall|k: nat| k <= 8 implies be_value(s.subrange(0, k as int)) == 0 by {
                lemma_zero_prefix(s, k);
            }
            assert(s.subrange(0, 8) =~= s);
        }
        r
    }

    /// The felt holding `v`, for `v` below 256.
    pub fn from_byte(v: u8) -> (r: Felt)
        ensures
            small_value(r) == Some(v as nat),
            high_zero(r, 31),
            r.bytes@[31] == v,
            r == felt_of_byte(v),
    {
        let mut r = Felt::zero();
        r.bytes[31] = v;
        assert(r.bytes =~= felt_of_byte(v).bytes);
        proof {
            let s = r.bytes@.subrange(24, 32);
            lemma_zero_prefix(s, 7);
            assert(s.drop_last() =~= s.subrange(0, 7));
        }
        r
    }

    /// The short string that the felt holds, as bytes.
    pub fn to_short_string(&self) -> (r: Option<Vec<u8>>)
        ensures
            match r {
                Some(t) => short_string(*self) == Some(t@),
                None => short_string(*self) is None,
            },
    {
        let mut text: Vec<u8> = Vec::new();
        let mut ended = false;
        let mut i: usize = 0;
        while i < 32
            invariant
                i <= 32,
                short_string_scan(self.bytes@.subrange(0, i as int)) == Some((text@, ended)),
            decreases 32 - i,
        {
            let b = self.bytes[i];
            let ghost prefix = self.bytes@.subrange(0, i as int);
            assert(self.bytes@.subrange(0, i + 1).drop_last() =~= prefix);
            assert(self.bytes@.subrange(0, i + 1).last() == b);
            if b == 0 {
                ended = ended || text.len() > 0;
            } else if ended {
                proof {
                    assert(short_string_scan(self.bytes@.subrange(0, i + 1)) is None);
                    lemma_scan_none_stays(self.bytes@, i + 1, 32);
                    assert(self.bytes@.subrange(0, 32) =~= self.bytes@);
                }
                return None;
            } else if (0x21 <= b && b <= 0x7e) || b == 0x20 || b == 0x09 || b == 0x0a || b == 0x0c
                || b == 0x0d {
                text.push(b);
            } else {
                proof {
                    assert(short_string_scan(self.bytes@.subrange(0, i + 1)) is None);
                    lemma_scan_none_stays(self.bytes@, i + 1, 32);
                    assert(self.bytes@.subrange(0, 32) =~= self.bytes@);
                }
                return None;
            }
            i = i + 1;
        }
        assert(self.bytes@.subrange(0, 32) =~= self.bytes@);
        Some(text)
    }

    /// The felt's value when it is below 2^64.
    pub fn to_u64(&self) -> (r: Option<u64>)
        ensures
            match small_value(*self) {
                Some(v) => r == Some(v as u64) && v < 0x1_0000_0000_0000_0000,
                None => r is None,
            },
    {
        let mut i: usize = 0;
        while i < 24
            invariant
                i <= 24,
                high_zero(*self, i as int),
            decreases 24 - i,
        {
            if self.bytes[i] != 0 {
                return None;
            }
            i = i + 1;
        }
        let ghost s = self.bytes@.subrange(24, 32);
        let mut v: u64 = 0;
        let mut j: usize = 24;
        while j < 32
            invariant
                24 <= j <= 32,
                s == self.bytes@.subrange(24, 32),
                v as nat == be_value(s.subrange(0, j - 24)),
            decreases 32 - j,
        {
            proof {
                lemma_be_value_bound(s.subrange(0, j - 24));
                lemma_pow256_le((j - 24) as nat, 7);
                assert(s.subrange(0, j - 23).drop_last() =~= s.subrange(0, j - 24));
            }
            let b = self.bytes[j];
            assert(v * 256 + b < 0x1_0000_0000_0000_0000) by (nonlinear_arith)
                requires
                    v < pow256(7),
                    pow256(7) == 0x1_00_0000_0000_0000,
                    b < 256,
            ;
            v = v * 256 + b as u64;
            j = j + 1;
        }
        proof {
            assert(s.subrange(0, 8) =~= s);
            lemma_be_value_bound(s);
            lemma_pow256_values();
        }
        Some(v)
    }
}

proof fn lemma_scan_none_stays(s: Seq<u8>, i: int, j: int)
    requires
        0 <= i <= j <= s.len(),
        short_string_scan(s.subrange(0, i)) is None,
    ensures
        short_string_scan(s.subrange(0, j)) is None,
    decreases j - i,
{
    if i < j {
        lemma_scan_none_stays(s, i, j - 1);
        assert(s.subrange(0, j).drop_last() =~= s.subrange(0, j - 1));
    }
}

proof fn lemma_zero_prefix(s: Seq<u8>, k: nat)
    requires
        k <= s.len(),
        forall|i: int| 0 <= i < k ==> s[i] == 0,
    ensures
        be_value(s.subrange(0, k as int)) == 0,
    decreases k,
{
    if k > 0 {
        lemma_zero_prefix(s, (k - 1) as nat);
        assert(s.subrange(0, k as int).drop_last() =~= s.subrange(0, k - 1));
    }
}

proof fn lemma_pow256_values()
    ensures
        pow256(7) == 0x1_00_0000_0000_0000,
        pow256(8) == 0x1_0000_0000_0000_0000,
{
    reveal_with_fuel(pow256, 9);
    assert(pow256(1) == 256);
    assert(pow256(2) == 0x1_0000);
    assert(pow256(3) == 0x100_0000);
    assert(pow256(4) == 0x1_0000_0000);
    assert(pow256(5) == 0x100_0000_0000);
    assert(pow256(6) == 0x1_0000_0000_0000);
    assert(pow256(7) == 0x100_0000_0000_0000);
    assert(pow256(8) == 0x1_0000_0000_0000_0000);
}

proof fn lemma_pow256_le(a: nat, b: nat)
    requires
        a <= b,
    ensures
        pow256(a) <= pow256(b),
        pow256(7) == 0x1_00_0000_0000_0000,
    decreases b,
{
    lemma_pow256_values();
    if a < b {
        lemma_pow256_le(a, (b - 1) as nat);
    }
}

} // verus!
