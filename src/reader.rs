//! Decoding of typed arguments from a buffer of felts, in the serialization
//! that scripts use: a felt as itself, an integer or a `bool` as one felt, an
//! `Option` as a variant index (0 for `Some`, 1 for `None`) and its payload,
//! an array as its length and its items, and a byte array as its full 31-byte
//! words, a pending word and the pending word's length.
use vstd::prelude::*;
use crate::felt::{Felt, small_value, high_zero};

verus! {

/// Fee settings that a script passes with a transaction.
#[derive(Clone, Copy, Debug)]
pub struct FeeSettings {
    pub max_fee: Option<Felt>,
    pub max_gas: Option<Felt>,
    pub max_gas_unit_price: Option<Felt>,
}

pub open spec fn spec_read_felt(buf: Seq<Felt>, pos: int) -> Option<(Felt, int)> {
    if 0 <= pos < buf.len() {
        Some((buf[pos], pos + 1))
    } else {
        None
    }
}

pub open spec fn spec_read_small(buf: Seq<Felt>, pos: int) -> Option<(nat, int)> {
    match spec_read_felt(buf, pos) {
        Some((f, p)) => match small_value(f) {
            Some(v) => Some((v, p)),
            None => None,
        },
        None => None,
    }
}

pub open spec fn spec_read_bool(buf: Seq<Felt>, pos: int) -> Option<(bool, int)> {
    match spec_read_small(buf, pos) {
        Some((v, p)) => if v == 0 {
            Some((false, p))
        } else if v == 1 {
            Some((true, p))
        } else {
            None
        },
        None => None,
    }
}

pub open spec fn spec_read_option(buf: Seq<Felt>, pos: int) -> Option<(Option<Felt>, int)> {
    match spec_read_small(buf, pos) {
        Some((tag, p)) => if tag == 0 {
            match spec_read_felt(buf, p) {
                Some((f, q)) => Some((Some(f), q)),
                None => None,
            }
        } else if tag == 1 {
            Some((None, p))
        } else {
            None
        },
        None => None,
    }
}

pub open spec fn spec_read_array(buf: Seq<Felt>, pos: int) -> Option<(Seq<Felt>, int)> {
    match spec_read_small(buf, pos) {
        Some((n, p)) => if p + n <= buf.len() {
            Some((buf.subrange(p, p + n), p + n))
        } else {
            None
        },
        None => None,
    }
}

/// The bytes of a sequence of full 31-byte words.
pub open spec fn words_bytes(ws: Seq<Felt>) -> Seq<u8>
    decreases ws.len(),
{
    if ws.len() == 0 {
        Seq::empty()
    } else {
        words_bytes(ws.drop_last()) + ws.last().bytes@.subrange(1, 32)
    }
}

pub open spec fn spec_read_byte_array(buf: Seq<Felt>, pos: int) -> Option<(Seq<u8>, int)> {
    match spec_read_array(buf, pos) {
        Some((ws, p)) => match spec_read_felt(buf, p) {
            Some((pending, q)) => match spec_read_small(buf, q) {
                Some((plen, r)) => if (forall|i: int| 0 <= i < ws.len() ==> high_zero(#[trigger] ws[i], 1))
                    && plen <= 30 && high_zero(pending, 32 - plen) {
                    Some((words_bytes(ws) + pending.bytes@.subrange(32 - plen, 32), r))
                } else {
                    None
                },
                None => None,
            },
            None => None,
        },
        None => None,
    }
}

pub open spec fn spec_read_fee_settings(buf: Seq<Felt>, pos: int) -> Option<(FeeSettings, int)> {
    match spec_read_option(buf, pos) {
        Some((a, p)) => match spec_read_option(buf, p) {
            Some((b, q)) => match spec_read_option(buf, q) {
                Some((c, r)) => Some((FeeSettings { max_fee: a, max_gas: b, max_gas_unit_price: c }, r)),
                None => None,
            },
            None => None,
        },
        None => None,
    }
}

pub fn read_felt(buf: &Vec<Felt>, pos: usize) -> (r: Option<(Felt, usize)>)
    ensures
        match r {
            Some((f, p)) => spec_read_felt(buf@, pos as int) == Some((f, p as int)),
            None => spec_read_felt(buf@, pos as int) is None,
        },
{
    if pos < buf.len() {
        Some((buf[pos], pos + 1))
    } else {
        None
    }
}

fn read_small(buf: &Vec<Felt>, pos: usize) -> (r: Option<(u64, usize)>)
    ensures
        match r {
            Some((v, p)) => spec_read_small(buf@, pos as int) == Some((v as nat, p as int)),
            None => spec_read_small(buf@, pos as int) is None,
        },
{
    match read_felt(buf, pos) {
        Some((f, p)) => match f.to_u64() {
            Some(v) => Some((v, p)),
            None => None,
        },
        None => None,
    }
}

pub fn read_bool(buf: &Vec<Felt>, pos: usize) -> (r: Option<(bool, usize)>)
    ensures
        match r {
            Some((b, p)) => spec_read_bool(buf@, pos as int) == Some((b, p as int)),
            None => spec_read_bool(buf@, pos as int) is None,
        },
{
    match read_small(buf, pos) {
        Some((v, p)) => if v == 0 {
            Some((false, p))
        } else if v == 1 {
            Some((true, p))
        } else {
            None
        },
        None => None,
    }
}

pub fn read_option(buf: &Vec<Felt>, pos: usize) -> (r: Option<(Option<Felt>, usize)>)
    ensures
        match r {
            Some((o, p)) => spec_read_option(buf@, pos as int) == Some((o, p as int)),
            None => spec_read_option(buf@, pos as int) is None,
        },
{
    match read_small(buf, pos) {
        Some((tag, p)) => if tag == 0 {
            match read_felt(buf, p) {
                Some((f, q)) => Some((Some(f), q)),
                None => None,
            }
        } else if tag == 1 {
            Some((None, p))
        } else {
            None
        },
        None => None,
    }
}

/// The felts `buf[lo..hi]`.
pub fn copy_range(buf: &Vec<Felt>, lo: usize, hi: usize) -> (r: Vec<Felt>)
    requires
        lo <= hi <= buf.len(),
    ensures
        r@ == buf@.subrange(lo as int, hi as int),
{
    let mut r: Vec<Felt> = Vec::new();
    let mut k: usize = lo;
    while k < hi
        invariant
            lo <= k <= hi <= buf.len(),
            r@ == buf@.subrange(lo as int, k as int),
        decreases hi - k,
    {
        r.push(buf[k]);
        k = k + 1;
        assert(r@ =~= buf@.subrange(lo as int, k as int));
    }
    r
}

pub fn read_array(buf: &Vec<Felt>, pos: usize) -> (r: Option<(Vec<Felt>, usize)>)
    ensures
        match r {
            Some((a, p)) => spec_read_array(buf@, pos as int) == Some((a@, p as int)),
            None => spec_read_array(buf@, pos as int) is None,
        },
{
    match read_small(buf, pos) {
        Some((n, p)) => if n <= (buf.len() - p) as u64 {
            let end = p + n as usize;
            Some((copy_range(buf, p, end), end))
        } else {
            None
        },
        None => None,
    }
}

/// The bytes of the felt from index `lo` to the end, appended to `out`.
pub(crate) fn push_tail_bytes(out: &mut Vec<u8>, f: &Felt, lo: usize)
    requires
        lo <= 32,
    ensures
        final(out)@ == old(out)@ + f.bytes@.subrange(lo as int, 32),
{
    let mut k: usize = lo;
    while k < 32
        invariant
            lo <= k <= 32,
            out@ == old(out)@ + f.bytes@.subrange(lo as int, k as int),
        decreases 32 - k,
    {
        out.push(f.bytes[k]);
        k = k + 1;
        assert(out@ =~= old(out)@ + f.bytes@.subrange(lo as int, k as int));
    }
}

pub fn read_byte_array(buf: &Vec<Felt>, pos: usize) -> (r: Option<(Vec<u8>, usize)>)
    ensures
        match r {
            Some((b, p)) => spec_read_byte_array(buf@, pos as int) == Some((b@, p as int)),
            None => spec_read_byte_array(buf@, pos as int) is None,
        },
{
    let (words, p) = match read_array(buf, pos) {
        Some(x) => x,
        None => return None,
    };
    let (pending, q) = match read_felt(buf, p) {
        Some(x) => x,
        None => return None,
    };
    let (plen, r) = match read_small(buf, q) {
        Some(x) => x,
        None => return None,
    };
    let mut out: Vec<u8> = Vec::new();
    let mut k: usize = 0;
    while k < words.len()
        invariant
            k <= words.len(),
            spec_read_array(buf@, pos as int) == Some((words@, p as int)),
            spec_read_felt(buf@, p as int) == Some((pending, q as int)),
            spec_read_small(buf@, q as int) == Some((plen as nat, r as int)),
            forall|i: int| 0 <= i < k ==> high_zero(#[trigger] words@[i], 1),
            out@ == words_bytes(words@.subrange(0, k as int)),
        decreases words.len() - k,
    {
        if words[k].bytes[0] != 0 {
            assert(words@[k as int].bytes@[0] != 0);
            assert(!high_zero(words@[k as int], 1));
            return None;
        }
        let ghost before = out@;
        push_tail_bytes(&mut out, &words[k], 1);
        k = k + 1;
        assert(words@.subrange(0, k as int).drop_last() =~= words@.subrange(0, k - 1));
    }
    assert(words@.subrange(0, k as int) =~= words@);
    if plen > 30 {
        return None;
    }
    let start = 32 - plen as usize;
    let mut i: usize = 0;
    while i < start
        invariant
            i <= start <= 32,
            start == 32 - plen,
            plen <= 30,
            spec_read_array(buf@, pos as int) == Some((words@, p as int)),
            spec_read_felt(buf@, p as int) == Some((pending, q as int)),
            spec_read_small(buf@, q as int) == Some((plen as nat, r as int)),
            forall|j: int| 0 <= j < words@.len() ==> high_zero(#[trigger] words@[j], 1),
            high_zero(pending, i as int),
        decreases start - i,
    {
        if pending.bytes[i] != 0 {
            assert(pending.bytes@[i as int] != 0);
            assert(!high_zero(pending, 32 - plen));
            return None;
        }
        i = i + 1;
    }
    push_tail_bytes(&mut out, &pending, start);
    Some((out, r))
}

pub fn read_fee_settings(buf: &Vec<Felt>, pos: usize) -> (r: Option<(FeeSettings, usize)>)
    ensures
        match r {
            Some((s, p)) => spec_read_fee_settings(buf@, pos as int) == Some((s, p as int)),
            None => spec_read_fee_settings(buf@, pos as int) is None,
        },
{
    let (a, p) = match read_option(buf, pos) {
        Some(x) => x,
        None => return None,
    };
    let (b, q) = match read_option(buf, p) {
        Some(x) => x,
        None => return None,
    };
    let (c, r) = match read_option(buf, q) {
        Some(x) => x,
        None => return None,
    };
    Some((FeeSettings { max_fee: a, max_gas: b, max_gas_unit_price: c }, r))
}

} // verus!
