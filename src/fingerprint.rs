//! Transaction fingerprints: the ledger's keys.
//!
//! A fingerprint is a byte string that starts with a tag for the kind of
//! action and then encodes the action's parameters in a self-delimiting way:
//! a felt as its 32 bytes, a list as each item behind a 1 byte and a closing
//! 0 byte, an `Option` as 0 or as 1 and the felt, a `bool` as 0 or 1.
use vstd::prelude::*;
use crate::felt::Felt;
use crate::reader::push_tail_bytes;

verus! {

pub const DECLARE_TAG: u8 = 1;

pub const DEPLOY_TAG: u8 = 2;

pub const INVOKE_TAG: u8 = 3;

pub open spec fn enc_felt_items(s: Seq<Felt>) -> Seq<u8>
    decreases s.len(),
{
    if s.len() == 0 {
        Seq::empty()
    } else {
        enc_felt_items(s.drop_last()) + seq![1u8] + s.last().bytes@
    }
}

pub open spec fn enc_felts(s: Seq<Felt>) -> Seq<u8> {
    enc_felt_items(s) + seq![0u8]
}

pub open spec fn enc_byte_items(s: Seq<u8>) -> Seq<u8>
    decreases s.len(),
{
    if s.len() == 0 {
        Seq::empty()
    } else {
        enc_byte_items(s.drop_last()) + seq![1u8, s.last()]
    }
}

pub open spec fn enc_bytes(s: Seq<u8>) -> Seq<u8> {
    enc_byte_items(s) + seq![0u8]
}

pub open spec fn enc_option(o: Option<Felt>) -> Seq<u8> {
    match o {
        Some(f) => seq![1u8] + f.bytes@,
        None => seq![0u8],
    }
}

pub open spec fn enc_bool(b: bool) -> Seq<u8> {
    if b {
        seq![1u8]
    } else {
        seq![0u8]
    }
}

/// Fingerprint of a declaration of the contract named `contract`.
pub open spec fn declare_id(contract: Seq<u8>) -> Seq<u8> {
    seq![DECLARE_TAG] + enc_bytes(contract)
}

/// Fingerprint of a deployment.
pub open spec fn deploy_id(class_hash: Felt, calldata: Seq<Felt>, salt: Option<Felt>, unique: bool) -> Seq<u8> {
    seq![DEPLOY_TAG] + class_hash.bytes@ + enc_felts(calldata) + enc_option(salt) + enc_bool(unique)
}

/// Fingerprint of an invocation.
pub open spec fn invoke_id(contract_address: Felt, function_selector: Felt, calldata: Seq<Felt>) -> Seq<u8> {
    seq![INVOKE_TAG] + contract_address.bytes@ + function_selector.bytes@ + enc_felts(calldata)
}

fn push_felts(out: &mut Vec<u8>, v: &Vec<Felt>)
    ensures
        final(out)@ == old(out)@ + enc_felts(v@),
{
    let mut k: usize = 0;
    while k < v.len()
        invariant
            k <= v.len(),
            out@ == old(out)@ + enc_felt_items(v@.subrange(0, k as int)),
        decreases v.len() - k,
    {
        out.push(1u8);
        push_tail_bytes(out, &v[k], 0);
        k = k + 1;
        assert(v@.subrange(0, k as int).drop_last() =~= v@.subrange(0, k - 1));
        assert(v[k - 1].bytes@.subrange(0, 32) =~= v[k - 1].bytes@);
        assert(out@ =~= old(out)@ + enc_felt_items(v@.subrange(0, k as int)));
    }
    assert(v@.subrange(0, k as int) =~= v@);
    out.push(0u8);
    assert(out@ =~= old(out)@ + enc_felts(v@));
}

fn push_felt(out: &mut Vec<u8>, f: &Felt)
    ensures
        final(out)@ == old(out)@ + f.bytes@,
{
    push_tail_bytes(out, f, 0);
    assert(f.bytes@.subrange(0, 32) =~= f.bytes@);
}

/// Fingerprint of a declaration.
pub fn generate_declare_tx_id(contract: &Vec<u8>) -> (r: Vec<u8>)
    ensures
        r@ == declare_id(contract@),
{
    let mut out: Vec<u8> = Vec::new();
    out.push(DECLARE_TAG);
    let mut k: usize = 0;
    while k < contract.len()
        invariant
            k <= contract.len(),
            out@ == seq![DECLARE_TAG] + enc_byte_items(contract@.subrange(0, k as int)),
        decreases contract.len() - k,
    {
        out.push(1u8);
        out.push(contract[k]);
        k = k + 1;
        assert(contract@.subrange(0, k as int).drop_last() =~= contract@.subrange(0, k - 1));
        assert(out@ =~= seq![DECLARE_TAG] + enc_byte_items(contract@.subrange(0, k as int)));
    }
    assert(contract@.subrange(0, k as int) =~= contract@);
    out.push(0u8);
    assert(out@ =~= declare_id(contract@));
    out
}

/// Fingerprint of a deployment.
pub fn generate_deploy_tx_id(class_hash: &Felt, calldata: &Vec<Felt>, salt: &Option<Felt>, unique: bool) -> (r: Vec<u8>)
    ensures
        r@ == deploy_id(*class_hash, calldata@, *salt, unique),
{
    let mut out: Vec<u8> = Vec::new();
    out.push(DEPLOY_TAG);
    push_felt(&mut out, class_hash);
    push_felts(&mut out, calldata);
    match salt {
        Some(f) => {
            out.push(1u8);
            push_felt(&mut out, f);
        },
        None => {
            out.push(0u8);
        },
    }
    out.push(if unique { 1u8 } else { 0u8 });
    assert(out@ =~= deploy_id(*class_hash, calldata@, *salt, unique));
    out
}

/// Fingerprint of an invocation.
pub fn generate_invoke_tx_id(contract_address: &Felt, function_selector: &Felt, calldata: &Vec<Felt>) -> (r: Vec<u8>)
    ensures
        r@ == invoke_id(*contract_address, *function_selector, calldata@),
{
    let mut out: Vec<u8> = Vec::new();
    out.push(INVOKE_TAG);
    push_felt(&mut out, contract_address);
    push_felt(&mut out, function_selector);
    push_felts(&mut out, calldata);
    assert(out@ =~= invoke_id(*contract_address, *function_selector, calldata@));
    out
}

/// Fingerprints of different kinds of action never collide, whatever their
/// parameters: each starts with the tag of its kind.
pub proof fn lemma_fingerprints_distinct_across_kinds(
    contract: Seq<u8>,
    class_hash: Felt,
    deploy_calldata: Seq<Felt>,
    salt: Option<Felt>,
    unique: bool,
    contract_address: Felt,
    function_selector: Felt,
    invoke_calldata: Seq<Felt>,
)
    ensures
        declare_id(contract) != deploy_id(class_hash, deploy_calldata, salt, unique),
        declare_id(contract) != invoke_id(contract_address, function_selector, invoke_calldata),
        deploy_id(class_hash, deploy_calldata, salt, unique) != invoke_id(
            contract_address,
            function_selector,
            invoke_calldata,
        ),
{
    assert(declare_id(contract)[0] == DECLARE_TAG);
    assert(deploy_id(class_hash, deploy_calldata, salt, unique)[0] == DEPLOY_TAG);
    assert(invoke_id(contract_address, function_selector, invoke_calldata)[0] == INVOKE_TAG);
}

spec fn front_felt_items(s: Seq<Felt>) -> Seq<u8>
    decreases s.len(),
{
    if s.len() == 0 {
        Seq::empty()
    } else {
        seq![1u8] + s[0].bytes@ + front_felt_items(s.skip(1))
    }
}

proof fn lemma_front_felt_items_push(s: Seq<Felt>)
    requires
        s.len() > 0,
    ensures
        front_felt_items(s) == front_felt_items(s.drop_last()) + seq![1u8] + s.last().bytes@,
    decreases s.len(),
{
    if s.len() == 1 {
        assert(s.drop_last() =~= Seq::<Felt>::empty());
        assert(s.skip(1) =~= Seq::<Felt>::empty());
        assert(front_felt_items(s) =~= seq![1u8] + s[0].bytes@);
    } else {
        lemma_front_felt_items_push(s.skip(1));
        assert(s.skip(1).drop_last() =~= s.drop_last().skip(1));
        assert(s.skip(1).last() == s.last());
        assert(front_felt_items(s) =~= front_felt_items(s.drop_last()) + seq![1u8] + s.last().bytes@);
    }
}

proof fn lemma_felt_items_front(s: Seq<Felt>)
    ensures
        enc_felt_items(s) == front_felt_items(s),
    decreases s.len(),
{
    if s.len() > 0 {
        lemma_felt_items_front(s.drop_last());
        lemma_front_felt_items_push(s);
    }
}

proof fn lemma_felt_eq(a: Felt, b: Felt)
    requires
        a.bytes@ == b.bytes@,
    ensures
        a == b,
{
    assert(a.bytes =~= b.bytes);
}

proof fn lemma_felt_bytes_len(f: Felt)
    ensures
        f.bytes@.len() == 32,
{
}

/// An encoded list followed by anything determines the list and what follows.
proof fn lemma_felts_prefix_free(a: Seq<Felt>, x: Seq<u8>, b: Seq<Felt>, y: Seq<u8>)
    requires
        front_felt_items(a) + seq![0u8] + x == front_felt_items(b) + seq![0u8] + y,
    ensures
        a == b,
        x == y,
    decreases a.len(),
{
    let l = front_felt_items(a) + seq![0u8] + x;
    let r = front_felt_items(b) + seq![0u8] + y;
    if a.len() == 0 {
        if b.len() > 0 {
            assert(l[0] == 0u8);
            assert(r[0] == 1u8);
        }
        assert(b =~= a);
        assert(l.skip(1) =~= x);
        assert(r.skip(1) =~= y);
    } else {
        if b.len() == 0 {
            assert(l[0] == 1u8);
            assert(r[0] == 0u8);
        }
        lemma_felt_bytes_len(a[0]);
        lemma_felt_bytes_len(b[0]);
        assert(l.subrange(1, 33) =~= a[0].bytes@);
        assert(r.subrange(1, 33) =~= b[0].bytes@);
        lemma_felt_eq(a[0], b[0]);
        assert(l.skip(33) =~= front_felt_items(a.skip(1)) + seq![0u8] + x);
        assert(r.skip(33) =~= front_felt_items(b.skip(1)) + seq![0u8] + y);
        lemma_felts_prefix_free(a.skip(1), x, b.skip(1), y);
        assert(a =~= seq![a[0]] + a.skip(1));
        assert(b =~= seq![b[0]] + b.skip(1));
    }
}

spec fn front_byte_items(s: Seq<u8>) -> Seq<u8>
    decreases s.len(),
{
    if s.len() == 0 {
        Seq::empty()
    } else {
        seq![1u8, s[0]] + front_byte_items(s.skip(1))
    }
}

proof fn lemma_byte_items_front(s: Seq<u8>)
    ensures
        enc_byte_items(s) == front_byte_items(s),
    decreases s.len(),
{
    if s.len() > 0 {
        lemma_byte_items_front(s.drop_last());
        lemma_front_byte_items_push(s);
    }
}

proof fn lemma_front_byte_items_push(s: Seq<u8>)
    requires
        s.len() > 0,
    ensures
        front_byte_items(s) == front_byte_items(s.drop_last()) + seq![1u8, s.last()],
    decreases s.len(),
{
    if s.len() == 1 {
        assert(s.drop_last() =~= Seq::<u8>::empty());
        assert(s.skip(1) =~= Seq::<u8>::empty());
        assert(front_byte_items(s) =~= seq![1u8, s[0]]);
    } else {
        lemma_front_byte_items_push(s.skip(1));
        assert(s.skip(1).drop_last() =~= s.drop_last().skip(1));
        assert(s.skip(1).last() == s.last());
        assert(front_byte_items(s) =~= front_byte_items(s.drop_last()) + seq![1u8, s.last()]);
    }
}

proof fn lemma_bytes_prefix_free(a: Seq<u8>, b: Seq<u8>)
    requires
        front_byte_items(a) + seq![0u8] == front_byte_items(b) + seq![0u8],
    ensures
        a == b,
    decreases a.len(),
{
    let l = front_byte_items(a) + seq![0u8];
    let r = front_byte_items(b) + seq![0u8];
    if a.len() == 0 {
        if b.len() > 0 {
            assert(l[0] == 0u8);
            assert(r[0] == 1u8);
        }
        assert(b =~= a);
    } else {
        if b.len() == 0 {
            assert(l[0] == 1u8);
            assert(r[0] == 0u8);
        }
        assert(l[1] == a[0]);
        assert(r[1] == b[0]);
        assert(l.skip(2) =~= front_byte_items(a.skip(1)) + seq![0u8]);
        assert(r.skip(2) =~= front_byte_items(b.skip(1)) + seq![0u8]);
        lemma_bytes_prefix_free(a.skip(1), b.skip(1));
        assert(a =~= seq![a[0]] + a.skip(1));
        assert(b =~= seq![b[0]] + b.skip(1));
    }
}

/// Two declarations have the same fingerprint only when they declare the same
/// contract.
pub proof fn lemma_declare_id_injective(a: Seq<u8>, b: Seq<u8>)
    requires
        declare_id(a) == declare_id(b),
    ensures
        a == b,
{
    lemma_byte_items_front(a);
    lemma_byte_items_front(b);
    assert(declare_id(a).skip(1) =~= front_byte_items(a) + seq![0u8]);
    assert(declare_id(b).skip(1) =~= front_byte_items(b) + seq![0u8]);
    lemma_bytes_prefix_free(a, b);
}

/// Two deployments have the same fingerprint only when they have the same
/// class, constructor calldata, salt and uniqueness flag.
pub proof fn lemma_deploy_id_injective(
    h1: Felt,
    c1: Seq<Felt>,
    s1: Option<Felt>,
    u1: bool,
    h2: Felt,
    c2: Seq<Felt>,
    s2: Option<Felt>,
    u2: bool,
)
    requires
        deploy_id(h1, c1, s1, u1) == deploy_id(h2, c2, s2, u2),
    ensures
        h1 == h2,
        c1 == c2,
        s1 == s2,
        u1 == u2,
{
    let l = deploy_id(h1, c1, s1, u1);
    let r = deploy_id(h2, c2, s2, u2);
    lemma_felt_bytes_len(h1);
    lemma_felt_bytes_len(h2);
    assert(l.subrange(1, 33) =~= h1.bytes@);
    assert(r.subrange(1, 33) =~= h2.bytes@);
    lemma_felt_eq(h1, h2);
    lemma_felt_items_front(c1);
    lemma_felt_items_front(c2);
    let x = enc_option(s1) + enc_bool(u1);
    let y = enc_option(s2) + enc_bool(u2);
    assert(l.skip(33) =~= front_felt_items(c1) + seq![0u8] + x);
    assert(r.skip(33) =~= front_felt_items(c2) + seq![0u8] + y);
    lemma_felts_prefix_free(c1, x, c2, y);
    match s1 {
        Some(f1) => {
            assert(x[0] == 1u8);
            lemma_felt_bytes_len(f1);
            match s2 {
                Some(f2) => {
                    lemma_felt_bytes_len(f2);
                    assert(x.subrange(1, 33) =~= f1.bytes@);
                    assert(y.subrange(1, 33) =~= f2.bytes@);
                    lemma_felt_eq(f1, f2);
                    assert(x[33] == y[33]);
                },
                None => {
                    assert(y[0] == 0u8);
                },
            }
        },
        None => {
            assert(x[0] == 0u8);
            match s2 {
                Some(f2) => {
                    assert(y[0] == 1u8);
                },
                None => {
                    assert(x[1] == y[1]);
                },
            }
        },
    }
}

/// Two invocations have the same fingerprint only when they call the same
/// function of the same contract with the same calldata.
pub proof fn lemma_invoke_id_injective(
    a1: Felt,
    f1: Felt,
    c1: Seq<Felt>,
    a2: Felt,
    f2: Felt,
    c2: Seq<Felt>,
)
    requires
        invoke_id(a1, f1, c1) == invoke_id(a2, f2, c2),
    ensures
        a1 == a2,
        f1 == f2,
        c1 == c2,
{
    let l = invoke_id(a1, f1, c1);
    let r = invoke_id(a2, f2, c2);
    lemma_felt_bytes_len(a1);
    lemma_felt_bytes_len(a2);
    lemma_felt_bytes_len(f1);
    lemma_felt_bytes_len(f2);
    assert(l.subrange(1, 33) =~= a1.bytes@);
    assert(r.subrange(1, 33) =~= a2.bytes@);
    assert(l.subrange(33, 65) =~= f1.bytes@);
    assert(r.subrange(33, 65) =~= f2.bytes@);
    lemma_felt_eq(a1, a2);
    lemma_felt_eq(f1, f2);
    lemma_felt_items_front(c1);
    lemma_felt_items_front(c2);
    assert(l.skip(65) =~= front_felt_items(c1) + seq![0u8] + Seq::<u8>::empty());
    assert(r.skip(65) =~= front_felt_items(c2) + seq![0u8] + Seq::<u8>::empty());
    lemma_felts_prefix_free(c1, Seq::empty(), c2, Seq::empty());
}

} // verus!
