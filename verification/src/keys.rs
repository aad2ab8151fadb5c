//! Encoding of log indexes as RocksDB keys.
//!
//! A log index is stored under its eight big-endian bytes, so that the
//! store's bytewise key order is the numeric order of the indexes.
use byteorder::BigEndian;
use byteorder::ReadBytesExt;
use byteorder::WriteBytesExt;
use vstd::prelude::*;

verus! {

/// `256` to the power `n`.
pub open spec fn pow256(n: nat) -> nat
    decreases n,
{
    if n == 0 {
        1
    } else {
        256 * pow256((n - 1) as nat)
    }
}

/// The number that a byte string denotes, read as a big-endian base-256 numeral.
pub open spec fn be_value(s: Seq<u8>) -> nat
    decreases s.len(),
{
    if s.len() == 0 {
        0
    } else {
        s[0] as nat * pow256((s.len() - 1) as nat) + be_value(s.drop_first())
    }
}

/// The eight big-endian bytes of `n`, most significant first.
pub open spec fn be_bytes(n: u64) -> Seq<u8> {
    seq![
        #[verifier::truncate] ((n >> 56u64) as u8),
        #[verifier::truncate] (((n >> 48u64) & 0xffu64) as u8),
        #[verifier::truncate] (((n >> 40u64) & 0xffu64) as u8),
        #[verifier::truncate] (((n >> 32u64) & 0xffu64) as u8),
        #[verifier::truncate] (((n >> 24u64) & 0xffu64) as u8),
        #[verifier::truncate] (((n >> 16u64) & 0xffu64) as u8),
        #[verifier::truncate] (((n >> 8u64) & 0xffu64) as u8),
        #[verifier::truncate] ((n & 0xffu64) as u8),
    ]
}

/// Bytewise (lexicographic) order on byte strings, the order in which
/// RocksDB's default comparator keeps its keys: `a` sorts strictly before `b`.
pub open spec fn lex_lt(a: Seq<u8>, b: Seq<u8>) -> bool
    decreases a.len(),
{
    if a.len() == 0 {
        b.len() > 0
    } else if b.len() == 0 {
        false
    } else if a[0] < b[0] {
        true
    } else if a[0] > b[0] {
        false
    } else {
        lex_lt(a.drop_first(), b.drop_first())
    }
}

/// `a` sorts before `b` or equals it.
pub open spec fn lex_le(a: Seq<u8>, b: Seq<u8>) -> bool {
    lex_lt(a, b) || a == b
}

proof fn lemma_pow256_pos(n: nat)
    ensures
        pow256(n) > 0,
    decreases n,
{
    if n > 0 {
        lemma_pow256_pos((n - 1) as nat);
    }
}

proof fn lemma_be_value_bound(s: Seq<u8>)
    ensures
        be_value(s) < pow256(s.len()),
    decreases s.len(),
{
    if s.len() > 0 {
        let p = pow256((s.len() - 1) as nat);
        lemma_be_value_bound(s.drop_first());
        lemma_pow256_pos((s.len() - 1) as nat);
        assert(s[0] as int * p <= 255 * p) by (nonlinear_arith)
            requires
                s[0] <= 255,
                p > 0,
        ;
        assert(pow256(s.len()) == 256 * p);
    }
}

/// For byte strings of one length, the bytewise order is the order of the
/// numbers that they denote.
pub proof fn lemma_lex_lt_is_value_lt(a: Seq<u8>, b: Seq<u8>)
    requires
        a.len() == b.len(),
    ensures
        lex_lt(a, b) <==> be_value(a) < be_value(b),
    decreases a.len(),
{
    if a.len() > 0 {
        let n = (a.len() - 1) as nat;
        let p = pow256(n);
        let a1 = a.drop_first();
        let b1 = b.drop_first();
        lemma_be_value_bound(a1);
        lemma_be_value_bound(b1);
        lemma_pow256_pos(n);
        lemma_lex_lt_is_value_lt(a1, b1);
        if a[0] < b[0] {
            assert((a[0] as int + 1) * p <= b[0] as int * p) by (nonlinear_arith)
                requires
                    a[0] + 1 <= b[0],
                    p > 0,
            ;
            assert((a[0] as int + 1) * p == a[0] as int * p + p) by (nonlinear_arith);
        } else if a[0] > b[0] {
            assert((b[0] as int + 1) * p <= a[0] as int * p) by (nonlinear_arith)
                requires
                    b[0] + 1 <= a[0],
                    p > 0,
            ;
            assert((b[0] as int + 1) * p == b[0] as int * p + p) by (nonlinear_arith);
        }
    }
}

proof fn lemma_be_value_unfold(s: Seq<u8>)
    requires
        s.len() > 0,
    ensures
        be_value(s) == s[0] as nat * pow256((s.len() - 1) as nat) + be_value(s.drop_first()),
{
}

/// The value of an eight-byte string, written out.
proof fn lemma_be_value_8(s: Seq<u8>)
    requires
        s.len() == 8,
    ensures
        be_value(s) == s[0] as int * 0x100000000000000 + s[1] as int * 0x1000000000000 + s[2] as int
            * 0x10000000000 + s[3] as int * 0x100000000 + s[4] as int * 0x1000000 + s[5] as int
            * 0x10000 + s[6] as int * 0x100 + s[7] as int,
{
    reveal_with_fuel(pow256, 8);
    assert(pow256(0) == 1);
    assert(pow256(1) == 0x100);
    assert(pow256(2) == 0x10000);
    assert(pow256(3) == 0x1000000);
    assert(pow256(4) == 0x100000000);
    assert(pow256(5) == 0x10000000000);
    assert(pow256(6) == 0x1000000000000);
    assert(pow256(7) == 0x100000000000000);
    let s1 = s.drop_first();
    let s2 = s1.drop_first();
    let s3 = s2.drop_first();
    let s4 = s3.drop_first();
    let s5 = s4.drop_first();
    let s6 = s5.drop_first();
    let s7 = s6.drop_first();
    let s8 = s7.drop_first();
    assert(s8.len() == 0);
    assert(be_value(s8) == 0);
    lemma_be_value_unfold(s7);
    lemma_be_value_unfold(s6);
    lemma_be_value_unfold(s5);
    lemma_be_value_unfold(s4);
    lemma_be_value_unfold(s3);
    lemma_be_value_unfold(s2);
    lemma_be_value_unfold(s1);
    lemma_be_value_unfold(s);
}

/// Decoding the encoding of `n` gives `n` back.
pub proof fn lemma_be_value_of_bytes(n: u64)
    ensures
        be_value(be_bytes(n)) == n,
        be_bytes(n).len() == 8,
{
    let s = be_bytes(n);
    lemma_be_value_8(s);
    let b0 = s[0];
    let b1 = s[1];
    let b2 = s[2];
    let b3 = s[3];
    let b4 = s[4];
    let b5 = s[5];
    let b6 = s[6];
    let b7 = s[7];
    assert(b0 as int * 0x100000000000000 + b1 as int * 0x1000000000000 + b2 as int * 0x10000000000
        + b3 as int * 0x100000000 + b4 as int * 0x1000000 + b5 as int * 0x10000 + b6 as int
        * 0x100 + b7 as int == n) by (bit_vector)
        requires
            b0 == #[verifier::truncate] ((n >> 56u64) as u8),
            b1 == #[verifier::truncate] (((n >> 48u64) & 0xffu64) as u8),
            b2 == #[verifier::truncate] (((n >> 40u64) & 0xffu64) as u8),
            b3 == #[verifier::truncate] (((n >> 32u64) & 0xffu64) as u8),
            b4 == #[verifier::truncate] (((n >> 24u64) & 0xffu64) as u8),
            b5 == #[verifier::truncate] (((n >> 16u64) & 0xffu64) as u8),
            b6 == #[verifier::truncate] (((n >> 8u64) & 0xffu64) as u8),
            b7 == #[verifier::truncate] ((n & 0xffu64) as u8),
    ;
}

/// Distinct indexes get distinct keys.
pub proof fn lemma_be_bytes_injective(x: u64, y: u64)
    ensures
        be_bytes(x) == be_bytes(y) <==> x == y,
{
    lemma_be_value_of_bytes(x);
    lemma_be_value_of_bytes(y);
}

/// The key order is the index order: the key of `x` sorts before the key of
/// `y` exactly when `x < y`.
pub proof fn lemma_key_order_is_index_order(x: u64, y: u64)
    ensures
        lex_lt(be_bytes(x), be_bytes(y)) <==> x < y,
        lex_le(be_bytes(x), be_bytes(y)) <==> x <= y,
{
    lemma_be_value_of_bytes(x);
    lemma_be_value_of_bytes(y);
    lemma_lex_lt_is_value_lt(be_bytes(x), be_bytes(y));
    lemma_be_bytes_injective(x, y);
}

/// Appends the big-endian bytes of `n` to `buf`, through byteorder's
/// `WriteBytesExt::write_u64::<BigEndian>`. byteorder writes `n.to_be_bytes()`
/// with `write_all`, which on a `Vec<u8>` appends and never fails.
#[verifier::external_body]
fn write_u64_big_endian(buf: &mut Vec<u8>, n: u64)
    ensures
        final(buf)@ == old(buf)@ + be_bytes(n),
{
    buf.write_u64::<BigEndian>(n).unwrap()
}

/// Reads the first eight bytes of `buf` as a big-endian number, through
/// byteorder's `ReadBytesExt::read_u64::<BigEndian>`, which reads them with
/// `read_exact` and decodes them with `u64::from_be_bytes`. With fewer than
/// eight bytes it fails, hence the `requires`.
#[verifier::external_body]
fn read_u64_big_endian(buf: &[u8]) -> (n: u64)
    requires
        buf@.len() >= 8,
    ensures
        n as nat == be_value(buf@.subrange(0, 8)),
{
    let mut reader = buf;
    reader.read_u64::<BigEndian>().unwrap()
}

/// The key under which the log entry with index `id` is stored.
pub fn id_to_bin(id: u64) -> (buf: Vec<u8>)
    ensures
        buf@ == be_bytes(id),
        buf@.len() == 8,
{
    let mut buf: Vec<u8> = Vec::with_capacity(8);
    write_u64_big_endian(&mut buf, id);
    assert(buf@ =~= be_bytes(id));
    buf
}

/// The log index stored under the key `buf`, read from its first eight bytes.
pub fn bin_to_id(buf: &[u8]) -> (id: u64)
    requires
        buf@.len() >= 8,
    ensures
        id as nat == be_value(buf@.subrange(0, 8)),
        buf@.len() == 8 ==> id as nat == be_value(buf@),
{
    let head = vstd::slice::slice_subrange(buf, 0, 8);
    let id = read_u64_big_endian(head);
    assert(head@.subrange(0, 8) =~= head@);
    assert(buf@.len() == 8 ==> buf@.subrange(0, 8) =~= buf@);
    id
}

/// Decoding a key that `id_to_bin` made gives its index back.
pub proof fn lemma_bin_to_id_of_id_to_bin(id: u64, key: Seq<u8>)
    requires
        key == be_bytes(id),
    ensures
        key.len() == 8,
        be_value(key.subrange(0, 8)) == id,
{
    lemma_be_value_of_bytes(id);
    assert(key.subrange(0, 8) =~= key);
}

} // verus!
