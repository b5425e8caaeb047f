use vstd::prelude::*;
use vstd::arithmetic::div_mod::lemma_fundamental_div_mod_converse;

use crate::address::Address;
use crate::state::{
    LaunchpadType,
    LiquidityType,
    ListingOpt,
    ListingPlatform,
    PresaleState,
    PresaleStateV0,
    PresaleType,
    RefundType,
};

verus! {

/// `256^n`.
pub open spec fn pow256(n: nat) -> nat
    decreases n,
{
    if n == 0 {
        1
    } else {
        256 * pow256((n - 1) as nat)
    }
}

/// The `n` low bytes of `x`, least significant first.
pub open spec fn le_bytes(x: nat, n: nat) -> Seq<u8>
    decreases n,
{
    if n == 0 {
        Seq::empty()
    } else {
        seq![(x % 256) as u8] + le_bytes(x / 256, (n - 1) as nat)
    }
}

/// The number whose bytes, least significant first, are `s`.
pub open spec fn le_value(s: Seq<u8>) -> nat
    decreases s.len(),
{
    if s.len() == 0 {
        0
    } else {
        s[0] as nat + 256 * le_value(s.drop_first())
    }
}

proof fn lemma_le_value_bound(s: Seq<u8>)
    ensures
        le_value(s) < pow256(s.len()),
    decreases s.len(),
{
    if s.len() > 0 {
        lemma_le_value_bound(s.drop_first());
        let rest = le_value(s.drop_first());
        let p = pow256((s.len() - 1) as nat);
        assert(s[0] as nat + 256 * rest < 256 * p) by (nonlinear_arith)
            requires
                rest < p,
                s[0] < 256,
        ;
    }
}

proof fn lemma_le_bytes_of_value(s: Seq<u8>)
    ensures
        le_bytes(le_value(s), s.len()) == s,
    decreases s.len(),
{
    if s.len() > 0 {
        let rest = le_value(s.drop_first());
        let v = le_value(s);
        lemma_fundamental_div_mod_converse(v as int, 256, rest as int, s[0] as int);
        lemma_le_bytes_of_value(s.drop_first());
        assert(le_bytes(v, s.len()) =~= s);
    }
}

/// The encoding of each kind of field.
#[verifier::opaque]
pub open spec fn enc_u8(x: u8) -> Seq<u8> {
    le_bytes(x as nat, 1)
}

#[verifier::opaque]
pub open spec fn enc_u16(x: u16) -> Seq<u8> {
    le_bytes(x as nat, 2)
}

#[verifier::opaque]
pub open spec fn enc_u32(x: u32) -> Seq<u8> {
    le_bytes(x as nat, 4)
}

#[verifier::opaque]
pub open spec fn enc_u64(x: u64) -> Seq<u8> {
    le_bytes(x as nat, 8)
}

/// A signed number is stored as its two's complement.
pub open spec fn i64_bits(x: i64) -> nat {
    if x >= 0 {
        x as nat
    } else {
        (x + 0x1_0000_0000_0000_0000) as nat
    }
}

#[verifier::opaque]
pub open spec fn enc_i64(x: i64) -> Seq<u8> {
    le_bytes(i64_bits(x), 8)
}

#[verifier::opaque]
pub open spec fn enc_bool(b: bool) -> Seq<u8> {
    if b {
        seq![1u8]
    } else {
        seq![0u8]
    }
}

#[verifier::opaque]
pub open spec fn enc_address(a: Address) -> Seq<u8> {
    a@
}

/// A byte string is stored as its length in four bytes, then the bytes.
#[verifier::opaque]
pub open spec fn enc_bytes(b: Seq<u8>) -> Seq<u8> {
    le_bytes(b.len(), 4) + b
}

fn write_le(out: &mut Vec<u8>, x: u64, n: usize)
    requires
        n <= 8,
    ensures
        final(out)@ == old(out)@ + le_bytes(x as nat, n as nat),
{
    let mut cur: u64 = x;
    let mut i: usize = 0;
    while i < n
        invariant
            i <= n,
            out@ + le_bytes(cur as nat, (n - i) as nat) == old(out)@ + le_bytes(x as nat, n as nat),
        decreases n - i,
    {
        let ghost before = out@;
        out.push((cur % 256) as u8);
        assert(le_bytes(cur as nat, (n - i) as nat) == seq![(cur % 256) as u8] + le_bytes(
            (cur / 256) as nat,
            (n - i - 1) as nat,
        ));
        assert(out@ + le_bytes((cur / 256) as nat, (n - i - 1) as nat) =~= before + le_bytes(
            cur as nat,
            (n - i) as nat,
        ));
        cur = cur / 256;
        i = i + 1;
    }
    assert(le_bytes(cur as nat, 0) =~= Seq::<u8>::empty());
    assert(out@ =~= out@ + le_bytes(cur as nat, 0));
}

fn read_le(bytes: &Vec<u8>, pos: usize, n: usize) -> (r: u64)
    requires
        n <= 8,
        pos + n <= bytes@.len(),
    ensures
        r as nat == le_value(bytes@.subrange(pos as int, pos + n)),
        le_bytes(r as nat, n as nat) == bytes@.subrange(pos as int, pos + n),
{
    let len = bytes.len();
    let mut acc: u64 = 0;
    let mut i: usize = n;
    assert(bytes@.subrange(pos + n, pos + n) =~= Seq::<u8>::empty());
    while i > 0
        invariant
            i <= n <= 8,
            pos + n <= len,
            len == bytes@.len(),
            acc as nat == le_value(bytes@.subrange(pos + i, pos + n)),
        decreases i,
    {
        let ghost rest = bytes@.subrange(pos + i, pos + n);
        let ghost s = bytes@.subrange(pos + i - 1, pos + n);
        assert(s.drop_first() =~= rest);
        proof {
            lemma_le_value_bound(rest);
            lemma_pow256_bound((n - i) as nat);
        }
        let b = bytes[pos + (i - 1)];
        assert(acc * 256 + b <= u64::MAX) by (nonlinear_arith)
            requires
                acc < pow256((n - i) as nat),
                pow256((n - i) as nat) <= pow256(7),
                pow256(7) == 0x100000000000000,
                b < 256,
        ;
        acc = acc * 256 + b as u64;
        i = i - 1;
    }
    proof {
        lemma_le_bytes_of_value(bytes@.subrange(pos as int, pos + n));
    }
    acc
}

proof fn lemma_pow256_bound(k: nat)
    requires
        k <= 7,
    ensures
        pow256(k) <= pow256(7),
        pow256(7) == 0x100000000000000,
    decreases 7 - k,
{
    reveal_with_fuel(pow256, 8);
    if k < 7 {
        lemma_pow256_bound(k + 1);
    }
}

/// Concatenation, kept folded so that long encodings stay one term.
#[verifier::opaque]
pub open spec fn cat(a: Seq<u8>, b: Seq<u8>) -> Seq<u8> {
    a + b
}

/// The bytes of `s` from `a` up to `b` are `piece`.
#[verifier::opaque]
pub open spec fn holds_at(s: Seq<u8>, a: int, b: int, piece: Seq<u8>) -> bool {
    0 <= a <= b <= s.len() && s.subrange(a, b) == piece
}

proof fn lemma_extend(s: Seq<u8>, a: int, b: int, c: int, acc: Seq<u8>, piece: Seq<u8>)
    requires
        holds_at(s, a, b, acc),
        holds_at(s, b, c, piece),
    ensures
        holds_at(s, a, c, cat(acc, piece)),
{
    reveal(holds_at);
    reveal(cat);
    assert(s.subrange(a, c) =~= s.subrange(a, b) + s.subrange(b, c));
}

proof fn lemma_le_bytes_len(x: nat, n: nat)
    ensures
        le_bytes(x, n).len() == n,
    decreases n,
{
    if n > 0 {
        lemma_le_bytes_len(x / 256, (n - 1) as nat);
    }
}

proof fn lemma_le_value_of_bytes(x: nat, n: nat)
    requires
        x < pow256(n),
    ensures
        le_value(le_bytes(x, n)) == x,
    decreases n,
{
    if n > 0 {
        let b = le_bytes(x, n);
        lemma_le_bytes_len(x, n);
        assert(b.drop_first() =~= le_bytes(x / 256, (n - 1) as nat));
        let p = pow256((n - 1) as nat);
        assert(x / 256 < p) by {
            vstd::arithmetic::div_mod::lemma_fundamental_div_mod(x as int, 256);
            assert(x < 256 * p);
            assert((x / 256) * 256 <= x) by {
                vstd::arithmetic::div_mod::lemma_fundamental_div_mod(x as int, 256);
            }
            assert((x / 256) < p) by (nonlinear_arith)
                requires
                    (x / 256) * 256 <= x,
                    x < 256 * p,
            ;
        }
        lemma_le_value_of_bytes(x / 256, (n - 1) as nat);
        vstd::arithmetic::div_mod::lemma_fundamental_div_mod(x as int, 256);
    }
}

/// The widths of the field encodings, and the leading byte of the one-byte ones.
proof fn lemma_enc_facts()
    ensures
        forall|x: u8| #[trigger] enc_u8(x).len() == 1 && enc_u8(x)[0] == x,
        forall|x: u16| #[trigger] enc_u16(x).len() == 2,
        forall|x: u32| #[trigger] enc_u32(x).len() == 4,
        forall|x: u64| #[trigger] enc_u64(x).len() == 8,
        forall|x: i64| #[trigger] enc_i64(x).len() == 8,
        forall|b: bool| #[trigger] enc_bool(b).len() == 1 && enc_bool(b)[0] <= 1,
        forall|a: Address| #[trigger] enc_address(a).len() == 32,
        forall|b: Seq<u8>| #[trigger] enc_bytes(b).len() == 4 + b.len(),
        forall|x: Seq<u8>, y: Seq<u8>| #[trigger] cat(x, y).len() == x.len() + y.len(),
{
    reveal(enc_u8);
    reveal(enc_u16);
    reveal(enc_u32);
    reveal(enc_u64);
    reveal(enc_i64);
    reveal(enc_bool);
    reveal(enc_address);
    reveal(enc_bytes);
    reveal(cat);
    assert forall|x: u8| #[trigger] enc_u8(x).len() == 1 && enc_u8(x)[0] == x by {
        lemma_le_bytes_len(x as nat, 1);
        assert(le_bytes(x as nat, 1) == seq![((x as nat) % 256) as u8] + le_bytes(
            (x as nat) / 256,
            0,
        ));
    }
    assert forall|x: u16| #[trigger] enc_u16(x).len() == 2 by {
        lemma_le_bytes_len(x as nat, 2);
    }
    assert forall|x: u32| #[trigger] enc_u32(x).len() == 4 by {
        lemma_le_bytes_len(x as nat, 4);
    }
    assert forall|x: u64| #[trigger] enc_u64(x).len() == 8 by {
        lemma_le_bytes_len(x as nat, 8);
    }
    assert forall|x: i64| #[trigger] enc_i64(x).len() == 8 by {
        lemma_le_bytes_len(i64_bits(x), 8);
    }
    assert forall|b: Seq<u8>| #[trigger] enc_bytes(b).len() == 4 + b.len() by {
        lemma_le_bytes_len(b.len(), 4);
    }
}

/// What `holds_at` says of positions and bytes.
proof fn lemma_holds_at_facts(s: Seq<u8>, a: int, b: int, x: Seq<u8>)
    ensures
        holds_at(s, a, b, x) ==> 0 <= a <= b <= s.len() && x.len() == b - a && (forall|i: int|
            0 <= i < x.len() ==> s[a + i] == #[trigger] x[i]),
{
    reveal(holds_at);
    if holds_at(s, a, b, x) {
        assert forall|i: int| 0 <= i < x.len() implies s[a + i] == #[trigger] x[i] by {
            assert(s.subrange(a, b)[i] == s[a + i]);
        }
    }
}

proof fn lemma_split(s: Seq<u8>, a: int, c: int, x: Seq<u8>, y: Seq<u8>)
    ensures
        holds_at(s, a, c, cat(x, y)) ==> holds_at(s, a, a + x.len(), x) && holds_at(
            s,
            a + x.len(),
            c,
            y,
        ) && c == a + x.len() + y.len(),
{
    reveal(holds_at);
    reveal(cat);
    if holds_at(s, a, c, cat(x, y)) {
        let z = s.subrange(a, c);
        assert(z == x + y);
        assert(z.len() == x.len() + y.len());
        assert forall|i: int| 0 <= i < x.len() implies s.subrange(a, a + x.len())[i] == x[i] by {
            assert(z[i] == s[a + i]);
            assert((x + y)[i] == x[i]);
        }
        assert(s.subrange(a, a + x.len()) =~= x);
        assert forall|i: int| 0 <= i < y.len() implies s.subrange(a + x.len(), c)[i] == y[i] by {
            assert(z[x.len() + i] == s[a + x.len() + i]);
            assert((x + y)[x.len() + i] == y[i]);
        }
        assert(s.subrange(a + x.len(), c) =~= y);
    }
}

fn put_u8(out: &mut Vec<u8>, x: u8)
    ensures
        final(out)@ == old(out)@ + enc_u8(x),
{
    reveal(enc_u8);
    write_le(out, x as u64, 1);
}

fn put_u16(out: &mut Vec<u8>, x: u16)
    ensures
        final(out)@ == old(out)@ + enc_u16(x),
{
    reveal(enc_u16);
    write_le(out, x as u64, 2);
}

fn put_u32(out: &mut Vec<u8>, x: u32)
    ensures
        final(out)@ == old(out)@ + enc_u32(x),
{
    reveal(enc_u32);
    write_le(out, x as u64, 4);
}

fn put_u64(out: &mut Vec<u8>, x: u64)
    ensures
        final(out)@ == old(out)@ + enc_u64(x),
{
    reveal(enc_u64);
    write_le(out, x, 8);
}

fn put_i64(out: &mut Vec<u8>, x: i64)
    ensures
        final(out)@ == old(out)@ + enc_i64(x),
{
    reveal(enc_i64);
    let bits: u64 = if x >= 0 {
        x as u64
    } else {
        u64::MAX - ((-(x + 1)) as u64)
    };
    assert(bits as nat == i64_bits(x));
    write_le(out, bits, 8);
}

fn put_bool(out: &mut Vec<u8>, b: bool)
    ensures
        final(out)@ == old(out)@ + enc_bool(b),
{
    reveal(enc_bool);
    out.push(if b {
        1u8
    } else {
        0u8
    });
    assert(final(out)@ =~= old(out)@ + enc_bool(b));
}

fn put_raw(out: &mut Vec<u8>, b: &Vec<u8>)
    ensures
        final(out)@ == old(out)@ + b@,
{
    let mut i: usize = 0;
    while i < b.len()
        invariant
            i <= b@.len(),
            out@ == old(out)@ + b@.subrange(0, i as int),
        decreases b@.len() - i,
    {
        out.push(b[i]);
        assert(out@ =~= old(out)@ + b@.subrange(0, i + 1));
        i = i + 1;
    }
    assert(b@.subrange(0, b@.len() as int) =~= b@);
}

fn put_address(out: &mut Vec<u8>, a: &Address)
    ensures
        final(out)@ == old(out)@ + enc_address(*a),
{
    reveal(enc_address);
    let b = a.to_vec();
    put_raw(out, &b);
}

fn put_bytes(out: &mut Vec<u8>, b: &Vec<u8>)
    requires
        b@.len() <= u32::MAX,
    ensures
        final(out)@ == old(out)@ + enc_bytes(b@),
{
    reveal(enc_bytes);
    reveal(enc_u32);
    put_u32(out, b.len() as u32);
    put_raw(out, b);
    assert(final(out)@ =~= old(out)@ + enc_bytes(b@));
}

fn get_n(bytes: &Vec<u8>, pos: usize, n: usize) -> (r: Option<(u64, usize)>)
    requires
        n <= 8,
        pos <= bytes@.len(),
    ensures
        r is Some <==> pos + n <= bytes@.len(),
        r matches Some((v, next)) ==> next == pos + n && le_bytes(v as nat, n as nat)
            == bytes@.subrange(pos as int, next as int) && v < pow256(n as nat),
{
    if bytes.len() - pos < n {
        return None;
    }
    let v = read_le(bytes, pos, n);
    proof {
        lemma_le_value_bound(bytes@.subrange(pos as int, pos + n));
    }
    Some((v, pos + n))
}

fn get_u8(bytes: &Vec<u8>, pos: usize) -> (r: Option<(u8, usize)>)
    requires
        pos <= bytes@.len(),
    ensures
        pos + 1 <= bytes@.len() ==> r is Some,
        r matches Some((v, _)) ==> v == bytes@[pos as int],
        r matches Some((v, next)) ==> next == pos + 1 && next <= bytes@.len() && holds_at(
            bytes@,
            pos as int,
            next as int,
            enc_u8(v),
        ),
{
    reveal(enc_u8);
    reveal(holds_at);
    match get_n(bytes, pos, 1) {
        Some((v, next)) => {
            assert(pow256(1) == 256) by {
                reveal_with_fuel(pow256, 2);
            }
            assert(le_bytes(v as nat, 1) == seq![((v as nat) % 256) as u8] + le_bytes(
                (v as nat) / 256,
                0,
            ));
            assert(bytes@.subrange(pos as int, pos + 1)[0] == bytes@[pos as int]);
            Some((v as u8, next))
        },
        None => None,
    }
}

fn get_u16(bytes: &Vec<u8>, pos: usize) -> (r: Option<(u16, usize)>)
    requires
        pos <= bytes@.len(),
    ensures
        pos + 2 <= bytes@.len() ==> r is Some,
        r matches Some((v, next)) ==> next == pos + 2 && next <= bytes@.len() && holds_at(
            bytes@,
            pos as int,
            next as int,
            enc_u16(v),
        ),
{
    reveal(enc_u16);
    reveal(holds_at);
    match get_n(bytes, pos, 2) {
        Some((v, next)) => {
            assert(pow256(2) == 65536) by {
                reveal_with_fuel(pow256, 3);
            }
            Some((v as u16, next))
        },
        None => None,
    }
}

fn get_u32(bytes: &Vec<u8>, pos: usize) -> (r: Option<(u32, usize)>)
    requires
        pos <= bytes@.len(),
    ensures
        pos + 4 <= bytes@.len() ==> r is Some,
        r matches Some((v, next)) ==> next == pos + 4 && next <= bytes@.len() && holds_at(
            bytes@,
            pos as int,
            next as int,
            enc_u32(v),
        ),
{
    reveal(enc_u32);
    reveal(holds_at);
    match get_n(bytes, pos, 4) {
        Some((v, next)) => {
            assert(pow256(4) == 0x1_0000_0000) by {
                reveal_with_fuel(pow256, 5);
            }
            Some((v as u32, next))
        },
        None => None,
    }
}

fn get_u64(bytes: &Vec<u8>, pos: usize) -> (r: Option<(u64, usize)>)
    requires
        pos <= bytes@.len(),
    ensures
        pos + 8 <= bytes@.len() ==> r is Some,
        r matches Some((v, next)) ==> next == pos + 8 && next <= bytes@.len() && holds_at(
            bytes@,
            pos as int,
            next as int,
            enc_u64(v),
        ),
{
    reveal(enc_u64);
    reveal(holds_at);
    get_n(bytes, pos, 8)
}

fn get_i64(bytes: &Vec<u8>, pos: usize) -> (r: Option<(i64, usize)>)
    requires
        pos <= bytes@.len(),
    ensures
        pos + 8 <= bytes@.len() ==> r is Some,
        r matches Some((v, next)) ==> next == pos + 8 && next <= bytes@.len() && holds_at(
            bytes@,
            pos as int,
            next as int,
            enc_i64(v),
        ),
{
    reveal(enc_i64);
    reveal(holds_at);
    match get_n(bytes, pos, 8) {
        Some((bits, next)) => {
            let v: i64 = if bits <= i64::MAX as u64 {
                bits as i64
            } else {
                -((u64::MAX - bits) as i64) - 1
            };
            assert(i64_bits(v) == bits as nat);
            Some((v, next))
        },
        None => None,
    }
}

fn get_bool(bytes: &Vec<u8>, pos: usize) -> (r: Option<(bool, usize)>)
    requires
        pos <= bytes@.len(),
    ensures
        pos + 1 <= bytes@.len() && bytes@[pos as int] <= 1 ==> r is Some,
        r matches Some((v, next)) ==> next == pos + 1 && next <= bytes@.len() && holds_at(
            bytes@,
            pos as int,
            next as int,
            enc_bool(v),
        ),
{
    reveal(enc_bool);
    reveal(holds_at);
    if bytes.len() - pos < 1 {
        return None;
    }
    let b = bytes[pos];
    if b > 1 {
        return None;
    }
    assert(bytes@.subrange(pos as int, pos + 1) =~= enc_bool(b == 1));
    Some((b == 1, pos + 1))
}

fn get_raw(bytes: &Vec<u8>, pos: usize, n: usize) -> (r: Option<(Vec<u8>, usize)>)
    requires
        pos <= bytes@.len(),
    ensures
        pos + n <= bytes@.len() ==> r is Some,
        r matches Some((v, next)) ==> next == pos + n && next <= bytes@.len() && v@
            == bytes@.subrange(pos as int, next as int),
{
    if bytes.len() - pos < n {
        return None;
    }
    let len = bytes.len();
    let mut v: Vec<u8> = Vec::new();
    let mut i: usize = 0;
    while i < n
        invariant
            i <= n,
            pos + n <= len,
            len == bytes@.len(),
            v@ == bytes@.subrange(pos as int, pos + i),
        decreases n - i,
    {
        assert(pos + i < bytes@.len());
        v.push(bytes[pos + i]);
        assert(v@ =~= bytes@.subrange(pos as int, pos + i + 1));
        i = i + 1;
    }
    Some((v, pos + n))
}

fn get_address(bytes: &Vec<u8>, pos: usize) -> (r: Option<(Address, usize)>)
    requires
        pos <= bytes@.len(),
    ensures
        pos + 32 <= bytes@.len() ==> r is Some,
        r matches Some((v, next)) ==> next == pos + 32 && next <= bytes@.len() && holds_at(
            bytes@,
            pos as int,
            next as int,
            enc_address(v),
        ),
{
    reveal(enc_address);
    reveal(holds_at);
    if bytes.len() - pos < 32 {
        return None;
    }
    let a = Address {
        bytes: [
            bytes[pos + 0],
            bytes[pos + 1],
            bytes[pos + 2],
            bytes[pos + 3],
            bytes[pos + 4],
            bytes[pos + 5],
            bytes[pos + 6],
            bytes[pos + 7],
            bytes[pos + 8],
            bytes[pos + 9],
            bytes[pos + 10],
            bytes[pos + 11],
            bytes[pos + 12],
            bytes[pos + 13],
            bytes[pos + 14],
            bytes[pos + 15],
            bytes[pos + 16],
            bytes[pos + 17],
            bytes[pos + 18],
            bytes[pos + 19],
            bytes[pos + 20],
            bytes[pos + 21],
            bytes[pos + 22],
            bytes[pos + 23],
            bytes[pos + 24],
            bytes[pos + 25],
            bytes[pos + 26],
            bytes[pos + 27],
            bytes[pos + 28],
            bytes[pos + 29],
            bytes[pos + 30],
            bytes[pos + 31]
        ],
    };
    assert(a@ =~= bytes@.subrange(pos as int, pos + 32));
    Some((a, pos + 32))
}

fn get_bytes(bytes: &Vec<u8>, pos: usize, Ghost(expect): Ghost<Option<Seq<u8>>>) -> (r: Option<(Vec<u8>, usize)>)
    requires
        pos <= bytes@.len(),
    ensures
        expect is Some && expect->0.len() <= u32::MAX && holds_at(
            bytes@,
            pos as int,
            pos + 4 + expect->0.len(),
            enc_bytes(expect->0),
        ) ==> (r matches Some((_, next)) && next == pos + 4 + expect->0.len()),
        r matches Some((v, next)) ==> pos <= next <= bytes@.len() && holds_at(
            bytes@,
            pos as int,
            next as int,
            enc_bytes(v@),
        ),
{
    reveal(enc_bytes);
    reveal(enc_u32);
    reveal(holds_at);
    let ghost b = expect->0;
    let ghost ok = expect is Some && b.len() <= u32::MAX && holds_at(
        bytes@,
        pos as int,
        pos + 4 + b.len(),
        enc_bytes(b),
    );
    assert(ok ==> pos + 4 + b.len() <= bytes@.len() && bytes@.subrange(pos as int, pos + 4)
        == le_bytes(b.len(), 4)) by {
        if ok {
            lemma_le_bytes_len(b.len(), 4);
            assert(bytes@.subrange(pos as int, pos + 4) =~= le_bytes(b.len(), 4));
        }
    }
    let (n, start) = match get_u32(bytes, pos) {
        Some(x) => x,
        None => {
            return None;
        },
    };
    assert(ok ==> n == b.len()) by {
        if ok {
            assert(pow256(4) == 0x1_0000_0000) by {
                reveal_with_fuel(pow256, 5);
            }
            lemma_le_value_of_bytes(b.len(), 4);
            lemma_le_value_of_bytes(n as nat, 4);
        }
    }
    if (n as u64) > (usize::MAX as u64) {
        return None;
    }
    let (v, next) = match get_raw(bytes, start, n as usize) {
        Some(x) => x,
        None => {
            return None;
        },
    };
    assert(bytes@.subrange(pos as int, next as int) =~= bytes@.subrange(pos as int, start as int)
        + bytes@.subrange(start as int, next as int));
    Some((v, next))
}

/// The stored tag of a `RefundType`: its variant's position.
pub open spec fn refund_type_tag(v: RefundType) -> u8 {
    match v {
        RefundType::Burn => 0u8,
        RefundType::Refund => 1u8,
    }
}

fn refund_type_tag_of(v: RefundType) -> (r: u8)
    ensures
        r == refund_type_tag(v),
{
    match v {
        RefundType::Burn => 0u8,
        RefundType::Refund => 1u8,
    }
}

fn get_refund_type(bytes: &Vec<u8>, pos: usize) -> (r: Option<(RefundType, usize)>)
    requires
        pos <= bytes@.len(),
    ensures
        pos + 1 <= bytes@.len() && bytes@[pos as int] <= 1 ==> r is Some,
        r matches Some((v, next)) ==> next == pos + 1 && next <= bytes@.len() && holds_at(
            bytes@,
            pos as int,
            next as int,
            enc_u8(refund_type_tag(v)),
        ),
{
    let (tag, next) = match get_u8(bytes, pos) {
        Some(t) => t,
        None => {
            return None;
        },
    };
    match tag {
        0u8 => Some((RefundType::Burn, next)),
        1u8 => Some((RefundType::Refund, next)),
        _ => None,
    }
}

/// The stored tag of a `ListingOpt`: its variant's position.
pub open spec fn listing_opt_tag(v: ListingOpt) -> u8 {
    match v {
        ListingOpt::Auto => 0u8,
        ListingOpt::Manual => 1u8,
    }
}

fn listing_opt_tag_of(v: ListingOpt) -> (r: u8)
    ensures
        r == listing_opt_tag(v),
{
    match v {
        ListingOpt::Auto => 0u8,
        ListingOpt::Manual => 1u8,
    }
}

fn get_listing_opt(bytes: &Vec<u8>, pos: usize) -> (r: Option<(ListingOpt, usize)>)
    requires
        pos <= bytes@.len(),
    ensures
        pos + 1 <= bytes@.len() && bytes@[pos as int] <= 1 ==> r is Some,
        r matches Some((v, next)) ==> next == pos + 1 && next <= bytes@.len() && holds_at(
            bytes@,
            pos as int,
            next as int,
            enc_u8(listing_opt_tag(v)),
        ),
{
    let (tag, next) = match get_u8(bytes, pos) {
        Some(t) => t,
        None => {
            return None;
        },
    };
    match tag {
        0u8 => Some((ListingOpt::Auto, next)),
        1u8 => Some((ListingOpt::Manual, next)),
        _ => None,
    }
}

/// The stored tag of a `LiquidityType`: its variant's position.
pub open spec fn liquidity_type_tag(v: LiquidityType) -> u8 {
    match v {
        LiquidityType::Burn => 0u8,
        LiquidityType::Lock => 1u8,
    }
}

fn liquidity_type_tag_of(v: LiquidityType) -> (r: u8)
    ensures
        r == liquidity_type_tag(v),
{
    match v {
        LiquidityType::Burn => 0u8,
        LiquidityType::Lock => 1u8,
    }
}

fn get_liquidity_type(bytes: &Vec<u8>, pos: usize) -> (r: Option<(LiquidityType, usize)>)
    requires
        pos <= bytes@.len(),
    ensures
        pos + 1 <= bytes@.len() && bytes@[pos as int] <= 1 ==> r is Some,
        r matches Some((v, next)) ==> next == pos + 1 && next <= bytes@.len() && holds_at(
            bytes@,
            pos as int,
            next as int,
            enc_u8(liquidity_type_tag(v)),
        ),
{
    let (tag, next) = match get_u8(bytes, pos) {
        Some(t) => t,
        None => {
            return None;
        },
    };
    match tag {
        0u8 => Some((LiquidityType::Burn, next)),
        1u8 => Some((LiquidityType::Lock, next)),
        _ => None,
    }
}

/// The stored tag of a `ListingPlatform`: its variant's position.
pub open spec fn listing_platform_tag(v: ListingPlatform) -> u8 {
    match v {
        ListingPlatform::Raydium => 0u8,
        ListingPlatform::Meteora => 1u8,
    }
}

fn listing_platform_tag_of(v: ListingPlatform) -> (r: u8)
    ensures
        r == listing_platform_tag(v),
{
    match v {
        ListingPlatform::Raydium => 0u8,
        ListingPlatform::Meteora => 1u8,
    }
}

fn get_listing_platform(bytes: &Vec<u8>, pos: usize) -> (r: Option<(ListingPlatform, usize)>)
    requires
        pos <= bytes@.len(),
    ensures
        pos + 1 <= bytes@.len() && bytes@[pos as int] <= 1 ==> r is Some,
        r matches Some((v, next)) ==> next == pos + 1 && next <= bytes@.len() && holds_at(
            bytes@,
            pos as int,
            next as int,
            enc_u8(listing_platform_tag(v)),
        ),
{
    let (tag, next) = match get_u8(bytes, pos) {
        Some(t) => t,
        None => {
            return None;
        },
    };
    match tag {
        0u8 => Some((ListingPlatform::Raydium, next)),
        1u8 => Some((ListingPlatform::Meteora, next)),
        _ => None,
    }
}

/// The stored tag of a `PresaleType`: its variant's position.
pub open spec fn presale_type_tag(v: PresaleType) -> u8 {
    match v {
        PresaleType::HardCapped => 0u8,
        PresaleType::FairLaunch => 1u8,
    }
}

fn presale_type_tag_of(v: PresaleType) -> (r: u8)
    ensures
        r == presale_type_tag(v),
{
    match v {
        PresaleType::HardCapped => 0u8,
        PresaleType::FairLaunch => 1u8,
    }
}

fn get_presale_type(bytes: &Vec<u8>, pos: usize) -> (r: Option<(PresaleType, usize)>)
    requires
        pos <= bytes@.len(),
    ensures
        pos + 1 <= bytes@.len() && bytes@[pos as int] <= 1 ==> r is Some,
        r matches Some((v, next)) ==> next == pos + 1 && next <= bytes@.len() && holds_at(
            bytes@,
            pos as int,
            next as int,
            enc_u8(presale_type_tag(v)),
        ),
{
    let (tag, next) = match get_u8(bytes, pos) {
        Some(t) => t,
        None => {
            return None;
        },
    };
    match tag {
        0u8 => Some((PresaleType::HardCapped, next)),
        1u8 => Some((PresaleType::FairLaunch, next)),
        _ => None,
    }
}

/// The stored tag of a `LaunchpadType`: its variant's position.
pub open spec fn launchpad_type_tag(v: LaunchpadType) -> u8 {
    match v {
        LaunchpadType::Pro => 0u8,
        LaunchpadType::Degen => 1u8,
    }
}

fn launchpad_type_tag_of(v: LaunchpadType) -> (r: u8)
    ensures
        r == launchpad_type_tag(v),
{
    match v {
        LaunchpadType::Pro => 0u8,
        LaunchpadType::Degen => 1u8,
    }
}

fn get_launchpad_type(bytes: &Vec<u8>, pos: usize) -> (r: Option<(LaunchpadType, usize)>)
    requires
        pos <= bytes@.len(),
    ensures
        pos + 1 <= bytes@.len() && bytes@[pos as int] <= 1 ==> r is Some,
        r matches Some((v, next)) ==> next == pos + 1 && next <= bytes@.len() && holds_at(
            bytes@,
            pos as int,
            next as int,
            enc_u8(launchpad_type_tag(v)),
        ),
{
    let (tag, next) = match get_u8(bytes, pos) {
        Some(t) => t,
        None => {
            return None;
        },
    };
    match tag {
        0u8 => Some((LaunchpadType::Pro, next)),
        1u8 => Some((LaunchpadType::Degen, next)),
        _ => None,
    }
}


/// Fields 1 to 7 of a current record.
pub open spec fn presale_part1(version: u8, owner: Address, token: Address, token_price: u64, hard_cap: u64, soft_cap: u64, min_contribution: u64) -> Seq<u8> {
    cat(cat(cat(cat(cat(cat(enc_u8(version), enc_address(owner)), enc_address(token)), enc_u64(token_price)), enc_u64(hard_cap)), enc_u64(soft_cap)), enc_u64(min_contribution))
}

/// Fields 8 to 14 of a current record.
pub open spec fn presale_part2(max_contribution: u64, total_raised: u64, start_time: i64, end_time: i64, presale_ended: bool, presale_canceled: bool, presale_refund: bool) -> Seq<u8> {
    cat(cat(cat(cat(cat(cat(enc_u64(max_contribution), enc_u64(total_raised)), enc_i64(start_time)), enc_i64(end_time)), enc_bool(presale_ended)), enc_bool(presale_canceled)), enc_bool(presale_refund))
}

/// Fields 15 to 21 of a current record.
pub open spec fn presale_part3(is_init: bool, listing_rate: u64, liquidity_lock_time: i64, liquidity_bp: u16, service_fee: u16, refund_type: RefundType, listing_opt: ListingOpt) -> Seq<u8> {
    cat(cat(cat(cat(cat(cat(enc_bool(is_init), enc_u64(listing_rate)), enc_i64(liquidity_lock_time)), enc_u16(liquidity_bp)), enc_u16(service_fee)), enc_u8(refund_type_tag(refund_type))), enc_u8(listing_opt_tag(listing_opt)))
}

/// Fields 22 to 28 of a current record.
pub open spec fn presale_part4(liquidity_type: LiquidityType, listing_platform: ListingPlatform, fee_collector: Address, identifier: Seq<u8>, affiliate_enabled: bool, total_ref_amount: u64, commission_rate: u16) -> Seq<u8> {
    cat(cat(cat(cat(cat(cat(enc_u8(liquidity_type_tag(liquidity_type)), enc_u8(listing_platform_tag(listing_platform))), enc_address(fee_collector)), enc_bytes(identifier)), enc_bool(affiliate_enabled)), enc_u64(total_ref_amount)), enc_u16(commission_rate))
}

/// Fields 29 to 35 of a current record.
pub open spec fn presale_part5(total_ref_count: u64, total_tokens_sold: u64, whitelist_enabled: bool, presale_type: PresaleType, tokens_claimed_by_owner: u64, owner_reward_withdrawn: bool, sol_pool_reserve: u64) -> Seq<u8> {
    cat(cat(cat(cat(cat(cat(enc_u64(total_ref_count), enc_u64(total_tokens_sold)), enc_bool(whitelist_enabled)), enc_u8(presale_type_tag(presale_type))), enc_u64(tokens_claimed_by_owner)), enc_bool(owner_reward_withdrawn)), enc_u64(sol_pool_reserve))
}

/// Fields 36 to 39 of a current record.
pub open spec fn presale_part6(token_pool_reserve: u64, launchpad_type: LaunchpadType, manager: Address, admin: Address) -> Seq<u8> {
    cat(cat(cat(enc_u64(token_pool_reserve), enc_u8(launchpad_type_tag(launchpad_type))), enc_address(manager)), enc_address(admin))
}

/// The stored form of a current record: its fields in order, each in its own encoding.
#[verifier::opaque]
pub open spec fn encode_presale(p: PresaleState) -> Seq<u8> {
    cat(cat(cat(cat(cat(presale_part1(p.version, p.owner, p.token, p.token_price, p.hard_cap, p.soft_cap, p.min_contribution), presale_part2(p.max_contribution, p.total_raised, p.start_time, p.end_time, p.presale_ended, p.presale_canceled, p.presale_refund)), presale_part3(p.is_init, p.listing_rate, p.liquidity_lock_time, p.liquidity_bp, p.service_fee, p.refund_type, p.listing_opt)), presale_part4(p.liquidity_type, p.listing_platform, p.fee_collector, p.identifier@, p.affiliate_enabled, p.total_ref_amount, p.commission_rate)), presale_part5(p.total_ref_count, p.total_tokens_sold, p.whitelist_enabled, p.presale_type, p.tokens_claimed_by_owner, p.owner_reward_withdrawn, p.sol_pool_reserve)), presale_part6(p.token_pool_reserve, p.launchpad_type, p.manager, p.admin))
}

fn put_presale_part1(p: &PresaleState) -> (r: Vec<u8>)
    requires
        p.identifier@.len() <= u32::MAX,
    ensures
        r@ == presale_part1(p.version, p.owner, p.token, p.token_price, p.hard_cap, p.soft_cap, p.min_contribution),
{
    let mut v: Vec<u8> = Vec::new();
    let out = &mut v;
    put_u8(out, p.version);
    assert(out@ =~= enc_u8(p.version));
    put_address(out, &p.owner);
    put_address(out, &p.token);
    put_u64(out, p.token_price);
    put_u64(out, p.hard_cap);
    put_u64(out, p.soft_cap);
    put_u64(out, p.min_contribution);
    assert(out@ == presale_part1(p.version, p.owner, p.token, p.token_price, p.hard_cap, p.soft_cap, p.min_contribution)) by {
        reveal(cat);
    }
    v
}

fn put_presale_part2(p: &PresaleState) -> (r: Vec<u8>)
    requires
        p.identifier@.len() <= u32::MAX,
    ensures
        r@ == presale_part2(p.max_contribution, p.total_raised, p.start_time, p.end_time, p.presale_ended, p.presale_canceled, p.presale_refund),
{
    let mut v: Vec<u8> = Vec::new();
    let out = &mut v;
    put_u64(out, p.max_contribution);
    assert(out@ =~= enc_u64(p.max_contribution));
    put_u64(out, p.total_raised);
    put_i64(out, p.start_time);
    put_i64(out, p.end_time);
    put_bool(out, p.presale_ended);
    put_bool(out, p.presale_canceled);
    put_bool(out, p.presale_refund);
    assert(out@ == presale_part2(p.max_contribution, p.total_raised, p.start_time, p.end_time, p.presale_ended, p.presale_canceled, p.presale_refund)) by {
        reveal(cat);
    }
    v
}

fn put_presale_part3(p: &PresaleState) -> (r: Vec<u8>)
    requires
        p.identifier@.len() <= u32::MAX,
    ensures
        r@ == presale_part3(p.is_init, p.listing_rate, p.liquidity_lock_time, p.liquidity_bp, p.service_fee, p.refund_type, p.listing_opt),
{
    let mut v: Vec<u8> = Vec::new();
    let out = &mut v;
    put_bool(out, p.is_init);
    assert(out@ =~= enc_bool(p.is_init));
    put_u64(out, p.listing_rate);
    put_i64(out, p.liquidity_lock_time);
    put_u16(out, p.liquidity_bp);
    put_u16(out, p.service_fee);
    put_u8(out, refund_type_tag_of(p.refund_type));
    put_u8(out, listing_opt_tag_of(p.listing_opt));
    assert(out@ == presale_part3(p.is_init, p.listing_rate, p.liquidity_lock_time, p.liquidity_bp, p.service_fee, p.refund_type, p.listing_opt)) by {
        reveal(cat);
    }
    v
}

fn put_presale_part4(p: &PresaleState) -> (r: Vec<u8>)
    requires
        p.identifier@.len() <= u32::MAX,
    ensures
        r@ == presale_part4(p.liquidity_type, p.listing_platform, p.fee_collector, p.identifier@, p.affiliate_enabled, p.total_ref_amount, p.commission_rate),
{
    let mut v: Vec<u8> = Vec::new();
    let out = &mut v;
    put_u8(out, liquidity_type_tag_of(p.liquidity_type));
    assert(out@ =~= enc_u8(liquidity_type_tag(p.liquidity_type)));
    put_u8(out, listing_platform_tag_of(p.listing_platform));
    put_address(out, &p.fee_collector);
    put_bytes(out, &p.identifier);
    put_bool(out, p.affiliate_enabled);
    put_u64(out, p.total_ref_amount);
    put_u16(out, p.commission_rate);
    assert(out@ == presale_part4(p.liquidity_type, p.listing_platform, p.fee_collector, p.identifier@, p.affiliate_enabled, p.total_ref_amount, p.commission_rate)) by {
        reveal(cat);
    }
    v
}

fn put_presale_part5(p: &PresaleState) -> (r: Vec<u8>)
    requires
        p.identifier@.len() <= u32::MAX,
    ensures
        r@ == presale_part5(p.total_ref_count, p.total_tokens_sold, p.whitelist_enabled, p.presale_type, p.tokens_claimed_by_owner, p.owner_reward_withdrawn, p.sol_pool_reserve),
{
    let mut v: Vec<u8> = Vec::new();
    let out = &mut v;
    put_u64(out, p.total_ref_count);
    assert(out@ =~= enc_u64(p.total_ref_count));
    put_u64(out, p.total_tokens_sold);
    put_bool(out, p.whitelist_enabled);
    put_u8(out, presale_type_tag_of(p.presale_type));
    put_u64(out, p.tokens_claimed_by_owner);
    put_bool(out, p.owner_reward_withdrawn);
    put_u64(out, p.sol_pool_reserve);
    assert(out@ == presale_part5(p.total_ref_count, p.total_tokens_sold, p.whitelist_enabled, p.presale_type, p.tokens_claimed_by_owner, p.owner_reward_withdrawn, p.sol_pool_reserve)) by {
        reveal(cat);
    }
    v
}

fn put_presale_part6(p: &PresaleState) -> (r: Vec<u8>)
    requires
        p.identifier@.len() <= u32::MAX,
    ensures
        r@ == presale_part6(p.token_pool_reserve, p.launchpad_type, p.manager, p.admin),
{
    let mut v: Vec<u8> = Vec::new();
    let out = &mut v;
    put_u64(out, p.token_pool_reserve);
    assert(out@ =~= enc_u64(p.token_pool_reserve));
    put_u8(out, launchpad_type_tag_of(p.launchpad_type));
    put_address(out, &p.manager);
    put_address(out, &p.admin);
    assert(out@ == presale_part6(p.token_pool_reserve, p.launchpad_type, p.manager, p.admin)) by {
        reveal(cat);
    }
    v
}

/// Encodes a record as `encode_presale` says.
#[verifier::rlimit(40)]
pub fn encode_presale_state(p: &PresaleState) -> (r: Vec<u8>)
    requires
        p.identifier@.len() <= u32::MAX,
    ensures
        r@ == encode_presale(*p),
{
    let mut v = put_presale_part1(p);
    let mut w2 = put_presale_part2(p);
    v.append(&mut w2);
    let mut w3 = put_presale_part3(p);
    v.append(&mut w3);
    let mut w4 = put_presale_part4(p);
    v.append(&mut w4);
    let mut w5 = put_presale_part5(p);
    v.append(&mut w5);
    let mut w6 = put_presale_part6(p);
    v.append(&mut w6);
    assert(v@ == encode_presale(*p)) by {
        reveal(cat);
        reveal(encode_presale);
    }
    v
}

fn get_presale_part1(bytes: &Vec<u8>, pos: usize, Ghost(expect): Ghost<Option<(u8, Address, Address, u64, u64, u64, u64)>>) -> (r: Option<((u8, Address, Address, u64, u64, u64, u64), usize)>)
    requires
        pos <= bytes@.len(),
    ensures
        r matches Some((t, next)) ==> pos <= next <= bytes@.len() && holds_at(
            bytes@,
            pos as int,
            next as int,
            presale_part1(t.0, t.1, t.2, t.3, t.4, t.5, t.6),
        ),
        expect is Some && holds_at(
            bytes@,
            pos as int,
            pos + presale_part1((expect->0).0, (expect->0).1, (expect->0).2, (expect->0).3, (expect->0).4, (expect->0).5, (expect->0).6).len(),
            presale_part1((expect->0).0, (expect->0).1, (expect->0).2, (expect->0).3, (expect->0).4, (expect->0).5, (expect->0).6),
        ) ==> (r matches Some((_, next)) && next == pos + presale_part1((expect->0).0, (expect->0).1, (expect->0).2, (expect->0).3, (expect->0).4, (expect->0).5, (expect->0).6).len()),
{
    let ghost start = pos as int;
    let c0 = pos;
    let ghost mut acc: Seq<u8> = Seq::empty();
    let ghost ok = expect is Some && holds_at(
        bytes@,
        pos as int,
        pos + presale_part1((expect->0).0, (expect->0).1, (expect->0).2, (expect->0).3, (expect->0).4, (expect->0).5, (expect->0).6).len(),
        presale_part1((expect->0).0, (expect->0).1, (expect->0).2, (expect->0).3, (expect->0).4, (expect->0).5, (expect->0).6),
    );
    proof {
        lemma_enc_facts();
        lemma_split(bytes@, start, pos + presale_part1((expect->0).0, (expect->0).1, (expect->0).2, (expect->0).3, (expect->0).4, (expect->0).5, (expect->0).6).len(), cat(cat(cat(cat(cat(enc_u8((expect->0).0), enc_address((expect->0).1)), enc_address((expect->0).2)), enc_u64((expect->0).3)), enc_u64((expect->0).4)), enc_u64((expect->0).5)), enc_u64((expect->0).6));
        lemma_split(bytes@, start, start + cat(cat(cat(cat(cat(enc_u8((expect->0).0), enc_address((expect->0).1)), enc_address((expect->0).2)), enc_u64((expect->0).3)), enc_u64((expect->0).4)), enc_u64((expect->0).5)).len(), cat(cat(cat(cat(enc_u8((expect->0).0), enc_address((expect->0).1)), enc_address((expect->0).2)), enc_u64((expect->0).3)), enc_u64((expect->0).4)), enc_u64((expect->0).5));
        lemma_split(bytes@, start, start + cat(cat(cat(cat(enc_u8((expect->0).0), enc_address((expect->0).1)), enc_address((expect->0).2)), enc_u64((expect->0).3)), enc_u64((expect->0).4)).len(), cat(cat(cat(enc_u8((expect->0).0), enc_address((expect->0).1)), enc_address((expect->0).2)), enc_u64((expect->0).3)), enc_u64((expect->0).4));
        lemma_split(bytes@, start, start + cat(cat(cat(enc_u8((expect->0).0), enc_address((expect->0).1)), enc_address((expect->0).2)), enc_u64((expect->0).3)).len(), cat(cat(enc_u8((expect->0).0), enc_address((expect->0).1)), enc_address((expect->0).2)), enc_u64((expect->0).3));
        lemma_split(bytes@, start, start + cat(cat(enc_u8((expect->0).0), enc_address((expect->0).1)), enc_address((expect->0).2)).len(), cat(enc_u8((expect->0).0), enc_address((expect->0).1)), enc_address((expect->0).2));
        lemma_split(bytes@, start, start + cat(enc_u8((expect->0).0), enc_address((expect->0).1)).len(), enc_u8((expect->0).0), enc_address((expect->0).1));
        lemma_holds_at_facts(bytes@, start, start + enc_u8((expect->0).0).len(), enc_u8((expect->0).0));
        lemma_holds_at_facts(bytes@, start + enc_u8((expect->0).0).len(), start + cat(enc_u8((expect->0).0), enc_address((expect->0).1)).len(), enc_address((expect->0).1));
        lemma_holds_at_facts(bytes@, start + cat(enc_u8((expect->0).0), enc_address((expect->0).1)).len(), start + cat(cat(enc_u8((expect->0).0), enc_address((expect->0).1)), enc_address((expect->0).2)).len(), enc_address((expect->0).2));
        lemma_holds_at_facts(bytes@, start + cat(cat(enc_u8((expect->0).0), enc_address((expect->0).1)), enc_address((expect->0).2)).len(), start + cat(cat(cat(enc_u8((expect->0).0), enc_address((expect->0).1)), enc_address((expect->0).2)), enc_u64((expect->0).3)).len(), enc_u64((expect->0).3));
        lemma_holds_at_facts(bytes@, start + cat(cat(cat(enc_u8((expect->0).0), enc_address((expect->0).1)), enc_address((expect->0).2)), enc_u64((expect->0).3)).len(), start + cat(cat(cat(cat(enc_u8((expect->0).0), enc_address((expect->0).1)), enc_address((expect->0).2)), enc_u64((expect->0).3)), enc_u64((expect->0).4)).len(), enc_u64((expect->0).4));
        lemma_holds_at_facts(bytes@, start + cat(cat(cat(cat(enc_u8((expect->0).0), enc_address((expect->0).1)), enc_address((expect->0).2)), enc_u64((expect->0).3)), enc_u64((expect->0).4)).len(), start + cat(cat(cat(cat(cat(enc_u8((expect->0).0), enc_address((expect->0).1)), enc_address((expect->0).2)), enc_u64((expect->0).3)), enc_u64((expect->0).4)), enc_u64((expect->0).5)).len(), enc_u64((expect->0).5));
        lemma_holds_at_facts(bytes@, start + cat(cat(cat(cat(cat(enc_u8((expect->0).0), enc_address((expect->0).1)), enc_address((expect->0).2)), enc_u64((expect->0).3)), enc_u64((expect->0).4)), enc_u64((expect->0).5)).len(), start + cat(cat(cat(cat(cat(cat(enc_u8((expect->0).0), enc_address((expect->0).1)), enc_address((expect->0).2)), enc_u64((expect->0).3)), enc_u64((expect->0).4)), enc_u64((expect->0).5)), enc_u64((expect->0).6)).len(), enc_u64((expect->0).6));
    }
    let (version, c1) = match get_u8(bytes, c0) {
        Some(x) => x,
        None => {
            return None;
        },
    };
    proof {
        acc = enc_u8(version);
        assert(ok ==> c1 == start + enc_u8((expect->0).0).len());
    }
    let (owner, c2) = match get_address(bytes, c1) {
        Some(x) => x,
        None => {
            return None;
        },
    };
    proof {
        lemma_extend(bytes@, start, c1 as int, c2 as int, acc, enc_address(owner));
        acc = cat(acc, enc_address(owner));
        assert(ok ==> c2 == start + cat(enc_u8((expect->0).0), enc_address((expect->0).1)).len());
    }
    let (token, c3) = match get_address(bytes, c2) {
        Some(x) => x,
        None => {
            return None;
        },
    };
    proof {
        lemma_extend(bytes@, start, c2 as int, c3 as int, acc, enc_address(token));
        acc = cat(acc, enc_address(token));
        assert(ok ==> c3 == start + cat(cat(enc_u8((expect->0).0), enc_address((expect->0).1)), enc_address((expect->0).2)).len());
    }
    let (token_price, c4) = match get_u64(bytes, c3) {
        Some(x) => x,
        None => {
            return None;
        },
    };
    proof {
        lemma_extend(bytes@, start, c3 as int, c4 as int, acc, enc_u64(token_price));
        acc = cat(acc, enc_u64(token_price));
        assert(ok ==> c4 == start + cat(cat(cat(enc_u8((expect->0).0), enc_address((expect->0).1)), enc_address((expect->0).2)), enc_u64((expect->0).3)).len());
    }
    let (hard_cap, c5) = match get_u64(bytes, c4) {
        Some(x) => x,
        None => {
            return None;
        },
    };
    proof {
        lemma_extend(bytes@, start, c4 as int, c5 as int, acc, enc_u64(hard_cap));
        acc = cat(acc, enc_u64(hard_cap));
        assert(ok ==> c5 == start + cat(cat(cat(cat(enc_u8((expect->0).0), enc_address((expect->0).1)), enc_address((expect->0).2)), enc_u64((expect->0).3)), enc_u64((expect->0).4)).len());
    }
    let (soft_cap, c6) = match get_u64(bytes, c5) {
        Some(x) => x,
        None => {
            return None;
        },
    };
    proof {
        lemma_extend(bytes@, start, c5 as int, c6 as int, acc, enc_u64(soft_cap));
        acc = cat(acc, enc_u64(soft_cap));
        assert(ok ==> c6 == start + cat(cat(cat(cat(cat(enc_u8((expect->0).0), enc_address((expect->0).1)), enc_address((expect->0).2)), enc_u64((expect->0).3)), enc_u64((expect->0).4)), enc_u64((expect->0).5)).len());
    }
    let (min_contribution, c7) = match get_u64(bytes, c6) {
        Some(x) => x,
        None => {
            return None;
        },
    };
    proof {
        lemma_extend(bytes@, start, c6 as int, c7 as int, acc, enc_u64(min_contribution));
        acc = cat(acc, enc_u64(min_contribution));
        assert(ok ==> c7 == start + cat(cat(cat(cat(cat(cat(enc_u8((expect->0).0), enc_address((expect->0).1)), enc_address((expect->0).2)), enc_u64((expect->0).3)), enc_u64((expect->0).4)), enc_u64((expect->0).5)), enc_u64((expect->0).6)).len());
    }
    Some(((version, owner, token, token_price, hard_cap, soft_cap, min_contribution), c7))
}

fn get_presale_part2(bytes: &Vec<u8>, pos: usize, Ghost(expect): Ghost<Option<(u64, u64, i64, i64, bool, bool, bool)>>) -> (r: Option<((u64, u64, i64, i64, bool, bool, bool), usize)>)
    requires
        pos <= bytes@.len(),
    ensures
        r matches Some((t, next)) ==> pos <= next <= bytes@.len() && holds_at(
            bytes@,
            pos as int,
            next as int,
            presale_part2(t.0, t.1, t.2, t.3, t.4, t.5, t.6),
        ),
        expect is Some && holds_at(
            bytes@,
            pos as int,
            pos + presale_part2((expect->0).0, (expect->0).1, (expect->0).2, (expect->0).3, (expect->0).4, (expect->0).5, (expect->0).6).len(),
            presale_part2((expect->0).0, (expect->0).1, (expect->0).2, (expect->0).3, (expect->0).4, (expect->0).5, (expect->0).6),
        ) ==> (r matches Some((_, next)) && next == pos + presale_part2((expect->0).0, (expect->0).1, (expect->0).2, (expect->0).3, (expect->0).4, (expect->0).5, (expect->0).6).len()),
{
    let ghost start = pos as int;
    let c0 = pos;
    let ghost mut acc: Seq<u8> = Seq::empty();
    let ghost ok = expect is Some && holds_at(
        bytes@,
        pos as int,
        pos + presale_part2((expect->0).0, (expect->0).1, (expect->0).2, (expect->0).3, (expect->0).4, (expect->0).5, (expect->0).6).len(),
        presale_part2((expect->0).0, (expect->0).1, (expect->0).2, (expect->0).3, (expect->0).4, (expect->0).5, (expect->0).6),
    );
    proof {
        lemma_enc_facts();
        lemma_split(bytes@, start, pos + presale_part2((expect->0).0, (expect->0).1, (expect->0).2, (expect->0).3, (expect->0).4, (expect->0).5, (expect->0).6).len(), cat(cat(cat(cat(cat(enc_u64((expect->0).0), enc_u64((expect->0).1)), enc_i64((expect->0).2)), enc_i64((expect->0).3)), enc_bool((expect->0).4)), enc_bool((expect->0).5)), enc_bool((expect->0).6));
        lemma_split(bytes@, start, start + cat(cat(cat(cat(cat(enc_u64((expect->0).0), enc_u64((expect->0).1)), enc_i64((expect->0).2)), enc_i64((expect->0).3)), enc_bool((expect->0).4)), enc_bool((expect->0).5)).len(), cat(cat(cat(cat(enc_u64((expect->0).0), enc_u64((expect->0).1)), enc_i64((expect->0).2)), enc_i64((expect->0).3)), enc_bool((expect->0).4)), enc_bool((expect->0).5));
        lemma_split(bytes@, start, start + cat(cat(cat(cat(enc_u64((expect->0).0), enc_u64((expect->0).1)), enc_i64((expect->0).2)), enc_i64((expect->0).3)), enc_bool((expect->0).4)).len(), cat(cat(cat(enc_u64((expect->0).0), enc_u64((expect->0).1)), enc_i64((expect->0).2)), enc_i64((expect->0).3)), enc_bool((expect->0).4));
        lemma_split(bytes@, start, start + cat(cat(cat(enc_u64((expect->0).0), enc_u64((expect->0).1)), enc_i64((expect->0).2)), enc_i64((expect->0).3)).len(), cat(cat(enc_u64((expect->0).0), enc_u64((expect->0).1)), enc_i64((expect->0).2)), enc_i64((expect->0).3));
        lemma_split(bytes@, start, start + cat(cat(enc_u64((expect->0).0), enc_u64((expect->0).1)), enc_i64((expect->0).2)).len(), cat(enc_u64((expect->0).0), enc_u64((expect->0).1)), enc_i64((expect->0).2));
        lemma_split(bytes@, start, start + cat(enc_u64((expect->0).0), enc_u64((expect->0).1)).len(), enc_u64((expect->0).0), enc_u64((expect->0).1));
        lemma_holds_at_facts(bytes@, start, start + enc_u64((expect->0).0).len(), enc_u64((expect->0).0));
        lemma_holds_at_facts(bytes@, start + enc_u64((expect->0).0).len(), start + cat(enc_u64((expect->0).0), enc_u64((expect->0).1)).len(), enc_u64((expect->0).1));
        lemma_holds_at_facts(bytes@, start + cat(enc_u64((expect->0).0), enc_u64((expect->0).1)).len(), start + cat(cat(enc_u64((expect->0).0), enc_u64((expect->0).1)), enc_i64((expect->0).2)).len(), enc_i64((expect->0).2));
        lemma_holds_at_facts(bytes@, start + cat(cat(enc_u64((expect->0).0), enc_u64((expect->0).1)), enc_i64((expect->0).2)).len(), start + cat(cat(cat(enc_u64((expect->0).0), enc_u64((expect->0).1)), enc_i64((expect->0).2)), enc_i64((expect->0).3)).len(), enc_i64((expect->0).3));
        lemma_holds_at_facts(bytes@, start + cat(cat(cat(enc_u64((expect->0).0), enc_u64((expect->0).1)), enc_i64((expect->0).2)), enc_i64((expect->0).3)).len(), start + cat(cat(cat(cat(enc_u64((expect->0).0), enc_u64((expect->0).1)), enc_i64((expect->0).2)), enc_i64((expect->0).3)), enc_bool((expect->0).4)).len(), enc_bool((expect->0).4));
        lemma_holds_at_facts(bytes@, start + cat(cat(cat(cat(enc_u64((expect->0).0), enc_u64((expect->0).1)), enc_i64((expect->0).2)), enc_i64((expect->0).3)), enc_bool((expect->0).4)).len(), start + cat(cat(cat(cat(cat(enc_u64((expect->0).0), enc_u64((expect->0).1)), enc_i64((expect->0).2)), enc_i64((expect->0).3)), enc_bool((expect->0).4)), enc_bool((expect->0).5)).len(), enc_bool((expect->0).5));
        lemma_holds_at_facts(bytes@, start + cat(cat(cat(cat(cat(enc_u64((expect->0).0), enc_u64((expect->0).1)), enc_i64((expect->0).2)), enc_i64((expect->0).3)), enc_bool((expect->0).4)), enc_bool((expect->0).5)).len(), start + cat(cat(cat(cat(cat(cat(enc_u64((expect->0).0), enc_u64((expect->0).1)), enc_i64((expect->0).2)), enc_i64((expect->0).3)), enc_bool((expect->0).4)), enc_bool((expect->0).5)), enc_bool((expect->0).6)).len(), enc_bool((expect->0).6));
    }
    let (max_contribution, c1) = match get_u64(bytes, c0) {
        Some(x) => x,
        None => {
            return None;
        },
    };
    proof {
        acc = enc_u64(max_contribution);
        assert(ok ==> c1 == start + enc_u64((expect->0).0).len());
    }
    let (total_raised, c2) = match get_u64(bytes, c1) {
        Some(x) => x,
        None => {
            return None;
        },
    };
    proof {
        lemma_extend(bytes@, start, c1 as int, c2 as int, acc, enc_u64(total_raised));
        acc = cat(acc, enc_u64(total_raised));
        assert(ok ==> c2 == start + cat(enc_u64((expect->0).0), enc_u64((expect->0).1)).len());
    }
    let (start_time, c3) = match get_i64(bytes, c2) {
        Some(x) => x,
        None => {
            return None;
        },
    };
    proof {
        lemma_extend(bytes@, start, c2 as int, c3 as int, acc, enc_i64(start_time));
        acc = cat(acc, enc_i64(start_time));
        assert(ok ==> c3 == start + cat(cat(enc_u64((expect->0).0), enc_u64((expect->0).1)), enc_i64((expect->0).2)).len());
    }
    let (end_time, c4) = match get_i64(bytes, c3) {
        Some(x) => x,
        None => {
            return None;
        },
    };
    proof {
        lemma_extend(bytes@, start, c3 as int, c4 as int, acc, enc_i64(end_time));
        acc = cat(acc, enc_i64(end_time));
        assert(ok ==> c4 == start + cat(cat(cat(enc_u64((expect->0).0), enc_u64((expect->0).1)), enc_i64((expect->0).2)), enc_i64((expect->0).3)).len());
    }
    let (presale_ended, c5) = match get_bool(bytes, c4) {
        Some(x) => x,
        None => {
            return None;
        },
    };
    proof {
        lemma_extend(bytes@, start, c4 as int, c5 as int, acc, enc_bool(presale_ended));
        acc = cat(acc, enc_bool(presale_ended));
        assert(ok ==> c5 == start + cat(cat(cat(cat(enc_u64((expect->0).0), enc_u64((expect->0).1)), enc_i64((expect->0).2)), enc_i64((expect->0).3)), enc_bool((expect->0).4)).len());
    }
    let (presale_canceled, c6) = match get_bool(bytes, c5) {
        Some(x) => x,
        None => {
            return None;
        },
    };
    proof {
        lemma_extend(bytes@, start, c5 as int, c6 as int, acc, enc_bool(presale_canceled));
        acc = cat(acc, enc_bool(presale_canceled));
        assert(ok ==> c6 == start + cat(cat(cat(cat(cat(enc_u64((expect->0).0), enc_u64((expect->0).1)), enc_i64((expect->0).2)), enc_i64((expect->0).3)), enc_bool((expect->0).4)), enc_bool((expect->0).5)).len());
    }
    let (presale_refund, c7) = match get_bool(bytes, c6) {
        Some(x) => x,
        None => {
            return None;
        },
    };
    proof {
        lemma_extend(bytes@, start, c6 as int, c7 as int, acc, enc_bool(presale_refund));
        acc = cat(acc, enc_bool(presale_refund));
        assert(ok ==> c7 == start + cat(cat(cat(cat(cat(cat(enc_u64((expect->0).0), enc_u64((expect->0).1)), enc_i64((expect->0).2)), enc_i64((expect->0).3)), enc_bool((expect->0).4)), enc_bool((expect->0).5)), enc_bool((expect->0).6)).len());
    }
    Some(((max_contribution, total_raised, start_time, end_time, presale_ended, presale_canceled, presale_refund), c7))
}

fn get_presale_part3(bytes: &Vec<u8>, pos: usize, Ghost(expect): Ghost<Option<(bool, u64, i64, u16, u16, RefundType, ListingOpt)>>) -> (r: Option<((bool, u64, i64, u16, u16, RefundType, ListingOpt), usize)>)
    requires
        pos <= bytes@.len(),
    ensures
        r matches Some((t, next)) ==> pos <= next <= bytes@.len() && holds_at(
            bytes@,
            pos as int,
            next as int,
            presale_part3(t.0, t.1, t.2, t.3, t.4, t.5, t.6),
        ),
        expect is Some && holds_at(
            bytes@,
            pos as int,
            pos + presale_part3((expect->0).0, (expect->0).1, (expect->0).2, (expect->0).3, (expect->0).4, (expect->0).5, (expect->0).6).len(),
            presale_part3((expect->0).0, (expect->0).1, (expect->0).2, (expect->0).3, (expect->0).4, (expect->0).5, (expect->0).6),
        ) ==> (r matches Some((_, next)) && next == pos + presale_part3((expect->0).0, (expect->0).1, (expect->0).2, (expect->0).3, (expect->0).4, (expect->0).5, (expect->0).6).len()),
{
    let ghost start = pos as int;
    let c0 = pos;
    let ghost mut acc: Seq<u8> = Seq::empty();
    let ghost ok = expect is Some && holds_at(
        bytes@,
        pos as int,
        pos + presale_part3((expect->0).0, (expect->0).1, (expect->0).2, (expect->0).3, (expect->0).4, (expect->0).5, (expect->0).6).len(),
        presale_part3((expect->0).0, (expect->0).1, (expect->0).2, (expect->0).3, (expect->0).4, (expect->0).5, (expect->0).6),
    );
    proof {
        lemma_enc_facts();
        lemma_split(bytes@, start, pos + presale_part3((expect->0).0, (expect->0).1, (expect->0).2, (expect->0).3, (expect->0).4, (expect->0).5, (expect->0).6).len(), cat(cat(cat(cat(cat(enc_bool((expect->0).0), enc_u64((expect->0).1)), enc_i64((expect->0).2)), enc_u16((expect->0).3)), enc_u16((expect->0).4)), enc_u8(refund_type_tag((expect->0).5))), enc_u8(listing_opt_tag((expect->0).6)));
        lemma_split(bytes@, start, start + cat(cat(cat(cat(cat(enc_bool((expect->0).0), enc_u64((expect->0).1)), enc_i64((expect->0).2)), enc_u16((expect->0).3)), enc_u16((expect->0).4)), enc_u8(refund_type_tag((expect->0).5))).len(), cat(cat(cat(cat(enc_bool((expect->0).0), enc_u64((expect->0).1)), enc_i64((expect->0).2)), enc_u16((expect->0).3)), enc_u16((expect->0).4)), enc_u8(refund_type_tag((expect->0).5)));
        lemma_split(bytes@, start, start + cat(cat(cat(cat(enc_bool((expect->0).0), enc_u64((expect->0).1)), enc_i64((expect->0).2)), enc_u16((expect->0).3)), enc_u16((expect->0).4)).len(), cat(cat(cat(enc_bool((expect->0).0), enc_u64((expect->0).1)), enc_i64((expect->0).2)), enc_u16((expect->0).3)), enc_u16((expect->0).4));
        lemma_split(bytes@, start, start + cat(cat(cat(enc_bool((expect->0).0), enc_u64((expect->0).1)), enc_i64((expect->0).2)), enc_u16((expect->0).3)).len(), cat(cat(enc_bool((expect->0).0), enc_u64((expect->0).1)), enc_i64((expect->0).2)), enc_u16((expect->0).3));
        lemma_split(bytes@, start, start + cat(cat(enc_bool((expect->0).0), enc_u64((expect->0).1)), enc_i64((expect->0).2)).len(), cat(enc_bool((expect->0).0), enc_u64((expect->0).1)), enc_i64((expect->0).2));
        lemma_split(bytes@, start, start + cat(enc_bool((expect->0).0), enc_u64((expect->0).1)).len(), enc_bool((expect->0).0), enc_u64((expect->0).1));
        lemma_holds_at_facts(bytes@, start, start + enc_bool((expect->0).0).len(), enc_bool((expect->0).0));
        lemma_holds_at_facts(bytes@, start + enc_bool((expect->0).0).len(), start + cat(enc_bool((expect->0).0), enc_u64((expect->0).1)).len(), enc_u64((expect->0).1));
        lemma_holds_at_facts(bytes@, start + cat(enc_bool((expect->0).0), enc_u64((expect->0).1)).len(), start + cat(cat(enc_bool((expect->0).0), enc_u64((expect->0).1)), enc_i64((expect->0).2)).len(), enc_i64((expect->0).2));
        lemma_holds_at_facts(bytes@, start + cat(cat(enc_bool((expect->0).0), enc_u64((expect->0).1)), enc_i64((expect->0).2)).len(), start + cat(cat(cat(enc_bool((expect->0).0), enc_u64((expect->0).1)), enc_i64((expect->0).2)), enc_u16((expect->0).3)).len(), enc_u16((expect->0).3));
        lemma_holds_at_facts(bytes@, start + cat(cat(cat(enc_bool((expect->0).0), enc_u64((expect->0).1)), enc_i64((expect->0).2)), enc_u16((expect->0).3)).len(), start + cat(cat(cat(cat(enc_bool((expect->0).0), enc_u64((expect->0).1)), enc_i64((expect->0).2)), enc_u16((expect->0).3)), enc_u16((expect->0).4)).len(), enc_u16((expect->0).4));
        lemma_holds_at_facts(bytes@, start + cat(cat(cat(cat(enc_bool((expect->0).0), enc_u64((expect->0).1)), enc_i64((expect->0).2)), enc_u16((expect->0).3)), enc_u16((expect->0).4)).len(), start + cat(cat(cat(cat(cat(enc_bool((expect->0).0), enc_u64((expect->0).1)), enc_i64((expect->0).2)), enc_u16((expect->0).3)), enc_u16((expect->0).4)), enc_u8(refund_type_tag((expect->0).5))).len(), enc_u8(refund_type_tag((expect->0).5)));
        lemma_holds_at_facts(bytes@, start + cat(cat(cat(cat(cat(enc_bool((expect->0).0), enc_u64((expect->0).1)), enc_i64((expect->0).2)), enc_u16((expect->0).3)), enc_u16((expect->0).4)), enc_u8(refund_type_tag((expect->0).5))).len(), start + cat(cat(cat(cat(cat(cat(enc_bool((expect->0).0), enc_u64((expect->0).1)), enc_i64((expect->0).2)), enc_u16((expect->0).3)), enc_u16((expect->0).4)), enc_u8(refund_type_tag((expect->0).5))), enc_u8(listing_opt_tag((expect->0).6))).len(), enc_u8(listing_opt_tag((expect->0).6)));
    }
    let (is_init, c1) = match get_bool(bytes, c0) {
        Some(x) => x,
        None => {
            return None;
        },
    };
    proof {
        acc = enc_bool(is_init);
        assert(ok ==> c1 == start + enc_bool((expect->0).0).len());
    }
    let (listing_rate, c2) = match get_u64(bytes, c1) {
        Some(x) => x,
        None => {
            return None;
        },
    };
    proof {
        lemma_extend(bytes@, start, c1 as int, c2 as int, acc, enc_u64(listing_rate));
        acc = cat(acc, enc_u64(listing_rate));
        assert(ok ==> c2 == start + cat(enc_bool((expect->0).0), enc_u64((expect->0).1)).len());
    }
    let (liquidity_lock_time, c3) = match get_i64(bytes, c2) {
        Some(x) => x,
        None => {
            return None;
        },
    };
    proof {
        lemma_extend(bytes@, start, c2 as int, c3 as int, acc, enc_i64(liquidity_lock_time));
        acc = cat(acc, enc_i64(liquidity_lock_time));
        assert(ok ==> c3 == start + cat(cat(enc_bool((expect->0).0), enc_u64((expect->0).1)), enc_i64((expect->0).2)).len());
    }
    let (liquidity_bp, c4) = match get_u16(bytes, c3) {
        Some(x) => x,
        None => {
            return None;
        },
    };
    proof {
        lemma_extend(bytes@, start, c3 as int, c4 as int, acc, enc_u16(liquidity_bp));
        acc = cat(acc, enc_u16(liquidity_bp));
        assert(ok ==> c4 == start + cat(cat(cat(enc_bool((expect->0).0), enc_u64((expect->0).1)), enc_i64((expect->0).2)), enc_u16((expect->0).3)).len());
    }
    let (service_fee, c5) = match get_u16(bytes, c4) {
        Some(x) => x,
        None => {
            return None;
        },
    };
    proof {
        lemma_extend(bytes@, start, c4 as int, c5 as int, acc, enc_u16(service_fee));
        acc = cat(acc, enc_u16(service_fee));
        assert(ok ==> c5 == start + cat(cat(cat(cat(enc_bool((expect->0).0), enc_u64((expect->0).1)), enc_i64((expect->0).2)), enc_u16((expect->0).3)), enc_u16((expect->0).4)).len());
    }
    let (refund_type, c6) = match get_refund_type(bytes, c5) {
        Some(x) => x,
        None => {
            return None;
        },
    };
    proof {
        lemma_extend(bytes@, start, c5 as int, c6 as int, acc, enc_u8(refund_type_tag(refund_type)));
        acc = cat(acc, enc_u8(refund_type_tag(refund_type)));
        assert(ok ==> c6 == start + cat(cat(cat(cat(cat(enc_bool((expect->0).0), enc_u64((expect->0).1)), enc_i64((expect->0).2)), enc_u16((expect->0).3)), enc_u16((expect->0).4)), enc_u8(refund_type_tag((expect->0).5))).len());
    }
    let (listing_opt, c7) = match get_listing_opt(bytes, c6) {
        Some(x) => x,
        None => {
            return None;
        },
    };
    proof {
        lemma_extend(bytes@, start, c6 as int, c7 as int, acc, enc_u8(listing_opt_tag(listing_opt)));
        acc = cat(acc, enc_u8(listing_opt_tag(listing_opt)));
        assert(ok ==> c7 == start + cat(cat(cat(cat(cat(cat(enc_bool((expect->0).0), enc_u64((expect->0).1)), enc_i64((expect->0).2)), enc_u16((expect->0).3)), enc_u16((expect->0).4)), enc_u8(refund_type_tag((expect->0).5))), enc_u8(listing_opt_tag((expect->0).6))).len());
    }
    Some(((is_init, listing_rate, liquidity_lock_time, liquidity_bp, service_fee, refund_type, listing_opt), c7))
}

fn get_presale_part4(bytes: &Vec<u8>, pos: usize, Ghost(expect): Ghost<Option<(LiquidityType, ListingPlatform, Address, Seq<u8>, bool, u64, u16)>>) -> (r: Option<((LiquidityType, ListingPlatform, Address, Vec<u8>, bool, u64, u16), usize)>)
    requires
        pos <= bytes@.len(),
    ensures
        r matches Some((t, next)) ==> pos <= next <= bytes@.len() && holds_at(
            bytes@,
            pos as int,
            next as int,
            presale_part4(t.0, t.1, t.2, t.3@, t.4, t.5, t.6),
        ),
        expect is Some && (expect->0).3.len() <= u32::MAX && holds_at(
            bytes@,
            pos as int,
            pos + presale_part4((expect->0).0, (expect->0).1, (expect->0).2, (expect->0).3, (expect->0).4, (expect->0).5, (expect->0).6).len(),
            presale_part4((expect->0).0, (expect->0).1, (expect->0).2, (expect->0).3, (expect->0).4, (expect->0).5, (expect->0).6),
        ) ==> (r matches Some((_, next)) && next == pos + presale_part4((expect->0).0, (expect->0).1, (expect->0).2, (expect->0).3, (expect->0).4, (expect->0).5, (expect->0).6).len()),
{
    let ghost start = pos as int;
    let c0 = pos;
    let ghost mut acc: Seq<u8> = Seq::empty();
    let ghost ok = expect is Some && (expect->0).3.len() <= u32::MAX && holds_at(
        bytes@,
        pos as int,
        pos + presale_part4((expect->0).0, (expect->0).1, (expect->0).2, (expect->0).3, (expect->0).4, (expect->0).5, (expect->0).6).len(),
        presale_part4((expect->0).0, (expect->0).1, (expect->0).2, (expect->0).3, (expect->0).4, (expect->0).5, (expect->0).6),
    );
    proof {
        lemma_enc_facts();
        lemma_split(bytes@, start, pos + presale_part4((expect->0).0, (expect->0).1, (expect->0).2, (expect->0).3, (expect->0).4, (expect->0).5, (expect->0).6).len(), cat(cat(cat(cat(cat(enc_u8(liquidity_type_tag((expect->0).0)), enc_u8(listing_platform_tag((expect->0).1))), enc_address((expect->0).2)), enc_bytes((expect->0).3)), enc_bool((expect->0).4)), enc_u64((expect->0).5)), enc_u16((expect->0).6));
        lemma_split(bytes@, start, start + cat(cat(cat(cat(cat(enc_u8(liquidity_type_tag((expect->0).0)), enc_u8(listing_platform_tag((expect->0).1))), enc_address((expect->0).2)), enc_bytes((expect->0).3)), enc_bool((expect->0).4)), enc_u64((expect->0).5)).len(), cat(cat(cat(cat(enc_u8(liquidity_type_tag((expect->0).0)), enc_u8(listing_platform_tag((expect->0).1))), enc_address((expect->0).2)), enc_bytes((expect->0).3)), enc_bool((expect->0).4)), enc_u64((expect->0).5));
        lemma_split(bytes@, start, start + cat(cat(cat(cat(enc_u8(liquidity_type_tag((expect->0).0)), enc_u8(listing_platform_tag((expect->0).1))), enc_address((expect->0).2)), enc_bytes((expect->0).3)), enc_bool((expect->0).4)).len(), cat(cat(cat(enc_u8(liquidity_type_tag((expect->0).0)), enc_u8(listing_platform_tag((expect->0).1))), enc_address((expect->0).2)), enc_bytes((expect->0).3)), enc_bool((expect->0).4));
        lemma_split(bytes@, start, start + cat(cat(cat(enc_u8(liquidity_type_tag((expect->0).0)), enc_u8(listing_platform_tag((expect->0).1))), enc_address((expect->0).2)), enc_bytes((expect->0).3)).len(), cat(cat(enc_u8(liquidity_type_tag((expect->0).0)), enc_u8(listing_platform_tag((expect->0).1))), enc_address((expect->0).2)), enc_bytes((expect->0).3));
        lemma_split(bytes@, start, start + cat(cat(enc_u8(liquidity_type_tag((expect->0).0)), enc_u8(listing_platform_tag((expect->0).1))), enc_address((expect->0).2)).len(), cat(enc_u8(liquidity_type_tag((expect->0).0)), enc_u8(listing_platform_tag((expect->0).1))), enc_address((expect->0).2));
        lemma_split(bytes@, start, start + cat(enc_u8(liquidity_type_tag((expect->0).0)), enc_u8(listing_platform_tag((expect->0).1))).len(), enc_u8(liquidity_type_tag((expect->0).0)), enc_u8(listing_platform_tag((expect->0).1)));
        lemma_holds_at_facts(bytes@, start, start + enc_u8(liquidity_type_tag((expect->0).0)).len(), enc_u8(liquidity_type_tag((expect->0).0)));
        lemma_holds_at_facts(bytes@, start + enc_u8(liquidity_type_tag((expect->0).0)).len(), start + cat(enc_u8(liquidity_type_tag((expect->0).0)), enc_u8(listing_platform_tag((expect->0).1))).len(), enc_u8(listing_platform_tag((expect->0).1)));
        lemma_holds_at_facts(bytes@, start + cat(enc_u8(liquidity_type_tag((expect->0).0)), enc_u8(listing_platform_tag((expect->0).1))).len(), start + cat(cat(enc_u8(liquidity_type_tag((expect->0).0)), enc_u8(listing_platform_tag((expect->0).1))), enc_address((expect->0).2)).len(), enc_address((expect->0).2));
        lemma_holds_at_facts(bytes@, start + cat(cat(enc_u8(liquidity_type_tag((expect->0).0)), enc_u8(listing_platform_tag((expect->0).1))), enc_address((expect->0).2)).len(), start + cat(cat(cat(enc_u8(liquidity_type_tag((expect->0).0)), enc_u8(listing_platform_tag((expect->0).1))), enc_address((expect->0).2)), enc_bytes((expect->0).3)).len(), enc_bytes((expect->0).3));
        lemma_holds_at_facts(bytes@, start + cat(cat(cat(enc_u8(liquidity_type_tag((expect->0).0)), enc_u8(listing_platform_tag((expect->0).1))), enc_address((expect->0).2)), enc_bytes((expect->0).3)).len(), start + cat(cat(cat(cat(enc_u8(liquidity_type_tag((expect->0).0)), enc_u8(listing_platform_tag((expect->0).1))), enc_address((expect->0).2)), enc_bytes((expect->0).3)), enc_bool((expect->0).4)).len(), enc_bool((expect->0).4));
        lemma_holds_at_facts(bytes@, start + cat(cat(cat(cat(enc_u8(liquidity_type_tag((expect->0).0)), enc_u8(listing_platform_tag((expect->0).1))), enc_address((expect->0).2)), enc_bytes((expect->0).3)), enc_bool((expect->0).4)).len(), start + cat(cat(cat(cat(cat(enc_u8(liquidity_type_tag((expect->0).0)), enc_u8(listing_platform_tag((expect->0).1))), enc_address((expect->0).2)), enc_bytes((expect->0).3)), enc_bool((expect->0).4)), enc_u64((expect->0).5)).len(), enc_u64((expect->0).5));
        lemma_holds_at_facts(bytes@, start + cat(cat(cat(cat(cat(enc_u8(liquidity_type_tag((expect->0).0)), enc_u8(listing_platform_tag((expect->0).1))), enc_address((expect->0).2)), enc_bytes((expect->0).3)), enc_bool((expect->0).4)), enc_u64((expect->0).5)).len(), start + cat(cat(cat(cat(cat(cat(enc_u8(liquidity_type_tag((expect->0).0)), enc_u8(listing_platform_tag((expect->0).1))), enc_address((expect->0).2)), enc_bytes((expect->0).3)), enc_bool((expect->0).4)), enc_u64((expect->0).5)), enc_u16((expect->0).6)).len(), enc_u16((expect->0).6));
    }
    let (liquidity_type, c1) = match get_liquidity_type(bytes, c0) {
        Some(x) => x,
        None => {
            return None;
        },
    };
    proof {
        acc = enc_u8(liquidity_type_tag(liquidity_type));
        assert(ok ==> c1 == start + enc_u8(liquidity_type_tag((expect->0).0)).len());
    }
    let (listing_platform, c2) = match get_listing_platform(bytes, c1) {
        Some(x) => x,
        None => {
            return None;
        },
    };
    proof {
        lemma_extend(bytes@, start, c1 as int, c2 as int, acc, enc_u8(listing_platform_tag(listing_platform)));
        acc = cat(acc, enc_u8(listing_platform_tag(listing_platform)));
        assert(ok ==> c2 == start + cat(enc_u8(liquidity_type_tag((expect->0).0)), enc_u8(listing_platform_tag((expect->0).1))).len());
    }
    let (fee_collector, c3) = match get_address(bytes, c2) {
        Some(x) => x,
        None => {
            return None;
        },
    };
    proof {
        lemma_extend(bytes@, start, c2 as int, c3 as int, acc, enc_address(fee_collector));
        acc = cat(acc, enc_address(fee_collector));
        assert(ok ==> c3 == start + cat(cat(enc_u8(liquidity_type_tag((expect->0).0)), enc_u8(listing_platform_tag((expect->0).1))), enc_address((expect->0).2)).len());
    }
    let (identifier, c4) = match get_bytes(bytes, c3, Ghost(Some((expect->0).3))) {
        Some(x) => x,
        None => {
            return None;
        },
    };
    proof {
        lemma_extend(bytes@, start, c3 as int, c4 as int, acc, enc_bytes(identifier@));
        acc = cat(acc, enc_bytes(identifier@));
        assert(ok ==> c4 == start + cat(cat(cat(enc_u8(liquidity_type_tag((expect->0).0)), enc_u8(listing_platform_tag((expect->0).1))), enc_address((expect->0).2)), enc_bytes((expect->0).3)).len());
    }
    let (affiliate_enabled, c5) = match get_bool(bytes, c4) {
        Some(x) => x,
        None => {
            return None;
        },
    };
    proof {
        lemma_extend(bytes@, start, c4 as int, c5 as int, acc, enc_bool(affiliate_enabled));
        acc = cat(acc, enc_bool(affiliate_enabled));
        assert(ok ==> c5 == start + cat(cat(cat(cat(enc_u8(liquidity_type_tag((expect->0).0)), enc_u8(listing_platform_tag((expect->0).1))), enc_address((expect->0).2)), enc_bytes((expect->0).3)), enc_bool((expect->0).4)).len());
    }
    let (total_ref_amount, c6) = match get_u64(bytes, c5) {
        Some(x) => x,
        None => {
            return None;
        },
    };
    proof {
        lemma_extend(bytes@, start, c5 as int, c6 as int, acc, enc_u64(total_ref_amount));
        acc = cat(acc, enc_u64(total_ref_amount));
        assert(ok ==> c6 == start + cat(cat(cat(cat(cat(enc_u8(liquidity_type_tag((expect->0).0)), enc_u8(listing_platform_tag((expect->0).1))), enc_address((expect->0).2)), enc_bytes((expect->0).3)), enc_bool((expect->0).4)), enc_u64((expect->0).5)).len());
    }
    let (commission_rate, c7) = match get_u16(bytes, c6) {
        Some(x) => x,
        None => {
            return None;
        },
    };
    proof {
        lemma_extend(bytes@, start, c6 as int, c7 as int, acc, enc_u16(commission_rate));
        acc = cat(acc, enc_u16(commission_rate));
        assert(ok ==> c7 == start + cat(cat(cat(cat(cat(cat(enc_u8(liquidity_type_tag((expect->0).0)), enc_u8(listing_platform_tag((expect->0).1))), enc_address((expect->0).2)), enc_bytes((expect->0).3)), enc_bool((expect->0).4)), enc_u64((expect->0).5)), enc_u16((expect->0).6)).len());
    }
    Some(((liquidity_type, listing_platform, fee_collector, identifier, affiliate_enabled, total_ref_amount, commission_rate), c7))
}

fn get_presale_part5(bytes: &Vec<u8>, pos: usize, Ghost(expect): Ghost<Option<(u64, u64, bool, PresaleType, u64, bool, u64)>>) -> (r: Option<((u64, u64, bool, PresaleType, u64, bool, u64), usize)>)
    requires
        pos <= bytes@.len(),
    ensures
        r matches Some((t, next)) ==> pos <= next <= bytes@.len() && holds_at(
            bytes@,
            pos as int,
            next as int,
            presale_part5(t.0, t.1, t.2, t.3, t.4, t.5, t.6),
        ),
        expect is Some && holds_at(
            bytes@,
            pos as int,
            pos + presale_part5((expect->0).0, (expect->0).1, (expect->0).2, (expect->0).3, (expect->0).4, (expect->0).5, (expect->0).6).len(),
            presale_part5((expect->0).0, (expect->0).1, (expect->0).2, (expect->0).3, (expect->0).4, (expect->0).5, (expect->0).6),
        ) ==> (r matches Some((_, next)) && next == pos + presale_part5((expect->0).0, (expect->0).1, (expect->0).2, (expect->0).3, (expect->0).4, (expect->0).5, (expect->0).6).len()),
{
    let ghost start = pos as int;
    let c0 = pos;
    let ghost mut acc: Seq<u8> = Seq::empty();
    let ghost ok = expect is Some && holds_at(
        bytes@,
        pos as int,
        pos + presale_part5((expect->0).0, (expect->0).1, (expect->0).2, (expect->0).3, (expect->0).4, (expect->0).5, (expect->0).6).len(),
        presale_part5((expect->0).0, (expect->0).1, (expect->0).2, (expect->0).3, (expect->0).4, (expect->0).5, (expect->0).6),
    );
    proof {
        lemma_enc_facts();
        lemma_split(bytes@, start, pos + presale_part5((expect->0).0, (expect->0).1, (expect->0).2, (expect->0).3, (expect->0).4, (expect->0).5, (expect->0).6).len(), cat(cat(cat(cat(cat(enc_u64((expect->0).0), enc_u64((expect->0).1)), enc_bool((expect->0).2)), enc_u8(presale_type_tag((expect->0).3))), enc_u64((expect->0).4)), enc_bool((expect->0).5)), enc_u64((expect->0).6));
        lemma_split(bytes@, start, start + cat(cat(cat(cat(cat(enc_u64((expect->0).0), enc_u64((expect->0).1)), enc_bool((expect->0).2)), enc_u8(presale_type_tag((expect->0).3))), enc_u64((expect->0).4)), enc_bool((expect->0).5)).len(), cat(cat(cat(cat(enc_u64((expect->0).0), enc_u64((expect->0).1)), enc_bool((expect->0).2)), enc_u8(presale_type_tag((expect->0).3))), enc_u64((expect->0).4)), enc_bool((expect->0).5));
        lemma_split(bytes@, start, start + cat(cat(cat(cat(enc_u64((expect->0).0), enc_u64((expect->0).1)), enc_bool((expect->0).2)), enc_u8(presale_type_tag((expect->0).3))), enc_u64((expect->0).4)).len(), cat(cat(cat(enc_u64((expect->0).0), enc_u64((expect->0).1)), enc_bool((expect->0).2)), enc_u8(presale_type_tag((expect->0).3))), enc_u64((expect->0).4));
        lemma_split(bytes@, start, start + cat(cat(cat(enc_u64((expect->0).0), enc_u64((expect->0).1)), enc_bool((expect->0).2)), enc_u8(presale_type_tag((expect->0).3))).len(), cat(cat(enc_u64((expect->0).0), enc_u64((expect->0).1)), enc_bool((expect->0).2)), enc_u8(presale_type_tag((expect->0).3)));
        lemma_split(bytes@, start, start + cat(cat(enc_u64((expect->0).0), enc_u64((expect->0).1)), enc_bool((expect->0).2)).len(), cat(enc_u64((expect->0).0), enc_u64((expect->0).1)), enc_bool((expect->0).2));
        lemma_split(bytes@, start, start + cat(enc_u64((expect->0).0), enc_u64((expect->0).1)).len(), enc_u64((expect->0).0), enc_u64((expect->0).1));
        lemma_holds_at_facts(bytes@, start, start + enc_u64((expect->0).0).len(), enc_u64((expect->0).0));
        lemma_holds_at_facts(bytes@, start + enc_u64((expect->0).0).len(), start + cat(enc_u64((expect->0).0), enc_u64((expect->0).1)).len(), enc_u64((expect->0).1));
        lemma_holds_at_facts(bytes@, start + cat(enc_u64((expect->0).0), enc_u64((expect->0).1)).len(), start + cat(cat(enc_u64((expect->0).0), enc_u64((expect->0).1)), enc_bool((expect->0).2)).len(), enc_bool((expect->0).2));
        lemma_holds_at_facts(bytes@, start + cat(cat(enc_u64((expect->0).0), enc_u64((expect->0).1)), enc_bool((expect->0).2)).len(), start + cat(cat(cat(enc_u64((expect->0).0), enc_u64((expect->0).1)), enc_bool((expect->0).2)), enc_u8(presale_type_tag((expect->0).3))).len(), enc_u8(presale_type_tag((expect->0).3)));
        lemma_holds_at_facts(bytes@, start + cat(cat(cat(enc_u64((expect->0).0), enc_u64((expect->0).1)), enc_bool((expect->0).2)), enc_u8(presale_type_tag((expect->0).3))).len(), start + cat(cat(cat(cat(enc_u64((expect->0).0), enc_u64((expect->0).1)), enc_bool((expect->0).2)), enc_u8(presale_type_tag((expect->0).3))), enc_u64((expect->0).4)).len(), enc_u64((expect->0).4));
        lemma_holds_at_facts(bytes@, start + cat(cat(cat(cat(enc_u64((expect->0).0), enc_u64((expect->0).1)), enc_bool((expect->0).2)), enc_u8(presale_type_tag((expect->0).3))), enc_u64((expect->0).4)).len(), start + cat(cat(cat(cat(cat(enc_u64((expect->0).0), enc_u64((expect->0).1)), enc_bool((expect->0).2)), enc_u8(presale_type_tag((expect->0).3))), enc_u64((expect->0).4)), enc_bool((expect->0).5)).len(), enc_bool((expect->0).5));
        lemma_holds_at_facts(bytes@, start + cat(cat(cat(cat(cat(enc_u64((expect->0).0), enc_u64((expect->0).1)), enc_bool((expect->0).2)), enc_u8(presale_type_tag((expect->0).3))), enc_u64((expect->0).4)), enc_bool((expect->0).5)).len(), start + cat(cat(cat(cat(cat(cat(enc_u64((expect->0).0), enc_u64((expect->0).1)), enc_bool((expect->0).2)), enc_u8(presale_type_tag((expect->0).3))), enc_u64((expect->0).4)), enc_bool((expect->0).5)), enc_u64((expect->0).6)).len(), enc_u64((expect->0).6));
    }
    let (total_ref_count, c1) = match get_u64(bytes, c0) {
        Some(x) => x,
        None => {
            return None;
        },
    };
    proof {
        acc = enc_u64(total_ref_count);
        assert(ok ==> c1 == start + enc_u64((expect->0).0).len());
    }
    let (total_tokens_sold, c2) = match get_u64(bytes, c1) {
        Some(x) => x,
        None => {
            return None;
        },
    };
    proof {
        lemma_extend(bytes@, start, c1 as int, c2 as int, acc, enc_u64(total_tokens_sold));
        acc = cat(acc, enc_u64(total_tokens_sold));
        assert(ok ==> c2 == start + cat(enc_u64((expect->0).0), enc_u64((expect->0).1)).len());
    }
    let (whitelist_enabled, c3) = match get_bool(bytes, c2) {
        Some(x) => x,
        None => {
            return None;
        },
    };
    proof {
        lemma_extend(bytes@, start, c2 as int, c3 as int, acc, enc_bool(whitelist_enabled));
        acc = cat(acc, enc_bool(whitelist_enabled));
        assert(ok ==> c3 == start + cat(cat(enc_u64((expect->0).0), enc_u64((expect->0).1)), enc_bool((expect->0).2)).len());
    }
    let (presale_type, c4) = match get_presale_type(bytes, c3) {
        Some(x) => x,
        None => {
            return None;
        },
    };
    proof {
        lemma_extend(bytes@, start, c3 as int, c4 as int, acc, enc_u8(presale_type_tag(presale_type)));
        acc = cat(acc, enc_u8(presale_type_tag(presale_type)));
        assert(ok ==> c4 == start + cat(cat(cat(enc_u64((expect->0).0), enc_u64((expect->0).1)), enc_bool((expect->0).2)), enc_u8(presale_type_tag((expect->0).3))).len());
    }
    let (tokens_claimed_by_owner, c5) = match get_u64(bytes, c4) {
        Some(x) => x,
        None => {
            return None;
        },
    };
    proof {
        lemma_extend(bytes@, start, c4 as int, c5 as int, acc, enc_u64(tokens_claimed_by_owner));
        acc = cat(acc, enc_u64(tokens_claimed_by_owner));
        assert(ok ==> c5 == start + cat(cat(cat(cat(enc_u64((expect->0).0), enc_u64((expect->0).1)), enc_bool((expect->0).2)), enc_u8(presale_type_tag((expect->0).3))), enc_u64((expect->0).4)).len());
    }
    let (owner_reward_withdrawn, c6) = match get_bool(bytes, c5) {
        Some(x) => x,
        None => {
            return None;
        },
    };
    proof {
        lemma_extend(bytes@, start, c5 as int, c6 as int, acc, enc_bool(owner_reward_withdrawn));
        acc = cat(acc, enc_bool(owner_reward_withdrawn));
        assert(ok ==> c6 == start + cat(cat(cat(cat(cat(enc_u64((expect->0).0), enc_u64((expect->0).1)), enc_bool((expect->0).2)), enc_u8(presale_type_tag((expect->0).3))), enc_u64((expect->0).4)), enc_bool((expect->0).5)).len());
    }
    let (sol_pool_reserve, c7) = match get_u64(bytes, c6) {
        Some(x) => x,
        None => {
            return None;
        },
    };
    proof {
        lemma_extend(bytes@, start, c6 as int, c7 as int, acc, enc_u64(sol_pool_reserve));
        acc = cat(acc, enc_u64(sol_pool_reserve));
        assert(ok ==> c7 == start + cat(cat(cat(cat(cat(cat(enc_u64((expect->0).0), enc_u64((expect->0).1)), enc_bool((expect->0).2)), enc_u8(presale_type_tag((expect->0).3))), enc_u64((expect->0).4)), enc_bool((expect->0).5)), enc_u64((expect->0).6)).len());
    }
    Some(((total_ref_count, total_tokens_sold, whitelist_enabled, presale_type, tokens_claimed_by_owner, owner_reward_withdrawn, sol_pool_reserve), c7))
}

fn get_presale_part6(bytes: &Vec<u8>, pos: usize, Ghost(expect): Ghost<Option<(u64, LaunchpadType, Address, Address)>>) -> (r: Option<((u64, LaunchpadType, Address, Address), usize)>)
    requires
        pos <= bytes@.len(),
    ensures
        r matches Some((t, next)) ==> pos <= next <= bytes@.len() && holds_at(
            bytes@,
            pos as int,
            next as int,
            presale_part6(t.0, t.1, t.2, t.3),
        ),
        expect is Some && holds_at(
            bytes@,
            pos as int,
            pos + presale_part6((expect->0).0, (expect->0).1, (expect->0).2, (expect->0).3).len(),
            presale_part6((expect->0).0, (expect->0).1, (expect->0).2, (expect->0).3),
        ) ==> (r matches Some((_, next)) && next == pos + presale_part6((expect->0).0, (expect->0).1, (expect->0).2, (expect->0).3).len()),
{
    let ghost start = pos as int;
    let c0 = pos;
    let ghost mut acc: Seq<u8> = Seq::empty();
    let ghost ok = expect is Some && holds_at(
        bytes@,
        pos as int,
        pos + presale_part6((expect->0).0, (expect->0).1, (expect->0).2, (expect->0).3).len(),
        presale_part6((expect->0).0, (expect->0).1, (expect->0).2, (expect->0).3),
    );
    proof {
        lemma_enc_facts();
        lemma_split(bytes@, start, pos + presale_part6((expect->0).0, (expect->0).1, (expect->0).2, (expect->0).3).len(), cat(cat(enc_u64((expect->0).0), enc_u8(launchpad_type_tag((expect->0).1))), enc_address((expect->0).2)), enc_address((expect->0).3));
        lemma_split(bytes@, start, start + cat(cat(enc_u64((expect->0).0), enc_u8(launchpad_type_tag((expect->0).1))), enc_address((expect->0).2)).len(), cat(enc_u64((expect->0).0), enc_u8(launchpad_type_tag((expect->0).1))), enc_address((expect->0).2));
        lemma_split(bytes@, start, start + cat(enc_u64((expect->0).0), enc_u8(launchpad_type_tag((expect->0).1))).len(), enc_u64((expect->0).0), enc_u8(launchpad_type_tag((expect->0).1)));
        lemma_holds_at_facts(bytes@, start, start + enc_u64((expect->0).0).len(), enc_u64((expect->0).0));
        lemma_holds_at_facts(bytes@, start + enc_u64((expect->0).0).len(), start + cat(enc_u64((expect->0).0), enc_u8(launchpad_type_tag((expect->0).1))).len(), enc_u8(launchpad_type_tag((expect->0).1)));
        lemma_holds_at_facts(bytes@, start + cat(enc_u64((expect->0).0), enc_u8(launchpad_type_tag((expect->0).1))).len(), start + cat(cat(enc_u64((expect->0).0), enc_u8(launchpad_type_tag((expect->0).1))), enc_address((expect->0).2)).len(), enc_address((expect->0).2));
        lemma_holds_at_facts(bytes@, start + cat(cat(enc_u64((expect->0).0), enc_u8(launchpad_type_tag((expect->0).1))), enc_address((expect->0).2)).len(), start + cat(cat(cat(enc_u64((expect->0).0), enc_u8(launchpad_type_tag((expect->0).1))), enc_address((expect->0).2)), enc_address((expect->0).3)).len(), enc_address((expect->0).3));
    }
    let (token_pool_reserve, c1) = match get_u64(bytes, c0) {
        Some(x) => x,
        None => {
            return None;
        },
    };
    proof {
        acc = enc_u64(token_pool_reserve);
        assert(ok ==> c1 == start + enc_u64((expect->0).0).len());
    }
    let (launchpad_type, c2) = match get_launchpad_type(bytes, c1) {
        Some(x) => x,
        None => {
            return None;
        },
    };
    proof {
        lemma_extend(bytes@, start, c1 as int, c2 as int, acc, enc_u8(launchpad_type_tag(launchpad_type)));
        acc = cat(acc, enc_u8(launchpad_type_tag(launchpad_type)));
        assert(ok ==> c2 == start + cat(enc_u64((expect->0).0), enc_u8(launchpad_type_tag((expect->0).1))).len());
    }
    let (manager, c3) = match get_address(bytes, c2) {
        Some(x) => x,
        None => {
            return None;
        },
    };
    proof {
        lemma_extend(bytes@, start, c2 as int, c3 as int, acc, enc_address(manager));
        acc = cat(acc, enc_address(manager));
        assert(ok ==> c3 == start + cat(cat(enc_u64((expect->0).0), enc_u8(launchpad_type_tag((expect->0).1))), enc_address((expect->0).2)).len());
    }
    let (admin, c4) = match get_address(bytes, c3) {
        Some(x) => x,
        None => {
            return None;
        },
    };
    proof {
        lemma_extend(bytes@, start, c3 as int, c4 as int, acc, enc_address(admin));
        acc = cat(acc, enc_address(admin));
        assert(ok ==> c4 == start + cat(cat(cat(enc_u64((expect->0).0), enc_u8(launchpad_type_tag((expect->0).1))), enc_address((expect->0).2)), enc_address((expect->0).3)).len());
    }
    Some(((token_pool_reserve, launchpad_type, manager, admin), c4))
}

proof fn lemma_presale_layout(s: Seq<u8>, pos: int, p: PresaleState)
    ensures
        holds_at(s, pos, pos + encode_presale(p).len(), encode_presale(p)) ==> holds_at(s, pos, pos + presale_part1(p.version, p.owner, p.token, p.token_price, p.hard_cap, p.soft_cap, p.min_contribution).len(), presale_part1(p.version, p.owner, p.token, p.token_price, p.hard_cap, p.soft_cap, p.min_contribution)) && holds_at(s, pos + presale_part1(p.version, p.owner, p.token, p.token_price, p.hard_cap, p.soft_cap, p.min_contribution).len(), pos + presale_part1(p.version, p.owner, p.token, p.token_price, p.hard_cap, p.soft_cap, p.min_contribution).len() + presale_part2(p.max_contribution, p.total_raised, p.start_time, p.end_time, p.presale_ended, p.presale_canceled, p.presale_refund).len(), presale_part2(p.max_contribution, p.total_raised, p.start_time, p.end_time, p.presale_ended, p.presale_canceled, p.presale_refund)) && holds_at(s, pos + presale_part1(p.version, p.owner, p.token, p.token_price, p.hard_cap, p.soft_cap, p.min_contribution).len() + presale_part2(p.max_contribution, p.total_raised, p.start_time, p.end_time, p.presale_ended, p.presale_canceled, p.presale_refund).len(), pos + presale_part1(p.version, p.owner, p.token, p.token_price, p.hard_cap, p.soft_cap, p.min_contribution).len() + presale_part2(p.max_contribution, p.total_raised, p.start_time, p.end_time, p.presale_ended, p.presale_canceled, p.presale_refund).len() + presale_part3(p.is_init, p.listing_rate, p.liquidity_lock_time, p.liquidity_bp, p.service_fee, p.refund_type, p.listing_opt).len(), presale_part3(p.is_init, p.listing_rate, p.liquidity_lock_time, p.liquidity_bp, p.service_fee, p.refund_type, p.listing_opt)) && holds_at(s, pos + presale_part1(p.version, p.owner, p.token, p.token_price, p.hard_cap, p.soft_cap, p.min_contribution).len() + presale_part2(p.max_contribution, p.total_raised, p.start_time, p.end_time, p.presale_ended, p.presale_canceled, p.presale_refund).len() + presale_part3(p.is_init, p.listing_rate, p.liquidity_lock_time, p.liquidity_bp, p.service_fee, p.refund_type, p.listing_opt).len(), pos + presale_part1(p.version, p.owner, p.token, p.token_price, p.hard_cap, p.soft_cap, p.min_contribution).len() + presale_part2(p.max_contribution, p.total_raised, p.start_time, p.end_time, p.presale_ended, p.presale_canceled, p.presale_refund).len() + presale_part3(p.is_init, p.listing_rate, p.liquidity_lock_time, p.liquidity_bp, p.service_fee, p.refund_type, p.listing_opt).len() + presale_part4(p.liquidity_type, p.listing_platform, p.fee_collector, p.identifier@, p.affiliate_enabled, p.total_ref_amount, p.commission_rate).len(), presale_part4(p.liquidity_type, p.listing_platform, p.fee_collector, p.identifier@, p.affiliate_enabled, p.total_ref_amount, p.commission_rate)) && holds_at(s, pos + presale_part1(p.version, p.owner, p.token, p.token_price, p.hard_cap, p.soft_cap, p.min_contribution).len() + presale_part2(p.max_contribution, p.total_raised, p.start_time, p.end_time, p.presale_ended, p.presale_canceled, p.presale_refund).len() + presale_part3(p.is_init, p.listing_rate, p.liquidity_lock_time, p.liquidity_bp, p.service_fee, p.refund_type, p.listing_opt).len() + presale_part4(p.liquidity_type, p.listing_platform, p.fee_collector, p.identifier@, p.affiliate_enabled, p.total_ref_amount, p.commission_rate).len(), pos + presale_part1(p.version, p.owner, p.token, p.token_price, p.hard_cap, p.soft_cap, p.min_contribution).len() + presale_part2(p.max_contribution, p.total_raised, p.start_time, p.end_time, p.presale_ended, p.presale_canceled, p.presale_refund).len() + presale_part3(p.is_init, p.listing_rate, p.liquidity_lock_time, p.liquidity_bp, p.service_fee, p.refund_type, p.listing_opt).len() + presale_part4(p.liquidity_type, p.listing_platform, p.fee_collector, p.identifier@, p.affiliate_enabled, p.total_ref_amount, p.commission_rate).len() + presale_part5(p.total_ref_count, p.total_tokens_sold, p.whitelist_enabled, p.presale_type, p.tokens_claimed_by_owner, p.owner_reward_withdrawn, p.sol_pool_reserve).len(), presale_part5(p.total_ref_count, p.total_tokens_sold, p.whitelist_enabled, p.presale_type, p.tokens_claimed_by_owner, p.owner_reward_withdrawn, p.sol_pool_reserve)) && holds_at(s, pos + presale_part1(p.version, p.owner, p.token, p.token_price, p.hard_cap, p.soft_cap, p.min_contribution).len() + presale_part2(p.max_contribution, p.total_raised, p.start_time, p.end_time, p.presale_ended, p.presale_canceled, p.presale_refund).len() + presale_part3(p.is_init, p.listing_rate, p.liquidity_lock_time, p.liquidity_bp, p.service_fee, p.refund_type, p.listing_opt).len() + presale_part4(p.liquidity_type, p.listing_platform, p.fee_collector, p.identifier@, p.affiliate_enabled, p.total_ref_amount, p.commission_rate).len() + presale_part5(p.total_ref_count, p.total_tokens_sold, p.whitelist_enabled, p.presale_type, p.tokens_claimed_by_owner, p.owner_reward_withdrawn, p.sol_pool_reserve).len(), pos + presale_part1(p.version, p.owner, p.token, p.token_price, p.hard_cap, p.soft_cap, p.min_contribution).len() + presale_part2(p.max_contribution, p.total_raised, p.start_time, p.end_time, p.presale_ended, p.presale_canceled, p.presale_refund).len() + presale_part3(p.is_init, p.listing_rate, p.liquidity_lock_time, p.liquidity_bp, p.service_fee, p.refund_type, p.listing_opt).len() + presale_part4(p.liquidity_type, p.listing_platform, p.fee_collector, p.identifier@, p.affiliate_enabled, p.total_ref_amount, p.commission_rate).len() + presale_part5(p.total_ref_count, p.total_tokens_sold, p.whitelist_enabled, p.presale_type, p.tokens_claimed_by_owner, p.owner_reward_withdrawn, p.sol_pool_reserve).len() + presale_part6(p.token_pool_reserve, p.launchpad_type, p.manager, p.admin).len(), presale_part6(p.token_pool_reserve, p.launchpad_type, p.manager, p.admin)),
{
    reveal(encode_presale);
    lemma_enc_facts();
    lemma_split(s, pos, pos + encode_presale(p).len(), cat(cat(cat(cat(presale_part1(p.version, p.owner, p.token, p.token_price, p.hard_cap, p.soft_cap, p.min_contribution), presale_part2(p.max_contribution, p.total_raised, p.start_time, p.end_time, p.presale_ended, p.presale_canceled, p.presale_refund)), presale_part3(p.is_init, p.listing_rate, p.liquidity_lock_time, p.liquidity_bp, p.service_fee, p.refund_type, p.listing_opt)), presale_part4(p.liquidity_type, p.listing_platform, p.fee_collector, p.identifier@, p.affiliate_enabled, p.total_ref_amount, p.commission_rate)), presale_part5(p.total_ref_count, p.total_tokens_sold, p.whitelist_enabled, p.presale_type, p.tokens_claimed_by_owner, p.owner_reward_withdrawn, p.sol_pool_reserve)), presale_part6(p.token_pool_reserve, p.launchpad_type, p.manager, p.admin));
    lemma_split(s, pos, pos + cat(cat(cat(cat(presale_part1(p.version, p.owner, p.token, p.token_price, p.hard_cap, p.soft_cap, p.min_contribution), presale_part2(p.max_contribution, p.total_raised, p.start_time, p.end_time, p.presale_ended, p.presale_canceled, p.presale_refund)), presale_part3(p.is_init, p.listing_rate, p.liquidity_lock_time, p.liquidity_bp, p.service_fee, p.refund_type, p.listing_opt)), presale_part4(p.liquidity_type, p.listing_platform, p.fee_collector, p.identifier@, p.affiliate_enabled, p.total_ref_amount, p.commission_rate)), presale_part5(p.total_ref_count, p.total_tokens_sold, p.whitelist_enabled, p.presale_type, p.tokens_claimed_by_owner, p.owner_reward_withdrawn, p.sol_pool_reserve)).len(), cat(cat(cat(presale_part1(p.version, p.owner, p.token, p.token_price, p.hard_cap, p.soft_cap, p.min_contribution), presale_part2(p.max_contribution, p.total_raised, p.start_time, p.end_time, p.presale_ended, p.presale_canceled, p.presale_refund)), presale_part3(p.is_init, p.listing_rate, p.liquidity_lock_time, p.liquidity_bp, p.service_fee, p.refund_type, p.listing_opt)), presale_part4(p.liquidity_type, p.listing_platform, p.fee_collector, p.identifier@, p.affiliate_enabled, p.total_ref_amount, p.commission_rate)), presale_part5(p.total_ref_count, p.total_tokens_sold, p.whitelist_enabled, p.presale_type, p.tokens_claimed_by_owner, p.owner_reward_withdrawn, p.sol_pool_reserve));
    lemma_split(s, pos, pos + cat(cat(cat(presale_part1(p.version, p.owner, p.token, p.token_price, p.hard_cap, p.soft_cap, p.min_contribution), presale_part2(p.max_contribution, p.total_raised, p.start_time, p.end_time, p.presale_ended, p.presale_canceled, p.presale_refund)), presale_part3(p.is_init, p.listing_rate, p.liquidity_lock_time, p.liquidity_bp, p.service_fee, p.refund_type, p.listing_opt)), presale_part4(p.liquidity_type, p.listing_platform, p.fee_collector, p.identifier@, p.affiliate_enabled, p.total_ref_amount, p.commission_rate)).len(), cat(cat(presale_part1(p.version, p.owner, p.token, p.token_price, p.hard_cap, p.soft_cap, p.min_contribution), presale_part2(p.max_contribution, p.total_raised, p.start_time, p.end_time, p.presale_ended, p.presale_canceled, p.presale_refund)), presale_part3(p.is_init, p.listing_rate, p.liquidity_lock_time, p.liquidity_bp, p.service_fee, p.refund_type, p.listing_opt)), presale_part4(p.liquidity_type, p.listing_platform, p.fee_collector, p.identifier@, p.affiliate_enabled, p.total_ref_amount, p.commission_rate));
    lemma_split(s, pos, pos + cat(cat(presale_part1(p.version, p.owner, p.token, p.token_price, p.hard_cap, p.soft_cap, p.min_contribution), presale_part2(p.max_contribution, p.total_raised, p.start_time, p.end_time, p.presale_ended, p.presale_canceled, p.presale_refund)), presale_part3(p.is_init, p.listing_rate, p.liquidity_lock_time, p.liquidity_bp, p.service_fee, p.refund_type, p.listing_opt)).len(), cat(presale_part1(p.version, p.owner, p.token, p.token_price, p.hard_cap, p.soft_cap, p.min_contribution), presale_part2(p.max_contribution, p.total_raised, p.start_time, p.end_time, p.presale_ended, p.presale_canceled, p.presale_refund)), presale_part3(p.is_init, p.listing_rate, p.liquidity_lock_time, p.liquidity_bp, p.service_fee, p.refund_type, p.listing_opt));
    lemma_split(s, pos, pos + cat(presale_part1(p.version, p.owner, p.token, p.token_price, p.hard_cap, p.soft_cap, p.min_contribution), presale_part2(p.max_contribution, p.total_raised, p.start_time, p.end_time, p.presale_ended, p.presale_canceled, p.presale_refund)).len(), presale_part1(p.version, p.owner, p.token, p.token_price, p.hard_cap, p.soft_cap, p.min_contribution), presale_part2(p.max_contribution, p.total_raised, p.start_time, p.end_time, p.presale_ended, p.presale_canceled, p.presale_refund));
}

#[verifier::rlimit(100)]
fn decode_presale_state_at(bytes: &Vec<u8>, pos: usize, Ghost(expect): Ghost<Option<PresaleState>>) -> (r: Option<(PresaleState, usize)>)
    requires
        pos <= bytes@.len(),
    ensures
        r matches Some((p, next)) ==> pos <= next <= bytes@.len() && holds_at(
            bytes@,
            pos as int,
            next as int,
            encode_presale(p),
        ),
        expect is Some && expect->0.identifier@.len() <= u32::MAX && holds_at(
            bytes@,
            pos as int,
            pos + encode_presale(expect->0).len(),
            encode_presale(expect->0),
        ) ==> r is Some,
{
    let ghost start = pos as int;
    let c0 = pos;
    let ghost mut acc: Seq<u8> = Seq::empty();
    let ghost e = expect->0;
    let ghost ok = expect is Some && e.identifier@.len() <= u32::MAX && holds_at(
        bytes@,
        pos as int,
        pos + encode_presale(e).len(),
        encode_presale(e),
    );
    proof {
        lemma_presale_layout(bytes@, start, e);
    }
    let ((version, owner, token, token_price, hard_cap, soft_cap, min_contribution), c1) = match get_presale_part1(bytes, c0, Ghost(Some((e.version, e.owner, e.token, e.token_price, e.hard_cap, e.soft_cap, e.min_contribution)))) {
        Some(x) => x,
        None => {
            return None;
        },
    };
    proof {
        acc = presale_part1(version, owner, token, token_price, hard_cap, soft_cap, min_contribution);
        assert(ok ==> c1 == start + presale_part1(e.version, e.owner, e.token, e.token_price, e.hard_cap, e.soft_cap, e.min_contribution).len());
    }
    let ((max_contribution, total_raised, start_time, end_time, presale_ended, presale_canceled, presale_refund), c2) = match get_presale_part2(bytes, c1, Ghost(Some((e.max_contribution, e.total_raised, e.start_time, e.end_time, e.presale_ended, e.presale_canceled, e.presale_refund)))) {
        Some(x) => x,
        None => {
            return None;
        },
    };
    proof {
        lemma_extend(bytes@, start, c1 as int, c2 as int, acc, presale_part2(max_contribution, total_raised, start_time, end_time, presale_ended, presale_canceled, presale_refund));
        acc = cat(acc, presale_part2(max_contribution, total_raised, start_time, end_time, presale_ended, presale_canceled, presale_refund));
        assert(ok ==> c2 == start + presale_part1(e.version, e.owner, e.token, e.token_price, e.hard_cap, e.soft_cap, e.min_contribution).len() + presale_part2(e.max_contribution, e.total_raised, e.start_time, e.end_time, e.presale_ended, e.presale_canceled, e.presale_refund).len());
    }
    let ((is_init, listing_rate, liquidity_lock_time, liquidity_bp, service_fee, refund_type, listing_opt), c3) = match get_presale_part3(bytes, c2, Ghost(Some((e.is_init, e.listing_rate, e.liquidity_lock_time, e.liquidity_bp, e.service_fee, e.refund_type, e.listing_opt)))) {
        Some(x) => x,
        None => {
            return None;
        },
    };
    proof {
        lemma_extend(bytes@, start, c2 as int, c3 as int, acc, presale_part3(is_init, listing_rate, liquidity_lock_time, liquidity_bp, service_fee, refund_type, listing_opt));
        acc = cat(acc, presale_part3(is_init, listing_rate, liquidity_lock_time, liquidity_bp, service_fee, refund_type, listing_opt));
        assert(ok ==> c3 == start + presale_part1(e.version, e.owner, e.token, e.token_price, e.hard_cap, e.soft_cap, e.min_contribution).len() + presale_part2(e.max_contribution, e.total_raised, e.start_time, e.end_time, e.presale_ended, e.presale_canceled, e.presale_refund).len() + presale_part3(e.is_init, e.listing_rate, e.liquidity_lock_time, e.liquidity_bp, e.service_fee, e.refund_type, e.listing_opt).len());
    }
    let ((liquidity_type, listing_platform, fee_collector, identifier, affiliate_enabled, total_ref_amount, commission_rate), c4) = match get_presale_part4(bytes, c3, Ghost(Some((e.liquidity_type, e.listing_platform, e.fee_collector, e.identifier@, e.affiliate_enabled, e.total_ref_amount, e.commission_rate)))) {
        Some(x) => x,
        None => {
            return None;
        },
    };
    proof {
        lemma_extend(bytes@, start, c3 as int, c4 as int, acc, presale_part4(liquidity_type, listing_platform, fee_collector, identifier@, affiliate_enabled, total_ref_amount, commission_rate));
        acc = cat(acc, presale_part4(liquidity_type, listing_platform, fee_collector, identifier@, affiliate_enabled, total_ref_amount, commission_rate));
        assert(ok ==> c4 == start + presale_part1(e.version, e.owner, e.token, e.token_price, e.hard_cap, e.soft_cap, e.min_contribution).len() + presale_part2(e.max_contribution, e.total_raised, e.start_time, e.end_time, e.presale_ended, e.presale_canceled, e.presale_refund).len() + presale_part3(e.is_init, e.listing_rate, e.liquidity_lock_time, e.liquidity_bp, e.service_fee, e.refund_type, e.listing_opt).len() + presale_part4(e.liquidity_type, e.listing_platform, e.fee_collector, e.identifier@, e.affiliate_enabled, e.total_ref_amount, e.commission_rate).len());
    }
    let ((total_ref_count, total_tokens_sold, whitelist_enabled, presale_type, tokens_claimed_by_owner, owner_reward_withdrawn, sol_pool_reserve), c5) = match get_presale_part5(bytes, c4, Ghost(Some((e.total_ref_count, e.total_tokens_sold, e.whitelist_enabled, e.presale_type, e.tokens_claimed_by_owner, e.owner_reward_withdrawn, e.sol_pool_reserve)))) {
        Some(x) => x,
        None => {
            return None;
        },
    };
    proof {
        lemma_extend(bytes@, start, c4 as int, c5 as int, acc, presale_part5(total_ref_count, total_tokens_sold, whitelist_enabled, presale_type, tokens_claimed_by_owner, owner_reward_withdrawn, sol_pool_reserve));
        acc = cat(acc, presale_part5(total_ref_count, total_tokens_sold, whitelist_enabled, presale_type, tokens_claimed_by_owner, owner_reward_withdrawn, sol_pool_reserve));
        assert(ok ==> c5 == start + presale_part1(e.version, e.owner, e.token, e.token_price, e.hard_cap, e.soft_cap, e.min_contribution).len() + presale_part2(e.max_contribution, e.total_raised, e.start_time, e.end_time, e.presale_ended, e.presale_canceled, e.presale_refund).len() + presale_part3(e.is_init, e.listing_rate, e.liquidity_lock_time, e.liquidity_bp, e.service_fee, e.refund_type, e.listing_opt).len() + presale_part4(e.liquidity_type, e.listing_platform, e.fee_collector, e.identifier@, e.affiliate_enabled, e.total_ref_amount, e.commission_rate).len() + presale_part5(e.total_ref_count, e.total_tokens_sold, e.whitelist_enabled, e.presale_type, e.tokens_claimed_by_owner, e.owner_reward_withdrawn, e.sol_pool_reserve).len());
    }
    let ((token_pool_reserve, launchpad_type, manager, admin), c6) = match get_presale_part6(bytes, c5, Ghost(Some((e.token_pool_reserve, e.launchpad_type, e.manager, e.admin)))) {
        Some(x) => x,
        None => {
            return None;
        },
    };
    proof {
        lemma_extend(bytes@, start, c5 as int, c6 as int, acc, presale_part6(token_pool_reserve, launchpad_type, manager, admin));
        acc = cat(acc, presale_part6(token_pool_reserve, launchpad_type, manager, admin));
        assert(ok ==> c6 == start + presale_part1(e.version, e.owner, e.token, e.token_price, e.hard_cap, e.soft_cap, e.min_contribution).len() + presale_part2(e.max_contribution, e.total_raised, e.start_time, e.end_time, e.presale_ended, e.presale_canceled, e.presale_refund).len() + presale_part3(e.is_init, e.listing_rate, e.liquidity_lock_time, e.liquidity_bp, e.service_fee, e.refund_type, e.listing_opt).len() + presale_part4(e.liquidity_type, e.listing_platform, e.fee_collector, e.identifier@, e.affiliate_enabled, e.total_ref_amount, e.commission_rate).len() + presale_part5(e.total_ref_count, e.total_tokens_sold, e.whitelist_enabled, e.presale_type, e.tokens_claimed_by_owner, e.owner_reward_withdrawn, e.sol_pool_reserve).len() + presale_part6(e.token_pool_reserve, e.launchpad_type, e.manager, e.admin).len());
    }
    let p = PresaleState {
        version,
        owner,
        token,
        token_price,
        hard_cap,
        soft_cap,
        min_contribution,
        max_contribution,
        total_raised,
        start_time,
        end_time,
        presale_ended,
        presale_canceled,
        presale_refund,
        is_init,
        listing_rate,
        liquidity_lock_time,
        liquidity_bp,
        service_fee,
        refund_type,
        listing_opt,
        liquidity_type,
        listing_platform,
        fee_collector,
        identifier,
        affiliate_enabled,
        total_ref_amount,
        commission_rate,
        total_ref_count,
        total_tokens_sold,
        whitelist_enabled,
        presale_type,
        tokens_claimed_by_owner,
        owner_reward_withdrawn,
        sol_pool_reserve,
        token_pool_reserve,
        launchpad_type,
        manager,
        admin,
    };
    assert(acc == encode_presale(p)) by {
        reveal(encode_presale);
    }
    Some((p, c6))
}

/// Decodes a record starting at `pos`: whenever the bytes there hold the
/// encoding of a record, decoding succeeds, and the record returned encodes
/// to exactly the bytes read, which end at the position returned.
pub fn decode_presale_state(bytes: &Vec<u8>, pos: usize) -> (r: Option<(PresaleState, usize)>)
    requires
        pos <= bytes@.len(),
    ensures
        r matches Some((p, next)) ==> pos <= next <= bytes@.len() && holds_at(
            bytes@,
            pos as int,
            next as int,
            encode_presale(p),
        ),
        forall|p: PresaleState|
            p.identifier@.len() <= u32::MAX && #[trigger] holds_at(
                bytes@,
                pos as int,
                pos + encode_presale(p).len(),
                encode_presale(p),
            ) ==> r is Some,
{
    let ghost has = exists|p: PresaleState|
        p.identifier@.len() <= u32::MAX && #[trigger] holds_at(
            bytes@,
            pos as int,
            pos + encode_presale(p).len(),
            encode_presale(p),
        );
    let ghost expect = if has {
        Some(
            choose|p: PresaleState|
                p.identifier@.len() <= u32::MAX && #[trigger] holds_at(
                    bytes@,
                    pos as int,
                    pos + encode_presale(p).len(),
                    encode_presale(p),
                ),
        )
    } else {
        None
    };
    decode_presale_state_at(bytes, pos, Ghost(expect))
}

/// Fields 1 to 7 of an old record.
pub open spec fn presale_v0_part1(owner: Address, token: Address, token_price: u64, hard_cap: u64, soft_cap: u64, min_contribution: u64, max_contribution: u64) -> Seq<u8> {
    cat(cat(cat(cat(cat(cat(enc_address(owner), enc_address(token)), enc_u64(token_price)), enc_u64(hard_cap)), enc_u64(soft_cap)), enc_u64(min_contribution)), enc_u64(max_contribution))
}

/// Fields 8 to 14 of an old record.
pub open spec fn presale_v0_part2(total_raised: u64, start_time: i64, end_time: i64, presale_ended: bool, presale_canceled: bool, presale_refund: bool, is_init: bool) -> Seq<u8> {
    cat(cat(cat(cat(cat(cat(enc_u64(total_raised), enc_i64(start_time)), enc_i64(end_time)), enc_bool(presale_ended)), enc_bool(presale_canceled)), enc_bool(presale_refund)), enc_bool(is_init))
}

/// Fields 15 to 21 of an old record.
pub open spec fn presale_v0_part3(listing_rate: u64, liquidity_lock_time: i64, liquidity_bp: u16, service_fee: u16, refund_type: RefundType, listing_opt: ListingOpt, liquidity_type: LiquidityType) -> Seq<u8> {
    cat(cat(cat(cat(cat(cat(enc_u64(listing_rate), enc_i64(liquidity_lock_time)), enc_u16(liquidity_bp)), enc_u16(service_fee)), enc_u8(refund_type_tag(refund_type))), enc_u8(listing_opt_tag(listing_opt))), enc_u8(liquidity_type_tag(liquidity_type)))
}

/// Fields 22 to 28 of an old record.
pub open spec fn presale_v0_part4(listing_platform: ListingPlatform, fee_collector: Address, identifier: Seq<u8>, affiliate_enabled: bool, total_ref_amount: u64, commission_rate: u16, total_ref_count: u64) -> Seq<u8> {
    cat(cat(cat(cat(cat(cat(enc_u8(listing_platform_tag(listing_platform)), enc_address(fee_collector)), enc_bytes(identifier)), enc_bool(affiliate_enabled)), enc_u64(total_ref_amount)), enc_u16(commission_rate)), enc_u64(total_ref_count))
}

/// Fields 29 to 35 of an old record.
pub open spec fn presale_v0_part5(total_tokens_sold: u64, whitelist_enabled: bool, presale_type: PresaleType, tokens_claimed_by_owner: u64, owner_reward_withdrawn: bool, sol_pool_reserve: u64, token_pool_reserve: u64) -> Seq<u8> {
    cat(cat(cat(cat(cat(cat(enc_u64(total_tokens_sold), enc_bool(whitelist_enabled)), enc_u8(presale_type_tag(presale_type))), enc_u64(tokens_claimed_by_owner)), enc_bool(owner_reward_withdrawn)), enc_u64(sol_pool_reserve)), enc_u64(token_pool_reserve))
}

/// The stored form of an old record: its fields in order, each in its own encoding.
#[verifier::opaque]
pub open spec fn encode_presale_v0(p: PresaleStateV0) -> Seq<u8> {
    cat(cat(cat(cat(presale_v0_part1(p.owner, p.token, p.token_price, p.hard_cap, p.soft_cap, p.min_contribution, p.max_contribution), presale_v0_part2(p.total_raised, p.start_time, p.end_time, p.presale_ended, p.presale_canceled, p.presale_refund, p.is_init)), presale_v0_part3(p.listing_rate, p.liquidity_lock_time, p.liquidity_bp, p.service_fee, p.refund_type, p.listing_opt, p.liquidity_type)), presale_v0_part4(p.listing_platform, p.fee_collector, p.identifier@, p.affiliate_enabled, p.total_ref_amount, p.commission_rate, p.total_ref_count)), presale_v0_part5(p.total_tokens_sold, p.whitelist_enabled, p.presale_type, p.tokens_claimed_by_owner, p.owner_reward_withdrawn, p.sol_pool_reserve, p.token_pool_reserve))
}

fn put_presale_v0_part1(p: &PresaleStateV0) -> (r: Vec<u8>)
    requires
        p.identifier@.len() <= u32::MAX,
    ensures
        r@ == presale_v0_part1(p.owner, p.token, p.token_price, p.hard_cap, p.soft_cap, p.min_contribution, p.max_contribution),
{
    let mut v: Vec<u8> = Vec::new();
    let out = &mut v;
    put_address(out, &p.owner);
    assert(out@ =~= enc_address(p.owner));
    put_address(out, &p.token);
    put_u64(out, p.token_price);
    put_u64(out, p.hard_cap);
    put_u64(out, p.soft_cap);
    put_u64(out, p.min_contribution);
    put_u64(out, p.max_contribution);
    assert(out@ == presale_v0_part1(p.owner, p.token, p.token_price, p.hard_cap, p.soft_cap, p.min_contribution, p.max_contribution)) by {
        reveal(cat);
    }
    v
}

fn put_presale_v0_part2(p: &PresaleStateV0) -> (r: Vec<u8>)
    requires
        p.identifier@.len() <= u32::MAX,
    ensures
        r@ == presale_v0_part2(p.total_raised, p.start_time, p.end_time, p.presale_ended, p.presale_canceled, p.presale_refund, p.is_init),
{
    let mut v: Vec<u8> = Vec::new();
    let out = &mut v;
    put_u64(out, p.total_raised);
    assert(out@ =~= enc_u64(p.total_raised));
    put_i64(out, p.start_time);
    put_i64(out, p.end_time);
    put_bool(out, p.presale_ended);
    put_bool(out, p.presale_canceled);
    put_bool(out, p.presale_refund);
    put_bool(out, p.is_init);
    assert(out@ == presale_v0_part2(p.total_raised, p.start_time, p.end_time, p.presale_ended, p.presale_canceled, p.presale_refund, p.is_init)) by {
        reveal(cat);
    }
    v
}

fn put_presale_v0_part3(p: &PresaleStateV0) -> (r: Vec<u8>)
    requires
        p.identifier@.len() <= u32::MAX,
    ensures
        r@ == presale_v0_part3(p.listing_rate, p.liquidity_lock_time, p.liquidity_bp, p.service_fee, p.refund_type, p.listing_opt, p.liquidity_type),
{
    let mut v: Vec<u8> = Vec::new();
    let out = &mut v;
    put_u64(out, p.listing_rate);
    assert(out@ =~= enc_u64(p.listing_rate));
    put_i64(out, p.liquidity_lock_time);
    put_u16(out, p.liquidity_bp);
    put_u16(out, p.service_fee);
    put_u8(out, refund_type_tag_of(p.refund_type));
    put_u8(out, listing_opt_tag_of(p.listing_opt));
    put_u8(out, liquidity_type_tag_of(p.liquidity_type));
    assert(out@ == presale_v0_part3(p.listing_rate, p.liquidity_lock_time, p.liquidity_bp, p.service_fee, p.refund_type, p.listing_opt, p.liquidity_type)) by {
        reveal(cat);
    }
    v
}

fn put_presale_v0_part4(p: &PresaleStateV0) -> (r: Vec<u8>)
    requires
        p.identifier@.len() <= u32::MAX,
    ensures
        r@ == presale_v0_part4(p.listing_platform, p.fee_collector, p.identifier@, p.affiliate_enabled, p.total_ref_amount, p.commission_rate, p.total_ref_count),
{
    let mut v: Vec<u8> = Vec::new();
    let out = &mut v;
    put_u8(out, listing_platform_tag_of(p.listing_platform));
    assert(out@ =~= enc_u8(listing_platform_tag(p.listing_platform)));
    put_address(out, &p.fee_collector);
    put_bytes(out, &p.identifier);
    put_bool(out, p.affiliate_enabled);
    put_u64(out, p.total_ref_amount);
    put_u16(out, p.commission_rate);
    put_u64(out, p.total_ref_count);
    assert(out@ == presale_v0_part4(p.listing_platform, p.fee_collector, p.identifier@, p.affiliate_enabled, p.total_ref_amount, p.commission_rate, p.total_ref_count)) by {
        reveal(cat);
    }
    v
}

fn put_presale_v0_part5(p: &PresaleStateV0) -> (r: Vec<u8>)
    requires
        p.identifier@.len() <= u32::MAX,
    ensures
        r@ == presale_v0_part5(p.total_tokens_sold, p.whitelist_enabled, p.presale_type, p.tokens_claimed_by_owner, p.owner_reward_withdrawn, p.sol_pool_reserve, p.token_pool_reserve),
{
    let mut v: Vec<u8> = Vec::new();
    let out = &mut v;
    put_u64(out, p.total_tokens_sold);
    assert(out@ =~= enc_u64(p.total_tokens_sold));
    put_bool(out, p.whitelist_enabled);
    put_u8(out, presale_type_tag_of(p.presale_type));
    put_u64(out, p.tokens_claimed_by_owner);
    put_bool(out, p.owner_reward_withdrawn);
    put_u64(out, p.sol_pool_reserve);
    put_u64(out, p.token_pool_reserve);
    assert(out@ == presale_v0_part5(p.total_tokens_sold, p.whitelist_enabled, p.presale_type, p.tokens_claimed_by_owner, p.owner_reward_withdrawn, p.sol_pool_reserve, p.token_pool_reserve)) by {
        reveal(cat);
    }
    v
}

/// Encodes a record as `encode_presale_v0` says.
#[verifier::rlimit(40)]
pub fn encode_presale_state_v0(p: &PresaleStateV0) -> (r: Vec<u8>)
    requires
        p.identifier@.len() <= u32::MAX,
    ensures
        r@ == encode_presale_v0(*p),
{
    let mut v = put_presale_v0_part1(p);
    let mut w2 = put_presale_v0_part2(p);
    v.append(&mut w2);
    let mut w3 = put_presale_v0_part3(p);
    v.append(&mut w3);
    let mut w4 = put_presale_v0_part4(p);
    v.append(&mut w4);
    let mut w5 = put_presale_v0_part5(p);
    v.append(&mut w5);
    assert(v@ == encode_presale_v0(*p)) by {
        reveal(cat);
        reveal(encode_presale_v0);
    }
    v
}

fn get_presale_v0_part1(bytes: &Vec<u8>, pos: usize, Ghost(expect): Ghost<Option<(Address, Address, u64, u64, u64, u64, u64)>>) -> (r: Option<((Address, Address, u64, u64, u64, u64, u64), usize)>)
    requires
        pos <= bytes@.len(),
    ensures
        r matches Some((t, next)) ==> pos <= next <= bytes@.len() && holds_at(
            bytes@,
            pos as int,
            next as int,
            presale_v0_part1(t.0, t.1, t.2, t.3, t.4, t.5, t.6),
        ),
        expect is Some && holds_at(
            bytes@,
            pos as int,
            pos + presale_v0_part1((expect->0).0, (expect->0).1, (expect->0).2, (expect->0).3, (expect->0).4, (expect->0).5, (expect->0).6).len(),
            presale_v0_part1((expect->0).0, (expect->0).1, (expect->0).2, (expect->0).3, (expect->0).4, (expect->0).5, (expect->0).6),
        ) ==> (r matches Some((_, next)) && next == pos + presale_v0_part1((expect->0).0, (expect->0).1, (expect->0).2, (expect->0).3, (expect->0).4, (expect->0).5, (expect->0).6).len()),
{
    let ghost start = pos as int;
    let c0 = pos;
    let ghost mut acc: Seq<u8> = Seq::empty();
    let ghost ok = expect is Some && holds_at(
        bytes@,
        pos as int,
        pos + presale_v0_part1((expect->0).0, (expect->0).1, (expect->0).2, (expect->0).3, (expect->0).4, (expect->0).5, (expect->0).6).len(),
        presale_v0_part1((expect->0).0, (expect->0).1, (expect->0).2, (expect->0).3, (expect->0).4, (expect->0).5, (expect->0).6),
    );
    proof {
        lemma_enc_facts();
        lemma_split(bytes@, start, pos + presale_v0_part1((expect->0).0, (expect->0).1, (expect->0).2, (expect->0).3, (expect->0).4, (expect->0).5, (expect->0).6).len(), cat(cat(cat(cat(cat(enc_address((expect->0).0), enc_address((expect->0).1)), enc_u64((expect->0).2)), enc_u64((expect->0).3)), enc_u64((expect->0).4)), enc_u64((expect->0).5)), enc_u64((expect->0).6));
        lemma_split(bytes@, start, start + cat(cat(cat(cat(cat(enc_address((expect->0).0), enc_address((expect->0).1)), enc_u64((expect->0).2)), enc_u64((expect->0).3)), enc_u64((expect->0).4)), enc_u64((expect->0).5)).len(), cat(cat(cat(cat(enc_address((expect->0).0), enc_address((expect->0).1)), enc_u64((expect->0).2)), enc_u64((expect->0).3)), enc_u64((expect->0).4)), enc_u64((expect->0).5));
        lemma_split(bytes@, start, start + cat(cat(cat(cat(enc_address((expect->0).0), enc_address((expect->0).1)), enc_u64((expect->0).2)), enc_u64((expect->0).3)), enc_u64((expect->0).4)).len(), cat(cat(cat(enc_address((expect->0).0), enc_address((expect->0).1)), enc_u64((expect->0).2)), enc_u64((expect->0).3)), enc_u64((expect->0).4));
        lemma_split(bytes@, start, start + cat(cat(cat(enc_address((expect->0).0), enc_address((expect->0).1)), enc_u64((expect->0).2)), enc_u64((expect->0).3)).len(), cat(cat(enc_address((expect->0).0), enc_address((expect->0).1)), enc_u64((expect->0).2)), enc_u64((expect->0).3));
        lemma_split(bytes@, start, start + cat(cat(enc_address((expect->0).0), enc_address((expect->0).1)), enc_u64((expect->0).2)).len(), cat(enc_address((expect->0).0), enc_address((expect->0).1)), enc_u64((expect->0).2));
        lemma_split(bytes@, start, start + cat(enc_address((expect->0).0), enc_address((expect->0).1)).len(), enc_address((expect->0).0), enc_address((expect->0).1));
        lemma_holds_at_facts(bytes@, start, start + enc_address((expect->0).0).len(), enc_address((expect->0).0));
        lemma_holds_at_facts(bytes@, start + enc_address((expect->0).0).len(), start + cat(enc_address((expect->0).0), enc_address((expect->0).1)).len(), enc_address((expect->0).1));
        lemma_holds_at_facts(bytes@, start + cat(enc_address((expect->0).0), enc_address((expect->0).1)).len(), start + cat(cat(enc_address((expect->0).0), enc_address((expect->0).1)), enc_u64((expect->0).2)).len(), enc_u64((expect->0).2));
        lemma_holds_at_facts(bytes@, start + cat(cat(enc_address((expect->0).0), enc_address((expect->0).1)), enc_u64((expect->0).2)).len(), start + cat(cat(cat(enc_address((expect->0).0), enc_address((expect->0).1)), enc_u64((expect->0).2)), enc_u64((expect->0).3)).len(), enc_u64((expect->0).3));
        lemma_holds_at_facts(bytes@, start + cat(cat(cat(enc_address((expect->0).0), enc_address((expect->0).1)), enc_u64((expect->0).2)), enc_u64((expect->0).3)).len(), start + cat(cat(cat(cat(enc_address((expect->0).0), enc_address((expect->0).1)), enc_u64((expect->0).2)), enc_u64((expect->0).3)), enc_u64((expect->0).4)).len(), enc_u64((expect->0).4));
        lemma_holds_at_facts(bytes@, start + cat(cat(cat(cat(enc_address((expect->0).0), enc_address((expect->0).1)), enc_u64((expect->0).2)), enc_u64((expect->0).3)), enc_u64((expect->0).4)).len(), start + cat(cat(cat(cat(cat(enc_address((expect->0).0), enc_address((expect->0).1)), enc_u64((expect->0).2)), enc_u64((expect->0).3)), enc_u64((expect->0).4)), enc_u64((expect->0).5)).len(), enc_u64((expect->0).5));
        lemma_holds_at_facts(bytes@, start + cat(cat(cat(cat(cat(enc_address((expect->0).0), enc_address((expect->0).1)), enc_u64((expect->0).2)), enc_u64((expect->0).3)), enc_u64((expect->0).4)), enc_u64((expect->0).5)).len(), start + cat(cat(cat(cat(cat(cat(enc_address((expect->0).0), enc_address((expect->0).1)), enc_u64((expect->0).2)), enc_u64((expect->0).3)), enc_u64((expect->0).4)), enc_u64((expect->0).5)), enc_u64((expect->0).6)).len(), enc_u64((expect->0).6));
    }
    let (owner, c1) = match get_address(bytes, c0) {
        Some(x) => x,
        None => {
            return None;
        },
    };
    proof {
        acc = enc_address(owner);
        assert(ok ==> c1 == start + enc_address((expect->0).0).len());
    }
    let (token, c2) = match get_address(bytes, c1) {
        Some(x) => x,
        None => {
            return None;
        },
    };
    proof {
        lemma_extend(bytes@, start, c1 as int, c2 as int, acc, enc_address(token));
        acc = cat(acc, enc_address(token));
        assert(ok ==> c2 == start + cat(enc_address((expect->0).0), enc_address((expect->0).1)).len());
    }
    let (token_price, c3) = match get_u64(bytes, c2) {
        Some(x) => x,
        None => {
            return None;
        },
    };
    proof {
        lemma_extend(bytes@, start, c2 as int, c3 as int, acc, enc_u64(token_price));
        acc = cat(acc, enc_u64(token_price));
        assert(ok ==> c3 == start + cat(cat(enc_address((expect->0).0), enc_address((expect->0).1)), enc_u64((expect->0).2)).len());
    }
    let (hard_cap, c4) = match get_u64(bytes, c3) {
        Some(x) => x,
        None => {
            return None;
        },
    };
    proof {
        lemma_extend(bytes@, start, c3 as int, c4 as int, acc, enc_u64(hard_cap));
        acc = cat(acc, enc_u64(hard_cap));
        assert(ok ==> c4 == start + cat(cat(cat(enc_address((expect->0).0), enc_address((expect->0).1)), enc_u64((expect->0).2)), enc_u64((expect->0).3)).len());
    }
    let (soft_cap, c5) = match get_u64(bytes, c4) {
        Some(x) => x,
        None => {
            return None;
        },
    };
    proof {
        lemma_extend(bytes@, start, c4 as int, c5 as int, acc, enc_u64(soft_cap));
        acc = cat(acc, enc_u64(soft_cap));
        assert(ok ==> c5 == start + cat(cat(cat(cat(enc_address((expect->0).0), enc_address((expect->0).1)), enc_u64((expect->0).2)), enc_u64((expect->0).3)), enc_u64((expect->0).4)).len());
    }
    let (min_contribution, c6) = match get_u64(bytes, c5) {
        Some(x) => x,
        None => {
            return None;
        },
    };
    proof {
        lemma_extend(bytes@, start, c5 as int, c6 as int, acc, enc_u64(min_contribution));
        acc = cat(acc, enc_u64(min_contribution));
        assert(ok ==> c6 == start + cat(cat(cat(cat(cat(enc_address((expect->0).0), enc_address((expect->0).1)), enc_u64((expect->0).2)), enc_u64((expect->0).3)), enc_u64((expect->0).4)), enc_u64((expect->0).5)).len());
    }
    let (max_contribution, c7) = match get_u64(bytes, c6) {
        Some(x) => x,
        None => {
            return None;
        },
    };
    proof {
        lemma_extend(bytes@, start, c6 as int, c7 as int, acc, enc_u64(max_contribution));
        acc = cat(acc, enc_u64(max_contribution));
        assert(ok ==> c7 == start + cat(cat(cat(cat(cat(cat(enc_address((expect->0).0), enc_address((expect->0).1)), enc_u64((expect->0).2)), enc_u64((expect->0).3)), enc_u64((expect->0).4)), enc_u64((expect->0).5)), enc_u64((expect->0).6)).len());
    }
    Some(((owner, token, token_price, hard_cap, soft_cap, min_contribution, max_contribution), c7))
}

fn get_presale_v0_part2(bytes: &Vec<u8>, pos: usize, Ghost(expect): Ghost<Option<(u64, i64, i64, bool, bool, bool, bool)>>) -> (r: Option<((u64, i64, i64, bool, bool, bool, bool), usize)>)
    requires
        pos <= bytes@.len(),
    ensures
        r matches Some((t, next)) ==> pos <= next <= bytes@.len() && holds_at(
            bytes@,
            pos as int,
            next as int,
            presale_v0_part2(t.0, t.1, t.2, t.3, t.4, t.5, t.6),
        ),
        expect is Some && holds_at(
            bytes@,
            pos as int,
            pos + presale_v0_part2((expect->0).0, (expect->0).1, (expect->0).2, (expect->0).3, (expect->0).4, (expect->0).5, (expect->0).6).len(),
            presale_v0_part2((expect->0).0, (expect->0).1, (expect->0).2, (expect->0).3, (expect->0).4, (expect->0).5, (expect->0).6),
        ) ==> (r matches Some((_, next)) && next == pos + presale_v0_part2((expect->0).0, (expect->0).1, (expect->0).2, (expect->0).3, (expect->0).4, (expect->0).5, (expect->0).6).len()),
{
    let ghost start = pos as int;
    let c0 = pos;
    let ghost mut acc: Seq<u8> = Seq::empty();
    let ghost ok = expect is Some && holds_at(
        bytes@,
        pos as int,
        pos + presale_v0_part2((expect->0).0, (expect->0).1, (expect->0).2, (expect->0).3, (expect->0).4, (expect->0).5, (expect->0).6).len(),
        presale_v0_part2((expect->0).0, (expect->0).1, (expect->0).2, (expect->0).3, (expect->0).4, (expect->0).5, (expect->0).6),
    );
    proof {
        lemma_enc_facts();
        lemma_split(bytes@, start, pos + presale_v0_part2((expect->0).0, (expect->0).1, (expect->0).2, (expect->0).3, (expect->0).4, (expect->0).5, (expect->0).6).len(), cat(cat(cat(cat(cat(enc_u64((expect->0).0), enc_i64((expect->0).1)), enc_i64((expect->0).2)), enc_bool((expect->0).3)), enc_bool((expect->0).4)), enc_bool((expect->0).5)), enc_bool((expect->0).6));
        lemma_split(bytes@, start, start + cat(cat(cat(cat(cat(enc_u64((expect->0).0), enc_i64((expect->0).1)), enc_i64((expect->0).2)), enc_bool((expect->0).3)), enc_bool((expect->0).4)), enc_bool((expect->0).5)).len(), cat(cat(cat(cat(enc_u64((expect->0).0), enc_i64((expect->0).1)), enc_i64((expect->0).2)), enc_bool((expect->0).3)), enc_bool((expect->0).4)), enc_bool((expect->0).5));
        lemma_split(bytes@, start, start + cat(cat(cat(cat(enc_u64((expect->0).0), enc_i64((expect->0).1)), enc_i64((expect->0).2)), enc_bool((expect->0).3)), enc_bool((expect->0).4)).len(), cat(cat(cat(enc_u64((expect->0).0), enc_i64((expect->0).1)), enc_i64((expect->0).2)), enc_bool((expect->0).3)), enc_bool((expect->0).4));
        lemma_split(bytes@, start, start + cat(cat(cat(enc_u64((expect->0).0), enc_i64((expect->0).1)), enc_i64((expect->0).2)), enc_bool((expect->0).3)).len(), cat(cat(enc_u64((expect->0).0), enc_i64((expect->0).1)), enc_i64((expect->0).2)), enc_bool((expect->0).3));
        lemma_split(bytes@, start, start + cat(cat(enc_u64((expect->0).0), enc_i64((expect->0).1)), enc_i64((expect->0).2)).len(), cat(enc_u64((expect->0).0), enc_i64((expect->0).1)), enc_i64((expect->0).2));
        lemma_split(bytes@, start, start + cat(enc_u64((expect->0).0), enc_i64((expect->0).1)).len(), enc_u64((expect->0).0), enc_i64((expect->0).1));
        lemma_holds_at_facts(bytes@, start, start + enc_u64((expect->0).0).len(), enc_u64((expect->0).0));
        lemma_holds_at_facts(bytes@, start + enc_u64((expect->0).0).len(), start + cat(enc_u64((expect->0).0), enc_i64((expect->0).1)).len(), enc_i64((expect->0).1));
        lemma_holds_at_facts(bytes@, start + cat(enc_u64((expect->0).0), enc_i64((expect->0).1)).len(), start + cat(cat(enc_u64((expect->0).0), enc_i64((expect->0).1)), enc_i64((expect->0).2)).len(), enc_i64((expect->0).2));
        lemma_holds_at_facts(bytes@, start + cat(cat(enc_u64((expect->0).0), enc_i64((expect->0).1)), enc_i64((expect->0).2)).len(), start + cat(cat(cat(enc_u64((expect->0).0), enc_i64((expect->0).1)), enc_i64((expect->0).2)), enc_bool((expect->0).3)).len(), enc_bool((expect->0).3));
        lemma_holds_at_facts(bytes@, start + cat(cat(cat(enc_u64((expect->0).0), enc_i64((expect->0).1)), enc_i64((expect->0).2)), enc_bool((expect->0).3)).len(), start + cat(cat(cat(cat(enc_u64((expect->0).0), enc_i64((expect->0).1)), enc_i64((expect->0).2)), enc_bool((expect->0).3)), enc_bool((expect->0).4)).len(), enc_bool((expect->0).4));
        lemma_holds_at_facts(bytes@, start + cat(cat(cat(cat(enc_u64((expect->0).0), enc_i64((expect->0).1)), enc_i64((expect->0).2)), enc_bool((expect->0).3)), enc_bool((expect->0).4)).len(), start + cat(cat(cat(cat(cat(enc_u64((expect->0).0), enc_i64((expect->0).1)), enc_i64((expect->0).2)), enc_bool((expect->0).3)), enc_bool((expect->0).4)), enc_bool((expect->0).5)).len(), enc_bool((expect->0).5));
        lemma_holds_at_facts(bytes@, start + cat(cat(cat(cat(cat(enc_u64((expect->0).0), enc_i64((expect->0).1)), enc_i64((expect->0).2)), enc_bool((expect->0).3)), enc_bool((expect->0).4)), enc_bool((expect->0).5)).len(), start + cat(cat(cat(cat(cat(cat(enc_u64((expect->0).0), enc_i64((expect->0).1)), enc_i64((expect->0).2)), enc_bool((expect->0).3)), enc_bool((expect->0).4)), enc_bool((expect->0).5)), enc_bool((expect->0).6)).len(), enc_bool((expect->0).6));
    }
    let (total_raised, c1) = match get_u64(bytes, c0) {
        Some(x) => x,
        None => {
            return None;
        },
    };
    proof {
        acc = enc_u64(total_raised);
        assert(ok ==> c1 == start + enc_u64((expect->0).0).len());
    }
    let (start_time, c2) = match get_i64(bytes, c1) {
        Some(x) => x,
        None => {
            return None;
        },
    };
    proof {
        lemma_extend(bytes@, start, c1 as int, c2 as int, acc, enc_i64(start_time));
        acc = cat(acc, enc_i64(start_time));
        assert(ok ==> c2 == start + cat(enc_u64((expect->0).0), enc_i64((expect->0).1)).len());
    }
    let (end_time, c3) = match get_i64(bytes, c2) {
        Some(x) => x,
        None => {
            return None;
        },
    };
    proof {
        lemma_extend(bytes@, start, c2 as int, c3 as int, acc, enc_i64(end_time));
        acc = cat(acc, enc_i64(end_time));
        assert(ok ==> c3 == start + cat(cat(enc_u64((expect->0).0), enc_i64((expect->0).1)), enc_i64((expect->0).2)).len());
    }
    let (presale_ended, c4) = match get_bool(bytes, c3) {
        Some(x) => x,
        None => {
            return None;
        },
    };
    proof {
        lemma_extend(bytes@, start, c3 as int, c4 as int, acc, enc_bool(presale_ended));
        acc = cat(acc, enc_bool(presale_ended));
        assert(ok ==> c4 == start + cat(cat(cat(enc_u64((expect->0).0), enc_i64((expect->0).1)), enc_i64((expect->0).2)), enc_bool((expect->0).3)).len());
    }
    let (presale_canceled, c5) = match get_bool(bytes, c4) {
        Some(x) => x,
        None => {
            return None;
        },
    };
    proof {
        lemma_extend(bytes@, start, c4 as int, c5 as int, acc, enc_bool(presale_canceled));
        acc = cat(acc, enc_bool(presale_canceled));
        assert(ok ==> c5 == start + cat(cat(cat(cat(enc_u64((expect->0).0), enc_i64((expect->0).1)), enc_i64((expect->0).2)), enc_bool((expect->0).3)), enc_bool((expect->0).4)).len());
    }
    let (presale_refund, c6) = match get_bool(bytes, c5) {
        Some(x) => x,
        None => {
            return None;
        },
    };
    proof {
        lemma_extend(bytes@, start, c5 as int, c6 as int, acc, enc_bool(presale_refund));
        acc = cat(acc, enc_bool(presale_refund));
        assert(ok ==> c6 == start + cat(cat(cat(cat(cat(enc_u64((expect->0).0), enc_i64((expect->0).1)), enc_i64((expect->0).2)), enc_bool((expect->0).3)), enc_bool((expect->0).4)), enc_bool((expect->0).5)).len());
    }
    let (is_init, c7) = match get_bool(bytes, c6) {
        Some(x) => x,
        None => {
            return None;
        },
    };
    proof {
        lemma_extend(bytes@, start, c6 as int, c7 as int, acc, enc_bool(is_init));
        acc = cat(acc, enc_bool(is_init));
        assert(ok ==> c7 == start + cat(cat(cat(cat(cat(cat(enc_u64((expect->0).0), enc_i64((expect->0).1)), enc_i64((expect->0).2)), enc_bool((expect->0).3)), enc_bool((expect->0).4)), enc_bool((expect->0).5)), enc_bool((expect->0).6)).len());
    }
    Some(((total_raised, start_time, end_time, presale_ended, presale_canceled, presale_refund, is_init), c7))
}

fn get_presale_v0_part3(bytes: &Vec<u8>, pos: usize, Ghost(expect): Ghost<Option<(u64, i64, u16, u16, RefundType, ListingOpt, LiquidityType)>>) -> (r: Option<((u64, i64, u16, u16, RefundType, ListingOpt, LiquidityType), usize)>)
    requires
        pos <= bytes@.len(),
    ensures
        r matches Some((t, next)) ==> pos <= next <= bytes@.len() && holds_at(
            bytes@,
            pos as int,
            next as int,
            presale_v0_part3(t.0, t.1, t.2, t.3, t.4, t.5, t.6),
        ),
        expect is Some && holds_at(
            bytes@,
            pos as int,
            pos + presale_v0_part3((expect->0).0, (expect->0).1, (expect->0).2, (expect->0).3, (expect->0).4, (expect->0).5, (expect->0).6).len(),
            presale_v0_part3((expect->0).0, (expect->0).1, (expect->0).2, (expect->0).3, (expect->0).4, (expect->0).5, (expect->0).6),
        ) ==> (r matches Some((_, next)) && next == pos + presale_v0_part3((expect->0).0, (expect->0).1, (expect->0).2, (expect->0).3, (expect->0).4, (expect->0).5, (expect->0).6).len()),
{
    let ghost start = pos as int;
    let c0 = pos;
    let ghost mut acc: Seq<u8> = Seq::empty();
    let ghost ok = expect is Some && holds_at(
        bytes@,
        pos as int,
        pos + presale_v0_part3((expect->0).0, (expect->0).1, (expect->0).2, (expect->0).3, (expect->0).4, (expect->0).5, (expect->0).6).len(),
        presale_v0_part3((expect->0).0, (expect->0).1, (expect->0).2, (expect->0).3, (expect->0).4, (expect->0).5, (expect->0).6),
    );
    proof {
        lemma_enc_facts();
        lemma_split(bytes@, start, pos + presale_v0_part3((expect->0).0, (expect->0).1, (expect->0).2, (expect->0).3, (expect->0).4, (expect->0).5, (expect->0).6).len(), cat(cat(cat(cat(cat(enc_u64((expect->0).0), enc_i64((expect->0).1)), enc_u16((expect->0).2)), enc_u16((expect->0).3)), enc_u8(refund_type_tag((expect->0).4))), enc_u8(listing_opt_tag((expect->0).5))), enc_u8(liquidity_type_tag((expect->0).6)));
        lemma_split(bytes@, start, start + cat(cat(cat(cat(cat(enc_u64((expect->0).0), enc_i64((expect->0).1)), enc_u16((expect->0).2)), enc_u16((expect->0).3)), enc_u8(refund_type_tag((expect->0).4))), enc_u8(listing_opt_tag((expect->0).5))).len(), cat(cat(cat(cat(enc_u64((expect->0).0), enc_i64((expect->0).1)), enc_u16((expect->0).2)), enc_u16((expect->0).3)), enc_u8(refund_type_tag((expect->0).4))), enc_u8(listing_opt_tag((expect->0).5)));
        lemma_split(bytes@, start, start + cat(cat(cat(cat(enc_u64((expect->0).0), enc_i64((expect->0).1)), enc_u16((expect->0).2)), enc_u16((expect->0).3)), enc_u8(refund_type_tag((expect->0).4))).len(), cat(cat(cat(enc_u64((expect->0).0), enc_i64((expect->0).1)), enc_u16((expect->0).2)), enc_u16((expect->0).3)), enc_u8(refund_type_tag((expect->0).4)));
        lemma_split(bytes@, start, start + cat(cat(cat(enc_u64((expect->0).0), enc_i64((expect->0).1)), enc_u16((expect->0).2)), enc_u16((expect->0).3)).len(), cat(cat(enc_u64((expect->0).0), enc_i64((expect->0).1)), enc_u16((expect->0).2)), enc_u16((expect->0).3));
        lemma_split(bytes@, start, start + cat(cat(enc_u64((expect->0).0), enc_i64((expect->0).1)), enc_u16((expect->0).2)).len(), cat(enc_u64((expect->0).0), enc_i64((expect->0).1)), enc_u16((expect->0).2));
        lemma_split(bytes@, start, start + cat(enc_u64((expect->0).0), enc_i64((expect->0).1)).len(), enc_u64((expect->0).0), enc_i64((expect->0).1));
        lemma_holds_at_facts(bytes@, start, start + enc_u64((expect->0).0).len(), enc_u64((expect->0).0));
        lemma_holds_at_facts(bytes@, start + enc_u64((expect->0).0).len(), start + cat(enc_u64((expect->0).0), enc_i64((expect->0).1)).len(), enc_i64((expect->0).1));
        lemma_holds_at_facts(bytes@, start + cat(enc_u64((expect->0).0), enc_i64((expect->0).1)).len(), start + cat(cat(enc_u64((expect->0).0), enc_i64((expect->0).1)), enc_u16((expect->0).2)).len(), enc_u16((expect->0).2));
        lemma_holds_at_facts(bytes@, start + cat(cat(enc_u64((expect->0).0), enc_i64((expect->0).1)), enc_u16((expect->0).2)).len(), start + cat(cat(cat(enc_u64((expect->0).0), enc_i64((expect->0).1)), enc_u16((expect->0).2)), enc_u16((expect->0).3)).len(), enc_u16((expect->0).3));
        lemma_holds_at_facts(bytes@, start + cat(cat(cat(enc_u64((expect->0).0), enc_i64((expect->0).1)), enc_u16((expect->0).2)), enc_u16((expect->0).3)).len(), start + cat(cat(cat(cat(enc_u64((expect->0).0), enc_i64((expect->0).1)), enc_u16((expect->0).2)), enc_u16((expect->0).3)), enc_u8(refund_type_tag((expect->0).4))).len(), enc_u8(refund_type_tag((expect->0).4)));
        lemma_holds_at_facts(bytes@, start + cat(cat(cat(cat(enc_u64((expect->0).0), enc_i64((expect->0).1)), enc_u16((expect->0).2)), enc_u16((expect->0).3)), enc_u8(refund_type_tag((expect->0).4))).len(), start + cat(cat(cat(cat(cat(enc_u64((expect->0).0), enc_i64((expect->0).1)), enc_u16((expect->0).2)), enc_u16((expect->0).3)), enc_u8(refund_type_tag((expect->0).4))), enc_u8(listing_opt_tag((expect->0).5))).len(), enc_u8(listing_opt_tag((expect->0).5)));
        lemma_holds_at_facts(bytes@, start + cat(cat(cat(cat(cat(enc_u64((expect->0).0), enc_i64((expect->0).1)), enc_u16((expect->0).2)), enc_u16((expect->0).3)), enc_u8(refund_type_tag((expect->0).4))), enc_u8(listing_opt_tag((expect->0).5))).len(), start + cat(cat(cat(cat(cat(cat(enc_u64((expect->0).0), enc_i64((expect->0).1)), enc_u16((expect->0).2)), enc_u16((expect->0).3)), enc_u8(refund_type_tag((expect->0).4))), enc_u8(listing_opt_tag((expect->0).5))), enc_u8(liquidity_type_tag((expect->0).6))).len(), enc_u8(liquidity_type_tag((expect->0).6)));
    }
    let (listing_rate, c1) = match get_u64(bytes, c0) {
        Some(x) => x,
        None => {
            return None;
        },
    };
    proof {
        acc = enc_u64(listing_rate);
        assert(ok ==> c1 == start + enc_u64((expect->0).0).len());
    }
    let (liquidity_lock_time, c2) = match get_i64(bytes, c1) {
        Some(x) => x,
        None => {
            return None;
        },
    };
    proof {
        lemma_extend(bytes@, start, c1 as int, c2 as int, acc, enc_i64(liquidity_lock_time));
        acc = cat(acc, enc_i64(liquidity_lock_time));
        assert(ok ==> c2 == start + cat(enc_u64((expect->0).0), enc_i64((expect->0).1)).len());
    }
    let (liquidity_bp, c3) = match get_u16(bytes, c2) {
        Some(x) => x,
        None => {
            return None;
        },
    };
    proof {
        lemma_extend(bytes@, start, c2 as int, c3 as int, acc, enc_u16(liquidity_bp));
        acc = cat(acc, enc_u16(liquidity_bp));
        assert(ok ==> c3 == start + cat(cat(enc_u64((expect->0).0), enc_i64((expect->0).1)), enc_u16((expect->0).2)).len());
    }
    let (service_fee, c4) = match get_u16(bytes, c3) {
        Some(x) => x,
        None => {
            return None;
        },
    };
    proof {
        lemma_extend(bytes@, start, c3 as int, c4 as int, acc, enc_u16(service_fee));
        acc = cat(acc, enc_u16(service_fee));
        assert(ok ==> c4 == start + cat(cat(cat(enc_u64((expect->0).0), enc_i64((expect->0).1)), enc_u16((expect->0).2)), enc_u16((expect->0).3)).len());
    }
    let (refund_type, c5) = match get_refund_type(bytes, c4) {
        Some(x) => x,
        None => {
            return None;
        },
    };
    proof {
        lemma_extend(bytes@, start, c4 as int, c5 as int, acc, enc_u8(refund_type_tag(refund_type)));
        acc = cat(acc, enc_u8(refund_type_tag(refund_type)));
        assert(ok ==> c5 == start + cat(cat(cat(cat(enc_u64((expect->0).0), enc_i64((expect->0).1)), enc_u16((expect->0).2)), enc_u16((expect->0).3)), enc_u8(refund_type_tag((expect->0).4))).len());
    }
    let (listing_opt, c6) = match get_listing_opt(bytes, c5) {
        Some(x) => x,
        None => {
            return None;
        },
    };
    proof {
        lemma_extend(bytes@, start, c5 as int, c6 as int, acc, enc_u8(listing_opt_tag(listing_opt)));
        acc = cat(acc, enc_u8(listing_opt_tag(listing_opt)));
        assert(ok ==> c6 == start + cat(cat(cat(cat(cat(enc_u64((expect->0).0), enc_i64((expect->0).1)), enc_u16((expect->0).2)), enc_u16((expect->0).3)), enc_u8(refund_type_tag((expect->0).4))), enc_u8(listing_opt_tag((expect->0).5))).len());
    }
    let (liquidity_type, c7) = match get_liquidity_type(bytes, c6) {
        Some(x) => x,
        None => {
            return None;
        },
    };
    proof {
        lemma_extend(bytes@, start, c6 as int, c7 as int, acc, enc_u8(liquidity_type_tag(liquidity_type)));
        acc = cat(acc, enc_u8(liquidity_type_tag(liquidity_type)));
        assert(ok ==> c7 == start + cat(cat(cat(cat(cat(cat(enc_u64((expect->0).0), enc_i64((expect->0).1)), enc_u16((expect->0).2)), enc_u16((expect->0).3)), enc_u8(refund_type_tag((expect->0).4))), enc_u8(listing_opt_tag((expect->0).5))), enc_u8(liquidity_type_tag((expect->0).6))).len());
    }
    Some(((listing_rate, liquidity_lock_time, liquidity_bp, service_fee, refund_type, listing_opt, liquidity_type), c7))
}

fn get_presale_v0_part4(bytes: &Vec<u8>, pos: usize, Ghost(expect): Ghost<Option<(ListingPlatform, Address, Seq<u8>, bool, u64, u16, u64)>>) -> (r: Option<((ListingPlatform, Address, Vec<u8>, bool, u64, u16, u64), usize)>)
    requires
        pos <= bytes@.len(),
    ensures
        r matches Some((t, next)) ==> pos <= next <= bytes@.len() && holds_at(
            bytes@,
            pos as int,
            next as int,
            presale_v0_part4(t.0, t.1, t.2@, t.3, t.4, t.5, t.6),
        ),
        expect is Some && (expect->0).2.len() <= u32::MAX && holds_at(
            bytes@,
            pos as int,
            pos + presale_v0_part4((expect->0).0, (expect->0).1, (expect->0).2, (expect->0).3, (expect->0).4, (expect->0).5, (expect->0).6).len(),
            presale_v0_part4((expect->0).0, (expect->0).1, (expect->0).2, (expect->0).3, (expect->0).4, (expect->0).5, (expect->0).6),
        ) ==> (r matches Some((_, next)) && next == pos + presale_v0_part4((expect->0).0, (expect->0).1, (expect->0).2, (expect->0).3, (expect->0).4, (expect->0).5, (expect->0).6).len()),
{
    let ghost start = pos as int;
    let c0 = pos;
    let ghost mut acc: Seq<u8> = Seq::empty();
    let ghost ok = expect is Some && (expect->0).2.len() <= u32::MAX && holds_at(
        bytes@,
        pos as int,
        pos + presale_v0_part4((expect->0).0, (expect->0).1, (expect->0).2, (expect->0).3, (expect->0).4, (expect->0).5, (expect->0).6).len(),
        presale_v0_part4((expect->0).0, (expect->0).1, (expect->0).2, (expect->0).3, (expect->0).4, (expect->0).5, (expect->0).6),
    );
    proof {
        lemma_enc_facts();
        lemma_split(bytes@, start, pos + presale_v0_part4((expect->0).0, (expect->0).1, (expect->0).2, (expect->0).3, (expect->0).4, (expect->0).5, (expect->0).6).len(), cat(cat(cat(cat(cat(enc_u8(listing_platform_tag((expect->0).0)), enc_address((expect->0).1)), enc_bytes((expect->0).2)), enc_bool((expect->0).3)), enc_u64((expect->0).4)), enc_u16((expect->0).5)), enc_u64((expect->0).6));
        lemma_split(bytes@, start, start + cat(cat(cat(cat(cat(enc_u8(listing_platform_tag((expect->0).0)), enc_address((expect->0).1)), enc_bytes((expect->0).2)), enc_bool((expect->0).3)), enc_u64((expect->0).4)), enc_u16((expect->0).5)).len(), cat(cat(cat(cat(enc_u8(listing_platform_tag((expect->0).0)), enc_address((expect->0).1)), enc_bytes((expect->0).2)), enc_bool((expect->0).3)), enc_u64((expect->0).4)), enc_u16((expect->0).5));
        lemma_split(bytes@, start, start + cat(cat(cat(cat(enc_u8(listing_platform_tag((expect->0).0)), enc_address((expect->0).1)), enc_bytes((expect->0).2)), enc_bool((expect->0).3)), enc_u64((expect->0).4)).len(), cat(cat(cat(enc_u8(listing_platform_tag((expect->0).0)), enc_address((expect->0).1)), enc_bytes((expect->0).2)), enc_bool((expect->0).3)), enc_u64((expect->0).4));
        lemma_split(bytes@, start, start + cat(cat(cat(enc_u8(listing_platform_tag((expect->0).0)), enc_address((expect->0).1)), enc_bytes((expect->0).2)), enc_bool((expect->0).3)).len(), cat(cat(enc_u8(listing_platform_tag((expect->0).0)), enc_address((expect->0).1)), enc_bytes((expect->0).2)), enc_bool((expect->0).3));
        lemma_split(bytes@, start, start + cat(cat(enc_u8(listing_platform_tag((expect->0).0)), enc_address((expect->0).1)), enc_bytes((expect->0).2)).len(), cat(enc_u8(listing_platform_tag((expect->0).0)), enc_address((expect->0).1)), enc_bytes((expect->0).2));
        lemma_split(bytes@, start, start + cat(enc_u8(listing_platform_tag((expect->0).0)), enc_address((expect->0).1)).len(), enc_u8(listing_platform_tag((expect->0).0)), enc_address((expect->0).1));
        lemma_holds_at_facts(bytes@, start, start + enc_u8(listing_platform_tag((expect->0).0)).len(), enc_u8(listing_platform_tag((expect->0).0)));
        lemma_holds_at_facts(bytes@, start + enc_u8(listing_platform_tag((expect->0).0)).len(), start + cat(enc_u8(listing_platform_tag((expect->0).0)), enc_address((expect->0).1)).len(), enc_address((expect->0).1));
        lemma_holds_at_facts(bytes@, start + cat(enc_u8(listing_platform_tag((expect->0).0)), enc_address((expect->0).1)).len(), start + cat(cat(enc_u8(listing_platform_tag((expect->0).0)), enc_address((expect->0).1)), enc_bytes((expect->0).2)).len(), enc_bytes((expect->0).2));
        lemma_holds_at_facts(bytes@, start + cat(cat(enc_u8(listing_platform_tag((expect->0).0)), enc_address((expect->0).1)), enc_bytes((expect->0).2)).len(), start + cat(cat(cat(enc_u8(listing_platform_tag((expect->0).0)), enc_address((expect->0).1)), enc_bytes((expect->0).2)), enc_bool((expect->0).3)).len(), enc_bool((expect->0).3));
        lemma_holds_at_facts(bytes@, start + cat(cat(cat(enc_u8(listing_platform_tag((expect->0).0)), enc_address((expect->0).1)), enc_bytes((expect->0).2)), enc_bool((expect->0).3)).len(), start + cat(cat(cat(cat(enc_u8(listing_platform_tag((expect->0).0)), enc_address((expect->0).1)), enc_bytes((expect->0).2)), enc_bool((expect->0).3)), enc_u64((expect->0).4)).len(), enc_u64((expect->0).4));
        lemma_holds_at_facts(bytes@, start + cat(cat(cat(cat(enc_u8(listing_platform_tag((expect->0).0)), enc_address((expect->0).1)), enc_bytes((expect->0).2)), enc_bool((expect->0).3)), enc_u64((expect->0).4)).len(), start + cat(cat(cat(cat(cat(enc_u8(listing_platform_tag((expect->0).0)), enc_address((expect->0).1)), enc_bytes((expect->0).2)), enc_bool((expect->0).3)), enc_u64((expect->0).4)), enc_u16((expect->0).5)).len(), enc_u16((expect->0).5));
        lemma_holds_at_facts(bytes@, start + cat(cat(cat(cat(cat(enc_u8(listing_platform_tag((expect->0).0)), enc_address((expect->0).1)), enc_bytes((expect->0).2)), enc_bool((expect->0).3)), enc_u64((expect->0).4)), enc_u16((expect->0).5)).len(), start + cat(cat(cat(cat(cat(cat(enc_u8(listing_platform_tag((expect->0).0)), enc_address((expect->0).1)), enc_bytes((expect->0).2)), enc_bool((expect->0).3)), enc_u64((expect->0).4)), enc_u16((expect->0).5)), enc_u64((expect->0).6)).len(), enc_u64((expect->0).6));
    }
    let (listing_platform, c1) = match get_listing_platform(bytes, c0) {
        Some(x) => x,
        None => {
            return None;
        },
    };
    proof {
        acc = enc_u8(listing_platform_tag(listing_platform));
        assert(ok ==> c1 == start + enc_u8(listing_platform_tag((expect->0).0)).len());
    }
    let (fee_collector, c2) = match get_address(bytes, c1) {
        Some(x) => x,
        None => {
            return None;
        },
    };
    proof {
        lemma_extend(bytes@, start, c1 as int, c2 as int, acc, enc_address(fee_collector));
        acc = cat(acc, enc_address(fee_collector));
        assert(ok ==> c2 == start + cat(enc_u8(listing_platform_tag((expect->0).0)), enc_address((expect->0).1)).len());
    }
    let (identifier, c3) = match get_bytes(bytes, c2, Ghost(Some((expect->0).2))) {
        Some(x) => x,
        None => {
            return None;
        },
    };
    proof {
        lemma_extend(bytes@, start, c2 as int, c3 as int, acc, enc_bytes(identifier@));
        acc = cat(acc, enc_bytes(identifier@));
        assert(ok ==> c3 == start + cat(cat(enc_u8(listing_platform_tag((expect->0).0)), enc_address((expect->0).1)), enc_bytes((expect->0).2)).len());
    }
    let (affiliate_enabled, c4) = match get_bool(bytes, c3) {
        Some(x) => x,
        None => {
            return None;
        },
    };
    proof {
        lemma_extend(bytes@, start, c3 as int, c4 as int, acc, enc_bool(affiliate_enabled));
        acc = cat(acc, enc_bool(affiliate_enabled));
        assert(ok ==> c4 == start + cat(cat(cat(enc_u8(listing_platform_tag((expect->0).0)), enc_address((expect->0).1)), enc_bytes((expect->0).2)), enc_bool((expect->0).3)).len());
    }
    let (total_ref_amount, c5) = match get_u64(bytes, c4) {
        Some(x) => x,
        None => {
            return None;
        },
    };
    proof {
        lemma_extend(bytes@, start, c4 as int, c5 as int, acc, enc_u64(total_ref_amount));
        acc = cat(acc, enc_u64(total_ref_amount));
        assert(ok ==> c5 == start + cat(cat(cat(cat(enc_u8(listing_platform_tag((expect->0).0)), enc_address((expect->0).1)), enc_bytes((expect->0).2)), enc_bool((expect->0).3)), enc_u64((expect->0).4)).len());
    }
    let (commission_rate, c6) = match get_u16(bytes, c5) {
        Some(x) => x,
        None => {
            return None;
        },
    };
    proof {
        lemma_extend(bytes@, start, c5 as int, c6 as int, acc, enc_u16(commission_rate));
        acc = cat(acc, enc_u16(commission_rate));
        assert(ok ==> c6 == start + cat(cat(cat(cat(cat(enc_u8(listing_platform_tag((expect->0).0)), enc_address((expect->0).1)), enc_bytes((expect->0).2)), enc_bool((expect->0).3)), enc_u64((expect->0).4)), enc_u16((expect->0).5)).len());
    }
    let (total_ref_count, c7) = match get_u64(bytes, c6) {
        Some(x) => x,
        None => {
            return None;
        },
    };
    proof {
        lemma_extend(bytes@, start, c6 as int, c7 as int, acc, enc_u64(total_ref_count));
        acc = cat(acc, enc_u64(total_ref_count));
        assert(ok ==> c7 == start + cat(cat(cat(cat(cat(cat(enc_u8(listing_platform_tag((expect->0).0)), enc_address((expect->0).1)), enc_bytes((expect->0).2)), enc_bool((expect->0).3)), enc_u64((expect->0).4)), enc_u16((expect->0).5)), enc_u64((expect->0).6)).len());
    }
    Some(((listing_platform, fee_collector, identifier, affiliate_enabled, total_ref_amount, commission_rate, total_ref_count), c7))
}

fn get_presale_v0_part5(bytes: &Vec<u8>, pos: usize, Ghost(expect): Ghost<Option<(u64, bool, PresaleType, u64, bool, u64, u64)>>) -> (r: Option<((u64, bool, PresaleType, u64, bool, u64, u64), usize)>)
    requires
        pos <= bytes@.len(),
    ensures
        r matches Some((t, next)) ==> pos <= next <= bytes@.len() && holds_at(
            bytes@,
            pos as int,
            next as int,
            presale_v0_part5(t.0, t.1, t.2, t.3, t.4, t.5, t.6),
        ),
        expect is Some && holds_at(
            bytes@,
            pos as int,
            pos + presale_v0_part5((expect->0).0, (expect->0).1, (expect->0).2, (expect->0).3, (expect->0).4, (expect->0).5, (expect->0).6).len(),
            presale_v0_part5((expect->0).0, (expect->0).1, (expect->0).2, (expect->0).3, (expect->0).4, (expect->0).5, (expect->0).6),
        ) ==> (r matches Some((_, next)) && next == pos + presale_v0_part5((expect->0).0, (expect->0).1, (expect->0).2, (expect->0).3, (expect->0).4, (expect->0).5, (expect->0).6).len()),
{
    let ghost start = pos as int;
    let c0 = pos;
    let ghost mut acc: Seq<u8> = Seq::empty();
    let ghost ok = expect is Some && holds_at(
        bytes@,
        pos as int,
        pos + presale_v0_part5((expect->0).0, (expect->0).1, (expect->0).2, (expect->0).3, (expect->0).4, (expect->0).5, (expect->0).6).len(),
        presale_v0_part5((expect->0).0, (expect->0).1, (expect->0).2, (expect->0).3, (expect->0).4, (expect->0).5, (expect->0).6),
    );
    proof {
        lemma_enc_facts();
        lemma_split(bytes@, start, pos + presale_v0_part5((expect->0).0, (expect->0).1, (expect->0).2, (expect->0).3, (expect->0).4, (expect->0).5, (expect->0).6).len(), cat(cat(cat(cat(cat(enc_u64((expect->0).0), enc_bool((expect->0).1)), enc_u8(presale_type_tag((expect->0).2))), enc_u64((expect->0).3)), enc_bool((expect->0).4)), enc_u64((expect->0).5)), enc_u64((expect->0).6));
        lemma_split(bytes@, start, start + cat(cat(cat(cat(cat(enc_u64((expect->0).0), enc_bool((expect->0).1)), enc_u8(presale_type_tag((expect->0).2))), enc_u64((expect->0).3)), enc_bool((expect->0).4)), enc_u64((expect->0).5)).len(), cat(cat(cat(cat(enc_u64((expect->0).0), enc_bool((expect->0).1)), enc_u8(presale_type_tag((expect->0).2))), enc_u64((expect->0).3)), enc_bool((expect->0).4)), enc_u64((expect->0).5));
        lemma_split(bytes@, start, start + cat(cat(cat(cat(enc_u64((expect->0).0), enc_bool((expect->0).1)), enc_u8(presale_type_tag((expect->0).2))), enc_u64((expect->0).3)), enc_bool((expect->0).4)).len(), cat(cat(cat(enc_u64((expect->0).0), enc_bool((expect->0).1)), enc_u8(presale_type_tag((expect->0).2))), enc_u64((expect->0).3)), enc_bool((expect->0).4));
        lemma_split(bytes@, start, start + cat(cat(cat(enc_u64((expect->0).0), enc_bool((expect->0).1)), enc_u8(presale_type_tag((expect->0).2))), enc_u64((expect->0).3)).len(), cat(cat(enc_u64((expect->0).0), enc_bool((expect->0).1)), enc_u8(presale_type_tag((expect->0).2))), enc_u64((expect->0).3));
        lemma_split(bytes@, start, start + cat(cat(enc_u64((expect->0).0), enc_bool((expect->0).1)), enc_u8(presale_type_tag((expect->0).2))).len(), cat(enc_u64((expect->0).0), enc_bool((expect->0).1)), enc_u8(presale_type_tag((expect->0).2)));
        lemma_split(bytes@, start, start + cat(enc_u64((expect->0).0), enc_bool((expect->0).1)).len(), enc_u64((expect->0).0), enc_bool((expect->0).1));
        lemma_holds_at_facts(bytes@, start, start + enc_u64((expect->0).0).len(), enc_u64((expect->0).0));
        lemma_holds_at_facts(bytes@, start + enc_u64((expect->0).0).len(), start + cat(enc_u64((expect->0).0), enc_bool((expect->0).1)).len(), enc_bool((expect->0).1));
        lemma_holds_at_facts(bytes@, start + cat(enc_u64((expect->0).0), enc_bool((expect->0).1)).len(), start + cat(cat(enc_u64((expect->0).0), enc_bool((expect->0).1)), enc_u8(presale_type_tag((expect->0).2))).len(), enc_u8(presale_type_tag((expect->0).2)));
        lemma_holds_at_facts(bytes@, start + cat(cat(enc_u64((expect->0).0), enc_bool((expect->0).1)), enc_u8(presale_type_tag((expect->0).2))).len(), start + cat(cat(cat(enc_u64((expect->0).0), enc_bool((expect->0).1)), enc_u8(presale_type_tag((expect->0).2))), enc_u64((expect->0).3)).len(), enc_u64((expect->0).3));
        lemma_holds_at_facts(bytes@, start + cat(cat(cat(enc_u64((expect->0).0), enc_bool((expect->0).1)), enc_u8(presale_type_tag((expect->0).2))), enc_u64((expect->0).3)).len(), start + cat(cat(cat(cat(enc_u64((expect->0).0), enc_bool((expect->0).1)), enc_u8(presale_type_tag((expect->0).2))), enc_u64((expect->0).3)), enc_bool((expect->0).4)).len(), enc_bool((expect->0).4));
        lemma_holds_at_facts(bytes@, start + cat(cat(cat(cat(enc_u64((expect->0).0), enc_bool((expect->0).1)), enc_u8(presale_type_tag((expect->0).2))), enc_u64((expect->0).3)), enc_bool((expect->0).4)).len(), start + cat(cat(cat(cat(cat(enc_u64((expect->0).0), enc_bool((expect->0).1)), enc_u8(presale_type_tag((expect->0).2))), enc_u64((expect->0).3)), enc_bool((expect->0).4)), enc_u64((expect->0).5)).len(), enc_u64((expect->0).5));
        lemma_holds_at_facts(bytes@, start + cat(cat(cat(cat(cat(enc_u64((expect->0).0), enc_bool((expect->0).1)), enc_u8(presale_type_tag((expect->0).2))), enc_u64((expect->0).3)), enc_bool((expect->0).4)), enc_u64((expect->0).5)).len(), start + cat(cat(cat(cat(cat(cat(enc_u64((expect->0).0), enc_bool((expect->0).1)), enc_u8(presale_type_tag((expect->0).2))), enc_u64((expect->0).3)), enc_bool((expect->0).4)), enc_u64((expect->0).5)), enc_u64((expect->0).6)).len(), enc_u64((expect->0).6));
    }
    let (total_tokens_sold, c1) = match get_u64(bytes, c0) {
        Some(x) => x,
        None => {
            return None;
        },
    };
    proof {
        acc = enc_u64(total_tokens_sold);
        assert(ok ==> c1 == start + enc_u64((expect->0).0).len());
    }
    let (whitelist_enabled, c2) = match get_bool(bytes, c1) {
        Some(x) => x,
        None => {
            return None;
        },
    };
    proof {
        lemma_extend(bytes@, start, c1 as int, c2 as int, acc, enc_bool(whitelist_enabled));
        acc = cat(acc, enc_bool(whitelist_enabled));
        assert(ok ==> c2 == start + cat(enc_u64((expect->0).0), enc_bool((expect->0).1)).len());
    }
    let (presale_type, c3) = match get_presale_type(bytes, c2) {
        Some(x) => x,
        None => {
            return None;
        },
    };
    proof {
        lemma_extend(bytes@, start, c2 as int, c3 as int, acc, enc_u8(presale_type_tag(presale_type)));
        acc = cat(acc, enc_u8(presale_type_tag(presale_type)));
        assert(ok ==> c3 == start + cat(cat(enc_u64((expect->0).0), enc_bool((expect->0).1)), enc_u8(presale_type_tag((expect->0).2))).len());
    }
    let (tokens_claimed_by_owner, c4) = match get_u64(bytes, c3) {
        Some(x) => x,
        None => {
            return None;
        },
    };
    proof {
        lemma_extend(bytes@, start, c3 as int, c4 as int, acc, enc_u64(tokens_claimed_by_owner));
        acc = cat(acc, enc_u64(tokens_claimed_by_owner));
        assert(ok ==> c4 == start + cat(cat(cat(enc_u64((expect->0).0), enc_bool((expect->0).1)), enc_u8(presale_type_tag((expect->0).2))), enc_u64((expect->0).3)).len());
    }
    let (owner_reward_withdrawn, c5) = match get_bool(bytes, c4) {
        Some(x) => x,
        None => {
            return None;
        },
    };
    proof {
        lemma_extend(bytes@, start, c4 as int, c5 as int, acc, enc_bool(owner_reward_withdrawn));
        acc = cat(acc, enc_bool(owner_reward_withdrawn));
        assert(ok ==> c5 == start + cat(cat(cat(cat(enc_u64((expect->0).0), enc_bool((expect->0).1)), enc_u8(presale_type_tag((expect->0).2))), enc_u64((expect->0).3)), enc_bool((expect->0).4)).len());
    }
    let (sol_pool_reserve, c6) = match get_u64(bytes, c5) {
        Some(x) => x,
        None => {
            return None;
        },
    };
    proof {
        lemma_extend(bytes@, start, c5 as int, c6 as int, acc, enc_u64(sol_pool_reserve));
        acc = cat(acc, enc_u64(sol_pool_reserve));
        assert(ok ==> c6 == start + cat(cat(cat(cat(cat(enc_u64((expect->0).0), enc_bool((expect->0).1)), enc_u8(presale_type_tag((expect->0).2))), enc_u64((expect->0).3)), enc_bool((expect->0).4)), enc_u64((expect->0).5)).len());
    }
    let (token_pool_reserve, c7) = match get_u64(bytes, c6) {
        Some(x) => x,
        None => {
            return None;
        },
    };
    proof {
        lemma_extend(bytes@, start, c6 as int, c7 as int, acc, enc_u64(token_pool_reserve));
        acc = cat(acc, enc_u64(token_pool_reserve));
        assert(ok ==> c7 == start + cat(cat(cat(cat(cat(cat(enc_u64((expect->0).0), enc_bool((expect->0).1)), enc_u8(presale_type_tag((expect->0).2))), enc_u64((expect->0).3)), enc_bool((expect->0).4)), enc_u64((expect->0).5)), enc_u64((expect->0).6)).len());
    }
    Some(((total_tokens_sold, whitelist_enabled, presale_type, tokens_claimed_by_owner, owner_reward_withdrawn, sol_pool_reserve, token_pool_reserve), c7))
}

proof fn lemma_presale_v0_layout(s: Seq<u8>, pos: int, p: PresaleStateV0)
    ensures
        holds_at(s, pos, pos + encode_presale_v0(p).len(), encode_presale_v0(p)) ==> holds_at(s, pos, pos + presale_v0_part1(p.owner, p.token, p.token_price, p.hard_cap, p.soft_cap, p.min_contribution, p.max_contribution).len(), presale_v0_part1(p.owner, p.token, p.token_price, p.hard_cap, p.soft_cap, p.min_contribution, p.max_contribution)) && holds_at(s, pos + presale_v0_part1(p.owner, p.token, p.token_price, p.hard_cap, p.soft_cap, p.min_contribution, p.max_contribution).len(), pos + presale_v0_part1(p.owner, p.token, p.token_price, p.hard_cap, p.soft_cap, p.min_contribution, p.max_contribution).len() + presale_v0_part2(p.total_raised, p.start_time, p.end_time, p.presale_ended, p.presale_canceled, p.presale_refund, p.is_init).len(), presale_v0_part2(p.total_raised, p.start_time, p.end_time, p.presale_ended, p.presale_canceled, p.presale_refund, p.is_init)) && holds_at(s, pos + presale_v0_part1(p.owner, p.token, p.token_price, p.hard_cap, p.soft_cap, p.min_contribution, p.max_contribution).len() + presale_v0_part2(p.total_raised, p.start_time, p.end_time, p.presale_ended, p.presale_canceled, p.presale_refund, p.is_init).len(), pos + presale_v0_part1(p.owner, p.token, p.token_price, p.hard_cap, p.soft_cap, p.min_contribution, p.max_contribution).len() + presale_v0_part2(p.total_raised, p.start_time, p.end_time, p.presale_ended, p.presale_canceled, p.presale_refund, p.is_init).len() + presale_v0_part3(p.listing_rate, p.liquidity_lock_time, p.liquidity_bp, p.service_fee, p.refund_type, p.listing_opt, p.liquidity_type).len(), presale_v0_part3(p.listing_rate, p.liquidity_lock_time, p.liquidity_bp, p.service_fee, p.refund_type, p.listing_opt, p.liquidity_type)) && holds_at(s, pos + presale_v0_part1(p.owner, p.token, p.token_price, p.hard_cap, p.soft_cap, p.min_contribution, p.max_contribution).len() + presale_v0_part2(p.total_raised, p.start_time, p.end_time, p.presale_ended, p.presale_canceled, p.presale_refund, p.is_init).len() + presale_v0_part3(p.listing_rate, p.liquidity_lock_time, p.liquidity_bp, p.service_fee, p.refund_type, p.listing_opt, p.liquidity_type).len(), pos + presale_v0_part1(p.owner, p.token, p.token_price, p.hard_cap, p.soft_cap, p.min_contribution, p.max_contribution).len() + presale_v0_part2(p.total_raised, p.start_time, p.end_time, p.presale_ended, p.presale_canceled, p.presale_refund, p.is_init).len() + presale_v0_part3(p.listing_rate, p.liquidity_lock_time, p.liquidity_bp, p.service_fee, p.refund_type, p.listing_opt, p.liquidity_type).len() + presale_v0_part4(p.listing_platform, p.fee_collector, p.identifier@, p.affiliate_enabled, p.total_ref_amount, p.commission_rate, p.total_ref_count).len(), presale_v0_part4(p.listing_platform, p.fee_collector, p.identifier@, p.affiliate_enabled, p.total_ref_amount, p.commission_rate, p.total_ref_count)) && holds_at(s, pos + presale_v0_part1(p.owner, p.token, p.token_price, p.hard_cap, p.soft_cap, p.min_contribution, p.max_contribution).len() + presale_v0_part2(p.total_raised, p.start_time, p.end_time, p.presale_ended, p.presale_canceled, p.presale_refund, p.is_init).len() + presale_v0_part3(p.listing_rate, p.liquidity_lock_time, p.liquidity_bp, p.service_fee, p.refund_type, p.listing_opt, p.liquidity_type).len() + presale_v0_part4(p.listing_platform, p.fee_collector, p.identifier@, p.affiliate_enabled, p.total_ref_amount, p.commission_rate, p.total_ref_count).len(), pos + presale_v0_part1(p.owner, p.token, p.token_price, p.hard_cap, p.soft_cap, p.min_contribution, p.max_contribution).len() + presale_v0_part2(p.total_raised, p.start_time, p.end_time, p.presale_ended, p.presale_canceled, p.presale_refund, p.is_init).len() + presale_v0_part3(p.listing_rate, p.liquidity_lock_time, p.liquidity_bp, p.service_fee, p.refund_type, p.listing_opt, p.liquidity_type).len() + presale_v0_part4(p.listing_platform, p.fee_collector, p.identifier@, p.affiliate_enabled, p.total_ref_amount, p.commission_rate, p.total_ref_count).len() + presale_v0_part5(p.total_tokens_sold, p.whitelist_enabled, p.presale_type, p.tokens_claimed_by_owner, p.owner_reward_withdrawn, p.sol_pool_reserve, p.token_pool_reserve).len(), presale_v0_part5(p.total_tokens_sold, p.whitelist_enabled, p.presale_type, p.tokens_claimed_by_owner, p.owner_reward_withdrawn, p.sol_pool_reserve, p.token_pool_reserve)),
{
    reveal(encode_presale_v0);
    lemma_enc_facts();
    lemma_split(s, pos, pos + encode_presale_v0(p).len(), cat(cat(cat(presale_v0_part1(p.owner, p.token, p.token_price, p.hard_cap, p.soft_cap, p.min_contribution, p.max_contribution), presale_v0_part2(p.total_raised, p.start_time, p.end_time, p.presale_ended, p.presale_canceled, p.presale_refund, p.is_init)), presale_v0_part3(p.listing_rate, p.liquidity_lock_time, p.liquidity_bp, p.service_fee, p.refund_type, p.listing_opt, p.liquidity_type)), presale_v0_part4(p.listing_platform, p.fee_collector, p.identifier@, p.affiliate_enabled, p.total_ref_amount, p.commission_rate, p.total_ref_count)), presale_v0_part5(p.total_tokens_sold, p.whitelist_enabled, p.presale_type, p.tokens_claimed_by_owner, p.owner_reward_withdrawn, p.sol_pool_reserve, p.token_pool_reserve));
    lemma_split(s, pos, pos + cat(cat(cat(presale_v0_part1(p.owner, p.token, p.token_price, p.hard_cap, p.soft_cap, p.min_contribution, p.max_contribution), presale_v0_part2(p.total_raised, p.start_time, p.end_time, p.presale_ended, p.presale_canceled, p.presale_refund, p.is_init)), presale_v0_part3(p.listing_rate, p.liquidity_lock_time, p.liquidity_bp, p.service_fee, p.refund_type, p.listing_opt, p.liquidity_type)), presale_v0_part4(p.listing_platform, p.fee_collector, p.identifier@, p.affiliate_enabled, p.total_ref_amount, p.commission_rate, p.total_ref_count)).len(), cat(cat(presale_v0_part1(p.owner, p.token, p.token_price, p.hard_cap, p.soft_cap, p.min_contribution, p.max_contribution), presale_v0_part2(p.total_raised, p.start_time, p.end_time, p.presale_ended, p.presale_canceled, p.presale_refund, p.is_init)), presale_v0_part3(p.listing_rate, p.liquidity_lock_time, p.liquidity_bp, p.service_fee, p.refund_type, p.listing_opt, p.liquidity_type)), presale_v0_part4(p.listing_platform, p.fee_collector, p.identifier@, p.affiliate_enabled, p.total_ref_amount, p.commission_rate, p.total_ref_count));
    lemma_split(s, pos, pos + cat(cat(presale_v0_part1(p.owner, p.token, p.token_price, p.hard_cap, p.soft_cap, p.min_contribution, p.max_contribution), presale_v0_part2(p.total_raised, p.start_time, p.end_time, p.presale_ended, p.presale_canceled, p.presale_refund, p.is_init)), presale_v0_part3(p.listing_rate, p.liquidity_lock_time, p.liquidity_bp, p.service_fee, p.refund_type, p.listing_opt, p.liquidity_type)).len(), cat(presale_v0_part1(p.owner, p.token, p.token_price, p.hard_cap, p.soft_cap, p.min_contribution, p.max_contribution), presale_v0_part2(p.total_raised, p.start_time, p.end_time, p.presale_ended, p.presale_canceled, p.presale_refund, p.is_init)), presale_v0_part3(p.listing_rate, p.liquidity_lock_time, p.liquidity_bp, p.service_fee, p.refund_type, p.listing_opt, p.liquidity_type));
    lemma_split(s, pos, pos + cat(presale_v0_part1(p.owner, p.token, p.token_price, p.hard_cap, p.soft_cap, p.min_contribution, p.max_contribution), presale_v0_part2(p.total_raised, p.start_time, p.end_time, p.presale_ended, p.presale_canceled, p.presale_refund, p.is_init)).len(), presale_v0_part1(p.owner, p.token, p.token_price, p.hard_cap, p.soft_cap, p.min_contribution, p.max_contribution), presale_v0_part2(p.total_raised, p.start_time, p.end_time, p.presale_ended, p.presale_canceled, p.presale_refund, p.is_init));
}

#[verifier::rlimit(100)]
fn decode_presale_state_v0_at(bytes: &Vec<u8>, pos: usize, Ghost(expect): Ghost<Option<PresaleStateV0>>) -> (r: Option<(PresaleStateV0, usize)>)
    requires
        pos <= bytes@.len(),
    ensures
        r matches Some((p, next)) ==> pos <= next <= bytes@.len() && holds_at(
            bytes@,
            pos as int,
            next as int,
            encode_presale_v0(p),
        ),
        expect is Some && expect->0.identifier@.len() <= u32::MAX && holds_at(
            bytes@,
            pos as int,
            pos + encode_presale_v0(expect->0).len(),
            encode_presale_v0(expect->0),
        ) ==> r is Some,
{
    let ghost start = pos as int;
    let c0 = pos;
    let ghost mut acc: Seq<u8> = Seq::empty();
    let ghost e = expect->0;
    let ghost ok = expect is Some && e.identifier@.len() <= u32::MAX && holds_at(
        bytes@,
        pos as int,
        pos + encode_presale_v0(e).len(),
        encode_presale_v0(e),
    );
    proof {
        lemma_presale_v0_layout(bytes@, start, e);
    }
    let ((owner, token, token_price, hard_cap, soft_cap, min_contribution, max_contribution), c1) = match get_presale_v0_part1(bytes, c0, Ghost(Some((e.owner, e.token, e.token_price, e.hard_cap, e.soft_cap, e.min_contribution, e.max_contribution)))) {
        Some(x) => x,
        None => {
            return None;
        },
    };
    proof {
        acc = presale_v0_part1(owner, token, token_price, hard_cap, soft_cap, min_contribution, max_contribution);
        assert(ok ==> c1 == start + presale_v0_part1(e.owner, e.token, e.token_price, e.hard_cap, e.soft_cap, e.min_contribution, e.max_contribution).len());
    }
    let ((total_raised, start_time, end_time, presale_ended, presale_canceled, presale_refund, is_init), c2) = match get_presale_v0_part2(bytes, c1, Ghost(Some((e.total_raised, e.start_time, e.end_time, e.presale_ended, e.presale_canceled, e.presale_refund, e.is_init)))) {
        Some(x) => x,
        None => {
            return None;
        },
    };
    proof {
        lemma_extend(bytes@, start, c1 as int, c2 as int, acc, presale_v0_part2(total_raised, start_time, end_time, presale_ended, presale_canceled, presale_refund, is_init));
        acc = cat(acc, presale_v0_part2(total_raised, start_time, end_time, presale_ended, presale_canceled, presale_refund, is_init));
        assert(ok ==> c2 == start + presale_v0_part1(e.owner, e.token, e.token_price, e.hard_cap, e.soft_cap, e.min_contribution, e.max_contribution).len() + presale_v0_part2(e.total_raised, e.start_time, e.end_time, e.presale_ended, e.presale_canceled, e.presale_refund, e.is_init).len());
    }
    let ((listing_rate, liquidity_lock_time, liquidity_bp, service_fee, refund_type, listing_opt, liquidity_type), c3) = match get_presale_v0_part3(bytes, c2, Ghost(Some((e.listing_rate, e.liquidity_lock_time, e.liquidity_bp, e.service_fee, e.refund_type, e.listing_opt, e.liquidity_type)))) {
        Some(x) => x,
        None => {
            return None;
        },
    };
    proof {
        lemma_extend(bytes@, start, c2 as int, c3 as int, acc, presale_v0_part3(listing_rate, liquidity_lock_time, liquidity_bp, service_fee, refund_type, listing_opt, liquidity_type));
        acc = cat(acc, presale_v0_part3(listing_rate, liquidity_lock_time, liquidity_bp, service_fee, refund_type, listing_opt, liquidity_type));
        assert(ok ==> c3 == start + presale_v0_part1(e.owner, e.token, e.token_price, e.hard_cap, e.soft_cap, e.min_contribution, e.max_contribution).len() + presale_v0_part2(e.total_raised, e.start_time, e.end_time, e.presale_ended, e.presale_canceled, e.presale_refund, e.is_init).len() + presale_v0_part3(e.listing_rate, e.liquidity_lock_time, e.liquidity_bp, e.service_fee, e.refund_type, e.listing_opt, e.liquidity_type).len());
    }
    let ((listing_platform, fee_collector, identifier, affiliate_enabled, total_ref_amount, commission_rate, total_ref_count), c4) = match get_presale_v0_part4(bytes, c3, Ghost(Some((e.listing_platform, e.fee_collector, e.identifier@, e.affiliate_enabled, e.total_ref_amount, e.commission_rate, e.total_ref_count)))) {
        Some(x) => x,
        None => {
            return None;
        },
    };
    proof {
        lemma_extend(bytes@, start, c3 as int, c4 as int, acc, presale_v0_part4(listing_platform, fee_collector, identifier@, affiliate_enabled, total_ref_amount, commission_rate, total_ref_count));
        acc = cat(acc, presale_v0_part4(listing_platform, fee_collector, identifier@, affiliate_enabled, total_ref_amount, commission_rate, total_ref_count));
        assert(ok ==> c4 == start + presale_v0_part1(e.owner, e.token, e.token_price, e.hard_cap, e.soft_cap, e.min_contribution, e.max_contribution).len() + presale_v0_part2(e.total_raised, e.start_time, e.end_time, e.presale_ended, e.presale_canceled, e.presale_refund, e.is_init).len() + presale_v0_part3(e.listing_rate, e.liquidity_lock_time, e.liquidity_bp, e.service_fee, e.refund_type, e.listing_opt, e.liquidity_type).len() + presale_v0_part4(e.listing_platform, e.fee_collector, e.identifier@, e.affiliate_enabled, e.total_ref_amount, e.commission_rate, e.total_ref_count).len());
    }
    let ((total_tokens_sold, whitelist_enabled, presale_type, tokens_claimed_by_owner, owner_reward_withdrawn, sol_pool_reserve, token_pool_reserve), c5) = match get_presale_v0_part5(bytes, c4, Ghost(Some((e.total_tokens_sold, e.whitelist_enabled, e.presale_type, e.tokens_claimed_by_owner, e.owner_reward_withdrawn, e.sol_pool_reserve, e.token_pool_reserve)))) {
        Some(x) => x,
        None => {
            return None;
        },
    };
    proof {
        lemma_extend(bytes@, start, c4 as int, c5 as int, acc, presale_v0_part5(total_tokens_sold, whitelist_enabled, presale_type, tokens_claimed_by_owner, owner_reward_withdrawn, sol_pool_reserve, token_pool_reserve));
        acc = cat(acc, presale_v0_part5(total_tokens_sold, whitelist_enabled, presale_type, tokens_claimed_by_owner, owner_reward_withdrawn, sol_pool_reserve, token_pool_reserve));
        assert(ok ==> c5 == start + presale_v0_part1(e.owner, e.token, e.token_price, e.hard_cap, e.soft_cap, e.min_contribution, e.max_contribution).len() + presale_v0_part2(e.total_raised, e.start_time, e.end_time, e.presale_ended, e.presale_canceled, e.presale_refund, e.is_init).len() + presale_v0_part3(e.listing_rate, e.liquidity_lock_time, e.liquidity_bp, e.service_fee, e.refund_type, e.listing_opt, e.liquidity_type).len() + presale_v0_part4(e.listing_platform, e.fee_collector, e.identifier@, e.affiliate_enabled, e.total_ref_amount, e.commission_rate, e.total_ref_count).len() + presale_v0_part5(e.total_tokens_sold, e.whitelist_enabled, e.presale_type, e.tokens_claimed_by_owner, e.owner_reward_withdrawn, e.sol_pool_reserve, e.token_pool_reserve).len());
    }
    let p = PresaleStateV0 {
        owner,
        token,
        token_price,
        hard_cap,
        soft_cap,
        min_contribution,
        max_contribution,
        total_raised,
        start_time,
        end_time,
        presale_ended,
        presale_canceled,
        presale_refund,
        is_init,
        listing_rate,
        liquidity_lock_time,
        liquidity_bp,
        service_fee,
        refund_type,
        listing_opt,
        liquidity_type,
        listing_platform,
        fee_collector,
        identifier,
        affiliate_enabled,
        total_ref_amount,
        commission_rate,
        total_ref_count,
        total_tokens_sold,
        whitelist_enabled,
        presale_type,
        tokens_claimed_by_owner,
        owner_reward_withdrawn,
        sol_pool_reserve,
        token_pool_reserve,
    };
    assert(acc == encode_presale_v0(p)) by {
        reveal(encode_presale_v0);
    }
    Some((p, c5))
}

/// Decodes a record starting at `pos`: whenever the bytes there hold the
/// encoding of a record, decoding succeeds, and the record returned encodes
/// to exactly the bytes read, which end at the position returned.
pub fn decode_presale_state_v0(bytes: &Vec<u8>, pos: usize) -> (r: Option<(PresaleStateV0, usize)>)
    requires
        pos <= bytes@.len(),
    ensures
        r matches Some((p, next)) ==> pos <= next <= bytes@.len() && holds_at(
            bytes@,
            pos as int,
            next as int,
            encode_presale_v0(p),
        ),
        forall|p: PresaleStateV0|
            p.identifier@.len() <= u32::MAX && #[trigger] holds_at(
                bytes@,
                pos as int,
                pos + encode_presale_v0(p).len(),
                encode_presale_v0(p),
            ) ==> r is Some,
{
    let ghost has = exists|p: PresaleStateV0|
        p.identifier@.len() <= u32::MAX && #[trigger] holds_at(
            bytes@,
            pos as int,
            pos + encode_presale_v0(p).len(),
            encode_presale_v0(p),
        );
    let ghost expect = if has {
        Some(
            choose|p: PresaleStateV0|
                p.identifier@.len() <= u32::MAX && #[trigger] holds_at(
                    bytes@,
                    pos as int,
                    pos + encode_presale_v0(p).len(),
                    encode_presale_v0(p),
                ),
        )
    } else {
        None
    };
    decode_presale_state_v0_at(bytes, pos, Ghost(expect))
}


} // verus!
