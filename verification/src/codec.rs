//! Scalar codec: decimal strings to fixed-width little-endian field
//! element bytes, and bit lengths for generator sizing.

use vstd::prelude::*;

verus! {

use vstd::string::StringSliceAdditionalSpecFns;

/// 2 to the power `n`.
pub open spec fn p2(n: nat) -> nat
    decreases n,
{
    if n == 0 {
        1
    } else {
        2 * p2((n - 1) as nat)
    }
}

/// 256 to the power `n`.
pub open spec fn p256(n: nat) -> nat
    decreases n,
{
    if n == 0 {
        1
    } else {
        256 * p256((n - 1) as nat)
    }
}

/// The number of bits needed to write `n` in binary; 0 for 0.
pub open spec fn bit_len(n: nat) -> nat
    decreases n,
{
    if n == 0 {
        0
    } else {
        1 + bit_len(n / 2)
    }
}

pub proof fn lemma_p2_pos(n: nat)
    ensures
        p2(n) >= 1,
    decreases n,
{
    if n > 0 {
        lemma_p2_pos((n - 1) as nat);
    }
}

/// `p2` is monotone.
pub proof fn lemma_p2_mono(m: nat, n: nat)
    requires
        m <= n,
    ensures
        p2(m) <= p2(n),
    decreases n,
{
    if m < n && n > 0 {
        lemma_p2_mono(m, (n - 1) as nat);
        lemma_p2_pos((n - 1) as nat);
    }
}

/// 2^32 written out, so `u32` values stay below it.
pub proof fn lemma_p2_32()
    ensures
        p2(32) == 0x1_0000_0000,
{
    reveal_with_fuel(p2, 33);
}

/// A number is below 2 to its bit length, and at least 2 to one less.
pub proof fn lemma_bit_len_bounds(n: nat)
    ensures
        n < p2(bit_len(n)),
        n > 0 ==> p2((bit_len(n) - 1) as nat) <= n,
    decreases n,
{
    if n > 0 {
        lemma_bit_len_bounds(n / 2);
    }
}

/// Anything below 2^k has bit length at most k.
pub proof fn lemma_bit_len_le(n: nat, k: nat)
    requires
        n < p2(k),
    ensures
        bit_len(n) <= k,
    decreases n,
{
    if n > 0 {
        if k == 0 {
        } else {
            lemma_bit_len_le(n / 2, (k - 1) as nat);
        }
    }
}

/// Bit length is non-decreasing in its argument.
pub proof fn lemma_bit_len_mono(m: nat, n: nat)
    requires
        m <= n,
    ensures
        bit_len(m) <= bit_len(n),
    decreases n,
{
    if m > 0 {
        lemma_bit_len_mono(m / 2, n / 2);
    }
}

/// The bit size of `a`: the number of binary digits needed to write it.
pub fn bits(a: u32) -> (r: u32)
    ensures
        r == bit_len(a as nat),
        r <= 32,
{
    let mut i: u32 = a;
    let mut b: u32 = 0;
    proof {
        lemma_p2_32();
        lemma_bit_len_le(a as nat, 32);
    }
    while i != 0
        invariant
            bit_len(a as nat) == b + bit_len(i as nat),
            bit_len(a as nat) <= 32,
        decreases i,
    {
        proof {
            assert(i >> 1 == i / 2) by (bit_vector);
        }
        i = i >> 1;
        b = b + 1;
    }
    b
}

/// An ASCII decimal digit.
pub open spec fn is_digit(c: u8) -> bool {
    48 <= c && c <= 57
}

/// A non-empty string of ASCII decimal digits.
pub open spec fn is_dec(s: Seq<u8>) -> bool {
    s.len() > 0 && forall|i: int| 0 <= i < s.len() ==> is_digit(#[trigger] s[i])
}

/// The number written by `s` in decimal.
pub open spec fn dec_value(s: Seq<u8>) -> nat
    decreases s.len(),
{
    if s.len() == 0 {
        0
    } else {
        (dec_value(s.drop_last()) * 10 + (s.last() - 48)) as nat
    }
}

/// The number whose little-endian base-256 digits are `s`.
pub open spec fn le_value(s: Seq<u8>) -> nat
    decreases s.len(),
{
    if s.len() == 0 {
        0
    } else {
        (le_value(s.drop_last()) + s.last() * p256((s.len() - 1) as nat)) as nat
    }
}

proof fn lemma_le_take_succ(s: Seq<u8>, j: int)
    requires
        0 <= j < s.len(),
    ensures
        le_value(s.take(j + 1)) == le_value(s.take(j)) + s[j] * p256(j as nat),
{
    assert(s.take(j + 1).drop_last() =~= s.take(j));
    assert(s.take(j + 1).last() == s[j]);
}

pub proof fn lemma_p256_pos(n: nat)
    ensures
        p256(n) >= 1,
    decreases n,
{
    if n > 0 {
        lemma_p256_pos((n - 1) as nat);
    }
}

/// A byte string denotes less than 256^len.
pub proof fn lemma_le_value_bound(s: Seq<u8>)
    ensures
        le_value(s) < p256(s.len()),
    decreases s.len(),
{
    if s.len() > 0 {
        let n = (s.len() - 1) as nat;
        lemma_le_value_bound(s.drop_last());
        assert(s.last() * p256(n) <= 255 * p256(n)) by (nonlinear_arith)
            requires s.last() <= 255, p256(n) >= 0;
        assert(p256(n) + 255 * p256(n) == 256 * p256(n)) by (nonlinear_arith);
    }
}

/// Equal values have equal digit strings of equal length: base-256
/// digits are unique.
pub proof fn lemma_le_value_injective(a: Seq<u8>, b: Seq<u8>)
    requires
        a.len() == b.len(),
        le_value(a) == le_value(b),
    ensures
        a =~= b,
    decreases a.len(),
{
    if a.len() > 0 {
        let n = (a.len() - 1) as nat;
        lemma_le_value_bound(a.drop_last());
        lemma_le_value_bound(b.drop_last());
        lemma_p256_pos(n);
        assert(a.last() == b.last() && le_value(a.drop_last()) == le_value(b.drop_last())) by (
        nonlinear_arith)
            requires
                le_value(a.drop_last()) + a.last() * p256(n) == le_value(b.drop_last()) + b.last()
                    * p256(n),
                le_value(a.drop_last()) < p256(n),
                le_value(b.drop_last()) < p256(n),
                a.last() <= 255,
                b.last() <= 255,
                p256(n) >= 1,
        ;
        lemma_le_value_injective(a.drop_last(), b.drop_last());
        assert(a =~= b) by {
            assert(forall|i: int| 0 <= i < a.len() - 1 ==> a[i] == a.drop_last()[i]);
            assert(forall|i: int| 0 <= i < b.len() - 1 ==> b[i] == b.drop_last()[i]);
        };
    } else {
        assert(a =~= b);
    }
}

/// The `n` little-endian base-256 digits of `v`.
pub open spec fn le_bytes(v: nat, n: nat) -> Seq<u8>
    decreases n,
{
    if n == 0 {
        Seq::empty()
    } else {
        le_bytes(v % p256((n - 1) as nat), (n - 1) as nat).push((v / p256((n - 1) as nat)) as u8)
    }
}

/// The 32-byte little-endian form of a value below 256^32.
pub open spec fn le32(v: nat) -> Seq<u8> {
    le_bytes(v, 32)
}

/// `le_bytes` really writes the value: its digits denote `v` again.
pub proof fn lemma_le_bytes_value(v: nat, n: nat)
    requires
        v < p256(n),
    ensures
        le_bytes(v, n).len() == n,
        le_value(le_bytes(v, n)) == v,
    decreases n,
{
    if n > 0 {
        let m = p256((n - 1) as nat);
        lemma_p256_pos((n - 1) as nat);
        assert(v % m < m && v / m < 256 && v == m * (v / m) + v % m) by (nonlinear_arith)
            requires v < 256 * m, m >= 1;
        lemma_le_bytes_value(v % m, (n - 1) as nat);
        let b = le_bytes(v, n);
        assert(b.drop_last() =~= le_bytes(v % m, (n - 1) as nat));
        assert(b.last() == (v / m) as u8);
        assert(le_value(b) == v % m + (v / m) * m);
        assert(v % m + (v / m) * m == v) by (nonlinear_arith)
            requires v == m * (v / m) + v % m;
    }
}

/// With the bytes above position `j` equal, the order of two equal
/// length strings is the order of their prefixes through `j`.
proof fn lemma_lt_suffix_eq(a: Seq<u8>, b: Seq<u8>, j: int)
    requires
        a.len() == b.len(),
        0 <= j < a.len(),
        forall|k: int| j < k < a.len() ==> a[k] == b[k],
    ensures
        (le_value(a) < le_value(b)) <==> (le_value(a.take(j + 1)) < le_value(b.take(j + 1))),
    decreases a.len() - j,
{
    if j + 1 == a.len() {
        assert(a.take(j + 1) =~= a);
        assert(b.take(j + 1) =~= b);
    } else {
        assert(a.last() == b.last());
        lemma_lt_suffix_eq(a.drop_last(), b.drop_last(), j);
        assert(a.drop_last().take(j + 1) =~= a.take(j + 1));
        assert(b.drop_last().take(j + 1) =~= b.take(j + 1));
    }
}

/// A smaller byte at the highest differing position decides the order.
proof fn lemma_lt_at(a: Seq<u8>, b: Seq<u8>, j: int)
    requires
        a.len() == b.len(),
        0 <= j < a.len(),
        forall|k: int| j < k < a.len() ==> a[k] == b[k],
        a[j] < b[j],
    ensures
        le_value(a) < le_value(b),
{
    lemma_lt_suffix_eq(a, b, j);
    let ta = a.take(j + 1);
    let tb = b.take(j + 1);
    assert(ta.drop_last() =~= a.take(j));
    assert(tb.drop_last() =~= b.take(j));
    lemma_le_value_bound(a.take(j));
    assert(ta.last() == a[j] && tb.last() == b[j]);
    assert(le_value(ta) < le_value(tb)) by (nonlinear_arith)
        requires
            le_value(ta) == le_value(a.take(j)) + a[j] * p256(j as nat),
            le_value(tb) == le_value(b.take(j)) + b[j] * p256(j as nat),
            le_value(a.take(j)) < p256(j as nat),
            le_value(b.take(j)) >= 0,
            a[j] < b[j],
    ;
}

/// Compare two equal-width little-endian numbers byte-wise from the
/// top: true exactly when the first denotes the smaller value.
pub fn lt_le(a: &Vec<u8>, b: &Vec<u8>) -> (r: bool)
    requires
        a@.len() == b@.len(),
    ensures
        r == (le_value(a@) < le_value(b@)),
{
    let n = a.len();
    let mut j: usize = n;
    while j > 0
        invariant
            j <= n,
            n == a@.len() && n == b@.len(),
            forall|k: int| j <= k < n ==> a@[k] == b@[k],
        decreases j,
    {
        j = j - 1;
        if a[j] < b[j] {
            proof {
                lemma_lt_at(a@, b@, j as int);
            }
            return true;
        }
        if a[j] > b[j] {
            proof {
                lemma_lt_at(b@, a@, j as int);
            }
            return false;
        }
    }
    proof {
        assert(a@ =~= b@);
    }
    false
}

/// A field element held as exactly 32 little-endian bytes.
pub struct Fe {
    pub bytes: Vec<u8>,
}

impl View for Fe {
    type V = Seq<u8>;

    open spec fn view(&self) -> Seq<u8> {
        self.bytes@
    }
}

impl Fe {
    /// Exactly the backend scalar width.
    pub open spec fn wf(&self) -> bool {
        self.bytes@.len() == 32
    }

    /// The number this element denotes.
    pub open spec fn value(&self) -> nat {
        le_value(self.bytes@)
    }

    /// The all-zero element.
    pub fn zero() -> (r: Fe)
        ensures
            r.wf(),
            r@ =~= zero32(),
            r.value() == 0,
    {
        let mut v: Vec<u8> = Vec::new();
        let mut j: usize = 0;
        while j < 32
            invariant
                j <= 32,
                v@.len() == j,
                forall|i: int| 0 <= i < j ==> v@[i] == 0u8,
            decreases 32 - j,
        {
            v.push(0u8);
            j = j + 1;
        }
        let r = Fe { bytes: v };
        proof {
            assert(r@ =~= zero32());
            lemma_le_zero(r@);
        }
        r
    }

    /// The element denoting 1.
    pub fn one() -> (r: Fe)
        ensures
            r.wf(),
            r@ =~= one32(),
            r.value() == 1,
    {
        let mut r = Fe::zero();
        r.bytes[0] = 1u8;
        proof {
            assert(r@ =~= one32());
            lemma_le_one(r@);
        }
        r
    }

    /// A copy with the same bytes.
    pub fn duplicate(&self) -> (r: Fe)
        ensures
            r@ =~= self@,
    {
        let mut v: Vec<u8> = Vec::new();
        let mut j: usize = 0;
        while j < self.bytes.len()
            invariant
                j <= self.bytes@.len(),
                v@.len() == j,
                forall|i: int| 0 <= i < j ==> v@[i] == self.bytes@[i],
            decreases self.bytes@.len() - j,
        {
            v.push(self.bytes[j]);
            j = j + 1;
        }
        Fe { bytes: v }
    }
}

/// 32 zero bytes.
pub open spec fn zero32() -> Seq<u8> {
    Seq::new(32, |i: int| 0u8)
}

/// The 32-byte little-endian form of 1.
pub open spec fn one32() -> Seq<u8> {
    Seq::new(32, |i: int| if i == 0 { 1u8 } else { 0u8 })
}

proof fn lemma_le_one(s: Seq<u8>)
    requires
        s.len() == 32,
        s[0] == 1u8,
        forall|i: int| 1 <= i < s.len() ==> s[i] == 0u8,
    ensures
        le_value(s) == 1,
{
    lemma_le_one_rec(s, 32);
    assert(s.take(32) =~= s);
}

proof fn lemma_le_one_rec(s: Seq<u8>, n: int)
    requires
        1 <= n <= s.len(),
        s[0] == 1u8,
        forall|i: int| 1 <= i < s.len() ==> s[i] == 0u8,
    ensures
        le_value(s.take(n)) == 1,
    decreases n,
{
    if n == 1 {
        assert(s.take(1).drop_last() =~= Seq::<u8>::empty());
        assert(s.take(1).last() == 1u8);
        assert(p256(0) == 1);
        assert(le_value(s.take(1)) == (le_value(Seq::<u8>::empty()) + 1u8 * p256(0)) as nat);
    } else {
        lemma_le_one_rec(s, n - 1);
        assert(s.take(n).drop_last() =~= s.take(n - 1));
        assert(s.take(n).last() == 0u8);
        assert(le_value(s.take(n)) == (le_value(s.take(n - 1)) + 0u8 * p256((n - 1) as nat)) as nat);
        assert(0u8 * p256((n - 1) as nat) == 0) by (nonlinear_arith);
    }
}

proof fn lemma_le_zero(s: Seq<u8>)
    requires
        forall|i: int| 0 <= i < s.len() ==> s[i] == 0u8,
    ensures
        le_value(s) == 0,
    decreases s.len(),
{
    if s.len() > 0 {
        lemma_le_zero(s.drop_last());
        assert(s.last() == 0);
    }
}

/// Multiply a 32-byte little-endian number by 10 and add a digit,
/// in place; the returned carry is what no longer fits.
fn mul10_add(v: &mut Vec<u8>, d: u8) -> (carry: u8)
    requires
        old(v)@.len() == 32,
        d < 10,
    ensures
        final(v)@.len() == 32,
        le_value(final(v)@) + carry * p256(32) == 10 * le_value(old(v)@) + d,
        carry < 10,
{
    let ghost v0 = v@;
    let mut carry: u16 = d as u16;
    let mut j: usize = 0;
    proof {
        assert(v@.take(0) =~= Seq::<u8>::empty());
        assert(v0.take(0) =~= Seq::<u8>::empty());
        assert(le_value(v@.take(0)) == 0);
        assert(le_value(v0.take(0)) == 0);
        assert(p256(0) == 1);
        assert((carry as nat) * 1 == carry as nat) by (nonlinear_arith);
    }
    while j < 32
        invariant
            v@.len() == 32,
            v0.len() == 32,
            j <= 32,
            carry < 10,
            le_value(v@.take(j as int)) + carry * p256(j as nat) == 10 * le_value(
                v0.take(j as int),
            ) + d,
            forall|k: int| j <= k < 32 ==> v@[k] == v0[k],
            d < 10,
        decreases 32 - j,
    {
        let ghost prev = v@;
        let ghost c_in = carry as nat;
        let t: u16 = 10 * (v[j] as u16) + carry;
        let nb: u8 = (t % 256) as u8;
        let nc: u16 = t / 256;
        v[j] = nb;
        carry = nc;
        proof {
            let jj = j as int;
            let jn = j as nat;
            assert(v@ =~= prev.update(jj, nb));
            assert(v@.take(jj) =~= prev.take(jj));
            assert(nb + 256 * (nc as nat) == 10 * v0[jj] + c_in);
            lemma_le_take_succ(v@, jj);
            lemma_le_take_succ(v0, jj);
            // the new prefix plus outgoing carry equals ten times the old
            // prefix plus the digit
            assert(le_value(prev.take(jj)) + c_in * p256(jn) == 10 * le_value(v0.take(jj)) + d);
            assert((nb + 256 * (nc as nat)) * p256(jn) == nb * p256(jn) + nc * p256((jn + 1) as nat))
                by (nonlinear_arith)
                requires nb + 256 * (nc as nat) >= 0, p256((jn + 1) as nat) == 256 * p256(jn);
            assert((nb + 256 * (nc as nat)) * p256(jn) == (10 * v0[jj] + c_in) * p256(jn));
            assert((10 * v0[jj] + c_in) * p256(jn) == 10 * (v0[jj] * p256(jn)) + c_in * p256(jn))
                by (nonlinear_arith);
            assert(le_value(v@.take(jj + 1)) + (nc as nat) * p256((jn + 1) as nat) == 10 * (le_value(
                v0.take(jj),
            ) + v0[jj] * p256(jn)) + d) by (nonlinear_arith)
                requires
                    le_value(v@.take(jj + 1)) == le_value(prev.take(jj)) + nb * p256(jn),
                    le_value(prev.take(jj)) + c_in * p256(jn) == 10 * le_value(v0.take(jj)) + d,
                    (nb + 256 * (nc as nat)) * p256(jn) == nb * p256(jn) + (nc as nat) * p256(
                        (jn + 1) as nat,
                    ),
                    (nb + 256 * (nc as nat)) * p256(jn) == 10 * (v0[jj] * p256(jn)) + c_in * p256(
                        jn,
                    );
            assert(le_value(v0.take(jj + 1)) == le_value(v0.take(jj)) + v0[jj] * p256(jn));
        }
        j = j + 1;
    }
    proof {
        assert(v@.take(32) =~= v@);
        assert(v0.take(32) =~= v0);
    }
    carry as u8
}

/// Parse a non-negative decimal string into a 32-byte little-endian
/// field element.  `None` exactly when the string is not a non-empty
/// run of digits or its value does not fit in 32 bytes.
pub fn decimal_to_le32(s: &str) -> (r: Option<Fe>)
    ensures
        r is Some <==> (is_dec(s.spec_bytes()) && dec_value(s.spec_bytes()) < p256(32)),
        r is Some ==> (r->0.wf() && le_value(r->0@) == dec_value(s.spec_bytes()) && r->0@ =~= le32(
            dec_value(s.spec_bytes()),
        )),
{
    let b = s.as_bytes();
    if b.len() == 0 {
        return None;
    }
    let mut fe = Fe::zero();
    let mut i: usize = 0;
    proof {
        assert(b@.take(0) =~= Seq::<u8>::empty());
    }
    while i < b.len()
        invariant
            i <= b@.len(),
            b@ == s.spec_bytes(),
            fe.wf(),
            forall|k: int| 0 <= k < i ==> is_digit(#[trigger] b@[k]),
            le_value(fe@) == dec_value(b@.take(i as int)),
        decreases b@.len() - i,
    {
        let c = b[i];
        if c < 48 || c > 57 {
            return None;
        }
        let carry = mul10_add(&mut fe.bytes, c - 48);
        proof {
            assert(b@.take(i + 1).drop_last() =~= b@.take(i as int));
            assert(b@.take(i + 1).last() == b@[i as int]);
        }
        if carry != 0 {
            // the value no longer fits in 32 bytes, and appending more
            // digits can only grow it further
            proof {
                if is_dec(b@) {
                    lemma_le_value_bound(fe@);
                    lemma_dec_prefix_le(b@, i + 1);
                    assert(carry * p256(32) >= p256(32)) by (nonlinear_arith)
                        requires carry >= 1, p256(32) >= 0;
                }
            }
            return None;
        }
        i = i + 1;
    }
    proof {
        assert(b@.take(b@.len() as int) =~= b@);
        lemma_le_value_bound(fe@);
        lemma_le_bytes_value(dec_value(b@), 32);
        lemma_le_value_injective(fe@, le32(dec_value(b@)));
    }
    Some(fe)
}

/// Parse a decimal string into a canonical field element: one whose
/// value lies strictly below the group order.  `None` exactly when the
/// string is not a digit run or its value is not canonical; this is
/// the decoder every loaded value goes through.
pub fn decimal_to_canonical(s: &str) -> (r: Option<Fe>)
    ensures
        r is Some <==> (is_dec(s.spec_bytes()) && dec_value(s.spec_bytes()) < le_value(
            crate::backend::ell_bytes(),
        )),
        r is Some ==> (r->0.wf() && r->0@ =~= le32(dec_value(s.spec_bytes()))),
{
    let fe = match decimal_to_le32(s) {
        Some(fe) => fe,
        None => {
            proof {
                lemma_le_value_bound(crate::backend::ell_bytes());
            }
            return None;
        },
    };
    let order = crate::backend::basepoint_order_bytes();
    if lt_le(&fe.bytes, &order) {
        Some(fe)
    } else {
        None
    }
}

/// Among digit strings, a decimal prefix never denotes more than the
/// whole string.
proof fn lemma_dec_prefix_le(s: Seq<u8>, j: int)
    requires
        0 <= j <= s.len(),
        forall|k: int| 0 <= k < s.len() ==> is_digit(#[trigger] s[k]),
    ensures
        dec_value(s.take(j)) <= dec_value(s),
    decreases s.len() - j,
{
    if j == s.len() {
        assert(s.take(j) =~= s);
    } else {
        lemma_dec_prefix_le(s, j + 1);
        let t = s.take(j + 1);
        assert(t.drop_last() =~= s.take(j));
        assert(t.last() == s[j]);
        assert(dec_value(t) == dec_value(s.take(j)) * 10 + (s[j] - 48));
        assert(dec_value(s.take(j)) * 10 >= dec_value(s.take(j))) by (nonlinear_arith)
            requires dec_value(s.take(j)) >= 0;
    }
}

} // verus!
