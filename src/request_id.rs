use vstd::prelude::*;

verus! {

/// A 256-bit proof request identifier, held as two 128-bit halves.
#[derive(Clone, Copy, Debug, PartialEq, Eq, Structural)]
pub struct RequestId {
    pub hi: u128,
    pub lo: u128,
}

/// `16` to the power `n`.
pub open spec fn pow16(n: nat) -> nat
    decreases n,
{
    if n == 0 {
        1
    } else {
        16 * pow16((n - 1) as nat)
    }
}

/// The value of an ASCII hexadecimal digit (either case), if `c` is one.
pub open spec fn hex_digit(c: u8) -> Option<nat> {
    if 48 <= c <= 57 {
        Some((c - 48) as nat)
    } else if 97 <= c <= 102 {
        Some((c - 87) as nat)
    } else if 65 <= c <= 70 {
        Some((c - 55) as nat)
    } else {
        None
    }
}

pub open spec fn all_hex(s: Seq<u8>) -> bool {
    forall|i: int| 0 <= i < s.len() ==> (#[trigger] hex_digit(s[i])) is Some
}

/// The number a string of hexadecimal digits denotes, most significant first.
pub open spec fn hex_value(s: Seq<u8>) -> nat
    decreases s.len(),
{
    if s.len() == 0 {
        0
    } else {
        hex_value(s.drop_last()) * 16 + hex_digit(s.last()).unwrap_or(0)
    }
}

/// The text is `0x` or `0X` followed by one to sixty-four hexadecimal digits.
pub open spec fn is_hex_id(text: Seq<u8>) -> bool {
    &&& 3 <= text.len() <= 66
    &&& text[0] == 48
    &&& (text[1] == 120 || text[1] == 88)
    &&& all_hex(text.subrange(2, text.len() as int))
}

proof fn lemma_hex_value_bound(s: Seq<u8>)
    ensures
        hex_value(s) < pow16(s.len()),
    decreases s.len(),
{
    if s.len() > 0 {
        lemma_hex_value_bound(s.drop_last());
        let p = pow16((s.len() - 1) as nat);
        let h = hex_value(s.drop_last());
        let d = hex_digit(s.last()).unwrap_or(0);
        assert(d < 16);
        assert(h * 16 + d < p * 16) by (nonlinear_arith)
            requires
                h < p,
                d < 16,
        ;
    }
}

proof fn lemma_hex_value_concat(a: Seq<u8>, b: Seq<u8>)
    ensures
        hex_value(a + b) == hex_value(a) * pow16(b.len()) + hex_value(b),
    decreases b.len(),
{
    if b.len() == 0 {
        assert(a + b =~= a);
        assert(pow16(0) == 1);
        assert(hex_value(a) * pow16(b.len()) == hex_value(a)) by (nonlinear_arith)
            requires
                pow16(b.len()) == 1,
        ;
    } else {
        let b0 = b.drop_last();
        lemma_hex_value_concat(a, b0);
        assert((a + b).drop_last() =~= a + b0);
        assert((a + b).last() == b.last());
        let va = hex_value(a);
        let p = pow16(b0.len());
        let d = hex_digit(b.last()).unwrap_or(0);
        assert(hex_value(a + b) == hex_value(a + b0) * 16 + d);
        assert(hex_value(b) == hex_value(b0) * 16 + d);
        assert(pow16(b.len()) == 16 * p);
        assert((va * p + hex_value(b0)) * 16 == va * (16 * p) + hex_value(b0) * 16)
            by (nonlinear_arith);
        assert(va * (16 * p) == va * pow16(b.len()));
    }
}

proof fn lemma_pow16_32()
    ensures
        pow16(32) == 0x1_0000_0000_0000_0000_0000_0000_0000_0000,
{
    reveal_with_fuel(pow16, 33);
}

proof fn lemma_pow16_mono(a: nat, b: nat)
    requires
        a <= b,
    ensures
        pow16(a) <= pow16(b),
    decreases b,
{
    if a < b {
        lemma_pow16_mono(a, (b - 1) as nat);
    }
}

/// Reads the digits `text[start..end]` (at most thirty-two) as one number.
fn parse_hex_u128(text: &[u8], start: usize, end: usize) -> (r: u128)
    requires
        start <= end <= text@.len(),
        end - start <= 32,
        all_hex(text@.subrange(start as int, end as int)),
    ensures
        r as nat == hex_value(text@.subrange(start as int, end as int)),
{
    let mut acc: u128 = 0;
    let mut i: usize = start;
    while i < end
        invariant
            start <= i <= end <= text@.len(),
            end - start <= 32,
            all_hex(text@.subrange(start as int, end as int)),
            acc as nat == hex_value(text@.subrange(start as int, i as int)),
        decreases end - i,
    {
        let ghost done = text@.subrange(start as int, i as int);
        let ghost next = text@.subrange(start as int, i + 1);
        assert(next.drop_last() =~= done);
        assert(next.last() == text@.subrange(start as int, end as int)[i - start]);
        assert(hex_digit(next.last()) is Some);
        let c = text[i];
        let d: u128 = if c >= 48 && c <= 57 {
            (c - 48) as u128
        } else if c >= 97 && c <= 102 {
            (c - 87) as u128
        } else {
            (c - 55) as u128
        };
        proof {
            lemma_hex_value_bound(done);
            lemma_pow16_mono(done.len(), 31);
            lemma_pow16_32();
            assert(pow16(32) == 16 * pow16(31));
        }
        acc = acc * 16 + d;
        i = i + 1;
    }
    acc
}

impl RequestId {
    /// The number this identifier denotes.
    pub open spec fn value(self) -> nat {
        self.hi as nat * 0x1_0000_0000_0000_0000_0000_0000_0000_0000 + self.lo as nat
    }

    pub fn from_halves(hi: u128, lo: u128) -> (r: RequestId)
        ensures
            r.hi == hi,
            r.lo == lo,
    {
        RequestId { hi, lo }
    }

    /// Parses `0x` (or `0X`) followed by one to sixty-four hexadecimal
    /// digits.
    pub fn parse_hex(text: &[u8]) -> (r: Option<RequestId>)
        ensures
            r is Some <==> is_hex_id(text@),
            r matches Some(id) ==> id.value() == hex_value(text@.subrange(2, text@.len() as int)),
    {
        let n = text.len();
        if n < 3 || n > 66 || text[0] != 48 || (text[1] != 120 && text[1] != 88) {
            return None;
        }
        let mut i: usize = 2;
        while i < n
            invariant
                2 <= i <= n == text@.len(),
                forall|j: int| 2 <= j < i ==> (#[trigger] hex_digit(text@[j])) is Some,
            decreases n - i,
        {
            let c = text[i];
            if !((c >= 48 && c <= 57) || (c >= 97 && c <= 102) || (c >= 65 && c <= 70)) {
                proof {
                    let body = text@.subrange(2, n as int);
                    assert(body[i - 2] == c);
                    assert(hex_digit(body[i - 2]) is None);
                }
                return None;
            }
            i = i + 1;
        }
        let ghost body = text@.subrange(2, n as int);
        assert(all_hex(body)) by {
            assert forall|j: int| 0 <= j < body.len() implies (#[trigger] hex_digit(body[j])) is Some by {
                assert(body[j] == text@[j + 2]);
            }
        }
        let split: usize = if n - 2 > 32 {
            n - 32
        } else {
            2
        };
        assert forall|a: int, b: int| 2 <= a <= b <= n implies all_hex(
            #[trigger] text@.subrange(a, b),
        ) by {
            assert forall|j: int| 0 <= j < b - a implies (#[trigger] hex_digit(
                text@.subrange(a, b)[j],
            )) is Some by {
                assert(text@.subrange(a, b)[j] == body[j + a - 2]);
            }
        }
        let hi = parse_hex_u128(text, 2, split);
        let lo = parse_hex_u128(text, split, n);
        proof {
            let high = text@.subrange(2, split as int);
            let low = text@.subrange(split as int, n as int);
            assert(body =~= high + low);
            lemma_hex_value_concat(high, low);
            if n - 2 > 32 {
                assert(low.len() == 32);
                lemma_pow16_32();
            } else {
                assert(high.len() == 0);
                assert(hex_value(high) == 0);
            }
        }
        Some(RequestId { hi, lo })
    }
}

} // verus!
