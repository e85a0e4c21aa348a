use vstd::prelude::*;

verus! {

/// True when `b` is the ASCII code of a decimal digit.
pub open spec fn is_ascii_digit(b: u8) -> bool {
    48 <= b <= 57
}

/// Numeric value of an ASCII decimal digit.
pub open spec fn digit_value(b: u8) -> nat
    recommends
        is_ascii_digit(b),
{
    (b - 48) as nat
}

/// Every byte of `s` is a decimal digit.
pub open spec fn all_digits(s: Seq<u8>) -> bool {
    forall|i: int| 0 <= i < s.len() ==> is_ascii_digit(#[trigger] s[i])
}

/// Value of a run of decimal digits, most significant first.
pub open spec fn digits_value(s: Seq<u8>) -> nat
    decreases s.len(),
{
    if s.len() == 0 {
        0
    } else {
        digits_value(s.drop_last()) * 10 + digit_value(s.last())
    }
}

/// The digits proper: what remains after an optional leading `+` sign,
/// the one sign decimal `u64` parsing accepts.
pub open spec fn unsigned_body(s: Seq<u8>) -> Seq<u8> {
    if s.len() > 0 && s[0] == 43 {
        s.drop_first()
    } else {
        s
    }
}

/// Whether `s` is accepted by decimal `u64` parsing: an optional `+`,
/// then at least one digit, and a value that fits in a `u64`.
pub open spec fn parses_as_u64(s: Seq<u8>) -> bool {
    let d = unsigned_body(s);
    d.len() > 0 && all_digits(d) && digits_value(d) <= u64::MAX
}

/// The parsed value, for inputs accepted by `parses_as_u64`.
pub open spec fn parsed_u64(s: Seq<u8>) -> nat
    recommends
        parses_as_u64(s),
{
    digits_value(unsigned_body(s))
}

/// Shortest decimal representation of `n`: no leading zero except for `0` itself.
pub open spec fn dec_digits(n: nat) -> Seq<u8>
    decreases n,
{
    if n < 10 {
        seq![(48 + n) as u8]
    } else {
        dec_digits(n / 10).push((48 + n % 10) as u8)
    }
}

/// The value of a prefix of a digit run never exceeds the value of the whole run.
pub proof fn lemma_digits_value_prefix_le(s: Seq<u8>, k: int)
    requires
        0 <= k <= s.len(),
    ensures
        digits_value(s.take(k)) <= digits_value(s),
    decreases s.len() - k,
{
    if k < s.len() {
        assert(s.take(k + 1).drop_last() =~= s.take(k));
        assert(digits_value(s.take(k + 1)) == digits_value(s.take(k)) * 10 + digit_value(
            s.take(k + 1).last(),
        ));
        lemma_digits_value_prefix_le(s, k + 1);
    } else {
        assert(s.take(k) =~= s);
    }
}

/// A decimal representation is a nonempty run of digits.
pub proof fn lemma_dec_digits_shape(n: nat)
    ensures
        dec_digits(n).len() >= 1,
        all_digits(dec_digits(n)),
    decreases n,
{
    if n >= 10 {
        lemma_dec_digits_shape(n / 10);
        assert forall|i: int| 0 <= i < dec_digits(n).len() implies is_ascii_digit(
            #[trigger] dec_digits(n)[i],
        ) by {
            if i < dec_digits(n / 10).len() {
                assert(dec_digits(n)[i] == dec_digits(n / 10)[i]);
            }
        }
    }
}

/// Rendering a number and reading the digits back returns the number.
pub proof fn lemma_dec_digits_value(n: nat)
    ensures
        digits_value(dec_digits(n)) == n,
    decreases n,
{
    if n < 10 {
        assert(dec_digits(n).drop_last() =~= Seq::<u8>::empty());
        assert(digits_value(Seq::<u8>::empty()) == 0);
        assert(dec_digits(n).last() == (48 + n) as u8);
        assert(digit_value((48 + n) as u8) == n);
        assert(digits_value(dec_digits(n)) == 0 * 10 + n);
    } else {
        lemma_dec_digits_value(n / 10);
        assert(dec_digits(n).drop_last() =~= dec_digits(n / 10));
        assert(dec_digits(n).last() == (48 + n % 10) as u8);
        assert(digit_value((48 + n % 10) as u8) == n % 10);
        assert(digits_value(dec_digits(n)) == (n / 10) * 10 + n % 10);
        vstd::arithmetic::div_mod::lemma_fundamental_div_mod(n as int, 10);
        assert(n == 10 * (n / 10) + n % 10);
    }
}

/// The decimal representation of a value that fits in a `u64` parses back to it.
pub proof fn lemma_dec_digits_parse(n: nat)
    requires
        n <= u64::MAX,
    ensures
        parses_as_u64(dec_digits(n)),
        parsed_u64(dec_digits(n)) == n,
{
    lemma_dec_digits_shape(n);
    lemma_dec_digits_value(n);
    assert(is_ascii_digit(dec_digits(n)[0]));
    assert(unsigned_body(dec_digits(n)) == dec_digits(n));
}

/// Decimal `u64` parser over bytes, accepting exactly the inputs
/// `str::parse::<u64>` accepts on the same characters.
pub fn parse_u64(s: &[u8]) -> (r: Option<u64>)
    ensures
        match r {
            Some(v) => parses_as_u64(s@) && v == parsed_u64(s@),
            None => !parses_as_u64(s@),
        },
{
    let n = s.len();
    if n == 0 {
        return None;
    }
    let start: usize = if s[0] == 43 {
        1
    } else {
        0
    };
    proof {
        assert(unsigned_body(s@) =~= s@.subrange(start as int, n as int));
    }
    if start == n {
        return None;
    }
    let mut val: u64 = 0;
    let mut i: usize = start;
    while i < n
        invariant
            start <= i <= n,
            n == s@.len(),
            unsigned_body(s@) =~= s@.subrange(start as int, n as int),
            all_digits(s@.subrange(start as int, i as int)),
            val == digits_value(s@.subrange(start as int, i as int)),
        decreases n - i,
    {
        let b = s[i];
        proof {
            assert(s@.subrange(start as int, i as int + 1).drop_last() =~= s@.subrange(
                start as int,
                i as int,
            ));
            assert(s@.subrange(start as int, i as int + 1).last() == s@[i as int]);
        }
        if !(48 <= b && b <= 57) {
            proof {
                assert(unsigned_body(s@)[i - start] == s@[i as int]);
            }
            return None;
        }
        let d: u64 = (b - 48) as u64;
        if val > 1844674407370955161u64 || (val == 1844674407370955161u64 && d > 5) {
            proof {
                let grown = s@.subrange(start as int, i as int + 1);
                assert(digits_value(grown) == val * 10 + d);
                assert(digits_value(grown) > u64::MAX);
                assert(unsigned_body(s@).take(i + 1 - start) =~= grown);
                lemma_digits_value_prefix_le(unsigned_body(s@), i + 1 - start);
            }
            return None;
        }
        val = val * 10 + d;
        i = i + 1;
    }
    proof {
        assert(s@.subrange(start as int, n as int) == unsigned_body(s@));
    }
    Some(val)
}

/// Decimal rendering of a `u64`, equal to the spec-level representation.
pub fn u64_to_dec(n: u64) -> (r: Vec<u8>)
    ensures
        r@ == dec_digits(n as nat),
{
    let mut digits: Vec<u8> = Vec::new();
    let mut cur: u64 = n;
    proof {
        assert(dec_digits(cur as nat) + digits@ =~= dec_digits(n as nat));
    }
    while cur >= 10
        invariant
            dec_digits(cur as nat) + digits@ =~= dec_digits(n as nat),
        decreases cur,
    {
        let ghost prev = cur as nat;
        let d: u8 = 48 + (cur % 10) as u8;
        digits.insert(0, d);
        cur = cur / 10;
        proof {
            assert(dec_digits(prev) == dec_digits(prev / 10).push((48 + prev % 10) as u8));
            assert(digits@ =~= seq![d] + digits@.drop_first());
            assert(dec_digits(cur as nat) + digits@ =~= dec_digits(prev) + digits@.drop_first());
        }
    }
    let d0: u8 = 48 + cur as u8;
    digits.insert(0, d0);
    proof {
        assert(dec_digits(cur as nat) =~= seq![d0]);
        assert(digits@ =~= dec_digits(cur as nat) + digits@.drop_first());
    }
    digits
}

} // verus!
