use vstd::prelude::*;

verus! {

/// The decimal digit character for one digit value.
pub open spec fn digit_char(d: int) -> char {
    if d == 0 {
        '0'
    } else if d == 1 {
        '1'
    } else if d == 2 {
        '2'
    } else if d == 3 {
        '3'
    } else if d == 4 {
        '4'
    } else if d == 5 {
        '5'
    } else if d == 6 {
        '6'
    } else if d == 7 {
        '7'
    } else if d == 8 {
        '8'
    } else {
        '9'
    }
}

pub open spec fn is_digit(c: char) -> bool {
    '0' <= c && c <= '9'
}

pub open spec fn digit_val(c: char) -> int {
    c as u32 - 48
}

/// The decimal digits of `n`, most significant first, with no sign and no
/// leading zero (except for `n == 0` itself).
pub open spec fn dec_digits(n: nat) -> Seq<char>
    decreases n,
{
    if n < 10 {
        seq![digit_char(n as int)]
    } else {
        dec_digits(n / 10).push(digit_char((n % 10) as int))
    }
}

pub open spec fn all_digits(s: Seq<char>) -> bool {
    forall|i: int| 0 <= i < s.len() ==> is_digit(s[i])
}

/// The value of a sequence of decimal digit characters.
pub open spec fn dec_value(s: Seq<char>) -> int
    decreases s.len(),
{
    if s.len() == 0 {
        0
    } else {
        dec_value(s.drop_last()) * 10 + digit_val(s.last())
    }
}

/// The digit part of a decimal literal: `u64` parsing accepts one optional
/// leading plus sign.
pub open spec fn strip_plus(s: Seq<char>) -> Seq<char> {
    if s.len() > 0 && s[0] == '+' {
        s.skip(1)
    } else {
        s
    }
}

/// Whether `s` is a valid unsigned 64-bit decimal literal.
pub open spec fn parses_to_u64(s: Seq<char>) -> bool {
    let d = strip_plus(s);
    d.len() > 0 && all_digits(d) && dec_value(d) <= u64::MAX
}

pub proof fn lemma_dec_value_nonneg(s: Seq<char>)
    requires
        all_digits(s),
    ensures
        dec_value(s) >= 0,
    decreases s.len(),
{
    if s.len() > 0 {
        assert(is_digit(s.last()));
        lemma_dec_value_nonneg(s.drop_last());
    }
}

pub proof fn lemma_dec_value_take_step(s: Seq<char>, j: int)
    requires
        0 <= j < s.len(),
    ensures
        dec_value(s.take(j + 1)) == dec_value(s.take(j)) * 10 + digit_val(s[j]),
{
    assert(s.take(j + 1).drop_last() =~= s.take(j));
    assert(s.take(j + 1).last() == s[j]);
}

/// Extending a digit string never decreases its value.
pub proof fn lemma_dec_value_mono(s: Seq<char>, j: int)
    requires
        all_digits(s),
        0 <= j <= s.len(),
    ensures
        dec_value(s) >= dec_value(s.take(j)),
    decreases s.len() - j,
{
    if j < s.len() {
        lemma_dec_value_take_step(s, j);
        assert(all_digits(s.take(j)));
        lemma_dec_value_nonneg(s.take(j));
        assert(is_digit(s[j]));
        lemma_dec_value_mono(s, j + 1);
    } else {
        assert(s.take(j) =~= s);
    }
}

/// The decimal rendering of `n` parses back to `n`: the digits are digits,
/// there is at least one of them, and their value is `n`.
pub proof fn lemma_dec_digits_value(n: nat)
    ensures
        dec_digits(n).len() >= 1,
        all_digits(dec_digits(n)),
        dec_value(dec_digits(n)) == n,
        is_digit(dec_digits(n)[0]),
    decreases n,
{
    if n < 10 {
        let s = dec_digits(n);
        assert(s.drop_last() =~= Seq::<char>::empty());
        assert(s.last() == digit_char(n as int));
        assert(dec_value(s) == dec_value(Seq::<char>::empty()) * 10 + digit_val(
            digit_char(n as int),
        ));
    } else {
        lemma_dec_digits_value(n / 10);
        let d = dec_digits(n / 10);
        let whole = d.push(digit_char((n % 10) as int));
        assert(whole.drop_last() =~= d);
        assert(dec_value(whole) == dec_value(d) * 10 + digit_val(digit_char((n % 10) as int)));
        assert(dec_value(whole) == (n / 10) * 10 + n % 10);
        assert forall|i: int| 0 <= i < whole.len() implies is_digit(#[trigger] whole[i]) by {
            if i < d.len() {
                assert(is_digit(d[i]));
            }
        }
    }
}

/// Executable digit-to-character conversion.
pub fn digit_to_char(d: u64) -> (c: char)
    requires
        d < 10,
    ensures
        c == digit_char(d as int),
{
    if d == 0 {
        '0'
    } else if d == 1 {
        '1'
    } else if d == 2 {
        '2'
    } else if d == 3 {
        '3'
    } else if d == 4 {
        '4'
    } else if d == 5 {
        '5'
    } else if d == 6 {
        '6'
    } else if d == 7 {
        '7'
    } else if d == 8 {
        '8'
    } else {
        '9'
    }
}

/// The decimal digits of `n`, as characters.
pub fn u64_digits(n: u64) -> (r: Vec<char>)
    ensures
        r@ == dec_digits(n as nat),
    decreases n,
{
    if n < 10 {
        let mut r: Vec<char> = Vec::new();
        r.push(digit_to_char(n));
        proof {
            assert(r@ =~= dec_digits(n as nat));
        }
        r
    } else {
        let mut r = u64_digits(n / 10);
        r.push(digit_to_char(n % 10));
        r
    }
}

/// Parses a decimal unsigned 64-bit literal, exactly as an optional plus sign
/// followed by at least one digit, rejecting anything else and any value over
/// `u64::MAX`.
pub fn parse_u64_chars(v: &Vec<char>) -> (r: Option<u64>)
    ensures
        match r {
            Some(n) => parses_to_u64(v@) && n == dec_value(strip_plus(v@)),
            None => !parses_to_u64(v@),
        },
{
    let ghost d = strip_plus(v@);
    let mut i: usize = if v.len() > 0 && v[0] == '+' {
        1
    } else {
        0
    };
    proof {
        assert(d =~= v@.skip(i as int));
        assert(d == v@.skip(i as int));
    }
    if i == v.len() {
        return None;
    }
    let ghost start = i as int;
    let mut acc: u64 = 0;
    while i < v.len()
        invariant
            0 <= start <= i <= v@.len(),
            start < v@.len(),
            d == strip_plus(v@),
            d == v@.skip(start),
            d.len() == v@.len() - start,
            all_digits(d.take(i - start)),
            acc == dec_value(d.take(i - start)),
        decreases v.len() - i,
    {
        let c = v[i];
        proof {
            assert(v@.skip(start)[i - start] == v@[i as int]);
            assert(d[i - start] == c);
        }
        if !(c >= '0' && c <= '9') {
            proof {
                assert(!is_digit(d[i - start]));
                assert(!all_digits(d));
            }
            return None;
        }
        let dv: u64 = (c as u32 - 48) as u64;
        proof {
            assert(dv == digit_val(c)) by {
                assert('0' <= c && c <= '9');
            }
            lemma_dec_value_take_step(d, i - start);
        }
        let next = match acc.checked_mul(10) {
            Some(m) => m.checked_add(dv),
            None => None,
        };
        match next {
            Some(m) => {
                acc = m;
            },
            None => {
                proof {
                    lemma_dec_value_nonneg(d.take(i - start));
                    assert(dec_value(d.take(i - start + 1)) > u64::MAX);
                    if all_digits(d) {
                        lemma_dec_value_mono(d, i - start + 1);
                        assert(dec_value(d) > u64::MAX);
                    }
                }
                return None;
            },
        }
        proof {
            assert(d.take(i - start + 1) =~= d.take(i - start).push(d[i - start]));
        }
        i += 1;
    }
    proof {
        assert(d.take(v@.len() - start) =~= d);
    }
    Some(acc)
}

} // verus!
