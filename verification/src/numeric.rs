//! The `i;ascii-numeric` comparator (RFC 4790) for equality.
use vstd::prelude::*;

use crate::text::{chars_eq, chars_of};

verus! {

/// `c` is one of the ASCII digits `0`..=`9`.
pub open spec fn is_ascii_digit(c: char) -> bool {
    '0' <= c && c <= '9'
}

/// Every character of `s` is an ASCII digit (true of the empty string).
pub open spec fn all_ascii_digits(s: Seq<char>) -> bool {
    forall|i: int| 0 <= i < s.len() ==> is_ascii_digit(#[trigger] s[i])
}

/// Number of `0` characters at the start of `s`.
pub open spec fn leading_zeros(s: Seq<char>) -> nat
    decreases s.len(),
{
    if s.len() == 0 || s[0] != '0' {
        0
    } else {
        1 + leading_zeros(s.drop_first())
    }
}

/// `s` without its leading zeros, or `"0"` when nothing else is left.
pub open spec fn strip_leading_zeros_spec(s: Seq<char>) -> Seq<char> {
    let k = leading_zeros(s);
    if k >= s.len() {
        seq!['0']
    } else {
        s.subrange(k as int, s.len() as int)
    }
}

/// `i;ascii-numeric` equality: both operands are all-digit strings, the empty
/// string equals only the empty string, and otherwise the operands are equal
/// once leading zeros are removed.
pub open spec fn ascii_numeric_eq_spec(a: Seq<char>, b: Seq<char>) -> bool {
    &&& all_ascii_digits(a)
    &&& all_ascii_digits(b)
    &&& if a.len() == 0 || b.len() == 0 {
        a.len() == 0 && b.len() == 0
    } else {
        strip_leading_zeros_spec(a) == strip_leading_zeros_spec(b)
    }
}

proof fn lemma_leading_zeros(s: Seq<char>)
    ensures
        leading_zeros(s) <= s.len(),
        forall|i: int| 0 <= i < leading_zeros(s) ==> #[trigger] s[i] == '0',
        leading_zeros(s) < s.len() ==> s[leading_zeros(s) as int] != '0',
    decreases s.len(),
{
    if s.len() > 0 && s[0] == '0' {
        lemma_leading_zeros(s.drop_first());
        assert forall|i: int| 0 <= i < leading_zeros(s) implies #[trigger] s[i] == '0' by {
            if i > 0 {
                assert(s[i] == s.drop_first()[i - 1]);
            }
        }
    }
}

fn all_digits(v: &Vec<char>) -> (r: bool)
    ensures
        r == all_ascii_digits(v@),
{
    let mut i: usize = 0;
    while i < v.len()
        invariant
            i <= v.len(),
            forall|k: int| 0 <= k < i ==> is_ascii_digit(#[trigger] v@[k]),
        decreases v.len() - i,
    {
        if !('0' <= v[i] && v[i] <= '9') {
            return false;
        }
        i += 1;
    }
    true
}

fn count_leading_zeros(v: &Vec<char>) -> (r: usize)
    ensures
        r == leading_zeros(v@),
{
    proof { lemma_leading_zeros(v@); }
    let mut i: usize = 0;
    while i < v.len() && v[i] == '0'
        invariant
            i <= leading_zeros(v@),
            leading_zeros(v@) <= v.len(),
            forall|k: int| 0 <= k < leading_zeros(v@) ==> #[trigger] v@[k] == '0',
            leading_zeros(v@) < v.len() ==> v@[leading_zeros(v@) as int] != '0',
        decreases v.len() - i,
    {
        i += 1;
    }
    i
}

/// The characters of `v` without leading zeros, or `['0']` when nothing else
/// is left.
fn strip_leading_zeros(v: &Vec<char>) -> (r: Vec<char>)
    ensures
        r@ == strip_leading_zeros_spec(v@),
{
    let k = count_leading_zeros(v);
    let mut out: Vec<char> = Vec::new();
    if k >= v.len() {
        out.push('0');
        return out;
    }
    let mut i: usize = k;
    while i < v.len()
        invariant
            k <= i <= v.len(),
            out@ == v@.subrange(k as int, i as int),
        decreases v.len() - i,
    {
        out.push(v[i]);
        i += 1;
    }
    out
}

/// `i;ascii-numeric` equality (RFC 4790): both strings must consist solely
/// of ASCII digits and be numerically equal (leading zeros ignored). The
/// empty string compares equal only to the empty string; any non-numeric
/// operand never matches.
pub fn ascii_numeric_eq(a: &str, b: &str) -> (r: bool)
    ensures
        r == ascii_numeric_eq_spec(a@, b@),
{
    let av = chars_of(a);
    let bv = chars_of(b);
    if !all_digits(&av) || !all_digits(&bv) {
        return false;
    }
    if av.len() == 0 || bv.len() == 0 {
        return av.len() == 0 && bv.len() == 0;
    }
    let sa = strip_leading_zeros(&av);
    let sb = strip_leading_zeros(&bv);
    chars_eq(&sa, &sb)
}

/// Numeric value of one ASCII digit.
pub open spec fn digit_value(c: char) -> nat {
    ((c as u32) - ('0' as u32)) as nat
}

/// Decimal value of a digit string (the empty string has value 0).
pub open spec fn decimal_value(s: Seq<char>) -> nat
    decreases s.len(),
{
    if s.len() == 0 {
        0
    } else {
        decimal_value(s.drop_last()) * 10 + digit_value(s.last())
    }
}

/// `10` to the power `n`.
pub open spec fn pow10(n: nat) -> nat
    decreases n,
{
    if n == 0 {
        1
    } else {
        10 * pow10((n - 1) as nat)
    }
}

proof fn lemma_value_upper(s: Seq<char>)
    requires
        all_ascii_digits(s),
    ensures
        decimal_value(s) < pow10(s.len()),
    decreases s.len(),
{
    if s.len() > 0 {
        let t = s.drop_last();
        assert(all_ascii_digits(t)) by {
            assert forall|i: int| 0 <= i < t.len() implies is_ascii_digit(#[trigger] t[i]) by {
                assert(is_ascii_digit(s[i]));
            }
        }
        lemma_value_upper(t);
        assert(is_ascii_digit(s[s.len() - 1]));
        assert(digit_value(s.last()) <= 9);
        assert(decimal_value(t) + 1 <= pow10(t.len()));
        assert((decimal_value(t) + 1) * 10 <= pow10(t.len()) * 10) by (nonlinear_arith)
            requires
                decimal_value(t) + 1 <= pow10(t.len()),
        ;
    }
}

proof fn lemma_value_lower(s: Seq<char>)
    requires
        all_ascii_digits(s),
        s.len() > 0,
        s[0] != '0',
    ensures
        decimal_value(s) >= pow10((s.len() - 1) as nat),
    decreases s.len(),
{
    if s.len() == 1 {
        assert(is_ascii_digit(s[0]));
        assert(s.last() == s[0]);
    } else {
        let t = s.drop_last();
        assert(all_ascii_digits(t)) by {
            assert forall|i: int| 0 <= i < t.len() implies is_ascii_digit(#[trigger] t[i]) by {
                assert(is_ascii_digit(s[i]));
            }
        }
        assert(t[0] == s[0]);
        lemma_value_lower(t);
        assert(decimal_value(t) * 10 >= pow10((t.len() - 1) as nat) * 10) by (nonlinear_arith)
            requires
                decimal_value(t) >= pow10((t.len() - 1) as nat),
        ;
        assert(pow10((s.len() - 1) as nat) == 10 * pow10((t.len() - 1) as nat));
    }
}

proof fn lemma_pow10_mono(a: nat, b: nat)
    requires
        a <= b,
    ensures
        pow10(a) <= pow10(b),
    decreases b,
{
    if a < b {
        lemma_pow10_mono(a, (b - 1) as nat);
    }
}

proof fn lemma_leading_zero_value(t: Seq<char>)
    ensures
        decimal_value(seq!['0'] + t) == decimal_value(t),
    decreases t.len(),
{
    if t.len() > 0 {
        lemma_leading_zero_value(t.drop_last());
        assert((seq!['0'] + t).drop_last() =~= seq!['0'] + t.drop_last());
        assert((seq!['0'] + t).last() == t.last());
        assert(decimal_value(seq!['0'] + t) == decimal_value((seq!['0'] + t).drop_last()) * 10
            + digit_value((seq!['0'] + t).last()));
        assert(decimal_value(t) == decimal_value(t.drop_last()) * 10 + digit_value(t.last()));
    } else {
        assert((seq!['0'] + t).drop_last() =~= Seq::<char>::empty());
        assert((seq!['0'] + t).last() == '0');
        assert(decimal_value(seq!['0'] + t) == decimal_value((seq!['0'] + t).drop_last()) * 10
            + digit_value((seq!['0'] + t).last()));
        assert(decimal_value(Seq::<char>::empty()) == 0);
    }
}

proof fn lemma_strip_value(s: Seq<char>)
    requires
        all_ascii_digits(s),
        s.len() > 0,
    ensures
        decimal_value(strip_leading_zeros_spec(s)) == decimal_value(s),
        all_ascii_digits(strip_leading_zeros_spec(s)),
        strip_leading_zeros_spec(s).len() > 0,
        strip_leading_zeros_spec(s)[0] != '0' || strip_leading_zeros_spec(s) == seq!['0'],
    decreases s.len(),
{
    lemma_leading_zeros(s);
    if s[0] == '0' {
        let t = s.drop_first();
        assert(s =~= seq!['0'] + t);
        lemma_leading_zero_value(t);
        if t.len() == 0 {
            assert(leading_zeros(s) == 1);
            assert(decimal_value(seq!['0']) == 0) by {
                assert(seq!['0'].drop_last() =~= Seq::<char>::empty());
            }
        } else {
            assert(all_ascii_digits(t)) by {
                assert forall|i: int| 0 <= i < t.len() implies is_ascii_digit(#[trigger] t[i]) by {
                    assert(is_ascii_digit(s[i + 1]));
                }
            }
            lemma_strip_value(t);
            assert(leading_zeros(s) == 1 + leading_zeros(t));
            if leading_zeros(t) < t.len() {
                assert(s.subrange(leading_zeros(s) as int, s.len() as int) =~= t.subrange(
                    leading_zeros(t) as int,
                    t.len() as int,
                ));
            }
        }
    } else {
        assert(leading_zeros(s) == 0);
        assert(s.subrange(0, s.len() as int) =~= s);
    }
}

proof fn lemma_same_length_same_value(a: Seq<char>, b: Seq<char>)
    requires
        all_ascii_digits(a),
        all_ascii_digits(b),
        a.len() == b.len(),
        decimal_value(a) == decimal_value(b),
    ensures
        a == b,
    decreases a.len(),
{
    if a.len() > 0 {
        let ta = a.drop_last();
        let tb = b.drop_last();
        assert(all_ascii_digits(ta)) by {
            assert forall|i: int| 0 <= i < ta.len() implies is_ascii_digit(#[trigger] ta[i]) by {
                assert(is_ascii_digit(a[i]));
            }
        }
        assert(all_ascii_digits(tb)) by {
            assert forall|i: int| 0 <= i < tb.len() implies is_ascii_digit(#[trigger] tb[i]) by {
                assert(is_ascii_digit(b[i]));
            }
        }
        assert(is_ascii_digit(a[a.len() - 1]));
        assert(is_ascii_digit(b[b.len() - 1]));
        let da = digit_value(a.last());
        let db = digit_value(b.last());
        let va = decimal_value(ta);
        let vb = decimal_value(tb);
        assert(da < 10 && db < 10);
        assert(va * 10 + da == vb * 10 + db);
        assert(va == vb && da == db) by (nonlinear_arith)
            requires
                va * 10 + da == vb * 10 + db,
                da < 10,
                db < 10,
        ;
        lemma_same_length_same_value(ta, tb);
        assert(a.last() == b.last());
        assert(a =~= ta.push(a.last()));
        assert(b =~= tb.push(b.last()));
    }
}

/// For non-empty digit strings, `i;ascii-numeric` equality is exactly
/// equality of the decimal values: leading zeros never change the outcome.
pub proof fn law_numeric_eq_is_value_equality(a: Seq<char>, b: Seq<char>)
    requires
        all_ascii_digits(a),
        all_ascii_digits(b),
        a.len() > 0,
        b.len() > 0,
    ensures
        ascii_numeric_eq_spec(a, b) == (decimal_value(a) == decimal_value(b)),
{
    lemma_strip_value(a);
    lemma_strip_value(b);
    let sa = strip_leading_zeros_spec(a);
    let sb = strip_leading_zeros_spec(b);
    if decimal_value(a) == decimal_value(b) {
        lemma_value_upper(sa);
        lemma_value_upper(sb);
        if sa.len() != sb.len() {
            if sa.len() < sb.len() {
                if sb[0] != '0' {
                    lemma_value_lower(sb);
                    lemma_pow10_mono(sa.len(), (sb.len() - 1) as nat);
                } else {
                    assert(sb.len() == 1);
                }
            } else {
                if sa[0] != '0' {
                    lemma_value_lower(sa);
                    lemma_pow10_mono(sb.len(), (sa.len() - 1) as nat);
                } else {
                    assert(sa.len() == 1);
                }
            }
        }
        lemma_same_length_same_value(sa, sb);
    }
}

/// Numeric equality is symmetric.
pub proof fn law_numeric_eq_symmetric(a: Seq<char>, b: Seq<char>)
    ensures
        ascii_numeric_eq_spec(a, b) == ascii_numeric_eq_spec(b, a),
{
}

} // verus!
