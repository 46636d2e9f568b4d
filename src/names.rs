//! Generated identifiers: the hidden method's name, decimal numerals and the
//! names of synthesized test functions.
use vstd::prelude::*;

verus! {

/// Name of the hidden method that runs every associated test of a trait.
pub const TEST_ALL_FN: &'static str = "__internal_tested_trait_test_all";

/// Prefix of every synthesized test function's name.
pub const TEST_FN_PREFIX: &'static str = "tested_trait_test_impl_";

/// The decimal digit character for `d < 10`.
pub open spec fn digit_char(d: nat) -> char {
    if d == 0 {
        '0'
    } else if d == 1 {
        '1'
    } else if d == 2 {
        '2'
    } else if d == 3 {
        '3'
    } else if d == 4 {
        '4'
    } else if d == 5 {
        '5'
    } else if d == 6 {
        '6'
    } else if d == 7 {
        '7'
    } else if d == 8 {
        '8'
    } else {
        '9'
    }
}

pub open spec fn is_digit(c: char) -> bool {
    '0' <= c <= '9'
}

/// The decimal numeral of `n`, without leading zeros.
pub open spec fn decimal(n: nat) -> Seq<char>
    decreases n,
{
    if n < 10 {
        seq![digit_char(n)]
    } else {
        decimal(n / 10).push(digit_char(n % 10))
    }
}

/// Name of the synthesized test function for a trait whose final path
/// segment is `trait_name`, numbered `n` by the shared counter.
pub open spec fn test_fn_name(trait_name: Seq<char>, n: nat) -> Seq<char> {
    TEST_FN_PREFIX@ + trait_name + seq!['_'] + decimal(n)
}

fn digit_str(d: u64) -> (r: &'static str)
    requires
        d < 10,
    ensures
        r@ == seq![digit_char(d as nat)],
{
    proof {
        reveal_strlit("0");
        reveal_strlit("1");
        reveal_strlit("2");
        reveal_strlit("3");
        reveal_strlit("4");
        reveal_strlit("5");
        reveal_strlit("6");
        reveal_strlit("7");
        reveal_strlit("8");
        reveal_strlit("9");
    }
    match d {
        0 => "0",
        1 => "1",
        2 => "2",
        3 => "3",
        4 => "4",
        5 => "5",
        6 => "6",
        7 => "7",
        8 => "8",
        _ => "9",
    }
}

/// Appends the decimal numeral of `n` to `s`.
pub fn push_decimal(s: &mut String, n: u64)
    ensures
        final(s)@ == old(s)@ + decimal(n as nat),
    decreases n,
{
    if n >= 10 {
        push_decimal(s, n / 10);
    }
    s.append(digit_str(n % 10));
    proof {
        assert(final(s)@ =~= old(s)@ + decimal(n as nat));
    }
}

/// Builds the name of the synthesized test function numbered `n` for the
/// trait whose final path segment is `trait_name`.
pub fn make_test_fn_name(trait_name: &str, n: u64) -> (r: String)
    ensures
        r@ == test_fn_name(trait_name@, n as nat),
{
    let mut s = String::from_str(TEST_FN_PREFIX);
    s.append(trait_name);
    s.append("_");
    push_decimal(&mut s, n);
    proof {
        reveal_strlit("_");
        assert(s@ =~= test_fn_name(trait_name@, n as nat));
    }
    s
}

/// Takes the next value of a counter shared by all expansions: returns the
/// current value and advances the counter by one, so that no two calls on
/// the same counter return the same value.
pub fn gensym(counter: &mut u64) -> (r: u64)
    requires
        *old(counter) < u64::MAX,
    ensures
        r == *old(counter),
        *final(counter) == *old(counter) + 1,
{
    let r = *counter;
    *counter = r + 1;
    r
}

proof fn lemma_decimal_digits(n: nat)
    ensures
        decimal(n).len() >= 1,
        n >= 10 ==> decimal(n).len() >= 2,
        forall|i: int| 0 <= i < decimal(n).len() ==> is_digit(#[trigger] decimal(n)[i]),
    decreases n,
{
    if n >= 10 {
        lemma_decimal_digits(n / 10);
        let p = decimal(n / 10);
        assert forall|i: int| 0 <= i < decimal(n).len() implies is_digit(#[trigger] decimal(n)[i]) by {
            if i < p.len() {
                assert(decimal(n)[i] == p[i]);
            }
        }
    }
}

proof fn lemma_decimal_injective(a: nat, b: nat)
    requires
        decimal(a) == decimal(b),
    ensures
        a == b,
    decreases a,
{
    lemma_decimal_digits(a);
    lemma_decimal_digits(b);
    if a >= 10 && b >= 10 {
        let da = decimal(a);
        assert(da.drop_last() == decimal(a / 10));
        assert(decimal(b).drop_last() == decimal(b / 10));
        assert(da.last() == digit_char(a % 10));
        assert(decimal(b).last() == digit_char(b % 10));
        lemma_decimal_injective(a / 10, b / 10);
    } else if a < 10 && b < 10 {
        assert(decimal(a)[0] == digit_char(a));
        assert(decimal(b)[0] == digit_char(b));
    }
}

/// Synthesized test functions numbered by different counter values have
/// different names, whatever the names of their traits: the name ends with
/// `_` and the counter's digits, and a digit is never `_`.
pub proof fn lemma_distinct_counters_give_distinct_names(t1: Seq<char>, n1: nat, t2: Seq<char>, n2: nat)
    requires
        n1 != n2,
    ensures
        test_fn_name(t1, n1) != test_fn_name(t2, n2),
{
    let s1 = test_fn_name(t1, n1);
    let s2 = test_fn_name(t2, n2);
    let d1 = decimal(n1);
    let d2 = decimal(n2);
    lemma_decimal_digits(n1);
    lemma_decimal_digits(n2);
    if s1 == s2 {
        let len = s1.len() as int;
        if d1.len() == d2.len() {
            assert(d1 =~= s1.subrange(len - d1.len(), len));
            assert(d2 =~= s2.subrange(len - d2.len(), len));
            lemma_decimal_injective(n1, n2);
        } else if d1.len() < d2.len() {
            let p = len - d1.len() - 1;
            assert(s1[p] == '_');
            assert(s2[p] == d2[p - (len - d2.len())]);
        } else {
            let p = len - d2.len() - 1;
            assert(s2[p] == '_');
            assert(s1[p] == d1[p - (len - d1.len())]);
        }
    }
}

} // verus!
