//! Download identifiers.
//!
//! A queued download is named `download_<millis>`, where `<millis>` is the
//! wall-clock reading, in milliseconds since the epoch, at the moment the
//! request was recorded. Identifiers issued at distinct clock readings are
//! proved distinct ([`lemma_download_id_injective`]); the host performs no
//! collision handling beyond that, so two requests falling into the same
//! millisecond share an identifier.

use vstd::prelude::*;

verus! {

broadcast use vstd::seq::group_seq_axioms;

/// The decimal digit character for `d` (`0 <= d <= 9`).
pub open spec fn digit_char(d: nat) -> char {
    if d == 0 {
        '0'
    } else if d == 1 {
        '1'
    } else if d == 2 {
        '2'
    } else if d == 3 {
        '3'
    } else if d == 4 {
        '4'
    } else if d == 5 {
        '5'
    } else if d == 6 {
        '6'
    } else if d == 7 {
        '7'
    } else if d == 8 {
        '8'
    } else {
        '9'
    }
}

/// The numeric value of a decimal digit character; inverse of [`digit_char`].
pub open spec fn digit_val(c: char) -> nat {
    if c == '0' {
        0
    } else if c == '1' {
        1
    } else if c == '2' {
        2
    } else if c == '3' {
        3
    } else if c == '4' {
        4
    } else if c == '5' {
        5
    } else if c == '6' {
        6
    } else if c == '7' {
        7
    } else if c == '8' {
        8
    } else {
        9
    }
}

/// Decimal rendering of a natural number, most significant digit first,
/// with no leading zero except for the number zero itself.
pub open spec fn dec_chars(n: nat) -> Seq<char>
    decreases n,
{
    if n < 10 {
        seq![digit_char(n)]
    } else {
        dec_chars(n / 10).push(digit_char(n % 10))
    }
}

/// Decimal rendering of a signed clock reading: a leading `-` when the
/// reading is negative (a clock set before the epoch), plain digits
/// otherwise.
pub open spec fn int_dec_chars(m: int) -> Seq<char> {
    if m < 0 {
        seq!['-'] + dec_chars((-m) as nat)
    } else {
        dec_chars(m as nat)
    }
}

/// The identifier issued for a download queued at clock reading `m`.
pub open spec fn download_id_chars(m: int) -> Seq<char> {
    "download_"@ + int_dec_chars(m)
}

/// The numeric value of a digit string, read most significant digit first.
/// Folding the rendering back to its value is what makes the rendering
/// injective.
pub open spec fn dec_val(s: Seq<char>) -> nat
    decreases s.len(),
{
    if s.len() == 0 {
        0
    } else {
        dec_val(s.drop_last()) * 10 + digit_val(s.last())
    }
}

proof fn lemma_dec_chars_val(n: nat)
    ensures
        dec_val(dec_chars(n)) == n,
        dec_chars(n).len() >= 1,
        dec_chars(n)[0] != '-',
    decreases n,
{
    if n < 10 {
        let s = seq![digit_char(n)];
        assert(s.drop_last() =~= Seq::<char>::empty());
        assert(dec_val(Seq::<char>::empty()) == 0);
        assert(dec_val(s) == dec_val(s.drop_last()) * 10 + digit_val(s.last()));
        assert(dec_val(s) == digit_val(digit_char(n)));
    } else {
        lemma_dec_chars_val(n / 10);
        let s = dec_chars(n / 10).push(digit_char(n % 10));
        assert(s.drop_last() =~= dec_chars(n / 10));
        assert(s.last() == digit_char((n % 10) as nat));
        assert(digit_val(digit_char((n % 10) as nat)) == n % 10);
        assert(dec_val(s) == (n / 10) * 10 + n % 10);
        assert((n / 10) * 10 + n % 10 == n) by (nonlinear_arith);
        assert(s[0] == dec_chars(n / 10)[0]);
    }
}

/// Renderings of distinct natural numbers differ.
proof fn lemma_dec_chars_injective(a: nat, b: nat)
    requires
        dec_chars(a) == dec_chars(b),
    ensures
        a == b,
{
    lemma_dec_chars_val(a);
    lemma_dec_chars_val(b);
}

/// Appending to a common front keeps strings apart: if the tails differ,
/// so do the whole strings.
proof fn lemma_append_cancel_front(p: Seq<char>, a: Seq<char>, b: Seq<char>)
    requires
        p + a == p + b,
    ensures
        a == b,
{
    assert((p + a).len() == p.len() + a.len());
    assert((p + b).len() == p.len() + b.len());
    assert(a.len() == b.len());
    assert forall|i: int| 0 <= i < a.len() implies a[i] == b[i] by {
        assert((p + a)[p.len() + i] == a[i]);
        assert((p + b)[p.len() + i] == b[i]);
    }
    assert(a =~= b);
}

/// Identifiers issued at distinct clock readings are distinct strings.
/// This is what makes the registry's keys unique as long as no two
/// requests share a millisecond.
pub proof fn lemma_download_id_injective(m1: int, m2: int)
    requires
        m1 != m2,
    ensures
        download_id_chars(m1) != download_id_chars(m2),
{
    if download_id_chars(m1) == download_id_chars(m2) {
        lemma_append_cancel_front("download_"@, int_dec_chars(m1), int_dec_chars(m2));
        let t1 = int_dec_chars(m1);
        let t2 = int_dec_chars(m2);
        if m1 < 0 && m2 < 0 {
            lemma_append_cancel_front(seq!['-'], dec_chars((-m1) as nat), dec_chars((-m2) as nat));
            lemma_dec_chars_injective((-m1) as nat, (-m2) as nat);
        } else if m1 < 0 {
            lemma_dec_chars_val((-m1) as nat);
            lemma_dec_chars_val(m2 as nat);
            assert(t1[0] == '-');
            assert(t2[0] != '-');
        } else if m2 < 0 {
            lemma_dec_chars_val(m1 as nat);
            lemma_dec_chars_val((-m2) as nat);
            assert(t1[0] != '-');
            assert(t2[0] == '-');
        } else {
            lemma_dec_chars_injective(m1 as nat, m2 as nat);
        }
    }
}

fn digit_str(d: u64) -> (r: &'static str)
    requires
        d < 10,
    ensures
        r@ == seq![digit_char(d as nat)],
{
    proof {
        reveal_strlit("0");
        reveal_strlit("1");
        reveal_strlit("2");
        reveal_strlit("3");
        reveal_strlit("4");
        reveal_strlit("5");
        reveal_strlit("6");
        reveal_strlit("7");
        reveal_strlit("8");
        reveal_strlit("9");
    }
    let r: &'static str = if d == 0 {
        "0"
    } else if d == 1 {
        "1"
    } else if d == 2 {
        "2"
    } else if d == 3 {
        "3"
    } else if d == 4 {
        "4"
    } else if d == 5 {
        "5"
    } else if d == 6 {
        "6"
    } else if d == 7 {
        "7"
    } else if d == 8 {
        "8"
    } else {
        "9"
    };
    proof {
        assert(r@ =~= seq![digit_char(d as nat)]);
    }
    r
}

/// Renders `n` in decimal, matching [`dec_chars`] exactly.
pub fn u64_dec_string(n: u64) -> (r: String)
    ensures
        r@ == dec_chars(n as nat),
    decreases n,
{
    if n < 10 {
        String::from_str(digit_str(n))
    } else {
        proof {
            assert(n / 10 < n) by (nonlinear_arith)
                requires
                    n >= 10,
            ;
        }
        let mut s = u64_dec_string(n / 10);
        s.append(digit_str(n % 10));
        proof {
            assert(dec_chars((n / 10) as nat) + seq![digit_char((n % 10) as nat)] =~= dec_chars(
                (n / 10) as nat,
            ).push(digit_char((n % 10) as nat)));
        }
        s
    }
}

/// Builds the identifier string for a download queued at clock reading
/// `millis`: the literal `download_` followed by the reading in decimal.
pub fn download_id_string(millis: i64) -> (r: String)
    ensures
        r@ == download_id_chars(millis as int),
{
    let mut s = String::from_str("download_");
    if millis < 0 {
        s.append("-");
        let mag: u64 = if millis == i64::MIN {
            9223372036854775808u64
        } else {
            (-millis) as u64
        };
        proof {
            assert(mag as nat == (-(millis as int)) as nat);
        }
        let digits = u64_dec_string(mag);
        s.append(digits.as_str());
        proof {
            reveal_strlit("-");
            assert(s@ =~= "download_"@ + (seq!['-'] + dec_chars((-(millis as int)) as nat)));
        }
    } else {
        let digits = u64_dec_string(millis as u64);
        s.append(digits.as_str());
    }
    s
}

} // verus!
