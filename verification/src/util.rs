//! Small verified helpers: decimal formatting for claim timestamps and the
//! shortened device-token form used in log lines.
use vstd::prelude::*;
use vstd::string::*;

verus! {

/// Number of trailing characters kept when a device token is shortened.
pub const SHORT_TOKEN_CHARS: usize = 17;

/// The character for a single decimal digit.
pub open spec fn dec_digit(d: nat) -> char {
    if d == 0 {
        '0'
    } else if d == 1 {
        '1'
    } else if d == 2 {
        '2'
    } else if d == 3 {
        '3'
    } else if d == 4 {
        '4'
    } else if d == 5 {
        '5'
    } else if d == 6 {
        '6'
    } else if d == 7 {
        '7'
    } else if d == 8 {
        '8'
    } else {
        '9'
    }
}

/// The decimal representation of `n`, most significant digit first.
pub open spec fn dec_str(n: nat) -> Seq<char>
    decreases n,
{
    if n < 10 {
        seq![dec_digit(n)]
    } else {
        dec_str(n / 10).push(dec_digit(n % 10))
    }
}

/// A decimal rendering is never empty, and has at least two digits from ten
/// upwards.
pub proof fn lemma_dec_str_len(n: nat)
    ensures
        dec_str(n).len() >= 1,
        n >= 10 ==> dec_str(n).len() >= 2,
    decreases n,
{
    if n >= 10 {
        lemma_dec_str_len(n / 10);
    }
}

/// Two numbers with the same decimal rendering are the same number.
pub proof fn lemma_dec_str_injective(a: nat, b: nat)
    ensures
        dec_str(a) == dec_str(b) ==> a == b,
    decreases a + b,
{
    lemma_dec_str_len(a);
    lemma_dec_str_len(b);
    if dec_str(a) == dec_str(b) {
        if a < 10 && b < 10 {
            assert(dec_str(a)[0] == dec_str(b)[0]);
        } else if a >= 10 && b >= 10 {
            assert(dec_str(a).drop_last() =~= dec_str(a / 10));
            assert(dec_str(b).drop_last() =~= dec_str(b / 10));
            assert(dec_str(a).last() == dec_str(b).last());
            assert(dec_digit(a % 10) == dec_digit(b % 10));
            lemma_dec_str_injective(a / 10, b / 10);
        }
    }
}

fn digit_str(d: u64) -> (r: &'static str)
    requires
        d < 10,
    ensures
        r@ == seq![dec_digit(d as nat)],
{
    proof {
        reveal_strlit("0");
        reveal_strlit("1");
        reveal_strlit("2");
        reveal_strlit("3");
        reveal_strlit("4");
        reveal_strlit("5");
        reveal_strlit("6");
        reveal_strlit("7");
        reveal_strlit("8");
        reveal_strlit("9");
        assert("0"@ =~= seq!['0']);
        assert("1"@ =~= seq!['1']);
        assert("2"@ =~= seq!['2']);
        assert("3"@ =~= seq!['3']);
        assert("4"@ =~= seq!['4']);
        assert("5"@ =~= seq!['5']);
        assert("6"@ =~= seq!['6']);
        assert("7"@ =~= seq!['7']);
        assert("8"@ =~= seq!['8']);
        assert("9"@ =~= seq!['9']);
    }
    if d == 0 {
        "0"
    } else if d == 1 {
        "1"
    } else if d == 2 {
        "2"
    } else if d == 3 {
        "3"
    } else if d == 4 {
        "4"
    } else if d == 5 {
        "5"
    } else if d == 6 {
        "6"
    } else if d == 7 {
        "7"
    } else if d == 8 {
        "8"
    } else {
        "9"
    }
}

fn push_dec_digits(s: &mut String, n: u64)
    ensures
        final(s)@ == old(s)@ + dec_str(n as nat),
    decreases n,
{
    if n >= 10 {
        push_dec_digits(s, n / 10);
    }
    let d: u64 = n % 10;
    s.append(digit_str(d));
    proof {
        assert(s@ =~= old(s)@ + dec_str(n as nat));
    }
}

/// Renders `n` in decimal, exactly as `dec_str` describes it.
pub fn u64_to_string(n: u64) -> (r: String)
    ensures
        r@ == dec_str(n as nat),
{
    let mut s = String::new();
    push_dec_digits(&mut s, n);
    proof {
        assert(s@ =~= dec_str(n as nat));
    }
    s
}

/// The shortened form of a device token used in diagnostics: its last
/// `SHORT_TOKEN_CHARS` characters, or the whole token when it is shorter.
pub fn get_short_token(device_token: &String) -> (r: &str)
    ensures
        device_token@.len() >= SHORT_TOKEN_CHARS ==> r@ == device_token@.subrange(
            device_token@.len() - SHORT_TOKEN_CHARS,
            device_token@.len() as int,
        ),
        device_token@.len() < SHORT_TOKEN_CHARS ==> r@ == device_token@,
{
    let n = device_token.as_str().unicode_len();
    if n >= SHORT_TOKEN_CHARS {
        device_token.as_str().substring_char(n - SHORT_TOKEN_CHARS, n)
    } else {
        device_token.as_str()
    }
}

} // verus!
