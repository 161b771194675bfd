use vstd::prelude::*;

verus! {

/// The characters of a string slice, as a vector.
pub fn str_chars(s: &str) -> (v: Vec<char>)
    ensures
        v@ == s@,
{
    let n = s.unicode_len();
    let mut v: Vec<char> = Vec::new();
    let mut i: usize = 0;
    while i < n
        invariant
            n == s@.len(),
            i <= n,
            v@ == s@.subrange(0, i as int),
        decreases n - i,
    {
        v.push(s.get_char(i));
        i = i + 1;
        proof {
            assert(v@ =~= s@.subrange(0, i as int));
        }
    }
    proof {
        assert(v@ =~= s@);
    }
    v
}

/// Relies on `String`'s `FromIterator<char>` implementation: the collected
/// string holds exactly the iterated characters, in order.
#[verifier::external_body]
fn string_from_chars(v: Vec<char>) -> (s: String)
    ensures
        s@ == v@,
{
    String::from_iter(v)
}

/// A header derived from a file stem: every underscore reads as a space.
pub open spec fn despaced(stem: Seq<char>) -> Seq<char> {
    stem.map_values(|c: char| if c == '_' { ' ' } else { c })
}

/// Turns a file stem into a slide header, writing each underscore as a
/// space.
pub fn header_from_stem(stem: &str) -> (r: String)
    ensures
        r@ == despaced(stem@),
{
    let n = stem.unicode_len();
    let mut v: Vec<char> = Vec::new();
    let mut i: usize = 0;
    while i < n
        invariant
            n == stem@.len(),
            i <= n,
            v@ == despaced(stem@.subrange(0, i as int)),
        decreases n - i,
    {
        let c = stem.get_char(i);
        if c == '_' {
            v.push(' ');
        } else {
            v.push(c);
        }
        i = i + 1;
        proof {
            assert(v@ =~= despaced(stem@.subrange(0, i as int)));
        }
    }
    proof {
        assert(stem@.subrange(0, n as int) =~= stem@);
    }
    string_from_chars(v)
}

/// The decimal digit characters.
pub open spec fn digit_char(d: int) -> char {
    if d == 0 {
        '0'
    } else if d == 1 {
        '1'
    } else if d == 2 {
        '2'
    } else if d == 3 {
        '3'
    } else if d == 4 {
        '4'
    } else if d == 5 {
        '5'
    } else if d == 6 {
        '6'
    } else if d == 7 {
        '7'
    } else if d == 8 {
        '8'
    } else {
        '9'
    }
}

/// The decimal representation of a natural number, most significant digit
/// first, with no leading zeros (zero itself reads "0").
pub open spec fn dec_rep(n: nat) -> Seq<char>
    decreases n,
{
    if n < 10 {
        seq![digit_char(n as int)]
    } else {
        dec_rep(n / 10).push(digit_char((n % 10) as int))
    }
}

fn exec_digit_char(d: u64) -> (c: char)
    requires
        d < 10,
    ensures
        c == digit_char(d as int),
{
    if d == 0 {
        '0'
    } else if d == 1 {
        '1'
    } else if d == 2 {
        '2'
    } else if d == 3 {
        '3'
    } else if d == 4 {
        '4'
    } else if d == 5 {
        '5'
    } else if d == 6 {
        '6'
    } else if d == 7 {
        '7'
    } else if d == 8 {
        '8'
    } else {
        '9'
    }
}

/// The decimal digits of `n`, as characters.
pub fn dec_chars(n: u64) -> (v: Vec<char>)
    ensures
        v@ == dec_rep(n as nat),
    decreases n,
{
    if n < 10 {
        let mut v: Vec<char> = Vec::new();
        v.push(exec_digit_char(n));
        proof {
            assert(v@ =~= dec_rep(n as nat));
        }
        v
    } else {
        let mut v = dec_chars(n / 10);
        v.push(exec_digit_char(n % 10));
        v
    }
}

/// Seconds within a minute, always written with two digits.
pub open spec fn two_digit(n: nat) -> Seq<char> {
    if n < 10 {
        seq!['0', digit_char(n as int)]
    } else {
        dec_rep(n)
    }
}

/// The two-digit rendering of a second count below sixty.
pub fn two_digit_chars(n: u64) -> (v: Vec<char>)
    requires
        n < 60,
    ensures
        v@ == two_digit(n as nat),
{
    if n < 10 {
        let mut v: Vec<char> = Vec::new();
        v.push('0');
        v.push(exec_digit_char(n));
        proof {
            assert(v@ =~= two_digit(n as nat));
        }
        v
    } else {
        dec_chars(n)
    }
}

} // verus!
