use vstd::prelude::*;
use vstd::string::*;

verus! {

/// Whether `c` is one of the ten decimal digits.
pub open spec fn is_digit(c: char) -> bool {
    '0' <= c <= '9'
}

/// The number a decimal digit stands for.
pub open spec fn digit_value(c: char) -> int {
    c as int - '0' as int
}

/// The decimal digit that stands for `d`, for `d` from 0 to 9.
pub open spec fn digit_char(d: int) -> char {
    ('0' as int + d) as char
}

/// Whether every character of `s` is a decimal digit.
pub open spec fn all_digits(s: Seq<char>) -> bool {
    forall|i: int| 0 <= i < s.len() ==> is_digit(#[trigger] s[i])
}

/// The number that a run of decimal digits denotes, leading zeros allowed.
pub open spec fn digits_value(s: Seq<char>) -> int
    decreases s.len(),
{
    if s.len() == 0 {
        0
    } else {
        10 * digits_value(s.drop_last()) + digit_value(s.last())
    }
}

/// The integer that `s` denotes in decimal: an optional `+` or `-`, then one
/// or more digits and nothing else.
pub open spec fn decimal_value(s: Seq<char>) -> Option<int> {
    if s.len() == 0 {
        None
    } else if s[0] == '-' || s[0] == '+' {
        let body = s.subrange(1, s.len() as int);
        if body.len() > 0 && all_digits(body) {
            Some(
                if s[0] == '-' {
                    -digits_value(body)
                } else {
                    digits_value(body)
                },
            )
        } else {
            None
        }
    } else if all_digits(s) {
        Some(digits_value(s))
    } else {
        None
    }
}

/// The user id that a token subject names, if it names one.
pub open spec fn parsed_id(s: Seq<char>) -> Option<i32> {
    match decimal_value(s) {
        Some(v) => if i32::MIN <= v <= i32::MAX {
            Some(v as i32)
        } else {
            None
        },
        None => None,
    }
}

/// The decimal digits of `n`, without leading zeros.
pub open spec fn nat_digits(n: nat) -> Seq<char>
    decreases n,
{
    if n < 10 {
        seq![digit_char(n as int)]
    } else {
        nat_digits(n / 10).push(digit_char((n % 10) as int))
    }
}

/// The token subject that names the user id `id`.
pub open spec fn subject_of(id: int) -> Seq<char> {
    if id < 0 {
        seq!['-'] + nat_digits((-id) as nat)
    } else {
        nat_digits(id as nat)
    }
}

proof fn lemma_digits_value_bounds(s: Seq<char>)
    requires
        all_digits(s),
    ensures
        digits_value(s) >= 0,
    decreases s.len(),
{
    if s.len() > 0 {
        lemma_digits_value_bounds(s.drop_last());
    }
}

/// A run of digits denotes at least what any of its prefixes denotes.
proof fn lemma_prefix_value(s: Seq<char>, k: int)
    requires
        all_digits(s),
        0 <= k <= s.len(),
    ensures
        0 <= digits_value(s.subrange(0, k)) <= digits_value(s),
    decreases s.len() - k,
{
    if k == s.len() {
        assert(s.subrange(0, k) =~= s);
        lemma_digits_value_bounds(s);
    } else {
        let t = s.drop_last();
        assert(t.subrange(0, k) =~= s.subrange(0, k));
        lemma_prefix_value(t, k);
        lemma_digits_value_bounds(t);
    }
}

proof fn lemma_nat_digits(n: nat)
    ensures
        nat_digits(n).len() >= 1,
        all_digits(nat_digits(n)),
        digits_value(nat_digits(n)) == n,
    decreases n,
{
    if n < 10 {
        let s = nat_digits(n);
        assert(s.drop_last() =~= Seq::<char>::empty());
        assert(digits_value(s.drop_last()) == 0);
    } else {
        lemma_nat_digits(n / 10);
        let s = nat_digits(n);
        assert(s.drop_last() =~= nat_digits(n / 10));
    }
}

/// A subject always parses back to the id it was made from.
pub proof fn lemma_subject_round_trip(id: i32)
    ensures
        parsed_id(subject_of(id as int)) == Some(id),
{
    let s = subject_of(id as int);
    if id < 0 {
        let d = nat_digits((-id) as nat);
        lemma_nat_digits((-id) as nat);
        assert(s.subrange(1, s.len() as int) =~= d);
    } else {
        lemma_nat_digits(id as nat);
    }
}

proof fn lemma_non_ascii_names_no_id(s: Seq<char>, i: int)
    requires
        0 <= i < s.len(),
        !('\0' <= s[i] <= '\u{7f}'),
    ensures
        parsed_id(s) is None,
{
    if i > 0 {
        let body = s.subrange(1, s.len() as int);
        assert(body[i - 1] == s[i]);
    }
}

proof fn lemma_bad_character_names_no_id(s: Seq<char>, start: int, i: int)
    requires
        0 <= start <= i < s.len(),
        start == 0 || start == 1,
        start == 1 <==> (s[0] == '-' || s[0] == '+'),
        !is_digit(s[i]),
    ensures
        parsed_id(s) is None,
{
    if start == 1 {
        let body = s.subrange(1, s.len() as int);
        assert(body[i - 1] == s[i]);
    }
}

proof fn lemma_large_prefix_names_no_id(s: Seq<char>, start: int, i: int)
    requires
        0 <= start < i <= s.len(),
        start == 0 || start == 1,
        start == 1 <==> (s[0] == '-' || s[0] == '+'),
        digits_value(s.subrange(start, i)) > 0x8000_0000,
    ensures
        parsed_id(s) is None,
{
    let body = s.subrange(start, s.len() as int);
    if all_digits(body) {
        assert(body.subrange(0, i - start) =~= s.subrange(start, i));
        lemma_prefix_value(body, i - start);
    }
    if start == 0 {
        assert(body =~= s);
    }
}

/// Reads a token subject as a user id. The subject must be a decimal integer
/// that fits in 32 bits: an optional sign, then digits only.
pub fn parse_subject(s: &str) -> (r: Option<i32>)
    ensures
        r == parsed_id(s@),
{
    if !s.is_ascii() {
        proof {
            assert(!vstd::utf8::is_ascii_chars(s@));
            let i = choose|i: int| 0 <= i < s@.len() && !('\0' <= #[trigger] s@[i] <= '\u{7f}');
            lemma_non_ascii_names_no_id(s@, i);
        }
        return None;
    }
    let n = s.unicode_len();
    if n == 0 {
        return None;
    }
    let first = s.get_ascii(0);
    let negative = first == 45u8;
    let start: usize = if first == 45u8 || first == 43u8 {
        1
    } else {
        0
    };
    if start == n {
        assert(s@.subrange(1, s@.len() as int).len() == 0);
        return None;
    }
    let mut acc: i64 = 0;
    let mut i: usize = start;
    assert(s@.subrange(start as int, i as int) =~= Seq::<char>::empty());
    while i < n
        invariant
            s.is_ascii(),
            n == s@.len(),
            start <= i <= n,
            start == 0 || start == 1,
            start == 1 <==> (s@[0] == '-' || s@[0] == '+'),
            all_digits(s@.subrange(start as int, i as int)),
            acc == digits_value(s@.subrange(start as int, i as int)),
            0 <= acc <= 0x8000_0000,
        decreases n - i,
    {
        let b = s.get_ascii(i);
        if b < 48u8 || b > 57u8 {
            proof {
                lemma_bad_character_names_no_id(s@, start as int, i as int);
            }
            return None;
        }
        let ghost before = s@.subrange(start as int, i as int);
        let ghost after = s@.subrange(start as int, i + 1);
        assert(after.drop_last() =~= before);
        assert(after.last() == s@[i as int]);
        acc = acc * 10 + (b - 48u8) as i64;
        i = i + 1;
        if acc > 0x8000_0000 {
            proof {
                lemma_large_prefix_names_no_id(s@, start as int, i as int);
            }
            return None;
        }
    }
    assert(s@.subrange(start as int, n as int) =~= if start == 0 {
        s@
    } else {
        s@.subrange(1, s@.len() as int)
    });
    if negative {
        Some((-acc) as i32)
    } else if acc > 0x7fff_ffff {
        None
    } else {
        Some(acc as i32)
    }
}

fn push_digits(out: &mut String, n: u32)
    ensures
        final(out)@ == old(out)@ + nat_digits(n as nat),
    decreases n,
{
    if n >= 10 {
        push_digits(out, n / 10);
    }
    let d: u8 = (n % 10) as u8;
    let c: char = (48u8 + d) as char;
    assert(c == digit_char((n % 10) as int));
    out.push(c);
    assert(final(out)@ =~= old(out)@ + nat_digits(n as nat));
}

/// Writes a user id as a token subject: its decimal digits, with a leading
/// `-` for a negative id.
pub fn format_subject(id: i32) -> (s: String)
    ensures
        s@ == subject_of(id as int),
{
    let mut out = String::new();
    if id < 0 {
        out.push('-');
        let m: u32 = (-(id as i64)) as u32;
        push_digits(&mut out, m);
        assert(out@ =~= subject_of(id as int));
    } else {
        push_digits(&mut out, id as u32);
        assert(out@ =~= subject_of(id as int));
    }
    out
}

} // verus!
