//! Text that the service reads and writes: decimal integers and quoted words.
use vstd::prelude::*;
use vstd::string::*;

verus! {

/// The character that stands for the digit `d`.
pub open spec fn digit_char(d: nat) -> char
    recommends
        d < 10,
{
    (48 + d) as char
}

/// Whether `c` is one of `0` to `9`.
pub open spec fn is_digit(c: char) -> bool {
    48 <= c as int <= 57
}

/// The decimal numeral of `n`, without leading zeros.
pub open spec fn decimal(n: nat) -> Seq<char>
    decreases n,
{
    if n < 10 {
        seq![digit_char(n)]
    } else {
        decimal(n / 10).push(digit_char(n % 10))
    }
}

/// The decimal numeral of an integer, with a minus sign in front of a negative one.
pub open spec fn integer_text(n: int) -> Seq<char> {
    if n < 0 {
        seq!['-'] + decimal((-n) as nat)
    } else {
        decimal(n as nat)
    }
}

/// The number that a run of digits stands for, most significant digit first.
pub open spec fn digits_value(s: Seq<char>) -> nat
    decreases s.len(),
{
    if s.len() == 0 {
        0
    } else {
        digits_value(s.drop_last()) * 10 + (s.last() as nat - 48) as nat
    }
}

/// Whether `s` is one digit or more, and nothing else.
pub open spec fn is_numeral(s: Seq<char>) -> bool {
    s.len() > 0 && forall|i: int| 0 <= i < s.len() ==> is_digit(#[trigger] s[i])
}

/// What is left of `s` behind one leading sign, if there is one.
pub open spec fn unsigned_part(s: Seq<char>) -> Seq<char> {
    if s.len() > 0 && (s[0] == '-' || s[0] == '+') {
        s.subrange(1, s.len() as int)
    } else {
        s
    }
}

/// The integer that `s` spells: an optional sign, then digits. `None` for any other text.
pub open spec fn integer_value(s: Seq<char>) -> Option<int> {
    if !is_numeral(unsigned_part(s)) {
        None
    } else if s[0] == '-' {
        Some(-(digits_value(unsigned_part(s)) as int))
    } else {
        Some(digits_value(unsigned_part(s)) as int)
    }
}

/// The integer that `s` spells, where it is one that an `i64` can hold.
pub open spec fn i64_value(s: Seq<char>) -> Option<i64> {
    match integer_value(s) {
        Some(n) => if i64::MIN <= n <= i64::MAX {
            Some(n as i64)
        } else {
            None
        },
        None => None,
    }
}

/// The characters of a string, one by one.
pub fn chars_of(s: &str) -> (v: Vec<char>)
    ensures
        v@ == s@,
{
    let mut v: Vec<char> = Vec::new();
    for c in it: s.chars()
        invariant
            it.seq() == s@,
            v@ == s@.take(it.index() as int),
    {
        v.push(c);
        assert(v@ =~= s@.take(it.index() as int + 1));
    }
    assert(s@.take(s@.len() as int) =~= s@);
    v
}

/// The one-character string of a digit.
fn digit_str(d: u64) -> (s: &'static str)
    requires
        d < 10,
    ensures
        s@ == seq![digit_char(d as nat)],
{
    proof {
        reveal_strlit("0");
        reveal_strlit("1");
        reveal_strlit("2");
        reveal_strlit("3");
        reveal_strlit("4");
        reveal_strlit("5");
        reveal_strlit("6");
        reveal_strlit("7");
        reveal_strlit("8");
        reveal_strlit("9");
    }
    let s = if d == 0 {
        "0"
    } else if d == 1 {
        "1"
    } else if d == 2 {
        "2"
    } else if d == 3 {
        "3"
    } else if d == 4 {
        "4"
    } else if d == 5 {
        "5"
    } else if d == 6 {
        "6"
    } else if d == 7 {
        "7"
    } else if d == 8 {
        "8"
    } else {
        "9"
    };
    assert(s@ =~= seq![digit_char(d as nat)]);
    s
}

/// Writes an unsigned integer in decimal.
pub fn decimal_text(n: u64) -> (s: String)
    ensures
        s@ == decimal(n as nat),
    decreases n,
{
    if n < 10 {
        digit_str(n).to_owned()
    } else {
        let mut s = decimal_text(n / 10);
        s.append(digit_str(n % 10));
        assert(s@ =~= decimal(n as nat));
        s
    }
}

/// Writes an integer in decimal.
pub fn signed_text(n: i64) -> (s: String)
    ensures
        s@ == integer_text(n as int),
{
    if n < 0 {
        let magnitude: u64 = (-(n + 1)) as u64 + 1;
        proof {
            reveal_strlit("-");
        }
        let mut s = "-".to_owned();
        s.append(decimal_text(magnitude).as_str());
        assert(s@ =~= integer_text(n as int));
        s
    } else {
        decimal_text(n as u64)
    }
}

/// Longer runs of digits stand for numbers that are no smaller.
proof fn lemma_digits_grow(s: Seq<char>, k: int)
    requires
        0 <= k <= s.len(),
        forall|i: int| 0 <= i < s.len() ==> is_digit(#[trigger] s[i]),
    ensures
        digits_value(s.take(k)) <= digits_value(s),
    decreases s.len(),
{
    if k < s.len() {
        lemma_digits_grow(s.drop_last(), k);
        assert(s.drop_last().take(k) =~= s.take(k));
    } else {
        assert(s.take(k) =~= s);
    }
}

/// Reads a run of digits, `None` if it is no numeral or stands for more than `limit`.
fn parse_digits(v: &Vec<char>, from: usize, limit: u64) -> (r: Option<u64>)
    requires
        from <= v@.len(),
    ensures
        r == (if is_numeral(v@.skip(from as int)) && digits_value(v@.skip(from as int)) <= limit {
            Some(digits_value(v@.skip(from as int)) as u64)
        } else {
            None
        }),
{
    let ghost s = v@.skip(from as int);
    if from == v.len() {
        return None;
    }
    let mut n: u64 = 0;
    let mut i: usize = from;
    while i < v.len()
        invariant
            from <= i <= v@.len(),
            s == v@.skip(from as int),
            n == digits_value(s.take(i - from)),
            n <= limit,
            forall|j: int| 0 <= j < i - from ==> is_digit(#[trigger] s[j]),
        decreases v@.len() - i,
    {
        let c = v[i];
        assert(s[i - from] == c);
        if c < '0' || c > '9' {
            return None;
        }
        let d: u64 = (c as u32 - 48) as u64;
        proof {
            assert(s.take(i - from + 1).drop_last() =~= s.take(i - from));
            assert(digits_value(s.take(i - from + 1)) == n * 10 + d);
            if n * 10 + d > limit && is_numeral(s) {
                lemma_digits_grow(s, i - from + 1);
            }
        }
        if n > limit / 10 {
            return None;
        }
        if d > limit - n * 10 {
            return None;
        }
        n = n * 10 + d;
        i = i + 1;
    }
    assert(s.take(s.len() as int) =~= s);
    Some(n)
}

/// Reads a decimal integer: an optional sign, then digits, the whole within an `i64`.
pub fn parse_i64(text: &str) -> (r: Option<i64>)
    ensures
        r == i64_value(text@),
{
    let v = chars_of(text);
    let ghost s = text@;
    if v.len() == 0 {
        return None;
    }
    if v[0] == '-' {
        assert(v@.skip(1) =~= unsigned_part(s));
        match parse_digits(&v, 1, 0x8000_0000_0000_0000) {
            Some(n) => {
                if n == 0x8000_0000_0000_0000 {
                    Some(i64::MIN)
                } else {
                    Some(-(n as i64))
                }
            },
            None => None,
        }
    } else if v[0] == '+' {
        assert(v@.skip(1) =~= unsigned_part(s));
        match parse_digits(&v, 1, 0x7fff_ffff_ffff_ffff) {
            Some(n) => Some(n as i64),
            None => None,
        }
    } else {
        assert(v@.skip(0) =~= unsigned_part(s));
        match parse_digits(&v, 0, 0x7fff_ffff_ffff_ffff) {
            Some(n) => Some(n as i64),
            None => None,
        }
    }
}

/// `s` without the characters `c` that it begins with.
pub open spec fn trim_front(s: Seq<char>, c: char) -> Seq<char>
    decreases s.len(),
{
    if s.len() > 0 && s[0] == c {
        trim_front(s.drop_first(), c)
    } else {
        s
    }
}

/// `s` without the characters `c` that it ends with.
pub open spec fn trim_back(s: Seq<char>, c: char) -> Seq<char>
    decreases s.len(),
{
    if s.len() > 0 && s.last() == c {
        trim_back(s.drop_last(), c)
    } else {
        s
    }
}

/// `s` without the quotation marks that it begins and ends with.
pub open spec fn unquoted(s: Seq<char>) -> Seq<char> {
    trim_back(trim_front(s, '"'), '"')
}

/// Takes off the quotation marks that a string begins and ends with.
pub fn trim_quotes(s: &str) -> (r: String)
    ensures
        r@ == unquoted(s@),
{
    let v = chars_of(s);
    let mut lo: usize = 0;
    assert(s@.skip(0) =~= s@);
    while lo < v.len() && v[lo] == '"'
        invariant
            lo <= v@.len(),
            v@ == s@,
            trim_front(s@, '"') == trim_front(s@.skip(lo as int), '"'),
        decreases v@.len() - lo,
    {
        assert(s@.skip(lo as int).drop_first() =~= s@.skip(lo + 1));
        lo = lo + 1;
    }
    let ghost front = s@.skip(lo as int);
    assert(trim_front(s@, '"') == front);
    let mut hi: usize = v.len();
    assert(front =~= s@.subrange(lo as int, hi as int));
    while hi > lo && v[hi - 1] == '"'
        invariant
            lo <= hi <= v@.len(),
            v@ == s@,
            trim_back(front, '"') == trim_back(s@.subrange(lo as int, hi as int), '"'),
        decreases hi,
    {
        assert(s@.subrange(lo as int, hi as int).drop_last() =~= s@.subrange(lo as int, hi - 1));
        hi = hi - 1;
    }
    s.substring_char(lo, hi).to_owned()
}

/// The digits of a numeral are digits, and they stand for the number that was written.
pub proof fn law_decimal_reads_back(n: nat)
    ensures
        is_numeral(decimal(n)),
        digits_value(decimal(n)) == n,
    decreases n,
{
    if n < 10 {
        reveal_with_fuel(digits_value, 2);
    } else {
        law_decimal_reads_back(n / 10);
        assert(decimal(n).drop_last() =~= decimal(n / 10));
    }
}

/// An integer reads back from its own text.
pub proof fn law_integer_reads_back(n: i64)
    ensures
        i64_value(integer_text(n as int)) == Some(n),
{
    if n < 0 {
        law_decimal_reads_back((-n) as nat);
        assert(unsigned_part(integer_text(n as int)) =~= decimal((-n) as nat));
    } else {
        law_decimal_reads_back(n as nat);
        let s = decimal(n as nat);
        assert(is_digit(s[0]));
    }
}

/// Quotation marks are taken off a word that has one pair of them and no other at its ends.
pub proof fn law_unquoted_takes_off_one_pair(s: Seq<char>)
    requires
        s.len() > 0 ==> s[0] != '"' && s.last() != '"',
    ensures
        unquoted(seq!['"'] + s + seq!['"']) == s,
        unquoted(s) == s,
{
    let q = seq!['"'] + s + seq!['"'];
    let f = s + seq!['"'];
    assert(q.drop_first() =~= f);
    assert(trim_front(q, '"') == trim_front(f, '"'));
    assert(trim_front(s, '"') == s);
    assert(trim_back(s, '"') == s);
    if s.len() == 0 {
        assert(f.drop_first() =~= s);
        assert(trim_front(f, '"') == s);
    } else {
        assert(f[0] == s[0]);
        assert(trim_front(f, '"') == f);
        assert(f.drop_last() =~= s);
        assert(trim_back(f, '"') == trim_back(s, '"'));
    }
}

/// The numeral of a number below ten is one character, and that of a larger one is the numeral of
/// its tens with the character of its ones behind: the characters `0` to `9` stand for the digits
/// in their order.
pub proof fn law_numeral_grows_by_its_last_digit(n: nat, d: nat)
    requires
        d < 10,
    ensures
        decimal(d).len() == 1,
        decimal(d)[0] as int == '0' as int + d,
        n > 0 ==> {
            &&& decimal(10 * n + d).len() == decimal(n).len() + 1
            &&& decimal(10 * n + d).drop_last() == decimal(n)
            &&& decimal(10 * n + d).last() as int == '0' as int + d
        },
{
    if n > 0 {
        let m = 10 * n + d;
        assert(m / 10 == n && m % 10 == d);
        assert(decimal(m) == decimal(n).push(digit_char(d)));
        assert(decimal(m).drop_last() =~= decimal(n));
    }
}

/// An integer that is not negative is written as its numeral, a negative one as a minus sign with
/// the numeral of its magnitude behind.
pub proof fn law_sign_stands_in_front(n: nat)
    ensures
        integer_text(n as int) == decimal(n),
        n > 0 ==> {
            &&& integer_text(-(n as int)).len() == decimal(n).len() + 1
            &&& integer_text(-(n as int))[0] == '-'
            &&& integer_text(-(n as int)).drop_first() == decimal(n)
        },
{
    if n > 0 {
        assert(integer_text(-(n as int)).drop_first() =~= decimal(n));
    }
}

/// The digits are the characters `0` to `9`, and a numeral is one of them or more and nothing else.
pub proof fn law_numerals_are_made_of_digits(s: Seq<char>, c: char)
    ensures
        is_digit(c) <==> '0' <= c <= '9',
        is_numeral(s) <==> s.len() > 0 && forall|i: int|
            0 <= i < s.len() ==> '0' <= #[trigger] s[i] <= '9',
{
    if is_numeral(s) {
        assert forall|i: int| 0 <= i < s.len() implies '0' <= #[trigger] s[i] <= '9' by {
            assert(is_digit(s[i]));
        }
    }
}

/// Each digit behind a run of digits makes the number ten times as large and adds itself.
pub proof fn law_digit_behind_counts_once(s: Seq<char>, c: char)
    requires
        '0' <= c <= '9',
    ensures
        digits_value(Seq::<char>::empty()) == 0,
        digits_value(s.push(c)) == 10 * digits_value(s) + (c as int - '0' as int),
{
    assert(s.push(c).drop_last() =~= s);
}

/// A numeral spells its number, and so it does behind a plus sign; behind a minus sign it spells
/// the negative of it.
pub proof fn law_numeral_spells_its_number(s: Seq<char>)
    requires
        s.len() > 0,
        forall|i: int| 0 <= i < s.len() ==> '0' <= #[trigger] s[i] <= '9',
    ensures
        integer_value(s) == Some(digits_value(s) as int),
        integer_value(seq!['+'] + s) == Some(digits_value(s) as int),
        integer_value(seq!['-'] + s) == Some(-(digits_value(s) as int)),
{
    assert('0' <= s[0] <= '9');
    assert forall|i: int| 0 <= i < s.len() implies is_digit(#[trigger] s[i]) by {}
    assert(unsigned_part(seq!['+'] + s) =~= s);
    assert(unsigned_part(seq!['-'] + s) =~= s);
}

/// A text spells no integer where it is empty, is a sign alone, or has a character that is no digit,
/// except for one sign in front.
pub proof fn law_other_text_spells_nothing(s: Seq<char>)
    requires
        s.len() == 0 || (s.len() == 1 && !('0' <= s[0] <= '9')) || (exists|i: int|
            0 < i < s.len() && !('0' <= #[trigger] s[i] <= '9')) || (s[0] != '-' && s[0] != '+'
            && !('0' <= s[0] <= '9')),
    ensures
        integer_value(s) is None,
{
    let u = unsigned_part(s);
    if is_numeral(u) {
        assert(is_digit(u[0]));
        if exists|i: int| 0 < i < s.len() && !('0' <= #[trigger] s[i] <= '9') {
            let i = choose|i: int| 0 < i < s.len() && !('0' <= #[trigger] s[i] <= '9');
            if u.len() == s.len() {
                assert(is_digit(u[i]));
            } else {
                assert(is_digit(u[i - 1]));
            }
        }
    }
}

/// A text reads as the integer that it spells, exactly where an `i64` can hold it.
pub proof fn law_reads_what_fits(s: Seq<char>)
    ensures
        match integer_value(s) {
            Some(n) => if -0x8000_0000_0000_0000 <= n <= 0x7fff_ffff_ffff_ffff {
                i64_value(s) is Some && i64_value(s)->0 == n
            } else {
                i64_value(s) is None
            },
            None => i64_value(s) is None,
        },
{
}

/// What is left without the quotation marks at the ends is the middle of the text: only quotation
/// marks are taken off, and none is left at either end.
pub proof fn law_unquoted_is_the_middle(s: Seq<char>)
    ensures
        exists|lo: int, hi: int|
            0 <= lo <= hi <= s.len() && unquoted(s) == #[trigger] s.subrange(lo, hi) && (forall|
                i: int,
            |
                0 <= i < lo || hi <= i < s.len() ==> #[trigger] s[i] == '"'),
        unquoted(s).len() > 0 ==> unquoted(s)[0] != '"' && unquoted(s).last() != '"',
{
    let front = trim_front(s, '"');
    let lo = lemma_trim_front_is_a_suffix(s, '"');
    let hi = lemma_trim_back_is_a_prefix(front, '"');
    assert(unquoted(s) =~= s.subrange(lo, lo + hi));
    assert forall|i: int| 0 <= i < lo || lo + hi <= i < s.len() implies #[trigger] s[i] == '"' by {
        if i >= lo {
            assert(front[i - lo] == s[i]);
        }
    }
}

/// What is left behind the characters that are taken off the front.
proof fn lemma_trim_front_is_a_suffix(s: Seq<char>, c: char) -> (lo: int)
    ensures
        0 <= lo <= s.len(),
        trim_front(s, c) == s.skip(lo),
        forall|i: int| 0 <= i < lo ==> #[trigger] s[i] == c,
        trim_front(s, c).len() > 0 ==> trim_front(s, c)[0] != c,
    decreases s.len(),
{
    if s.len() > 0 && s[0] == c {
        let rest = s.drop_first();
        let lo = lemma_trim_front_is_a_suffix(rest, c);
        assert(rest.skip(lo) =~= s.skip(lo + 1));
        assert forall|i: int| 0 <= i < lo + 1 implies #[trigger] s[i] == c by {
            if i > 0 {
                assert(rest[i - 1] == s[i]);
            }
        }
        lo + 1
    } else {
        assert(s.skip(0) =~= s);
        0
    }
}

/// What is left before the characters that are taken off the back.
proof fn lemma_trim_back_is_a_prefix(s: Seq<char>, c: char) -> (hi: int)
    ensures
        0 <= hi <= s.len(),
        trim_back(s, c) == s.take(hi),
        forall|i: int| hi <= i < s.len() ==> #[trigger] s[i] == c,
        trim_back(s, c).len() > 0 ==> trim_back(s, c).last() != c,
    decreases s.len(),
{
    if s.len() > 0 && s.last() == c {
        let rest = s.drop_last();
        let hi = lemma_trim_back_is_a_prefix(rest, c);
        assert(rest.take(hi) =~= s.take(hi));
        assert forall|i: int| hi <= i < s.len() implies #[trigger] s[i] == c by {
            if i < rest.len() {
                assert(rest[i] == s[i]);
            }
        }
        hi
    } else {
        assert(s.take(s.len() as int) =~= s);
        s.len() as int
    }
}

} // verus!
