//! Character-sequence utilities shared by the library: equality, prefix
//! search, token replacement, decimal rendering and parsing, and the escaping
//! used by the persisted configuration format.

use vstd::prelude::*;

verus! {

/// Relies on `str::chars` of std: the iterator yields exactly the characters
/// of the string, in order.
#[verifier::external_body]
pub(crate) fn string_to_chars(s: &str) -> (r: Vec<char>)
    ensures
        r@ == s@,
{
    s.chars().collect()
}

/// Relies on `String: FromIterator<char>` of std: collecting characters
/// builds the string of exactly those characters, in order.
#[verifier::external_body]
pub(crate) fn chars_to_string(v: &Vec<char>) -> (r: String)
    ensures
        r@ == v@,
{
    v.iter().collect()
}

/// Character-for-character equality of two vectors.
pub fn chars_eq(a: &Vec<char>, b: &Vec<char>) -> (r: bool)
    ensures
        r == (a@ == b@),
{
    if a.len() != b.len() {
        assert(a@ != b@);
        return false;
    }
    let mut i: usize = 0;
    while i < a.len()
        invariant
            0 <= i <= a.len(),
            a@.len() == b@.len(),
            forall|j: int| 0 <= j < i ==> a@[j] == b@[j],
        decreases a.len() - i,
    {
        if a[i] != b[i] {
            return false;
        }
        i += 1;
    }
    assert(a@ =~= b@);
    true
}

/// Whether `needle` occurs in `hay` starting at position `at`.
pub open spec fn spec_matches_at(hay: Seq<char>, at: int, needle: Seq<char>) -> bool {
    &&& 0 <= at
    &&& at + needle.len() <= hay.len()
    &&& hay.subrange(at, at + needle.len()) == needle
}

/// Tests whether `needle` occurs in `hay` at position `at`.
pub fn matches_at(hay: &Vec<char>, at: usize, needle: &Vec<char>) -> (r: bool)
    ensures
        r == spec_matches_at(hay@, at as int, needle@),
{
    if at > hay.len() || needle.len() > hay.len() - at {
        return false;
    }
    let mut i: usize = 0;
    while i < needle.len()
        invariant
            0 <= i <= needle.len(),
            at + needle.len() <= hay.len(),
            forall|j: int| 0 <= j < i ==> hay@[at + j] == needle@[j],
        decreases needle.len() - i,
    {
        if hay[at + i] != needle[i] {
            assert(hay@.subrange(at as int, at + needle@.len())[i as int] != needle@[i as int]);
            return false;
        }
        i += 1;
    }
    assert(hay@.subrange(at as int, at + needle@.len()) =~= needle@);
    true
}

/// `hay` with every non-overlapping occurrence of `needle` replaced by
/// `repl`, scanning left to right. An empty `needle` leaves `hay` unchanged.
pub open spec fn spec_replace_all(hay: Seq<char>, needle: Seq<char>, repl: Seq<char>) -> Seq<char>
    decreases hay.len(),
{
    if needle.len() == 0 || hay.len() == 0 {
        hay
    } else if spec_matches_at(hay, 0, needle) {
        repl + spec_replace_all(hay.skip(needle.len() as int), needle, repl)
    } else {
        seq![hay[0]] + spec_replace_all(hay.skip(1), needle, repl)
    }
}

/// Replaces every non-overlapping occurrence of `needle` in `hay` by `repl`,
/// scanning left to right.
pub fn replace_all(hay: &Vec<char>, needle: &Vec<char>, repl: &Vec<char>) -> (r: Vec<char>)
    ensures
        r@ == spec_replace_all(hay@, needle@, repl@),
{
    let mut out: Vec<char> = Vec::new();
    if needle.len() == 0 {
        let mut i: usize = 0;
        while i < hay.len()
            invariant
                0 <= i <= hay.len(),
                out@ =~= hay@.take(i as int),
            decreases hay.len() - i,
        {
            out.push(hay[i]);
            i += 1;
        }
        assert(out@ =~= hay@);
        return out;
    }
    let mut i: usize = 0;
    proof {
        assert(hay@.skip(0) =~= hay@);
        assert(out@ + spec_replace_all(hay@, needle@, repl@) =~= spec_replace_all(
            hay@,
            needle@,
            repl@,
        ));
    }
    while i < hay.len()
        invariant
            0 <= i <= hay.len(),
            needle@.len() >= 1,
            spec_replace_all(hay@, needle@, repl@) == out@ + spec_replace_all(
                hay@.skip(i as int),
                needle@,
                repl@,
            ),
        decreases hay.len() - i,
    {
        let ghost prev = out@;
        if matches_at(hay, i, needle) {
            let mut k: usize = 0;
            while k < repl.len()
                invariant
                    0 <= k <= repl.len(),
                    out@ =~= prev + repl@.take(k as int),
                decreases repl.len() - k,
            {
                out.push(repl[k]);
                k += 1;
            }
            assert(out@ =~= prev + repl@);
            proof {
                assert(spec_matches_at(hay@.skip(i as int), 0, needle@)) by {
                    assert(hay@.skip(i as int).subrange(0, needle@.len() as int) =~= hay@.subrange(
                        i as int,
                        i + needle@.len(),
                    ));
                }
                assert(hay@.skip(i as int).skip(needle@.len() as int) =~= hay@.skip(
                    i + needle@.len(),
                ));
            }
            i += needle.len();
        } else {
            out.push(hay[i]);
            proof {
                if i + needle@.len() <= hay@.len() {
                    assert(hay@.skip(i as int).subrange(0, needle@.len() as int) =~= hay@.subrange(
                        i as int,
                        i + needle@.len(),
                    ));
                }
                assert(!spec_matches_at(hay@.skip(i as int), 0, needle@));
                assert(hay@.skip(i as int).skip(1) =~= hay@.skip(i + 1));
                assert(seq![hay@[i as int]] =~= hay@.skip(i as int).take(1));
                assert(prev + seq![hay@[i as int]] =~= out@);
            }
            i += 1;
        }
    }
    assert(hay@.skip(i as int) =~= Seq::<char>::empty());
    assert(spec_replace_all(Seq::<char>::empty(), needle@, repl@) =~= Seq::<char>::empty());
    assert(out@ + Seq::<char>::empty() =~= out@);
    out
}

/// The character for a single decimal digit value.
pub open spec fn spec_digit_char(d: int) -> char {
    if d == 0 {
        '0'
    } else if d == 1 {
        '1'
    } else if d == 2 {
        '2'
    } else if d == 3 {
        '3'
    } else if d == 4 {
        '4'
    } else if d == 5 {
        '5'
    } else if d == 6 {
        '6'
    } else if d == 7 {
        '7'
    } else if d == 8 {
        '8'
    } else {
        '9'
    }
}

/// The value of a decimal digit character, or -1 for any other character.
pub open spec fn spec_digit_val(c: char) -> int {
    if c == '0' {
        0
    } else if c == '1' {
        1
    } else if c == '2' {
        2
    } else if c == '3' {
        3
    } else if c == '4' {
        4
    } else if c == '5' {
        5
    } else if c == '6' {
        6
    } else if c == '7' {
        7
    } else if c == '8' {
        8
    } else if c == '9' {
        9
    } else {
        -1
    }
}

/// Whether a character is a decimal digit.
pub open spec fn spec_is_digit(c: char) -> bool {
    spec_digit_val(c) >= 0
}

/// The decimal rendering of a natural number, most significant digit first.
pub open spec fn spec_dec_digits(n: nat) -> Seq<char>
    decreases n,
{
    if n < 10 {
        seq![spec_digit_char(n as int)]
    } else {
        spec_dec_digits(n / 10) + seq![spec_digit_char((n % 10) as int)]
    }
}

/// The numeric value of a character sequence read as decimal digits,
/// ignoring whether the characters are digits at all.
pub open spec fn spec_digits_val(s: Seq<char>) -> int
    decreases s.len(),
{
    if s.len() == 0 {
        0
    } else {
        spec_digits_val(s.drop_last()) * 10 + spec_digit_val(s.last())
    }
}

/// Whether every character of the sequence is a decimal digit.
pub open spec fn spec_all_digits(s: Seq<char>) -> bool {
    forall|i: int| 0 <= i < s.len() ==> spec_is_digit(s[i])
}

/// The number a character sequence denotes in decimal: defined only for
/// non-empty all-digit sequences of at most 19 characters (every positive
/// value of a 64-bit signed count has such a rendering).
pub open spec fn spec_parse_num(s: Seq<char>) -> Option<int> {
    if 1 <= s.len() <= 19 && spec_all_digits(s) {
        Some(spec_digits_val(s))
    } else {
        None
    }
}

/// Powers of ten.
pub open spec fn spec_pow10(k: nat) -> int
    decreases k,
{
    if k == 0 {
        1
    } else {
        10 * spec_pow10((k - 1) as nat)
    }
}

/// Powers of ten are positive.
pub proof fn lemma_pow10_positive(k: nat)
    ensures
        spec_pow10(k) >= 1,
    decreases k,
{
    if k > 0 {
        lemma_pow10_positive((k - 1) as nat);
    }
}

/// Powers of ten grow with the exponent.
pub proof fn lemma_pow10_increases(a: nat, b: nat)
    requires
        a <= b,
    ensures
        spec_pow10(a) <= spec_pow10(b),
    decreases b,
{
    if a < b {
        lemma_pow10_increases(a, (b - 1) as nat);
        lemma_pow10_positive((b - 1) as nat);
    }
}

/// The nineteenth power of ten, as a literal.
pub proof fn lemma_pow10_19()
    ensures
        spec_pow10(19) == 10000000000000000000,
{
    reveal_with_fuel(spec_pow10, 20);
}

/// A decimal rendering is made of digits only.
pub proof fn lemma_dec_digits_all_digits(n: nat)
    ensures
        spec_all_digits(spec_dec_digits(n)),
        spec_dec_digits(n).len() >= 1,
    decreases n,
{
    if n < 10 {
    } else {
        lemma_dec_digits_all_digits(n / 10);
        assert forall|i: int| 0 <= i < spec_dec_digits(n).len() implies spec_is_digit(
            spec_dec_digits(n)[i],
        ) by {
            if i < spec_dec_digits(n / 10).len() {
                assert(spec_dec_digits(n)[i] == spec_dec_digits(n / 10)[i]);
            }
        }
    }
}

/// Reading back a decimal rendering yields the rendered number.
pub proof fn lemma_digits_val_of_dec(n: nat)
    ensures
        spec_digits_val(spec_dec_digits(n)) == n,
    decreases n,
{
    if n < 10 {
        let s = spec_dec_digits(n);
        assert(s == seq![spec_digit_char(n as int)]);
        assert(s.drop_last() =~= Seq::<char>::empty());
        assert(s.last() == spec_digit_char(n as int));
        assert(spec_digits_val(s) == spec_digits_val(s.drop_last()) * 10 + spec_digit_val(s.last()));
        assert(spec_digits_val(Seq::<char>::empty()) == 0);
        assert(spec_digit_val(spec_digit_char(n as int)) == n);
    } else {
        lemma_digits_val_of_dec(n / 10);
        let s = spec_dec_digits(n);
        assert(s == spec_dec_digits(n / 10) + seq![spec_digit_char((n % 10) as int)]);
        assert(s.drop_last() =~= spec_dec_digits(n / 10));
        assert(s.last() == spec_digit_char((n % 10) as int));
        assert(spec_digit_val(spec_digit_char((n % 10) as int)) == n % 10);
        assert(spec_digits_val(s) == spec_digits_val(s.drop_last()) * 10 + spec_digit_val(s.last()));
        vstd::arithmetic::div_mod::lemma_fundamental_div_mod(n as int, 10);
        assert(n as int == 10 * (n as int / 10) + n as int % 10);
    }
}

/// A rendering of `n` has at most `k` digits whenever `n < 10^k`.
pub proof fn lemma_dec_digits_len(n: nat, k: nat)
    requires
        k >= 1,
        n < spec_pow10(k),
    ensures
        spec_dec_digits(n).len() <= k,
    decreases n,
{
    if n < 10 {
    } else {
        assert(k >= 2) by {
            if k == 1 {
                assert(spec_pow10(1) == 10) by {
                    reveal_with_fuel(spec_pow10, 2);
                }
            }
        }
        let p = spec_pow10((k - 1) as nat);
        assert(spec_pow10(k) == 10 * p);
        assert(n as int / 10 < p) by {
            vstd::arithmetic::div_mod::lemma_fundamental_div_mod(
                n as int,
                10,
            );
            if n as int / 10 >= p {
                lemma_pow10_positive((k - 1) as nat);
                assert(10 * (n as int / 10) >= 10 * p) by (nonlinear_arith)
                    requires
                        n as int / 10 >= p,
                        p > 0,
                ;
            }
        }
        lemma_dec_digits_len(n / 10, (k - 1) as nat);
    }
}

/// The value of an all-digit sequence is non-negative and below `10^len`.
pub proof fn lemma_digits_val_bound(s: Seq<char>)
    requires
        spec_all_digits(s),
    ensures
        0 <= spec_digits_val(s) < spec_pow10(s.len()),
    decreases s.len(),
{
    if s.len() == 0 {
    } else {
        assert(spec_all_digits(s.drop_last()));
        lemma_digits_val_bound(s.drop_last());
        let p = spec_pow10((s.len() - 1) as nat);
        assert(spec_pow10(s.len()) == 10 * p);
        assert(spec_digits_val(s.drop_last()) * 10 <= (p - 1) * 10) by (nonlinear_arith)
            requires
                spec_digits_val(s.drop_last()) <= p - 1,
        ;
    }
}

/// Parsing the decimal rendering of a number below `10^19` gives the number
/// back.
pub proof fn lemma_parse_of_dec(n: nat)
    requires
        n < 10000000000000000000,
    ensures
        spec_parse_num(spec_dec_digits(n)) == Some(n as int),
{
    lemma_dec_digits_all_digits(n);
    lemma_digits_val_of_dec(n);
    lemma_pow10_19();
    lemma_dec_digits_len(n, 19);
}

/// The digit character for a value below ten.
fn digit_char(d: u64) -> (r: char)
    requires
        d < 10,
    ensures
        r == spec_digit_char(d as int),
{
    match d {
        0 => '0',
        1 => '1',
        2 => '2',
        3 => '3',
        4 => '4',
        5 => '5',
        6 => '6',
        7 => '7',
        8 => '8',
        _ => '9',
    }
}

/// The value of a digit character, or `None` for any other character.
fn digit_val(c: char) -> (r: Option<u64>)
    ensures
        match r {
            Some(d) => spec_digit_val(c) == d as int && d < 10,
            None => !spec_is_digit(c),
        },
{
    match c {
        '0' => Some(0),
        '1' => Some(1),
        '2' => Some(2),
        '3' => Some(3),
        '4' => Some(4),
        '5' => Some(5),
        '6' => Some(6),
        '7' => Some(7),
        '8' => Some(8),
        '9' => Some(9),
        _ => None,
    }
}

/// Renders a number in decimal, most significant digit first.
pub fn render_u64(n: u64) -> (r: Vec<char>)
    ensures
        r@ == spec_dec_digits(n as nat),
    decreases n,
{
    if n < 10 {
        let mut v: Vec<char> = Vec::new();
        v.push(digit_char(n));
        assert(v@ =~= spec_dec_digits(n as nat));
        v
    } else {
        let mut v = render_u64(n / 10);
        v.push(digit_char(n % 10));
        assert(v@ =~= spec_dec_digits(n as nat));
        v
    }
}

/// Parses a non-empty all-digit sequence of at most 19 characters into its
/// value; returns `None` for any other input.
pub fn parse_num(s: &Vec<char>) -> (r: Option<u64>)
    ensures
        match r {
            Some(v) => spec_parse_num(s@) == Some(v as int),
            None => spec_parse_num(s@) is None || (spec_parse_num(s@) matches Some(v) && v
                > u64::MAX),
        },
{
    if s.len() == 0 || s.len() > 19 {
        return None;
    }
    let mut acc: u128 = 0;
    let mut i: usize = 0;
    proof {
        assert(s@.take(0) =~= Seq::<char>::empty());
    }
    while i < s.len()
        invariant
            0 <= i <= s.len(),
            1 <= s@.len() <= 19,
            spec_all_digits(s@.take(i as int)),
            acc == spec_digits_val(s@.take(i as int)),
            0 <= acc < spec_pow10(i as nat),
            acc <= 10000000000000000000,
        decreases s.len() - i,
    {
        match digit_val(s[i]) {
            None => {
                assert(!spec_is_digit(s@[i as int]));
                return None;
            },
            Some(d) => {
                proof {
                    lemma_pow10_19();
                    lemma_pow10_increases(i as nat, 19);
                    assert(acc < 10000000000000000000);
                    assert(acc * 10 <= (10000000000000000000 - 1) * 10) by (nonlinear_arith)
                        requires
                            acc <= 10000000000000000000 - 1,
                    ;
                }
                let next: u128 = acc * 10 + (d as u128);
                proof {
                    let t1 = s@.take(i as int);
                    let t2 = s@.take(i + 1);
                    assert(t2.drop_last() =~= t1);
                    assert(t2.last() == s@[i as int]);
                    assert(spec_all_digits(t2));
                    lemma_digits_val_bound(t2);
                    lemma_pow10_increases((i + 1) as nat, 19);
                    lemma_pow10_19();
                }
                acc = next;
                i += 1;
            },
        }
    }
    assert(s@.take(i as int) =~= s@);
    if acc > u64::MAX as u128 {
        return None;
    }
    Some(acc as u64)
}

/// The parts of a character sequence, split on a separator: splitting the
/// empty sequence gives one empty part, and every separator ends a part, so
/// a trailing separator is followed by one empty part.
pub open spec fn spec_split(s: Seq<char>, sep: char) -> Seq<Seq<char>>
    decreases s.len(),
{
    if s.len() == 0 {
        seq![Seq::<char>::empty()]
    } else if s[0] == sep {
        seq![Seq::<char>::empty()] + spec_split(s.skip(1), sep)
    } else {
        let rest = spec_split(s.skip(1), sep);
        seq![seq![s[0]] + rest[0]] + rest.skip(1)
    }
}

/// The lines of a character sequence: its parts split on `'\n'`.
pub open spec fn spec_lines(s: Seq<char>) -> Seq<Seq<char>> {
    spec_split(s, '\n')
}

/// Splitting always yields at least one part.
pub proof fn lemma_split_len(s: Seq<char>, sep: char)
    ensures
        spec_split(s, sep).len() >= 1,
    decreases s.len(),
{
    if s.len() == 0 {
    } else if s[0] == sep {
        lemma_split_len(s.skip(1), sep);
    } else {
        lemma_split_len(s.skip(1), sep);
    }
}

/// A part without separators, a separator, and a remainder split into that
/// part followed by the parts of the remainder.
pub proof fn lemma_split_of_part(l: Seq<char>, rest: Seq<char>, sep: char)
    requires
        forall|i: int| 0 <= i < l.len() ==> l[i] != sep,
    ensures
        spec_split(l + seq![sep] + rest, sep) == seq![l] + spec_split(rest, sep),
    decreases l.len(),
{
    let s = l + seq![sep] + rest;
    if l.len() == 0 {
        assert(s[0] == sep);
        assert(s.skip(1) =~= rest);
        assert(l =~= Seq::<char>::empty());
        assert(seq![Seq::<char>::empty()] + spec_split(rest, sep) =~= seq![l] + spec_split(
            rest,
            sep,
        ));
    } else {
        assert(s[0] == l[0]);
        assert(s[0] != sep);
        lemma_split_of_part(l.skip(1), rest, sep);
        assert(s.skip(1) =~= l.skip(1) + seq![sep] + rest);
        let rec = spec_split(s.skip(1), sep);
        assert(rec == seq![l.skip(1)] + spec_split(rest, sep));
        lemma_split_len(rest, sep);
        assert(rec[0] == l.skip(1));
        assert(rec.skip(1) =~= spec_split(rest, sep));
        assert(seq![s[0]] + rec[0] =~= l);
        assert(spec_split(s, sep) == seq![seq![s[0]] + rec[0]] + rec.skip(1));
        assert(spec_split(s, sep) =~= seq![l] + spec_split(rest, sep));
    }
}

/// Splits a character vector on a separator.
pub fn split_chars(s: &Vec<char>, sep: char) -> (r: Vec<Vec<char>>)
    ensures
        r.deep_view() == spec_split(s@, sep),
{
    let mut done: Vec<Vec<char>> = Vec::new();
    let mut current: Vec<char> = Vec::new();
    let mut i: usize = 0;
    proof {
        assert(s@.skip(0) =~= s@);
    }
    while i < s.len()
        invariant
            0 <= i <= s@.len(),
            spec_split(s@, sep) == done.deep_view() + spec_split_cons(current@, spec_split(
                s@.skip(i as int),
                sep,
            )),
        decreases s.len() - i,
    {
        let ghost suffix = s@.skip(i as int);
        proof {
            assert(suffix[0] == s@[i as int]);
            assert(suffix.skip(1) =~= s@.skip(i + 1));
            lemma_split_len(s@.skip(i + 1), sep);
        }
        if s[i] == sep {
            let ghost prev_done = done.deep_view();
            let ghost prev_current = current@;
            done.push(current);
            current = Vec::new();
            proof {
                assert(spec_split(suffix, sep) == seq![Seq::<char>::empty()] + spec_split(
                    s@.skip(i + 1),
                    sep,
                ));
                assert(spec_split_cons(prev_current, spec_split(suffix, sep)) =~= seq![prev_current]
                    + spec_split(s@.skip(i + 1), sep));
                assert(done.deep_view() =~~= prev_done + seq![prev_current]);
                assert(prev_done + (seq![prev_current] + spec_split(s@.skip(i + 1), sep)) =~= (prev_done
                    + seq![prev_current]) + spec_split(s@.skip(i + 1), sep));
                assert(spec_split_cons(current@, spec_split(s@.skip(i + 1), sep)) =~= spec_split(
                    s@.skip(i + 1),
                    sep,
                ).update(0, current@ + spec_split(s@.skip(i + 1), sep)[0]));
                assert(current@ + spec_split(s@.skip(i + 1), sep)[0] =~= spec_split(s@.skip(i + 1), sep)[0]);
                assert(spec_split_cons(current@, spec_split(s@.skip(i + 1), sep)) =~= spec_split(
                    s@.skip(i + 1),
                    sep,
                ));
            }
        } else {
            let ghost prev_current = current@;
            current.push(s[i]);
            proof {
                let rest = spec_split(s@.skip(i + 1), sep);
                assert(spec_split(suffix, sep) == seq![seq![suffix[0]] + rest[0]] + rest.skip(1));
                assert(spec_split_cons(prev_current, spec_split(suffix, sep)) =~= spec_split_cons(
                    current@,
                    rest,
                )) by {
                    assert(spec_split(suffix, sep)[0] == seq![suffix[0]] + rest[0]);
                    assert(prev_current + (seq![suffix[0]] + rest[0]) =~= current@ + rest[0]);
                    assert(spec_split(suffix, sep).skip(1) =~= rest.skip(1));
                    assert(spec_split_cons(prev_current, spec_split(suffix, sep))[0] =~= current@
                        + rest[0]);
                    assert(spec_split_cons(current@, rest)[0] =~= current@ + rest[0]);
                    assert(spec_split_cons(prev_current, spec_split(suffix, sep)).skip(1)
                        =~= spec_split_cons(current@, rest).skip(1));
                }
            }
        }
        i += 1;
    }
    proof {
        assert(s@.skip(i as int) =~= Seq::<char>::empty());
    }
    done.push(current);
    proof {
        assert(done.deep_view() =~~= spec_split(s@, sep));
    }
    done
}

/// The split with `head` prepended to its first part.
pub open spec fn spec_split_cons(head: Seq<char>, parts: Seq<Seq<char>>) -> Seq<Seq<char>> {
    parts.update(0, head + parts[0])
}

/// The escaping used for string values in the persisted configuration:
/// backslash, double quote and newline are written as two-character
/// sequences, everything else stands for itself.
pub open spec fn spec_escape(s: Seq<char>) -> Seq<char>
    decreases s.len(),
{
    if s.len() == 0 {
        s
    } else {
        spec_escape_char(s[0]) + spec_escape(s.skip(1))
    }
}

/// The escaping of one character.
pub open spec fn spec_escape_char(c: char) -> Seq<char> {
    if c == '\\' {
        seq!['\\', '\\']
    } else if c == '"' {
        seq!['\\', '"']
    } else if c == '\n' {
        seq!['\\', 'n']
    } else {
        seq![c]
    }
}

/// The inverse of [`spec_escape`]: `None` for a dangling backslash or an
/// unknown escape.
pub open spec fn spec_unescape(s: Seq<char>) -> Option<Seq<char>>
    decreases s.len(),
{
    if s.len() == 0 {
        Some(s)
    } else if s[0] == '\\' {
        if s.len() < 2 {
            None
        } else {
            let decoded = if s[1] == '\\' {
                Some('\\')
            } else if s[1] == '"' {
                Some('"')
            } else if s[1] == 'n' {
                Some('\n')
            } else {
                None
            };
            match decoded {
                Some(c) => match spec_unescape(s.skip(2)) {
                    Some(rest) => Some(seq![c] + rest),
                    None => None,
                },
                None => None,
            }
        }
    } else {
        match spec_unescape(s.skip(1)) {
            Some(rest) => Some(seq![s[0]] + rest),
            None => None,
        }
    }
}

/// An escaped sequence holds no newline, so it fits on one persisted line.
pub proof fn lemma_escape_no_newline(s: Seq<char>)
    ensures
        forall|i: int| 0 <= i < spec_escape(s).len() ==> #[trigger] spec_escape(s)[i] != '\n',
    decreases s.len(),
{
    if s.len() > 0 {
        lemma_escape_no_newline(s.skip(1));
        assert forall|i: int| 0 <= i < spec_escape(s).len() implies #[trigger] spec_escape(s)[i]
            != '\n' by {
            let head = spec_escape_char(s[0]);
            if i < head.len() {
                assert(spec_escape(s)[i] == head[i]);
                assert(head[i] != '\n');
            } else {
                assert(spec_escape(s)[i] == spec_escape(s.skip(1))[i - head.len()]);
            }
        }
    }
}

/// Unescaping an escaped sequence gives the original back.
pub proof fn lemma_unescape_escape(s: Seq<char>)
    ensures
        spec_unescape(spec_escape(s)) == Some(s),
    decreases s.len(),
{
    if s.len() == 0 {
    } else {
        lemma_unescape_escape(s.skip(1));
        let head = spec_escape_char(s[0]);
        let e = spec_escape(s);
        assert(e == head + spec_escape(s.skip(1)));
        if s[0] == '\\' || s[0] == '"' || s[0] == '\n' {
            assert(head.len() == 2);
            assert(e[0] == head[0] && e[1] == head[1]);
            assert(e[0] == '\\');
            assert(e.skip(2) =~= spec_escape(s.skip(1)));
            assert(spec_unescape(e) == Some(seq![s[0]] + s.skip(1)));
        } else {
            assert(head.len() == 1);
            assert(e[0] == s[0]);
            assert(e.skip(1) =~= spec_escape(s.skip(1)));
            assert(spec_unescape(e) == Some(seq![s[0]] + s.skip(1)));
        }
        assert(seq![s[0]] + s.skip(1) =~= s);
    }
}

/// Escapes a character vector for a persisted string value.
pub fn escape(s: &Vec<char>) -> (r: Vec<char>)
    ensures
        r@ == spec_escape(s@),
{
    let mut out: Vec<char> = Vec::new();
    let mut i: usize = 0;
    proof {
        assert(s@.skip(0) =~= s@);
        assert(out@ + spec_escape(s@) =~= spec_escape(s@));
    }
    while i < s.len()
        invariant
            0 <= i <= s@.len(),
            spec_escape(s@) == out@ + spec_escape(s@.skip(i as int)),
        decreases s.len() - i,
    {
        let ghost suffix = s@.skip(i as int);
        let ghost prev = out@;
        let c = s[i];
        if c == '\\' {
            out.push('\\');
            out.push('\\');
        } else if c == '"' {
            out.push('\\');
            out.push('"');
        } else if c == '\n' {
            out.push('\\');
            out.push('n');
        } else {
            out.push(c);
        }
        proof {
            assert(suffix[0] == c);
            assert(out@ =~= prev + spec_escape_char(c));
            assert(suffix.skip(1) =~= s@.skip(i + 1));
            assert(spec_escape(suffix) == spec_escape_char(c) + spec_escape(s@.skip(i + 1)));
            assert(prev + (spec_escape_char(c) + spec_escape(s@.skip(i + 1))) =~= (prev
                + spec_escape_char(c)) + spec_escape(s@.skip(i + 1)));
        }
        i += 1;
    }
    proof {
        assert(s@.skip(i as int) =~= Seq::<char>::empty());
        assert(out@ + spec_escape(Seq::<char>::empty()) =~= out@);
    }
    out
}

/// Unescapes a persisted string value; `None` for a dangling backslash or
/// an unknown escape.
pub fn unescape(s: &Vec<char>) -> (r: Option<Vec<char>>)
    ensures
        match r {
            Some(t) => spec_unescape(s@) == Some(t@),
            None => spec_unescape(s@) is None,
        },
{
    let mut out: Vec<char> = Vec::new();
    let mut i: usize = 0;
    proof {
        assert(s@.skip(0) =~= s@);
    }
    while i < s.len()
        invariant
            0 <= i <= s@.len(),
            match spec_unescape(s@.skip(i as int)) {
                Some(t) => spec_unescape(s@) == Some(out@ + t),
                None => spec_unescape(s@) is None,
            },
        decreases s.len() - i,
    {
        let ghost suffix = s@.skip(i as int);
        let ghost prev = out@;
        let c = s[i];
        proof {
            assert(suffix[0] == c);
        }
        if c == '\\' {
            if i + 1 >= s.len() {
                proof {
                    assert(suffix.len() < 2);
                }
                return None;
            }
            let d = s[i + 1];
            proof {
                assert(suffix[1] == d);
                assert(suffix.skip(2) =~= s@.skip(i + 2));
            }
            if d == '\\' {
                out.push('\\');
            } else if d == '"' {
                out.push('"');
            } else if d == 'n' {
                out.push('\n');
            } else {
                return None;
            }
            proof {
                match spec_unescape(s@.skip(i + 2)) {
                    Some(t) => {
                        assert(out@ =~= prev + seq![out@[out@.len() - 1]]);
                        assert(spec_unescape(suffix) == Some(seq![out@[out@.len() - 1]] + t));
                        assert(prev + (seq![out@[out@.len() - 1]] + t) =~= out@ + t);
                    },
                    None => {},
                }
            }
            i += 2;
        } else {
            out.push(c);
            proof {
                assert(suffix.skip(1) =~= s@.skip(i + 1));
                match spec_unescape(s@.skip(i + 1)) {
                    Some(t) => {
                        assert(spec_unescape(suffix) == Some(seq![c] + t));
                        assert(prev + (seq![c] + t) =~= out@ + t);
                    },
                    None => {},
                }
            }
            i += 1;
        }
    }
    proof {
        assert(s@.skip(i as int) =~= Seq::<char>::empty());
        assert(out@ + Seq::<char>::empty() =~= out@);
    }
    Some(out)
}

/// Whether `s` begins with `prefix`.
pub open spec fn spec_starts_with(s: Seq<char>, prefix: Seq<char>) -> bool {
    s.len() >= prefix.len() && s.take(prefix.len() as int) == prefix
}

/// Strips `prefix` from the front of `s`; `None` when `s` does not begin
/// with it.
pub fn strip_prefix(s: &Vec<char>, prefix: &Vec<char>) -> (r: Option<Vec<char>>)
    ensures
        match r {
            Some(t) => spec_starts_with(s@, prefix@) && t@ == s@.skip(prefix@.len() as int),
            None => !spec_starts_with(s@, prefix@),
        },
{
    if !matches_at(s, 0, prefix) {
        proof {
            if s@.len() >= prefix@.len() {
                assert(s@.subrange(0, prefix@.len() as int) =~= s@.take(prefix@.len() as int));
            }
        }
        return None;
    }
    let mut out: Vec<char> = Vec::new();
    let mut i: usize = prefix.len();
    while i < s.len()
        invariant
            prefix@.len() <= i <= s@.len(),
            out@ =~= s@.subrange(prefix@.len() as int, i as int),
        decreases s.len() - i,
    {
        out.push(s[i]);
        i += 1;
    }
    proof {
        assert(out@ =~= s@.skip(prefix@.len() as int));
        assert(s@.subrange(0, prefix@.len() as int) =~= s@.take(prefix@.len() as int));
    }
    Some(out)
}

} // verus!
