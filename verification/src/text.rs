//! Text as sequences of characters: equality, the order of strings, searching, trimming and the
//! decimal form of numbers, each with its meaning stated over `Seq<char>`.
use vstd::prelude::*;
use vstd::string::*;
use vstd::utf8::*;

verus! {

/// `String::push` of std: appends one character to the end of the string.
pub assume_specification[ String::push ](s: &mut String, c: char)
    ensures
        final(s)@ == old(s)@.push(c),
;

/// The characters of `s`, in order.
pub fn chars_of(s: &str) -> (r: Vec<char>)
    ensures
        r@ == s@,
{
    let mut r: Vec<char> = Vec::new();
    for c in it: s.chars()
        invariant
            r@ == s@.take(it.index()),
            it.seq() == s@,
    {
        r.push(c);
        assert(s@.take(it.index() + 1) =~= s@.take(it.index()).push(c));
    }
    assert(s@.take(s@.len() as int) =~= s@);
    r
}

/// Whether two strings hold the same characters.
pub fn same(a: &str, b: &str) -> (r: bool)
    ensures
        r == (a@ == b@),
{
    let x: &[u8] = a.as_bytes();
    let y: &[u8] = b.as_bytes();
    proof {
        encode_utf8_decode_utf8(a@);
        encode_utf8_decode_utf8(b@);
    }
    if x.len() != y.len() {
        return false;
    }
    let mut i: usize = 0;
    while i < x.len()
        invariant
            i <= x.len(),
            x.len() == y.len(),
            x@ == a.spec_bytes(),
            y@ == b.spec_bytes(),
            forall|j: int| 0 <= j < i ==> x@[j] == y@[j],
        decreases x.len() - i,
    {
        if x[i] != y[i] {
            return false;
        }
        i = i + 1;
    }
    assert(x@ =~= y@);
    true
}

/// Whether `a` comes strictly before `b` in the order of strings: at the first place where they
/// differ `a` has the smaller code point, or `a` ends there.
pub open spec fn lex_lt(a: Seq<char>, b: Seq<char>) -> bool
    decreases a.len(),
{
    if b.len() == 0 {
        false
    } else if a.len() == 0 {
        true
    } else if a[0] != b[0] {
        a[0] < b[0]
    } else {
        lex_lt(a.drop_first(), b.drop_first())
    }
}

/// No string comes before itself.
pub proof fn lemma_lex_irreflexive(a: Seq<char>)
    ensures
        !lex_lt(a, a),
    decreases a.len(),
{
    if a.len() > 0 {
        lemma_lex_irreflexive(a.drop_first());
    }
}

/// Of two different strings exactly one comes before the other.
pub proof fn lemma_lex_total(a: Seq<char>, b: Seq<char>)
    ensures
        lex_lt(a, b) || lex_lt(b, a) || a == b,
        !(lex_lt(a, b) && lex_lt(b, a)),
        lex_lt(a, b) ==> a != b,
    decreases a.len(),
{
    if a.len() > 0 && b.len() > 0 && a[0] == b[0] {
        lemma_lex_total(a.drop_first(), b.drop_first());
        if a.drop_first() == b.drop_first() {
            assert(a =~= seq![a[0]] + a.drop_first());
            assert(b =~= seq![b[0]] + b.drop_first());
        }
    } else if a.len() == 0 && b.len() == 0 {
        assert(a =~= b);
    }
}

/// The order of strings is transitive.
pub proof fn lemma_lex_transitive(a: Seq<char>, b: Seq<char>, c: Seq<char>)
    requires
        lex_lt(a, b),
        lex_lt(b, c),
    ensures
        lex_lt(a, c),
    decreases a.len(),
{
    if a.len() > 0 && b.len() > 0 && c.len() > 0 && a[0] == b[0] && b[0] == c[0] {
        lemma_lex_transitive(a.drop_first(), b.drop_first(), c.drop_first());
    }
}

/// Two strings that agree up to `k` compare as what follows does.
pub proof fn lemma_lex_skip(a: Seq<char>, b: Seq<char>, k: int)
    requires
        0 <= k <= a.len(),
        k <= b.len(),
        a.take(k) == b.take(k),
    ensures
        lex_lt(a, b) == lex_lt(a.skip(k), b.skip(k)),
    decreases k,
{
    if k == 0 {
        assert(a.skip(0) =~= a);
        assert(b.skip(0) =~= b);
    } else {
        assert(a[0] == a.take(k)[0] && b[0] == b.take(k)[0]);
        assert(a.drop_first().take(k - 1) =~= a.take(k).drop_first());
        assert(b.drop_first().take(k - 1) =~= b.take(k).drop_first());
        lemma_lex_skip(a.drop_first(), b.drop_first(), k - 1);
        assert(a.drop_first().skip(k - 1) =~= a.skip(k));
        assert(b.drop_first().skip(k - 1) =~= b.skip(k));
    }
}

/// Whether `a` comes strictly before `b` in the order of strings.
pub fn less(a: &str, b: &str) -> (r: bool)
    ensures
        r == lex_lt(a@, b@),
{
    let x: Vec<char> = chars_of(a);
    let y: Vec<char> = chars_of(b);
    let mut i: usize = 0;
    while i < x.len() && i < y.len()
        invariant
            x@ == a@,
            y@ == b@,
            i <= x.len(),
            i <= y.len(),
            x@.take(i as int) =~= y@.take(i as int),
        decreases x.len() - i,
    {
        if x[i] != y[i] {
            proof {
                lemma_lex_skip(x@, y@, i as int);
            }
            return x[i] < y[i];
        }
        assert(x@.take(i + 1) =~= x@.take(i as int).push(x@[i as int]));
        assert(y@.take(i + 1) =~= y@.take(i as int).push(y@[i as int]));
        i = i + 1;
    }
    proof {
        lemma_lex_skip(x@, y@, i as int);
    }
    i < y.len()
}

/// Where `c` first occurs in `s`, or the length of `s` where it does not.
pub open spec fn index_of_char(s: Seq<char>, c: char) -> int
    decreases s.len(),
{
    if s.len() == 0 || s[0] == c {
        0
    } else {
        1 + index_of_char(s.drop_first(), c)
    }
}

/// `index_of_char` is the first place that holds `c`, and the length where none does.
pub proof fn lemma_index_of_char(s: Seq<char>, c: char)
    ensures
        0 <= index_of_char(s, c) <= s.len(),
        index_of_char(s, c) < s.len() ==> s[index_of_char(s, c)] == c,
        forall|i: int| 0 <= i < index_of_char(s, c) ==> s[i] != c,
    decreases s.len(),
{
    if s.len() != 0 && s[0] != c {
        lemma_index_of_char(s.drop_first(), c);
        assert forall|i: int| 0 <= i < index_of_char(s, c) implies s[i] != c by {
            if i > 0 {
                assert(s.drop_first()[i - 1] == s[i]);
            }
        }
    }
}

/// What comes before the first `c` of `s`; all of `s` where `c` does not occur.
pub open spec fn before_first(s: Seq<char>, c: char) -> Seq<char> {
    s.take(index_of_char(s, c))
}

/// What comes before the first `c` of `s`; all of `s` where `c` does not occur.
pub fn prefix_before<'a>(s: &'a str, c: char) -> (r: &'a str)
    ensures
        r@ == before_first(s@, c),
{
    let x: Vec<char> = chars_of(s);
    let mut i: usize = 0;
    while i < x.len() && x[i] != c
        invariant
            x@ == s@,
            i <= x.len(),
            forall|j: int| 0 <= j < i ==> x@[j] != c,
        decreases x.len() - i,
    {
        i = i + 1;
    }
    proof {
        lemma_index_of_char(s@, c);
        let k = index_of_char(s@, c);
        assert(k == i) by {
            if k < i {
                assert(x@[k] != c);
            }
        }
        assert(s@.subrange(0, i as int) =~= s@.take(i as int));
    }
    s.substring_char(0, i)
}

/// Where `c` last occurs in `s`, or -1 where it does not.
pub open spec fn last_index_of_char(s: Seq<char>, c: char) -> int
    decreases s.len(),
{
    if s.len() == 0 {
        -1
    } else if s.last() == c {
        s.len() - 1
    } else {
        last_index_of_char(s.drop_last(), c)
    }
}

/// `last_index_of_char` is the last place that holds `c`, and -1 where none does.
pub proof fn lemma_last_index_of_char(s: Seq<char>, c: char)
    ensures
        -1 <= last_index_of_char(s, c) < s.len(),
        last_index_of_char(s, c) >= 0 ==> s[last_index_of_char(s, c)] == c,
        forall|i: int| last_index_of_char(s, c) < i < s.len() ==> s[i] != c,
    decreases s.len(),
{
    if s.len() != 0 && s.last() != c {
        lemma_last_index_of_char(s.drop_last(), c);
        assert forall|i: int| last_index_of_char(s, c) < i < s.len() implies s[i] != c by {
            if i < s.len() - 1 {
                assert(s.drop_last()[i] == s[i]);
            }
        }
    }
}

/// Where `c` last occurs among the characters `x`.
pub fn rfind(x: &Vec<char>, c: char) -> (r: Option<usize>)
    ensures
        match r {
            Some(i) => i == last_index_of_char(x@, c) && i < x.len(),
            None => last_index_of_char(x@, c) == -1,
        },
{
    proof {
        lemma_last_index_of_char(x@, c);
    }
    let mut i: usize = x.len();
    while i > 0
        invariant
            i <= x@.len(),
            last_index_of_char(x@, c) < i,
            last_index_of_char(x@, c) >= 0 ==> x@[last_index_of_char(x@, c)] == c,
            last_index_of_char(x@, c) >= -1,
            forall|j: int| last_index_of_char(x@, c) < j < x@.len() ==> x@[j] != c,
        decreases i,
    {
        if x[i - 1] == c {
            return Some(i - 1);
        }
        i = i - 1;
    }
    None
}

/// Whether the characters from `start` on are those of `s`.
pub fn tail_is(x: &Vec<char>, start: usize, s: &str) -> (r: bool)
    requires
        start <= x@.len(),
    ensures
        r == (x@.skip(start as int) == s@),
{
    let wanted: Vec<char> = chars_of(s);
    let ghost tail = x@.skip(start as int);
    if wanted.len() != x.len() - start {
        assert(tail.len() != s@.len());
        return false;
    }
    let mut k: usize = 0;
    while k < wanted.len()
        invariant
            wanted@ == s@,
            tail == x@.skip(start as int),
            start <= x.len(),
            wanted.len() == x.len() - start,
            k <= wanted@.len(),
            forall|j: int| 0 <= j < k ==> wanted@[j] == #[trigger] tail[j],
        decreases wanted.len() - k,
    {
        assert(tail[k as int] == x@[start + k]);
        if wanted[k] != x[start + k] {
            assert(tail != wanted@);
            return false;
        }
        k = k + 1;
    }
    assert(tail =~= wanted@);
    true
}

/// Whether `part` stands somewhere in `s`.
pub open spec fn contains_part(s: Seq<char>, part: Seq<char>) -> bool {
    exists|i: int| 0 <= i <= s.len() - part.len() && #[trigger] s.subrange(i, i + part.len()) == part
}

/// Whether `part` stands somewhere in `s`.
pub fn contains(s: &str, part: &str) -> (r: bool)
    ensures
        r == contains_part(s@, part@),
{
    let x: Vec<char> = chars_of(s);
    let y: Vec<char> = chars_of(part);
    if y.len() > x.len() {
        return false;
    }
    let mut i: usize = 0;
    while i <= x.len() - y.len()
        invariant
            x@ == s@,
            y@ == part@,
            y.len() <= x.len(),
            i <= x.len() - y.len() + 1,
            forall|k: int| 0 <= k < i ==> #[trigger] s@.subrange(k, k + part@.len()) != part@,
        decreases x.len() - y.len() + 1 - i,
    {
        let mut j: usize = 0;
        while j < y.len() && x[i + j] == y[j]
            invariant
                x@ == s@,
                y@ == part@,
                y.len() <= x.len(),
                i <= x.len() - y.len(),
                j <= y.len(),
                forall|k: int| 0 <= k < j ==> #[trigger] y@[k] == x@[i + k],
            decreases y.len() - j,
        {
            j = j + 1;
        }
        let ghost at = s@.subrange(i as int, i + part@.len());
        if j == y.len() {
            assert(at =~= part@);
            return true;
        }
        assert(at != part@) by {
            assert(at[j as int] == x@[i + j]);
        }
        if i == x.len() - y.len() {
            assert forall|k: int| 0 <= k <= s@.len() - part@.len() implies #[trigger] s@.subrange(
                k,
                k + part@.len(),
            ) != part@ by {
                if k == i {
                    assert(at != part@);
                }
            }
            return false;
        }
        i = i + 1;
    }
    false
}

/// Whether std counts `c`, a character beyond ASCII, as white space (the Unicode property `White_Space`).
pub uninterp spec fn is_wide_space(c: char) -> bool;

/// Whether an ASCII character is white space: one of those from the tab to the carriage return, or a plain
/// space.
pub open spec fn is_ascii_space(c: char) -> bool {
    '\t' <= c <= '\r' || c == ' '
}

/// Whether `c` is white space.
pub open spec fn is_white_space(c: char) -> bool {
    if c <= '\u{7f}' {
        is_ascii_space(c)
    } else {
        is_wide_space(c)
    }
}

/// `char::is_whitespace` of std: whether `c` has the Unicode property `White_Space`. Of the ASCII
/// characters those from the tab to the carriage return and the plain space have it.
#[verifier::external_body]
fn white_space(c: char) -> (r: bool)
    ensures
        c <= '\u{7f}' ==> r == is_ascii_space(c),
        c > '\u{7f}' ==> r == is_wide_space(c),
{
    c.is_whitespace()
}

/// `s` without the white space at its start.
pub open spec fn trimmed_start(s: Seq<char>) -> Seq<char>
    decreases s.len(),
{
    if s.len() > 0 && is_white_space(s[0]) {
        trimmed_start(s.drop_first())
    } else {
        s
    }
}

/// `s` without the white space at its end.
pub open spec fn trimmed_end(s: Seq<char>) -> Seq<char>
    decreases s.len(),
{
    if s.len() > 0 && is_white_space(s.last()) {
        trimmed_end(s.drop_last())
    } else {
        s
    }
}

/// `s` without the white space at its ends.
pub open spec fn trimmed(s: Seq<char>) -> Seq<char> {
    trimmed_end(trimmed_start(s))
}

/// Whether `s` is empty or holds nothing but white space.
pub open spec fn is_blank(s: Seq<char>) -> bool {
    trimmed(s).len() == 0
}

/// A string that starts and ends with visible ASCII characters is left as it is by trimming.
pub proof fn law_visible_ends_stay(s: Seq<char>)
    requires
        s.len() > 0,
        '!' <= s[0] <= '~',
        '!' <= s.last() <= '~',
    ensures
        trimmed(s) == s,
{
}

/// What trimming leaves of a string starts and ends with something else than white space, and holds a
/// consecutive part of the string.
pub proof fn law_trimmed(s: Seq<char>)
    ensures
        trimmed(s).len() > 0 ==> !is_white_space(trimmed(s)[0]) && !is_white_space(trimmed(s).last()),
        contains_part(s, trimmed(s)),
        is_blank(s) <==> forall|i: int| 0 <= i < s.len() ==> is_white_space(#[trigger] s[i]),
        trimmed(trimmed(s)) == trimmed(s),
{
    let t = trimmed_start(s);
    lemma_trimmed_start(s);
    lemma_trimmed_end(t);
    let r = trimmed(s);
    let k = s.len() - t.len();
    assert(s.subrange(k, k + r.len()) =~= r);
    if r.len() > 0 {
        assert(r[0] == t[0]);
        assert(t[0] == s[k]);
        assert(r.last() == t[r.len() - 1]);
    } else {
        assert forall|i: int| 0 <= i < s.len() implies is_white_space(#[trigger] s[i]) by {
            if i >= k {
                assert(t[i - k] == s[i]);
            }
        }
    }
    if forall|i: int| 0 <= i < s.len() ==> is_white_space(#[trigger] s[i]) {
        if t.len() > 0 {
            assert(is_white_space(s[k]));
        }
    }
}

proof fn lemma_trimmed_start(s: Seq<char>)
    ensures
        trimmed_start(s).len() <= s.len(),
        trimmed_start(s) == s.skip(s.len() - trimmed_start(s).len()),
        trimmed_start(s).len() > 0 ==> !is_white_space(trimmed_start(s)[0]),
        forall|i: int|
            0 <= i < s.len() - trimmed_start(s).len() ==> is_white_space(#[trigger] s[i]),
    decreases s.len(),
{
    if s.len() > 0 && is_white_space(s[0]) {
        let d = s.drop_first();
        lemma_trimmed_start(d);
        let n = trimmed_start(d).len();
        assert(d.skip(d.len() - n) =~= s.skip(s.len() - n));
        assert forall|i: int| 0 <= i < s.len() - n implies is_white_space(#[trigger] s[i]) by {
            if i > 0 {
                assert(d[i - 1] == s[i]);
            }
        }
    } else {
        assert(s.skip(0) =~= s);
    }
}

proof fn lemma_trimmed_end(s: Seq<char>)
    ensures
        trimmed_end(s).len() <= s.len(),
        trimmed_end(s) == s.take(trimmed_end(s).len() as int),
        trimmed_end(s).len() > 0 ==> !is_white_space(trimmed_end(s).last()),
        forall|i: int| trimmed_end(s).len() <= i < s.len() ==> is_white_space(#[trigger] s[i]),
    decreases s.len(),
{
    if s.len() > 0 && is_white_space(s.last()) {
        let d = s.drop_last();
        lemma_trimmed_end(d);
        let n = trimmed_end(d).len() as int;
        assert(d.take(n) =~= s.take(n));
        assert forall|i: int| n <= i < s.len() implies is_white_space(#[trigger] s[i]) by {
            if i < s.len() - 1 {
                assert(d[i] == s[i]);
            }
        }
    } else {
        assert(s.take(s.len() as int) =~= s);
    }
}

/// `s` without the white space at its ends.
pub fn trim<'a>(s: &'a str) -> (r: &'a str)
    ensures
        r@ == trimmed(s@),
{
    let x: Vec<char> = chars_of(s);
    let mut i: usize = 0;
    assert(s@.skip(0) =~= s@);
    while i < x.len() && white_space(x[i])
        invariant
            x@ == s@,
            i <= x.len(),
            trimmed_start(s@) == trimmed_start(s@.skip(i as int)),
        ensures
            x@ == s@,
            i <= x.len(),
            trimmed_start(s@) == s@.skip(i as int),
        decreases x.len() - i,
    {
        assert(s@.skip(i as int).drop_first() =~= s@.skip(i + 1));
        i = i + 1;
    }
    let ghost t = s@.skip(i as int);
    let mut j: usize = x.len();
    assert(t.take(j - i) =~= t);
    while j > i && white_space(x[j - 1])
        invariant
            x@ == s@,
            i <= j <= x.len(),
            t == s@.skip(i as int),
            trimmed_end(t) == trimmed_end(t.take(j - i)),
        ensures
            i <= j <= x.len(),
            trimmed_end(t) == t.take(j - i),
        decreases j,
    {
        assert(t.take(j - i).drop_last() =~= t.take(j - i - 1));
        j = j - 1;
    }
    assert(t.take(j - i) =~= s@.subrange(i as int, j as int));
    s.substring_char(i, j)
}

/// What std's `str::to_lowercase` makes of a string.
pub uninterp spec fn lowercase(s: Seq<char>) -> Seq<char>;

/// `str::to_lowercase` of std: the lower-case equivalent by the Unicode property `Lowercase`.
#[verifier::external_body]
pub(crate) fn to_lower(s: &str) -> (r: String)
    ensures
        r@ == lowercase(s@),
{
    s.to_lowercase()
}

/// The character of a decimal digit.
pub open spec fn digit_char(d: nat) -> char {
    if d == 0 {
        '0'
    } else if d == 1 {
        '1'
    } else if d == 2 {
        '2'
    } else if d == 3 {
        '3'
    } else if d == 4 {
        '4'
    } else if d == 5 {
        '5'
    } else if d == 6 {
        '6'
    } else if d == 7 {
        '7'
    } else if d == 8 {
        '8'
    } else {
        '9'
    }
}

/// The decimal digits of a natural number, without leading zeros.
pub open spec fn digits(n: nat) -> Seq<char>
    decreases n,
{
    if n < 10 {
        seq![digit_char(n)]
    } else {
        digits(n / 10).push(digit_char(n % 10))
    }
}

/// The decimal form of an integer, with a minus sign where it is negative.
pub open spec fn decimal(n: int) -> Seq<char> {
    if n < 0 {
        seq!['-'] + digits((-n) as nat)
    } else {
        digits(n as nat)
    }
}

/// The decimal form of an integer, a single digit with a zero in front.
pub open spec fn decimal_2(n: int) -> Seq<char> {
    if 0 <= n < 10 {
        seq!['0'] + digits(n as nat)
    } else {
        decimal(n)
    }
}

/// The character of a decimal digit.
pub(crate) fn to_digit(d: u64) -> (r: char)
    requires
        d < 10,
    ensures
        r == digit_char(d as nat),
{
    match d {
        0 => '0',
        1 => '1',
        2 => '2',
        3 => '3',
        4 => '4',
        5 => '5',
        6 => '6',
        7 => '7',
        8 => '8',
        _ => '9',
    }
}

/// Appends the decimal digits of `n`.
pub fn push_digits(s: &mut String, n: u64)
    ensures
        final(s)@ == old(s)@ + digits(n as nat),
    decreases n,
{
    if n < 10 {
        s.push(to_digit(n));
    } else {
        push_digits(s, n / 10);
        s.push(to_digit(n % 10));
    }
    assert(s@ =~= old(s)@ + digits(n as nat));
}

/// Appends the decimal form of `n`.
pub fn push_decimal(s: &mut String, n: i64)
    ensures
        final(s)@ == old(s)@ + decimal(n as int),
{
    if n < 0 {
        s.push('-');
        let m: u64 = if n == i64::MIN {
            0x8000_0000_0000_0000
        } else {
            (-n) as u64
        };
        push_digits(s, m);
        assert(s@ =~= old(s)@ + decimal(n as int));
    } else {
        push_digits(s, n as u64);
    }
}

/// The string of some characters.
pub fn string_of(x: &Vec<char>) -> (r: String)
    ensures
        r@ == x@,
{
    let mut r: String = String::new();
    let mut i: usize = 0;
    assert(r@ =~= x@.take(0));
    while i < x.len()
        invariant
            i <= x@.len(),
            r@ == x@.take(i as int),
        decreases x.len() - i,
    {
        assert(x@.take(i + 1) =~= x@.take(i as int).push(x@[i as int]));
        r.push(x[i]);
        i = i + 1;
    }
    assert(x@.take(i as int) =~= x@);
    r
}

/// Appends a string to another.
pub fn append(s: &mut String, t: &str)
    ensures
        final(s)@ == old(s)@ + t@,
{
    let ghost start = s@;
    assert(start + t@.take(0) =~= start);
    for c in it: t.chars()
        invariant
            it.seq() == t@,
            s@ == start + t@.take(it.index()),
    {
        s.push(c);
        assert(t@.take(it.index() + 1) =~= t@.take(it.index()).push(c));
        assert(s@ =~= start + t@.take(it.index() + 1));
    }
    assert(t@.take(t@.len() as int) =~= t@);
}

/// A number between two strings.
pub fn numbered(prefix: &str, n: u64, suffix: &str) -> (r: String)
    ensures
        r@ == prefix@ + digits(n as nat) + suffix@,
{
    let mut s: String = String::new();
    append(&mut s, prefix);
    push_digits(&mut s, n);
    append(&mut s, suffix);
    assert(s@ =~= prefix@ + digits(n as nat) + suffix@);
    s
}

/// The decimal form of a number.
pub fn decimal_string(n: i64) -> (r: String)
    ensures
        r@ == decimal(n as int),
{
    let mut s: String = String::new();
    push_decimal(&mut s, n);
    assert(s@ =~= decimal(n as int));
    s
}

/// The decimal form of a natural number.
pub fn digit_string(n: u64) -> (r: String)
    ensures
        r@ == digits(n as nat),
{
    let mut s: String = String::new();
    push_digits(&mut s, n);
    assert(s@ =~= digits(n as nat));
    s
}

/// Appends the decimal form of `n`, a single digit with a zero in front.
pub fn push_decimal_2(s: &mut String, n: i64)
    ensures
        final(s)@ == old(s)@ + decimal_2(n as int),
{
    if 0 <= n && n < 10 {
        s.push('0');
        push_digits(s, n as u64);
        assert(s@ =~= old(s)@ + decimal_2(n as int));
    } else {
        push_decimal(s, n);
    }
}

/// The number that a string of decimal digits stands for.
pub open spec fn number_of(s: Seq<char>) -> nat
    decreases s.len(),
{
    if s.len() == 0 {
        0
    } else {
        number_of(s.drop_last()) * 10 + digit_value(s.last())
    }
}

/// The value of a decimal digit.
pub open spec fn digit_value(c: char) -> nat {
    if is_digit(c) {
        (c as int - '0' as int) as nat
    } else {
        0
    }
}

/// Whether `c` is one of the ten ASCII digits.
pub open spec fn is_digit(c: char) -> bool {
    '0' <= c <= '9'
}

/// The digits of a number stand for that number.
pub proof fn law_digits_round_trip(n: nat)
    ensures
        number_of(digits(n)) == n,
        forall|i: int| 0 <= i < digits(n).len() ==> is_digit(#[trigger] digits(n)[i]),
        digits(n).len() > 0,
    decreases n,
{
    if n < 10 {
        assert(digits(n).drop_last() =~= Seq::<char>::empty());
        assert(number_of(digits(n).drop_last()) == 0);
    } else {
        law_digits_round_trip(n / 10);
        assert(digits(n).drop_last() =~= digits(n / 10));
    }
}

/// Whether `s` holds at least one character and nothing but decimal digits.
pub open spec fn is_number(s: Seq<char>) -> bool {
    s.len() > 0 && forall|i: int| 0 <= i < s.len() ==> is_digit(#[trigger] s[i])
}

/// The integer that a string stands for: decimal digits, perhaps behind a sign.
pub open spec fn integer_of(s: Seq<char>) -> Option<int> {
    if s.len() > 0 && (s[0] == '-' || s[0] == '+') {
        if !is_number(s.drop_first()) {
            None
        } else if s[0] == '-' {
            Some(-(number_of(s.drop_first()) as int))
        } else {
            Some(number_of(s.drop_first()) as int)
        }
    } else if is_number(s) {
        Some(number_of(s) as int)
    } else {
        None
    }
}

/// The digits of `s` from the place `from` on as a number of at most 65 bits.
fn parse_number(s: &Vec<char>, from: usize) -> (r: Option<u128>)
    requires
        from <= s@.len(),
    ensures
        match r {
            Some(n) => is_number(s@.skip(from as int)) && n == number_of(s@.skip(from as int)),
            None => !is_number(s@.skip(from as int)) || number_of(s@.skip(from as int))
                > 0x1_0000_0000_0000_0000,
        },
{
    let ghost all = s@.skip(from as int);
    if from == s.len() {
        return None;
    }
    let mut n: u128 = 0;
    let mut big: bool = false;
    let mut i: usize = from;
    assert(all.take(0) =~= Seq::<char>::empty());
    while i < s.len()
        invariant
            from <= i <= s@.len(),
            all == s@.skip(from as int),
            forall|j: int| 0 <= j < i - from ==> is_digit(#[trigger] all[j]),
            !big ==> n == number_of(all.take(i - from)) && n <= 0x1_0000_0000_0000_0000,
            big ==> number_of(all.take(i - from)) > 0x1_0000_0000_0000_0000,
        decreases s.len() - i,
    {
        let c: char = s[i];
        assert(all[i - from] == c);
        if c < '0' || '9' < c {
            assert(!is_digit(all[i - from]));
            return None;
        }
        let ghost next = all.take(i - from + 1);
        assert(next.drop_last() =~= all.take(i - from));
        assert(next.last() == c);
        if !big {
            n = n * 10 + (c as u128 - '0' as u128);
            if n > 0x1_0000_0000_0000_0000 {
                big = true;
            }
        }
        i = i + 1;
    }
    assert(all.take(i - from) =~= all);
    if big {
        None
    } else {
        Some(n)
    }
}

/// The integer that `s` stands for, where it fits 64 bits.
pub fn parse_i64(s: &str) -> (r: Option<i64>)
    ensures
        match r {
            Some(n) => integer_of(s@) == Some(n as int),
            None => match integer_of(s@) {
                Some(n) => n < i64::MIN || n > i64::MAX,
                None => true,
            },
        },
{
    let x: Vec<char> = chars_of(s);
    if x.len() > 0 && (x[0] == '-' || x[0] == '+') {
        assert(x@.skip(1) =~= s@.drop_first());
        match parse_number(&x, 1) {
            Some(n) => {
                if x[0] == '-' {
                    if n > 0x8000_0000_0000_0000 {
                        None
                    } else if n == 0x8000_0000_0000_0000 {
                        Some(i64::MIN)
                    } else {
                        Some(-(n as i64))
                    }
                } else if n > 0x7fff_ffff_ffff_ffff {
                    None
                } else {
                    Some(n as i64)
                }
            },
            None => None,
        }
    } else {
        assert(x@.skip(0) =~= s@);
        match parse_number(&x, 0) {
            Some(n) => if n > 0x7fff_ffff_ffff_ffff {
                None
            } else {
                Some(n as i64)
            },
            None => None,
        }
    }
}

/// The decimal form of a 64-bit integer stands for that integer.
pub proof fn law_decimal_round_trip(n: int)
    ensures
        integer_of(decimal(n)) == Some(n),
{
    if n < 0 {
        law_digits_round_trip((-n) as nat);
        assert(decimal(n).drop_first() =~= digits((-n) as nat));
    } else {
        law_digits_round_trip(n as nat);
        assert(is_digit(digits(n as nat)[0]));
    }
}

/// Strings are ordered as in a dictionary: what they share at their start does not count, and behind it the
/// smaller character decides, or the end of one of them.
pub proof fn law_dictionary_order(a: &str, b: &str, r: bool)
    requires
        call_ensures(less, (a, b), r),
    ensures
        r == lex_lt(a@, b@),
        a@.len() < b@.len() && a@ == b@.take(a@.len() as int) ==> r,
        b@.is_prefix_of(a@) ==> !r,
        forall|k: int|
            0 <= k < a@.len() && k < b@.len() && #[trigger] a@.take(k) == b@.take(k) && a@[k] != b@[k]
                ==> (r <==> a@[k] < b@[k]),
{
    assert forall|k: int|
        0 <= k < a@.len() && k < b@.len() && #[trigger] a@.take(k) == b@.take(k) && a@[k]
            != b@[k] implies (r <==> a@[k] < b@[k]) by {
        lemma_lex_skip(a@, b@, k);
        assert(a@.skip(k)[0] == a@[k] && b@.skip(k)[0] == b@[k]);
    }
    if a@.len() < b@.len() && a@ == b@.take(a@.len() as int) {
        assert(a@.take(a@.len() as int) =~= a@);
        lemma_lex_skip(a@, b@, a@.len() as int);
        assert(a@.skip(a@.len() as int) =~= Seq::empty());
    }
    if b@.is_prefix_of(a@) {
        let n = b@.len() as int;
        assert(b@.take(n) =~= a@.take(n));
        lemma_lex_skip(a@, b@, n);
        assert(b@.skip(n) =~= Seq::empty());
    }
}

/// Strings are the same where they hold the same characters.
pub proof fn law_same_strings(a: &str, b: &str, r: bool)
    requires
        call_ensures(same, (a, b), r),
    ensures
        r <==> a@.len() == b@.len() && forall|i: int| 0 <= i < a@.len() ==> a@[i] == b@[i],
{
    if a@.len() == b@.len() && forall|i: int| 0 <= i < a@.len() ==> a@[i] == b@[i] {
        assert(a@ =~= b@);
    }
}

/// The last digit of a number is its remainder by ten, and the others are those of a tenth of it.
pub proof fn law_decimal_digits(n: u64, r: String)
    requires
        call_ensures(digit_string, (n,), r),
    ensures
        r@.len() > 0,
        r@.last() as int == '0' as int + n % 10,
        n < 10 ==> r@.len() == 1,
        n >= 10 ==> r@.drop_last() == digits((n / 10) as nat),
{
    if n >= 10 {
        assert(r@.drop_last() =~= digits((n / 10) as nat));
    }
}

/// A number that is written down is read back, with its sign.
pub proof fn law_numbers_are_read_back(n: i64, s: String, t: &str, r: Option<i64>)
    requires
        call_ensures(decimal_string, (n,), s),
        call_ensures(parse_i64, (t,), r),
        t@ == s@,
    ensures
        r == Some(n),
        n < 0 <==> s@[0] == '-',
{
    law_decimal_round_trip(n as int);
    if n >= 0 {
        law_digits_round_trip(n as nat);
        assert(is_digit(s@[0]));
    }
}

/// A part is found in a string exactly where it stands at some place of it.
pub proof fn law_finding_a_part(s: &str, part: &str, r: bool)
    requires
        call_ensures(contains, (s, part), r),
    ensures
        r <==> exists|k: int|
            0 <= k && k + part@.len() <= s@.len() && #[trigger] s@.subrange(
                k,
                k + part@.len(),
            ) == part@,
{
}

/// What stands before the first of a character holds none of them, and the character follows it where it is
/// there at all.
pub proof fn law_before_a_character(s: &str, c: char, r: &str)
    requires
        call_ensures(prefix_before, (s, c), r),
    ensures
        r@.is_prefix_of(s@),
        !r@.contains(c),
        r@.len() < s@.len() ==> s@[r@.len() as int] == c,
{
    lemma_index_of_char(s@, c);
}

/// Trimming takes white space away at both ends, all of it, and nothing else.
pub proof fn law_trimming(s: &str, r: &str)
    requires
        call_ensures(trim, (s,), r),
    ensures
        r@.len() > 0 ==> !is_white_space(r@[0]) && !is_white_space(r@.last()),
        exists|k: int|
            0 <= k && k + r@.len() <= s@.len() && #[trigger] s@.subrange(k, k + r@.len()) == r@
                && (forall|i: int| 0 <= i < k ==> is_white_space(s@[i])) && (forall|i: int|
                k + r@.len() <= i < s@.len() ==> is_white_space(s@[i])),
{
    let t = trimmed_start(s@);
    lemma_trimmed_start(s@);
    lemma_trimmed_end(t);
    let k = s@.len() - t.len();
    assert(s@.subrange(k, k + r@.len()) =~= r@);
    if r@.len() > 0 {
        assert(r@[0] == t[0]);
        assert(r@.last() == t[r@.len() - 1]);
    }
    assert forall|i: int| k + r@.len() <= i < s@.len() implies is_white_space(s@[i]) by {
        assert(t[i - k] == s@[i]);
    }
}

/// The last place of a character is found: it stands there, and not behind.
pub proof fn law_finding_the_last(x: Vec<char>, c: char, r: Option<usize>)
    requires
        call_ensures(rfind, (&x, c), r),
    ensures
        r is None ==> !x@.contains(c),
        r is Some ==> r->0 < x@.len() && x@[r->0 as int] == c,
        r is Some ==> forall|i: int| r->0 < i < x@.len() ==> x@[i] != c,
{
    lemma_last_index_of_char(x@, c);
    if r is None && x@.contains(c) {
        let i = choose|i: int| 0 <= i < x@.len() && x@[i] == c;
        assert(x@[i] != c);
    }
}

}
