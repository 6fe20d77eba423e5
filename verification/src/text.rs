//! Character-level helpers on strings: searching, comparing, joining and
//! decimal formatting and reading.
use crate::model::strings_view;
use vstd::prelude::*;
use vstd::string::*;

verus! {

/// `pat` occurs in `s` starting at index `i`.
pub open spec fn occurs_at(s: Seq<char>, pat: Seq<char>, i: int) -> bool {
    &&& 0 <= i
    &&& i + pat.len() <= s.len()
    &&& s.subrange(i, i + pat.len()) == pat
}

/// `pat` occurs somewhere in `s`.
pub open spec fn contains_seq(s: Seq<char>, pat: Seq<char>) -> bool {
    exists|i: int| occurs_at(s, pat, i)
}

/// `i` is the first index at which `pat` occurs in `s`.
pub open spec fn is_first_occurrence(s: Seq<char>, pat: Seq<char>, i: int) -> bool {
    &&& occurs_at(s, pat, i)
    &&& forall|j: int| 0 <= j < i ==> !occurs_at(s, pat, j)
}

/// The first index at which `pat` occurs in `s`, if it occurs.
pub open spec fn first_index_of(s: Seq<char>, pat: Seq<char>) -> Option<int> {
    if contains_seq(s, pat) {
        Some(choose|i: int| is_first_occurrence(s, pat, i))
    } else {
        None
    }
}

/// There is at most one first occurrence, and it is what [`first_index_of`] gives.
pub proof fn lemma_first_index_of(s: Seq<char>, pat: Seq<char>, i: int)
    requires
        is_first_occurrence(s, pat, i),
    ensures
        first_index_of(s, pat) == Some(i),
{
    assert(contains_seq(s, pat));
    let c = choose|j: int| is_first_occurrence(s, pat, j);
    assert(is_first_occurrence(s, pat, c));
    if c < i {
        assert(!occurs_at(s, pat, c));
    } else if c > i {
        assert(!occurs_at(s, pat, i));
    }
}

/// Strict lexicographic order on character sequences, by code point.
/// On `str`, Rust's `<` compares UTF-8 bytes, which orders strings the same way.
pub open spec fn seq_lt(a: Seq<char>, b: Seq<char>) -> bool {
    exists|k: int|
        #![trigger a.take(k), b.take(k)]
        0 <= k <= a.len() && k <= b.len() && a.take(k) == b.take(k) && {
            ||| (k == a.len() && k < b.len())
            ||| (k < a.len() && k < b.len() && a[k] < b[k])
        }
}

/// Two sequences with a common prefix of length `k` are equal or ordered one way or the other.
proof fn lemma_seq_lt_from_prefix(a: Seq<char>, b: Seq<char>, k: int)
    requires
        0 <= k <= a.len(),
        k <= b.len(),
        a.take(k) == b.take(k),
    ensures
        a == b || seq_lt(a, b) || seq_lt(b, a),
    decreases a.len() - k,
{
    if k == a.len() || k == b.len() {
        if k == a.len() && k == b.len() {
            assert(a == a.take(k));
            assert(b == b.take(k));
        } else if k == a.len() {
            assert(a.take(k) == b.take(k));
        } else {
            assert(b.take(k) == a.take(k));
        }
    } else if a[k] == b[k] {
        assert(a.take(k + 1) == a.take(k).push(a[k]));
        assert(b.take(k + 1) == b.take(k).push(b[k]));
        lemma_seq_lt_from_prefix(a, b, k + 1);
    } else {
        assert(a.take(k) == b.take(k));
        assert(b.take(k) == a.take(k));
        if a[k] < b[k] {
        } else {
            assert(b[k] < a[k]);
        }
    }
}

/// The lexicographic order is total: of two different sequences, one is before the other.
pub proof fn lemma_seq_lt_total(a: Seq<char>, b: Seq<char>)
    ensures
        !seq_lt(a, b) && !seq_lt(b, a) ==> a == b,
{
    assert(a.take(0) == b.take(0));
    lemma_seq_lt_from_prefix(a, b, 0);
}

/// No sequence is before itself.
pub proof fn lemma_seq_lt_irreflexive(a: Seq<char>)
    ensures
        !seq_lt(a, a),
{
}

/// The lexicographic order is transitive.
pub proof fn lemma_seq_lt_transitive(a: Seq<char>, b: Seq<char>, c: Seq<char>)
    requires
        seq_lt(a, b),
        seq_lt(b, c),
    ensures
        seq_lt(a, c),
{
    let k1 = choose|k: int|
        #![trigger a.take(k), b.take(k)]
        0 <= k <= a.len() && k <= b.len() && a.take(k) == b.take(k) && {
            ||| (k == a.len() && k < b.len())
            ||| (k < a.len() && k < b.len() && a[k] < b[k])
        };
    let k2 = choose|k: int|
        #![trigger b.take(k), c.take(k)]
        0 <= k <= b.len() && k <= c.len() && b.take(k) == c.take(k) && {
            ||| (k == b.len() && k < c.len())
            ||| (k < b.len() && k < c.len() && b[k] < c[k])
        };
    if k1 < k2 {
        assert(b.take(k1) =~= c.take(k2).take(k1));
        assert(c.take(k1) =~= c.take(k2).take(k1));
        assert(b[k1] == b.take(k2)[k1]);
        assert(c[k1] == c.take(k2)[k1]);
        assert(a.take(k1) == c.take(k1));
    } else if k2 < k1 {
        assert(a.take(k2) =~= a.take(k1).take(k2));
        assert(b.take(k2) =~= b.take(k1).take(k2));
        assert(a[k2] == a.take(k1)[k2]);
        assert(b[k2] == b.take(k1)[k2]);
        assert(a.take(k2) == c.take(k2));
    } else {
        assert(a.take(k1) == c.take(k1));
    }
}

/// Where `a` is before `c`, every `b` is after `a` or before `c`.
pub proof fn lemma_seq_lt_between(a: Seq<char>, b: Seq<char>, c: Seq<char>)
    requires
        seq_lt(a, c),
    ensures
        seq_lt(a, b) || seq_lt(b, c),
{
    lemma_seq_lt_total(a, b);
    lemma_seq_lt_total(b, c);
    if !seq_lt(a, b) && !seq_lt(b, c) {
        if a != b && b != c {
            lemma_seq_lt_transitive(c, b, a);
            lemma_seq_lt_transitive(a, c, a);
        } else if a != b {
            lemma_seq_lt_transitive(a, c, a);
        }
    }
}

/// The character of a decimal digit.
pub open spec fn digit_char(d: nat) -> char {
    if d == 0 {
        '0'
    } else if d == 1 {
        '1'
    } else if d == 2 {
        '2'
    } else if d == 3 {
        '3'
    } else if d == 4 {
        '4'
    } else if d == 5 {
        '5'
    } else if d == 6 {
        '6'
    } else if d == 7 {
        '7'
    } else if d == 8 {
        '8'
    } else {
        '9'
    }
}

/// The decimal representation of `n`, without leading zeros.
pub open spec fn decimal(n: nat) -> Seq<char>
    decreases n,
{
    if n < 10 {
        seq![digit_char(n)]
    } else {
        decimal(n / 10).push(digit_char(n % 10))
    }
}

/// The decimal representation of a signed integer, with a leading `-` when negative.
pub open spec fn signed_decimal(n: int) -> Seq<char> {
    if n < 0 {
        seq!['-'] + decimal((-n) as nat)
    } else {
        decimal(n as nat)
    }
}

/// What `str::to_lowercase` returns for a string (Unicode lowercase mapping).
pub uninterp spec fn lowercase(s: Seq<char>) -> Seq<char>;

/// Whether `c` has the Unicode `White_Space` property, which is what
/// `char::is_whitespace` tests: tab to carriage return, space, next line,
/// no-break space, ogham space mark, the spaces from en quad to hair space,
/// line and paragraph separators, narrow no-break space, medium mathematical
/// space and ideographic space.
pub open spec fn is_white_space(c: char) -> bool {
    ||| ('\u{9}' <= c && c <= '\u{d}')
    ||| c == ' '
    ||| c == '\u{85}'
    ||| c == '\u{a0}'
    ||| c == '\u{1680}'
    ||| ('\u{2000}' <= c && c <= '\u{200a}')
    ||| c == '\u{2028}'
    ||| c == '\u{2029}'
    ||| c == '\u{202f}'
    ||| c == '\u{205f}'
    ||| c == '\u{3000}'
}

/// `s` without the white space at its start.
pub open spec fn trim_start(s: Seq<char>) -> Seq<char>
    decreases s.len(),
{
    if s.len() > 0 && is_white_space(s[0]) {
        trim_start(s.drop_first())
    } else {
        s
    }
}

/// `s` without the white space at its end.
pub open spec fn trim_end(s: Seq<char>) -> Seq<char>
    decreases s.len(),
{
    if s.len() > 0 && is_white_space(s.last()) {
        trim_end(s.drop_last())
    } else {
        s
    }
}

/// `s` without the white space at both ends, as `str::trim` gives it.
pub open spec fn trimmed(s: Seq<char>) -> Seq<char> {
    trim_end(trim_start(s))
}

/// The characters of `s`, in order.
pub fn chars_of(s: &str) -> (v: Vec<char>)
    ensures
        v@ == s@,
{
    let mut v: Vec<char> = Vec::new();
    for c in it: s.chars()
        invariant
            v@ == it.seq().take(it.index() as int),
    {
        v.push(c);
    }
    v
}

/// Whether `pat` occurs in `s` at index `i`.
pub fn matches_at(s: &Vec<char>, pat: &Vec<char>, i: usize) -> (r: bool)
    ensures
        r == occurs_at(s@, pat@, i as int),
{
    if i > s.len() || pat.len() > s.len() - i {
        return false;
    }
    let mut k: usize = 0;
    while k < pat.len()
        invariant
            i + pat.len() <= s.len(),
            k <= pat.len(),
            forall|m: int| 0 <= m < k ==> s@[i + m] == pat@[m],
        decreases pat.len() - k,
    {
        if s[i + k] != pat[k] {
            assert(s@.subrange(i as int, i + pat@.len())[k as int] != pat@[k as int]);
            return false;
        }
        k = k + 1;
    }
    assert(s@.subrange(i as int, i + pat@.len()) =~= pat@);
    true
}

/// The first index at which `pat` occurs in `s`, if any.
pub fn find_first(s: &Vec<char>, pat: &Vec<char>) -> (r: Option<usize>)
    ensures
        match r {
            Some(i) => is_first_occurrence(s@, pat@, i as int),
            None => !contains_seq(s@, pat@),
        },
{
    if pat.len() > s.len() {
        assert forall|i: int| !occurs_at(s@, pat@, i) by {}
        return None;
    }
    let last = s.len() - pat.len();
    let mut i: usize = 0;
    while i < last
        invariant
            last + pat.len() == s.len(),
            i <= last,
            forall|j: int| 0 <= j < i ==> !occurs_at(s@, pat@, j),
        decreases last - i,
    {
        if matches_at(s, pat, i) {
            return Some(i);
        }
        i = i + 1;
    }
    if matches_at(s, pat, last) {
        return Some(last);
    }
    assert forall|j: int| !occurs_at(s@, pat@, j) by {
        if 0 <= j <= i {
        }
    }
    None
}

/// Whether `pat` occurs in `s`.
pub fn contains_chars(s: &Vec<char>, pat: &Vec<char>) -> (r: bool)
    ensures
        r == contains_seq(s@, pat@),
{
    match find_first(s, pat) {
        Some(i) => {
            assert(occurs_at(s@, pat@, i as int));
            true
        },
        None => false,
    }
}

/// The parts of `s` before and after the first occurrence of `sep`, if `sep` occurs.
pub fn split_once(s: &str, sep: &str) -> (r: Option<(String, String)>)
    ensures
        match first_index_of(s@, sep@) {
            Some(i) => r matches Some((a, b)) && a@ == s@.take(i) && b@ == s@.skip(i + sep@.len()),
            None => r is None,
        },
{
    let sc = chars_of(s);
    let pc = chars_of(sep);
    match find_first(&sc, &pc) {
        Some(i) => {
            proof {
                lemma_first_index_of(s@, sep@, i as int);
            }
            let n = s.unicode_len();
            let before = owned(s.substring_char(0, i));
            let after = owned(s.substring_char(i + pc.len(), n));
            proof {
                assert(s@.subrange(0, i as int) == s@.take(i as int));
                assert(s@.subrange(i + sep@.len(), n as int) == s@.skip(i + sep@.len()));
            }
            Some((before, after))
        },
        None => None,
    }
}

/// Lexicographic comparison of two character sequences.
pub fn chars_lt(a: &Vec<char>, b: &Vec<char>) -> (r: bool)
    ensures
        r == seq_lt(a@, b@),
{
    let mut k: usize = 0;
    while k < a.len() && k < b.len() && a[k] == b[k]
        invariant
            k <= a.len(),
            k <= b.len(),
            a@.take(k as int) == b@.take(k as int),
        decreases a.len() - k,
    {
        assert(a@.take(k + 1) == a@.take(k as int).push(a@[k as int]));
        assert(b@.take(k + 1) == b@.take(k as int).push(b@[k as int]));
        k = k + 1;
    }
    let r = if k < a.len() && k < b.len() {
        a[k] < b[k]
    } else {
        k == a.len() && k < b.len()
    };
    if r {
        assert(a@.take(k as int) == b@.take(k as int));
    } else {
        assert forall|j: int|
            0 <= j <= a@.len() && j <= b@.len() && #[trigger] a@.take(j) == #[trigger] b@.take(j)
            implies !({
                ||| (j == a@.len() && j < b@.len())
                ||| (j < a@.len() && j < b@.len() && a@[j] < b@[j])
            }) by {
            if j < k {
                assert(a@.take(k as int)[j] == a@[j]);
                assert(b@.take(k as int)[j] == b@[j]);
            } else if j > k {
                assert(a@.take(j)[k as int] == a@[k as int]);
                assert(b@.take(j)[k as int] == b@[k as int]);
            }
        }
    }
    r
}

/// `a` followed by `b`.
pub fn concat2(a: &str, b: &str) -> (r: String)
    ensures
        r@ == a@ + b@,
{
    let mut r = String::new();
    r.append(a);
    r.append(b);
    r
}

/// `a`, `b` and `c`, one after another.
pub fn concat3(a: &str, b: &str, c: &str) -> (r: String)
    ensures
        r@ == a@ + b@ + c@,
{
    let mut r = String::new();
    r.append(a);
    r.append(b);
    r.append(c);
    r
}

/// A copy of `s` as an owned string.
pub fn owned(s: &str) -> (r: String)
    ensures
        r@ == s@,
{
    let mut r = String::new();
    r.append(s);
    r
}

/// Whether two strings hold the same characters.
pub fn text_eq(a: &str, b: &str) -> (r: bool)
    ensures
        r == (a@ == b@),
{
    let x = owned(a);
    let y = owned(b);
    x == y
}

/// The text of one decimal digit.
fn digit_text(d: usize) -> (r: &'static str)
    requires
        d < 10,
    ensures
        r@ == seq![digit_char(d as nat)],
{
    proof {
        reveal_strlit("0");
        reveal_strlit("1");
        reveal_strlit("2");
        reveal_strlit("3");
        reveal_strlit("4");
        reveal_strlit("5");
        reveal_strlit("6");
        reveal_strlit("7");
        reveal_strlit("8");
        reveal_strlit("9");
    }
    if d == 0 {
        "0"
    } else if d == 1 {
        "1"
    } else if d == 2 {
        "2"
    } else if d == 3 {
        "3"
    } else if d == 4 {
        "4"
    } else if d == 5 {
        "5"
    } else if d == 6 {
        "6"
    } else if d == 7 {
        "7"
    } else if d == 8 {
        "8"
    } else {
        "9"
    }
}

/// Appends the decimal representation of `n` to `out`.
fn push_decimal(out: &mut String, n: u64)
    ensures
        final(out)@ == old(out)@ + decimal(n as nat),
    decreases n,
{
    if n < 10 {
        out.append(digit_text(n as usize));
    } else {
        push_decimal(out, n / 10);
        out.append(digit_text((n % 10) as usize));
        assert(decimal(n as nat) == decimal((n / 10) as nat).push(digit_char((n % 10) as nat)));
    }
}

/// The decimal representation of `n`, as `n.to_string()` writes it.
pub fn decimal_text(n: u64) -> (r: String)
    ensures
        r@ == decimal(n as nat),
{
    let mut r = String::new();
    push_decimal(&mut r, n);
    r
}

/// The decimal representation of a signed `n`, as `n.to_string()` writes it.
pub fn signed_decimal_text(n: i64) -> (r: String)
    ensures
        r@ == signed_decimal(n as int),
{
    let mut r = String::new();
    if n < 0 {
        proof {
            reveal_strlit("-");
        }
        r.append("-");
        let m: u64 = if n == i64::MIN {
            9223372036854775808u64
        } else {
            (-n) as u64
        };
        push_decimal(&mut r, m);
    } else {
        push_decimal(&mut r, n as u64);
    }
    r
}

/// `str::to_lowercase`: the contract names the result of Unicode lowercase
/// mapping on the characters of `s`, and claims nothing more of it.
#[verifier::external_body]
pub(crate) fn to_lowercase(s: &str) -> (r: String)
    ensures
        r@ == lowercase(s@),
{
    s.to_lowercase()
}

/// Whether `c` is white space.
pub fn white_space(c: char) -> (r: bool)
    ensures
        r == is_white_space(c),
{
    ('\u{9}' <= c && c <= '\u{d}') || c == ' ' || c == '\u{85}' || c == '\u{a0}' || c == '\u{1680}'
        || ('\u{2000}' <= c && c <= '\u{200a}') || c == '\u{2028}' || c == '\u{2029}' || c
        == '\u{202f}' || c == '\u{205f}' || c == '\u{3000}'
}

/// `s` without the white space at both ends, as an owned string.
pub fn trim(s: &str) -> (r: String)
    ensures
        r@ == trimmed(s@),
{
    let cs = chars_of(s);
    let n = cs.len();
    let mut i: usize = 0;
    assert(s@.subrange(0, n as int) =~= s@);
    while i < n && white_space(cs[i])
        invariant
            i <= n,
            n == s@.len(),
            cs@ == s@,
            trim_start(s@) == trim_start(s@.subrange(i as int, n as int)),
        decreases n - i,
    {
        assert(s@.subrange(i as int, n as int).drop_first() =~= s@.subrange(i + 1, n as int));
        i = i + 1;
    }
    let ghost t = s@.subrange(i as int, n as int);
    assert(trim_start(s@) == t);
    let mut j: usize = n;
    assert(t.subrange(0, (j - i) as int) =~= t);
    while j > i && white_space(cs[j - 1])
        invariant
            i <= j <= n,
            n == s@.len(),
            cs@ == s@,
            t == s@.subrange(i as int, n as int),
            trim_end(t) == trim_end(s@.subrange(i as int, j as int)),
        decreases j - i,
    {
        assert(s@.subrange(i as int, j as int).drop_last() =~= s@.subrange(i as int, j - 1));
        assert(s@.subrange(i as int, j as int).last() == cs@[j - 1]);
        j = j - 1;
    }
    owned(s.substring_char(i, j))
}

/// Whether `c` is an ASCII decimal digit.
pub open spec fn is_digit(c: char) -> bool {
    '0' <= c && c <= '9'
}

/// The value of a sequence of decimal digits, most significant first.
pub open spec fn digits_value(d: Seq<char>) -> nat
    decreases d.len(),
{
    if d.len() == 0 {
        0
    } else {
        (digits_value(d.drop_last()) * 10 + ((d.last() as int) - ('0' as int))) as nat
    }
}

/// The digits of an unsigned decimal numeral: the text after an optional `+`.
pub open spec fn unsigned_digits(s: Seq<char>) -> Seq<char> {
    if s.len() > 0 && s[0] == '+' {
        s.drop_first()
    } else {
        s
    }
}

/// The value of an unsigned decimal numeral: an optional `+` and one or more
/// ASCII digits, nothing else (no white space).
pub open spec fn parsed_unsigned(s: Seq<char>) -> Option<nat> {
    let d = unsigned_digits(s);
    if d.len() > 0 && (forall|i: int| 0 <= i < d.len() ==> is_digit(#[trigger] d[i])) {
        Some(digits_value(d))
    } else {
        None
    }
}

/// The value of an unsigned decimal numeral that is at most `max`.
pub open spec fn parsed_at_most(s: Seq<char>, max: nat) -> Option<nat> {
    match parsed_unsigned(s) {
        Some(v) => if v <= max {
            Some(v)
        } else {
            None
        },
        None => None,
    }
}

/// Reads an unsigned decimal numeral no greater than `max`, as `str::parse`
/// reads one for an unsigned integer type whose largest value is `max`.
pub fn parse_unsigned_at_most(s: &str, max: u64) -> (r: Option<u64>)
    ensures
        match parsed_at_most(s@, max as nat) {
            Some(v) => r == Some(v as u64),
            None => r is None,
        },
{
    let cs = chars_of(s);
    let start: usize = if cs.len() > 0 && cs[0] == '+' {
        1
    } else {
        0
    };
    let ghost d = unsigned_digits(s@);
    assert(d =~= cs@.skip(start as int));
    if start >= cs.len() {
        return None;
    }
    let mut acc: u64 = 0;
    let mut over = false;
    let mut i: usize = start;
    assert(d.take(0) =~= Seq::<char>::empty());
    while i < cs.len()
        invariant
            start <= i <= cs.len(),
            start < cs.len(),
            d == cs@.skip(start as int),
            d == unsigned_digits(s@),
            forall|k: int| 0 <= k < i - start ==> is_digit(#[trigger] d[k]),
            !over ==> acc == digits_value(d.take(i - start)) && acc <= max,
            over ==> digits_value(d.take(i - start)) > max,
        decreases cs.len() - i,
    {
        let c = cs[i];
        assert(c == d[i - start]);
        if !('0' <= c && c <= '9') {
            assert(!is_digit(d[i - start]));
            return None;
        }
        let ghost k: int = i - start;
        assert(d.take(k + 1).drop_last() =~= d.take(k));
        assert(d.take(k + 1).last() == c);
        if !over {
            let digit: u64 = (c as u64) - ('0' as u64);
            let n: u128 = (acc as u128) * 10 + (digit as u128);
            if n <= max as u128 {
                acc = n as u64;
            } else {
                over = true;
            }
        }
        i = i + 1;
    }
    assert(d.take(i - start) =~= d);
    if over {
        None
    } else {
        Some(acc)
    }
}

/// The pieces of `s` between occurrences of `sep`, as `str::split` gives them:
/// one more piece than there are separators, empty pieces included.
pub open spec fn split_on(s: Seq<char>, sep: char) -> Seq<Seq<char>>
    decreases s.len(),
{
    if s.len() == 0 {
        seq![Seq::<char>::empty()]
    } else {
        let p = split_on(s.drop_last(), sep);
        if s.last() == sep {
            p.push(Seq::<char>::empty())
        } else {
            p.update(p.len() - 1, p.last().push(s.last()))
        }
    }
}

/// The pieces of `s` between occurrences of `sep`.
pub fn split_text(s: &str, sep: char) -> (r: Vec<String>)
    ensures
        strings_view(r@) == split_on(s@, sep),
{
    let cs = chars_of(s);
    let n = cs.len();
    let mut pieces: Vec<String> = Vec::new();
    let mut start: usize = 0;
    let mut i: usize = 0;
    assert(s@.take(0) =~= Seq::<char>::empty());
    assert(strings_view(pieces@).push(s@.subrange(0, 0)) =~= seq![Seq::<char>::empty()]);
    while i < n
        invariant
            n == cs@.len(),
            cs@ == s@,
            start <= i <= n,
            split_on(s@.take(i as int), sep) == strings_view(pieces@).push(
                s@.subrange(start as int, i as int),
            ),
        decreases n - i,
    {
        let ghost before = strings_view(pieces@);
        let ghost current = s@.subrange(start as int, i as int);
        assert(s@.take(i + 1).drop_last() =~= s@.take(i as int));
        assert(s@.take(i + 1).last() == cs@[i as int]);
        if cs[i] == sep {
            let piece = owned(s.substring_char(start, i));
            pieces.push(piece);
            start = i + 1;
            assert(strings_view(pieces@) =~= before.push(current));
            assert(s@.subrange(start as int, start as int) =~= Seq::<char>::empty());
        } else {
            assert(current.push(cs@[i as int]) =~= s@.subrange(start as int, i + 1));
            assert(before.push(current).update(before.len() as int, current.push(cs@[i as int]))
                =~= before.push(current.push(cs@[i as int])));
        }
        i = i + 1;
    }
    assert(s@.take(n as int) =~= s@);
    let ghost before = strings_view(pieces@);
    let last = owned(s.substring_char(start, n));
    pieces.push(last);
    assert(strings_view(pieces@) =~= before.push(s@.subrange(start as int, n as int)));
    pieces
}

} // verus!
