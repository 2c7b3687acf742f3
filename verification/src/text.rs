use vstd::prelude::*;

verus! {

/// Unicode `White_Space`, the set that `char::is_whitespace` tests.
pub open spec fn is_ws(c: char) -> bool {
    let n = c as u32;
    ||| 0x09 <= n <= 0x0d
    ||| n == 0x20
    ||| n == 0x85
    ||| n == 0xa0
    ||| n == 0x1680
    ||| 0x2000 <= n <= 0x200a
    ||| n == 0x2028
    ||| n == 0x2029
    ||| n == 0x202f
    ||| n == 0x205f
    ||| n == 0x3000
}

pub fn is_whitespace(c: char) -> (b: bool)
    ensures
        b == is_ws(c),
{
    let n = c as u32;
    (0x09 <= n && n <= 0x0d) || n == 0x20 || n == 0x85 || n == 0xa0 || n == 0x1680 || (0x2000
        <= n && n <= 0x200a) || n == 0x2028 || n == 0x2029 || n == 0x202f || n == 0x205f || n
        == 0x3000
}

/// The first index at or after `i` that does not hold whitespace (or the length).
pub open spec fn skip_ws(s: Seq<char>, i: int) -> int
    decreases s.len() - i,
{
    if 0 <= i < s.len() && is_ws(s[i]) {
        skip_ws(s, i + 1)
    } else {
        i
    }
}

/// Walking back from `j`, not below `lo`, the end of the last non-whitespace run.
pub open spec fn trim_back(s: Seq<char>, lo: int, j: int) -> int
    decreases j - lo,
{
    if lo < j && is_ws(s[j - 1]) {
        trim_back(s, lo, j - 1)
    } else {
        j
    }
}

/// `s` without its leading and trailing whitespace, as `str::trim` gives it.
pub open spec fn trimmed(s: Seq<char>) -> Seq<char> {
    let a = skip_ws(s, 0);
    s.subrange(a, trim_back(s, a, s.len() as int))
}

pub proof fn lemma_skip_ws_bounds(s: Seq<char>, i: int)
    requires
        0 <= i <= s.len(),
    ensures
        i <= skip_ws(s, i) <= s.len(),
        skip_ws(s, i) < s.len() ==> !is_ws(s[skip_ws(s, i)]),
        forall|k: int| i <= k < skip_ws(s, i) ==> is_ws(#[trigger] s[k]),
    decreases s.len() - i,
{
    if i < s.len() && is_ws(s[i]) {
        lemma_skip_ws_bounds(s, i + 1);
    }
}

proof fn lemma_trim_back_props(s: Seq<char>, lo: int, j: int)
    requires
        0 <= lo <= j <= s.len(),
    ensures
        lo <= trim_back(s, lo, j) <= j,
        forall|i: int| trim_back(s, lo, j) <= i < j ==> is_ws(#[trigger] s[i]),
        trim_back(s, lo, j) > lo ==> !is_ws(s[trim_back(s, lo, j) - 1]),
    decreases j - lo,
{
    if lo < j && is_ws(s[j - 1]) {
        lemma_trim_back_props(s, lo, j - 1);
    }
}

/// Whether `t` stands in `s` at `a` with only whitespace before and after it.
pub open spec fn whitespace_around(s: Seq<char>, t: Seq<char>, a: int) -> bool {
    &&& 0 <= a
    &&& a + t.len() <= s.len()
    &&& s.subrange(a, a + t.len()) == t
    &&& forall|i: int| 0 <= i < a ==> is_ws(#[trigger] s[i])
    &&& forall|i: int| a + t.len() <= i < s.len() ==> is_ws(#[trigger] s[i])
}

/// Trimming takes off whitespace and nothing else: what is left is a piece
/// of `s` with only whitespace before and after it in `s`, and it neither
/// starts nor ends with whitespace. Spaces, tabs and line ends are
/// whitespace; digits are not.
pub proof fn law_trim_removes_outer_whitespace(s: Seq<char>)
    ensures
        exists|a: int| #[trigger] whitespace_around(s, trimmed(s), a),
        trimmed(s).len() > 0 ==> !is_ws(trimmed(s)[0]) && !is_ws(trimmed(s).last()),
        is_ws(' ') && is_ws('\t') && is_ws('\n') && is_ws('\r'),
        forall|c: char| is_digit(c) ==> !is_ws(c),
{
    lemma_skip_ws_bounds(s, 0);
    let a = skip_ws(s, 0);
    lemma_trim_back_props(s, a, s.len() as int);
    let b = trim_back(s, a, s.len() as int);
    assert(trimmed(s) == s.subrange(a, b));
    assert(s.subrange(a, a + trimmed(s).len()) =~= trimmed(s));
    assert(whitespace_around(s, trimmed(s), a));
    if b > a {
        assert(trimmed(s)[0] == s[a]);
        assert(trimmed(s).last() == s[b - 1]);
    }
    assert((' ' as u32) == 32 && ('\t' as u32) == 9 && ('\n' as u32) == 10 && ('\r' as u32) == 13);
}

/// `str::trim`: drops leading and trailing whitespace.
pub fn trim(s: &str) -> (r: String)
    ensures
        r@ == trimmed(s@),
{
    let n = s.unicode_len();
    let mut a: usize = 0;
    while a < n && is_whitespace(s.get_char(a))
        invariant
            n == s@.len(),
            a <= n,
            skip_ws(s@, a as int) == skip_ws(s@, 0),
        decreases n - a,
    {
        a = a + 1;
    }
    let mut b: usize = n;
    while b > a && is_whitespace(s.get_char(b - 1))
        invariant
            n == s@.len(),
            a <= b <= n,
            a == skip_ws(s@, 0),
            trim_back(s@, a as int, b as int) == trim_back(s@, a as int, n as int),
        decreases b - a,
    {
        b = b - 1;
    }
    String::from_str(s.substring_char(a, b))
}


pub open spec fn is_digit(c: char) -> bool {
    48 <= (c as u32) <= 57
}

pub open spec fn digit_value(c: char) -> nat {
    (c as u32 - 48) as nat
}

/// The number that a run of decimal digits denotes.
pub open spec fn digits_value(ds: Seq<char>) -> nat
    decreases ds.len(),
{
    if ds.len() == 0 {
        0
    } else {
        digits_value(ds.drop_last()) * 10 + digit_value(ds.last())
    }
}

pub open spec fn all_digits(ds: Seq<char>) -> bool {
    forall|i: int| 0 <= i < ds.len() ==> is_digit(#[trigger] ds[i])
}

/// What follows an optional leading `+`.
pub open spec fn unsigned_body(s: Seq<char>) -> Seq<char> {
    if s.len() > 0 && s[0] == '+' {
        s.drop_first()
    } else {
        s
    }
}

/// What `str::parse` gives for an unsigned integer type whose largest value
/// is `max`: an optional `+`, then one or more decimal digits, no larger than `max`.
pub open spec fn parsed_unsigned(s: Seq<char>, max: nat) -> Option<nat> {
    let ds = unsigned_body(s);
    if ds.len() > 0 && all_digits(ds) && digits_value(ds) <= max {
        Some(digits_value(ds))
    } else {
        None
    }
}

/// A parse succeeds only on decimal digits, with at most a leading `+`,
/// and never gives more than `max`.
pub proof fn law_parse_only_digits(s: Seq<char>, max: nat)
    ensures
        parsed_unsigned(s, max) matches Some(v) ==> {
            &&& v <= max
            &&& s.len() > 0
            &&& forall|i: int| 0 <= i < s.len() && !(i == 0 && s[0] == '+') ==> is_digit(#[trigger] s[i])
            &&& !(s.len() == 1 && s[0] == '+')
        },
        forall|c: char| is_digit(c) <==> 48 <= (c as u32) <= 57,
{
    if parsed_unsigned(s, max) is Some {
        let ds = unsigned_body(s);
        assert forall|i: int| 0 <= i < s.len() && !(i == 0 && s[0] == '+') implies is_digit(
            #[trigger] s[i],
        ) by {
            if s[0] == '+' {
                assert(s[i] == ds[i - 1]);
            } else {
                assert(s[i] == ds[i]);
            }
        }
    }
}

proof fn lemma_digits_value_prefix(ds: Seq<char>, k: int)
    requires
        0 <= k <= ds.len(),
        all_digits(ds),
    ensures
        digits_value(ds.take(k)) <= digits_value(ds),
    decreases ds.len() - k,
{
    if k < ds.len() {
        lemma_digits_value_prefix(ds, k + 1);
        assert(ds.take(k + 1).drop_last() =~= ds.take(k));
        let x = digits_value(ds.take(k));
        let y = digit_value(ds.take(k + 1).last());
        assert(x <= x * 10 + y) by (nonlinear_arith);
    } else {
        assert(ds.take(k) =~= ds);
    }
}

/// Parses an unsigned decimal number no larger than `max`, as `str::parse`
/// does for the unsigned integer type whose largest value is `max`.
pub fn parse_unsigned(s: &str, max: u64) -> (r: Option<u64>)
    ensures
        match parsed_unsigned(s@, max as nat) {
            Some(v) => r == Some(v as u64),
            None => r is None,
        },
{
    let n = s.unicode_len();
    let mut start: usize = 0;
    if n > 0 && s.get_char(0) == '+' {
        start = 1;
    }
    let ghost body = unsigned_body(s@);
    assert(body =~= s@.subrange(start as int, n as int));
    if start == n {
        return None;
    }
    let mut acc: u64 = 0;
    let mut i: usize = start;
    while i < n
        invariant
            n == s@.len(),
            start <= i <= n,
            body =~= s@.subrange(start as int, n as int),
            body == unsigned_body(s@),
            all_digits(body.take(i - start)),
            acc as nat == digits_value(body.take(i - start)),
            acc <= max,
        decreases n - i,
    {
        let c = s.get_char(i);
        let code = c as u32;
        assert(body[i - start] == c);
        if code < 48 || code > 57 {
            assert(!is_digit(body[i - start]));
            assert(!all_digits(body));
            return None;
        }
        let d = (code - 48) as u64;
        assert(body.take(i + 1 - start).drop_last() =~= body.take(i - start));
        assert(body.take(i + 1 - start).last() == c);
        assert(digit_value(c) == d);
        assert(digits_value(body.take(i + 1 - start)) == acc * 10 + d);
        if d > max || acc > (max - d) / 10 {
            proof {
                assert(acc * 10 + d > max) by (nonlinear_arith)
                    requires
                        d > max || acc > (max - d) / 10,
                        d <= 9,
                ;
                if all_digits(body) {
                    lemma_digits_value_prefix(body, i + 1 - start);
                    assert(digits_value(body) > max);
                }
            }
            return None;
        }
        assert(acc * 10 + d <= max) by (nonlinear_arith)
            requires
                d <= max,
                acc <= (max - d) / 10,
        ;
        acc = acc * 10 + d;
        i = i + 1;
    }
    assert(body.take(n - start) =~= body);
    Some(acc)
}

/// The decimal digit for `d` (below ten).
pub open spec fn digit_char(d: nat) -> char {
    (d + 48) as char
}

/// The decimal rendering of `n`, with no leading zeros: what `to_string` gives.
pub open spec fn decimal(n: nat) -> Seq<char>
    decreases n,
{
    if n < 10 {
        seq![digit_char(n)]
    } else {
        decimal(n / 10).push(digit_char(n % 10))
    }
}

fn digit_str(d: u64) -> (r: &'static str)
    requires
        d < 10,
    ensures
        r@ == seq![digit_char(d as nat)],
{
    proof {
        reveal_strlit("0");
        reveal_strlit("1");
        reveal_strlit("2");
        reveal_strlit("3");
        reveal_strlit("4");
        reveal_strlit("5");
        reveal_strlit("6");
        reveal_strlit("7");
        reveal_strlit("8");
        reveal_strlit("9");
    }
    match d {
        0 => "0",
        1 => "1",
        2 => "2",
        3 => "3",
        4 => "4",
        5 => "5",
        6 => "6",
        7 => "7",
        8 => "8",
        _ => "9",
    }
}

proof fn lemma_decimal_digits(n: nat)
    ensures
        decimal(n).len() > 0,
        all_digits(decimal(n)),
        digits_value(decimal(n)) == n,
    decreases n,
{
    let c = digit_char(n % 10);
    assert((c as u32) == n % 10 + 48);
    assert(digit_value(c) == n % 10);
    if n < 10 {
        assert(decimal(n).drop_last() =~= Seq::<char>::empty());
        assert(digits_value(Seq::<char>::empty()) == 0);
        assert(n % 10 == n);
        assert(digits_value(decimal(n)) == digits_value(decimal(n).drop_last()) * 10 + digit_value(
            decimal(n).last(),
        ));
    } else {
        lemma_decimal_digits(n / 10);
        let s = decimal(n);
        assert(s.drop_last() =~= decimal(n / 10));
        assert(s.last() == c);
        assert(digits_value(s) == digits_value(decimal(n / 10)) * 10 + digit_value(c));
        assert((n / 10) * 10 + n % 10 == n);
        assert forall|i: int| 0 <= i < s.len() implies is_digit(#[trigger] s[i]) by {
            if i < s.len() - 1 {
                assert(s[i] == decimal(n / 10)[i]);
            }
        }
    }
}

/// A decimal rendering has no whitespace to trim, alone or with a line end
/// after it.
pub proof fn law_decimal_trims_to_itself(n: nat)
    ensures
        trimmed(decimal(n)) == decimal(n),
        trimmed(decimal(n) + "\n"@) == decimal(n),
{
    lemma_decimal_digits(n);
    reveal_strlit("\n");
    let d = decimal(n);
    assert(is_digit(d[0]) && !is_ws(d[0]));
    assert(is_digit(d.last()) && !is_ws(d.last()));
    assert(skip_ws(d, 0) == 0);
    assert(trim_back(d, 0, d.len() as int) == d.len());
    assert(d.subrange(0, d.len() as int) =~= d);
    let e = d + "\n"@;
    assert(e[0] == d[0]);
    assert(skip_ws(e, 0) == 0);
    assert(e[e.len() - 1] == '\n');
    assert(('\n' as u32) == 10);
    assert(e[e.len() - 2] == d.last());
    assert(trim_back(e, 0, e.len() - 1) == e.len() - 1);
    assert(trim_back(e, 0, e.len() as int) == e.len() - 1);
    assert(e.subrange(0, e.len() - 1) =~= d);
}

/// What `to_string` writes, `parse` reads back: the decimal rendering of a
/// number no larger than `max` parses as that number.
pub proof fn law_decimal_parses_back(n: nat, max: nat)
    requires
        n <= max,
    ensures
        parsed_unsigned(decimal(n), max) == Some(n),
{
    lemma_decimal_digits(n);
    let s = decimal(n);
    assert(is_digit(s[0]));
    assert(s[0] != '+');
    assert(unsigned_body(s) == s);
}

/// Renders `n` in decimal, as `to_string` does for an unsigned integer.
pub fn to_decimal(n: u64) -> (r: String)
    ensures
        r@ == decimal(n as nat),
    decreases n,
{
    if n < 10 {
        String::from_str(digit_str(n))
    } else {
        let mut r = to_decimal(n / 10);
        r.append(digit_str(n % 10));
        r
    }
}


/// Whether two texts are equal, char for char.
pub fn same_text(a: &str, b: &str) -> (r: bool)
    ensures
        r == (a@ == b@),
{
    let n = a.unicode_len();
    let m = b.unicode_len();
    if n != m {
        return false;
    }
    let mut i: usize = 0;
    while i < n
        invariant
            n == a@.len(),
            n == b@.len(),
            i <= n,
            a@.take(i as int) == b@.take(i as int),
        decreases n - i,
    {
        if a.get_char(i) != b.get_char(i) {
            return false;
        }
        assert(a@.take(i + 1) =~= a@.take(i as int).push(a@[i as int]));
        assert(b@.take(i + 1) =~= b@.take(i as int).push(b@[i as int]));
        i = i + 1;
    }
    assert(a@ =~= a@.take(n as int));
    assert(b@ =~= b@.take(n as int));
    true
}

/// `str::starts_with`: whether `s` begins with `prefix`.
pub fn starts_with(s: &str, prefix: &str) -> (r: bool)
    ensures
        r == (prefix@.len() <= s@.len() && s@.subrange(0, prefix@.len() as int) == prefix@),
{
    let n = s.unicode_len();
    let m = prefix.unicode_len();
    if m > n {
        return false;
    }
    let mut i: usize = 0;
    while i < m
        invariant
            n == s@.len(),
            m == prefix@.len(),
            m <= n,
            i <= m,
            s@.take(i as int) == prefix@.take(i as int),
        decreases m - i,
    {
        if s.get_char(i) != prefix.get_char(i) {
            assert(s@.subrange(0, m as int)[i as int] != prefix@[i as int]);
            return false;
        }
        assert(s@.take(i + 1) =~= s@.take(i as int).push(s@[i as int]));
        assert(prefix@.take(i + 1) =~= prefix@.take(i as int).push(prefix@[i as int]));
        i = i + 1;
    }
    assert(prefix@ =~= prefix@.take(m as int));
    assert(s@.subrange(0, m as int) =~= s@.take(m as int));
    true
}

/// The text of an optional string.
pub open spec fn opt_view(o: Option<String>) -> Option<Seq<char>> {
    match o {
        Some(s) => Some(s@),
        None => None,
    }
}

/// The views of a sequence of owned strings.
pub open spec fn views(v: Seq<String>) -> Seq<Seq<char>> {
    v.map_values(|w: String| w@)
}

/// The end of the run of non-whitespace that starts at `i`.
pub open spec fn word_end(s: Seq<char>, i: int) -> int
    decreases s.len() - i,
{
    if 0 <= i < s.len() && !is_ws(s[i]) {
        word_end(s, i + 1)
    } else {
        i
    }
}

pub proof fn lemma_word_end_bounds(s: Seq<char>, i: int)
    requires
        0 <= i <= s.len(),
    ensures
        i <= word_end(s, i) <= s.len(),
        i < s.len() && !is_ws(s[i]) ==> i < word_end(s, i),
    decreases s.len() - i,
{
    if i < s.len() && !is_ws(s[i]) {
        lemma_word_end_bounds(s, i + 1);
    }
}

/// The whitespace-separated words of `s` from index `i` on, as
/// `str::split_whitespace` yields them.
pub open spec fn words_from(s: Seq<char>, i: int) -> Seq<Seq<char>>
    decreases s.len() - i,
{
    if !(0 <= i < s.len()) {
        seq![]
    } else {
        let a = skip_ws(s, i);
        if a >= s.len() {
            seq![]
        } else {
            let b = word_end(s, a);
            proof {
                lemma_skip_ws_bounds(s, i);
                lemma_word_end_bounds(s, a);
            }
            seq![s.subrange(a, b)] + words_from(s, b)
        }
    }
}

pub open spec fn words_of(s: Seq<char>) -> Seq<Seq<char>> {
    words_from(s, 0)
}

/// Every word is a non-empty run of chars none of which is whitespace.
pub proof fn law_words_have_no_whitespace(s: Seq<char>, i: int)
    requires
        0 <= i <= s.len(),
    ensures
        forall|k: int|
            0 <= k < words_from(s, i).len() ==> #[trigger] words_from(s, i)[k].len() > 0,
        forall|k: int, j: int|
            0 <= k < words_from(s, i).len() && 0 <= j < words_from(s, i)[k].len() ==> !is_ws(
                #[trigger] words_from(s, i)[k][j],
            ),
    decreases s.len() - i,
{
    if i < s.len() {
        lemma_skip_ws_bounds(s, i);
        let a = skip_ws(s, i);
        if a < s.len() {
            lemma_word_end_props(s, a);
            let b = word_end(s, a);
            law_words_have_no_whitespace(s, b);
            let w = s.subrange(a, b);
            let ws = words_from(s, i);
            assert(ws == seq![w] + words_from(s, b));
            assert forall|k: int, j: int| 0 <= k < ws.len() && 0 <= j < ws[k].len() implies !is_ws(
                #[trigger] ws[k][j],
            ) by {
                if k == 0 {
                    assert(ws[0][j] == s[a + j]);
                } else {
                    assert(ws[k] == words_from(s, b)[k - 1]);
                }
            }
            assert forall|k: int| 0 <= k < ws.len() implies #[trigger] ws[k].len() > 0 by {
                if k > 0 {
                    assert(ws[k] == words_from(s, b)[k - 1]);
                }
            }
        }
    }
}

proof fn lemma_word_end_props(s: Seq<char>, i: int)
    requires
        0 <= i < s.len(),
        !is_ws(s[i]),
    ensures
        i < word_end(s, i) <= s.len(),
        forall|j: int| i <= j < word_end(s, i) ==> !is_ws(#[trigger] s[j]),
    decreases s.len() - i,
{
    if i + 1 < s.len() && !is_ws(s[i + 1]) {
        lemma_word_end_props(s, i + 1);
    } else {
        assert(word_end(s, i + 1) == i + 1);
    }
}

/// `str::split_whitespace`, collected.
pub fn words(s: &str) -> (r: Vec<String>)
    ensures
        views(r@) == words_of(s@),
{
    let n = s.unicode_len();
    let mut out: Vec<String> = Vec::new();
    let mut i: usize = 0;
    loop
        invariant
            n == s@.len(),
            i <= n,
            views(out@) + words_from(s@, i as int) == words_of(s@),
        decreases n - i,
    {
        let mut a: usize = i;
        while a < n && is_whitespace(s.get_char(a))
            invariant
                n == s@.len(),
                i <= a <= n,
                skip_ws(s@, a as int) == skip_ws(s@, i as int),
            decreases n - a,
        {
            a = a + 1;
        }
        if a == n {
            assert(words_from(s@, i as int) =~= seq![]);
            assert(views(out@) =~= views(out@) + words_from(s@, i as int));
            return out;
        }
        proof {
            lemma_skip_ws_bounds(s@, i as int);
        }
        let mut b: usize = a;
        while b < n && !is_whitespace(s.get_char(b))
            invariant
                n == s@.len(),
                a <= b <= n,
                word_end(s@, b as int) == word_end(s@, a as int),
            decreases n - b,
        {
            b = b + 1;
        }
        proof {
            lemma_word_end_bounds(s@, a as int);
        }
        let w = String::from_str(s.substring_char(a, b));
        let ghost before = out@;
        out.push(w);
        assert(views(out@) =~= views(before).push(s@.subrange(a as int, b as int)));
        assert(views(out@) + words_from(s@, b as int) =~= views(before) + words_from(s@, i as int));
        i = b;
    }
}

/// The index of the first `'\n'` at or after `i` (or the length).
pub open spec fn line_end(s: Seq<char>, i: int) -> int
    decreases s.len() - i,
{
    if 0 <= i < s.len() && s[i] != '\n' {
        line_end(s, i + 1)
    } else {
        i
    }
}

pub proof fn lemma_line_end_bounds(s: Seq<char>, i: int)
    requires
        0 <= i <= s.len(),
    ensures
        i <= line_end(s, i) <= s.len(),
        line_end(s, i) < s.len() ==> s[line_end(s, i)] == '\n',
    decreases s.len() - i,
{
    if i < s.len() && s[i] != '\n' {
        lemma_line_end_bounds(s, i + 1);
    }
}

/// A line without the `'\r'` of a `"\r\n"` ending.
pub open spec fn strip_cr(l: Seq<char>) -> Seq<char> {
    if l.len() > 0 && l.last() == '\r' {
        l.drop_last()
    } else {
        l
    }
}

/// The lines of `s` from index `i` on, as `str::lines` yields them: split at
/// `'\n'`, a `'\r'` before the `'\n'` dropped, no empty line after a final `'\n'`.
pub open spec fn lines_from(s: Seq<char>, i: int) -> Seq<Seq<char>>
    decreases s.len() - i,
{
    if !(0 <= i < s.len()) {
        seq![]
    } else {
        let e = line_end(s, i);
        proof {
            lemma_line_end_bounds(s, i);
        }
        if e < s.len() {
            seq![strip_cr(s.subrange(i, e))] + lines_from(s, e + 1)
        } else {
            seq![s.subrange(i, e)]
        }
    }
}

pub open spec fn lines_of(s: Seq<char>) -> Seq<Seq<char>> {
    lines_from(s, 0)
}

/// No line holds a line feed, and only the last line can end with a
/// carriage return.
pub proof fn law_lines_have_no_line_feed(s: Seq<char>, i: int)
    requires
        0 <= i <= s.len(),
    ensures
        forall|k: int, j: int|
            0 <= k < lines_from(s, i).len() && 0 <= j < lines_from(s, i)[k].len() ==> #[trigger] lines_from(
                s,
                i,
            )[k][j] != '\n',
    decreases s.len() - i,
{
    if i < s.len() {
        lemma_line_end_props(s, i);
        let e = line_end(s, i);
        let ls = lines_from(s, i);
        if e < s.len() {
            law_lines_have_no_line_feed(s, e + 1);
            let l = strip_cr(s.subrange(i, e));
            assert forall|k: int, j: int| 0 <= k < ls.len() && 0 <= j < ls[k].len() implies #[trigger] ls[k][j]
                != '\n' by {
                if k == 0 {
                    assert(ls[0] == l);
                    assert(l[j] == s[i + j]);
                } else {
                    assert(ls[k] == lines_from(s, e + 1)[k - 1]);
                }
            }
        } else {
            assert forall|k: int, j: int| 0 <= k < ls.len() && 0 <= j < ls[k].len() implies #[trigger] ls[k][j]
                != '\n' by {
                assert(ls[0][j] == s[i + j]);
            }
        }
    }
}

proof fn lemma_line_end_props(s: Seq<char>, i: int)
    requires
        0 <= i <= s.len(),
    ensures
        i <= line_end(s, i) <= s.len(),
        forall|j: int| i <= j < line_end(s, i) ==> #[trigger] s[j] != '\n',
    decreases s.len() - i,
{
    if i < s.len() && s[i] != '\n' {
        lemma_line_end_props(s, i + 1);
    }
}

/// `str::lines`, collected.
pub fn lines(s: &str) -> (r: Vec<String>)
    ensures
        views(r@) == lines_of(s@),
{
    let n = s.unicode_len();
    let mut out: Vec<String> = Vec::new();
    let mut i: usize = 0;
    while i < n
        invariant
            n == s@.len(),
            i <= n,
            views(out@) + lines_from(s@, i as int) == lines_of(s@),
        decreases n - i,
    {
        let mut e: usize = i;
        while e < n && s.get_char(e) != '\n'
            invariant
                n == s@.len(),
                i <= e <= n,
                line_end(s@, e as int) == line_end(s@, i as int),
            decreases n - e,
        {
            e = e + 1;
        }
        let ghost before = out@;
        if e < n {
            let mut stop = e;
            if stop > i && s.get_char(stop - 1) == '\r' {
                stop = stop - 1;
            }
            assert(s@.subrange(i as int, stop as int) =~= strip_cr(s@.subrange(i as int, e as int)));
            out.push(String::from_str(s.substring_char(i, stop)));
            assert(views(out@) =~= views(before).push(strip_cr(s@.subrange(i as int, e as int))));
            assert(views(out@) + lines_from(s@, e + 1) =~= views(before) + lines_from(s@, i as int));
            i = e + 1;
        } else {
            out.push(String::from_str(s.substring_char(i, e)));
            assert(views(out@) =~= views(before).push(s@.subrange(i as int, e as int)));
            assert(lines_from(s@, e as int) =~= seq![]);
            assert(views(out@) + lines_from(s@, e as int) =~= views(before) + lines_from(s@, i as int));
            i = e;
        }
    }
    assert(lines_from(s@, i as int) =~= seq![]);
    assert(views(out@) =~= views(out@) + lines_from(s@, i as int));
    out
}

/// The parts of `parts` with `sep` between each two, as `join` gives them.
pub open spec fn joined(parts: Seq<Seq<char>>, sep: Seq<char>) -> Seq<char>
    decreases parts.len(),
{
    if parts.len() == 0 {
        seq![]
    } else if parts.len() == 1 {
        parts[0]
    } else {
        joined(parts.drop_last(), sep) + sep + parts.last()
    }
}

/// Joins `parts[start..]` with `sep` between each two.
pub fn join_from(parts: &Vec<String>, start: usize, sep: &str) -> (r: String)
    requires
        start <= parts@.len(),
    ensures
        r@ == joined(views(parts@).subrange(start as int, parts@.len() as int), sep@),
{
    let n = parts.len();
    let mut out = String::new();
    let mut i: usize = start;
    assert(views(parts@).subrange(start as int, start as int) =~= Seq::<Seq<char>>::empty());
    while i < n
        invariant
            n == parts@.len(),
            start <= i <= n,
            out@ == joined(views(parts@).subrange(start as int, i as int), sep@),
        decreases n - i,
    {
        let ghost prev = views(parts@).subrange(start as int, i as int);
        let ghost next = views(parts@).subrange(start as int, i + 1);
        assert(next.drop_last() =~= prev);
        assert(next.last() == parts@[i as int]@);
        if i > start {
            out.append(sep);
        } else {
            assert(next =~= seq![parts@[i as int]@]);
        }
        out.append(parts[i].as_str());
        i = i + 1;
    }
    out
}

/// `s` without any run of `c` at its end, as `str::trim_end_matches(c)` gives it.
pub open spec fn strip_trailing(s: Seq<char>, c: char) -> Seq<char>
    decreases s.len(),
{
    if s.len() > 0 && s.last() == c {
        strip_trailing(s.drop_last(), c)
    } else {
        s
    }
}

/// `str::trim_end_matches` with a single char.
pub fn trim_end_char(s: &str, c: char) -> (r: String)
    ensures
        r@ == strip_trailing(s@, c),
{
    let n = s.unicode_len();
    let mut e: usize = n;
    assert(s@.take(n as int) =~= s@);
    while e > 0 && s.get_char(e - 1) == c
        invariant
            n == s@.len(),
            e <= n,
            strip_trailing(s@.take(e as int), c) == strip_trailing(s@, c),
        decreases e,
    {
        assert(s@.take(e as int).drop_last() =~= s@.take(e - 1));
        e = e - 1;
    }
    assert(s@.take(e as int) =~= s@.subrange(0, e as int));
    String::from_str(s.substring_char(0, e))
}

/// What `Path::join` gives for `file` under `dir`: `file` itself when it is
/// absolute (starts with `/`), else `file` after `dir` with a `/` between
/// them unless `dir` is empty or already ends with one.
pub open spec fn joined_path(dir: Seq<char>, file: Seq<char>) -> Seq<char> {
    if file.len() > 0 && file[0] == '/' {
        file
    } else if dir.len() == 0 || dir.last() == '/' {
        dir + file
    } else {
        dir + "/"@ + file
    }
}

/// `Path::join`.
pub fn join_path(dir: &str, file: &str) -> (r: String)
    ensures
        r@ == joined_path(dir@, file@),
{
    if file.unicode_len() > 0 && file.get_char(0) == '/' {
        return String::from_str(file);
    }
    let n = dir.unicode_len();
    let mut r = String::from_str(dir);
    if n > 0 && dir.get_char(n - 1) != '/' {
        r.append("/");
        proof {
            reveal_strlit("/");
        }
    }
    r.append(file);
    r
}

/// Lexicographic order of texts by code point, the order of their UTF-8 bytes.
pub open spec fn text_le(a: Seq<char>, b: Seq<char>) -> bool
    decreases a.len(),
{
    if a.len() == 0 {
        true
    } else if b.len() == 0 {
        false
    } else if a[0] != b[0] {
        (a[0] as u32) < (b[0] as u32)
    } else {
        text_le(a.drop_first(), b.drop_first())
    }
}

proof fn lemma_char_code_injective(x: char, y: char)
    requires
        x as u32 == y as u32,
    ensures
        x == y,
{
}

pub proof fn lemma_text_le_total(a: Seq<char>, b: Seq<char>)
    ensures
        text_le(a, b) || text_le(b, a),
        text_le(a, b) && text_le(b, a) ==> a == b,
    decreases a.len(),
{
    if a.len() > 0 && b.len() > 0 && a[0] == b[0] {
        lemma_text_le_total(a.drop_first(), b.drop_first());
        if text_le(a, b) && text_le(b, a) {
            assert(a =~= seq![a[0]] + a.drop_first());
            assert(b =~= seq![b[0]] + b.drop_first());
        }
    } else if a.len() > 0 && b.len() > 0 {
        let (x, y) = (a[0], b[0]);
        if (x as u32) == (y as u32) {
            lemma_char_code_injective(x, y);
        }
    } else if a.len() == 0 && b.len() == 0 {
        assert(a =~= b);
    }
}

pub proof fn lemma_text_le_transitive(a: Seq<char>, b: Seq<char>, c: Seq<char>)
    requires
        text_le(a, b),
        text_le(b, c),
    ensures
        text_le(a, c),
    decreases a.len(),
{
    if a.len() > 0 && b.len() > 0 && c.len() > 0 && a[0] == b[0] && b[0] == c[0] {
        lemma_text_le_transitive(a.drop_first(), b.drop_first(), c.drop_first());
    }
}

/// The order of texts is lexicographic: a prefix comes first, and otherwise
/// the first differing char decides, by its code.
pub proof fn law_text_order_is_lexicographic(a: Seq<char>, b: Seq<char>, k: int)
    requires
        0 <= k <= a.len(),
        k <= b.len(),
        a.take(k) == b.take(k),
    ensures
        k == a.len() ==> text_le(a, b),
        k < a.len() && k < b.len() && (a[k] as u32) < (b[k] as u32) ==> text_le(a, b) && !text_le(
            b,
            a,
        ),
    decreases k,
{
    if k > 0 {
        assert(a[0] == a.take(k)[0] && b[0] == b.take(k)[0]);
        assert(a.drop_first().take(k - 1) =~= a.take(k).drop_first());
        assert(b.drop_first().take(k - 1) =~= b.take(k).drop_first());
        law_text_order_is_lexicographic(a.drop_first(), b.drop_first(), k - 1);
        if k < a.len() && k < b.len() {
            assert(a.drop_first()[k - 1] == a[k]);
            assert(b.drop_first()[k - 1] == b[k]);
        }
    } else if a.len() > 0 && b.len() > 0 && (a[0] as u32) < (b[0] as u32) {
        assert(a[0] != b[0]);
    }
}

/// Whether `a` comes no later than `b` in lexicographic order.
pub fn text_le_exec(a: &str, b: &str) -> (r: bool)
    ensures
        r == text_le(a@, b@),
{
    let n = a.unicode_len();
    let m = b.unicode_len();
    let mut i: usize = 0;
    assert(a@.skip(0) =~= a@);
    assert(b@.skip(0) =~= b@);
    while i < n && i < m && a.get_char(i) == b.get_char(i)
        invariant
            n == a@.len(),
            m == b@.len(),
            i <= n,
            i <= m,
            text_le(a@.skip(i as int), b@.skip(i as int)) == text_le(a@, b@),
        decreases n - i,
    {
        assert(a@.skip(i as int).drop_first() =~= a@.skip(i + 1));
        assert(b@.skip(i as int).drop_first() =~= b@.skip(i + 1));
        i = i + 1;
    }
    if i == n {
        true
    } else if i == m {
        false
    } else {
        (a.get_char(i) as u32) < (b.get_char(i) as u32)
    }
}

} // verus!
