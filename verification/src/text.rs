//! Small text operations on `String` and `&str`, each with its meaning stated
//! over `Seq<char>`.

use vstd::prelude::*;

verus! {

/// The ASCII digit for `d`, where `d < 10`.
pub open spec fn digit_char(d: nat) -> char {
    if d == 0 { '0' }
    else if d == 1 { '1' }
    else if d == 2 { '2' }
    else if d == 3 { '3' }
    else if d == 4 { '4' }
    else if d == 5 { '5' }
    else if d == 6 { '6' }
    else if d == 7 { '7' }
    else if d == 8 { '8' }
    else { '9' }
}

/// The decimal notation of `n`: its digits, most significant first, with no
/// leading zero (so `0` is written `"0"`).
pub open spec fn decimal(n: nat) -> Seq<char>
    decreases n,
{
    if n < 10 {
        seq![digit_char(n)]
    } else {
        decimal(n / 10).push(digit_char(n % 10))
    }
}

/// The number that a string of ASCII digits stands for, read most
/// significant digit first.
pub open spec fn digits_value(d: Seq<char>) -> nat
    decreases d.len(),
{
    if d.len() == 0 {
        0
    } else {
        digits_value(d.drop_last()) * 10 + (d.last() as nat - '0' as nat) as nat
    }
}

proof fn lemma_digit_value(d: nat)
    requires
        d < 10,
    ensures
        digit_char(d) as nat - '0' as nat == d,
{
}

/// The decimal notation of `n` is a string of ASCII digits that reads back
/// as `n`, with no leading zero except for `0` itself.
pub proof fn lemma_decimal_reads_back(n: nat)
    ensures
        decimal(n).len() > 0,
        forall|j: int| 0 <= j < decimal(n).len() ==> '0' <= #[trigger] decimal(n)[j] <= '9',
        digits_value(decimal(n)) == n,
        decimal(n)[0] == '0' ==> n == 0,
    decreases n,
{
    if n >= 10 {
        lemma_decimal_reads_back(n / 10);
        let d = decimal(n / 10);
        let r = decimal(n);
        assert(r == d.push(digit_char(n % 10)));
        assert(r.drop_last() =~= d);
        assert forall|j: int| 0 <= j < r.len() implies '0' <= #[trigger] r[j] <= '9' by {
            if j < d.len() {
                assert(r[j] == d[j]);
            }
        }
        assert(r[0] == d[0]);
        assert(n == (n / 10) * 10 + n % 10) by (nonlinear_arith);
        lemma_digit_value(n % 10);
        assert(digits_value(r) == digits_value(d) * 10 + (digit_char(n % 10) as nat - '0' as nat) as nat);
        assert(digits_value(d) == n / 10);
        assert(digits_value(r) == (n / 10) * 10 + n % 10);
        assert(n / 10 > 0) by (nonlinear_arith) requires n >= 10;
    } else {
        assert(decimal(n) == seq![digit_char(n)]);
        assert(decimal(n).drop_last() =~= Seq::<char>::empty());
        lemma_digit_value(n);
        assert(digits_value(decimal(n)) == digits_value(decimal(n).drop_last()) * 10
            + (decimal(n).last() as nat - '0' as nat) as nat);
    }
}

/// The decimal notation of a signed integer: a minus sign before the digits of
/// its magnitude when it is negative.
pub open spec fn signed_decimal(i: int) -> Seq<char> {
    if i < 0 {
        seq!['-'] + decimal((-i) as nat)
    } else {
        decimal(i as nat)
    }
}

/// Appends one character: `String::push`.
///
/// Trusted: the string afterwards holds its former characters followed by
/// `c` (what the standard library documents).
#[verifier::external_body]
pub(crate) fn push_char(s: &mut String, c: char)
    ensures
        final(s)@ == old(s)@.push(c),
{
    s.push(c);
}

/// A new `String` holding the characters of `s`.
pub fn owned(s: &str) -> (r: String)
    ensures
        r@ == s@,
{
    <String as vstd::string::StringExecFns>::from_str(s)
}

/// Appends the characters of `t` to `s`.
pub fn append(s: &mut String, t: &str)
    ensures
        final(s)@ == old(s)@ + t@,
{
    vstd::string::StringExecFns::append(s, t);
}

fn digit_of(d: u64) -> (c: char)
    requires
        d < 10,
    ensures
        c == digit_char(d as nat),
{
    if d == 0 { '0' }
    else if d == 1 { '1' }
    else if d == 2 { '2' }
    else if d == 3 { '3' }
    else if d == 4 { '4' }
    else if d == 5 { '5' }
    else if d == 6 { '6' }
    else if d == 7 { '7' }
    else if d == 8 { '8' }
    else { '9' }
}

/// The decimal text of `n`, as `n.to_string()` writes it.
pub fn u64_text(n: u64) -> (s: String)
    ensures
        s@ == decimal(n as nat),
{
    let mut digits: Vec<char> = Vec::new();
    let mut m: u64 = n;
    loop
        invariant_except_break
            decimal(n as nat) == decimal(m as nat) + digits@,
        ensures
            decimal(n as nat) == digits@,
        decreases m,
    {
        let d = m % 10;
        let c = digit_of(d);
        proof {
            if m >= 10 {
                assert(decimal(m as nat) == decimal((m / 10) as nat).push(c));
            } else {
                assert(decimal(m as nat) == seq![c]);
            }
        }
        let ghost before = digits@;
        digits.insert(0, c);
        assert(digits@ == seq![c] + before);
        m = m / 10;
        if m == 0 {
            assert(decimal(n as nat) == digits@);
            break;
        }
        assert(decimal(n as nat) == decimal(m as nat) + digits@);
    }
    let mut s = String::new();
    let mut i: usize = 0;
    while i < digits.len()
        invariant
            i <= digits@.len(),
            s@ == digits@.take(i as int),
        decreases digits@.len() - i,
    {
        push_char(&mut s, digits[i]);
        assert(digits@.take(i + 1) == digits@.take(i as int).push(digits@[i as int]));
        i = i + 1;
    }
    assert(digits@.take(digits@.len() as int) == digits@);
    s
}

/// The decimal text of a signed number, as `i.to_string()` writes it.
pub fn i64_text(i: i64) -> (s: String)
    ensures
        s@ == signed_decimal(i as int),
{
    if i < 0 {
        let magnitude: u64 = if i == i64::MIN {
            9223372036854775808u64
        } else {
            (-i) as u64
        };
        let digits = u64_text(magnitude);
        let mut s = String::new();
        push_char(&mut s, '-');
        append(&mut s, digits.as_str());
        s
    } else {
        u64_text(i as u64)
    }
}

/// The parts written one after another with `sep` between each two.
pub open spec fn joined(parts: Seq<Seq<char>>, sep: Seq<char>) -> Seq<char>
    decreases parts.len(),
{
    if parts.len() == 0 {
        Seq::empty()
    } else if parts.len() == 1 {
        parts[0]
    } else {
        joined(parts.drop_last(), sep) + sep + parts.last()
    }
}

/// The characters of each string.
pub open spec fn texts(v: Seq<String>) -> Seq<Seq<char>> {
    v.map_values(|s: String| s@)
}

/// The strings written one after another with `sep` between each two
/// (`join`).
pub fn join_texts(parts: &Vec<String>, sep: &str) -> (r: String)
    ensures
        r@ == joined(texts(parts@), sep@),
{
    let ghost items = texts(parts@);
    let mut r = String::new();
    let mut i: usize = 0;
    while i < parts.len()
        invariant
            i <= parts@.len(),
            items == texts(parts@),
            r@ == joined(items.take(i as int), sep@),
        decreases parts@.len() - i,
    {
        if i > 0 {
            append(&mut r, sep);
        }
        append(&mut r, parts[i].as_str());
        proof {
            let t = items.take(i + 1);
            assert(t.drop_last() =~= items.take(i as int));
            if i == 0 {
                assert(items.take(i as int) =~= Seq::<Seq<char>>::empty());
            }
        }
        i = i + 1;
    }
    assert(items.take(parts@.len() as int) =~= items);
    r
}

/// Copies a list of strings.
pub fn clone_strings(names: &[String]) -> (r: Vec<String>)
    ensures
        r@ == names@,
{
    let mut r: Vec<String> = Vec::new();
    let mut i: usize = 0;
    while i < names.len()
        invariant
            i <= names@.len(),
            r@ == names@.take(i as int),
        decreases names@.len() - i,
    {
        r.push(names[i].clone());
        assert(r@ =~= names@.take(i + 1));
        i = i + 1;
    }
    assert(names@.take(names@.len() as int) =~= names@);
    r
}

/// Whether two strings hold the same characters.
pub fn str_eq(a: &str, b: &str) -> (r: bool)
    ensures
        r == (a@ == b@),
{
    let n = a.unicode_len();
    if n != b.unicode_len() {
        return false;
    }
    let mut i: usize = 0;
    while i < n
        invariant
            n == a@.len(),
            n == b@.len(),
            i <= n,
            forall|j: int| 0 <= j < i ==> a@[j] == b@[j],
        decreases n - i,
    {
        if a.get_char(i) != b.get_char(i) {
            return false;
        }
        i = i + 1;
    }
    assert(a@ =~= b@);
    true
}

/// `s` with every occurrence of the non-empty pattern `pat` replaced by
/// `rep`, scanning from the left and never matching inside a replaced
/// occurrence (the meaning of `str::replace`).
pub open spec fn replace_all(s: Seq<char>, pat: Seq<char>, rep: Seq<char>) -> Seq<char>
    decreases s.len(),
{
    if pat.len() == 0 || s.len() < pat.len() {
        s
    } else if s.take(pat.len() as int) == pat {
        rep + replace_all(s.skip(pat.len() as int), pat, rep)
    } else {
        seq![s[0]] + replace_all(s.skip(1), pat, rep)
    }
}

/// Replacing changes nothing in a text where the pattern does not occur, and
/// an occurrence at the start is replaced, the rest being replaced on its own.
pub proof fn lemma_replace_all_occurrences(s: Seq<char>, pat: Seq<char>, rep: Seq<char>)
    requires
        pat.len() > 0,
    ensures
        (forall|i: int| 0 <= i <= s.len() - pat.len() ==> #[trigger] s.subrange(i, i + pat.len()) != pat)
            ==> replace_all(s, pat, rep) == s,
        replace_all(pat + s, pat, rep) == rep + replace_all(s, pat, rep),
    decreases s.len(),
{
    assert((pat + s).take(pat.len() as int) =~= pat);
    assert((pat + s).skip(pat.len() as int) =~= s);
    if forall|i: int| 0 <= i <= s.len() - pat.len() ==> #[trigger] s.subrange(i, i + pat.len()) != pat {
        if s.len() >= pat.len() {
            let t = s.skip(1);
            assert(s.take(pat.len() as int) =~= s.subrange(0, pat.len() as int));
            assert forall|i: int| 0 <= i <= t.len() - pat.len() implies #[trigger] t.subrange(i, i + pat.len()) != pat by {
                assert(t.subrange(i, i + pat.len()) =~= s.subrange(i + 1, i + 1 + pat.len()));
            }
            lemma_replace_all_occurrences(t, pat, rep);
            assert(seq![s[0]] + t =~= s);
        }
    }
}

/// Whether `pat` occurs in `s` at character position `i`.
fn occurs_at(s: &str, pat: &str, i: usize, n: usize, k: usize) -> (r: bool)
    requires
        n == s@.len(),
        k == pat@.len(),
        i + k <= n,
    ensures
        r == (s@.subrange(i as int, i + k) == pat@),
{
    let mut j: usize = 0;
    while j < k
        invariant
            n == s@.len(),
            k == pat@.len(),
            i + k <= n,
            j <= k,
            forall|m: int| 0 <= m < j ==> s@[i + m] == pat@[m],
        decreases k - j,
    {
        if s.get_char(i + j) != pat.get_char(j) {
            assert(s@.subrange(i as int, i + k)[j as int] != pat@[j as int]);
            return false;
        }
        j = j + 1;
    }
    assert(s@.subrange(i as int, i + k) =~= pat@);
    true
}

/// `s` with every occurrence of `pat` replaced by `rep` (`str::replace`).
pub fn replace_text(s: &str, pat: &str, rep: &str) -> (r: String)
    requires
        pat@.len() > 0,
    ensures
        r@ == replace_all(s@, pat@, rep@),
{
    let n = s.unicode_len();
    let k = pat.unicode_len();
    let mut out = String::new();
    let mut i: usize = 0;
    assert(s@.skip(0) =~= s@);
    while i < n
        invariant
            n == s@.len(),
            k == pat@.len(),
            k > 0,
            i <= n,
            out@ + replace_all(s@.skip(i as int), pat@, rep@) == replace_all(s@, pat@, rep@),
        decreases n - i,
    {
        let ghost t = s@.skip(i as int);
        if k <= n - i && occurs_at(s, pat, i, n, k) {
            assert(t.take(k as int) =~= s@.subrange(i as int, i + k));
            assert(t.skip(k as int) =~= s@.skip(i + k));
            append(&mut out, rep);
            i = i + k;
        } else {
            let c = s.get_char(i);
            if k <= n - i {
                assert(t.take(k as int) =~= s@.subrange(i as int, i + k));
                assert(t.skip(1) =~= s@.skip(i + 1));
            } else {
                assert(replace_all(t, pat@, rep@) == t);
                assert(t.skip(1) =~= s@.skip(i + 1));
                assert(replace_all(t.skip(1), pat@, rep@) == t.skip(1));
                assert(t =~= seq![c] + t.skip(1));
            }
            push_char(&mut out, c);
            i = i + 1;
        }
    }
    assert(s@.skip(n as int) =~= Seq::<char>::empty());
    out
}

/// `s` without the quote characters at its start.
pub open spec fn strip_leading_quotes(s: Seq<char>) -> Seq<char>
    decreases s.len(),
{
    if s.len() > 0 && s[0] == '"' {
        strip_leading_quotes(s.drop_first())
    } else {
        s
    }
}

/// `s` without the quote characters at its end.
pub open spec fn strip_trailing_quotes(s: Seq<char>) -> Seq<char>
    decreases s.len(),
{
    if s.len() > 0 && s.last() == '"' {
        strip_trailing_quotes(s.drop_last())
    } else {
        s
    }
}

/// `s` without the quote characters at either end (`trim_matches('"')`).
pub open spec fn trim_quotes(s: Seq<char>) -> Seq<char> {
    strip_trailing_quotes(strip_leading_quotes(s))
}

proof fn lemma_strip_leading(s: Seq<char>) -> (a: int)
    ensures
        0 <= a <= s.len(),
        strip_leading_quotes(s) == s.skip(a),
        forall|j: int| 0 <= j < a ==> #[trigger] s[j] == '"',
        a < s.len() ==> s[a] != '"',
    decreases s.len(),
{
    if s.len() > 0 && s[0] == '"' {
        let a = lemma_strip_leading(s.drop_first());
        assert(s.drop_first().skip(a) =~= s.skip(a + 1));
        assert forall|j: int| 0 <= j < a + 1 implies #[trigger] s[j] == '"' by {
            if j > 0 {
                assert(s[j] == s.drop_first()[j - 1]);
            }
        }
        if a + 1 < s.len() {
            assert(s[a + 1] == s.drop_first()[a]);
        }
        a + 1
    } else {
        assert(s.skip(0) =~= s);
        0
    }
}

proof fn lemma_strip_trailing(s: Seq<char>) -> (b: int)
    ensures
        0 <= b <= s.len(),
        strip_trailing_quotes(s) == s.take(b),
        forall|j: int| b <= j < s.len() ==> #[trigger] s[j] == '"',
        b > 0 ==> s[b - 1] != '"',
    decreases s.len(),
{
    if s.len() > 0 && s.last() == '"' {
        let b = lemma_strip_trailing(s.drop_last());
        assert(s.drop_last().take(b) =~= s.take(b));
        assert forall|j: int| b <= j < s.len() implies #[trigger] s[j] == '"' by {
            if j < s.len() - 1 {
                assert(s[j] == s.drop_last()[j]);
            }
        }
        if b > 0 {
            assert(s[b - 1] == s.drop_last()[b - 1]);
        }
        b
    } else {
        assert(s.take(s.len() as int) =~= s);
        s.len() as int
    }
}

/// Trimming quotes takes away exactly the quote characters at both ends:
/// the result is the piece of `s` between positions `a` and `b` (returned),
/// everything before `a` and from `b` on is a quote, and the result neither
/// starts nor ends with one.
pub proof fn lemma_trim_quotes_bounds(s: Seq<char>) -> (ab: (int, int))
    ensures
        0 <= ab.0 <= ab.1 <= s.len(),
        trim_quotes(s) == s.subrange(ab.0, ab.1),
        forall|j: int| 0 <= j < ab.0 ==> #[trigger] s[j] == '"',
        forall|j: int| ab.1 <= j < s.len() ==> #[trigger] s[j] == '"',
        trim_quotes(s).len() > 0 ==> trim_quotes(s)[0] != '"' && trim_quotes(s).last() != '"',
{
    let a = lemma_strip_leading(s);
    let t = s.skip(a);
    let b = lemma_strip_trailing(t);
    assert(t.take(b) =~= s.subrange(a, a + b));
    assert forall|j: int| a + b <= j < s.len() implies #[trigger] s[j] == '"' by {
        assert(s[j] == t[j - a]);
    }
    let r = s.subrange(a, a + b);
    if r.len() > 0 {
        assert(r[0] == s[a]);
        assert(r.last() == t[b - 1]);
    }
    (a, a + b)
}

/// `s` without the quote characters at either end (`trim_matches('"')`).
pub fn trim_quotes_text(s: &str) -> (r: String)
    ensures
        r@ == trim_quotes(s@),
{
    let n = s.unicode_len();
    let mut a: usize = 0;
    assert(s@.skip(0) =~= s@);
    while a < n && s.get_char(a) == '"'
        invariant
            n == s@.len(),
            a <= n,
            strip_leading_quotes(s@) == strip_leading_quotes(s@.skip(a as int)),
        decreases n - a,
    {
        assert(s@.skip(a as int).drop_first() =~= s@.skip(a + 1));
        a = a + 1;
    }
    let ghost t = s@.skip(a as int);
    assert(strip_leading_quotes(t) == t);
    let mut b: usize = n;
    assert(t.take((b - a) as int) =~= t);
    while b > a && s.get_char(b - 1) == '"'
        invariant
            n == s@.len(),
            a <= b <= n,
            t == s@.skip(a as int),
            strip_trailing_quotes(t) == strip_trailing_quotes(t.take((b - a) as int)),
        decreases b - a,
    {
        assert(t.take((b - a) as int).drop_last() =~= t.take((b - 1 - a) as int));
        b = b - 1;
    }
    assert(strip_trailing_quotes(t.take((b - a) as int)) == t.take((b - a) as int));
    let r = s.substring_char(a, b);
    assert(r@ =~= t.take((b - a) as int));
    owned(r)
}

/// The position of the first line feed of `s` at or after `i`, or the
/// length of `s` where there is none.
pub open spec fn line_feed_at(s: Seq<char>, i: int) -> int
    decreases s.len() - i,
{
    if i < 0 || i >= s.len() {
        s.len() as int
    } else if s[i] == '\n' {
        i
    } else {
        line_feed_at(s, i + 1)
    }
}

/// A line without the carriage return that ends it, where one does.
pub open spec fn without_cr(line: Seq<char>) -> Seq<char> {
    if line.len() > 0 && line.last() == '\r' { line.drop_last() } else { line }
}

/// A line ends at a line feed or at the end of the text, and holds none.
pub proof fn lemma_line_feed_bounded(s: Seq<char>, i: int)
    requires
        0 <= i <= s.len(),
    ensures
        i <= line_feed_at(s, i) <= s.len(),
        line_feed_at(s, i) < s.len() ==> s[line_feed_at(s, i)] == '\n',
        forall|j: int| i <= j < line_feed_at(s, i) ==> s[j] != '\n',
    decreases s.len() - i,
{
    if i < s.len() {
        lemma_line_feed_bounded(s, i + 1);
    }
}

/// The lines of `s` from position `i` on (see `lines_of`).
pub open spec fn lines_from(s: Seq<char>, i: int) -> Seq<Seq<char>>
    decreases s.len() - i,
{
    if i < 0 || i >= s.len() {
        Seq::empty()
    } else {
        let e = line_feed_at(s, i);
        proof {
            lemma_line_feed_bounded(s, i);
        }
        if e < s.len() {
            seq![without_cr(s.subrange(i, e))] + lines_from(s, e + 1)
        } else {
            seq![without_cr(s.subrange(i, e))]
        }
    }
}

/// The lines of `s` (`str::lines`): the pieces between line feeds, each
/// without a carriage return that ends it; a line feed at the very end does
/// not start another line.
pub open spec fn lines_of(s: Seq<char>) -> Seq<Seq<char>> {
    lines_from(s, 0)
}

proof fn lemma_joined_prepend(a: Seq<char>, rest: Seq<Seq<char>>, sep: Seq<char>)
    requires
        rest.len() > 0,
    ensures
        joined(seq![a] + rest, sep) == a + sep + joined(rest, sep),
    decreases rest.len(),
{
    let all = seq![a] + rest;
    if rest.len() == 1 {
        assert(all.drop_last() =~= seq![a]);
        assert(joined(seq![a], sep) == a);
        assert(all.last() == rest[0]);
        assert(joined(rest, sep) == rest[0]);
        assert(joined(all, sep) == joined(all.drop_last(), sep) + sep + all.last());
        assert(a + sep + rest[0] =~= a + sep + joined(rest, sep));
    } else {
        lemma_joined_prepend(a, rest.drop_last(), sep);
        assert(all.drop_last() =~= seq![a] + rest.drop_last());
        assert(all.last() == rest.last());
        assert(joined(all, sep) == joined(all.drop_last(), sep) + sep + all.last());
        assert(joined(rest, sep) == joined(rest.drop_last(), sep) + sep + rest.last());
        assert(a + sep + joined(rest.drop_last(), sep) + sep + rest.last()
            =~= a + sep + (joined(rest.drop_last(), sep) + sep + rest.last()));
    }
}

proof fn lemma_lines_from_rejoin(s: Seq<char>, i: int)
    requires
        0 <= i <= s.len(),
        forall|j: int| 0 <= j < s.len() ==> #[trigger] s[j] != '\r',
        s.len() > 0 ==> s.last() != '\n',
    ensures
        joined(lines_from(s, i), "\n"@) == s.subrange(i, s.len() as int),
        forall|k: int, j: int| 0 <= k < lines_from(s, i).len() && 0 <= j < lines_from(s, i)[k].len()
            ==> #[trigger] lines_from(s, i)[k][j] != '\n',
    decreases s.len() - i,
{
    reveal_strlit("\n");
    if i < s.len() {
        lemma_line_feed_bounded(s, i);
        let e = line_feed_at(s, i);
        let line = s.subrange(i, e);
        assert(without_cr(line) == line) by {
            if line.len() > 0 {
                assert(line.last() == s[e - 1]);
            }
        }
        if e < s.len() {
            assert(e + 1 < s.len());
            lemma_lines_from_rejoin(s, e + 1);
            lemma_line_feed_bounded(s, e + 1);
            assert(lines_from(s, e + 1).len() > 0);
            lemma_joined_prepend(line, lines_from(s, e + 1), "\n"@);
            assert(line + "\n"@ + s.subrange(e + 1, s.len() as int) =~= s.subrange(i, s.len() as int));
            let ls = lines_from(s, i);
            assert forall|k: int, j: int| 0 <= k < ls.len() && 0 <= j < ls[k].len() implies #[trigger] ls[k][j] != '\n' by {
                if k > 0 {
                    assert(ls[k] == lines_from(s, e + 1)[k - 1]);
                } else {
                    assert(ls[0][j] == s[i + j]);
                }
            }
        } else {
            let ls = lines_from(s, i);
            assert(ls =~= seq![line]);
            assert forall|k: int, j: int| 0 <= k < ls.len() && 0 <= j < ls[k].len() implies #[trigger] ls[k][j] != '\n' by {
                assert(ls[0][j] == s[i + j]);
            }
        }
    } else {
        assert(s.subrange(i, s.len() as int) =~= Seq::<char>::empty());
    }
}

/// Cutting a text into lines and joining them again with line feeds gives
/// the text back, where it holds no carriage return and does not end with a
/// line feed; no line holds a line feed.
pub proof fn lemma_lines_rejoin(s: Seq<char>)
    requires
        forall|j: int| 0 <= j < s.len() ==> #[trigger] s[j] != '\r',
        s.len() > 0 ==> s.last() != '\n',
    ensures
        joined(lines_of(s), "\n"@) == s,
        forall|k: int, j: int| 0 <= k < lines_of(s).len() && 0 <= j < lines_of(s)[k].len()
            ==> #[trigger] lines_of(s)[k][j] != '\n',
{
    lemma_lines_from_rejoin(s, 0);
    assert(s.subrange(0, s.len() as int) =~= s);
}

/// The lines of `s` (`str::lines`).
pub fn split_lines(s: &str) -> (r: Vec<String>)
    ensures
        texts(r@) == lines_of(s@),
{
    let n = s.unicode_len();
    let mut r: Vec<String> = Vec::new();
    let mut i: usize = 0;
    while i < n
        invariant
            n == s@.len(),
            i <= n,
            texts(r@) + lines_from(s@, i as int) == lines_of(s@),
        decreases n - i,
    {
        proof {
            lemma_line_feed_bounded(s@, i as int);
        }
        let mut line = String::new();
        let mut k: usize = i;
        while k < n && s.get_char(k) != '\n'
            invariant
                n == s@.len(),
                i <= k <= n,
                k <= line_feed_at(s@, i as int),
                line_feed_at(s@, i as int) <= n,
                line_feed_at(s@, i as int) < n ==> s@[line_feed_at(s@, i as int)] == '\n',
                line@ == s@.subrange(i as int, k as int),
            decreases n - k,
        {
            push_char(&mut line, s.get_char(k));
            assert(line@ =~= s@.subrange(i as int, k + 1));
            k = k + 1;
        }
        assert(k == line_feed_at(s@, i as int));
        let ends_with_cr = k > i && s.get_char(k - 1) == '\r';
        let piece = if ends_with_cr {
            let p = s.substring_char(i, k - 1);
            assert(p@ =~= without_cr(s@.subrange(i as int, k as int)));
            owned(p)
        } else {
            line
        };
        let ghost before = texts(r@);
        r.push(piece);
        assert(texts(r@) =~= before.push(without_cr(s@.subrange(i as int, k as int))));
        if k < n {
            assert(lines_from(s@, i as int) == seq![without_cr(s@.subrange(i as int, k as int))] + lines_from(s@, k + 1));
            assert(texts(r@) + lines_from(s@, k + 1) =~= before + lines_from(s@, i as int));
            i = k + 1;
        } else {
            assert(lines_from(s@, i as int) == seq![without_cr(s@.subrange(i as int, k as int))]);
            assert(texts(r@) + lines_from(s@, n as int) =~= before + lines_from(s@, i as int));
            i = n;
        }
    }
    assert(texts(r@) =~= texts(r@) + lines_from(s@, n as int));
    r
}

} // verus!
