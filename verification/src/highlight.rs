//! Colouring of the detail pane's text: each line is cut into tokens (JSON
//! punctuation, quoted strings, numbers, white space and words), each with
//! its colour.

use vstd::prelude::*;
use crate::render::{line_view, Span, Tint};
use crate::json::{compact_json, compact_json_text, pretty_json, pretty_json_text, Json};
use crate::text::{append, joined, lines_of, push_char, split_lines, texts};

verus! {

/// Whether a character is white space (the Unicode `White_Space` property,
/// which `char::is_whitespace` tests).
pub open spec fn is_white_space(c: char) -> bool {
    ||| '\u{9}' <= c <= '\u{d}'
    ||| c == ' '
    ||| c == '\u{85}'
    ||| c == '\u{a0}'
    ||| c == '\u{1680}'
    ||| '\u{2000}' <= c <= '\u{200a}'
    ||| c == '\u{2028}'
    ||| c == '\u{2029}'
    ||| c == '\u{202f}'
    ||| c == '\u{205f}'
    ||| c == '\u{3000}'
}

/// Whether a character is white space (`char::is_whitespace`).
pub fn white_space(c: char) -> (r: bool)
    ensures
        r == is_white_space(c),
{
    ('\u{9}' <= c && c <= '\u{d}') || c == ' ' || c == '\u{85}' || c == '\u{a0}' || c == '\u{1680}'
        || ('\u{2000}' <= c && c <= '\u{200a}') || c == '\u{2028}' || c == '\u{2029}' || c == '\u{202f}'
        || c == '\u{205f}' || c == '\u{3000}'
}

/// JSON punctuation that is coloured on its own.
pub open spec fn is_punctuation(c: char) -> bool {
    c == '{' || c == '}' || c == ':' || c == ','
}

/// A decimal digit.
pub open spec fn is_digit(c: char) -> bool {
    '0' <= c <= '9'
}

/// A character that starts a number token.
pub open spec fn starts_number(c: char) -> bool {
    is_digit(c) || c == '-' || c == '.'
}

/// A character that continues a number token.
pub open spec fn continues_number(c: char) -> bool {
    is_digit(c) || c == '.'
}

/// A character that continues a word token.
pub open spec fn continues_word(c: char) -> bool {
    !is_white_space(c) && c != '"' && !is_punctuation(c)
}

/// The end of the run of number characters of `s` from `i`.
pub open spec fn number_end(s: Seq<char>, i: int) -> int
    decreases s.len() - i,
{
    if 0 <= i < s.len() && continues_number(s[i]) {
        number_end(s, i + 1)
    } else {
        i
    }
}

/// The end of the run of word characters of `s` from `i`.
pub open spec fn word_end(s: Seq<char>, i: int) -> int
    decreases s.len() - i,
{
    if 0 <= i < s.len() && continues_word(s[i]) {
        word_end(s, i + 1)
    } else {
        i
    }
}

/// The position just after the first quote of `s` at or after `i`, or the
/// end of `s` where no quote follows.
pub open spec fn quote_end(s: Seq<char>, i: int) -> int
    decreases s.len() - i,
{
    if i < 0 || i >= s.len() {
        s.len() as int
    } else if s[i] == '"' {
        i + 1
    } else {
        quote_end(s, i + 1)
    }
}

/// The end of the token that starts at `i`: one punctuation or white-space
/// character; a quoted string through its closing quote (or to the end of
/// the line); a number; or a word.
pub open spec fn token_end(s: Seq<char>, i: int) -> int {
    let c = s[i];
    if is_punctuation(c) {
        i + 1
    } else if c == '"' {
        quote_end(s, i + 1)
    } else if starts_number(c) {
        number_end(s, i + 1)
    } else if is_white_space(c) {
        i + 1
    } else {
        word_end(s, i + 1)
    }
}

/// The colour of the token that starts at `i`: punctuation cyan; a quoted
/// string magenta where a colon follows it (a key), green otherwise; numbers
/// yellow; `true` and `false` blue; `null` dark grey; anything else plain.
pub open spec fn token_tint(s: Seq<char>, i: int) -> Tint {
    let c = s[i];
    let e = token_end(s, i);
    if is_punctuation(c) {
        Tint::Cyan
    } else if c == '"' {
        if e < s.len() && s[e] == ':' { Tint::Magenta } else { Tint::Green }
    } else if starts_number(c) {
        Tint::Yellow
    } else if is_white_space(c) {
        Tint::Plain
    } else {
        let word = s.subrange(i, e);
        if word == "true"@ || word == "false"@ {
            Tint::Blue
        } else if word == "null"@ {
            Tint::DarkGray
        } else {
            Tint::Plain
        }
    }
}

/// Runs end inside the line and after their start.
pub proof fn lemma_runs_bounded(s: Seq<char>, i: int)
    requires
        0 <= i <= s.len(),
    ensures
        i <= number_end(s, i) <= s.len(),
        i <= word_end(s, i) <= s.len(),
        i <= quote_end(s, i) <= s.len(),
    decreases s.len() - i,
{
    if i < s.len() {
        lemma_runs_bounded(s, i + 1);
    }
}

/// A token takes at least one character and ends inside the line.
pub proof fn lemma_token_bounded(s: Seq<char>, i: int)
    requires
        0 <= i < s.len(),
    ensures
        i < token_end(s, i) <= s.len(),
{
    lemma_runs_bounded(s, i + 1);
}

/// The tokens of `s` from position `i` on, with their colours.
pub open spec fn tokens_from(s: Seq<char>, i: int) -> Seq<(Seq<char>, Tint)>
    decreases s.len() - i,
{
    if i < 0 || i >= s.len() {
        Seq::empty()
    } else {
        let e = token_end(s, i);
        proof {
            lemma_token_bounded(s, i);
        }
        seq![(s.subrange(i, e), token_tint(s, i))] + tokens_from(s, e)
    }
}

/// The tokens of a line with their colours.
pub open spec fn tokens(s: Seq<char>) -> Seq<(Seq<char>, Tint)> {
    tokens_from(s, 0)
}

/// The texts of pieces written one after another.
pub open spec fn concat_texts(parts: Seq<(Seq<char>, Tint)>) -> Seq<char>
    decreases parts.len(),
{
    if parts.len() == 0 {
        Seq::empty()
    } else {
        parts[0].0 + concat_texts(parts.drop_first())
    }
}

proof fn lemma_concat_append(a: Seq<(Seq<char>, Tint)>, b: Seq<(Seq<char>, Tint)>)
    ensures
        concat_texts(a + b) == concat_texts(a) + concat_texts(b),
    decreases a.len(),
{
    if a.len() > 0 {
        assert((a + b).drop_first() =~= a.drop_first() + b);
        lemma_concat_append(a.drop_first(), b);
        assert(concat_texts(a + b) == a[0].0 + concat_texts(a.drop_first() + b));
    } else {
        assert(a + b =~= b);
    }
}

/// Colouring neither drops nor adds characters: the tokens of a line, put
/// back together, are the line.
pub proof fn lemma_tokens_keep_text(s: Seq<char>)
    ensures
        concat_texts(tokens(s)) == s,
{
    lemma_tokens_from_keep_text(s, 0);
    assert(s.subrange(0, s.len() as int) =~= s);
}

proof fn lemma_tokens_from_keep_text(s: Seq<char>, i: int)
    requires
        0 <= i <= s.len(),
    ensures
        concat_texts(tokens_from(s, i)) == s.subrange(i, s.len() as int),
    decreases s.len() - i,
{
    if i < s.len() {
        let e = token_end(s, i);
        lemma_token_bounded(s, i);
        lemma_tokens_from_keep_text(s, e);
        let head = seq![(s.subrange(i, e), token_tint(s, i))];
        lemma_concat_append(head, tokens_from(s, e));
        assert(concat_texts(head) == s.subrange(i, e)) by {
            assert(head.drop_first() =~= Seq::<(Seq<char>, Tint)>::empty());
            assert(concat_texts(head.drop_first()) =~= Seq::<char>::empty());
            assert(s.subrange(i, e) + Seq::<char>::empty() =~= s.subrange(i, e));
        }
        assert(s.subrange(i, e) + s.subrange(e, s.len() as int) =~= s.subrange(i, s.len() as int));
    } else {
        assert(s.subrange(i, s.len() as int) =~= Seq::<char>::empty());
    }
}

/// The `k`-th token of `s` from position `i0` starts at the returned
/// position `i`, is the piece of `s` from `i` to its token end with that
/// token's colour, and the tokens before it make up `s` from `i0` to `i`.
pub proof fn token_position(s: Seq<char>, i0: int, k: int) -> (i: int)
    requires
        0 <= i0,
        0 <= k < tokens_from(s, i0).len(),
    ensures
        i0 <= i < s.len(),
        tokens_from(s, i0)[k] == (s.subrange(i, token_end(s, i)), token_tint(s, i)),
        concat_texts(tokens_from(s, i0).take(k)) == s.subrange(i0, i),
    decreases s.len() - i0,
{
    lemma_token_bounded(s, i0);
    let e = token_end(s, i0);
    let ts = tokens_from(s, i0);
    let head = seq![(s.subrange(i0, e), token_tint(s, i0))];
    assert(ts == head + tokens_from(s, e));
    if k == 0 {
        assert(ts.take(0) =~= Seq::<(Seq<char>, Tint)>::empty());
        assert(s.subrange(i0, i0) =~= Seq::<char>::empty());
        i0
    } else {
        let i = token_position(s, e, k - 1);
        assert(ts[k] == tokens_from(s, e)[k - 1]);
        assert(ts.take(k) =~= head + tokens_from(s, e).take(k - 1));
        lemma_concat_append(head, tokens_from(s, e).take(k - 1));
        assert(concat_texts(head) == s.subrange(i0, e)) by {
            assert(head.drop_first() =~= Seq::<(Seq<char>, Tint)>::empty());
            assert(concat_texts(head.drop_first()) =~= Seq::<char>::empty());
            assert(s.subrange(i0, e) + Seq::<char>::empty() =~= s.subrange(i0, e));
        }
        assert(s.subrange(i0, e) + s.subrange(e, i) =~= s.subrange(i0, i));
        i
    }
}

/// The colour of every token of a line follows from its text: `true` and
/// `false` are blue, `null` dark grey; punctuation stands alone in cyan;
/// numbers are yellow; white space stands alone, uncoloured; a quoted string
/// is magenta exactly where a colon follows it on the line (a key), and
/// green otherwise.
pub proof fn lemma_token_colours(s: Seq<char>, k: int)
    requires
        0 <= k < tokens(s).len(),
    ensures
        ({
            let t = tokens(s)[k].0;
            let c = tokens(s)[k].1;
            let after = (concat_texts(tokens(s).take(k)).len() + t.len()) as int;
            &&& t.len() > 0
            &&& (t == "true"@ || t == "false"@) ==> c == Tint::Blue
            &&& t == "null"@ ==> c == Tint::DarkGray
            &&& (t[0] == '{' || t[0] == '}' || t[0] == ':' || t[0] == ',') ==> t.len() == 1 && c == Tint::Cyan
            &&& ('0' <= t[0] <= '9' || t[0] == '-' || t[0] == '.') ==> c == Tint::Yellow
            &&& is_white_space(t[0]) ==> t.len() == 1 && c == Tint::Plain
            &&& t[0] == '"' ==> (c == Tint::Magenta <==> (after < s.len() && s[after] == ':'))
            &&& t[0] == '"' ==> (c == Tint::Magenta || c == Tint::Green)
        }),
{
    reveal_strlit("true");
    reveal_strlit("false");
    reveal_strlit("null");
    let i = token_position(s, 0, k);
    lemma_token_bounded(s, i);
    lemma_runs_bounded(s, i + 1);
    let e = token_end(s, i);
    let t = s.subrange(i, e);
    assert(t[0] == s[i]);
    assert(concat_texts(tokens(s).take(k)).len() == i);
    assert(i + t.len() == e);
}

proof fn lemma_run_contents(s: Seq<char>, i: int)
    requires
        0 <= i <= s.len(),
    ensures
        forall|j: int| i <= j < number_end(s, i) ==> continues_number(#[trigger] s[j]),
        number_end(s, i) < s.len() ==> !continues_number(s[number_end(s, i)]),
        forall|j: int| i <= j < word_end(s, i) ==> continues_word(#[trigger] s[j]),
        word_end(s, i) < s.len() ==> !continues_word(s[word_end(s, i)]),
        quote_end(s, i) == s.len() ==> (s.len() > i && s[s.len() - 1] == '"') || forall|j: int| i <= j < s.len() ==> #[trigger] s[j] != '"',
        quote_end(s, i) < s.len() ==> i < quote_end(s, i) && s[quote_end(s, i) - 1] == '"',
        forall|j: int| i <= j < quote_end(s, i) - 1 ==> #[trigger] s[j] != '"',
    decreases s.len() - i,
{
    if i < s.len() {
        lemma_run_contents(s, i + 1);
        lemma_runs_bounded(s, i + 1);
    }
}

/// Where every token of a line ends: a quoted string runs to the first quote
/// after its opening one (or to the end of the line where none follows); a
/// number takes every digit and point that follow its first character; a
/// word takes every character up to white space, a quote or JSON
/// punctuation. No token could have gone on.
pub proof fn lemma_token_extent(s: Seq<char>, k: int)
    requires
        0 <= k < tokens(s).len(),
    ensures
        ({
            let t = tokens(s)[k].0;
            let after = (concat_texts(tokens(s).take(k)).len() + t.len()) as int;
            let punct = |c: char| c == '{' || c == '}' || c == ':' || c == ',';
            &&& t.len() > 0
            &&& after <= s.len()
            &&& t[0] == '"' ==> (forall|j: int| 1 <= j < t.len() - 1 ==> #[trigger] t[j] != '"')
                && ((t.len() >= 2 && t[t.len() - 1] == '"')
                    || (after == s.len() && forall|j: int| 1 <= j < t.len() ==> #[trigger] t[j] != '"'))
            &&& ('0' <= t[0] <= '9' || t[0] == '-' || t[0] == '.') ==> {
                &&& forall|j: int| 1 <= j < t.len() ==> ('0' <= #[trigger] t[j] <= '9' || t[j] == '.')
                &&& after < s.len() ==> !('0' <= s[after] <= '9' || s[after] == '.')
            }
            &&& (!punct(t[0]) && t[0] != '"' && !('0' <= t[0] <= '9' || t[0] == '-' || t[0] == '.')
                && !is_white_space(t[0])) ==> {
                &&& forall|j: int| 1 <= j < t.len()
                    ==> !is_white_space(#[trigger] t[j]) && t[j] != '"' && !punct(t[j])
                &&& after < s.len() ==> (is_white_space(s[after]) || s[after] == '"' || punct(s[after]))
            }
        }),
{
    let i = token_position(s, 0, k);
    lemma_token_bounded(s, i);
    lemma_runs_bounded(s, i + 1);
    lemma_run_contents(s, i + 1);
    let e = token_end(s, i);
    let t = s.subrange(i, e);
    assert(t[0] == s[i]);
    assert(concat_texts(tokens(s).take(k)).len() == i);
    assert(i + t.len() == e);
    assert forall|j: int| 1 <= j < t.len() implies #[trigger] t[j] == s[i + j] by {}
    if s[i] == '"' {
        if e < s.len() {
            assert(t[t.len() - 1] == s[e - 1]);
        } else if e > i + 1 && s[s.len() - 1] == '"' {
            assert(t[t.len() - 1] == s[s.len() - 1]);
        }
    }
}

/// The characters of a line.
fn chars_of(s: &str) -> (r: Vec<char>)
    ensures
        r@ == s@,
{
    let n = s.unicode_len();
    let mut r: Vec<char> = Vec::new();
    let mut i: usize = 0;
    while i < n
        invariant
            n == s@.len(),
            i <= n,
            r@ == s@.take(i as int),
        decreases n - i,
    {
        r.push(s.get_char(i));
        assert(r@ =~= s@.take(i + 1));
        i = i + 1;
    }
    assert(s@.take(n as int) =~= s@);
    r
}

fn number_end_at(cs: &Vec<char>, i: usize) -> (r: usize)
    requires
        i <= cs@.len(),
    ensures
        r == number_end(cs@, i as int),
    decreases cs@.len() - i,
{
    if i < cs.len() && (('0' <= cs[i] && cs[i] <= '9') || cs[i] == '.') {
        number_end_at(cs, i + 1)
    } else {
        i
    }
}

fn word_end_at(cs: &Vec<char>, i: usize) -> (r: usize)
    requires
        i <= cs@.len(),
    ensures
        r == word_end(cs@, i as int),
    decreases cs@.len() - i,
{
    if i < cs.len() {
        let c = cs[i];
        if !white_space(c) && c != '"' && c != '{' && c != '}' && c != ':' && c != ',' {
            return word_end_at(cs, i + 1);
        }
    }
    i
}

fn quote_end_at(cs: &Vec<char>, i: usize) -> (r: usize)
    requires
        i <= cs@.len(),
    ensures
        r == quote_end(cs@, i as int),
    decreases cs@.len() - i,
{
    if i >= cs.len() {
        cs.len()
    } else if cs[i] == '"' {
        i + 1
    } else {
        quote_end_at(cs, i + 1)
    }
}

fn is_word(cs: &Vec<char>, start: usize, end: usize, w: &str) -> (r: bool)
    requires
        start <= end <= cs@.len(),
    ensures
        r == (cs@.subrange(start as int, end as int) == w@),
{
    let k = w.unicode_len();
    if end - start != k {
        return false;
    }
    let mut j: usize = 0;
    while j < k
        invariant
            k == w@.len(),
            start + k == end,
            end <= cs@.len(),
            j <= k,
            forall|m: int| 0 <= m < j ==> cs@[start + m] == w@[m],
        decreases k - j,
    {
        if cs[start + j] != w.get_char(j) {
            assert(cs@.subrange(start as int, end as int)[j as int] != w@[j as int]);
            return false;
        }
        j = j + 1;
    }
    assert(cs@.subrange(start as int, end as int) =~= w@);
    true
}

/// Cuts a line of the detail pane into coloured tokens.
pub fn highlight_line(line: &str) -> (r: Vec<Span>)
    ensures
        line_view(r@) == tokens(line@),
{
    let cs = chars_of(line);
    let n = cs.len();
    let mut spans: Vec<Span> = Vec::new();
    let mut i: usize = 0;
    while i < n
        invariant
            n == cs@.len(),
            cs@ == line@,
            i <= n,
            line_view(spans@) + tokens_from(cs@, i as int) == tokens(cs@),
        decreases n - i,
    {
        let c = cs[i];
        proof {
            lemma_runs_bounded(cs@, i + 1);
        }
        let (end, tint) = if c == '{' || c == '}' || c == ':' || c == ',' {
            (i + 1, Tint::Cyan)
        } else if c == '"' {
            let e = quote_end_at(&cs, i + 1);
            let t = if e < n && cs[e] == ':' { Tint::Magenta } else { Tint::Green };
            (e, t)
        } else if ('0' <= c && c <= '9') || c == '-' || c == '.' {
            (number_end_at(&cs, i + 1), Tint::Yellow)
        } else if white_space(c) {
            (i + 1, Tint::Plain)
        } else {
            let e = word_end_at(&cs, i + 1);
            let t = if is_word(&cs, i, e, "true") || is_word(&cs, i, e, "false") {
                Tint::Blue
            } else if is_word(&cs, i, e, "null") {
                Tint::DarkGray
            } else {
                Tint::Plain
            };
            (e, t)
        };
        assert(end == token_end(cs@, i as int));
        assert(tint == token_tint(cs@, i as int));
        let mut text = String::new();
        let mut k: usize = i;
        while k < end
            invariant
                i <= k <= end,
                end <= cs@.len(),
                text@ == cs@.subrange(i as int, k as int),
            decreases end - k,
        {
            push_char(&mut text, cs[k]);
            assert(text@ =~= cs@.subrange(i as int, k + 1));
            k = k + 1;
        }
        let ghost before = line_view(spans@);
        spans.push(Span { text, tint });
        assert(line_view(spans@) =~= before.push((cs@.subrange(i as int, end as int), tint)));
        assert(tokens_from(cs@, i as int) == seq![(cs@.subrange(i as int, end as int), tint)] + tokens_from(cs@, end as int));
        assert(before.push((cs@.subrange(i as int, end as int), tint)) + tokens_from(cs@, end as int)
            =~= before + tokens_from(cs@, i as int));
        i = end;
    }
    assert(line_view(spans@) =~= line_view(spans@) + tokens_from(cs@, n as int));
    spans
}

/// Cuts a text into lines and each line into coloured tokens.
pub fn highlight_text(text: &str) -> (r: Vec<Vec<Span>>)
    ensures
        r@.len() == lines_of(text@).len(),
        forall|i: int| 0 <= i < r@.len() ==> line_view(#[trigger] r@[i]@) == tokens(lines_of(text@)[i]),
{
    let lines = split_lines(text);
    let mut r: Vec<Vec<Span>> = Vec::new();
    let mut i: usize = 0;
    while i < lines.len()
        invariant
            texts(lines@) == lines_of(text@),
            i <= lines@.len(),
            r@.len() == i,
            forall|j: int| 0 <= j < i ==> line_view(#[trigger] r@[j]@) == tokens(lines_of(text@)[j]),
        decreases lines@.len() - i,
    {
        assert(lines@[i as int]@ == lines_of(text@)[i as int]);
        r.push(highlight_line(lines[i].as_str()));
        i = i + 1;
    }
    r
}

/// The number of white-space characters that start a line.
pub open spec fn leading_space(line: Seq<char>) -> nat
    decreases line.len(),
{
    if line.len() > 0 && is_white_space(line[0]) {
        1 + leading_space(line.drop_first())
    } else {
        0
    }
}

/// `n` spaces.
pub open spec fn spaces(n: nat) -> Seq<char> {
    Seq::new(n, |i: int| ' ')
}

/// A line of pretty-printed JSON moved right by `base` columns, keeping its
/// own indentation (two columns per level of nesting).
pub open spec fn reindented(line: Seq<char>, first: bool, base: nat) -> Seq<char> {
    if first {
        spaces(base) + line
    } else {
        let k = leading_space(line);
        spaces(base + k) + line.skip(k as int)
    }
}

/// Pretty-printed JSON re-indented under a margin of `base` columns: the
/// lines, re-indented, joined by line feeds.
pub open spec fn reindented_text(pretty: Seq<char>, base: nat) -> Seq<char> {
    let lines = lines_of(pretty);
    joined(Seq::new(lines.len(), |i: int| reindented(lines[i], i == 0, base)), "\n"@)
}

proof fn lemma_leading_space_bounded(line: Seq<char>)
    ensures
        leading_space(line) <= line.len(),
        forall|j: int| 0 <= j < leading_space(line) ==> is_white_space(#[trigger] line[j]),
        leading_space(line) < line.len() ==> !is_white_space(line[leading_space(line) as int]),
    decreases line.len(),
{
    if line.len() > 0 && is_white_space(line[0]) {
        lemma_leading_space_bounded(line.drop_first());
        assert forall|j: int| 0 <= j < leading_space(line) implies is_white_space(#[trigger] line[j]) by {
            if j > 0 {
                assert(line[j] == line.drop_first()[j - 1]);
            }
        }
    }
}

fn spaces_text(n: usize) -> (r: String)
    ensures
        r@ == spaces(n as nat),
{
    let mut r = String::new();
    let mut k: usize = 0;
    while k < n
        invariant
            k <= n,
            r@ == spaces(k as nat),
        decreases n - k,
    {
        push_char(&mut r, ' ');
        assert(r@ =~= spaces((k + 1) as nat));
        k = k + 1;
    }
    r
}

/// The number of white-space characters that start a line.
fn leading_space_count(line: &str) -> (k: usize)
    ensures
        k == leading_space(line@),
{
    let n = line.unicode_len();
    let mut k: usize = 0;
    proof {
        lemma_leading_space_bounded(line@);
    }
    while k < n && white_space(line.get_char(k))
        invariant
            n == line@.len(),
            k <= leading_space(line@),
            leading_space(line@) <= n,
            forall|j: int| 0 <= j < leading_space(line@) ==> is_white_space(#[trigger] line@[j]),
            leading_space(line@) < n ==> !is_white_space(line@[leading_space(line@) as int]),
        decreases n - k,
    {
        k = k + 1;
    }
    k
}

fn reindent_line(line: &str, first: bool, base: usize) -> (r: String)
    requires
        !first ==> base + leading_space(line@) <= usize::MAX,
    ensures
        r@ == reindented(line@, first, base as nat),
{
    if first {
        let mut r = spaces_text(base);
        append(&mut r, line);
        return r;
    }
    let k = leading_space_count(line);
    proof {
        lemma_leading_space_bounded(line@);
    }
    let mut r = spaces_text(base + k);
    let rest = line.substring_char(k, line.unicode_len());
    assert(rest@ =~= line@.skip(k as int));
    append(&mut r, rest);
    r
}

/// Whether the new indentation of every line after the first fits in a
/// machine word.
pub open spec fn reindent_fits(pretty: Seq<char>, base: nat) -> bool {
    forall|i: int| 1 <= i < lines_of(pretty).len() ==> base + leading_space(#[trigger] lines_of(pretty)[i]) <= usize::MAX
}

/// Re-indents pretty-printed JSON under a margin of `base` columns (the part
/// of the detail view's JSON layout that follows the printing).
pub fn reindent_pretty_json(pretty: &str, base: usize) -> (r: String)
    requires
        reindent_fits(pretty@, base as nat),
    ensures
        r@ == reindented_text(pretty@, base as nat),
{
    let lines = split_lines(pretty);
    let ghost ls = lines_of(pretty@);
    let ghost parts = Seq::new(ls.len(), |i: int| reindented(ls[i], i == 0, base as nat));
    let mut r = String::new();
    let mut i: usize = 0;
    while i < lines.len()
        invariant
            texts(lines@) == ls,
            ls == lines_of(pretty@),
            parts == Seq::new(ls.len(), |i: int| reindented(ls[i], i == 0, base as nat)),
            reindent_fits(pretty@, base as nat),
            i <= lines@.len(),
            r@ == joined(parts.take(i as int), "\n"@),
        decreases lines@.len() - i,
    {
        if i > 0 {
            append(&mut r, "\n");
        }
        assert(lines@[i as int]@ == ls[i as int]);
        let piece = reindent_line(lines[i].as_str(), i == 0, base);
        append(&mut r, piece.as_str());
        proof {
            let t = parts.take(i + 1);
            assert(t.drop_last() =~= parts.take(i as int));
            if i == 0 {
                assert(parts.take(0) =~= Seq::<Seq<char>>::empty());
            }
        }
        i = i + 1;
    }
    assert(parts.take(ls.len() as int) =~= parts);
    r
}

/// Whether re-indenting under `base` columns fits in machine words.
pub fn reindent_fits_check(pretty: &str, base: usize) -> (r: bool)
    ensures
        r == reindent_fits(pretty@, base as nat),
{
    let lines = split_lines(pretty);
    let mut i: usize = 1;
    while i < lines.len()
        invariant
            texts(lines@) == lines_of(pretty@),
            1 <= i,
            forall|j: int| 1 <= j < i && j < lines@.len() ==> base + leading_space(#[trigger] lines_of(pretty@)[j]) <= usize::MAX,
        decreases lines@.len() - i,
    {
        assert(lines@[i as int]@ == lines_of(pretty@)[i as int]);
        let k = leading_space_count(lines[i].as_str());
        if k > usize::MAX - base {
            return false;
        }
        i = i + 1;
    }
    true
}

/// The spaces before the one-line text of a value that cannot be pretty
/// printed, and that text.
pub open spec fn json_value_text(value: Json, base: nat) -> Seq<char> {
    match pretty_json_text(value) {
        Some(t) => reindented_text(t, base),
        None => spaces(base) + compact_json_text(value),
    }
}

/// Whether laying out `value` under `base` columns fits in machine words.
pub open spec fn json_value_fits(value: Json, base: nat) -> bool {
    pretty_json_text(value) matches Some(t) ==> reindent_fits(t, base)
}

/// A value's pretty-printed JSON under a margin of `base_indent` columns,
/// keeping its own indentation; a value that cannot be pretty printed is
/// written on one line after the margin.
pub fn format_json_value(value: &Json, base_indent: usize) -> (r: String)
    requires
        json_value_fits(*value, base_indent as nat),
    ensures
        r@ == json_value_text(*value, base_indent as nat),
{
    match pretty_json(value) {
        Some(formatted) => reindent_pretty_json(formatted.as_str(), base_indent),
        None => {
            let mut r = spaces_text(base_indent);
            let text = compact_json(value);
            append(&mut r, text.as_str());
            r
        },
    }
}

/// `format_json_value` where its indentation fits in machine words, and
/// nothing where it does not.
pub fn format_json_value_checked(value: &Json, base_indent: usize) -> (r: Option<String>)
    ensures
        json_value_fits(*value, base_indent as nat) <==> r is Some,
        r matches Some(t) ==> t@ == json_value_text(*value, base_indent as nat),
{
    match pretty_json(value) {
        Some(formatted) => {
            if reindent_fits_check(formatted.as_str(), base_indent) {
                Some(reindent_pretty_json(formatted.as_str(), base_indent))
            } else {
                None
            }
        },
        None => Some(format_json_value(value, base_indent)),
    }
}

} // verus!
