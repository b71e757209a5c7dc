//! Tokenizing counter listings and parsing decimal values.
//!
//! A counter listing is scanned line by line, each line as a sequence of
//! whitespace-separated tokens; the value of a keyword (`packets`, `bytes`)
//! is the token that immediately follows its last occurrence, which must lie
//! on the same line.

use vstd::prelude::*;

verus! {

/// The characters treated as token separators: the ASCII whitespace that
/// counter listings and settings use.  This is deliberately narrower than
/// Unicode whitespace; exotic separators are token characters here.
pub open spec fn is_space(c: char) -> bool {
    c == ' ' || c == '\t' || c == '\n' || c == '\r'
}

/// One step of the tokenizer: consume `c` with `st` = (finished tokens,
/// partial token).
pub open spec fn tok_step(st: (Seq<Seq<char>>, Seq<char>), c: char) -> (Seq<Seq<char>>, Seq<char>) {
    if is_space(c) {
        if st.1.len() == 0 {
            st
        } else {
            (st.0.push(st.1), Seq::empty())
        }
    } else {
        (st.0, st.1.push(c))
    }
}

/// Tokenizer state after consuming the first `i` characters of `s`.
pub open spec fn tok_fold(s: Seq<char>, i: int) -> (Seq<Seq<char>>, Seq<char>)
    decreases i,
{
    if i <= 0 {
        (Seq::empty(), Seq::empty())
    } else {
        tok_step(tok_fold(s, i - 1), s[i - 1])
    }
}

/// The whitespace-separated tokens of `s`, in document order.
pub open spec fn tokens_of(s: Seq<char>) -> Seq<Seq<char>> {
    let st = tok_fold(s, s.len() as int);
    if st.1.len() == 0 {
        st.0
    } else {
        st.0.push(st.1)
    }
}

/// The views of a sequence of owned strings.
pub open spec fn views_of(toks: Seq<String>) -> Seq<Seq<char>> {
    toks.map_values(|t: String| t@)
}

/// One step of the line splitter: consume `c` with `st` = (finished lines,
/// current line).
pub open spec fn line_step(st: (Seq<Seq<char>>, Seq<char>), c: char) -> (Seq<Seq<char>>, Seq<char>) {
    if c == '\n' {
        (st.0.push(st.1), Seq::empty())
    } else {
        (st.0, st.1.push(c))
    }
}

/// Line-splitter state after consuming the first `i` characters of `s`.
pub open spec fn line_fold(s: Seq<char>, i: int) -> (Seq<Seq<char>>, Seq<char>)
    decreases i,
{
    if i <= 0 {
        (Seq::empty(), Seq::empty())
    } else {
        line_step(line_fold(s, i - 1), s[i - 1])
    }
}

/// The lines of `s`: the segments between newline characters, in order, the
/// final segment included even when empty.
pub open spec fn lines_of(s: Seq<char>) -> Seq<Seq<char>> {
    let st = line_fold(s, s.len() as int);
    st.0.push(st.1)
}

/// Whether `kw` occurs among `toks`.
pub open spec fn has_token(toks: Seq<Seq<char>>, kw: Seq<char>) -> bool {
    exists|i: int| 0 <= i < toks.len() && toks[i] == kw
}

/// The value of keyword `kw` among the first `n` lines: the LAST line whose
/// tokens contain `kw` decides, by that line's own last occurrence.
pub open spec fn text_value_upto(lines: Seq<Seq<char>>, kw: Seq<char>, n: int) -> u64
    decreases n,
{
    if n <= 0 {
        0u64
    } else if has_token(tokens_of(lines[n - 1]), kw) {
        keyword_value(tokens_of(lines[n - 1]), kw)
    } else {
        text_value_upto(lines, kw, n - 1)
    }
}

/// The value of keyword `kw` in a whole counter listing, scanned line by
/// line: the token immediately following the keyword's last occurrence in
/// document order, which must lie on the same line; a keyword last on its
/// line, like one whose follower is not numeric or one that never occurs,
/// resolves to zero.
pub open spec fn text_keyword_value(s: Seq<char>, kw: Seq<char>) -> u64 {
    text_value_upto(lines_of(s), kw, lines_of(s).len() as int)
}

/// The value associated with keyword `kw` among the first `n` tokens: the
/// token immediately following the LAST occurrence of `kw`, parsed leniently;
/// zero when that token is missing or the keyword never occurs.
pub open spec fn keyword_value_upto(toks: Seq<Seq<char>>, kw: Seq<char>, n: int) -> u64
    decreases n,
{
    if n <= 0 {
        0u64
    } else if toks[n - 1] == kw {
        if n < toks.len() {
            u64_or_zero(toks[n])
        } else {
            0u64
        }
    } else {
        keyword_value_upto(toks, kw, n - 1)
    }
}

/// The value associated with keyword `kw` in the whole token list.
pub open spec fn keyword_value(toks: Seq<Seq<char>>, kw: Seq<char>) -> u64 {
    keyword_value_upto(toks, kw, toks.len() as int)
}

proof fn lemma_upto_no_occurrence(toks: Seq<Seq<char>>, kw: Seq<char>, m: int, n: int)
    requires
        0 <= m <= n <= toks.len(),
        forall|j: int| m <= j < n ==> toks[j] != kw,
    ensures
        keyword_value_upto(toks, kw, n) == keyword_value_upto(toks, kw, m),
    decreases n - m,
{
    if n > m {
        lemma_upto_no_occurrence(toks, kw, m, n - 1);
    }
}

/// Law: the value of a keyword is taken from the token immediately after
/// its LAST occurrence in document order; later occurrences override
/// earlier ones.
pub proof fn lemma_last_occurrence_wins(toks: Seq<Seq<char>>, kw: Seq<char>, k: int)
    requires
        0 <= k < toks.len(),
        toks[k] == kw,
        forall|j: int| k < j < toks.len() ==> toks[j] != kw,
    ensures
        keyword_value(toks, kw) == if k + 1 < toks.len() {
            u64_or_zero(toks[k + 1])
        } else {
            0u64
        },
{
    lemma_upto_no_occurrence(toks, kw, k + 1, toks.len() as int);
}

/// Law: a keyword that never occurs resolves to zero.
pub proof fn lemma_absent_keyword_is_zero(toks: Seq<Seq<char>>, kw: Seq<char>)
    requires
        forall|j: int| 0 <= j < toks.len() ==> toks[j] != kw,
    ensures
        keyword_value(toks, kw) == 0,
{
    lemma_upto_no_occurrence(toks, kw, 0, toks.len() as int);
}

/// Law: when the token after the keyword's last occurrence is missing or is
/// not a numeric value, the field resolves to zero.  The degradation is per
/// field: it is never a read failure.
pub proof fn lemma_degraded_field_is_zero(toks: Seq<Seq<char>>, kw: Seq<char>, k: int)
    requires
        0 <= k < toks.len(),
        toks[k] == kw,
        forall|j: int| k < j < toks.len() ==> toks[j] != kw,
        k + 1 < toks.len() ==> parsed_u64(toks[k + 1]) is None,
    ensures
        keyword_value(toks, kw) == 0,
{
    lemma_last_occurrence_wins(toks, kw, k);
}

proof fn lemma_text_upto_no_line(lines: Seq<Seq<char>>, kw: Seq<char>, m: int, n: int)
    requires
        0 <= m <= n <= lines.len(),
        forall|j: int| m <= j < n ==> !has_token(tokens_of(lines[j]), kw),
    ensures
        text_value_upto(lines, kw, n) == text_value_upto(lines, kw, m),
    decreases n - m,
{
    if n > m {
        lemma_text_upto_no_line(lines, kw, m, n - 1);
    }
}

/// Law: the LAST line whose tokens contain the keyword decides its value,
/// by that line's own last occurrence; later lines override earlier ones.
pub proof fn lemma_last_line_wins(lines: Seq<Seq<char>>, kw: Seq<char>, k: int)
    requires
        0 <= k < lines.len(),
        has_token(tokens_of(lines[k]), kw),
        forall|j: int| k < j < lines.len() ==> !has_token(tokens_of(lines[j]), kw),
    ensures
        text_value_upto(lines, kw, lines.len() as int) == keyword_value(tokens_of(lines[k]), kw),
{
    lemma_text_upto_no_line(lines, kw, k + 1, lines.len() as int);
}

/// Law: a keyword that occurs in no line resolves to zero.
pub proof fn lemma_keyword_in_no_line_is_zero(lines: Seq<Seq<char>>, kw: Seq<char>)
    requires
        forall|j: int| 0 <= j < lines.len() ==> !has_token(tokens_of(lines[j]), kw),
    ensures
        text_value_upto(lines, kw, lines.len() as int) == 0,
{
    lemma_text_upto_no_line(lines, kw, 0, lines.len() as int);
}

/// Law: when the keyword's deciding occurrence is the last token of its
/// line, the field resolves to zero — a follower on a later line does not
/// count, and earlier occurrences stay overridden.
pub proof fn lemma_line_final_keyword_is_zero(lines: Seq<Seq<char>>, kw: Seq<char>, k: int)
    requires
        0 <= k < lines.len(),
        tokens_of(lines[k]).len() > 0,
        tokens_of(lines[k]).last() == kw,
        forall|j: int| k < j < lines.len() ==> !has_token(tokens_of(lines[j]), kw),
    ensures
        text_value_upto(lines, kw, lines.len() as int) == 0,
{
    let toks = tokens_of(lines[k]);
    assert(has_token(toks, kw));
    lemma_last_line_wins(lines, kw, k);
    lemma_last_occurrence_wins(toks, kw, toks.len() - 1);
}

/// Whether `c` is a decimal digit.
pub open spec fn is_digit(c: char) -> bool {
    48 <= c as int && c as int <= 57
}

/// Numeric value of a decimal digit character.
pub open spec fn digit_val(c: char) -> int {
    c as int - 48
}

/// Value of a digit string, most significant digit first.
pub open spec fn digits_val(t: Seq<char>) -> int
    decreases t.len(),
{
    if t.len() == 0 {
        0
    } else {
        digits_val(t.drop_last()) * 10 + digit_val(t.last())
    }
}

/// Whether `t` is a non-empty string of decimal digits.
pub open spec fn is_digit_string(t: Seq<char>) -> bool {
    t.len() > 0 && (forall|i: int| 0 <= i < t.len() ==> is_digit(t[i]))
}

/// The token parsed as a non-negative 64-bit integer, if it is one.  Only
/// plain digit strings count: no sign, not even a leading plus.
pub open spec fn parsed_u64(t: Seq<char>) -> Option<u64> {
    if is_digit_string(t) && digits_val(t) <= u64::MAX {
        Some(digits_val(t) as u64)
    } else {
        None
    }
}

/// The token's numeric value, with unparsable tokens degraded to zero.
pub open spec fn u64_or_zero(t: Seq<char>) -> u64 {
    match parsed_u64(t) {
        Some(v) => v,
        None => 0,
    }
}

proof fn lemma_digits_val_nonneg(t: Seq<char>)
    requires
        forall|i: int| 0 <= i < t.len() ==> is_digit(t[i]),
    ensures
        digits_val(t) >= 0,
    decreases t.len(),
{
    if t.len() > 0 {
        assert(forall|i: int| 0 <= i < t.drop_last().len() ==> is_digit(t.drop_last()[i]));
        lemma_digits_val_nonneg(t.drop_last());
    }
}

/// The value of a digit string is at least the value of any of its prefixes.
proof fn lemma_digits_prefix_le(t: Seq<char>, j: int)
    requires
        0 <= j <= t.len(),
        forall|i: int| 0 <= i < t.len() ==> is_digit(t[i]),
    ensures
        digits_val(t.take(j)) <= digits_val(t),
    decreases t.len() - j,
{
    if j == t.len() {
        assert(t.take(j) =~= t);
    } else {
        lemma_digits_prefix_le(t, j + 1);
        assert(t.take(j + 1).drop_last() =~= t.take(j));
        assert(t.take(j + 1).last() == t[j]);
        assert(forall|i: int| 0 <= i < t.take(j).len() ==> is_digit(t.take(j)[i]));
        lemma_digits_val_nonneg(t.take(j));
    }
}

/// Compare two string slices by content.
pub fn str_eq(a: &str, b: &str) -> (r: bool)
    ensures
        r == (a@ == b@),
{
    let na = a.unicode_len();
    let nb = b.unicode_len();
    if na != nb {
        assert(a@ != b@);
        return false;
    }
    let mut i: usize = 0;
    while i < na
        invariant
            i <= na,
            na == a@.len(),
            na == b@.len(),
            forall|j: int| 0 <= j < i ==> a@[j] == b@[j],
        decreases na - i,
    {
        if a.get_char(i) != b.get_char(i) {
            return false;
        }
        i += 1;
    }
    proof {
        assert(a@ =~= b@);
    }
    true
}

/// Parse a token as a non-negative decimal 64-bit integer.
pub fn parse_u64(t: &str) -> (r: Option<u64>)
    ensures
        r == parsed_u64(t@),
{
    let n = t.unicode_len();
    if n == 0 {
        return None;
    }
    let mut v: u64 = 0;
    let mut i: usize = 0;
    while i < n
        invariant
            0 < n == t@.len(),
            i <= n,
            forall|j: int| 0 <= j < i ==> is_digit(t@[j]),
            v == digits_val(t@.take(i as int)),
        decreases n - i,
    {
        let c = t.get_char(i);
        let u = c as u32;
        if u < 48 || u > 57 {
            assert(!is_digit(t@[i as int]));
            return None;
        }
        let d = (u - 48) as u64;
        assert(d == digit_val(t@[i as int]));
        if v > (u64::MAX - d) / 10 {
            // Any full digit string extending this prefix overflows.
            proof {
                if is_digit_string(t@) {
                    assert(t@.take(i + 1).drop_last() =~= t@.take(i as int));
                    assert(t@.take(i + 1).last() == t@[i as int]);
                    assert(digits_val(t@.take(i + 1)) == v * 10 + d);
                    assert(v * 10 + d > u64::MAX) by {
                        assert(v >= (u64::MAX - d) / 10 + 1);
                        assert(((u64::MAX - d) / 10 + 1) * 10 + d > u64::MAX) by (nonlinear_arith);
                        assert(v * 10 >= ((u64::MAX - d) / 10 + 1) * 10) by (nonlinear_arith)
                            requires v >= (u64::MAX - d) / 10 + 1;
                    }
                    lemma_digits_prefix_le(t@, i + 1);
                    assert(digits_val(t@) > u64::MAX);
                }
            }
            return None;
        }
        proof {
            assert(t@.take(i + 1).drop_last() =~= t@.take(i as int));
            assert(t@.take(i + 1).last() == t@[i as int]);
            assert(v * 10 <= u64::MAX - d) by (nonlinear_arith)
                requires v <= (u64::MAX - d) / 10, d <= 9;
        }
        v = v * 10 + d;
        i += 1;
    }
    proof {
        assert(t@.take(n as int) =~= t@);
        assert(is_digit_string(t@));
    }
    Some(v)
}

/// Split a string into its whitespace-separated tokens.
pub fn tokenize(s: &str) -> (toks: Vec<String>)
    ensures
        views_of(toks@) == tokens_of(s@),
{
    let n = s.unicode_len();
    let mut toks: Vec<String> = Vec::new();
    let mut cur: String = String::new();
    let mut i: usize = 0;
    while i < n
        invariant
            i <= n,
            n == s@.len(),
            views_of(toks@) == tok_fold(s@, i as int).0,
            cur@ == tok_fold(s@, i as int).1,
        decreases n - i,
    {
        let ghost prev = tok_fold(s@, i as int);
        let c = s.get_char(i);
        if c == ' ' || c == '\t' || c == '\n' || c == '\r' {
            if !cur.as_str().is_empty() {
                let ghost curv = cur@;
                toks.push(cur);
                cur = String::new();
                proof {
                    assert(views_of(toks@) =~= prev.0.push(curv));
                }
            }
        } else {
            let piece = s.substring_char(i, i + 1);
            cur.append(piece);
            proof {
                assert(piece@ =~= seq![s@[i as int]]);
                assert(cur@ =~= prev.1.push(s@[i as int]));
            }
        }
        i += 1;
        proof {
            assert(tok_fold(s@, i as int) == tok_step(prev, s@[i - 1]));
        }
    }
    if !cur.as_str().is_empty() {
        toks.push(cur);
        proof {
            assert(views_of(toks@) =~= tok_fold(s@, n as int).0.push(tok_fold(s@, n as int).1));
        }
    }
    toks
}

/// Split a string into its lines, the segments between newline characters.
pub fn split_lines(s: &str) -> (lines: Vec<String>)
    ensures
        views_of(lines@) == lines_of(s@),
{
    let n = s.unicode_len();
    let mut lines: Vec<String> = Vec::new();
    let mut cur: String = String::new();
    let mut i: usize = 0;
    while i < n
        invariant
            i <= n,
            n == s@.len(),
            views_of(lines@) == line_fold(s@, i as int).0,
            cur@ == line_fold(s@, i as int).1,
        decreases n - i,
    {
        let ghost prev = line_fold(s@, i as int);
        let c = s.get_char(i);
        if c == '\n' {
            let ghost curv = cur@;
            lines.push(cur);
            cur = String::new();
            proof {
                assert(views_of(lines@) =~= prev.0.push(curv));
            }
        } else {
            let piece = s.substring_char(i, i + 1);
            cur.append(piece);
            proof {
                assert(piece@ =~= seq![s@[i as int]]);
                assert(cur@ =~= prev.1.push(s@[i as int]));
            }
        }
        i += 1;
        proof {
            assert(line_fold(s@, i as int) == line_step(prev, s@[i - 1]));
        }
    }
    let ghost curv = cur@;
    lines.push(cur);
    proof {
        assert(views_of(lines@) =~= line_fold(s@, n as int).0.push(curv));
    }
    lines
}

/// Whether the token list contains `kw`.
pub fn contains_token(toks: &Vec<String>, kw: &str) -> (r: bool)
    ensures
        r == has_token(views_of(toks@), kw@),
{
    let mut i: usize = 0;
    while i < toks.len()
        invariant
            i <= toks@.len(),
            forall|j: int| 0 <= j < i ==> views_of(toks@)[j] != kw@,
        decreases toks@.len() - i,
    {
        if str_eq(toks[i].as_str(), kw) {
            assert(views_of(toks@)[i as int] == kw@);
            return true;
        }
        i += 1;
    }
    false
}

/// Scan a listing's lines for the value of keyword `kw`; the last line
/// containing the keyword decides, by its own last occurrence.
pub fn text_keyword_value_in(lines: &Vec<String>, kw: &str) -> (v: u64)
    ensures
        v == text_value_upto(views_of(lines@), kw@, lines@.len() as int),
{
    let mut v: u64 = 0;
    let mut i: usize = 0;
    while i < lines.len()
        invariant
            i <= lines@.len(),
            v == text_value_upto(views_of(lines@), kw@, i as int),
        decreases lines@.len() - i,
    {
        let toks = tokenize(lines[i].as_str());
        if contains_token(&toks, kw) {
            v = keyword_value_in(&toks, kw);
        }
        i += 1;
    }
    v
}

/// Scan a token list for the value of keyword `kw`; the last occurrence wins.
pub fn keyword_value_in(toks: &Vec<String>, kw: &str) -> (v: u64)
    ensures
        v == keyword_value(views_of(toks@), kw@),
{
    let mut v: u64 = 0;
    let mut i: usize = 0;
    while i < toks.len()
        invariant
            i <= toks@.len(),
            v == keyword_value_upto(views_of(toks@), kw@, i as int),
        decreases toks@.len() - i,
    {
        if str_eq(toks[i].as_str(), kw) {
            if i + 1 < toks.len() {
                v = parse_u64_or_zero(toks[i + 1].as_str());
            } else {
                v = 0;
            }
        }
        i += 1;
    }
    v
}

/// Parse a token as a decimal value, substituting zero when it is not one.
pub fn parse_u64_or_zero(t: &str) -> (r: u64)
    ensures
        r == u64_or_zero(t@),
{
    match parse_u64(t) {
        Some(v) => v,
        None => 0,
    }
}

} // verus!
