//! Character-level string utilities.
//!
//! Exec code works on `Vec<char>` so that indexing is cheap; specifications
//! are stated over `Seq<char>` views.  Whitespace here is the ASCII
//! whitespace set.

use vstd::prelude::*;
use vstd::string::StrSliceExecFns;

verus! {

/// ASCII whitespace.
pub open spec fn is_ws_char(c: char) -> bool {
    c == ' ' || c == '\t' || c == '\n' || c == '\r' || c == '\u{b}' || c == '\u{c}'
}

/// ASCII decimal digit.
pub open spec fn is_digit_char(c: char) -> bool {
    '0' as u32 <= c as u32 && c as u32 <= '9' as u32
}

/// Lowercase ASCII hexadecimal digit.
pub open spec fn is_hex_lower_char(c: char) -> bool {
    is_digit_char(c) || ('a' as u32 <= c as u32 && c as u32 <= 'f' as u32)
}

/// ASCII word character: a letter, a digit or an underscore.
pub open spec fn is_word_char(c: char) -> bool {
    is_digit_char(c) || ('a' as u32 <= c as u32 && c as u32 <= 'z' as u32) || ('A' as u32 <= c
        as u32 && c as u32 <= 'Z' as u32) || c == '_'
}

/// Returns whether `c` is ASCII whitespace.
pub fn is_ws(c: char) -> (r: bool)
    ensures
        r == is_ws_char(c),
{
    c == ' ' || c == '\t' || c == '\n' || c == '\r' || c == '\u{b}' || c == '\u{c}'
}

/// Returns whether `c` is an ASCII decimal digit.
pub fn is_digit(c: char) -> (r: bool)
    ensures
        r == is_digit_char(c),
{
    '0' as u32 <= c as u32 && c as u32 <= '9' as u32
}

/// Returns whether `c` is a lowercase ASCII hexadecimal digit.
pub fn is_hex_lower(c: char) -> (r: bool)
    ensures
        r == is_hex_lower_char(c),
{
    is_digit(c) || ('a' as u32 <= c as u32 && c as u32 <= 'f' as u32)
}

/// Returns whether `c` is an ASCII word character.
pub fn is_word(c: char) -> (r: bool)
    ensures
        r == is_word_char(c),
{
    is_digit(c) || ('a' as u32 <= c as u32 && c as u32 <= 'z' as u32) || ('A' as u32 <= c as u32
        && c as u32 <= 'Z' as u32) || c == '_'
}

/// The characters of `s` as a vector.
pub fn str_to_chars(s: &str) -> (r: Vec<char>)
    ensures
        r@ == s@,
{
    let n = s.unicode_len();
    let mut out: Vec<char> = Vec::new();
    let mut i: usize = 0;
    while i < n
        invariant
            n == s@.len(),
            0 <= i <= n,
            out@ =~= s@.take(i as int),
        decreases n - i,
    {
        out.push(s.get_char(i));
        proof {
            assert(out@ =~= s@.take(i + 1));
        }
        i = i + 1;
    }
    proof {
        assert(s@.take(n as int) =~= s@);
    }
    out
}

/// Relies on `String::push`: appends one character to the string.
#[verifier::external_body]
fn push_char(s: &mut String, c: char)
    ensures
        final(s)@ == old(s)@.push(c),
{
    s.push(c);
}

/// Builds a string from the characters of `v[from..to]`.
pub fn string_from_range(v: &Vec<char>, from: usize, to: usize) -> (r: String)
    requires
        from <= to <= v@.len(),
    ensures
        r@ == v@.subrange(from as int, to as int),
{
    let mut out = String::new();
    let mut i = from;
    while i < to
        invariant
            from <= i <= to <= v@.len(),
            out@ =~= v@.subrange(from as int, i as int),
        decreases to - i,
    {
        push_char(&mut out, v[i]);
        proof {
            assert(out@ =~= v@.subrange(from as int, i + 1 as int));
        }
        i = i + 1;
    }
    out
}

/// Builds a string holding exactly the characters of `v`.
pub fn string_from_chars(v: &Vec<char>) -> (r: String)
    ensures
        r@ == v@,
{
    let r = string_from_range(v, 0, v.len());
    proof {
        assert(v@.subrange(0, v@.len() as int) =~= v@);
    }
    r
}

/// The first index at or after `from` where `pred` holds, or `s.len()` if
/// there is none.
pub open spec fn first_where(s: Seq<char>, from: int, pred: spec_fn(int) -> bool) -> int
    decreases s.len() - from,
{
    if from < 0 || from >= s.len() {
        s.len() as int
    } else if pred(from) {
        from
    } else {
        first_where(s, from + 1, pred)
    }
}

/// What `first_where` returns: the earliest position satisfying `pred`.
pub proof fn lemma_first_where(s: Seq<char>, from: int, pred: spec_fn(int) -> bool)
    requires
        0 <= from <= s.len(),
    ensures
        from <= first_where(s, from, pred) <= s.len(),
        forall|j: int| from <= j < first_where(s, from, pred) ==> !#[trigger] pred(j),
        first_where(s, from, pred) < s.len() ==> pred(first_where(s, from, pred)),
    decreases s.len() - from,
{
    if from < s.len() && !pred(from) {
        lemma_first_where(s, from + 1, pred);
    }
}

/// A position with the scan properties is what `first_where` returns.
pub proof fn lemma_first_where_is(s: Seq<char>, from: int, k: int, pred: spec_fn(int) -> bool)
    requires
        0 <= from <= k <= s.len(),
        forall|j: int| from <= j < k ==> !#[trigger] pred(j),
        k < s.len() ==> pred(k),
    ensures
        first_where(s, from, pred) == k,
    decreases s.len() - from,
{
    if from < s.len() && !pred(from) {
        lemma_first_where_is(s, from + 1, k, pred);
    }
}

/// True when `pat` occurs in `s` at position `i`.
pub open spec fn match_at(s: Seq<char>, i: int, pat: Seq<char>) -> bool {
    &&& 0 <= i
    &&& i + pat.len() <= s.len()
    &&& forall|k: int| 0 <= k < pat.len() ==> s[i + k] == pat[k]
}

/// Returns whether `pat` occurs in `s` at position `i`.
pub fn chars_match_at(s: &Vec<char>, i: usize, pat: &Vec<char>) -> (r: bool)
    ensures
        r == match_at(s@, i as int, pat@),
{
    if i > s.len() || pat.len() > s.len() - i {
        return false;
    }
    let n = s.len();
    let mut k: usize = 0;
    while k < pat.len()
        invariant
            n == s@.len(),
            i + pat@.len() <= s@.len(),
            0 <= k <= pat@.len(),
            forall|j: int| 0 <= j < k ==> s@[i + j] == pat@[j],
        decreases pat.len() - k,
    {
        if s[i + k] != pat[k] {
            return false;
        }
        k = k + 1;
    }
    true
}

/// The start of the trimmed region: the first non-whitespace position.
pub open spec fn trim_start_pos(s: Seq<char>) -> int {
    first_where(s, 0, |i: int| !is_ws_char(s[i]))
}

/// The end of the trimmed region: one past the last non-whitespace position,
/// or 0 when the sequence is all whitespace.
pub open spec fn trim_end_pos(s: Seq<char>, upto: int) -> int
    decreases upto,
{
    if upto <= 0 || upto > s.len() {
        0
    } else if !is_ws_char(s[upto - 1]) {
        upto
    } else {
        trim_end_pos(s, upto - 1)
    }
}

/// What `trim_end_pos` returns.
pub proof fn lemma_trim_end_pos(s: Seq<char>, upto: int)
    requires
        0 <= upto <= s.len(),
    ensures
        0 <= trim_end_pos(s, upto) <= upto,
        forall|j: int| trim_end_pos(s, upto) <= j < upto ==> is_ws_char(s[j]),
        trim_end_pos(s, upto) > 0 ==> !is_ws_char(s[trim_end_pos(s, upto) - 1]),
    decreases upto,
{
    if upto > 0 && is_ws_char(s[upto - 1]) {
        lemma_trim_end_pos(s, upto - 1);
    }
}

/// A position with the backward-scan properties is what `trim_end_pos`
/// returns.
pub proof fn lemma_trim_end_pos_is(s: Seq<char>, upto: int, k: int)
    requires
        0 <= k <= upto <= s.len(),
        forall|j: int| k <= j < upto ==> is_ws_char(s[j]),
        k > 0 ==> !is_ws_char(s[k - 1]),
    ensures
        trim_end_pos(s, upto) == k,
    decreases upto,
{
    if upto > 0 && is_ws_char(s[upto - 1]) {
        lemma_trim_end_pos_is(s, upto - 1, k);
    }
}

/// `s` with leading and trailing ASCII whitespace removed.
pub open spec fn trim_spec(s: Seq<char>) -> Seq<char> {
    let lo = trim_start_pos(s);
    let hi = trim_end_pos(s, s.len() as int);
    if lo >= hi {
        Seq::empty()
    } else {
        s.subrange(lo, hi)
    }
}

/// The trimmed bounds of `v[from..to]` within `v`: leading and trailing
/// whitespace stripped.
pub fn trim_range(v: &Vec<char>, from: usize, to: usize) -> (r: (usize, usize))
    requires
        from <= to <= v@.len(),
    ensures
        from <= r.0 <= r.1 <= to,
        v@.subrange(r.0 as int, r.1 as int) == trim_spec(v@.subrange(from as int, to as int)),
{
    let ghost sub = v@.subrange(from as int, to as int);
    let mut lo = from;
    while lo < to && is_ws(v[lo])
        invariant
            from <= lo <= to <= v@.len(),
            forall|j: int| from <= j < lo ==> is_ws_char(v@[j]),
        decreases to - lo,
    {
        lo = lo + 1;
    }
    let mut hi = to;
    while hi > lo && is_ws(v[hi - 1])
        invariant
            lo <= hi <= to <= v@.len(),
            forall|j: int| hi <= j < to ==> is_ws_char(v@[j]),
        decreases hi,
    {
        hi = hi - 1;
    }
    proof {
        let pred = |i: int| !is_ws_char(sub[i]);
        assert(forall|j: int| 0 <= j < sub.len() ==> sub[j] == v@[from + j]);
        if lo < to {
            // lo points at the first non-whitespace character
            assert(!is_ws_char(sub[lo - from]));
            lemma_first_where_is(sub, 0, lo - from, pred);
        } else {
            lemma_first_where_is(sub, 0, sub.len() as int, pred);
        }
        assert(trim_start_pos(sub) == lo - from);
        if hi > lo {
            assert(!is_ws_char(sub[hi - from - 1]));
            lemma_trim_end_pos_is(sub, sub.len() as int, hi - from);
        } else {
            // everything in [lo, to) is whitespace, and so is everything
            // before lo; the trimmed range is empty
            assert(forall|j: int| 0 <= j < sub.len() ==> is_ws_char(sub[j]));
            lemma_trim_end_pos_is(sub, sub.len() as int, 0);
        }
        if lo < hi {
            assert(trim_end_pos(sub, sub.len() as int) == hi - from);
            assert(v@.subrange(lo as int, hi as int) =~= sub.subrange(
                lo - from,
                hi - from,
            ));
        } else {
            assert(v@.subrange(lo as int, lo as int) =~= Seq::<char>::empty());
        }
    }
    (lo, hi)
}

/// Returns a new string with leading and trailing whitespace removed.
pub fn str_trim(s: String) -> (r: String)
    ensures
        r@ == trim_spec(s@),
{
    let chars = str_to_chars(s.as_str());
    let (lo, hi) = trim_range(&chars, 0, chars.len());
    proof {
        assert(chars@.subrange(0, chars@.len() as int) =~= chars@);
    }
    string_from_range(&chars, lo, hi)
}

/// `s` with every `--` pair replaced by a single `-`, scanning left to
/// right without overlap.
pub open spec fn collapse_dashes(s: Seq<char>) -> Seq<char>
    decreases s.len(),
{
    if s.len() < 2 {
        s
    } else if s[0] == '-' && s[1] == '-' {
        seq!['-'] + collapse_dashes(s.skip(2))
    } else {
        seq![s[0]] + collapse_dashes(s.skip(1))
    }
}

/// Replaces each `--` pair by `-`, scanning left to right.
pub fn collapse_dashes_exec(v: &Vec<char>) -> (r: Vec<char>)
    ensures
        r@ == collapse_dashes(v@),
{
    let mut out: Vec<char> = Vec::new();
    let mut i: usize = 0;
    proof {
        assert(v@.skip(0) =~= v@);
        assert(Seq::<char>::empty() + collapse_dashes(v@) =~= collapse_dashes(v@));
    }
    while i < v.len()
        invariant
            0 <= i <= v@.len(),
            collapse_dashes(v@) == out@ + collapse_dashes(v@.skip(i as int)),
        decreases v.len() - i,
    {
        if i + 1 < v.len() && v[i] == '-' && v[i + 1] == '-' {
            proof {
                assert(v@.skip(i as int).skip(2) =~= v@.skip(i + 2));
                assert(collapse_dashes(v@.skip(i as int)) == seq!['-'] + collapse_dashes(
                    v@.skip(i + 2),
                ));
            }
            out.push('-');
            i = i + 2;
        } else {
            proof {
                if v@.skip(i as int).len() >= 2 {
                    assert(v@.skip(i as int)[0] == v@[i as int]);
                    assert(v@.skip(i as int)[1] == v@[i + 1]);
                }
                assert(v@.skip(i as int).skip(1) =~= v@.skip(i + 1));
            }
            out.push(v[i]);
            i = i + 1;
        }
    }
    proof {
        assert(v@.skip(v@.len() as int) =~= Seq::<char>::empty());
        assert(out@ + Seq::<char>::empty() =~= out@);
    }
    out
}

/// Lexicographic order on character sequences, by code point.
pub open spec fn chars_lt(a: Seq<char>, b: Seq<char>) -> bool
    decreases a.len(),
{
    if b.len() == 0 {
        false
    } else if a.len() == 0 {
        true
    } else if (a[0] as u32) < (b[0] as u32) {
        true
    } else if a[0] == b[0] {
        chars_lt(a.drop_first(), b.drop_first())
    } else {
        false
    }
}

/// Returns whether `a` is lexicographically smaller than `b`, comparing
/// characters by code point.
pub fn str_lex_lt(a: &str, b: &str) -> (r: bool)
    ensures
        r == chars_lt(a@, b@),
{
    let av = str_to_chars(a);
    let bv = str_to_chars(b);
    let mut i: usize = 0;
    proof {
        assert(av@.skip(0) =~= av@);
        assert(bv@.skip(0) =~= bv@);
    }
    loop
        invariant
            av@ == a@,
            bv@ == b@,
            0 <= i <= av@.len(),
            i <= bv@.len(),
            chars_lt(a@, b@) == chars_lt(av@.skip(i as int), bv@.skip(i as int)),
            forall|j: int| 0 <= j < i ==> av@[j] == bv@[j],
        decreases av@.len() - i,
    {
        proof {
            if i < av@.len() && i < bv@.len() {
                assert(av@.skip(i as int)[0] == av@[i as int]);
                assert(bv@.skip(i as int)[0] == bv@[i as int]);
                assert(av@.skip(i as int).drop_first() =~= av@.skip(i + 1));
                assert(bv@.skip(i as int).drop_first() =~= bv@.skip(i + 1));
            }
        }
        if i >= bv.len() {
            return false;
        }
        if i >= av.len() {
            return true;
        }
        if (av[i] as u32) < (bv[i] as u32) {
            return true;
        }
        if av[i] != bv[i] {
            return false;
        }
        i = i + 1;
    }
}

/// Predicate maker: position `i` holds a newline.
pub open spec fn nl_at(s: Seq<char>) -> spec_fn(int) -> bool {
    |i: int| s[i] == '\n'
}

/// Predicate maker: position `i` holds a character that is not a word
/// character.
pub open spec fn non_word_at(s: Seq<char>) -> spec_fn(int) -> bool {
    |i: int| !is_word_char(s[i])
}

/// Predicate maker: position `i` holds a character that is not a digit.
pub open spec fn non_digit_at(s: Seq<char>) -> spec_fn(int) -> bool {
    |i: int| !is_digit_char(s[i])
}

/// Predicate maker: position `i` holds a character that is not ASCII
/// whitespace.
pub open spec fn non_ws_at(s: Seq<char>) -> spec_fn(int) -> bool {
    |i: int| !is_ws_char(s[i])
}

/// Predicate maker: position `i` holds the given character.
pub open spec fn char_at(s: Seq<char>, c: char) -> spec_fn(int) -> bool {
    |i: int| s[i] == c
}

/// The first position at or after `from` holding character `c`.
pub fn find_char(v: &Vec<char>, from: usize, c: char) -> (r: usize)
    requires
        from <= v@.len(),
    ensures
        r == first_where(v@, from as int, char_at(v@, c)),
        from <= r <= v@.len(),
        r < v@.len() ==> v@[r as int] == c,
        forall|j: int| from <= j < r ==> v@[j] != c,
{
    let mut i = from;
    while i < v.len() && v[i] != c
        invariant
            from <= i <= v@.len(),
            forall|j: int| from <= j < i ==> v@[j] != c,
        decreases v.len() - i,
    {
        i = i + 1;
    }
    proof {
        let pred = char_at(v@, c);
        assert forall|j: int| from <= j < i implies !#[trigger] pred(j) by {
            assert(v@[j] != c);
        }
        if i < v@.len() {
            assert(pred(i as int));
        }
        lemma_first_where_is(v@, from as int, i as int, pred);
    }
    i
}

/// The first position at or after `from` holding a non-word character.
pub fn find_non_word(v: &Vec<char>, from: usize) -> (r: usize)
    requires
        from <= v@.len(),
    ensures
        r == first_where(v@, from as int, non_word_at(v@)),
        from <= r <= v@.len(),
        r < v@.len() ==> !is_word_char(v@[r as int]),
        forall|j: int| from <= j < r ==> is_word_char(v@[j]),
{
    let mut i = from;
    while i < v.len() && is_word(v[i])
        invariant
            from <= i <= v@.len(),
            forall|j: int| from <= j < i ==> is_word_char(v@[j]),
        decreases v.len() - i,
    {
        i = i + 1;
    }
    proof {
        let pred = non_word_at(v@);
        assert forall|j: int| from <= j < i implies !#[trigger] pred(j) by {
            assert(is_word_char(v@[j]));
        }
        if i < v@.len() {
            assert(pred(i as int));
        }
        lemma_first_where_is(v@, from as int, i as int, pred);
    }
    i
}

/// The first position at or after `from` holding a non-digit character.
pub fn find_non_digit(v: &Vec<char>, from: usize) -> (r: usize)
    requires
        from <= v@.len(),
    ensures
        r == first_where(v@, from as int, non_digit_at(v@)),
        from <= r <= v@.len(),
        r < v@.len() ==> !is_digit_char(v@[r as int]),
        forall|j: int| from <= j < r ==> is_digit_char(v@[j]),
{
    let mut i = from;
    while i < v.len() && is_digit(v[i])
        invariant
            from <= i <= v@.len(),
            forall|j: int| from <= j < i ==> is_digit_char(v@[j]),
        decreases v.len() - i,
    {
        i = i + 1;
    }
    proof {
        let pred = non_digit_at(v@);
        assert forall|j: int| from <= j < i implies !#[trigger] pred(j) by {
            assert(is_digit_char(v@[j]));
        }
        if i < v@.len() {
            assert(pred(i as int));
        }
        lemma_first_where_is(v@, from as int, i as int, pred);
    }
    i
}

/// The first position at or after `from` holding a non-whitespace character.
pub fn find_non_ws(v: &Vec<char>, from: usize) -> (r: usize)
    requires
        from <= v@.len(),
    ensures
        r == first_where(v@, from as int, non_ws_at(v@)),
        from <= r <= v@.len(),
        r < v@.len() ==> !is_ws_char(v@[r as int]),
        forall|j: int| from <= j < r ==> is_ws_char(v@[j]),
{
    let mut i = from;
    while i < v.len() && is_ws(v[i])
        invariant
            from <= i <= v@.len(),
            forall|j: int| from <= j < i ==> is_ws_char(v@[j]),
        decreases v.len() - i,
    {
        i = i + 1;
    }
    proof {
        let pred = non_ws_at(v@);
        assert forall|j: int| from <= j < i implies !#[trigger] pred(j) by {
            assert(is_ws_char(v@[j]));
        }
        if i < v@.len() {
            assert(pred(i as int));
        }
        lemma_first_where_is(v@, from as int, i as int, pred);
    }
    i
}

/// A copy of `v[from..to]`.
pub fn subvec(v: &Vec<char>, from: usize, to: usize) -> (r: Vec<char>)
    requires
        from <= to <= v@.len(),
    ensures
        r@ == v@.subrange(from as int, to as int),
{
    let mut out: Vec<char> = Vec::new();
    let mut i = from;
    while i < to
        invariant
            from <= i <= to <= v@.len(),
            out@ =~= v@.subrange(from as int, i as int),
        decreases to - i,
    {
        out.push(v[i]);
        proof {
            assert(out@ =~= v@.subrange(from as int, i + 1 as int));
        }
        i = i + 1;
    }
    out
}

/// `s` with every newline removed.
pub open spec fn strip_nl(s: Seq<char>) -> Seq<char>
    decreases s.len(),
{
    if s.len() == 0 {
        s
    } else if s[0] == '\n' {
        strip_nl(s.drop_first())
    } else {
        seq![s[0]] + strip_nl(s.drop_first())
    }
}

/// Removes every newline of `v[from..to]`.
pub fn strip_nl_range(v: &Vec<char>, from: usize, to: usize) -> (r: Vec<char>)
    requires
        from <= to <= v@.len(),
    ensures
        r@ == strip_nl(v@.subrange(from as int, to as int)),
{
    let ghost sub = v@.subrange(from as int, to as int);
    let mut out: Vec<char> = Vec::new();
    let mut i = from;
    proof {
        assert(sub.skip(0) =~= sub);
        assert(Seq::<char>::empty() + strip_nl(sub) =~= strip_nl(sub));
    }
    while i < to
        invariant
            from <= i <= to <= v@.len(),
            sub == v@.subrange(from as int, to as int),
            strip_nl(sub) == out@ + strip_nl(sub.skip(i - from as int)),
        decreases to - i,
    {
        proof {
            let rest = sub.skip(i - from as int);
            assert(rest.len() > 0);
            assert(rest[0] == v@[i as int]);
            assert(rest.drop_first() =~= sub.skip(i + 1 - from as int));
        }
        if v[i] != '\n' {
            out.push(v[i]);
        }
        i = i + 1;
    }
    proof {
        assert(sub.skip(to - from as int) =~= Seq::<char>::empty());
        assert(out@ + Seq::<char>::empty() =~= out@);
    }
    out
}

/// Predicate maker for `match_at` with a fixed pattern.
pub open spec fn match_pred(s: Seq<char>, pat: Seq<char>) -> spec_fn(int) -> bool {
    |i: int| match_at(s, i, pat)
}

/// The first position where `pat` occurs in `v`, or `v.len()` if none.
pub fn find_pat(v: &Vec<char>, pat: &Vec<char>) -> (r: usize)
    ensures
        r == first_where(v@, 0, match_pred(v@, pat@)),
        r <= v@.len(),
        r < v@.len() ==> match_at(v@, r as int, pat@),
{
    let mut i: usize = 0;
    while i < v.len()
        invariant
            0 <= i <= v@.len(),
            forall|j: int| 0 <= j < i ==> !match_at(v@, j, pat@),
        decreases v.len() - i,
    {
        if chars_match_at(v, i, pat) {
            proof {
                let pred = match_pred(v@, pat@);
                assert forall|j: int| 0 <= j < i implies !#[trigger] pred(j) by {
                    assert(!match_at(v@, j, pat@));
                }
                assert(pred(i as int));
                lemma_first_where_is(v@, 0, i as int, pred);
            }
            return i;
        }
        i = i + 1;
    }
    proof {
        let pred = match_pred(v@, pat@);
        assert forall|j: int| 0 <= j < i implies !#[trigger] pred(j) by {
            assert(!match_at(v@, j, pat@));
        }
        lemma_first_where_is(v@, 0, i as int, pred);
    }
    i
}

/// The end of the dash-trimmed region: one past the last non-dash position,
/// or 0 when the sequence is all dashes.
pub open spec fn dash_end_pos(s: Seq<char>, upto: int) -> int
    decreases upto,
{
    if upto <= 0 || upto > s.len() {
        0
    } else if s[upto - 1] != '-' {
        upto
    } else {
        dash_end_pos(s, upto - 1)
    }
}

/// A position with the backward-scan properties is what `dash_end_pos`
/// returns.
pub proof fn lemma_dash_end_pos_is(s: Seq<char>, upto: int, k: int)
    requires
        0 <= k <= upto <= s.len(),
        forall|j: int| k <= j < upto ==> s[j] == '-',
        k > 0 ==> s[k - 1] != '-',
    ensures
        dash_end_pos(s, upto) == k,
    decreases upto,
{
    if upto > 0 && s[upto - 1] == '-' {
        lemma_dash_end_pos_is(s, upto - 1, k);
    }
}

/// `s` with leading and trailing dashes removed.
pub open spec fn trim_dash_spec(s: Seq<char>) -> Seq<char> {
    let lo = first_where(s, 0, |i: int| s[i] != '-');
    let hi = dash_end_pos(s, s.len() as int);
    if lo >= hi {
        Seq::empty()
    } else {
        s.subrange(lo, hi)
    }
}

/// Removes leading and trailing dashes of `v`.
pub fn trim_dashes(v: &Vec<char>) -> (r: Vec<char>)
    ensures
        r@ == trim_dash_spec(v@),
{
    let mut lo: usize = 0;
    while lo < v.len() && v[lo] == '-'
        invariant
            0 <= lo <= v@.len(),
            forall|j: int| 0 <= j < lo ==> v@[j] == '-',
        decreases v.len() - lo,
    {
        lo = lo + 1;
    }
    let mut hi: usize = v.len();
    while hi > lo && v[hi - 1] == '-'
        invariant
            lo <= hi <= v@.len(),
            forall|j: int| hi <= j < v@.len() ==> v@[j] == '-',
        decreases hi,
    {
        hi = hi - 1;
    }
    proof {
        let pred = |i: int| v@[i] != '-';
        assert forall|j: int| 0 <= j < lo implies !#[trigger] pred(j) by {
            assert(v@[j] == '-');
        }
        if lo < v@.len() {
            assert(pred(lo as int));
        }
        lemma_first_where_is(v@, 0, lo as int, pred);
        if hi > lo {
            lemma_dash_end_pos_is(v@, v@.len() as int, hi as int);
        } else {
            assert(forall|j: int| 0 <= j < v@.len() ==> v@[j] == '-');
            lemma_dash_end_pos_is(v@, v@.len() as int, 0);
        }
    }
    if lo >= hi {
        let empty: Vec<char> = Vec::new();
        proof {
            assert(empty@ =~= Seq::<char>::empty());
        }
        empty
    } else {
        subvec(v, lo, hi)
    }
}

/// The position of the last dot of `s[0..upto]`, or -1 if there is none.
pub open spec fn last_dot(s: Seq<char>, upto: int) -> int
    decreases upto,
{
    if upto <= 0 || upto > s.len() {
        -1
    } else if s[upto - 1] == '.' {
        upto - 1
    } else {
        last_dot(s, upto - 1)
    }
}

/// A position with the backward-scan properties is what `last_dot` returns.
pub proof fn lemma_last_dot_is(s: Seq<char>, upto: int, k: int)
    requires
        -1 <= k < upto <= s.len(),
        forall|j: int| k < j < upto ==> s[j] != '.',
        k >= 0 ==> s[k] == '.',
    ensures
        last_dot(s, upto) == k,
    decreases upto,
{
    if upto > 0 && s[upto - 1] != '.' {
        lemma_last_dot_is(s, upto - 1, k);
    }
}

/// Finds the last dot of `v`, or `v.len()` if there is none.
pub fn find_last_dot(v: &Vec<char>) -> (r: usize)
    ensures
        r <= v@.len(),
        r < v@.len() ==> r == last_dot(v@, v@.len() as int),
        r == v@.len() ==> last_dot(v@, v@.len() as int) == -1,
{
    let mut i: usize = v.len();
    while i > 0 && v[i - 1] != '.'
        invariant
            0 <= i <= v@.len(),
            forall|j: int| i <= j < v@.len() ==> v@[j] != '.',
        decreases i,
    {
        i = i - 1;
    }
    if i == 0 {
        proof {
            lemma_last_dot_is(v@, v@.len() as int, -1);
        }
        v.len()
    } else {
        proof {
            lemma_last_dot_is(v@, v@.len() as int, i - 1);
        }
        i - 1
    }
}

/// Appends all characters of `src` to `dst`.
pub fn append_chars(dst: &mut Vec<char>, src: &Vec<char>)
    ensures
        final(dst)@ == old(dst)@.add(src@),
{
    let ghost base = dst@;
    let mut i: usize = 0;
    while i < src.len()
        invariant
            0 <= i <= src@.len(),
            dst@ =~= base + src@.subrange(0, i as int),
        decreases src.len() - i,
    {
        dst.push(src[i]);
        proof {
            assert(dst@ =~= base + src@.subrange(0, i + 1));
        }
        i = i + 1;
    }
    proof {
        assert(src@.subrange(0, src@.len() as int) =~= src@);
    }
}

/// Lexicographic order is transitive.
pub proof fn lemma_chars_lt_trans(a: Seq<char>, b: Seq<char>, c: Seq<char>)
    requires
        chars_lt(a, b),
        chars_lt(b, c),
    ensures
        chars_lt(a, c),
    decreases a.len(),
{
    if c.len() > 0 && b.len() > 0 && a.len() > 0 {
        if a[0] == b[0] && b[0] == c[0] {
            lemma_chars_lt_trans(a.drop_first(), b.drop_first(), c.drop_first());
        }
    }
}

/// Lexicographic order is total: two sequences compare one way, the other
/// way, or are equal.
pub proof fn lemma_chars_lt_total(a: Seq<char>, b: Seq<char>)
    ensures
        chars_lt(a, b) || chars_lt(b, a) || a == b,
    decreases a.len(),
{
    if a.len() == 0 && b.len() == 0 {
        assert(a =~= b);
    } else if a.len() > 0 && b.len() > 0 {
        if a[0] != b[0] && (a[0] as u32) == (b[0] as u32) {
            // equal code points denote the same character
            vstd::utf8::char_u32_cast(a[0], a[0] as u32);
            vstd::utf8::char_u32_cast(b[0], b[0] as u32);
        }
        if a[0] == b[0] {
            lemma_chars_lt_total(a.drop_first(), b.drop_first());
            if a.drop_first() == b.drop_first() {
                assert(a.drop_first().len() == b.drop_first().len());
                assert(a.drop_first().len() == a.len() - 1);
                assert(b.drop_first().len() == b.len() - 1);
                assert(a.len() == b.len());
                assert forall|i: int| 0 <= i < a.len() implies a[i] == b[i] by {
                    if i > 0 {
                        assert(a.drop_first()[i - 1] == a[i]);
                        assert(b.drop_first()[i - 1] == b[i]);
                    }
                }
                assert(a =~= b);
            }
        }
    }
}

/// Lexicographic order is asymmetric.
pub proof fn lemma_chars_lt_asym(a: Seq<char>, b: Seq<char>)
    requires
        chars_lt(a, b),
    ensures
        !chars_lt(b, a),
    decreases a.len(),
{
    if a.len() > 0 && b.len() > 0 && a[0] == b[0] {
        lemma_chars_lt_asym(a.drop_first(), b.drop_first());
    }
}

/// Lexicographic order is irreflexive.
pub proof fn lemma_chars_lt_irrefl(a: Seq<char>)
    ensures
        !chars_lt(a, a),
{
    if chars_lt(a, a) {
        lemma_chars_lt_asym(a, a);
    }
}

} // verus!
