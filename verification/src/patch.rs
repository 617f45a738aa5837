//! Parsing of git patch documents.
//!
//! A patch file starts with a `From <40-hex-hash> <date>` line; its
//! `Subject:` header (which may continue on lines starting with a space)
//! becomes the subject, and the first blank-line-delimited section up to the
//! signature boundary (`\n--` followed by a space or dash) becomes the body.

use vstd::prelude::*;

use crate::error::N34Error;
use crate::strutil::{
    char_at, chars_match_at, collapse_dashes, collapse_dashes_exec, find_char, find_non_digit,
    find_non_word, find_non_ws, find_pat, first_where, is_digit_char, is_hex_lower,
    is_hex_lower_char, last_dot, match_at, match_pred, nl_at, non_digit_at, non_word_at,
    non_ws_at, str_to_chars, string_from_chars, string_from_range, strip_nl, strip_nl_range,
    subvec, trim_dash_spec, trim_dashes, trim_range, trim_spec,
};

verus! {

/// Represents a git patch.
#[derive(Debug, Clone)]
pub struct GitPatch {
    /// Full content of the patch file.
    pub inner: String,
    /// Short description of the patch changes.
    pub subject: String,
    /// Detailed explanation of the patch changes.
    pub body: String,
}

/// The first line of `s`: everything before the first newline.
pub open spec fn first_line(s: Seq<char>) -> Seq<char> {
    s.subrange(0, first_where(s, 0, crate::strutil::char_at(s, '\n')))
}

/// The characters of the literal `From `.
pub open spec fn from_pat() -> Seq<char> {
    seq!['F', 'r', 'o', 'm', ' ']
}

/// The characters of the literal `Subject: `.
pub open spec fn subject_pat() -> Seq<char> {
    seq!['S', 'u', 'b', 'j', 'e', 'c', 't', ':', ' ']
}

/// End of the first word run of the date part, which starts at position 46.
pub open spec fn w1_end(s: Seq<char>) -> int {
    first_where(s, 46, non_word_at(s))
}

/// End of the second word run of the date part.
pub open spec fn w2_end(s: Seq<char>) -> int {
    first_where(s, w1_end(s) + 1, non_word_at(s))
}

/// End of the day-of-month digit run of the date part.
pub open spec fn day_end(s: Seq<char>) -> int {
    first_where(s, w2_end(s) + 1, non_digit_at(s))
}

/// Whether `s` is a well-formed `From <40-hex-hash> <date>` line: the
/// literal `From `, forty lowercase hex digits, two words, a one-or-two
/// digit day, a `dd:dd:dd` time and a four-digit year, separated by single
/// spaces and ending the line.
pub open spec fn from_line_ok(s: Seq<char>) -> bool {
    &&& s.len() >= 46
    &&& match_at(s, 0, from_pat())
    &&& (forall|i: int| 5 <= i < 45 ==> is_hex_lower_char(#[trigger] s[i]))
    &&& s[45] == ' '
    &&& 46 < w1_end(s) < s.len()
    &&& s[w1_end(s)] == ' '
    &&& w1_end(s) + 1 < w2_end(s) < s.len()
    &&& s[w2_end(s)] == ' '
    &&& {
        let c = day_end(s);
        &&& (c - (w2_end(s) + 1) == 1 || c - (w2_end(s) + 1) == 2)
        &&& s.len() == c + 14
        &&& s[c] == ' '
        &&& is_digit_char(s[c + 1])
        &&& is_digit_char(s[c + 2])
        &&& s[c + 3] == ':'
        &&& is_digit_char(s[c + 4])
        &&& is_digit_char(s[c + 5])
        &&& s[c + 6] == ':'
        &&& is_digit_char(s[c + 7])
        &&& is_digit_char(s[c + 8])
        &&& s[c + 9] == ' '
        &&& is_digit_char(s[c + 10])
        &&& is_digit_char(s[c + 11])
        &&& is_digit_char(s[c + 12])
        &&& is_digit_char(s[c + 13])
    }
}

/// Whether a `Subject: ` header starts at position `i`, at the start of a
/// line.
pub open spec fn subject_marker_at(s: Seq<char>, i: int) -> bool {
    (i == 0 || s[i - 1] == '\n') && match_at(s, i, subject_pat())
}

/// Predicate maker for `subject_marker_at`.
pub open spec fn subject_marker_pred(s: Seq<char>) -> spec_fn(int) -> bool {
    |i: int| subject_marker_at(s, i)
}

/// Position of the first `Subject: ` header, or `s.len()` if there is none.
pub open spec fn subject_pos(s: Seq<char>) -> int {
    first_where(s, 0, subject_marker_pred(s))
}

/// Whether `s` holds a `Subject: ` header.
pub open spec fn has_subject(s: Seq<char>) -> bool {
    subject_pos(s) < s.len()
}

/// End of the subject block that starts at `p`: the subject line plus any
/// continuation lines that begin with a space.
pub open spec fn subj_block_end(s: Seq<char>, p: int) -> int
    decreases s.len() - p,
{
    if p < 0 || p >= s.len() {
        s.len() as int
    } else if s[p] == '\n' {
        if p + 1 < s.len() && s[p + 1] == ' ' {
            subj_block_end(s, p + 1)
        } else {
            p
        }
    } else {
        subj_block_end(s, p + 1)
    }
}

/// The subject of the patch: the text of the `Subject: ` header and its
/// continuation lines, with newlines removed and whitespace trimmed.
pub open spec fn subject_spec(s: Seq<char>) -> Seq<char> {
    trim_spec(strip_nl(s.subrange(subject_pos(s) + 9, subj_block_end(s, subject_pos(s) + 9))))
}

/// Predicate maker: a blank line separator (two consecutive newlines)
/// starts at position `i`.
pub open spec fn dnl_pred(s: Seq<char>) -> spec_fn(int) -> bool {
    |i: int| s[i] == '\n' && i + 1 < s.len() && s[i + 1] == '\n'
}

/// Position of the first blank line, or `s.len()` if there is none.
pub open spec fn dnl_pos(s: Seq<char>) -> int {
    first_where(s, 0, dnl_pred(s))
}

/// Whether `s` holds a blank line after which a body can start.
pub open spec fn has_body_start(s: Seq<char>) -> bool {
    dnl_pos(s) < s.len()
}

/// Whether a signature boundary (`\n--` followed by a space or a dash)
/// starts at position `i`.
pub open spec fn term_at(s: Seq<char>, i: int) -> bool {
    &&& i + 3 < s.len()
    &&& s[i] == '\n'
    &&& s[i + 1] == '-'
    &&& s[i + 2] == '-'
    &&& (s[i + 3] == ' ' || s[i + 3] == '-')
}

/// Predicate maker for `term_at`.
pub open spec fn term_pred(s: Seq<char>) -> spec_fn(int) -> bool {
    |i: int| term_at(s, i)
}

/// The body of the patch: the text between the first blank line and the
/// first signature boundary after it (or the end), trimmed.
pub open spec fn body_spec(s: Seq<char>) -> Seq<char> {
    trim_spec(s.subrange(dnl_pos(s) + 2, first_where(s, dnl_pos(s) + 2, term_pred(s))))
}

/// The exec counterpart of `from_pat`.
fn from_pat_exec() -> (r: Vec<char>)
    ensures
        r@ == from_pat(),
{
    let mut v: Vec<char> = Vec::new();
    v.push('F');
    v.push('r');
    v.push('o');
    v.push('m');
    v.push(' ');
    proof {
        assert(v@ =~= from_pat());
    }
    v
}

/// The exec counterpart of `subject_pat`.
fn subject_pat_exec() -> (r: Vec<char>)
    ensures
        r@ == subject_pat(),
{
    let mut v: Vec<char> = Vec::new();
    v.push('S');
    v.push('u');
    v.push('b');
    v.push('j');
    v.push('e');
    v.push('c');
    v.push('t');
    v.push(':');
    v.push(' ');
    proof {
        assert(v@ =~= subject_pat());
    }
    v
}

/// Checks whether `line` is a well-formed `From ` header line.
fn from_line_check(line: &Vec<char>) -> (r: bool)
    ensures
        r == from_line_ok(line@),
{
    if line.len() < 46 {
        return false;
    }
    let fp = from_pat_exec();
    if !chars_match_at(line, 0, &fp) {
        return false;
    }
    let mut i: usize = 5;
    while i < 45
        invariant
            5 <= i <= 45 <= line@.len(),
            forall|j: int| 5 <= j < i ==> is_hex_lower_char(#[trigger] line@[j]),
        decreases 45 - i,
    {
        if !is_hex_lower(line[i]) {
            return false;
        }
        i = i + 1;
    }
    if line[45] != ' ' {
        return false;
    }
    let a = find_non_word(line, 46);
    if !(a > 46 && a < line.len()) {
        return false;
    }
    if line[a] != ' ' {
        return false;
    }
    let b = find_non_word(line, a + 1);
    if !(b > a + 1 && b < line.len()) {
        return false;
    }
    if line[b] != ' ' {
        return false;
    }
    let c = find_non_digit(line, b + 1);
    let dlen = c - (b + 1);
    if !(dlen == 1 || dlen == 2) {
        return false;
    }
    if !(c < line.len() && line.len() - c == 14) {
        return false;
    }
    if line[c] != ' ' {
        return false;
    }
    let ok = is_digit(line, c + 1) && is_digit(line, c + 2) && line[c + 3] == ':' && is_digit(
        line,
        c + 4,
    ) && is_digit(line, c + 5) && line[c + 6] == ':' && is_digit(line, c + 7) && is_digit(
        line,
        c + 8,
    ) && line[c + 9] == ' ' && is_digit(line, c + 10) && is_digit(line, c + 11) && is_digit(
        line,
        c + 12,
    ) && is_digit(line, c + 13);
    ok
}

/// Returns whether the character at `i` is an ASCII digit.
fn is_digit(v: &Vec<char>, i: usize) -> (r: bool)
    requires
        i < v@.len(),
    ensures
        r == is_digit_char(v@[i as int]),
{
    crate::strutil::is_digit(v[i])
}

/// Finds the first `Subject: ` header position, or `v.len()` if none.
fn find_subject_pos(v: &Vec<char>) -> (r: usize)
    ensures
        r == subject_pos(v@),
        r <= v@.len(),
{
    let pat = subject_pat_exec();
    let mut i: usize = 0;
    while i < v.len()
        invariant
            0 <= i <= v@.len(),
            pat@ == subject_pat(),
            forall|j: int| 0 <= j < i ==> !subject_marker_at(v@, j),
        decreases v.len() - i,
    {
        if (i == 0 || v[i - 1] == '\n') && chars_match_at(v, i, &pat) {
            proof {
                let pred = subject_marker_pred(v@);
                assert forall|j: int| 0 <= j < i implies !#[trigger] pred(j) by {
                    assert(!subject_marker_at(v@, j));
                }
                assert(pred(i as int));
                crate::strutil::lemma_first_where_is(v@, 0, i as int, pred);
            }
            return i;
        }
        i = i + 1;
    }
    proof {
        let pred = subject_marker_pred(v@);
        assert forall|j: int| 0 <= j < i implies !#[trigger] pred(j) by {
            assert(!subject_marker_at(v@, j));
        }
        crate::strutil::lemma_first_where_is(v@, 0, i as int, pred);
    }
    i
}

/// Computes the end of the subject block that starts at `p`.
fn subj_block_end_exec(v: &Vec<char>, p: usize) -> (r: usize)
    requires
        p <= v@.len(),
    ensures
        r == subj_block_end(v@, p as int),
        p <= r <= v@.len(),
{
    let mut i = p;
    loop
        invariant
            p <= i <= v@.len(),
            subj_block_end(v@, p as int) == subj_block_end(v@, i as int),
        decreases v@.len() - i,
    {
        if i >= v.len() {
            return i;
        }
        if v[i] == '\n' {
            if i + 1 < v.len() && v[i + 1] == ' ' {
                i = i + 1;
            } else {
                return i;
            }
        } else {
            i = i + 1;
        }
    }
}

/// Finds the first blank-line position, or `v.len()` if none.
fn find_dnl(v: &Vec<char>) -> (r: usize)
    ensures
        r == dnl_pos(v@),
        r <= v@.len(),
        r < v@.len() ==> v@[r as int] == '\n' && r + 1 < v@.len() && v@[r + 1] == '\n',
{
    let mut i: usize = 0;
    while i < v.len()
        invariant
            0 <= i <= v@.len(),
            forall|j: int| #![trigger v@[j]]
                0 <= j < i ==> !(v@[j] == '\n' && j + 1 < v@.len() && v@[j + 1] == '\n'),
        decreases v.len() - i,
    {
        if v[i] == '\n' && i + 1 < v.len() && v[i + 1] == '\n' {
            proof {
                let pred = dnl_pred(v@);
                assert forall|j: int| 0 <= j < i implies !#[trigger] pred(j) by {
                    assert(!(v@[j] == '\n' && j + 1 < v@.len() && v@[j + 1] == '\n'));
                }
                assert(pred(i as int));
                crate::strutil::lemma_first_where_is(v@, 0, i as int, pred);
            }
            return i;
        }
        i = i + 1;
    }
    proof {
        let pred = dnl_pred(v@);
        assert forall|j: int| 0 <= j < i implies !#[trigger] pred(j) by {
            assert(!(v@[j] == '\n' && j + 1 < v@.len() && v@[j + 1] == '\n'));
        }
        crate::strutil::lemma_first_where_is(v@, 0, i as int, pred);
    }
    i
}

/// Finds the first signature boundary at or after `from`, or `v.len()` if
/// none.
fn find_term(v: &Vec<char>, from: usize) -> (r: usize)
    requires
        from <= v@.len(),
    ensures
        r == first_where(v@, from as int, term_pred(v@)),
        from <= r <= v@.len(),
{
    let mut i: usize = from;
    while i < v.len()
        invariant
            from <= i <= v@.len(),
            forall|j: int| from <= j < i ==> !term_at(v@, j),
        decreases v.len() - i,
    {
        if v.len() >= 4 && i < v.len() - 3 && v[i] == '\n' && v[i + 1] == '-' && v[i + 2] == '-'
            && (v[i + 3] == ' ' || v[i + 3] == '-') {
            proof {
                let pred = term_pred(v@);
                assert forall|j: int| from <= j < i implies !#[trigger] pred(j) by {
                    assert(!term_at(v@, j));
                }
                assert(pred(i as int));
                crate::strutil::lemma_first_where_is(v@, from as int, i as int, pred);
            }
            return i;
        }
        proof {
            assert(!term_at(v@, i as int));
        }
        i = i + 1;
    }
    proof {
        let pred = term_pred(v@);
        assert forall|j: int| from <= j < i implies !#[trigger] pred(j) by {
            assert(!term_at(v@, j));
        }
        crate::strutil::lemma_first_where_is(v@, from as int, i as int, pred);
    }
    i
}

impl GitPatch {
    /// Parses a patch document.  The first line must be a well-formed
    /// `From ` header; the subject comes from the `Subject: ` header and its
    /// continuation lines; the body is the first blank-line-delimited
    /// section up to the signature boundary.
    pub fn from_str(patch_content: &str) -> (r: Result<GitPatch, String>)
        ensures
            r is Ok <==> from_line_ok(first_line(patch_content@)) && has_subject(patch_content@)
                && has_body_start(patch_content@),
            r matches Ok(p) ==> p.inner@ == patch_content@ && p.subject@ == subject_spec(
                patch_content@,
            ) && p.body@ == body_spec(patch_content@),
            r matches Err(m) ==> (!from_line_ok(first_line(patch_content@)) ==> m@
                == "The first line must start with 'From '."@),
            r matches Err(m) ==> (from_line_ok(first_line(patch_content@)) && !has_subject(
                patch_content@,
            ) ==> m@ == "No subject found"@),
            r matches Err(m) ==> (from_line_ok(first_line(patch_content@)) && has_subject(
                patch_content@,
            ) && !has_body_start(patch_content@) ==> m@ == "No body found"@),
    {
        let v = str_to_chars(patch_content);
        let line_end = find_char(&v, 0, '\n');
        let line = crate::strutil::subvec(&v, 0, line_end);
        proof {
            assert(line@ == first_line(patch_content@));
        }
        if !from_line_check(&line) {
            return Err("The first line must start with 'From '.".to_owned());
        }
        let sp = find_subject_pos(&v);
        if sp == v.len() {
            return Err("No subject found".to_owned());
        }
        proof {
            crate::strutil::lemma_first_where(v@, 0, subject_marker_pred(v@));
            assert(subject_marker_pred(v@)(sp as int));
            assert(subject_marker_at(v@, sp as int));
        }
        let se = subj_block_end_exec(&v, sp + 9);
        let stripped = strip_nl_range(&v, sp + 9, se);
        let (slo, shi) = trim_range(&stripped, 0, stripped.len());
        proof {
            assert(stripped@.subrange(0, stripped@.len() as int) =~= stripped@);
        }
        let subject = string_from_range(&stripped, slo, shi);
        let dp = find_dnl(&v);
        if dp == v.len() {
            return Err("No body found".to_owned());
        }
        let te = find_term(&v, dp + 2);
        let (blo, bhi) = trim_range(&v, dp + 2, te);
        let body = string_from_range(&v, blo, bhi);
        Ok(GitPatch { inner: patch_content.to_owned(), subject, body })
    }
}

/// The characters of the literal `[PATCH`.
pub open spec fn patch_word_pat() -> Seq<char> {
    seq!['[', 'P', 'A', 'T', 'C', 'H']
}

/// The characters of the literal `[PATCH]`.
pub open spec fn patch_bracket_pat() -> Seq<char> {
    seq!['[', 'P', 'A', 'T', 'C', 'H', ']']
}

/// The characters of the literal `cover-letter`.
pub open spec fn cover_name() -> Seq<char> {
    seq!['c', 'o', 'v', 'e', 'r', '-', 'l', 'e', 't', 't', 'e', 'r']
}

/// The characters of the literal `.patch`.
pub open spec fn patch_ext() -> Seq<char> {
    seq!['.', 'p', 'a', 't', 'c', 'h']
}

/// Lowercases an ASCII uppercase letter; other characters are unchanged.
pub open spec fn lower_char(c: char) -> char {
    if 'A' as u32 <= c as u32 && c as u32 <= 'Z' as u32 {
        ((c as u32) + 32) as char
    } else {
        c
    }
}

/// The characters kept in a file-name slug: ASCII alphanumerics, dot, dash
/// and underscore.
pub open spec fn keep_char(c: char) -> bool {
    is_digit_char(c) || ('a' as u32 <= c as u32 && c as u32 <= 'z' as u32) || ('A' as u32 <= c
        as u32 && c as u32 <= 'Z' as u32) || c == '.' || c == '-' || c == '_'
}

/// Lowercases `c` and replaces it by a dash when it is not kept.
pub open spec fn slug_char(c: char) -> char {
    if keep_char(lower_char(c)) {
        lower_char(c)
    } else {
        '-'
    }
}

/// End of the whitespace run starting at `from`.
pub open spec fn ws_run_end(s: Seq<char>, from: int) -> int {
    first_where(s, from, non_ws_at(s))
}

/// End of the digit run starting at `from`.
pub open spec fn digits_end(s: Seq<char>, from: int) -> int {
    first_where(s, from, non_digit_at(s))
}

/// The version and number captured by the `[PATCH v<version> <number>/<total>`
/// marker at position `i`, or `None` when the marker does not match there.
/// The version sequence is empty when no version is present.
pub open spec fn pvn_at(s: Seq<char>, i: int) -> Option<(Seq<char>, Seq<char>)> {
    if !match_at(s, i, patch_word_pat()) {
        None
    } else {
        let j = i + 6;
        let j2 = ws_run_end(s, j);
        if j2 == j {
            None
        } else if j2 < s.len() && s[j2] == 'v' && digits_end(s, j2 + 1) > j2 + 1 {
            let k = digits_end(s, j2 + 1);
            let j3 = ws_run_end(s, k);
            let d = digits_end(s, j3);
            if d > j3 && d < s.len() && s[d] == '/' && digits_end(s, d + 1) > d + 1 {
                Some((s.subrange(j2 + 1, k), s.subrange(j3, d)))
            } else if j3 == k && k < s.len() && s[k] == '/' && k - (j2 + 1) >= 2 && digits_end(
                s,
                k + 1,
            ) > k + 1 {
                // the version run lends its last digit to the number
                Some((s.subrange(j2 + 1, k - 1), s.subrange(k - 1, k)))
            } else {
                None
            }
        } else {
            let d = digits_end(s, j2);
            if d > j2 && d < s.len() && s[d] == '/' && digits_end(s, d + 1) > d + 1 {
                Some((Seq::empty(), s.subrange(j2, d)))
            } else {
                None
            }
        }
    }
}

/// Predicate maker: the version/number marker matches at `i`.
pub open spec fn pvn_pred(s: Seq<char>) -> spec_fn(int) -> bool {
    |i: int| pvn_at(s, i) is Some
}

/// Position of the first matching version/number marker, or `s.len()`.
pub open spec fn pvn_pos(s: Seq<char>) -> int {
    first_where(s, 0, pvn_pred(s))
}

/// Whether `s` holds a version/number marker.
pub open spec fn has_pvn(s: Seq<char>) -> bool {
    pvn_pos(s) < s.len()
}

/// Position of the first `]`, or `s.len()`.
pub open spec fn rb_pos(s: Seq<char>) -> int {
    first_where(s, 0, char_at(s, ']'))
}

/// Whether `s` holds a `]`.
pub open spec fn has_rb(s: Seq<char>) -> bool {
    rb_pos(s) < s.len()
}

/// The slug of a subject: the text after the first `]`, trimmed, lowercased,
/// with characters outside the keep set replaced by dashes, truncated to 60
/// characters, stripped of outer dashes and whitespace, and with `--` pairs
/// collapsed.
pub open spec fn slug_spec(s: Seq<char>) -> Seq<char> {
    let t = trim_spec(s.subrange(rb_pos(s) + 1, s.len() as int));
    let mapped = t.map_values(|c: char| slug_char(c));
    let taken = if mapped.len() > 60 {
        mapped.take(60)
    } else {
        mapped
    };
    collapse_dashes(trim_spec(trim_dash_spec(taken)))
}

/// `num` left-padded with zeros to at least four characters.
pub open spec fn pad4(num: Seq<char>) -> Seq<char> {
    if num.len() >= 4 {
        num
    } else {
        Seq::new((4 - num.len()) as nat, |i: int| '0') + num
    }
}

/// `v<version>-` when a version is present, else empty.
pub open spec fn version_prefix(ver: Seq<char>) -> Seq<char> {
    if ver.len() == 0 {
        ver
    } else {
        seq!['v'] + ver + seq!['-']
    }
}

/// Appends the `.patch` extension, replacing an existing extension.
pub open spec fn with_patch_ext(s: Seq<char>) -> Seq<char> {
    let k = last_dot(s, s.len() as int);
    if k > 0 {
        s.subrange(0, k) + patch_ext()
    } else {
        s + patch_ext()
    }
}

/// The file name derived from a subject: version prefix, four-digit number,
/// and either `cover-letter` (for number 0) or the subject's slug, with
/// `--` pairs collapsed and the `.patch` extension.  `None` when the subject
/// has no usable `[PATCH ...]` marker.
pub open spec fn filename_spec(subject: Seq<char>) -> Option<Seq<char>> {
    if first_where(subject, 0, match_pred(subject, patch_bracket_pat())) < subject.len() {
        // a literal `[PATCH]`: version empty, number 1
        if !has_rb(subject) {
            None
        } else {
            Some(
                with_patch_ext(
                    collapse_dashes(seq!['0', '0', '0', '1', '-'] + slug_spec(subject)),
                ),
            )
        }
    } else if !has_pvn(subject) {
        None
    } else {
        let vn = pvn_at(subject, pvn_pos(subject))->Some_0;
        let lead = version_prefix(vn.0) + pad4(vn.1);
        if vn.1 == seq!['0'] {
            Some(with_patch_ext(collapse_dashes(lead + seq!['-'] + cover_name())))
        } else if !has_rb(subject) {
            None
        } else {
            Some(with_patch_ext(collapse_dashes(lead + seq!['-'] + slug_spec(subject))))
        }
    }
}

/// Lowercases an ASCII uppercase letter.
fn to_lower(c: char) -> (r: char)
    ensures
        r == lower_char(c),
{
    if 'A' as u32 <= c as u32 && c as u32 <= 'Z' as u32 {
        proof {
            assert(c as u32 + 32 < 128);
        }
        let code = (c as u32) + 32;
        let b = #[verifier::truncate] (code as u8);
        let r = b as char;
        proof {
            assert(r as u32 == code);
            assert(r == ((c as u32 + 32) as char));
        }
        r
    } else {
        c
    }
}

/// Maps every character of `v` through `slug_char`.
fn slug_map(v: &Vec<char>) -> (r: Vec<char>)
    ensures
        r@ == v@.map_values(|c: char| slug_char(c)),
{
    let mut out: Vec<char> = Vec::new();
    let mut i: usize = 0;
    while i < v.len()
        invariant
            0 <= i <= v@.len(),
            out@ =~= v@.subrange(0, i as int).map_values(|c: char| slug_char(c)),
        decreases v.len() - i,
    {
        let l = to_lower(v[i]);
        let keep = crate::strutil::is_digit(l) || ('a' as u32 <= l as u32 && l as u32 <= 'z'
            as u32) || ('A' as u32 <= l as u32 && l as u32 <= 'Z' as u32) || l == '.' || l == '-'
            || l == '_';
        if keep {
            out.push(l);
        } else {
            out.push('-');
        }
        proof {
            assert(out@ =~= v@.subrange(0, i + 1).map_values(|c: char| slug_char(c)));
        }
        i = i + 1;
    }
    proof {
        assert(v@.subrange(0, v@.len() as int) =~= v@);
    }
    out
}

/// Computes the slug of a subject.
fn slug_exec(v: &Vec<char>) -> (r: Vec<char>)
    requires
        rb_pos(v@) < v@.len(),
    ensures
        r@ == slug_spec(v@),
{
    let n = v.len();
    let rb = find_char(v, 0, ']');
    proof {
        assert(rb < n);
    }
    let (lo, hi) = trim_range(v, rb + 1, n);
    proof {
        assert(v@.subrange(rb + 1, v@.len() as int) =~= v@.subrange(
            rb as int + 1,
            v@.len() as int,
        ));
    }
    let trimmed = subvec(v, lo, hi);
    let mapped = slug_map(&trimmed);
    let taken = if mapped.len() > 60 {
        subvec(&mapped, 0, 60)
    } else {
        subvec(&mapped, 0, mapped.len())
    };
    proof {
        if mapped@.len() > 60 {
            assert(mapped@.subrange(0, 60) =~= mapped@.take(60));
        } else {
            assert(mapped@.subrange(0, mapped@.len() as int) =~= mapped@);
        }
    }
    let dashed = trim_dashes(&taken);
    let (wlo, whi) = trim_range(&dashed, 0, dashed.len());
    proof {
        assert(dashed@.subrange(0, dashed@.len() as int) =~= dashed@);
    }
    let wtrimmed = subvec(&dashed, wlo, whi);
    collapse_dashes_exec(&wtrimmed)
}

/// The exec counterpart of `patch_word_pat`.
fn patch_word_pat_exec() -> (r: Vec<char>)
    ensures
        r@ == patch_word_pat(),
{
    let mut v: Vec<char> = Vec::new();
    v.push('[');
    v.push('P');
    v.push('A');
    v.push('T');
    v.push('C');
    v.push('H');
    proof {
        assert(v@ =~= patch_word_pat());
    }
    v
}

/// The exec counterpart of `patch_bracket_pat`.
fn patch_bracket_pat_exec() -> (r: Vec<char>)
    ensures
        r@ == patch_bracket_pat(),
{
    let mut v: Vec<char> = Vec::new();
    v.push('[');
    v.push('P');
    v.push('A');
    v.push('T');
    v.push('C');
    v.push('H');
    v.push(']');
    proof {
        assert(v@ =~= patch_bracket_pat());
    }
    v
}

/// Tries to read the version/number marker at position `i`.
fn pvn_try_at(v: &Vec<char>, i: usize, pat: &Vec<char>) -> (r: Option<(Vec<char>, Vec<char>)>)
    requires
        i <= v@.len(),
        pat@ == patch_word_pat(),
    ensures
        r is Some <==> pvn_at(v@, i as int) is Some,
        r matches Some(p) ==> pvn_at(v@, i as int) == Some((p.0@, p.1@)),
{
    let n = v.len();
    if !chars_match_at(v, i, pat) {
        return None;
    }
    proof {
        assert(patch_word_pat().len() == 6);
        assert(i + 6 <= n);
    }
    let j = i + 6;
    let j2 = find_non_ws(v, j);
    if j2 == j {
        return None;
    }
    if j2 < v.len() && v[j2] == 'v' && {
        let ke = find_non_digit(v, j2 + 1);
        ke > j2 + 1
    } {
        let k = find_non_digit(v, j2 + 1);
        let j3 = find_non_ws(v, k);
        let d = find_non_digit(v, j3);
        if d > j3 && d < v.len() && v[d] == '/' && find_non_digit(v, d + 1) > d + 1 {
            return Some((subvec(v, j2 + 1, k), subvec(v, j3, d)));
        }
        if j3 == k && k < v.len() && v[k] == '/' && k - (j2 + 1) >= 2 && find_non_digit(v, k + 1)
            > k + 1 {
            return Some((subvec(v, j2 + 1, k - 1), subvec(v, k - 1, k)));
        }
        return None;
    }
    let d = find_non_digit(v, j2);
    if d > j2 && d < v.len() && v[d] == '/' && find_non_digit(v, d + 1) > d + 1 {
        let empty: Vec<char> = Vec::new();
        proof {
            assert(empty@ =~= Seq::<char>::empty());
        }
        return Some((empty, subvec(v, j2, d)));
    }
    None
}

/// Finds the first matching version/number marker and returns its captures.
fn pvn_extract(v: &Vec<char>) -> (r: Option<(Vec<char>, Vec<char>)>)
    ensures
        r is Some <==> has_pvn(v@),
        r matches Some(p) ==> pvn_at(v@, pvn_pos(v@)) == Some((p.0@, p.1@)),
{
    let pat = patch_word_pat_exec();
    let mut i: usize = 0;
    while i < v.len()
        invariant
            0 <= i <= v@.len(),
            pat@ == patch_word_pat(),
            forall|j: int| 0 <= j < i ==> pvn_at(v@, j) is None,
        decreases v.len() - i,
    {
        let t = pvn_try_at(v, i, &pat);
        if t.is_some() {
            proof {
                let pred = pvn_pred(v@);
                assert forall|j: int| 0 <= j < i implies !#[trigger] pred(j) by {
                    assert(pvn_at(v@, j) is None);
                }
                assert(pred(i as int));
                crate::strutil::lemma_first_where_is(v@, 0, i as int, pred);
            }
            return t;
        }
        i = i + 1;
    }
    proof {
        let pred = pvn_pred(v@);
        assert forall|j: int| 0 <= j < i implies !#[trigger] pred(j) by {
            assert(pvn_at(v@, j) is None);
        }
        crate::strutil::lemma_first_where_is(v@, 0, i as int, pred);
    }
    None
}

/// Pads a number to at least four characters with leading zeros.
fn pad4_exec(num: &Vec<char>) -> (r: Vec<char>)
    ensures
        r@ == pad4(num@),
{
    let mut out: Vec<char> = Vec::new();
    if num.len() < 4 {
        let mut i: usize = 0;
        let pad = 4 - num.len();
        while i < pad
            invariant
                0 <= i <= pad,
                out@ =~= Seq::new(i as nat, |k: int| '0'),
            decreases pad - i,
        {
            out.push('0');
            proof {
                assert(out@ =~= Seq::new((i + 1) as nat, |k: int| '0'));
            }
            i = i + 1;
        }
    }
    let mut k: usize = 0;
    let ghost base = out@;
    while k < num.len()
        invariant
            0 <= k <= num@.len(),
            out@ =~= base + num@.subrange(0, k as int),
        decreases num.len() - k,
    {
        out.push(num[k]);
        proof {
            assert(out@ =~= base + num@.subrange(0, k + 1));
        }
        k = k + 1;
    }
    proof {
        assert(num@.subrange(0, num@.len() as int) =~= num@);
        if num@.len() >= 4 {
            assert(out@ =~= pad4(num@));
        } else {
            assert(out@ =~= pad4(num@));
        }
    }
    out
}

/// Appends the `.patch` extension, replacing an existing extension.
fn with_patch_ext_exec(v: &Vec<char>) -> (r: Vec<char>)
    ensures
        r@ == with_patch_ext(v@),
{
    let k = crate::strutil::find_last_dot(v);
    let mut out = if k < v.len() && k > 0 {
        subvec(v, 0, k)
    } else {
        subvec(v, 0, v.len())
    };
    proof {
        assert(v@.subrange(0, v@.len() as int) =~= v@);
    }
    out.push('.');
    out.push('p');
    out.push('a');
    out.push('t');
    out.push('c');
    out.push('h');
    proof {
        let kk = last_dot(v@, v@.len() as int);
        if kk > 0 {
            assert(out@ =~= v@.subrange(0, kk) + patch_ext());
        } else {
            assert(out@ =~= v@ + patch_ext());
        }
    }
    out
}

impl GitPatch {
    /// Returns the patch file name derived from the subject: the version
    /// prefix, a four-digit patch number (number 0 names the file
    /// `cover-letter`) and the subject's slug, with the `.patch` extension.
    /// A subject without a usable `[PATCH ...]` marker is an error carrying
    /// the subject.
    pub fn filename(&self) -> (r: Result<String, N34Error>)
        ensures
            r is Ok <==> filename_spec(self.subject@) is Some,
            r matches Ok(f) ==> Some(f@) == filename_spec(self.subject@),
            r matches Err(e) ==> (e matches N34Error::InvalidEvent(m) && m@ == self.subject@),
    {
        let v = str_to_chars(self.subject.as_str());
        let bracket = patch_bracket_pat_exec();
        let bpos = find_pat(&v, &bracket);
        let (ver, num): (Vec<char>, Vec<char>) = if bpos < v.len() {
            let mut one: Vec<char> = Vec::new();
            one.push('1');
            proof {
                assert(one@ =~= seq!['1']);
            }
            (Vec::new(), one)
        } else {
            match pvn_extract(&v) {
                Some(p) => p,
                None => {
                    return Err(N34Error::InvalidEvent(string_from_chars(&v)));
                },
            }
        };
        let is_cover = num.len() == 1 && num[0] == '0';
        proof {
            if num@.len() == 1 && num@[0] == '0' {
                assert(num@ =~= seq!['0']);
            }
            if num@ == seq!['0'] {
                assert(num@[0] == '0');
            }
            assert(is_cover <==> num@ == seq!['0']);
        }
        // version prefix and padded number
        let mut lead: Vec<char> = Vec::new();
        if ver.len() > 0 {
            lead.push('v');
            let mut k: usize = 0;
            while k < ver.len()
                invariant
                    0 <= k <= ver@.len(),
                    lead@ =~= seq!['v'] + ver@.subrange(0, k as int),
                decreases ver.len() - k,
            {
                lead.push(ver[k]);
                proof {
                    assert(lead@ =~= seq!['v'] + ver@.subrange(0, k + 1));
                }
                k = k + 1;
            }
            lead.push('-');
            proof {
                assert(ver@.subrange(0, ver@.len() as int) =~= ver@);
                assert(lead@ =~= version_prefix(ver@));
            }
        } else {
            proof {
                assert(lead@ =~= version_prefix(ver@));
            }
        }
        let padded = pad4_exec(&num);
        let mut name: Vec<char> = Vec::new();
        crate::strutil::append_chars(&mut name, &lead);
        crate::strutil::append_chars(&mut name, &padded);
        proof {
            assert(name@ =~= lead@ + padded@);
        }
        name.push('-');
        let tail: Vec<char> = if is_cover {
            let mut t: Vec<char> = Vec::new();
            t.push('c');
            t.push('o');
            t.push('v');
            t.push('e');
            t.push('r');
            t.push('-');
            t.push('l');
            t.push('e');
            t.push('t');
            t.push('t');
            t.push('e');
            t.push('r');
            proof {
                assert(t@ =~= cover_name());
            }
            t
        } else {
            let rb = find_char(&v, 0, ']');
            if rb == v.len() {
                return Err(N34Error::InvalidEvent(string_from_chars(&v)));
            }
            slug_exec(&v)
        };
        let ghost name_base = name@;
        crate::strutil::append_chars(&mut name, &tail);
        proof {
            assert(name@ =~= name_base + tail@);
        }
        let collapsed = collapse_dashes_exec(&name);
        let full = with_patch_ext_exec(&collapsed);
        proof {
            if bpos < v@.len() {
                assert(lead@ + padded@ =~= seq!['0', '0', '0', '1', '-'].take(4));
                assert(name_base =~= seq!['0', '0', '0', '1', '-'].take(4).push('-'));
                assert(name_base =~= seq!['0', '0', '0', '1', '-']);
                assert(name@ =~= seq!['0', '0', '0', '1', '-'] + slug_spec(v@));
            } else {
                assert(name_base =~= lead@ + padded@ + seq!['-']);
                if is_cover {
                    assert(name@ =~= version_prefix(ver@) + pad4(num@) + seq!['-'] + cover_name());
                } else {
                    assert(name@ =~= version_prefix(ver@) + pad4(num@) + seq!['-'] + slug_spec(
                        v@,
                    ));
                }
            }
        }
        Ok(string_from_chars(&full))
    }
}

} // verus!
