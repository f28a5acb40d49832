//! Verified text utilities: whitespace scanning, trimming, tokenizing and
//! line splitting over character sequences.
//!
//! The manifest format is line oriented, so everything here is expressed
//! over `Seq<char>` views. Whitespace means the Unicode `White_Space`
//! characters; lines are split on `'\n'` alone, a carriage return before
//! it being removed by trimming.

use vstd::prelude::*;

verus! {

/// Whitespace, by code point: the characters with the Unicode
/// `White_Space` property — what trimming and token splitting go by.
pub open spec fn is_space(c: char) -> bool {
    ||| (0x09 <= c as u32 && c as u32 <= 0x0D)
    ||| c as u32 == 0x20
    ||| c as u32 == 0x85
    ||| c as u32 == 0xA0
    ||| c as u32 == 0x1680
    ||| (0x2000 <= c as u32 && c as u32 <= 0x200A)
    ||| c as u32 == 0x2028
    ||| c as u32 == 0x2029
    ||| c as u32 == 0x202F
    ||| c as u32 == 0x205F
    ||| c as u32 == 0x3000
}

/// Executable counterpart of [`is_space`].
pub fn is_space_exec(c: char) -> (r: bool)
    ensures
        r == is_space(c),
{
    let u = c as u32;
    (0x09 <= u && u <= 0x0D) || u == 0x20 || u == 0x85 || u == 0xA0 || u == 0x1680 || (0x2000 <= u
        && u <= 0x200A) || u == 0x2028 || u == 0x2029 || u == 0x202F || u == 0x205F || u == 0x3000
}

/// The first index at or after `i` holding a non-space character, or the
/// length of `s` if there is none.
pub open spec fn skip_spaces(s: Seq<char>, i: int) -> int
    decreases s.len() - i,
{
    if i < 0 || i >= s.len() {
        i
    } else if is_space(s[i]) {
        skip_spaces(s, i + 1)
    } else {
        i
    }
}

pub proof fn lemma_skip_spaces(s: Seq<char>, i: int)
    requires
        0 <= i <= s.len(),
    ensures
        i <= skip_spaces(s, i) <= s.len(),
        forall|j: int| i <= j < skip_spaces(s, i) ==> is_space(s[j]),
        skip_spaces(s, i) < s.len() ==> !is_space(s[skip_spaces(s, i)]),
    decreases s.len() - i,
{
    if i < s.len() && is_space(s[i]) {
        lemma_skip_spaces(s, i + 1);
    }
}

/// The first index at or after `i` holding a space, or the length of `s`.
pub open spec fn scan_token(s: Seq<char>, i: int) -> int
    decreases s.len() - i,
{
    if i < 0 || i >= s.len() {
        i
    } else if !is_space(s[i]) {
        scan_token(s, i + 1)
    } else {
        i
    }
}

pub proof fn lemma_scan_token(s: Seq<char>, i: int)
    requires
        0 <= i <= s.len(),
    ensures
        i <= scan_token(s, i) <= s.len(),
        forall|j: int| i <= j < scan_token(s, i) ==> !is_space(s[j]),
        scan_token(s, i) < s.len() ==> is_space(s[scan_token(s, i)]),
    decreases s.len() - i,
{
    if i < s.len() && !is_space(s[i]) {
        lemma_scan_token(s, i + 1);
    }
}

/// The start of the trailing run of spaces that ends at index `n`: the
/// least `b` such that everything in `[b, n)` is a space.
pub open spec fn scan_back(s: Seq<char>, n: int) -> int
    decreases n,
{
    if n <= 0 || n > s.len() {
        0
    } else if is_space(s[n - 1]) {
        scan_back(s, n - 1)
    } else {
        n
    }
}

pub proof fn lemma_scan_back(s: Seq<char>, n: int)
    requires
        0 <= n <= s.len(),
    ensures
        0 <= scan_back(s, n) <= n,
        forall|j: int| scan_back(s, n) <= j < n ==> is_space(s[j]),
        scan_back(s, n) > 0 ==> !is_space(s[scan_back(s, n) - 1]),
    decreases n,
{
    if 0 < n && is_space(s[n - 1]) {
        lemma_scan_back(s, n - 1);
    }
}

/// `s` with leading and trailing spaces removed.
pub open spec fn trim(s: Seq<char>) -> Seq<char> {
    let a = skip_spaces(s, 0);
    let b = scan_back(s, s.len() as int);
    if a <= b {
        s.subrange(a, b)
    } else {
        Seq::empty()
    }
}

/// The tokens of `s` from index `i` on: maximal runs of non-space
/// characters, in order.
pub open spec fn tokenize_from(s: Seq<char>, i: int) -> Seq<Seq<char>>
    decreases s.len() - i via tokenize_from_decreases
{
    if i < 0 || i >= s.len() {
        Seq::empty()
    } else {
        let j = skip_spaces(s, i);
        if j >= s.len() {
            Seq::empty()
        } else {
            seq![s.subrange(j, scan_token(s, j))] + tokenize_from(s, scan_token(s, j))
        }
    }
}

#[via_fn]
proof fn tokenize_from_decreases(s: Seq<char>, i: int) {
    if 0 <= i < s.len() {
        lemma_skip_spaces(s, i);
        if skip_spaces(s, i) < s.len() {
            lemma_scan_token(s, skip_spaces(s, i));
        }
    }
}

/// The tokens of a whole line.
pub open spec fn tokenize(s: Seq<char>) -> Seq<Seq<char>> {
    tokenize_from(s, 0)
}

/// The index of the first `'\n'` at or after `i`, or the length of `s`.
pub open spec fn line_end(s: Seq<char>, i: int) -> int
    decreases s.len() - i,
{
    if i < 0 || i >= s.len() {
        i
    } else if s[i] == '\n' {
        i
    } else {
        line_end(s, i + 1)
    }
}

pub proof fn lemma_line_end(s: Seq<char>, i: int)
    requires
        0 <= i <= s.len(),
    ensures
        i <= line_end(s, i) <= s.len(),
        forall|j: int| i <= j < line_end(s, i) ==> s[j] != '\n',
        line_end(s, i) < s.len() ==> s[line_end(s, i)] == '\n',
    decreases s.len() - i,
{
    if i < s.len() && s[i] != '\n' {
        lemma_line_end(s, i + 1);
    }
}

/// The lines of `s` from index `i` on, split at `'\n'`. A final segment is
/// always produced, so text ending in `'\n'` yields a last, empty line.
pub open spec fn split_lines_from(s: Seq<char>, i: int) -> Seq<Seq<char>>
    decreases s.len() - i via split_lines_from_decreases
{
    if i < 0 || i > s.len() {
        Seq::empty()
    } else {
        let e = line_end(s, i);
        if e >= s.len() {
            seq![s.subrange(i, s.len() as int)]
        } else {
            seq![s.subrange(i, e)] + split_lines_from(s, e + 1)
        }
    }
}

#[via_fn]
proof fn split_lines_from_decreases(s: Seq<char>, i: int) {
    if 0 <= i <= s.len() {
        lemma_line_end(s, i);
    }
}

/// The lines of `s`.
pub open spec fn split_lines(s: Seq<char>) -> Seq<Seq<char>> {
    split_lines_from(s, 0)
}

/// Lexicographic order on character sequences, by code point. This is the
/// order in which scan results are reported.
pub open spec fn chars_le(a: Seq<char>, b: Seq<char>) -> bool
    decreases a.len(),
{
    if a.len() == 0 {
        true
    } else if b.len() == 0 {
        false
    } else if a[0] == b[0] {
        chars_le(a.drop_first(), b.drop_first())
    } else {
        (a[0] as u32) < (b[0] as u32)
    }
}

/// The order is total.
pub proof fn lemma_chars_le_total(a: Seq<char>, b: Seq<char>)
    ensures
        chars_le(a, b) || chars_le(b, a),
    decreases a.len(),
{
    if a.len() > 0 && b.len() > 0 {
        if a[0] == b[0] {
            lemma_chars_le_total(a.drop_first(), b.drop_first());
        } else {
            assert((a[0] as u32) != (b[0] as u32)) by {
                vstd::utf8::char_u32_cast(a[0], a[0] as u32);
                vstd::utf8::char_u32_cast(b[0], b[0] as u32);
            }
        }
    }
}

/// The order is reflexive.
pub proof fn lemma_chars_le_refl(a: Seq<char>)
    ensures
        chars_le(a, a),
    decreases a.len(),
{
    if a.len() > 0 {
        lemma_chars_le_refl(a.drop_first());
    }
}

/// The order is antisymmetric.
pub proof fn lemma_chars_le_antisym(a: Seq<char>, b: Seq<char>)
    requires
        chars_le(a, b),
        chars_le(b, a),
    ensures
        a == b,
    decreases a.len(),
{
    if a.len() == 0 {
        assert(b.len() == 0);
        assert(a =~= b);
    } else {
        assert(b.len() > 0);
        assert(a[0] == b[0]);
        lemma_chars_le_antisym(a.drop_first(), b.drop_first());
        assert(a.drop_first().len() == b.drop_first().len());
        assert(a.len() == b.len());
        assert forall|i: int| 0 <= i < a.len() implies a[i] == b[i] by {
            if i > 0 {
                assert(a[i] == a.drop_first()[i - 1]);
                assert(b[i] == b.drop_first()[i - 1]);
            }
        }
        assert(a =~= b);
    }
}

/// The order is transitive.
pub proof fn lemma_chars_le_trans(a: Seq<char>, b: Seq<char>, c: Seq<char>)
    requires
        chars_le(a, b),
        chars_le(b, c),
    ensures
        chars_le(a, c),
    decreases a.len(),
{
    if a.len() > 0 {
        assert(b.len() > 0);
        assert(c.len() > 0);
        if a[0] == b[0] && b[0] == c[0] {
            lemma_chars_le_trans(a.drop_first(), b.drop_first(), c.drop_first());
        }
    }
}

/// Comparison is unchanged by removing a common prefix.
pub proof fn lemma_chars_le_skip(a: Seq<char>, b: Seq<char>, k: int)
    requires
        0 <= k <= a.len(),
        k <= b.len(),
        forall|j: int| 0 <= j < k ==> a[j] == b[j],
    ensures
        chars_le(a, b) == chars_le(
            a.subrange(k, a.len() as int),
            b.subrange(k, b.len() as int),
        ),
    decreases k,
{
    if k == 0 {
        assert(a.subrange(0, a.len() as int) =~= a);
        assert(b.subrange(0, b.len() as int) =~= b);
    } else {
        assert(a.len() > 0 && b.len() > 0 && a[0] == b[0]);
        assert(forall|j: int|
            0 <= j < k - 1 ==> #[trigger] a.drop_first()[j] == b.drop_first()[j]);
        lemma_chars_le_skip(a.drop_first(), b.drop_first(), k - 1);
        assert(a.drop_first().subrange(k - 1, a.drop_first().len() as int) =~= a.subrange(
            k,
            a.len() as int,
        ));
        assert(b.drop_first().subrange(k - 1, b.drop_first().len() as int) =~= b.subrange(
            k,
            b.len() as int,
        ));
    }
}

/// Whether `a` comes no later than `b` in lexicographic order.
pub fn str_le(a: &str, b: &str) -> (r: bool)
    ensures
        r == chars_le(a@, b@),
{
    let la = a.unicode_len();
    let lb = b.unicode_len();
    let min: usize = if la < lb {
        la
    } else {
        lb
    };
    let mut i: usize = 0;
    while i < min
        invariant
            la == a@.len(),
            lb == b@.len(),
            min <= la,
            min <= lb,
            i <= min,
            forall|j: int| 0 <= j < i ==> a@[j] == b@[j],
        decreases min - i,
    {
        let ca = a.get_char(i);
        let cb = b.get_char(i);
        if ca != cb {
            proof {
                lemma_chars_le_skip(a@, b@, i as int);
                assert(a@.subrange(i as int, la as int)[0] == ca);
                assert(b@.subrange(i as int, lb as int)[0] == cb);
            }
            return (ca as u32) < (cb as u32);
        }
        i = i + 1;
    }
    proof {
        lemma_chars_le_skip(a@, b@, min as int);
    }
    la <= lb
}

/// Whether two string slices hold the same characters.
pub fn str_eq(a: &str, b: &str) -> (r: bool)
    ensures
        r == (a@ == b@),
{
    let la = a.unicode_len();
    let lb = b.unicode_len();
    if la != lb {
        return false;
    }
    let mut i: usize = 0;
    while i < la
        invariant
            la == a@.len(),
            la == b@.len(),
            i <= la,
            forall|j: int| 0 <= j < i ==> a@[j] == b@[j],
        decreases la - i,
    {
        if a.get_char(i) != b.get_char(i) {
            return false;
        }
        i = i + 1;
    }
    proof {
        assert(a@ =~= b@);
    }
    true
}

/// `s` with leading and trailing spaces removed.
pub fn trim_exec<'a>(s: &'a str) -> (r: &'a str)
    ensures
        r@ == trim(s@),
{
    let len = s.unicode_len();
    proof {
        lemma_skip_spaces(s@, 0);
        lemma_scan_back(s@, s@.len() as int);
    }
    let mut a: usize = 0;
    while a < len && is_space_exec(s.get_char(a))
        invariant
            len == s@.len(),
            a <= len,
            forall|j: int| 0 <= j < a ==> is_space(s@[j]),
        decreases len - a,
    {
        a = a + 1;
    }
    proof {
        assert(a == skip_spaces(s@, 0));
    }
    if a == len {
        return s.substring_char(a, len);
    }
    let mut b: usize = len;
    while b > a && is_space_exec(s.get_char(b - 1))
        invariant
            len == s@.len(),
            a <= b <= len,
            forall|j: int| b <= j < len ==> is_space(s@[j]),
        decreases b,
    {
        b = b - 1;
    }
    proof {
        assert(!is_space(s@[a as int]));
        assert(b > a);
        assert(!is_space(s@[b - 1]));
        assert(b == scan_back(s@, s@.len() as int));
    }
    s.substring_char(a, b)
}

/// The tokens of `s`, in order.
pub fn tokenize_exec(s: &str) -> (r: Vec<String>)
    ensures
        r@.map_values(|t: String| t@) == tokenize(s@),
{
    let len = s.unicode_len();
    let mut toks: Vec<String> = Vec::new();
    let mut i: usize = 0;
    while i < len
        invariant
            len == s@.len(),
            i <= len,
            toks@.map_values(|t: String| t@) + tokenize_from(s@, i as int) == tokenize(s@),
        decreases len - i,
    {
        if is_space_exec(s.get_char(i)) {
            proof {
                assert(skip_spaces(s@, i as int) == skip_spaces(s@, i + 1 as int));
                assert(tokenize_from(s@, i as int) == tokenize_from(s@, i + 1 as int));
            }
            i = i + 1;
        } else {
            let start = i;
            while i < len && !is_space_exec(s.get_char(i))
                invariant
                    len == s@.len(),
                    start <= i <= len,
                    forall|j: int| start <= j < i ==> !is_space(s@[j]),
                decreases len - i,
            {
                i = i + 1;
            }
            proof {
                lemma_scan_token(s@, start as int);
                assert(i == scan_token(s@, start as int));
                assert(skip_spaces(s@, start as int) == start as int);
            }
            let tok = s.substring_char(start, i).to_owned();
            let ghost old_toks = toks@;
            toks.push(tok);
            proof {
                assert(toks@.map_values(|t: String| t@) =~= old_toks.map_values(|t: String| t@)
                    + seq![s@.subrange(start as int, i as int)]);
                assert(tokenize_from(s@, start as int) == seq![
                    s@.subrange(start as int, i as int),
                ] + tokenize_from(s@, i as int));
                assert(toks@.map_values(|t: String| t@) + tokenize_from(s@, i as int)
                    =~= old_toks.map_values(|t: String| t@) + tokenize_from(s@, start as int));
            }
        }
    }
    proof {
        assert(toks@.map_values(|t: String| t@) =~= tokenize(s@));
    }
    toks
}

/// The lines of `s`, split at `'\n'`.
pub fn split_lines_exec(s: &str) -> (r: Vec<String>)
    ensures
        r@.map_values(|l: String| l@) == split_lines(s@),
{
    let len = s.unicode_len();
    let mut lines: Vec<String> = Vec::new();
    let mut i: usize = 0;
    loop
        invariant
            len == s@.len(),
            i <= len,
            lines@.map_values(|l: String| l@) + split_lines_from(s@, i as int) == split_lines(s@),
        decreases len - i + 1,
    {
        let start = i;
        while i < len && s.get_char(i) != '\n'
            invariant
                len == s@.len(),
                start <= i <= len,
                forall|j: int| start <= j < i ==> s@[j] != '\n',
            decreases len - i,
        {
            i = i + 1;
        }
        proof {
            lemma_line_end(s@, start as int);
            assert(i == line_end(s@, start as int));
        }
        let line = s.substring_char(start, i).to_owned();
        let ghost old_lines = lines@;
        lines.push(line);
        proof {
            assert(lines@.map_values(|l: String| l@) =~= old_lines.map_values(|l: String| l@)
                + seq![s@.subrange(start as int, i as int)]);
        }
        if i == len {
            proof {
                assert(split_lines_from(s@, start as int) == seq![
                    s@.subrange(start as int, len as int),
                ]);
                assert(lines@.map_values(|l: String| l@) =~= split_lines(s@));
            }
            return lines;
        }
        proof {
            assert(split_lines_from(s@, start as int) == seq![
                s@.subrange(start as int, i as int),
            ] + split_lines_from(s@, i + 1 as int));
            assert(lines@.map_values(|l: String| l@) + split_lines_from(s@, i + 1 as int)
                =~= old_lines.map_values(|l: String| l@) + split_lines_from(s@, start as int));
        }
        i = i + 1;
    }
}

} // verus!
