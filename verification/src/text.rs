//! String primitives with exact specifications over `Seq<char>`.
//!
//! Trimming, prefix tests, line splitting, ASCII case mapping and decimal
//! formatting are written here and proved against short specifications of
//! what the corresponding `str`/`char` functions are documented to do.
//! Unicode lowercasing is left to `str::to_lowercase` behind a named result.
use vstd::prelude::*;

verus! {

// ----------------------------------------------------------------------
// Specifications
// ----------------------------------------------------------------------

/// The Unicode `White_Space` property (the set `char::is_whitespace` tests
/// and `str::trim` removes).
pub open spec fn is_white_space(c: char) -> bool {
    let n = c as u32;
    ||| 9 <= n <= 13
    ||| n == 32
    ||| n == 0x85
    ||| n == 0xa0
    ||| n == 0x1680
    ||| 0x2000 <= n <= 0x200a
    ||| n == 0x2028
    ||| n == 0x2029
    ||| n == 0x202f
    ||| n == 0x205f
    ||| n == 0x3000
}

/// `s` with its leading white space removed.
pub open spec fn trim_start(s: Seq<char>) -> Seq<char>
    decreases s.len(),
{
    if s.len() > 0 && is_white_space(s[0]) {
        trim_start(s.drop_first())
    } else {
        s
    }
}

/// `s` with its trailing white space removed.
pub open spec fn trim_end(s: Seq<char>) -> Seq<char>
    decreases s.len(),
{
    if s.len() > 0 && is_white_space(s.last()) {
        trim_end(s.drop_last())
    } else {
        s
    }
}

/// `s` with white space removed at both ends (what `str::trim` returns).
pub open spec fn trimmed(s: Seq<char>) -> Seq<char> {
    trim_end(trim_start(s))
}

/// `s` with every occurrence of `c` removed (what `s.replace(c, "")` returns).
pub open spec fn without_char(s: Seq<char>, c: char) -> Seq<char>
    decreases s.len(),
{
    if s.len() == 0 {
        s
    } else {
        let r = without_char(s.drop_last(), c);
        if s.last() == c {
            r
        } else {
            r.push(s.last())
        }
    }
}

/// `p` is a prefix of `s`.
pub open spec fn has_prefix(s: Seq<char>, p: Seq<char>) -> bool {
    p.len() <= s.len() && s.subrange(0, p.len() as int) == p
}

/// What `str::strip_prefix` returns.
pub open spec fn stripped_prefix(s: Seq<char>, p: Seq<char>) -> Option<Seq<char>> {
    if has_prefix(s, p) {
        Some(s.skip(p.len() as int))
    } else {
        None
    }
}

/// The index of the first `c` in `s`, if any (what `str::find` with a
/// `char` pattern locates, counted in characters).
pub open spec fn first_index_of(s: Seq<char>, c: char) -> Option<int> {
    if s.contains(c) {
        Some(choose|i: int| 0 <= i < s.len() && s[i] == c && forall|j: int| 0 <= j < i ==> s[j] != c)
    } else {
        None
    }
}

/// The index of the last `c` in `s`, if any.
pub open spec fn last_index_of(s: Seq<char>, c: char) -> Option<int> {
    if s.contains(c) {
        Some(choose|i: int| 0 <= i < s.len() && s[i] == c && forall|j: int| i < j < s.len() ==> s[j] != c)
    } else {
        None
    }
}

/// ASCII lowercase of one character (what `char::to_ascii_lowercase` returns).
pub open spec fn ascii_lower_char(c: char) -> char {
    if 65 <= c as u32 <= 90 {
        ((c as u32 + 32) as u8) as char
    } else {
        c
    }
}

/// ASCII lowercase of a string (what `str::to_ascii_lowercase` returns).
pub open spec fn ascii_lowercase_of(s: Seq<char>) -> Seq<char> {
    Seq::new(s.len(), |i: int| ascii_lower_char(s[i]))
}

/// The character of a decimal digit `d < 10`.
pub open spec fn digit_char(d: u32) -> char {
    ((d + 48) as u8) as char
}

/// The decimal representation of `n` (what `u32::to_string` returns).
pub open spec fn decimal(n: u32) -> Seq<char>
    decreases n,
{
    if n < 10 {
        seq![digit_char(n)]
    } else {
        decimal(n / 10).push(digit_char(n % 10))
    }
}

/// The pieces of `s` between line feeds; the last piece is what follows
/// the last line feed (possibly empty).
pub open spec fn newline_segments(s: Seq<char>) -> Seq<Seq<char>>
    decreases s.len(),
{
    if s.len() == 0 {
        seq![Seq::<char>::empty()]
    } else {
        let prev = newline_segments(s.drop_last());
        if s.last() == '\n' {
            prev.push(Seq::<char>::empty())
        } else {
            prev.update(prev.len() - 1, prev.last().push(s.last()))
        }
    }
}

/// `s` with every leading `c` removed.
pub open spec fn trim_start_char(s: Seq<char>, c: char) -> Seq<char>
    decreases s.len(),
{
    if s.len() > 0 && s[0] == c {
        trim_start_char(s.drop_first(), c)
    } else {
        s
    }
}

/// `s` with every trailing `c` removed (what `str::trim_end_matches` with a
/// `char` pattern returns).
pub open spec fn trim_end_char(s: Seq<char>, c: char) -> Seq<char>
    decreases s.len(),
{
    if s.len() > 0 && s.last() == c {
        trim_end_char(s.drop_last(), c)
    } else {
        s
    }
}

/// `sub` occurs in `s` (what `str::contains` with a string pattern tests).
pub open spec fn contains_seq(s: Seq<char>, sub: Seq<char>) -> bool {
    exists|i: int| 0 <= i && i + sub.len() <= s.len() && #[trigger] s.subrange(i, i + sub.len()) == sub
}

/// `{"error": "<message>"}` (the message is inserted as it is).
pub open spec fn error_json_of(message: Seq<char>) -> Seq<char> {
    "{\"error\": \""@ + message + "\"}"@
}

// ----------------------------------------------------------------------
// Trusted std calls
// ----------------------------------------------------------------------

/// Name for what `str::to_lowercase` returns (Unicode lowercasing).
pub uninterp spec fn lowercase_of(s: Seq<char>) -> Seq<char>;

/// Every character of `s` is ASCII.
pub open spec fn is_ascii_seq(s: Seq<char>) -> bool {
    forall|i: int| 0 <= i < s.len() ==> (s[i] as u32) < 128
}

/// Calls `str::to_lowercase`; the result is `lowercase_of` of the argument.
/// As its documentation says, each character is mapped to its Unicode
/// lowercase; for ASCII characters that is the ASCII lowercase, so an
/// ASCII string lowercases as `to_ascii_lowercase` does, and an ASCII
/// beginning of a string becomes the ASCII lowercase beginning of the
/// result.
#[verifier::external_body]
pub(crate) fn lowercase(s: &str) -> (res: String)
    ensures
        res@ == lowercase_of(s@),
        is_ascii_seq(s@) ==> res@ == ascii_lowercase_of(s@),
        forall|k: int|
            0 <= k <= s@.len() && is_ascii_seq(#[trigger] s@.take(k)) ==> has_prefix(
                res@,
                ascii_lowercase_of(s@.take(k)),
            ),
{
    s.to_lowercase()
}

/// Calls `String::push`, which appends one character.
#[verifier::external_body]
pub(crate) fn push_char(s: &mut String, c: char)
    ensures
        final(s)@ == old(s)@.push(c),
{
    s.push(c)
}

/// Name for what `String::from_utf8_lossy` returns for a byte string.
pub uninterp spec fn utf8_lossy_of(bytes: Seq<u8>) -> Seq<char>;

/// Calls `String::from_utf8_lossy` and takes the result as an owned string.
#[verifier::external_body]
pub(crate) fn utf8_lossy(bytes: &[u8]) -> (res: String)
    ensures
        res@ == utf8_lossy_of(bytes@),
{
    String::from_utf8_lossy(bytes).into_owned()
}

// ----------------------------------------------------------------------
// Verified operations
// ----------------------------------------------------------------------

/// Whether `c` has the Unicode `White_Space` property.
pub fn is_white_space_char(c: char) -> (b: bool)
    ensures
        b == is_white_space(c),
{
    let n = c as u32;
    (9 <= n && n <= 13) || n == 32 || n == 0x85 || n == 0xa0 || n == 0x1680 || (0x2000 <= n && n
        <= 0x200a) || n == 0x2028 || n == 0x2029 || n == 0x202f || n == 0x205f || n == 0x3000
}

/// Whether the two strings hold the same characters.
pub fn str_eq(a: &str, b: &str) -> (res: bool)
    ensures
        res == (a@ == b@),
{
    let n = a.unicode_len();
    if n != b.unicode_len() {
        return false;
    }
    let mut i: usize = 0;
    while i < n
        invariant
            n == a@.len(),
            n == b@.len(),
            i <= n,
            forall|j: int| 0 <= j < i ==> a@[j] == b@[j],
        decreases n - i,
    {
        if a.get_char(i) != b.get_char(i) {
            return false;
        }
        i += 1;
    }
    assert(a@ =~= b@);
    true
}

/// `str::trim`: `s` without leading and trailing white space.
pub fn trim(s: &str) -> (res: String)
    ensures
        res@ == trimmed(s@),
{
    let n = s.unicode_len();
    let mut i: usize = 0;
    assert(s@.skip(0) =~= s@);
    while i < n && is_white_space_char(s.get_char(i))
        invariant
            n == s@.len(),
            i <= n,
            trim_start(s@) == trim_start(s@.skip(i as int)),
        decreases n - i,
    {
        assert(s@.skip(i as int).drop_first() =~= s@.skip(i + 1));
        i += 1;
    }
    assert(trim_start(s@) == s@.subrange(i as int, n as int)) by {
        assert(s@.skip(i as int) =~= s@.subrange(i as int, n as int));
    }
    let mut j: usize = n;
    while j > i && is_white_space_char(s.get_char(j - 1))
        invariant
            n == s@.len(),
            i <= j <= n,
            trimmed(s@) == trim_end(s@.subrange(i as int, j as int)),
        decreases j,
    {
        assert(s@.subrange(i as int, j as int).drop_last() =~= s@.subrange(i as int, j - 1));
        j -= 1;
    }
    String::from_str(s.substring_char(i, j))
}

/// `s.replace(c, "")`: `s` with every `c` removed.
pub fn remove_char(s: &str, c: char) -> (res: String)
    ensures
        res@ == without_char(s@, c),
{
    let n = s.unicode_len();
    let mut r = String::new();
    let mut i: usize = 0;
    while i < n
        invariant
            n == s@.len(),
            i <= n,
            r@ == without_char(s@.take(i as int), c),
        decreases n - i,
    {
        let d = s.get_char(i);
        assert(s@.take(i + 1).drop_last() =~= s@.take(i as int));
        if d != c {
            push_char(&mut r, d);
        }
        i += 1;
    }
    assert(s@.take(n as int) =~= s@);
    r
}

/// `s.starts_with(p)`.
pub fn starts_with(s: &str, p: &str) -> (res: bool)
    ensures
        res == has_prefix(s@, p@),
{
    let n = s.unicode_len();
    let m = p.unicode_len();
    if m > n {
        return false;
    }
    let mut i: usize = 0;
    while i < m
        invariant
            n == s@.len(),
            m == p@.len(),
            m <= n,
            i <= m,
            forall|j: int| 0 <= j < i ==> s@[j] == p@[j],
        decreases m - i,
    {
        if s.get_char(i) != p.get_char(i) {
            assert(s@.subrange(0, m as int)[i as int] != p@[i as int]);
            return false;
        }
        i += 1;
    }
    assert(s@.subrange(0, m as int) =~= p@);
    true
}

/// `s.strip_prefix(p)`, as an owned string.
pub fn strip_prefix(s: &str, p: &str) -> (res: Option<String>)
    ensures
        res.deep_view() == stripped_prefix(s@, p@),
{
    if starts_with(s, p) {
        let n = s.unicode_len();
        let m = p.unicode_len();
        let rest = String::from_str(s.substring_char(m, n));
        assert(rest@ =~= s@.skip(m as int));
        Some(rest)
    } else {
        None
    }
}

/// `s.contains(c)`.
pub fn contains_char(s: &str, c: char) -> (res: bool)
    ensures
        res == s@.contains(c),
{
    match find_char(s, c) {
        Some(_) => true,
        None => false,
    }
}

/// `s.find(c)`, counted in characters.
pub fn find_char(s: &str, c: char) -> (res: Option<usize>)
    ensures
        res matches Some(i) ==> first_index_of(s@, c) == Some(i as int) && i < s@.len() && s@[i as int]
            == c && forall|j: int| 0 <= j < i ==> s@[j] != c,
        res is None ==> first_index_of(s@, c) is None,
{
    let n = s.unicode_len();
    let mut i: usize = 0;
    while i < n
        invariant
            n == s@.len(),
            i <= n,
            forall|j: int| 0 <= j < i ==> s@[j] != c,
        decreases n - i,
    {
        if s.get_char(i) == c {
            assert(s@.contains(c));
            let ghost k = choose|k: int|
                0 <= k < s@.len() && s@[k] == c && forall|j: int| 0 <= j < k ==> s@[j] != c;
            assert(0 <= i < s@.len() && s@[i as int] == c && forall|j: int|
                0 <= j < i ==> s@[j] != c);
            assert(k == i) by {
                if k < i {
                    assert(s@[k] != c);
                } else if k > i {
                    assert(s@[i as int] != c);
                }
            }
            return Some(i);
        }
        i += 1;
    }
    assert(!s@.contains(c));
    None
}

/// `s.rfind(c)`, counted in characters.
pub fn rfind_char(s: &str, c: char) -> (res: Option<usize>)
    ensures
        res matches Some(i) ==> last_index_of(s@, c) == Some(i as int) && i < s@.len() && s@[i as int]
            == c && forall|j: int| i < j < s@.len() ==> s@[j] != c,
        res is None ==> last_index_of(s@, c) is None,
{
    let n = s.unicode_len();
    let mut j: usize = n;
    while j > 0
        invariant
            n == s@.len(),
            j <= n,
            forall|k: int| j <= k < n ==> s@[k] != c,
        decreases j,
    {
        if s.get_char(j - 1) == c {
            let i = j - 1;
            assert(s@.contains(c)) by {
                assert(s@[i as int] == c);
            }
            let ghost k = choose|k: int|
                0 <= k < s@.len() && s@[k] == c && forall|m: int| k < m < s@.len() ==> s@[m] != c;
            assert(0 <= i < s@.len() && s@[i as int] == c && forall|m: int|
                i < m < s@.len() ==> s@[m] != c);
            assert(k == i) by {
                if k < i {
                    assert(s@[i as int] != c);
                } else if k > i {
                    assert(s@[k] != c);
                }
            }
            return Some(i);
        }
        j -= 1;
    }
    assert(!s@.contains(c));
    None
}

/// `s.to_ascii_lowercase()`.
pub fn ascii_lowercase(s: &str) -> (res: String)
    ensures
        res@ == ascii_lowercase_of(s@),
{
    let n = s.unicode_len();
    let mut r = String::new();
    let mut i: usize = 0;
    while i < n
        invariant
            n == s@.len(),
            i <= n,
            r@ =~= ascii_lowercase_of(s@.take(i as int)),
        decreases n - i,
    {
        let c = s.get_char(i);
        let n_c = c as u32;
        let l = if 65 <= n_c && n_c <= 90 {
            ((n_c + 32) as u8) as char
        } else {
            c
        };
        assert(l == ascii_lower_char(c));
        push_char(&mut r, l);
        i += 1;
    }
    assert(s@.take(n as int) =~= s@);
    r
}

/// Appends the decimal representation of `n` (`u32::to_string`).
pub fn push_decimal(s: &mut String, n: u32)
    ensures
        final(s)@ == old(s)@ + decimal(n),
    decreases n,
{
    if n >= 10 {
        push_decimal(s, n / 10);
    }
    let d = n % 10;
    push_char(s, ((d + 48) as u8) as char);
    assert(decimal(n) == if n < 10 { seq![digit_char(n)] } else { decimal(n / 10).push(digit_char(n % 10)) });
    assert(n < 10 ==> d == n);
}

/// The decimal representation of `n`.
pub fn decimal_string(n: u32) -> (res: String)
    ensures
        res@ == decimal(n),
{
    let mut s = String::new();
    push_decimal(&mut s, n);
    assert(s@ =~= decimal(n));
    s
}

/// Splits `s` at line feeds (see `newline_segments`).
pub fn split_lines(s: &str) -> (res: Vec<String>)
    ensures
        res.deep_view() == newline_segments(s@),
{
    let n = s.unicode_len();
    let mut lines: Vec<String> = Vec::new();
    let mut cur = String::new();
    let mut i: usize = 0;
    assert(s@.take(0) =~= Seq::<char>::empty());
    assert(lines.deep_view().push(cur@) =~= newline_segments(s@.take(0)));
    while i < n
        invariant
            n == s@.len(),
            i <= n,
            lines.deep_view().push(cur@) =~= newline_segments(s@.take(i as int)),
        decreases n - i,
    {
        let c = s.get_char(i);
        let ghost prev = newline_segments(s@.take(i as int));
        assert(s@.take(i + 1).drop_last() =~= s@.take(i as int));
        assert(s@.take(i + 1).last() == c);
        if c == '\n' {
            let done = cur;
            lines.push(done);
            cur = String::new();
            assert(lines.deep_view() =~= prev);
        } else {
            let ghost old_lines = lines.deep_view();
            push_char(&mut cur, c);
            assert(lines.deep_view() == old_lines);
        }
        i += 1;
    }
    assert(s@.take(n as int) =~= s@);
    lines.push(cur);
    lines
}

/// `s.trim_end_matches(c)`: every trailing `c` removed.
pub fn trim_end_matches_char(s: &str, c: char) -> (res: String)
    ensures
        res@ == trim_end_char(s@, c),
{
    let n = s.unicode_len();
    let mut j: usize = n;
    assert(s@.subrange(0, n as int) =~= s@);
    while j > 0 && s.get_char(j - 1) == c
        invariant
            n == s@.len(),
            j <= n,
            trim_end_char(s@, c) == trim_end_char(s@.subrange(0, j as int), c),
        decreases j,
    {
        assert(s@.subrange(0, j as int).drop_last() =~= s@.subrange(0, j - 1));
        j -= 1;
    }
    String::from_str(s.substring_char(0, j))
}

/// `s.trim_matches(c)`: every leading and trailing `c` removed.
pub fn trim_matches_char(s: &str, c: char) -> (res: String)
    ensures
        res@ == trim_end_char(trim_start_char(s@, c), c),
{
    let n = s.unicode_len();
    let mut i: usize = 0;
    assert(s@.skip(0) =~= s@);
    while i < n && s.get_char(i) == c
        invariant
            n == s@.len(),
            i <= n,
            trim_start_char(s@, c) == trim_start_char(s@.skip(i as int), c),
        decreases n - i,
    {
        assert(s@.skip(i as int).drop_first() =~= s@.skip(i + 1));
        i += 1;
    }
    assert(trim_start_char(s@, c) == s@.subrange(i as int, n as int)) by {
        assert(s@.skip(i as int) =~= s@.subrange(i as int, n as int));
    }
    let rest = s.substring_char(i, n);
    trim_end_matches_char(rest, c)
}

/// `s.contains(sub)` for a string pattern.
pub fn contains_str(s: &str, sub: &str) -> (res: bool)
    ensures
        res == contains_seq(s@, sub@),
{
    let n = s.unicode_len();
    let m = sub.unicode_len();
    if m > n {
        assert(!contains_seq(s@, sub@));
        return false;
    }
    if m == 0 {
        assert(s@.subrange(0int, 0int + sub@.len()) =~= sub@);
        return true;
    }
    let mut i: usize = 0;
    while i <= n - m
        invariant
            n == s@.len(),
            m == sub@.len(),
            0 < m <= n,
            i <= n - m + 1,
            forall|k: int| 0 <= k < i ==> #[trigger] s@.subrange(k, k + m) != sub@,
        decreases n - m + 1 - i,
    {
        let mut j: usize = 0;
        let mut same = true;
        while j < m
            invariant
                n == s@.len(),
                m == sub@.len(),
                i + m <= n,
                j <= m,
                same ==> forall|t: int| 0 <= t < j ==> s@[i + t] == sub@[t],
                !same ==> s@.subrange(i as int, i + m) != sub@,
            decreases m - j,
        {
            if s.get_char(i + j) != sub.get_char(j) {
                assert(s@.subrange(i as int, i + m)[j as int] == s@[i + j]);
                same = false;
            }
            j += 1;
        }
        if same {
            assert(s@.subrange(i as int, i + m) =~= sub@);
            return true;
        }
        i += 1;
    }
    assert(!contains_seq(s@, sub@)) by {
        if contains_seq(s@, sub@) {
            let k = choose|k: int| 0 <= k && k + m <= n && #[trigger] s@.subrange(k, k + m) == sub@;
            assert(s@.subrange(k, k + m) != sub@);
        }
    }
    false
}

/// `{"error": "<message>"}`, the tools' error reply.
pub fn error_json(message: &str) -> (res: String)
    ensures
        res@ == error_json_of(message@),
{
    let mut r = String::from_str("{\"error\": \"");
    r.append(message);
    r.append("\"}");
    r
}

} // verus!
