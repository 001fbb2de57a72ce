//! Small string helpers with exact contracts over `Seq<char>`.
use vstd::prelude::*;
use vstd::string::*;

verus! {

/// What `str::to_lowercase` returns for a string, by its characters.
pub uninterp spec fn unicode_lowercase(s: Seq<char>) -> Seq<char>;

/// The lowercase form of an ASCII character: `A` to `Z` become `a` to `z`,
/// every other character stays.
pub open spec fn ascii_lower(c: char) -> char {
    if 'A' <= c <= 'Z' {
        ((c as int) + 32) as char
    } else {
        c
    }
}

/// Every character is ASCII.
pub open spec fn all_ascii(s: Seq<char>) -> bool {
    forall|i: int| 0 <= i < s.len() ==> (s[i] as u32) < 128
}

/// Calls `str::to_lowercase`, which maps every character to its Unicode
/// lowercase form. The contract names the result and states only the ASCII
/// case (on ASCII text it equals `to_ascii_lowercase`, as std documents);
/// the Unicode case tables are not written out here.
#[verifier::external_body]
pub(crate) fn to_lowercase(s: &str) -> (r: String)
    ensures
        r@ == unicode_lowercase(s@),
        all_ascii(s@) ==> r@ == s@.map_values(|c: char| ascii_lower(c)),
{
    s.to_lowercase()
}

/// Character-wise equality of two string slices.
pub fn str_equals(a: &str, b: &str) -> (r: bool)
    ensures
        r == (a@ == b@),
{
    let n = a.unicode_len();
    let m = b.unicode_len();
    if n != m {
        return false;
    }
    let mut i: usize = 0;
    while i < n
        invariant
            n == a@.len(),
            m == b@.len(),
            n == m,
            i <= n,
            forall|j: int| 0 <= j < i ==> a@[j] == b@[j],
        decreases n - i,
    {
        if a.get_char(i) != b.get_char(i) {
            return false;
        }
        i = i + 1;
    }
    assert(a@ =~= b@);
    true
}

/// The characters of a string slice, in order.
pub fn chars_of(s: &str) -> (r: Vec<char>)
    ensures
        r@ == s@,
{
    broadcast use vstd::string::group_string_axioms;
    let mut v: Vec<char> = Vec::new();
    for c in it: s.chars()
        invariant
            v@ == it.seq().take(it.index() as int),
    {
        v.push(c);
    }
    assert(v@ =~= s@);
    v
}

/// `needle` occurs in `hay` as a contiguous run of characters.
pub open spec fn spec_contains(hay: Seq<char>, needle: Seq<char>) -> bool {
    exists|i: int| 0 <= i && i + needle.len() <= hay.len() && #[trigger] hay.subrange(i, i + needle.len()) == needle
}

/// Whether `needle` occurs in `hay`.
pub fn str_contains(hay: &str, needle: &str) -> (r: bool)
    ensures
        r == spec_contains(hay@, needle@),
{
    let h = chars_of(hay);
    let nd = chars_of(needle);
    let n = h.len();
    let m = nd.len();
    if m == 0 {
        assert(hay@.subrange(0, 0 + needle@.len() as int) =~= needle@);
        return true;
    }
    if m > n {
        return false;
    }
    let mut i: usize = 0;
    while i <= n - m
        invariant
            h@ == hay@,
            nd@ == needle@,
            n == h@.len(),
            m == nd@.len(),
            1 <= m <= n,
            i <= n - m + 1,
            forall|k: int| 0 <= k < i ==> #[trigger] hay@.subrange(k, k + m) != needle@,
        decreases n - m + 1 - i,
    {
        let mut j: usize = 0;
        let mut same = true;
        while j < m
            invariant
                h@ == hay@,
                nd@ == needle@,
                n == h@.len(),
                m == nd@.len(),
                i + m <= n,
                j <= m,
                same ==> forall|t: int| 0 <= t < j ==> hay@[i + t] == needle@[t],
                !same ==> hay@.subrange(i as int, i + m) != needle@,
            decreases m - j,
        {
            if same && h[i + j] != nd[j] {
                same = false;
                assert(hay@.subrange(i as int, i + m)[j as int] != needle@[j as int]);
            }
            j = j + 1;
        }
        if same {
            assert(hay@.subrange(i as int, i + m) =~= needle@);
            return true;
        }
        i = i + 1;
    }
    proof {
        assert forall|k: int| 0 <= k && k + needle@.len() <= hay@.len() implies #[trigger] hay@.subrange(k, k + needle@.len()) != needle@ by {
        }
    }
    false
}

/// Unicode White_Space characters, the ones `str::trim` removes: tab to
/// carriage return, space, next line, no-break space, ogham space mark, the
/// spaces U+2000 to U+200A, line and paragraph separators, narrow no-break
/// space, medium mathematical space and ideographic space.
pub open spec fn is_white_space(c: char) -> bool {
    ||| '\u{9}' <= c <= '\u{d}'
    ||| c == ' '
    ||| c == '\u{85}'
    ||| c == '\u{a0}'
    ||| c == '\u{1680}'
    ||| '\u{2000}' <= c <= '\u{200a}'
    ||| c == '\u{2028}'
    ||| c == '\u{2029}'
    ||| c == '\u{202f}'
    ||| c == '\u{205f}'
    ||| c == '\u{3000}'
}

/// Whether a character is Unicode white space.
pub fn white_space(c: char) -> (r: bool)
    ensures
        r == is_white_space(c),
{
    ('\u{9}' <= c && c <= '\u{d}') || c == ' ' || c == '\u{85}' || c == '\u{a0}' || c == '\u{1680}' || (
    '\u{2000}' <= c && c <= '\u{200a}') || c == '\u{2028}' || c == '\u{2029}' || c == '\u{202f}' || c
        == '\u{205f}' || c == '\u{3000}'
}

/// The characters with leading white space removed.
pub open spec fn skip_leading(s: Seq<char>) -> Seq<char>
    decreases s.len(),
{
    if s.len() > 0 && is_white_space(s[0]) {
        skip_leading(s.drop_first())
    } else {
        s
    }
}

/// The characters with trailing white space removed.
pub open spec fn skip_trailing(s: Seq<char>) -> Seq<char>
    decreases s.len(),
{
    if s.len() > 0 && is_white_space(s.last()) {
        skip_trailing(s.drop_last())
    } else {
        s
    }
}

/// The characters with leading and trailing white space removed, as
/// `str::trim` returns them.
pub open spec fn trimmed(s: Seq<char>) -> Seq<char> {
    skip_trailing(skip_leading(s))
}

/// The string with leading and trailing white space removed.
pub fn trim(s: &str) -> (r: String)
    ensures
        r@ == trimmed(s@),
{
    let n = s.unicode_len();
    let mut i: usize = 0;
    assert(s@.subrange(0, n as int) =~= s@);
    while i < n && white_space(s.get_char(i))
        invariant
            n == s@.len(),
            i <= n,
            skip_leading(s@) == skip_leading(s@.subrange(i as int, n as int)),
        decreases n - i,
    {
        proof {
            let t = s@.subrange(i as int, n as int);
            assert(t.drop_first() =~= s@.subrange(i + 1, n as int));
        }
        i = i + 1;
    }
    proof {
        assert(skip_leading(s@.subrange(i as int, n as int)) == s@.subrange(i as int, n as int));
    }
    let mut j: usize = n;
    while j > i && white_space(s.get_char(j - 1))
        invariant
            n == s@.len(),
            i <= j <= n,
            trimmed(s@) == skip_trailing(s@.subrange(i as int, j as int)),
        decreases j - i,
    {
        proof {
            let t = s@.subrange(i as int, j as int);
            assert(t.drop_last() =~= s@.subrange(i as int, j - 1));
        }
        j = j - 1;
    }
    let r = s.substring_char(i, j);
    r.to_owned()
}

/// A line without the carriage return that ends it, if any.
pub open spec fn strip_cr(l: Seq<char>) -> Seq<char> {
    if l.len() > 0 && l.last() == '\r' {
        l.drop_last()
    } else {
        l
    }
}

/// The lines ended by a newline among the first `k` characters, and where the
/// unfinished line starts.
pub open spec fn scan_lines(s: Seq<char>, k: nat) -> (Seq<Seq<char>>, int)
    decreases k,
{
    if k == 0 {
        (Seq::empty(), 0)
    } else {
        let (acc, start) = scan_lines(s, (k - 1) as nat);
        if s[k - 1] == '\n' {
            (acc.push(strip_cr(s.subrange(start, k - 1))), k as int)
        } else {
            (acc, start)
        }
    }
}

/// The lines of a text as `str::lines` splits it: at each newline, with the
/// newline and a carriage return before it removed; a last line without a
/// newline is kept as it is, and no empty line follows a final newline.
pub open spec fn spec_lines(s: Seq<char>) -> Seq<Seq<char>> {
    let (acc, start) = scan_lines(s, s.len());
    if start < s.len() {
        acc.push(s.subrange(start, s.len() as int))
    } else {
        acc
    }
}

/// The character sequences of a sequence of strings.
pub open spec fn views(v: Seq<String>) -> Seq<Seq<char>> {
    v.map_values(|x: String| x@)
}

/// The lines of a text.
pub fn split_lines(text: &str) -> (r: Vec<String>)
    ensures
        views(r@) == spec_lines(text@),
{
    let cs = chars_of(text);
    let n = cs.len();
    let mut out: Vec<String> = Vec::new();
    let mut start: usize = 0;
    let mut i: usize = 0;
    while i < n
        invariant
            cs@ == text@,
            n == cs@.len(),
            i <= n,
            start <= i,
            views(out@) == scan_lines(text@, i as nat).0,
            start == scan_lines(text@, i as nat).1,
        decreases n - i,
    {
        if cs[i] == '\n' {
            let end = if i > start && cs[i - 1] == '\r' { i - 1 } else { i };
            let line = text.substring_char(start, end);
            let ghost prev = out@;
            out.push(line.to_owned());
            proof {
                let piece = text@.subrange(start as int, i as int);
                assert(line@ =~= strip_cr(piece));
                assert(views(out@) =~= views(prev).push(strip_cr(piece)));
            }
            start = i + 1;
        }
        i = i + 1;
    }
    if start < n {
        let ghost prev = out@;
        let line = text.substring_char(start, n);
        out.push(line.to_owned());
        proof {
            assert(views(out@) =~= views(prev).push(text@.subrange(start as int, n as int)));
        }
    }
    out
}

/// A character as it stands in an escaped path: a space gets a backslash
/// before it, every other character is kept.
pub open spec fn escaped_char(c: char) -> Seq<char> {
    if c == ' ' {
        seq!['\\', ' ']
    } else {
        seq![c]
    }
}

/// A path with every space escaped by a backslash, as a GStreamer pipeline
/// description reads it.
pub open spec fn escape_spaces(s: Seq<char>) -> Seq<char>
    decreases s.len(),
{
    if s.len() == 0 {
        Seq::empty()
    } else {
        escape_spaces(s.drop_last()) + escaped_char(s.last())
    }
}

/// Escape the spaces of a path for a pipeline description.
pub fn shell_escape(s: &str) -> (r: String)
    ensures
        r@ == escape_spaces(s@),
{
    let n = s.unicode_len();
    let mut out = String::new();
    let mut i: usize = 0;
    while i < n
        invariant
            n == s@.len(),
            i <= n,
            out@ == escape_spaces(s@.subrange(0, i as int)),
        decreases n - i,
    {
        let ghost prev = out@;
        let c = s.get_char(i);
        if c == ' ' {
            out.append("\\ ");
            proof {
                reveal_strlit("\\ ");
            }
        } else {
            out.append(s.substring_char(i, i + 1));
        }
        proof {
            let t = s@.subrange(0, i + 1);
            assert(t.drop_last() =~= s@.subrange(0, i as int));
            assert(escaped_char(c) =~= s@.subrange(i as int, i + 1) || c == ' ');
            assert(out@ =~= prev + escaped_char(c));
        }
        i = i + 1;
    }
    assert(s@.subrange(0, n as int) =~= s@);
    out
}

/// No character is a newline.
pub open spec fn no_newline(l: Seq<char>) -> bool {
    forall|i: int| 0 <= i < l.len() ==> l[i] != '\n'
}

proof fn lemma_scan_lines(s: Seq<char>, k: nat)
    requires
        k <= s.len(),
    ensures
        0 <= scan_lines(s, k).1 <= k,
        forall|i: int| scan_lines(s, k).1 <= i < k ==> s[i] != '\n',
        forall|j: int| 0 <= j < scan_lines(s, k).0.len() ==> no_newline(#[trigger] scan_lines(s, k).0[j]),
        no_newline(s.subrange(0, k as int)) ==> scan_lines(s, k) == (Seq::<Seq<char>>::empty(), 0int),
    decreases k,
{
    if k > 0 {
        let km = (k - 1) as nat;
        lemma_scan_lines(s, km);
        let (acc, start) = scan_lines(s, km);
        if no_newline(s.subrange(0, k as int)) {
            assert(s.subrange(0, k as int)[km as int] == s[km as int]);
            assert(no_newline(s.subrange(0, km as int))) by {
                assert forall|i: int| 0 <= i < km implies s.subrange(0, km as int)[i] != '\n' by {
                    assert(s.subrange(0, km as int)[i] == s.subrange(0, k as int)[i]);
                }
            }
        }
        if s[km as int] == '\n' {
            let line = strip_cr(s.subrange(start, km as int));
            assert(no_newline(line)) by {
                assert forall|i: int| 0 <= i < line.len() implies line[i] != '\n' by {
                    assert(line[i] == s[start + i]);
                }
            }
            let acc2 = acc.push(line);
            assert forall|j: int| 0 <= j < acc2.len() implies no_newline(#[trigger] acc2[j]) by {
                if j < acc.len() {
                    assert(acc2[j] == acc[j]);
                }
            }
        }
    }
}

/// Line law: no line that `split_lines` gives holds a newline, and a text
/// without a newline is a single line, itself (no line at all when empty).
pub proof fn law_lines_have_no_newline(text: Seq<char>)
    ensures
        forall|j: int| 0 <= j < spec_lines(text).len() ==> no_newline(#[trigger] spec_lines(text)[j]),
        no_newline(text) ==> spec_lines(text) == (if text.len() == 0 {
            Seq::<Seq<char>>::empty()
        } else {
            seq![text]
        }),
{
    lemma_scan_lines(text, text.len());
    let (acc, start) = scan_lines(text, text.len());
    let lines = spec_lines(text);
    if start < text.len() {
        let last = text.subrange(start, text.len() as int);
        assert(no_newline(last)) by {
            assert forall|i: int| 0 <= i < last.len() implies last[i] != '\n' by {
                assert(last[i] == text[start + i]);
            }
        }
        assert forall|j: int| 0 <= j < lines.len() implies no_newline(#[trigger] lines[j]) by {
            if j < acc.len() {
                assert(lines[j] == acc[j]);
            }
        }
    }
    if no_newline(text) {
        assert(text.subrange(0, text.len() as int) =~= text);
        if text.len() > 0 {
            assert(text.subrange(0, text.len() as int) =~= text);
            assert(lines =~= seq![text]);
        }
    }
}

} // verus!
