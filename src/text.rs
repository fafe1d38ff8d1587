//! Character-level helpers over strings.
use vstd::prelude::*;
use vstd::std_specs::iter::IteratorSpec;
use vstd::string::*;

verus! {

/// Whether `lit` occurs in `s` at character position `at`.
pub open spec fn chars_at(s: Seq<char>, lit: Seq<char>, at: int) -> bool {
    0 <= at && at + lit.len() <= s.len() && s.subrange(at, at + lit.len()) == lit
}

/// Whether `lit` occurs in `s` at character position `at`.
pub fn str_occurs_at(s: &str, lit: &str, at: usize) -> (r: bool)
    ensures
        r == chars_at(s@, lit@, at as int),
{
    let n = s.unicode_len();
    let m = lit.unicode_len();
    if at > n || m > n - at {
        return false;
    }
    let mut j: usize = 0;
    while j < m
        invariant
            n == s@.len(),
            m == lit@.len(),
            at + m <= n,
            j <= m,
            forall|k: int| 0 <= k < j ==> s@[at + k] == lit@[k],
        decreases m - j,
    {
        if s.get_char(at + j) != lit.get_char(j) {
            assert(s@.subrange(at as int, at + m)[j as int] != lit@[j as int]);
            return false;
        }
        j = j + 1;
    }
    assert(s@.subrange(at as int, at + m) =~= lit@);
    true
}

/// Whether `s` contains no line feed at or after position `from`.
pub open spec fn no_line_feed_from(s: Seq<char>, from: int) -> bool {
    forall|j: int| from <= j < s.len() ==> s[j] != '\n'
}

pub fn str_no_line_feed_from(s: &str, from: usize) -> (r: bool)
    ensures
        r == no_line_feed_from(s@, from as int),
{
    let n = s.unicode_len();
    let mut j = from;
    while j < n
        invariant
            n == s@.len(),
            from <= j,
            forall|k: int| from <= k < j && k < n ==> s@[k] != '\n',
        decreases n - j,
    {
        if s.get_char(j) == '\n' {
            return false;
        }
        j = j + 1;
    }
    true
}

/// Whether two strings hold the same characters.
pub fn str_equal(a: &str, b: &str) -> (r: bool)
    ensures
        r == (a@ == b@),
{
    let n = a.unicode_len();
    if n != b.unicode_len() {
        return false;
    }
    let r = str_occurs_at(a, b, 0);
    assert(r ==> a@.subrange(0, n as int) =~= a@);
    proof {
        if a@ == b@ {
            assert(a@.subrange(0, n as int) =~= a@);
        }
    }
    r
}

/// The number of slashes at the start of `s`.
pub open spec fn leading_slashes(s: Seq<char>, n: int) -> bool {
    0 <= n <= s.len() && (forall|j: int| 0 <= j < n ==> s[j] == '/') && (n == s.len() || s[n] != '/')
}

/// `s` without the slashes at its start.
pub open spec fn trim_leading_slashes(s: Seq<char>) -> Seq<char> {
    s.subrange(choose|n: int| leading_slashes(s, n), s.len() as int)
}

/// `s` without the slashes at its start.
pub fn strip_leading_slashes(s: &str) -> (r: String)
    ensures
        r@ == trim_leading_slashes(s@),
{
    let len = s.unicode_len();
    let mut n: usize = 0;
    while n < len && s.get_char(n) == '/'
        invariant
            len == s@.len(),
            n <= len,
            forall|j: int| 0 <= j < n ==> s@[j] == '/',
        decreases len - n,
    {
        n = n + 1;
    }
    proof {
        let c = choose|c: int| leading_slashes(s@, c);
        assert(leading_slashes(s@, n as int));
        if c < n {
            assert(s@[c] == '/');
        } else if c > n {
            assert(s@[n as int] == '/');
        }
    }
    String::from_str(s.substring_char(n, len))
}

/// Whether `c` has the Unicode `White_Space` property, which is what
/// `char::is_whitespace` tests.
pub open spec fn is_white_space(c: char) -> bool {
    let u = c as u32;
    (0x9 <= u <= 0xD) || u == 0x20 || u == 0x85 || u == 0xA0 || u == 0x1680 || (0x2000 <= u
        <= 0x200A) || u == 0x2028 || u == 0x2029 || u == 0x202F || u == 0x205F || u == 0x3000
}

pub fn char_is_white_space(c: char) -> (r: bool)
    ensures
        r == is_white_space(c),
{
    let u = c as u32;
    (0x9 <= u && u <= 0xD) || u == 0x20 || u == 0x85 || u == 0xA0 || u == 0x1680 || (0x2000 <= u
        && u <= 0x200A) || u == 0x2028 || u == 0x2029 || u == 0x202F || u == 0x205F || u == 0x3000
}

/// Whether `s[a..b]` is `s` without the white space at either end.
pub open spec fn trim_bounds(s: Seq<char>, a: int, b: int) -> bool {
    0 <= a <= b <= s.len() && (forall|j: int| 0 <= j < a ==> is_white_space(#[trigger] s[j])) && (
    forall|j: int| b <= j < s.len() ==> is_white_space(#[trigger] s[j])) && (a < b ==> !is_white_space(
        s[a],
    ) && !is_white_space(s[b - 1])) && (a == b ==> a == s.len())
}

/// `s` without the white space at either end, as `str::trim` leaves it.
pub open spec fn trimmed(s: Seq<char>) -> Seq<char> {
    let (a, b) = choose|a: int, b: int| trim_bounds(s, a, b);
    s.subrange(a, b)
}

/// `s` without the white space at either end.
pub fn trim(s: &str) -> (r: &str)
    ensures
        r@ == trimmed(s@),
{
    let n = s.unicode_len();
    let mut a: usize = 0;
    while a < n && char_is_white_space(s.get_char(a))
        invariant
            n == s@.len(),
            a <= n,
            forall|j: int| 0 <= j < a ==> is_white_space(#[trigger] s@[j]),
        decreases n - a,
    {
        a = a + 1;
    }
    let mut b: usize = n;
    while b > a && char_is_white_space(s.get_char(b - 1))
        invariant
            n == s@.len(),
            a <= b <= n,
            forall|j: int| b <= j < n ==> is_white_space(#[trigger] s@[j]),
            a < n ==> !is_white_space(s@[a as int]),
        decreases b - a,
    {
        b = b - 1;
    }
    proof {
        assert(trim_bounds(s@, a as int, b as int));
        let (a2, b2) = choose|a2: int, b2: int| trim_bounds(s@, a2, b2);
        if a2 < a {
            assert(is_white_space(s@[a2]));
        } else if a2 > a {
            if a < n {
                assert(is_white_space(s@[a as int]));
            }
        }
        if b2 < b {
            assert(is_white_space(s@[b - 1]));
        } else if b2 > b {
            assert(is_white_space(s@[b2 - 1]));
        }
    }
    s.substring_char(a, b)
}

/// The pieces of `s` between occurrences of `sep`, as `str::split` yields
/// them: one more piece than there are separators.
pub open spec fn split_on(s: Seq<char>, sep: char) -> Seq<Seq<char>>
    decreases s.len(),
{
    if s.len() == 0 {
        seq![Seq::<char>::empty()]
    } else {
        let prev = split_on(s.drop_last(), sep);
        if s.last() == sep {
            prev.push(Seq::<char>::empty())
        } else {
            prev.update(prev.len() - 1, prev.last().push(s.last()))
        }
    }
}

pub proof fn lemma_split_nonempty(s: Seq<char>, sep: char)
    ensures
        split_on(s, sep).len() >= 1,
    decreases s.len(),
{
    if s.len() > 0 {
        lemma_split_nonempty(s.drop_last(), sep);
    }
}

/// The views of a sequence of strings.
pub open spec fn views(v: Seq<String>) -> Seq<Seq<char>> {
    v.map_values(|x: String| x@)
}

/// Relies on `String::push`, which appends one character.
#[verifier::external_body]
pub(crate) fn push_char(s: &mut String, c: char)
    ensures
        final(s)@ == old(s)@.push(c),
{
    s.push(c);
}

/// The pieces of `s` between occurrences of `sep`.
pub fn split(s: &str, sep: char) -> (r: Vec<String>)
    ensures
        views(r@) == split_on(s@, sep),
{
    broadcast use vstd::string::group_string_axioms;

    let n = s.unicode_len();
    let mut it = s.chars();
    let mut out: Vec<String> = Vec::new();
    let mut cur = String::new();
    let mut i: usize = 0;
    proof {
        assert(s@.skip(0) =~= s@);
        assert(s@.subrange(0, 0) =~= Seq::<char>::empty());
        assert(views(out@).push(cur@) =~= split_on(s@.subrange(0, 0), sep));
    }
    loop
        invariant
            n == s@.len(),
            i <= n,
            it.remaining() == s@.skip(i as int),
            views(out@).push(cur@) == split_on(s@.subrange(0, i as int), sep),
        ensures
            i == n,
            views(out@).push(cur@) == split_on(s@.subrange(0, i as int), sep),
        decreases n - i,
    {
        let c = match it.next() {
            Some(c) => c,
            None => {
                assert(s@.skip(i as int).len() == 0);
                break;
            },
        };
        assert(s@.skip(i as int)[0] == s@[i as int]);
        assert(s@.skip(i as int).drop_first() =~= s@.skip(i + 1));
        let ghost prev = split_on(s@.subrange(0, i as int), sep);
        let ghost next = s@.subrange(0, i + 1);
        proof {
            lemma_split_nonempty(s@.subrange(0, i as int), sep);
            assert(next.drop_last() =~= s@.subrange(0, i as int));
            assert(next.last() == c);
        }
        if c == sep {
            let ghost before = views(out@);
            let piece = cur;
            out.push(piece);
            cur = String::new();
            proof {
                assert(views(out@) =~= before.push(piece@));
                assert(split_on(next, sep) == prev.push(Seq::<char>::empty()));
            }
        } else {
            let ghost old_cur = cur@;
            push_char(&mut cur, c);
            proof {
                assert(split_on(next, sep) == prev.update(prev.len() - 1, prev.last().push(c)));
                assert(prev.update(prev.len() - 1, prev.last().push(c)) =~= views(out@).push(old_cur.push(c)));
            }
        }
        i = i + 1;
    }
    let ghost before = views(out@);
    let last = cur;
    out.push(last);
    proof {
        assert(views(out@) =~= before.push(last@));
        assert(s@.subrange(0, i as int) =~= s@);
    }
    out
}

} // verus!
