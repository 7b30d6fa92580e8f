//! Character-level text utilities with their mathematical models: line
//! splitting, prefix and substring search, removal of a pattern, splitting at
//! a separator and whitespace trimming, as the standard string methods do them.
use vstd::prelude::*;

verus! {

/// `p` is a prefix of `s`.
pub open spec fn is_prefix(p: Seq<char>, s: Seq<char>) -> bool {
    p.len() <= s.len() && s.subrange(0, p.len() as int) == p
}

/// `p` occurs in `s` starting at index `i`.
pub open spec fn occurs_at(s: Seq<char>, p: Seq<char>, i: int) -> bool {
    0 <= i && i + p.len() <= s.len() && s.subrange(i, i + p.len()) == p
}

/// `p` occurs somewhere in `s`.
pub open spec fn contains(s: Seq<char>, p: Seq<char>) -> bool {
    exists|i: int| occurs_at(s, p, i)
}

/// Index of the first occurrence of `p` in `s`, or -1 when there is none.
pub open spec fn find(s: Seq<char>, p: Seq<char>) -> int
    decreases s.len(),
{
    if s.len() < p.len() {
        -1
    } else if is_prefix(p, s) {
        0
    } else if s.len() == 0 {
        -1
    } else {
        let r = find(s.drop_first(), p);
        if r < 0 {
            -1
        } else {
            r + 1
        }
    }
}

/// The pieces of `s` between the occurrences of the non-empty separator
/// `sep`, scanning from the left (what `str::split` yields).
pub open spec fn split(s: Seq<char>, sep: Seq<char>) -> Seq<Seq<char>>
    decreases s.len(),
{
    let k = find(s, sep);
    if sep.len() == 0 || k < 0 {
        seq![s]
    } else {
        proof {
            lemma_find_bounds(s, sep);
        }
        seq![s.take(k)] + split(s.skip(k + sep.len()), sep)
    }
}

/// `s` with every non-overlapping occurrence of the non-empty pattern `p`
/// removed, scanning from the left (what `str::replace(p, "")` yields).
pub open spec fn remove_all(s: Seq<char>, p: Seq<char>) -> Seq<char>
    decreases s.len(),
{
    if p.len() == 0 || s.len() == 0 {
        s
    } else if is_prefix(p, s) {
        remove_all(s.skip(p.len() as int), p)
    } else {
        seq![s[0]] + remove_all(s.drop_first(), p)
    }
}

/// Index of the first line feed in `s`, or its length when there is none.
pub open spec fn first_newline(s: Seq<char>) -> nat
    decreases s.len(),
{
    if s.len() == 0 {
        0
    } else if s[0] == '\n' {
        0
    } else {
        1 + first_newline(s.drop_first())
    }
}

/// A line without the carriage return that preceded its line feed.
pub open spec fn strip_cr(l: Seq<char>) -> Seq<char> {
    if l.len() > 0 && l.last() == '\r' {
        l.drop_last()
    } else {
        l
    }
}

/// The lines of `s` as `str::lines` yields them: split at line feeds, a
/// carriage return before a line feed dropped, and no empty last line for a
/// text that ends with a line feed.
pub open spec fn lines(s: Seq<char>) -> Seq<Seq<char>>
    decreases s.len(),
{
    if s.len() == 0 {
        seq![]
    } else {
        let k = first_newline(s);
        if k < s.len() {
            seq![strip_cr(s.take(k as int))] + lines(s.skip(k as int + 1))
        } else {
            seq![s]
        }
    }
}

/// Unicode White_Space, the set that `char::is_whitespace` tests.
pub open spec fn is_whitespace(c: char) -> bool {
    let u = c as u32;
    ||| 0x9 <= u <= 0xd
    ||| u == 0x20
    ||| u == 0x85
    ||| u == 0xa0
    ||| u == 0x1680
    ||| 0x2000 <= u <= 0x200a
    ||| u == 0x2028
    ||| u == 0x2029
    ||| u == 0x202f
    ||| u == 0x205f
    ||| u == 0x3000
}

/// `s` without its leading whitespace.
pub open spec fn trim_start(s: Seq<char>) -> Seq<char>
    decreases s.len(),
{
    if s.len() > 0 && is_whitespace(s[0]) {
        trim_start(s.drop_first())
    } else {
        s
    }
}

/// `s` without its trailing whitespace.
pub open spec fn trim_end(s: Seq<char>) -> Seq<char>
    decreases s.len(),
{
    if s.len() > 0 && is_whitespace(s.last()) {
        trim_end(s.drop_last())
    } else {
        s
    }
}

/// `s` without leading and trailing whitespace (what `str::trim` yields).
pub open spec fn trim(s: Seq<char>) -> Seq<char> {
    trim_end(trim_start(s))
}

pub proof fn lemma_find_bounds(s: Seq<char>, p: Seq<char>)
    ensures
        -1 <= find(s, p),
        find(s, p) >= 0 ==> find(s, p) <= s.len() - p.len(),
        find(s, p) >= 0 ==> occurs_at(s, p, find(s, p)),
    decreases s.len(),
{
    if s.len() < p.len() {
    } else if is_prefix(p, s) {
    } else if s.len() == 0 {
    } else {
        lemma_find_bounds(s.drop_first(), p);
        let r = find(s.drop_first(), p);
        if r >= 0 {
            assert(s.subrange(r + 1, r + 1 + p.len()) =~= s.drop_first().subrange(r, r + p.len()));
        }
    }
}

/// `find` is the least index at which the pattern occurs.
pub proof fn lemma_find_is_first(s: Seq<char>, p: Seq<char>, j: int)
    requires
        occurs_at(s, p, j),
        forall|k: int| 0 <= k < j ==> !occurs_at(s, p, k),
    ensures
        find(s, p) == j,
    decreases s.len(),
{
    if j == 0 {
        assert(is_prefix(p, s));
    } else {
        assert(!occurs_at(s, p, 0));
        assert(!is_prefix(p, s));
        let t = s.drop_first();
        assert(t.subrange(j - 1, j - 1 + p.len()) =~= s.subrange(j, j + p.len()));
        assert forall|k: int| 0 <= k < j - 1 implies !occurs_at(t, p, k) by {
            assert(t.subrange(k, k + p.len()) =~= s.subrange(k + 1, k + 1 + p.len()));
            assert(!occurs_at(s, p, k + 1));
        }
        lemma_find_is_first(t, p, j - 1);
    }
}

/// Without an occurrence, `find` gives -1.
pub proof fn lemma_find_none(s: Seq<char>, p: Seq<char>)
    requires
        forall|k: int| !occurs_at(s, p, k),
    ensures
        find(s, p) == -1,
    decreases s.len(),
{
    if s.len() < p.len() {
    } else if s.len() == 0 {
        assert(!occurs_at(s, p, 0));
    } else {
        assert(!occurs_at(s, p, 0));
        assert(!is_prefix(p, s));
        let t = s.drop_first();
        assert forall|k: int| !occurs_at(t, p, k) by {
            if 0 <= k && k + p.len() <= t.len() {
                assert(t.subrange(k, k + p.len()) =~= s.subrange(k + 1, k + 1 + p.len()));
                assert(!occurs_at(s, p, k + 1));
            }
        }
        lemma_find_none(t, p);
    }
}

/// Occurrences in a suffix are occurrences in the whole, shifted.
pub proof fn lemma_occurs_skip(s: Seq<char>, p: Seq<char>, a: int, k: int)
    requires
        0 <= a <= s.len(),
    ensures
        occurs_at(s.skip(a), p, k) <==> (k >= 0 && occurs_at(s, p, a + k)),
{
    if 0 <= k && k + p.len() <= s.len() - a {
        assert(s.skip(a).subrange(k, k + p.len()) =~= s.subrange(a + k, a + k + p.len()));
    }
}

pub proof fn lemma_first_newline(t: Seq<char>, j: int)
    requires
        0 <= j <= t.len(),
        forall|k: int| 0 <= k < j ==> t[k] != '\n',
        j < t.len() ==> t[j] == '\n',
    ensures
        first_newline(t) == j,
    decreases j,
{
    if j > 0 {
        lemma_first_newline(t.drop_first(), j - 1);
    }
}

/// The characters of a string, as a vector.
pub fn chars_of(s: &str) -> (v: Vec<char>)
    ensures
        v@ == s@,
{
    let n = s.unicode_len();
    let mut v: Vec<char> = Vec::new();
    let mut i: usize = 0;
    while i < n
        invariant
            n == s@.len(),
            i <= n,
            v@ == s@.subrange(0, i as int),
        decreases n - i,
    {
        v.push(s.get_char(i));
        i = i + 1;
    }
    v
}

/// Whether `p` occurs in `s` at index `i`.
pub fn occurs_at_exec(s: &Vec<char>, p: &Vec<char>, i: usize) -> (b: bool)
    ensures
        b == occurs_at(s@, p@, i as int),
{
    if i > s.len() || p.len() > s.len() - i {
        return false;
    }
    let mut k: usize = 0;
    while k < p.len()
        invariant
            i + p.len() <= s.len(),
            k <= p.len(),
            forall|j: int| 0 <= j < k ==> s@[i + j] == p@[j],
        decreases p.len() - k,
    {
        if s[i + k] != p[k] {
            assert(s@.subrange(i as int, i + p.len())[k as int] != p@[k as int]);
            return false;
        }
        k = k + 1;
    }
    assert(s@.subrange(i as int, i + p.len()) =~= p@);
    true
}

/// Whether `p` is a prefix of `s`.
pub fn starts_with(s: &Vec<char>, p: &Vec<char>) -> (b: bool)
    ensures
        b == is_prefix(p@, s@),
{
    occurs_at_exec(s, p, 0)
}

/// Whether `p` occurs in `s`.
pub fn contains_exec(s: &Vec<char>, p: &Vec<char>) -> (b: bool)
    ensures
        b == contains(s@, p@),
{
    if p.len() == 0 {
        assert(s@.subrange(0, 0) =~= p@);
        assert(occurs_at(s@, p@, 0));
        return true;
    }
    if p.len() > s.len() {
        return false;
    }
    let last = s.len() - p.len();
    let mut i: usize = 0;
    while i <= last
        invariant
            last == s.len() - p.len(),
            p.len() > 0,
            forall|k: int| 0 <= k < i ==> !occurs_at(s@, p@, k),
        decreases last + 1 - i,
    {
        if occurs_at_exec(s, p, i) {
            return true;
        }
        i = i + 1;
    }
    assert forall|k: int| !occurs_at(s@, p@, k) by {
        if k >= i {
            assert(!(0 <= k && k + p@.len() <= s@.len()));
        }
    }
    false
}

/// The subrange `s[a..b]` as a vector.
pub fn slice_chars(s: &Vec<char>, a: usize, b: usize) -> (v: Vec<char>)
    requires
        a <= b <= s.len(),
    ensures
        v@ == s@.subrange(a as int, b as int),
{
    let mut v: Vec<char> = Vec::new();
    let mut i = a;
    while i < b
        invariant
            a <= i <= b <= s.len(),
            v@ == s@.subrange(a as int, i as int),
        decreases b - i,
    {
        v.push(s[i]);
        i = i + 1;
    }
    v
}

/// `s` with every occurrence of `p` removed.
pub fn remove_all_exec(s: &Vec<char>, p: &Vec<char>) -> (r: Vec<char>)
    ensures
        r@ == remove_all(s@, p@),
{
    let mut r: Vec<char> = Vec::new();
    if p.len() == 0 {
        return slice_chars(s, 0, s.len());
    }
    let mut i: usize = 0;
    assert(s@.skip(0) =~= s@);
    while i < s.len()
        invariant
            p@.len() > 0,
            i <= s.len(),
            r@ + remove_all(s@.skip(i as int), p@) == remove_all(s@, p@),
        decreases s.len() - i,
    {
        let t = Ghost(s@.skip(i as int));
        if occurs_at_exec(s, p, i) {
            assert(t@.subrange(0, p@.len() as int) =~= s@.subrange(i as int, i + p@.len()));
            assert(is_prefix(p@, t@));
            assert(t@.skip(p@.len() as int) =~= s@.skip(i + p@.len()));
            i = i + p.len();
        } else {
            assert(!is_prefix(p@, t@)) by {
                if is_prefix(p@, t@) {
                    assert(t@.subrange(0, p@.len() as int) =~= s@.subrange(i as int, i + p@.len()));
                }
            }
            assert(t@.drop_first() =~= s@.skip(i + 1));
            let ghost before = r@;
            r.push(s[i]);
            assert(r@ =~= before + seq![t@[0]]);
            assert(r@ + remove_all(s@.skip(i + 1), p@) =~= before + (seq![t@[0]] + remove_all(t@.drop_first(), p@)));
            i = i + 1;
        }
    }
    assert(s@.skip(i as int) =~= Seq::<char>::empty());
    assert(r@ + Seq::<char>::empty() =~= r@);
    r
}

/// The string made of the given characters, in order.
/// Trusted: std's `FromIterator<char>` for `String` appends each character, so
/// the string's characters are those of the slice.
#[verifier::external_body]
pub(crate) fn string_from_chars(chars: &[char]) -> (s: String)
    ensures
        s@ == chars@,
{
    chars.iter().collect()
}

/// `s` without leading and trailing whitespace.
pub fn trim_string(s: &str) -> (r: String)
    ensures
        r@ == trim(s@),
{
    let t = trim_exec(&chars_of(s));
    string_from_chars(t.as_slice())
}

/// The views of a sequence of strings.
pub open spec fn string_views(v: Seq<String>) -> Seq<Seq<char>> {
    v.map_values(|x: String| x@)
}

/// A string owned from a literal.
pub fn owned(s: &str) -> (r: String)
    ensures
        r@ == s@,
{
    s.to_owned()
}

/// If `p` occurs in `s`, the first occurrence is found, no later than any
/// given one.
pub proof fn lemma_find_some(s: Seq<char>, p: Seq<char>, j: int)
    requires
        occurs_at(s, p, j),
    ensures
        0 <= find(s, p) <= j,
    decreases j,
{
    if j == 0 {
        assert(s.subrange(0, p.len() as int) == p);
    } else if is_prefix(p, s) {
    } else {
        let t = s.drop_first();
        assert(t.subrange(j - 1, j - 1 + p.len()) =~= s.subrange(j, j + p.len()));
        lemma_find_some(t, p, j - 1);
    }
}

/// A string that holds the separator splits into at least two pieces.
pub proof fn lemma_split_two(s: Seq<char>, sep: Seq<char>)
    requires
        sep.len() > 0,
        contains(s, sep),
    ensures
        split(s, sep).len() >= 2,
        split(s, sep)[0] == s.take(find(s, sep)),
{
    let j = choose|j: int| occurs_at(s, sep, j);
    lemma_find_some(s, sep, j);
    lemma_find_bounds(s, sep);
    let k = find(s, sep);
    assert(split(s, sep) == seq![s.take(k)] + split(s.skip(k + sep.len()), sep));
    lemma_split_nonempty(s.skip(k + sep.len()), sep);
}

/// Splitting yields at least one piece.
pub proof fn lemma_split_nonempty(s: Seq<char>, sep: Seq<char>)
    ensures
        split(s, sep).len() >= 1,
    decreases s.len(),
{
    let k = find(s, sep);
    if sep.len() == 0 || k < 0 {
    } else {
        lemma_find_bounds(s, sep);
        lemma_split_nonempty(s.skip(k + sep.len()), sep);
    }
}

/// The views of a sequence of character vectors.
pub open spec fn views(v: Seq<Vec<char>>) -> Seq<Seq<char>> {
    v.map_values(|x: Vec<char>| x@)
}

proof fn lemma_views_push(v: Seq<Vec<char>>, x: Vec<char>)
    ensures
        views(v.push(x)) == views(v).push(x@),
{
    assert(views(v.push(x)) =~= views(v).push(x@));
}

/// A line without the carriage return that ends it.
pub fn strip_cr_exec(l: Vec<char>) -> (r: Vec<char>)
    ensures
        r@ == strip_cr(l@),
{
    let mut l = l;
    if l.len() > 0 && l[l.len() - 1] == '\r' {
        l.pop();
    }
    l
}

/// The lines of `s`, as `str::lines` yields them.
pub fn lines_exec(s: &Vec<char>) -> (r: Vec<Vec<char>>)
    ensures
        views(r@) == lines(s@),
{
    let mut r: Vec<Vec<char>> = Vec::new();
    let mut start: usize = 0;
    let mut i: usize = 0;
    assert(s@.skip(0) =~= s@);
    assert(views(r@) =~= Seq::<Seq<char>>::empty());
    while i < s.len()
        invariant
            start <= i <= s.len(),
            forall|k: int| start <= k < i ==> s@[k] != '\n',
            views(r@) + lines(s@.skip(start as int)) == lines(s@),
        decreases s.len() - i,
    {
        if s[i] == '\n' {
            let ghost t = s@.skip(start as int);
            proof {
                lemma_first_newline(t, i - start);
                assert(t.take(i - start) =~= s@.subrange(start as int, i as int));
                assert(t.skip(i - start + 1) =~= s@.skip(i + 1));
            }
            let line = strip_cr_exec(slice_chars(s, start, i));
            let ghost before = r@;
            r.push(line);
            proof {
                lemma_views_push(before, line);
                assert(views(r@) + lines(s@.skip(i + 1)) =~= views(before) + lines(t));
            }
            start = i + 1;
        }
        i = i + 1;
    }
    let ghost t = s@.skip(start as int);
    if start < s.len() {
        proof {
            lemma_first_newline(t, t.len() as int);
            assert(t =~= s@.subrange(start as int, s.len() as int));
        }
        let rest = slice_chars(s, start, s.len());
        let ghost before = r@;
        r.push(rest);
        proof {
            lemma_views_push(before, rest);
            assert(lines(t) =~= seq![t]);
        }
    } else {
        assert(t.len() == 0);
        assert(views(r@) + lines(t) =~= views(r@));
    }
    r
}

/// The pieces of `s` between the occurrences of the non-empty `sep`.
pub fn split_exec(s: &Vec<char>, sep: &Vec<char>) -> (r: Vec<Vec<char>>)
    requires
        sep.len() > 0,
    ensures
        views(r@) == split(s@, sep@),
{
    let mut r: Vec<Vec<char>> = Vec::new();
    let mut start: usize = 0;
    let mut i: usize = 0;
    assert(s@.skip(0) =~= s@);
    assert(views(r@) =~= Seq::<Seq<char>>::empty());
    while i < s.len()
        invariant
            sep@.len() > 0,
            start <= i <= s.len(),
            forall|k: int| start <= k < i ==> !occurs_at(s@, sep@, k),
            views(r@) + split(s@.skip(start as int), sep@) == split(s@, sep@),
        decreases s.len() - i,
    {
        if occurs_at_exec(s, sep, i) {
            let ghost t = s@.skip(start as int);
            proof {
                lemma_occurs_skip(s@, sep@, start as int, i - start);
                assert forall|k: int| 0 <= k < i - start implies !occurs_at(t, sep@, k) by {
                    lemma_occurs_skip(s@, sep@, start as int, k);
                }
                lemma_find_is_first(t, sep@, i - start);
                assert(t.take(i - start) =~= s@.subrange(start as int, i as int));
                assert(t.skip(i - start + sep@.len()) =~= s@.skip(i + sep@.len()));
            }
            let piece = slice_chars(s, start, i);
            let ghost before = r@;
            r.push(piece);
            proof {
                lemma_views_push(before, piece);
                assert(views(r@) + split(s@.skip(i + sep@.len()), sep@) =~= views(before) + split(t, sep@));
            }
            i = i + sep.len();
            start = i;
        } else {
            i = i + 1;
        }
    }
    let ghost t = s@.skip(start as int);
    proof {
        assert forall|k: int| !occurs_at(t, sep@, k) by {
            lemma_occurs_skip(s@, sep@, start as int, k);
            if k >= 0 && start + k >= i {
                assert(!(start + k + sep@.len() <= s@.len()));
            }
        }
        lemma_find_none(t, sep@);
        assert(t =~= s@.subrange(start as int, s.len() as int));
        assert(split(t, sep@) =~= seq![t]);
    }
    let rest = slice_chars(s, start, s.len());
    let ghost before = r@;
    r.push(rest);
    proof {
        lemma_views_push(before, rest);
    }
    r
}

/// Whether `c` is Unicode whitespace.
pub fn is_whitespace_exec(c: char) -> (b: bool)
    ensures
        b == is_whitespace(c),
{
    let u = c as u32;
    (0x9 <= u && u <= 0xd) || u == 0x20 || u == 0x85 || u == 0xa0 || u == 0x1680 || (0x2000 <= u
        && u <= 0x200a) || u == 0x2028 || u == 0x2029 || u == 0x202f || u == 0x205f || u == 0x3000
}

proof fn lemma_trim_start(s: Seq<char>, a: int)
    requires
        0 <= a <= s.len(),
        forall|k: int| 0 <= k < a ==> is_whitespace(s[k]),
        a < s.len() ==> !is_whitespace(s[a]),
    ensures
        trim_start(s) == s.skip(a),
    decreases a,
{
    if a == 0 {
        assert(s.skip(0) =~= s);
    } else {
        lemma_trim_start(s.drop_first(), a - 1);
        assert(s.drop_first().skip(a - 1) =~= s.skip(a));
    }
}

proof fn lemma_trim_end(s: Seq<char>, b: int)
    requires
        0 <= b <= s.len(),
        forall|k: int| b <= k < s.len() ==> is_whitespace(s[k]),
        b > 0 ==> !is_whitespace(s[b - 1]),
    ensures
        trim_end(s) == s.take(b),
    decreases s.len() - b,
{
    if b == s.len() {
        assert(s.take(b) =~= s);
    } else {
        lemma_trim_end(s.drop_last(), b);
        assert(s.drop_last().take(b) =~= s.take(b));
    }
}

/// `s` without leading and trailing whitespace.
pub fn trim_exec(s: &Vec<char>) -> (r: Vec<char>)
    ensures
        r@ == trim(s@),
{
    let mut a: usize = 0;
    while a < s.len() && is_whitespace_exec(s[a])
        invariant
            a <= s.len(),
            forall|k: int| 0 <= k < a ==> is_whitespace(s@[k]),
        decreases s.len() - a,
    {
        a = a + 1;
    }
    let mut b: usize = s.len();
    while b > a && is_whitespace_exec(s[b - 1])
        invariant
            a <= b <= s.len(),
            forall|k: int| b <= k < s.len() ==> is_whitespace(s@[k]),
        decreases b,
    {
        b = b - 1;
    }
    proof {
        lemma_trim_start(s@, a as int);
        let u = s@.skip(a as int);
        assert forall|k: int| b - a <= k < u.len() implies is_whitespace(u[k]) by {
            assert(u[k] == s@[a + k]);
        }
        if b > a {
            assert(u[b - a - 1] == s@[b - 1]);
        }
        lemma_trim_end(u, b - a);
        assert(u.take(b - a) =~= s@.subrange(a as int, b as int));
    }
    slice_chars(s, a, b)
}

} // verus!
