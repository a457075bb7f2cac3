//! Text as sequences of characters: trimming, searching, splitting and replacing.
//!
//! Every operation has a specification over `Seq<char>` and an executable
//! function that is proved to compute it.

use vstd::prelude::*;

verus! {

/// `String::push` appends one character at the end.
pub assume_specification[ String::push ](s: &mut String, c: char)
    ensures
        final(s)@ == old(s)@.push(c),
;

/// Whether `c` has the Unicode property `White_Space`.
pub open spec fn is_space(c: char) -> bool {
    let n = c as u32;
    ||| 0x9 <= n <= 0xd
    ||| n == 0x20
    ||| n == 0x85
    ||| n == 0xa0
    ||| n == 0x1680
    ||| 0x2000 <= n <= 0x200a
    ||| n == 0x2028
    ||| n == 0x2029
    ||| n == 0x202f
    ||| n == 0x205f
    ||| n == 0x3000
}

/// `s` without its leading whitespace.
pub open spec fn trim_start(s: Seq<char>) -> Seq<char>
    decreases s.len(),
{
    if s.len() > 0 && is_space(s[0]) {
        trim_start(s.drop_first())
    } else {
        s
    }
}

/// `s` without its trailing whitespace.
pub open spec fn trim_end(s: Seq<char>) -> Seq<char>
    decreases s.len(),
{
    if s.len() > 0 && is_space(s.last()) {
        trim_end(s.drop_last())
    } else {
        s
    }
}

/// `s` without leading and trailing whitespace.
pub open spec fn trim(s: Seq<char>) -> Seq<char> {
    trim_end(trim_start(s))
}

/// `s` without the run of `c` that it starts with.
pub open spec fn trim_start_char(s: Seq<char>, c: char) -> Seq<char>
    decreases s.len(),
{
    if s.len() > 0 && s[0] == c {
        trim_start_char(s.drop_first(), c)
    } else {
        s
    }
}

/// `s` without the run of `c` that it ends with.
pub open spec fn trim_end_char(s: Seq<char>, c: char) -> Seq<char>
    decreases s.len(),
{
    if s.len() > 0 && s.last() == c {
        trim_end_char(s.drop_last(), c)
    } else {
        s
    }
}

/// `s` with every `from` replaced by `to`.
pub open spec fn replace_char(s: Seq<char>, from: char, to: char) -> Seq<char> {
    Seq::new(
        s.len(),
        |i: int|
            if s[i] == from {
                to
            } else {
                s[i]
            },
    )
}

/// The index of the first `c` in `s`, or the length of `s` where there is none.
pub open spec fn position(s: Seq<char>, c: char) -> int
    decreases s.len(),
{
    if s.len() == 0 || s[0] == c {
        0
    } else {
        1 + position(s.drop_first(), c)
    }
}

/// The part of `s` before the first `c`: all of `s` where there is none.
pub open spec fn before_char(s: Seq<char>, c: char) -> Seq<char> {
    s.take(position(s, c))
}

/// The parts of `s` before and after the first `c`, where there is one.
pub open spec fn split_once(s: Seq<char>, c: char) -> Option<(Seq<char>, Seq<char>)> {
    let p = position(s, c);
    if p < s.len() {
        Some((s.take(p), s.skip(p + 1)))
    } else {
        None
    }
}

/// Whether `s` starts with `prefix`.
pub open spec fn starts_with(s: Seq<char>, prefix: Seq<char>) -> bool {
    prefix.len() <= s.len() && s.take(prefix.len() as int) == prefix
}

/// Whether `pattern` stands at index `i` of `s`.
pub open spec fn occurs_at(s: Seq<char>, pattern: Seq<char>, i: int) -> bool {
    0 <= i && i + pattern.len() <= s.len() && s.subrange(i, i + pattern.len()) == pattern
}

/// Whether `pattern` stands anywhere in `s`.
pub open spec fn contains_text(s: Seq<char>, pattern: Seq<char>) -> bool {
    exists|i: int| occurs_at(s, pattern, i)
}

/// The index of the first place at which `pattern` stands in `s`.
pub open spec fn find_text(s: Seq<char>, pattern: Seq<char>) -> Option<int>
    decreases s.len(),
{
    if starts_with(s, pattern) {
        Some(0)
    } else if s.len() == 0 {
        None
    } else {
        match find_text(s.drop_first(), pattern) {
            Some(i) => Some(i + 1),
            None => None,
        }
    }
}

/// A line without the carriage return that it may end with.
pub open spec fn strip_carriage_return(s: Seq<char>) -> Seq<char> {
    if s.len() > 0 && s.last() == '\r' {
        s.drop_last()
    } else {
        s
    }
}

/// The lines of `s`. A line ends with `"\n"` or `"\r\n"`; what follows the last
/// line end is a line too, unless it is empty.
pub open spec fn lines(s: Seq<char>) -> Seq<Seq<char>>
    decreases s.len(),
{
    if s.len() == 0 {
        Seq::empty()
    } else {
        let p = position(s, '\n');
        if 0 <= p < s.len() {
            seq![strip_carriage_return(s.take(p))] + lines(s.skip(p + 1))
        } else {
            seq![s]
        }
    }
}

/// Whether `n` characters `c` stand in a row in `s`, starting at `i`.
pub open spec fn run_at(s: Seq<char>, c: char, i: int, n: int) -> bool {
    &&& 0 <= i <= i + n <= s.len()
    &&& forall|j: int| i <= j < i + n ==> #[trigger] s[j] == c
}

/// Whether `n` characters `c` stand in a row somewhere in `s`.
pub open spec fn has_run(s: Seq<char>, c: char, n: int) -> bool {
    exists|i: int| #[trigger] run_at(s, c, i, n)
}

/// Whether `a` comes before `b` in the order of texts, by the first character in
/// which they differ.
pub open spec fn sorts_before(a: Seq<char>, b: Seq<char>) -> bool
    decreases a.len(),
{
    if b.len() == 0 {
        false
    } else if a.len() == 0 {
        true
    } else if a[0] == b[0] {
        sorts_before(a.drop_first(), b.drop_first())
    } else {
        a[0] < b[0]
    }
}

/// The texts of a list of strings.
pub open spec fn texts(v: Seq<String>) -> Seq<Seq<char>> {
    v.map_values(|s: String| s@)
}

/// The texts of a list of pairs of strings.
pub open spec fn text_pairs(v: Seq<(String, String)>) -> Seq<(Seq<char>, Seq<char>)> {
    v.map_values(|p: (String, String)| (p.0@, p.1@))
}

/// The text of an optional string.
pub open spec fn text_option(v: Option<String>) -> Option<Seq<char>> {
    match v {
        Some(s) => Some(s@),
        None => None,
    }
}

/// `position` is the only index with its property.
pub proof fn lemma_position(s: Seq<char>, c: char, i: int)
    requires
        0 <= i <= s.len(),
        forall|j: int| 0 <= j < i ==> s[j] != c,
        i < s.len() ==> s[i] == c,
    ensures
        position(s, c) == i,
    decreases s.len(),
{
    if s.len() > 0 && s[0] != c {
        lemma_position(s.drop_first(), c, i - 1);
    }
}

/// Before `position` no character is `c`, and at it there is one.
pub proof fn lemma_position_bounds(s: Seq<char>, c: char)
    ensures
        0 <= position(s, c) <= s.len(),
        forall|j: int| 0 <= j < position(s, c) ==> s[j] != c,
        position(s, c) < s.len() ==> s[position(s, c)] == c,
    decreases s.len(),
{
    if s.len() > 0 && s[0] != c {
        let t = s.drop_first();
        lemma_position_bounds(t, c);
        assert forall|j: int| 0 <= j < position(s, c) implies s[j] != c by {
            if j > 0 {
                assert(t[j - 1] == s[j]);
            }
        }
    }
}

/// `find_text` is the first place at which the pattern stands.
pub proof fn lemma_find_text(s: Seq<char>, pattern: Seq<char>)
    ensures
        match find_text(s, pattern) {
            Some(i) => occurs_at(s, pattern, i) && (forall|j: int|
                0 <= j < i ==> !occurs_at(s, pattern, j)),
            None => forall|j: int| !occurs_at(s, pattern, j),
        },
    decreases s.len(),
{
    if pattern.len() <= s.len() {
        assert(s.subrange(0, pattern.len() as int) == s.take(pattern.len() as int));
    }
    if !starts_with(s, pattern) && s.len() > 0 {
        let t = s.drop_first();
        lemma_find_text(t, pattern);
        assert forall|j: int| j >= 1 implies occurs_at(s, pattern, j) == occurs_at(
            t,
            pattern,
            j - 1,
        ) by {
            if j + pattern.len() <= s.len() {
                assert(s.subrange(j, j + pattern.len()) == t.subrange(
                    j - 1,
                    j - 1 + pattern.len(),
                ));
            }
        }
    }
}

/// A pattern of two different characters is found where it stands behind a text
/// without it.
pub proof fn lemma_first_text(before: Seq<char>, pattern: Seq<char>, tail: Seq<char>)
    requires
        pattern.len() == 2,
        pattern[0] != pattern[1],
        !contains_text(before, pattern),
    ensures
        find_text(before + pattern + tail, pattern) == Some(before.len() as int),
    decreases before.len(),
{
    let s = before + pattern + tail;
    if before.len() == 0 {
        assert(s.take(2) == pattern);
    } else {
        let shorter = before.drop_first();
        assert(!contains_text(shorter, pattern)) by {
            if contains_text(shorter, pattern) {
                let i = choose|i: int| occurs_at(shorter, pattern, i);
                assert(before.subrange(i + 1, i + 3) == shorter.subrange(i, i + 2));
                assert(occurs_at(before, pattern, i + 1));
            }
        }
        assert(!starts_with(s, pattern)) by {
            if starts_with(s, pattern) {
                assert(s.take(2)[1] == s[1]);
                if before.len() > 1 {
                    assert(before.subrange(0, 2) == s.take(2));
                    assert(occurs_at(before, pattern, 0));
                } else {
                    assert(s[1] == pattern[0]);
                }
            }
        }
        assert(s.drop_first() == shorter + pattern + tail);
        lemma_first_text(shorter, pattern, tail);
    }
}

/// What `trim_start_char` leaves does not start with `c`.
pub proof fn lemma_trim_start_char(s: Seq<char>, c: char)
    ensures
        trim_start_char(s, c).len() <= s.len(),
        trim_start_char(s, c).len() > 0 ==> trim_start_char(s, c)[0] != c,
        trim_start_char(s, c) == s.skip(s.len() - trim_start_char(s, c).len()),
        forall|j: int| 0 <= j < s.len() - trim_start_char(s, c).len() ==> s[j] == c,
    decreases s.len(),
{
    if s.len() > 0 && s[0] == c {
        let t = s.drop_first();
        lemma_trim_start_char(t, c);
        assert(trim_start_char(s, c) == s.skip(s.len() - trim_start_char(s, c).len()));
        assert forall|j: int| 0 <= j < s.len() - trim_start_char(s, c).len() implies s[j] == c by {
            if j > 0 {
                assert(t[j - 1] == s[j]);
            }
        }
    } else {
        assert(s.skip(0) == s);
    }
}

/// The characters of `s`, in order.
pub fn chars_of(s: &str) -> (r: Vec<char>)
    ensures
        r@ == s@,
{
    let mut out: Vec<char> = Vec::new();
    for c in it: s.chars()
        invariant
            out@ == it.seq().take(it.index()),
            it.seq() == s@,
    {
        out.push(c);
    }
    out
}

/// The characters of `chars` from `from` up to `to`, as a string.
pub fn string_of(chars: &Vec<char>, from: usize, to: usize) -> (r: String)
    requires
        from <= to <= chars@.len(),
    ensures
        r@ == chars@.subrange(from as int, to as int),
{
    let mut out = String::new();
    let mut i = from;
    while i < to
        invariant
            from <= i <= to <= chars@.len(),
            out@ == chars@.subrange(from as int, i as int),
        decreases to - i,
    {
        out.push(chars[i]);
        i = i + 1;
        assert(chars@.subrange(from as int, i as int) == chars@.subrange(
            from as int,
            i - 1,
        ).push(chars@[i - 1]));
    }
    out
}

/// Whether two texts are equal.
pub fn same_text(a: &str, b: &str) -> (r: bool)
    ensures
        r == (a@ == b@),
{
    let x = chars_of(a);
    let y = chars_of(b);
    if x.len() != y.len() {
        return false;
    }
    let mut i: usize = 0;
    while i < x.len()
        invariant
            i <= x@.len(),
            x@.len() == y@.len(),
            x@ == a@,
            y@ == b@,
            forall|j: int| 0 <= j < i ==> x@[j] == y@[j],
        decreases x@.len() - i,
    {
        if x[i] != y[i] {
            assert(x@[i as int] != y@[i as int]);
            return false;
        }
        i = i + 1;
    }
    assert(x@ == y@);
    true
}

/// Whether `n` characters `c` stand in a row somewhere in `s`.
pub fn contains_run(s: &str, c: char, n: usize) -> (r: bool)
    requires
        n > 0,
    ensures
        r == has_run(s@, c, n as int),
{
    let chars = chars_of(s);
    let mut run: usize = 0;
    let mut i: usize = 0;
    while i < chars.len()
        invariant
            chars@ == s@,
            run <= i <= chars@.len(),
            run < n,
            run_at(s@, c, i - run, run as int),
            run < i ==> s@[i - run - 1] != c,
            forall|k: int| 0 <= k && k + n <= i ==> !#[trigger] run_at(s@, c, k, n as int),
        decreases chars@.len() - i,
    {
        if chars[i] == c {
            run = run + 1;
            i = i + 1;
            if run == n {
                assert(run_at(s@, c, i - run, n as int));
                return true;
            }
            assert forall|k: int| 0 <= k && k + n <= i implies !#[trigger] run_at(
                s@,
                c,
                k,
                n as int,
            ) by {
                if k + n == i {
                    assert(s@[i - run - 1] != c);
                }
            }
        } else {
            assert(s@[i as int] != c);
            run = 0;
            i = i + 1;
        }
    }
    assert forall|k: int| !#[trigger] run_at(s@, c, k, n as int) by {
        if 0 <= k && k + n <= i {
            assert(!run_at(s@, c, k, n as int));
        }
    }
    false
}

/// The two texts, one after the other.
pub fn join2(a: &str, b: &str) -> (r: String)
    ensures
        r@ == a@ + b@,
{
    let mut out = a.to_string();
    out.append(b);
    out
}

/// The three texts, one after the other.
pub fn join3(a: &str, b: &str, c: &str) -> (r: String)
    ensures
        r@ == a@ + b@ + c@,
{
    let mut out = join2(a, b);
    out.append(c);
    out
}

/// The four texts, one after the other.
pub fn join4(a: &str, b: &str, c: &str, d: &str) -> (r: String)
    ensures
        r@ == a@ + b@ + c@ + d@,
{
    let mut out = join3(a, b, c);
    out.append(d);
    out
}

/// Whether `c` is whitespace.
pub fn is_space_char(c: char) -> (r: bool)
    ensures
        r == is_space(c),
{
    let n = c as u32;
    (0x9 <= n && n <= 0xd) || n == 0x20 || n == 0x85 || n == 0xa0 || n == 0x1680 || (0x2000 <= n
        && n <= 0x200a) || n == 0x2028 || n == 0x2029 || n == 0x202f || n == 0x205f || n == 0x3000
}

/// `s` without leading and trailing whitespace.
pub fn trimmed(s: &str) -> (r: String)
    ensures
        r@ == trim(s@),
{
    let v = chars_of(s);
    let mut from: usize = 0;
    assert(s@.skip(0) == s@);
    while from < v.len() && is_space_char(v[from])
        invariant
            from <= v@.len(),
            v@ == s@,
            trim_start(s@) == trim_start(s@.skip(from as int)),
        decreases v@.len() - from,
    {
        assert(s@.skip(from as int).drop_first() == s@.skip(from + 1));
        from = from + 1;
    }
    let mut to: usize = v.len();
    let ghost t = s@.skip(from as int);
    assert(trim_start(s@) == t);
    assert(s@.subrange(from as int, to as int) == t);
    while to > from && is_space_char(v[to - 1])
        invariant
            from <= to <= v@.len(),
            v@ == s@,
            trim_end(t) == trim_end(s@.subrange(from as int, to as int)),
        decreases to,
    {
        assert(s@.subrange(from as int, to as int).drop_last() == s@.subrange(from as int, to - 1));
        to = to - 1;
    }
    string_of(&v, from, to)
}

/// `s` without the run of `c` that it starts with.
pub fn trimmed_start_char(s: &str, c: char) -> (r: String)
    ensures
        r@ == trim_start_char(s@, c),
{
    let v = chars_of(s);
    let mut from: usize = 0;
    assert(s@.skip(0) == s@);
    while from < v.len() && v[from] == c
        invariant
            from <= v@.len(),
            v@ == s@,
            trim_start_char(s@, c) == trim_start_char(s@.skip(from as int), c),
        decreases v@.len() - from,
    {
        assert(s@.skip(from as int).drop_first() == s@.skip(from + 1));
        from = from + 1;
    }
    assert(s@.subrange(from as int, s@.len() as int) == s@.skip(from as int));
    string_of(&v, from, v.len())
}

/// `s` without the run of `c` that it ends with.
pub fn trimmed_end_char(s: &str, c: char) -> (r: String)
    ensures
        r@ == trim_end_char(s@, c),
{
    let v = chars_of(s);
    let mut to: usize = v.len();
    assert(s@.take(s@.len() as int) == s@);
    while to > 0 && v[to - 1] == c
        invariant
            to <= v@.len(),
            v@ == s@,
            trim_end_char(s@, c) == trim_end_char(s@.take(to as int), c),
        decreases to,
    {
        assert(s@.take(to as int).drop_last() == s@.take(to - 1));
        to = to - 1;
    }
    assert(s@.subrange(0, to as int) == s@.take(to as int));
    string_of(&v, 0, to)
}

/// `s` with every `from` replaced by `to`.
pub fn replaced_char(s: &str, from: char, to: char) -> (r: String)
    ensures
        r@ == replace_char(s@, from, to),
{
    let v = chars_of(s);
    let mut out = String::new();
    let mut i: usize = 0;
    while i < v.len()
        invariant
            i <= v@.len(),
            v@ == s@,
            out@ == replace_char(s@, from, to).take(i as int),
        decreases v@.len() - i,
    {
        if v[i] == from {
            out.push(to);
        } else {
            out.push(v[i]);
        }
        i = i + 1;
        assert(replace_char(s@, from, to).take(i as int) == replace_char(s@, from, to).take(
            i - 1,
        ).push(replace_char(s@, from, to)[i - 1]));
    }
    assert(replace_char(s@, from, to).take(i as int) == replace_char(s@, from, to));
    out
}

/// The index of the first `c` in `v`, or its length where there is none.
pub fn position_in(v: &Vec<char>, c: char) -> (r: usize)
    ensures
        r == position(v@, c),
        r <= v@.len(),
{
    let mut i: usize = 0;
    while i < v.len() && v[i] != c
        invariant
            i <= v@.len(),
            forall|j: int| 0 <= j < i ==> v@[j] != c,
        decreases v@.len() - i,
    {
        i = i + 1;
    }
    proof {
        lemma_position(v@, c, i as int);
    }
    i
}

/// The part of `s` before the first `c`: all of `s` where there is none.
pub fn text_before(s: &str, c: char) -> (r: String)
    ensures
        r@ == before_char(s@, c),
{
    let v = chars_of(s);
    let p = position_in(&v, c);
    assert(v@.subrange(0, p as int) == v@.take(p as int));
    string_of(&v, 0, p)
}

/// The parts of `s` before and after the first `c`, where there is one.
pub fn split_at_char(s: &str, c: char) -> (r: Option<(String, String)>)
    ensures
        match r {
            Some(p) => split_once(s@, c) == Some((p.0@, p.1@)),
            None => split_once(s@, c) is None,
        },
{
    let v = chars_of(s);
    let p = position_in(&v, c);
    if p < v.len() {
        assert(v@.subrange(0, p as int) == v@.take(p as int));
        assert(v@.subrange(p + 1, v@.len() as int) == v@.skip(p + 1));
        Some((string_of(&v, 0, p), string_of(&v, p + 1, v.len())))
    } else {
        None
    }
}

/// Whether `pattern` stands at index `i` of `v`.
pub fn matches_at(v: &Vec<char>, pattern: &Vec<char>, i: usize) -> (r: bool)
    ensures
        r == occurs_at(v@, pattern@, i as int),
{
    let n = v.len();
    if n < i || n - i < pattern.len() {
        return false;
    }
    let mut k: usize = 0;
    while k < pattern.len()
        invariant
            k <= pattern@.len(),
            i + pattern@.len() <= n,
            n == v@.len(),
            forall|j: int| 0 <= j < k ==> v@[i + j] == pattern@[j],
        decreases pattern@.len() - k,
    {
        if v[i + k] != pattern[k] {
            assert(v@.subrange(i as int, i + pattern@.len())[k as int] != pattern@[k as int]);
            return false;
        }
        k = k + 1;
    }
    assert(v@.subrange(i as int, i + pattern@.len()) == pattern@);
    true
}

/// Whether `s` starts with `prefix`.
pub fn has_prefix(s: &str, prefix: &str) -> (r: bool)
    ensures
        r == starts_with(s@, prefix@),
{
    let v = chars_of(s);
    let p = chars_of(prefix);
    proof {
        if p@.len() <= v@.len() {
            assert(v@.subrange(0, p@.len() as int) == v@.take(p@.len() as int));
        }
    }
    matches_at(&v, &p, 0)
}

/// What follows `prefix` in `s`, where `s` starts with it.
pub fn without_prefix(s: &str, prefix: &str) -> (r: Option<String>)
    ensures
        match r {
            Some(rest) => starts_with(s@, prefix@) && rest@ == s@.skip(prefix@.len() as int),
            None => !starts_with(s@, prefix@),
        },
{
    if has_prefix(s, prefix) {
        let v = chars_of(s);
        let n = chars_of(prefix).len();
        assert(v@.subrange(n as int, v@.len() as int) == v@.skip(n as int));
        Some(string_of(&v, n, v.len()))
    } else {
        None
    }
}

/// The first index at which `pattern` stands in `v`.
pub fn find_in(v: &Vec<char>, pattern: &Vec<char>) -> (r: Option<usize>)
    ensures
        match r {
            Some(i) => find_text(v@, pattern@) == Some(i as int) && i + pattern@.len() <= v@.len(),
            None => find_text(v@, pattern@) is None,
        },
{
    let mut i: usize = 0;
    while i < v.len()
        invariant
            i <= v@.len(),
            forall|j: int| 0 <= j < i ==> !occurs_at(v@, pattern@, j),
        decreases v@.len() - i,
    {
        if matches_at(v, pattern, i) {
            proof {
                lemma_find_text(v@, pattern@);
            }
            return Some(i);
        }
        i = i + 1;
    }
    proof {
        lemma_find_text(v@, pattern@);
    }
    if matches_at(v, pattern, i) {
        return Some(i);
    }
    None
}

/// Whether `pattern` stands anywhere in `s`.
pub fn has_text(s: &str, pattern: &str) -> (r: bool)
    ensures
        r == contains_text(s@, pattern@),
{
    let v = chars_of(s);
    let p = chars_of(pattern);
    proof {
        lemma_find_text(s@, pattern@);
    }
    find_in(&v, &p).is_some()
}

/// The lines of `s`.
pub fn lines_of(s: &str) -> (r: Vec<String>)
    ensures
        texts(r@) == lines(s@),
{
    let v = chars_of(s);
    let mut out: Vec<String> = Vec::new();
    let mut from: usize = 0;
    assert(s@.skip(0) == s@);
    assert(texts(out@) + lines(s@) == lines(s@));
    while from < v.len()
        invariant
            from <= v@.len(),
            v@ == s@,
            texts(out@) + lines(s@.skip(from as int)) == lines(s@),
        decreases v@.len() - from,
    {
        let ghost rest = s@.skip(from as int);
        let ghost done = texts(out@);
        let mut at = from;
        while at < v.len() && v[at] != '\n'
            invariant
                from <= at <= v@.len(),
                v@ == s@,
                forall|j: int| from <= j < at ==> v@[j] != '\n',
            decreases v@.len() - at,
        {
            at = at + 1;
        }
        proof {
            lemma_position(rest, '\n', at - from);
        }
        if at < v.len() {
            let mut to = at;
            if to > from && v[to - 1] == '\r' {
                to = to - 1;
            }
            let line = string_of(&v, from, to);
            proof {
                let p = at - from;
                assert(s@.subrange(from as int, at as int) == rest.take(p));
                assert(line@ == strip_carriage_return(rest.take(p)));
                assert(rest.skip(p + 1) == s@.skip(at + 1));
                assert(lines(rest) == seq![line@] + lines(s@.skip(at + 1)));
            }
            out.push(line);
            assert(texts(out@) == done.push(line@));
            assert(texts(out@) + lines(s@.skip(at + 1)) == done + lines(rest));
            from = at + 1;
        } else {
            let line = string_of(&v, from, at);
            assert(line@ == rest);
            out.push(line);
            assert(texts(out@) == done.push(line@));
            from = at;
            assert(lines(s@.skip(from as int)) == Seq::<Seq<char>>::empty());
            assert(texts(out@) + lines(s@.skip(from as int)) == done + lines(rest));
        }
    }
    assert(lines(s@.skip(from as int)) == Seq::<Seq<char>>::empty());
    assert(texts(out@) == lines(s@));
    out
}

/// What stands before the first `c` of a text is all of it where there is no `c`,
/// and else what the text starts with, up to the first `c`.
pub proof fn law_before_char(t: Seq<char>, c: char, rest: Seq<char>)
    requires
        !t.contains(c),
    ensures
        before_char(t, c) == t,
        before_char(t + seq![c] + rest, c) == t,
{
    assert forall|j: int| 0 <= j < t.len() implies t[j] != c by {
        assert(t.contains(t[j]));
    }
    lemma_position(t, c, t.len() as int);
    assert(t.take(t.len() as int) == t);
    let s = t + seq![c] + rest;
    assert forall|j: int| 0 <= j < t.len() implies s[j] != c by {
        assert(s[j] == t[j]);
    }
    assert(s[t.len() as int] == c);
    lemma_position(s, c, t.len() as int);
    assert(s.take(t.len() as int) == t);
}

/// A text is split at its first `c`, and is not split where there is none.
pub proof fn law_split_once(t: Seq<char>, c: char, rest: Seq<char>)
    requires
        !t.contains(c),
    ensures
        split_once(t, c) is None,
        split_once(t + seq![c] + rest, c) == Some((t, rest)),
{
    law_before_char(t, c, rest);
    let s = t + seq![c] + rest;
    assert forall|j: int| 0 <= j < t.len() implies t[j] != c by {
        assert(t.contains(t[j]));
    }
    lemma_position(t, c, t.len() as int);
    assert(s[t.len() as int] == c);
    assert forall|j: int| 0 <= j < t.len() implies s[j] != c by {
        assert(s[j] == t[j]);
    }
    lemma_position(s, c, t.len() as int);
    assert(s.skip(t.len() as int + 1) == rest);
}

/// Replacing a character changes no other one, and leaves none of it.
pub proof fn law_replace_char(s: Seq<char>, from: char, to: char)
    ensures
        replace_char(s, from, to).len() == s.len(),
        forall|i: int|
            0 <= i < s.len() && s[i] != from ==> #[trigger] replace_char(s, from, to)[i] == s[i],
        forall|i: int|
            0 <= i < s.len() && s[i] == from ==> #[trigger] replace_char(s, from, to)[i] == to,
        from != to ==> !replace_char(s, from, to).contains(from),
{
}

/// Trimming a character takes away the whole run of it at that end, and nothing
/// else.
pub proof fn law_trim_char(n: nat, c: char, s: Seq<char>)
    ensures
        s.len() == 0 || s[0] != c ==> trim_start_char(Seq::new(n, |i: int| c) + s, c) == s,
        s.len() == 0 || s.last() != c ==> trim_end_char(s + Seq::new(n, |i: int| c), c) == s,
    decreases n,
{
    let run = Seq::new(n, |i: int| c);
    if n == 0 {
        assert(run + s == s);
        assert(s + run == s);
    } else {
        let m = (n - 1) as nat;
        law_trim_char(m, c, s);
        let less = Seq::new(m, |i: int| c);
        assert((run + s)[0] == c);
        assert((run + s).drop_first() =~= less + s);
        assert((s + run).last() == c);
        assert((s + run).drop_last() =~= s + less);
    }
}

/// Blanks, tabs and line ends are whitespace. Other ASCII characters are not.
pub proof fn law_ascii_space(c: char)
    requires
        (c as u32) < 128,
    ensures
        is_space(c) <==> c == ' ' || c == '\t' || c == '\n' || c == '\r' || c == '\x0b' || c
            == '\x0c',
{
}

/// Trimming takes away the whitespace at both ends of a text, and nothing else.
pub proof fn law_trim(a: Seq<char>, s: Seq<char>, b: Seq<char>)
    requires
        forall|i: int| 0 <= i < a.len() ==> is_space(#[trigger] a[i]),
        forall|i: int| 0 <= i < b.len() ==> is_space(#[trigger] b[i]),
        s.len() > 0 ==> !is_space(s[0]) && !is_space(s.last()),
    ensures
        trim(a + s + b) == s,
    decreases a.len() + b.len(),
{
    let all = a + s + b;
    if a.len() > 0 {
        law_trim(a.drop_first(), s, b);
        assert(all[0] == a[0]);
        assert(all.drop_first() =~= a.drop_first() + s + b);
    } else if s.len() > 0 {
        assert(all[0] == s[0]);
        assert(trim_start(all) == all);
        if b.len() > 0 {
            law_trim(a, s, b.drop_last());
            let less = a + s + b.drop_last();
            assert(less[0] == s[0]);
            assert(trim_start(less) == less);
            assert(all.last() == b.last());
            assert(all.drop_last() =~= less);
        } else {
            assert(all =~= s);
        }
    } else if b.len() > 0 {
        law_trim(a, s, b.drop_first());
        assert(all[0] == b[0]);
        assert(all.drop_first() =~= a + s + b.drop_first());
    } else {
        assert(all =~= s);
    }
}

/// A text starts with another one where it is that one with something behind it,
/// and holds another one where that stands between two parts of it.
pub proof fn law_parts_of_text(a: Seq<char>, p: Seq<char>, b: Seq<char>)
    ensures
        starts_with(p + b, p),
        contains_text(a + p + b, p),
        starts_with(a, p) ==> a == p + a.skip(p.len() as int),
{
    assert((p + b).take(p.len() as int) == p);
    let s = a + p + b;
    assert(s.subrange(a.len() as int, a.len() as int + p.len()) == p);
    assert(occurs_at(s, p, a.len() as int));
    if starts_with(a, p) {
        assert(a =~= p + a.skip(p.len() as int));
    }
}

/// A text that holds another one has it between two parts.
pub proof fn law_text_found(s: Seq<char>, p: Seq<char>)
    requires
        contains_text(s, p),
    ensures
        exists|a: Seq<char>, b: Seq<char>| s == #[trigger] (a + p + b),
{
    let i = choose|i: int| occurs_at(s, p, i);
    let a = s.take(i);
    let b = s.skip(i + p.len());
    assert(s =~= a + p + b);
}

/// A line ends with a line feed, or with a carriage return and a line feed. What
/// stands behind the last line end is a line too.
pub proof fn law_lines(line: Seq<char>, rest: Seq<char>)
    requires
        !line.contains('\n'),
    ensures
        lines(Seq::empty()) == Seq::<Seq<char>>::empty(),
        line.len() > 0 ==> lines(line) == seq![line],
        line.len() == 0 || line.last() != '\r' ==> lines(line + seq!['\n'] + rest) == seq![line]
            + lines(rest),
        lines(line + seq!['\r', '\n'] + rest) == seq![line] + lines(rest),
{
    assert forall|j: int| 0 <= j < line.len() implies line[j] != '\n' by {
        assert(line.contains(line[j]));
    }
    lemma_position(line, '\n', line.len() as int);
    let s = line + seq!['\n'] + rest;
    assert(s[line.len() as int] == '\n');
    assert forall|j: int| 0 <= j < line.len() implies s[j] != '\n' by {
        assert(s[j] == line[j]);
    }
    lemma_position(s, '\n', line.len() as int);
    assert(s.take(line.len() as int) == line);
    assert(s.skip(line.len() as int + 1) == rest);
    let longer = line.push('\r');
    let t = line + seq!['\r', '\n'] + rest;
    assert(t[line.len() as int + 1] == '\n');
    assert(t[line.len() as int] == '\r');
    assert forall|j: int| 0 <= j < line.len() as int + 1 implies t[j] != '\n' by {
        if j < line.len() {
            assert(t[j] == line[j]);
        }
    }
    lemma_position(t, '\n', line.len() as int + 1);
    assert(t.take(line.len() as int + 1) == longer);
    assert(longer.drop_last() == line);
    assert(t.skip(line.len() as int + 2) == rest);
}

/// A character stands `n` times in a row in a text exactly where the text is a run of
/// it between two parts.
pub proof fn law_has_run(
    a: Seq<char>,
    run: Seq<char>,
    b: Seq<char>,
    c: char,
    n: nat,
    s: Seq<char>,
)
    requires
        run == Seq::new(n, |i: int| c),
    ensures
        has_run(a + run + b, c, n as int),
        has_run(s, c, n as int) ==> exists|x: Seq<char>, y: Seq<char>| s == #[trigger] (x + run + y),
{
    let all = a + run + b;
    assert forall|j: int| a.len() <= j < a.len() + n implies #[trigger] all[j] == c by {
        assert(all[j] == run[j - a.len()]);
    }
    assert(run_at(all, c, a.len() as int, n as int));
    if has_run(s, c, n as int) {
        let i = choose|i: int| #[trigger] run_at(s, c, i, n as int);
        let x = s.take(i);
        let y = s.skip(i + n);
        assert(s =~= x + run + y);
    }
}

} // verus!
