//! Character-level text helpers shared by the parsers in this crate.
//!
//! Text is reasoned about through its view, the `Seq<char>` of its characters.

use vstd::prelude::*;
use vstd::string::*;

verus! {

/// Text as plain characters.
pub type Text = Seq<char>;

/// Calls `String::push`, which appends one character.
#[verifier::external_body]
pub fn push_char(s: &mut String, ch: char)
    ensures
        final(s)@ == old(s)@.push(ch),
{
    s.push(ch);
}

/// The characters of `s`, in order.
pub fn chars_of(s: &str) -> (v: Vec<char>)
    ensures
        v@ == s@,
{
    let n = s.unicode_len();
    let mut v: Vec<char> = Vec::new();
    let mut i: usize = 0;
    while i < n
        invariant
            n == s@.len(),
            i <= n,
            v@ == s@.subrange(0, i as int),
        decreases n - i,
    {
        v.push(s.get_char(i));
        i = i + 1;
    }
    v
}

/// A `String` holding exactly the characters `v`.
pub fn string_of(v: &[char]) -> (s: String)
    ensures
        s@ == v@,
{
    let mut s = String::new();
    let mut i: usize = 0;
    while i < v.len()
        invariant
            i <= v@.len(),
            s@ == v@.subrange(0, i as int),
        decreases v@.len() - i,
    {
        push_char(&mut s, v[i]);
        i = i + 1;
    }
    s
}

/// A `String` holding the characters of `v` in `[from, to)`.
pub fn string_of_range(v: &[char], from: usize, to: usize) -> (s: String)
    requires
        from <= to <= v@.len(),
    ensures
        s@ == v@.subrange(from as int, to as int),
{
    let mut s = String::new();
    let mut i: usize = from;
    while i < to
        invariant
            from <= i <= to <= v@.len(),
            s@ == v@.subrange(from as int, i as int),
        decreases to - i,
    {
        push_char(&mut s, v[i]);
        i = i + 1;
    }
    s
}

/// Appends the characters of `v` to `s`.
pub fn push_all(s: &mut String, v: &[char])
    ensures
        final(s)@ == old(s)@ + v@,
{
    let mut i: usize = 0;
    while i < v.len()
        invariant
            i <= v@.len(),
            s@ == old(s)@ + v@.subrange(0, i as int),
        decreases v@.len() - i,
    {
        push_char(s, v[i]);
        i = i + 1;
    }
}

/// Appends the characters of `t` to `s`.
pub fn push_str(s: &mut String, t: &str)
    ensures
        final(s)@ == old(s)@ + t@,
{
    let v = chars_of(t);
    push_all(s, v.as_slice());
}

/// A copy of `s` with the same characters.
pub fn copy_string(s: &String) -> (r: String)
    ensures
        r@ == s@,
{
    s.clone()
}

/// Whether two character sequences are equal.
pub fn chars_eq(a: &[char], b: &[char]) -> (r: bool)
    ensures
        r == (a@ == b@),
{
    if a.len() != b.len() {
        return false;
    }
    let mut i: usize = 0;
    while i < a.len()
        invariant
            a@.len() == b@.len(),
            i <= a@.len(),
            forall|j: int| 0 <= j < i ==> a@[j] == b@[j],
        decreases a@.len() - i,
    {
        if a[i] != b[i] {
            return false;
        }
        i = i + 1;
    }
    assert(a@ =~= b@);
    true
}

/// Whether two strings hold the same characters.
pub fn str_eq(a: &str, b: &str) -> (r: bool)
    ensures
        r == (a@ == b@),
{
    let va = chars_of(a);
    let vb = chars_of(b);
    chars_eq(va.as_slice(), vb.as_slice())
}

/// Whether `needle` occurs in `hay` starting at position `at`.
pub open spec fn occurs_at(hay: Seq<char>, needle: Seq<char>, at: int) -> bool {
    0 <= at && at + needle.len() <= hay.len() && hay.subrange(at, at + needle.len()) == needle
}

/// Whether `needle` occurs anywhere in `hay`.
pub open spec fn contains_seq(hay: Seq<char>, needle: Seq<char>) -> bool {
    exists|at: int| occurs_at(hay, needle, at)
}

/// Whether `hay` starts with `prefix`.
pub open spec fn starts_with(hay: Seq<char>, prefix: Seq<char>) -> bool {
    occurs_at(hay, prefix, 0)
}

/// Whether `hay` ends with `suffix`.
pub open spec fn ends_with(hay: Seq<char>, suffix: Seq<char>) -> bool {
    occurs_at(hay, suffix, hay.len() - suffix.len())
}

/// Whether `needle` occurs in `hay` at position `at`.
pub fn occurs_at_exec(hay: &[char], needle: &[char], at: usize) -> (r: bool)
    ensures
        r == occurs_at(hay@, needle@, at as int),
{
    if at > hay.len() || needle.len() > hay.len() - at {
        return false;
    }
    let hl: usize = hay.len();
    let mut i: usize = 0;
    while i < needle.len()
        invariant
            hl == hay@.len(),
            at + needle@.len() <= hay@.len(),
            at <= hay@.len(),
            i <= needle@.len(),
            forall|j: int| 0 <= j < i ==> hay@[at + j] == needle@[j],
        decreases needle@.len() - i,
    {
        assert(at + i < hay@.len());
        if hay[at + i] != needle[i] {
            assert(hay@.subrange(at as int, at + needle@.len())[i as int] != needle@[i as int]);
            return false;
        }
        i = i + 1;
    }
    assert(hay@.subrange(at as int, at + needle@.len()) =~= needle@);
    true
}

/// The first position at which `needle` occurs in `hay`, if any.
pub open spec fn first_occurrence(hay: Seq<char>, needle: Seq<char>) -> Option<int> {
    if contains_seq(hay, needle) {
        Some(choose|at: int| occurs_at(hay, needle, at) && forall|k: int| 0 <= k < at ==> !occurs_at(hay, needle, k))
    } else {
        None
    }
}

proof fn lemma_minimal_occurrence(hay: Seq<char>, needle: Seq<char>, w: int)
    requires
        occurs_at(hay, needle, w),
    ensures
        exists|at: int| occurs_at(hay, needle, at) && forall|k: int| 0 <= k < at ==> !occurs_at(hay, needle, k),
    decreases w,
{
    if exists|k: int| 0 <= k < w && occurs_at(hay, needle, k) {
        let k = choose|k: int| 0 <= k < w && occurs_at(hay, needle, k);
        lemma_minimal_occurrence(hay, needle, k);
    } else {
        assert(occurs_at(hay, needle, w) && forall|k: int| 0 <= k < w ==> !occurs_at(hay, needle, k));
    }
}

/// `first_occurrence` names an occurrence with none before it, whenever
/// `needle` occurs at all.
pub proof fn lemma_first_occurrence(hay: Seq<char>, needle: Seq<char>)
    ensures
        match first_occurrence(hay, needle) {
            Some(at) => occurs_at(hay, needle, at) && forall|k: int| 0 <= k < at ==> !occurs_at(hay, needle, k),
            None => !contains_seq(hay, needle),
        },
{
    if contains_seq(hay, needle) {
        let w = choose|at: int| occurs_at(hay, needle, at);
        lemma_minimal_occurrence(hay, needle, w);
    }
}

/// Finds the first occurrence of `needle` in `hay`.
pub fn find(hay: &[char], needle: &[char]) -> (r: Option<usize>)
    ensures
        match r {
            Some(at) => occurs_at(hay@, needle@, at as int) && forall|k: int| 0 <= k < at ==> !occurs_at(hay@, needle@, k),
            None => !contains_seq(hay@, needle@),
        },
        r matches Some(at) ==> first_occurrence(hay@, needle@) == Some(at as int),
        r is None ==> first_occurrence(hay@, needle@) is None,
{
    let mut at: usize = 0;
    loop
        invariant
            at <= hay@.len(),
            forall|k: int| 0 <= k < at ==> !occurs_at(hay@, needle@, k),
        decreases hay@.len() - at,
    {
        if occurs_at_exec(hay, needle, at) {
            proof {
                lemma_first_occurrence_unique(hay@, needle@, at as int);
            }
            return Some(at);
        }
        if at == hay.len() {
            assert forall|k: int| !occurs_at(hay@, needle@, k) by {
                if 0 <= k < at {
                }
            }
            return None;
        }
        at = at + 1;
    }
}

proof fn lemma_first_occurrence_unique(hay: Seq<char>, needle: Seq<char>, at: int)
    requires
        occurs_at(hay, needle, at),
        forall|k: int| 0 <= k < at ==> !occurs_at(hay, needle, k),
    ensures
        first_occurrence(hay, needle) == Some(at),
{
    assert(contains_seq(hay, needle));
    let c = choose|c: int| occurs_at(hay, needle, c) && forall|k: int| 0 <= k < c ==> !occurs_at(hay, needle, k);
    assert(occurs_at(hay, needle, c) && forall|k: int| 0 <= k < c ==> !occurs_at(hay, needle, k));
    if c < at {
        assert(!occurs_at(hay, needle, c));
    }
    if at < c {
        assert(!occurs_at(hay, needle, at));
    }
}

} // verus!

verus! {

/// A copy of a character vector.
pub fn copy_chars(v: &[char]) -> (r: Vec<char>)
    ensures
        r@ == v@,
{
    let mut r: Vec<char> = Vec::new();
    let mut i: usize = 0;
    while i < v.len()
        invariant
            i <= v@.len(),
            r@ == v@.subrange(0, i as int),
        decreases v@.len() - i,
    {
        r.push(v[i]);
        i = i + 1;
    }
    assert(v@.subrange(0, v@.len() as int) =~= v@);
    r
}

} // verus!

verus! {

/// The decimal digits of `n`.
pub open spec fn spec_decimal(n: nat) -> Seq<char>
    decreases n,
{
    if n < 10 {
        seq![digit_char(n)]
    } else {
        spec_decimal(n / 10).push(digit_char(n % 10))
    }
}

/// The character of a decimal digit.
pub open spec fn digit_char(d: nat) -> char {
    if d == 0 { '0' }
    else if d == 1 { '1' }
    else if d == 2 { '2' }
    else if d == 3 { '3' }
    else if d == 4 { '4' }
    else if d == 5 { '5' }
    else if d == 6 { '6' }
    else if d == 7 { '7' }
    else if d == 8 { '8' }
    else { '9' }
}

fn digit(d: u64) -> (c: char)
    requires
        d < 10,
    ensures
        c == digit_char(d as nat),
{
    if d == 0 { '0' }
    else if d == 1 { '1' }
    else if d == 2 { '2' }
    else if d == 3 { '3' }
    else if d == 4 { '4' }
    else if d == 5 { '5' }
    else if d == 6 { '6' }
    else if d == 7 { '7' }
    else if d == 8 { '8' }
    else { '9' }
}

/// Appends the decimal digits of `n` to `s`.
pub fn push_decimal(s: &mut String, n: u64)
    ensures
        final(s)@ == old(s)@ + spec_decimal(n as nat),
    decreases n,
{
    if n < 10 {
        push_char(s, digit(n));
    } else {
        push_decimal(s, n / 10);
        push_char(s, digit(n % 10));
        assert(spec_decimal(n as nat) == spec_decimal((n / 10) as nat).push(digit_char((n % 10) as nat)));
    }
}

/// The decimal representation of `n`.
pub fn decimal(n: u64) -> (r: String)
    ensures
        r@ == spec_decimal(n as nat),
{
    let mut s = String::new();
    push_decimal(&mut s, n);
    assert(s@ =~= spec_decimal(n as nat));
    s
}

/// Whether `c` is a control character (Unicode general category Cc), as
/// `char::is_control` decides.
pub open spec fn is_control(c: char) -> bool {
    (c as u32) <= 0x1f || (0x7f <= (c as u32) && (c as u32) <= 0x9f)
}

/// Whether `c` has the Unicode `White_Space` property, as `char::is_whitespace`
/// decides.
pub open spec fn is_whitespace(c: char) -> bool {
    let u = c as u32;
    (0x09 <= u && u <= 0x0d) || u == 0x20 || u == 0x85 || u == 0xa0 || u == 0x1680 || (0x2000 <= u
        && u <= 0x200a) || u == 0x2028 || u == 0x2029 || u == 0x202f || u == 0x205f || u == 0x3000
}

pub fn is_control_exec(c: char) -> (r: bool)
    ensures
        r == is_control(c),
{
    let u = c as u32;
    u <= 0x1f || (0x7f <= u && u <= 0x9f)
}

pub fn is_whitespace_exec(c: char) -> (r: bool)
    ensures
        r == is_whitespace(c),
{
    let u = c as u32;
    (0x09 <= u && u <= 0x0d) || u == 0x20 || u == 0x85 || u == 0xa0 || u == 0x1680 || (0x2000 <= u
        && u <= 0x200a) || u == 0x2028 || u == 0x2029 || u == 0x202f || u == 0x205f || u == 0x3000
}

/// The number of leading whitespace characters of `s`.
pub open spec fn leading_ws(s: Seq<char>) -> nat
    decreases s.len(),
{
    if s.len() > 0 && is_whitespace(s[0]) {
        1 + leading_ws(s.drop_first())
    } else {
        0
    }
}

/// The number of trailing whitespace characters of `s`.
pub open spec fn trailing_ws(s: Seq<char>) -> nat
    decreases s.len(),
{
    if s.len() > 0 && is_whitespace(s.last()) {
        1 + trailing_ws(s.drop_last())
    } else {
        0
    }
}

/// `s` with leading and trailing whitespace removed, as `str::trim` does.
pub open spec fn spec_trim(s: Seq<char>) -> Seq<char> {
    let front = s.skip(leading_ws(s) as int);
    front.take(front.len() - trailing_ws(front))
}

proof fn lemma_leading_ws_bound(s: Seq<char>)
    ensures
        leading_ws(s) <= s.len(),
    decreases s.len(),
{
    if s.len() > 0 && is_whitespace(s[0]) {
        lemma_leading_ws_bound(s.drop_first());
    }
}

proof fn lemma_trailing_ws_bound(s: Seq<char>)
    ensures
        trailing_ws(s) <= s.len(),
    decreases s.len(),
{
    if s.len() > 0 && is_whitespace(s.last()) {
        lemma_trailing_ws_bound(s.drop_last());
    }
}

/// A trimmed text is the stretch of `s` between its leading and trailing
/// whitespace.
pub proof fn lemma_trim_within(s: Seq<char>)
    ensures
        leading_ws(s) <= s.len(),
        trailing_ws(s.skip(leading_ws(s) as int)) <= s.len() - leading_ws(s),
        spec_trim(s) == s.subrange(leading_ws(s) as int, s.len() - trailing_ws(s.skip(leading_ws(s) as int))),
{
    lemma_leading_ws_bound(s);
    let front = s.skip(leading_ws(s) as int);
    lemma_trailing_ws_bound(front);
    assert(spec_trim(s) =~= s.subrange(leading_ws(s) as int, s.len() - trailing_ws(front)));
}

/// Bounds `[start, end)` of `s` once leading and trailing whitespace is removed.
pub fn trim_bounds(s: &[char]) -> (r: (usize, usize))
    ensures
        r.0 <= r.1 <= s@.len(),
        s@.subrange(r.0 as int, r.1 as int) == spec_trim(s@),
{
    let mut start: usize = 0;
    assert(s@.skip(0) =~= s@);
    while start < s.len() && is_whitespace_exec(s[start])
        invariant
            start <= s@.len(),
            leading_ws(s@) == start + leading_ws(s@.skip(start as int)),
        decreases s@.len() - start,
    {
        assert(s@.skip(start as int).drop_first() =~= s@.skip(start + 1));
        start = start + 1;
    }
    assert(leading_ws(s@.skip(start as int)) == 0);
    let ghost front = s@.skip(start as int);
    let mut end: usize = s.len();
    assert(front.take(end - start) =~= front);
    while end > start && is_whitespace_exec(s[end - 1])
        invariant
            start <= end <= s@.len(),
            front == s@.skip(start as int),
            trailing_ws(front) == (s@.len() - end) + trailing_ws(front.take(end - start)),
        decreases end,
    {
        assert(front.take(end - start).drop_last() =~= front.take(end - 1 - start));
        assert(front.take(end - start).last() == s@[end - 1]);
        end = end - 1;
    }
    proof {
        assert(trailing_ws(front.take(end - start)) == 0);
        assert(s@.subrange(start as int, end as int) =~= front.take(front.len() - trailing_ws(front)));
    }
    (start, end)
}

} // verus!

verus! {

/// The last position at which `c` occurs in `s`, if any.
pub open spec fn last_index_of(s: Seq<char>, c: char) -> Option<int>
    decreases s.len(),
{
    if s.len() == 0 {
        None
    } else if s.last() == c {
        Some(s.len() - 1)
    } else {
        last_index_of(s.drop_last(), c)
    }
}

/// The first position at which `c` occurs in `s`, if any.
pub open spec fn first_index_of(s: Seq<char>, c: char) -> Option<int>
    decreases s.len(),
{
    if s.len() == 0 {
        None
    } else if s[0] == c {
        Some(0)
    } else {
        match first_index_of(s.drop_first(), c) {
            Some(i) => Some(i + 1),
            None => None,
        }
    }
}

pub proof fn lemma_first_index_of(s: Seq<char>, c: char)
    ensures
        match first_index_of(s, c) {
            Some(i) => 0 <= i < s.len() && s[i] == c && forall|k: int| 0 <= k < i ==> s[k] != c,
            None => forall|k: int| 0 <= k < s.len() ==> s[k] != c,
        },
    decreases s.len(),
{
    if s.len() > 0 && s[0] != c {
        lemma_first_index_of(s.drop_first(), c);
        match first_index_of(s.drop_first(), c) {
            Some(i) => {
                assert forall|k: int| 0 <= k < i + 1 implies s[k] != c by {
                    if k > 0 {
                        assert(s[k] == s.drop_first()[k - 1]);
                    }
                }
            },
            None => {
                assert forall|k: int| 0 <= k < s.len() implies s[k] != c by {
                    if k > 0 {
                        assert(s[k] == s.drop_first()[k - 1]);
                    }
                }
            },
        }
    }
}

pub proof fn lemma_last_index_of(s: Seq<char>, c: char)
    ensures
        match last_index_of(s, c) {
            Some(i) => 0 <= i < s.len() && s[i] == c && forall|k: int| i < k < s.len() ==> s[k] != c,
            None => forall|k: int| 0 <= k < s.len() ==> s[k] != c,
        },
    decreases s.len(),
{
    if s.len() > 0 && s.last() != c {
        lemma_last_index_of(s.drop_last(), c);
        assert forall|k: int| 0 <= k < s.len() - 1 implies s[k] == s.drop_last()[k] by {}
    }
}

/// The first position of `c` in `s`, if any.
pub fn find_char(s: &[char], c: char) -> (r: Option<usize>)
    ensures
        match r {
            Some(i) => first_index_of(s@, c) == Some(i as int),
            None => first_index_of(s@, c) is None,
        },
{
    let mut i: usize = 0;
    while i < s.len()
        invariant
            i <= s@.len(),
            forall|k: int| 0 <= k < i ==> s@[k] != c,
        decreases s@.len() - i,
    {
        if s[i] == c {
            proof {
                lemma_first_index_of(s@, c);
                match first_index_of(s@, c) {
                    Some(j) => {
                        if j < i { } else if j > i { assert(s@[i as int] == c); }
                    },
                    None => { assert(s@[i as int] == c); },
                }
            }
            return Some(i);
        }
        i = i + 1;
    }
    proof {
        lemma_first_index_of(s@, c);
        if let Some(j) = first_index_of(s@, c) {
            assert(s@[j] == c);
        }
    }
    None
}

/// The last position of `c` in `s`, if any.
pub fn rfind_char(s: &[char], c: char) -> (r: Option<usize>)
    ensures
        match r {
            Some(i) => last_index_of(s@, c) == Some(i as int),
            None => last_index_of(s@, c) is None,
        },
{
    let mut i: usize = s.len();
    while i > 0
        invariant
            i <= s@.len(),
            forall|k: int| i <= k < s@.len() ==> s@[k] != c,
        decreases i,
    {
        if s[i - 1] == c {
            proof {
                lemma_last_index_of(s@, c);
                match last_index_of(s@, c) {
                    Some(j) => {
                        if j < i - 1 { assert(s@[i - 1] == c); } else if j > i - 1 { }
                    },
                    None => { assert(s@[i - 1] == c); },
                }
            }
            return Some(i - 1);
        }
        i = i - 1;
    }
    proof {
        lemma_last_index_of(s@, c);
        if let Some(j) = last_index_of(s@, c) {
            assert(s@[j] == c);
        }
    }
    None
}

} // verus!

verus! {

/// The characters of `v` in `[from, to)`, as a new vector.
pub fn chars_range(v: &[char], from: usize, to: usize) -> (r: Vec<char>)
    requires
        from <= to <= v@.len(),
    ensures
        r@ == v@.subrange(from as int, to as int),
{
    let mut r: Vec<char> = Vec::new();
    let mut i: usize = from;
    while i < to
        invariant
            from <= i <= to <= v@.len(),
            r@ == v@.subrange(from as int, i as int),
        decreases to - i,
    {
        r.push(v[i]);
        i = i + 1;
    }
    r
}

/// Whether `hay` ends with `suffix`.
pub fn ends_with_exec(hay: &[char], suffix: &[char]) -> (r: bool)
    ensures
        r == ends_with(hay@, suffix@),
{
    if suffix.len() > hay.len() {
        false
    } else {
        occurs_at_exec(hay, suffix, hay.len() - suffix.len())
    }
}

/// Whether `hay` starts with `prefix`.
pub fn starts_with_exec(hay: &[char], prefix: &[char]) -> (r: bool)
    ensures
        r == starts_with(hay@, prefix@),
{
    occurs_at_exec(hay, prefix, 0)
}

} // verus!

verus! {

/// The views of a sequence of character vectors.
pub open spec fn views(v: Seq<Vec<char>>) -> Seq<Seq<char>> {
    v.map_values(|x: Vec<char>| x@)
}

/// The lines of `s`, as `str::lines` yields them: split at `\n`, a `\r`
/// directly before the `\n` removed, and no empty line after a final `\n`.
pub open spec fn spec_lines(s: Seq<char>) -> Seq<Seq<char>>
    decreases s.len(),
{
    if s.len() == 0 {
        Seq::empty()
    } else {
        match first_index_of(s, '\n') {
            None => seq![s],
            Some(i) => {
                proof {
                    lemma_first_index_of(s, '\n');
                }
                let line = s.take(i);
                let line = if line.len() > 0 && line.last() == '\r' { line.drop_last() } else { line };
                seq![line] + spec_lines(s.skip(i + 1))
            },
        }
    }
}

/// Splits `s` into its lines.
pub fn split_lines(s: &[char]) -> (r: Vec<Vec<char>>)
    ensures
        views(r@) == spec_lines(s@),
{
    let mut out: Vec<Vec<char>> = Vec::new();
    let mut pos: usize = 0;
    assert(s@.skip(0) =~= s@);
    while pos < s.len()
        invariant
            pos <= s@.len(),
            spec_lines(s@) == views(out@) + spec_lines(s@.skip(pos as int)),
        decreases s@.len() - pos,
    {
        let rest = chars_range(s, pos, s.len());
        assert(rest@ == s@.skip(pos as int));
        match find_char(rest.as_slice(), '\n') {
            None => {
                let ghost before = out@;
                out.push(rest);
                assert(views(out@) =~= views(before).push(s@.skip(pos as int)));
                assert(spec_lines(s@.skip(s@.len() as int)) =~= Seq::<Seq<char>>::empty()) by {
                    assert(s@.skip(s@.len() as int).len() == 0);
                }
                pos = s.len();
            },
            Some(i) => {
                proof { lemma_first_index_of(rest@, '\n'); }
                let mut end = i;
                if i > 0 && rest[i - 1] == '\r' {
                    end = i - 1;
                }
                let line = chars_range(rest.as_slice(), 0, end);
                let ghost before = out@;
                out.push(line);
                assert(views(out@) =~= views(before).push(line@));
                assert(rest@.skip(i + 1) =~= s@.skip(pos + i + 1));
                assert(line@ =~= (if rest@.take(i as int).len() > 0 && rest@.take(i as int).last() == '\r' { rest@.take(i as int).drop_last() } else { rest@.take(i as int) }));
                assert(views(before) + spec_lines(rest@) =~= views(out@) + spec_lines(s@.skip(pos + i + 1)));
                pos = pos + i + 1;
            },
        }
    }
    assert(spec_lines(s@.skip(pos as int)) =~= Seq::<Seq<char>>::empty()) by {
        assert(s@.skip(pos as int).len() == 0);
    }
    assert(spec_lines(s@) =~= views(out@));
    out
}

} // verus!

verus! {

/// `s` without its trailing `c` characters, as `str::trim_end_matches` leaves it.
pub open spec fn spec_trim_trailing(s: Seq<char>, c: char) -> Seq<char>
    decreases s.len(),
{
    if s.len() > 0 && s.last() == c {
        spec_trim_trailing(s.drop_last(), c)
    } else {
        s
    }
}

/// `s` without its trailing `c` characters.
pub fn trim_trailing(s: &[char], c: char) -> (r: Vec<char>)
    ensures
        r@ == spec_trim_trailing(s@, c),
{
    let mut end: usize = s.len();
    assert(s@.take(s@.len() as int) =~= s@);
    while end > 0 && s[end - 1] == c
        invariant
            end <= s@.len(),
            spec_trim_trailing(s@, c) == spec_trim_trailing(s@.take(end as int), c),
        decreases end,
    {
        assert(s@.take(end as int).drop_last() =~= s@.take(end - 1));
        end = end - 1;
    }
    let r = chars_range(s, 0, end);
    assert(r@ =~= s@.take(end as int));
    r
}

} // verus!

verus! {

/// The pieces of `text` between occurrences of `sep`, as `str::split` yields
/// them: empty pieces included, and always at least one.
pub open spec fn spec_split(text: Seq<char>, sep: char) -> Seq<Seq<char>>
    decreases text.len(),
{
    match first_index_of(text, sep) {
        None => seq![text],
        Some(i) => {
            proof {
                lemma_first_index_of(text, sep);
            }
            seq![text.take(i)] + spec_split(text.skip(i + 1), sep)
        },
    }
}

/// Splits `text` at every `sep`.
pub fn split_on(text: &[char], sep: char) -> (r: Vec<Vec<char>>)
    ensures
        views(r@) == spec_split(text@, sep),
{
    let mut parts: Vec<Vec<char>> = Vec::new();
    let mut pos: usize = 0;
    assert(text@.skip(0) =~= text@);
    loop
        invariant
            pos <= text@.len(),
            spec_split(text@, sep) == views(parts@) + spec_split(text@.skip(pos as int), sep),
        decreases text@.len() - pos,
    {
        let rest = chars_range(text, pos, text.len());
        assert(rest@ == text@.skip(pos as int));
        match find_char(rest.as_slice(), sep) {
            None => {
                let ghost before = parts@;
                parts.push(rest);
                assert(views(parts@) =~= views(before).push(text@.skip(pos as int)));
                assert(views(before) + seq![text@.skip(pos as int)] =~= views(parts@));
                return parts;
            },
            Some(i) => {
                proof { lemma_first_index_of(rest@, sep); }
                let part = chars_range(rest.as_slice(), 0, i);
                let ghost before = parts@;
                parts.push(part);
                assert(views(parts@) =~= views(before).push(part@));
                assert(rest@.skip(i + 1) =~= text@.skip(pos + i + 1));
                assert(views(before) + spec_split(rest@, sep) =~= views(parts@) + spec_split(text@.skip(pos + i + 1), sep));
                pos = pos + i + 1;
            },
        }
    }
}

/// `s` without leading and trailing `c` characters, as `str::trim_matches`
/// leaves it.
pub open spec fn spec_trim_char(s: Seq<char>, c: char) -> Seq<char> {
    let front = s.skip(leading_count(s, c) as int);
    spec_trim_trailing(front, c)
}

/// The number of leading `c` characters of `s`.
pub open spec fn leading_count(s: Seq<char>, c: char) -> nat
    decreases s.len(),
{
    if s.len() > 0 && s[0] == c {
        1 + leading_count(s.drop_first(), c)
    } else {
        0
    }
}

proof fn lemma_leading_count_bound(s: Seq<char>, c: char)
    ensures
        leading_count(s, c) <= s.len(),
    decreases s.len(),
{
    if s.len() > 0 && s[0] == c {
        lemma_leading_count_bound(s.drop_first(), c);
    }
}

/// `s` without leading and trailing `c` characters.
pub fn trim_char(s: &[char], c: char) -> (r: Vec<char>)
    ensures
        r@ == spec_trim_char(s@, c),
{
    let mut start: usize = 0;
    assert(s@.skip(0) =~= s@);
    while start < s.len() && s[start] == c
        invariant
            start <= s@.len(),
            leading_count(s@, c) == start + leading_count(s@.skip(start as int), c),
        decreases s@.len() - start,
    {
        assert(s@.skip(start as int).drop_first() =~= s@.skip(start + 1));
        start = start + 1;
    }
    let front = chars_range(s, start, s.len());
    assert(front@ =~= s@.skip(start as int));
    trim_trailing(front.as_slice(), c)
}

} // verus!
