//! Text as a sequence of characters: trimming, searching, splitting and ordering.

use vstd::prelude::*;

verus! {

/// Whether `c` has the Unicode property `White_Space`.
pub open spec fn is_white_space(c: char) -> bool {
    ||| 0x09 <= c as u32 <= 0x0d
    ||| c as u32 == 0x20
    ||| c as u32 == 0x85
    ||| c as u32 == 0xa0
    ||| c as u32 == 0x1680
    ||| 0x2000 <= c as u32 <= 0x200a
    ||| c as u32 == 0x2028
    ||| c as u32 == 0x2029
    ||| c as u32 == 0x202f
    ||| c as u32 == 0x205f
    ||| c as u32 == 0x3000
}

/// `s` without the white space that it starts with.
pub open spec fn trim_start(s: Seq<char>) -> Seq<char>
    decreases s.len(),
{
    if s.len() > 0 && is_white_space(s[0]) {
        trim_start(s.drop_first())
    } else {
        s
    }
}

/// `s` without the white space that it ends with.
pub open spec fn trim_end(s: Seq<char>) -> Seq<char>
    decreases s.len(),
{
    if s.len() > 0 && is_white_space(s.last()) {
        trim_end(s.drop_last())
    } else {
        s
    }
}

/// `s` without the white space at its two ends.
pub open spec fn trimmed(s: Seq<char>) -> Seq<char> {
    trim_end(trim_start(s))
}

/// Whether `pattern` stands in `s` at position `i`.
pub open spec fn matches_at(s: Seq<char>, pattern: Seq<char>, i: int) -> bool {
    0 <= i && i + pattern.len() <= s.len() && s.subrange(i, i + pattern.len()) == pattern
}

/// The first position from `i` on at which `pattern` stands in `s`.
pub open spec fn position_from(s: Seq<char>, pattern: Seq<char>, i: int) -> Option<int>
    decreases s.len() + 1 - i,
{
    if i > s.len() {
        None
    } else if matches_at(s, pattern, i) {
        Some(i)
    } else {
        position_from(s, pattern, i + 1)
    }
}

/// The first position at which `pattern` stands in `s`.
pub open spec fn position(s: Seq<char>, pattern: Seq<char>) -> Option<int> {
    position_from(s, pattern, 0)
}

/// Whether `pattern` stands somewhere in `s`.
pub open spec fn occurs_in(s: Seq<char>, pattern: Seq<char>) -> bool {
    exists|i: int| matches_at(s, pattern, i)
}

/// The first position at which `c` stands in `s`, or the length of `s`.
pub open spec fn first_char(s: Seq<char>, c: char) -> int
    decreases s.len(),
{
    if s.len() == 0 || s[0] == c {
        0
    } else {
        1 + first_char(s.drop_first(), c)
    }
}

/// What `first_char` gives is the first position of `c`, where there is one.
pub proof fn lemma_first_char(s: Seq<char>, c: char)
    ensures
        0 <= first_char(s, c) <= s.len(),
        first_char(s, c) < s.len() ==> s[first_char(s, c)] == c,
        forall|i: int| 0 <= i < first_char(s, c) ==> s[i] != c,
    decreases s.len(),
{
    if s.len() > 0 && s[0] != c {
        lemma_first_char(s.drop_first(), c);
        assert forall|i: int| 0 <= i < first_char(s, c) implies s[i] != c by {
            if i > 0 {
                assert(s.drop_first()[i - 1] == s[i]);
            }
        }
    }
}

/// The one position with the property that `lemma_first_char` states.
pub proof fn lemma_first_char_unique(s: Seq<char>, c: char, k: int)
    requires
        0 <= k <= s.len(),
        k < s.len() ==> s[k] == c,
        forall|i: int| 0 <= i < k ==> s[i] != c,
    ensures
        first_char(s, c) == k,
{
    lemma_first_char(s, c);
    if first_char(s, c) < k {
        assert(s[first_char(s, c)] != c);
    }
}

/// The parts of `s` between the occurrences of `separator`: one more than there are of these.
pub open spec fn split(s: Seq<char>, separator: char) -> Seq<Seq<char>>
    decreases s.len(),
{
    let k = first_char(s, separator);
    if 0 <= k < s.len() {
        seq![s.take(k)] + split(s.skip(k + 1), separator)
    } else {
        seq![s]
    }
}

/// `line` without one carriage return at its end.
pub open spec fn without_carriage_return(line: Seq<char>) -> Seq<char> {
    if line.len() > 0 && line.last() == '\r' {
        line.drop_last()
    } else {
        line
    }
}

/// The lines of `s`. A line ends at a line feed, to which a carriage return right before it
/// belongs; what follows the last line feed is a line unless it is empty.
pub open spec fn lines(s: Seq<char>) -> Seq<Seq<char>>
    decreases s.len(),
{
    let k = first_char(s, '\n');
    if s.len() == 0 {
        Seq::empty()
    } else if 0 <= k < s.len() {
        seq![without_carriage_return(s.take(k))] + lines(s.skip(k + 1))
    } else {
        seq![s]
    }
}

/// `c`, in lower case where it is one of the letters A to Z.
pub open spec fn ascii_lower(c: char) -> char {
    if 'A' <= c <= 'Z' {
        (c as u32 + 32) as char
    } else {
        c
    }
}

/// Whether two texts are the same but for the case of the letters A to Z.
pub open spec fn same_ignoring_ascii_case(a: Seq<char>, b: Seq<char>) -> bool {
    a.len() == b.len() && forall|i: int|
        0 <= i < a.len() ==> #[trigger] ascii_lower(a[i]) == ascii_lower(b[i])
}

/// Whether `a` comes before `b` in the order of code points, which is also the order of the
/// bytes of their UTF-8 encodings.
pub open spec fn text_before(a: Seq<char>, b: Seq<char>) -> bool
    decreases a.len(),
{
    if a.len() == 0 || b.len() == 0 {
        a.len() < b.len()
    } else if a[0] == b[0] {
        text_before(a.drop_first(), b.drop_first())
    } else {
        a[0] < b[0]
    }
}

/// Trimmed text has no white space at its ends, and trimming it again changes nothing.
pub proof fn trimmed_text_stays_as_it_is(s: Seq<char>)
    ensures
        trimmed(s).len() > 0 ==> !is_white_space(trimmed(s)[0]) && !is_white_space(
            trimmed(s).last(),
        ),
        trimmed(trimmed(s)) == trimmed(s),
{
    lemma_trim_start(s);
    lemma_trim_end(trim_start(s));
}

proof fn lemma_trim_start(s: Seq<char>)
    ensures
        trim_start(s).len() > 0 ==> !is_white_space(trim_start(s)[0]),
    decreases s.len(),
{
    if s.len() > 0 && is_white_space(s[0]) {
        lemma_trim_start(s.drop_first());
    }
}

proof fn lemma_trim_end(s: Seq<char>)
    ensures
        trim_end(s).len() <= s.len(),
        trim_end(s) == s.take(trim_end(s).len() as int),
        trim_end(s).len() > 0 ==> !is_white_space(trim_end(s).last()),
    decreases s.len(),
{
    if s.len() > 0 && is_white_space(s.last()) {
        lemma_trim_end(s.drop_last());
        assert(s.drop_last().take(trim_end(s).len() as int) == s.take(trim_end(s).len() as int));
    } else {
        assert(s.take(s.len() as int) == s);
    }
}

/// The order of texts is strict and total.
pub proof fn text_order_is_total(a: Seq<char>, b: Seq<char>)
    ensures
        !text_before(a, a),
        text_before(a, b) ==> !text_before(b, a),
        a == b || text_before(a, b) || text_before(b, a),
    decreases a.len(),
{
    if a.len() > 0 {
        text_order_is_total(a.drop_first(), a.drop_first());
    }
    if a.len() > 0 && b.len() > 0 && a[0] == b[0] {
        text_order_is_total(a.drop_first(), b.drop_first());
        if a.drop_first() == b.drop_first() {
            assert(a =~= seq![a[0]] + a.drop_first());
            assert(b =~= seq![b[0]] + b.drop_first());
            assert(a == b);
        }
    } else if a.len() == 0 && b.len() == 0 {
        assert(a == b);
    }
}

/// The order of texts is transitive.
pub proof fn text_order_is_transitive(a: Seq<char>, b: Seq<char>, c: Seq<char>)
    requires
        text_before(a, b),
        text_before(b, c),
    ensures
        text_before(a, c),
    decreases a.len(),
{
    if a.len() > 0 && a[0] == b[0] && b[0] == c[0] {
        text_order_is_transitive(a.drop_first(), b.drop_first(), c.drop_first());
    }
}

/// The texts that a list of strings holds.
pub open spec fn texts(v: Seq<String>) -> Seq<Seq<char>> {
    v.map_values(|s: String| s@)
}

/// The characters of `s`.
pub fn chars_of(s: &str) -> (r: Vec<char>)
    ensures
        r@ == s@,
{
    let mut r: Vec<char> = Vec::new();
    for c in it: s.chars()
        invariant
            r@ == it.seq().take(it.index()),
            it.seq() == s@,
    {
        r.push(c);
    }
    r
}

/// Whether `c` is white space.
pub fn white_space(c: char) -> (r: bool)
    ensures
        r == is_white_space(c),
{
    let n: u32 = c as u32;
    (0x09 <= n && n <= 0x0d) || n == 0x20 || n == 0x85 || n == 0xa0 || n == 0x1680 || (0x2000 <= n
        && n <= 0x200a) || n == 0x2028 || n == 0x2029 || n == 0x202f || n == 0x205f || n == 0x3000
}

/// `s` without the white space at its two ends.
pub fn trim(s: &str) -> (r: &str)
    ensures
        r@ == trimmed(s@),
{
    let chars = chars_of(s);
    let n: usize = chars.len();
    let mut from: usize = 0;
    assert(s@.skip(0) == s@);
    while from < n && white_space(chars[from])
        invariant
            n == chars.len(),
            chars@ == s@,
            from <= n,
            trim_start(s@) == trim_start(s@.skip(from as int)),
        decreases n - from,
    {
        assert(s@.skip(from as int).drop_first() == s@.skip(from + 1));
        from = from + 1;
    }
    let ghost rest = s@.skip(from as int);
    assert(trim_start(s@) == rest);
    let mut to: usize = n;
    assert(rest == s@.subrange(from as int, to as int));
    while from < to && white_space(chars[to - 1])
        invariant
            n == chars.len(),
            chars@ == s@,
            from <= to <= n,
            trim_end(rest) == trim_end(s@.subrange(from as int, to as int)),
        decreases to - from,
    {
        assert(s@.subrange(from as int, to as int).drop_last() == s@.subrange(
            from as int,
            to - 1,
        ));
        to = to - 1;
    }
    assert(trim_end(rest) == s@.subrange(from as int, to as int));
    s.substring_char(from, to)
}

/// Whether `a` and `b` hold the same text.
pub fn same_text(a: &str, b: &str) -> (r: bool)
    ensures
        r == (a@ == b@),
{
    let x = chars_of(a);
    let y = chars_of(b);
    if x.len() != y.len() {
        return false;
    }
    let mut i: usize = 0;
    while i < x.len()
        invariant
            i <= x.len(),
            x.len() == y.len(),
            x@ == a@,
            y@ == b@,
            forall|j: int| 0 <= j < i ==> x[j] == y[j],
        decreases x.len() - i,
    {
        if x[i] != y[i] {
            return false;
        }
        i = i + 1;
    }
    assert(a@ =~= b@);
    true
}

proof fn lemma_position_from(s: Seq<char>, pattern: Seq<char>, i: int)
    requires
        0 <= i,
    ensures
        match position_from(s, pattern, i) {
            Some(k) => i <= k && matches_at(s, pattern, k) && forall|j: int|
                i <= j < k ==> !matches_at(s, pattern, j),
            None => forall|j: int| i <= j ==> !matches_at(s, pattern, j),
        },
    decreases s.len() + 1 - i,
{
    if i <= s.len() && !matches_at(s, pattern, i) {
        lemma_position_from(s, pattern, i + 1);
    }
}

/// `position` gives the least position at which the pattern stands, and gives one exactly where
/// the pattern occurs.
pub proof fn lemma_position(s: Seq<char>, pattern: Seq<char>)
    ensures
        position(s, pattern) is Some <==> occurs_in(s, pattern),
        match position(s, pattern) {
            Some(k) => matches_at(s, pattern, k) && forall|j: int|
                j < k ==> !matches_at(s, pattern, j),
            None => true,
        },
{
    lemma_position_from(s, pattern, 0);
}

/// Whether `pattern` stands in `s` at position `i`.
fn stands_at(s: &Vec<char>, pattern: &Vec<char>, i: usize) -> (r: bool)
    requires
        i <= s.len(),
    ensures
        r == matches_at(s@, pattern@, i as int),
{
    if pattern.len() > s.len() - i {
        return false;
    }
    let mut j: usize = 0;
    while j < pattern.len()
        invariant
            i <= s.len(),
            j <= pattern.len() <= s.len() - i,
            forall|k: int| 0 <= k < j ==> s[i + k] == pattern[k],
        decreases pattern.len() - j,
    {
        if s[i + j] != pattern[j] {
            assert(s@.subrange(i as int, i + pattern.len())[j as int] != pattern@[j as int]);
            return false;
        }
        j = j + 1;
    }
    assert(s@.subrange(i as int, i + pattern.len()) =~= pattern@);
    true
}

/// The first position, counted in characters, at which `pattern` stands in `s`.
pub fn find(s: &str, pattern: &str) -> (r: Option<usize>)
    ensures
        match r {
            Some(k) => position(s@, pattern@) == Some(k as int),
            None => position(s@, pattern@) is None,
        },
{
    let x = chars_of(s);
    let p = chars_of(pattern);
    let mut i: usize = 0;
    loop
        invariant
            i <= x.len(),
            x@ == s@,
            p@ == pattern@,
            position(s@, pattern@) == position_from(s@, pattern@, i as int),
        decreases x.len() - i,
    {
        if stands_at(&x, &p, i) {
            return Some(i);
        }
        if i == x.len() {
            assert(position_from(s@, pattern@, i + 1) is None);
            return None;
        }
        i = i + 1;
    }
}

/// Whether `pattern` stands somewhere in `s`.
pub fn contains(s: &str, pattern: &str) -> (r: bool)
    ensures
        r == occurs_in(s@, pattern@),
{
    proof {
        lemma_position(s@, pattern@);
    }
    find(s, pattern).is_some()
}

/// `s` from the `from`-th character up to the `to`-th.
fn part(s: &str, from: usize, to: usize) -> (r: String)
    requires
        from <= to <= s@.len(),
    ensures
        r@ == s@.subrange(from as int, to as int),
{
    s.substring_char(from, to).to_owned()
}

/// What follows `prefix` in `s`, where `s` starts with it.
pub fn strip_prefix(s: &str, prefix: &str) -> (r: Option<String>)
    ensures
        match r {
            Some(rest) => prefix@.is_prefix_of(s@) && rest@ == s@.skip(prefix@.len() as int),
            None => !prefix@.is_prefix_of(s@),
        },
{
    let n: usize = s.unicode_len();
    let k: usize = prefix.unicode_len();
    if n < k {
        return None;
    }
    let start = s.substring_char(0, k);
    if same_text(start, prefix) {
        assert(prefix@ =~= s@.subrange(0, k as int));
        let rest = s.substring_char(k, n);
        assert(rest@ == s@.skip(k as int));
        Some(rest.to_owned())
    } else {
        assert(!prefix@.is_prefix_of(s@)) by {
            if prefix@.is_prefix_of(s@) {
                assert(s@.subrange(0, k as int) =~= prefix@);
            }
        }
        None
    }
}

/// The parts of `s` between the occurrences of `separator`.
pub fn split_at_char(s: &str, separator: char) -> (r: Vec<String>)
    ensures
        texts(r@) == split(s@, separator),
{
    let x = chars_of(s);
    let mut parts: Vec<String> = Vec::new();
    let mut from: usize = 0;
    let mut i: usize = 0;
    assert(s@.skip(0) == s@);
    assert(texts(parts@) + split(s@, separator) == split(s@, separator));
    while i < x.len()
        invariant
            from <= i <= x.len(),
            x@ == s@,
            forall|j: int| from <= j < i ==> s@[j] != separator,
            texts(parts@) + split(s@.skip(from as int), separator) == split(s@, separator),
        decreases x.len() - i,
    {
        if x[i] == separator {
            let ghost rest = s@.skip(from as int);
            let ghost before = texts(parts@);
            let piece = part(s, from, i);
            proof {
                lemma_first_char_unique(rest, separator, i - from);
                assert(rest.take(i - from) == piece@);
                assert(rest.skip(i - from + 1) == s@.skip(i + 1));
                assert(split(rest, separator) == seq![piece@] + split(s@.skip(i + 1), separator));
            }
            parts.push(piece);
            proof {
                assert(texts(parts@) == before.push(piece@));
                assert(before + (seq![piece@] + split(s@.skip(i + 1), separator)) == before.push(
                    piece@,
                ) + split(s@.skip(i + 1), separator));
            }
            from = i + 1;
        }
        i = i + 1;
    }
    let ghost rest = s@.skip(from as int);
    let ghost before = texts(parts@);
    proof {
        lemma_first_char_unique(rest, separator, i - from);
        assert(split(rest, separator) == seq![rest]);
    }
    let piece = part(s, from, i);
    assert(piece@ == rest);
    parts.push(piece);
    assert(texts(parts@) == before.push(rest));
    assert(before + seq![rest] == before.push(rest));
    parts
}

/// The lines of `s`.
pub fn lines_of(s: &str) -> (r: Vec<String>)
    ensures
        texts(r@) == lines(s@),
{
    let x = chars_of(s);
    let mut found: Vec<String> = Vec::new();
    let mut from: usize = 0;
    let mut i: usize = 0;
    assert(s@.skip(0) == s@);
    assert(texts(found@) + lines(s@) == lines(s@));
    while i < x.len()
        invariant
            from <= i <= x.len(),
            x@ == s@,
            forall|j: int| from <= j < i ==> s@[j] != '\n',
            texts(found@) + lines(s@.skip(from as int)) == lines(s@),
        decreases x.len() - i,
    {
        if x[i] == '\n' {
            let ghost rest = s@.skip(from as int);
            let ghost before = texts(found@);
            let to: usize = if i > from && x[i - 1] == '\r' {
                i - 1
            } else {
                i
            };
            let line = part(s, from, to);
            proof {
                lemma_first_char_unique(rest, '\n', i - from);
                if i > from {
                    assert(rest.take(i - from).last() == s@[i - 1]);
                }
                assert(without_carriage_return(rest.take(i - from)) == line@);
                assert(rest.skip(i - from + 1) == s@.skip(i + 1));
                assert(lines(rest) == seq![line@] + lines(s@.skip(i + 1)));
            }
            found.push(line);
            proof {
                assert(texts(found@) == before.push(line@));
                assert(before + (seq![line@] + lines(s@.skip(i + 1))) == before.push(line@)
                    + lines(s@.skip(i + 1)));
            }
            from = i + 1;
        }
        i = i + 1;
    }
    let ghost rest = s@.skip(from as int);
    let ghost before = texts(found@);
    proof {
        lemma_first_char_unique(rest, '\n', i - from);
    }
    if from < i {
        let line = part(s, from, i);
        assert(line@ == rest);
        found.push(line);
        assert(texts(found@) == before.push(rest));
        assert(before + seq![rest] == before.push(rest));
    } else {
        assert(before + lines(rest) == before);
    }
    found
}

/// `c`, in lower case where it is one of the letters A to Z.
fn lower(c: char) -> (r: u32)
    ensures
        r == ascii_lower(c) as u32,
{
    if 'A' <= c && c <= 'Z' {
        c as u32 + 32
    } else {
        c as u32
    }
}

/// Whether two texts are the same but for the case of the letters A to Z.
pub fn eq_ignore_ascii_case(a: &str, b: &str) -> (r: bool)
    ensures
        r == same_ignoring_ascii_case(a@, b@),
{
    let x = chars_of(a);
    let y = chars_of(b);
    if x.len() != y.len() {
        return false;
    }
    let mut i: usize = 0;
    while i < x.len()
        invariant
            i <= x.len(),
            x.len() == y.len(),
            x@ == a@,
            y@ == b@,
            forall|j: int| 0 <= j < i ==> #[trigger] ascii_lower(a@[j]) == ascii_lower(b@[j]),
        decreases x.len() - i,
    {
        if lower(x[i]) != lower(y[i]) {
            assert(ascii_lower(a@[i as int]) != ascii_lower(b@[i as int]));
            return false;
        }
        i = i + 1;
    }
    true
}

/// Whether `a` comes before `b` in the order of code points.
pub fn before(a: &str, b: &str) -> (r: bool)
    ensures
        r == text_before(a@, b@),
{
    let x = chars_of(a);
    let y = chars_of(b);
    let mut i: usize = 0;
    assert(a@.skip(0) == a@ && b@.skip(0) == b@);
    while i < x.len() && i < y.len()
        invariant
            i <= x.len(),
            i <= y.len(),
            x@ == a@,
            y@ == b@,
            text_before(a@, b@) == text_before(a@.skip(i as int), b@.skip(i as int)),
        decreases x.len() - i,
    {
        if x[i] != y[i] {
            return x[i] < y[i];
        }
        assert(a@.skip(i as int).drop_first() == a@.skip(i + 1));
        assert(b@.skip(i as int).drop_first() == b@.skip(i + 1));
        i = i + 1;
    }
    x.len() < y.len()
}

proof fn lemma_trim_start_of(blank: Seq<char>, rest: Seq<char>)
    requires
        forall|i: int| 0 <= i < blank.len() ==> is_white_space(#[trigger] blank[i]),
        rest.len() > 0 ==> !is_white_space(rest[0]),
    ensures
        trim_start(blank + rest) == rest,
    decreases blank.len(),
{
    let s = blank + rest;
    if blank.len() == 0 {
        assert(s == rest);
    } else {
        assert(s[0] == blank[0]);
        assert(s.drop_first() == blank.drop_first() + rest);
        lemma_trim_start_of(blank.drop_first(), rest);
    }
}

proof fn lemma_trim_end_of(rest: Seq<char>, blank: Seq<char>)
    requires
        forall|i: int| 0 <= i < blank.len() ==> is_white_space(#[trigger] blank[i]),
        rest.len() > 0 ==> !is_white_space(rest.last()),
    ensures
        trim_end(rest + blank) == rest,
    decreases blank.len(),
{
    let s = rest + blank;
    if blank.len() == 0 {
        assert(s == rest);
    } else {
        assert(s.last() == blank[blank.len() - 1]);
        assert(s.drop_last() == rest + blank.drop_last());
        lemma_trim_end_of(rest, blank.drop_last());
    }
}

/// Trimming takes the white space off the two ends of a text, and takes nothing else.
pub proof fn trimming_takes_off_what_is_blank(
    before: Seq<char>,
    inner: Seq<char>,
    after: Seq<char>,
)
    requires
        forall|i: int| 0 <= i < before.len() ==> is_white_space(#[trigger] before[i]),
        forall|i: int| 0 <= i < after.len() ==> is_white_space(#[trigger] after[i]),
        inner.len() > 0 ==> !is_white_space(inner[0]) && !is_white_space(inner.last()),
    ensures
        trimmed(before + inner + after) == inner,
{
    if inner.len() == 0 {
        let blank = before + after;
        assert(before + inner + after == blank + inner);
        assert forall|i: int| 0 <= i < blank.len() implies is_white_space(#[trigger] blank[i]) by {
            if i < before.len() {
                assert(blank[i] == before[i]);
            } else {
                assert(blank[i] == after[i - before.len()]);
            }
        }
        lemma_trim_start_of(blank, inner);
    } else {
        assert(before + inner + after == before + (inner + after));
        assert((inner + after)[0] == inner[0]);
        lemma_trim_start_of(before, inner + after);
        lemma_trim_end_of(inner, after);
    }
}

/// A search gives a place at which the pattern stands, letter by letter, and there is no such
/// place before it. A pattern that stands at some place is found.
pub proof fn search_gives_the_first_place(s: Seq<char>, pattern: Seq<char>, i: int)
    ensures
        position(s, pattern) matches Some(k) ==> 0 <= k <= s.len() - pattern.len() && forall|j: int|
            0 <= j < pattern.len() ==> #[trigger] s[k + j] == pattern[j],
        0 <= i <= s.len() - pattern.len() && (forall|j: int|
            0 <= j < pattern.len() ==> #[trigger] s[i + j] == pattern[j]) ==> occurs_in(s, pattern)
            && position(s, pattern) is Some && position(s, pattern)->0 <= i,
        occurs_in(s, pattern) <==> position(s, pattern) is Some,
{
    lemma_position(s, pattern);
    if let Some(k) = position(s, pattern) {
        assert forall|j: int| 0 <= j < pattern.len() implies #[trigger] s[k + j] == pattern[j] by {
            assert(s.subrange(k, k + pattern.len())[j] == s[k + j]);
        }
    }
    if 0 <= i <= s.len() - pattern.len() && (forall|j: int|
        0 <= j < pattern.len() ==> #[trigger] s[i + j] == pattern[j]) {
        assert forall|j: int| 0 <= j < pattern.len() implies s.subrange(i, i + pattern.len())[j]
            == pattern[j] by {
            assert(s[i + j] == pattern[j]);
        }
        assert(s.subrange(i, i + pattern.len()) =~= pattern);
        assert(matches_at(s, pattern, i));
    }
}

/// Splitting cuts a text at each separator: what stands before the first one is the first part,
/// and what stands after it is split in turn. A text without a separator is one part.
pub proof fn split_cuts_at_each_separator(first: Seq<char>, separator: char, rest: Seq<char>)
    requires
        forall|i: int| 0 <= i < first.len() ==> first[i] != separator,
    ensures
        split(first, separator) == seq![first],
        split(first + seq![separator] + rest, separator) == seq![first] + split(rest, separator),
{
    lemma_first_char_unique(first, separator, first.len() as int);
    let whole = first + seq![separator] + rest;
    lemma_first_char_unique(whole, separator, first.len() as int);
    assert(whole.take(first.len() as int) == first);
    assert(whole.skip(first.len() as int + 1) == rest);
}

/// A line ends at a line feed, or at a carriage return and a line feed, which are no part of it,
/// and what follows is lines in turn. A text without a line feed is one line, as it is, unless it
/// is empty.
pub proof fn lines_end_at_line_feeds(line: Seq<char>, rest: Seq<char>)
    requires
        forall|i: int| 0 <= i < line.len() ==> line[i] != '\n',
    ensures
        lines(Seq::empty()) == Seq::<Seq<char>>::empty(),
        line.len() > 0 ==> lines(line) == seq![line],
        lines(line + seq!['\r', '\n'] + rest) == seq![line] + lines(rest),
        line.len() == 0 || line.last() != '\r' ==> lines(line + seq!['\n'] + rest) == seq![line]
            + lines(rest),
{
    let n = line.len() as int;
    lemma_first_char_unique(line, '\n', n);
    let whole = line + seq!['\r', '\n'] + rest;
    lemma_first_char_unique(whole, '\n', n + 1);
    assert(whole.take(n + 1).drop_last() == line);
    assert(whole.skip(n + 2) == rest);
    let other = line + seq!['\n'] + rest;
    lemma_first_char_unique(other, '\n', n);
    assert(other.take(n) == line);
    assert(other.skip(n + 1) == rest);
}

/// Two texts are the same but for case exactly where they are as long, and each two letters are
/// the same or one of A to Z and its small letter.
pub proof fn case_is_ignored_letter_by_letter(a: Seq<char>, b: Seq<char>)
    ensures
        same_ignoring_ascii_case(a, b) <==> a.len() == b.len() && forall|i: int|
            0 <= i < a.len() ==> (#[trigger] a[i] == b[i] || ('A' <= a[i] <= 'Z' && b[i] as u32
                == a[i] as u32 + 32) || ('A' <= b[i] <= 'Z' && a[i] as u32 == b[i] as u32 + 32)),
{
    if same_ignoring_ascii_case(a, b) {
        assert forall|i: int| 0 <= i < a.len() implies (#[trigger] a[i] == b[i] || ('A' <= a[i]
            <= 'Z' && b[i] as u32 == a[i] as u32 + 32) || ('A' <= b[i] <= 'Z' && a[i] as u32
            == b[i] as u32 + 32)) by {
            assert(ascii_lower(a[i]) == ascii_lower(b[i]));
        }
    }
    if a.len() == b.len() && forall|i: int|
        0 <= i < a.len() ==> (#[trigger] a[i] == b[i] || ('A' <= a[i] <= 'Z' && b[i] as u32
            == a[i] as u32 + 32) || ('A' <= b[i] <= 'Z' && a[i] as u32 == b[i] as u32 + 32)) {
        assert forall|i: int| 0 <= i < a.len() implies #[trigger] ascii_lower(a[i]) == ascii_lower(
            b[i],
        ) by {
            assert(a[i] == b[i] || ('A' <= a[i] <= 'Z' && b[i] as u32 == a[i] as u32 + 32) || ('A'
                <= b[i] <= 'Z' && a[i] as u32 == b[i] as u32 + 32));
        }
    }
}

/// Texts are ordered by the first letters at which they differ, and a text that another one
/// starts with comes before it.
pub proof fn first_difference_decides_the_order(a: Seq<char>, b: Seq<char>, k: int)
    requires
        0 <= k <= a.len(),
        k <= b.len(),
        forall|i: int| 0 <= i < k ==> a[i] == b[i],
    ensures
        k < a.len() && k < b.len() && a[k] != b[k] ==> (text_before(a, b) <==> a[k] < b[k]),
        k == a.len() || k == b.len() ==> (text_before(a, b) <==> a.len() < b.len()),
    decreases k,
{
    if k > 0 {
        assert(a[0] == b[0]);
        let x = a.drop_first();
        let y = b.drop_first();
        assert forall|i: int| 0 <= i < k - 1 implies x[i] == y[i] by {
            assert(a[i + 1] == b[i + 1]);
        }
        first_difference_decides_the_order(x, y, k - 1);
    }
}

/// A list of strings and the list of their texts agree place by place.
pub proof fn texts_are_those_of_the_strings(list: Seq<String>, i: int)
    ensures
        texts(list).len() == list.len(),
        0 <= i < list.len() ==> texts(list)[i] == list[i]@,
{
}

} // verus!
