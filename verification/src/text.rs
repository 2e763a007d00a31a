//! Character sequences: the small vocabulary of trimming, searching, splitting and
//! number rendering that the rest of the library is written in.

use vstd::prelude::*;
use crate::trusted::string_push;

verus! {

/// Unicode's `White_Space` property.
pub open spec fn is_whitespace(c: char) -> bool {
    let n = c as u32;
    ||| 0x09 <= n <= 0x0D
    ||| n == 0x20
    ||| n == 0x85
    ||| n == 0xA0
    ||| n == 0x1680
    ||| 0x2000 <= n <= 0x200A
    ||| n == 0x2028
    ||| n == 0x2029
    ||| n == 0x202F
    ||| n == 0x205F
    ||| n == 0x3000
}

/// Unicode's general category `Cc`.
pub open spec fn is_control(c: char) -> bool {
    let n = c as u32;
    n <= 0x1F || 0x7F <= n <= 0x9F
}

/// Whether a character is white space.
pub fn whitespace(c: char) -> (r: bool)
    ensures
        r == is_whitespace(c),
{
    let n: u32 = c as u32;
    (0x09 <= n && n <= 0x0D) || n == 0x20 || n == 0x85 || n == 0xA0 || n == 0x1680
        || (0x2000 <= n && n <= 0x200A) || n == 0x2028 || n == 0x2029 || n == 0x202F
        || n == 0x205F || n == 0x3000
}

/// Whether a character is a control character.
pub fn control(c: char) -> (r: bool)
    ensures
        r == is_control(c),
{
    let n: u32 = c as u32;
    n <= 0x1F || (0x7F <= n && n <= 0x9F)
}

/// The characters of a string slice, in order.
pub fn to_chars(s: &str) -> (v: Vec<char>)
    ensures
        v@ == s@,
{
    let mut v: Vec<char> = Vec::new();
    for c in it: s.chars()
        invariant
            v@ == it.seq().take(it.index() as int),
            it.seq() == s@,
    {
        v.push(c);
    }
    v
}

/// A string made of the given characters, in order.
pub fn from_chars(v: &Vec<char>) -> (s: String)
    ensures
        s@ == v@,
{
    let mut s = String::new();
    let mut i: usize = 0;
    while i < v.len()
        invariant
            i <= v.len(),
            s@ == v@.take(i as int),
        decreases v.len() - i,
    {
        string_push(&mut s, v[i]);
        assert(v@.take(i + 1) =~= v@.take(i as int).push(v@[i as int]));
        i += 1;
    }
    assert(v@.take(v.len() as int) =~= v@);
    s
}

/// The characters from position `from` up to, not including, position `to`.
pub fn slice(v: &Vec<char>, from: usize, to: usize) -> (r: Vec<char>)
    requires
        from <= to <= v.len(),
    ensures
        r@ == v@.subrange(from as int, to as int),
{
    let mut r: Vec<char> = Vec::new();
    let mut i: usize = from;
    while i < to
        invariant
            from <= i <= to <= v.len(),
            r@ == v@.subrange(from as int, i as int),
        decreases to - i,
    {
        r.push(v[i]);
        assert(v@.subrange(from as int, i + 1) =~= v@.subrange(from as int, i as int).push(
            v@[i as int],
        ));
        i += 1;
    }
    r
}

/// Whether `x` belongs to the class that is being stripped: white space, or one given character.
pub open spec fn strips(ws: bool, m: char, x: char) -> bool {
    if ws { is_whitespace(x) } else { x == m }
}

/// `s` without the characters of the class at its start.
pub open spec fn strip_start(s: Seq<char>, ws: bool, m: char) -> Seq<char>
    decreases s.len(),
{
    if s.len() > 0 && strips(ws, m, s[0]) {
        strip_start(s.skip(1), ws, m)
    } else {
        s
    }
}

/// `s` without the characters of the class at its end.
pub open spec fn strip_end(s: Seq<char>, ws: bool, m: char) -> Seq<char>
    decreases s.len(),
{
    if s.len() > 0 && strips(ws, m, s.last()) {
        strip_end(s.drop_last(), ws, m)
    } else {
        s
    }
}

/// `s` without leading and trailing white space.
pub open spec fn trim(s: Seq<char>) -> Seq<char> {
    strip_end(strip_start(s, true, ' '), true, ' ')
}

/// `s` without leading and trailing occurrences of `m`.
pub open spec fn trim_matches(s: Seq<char>, m: char) -> Seq<char> {
    strip_end(strip_start(s, false, m), false, m)
}

/// Stripping the start drops exactly the longest run of the class that `s` begins with.
pub proof fn lemma_strip_start(s: Seq<char>, ws: bool, m: char, a: int)
    requires
        0 <= a <= s.len(),
        forall|i: int| 0 <= i < a ==> strips(ws, m, #[trigger] s[i]),
        a < s.len() ==> !strips(ws, m, s[a]),
    ensures
        strip_start(s, ws, m) == s.skip(a),
    decreases a,
{
    if a == 0 {
        assert(s.skip(0) =~= s);
    } else {
        let t = s.skip(1);
        assert(forall|i: int| 0 <= i < a - 1 ==> t[i] == s[i + 1]);
        lemma_strip_start(t, ws, m, a - 1);
        assert(t.skip(a - 1) =~= s.skip(a));
    }
}

/// Stripping the end drops exactly the longest run of the class that `s` ends with.
pub proof fn lemma_strip_end(s: Seq<char>, ws: bool, m: char, b: int)
    requires
        0 <= b <= s.len(),
        forall|i: int| b <= i < s.len() ==> strips(ws, m, #[trigger] s[i]),
        b > 0 ==> !strips(ws, m, s[b - 1]),
    ensures
        strip_end(s, ws, m) == s.take(b),
    decreases s.len() - b,
{
    if b == s.len() {
        assert(s.take(b) =~= s);
    } else {
        let t = s.drop_last();
        assert(forall|i: int| b <= i < t.len() ==> t[i] == s[i]);
        lemma_strip_end(t, ws, m, b);
        assert(t.take(b) =~= s.take(b));
    }
}

fn in_class(ws: bool, m: char, x: char) -> (r: bool)
    ensures
        r == strips(ws, m, x),
{
    if ws {
        whitespace(x)
    } else {
        x == m
    }
}

fn stripped(v: &Vec<char>, ws: bool, m: char) -> (r: Vec<char>)
    ensures
        r@ == strip_end(strip_start(v@, ws, m), ws, m),
{
    let mut a: usize = 0;
    while a < v.len() && in_class(ws, m, v[a])
        invariant
            a <= v.len(),
            forall|i: int| 0 <= i < a ==> strips(ws, m, #[trigger] v@[i]),
        decreases v.len() - a,
    {
        a += 1;
    }
    let mut b: usize = v.len();
    while b > a && in_class(ws, m, v[b - 1])
        invariant
            a <= b <= v.len(),
            forall|i: int| b <= i < v.len() ==> strips(ws, m, #[trigger] v@[i]),
        decreases b,
    {
        b -= 1;
    }
    proof {
        lemma_strip_start(v@, ws, m, a as int);
        let t = v@.skip(a as int);
        assert(forall|i: int| 0 <= i < t.len() ==> t[i] == v@[i + a]);
        lemma_strip_end(t, ws, m, b - a);
        assert(t.take(b - a) =~= v@.subrange(a as int, b as int));
    }
    slice(v, a, b)
}

/// `v` without leading and trailing white space.
pub fn trimmed(v: &Vec<char>) -> (r: Vec<char>)
    ensures
        r@ == trim(v@),
{
    stripped(v, true, ' ')
}

/// `v` without leading and trailing occurrences of `m`.
pub fn trimmed_of(v: &Vec<char>, m: char) -> (r: Vec<char>)
    ensures
        r@ == trim_matches(v@, m),
{
    stripped(v, false, m)
}


/// Whether the two sequences hold the same characters.
pub fn same(a: &Vec<char>, b: &Vec<char>) -> (r: bool)
    ensures
        r == (a@ == b@),
{
    if a.len() != b.len() {
        return false;
    }
    let mut i: usize = 0;
    while i < a.len()
        invariant
            i <= a.len(),
            a.len() == b.len(),
            a@.take(i as int) == b@.take(i as int),
        decreases a.len() - i,
    {
        if a[i] != b[i] {
            assert(a@[i as int] != b@[i as int]);
            return false;
        }
        assert(a@.take(i + 1) =~= a@.take(i as int).push(a@[i as int]));
        assert(b@.take(i + 1) =~= b@.take(i as int).push(b@[i as int]));
        i += 1;
    }
    assert(a@.take(a.len() as int) =~= a@);
    assert(b@.take(b.len() as int) =~= b@);
    true
}

/// Whether the two string slices hold the same characters.
pub fn text_is(a: &str, b: &str) -> (r: bool)
    ensures
        r == (a@ == b@),
{
    let x = to_chars(a);
    let y = to_chars(b);
    same(&x, &y)
}

/// Whether `pat` stands in `s` at position `i`.
pub open spec fn occurs_at(s: Seq<char>, pat: Seq<char>, i: int) -> bool {
    0 <= i && i + pat.len() <= s.len() && s.subrange(i, i + pat.len()) == pat
}

/// Whether `s` begins with `pat`.
pub open spec fn starts_with(s: Seq<char>, pat: Seq<char>) -> bool {
    occurs_at(s, pat, 0)
}

/// Whether `s` ends with `pat`.
pub open spec fn ends_with(s: Seq<char>, pat: Seq<char>) -> bool {
    occurs_at(s, pat, s.len() - pat.len())
}

/// The first position at or after `from` where `pat` stands in `s`.
pub open spec fn find_from(s: Seq<char>, pat: Seq<char>, from: int) -> Option<int>
    decreases s.len() - from + 1,
{
    if from < 0 || from + pat.len() > s.len() {
        None
    } else if occurs_at(s, pat, from) {
        Some(from)
    } else {
        find_from(s, pat, from + 1)
    }
}

/// The first position where `pat` stands in `s`.
pub open spec fn find(s: Seq<char>, pat: Seq<char>) -> Option<int> {
    find_from(s, pat, 0)
}

/// Whether `pat` stands somewhere in `s`.
pub open spec fn contains(s: Seq<char>, pat: Seq<char>) -> bool {
    find(s, pat) is Some
}

/// `find_from` gives a position where the pattern stands, and the first such one.
pub proof fn lemma_find_from(s: Seq<char>, pat: Seq<char>, from: int)
    requires
        0 <= from,
    ensures
        match find_from(s, pat, from) {
            Some(i) => from <= i && occurs_at(s, pat, i) && forall|j: int|
                from <= j < i ==> !occurs_at(s, pat, j),
            None => forall|j: int| from <= j ==> !occurs_at(s, pat, j),
        },
    decreases s.len() - from + 1,
{
    if from + pat.len() > s.len() {
    } else if occurs_at(s, pat, from) {
    } else {
        lemma_find_from(s, pat, from + 1);
    }
}

/// Whether `pat` stands in `s` at position `i`.
pub fn has_at(s: &Vec<char>, pat: &Vec<char>, i: usize) -> (r: bool)
    ensures
        r == occurs_at(s@, pat@, i as int),
{
    if pat.len() > s.len() || i > s.len() - pat.len() {
        return false;
    }
    let ghost window = s@.subrange(i as int, i + pat.len());
    let mut k: usize = 0;
    while k < pat.len()
        invariant
            k <= pat.len(),
            i + pat.len() <= s.len(),
            window == s@.subrange(i as int, i + pat.len()),
            window.take(k as int) == pat@.take(k as int),
        decreases pat.len() - k,
    {
        if s[i + k] != pat[k] {
            assert(window[k as int] != pat@[k as int]);
            return false;
        }
        assert(window.take(k + 1) =~= window.take(k as int).push(window[k as int]));
        assert(pat@.take(k + 1) =~= pat@.take(k as int).push(pat@[k as int]));
        k += 1;
    }
    assert(window.take(pat.len() as int) =~= window);
    assert(pat@.take(pat.len() as int) =~= pat@);
    true
}

/// Whether `s` begins with `pat`.
pub fn begins_with(s: &Vec<char>, pat: &Vec<char>) -> (r: bool)
    ensures
        r == starts_with(s@, pat@),
{
    has_at(s, pat, 0)
}

/// Whether `s` ends with `pat`.
pub fn finishes_with(s: &Vec<char>, pat: &Vec<char>) -> (r: bool)
    ensures
        r == ends_with(s@, pat@),
{
    if pat.len() > s.len() {
        false
    } else {
        has_at(s, pat, s.len() - pat.len())
    }
}

/// The first position where `pat` stands in `s`.
pub fn position(s: &Vec<char>, pat: &Vec<char>) -> (r: Option<usize>)
    ensures
        match r {
            Some(i) => find(s@, pat@) == Some(i as int),
            None => find(s@, pat@) is None,
        },
{
    if pat.len() > s.len() {
        return None;
    }
    let last: usize = s.len() - pat.len();
    let mut i: usize = 0;
    loop
        invariant
            i <= last,
            last == s.len() - pat.len(),
            find(s@, pat@) == find_from(s@, pat@, i as int),
        decreases last - i,
    {
        if has_at(s, pat, i) {
            return Some(i);
        }
        if i == last {
            assert(find_from(s@, pat@, i + 1) is None);
            return None;
        }
        i += 1;
    }
}

/// Whether `pat` stands somewhere in `s`.
pub fn includes(s: &Vec<char>, pat: &Vec<char>) -> (r: bool)
    ensures
        r == contains(s@, pat@),
{
    position(s, pat).is_some()
}

/// The pieces of `s` between occurrences of `a` or `b`; always at least one piece.
pub open spec fn split_on(s: Seq<char>, a: char, b: char) -> Seq<Seq<char>>
    decreases s.len(),
{
    if s.len() == 0 {
        seq![Seq::<char>::empty()]
    } else {
        let before = split_on(s.drop_last(), a, b);
        if s.last() == a || s.last() == b {
            before.push(Seq::<char>::empty())
        } else {
            before.drop_last().push(before.last().push(s.last()))
        }
    }
}

/// The pieces of `s` between occurrences of `sep`; always at least one piece.
pub open spec fn split(s: Seq<char>, sep: char) -> Seq<Seq<char>> {
    split_on(s, sep, sep)
}

/// The view of a list of character sequences.
pub open spec fn rows(v: Seq<Vec<char>>) -> Seq<Seq<char>> {
    Seq::new(v.len(), |i: int| v[i]@)
}

/// The pieces of `s` between occurrences of `a` or `b`.
pub fn split_at_any(s: &Vec<char>, a: char, b: char) -> (r: Vec<Vec<char>>)
    ensures
        rows(r@) == split_on(s@, a, b),
        r.len() >= 1,
{
    let mut done: Vec<Vec<char>> = Vec::new();
    let mut cur: Vec<char> = Vec::new();
    let mut i: usize = 0;
    while i < s.len()
        invariant
            i <= s.len(),
            split_on(s@.take(i as int), a, b) == rows(done@).push(cur@),
        decreases s.len() - i,
    {
        let c = s[i];
        proof {
            assert(s@.take(i + 1).drop_last() =~= s@.take(i as int));
            assert(rows(done@).push(cur@).drop_last() =~= rows(done@));
        }
        if c == a || c == b {
            let ghost before = rows(done@);
            done.push(cur);
            cur = Vec::new();
            assert(rows(done@) =~= before.push(done@.last()@));
        } else {
            cur.push(c);
        }
        i += 1;
    }
    assert(s@.take(s.len() as int) =~= s@);
    let ghost before = rows(done@);
    done.push(cur);
    assert(rows(done@) =~= before.push(done@.last()@));
    done
}

/// The pieces of `s` between occurrences of `sep`.
pub fn split_at_each(s: &Vec<char>, sep: char) -> (r: Vec<Vec<char>>)
    ensures
        rows(r@) == split(s@, sep),
        r.len() >= 1,
{
    split_at_any(s, sep, sep)
}

/// `s` without one carriage return at its end, if it has one.
pub open spec fn strip_cr(s: Seq<char>) -> Seq<char> {
    if s.len() > 0 && s.last() == '\r' {
        s.drop_last()
    } else {
        s
    }
}

/// The finished lines of `s` and the characters after its last line feed.
pub open spec fn lines_scan(s: Seq<char>) -> (Seq<Seq<char>>, Seq<char>)
    decreases s.len(),
{
    if s.len() == 0 {
        (Seq::<Seq<char>>::empty(), Seq::<char>::empty())
    } else {
        let before = lines_scan(s.drop_last());
        if s.last() == '\n' {
            (before.0.push(strip_cr(before.1)), Seq::<char>::empty())
        } else {
            (before.0, before.1.push(s.last()))
        }
    }
}

/// The lines of `s`: ended by a line feed, or by a carriage return and a line feed;
/// what follows the last line feed is a line if it is not empty.
pub open spec fn lines(s: Seq<char>) -> Seq<Seq<char>> {
    let scan = lines_scan(s);
    if scan.1.len() > 0 {
        scan.0.push(scan.1)
    } else {
        scan.0
    }
}

/// The lines of `s`.
pub fn split_lines(s: &Vec<char>) -> (r: Vec<Vec<char>>)
    ensures
        rows(r@) == lines(s@),
{
    let mut done: Vec<Vec<char>> = Vec::new();
    let mut cur: Vec<char> = Vec::new();
    let mut i: usize = 0;
    while i < s.len()
        invariant
            i <= s.len(),
            lines_scan(s@.take(i as int)) == (rows(done@), cur@),
        decreases s.len() - i,
    {
        let c = s[i];
        proof {
            assert(s@.take(i + 1).drop_last() =~= s@.take(i as int));
        }
        if c == '\n' {
            let n: usize = cur.len();
            let line = if n > 0 && cur[n - 1] == '\r' {
                slice(&cur, 0, n - 1)
            } else {
                cur
            };
            assert(line@ =~= strip_cr(cur@));
            let ghost before = rows(done@);
            done.push(line);
            cur = Vec::new();
            assert(rows(done@) =~= before.push(done@.last()@));
        } else {
            cur.push(c);
        }
        i += 1;
    }
    assert(s@.take(s.len() as int) =~= s@);
    if cur.len() > 0 {
        let ghost before = rows(done@);
        done.push(cur);
        assert(rows(done@) =~= before.push(done@.last()@));
    }
    done
}

/// The parts in order, with `sep` between each two neighbours.
pub open spec fn join(parts: Seq<Seq<char>>, sep: Seq<char>) -> Seq<char>
    decreases parts.len(),
{
    if parts.len() == 0 {
        Seq::<char>::empty()
    } else if parts.len() == 1 {
        parts[0]
    } else {
        join(parts.drop_last(), sep) + sep + parts.last()
    }
}

/// The views of a list of strings.
pub open spec fn texts(v: Seq<String>) -> Seq<Seq<char>> {
    Seq::new(v.len(), |i: int| v[i]@)
}

/// The parts in order, with `sep` between each two neighbours.
pub fn joined(parts: &Vec<String>, sep: &str) -> (r: String)
    ensures
        r@ == join(texts(parts@), sep@),
{
    let mut out = String::new();
    let mut i: usize = 0;
    while i < parts.len()
        invariant
            i <= parts.len(),
            out@ == join(texts(parts@).take(i as int), sep@),
        decreases parts.len() - i,
    {
        proof {
            let upto = texts(parts@).take(i + 1);
            assert(upto.drop_last() =~= texts(parts@).take(i as int));
            assert(upto.last() == parts@[i as int]@);
            if i > 0 {
                assert(texts(parts@).take(i as int).len() >= 1);
            }
        }
        if i > 0 {
            out.append(sep);
        }
        out.append(parts[i].as_str());
        proof {
            if i == 0 {
                assert(out@ =~= parts@[0]@);
            }
        }
        i += 1;
    }
    assert(texts(parts@).take(parts.len() as int) =~= texts(parts@));
    out
}


/// Whether a character is white space in ASCII: space, tab, line feed, form feed or
/// carriage return.
pub open spec fn is_ascii_space(c: char) -> bool {
    c == ' ' || c == '\t' || c == '\n' || c == '\x0C' || c == '\r'
}

/// The finished words of `s` and the characters of the word that is still open.
pub open spec fn words_scan(s: Seq<char>) -> (Seq<Seq<char>>, Seq<char>)
    decreases s.len(),
{
    if s.len() == 0 {
        (Seq::<Seq<char>>::empty(), Seq::<char>::empty())
    } else {
        let before = words_scan(s.drop_last());
        if is_ascii_space(s.last()) {
            if before.1.len() > 0 {
                (before.0.push(before.1), Seq::<char>::empty())
            } else {
                before
            }
        } else {
            (before.0, before.1.push(s.last()))
        }
    }
}

/// The words of `s`: the longest runs of characters that are not ASCII white space.
pub open spec fn words(s: Seq<char>) -> Seq<Seq<char>> {
    let scan = words_scan(s);
    if scan.1.len() > 0 {
        scan.0.push(scan.1)
    } else {
        scan.0
    }
}

/// The words of `s`.
pub fn split_words(s: &Vec<char>) -> (r: Vec<Vec<char>>)
    ensures
        rows(r@) == words(s@),
{
    let mut done: Vec<Vec<char>> = Vec::new();
    let mut cur: Vec<char> = Vec::new();
    let mut i: usize = 0;
    while i < s.len()
        invariant
            i <= s.len(),
            words_scan(s@.take(i as int)) == (rows(done@), cur@),
        decreases s.len() - i,
    {
        let c = s[i];
        proof {
            assert(s@.take(i + 1).drop_last() =~= s@.take(i as int));
        }
        if c == ' ' || c == '\t' || c == '\n' || c == '\x0C' || c == '\r' {
            if cur.len() > 0 {
                let ghost before = rows(done@);
                done.push(cur);
                cur = Vec::new();
                assert(rows(done@) =~= before.push(done@.last()@));
            }
        } else {
            cur.push(c);
        }
        i += 1;
    }
    assert(s@.take(s.len() as int) =~= s@);
    if cur.len() > 0 {
        let ghost before = rows(done@);
        done.push(cur);
        assert(rows(done@) =~= before.push(done@.last()@));
    }
    done
}

/// An ASCII capital as its small letter; any other character as it is.
pub open spec fn ascii_lower(c: char) -> char {
    if 'A' <= c <= 'Z' {
        ((c as u8) + 32) as char
    } else {
        c
    }
}

/// Whether two texts are the same but for the case of ASCII letters.
pub open spec fn same_ignoring_case(a: Seq<char>, b: Seq<char>) -> bool {
    a.len() == b.len() && forall|i: int|
        0 <= i < a.len() ==> ascii_lower(#[trigger] a[i]) == ascii_lower(b[i])
}

/// An ASCII capital as its small letter; any other character as it is.
pub fn lower_ascii(c: char) -> (r: char)
    ensures
        r == ascii_lower(c),
{
    if 'A' <= c && c <= 'Z' {
        ((c as u8) + 32) as char
    } else {
        c
    }
}

/// Whether two texts are the same but for the case of ASCII letters.
pub fn alike(a: &Vec<char>, b: &Vec<char>) -> (r: bool)
    ensures
        r == same_ignoring_case(a@, b@),
{
    if a.len() != b.len() {
        return false;
    }
    let mut i: usize = 0;
    while i < a.len()
        invariant
            i <= a.len(),
            a.len() == b.len(),
            forall|j: int| 0 <= j < i ==> ascii_lower(#[trigger] a@[j]) == ascii_lower(b@[j]),
        decreases a.len() - i,
    {
        if lower_ascii(a[i]) != lower_ascii(b[i]) {
            return false;
        }
        i += 1;
    }
    true
}

/// `s` with each occurrence of `pat` replaced by `with`, going from left to right and
/// never looking again at what was replaced. An empty pattern occurs nowhere.
pub open spec fn replaced(s: Seq<char>, pat: Seq<char>, with: Seq<char>) -> Seq<char>
    decreases s.len(),
{
    if pat.len() == 0 || s.len() < pat.len() {
        s
    } else if occurs_at(s, pat, 0) {
        with + replaced(s.skip(pat.len() as int), pat, with)
    } else {
        seq![s[0]] + replaced(s.skip(1), pat, with)
    }
}

/// `s` with each occurrence of `pat` replaced by `with`.
pub fn replace_each(s: &Vec<char>, pat: &Vec<char>, with: &Vec<char>) -> (r: Vec<char>)
    ensures
        r@ == replaced(s@, pat@, with@),
{
    if pat.len() == 0 {
        return slice(s, 0, s.len());
    }
    let mut out: Vec<char> = Vec::new();
    let mut i: usize = 0;
    assert(s@.skip(0) =~= s@);
    while i < s.len() && pat.len() <= s.len() - i
        invariant
            i <= s.len(),
            pat@.len() > 0,
            replaced(s@, pat@, with@) == out@ + replaced(s@.skip(i as int), pat@, with@),
        decreases s.len() - i,
    {
        let ghost rest = s@.skip(i as int);
        let here = has_at(s, pat, i);
        proof {
            assert(rest.subrange(0, pat@.len() as int) =~= s@.subrange(i as int, i + pat@.len()));
            assert(here == occurs_at(rest, pat@, 0));
        }
        if here {
            let mut k: usize = 0;
            let ghost before = out@;
            while k < with.len()
                invariant
                    k <= with.len(),
                    out@ == before + with@.take(k as int),
                decreases with.len() - k,
            {
                out.push(with[k]);
                assert(out@ =~= before + with@.take(k + 1));
                k += 1;
            }
            proof {
                assert(with@.take(with.len() as int) =~= with@);
                assert(rest.skip(pat@.len() as int) =~= s@.skip(i + pat@.len()));
                assert(out@ + replaced(s@.skip(i + pat@.len()), pat@, with@) =~= before + (with@
                    + replaced(rest.skip(pat@.len() as int), pat@, with@)));
            }
            i += pat.len();
        } else {
            let ghost before = out@;
            out.push(s[i]);
            proof {
                assert(rest.skip(1) =~= s@.skip(i + 1));
                assert(out@ + replaced(s@.skip(i + 1), pat@, with@) =~= before + (seq![rest[0]]
                    + replaced(rest.skip(1), pat@, with@)));
            }
            i += 1;
        }
    }
    let ghost before = out@;
    let ghost tail = s@.skip(i as int);
    while i < s.len()
        invariant
            i <= s.len(),
            out@ + s@.skip(i as int) == before + tail,
        decreases s.len() - i,
    {
        let ghost prev = out@;
        out.push(s[i]);
        assert(out@ + s@.skip(i + 1) =~= prev + s@.skip(i as int));
        i += 1;
    }
    assert(out@ =~= before + tail);
    out
}

/// A text whose first and last characters are not white space is trimmed already.
pub proof fn lemma_trim_tight(s: Seq<char>)
    requires
        s.len() > 0,
        !is_whitespace(s[0]),
        !is_whitespace(s.last()),
    ensures
        trim(s) == s,
{
    lemma_strip_start(s, true, ' ', 0);
    assert(s.skip(0) =~= s);
    lemma_strip_end(s, true, ' ', s.len() as int);
    assert(s.take(s.len() as int) =~= s);
}

/// Characters without a line feed, added to a text, lengthen its last line.
pub proof fn lemma_lines_append_plain(x: Seq<char>, t: Seq<char>)
    requires
        forall|i: int| 0 <= i < t.len() ==> t[i] != '\n',
    ensures
        lines_scan(x + t) == (lines_scan(x).0, lines_scan(x).1 + t),
    decreases t.len(),
{
    if t.len() == 0 {
        assert(x + t =~= x);
        assert(lines_scan(x).1 + t =~= lines_scan(x).1);
    } else {
        let shorter = t.drop_last();
        lemma_lines_append_plain(x, shorter);
        assert((x + t).drop_last() =~= x + shorter);
        assert((x + t).last() == t[t.len() - 1]);
        assert(lines_scan(x).1 + t =~= (lines_scan(x).1 + shorter).push(t.last()));
    }
}

/// A line and its line feed, added to a text that ends a line, add that line.
pub proof fn lemma_lines_append_line(x: Seq<char>, t: Seq<char>)
    requires
        forall|i: int| 0 <= i < t.len() ==> t[i] != '\n',
        lines_scan(x).1.len() == 0,
    ensures
        lines_scan(x + t + seq!['\n']) == (
            lines_scan(x).0.push(strip_cr(t)),
            Seq::<char>::empty(),
        ),
{
    lemma_lines_append_plain(x, t);
    let whole = x + t + seq!['\n'];
    assert(whole.drop_last() =~= x + t);
    assert(whole.last() == '\n');
    assert(lines_scan(x).1 + t =~= t);
}

/// The finished lines of a text stay what they are when the text goes on.
pub proof fn lemma_lines_stay(x: Seq<char>, y: Seq<char>)
    ensures
        lines_scan(x).0.len() <= lines_scan(x + y).0.len(),
        forall|i: int|
            0 <= i < lines_scan(x).0.len() ==> lines_scan(x + y).0[i] == #[trigger] lines_scan(
                x,
            ).0[i],
    decreases y.len(),
{
    if y.len() == 0 {
        assert(x + y =~= x);
    } else {
        lemma_lines_stay(x, y.drop_last());
        assert((x + y).drop_last() =~= x + y.drop_last());
    }
}

/// Characters that are not ASCII white space, added to a text, lengthen its last word.
pub proof fn lemma_words_append_plain(x: Seq<char>, t: Seq<char>)
    requires
        forall|i: int| 0 <= i < t.len() ==> !is_ascii_space(t[i]),
    ensures
        words_scan(x + t) == (words_scan(x).0, words_scan(x).1 + t),
    decreases t.len(),
{
    if t.len() == 0 {
        assert(x + t =~= x);
        assert(words_scan(x).1 + t =~= words_scan(x).1);
    } else {
        let shorter = t.drop_last();
        lemma_words_append_plain(x, shorter);
        assert((x + t).drop_last() =~= x + shorter);
        assert((x + t).last() == t[t.len() - 1]);
        assert(words_scan(x).1 + t =~= (words_scan(x).1 + shorter).push(t.last()));
    }
}

/// Two words with two spaces between them are two words.
pub proof fn lemma_two_words(a: Seq<char>, b: Seq<char>)
    requires
        a.len() > 0,
        b.len() > 0,
        forall|i: int| 0 <= i < a.len() ==> !is_ascii_space(a[i]),
        forall|i: int| 0 <= i < b.len() ==> !is_ascii_space(b[i]),
    ensures
        words(a + seq![' ', ' '] + b) == seq![a, b],
{
    let nothing = Seq::<char>::empty();
    lemma_words_append_plain(nothing, a);
    assert(nothing + a =~= a);
    assert(words_scan(nothing).1 + a =~= a);
    let one = a.push(' ');
    assert(one.drop_last() =~= a);
    assert(words_scan(one) == (seq![a], nothing));
    let two = one.push(' ');
    assert(two.drop_last() =~= one);
    assert(words_scan(two) == (seq![a], nothing));
    lemma_words_append_plain(two, b);
    assert(two + b =~= a + seq![' ', ' '] + b);
    assert(nothing + b =~= b);
    assert(seq![a].push(b) =~= seq![a, b]);
}

} // verus!
