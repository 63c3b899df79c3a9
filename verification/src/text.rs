//! Text: what the crate says about sequences of characters, and the functions
//! that compute it on `String` and `str`.
use vstd::prelude::*;
use vstd::utf8::*;
#[allow(unused_imports)]
use vstd::string::*;

verus! {

broadcast use vstd::string::group_string_axioms;

// ---------------------------------------------------------------------------
// Standard library functions that the crate relies on
// ---------------------------------------------------------------------------
/// `String::push` appends one character to the end of the string.
pub assume_specification[ String::push ](s: &mut String, c: char)
    ensures
        final(s)@ == old(s)@.push(c),
;

/// What `std::string::FromUtf8Error` says of bytes that are not UTF-8.
pub uninterp spec fn utf8_error_text(bytes: Seq<u8>) -> Seq<char>;

/// `String::from_utf8`: the text that the bytes encode when they are valid
/// UTF-8, and otherwise the text of the error.
#[verifier::external_body]
pub(crate) fn utf8_text(bytes: Vec<u8>) -> (r: Result<String, String>)
    ensures
        match r {
            Ok(s) => valid_utf8(bytes@) && s@ == decode_utf8(bytes@),
            Err(e) => !valid_utf8(bytes@) && e@ == utf8_error_text(bytes@),
        },
{
    String::from_utf8(bytes).map_err(|e| e.to_string())
}

/// What `String::from_utf8_lossy` makes of bytes, valid UTF-8 or not.
pub uninterp spec fn lossy_utf8(bytes: Seq<u8>) -> Seq<char>;

/// `String::from_utf8_lossy`: valid UTF-8 is decoded as it stands; where the
/// bytes are not valid UTF-8 the result is the one that `lossy_utf8` names.
#[verifier::external_body]
pub(crate) fn lossy_text(bytes: &[u8]) -> (r: String)
    ensures
        r@ == lossy_utf8(bytes@),
        valid_utf8(bytes@) ==> r@ == decode_utf8(bytes@),
{
    String::from_utf8_lossy(bytes).into_owned()
}

// ---------------------------------------------------------------------------
// Views of sequences and options
// ---------------------------------------------------------------------------
/// The views of the items of a sequence.
pub open spec fn views<T: View>(s: Seq<T>) -> Seq<T::V> {
    s.map_values(|x: T| x@)
}

/// The view of what an option holds.
pub open spec fn view_opt<T: View>(o: Option<T>) -> Option<T::V> {
    match o {
        Some(x) => Some(x@),
        None => None,
    }
}

/// The view of what a result holds.
pub open spec fn view_res<T: View, E: View>(r: Result<T, E>) -> Result<T::V, E::V> {
    match r {
        Ok(x) => Ok(x@),
        Err(e) => Err(e@),
    }
}

/// A copy of an optional string.
pub fn clone_opt(o: &Option<String>) -> (r: Option<String>)
    ensures
        view_opt(r) == view_opt(*o),
{
    match o {
        Some(s) => Some(s.clone()),
        None => None,
    }
}

// ---------------------------------------------------------------------------
// Characters and strings
// ---------------------------------------------------------------------------
/// The characters with the Unicode property White_Space.
pub open spec fn is_white_space(c: char) -> bool {
    let n = c as u32;
    ||| 0x09 <= n <= 0x0d
    ||| n == 0x20
    ||| n == 0x85
    ||| n == 0xa0
    ||| n == 0x1680
    ||| 0x2000 <= n <= 0x200a
    ||| n == 0x2028
    ||| n == 0x2029
    ||| n == 0x202f
    ||| n == 0x205f
    ||| n == 0x3000
}

/// Decides whether a character is white space.
pub fn white_space(c: char) -> (r: bool)
    ensures
        r == is_white_space(c),
{
    let n: u32 = c as u32;
    (0x09 <= n && n <= 0x0d) || n == 0x20 || n == 0x85 || n == 0xa0 || n == 0x1680 || (0x2000 <= n
        && n <= 0x200a) || n == 0x2028 || n == 0x2029 || n == 0x202f || n == 0x205f || n == 0x3000
}

/// The characters of a string, as a vector.
pub fn chars_of(s: &str) -> (r: Vec<char>)
    ensures
        r@ == s@,
{
    let mut out: Vec<char> = Vec::new();
    for c in iter: s.chars()
        invariant
            out@ == iter.seq().subrange(0, iter.index()),
            iter.seq() == s@,
    {
        proof {
            assert(iter.seq().subrange(0, iter.index() + 1) =~= iter.seq().subrange(
                0,
                iter.index(),
            ).push(c));
        }
        out.push(c);
    }
    assert(s@.subrange(0, s@.len() as int) =~= s@);
    out
}

/// The string made of some of the characters of a vector.
pub fn string_of(v: &Vec<char>, from: usize, to: usize) -> (r: String)
    requires
        from <= to <= v@.len(),
    ensures
        r@ == v@.subrange(from as int, to as int),
{
    let mut out: String = String::new();
    let mut i: usize = from;
    while i < to
        invariant
            from <= i <= to <= v@.len(),
            out@ == v@.subrange(from as int, i as int),
        decreases to - i,
    {
        out.push(v[i]);
        proof {
            assert(v@.subrange(from as int, i + 1) =~= v@.subrange(from as int, i as int).push(
                v@[i as int],
            ));
        }
        i = i + 1;
    }
    out
}

/// Decides whether two strings hold the same characters.
pub fn same(a: &str, b: &str) -> (r: bool)
    ensures
        r == (a@ == b@),
{
    let x = a.to_owned();
    let y = b.to_owned();
    x == y
}

/// The concatenation of two strings.
pub fn join(a: &str, b: &str) -> (r: String)
    ensures
        r@ == a@ + b@,
{
    let mut out = a.to_owned();
    out.append(b);
    out
}

/// The concatenation of three strings.
pub fn join3(a: &str, b: &str, c: &str) -> (r: String)
    ensures
        r@ == a@ + b@ + c@,
{
    let mut out = a.to_owned();
    out.append(b);
    out.append(c);
    out
}

/// The first `n` characters, or all of them where there are fewer.
pub open spec fn take(s: Seq<char>, n: nat) -> Seq<char> {
    if s.len() <= n {
        s
    } else {
        s.subrange(0, n as int)
    }
}

/// The first `n` characters of a string, or all of them.
pub fn take_chars(s: &str, n: usize) -> (r: String)
    ensures
        r@ == take(s@, n as nat),
{
    let v = chars_of(s);
    if v.len() <= n {
        s.to_owned()
    } else {
        string_of(&v, 0, n)
    }
}

// ---------------------------------------------------------------------------
// Trimming
// ---------------------------------------------------------------------------
/// The text without its leading white space.
pub open spec fn trim_start(s: Seq<char>) -> Seq<char>
    decreases s.len(),
{
    if s.len() > 0 && is_white_space(s[0]) {
        trim_start(s.subrange(1, s.len() as int))
    } else {
        s
    }
}

/// The text without its trailing white space.
pub open spec fn trim_end(s: Seq<char>) -> Seq<char>
    decreases s.len(),
{
    if s.len() > 0 && is_white_space(s.last()) {
        trim_end(s.drop_last())
    } else {
        s
    }
}

/// The text without white space at either end.
pub open spec fn trimmed(s: Seq<char>) -> Seq<char> {
    trim_end(trim_start(s))
}

/// Removes the white space at both ends.
pub fn trim(s: &str) -> (r: String)
    ensures
        r@ == trimmed(s@),
{
    let v = chars_of(s);
    let n: usize = v.len();
    let mut a: usize = 0;
    assert(v@.subrange(0, n as int) =~= v@);
    while a < n && white_space(v[a])
        invariant
            a <= n == v@.len(),
            trim_start(v@) == trim_start(v@.subrange(a as int, n as int)),
        decreases n - a,
    {
        proof {
            let t = v@.subrange(a as int, n as int);
            assert(t.subrange(1, t.len() as int) =~= v@.subrange(a + 1, n as int));
        }
        a = a + 1;
    }
    let mut b: usize = n;
    assert(trim_start(v@) == v@.subrange(a as int, n as int));
    while a < b && white_space(v[b - 1])
        invariant
            a <= b <= n == v@.len(),
            trim_end(v@.subrange(a as int, n as int)) == trim_end(
                v@.subrange(a as int, b as int),
            ),
        decreases b,
    {
        proof {
            let t = v@.subrange(a as int, b as int);
            assert(t.drop_last() =~= v@.subrange(a as int, b - 1));
        }
        b = b - 1;
    }
    string_of(&v, a, b)
}

/// The text without the run of `c` that ends it.
pub open spec fn trim_end_of(s: Seq<char>, c: char) -> Seq<char>
    decreases s.len(),
{
    if s.len() > 0 && s.last() == c {
        trim_end_of(s.drop_last(), c)
    } else {
        s
    }
}

/// Removes the run of one character that ends a string.
pub fn trim_end_matches(s: &str, c: char) -> (r: String)
    ensures
        r@ == trim_end_of(s@, c),
{
    let v = chars_of(s);
    let n: usize = v.len();
    let mut b: usize = n;
    assert(v@.subrange(0, n as int) =~= v@);
    while 0 < b && v[b - 1] == c
        invariant
            b <= n == v@.len(),
            trim_end_of(v@, c) == trim_end_of(v@.subrange(0, b as int), c),
        decreases b,
    {
        proof {
            let t = v@.subrange(0, b as int);
            assert(t.drop_last() =~= v@.subrange(0, b - 1));
        }
        b = b - 1;
    }
    string_of(&v, 0, b)
}

// ---------------------------------------------------------------------------
// Searching and splitting
// ---------------------------------------------------------------------------
/// The position of the first `c` in a text, and its length where there is none.
pub open spec fn find(s: Seq<char>, c: char) -> int
    decreases s.len(),
{
    if s.len() == 0 || s[0] == c {
        0
    } else {
        1 + find(s.subrange(1, s.len() as int), c)
    }
}

/// `find` gives the first position that holds the character.
pub proof fn lemma_find(s: Seq<char>, c: char)
    ensures
        0 <= find(s, c) <= s.len(),
        find(s, c) < s.len() ==> s[find(s, c)] == c,
        forall|i: int| 0 <= i < find(s, c) ==> s[i] != c,
    decreases s.len(),
{
    if s.len() > 0 && s[0] != c {
        let t = s.subrange(1, s.len() as int);
        lemma_find(t, c);
        assert forall|i: int| 0 <= i < find(s, c) implies s[i] != c by {
            if i > 0 {
                assert(s[i] == t[i - 1]);
            }
        }
    }
}

/// A position that holds the character, with no earlier one, is what `find`
/// gives.
pub proof fn lemma_find_is(s: Seq<char>, c: char, k: int)
    requires
        0 <= k <= s.len(),
        k < s.len() ==> s[k] == c,
        forall|i: int| 0 <= i < k ==> s[i] != c,
    ensures
        find(s, c) == k,
{
    lemma_find(s, c);
    let f = find(s, c);
    if f < k {
        assert(s[f] != c);
    }
    if k < f {
        assert(s[k] != c);
    }
}

/// Finds the first `c` in `v` at or after `from`; gives `v.len()` where there
/// is none.
pub fn find_from(v: &Vec<char>, from: usize, c: char) -> (r: usize)
    requires
        from <= v@.len(),
    ensures
        from <= r <= v@.len(),
        r - from == find(v@.subrange(from as int, v@.len() as int), c),
{
    let n: usize = v.len();
    let mut i: usize = from;
    while i < n && v[i] != c
        invariant
            from <= i <= n == v@.len(),
            forall|j: int| from <= j < i ==> v@[j] != c,
        decreases n - i,
    {
        i = i + 1;
    }
    proof {
        let t = v@.subrange(from as int, n as int);
        assert forall|j: int| 0 <= j < i - from implies t[j] != c by {
            assert(t[j] == v@[from + j]);
        }
        lemma_find_is(t, c, i - from);
    }
    i
}

/// The text before and the text after the first `c`.
pub open spec fn split_at_first(s: Seq<char>, c: char) -> Option<(Seq<char>, Seq<char>)> {
    if find(s, c) < s.len() {
        Some((s.subrange(0, find(s, c)), s.subrange(find(s, c) + 1, s.len() as int)))
    } else {
        None
    }
}

/// Splits a string at the first `c`.
pub fn split_once(s: &str, c: char) -> (r: Option<(String, String)>)
    ensures
        match r {
            Some(p) => split_at_first(s@, c) == Some((p.0@, p.1@)),
            None => split_at_first(s@, c) is None,
        },
{
    let v = chars_of(s);
    let n: usize = v.len();
    let k: usize = find_from(&v, 0, c);
    assert(v@.subrange(0, n as int) =~= v@);
    proof {
        lemma_find(v@, c);
    }
    if k < n {
        Some((string_of(&v, 0, k), string_of(&v, k + 1, n)))
    } else {
        None
    }
}

/// The text after a prefix.
pub open spec fn after_prefix(s: Seq<char>, p: Seq<char>) -> Option<Seq<char>> {
    if p.len() <= s.len() && s.subrange(0, p.len() as int) == p {
        Some(s.subrange(p.len() as int, s.len() as int))
    } else {
        None
    }
}

/// Removes a prefix from a string.
pub fn strip_prefix(s: &str, p: &str) -> (r: Option<String>)
    ensures
        view_opt(r) == after_prefix(s@, p@),
{
    let v = chars_of(s);
    let q = chars_of(p);
    if q.len() > v.len() {
        return None;
    }
    let mut i: usize = 0;
    while i < q.len()
        invariant
            i <= q@.len() <= v@.len(),
            v@ == s@,
            q@ == p@,
            forall|j: int| 0 <= j < i ==> v@[j] == q@[j],
        decreases q@.len() - i,
    {
        if v[i] != q[i] {
            assert(s@.subrange(0, p@.len() as int)[i as int] != p@[i as int]);
            return None;
        }
        i = i + 1;
    }
    assert(s@.subrange(0, p@.len() as int) =~= p@);
    Some(string_of(&v, q.len(), v.len()))
}

/// Decides whether a string begins with a character.
pub fn starts_with_char(s: &str, c: char) -> (r: bool)
    ensures
        r == (s@.len() > 0 && s@[0] == c),
{
    let v = chars_of(s);
    v.len() > 0 && v[0] == c
}

/// The text without the `c` that ends it.
pub open spec fn before_suffix_char(s: Seq<char>, c: char) -> Option<Seq<char>> {
    if s.len() > 0 && s.last() == c {
        Some(s.drop_last())
    } else {
        None
    }
}

/// Removes a final character from a string.
pub fn strip_suffix_char(s: &str, c: char) -> (r: Option<String>)
    ensures
        view_opt(r) == before_suffix_char(s@, c),
{
    let v = chars_of(s);
    let n: usize = v.len();
    if n > 0 && v[n - 1] == c {
        assert(s@.drop_last() =~= s@.subrange(0, n - 1));
        Some(string_of(&v, 0, n - 1))
    } else {
        None
    }
}

// ---------------------------------------------------------------------------
// Lines
// ---------------------------------------------------------------------------
/// A line that a newline ended: without the carriage return that ends it.
pub open spec fn without_cr(s: Seq<char>) -> Seq<char> {
    if s.len() > 0 && s.last() == '\r' {
        s.drop_last()
    } else {
        s
    }
}

/// The lines of a text: each ends at `\n` or `\r\n`, which is not part of it;
/// the end of the last line is optional.
pub open spec fn lines(s: Seq<char>) -> Seq<Seq<char>>
    decreases s.len(),
    via lines_decreases
{
    if s.len() == 0 {
        seq![]
    } else if find(s, '\n') < s.len() {
        seq![without_cr(s.subrange(0, find(s, '\n')))] + lines(
            s.subrange(find(s, '\n') + 1, s.len() as int),
        )
    } else {
        seq![s]
    }
}

#[via_fn]
proof fn lines_decreases(s: Seq<char>) {
    lemma_find(s, '\n');
}

/// The lines of a string.
pub fn split_lines(s: &str) -> (r: Vec<String>)
    ensures
        views(r@) == lines(s@),
{
    let v = chars_of(s);
    let n: usize = v.len();
    let mut out: Vec<String> = Vec::new();
    let mut a: usize = 0;
    assert(v@.subrange(0, n as int) =~= v@);
    assert(views(out@) + lines(v@) =~= lines(v@));
    while a < n
        invariant
            a <= n == v@.len(),
            views(out@) + lines(v@.subrange(a as int, n as int)) == lines(v@),
        decreases n - a,
    {
        let ghost t = v@.subrange(a as int, n as int);
        let ghost before = views(out@);
        let k: usize = find_from(&v, a, '\n');
        proof {
            lemma_find(t, '\n');
            assert(t.subrange(0, k - a) =~= v@.subrange(a as int, k as int));
        }
        if k < n {
            let e: usize = if a < k && v[k - 1] == '\r' {
                k - 1
            } else {
                k
            };
            let line = string_of(&v, a, e);
            proof {
                let piece = v@.subrange(a as int, k as int);
                if piece.len() > 0 {
                    assert(piece.last() == v@[k - 1]);
                }
                assert(line@ =~= without_cr(piece));
                assert(t.subrange(k - a + 1, t.len() as int) =~= v@.subrange(k + 1, n as int));
                let rest = lines(v@.subrange(k + 1, n as int));
                assert(before + (seq![line@] + rest) =~= before.push(line@) + rest);
            }
            out.push(line);
            proof {
                assert(views(out@) =~= before.push(line@));
            }
            a = k + 1;
        } else {
            let line = string_of(&v, a, n);
            out.push(line);
            proof {
                assert(views(out@) =~= before.push(line@));
                assert(line@ =~= t);
                assert(lines(t) =~= seq![t]);
                assert(before + seq![t] =~= before.push(t));
                assert(v@.subrange(n as int, n as int) =~= Seq::<char>::empty());
                assert(views(out@) + lines(Seq::<char>::empty()) =~= views(out@));
            }
            a = n;
        }
    }
    proof {
        assert(v@.subrange(n as int, n as int) =~= Seq::<char>::empty());
        assert(views(out@) + lines(Seq::<char>::empty()) =~= views(out@));
    }
    out
}

/// A line that holds no newline and does not end in a carriage return, written
/// with a newline after it in front of a text, is the first line read back.
pub proof fn lemma_lines_of_framed(line: Seq<char>, rest: Seq<char>)
    requires
        forall|i: int| 0 <= i < line.len() ==> line[i] != '\n',
        line.len() > 0 ==> line.last() != '\r',
    ensures
        lines(line.push('\n') + rest) == seq![line] + lines(rest),
{
    let s = line.push('\n') + rest;
    lemma_find_is(s, '\n', line.len() as int);
    assert(s.subrange(0, line.len() as int) =~= line);
    assert(s.subrange((line.len() + 1) as int, s.len() as int) =~= rest);
}

/// Text in front of which complete lines stand is read as those lines first.
pub proof fn lemma_lines_concat(a: Seq<char>, b: Seq<char>)
    requires
        a.len() > 0 ==> a.last() == '\n',
    ensures
        lines(a + b) == lines(a) + lines(b),
    decreases a.len(),
{
    if a.len() == 0 {
        assert(a + b =~= b);
        assert(lines(a) + lines(b) =~= lines(b));
    } else {
        lemma_find(a, '\n');
        let k = find(a, '\n');
        assert(k < a.len());
        lemma_find_is(a + b, '\n', k);
        let a1 = a.subrange(k + 1, a.len() as int);
        assert((a + b).subrange(0, k) =~= a.subrange(0, k));
        assert((a + b).subrange(k + 1, (a + b).len() as int) =~= a1 + b);
        if a1.len() > 0 {
            assert(a1.last() == a.last());
        }
        lemma_lines_concat(a1, b);
        let h = seq![without_cr(a.subrange(0, k))];
        assert(h + (lines(a1) + lines(b)) =~= (h + lines(a1)) + lines(b));
    }
}

// ---------------------------------------------------------------------------
// Numbers
// ---------------------------------------------------------------------------
/// The character of a decimal digit.
pub open spec fn digit_char(d: nat) -> char {
    (('0' as u32) + d) as char
}

/// A number in decimal.
pub open spec fn decimal(n: nat) -> Seq<char>
    decreases n,
{
    if n < 10 {
        seq![digit_char(n)]
    } else {
        decimal(n / 10).push(digit_char(n % 10))
    }
}

fn digit(d: u64) -> (c: char)
    requires
        d < 10,
    ensures
        c == digit_char(d as nat),
{
    if d == 0 {
        '0'
    } else if d == 1 {
        '1'
    } else if d == 2 {
        '2'
    } else if d == 3 {
        '3'
    } else if d == 4 {
        '4'
    } else if d == 5 {
        '5'
    } else if d == 6 {
        '6'
    } else if d == 7 {
        '7'
    } else if d == 8 {
        '8'
    } else {
        '9'
    }
}

/// Writes a number in decimal.
pub fn decimal_text(n: u64) -> (r: String)
    ensures
        r@ == decimal(n as nat),
    decreases n,
{
    if n < 10 {
        let mut out = String::new();
        out.push(digit(n));
        assert(out@ =~= decimal(n as nat));
        out
    } else {
        let mut out = decimal_text(n / 10);
        out.push(digit(n % 10));
        out
    }
}

/// The value of a character that is an ASCII decimal digit.
pub open spec fn digit_value(c: char) -> Option<nat> {
    if '0' <= c <= '9' {
        Some(((c as u32) - ('0' as u32)) as nat)
    } else {
        None
    }
}

/// The value of a text made of decimal digits only; the empty text is zero.
pub open spec fn digits_value(s: Seq<char>) -> Option<nat>
    decreases s.len(),
{
    if s.len() == 0 {
        Some(0)
    } else {
        match (digits_value(s.drop_last()), digit_value(s.last())) {
            (Some(v), Some(d)) => Some(v * 10 + d),
            _ => None,
        }
    }
}

/// A non-negative number that fits in 32 bits: decimal digits, at least one,
/// with an optional plus sign in front.
pub open spec fn parsed_u32(s: Seq<char>) -> Option<u32> {
    let digits = if s.len() > 0 && s[0] == '+' {
        s.subrange(1, s.len() as int)
    } else {
        s
    };
    match digits_value(digits) {
        Some(v) => if digits.len() > 0 && v <= u32::MAX {
            Some(v as u32)
        } else {
            None
        },
        None => None,
    }
}

/// The value of a text of digits is at least that of any text of digits that
/// begins it.
proof fn lemma_digits_grow(s: Seq<char>, k: int)
    requires
        0 <= k <= s.len(),
    ensures
        digits_value(s) is Some ==> digits_value(s.subrange(0, k)) is Some && digits_value(
            s.subrange(0, k),
        )->0 <= digits_value(s)->0,
    decreases s.len(),
{
    if k == s.len() {
        assert(s.subrange(0, k) =~= s);
    } else {
        lemma_digits_grow(s.drop_last(), k);
        assert(s.drop_last().subrange(0, k) =~= s.subrange(0, k));
    }
}

/// Reads a number that fits in 32 bits.
pub fn parse_u32(s: &str) -> (r: Option<u32>)
    ensures
        r == parsed_u32(s@),
{
    let v = chars_of(s);
    let n: usize = v.len();
    let from: usize = if n > 0 && v[0] == '+' {
        1
    } else {
        0
    };
    let ghost digits = v@.subrange(from as int, n as int);
    proof {
        if from == 0 {
            assert(digits =~= v@);
        }
    }
    if from == n {
        return None;
    }
    let mut value: u64 = 0;
    let mut i: usize = from;
    assert(digits.subrange(0, 0) =~= Seq::<char>::empty());
    while i < n
        invariant
            from <= i <= n == v@.len(),
            from < n,
            v@ == s@,
            from == (if s@.len() > 0 && s@[0] == '+' {
                1int
            } else {
                0int
            }),
            digits == v@.subrange(from as int, n as int),
            from == 0 ==> digits == v@,
            digits_value(digits.subrange(0, i - from)) == Some(value as nat),
            value <= u32::MAX,
        decreases n - i,
    {
        let c: char = v[i];
        proof {
            let pre = digits.subrange(0, i - from + 1);
            assert(pre.drop_last() =~= digits.subrange(0, i - from));
            assert(pre.last() == c);
            lemma_digits_grow(digits, i - from + 1);
        }
        if c < '0' || c > '9' {
            return None;
        }
        let d: u64 = (c as u32 - '0' as u32) as u64;
        let next: u64 = value * 10 + d;
        if next > u32::MAX as u64 {
            return None;
        }
        value = next;
        i = i + 1;
    }
    assert(digits.subrange(0, n - from) =~= digits);
    Some(value as u32)
}

/// A number in decimal, with a minus sign in front where it is negative.
pub open spec fn signed_decimal(n: int) -> Seq<char> {
    if n < 0 {
        "-"@ + decimal((-n) as nat)
    } else {
        decimal(n as nat)
    }
}

/// Writes a signed number in decimal.
pub fn signed_text(n: i32) -> (r: String)
    ensures
        r@ == signed_decimal(n as int),
{
    if n < 0 {
        let m: i64 = -(n as i64);
        let digits = decimal_text(m as u64);
        join("-", digits.as_str())
    } else {
        decimal_text(n as u64)
    }
}

// ---------------------------------------------------------------------------
// Bytes
// ---------------------------------------------------------------------------
/// The number of bytes that a text takes in UTF-8.
pub open spec fn byte_len(s: Seq<char>) -> nat {
    encode_utf8(s).len()
}

/// The number of bytes that a character takes in UTF-8.
pub open spec fn char_width(c: char) -> nat {
    let n = c as u32;
    if n < 0x80 {
        1
    } else if n < 0x800 {
        2
    } else if n < 0x10000 {
        3
    } else {
        4
    }
}

proof fn lemma_encode_push(s: Seq<char>, c: char)
    ensures
        byte_len(s.push(c)) == byte_len(s) + char_width(c),
    decreases s.len(),
{
    if s.len() == 0 {
        assert(s.push(c).drop_first() =~= Seq::<char>::empty());
        assert(encode_utf8(Seq::<char>::empty()).len() == 0);
        assert(encode_scalar(c as u32).len() == char_width(c));
    } else {
        lemma_encode_push(s.drop_first(), c);
        assert(s.push(c).drop_first() =~= s.drop_first().push(c));
    }
}

/// A text takes at least the bytes of any text that begins it.
proof fn lemma_bytes_grow(s: Seq<char>, k: int)
    requires
        0 <= k <= s.len(),
    ensures
        byte_len(s.subrange(0, k)) <= byte_len(s),
        k < s.len() ==> byte_len(s.subrange(0, k)) < byte_len(s),
    decreases s.len(),
{
    if k == s.len() {
        assert(s.subrange(0, k) =~= s);
    } else {
        let t = s.drop_last();
        lemma_bytes_grow(t, k);
        assert(t.subrange(0, k) =~= s.subrange(0, k));
        assert(t.push(s.last()) =~= s);
        lemma_encode_push(t, s.last());
    }
}

/// The beginning of a text that takes at most `max` bytes: characters are
/// dropped from its end until it does.
pub open spec fn kept(s: Seq<char>, max: nat) -> Seq<char>
    decreases s.len(),
{
    if byte_len(s) <= max || s.len() == 0 {
        s
    } else {
        kept(s.drop_last(), max)
    }
}

proof fn lemma_kept_is(s: Seq<char>, max: nat, k: int)
    requires
        0 <= k <= s.len(),
        byte_len(s.subrange(0, k)) <= max,
        k < s.len() ==> byte_len(s.subrange(0, k + 1)) > max,
    ensures
        kept(s, max) == s.subrange(0, k),
    decreases s.len(),
{
    if k == s.len() {
        assert(s.subrange(0, k) =~= s);
    } else {
        lemma_bytes_grow(s, k + 1);
        let t = s.drop_last();
        assert(t.subrange(0, k) =~= s.subrange(0, k));
        if k < t.len() {
            assert(t.subrange(0, k + 1) =~= s.subrange(0, k + 1));
        }
        lemma_kept_is(t, max, k);
    }
}

/// Where some characters at the beginning of a text take exactly `max` bytes,
/// those are kept.
pub proof fn law_kept_at_boundary(s: Seq<char>, max: nat, k: int)
    requires
        0 <= k <= s.len(),
        byte_len(s.subrange(0, k)) == max,
    ensures
        kept(s, max) == s.subrange(0, k),
{
    if k < s.len() {
        let next = s.subrange(0, k + 1);
        assert(next.subrange(0, k) =~= s.subrange(0, k));
        lemma_bytes_grow(next, k);
    }
    lemma_kept_is(s, max, k);
}

/// A text of at most `max` bytes as it is; of a longer one the beginning, and
/// a note of how many bytes are missing.
pub open spec fn truncated(s: Seq<char>, max: nat) -> Seq<char> {
    if byte_len(s) <= max {
        s
    } else {
        kept(s, max) + "\n... [截断, 还有 "@ + decimal(
            (byte_len(s) - byte_len(kept(s, max))) as nat,
        ) + " 字节未显示]\n"@
    }
}

fn width(c: char) -> (r: usize)
    ensures
        r == char_width(c),
{
    let n: u32 = c as u32;
    if n < 0x80 {
        1
    } else if n < 0x800 {
        2
    } else if n < 0x10000 {
        3
    } else {
        4
    }
}

/// The number of bytes that a string takes in UTF-8.
pub fn bytes_of(s: &str) -> (r: usize)
    ensures
        r == byte_len(s@),
{
    s.as_bytes().len()
}

/// Shortens a string that takes more than `max` bytes.
pub fn truncate(s: String, max: usize) -> (r: String)
    ensures
        r@ == truncated(s@, max as nat),
{
    let total: usize = bytes_of(s.as_str());
    if total <= max {
        return s;
    }
    let v = chars_of(s.as_str());
    let n: usize = v.len();
    let mut sum: usize = 0;
    let mut i: usize = 0;
    assert(v@.subrange(0, 0) =~= Seq::<char>::empty());
    loop
        invariant
            i <= n == v@.len(),
            sum == byte_len(v@.subrange(0, i as int)),
            sum <= max < total == byte_len(v@),
        ensures
            i < n == v@.len(),
            sum == byte_len(v@.subrange(0, i as int)),
            sum <= max,
            byte_len(v@.subrange(0, i + 1)) > max,
        decreases n - i,
    {
        proof {
            if i == n {
                assert(v@.subrange(0, i as int) =~= v@);
            }
            assert(v@.subrange(0, i + 1) =~= v@.subrange(0, i as int).push(v@[i as int]));
            lemma_encode_push(v@.subrange(0, i as int), v@[i as int]);
            lemma_bytes_grow(v@, i + 1);
        }
        let next: usize = sum + width(v[i]);
        if next > max {
            break;
        }
        sum = next;
        i = i + 1;
    }
    proof {
        lemma_kept_is(v@, max as nat, i as int);
        lemma_bytes_grow(v@, i as int);
    }
    let mut out = string_of(&v, 0, i);
    let extra = decimal_text((total - sum) as u64);
    out.append("\n... [截断, 还有 ");
    out.append(extra.as_str());
    out.append(" 字节未显示]\n");
    out
}

// ---------------------------------------------------------------------------
// What holds of texts
// ---------------------------------------------------------------------------
/// Of ASCII exactly the space and the characters from tab to carriage return
/// are white space; beyond ASCII exactly the spaces and separators of Unicode.
pub proof fn law_white_space(c: char)
    ensures
        (c as u32) < 128 ==> (is_white_space(c) <==> c == ' ' || c == '\t' || c == '\n' || c
            == '\u{b}' || c == '\u{c}' || c == '\r'),
        (c as u32) >= 128 ==> (is_white_space(c) <==> c == '\u{85}' || c == '\u{a0}' || c
            == '\u{1680}' || ('\u{2000}' <= c <= '\u{200a}') || c == '\u{2028}' || c == '\u{2029}'
            || c == '\u{202f}' || c == '\u{205f}' || c == '\u{3000}'),
{
}

/// The first characters of a text are how it begins, as many as are asked for or
/// all of them.
pub proof fn law_take_is_the_beginning(s: Seq<char>, n: nat)
    ensures
        take(s, n).is_prefix_of(s),
        s.len() <= n ==> take(s, n).len() == s.len(),
        s.len() > n ==> take(s, n).len() == n,
{
}

proof fn lemma_trim_start(s: Seq<char>) -> (k: int)
    ensures
        0 <= k <= s.len(),
        trim_start(s) == s.subrange(k, s.len() as int),
        forall|i: int| 0 <= i < k ==> is_white_space(#[trigger] s[i]),
        k < s.len() ==> !is_white_space(s[k]),
    decreases s.len(),
{
    if s.len() > 0 && is_white_space(s[0]) {
        let t = s.subrange(1, s.len() as int);
        let k = lemma_trim_start(t);
        assert(t.subrange(k, t.len() as int) =~= s.subrange(k + 1, s.len() as int));
        assert forall|i: int| 0 <= i < k + 1 implies is_white_space(#[trigger] s[i]) by {
            if i > 0 {
                assert(s[i] == t[i - 1]);
            }
        }
        if k < t.len() {
            assert(t[k] == s[k + 1]);
        }
        k + 1
    } else {
        assert(s.subrange(0, s.len() as int) =~= s);
        0
    }
}

proof fn lemma_trim_end(s: Seq<char>) -> (k: int)
    ensures
        0 <= k <= s.len(),
        trim_end(s) == s.subrange(0, k),
        forall|i: int| k <= i < s.len() ==> is_white_space(#[trigger] s[i]),
        k > 0 ==> !is_white_space(s[k - 1]),
    decreases s.len(),
{
    if s.len() > 0 && is_white_space(s.last()) {
        let t = s.drop_last();
        let k = lemma_trim_end(t);
        assert(t.subrange(0, k) =~= s.subrange(0, k));
        assert forall|i: int| k <= i < s.len() implies is_white_space(#[trigger] s[i]) by {
            if i < t.len() {
                assert(s[i] == t[i]);
            }
        }
        if k > 0 {
            assert(t[k - 1] == s[k - 1]);
        }
        k
    } else {
        assert(s.subrange(0, s.len() as int) =~= s);
        s.len() as int
    }
}

/// Trimming takes white space off both ends and nothing else: what is left
/// stands in the text with only white space around it, and neither begins nor
/// ends with white space.
pub proof fn law_trimming_takes_white_space_only(s: Seq<char>)
    ensures
        exists|a: int, b: int|
            {
                &&& 0 <= a <= b <= s.len()
                &&& trimmed(s) == #[trigger] s.subrange(a, b)
                &&& forall|i: int| 0 <= i < a || b <= i < s.len() ==> is_white_space(#[trigger] s[i])
            },
        trimmed(s).len() > 0 ==> !is_white_space(trimmed(s)[0]) && !is_white_space(
            trimmed(s).last(),
        ),
        forall|i: int|
            0 <= i < s.len() && !is_white_space(#[trigger] s[i]) ==> trimmed(s).contains(s[i]),
{
    let a = lemma_trim_start(s);
    let t = trim_start(s);
    let k = lemma_trim_end(t);
    let b = a + k;
    assert(t.subrange(0, k) =~= s.subrange(a, b));
    assert forall|i: int| 0 <= i < a || b <= i < s.len() implies is_white_space(
        #[trigger] s[i],
    ) by {
        if b <= i < s.len() {
            assert(t[i - a] == s[i]);
        }
    }
    let m = s.subrange(a, b);
    if m.len() > 0 {
        assert(m[0] == s[a]);
        assert(m.last() == t[k - 1]);
    }
    assert forall|i: int| 0 <= i < s.len() && !is_white_space(#[trigger] s[i]) implies trimmed(
        s,
    ).contains(s[i]) by {
        assert(a <= i < b);
        assert(m[i - a] == s[i]);
    }
}

/// Taking a run of one character off the end takes that run and nothing else.
pub proof fn law_trimming_a_run(s: Seq<char>, c: char)
    ensures
        trim_end_of(s, c).is_prefix_of(s),
        forall|i: int| trim_end_of(s, c).len() <= i < s.len() ==> #[trigger] s[i] == c,
        trim_end_of(s, c).len() > 0 ==> trim_end_of(s, c).last() != c,
    decreases s.len(),
{
    if s.len() > 0 && s.last() == c {
        law_trimming_a_run(s.drop_last(), c);
        assert forall|i: int| trim_end_of(s, c).len() <= i < s.len() implies #[trigger] s[i]
            == c by {
            if i < s.len() - 1 {
                assert(s.drop_last()[i] == s[i]);
            }
        }
    }
}

/// A text is split at the first place where the character stands, and only
/// where it stands somewhere; nothing else is lost.
pub proof fn law_splitting_at_the_first(s: Seq<char>, c: char)
    ensures
        match split_at_first(s, c) {
            Some((a, b)) => s == a.push(c) + b && !a.contains(c),
            None => !s.contains(c),
        },
{
    lemma_find(s, c);
    let k = find(s, c);
    if k < s.len() {
        assert(s =~= s.subrange(0, k).push(c) + s.subrange(k + 1, s.len() as int));
    }
}

/// What comes after a prefix is what the prefix was put in front of.
pub proof fn law_prefix_is_taken_off(s: Seq<char>, p: Seq<char>, rest: Seq<char>)
    ensures
        after_prefix(p + rest, p) == Some(rest),
        after_prefix(s, p) matches Some(r) ==> s == p + r,
        !p.is_prefix_of(s) ==> after_prefix(s, p) is None,
{
    assert((p + rest).subrange(0, p.len() as int) =~= p);
    assert((p + rest).subrange(p.len() as int, (p + rest).len() as int) =~= rest);
    if after_prefix(s, p) is Some {
        assert(s =~= p + s.subrange(p.len() as int, s.len() as int));
    }
}

/// What comes before a final character is what the character was put behind.
pub proof fn law_suffix_is_taken_off(s: Seq<char>, c: char)
    ensures
        before_suffix_char(s.push(c), c) == Some(s),
        before_suffix_char(s, c) matches Some(r) ==> s == r.push(c),
        before_suffix_char(s, c) is None ==> s.len() == 0 || s.last() != c,
{
    assert(s.push(c).drop_last() =~= s);
    if s.len() > 0 {
        assert(s.drop_last().push(s.last()) =~= s);
    }
}

/// Lines end at newlines and nowhere else: a piece without a newline is one
/// line; with a newline behind it it is a line, less a carriage return at its
/// end, in front of the lines of what follows; and no text has no lines.
pub proof fn law_lines_end_at_newlines(a: Seq<char>, rest: Seq<char>)
    requires
        !a.contains('\n'),
    ensures
        lines(Seq::<char>::empty()) == Seq::<Seq<char>>::empty(),
        a.len() > 0 ==> lines(a) == seq![a],
        a.len() > 0 && a.last() == '\r' ==> lines(a.push('\n') + rest) == seq![a.drop_last()] + lines(
            rest,
        ),
        a.len() == 0 || a.last() != '\r' ==> lines(a.push('\n') + rest) == seq![a] + lines(rest),
{
    assert forall|i: int| 0 <= i < a.len() implies a[i] != '\n' by {
        assert(a.contains(a[i]));
    }
    if a.len() > 0 {
        lemma_find_is(a, '\n', a.len() as int);
    }
    let s = a.push('\n') + rest;
    lemma_find_is(s, '\n', a.len() as int);
    assert(s.subrange(0, a.len() as int) =~= a);
    assert(s.subrange((a.len() + 1) as int, s.len() as int) =~= rest);
}

/// A decimal number is read back as the number that was written, has no zero in
/// front, and a plus sign in front does not matter.
pub proof fn law_decimal_is_read_back(n: nat)
    ensures
        decimal(n).len() > 0,
        n > 0 ==> decimal(n)[0] != '0',
        n == 0 ==> decimal(n) == seq!['0'],
        digits_value(decimal(n)) == Some(n),
        n <= u32::MAX ==> parsed_u32(decimal(n)) == Some(n as u32) && parsed_u32(
            seq!['+'] + decimal(n),
        ) == Some(n as u32),
        n > u32::MAX ==> parsed_u32(decimal(n)) is None,
    decreases n,
{
    reveal_with_fuel(digits_value, 2);
    if n >= 10 {
        law_decimal_is_read_back(n / 10);
        let d = decimal(n);
        assert(d.drop_last() =~= decimal(n / 10));
        assert(d[0] == decimal(n / 10)[0]);
    } else {
        assert(decimal(n).drop_last() =~= Seq::<char>::empty());
    }
    let d = decimal(n);
    assert(d[0] != '+') by {
        lemma_decimal_digits(n);
    }
    let signed = seq!['+'] + d;
    assert(signed.subrange(1, signed.len() as int) =~= d);
}

proof fn lemma_decimal_digits(n: nat)
    ensures
        forall|i: int| 0 <= i < decimal(n).len() ==> '0' <= #[trigger] decimal(n)[i] <= '9',
    decreases n,
{
    if n >= 10 {
        lemma_decimal_digits(n / 10);
        let t = decimal(n / 10);
        assert forall|i: int| 0 <= i < decimal(n).len() implies '0' <= #[trigger] decimal(n)[i]
            <= '9' by {
            if i < t.len() {
                assert(decimal(n)[i] == t[i]);
            }
        }
    }
}

proof fn lemma_digits_only(s: Seq<char>)
    ensures
        digits_value(s) is Some <==> (forall|i: int|
            0 <= i < s.len() ==> '0' <= #[trigger] s[i] <= '9'),
    decreases s.len(),
{
    if s.len() > 0 {
        let t = s.drop_last();
        lemma_digits_only(t);
        if forall|i: int| 0 <= i < s.len() ==> '0' <= #[trigger] s[i] <= '9' {
            assert forall|i: int| 0 <= i < t.len() implies '0' <= #[trigger] t[i] <= '9' by {
                assert(t[i] == s[i]);
            }
            assert('0' <= s[s.len() - 1] <= '9');
        }
        if digits_value(s) is Some {
            assert forall|i: int| 0 <= i < s.len() implies '0' <= #[trigger] s[i] <= '9' by {
                if i < t.len() {
                    assert(t[i] == s[i]);
                }
            }
        }
    }
}

/// A text of digits, one at least, is read as its value where that fits in 32
/// bits, each digit counting ten times as much as the one behind it; nothing but
/// a plus sign may stand in front, and no other text is read.
pub proof fn law_numbers_are_digits(s: Seq<char>, d: char)
    ensures
        s.len() > 0 && s[0] != '+' && (exists|i: int|
            0 <= i < s.len() && !('0' <= #[trigger] s[i] <= '9')) ==> parsed_u32(s) is None,
        s.len() == 0 ==> parsed_u32(s) is None,
        s == seq!['+'] ==> parsed_u32(s) is None,
        '0' <= d <= '9' && s.len() > 0 && parsed_u32(s) is Some && parsed_u32(s)->0 * 10 + (d as u32
            - '0' as u32) <= u32::MAX ==> parsed_u32(s.push(d)) == Some(
            (parsed_u32(s)->0 * 10 + (d as u32 - '0' as u32)) as u32,
        ),
        s.len() > 0 && s[0] != '+' ==> parsed_u32(seq!['+'] + s) == parsed_u32(s),
{
    lemma_digits_only(s);
    let signed = seq!['+'] + s;
    assert(signed.subrange(1, signed.len() as int) =~= s);
    let more = s.push(d);
    assert(more.drop_last() =~= s);
    if s.len() > 0 {
        let t = s.subrange(1, s.len() as int);
        assert(more.subrange(1, more.len() as int) =~= t.push(d));
        assert(t.push(d).drop_last() =~= t);
    }
}

/// A negative number is written with one minus sign in front of its decimal
/// digits, and every other number as its digits.
pub proof fn law_sign_is_written(n: int)
    ensures
        n >= 0 ==> digits_value(signed_decimal(n)) == Some(n as nat),
        n < 0 ==> signed_decimal(n).len() > 1 && signed_decimal(n)[0] == '-' && digits_value(
            signed_decimal(n).subrange(1, signed_decimal(n).len() as int),
        ) == Some((-n) as nat),
{
    reveal_strlit("-");
    if n >= 0 {
        law_decimal_is_read_back(n as nat);
    } else {
        law_decimal_is_read_back((-n) as nat);
        let s = signed_decimal(n);
        assert(s.subrange(1, s.len() as int) =~= decimal((-n) as nat));
    }
}

/// A text that fits is shown whole. Of a longer one as many whole characters
/// are shown as fit, and after them how many bytes are missing.
pub proof fn law_truncation_keeps_what_fits(s: Seq<char>, max: nat)
    ensures
        encode_utf8(s).len() <= max ==> truncated(s, max) == s,
        encode_utf8(s).len() > max ==> exists|k: int|
            {
                &&& 0 <= k < s.len()
                &&& encode_utf8(#[trigger] s.subrange(0, k)).len() <= max
                &&& encode_utf8(s.subrange(0, k + 1)).len() > max
                &&& truncated(s, max) == s.subrange(0, k) + "\n... [截断, 还有 "@ + decimal(
                    (encode_utf8(s).len() - encode_utf8(s.subrange(0, k)).len()) as nat,
                ) + " 字节未显示]\n"@
            },
{
    if byte_len(s) > max {
        let k = lemma_kept_place(s, max);
    }
}

proof fn lemma_kept_place(s: Seq<char>, max: nat) -> (k: int)
    requires
        byte_len(s) > max,
    ensures
        0 <= k < s.len(),
        byte_len(s.subrange(0, k)) <= max,
        byte_len(s.subrange(0, k + 1)) > max,
        kept(s, max) == s.subrange(0, k),
    decreases s.len(),
{
    assert(s.subrange(0, s.len() as int) =~= s);
    if s.len() == 0 {
        0
    } else {
        let t = s.drop_last();
        assert(t =~= s.subrange(0, s.len() - 1));
        if byte_len(t) <= max {
            lemma_kept_is(s, max, s.len() - 1);
            s.len() - 1
        } else {
            let k = lemma_kept_place(t, max);
            assert(t.subrange(0, k) =~= s.subrange(0, k));
            assert(t.subrange(0, k + 1) =~= s.subrange(0, k + 1));
            k
        }
    }
}

} // verus!
