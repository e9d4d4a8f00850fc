//! Character-level string helpers shared by the library.

use vstd::prelude::*;

verus! {

/// Appends one character to a string (`String::push`).
#[verifier::external_body]
pub(crate) fn push_char(s: &mut String, c: char)
    ensures
        final(s)@ == old(s)@.push(c),
{
    s.push(c);
}

/// The characters of a string slice, in order.
pub fn chars_of(s: &str) -> (v: Vec<char>)
    ensures
        v@ == s@,
{
    let mut v: Vec<char> = Vec::new();
    for c in it: s.chars()
        invariant
            v@ == it.seq().take(it.index() as int),
    {
        v.push(c);
    }
    v
}

/// Builds a string from a sequence of characters.
pub fn string_from_chars(v: &[char]) -> (s: String)
    ensures
        s@ == v@,
{
    let mut s = String::new();
    let mut i: usize = 0;
    while i < v.len()
        invariant
            i <= v.len(),
            s@ == v@.take(i as int),
        decreases v.len() - i,
    {
        push_char(&mut s, v[i]);
        assert(v@.take(i + 1) == v@.take(i as int).push(v@[i as int]));
        i = i + 1;
    }
    assert(v@.take(v.len() as int) == v@);
    s
}

} // verus!

verus! {

/// Appends a string slice to a string.
pub(crate) fn push_str(s: &mut String, t: &str)
    ensures
        final(s)@ == old(s)@ + t@,
{
    s.append(t);
}

/// Builds a string from the characters `v[from..to]`.
pub fn string_from_range(v: &Vec<char>, from: usize, to: usize) -> (s: String)
    requires
        from <= to <= v.len(),
    ensures
        s@ == v@.subrange(from as int, to as int),
{
    let mut s = String::new();
    let mut i = from;
    while i < to
        invariant
            from <= i <= to <= v.len(),
            s@ == v@.subrange(from as int, i as int),
        decreases to - i,
    {
        push_char(&mut s, v[i]);
        assert(v@.subrange(from as int, i + 1) == v@.subrange(from as int, i as int).push(v@[i as int]));
        i = i + 1;
    }
    s
}

/// Whether `c` is a Unicode `White_Space` character (`char::is_whitespace`).
pub open spec fn is_space(c: char) -> bool {
    ||| ('\u{9}' <= c <= '\u{d}')
    ||| c == ' '
    ||| c == '\u{85}'
    ||| c == '\u{a0}'
    ||| c == '\u{1680}'
    ||| ('\u{2000}' <= c <= '\u{200a}')
    ||| c == '\u{2028}'
    ||| c == '\u{2029}'
    ||| c == '\u{202f}'
    ||| c == '\u{205f}'
    ||| c == '\u{3000}'
}

/// Tests a character for Unicode white space.
pub fn char_is_space(c: char) -> (b: bool)
    ensures
        b == is_space(c),
{
    ('\u{9}' <= c && c <= '\u{d}') || c == ' ' || c == '\u{85}' || c == '\u{a0}' || c
        == '\u{1680}' || ('\u{2000}' <= c && c <= '\u{200a}') || c == '\u{2028}' || c
        == '\u{2029}' || c == '\u{202f}' || c == '\u{205f}' || c == '\u{3000}'
}

/// `s` without its leading white space.
pub open spec fn trim_start_spec(s: Seq<char>) -> Seq<char>
    decreases s.len(),
{
    if s.len() > 0 && is_space(s[0]) {
        trim_start_spec(s.drop_first())
    } else {
        s
    }
}

/// `s` without its trailing white space.
pub open spec fn trim_end_spec(s: Seq<char>) -> Seq<char>
    decreases s.len(),
{
    if s.len() > 0 && is_space(s.last()) {
        trim_end_spec(s.drop_last())
    } else {
        s
    }
}

/// `s` without leading and trailing white space (`str::trim`).
pub open spec fn trim_spec(s: Seq<char>) -> Seq<char> {
    trim_end_spec(trim_start_spec(s))
}

/// Index of the first character of `v` that is not white space.
fn trim_start_index(v: &Vec<char>) -> (i: usize)
    ensures
        i <= v.len(),
        trim_start_spec(v@) == v@.skip(i as int),
{
    let mut i: usize = 0;
    assert(v@.skip(0) == v@);
    while i < v.len() && char_is_space(v[i])
        invariant
            i <= v.len(),
            trim_start_spec(v@) == trim_start_spec(v@.skip(i as int)),
        decreases v.len() - i,
    {
        assert(v@.skip(i as int).drop_first() == v@.skip(i + 1));
        i = i + 1;
    }
    i
}

/// Index just past the last character of `v[..end]` that is not white space.
fn trim_end_index(v: &Vec<char>, end: usize) -> (j: usize)
    requires
        end <= v.len(),
    ensures
        j <= end,
        trim_end_spec(v@.take(end as int)) == v@.take(j as int),
{
    let mut j = end;
    while j > 0 && char_is_space(v[j - 1])
        invariant
            j <= end <= v.len(),
            trim_end_spec(v@.take(end as int)) == trim_end_spec(v@.take(j as int)),
        decreases j,
    {
        assert(v@.take(j as int).drop_last() == v@.take(j - 1));
        j = j - 1;
    }
    j
}

/// Bounds `(start, end)` of `v` without leading and trailing white space.
pub fn trim_bounds(v: &Vec<char>) -> (r: (usize, usize))
    ensures
        r.0 <= r.1 <= v.len(),
        trim_spec(v@) == v@.subrange(r.0 as int, r.1 as int),
{
    let i = trim_start_index(v);
    let rest = copy_chars(v, i, v.len());
    let j = trim_end_index(&rest, rest.len());
    assert(rest@.take(rest.len() as int) == rest@);
    assert(rest@.take(j as int) == v@.subrange(i as int, i + j));
    (i, i + j)
}

/// A copy of the characters `v[from..to]`.
pub fn copy_chars(v: &Vec<char>, from: usize, to: usize) -> (out: Vec<char>)
    requires
        from <= to <= v.len(),
    ensures
        out@ == v@.subrange(from as int, to as int),
{
    let mut out: Vec<char> = Vec::new();
    let mut i = from;
    while i < to
        invariant
            from <= i <= to <= v.len(),
            out@ == v@.subrange(from as int, i as int),
        decreases to - i,
    {
        out.push(v[i]);
        i = i + 1;
    }
    out
}

/// The characters of `v` without trailing white space.
pub fn trim_end_ws(v: &Vec<char>) -> (out: Vec<char>)
    ensures
        out@ == trim_end_spec(v@),
{
    let j = trim_end_index(v, v.len());
    assert(v@.take(v.len() as int) == v@);
    copy_chars(v, 0, j)
}

/// Appends the characters of `other` to `acc`.
pub fn append_chars(acc: &mut Vec<char>, other: &Vec<char>)
    ensures
        final(acc)@ == old(acc)@ + other@,
{
    let ghost start = acc@;
    let mut i: usize = 0;
    while i < other.len()
        invariant
            i <= other.len(),
            acc@ == start + other@.take(i as int),
        decreases other.len() - i,
    {
        acc.push(other[i]);
        assert(other@.take(i + 1) == other@.take(i as int).push(other@[i as int]));
        i = i + 1;
    }
    assert(other@.take(other.len() as int) == other@);
}

/// The characters of `v` without leading and trailing white space.
pub fn trim_chars(v: &Vec<char>) -> (out: Vec<char>)
    ensures
        out@ == trim_spec(v@),
{
    let (a, b) = trim_bounds(v);
    copy_chars(v, a, b)
}

/// A string slice without leading and trailing white space, as a string.
pub fn trim_str(s: &str) -> (out: String)
    ensures
        out@ == trim_spec(s@),
{
    let v = chars_of(s);
    let (a, b) = trim_bounds(&v);
    string_from_range(&v, a, b)
}

/// Whether `s` is empty or white space only.
pub fn is_blank(s: &str) -> (b: bool)
    ensures
        b == (trim_spec(s@).len() == 0),
{
    let v = chars_of(s);
    let (a, b) = trim_bounds(&v);
    a == b
}

/// The pieces of `s` between occurrences of `c` (`str::split` with a character pattern);
/// there is always at least one piece.
pub open spec fn split_spec(s: Seq<char>, c: char) -> Seq<Seq<char>>
    decreases s.len(),
{
    if s.len() == 0 {
        seq![Seq::empty()]
    } else {
        let r = split_spec(s.drop_last(), c);
        if s.last() == c {
            r.push(Seq::empty())
        } else {
            r.update(r.len() - 1, r.last().push(s.last()))
        }
    }
}

pub proof fn lemma_split_nonempty(s: Seq<char>, c: char)
    ensures
        split_spec(s, c).len() >= 1,
    decreases s.len(),
{
    if s.len() > 0 {
        lemma_split_nonempty(s.drop_last(), c);
    }
}

/// Views of a vector of character vectors.
pub open spec fn pieces_view(v: Seq<Vec<char>>) -> Seq<Seq<char>> {
    v.map_values(|p: Vec<char>| p@)
}

/// Splits a character sequence at every occurrence of `c`.
pub fn split_chars(v: &Vec<char>, c: char) -> (pieces: Vec<Vec<char>>)
    ensures
        pieces_view(pieces@) == split_spec(v@, c),
        pieces@.len() >= 1,
{
    let mut done: Vec<Vec<char>> = Vec::new();
    let mut cur: Vec<char> = Vec::new();
    let mut i: usize = 0;
    while i < v.len()
        invariant
            i <= v.len(),
            pieces_view(done@).push(cur@) == split_spec(v@.take(i as int), c),
        decreases v.len() - i,
    {
        let ghost prev = split_spec(v@.take(i as int), c);
        assert(v@.take(i + 1).drop_last() == v@.take(i as int));
        proof {
            lemma_split_nonempty(v@.take(i as int), c);
        }
        if v[i] == c {
            let piece = cur;
            cur = Vec::new();
            done.push(piece);
            assert(pieces_view(done@) =~= prev);
            assert(pieces_view(done@).push(cur@) =~= split_spec(v@.take(i + 1), c));
        } else {
            cur.push(v[i]);
            assert(pieces_view(done@).push(cur@) =~= split_spec(v@.take(i + 1), c));
        }
        i = i + 1;
    }
    assert(v@.take(v.len() as int) == v@);
    done.push(cur);
    done
}

/// The decimal digit `d` as a character.
pub open spec fn digit_char(d: nat) -> char {
    if d == 0 {
        '0'
    } else if d == 1 {
        '1'
    } else if d == 2 {
        '2'
    } else if d == 3 {
        '3'
    } else if d == 4 {
        '4'
    } else if d == 5 {
        '5'
    } else if d == 6 {
        '6'
    } else if d == 7 {
        '7'
    } else if d == 8 {
        '8'
    } else {
        '9'
    }
}

/// The decimal representation of `n`, without leading zeros.
pub open spec fn decimal(n: nat) -> Seq<char>
    decreases n,
{
    if n < 10 {
        seq![digit_char(n)]
    } else {
        decimal(n / 10).push(digit_char(n % 10))
    }
}

fn digit(d: u64) -> (c: char)
    requires
        d < 10,
    ensures
        c == digit_char(d as nat),
{
    if d == 0 {
        '0'
    } else if d == 1 {
        '1'
    } else if d == 2 {
        '2'
    } else if d == 3 {
        '3'
    } else if d == 4 {
        '4'
    } else if d == 5 {
        '5'
    } else if d == 6 {
        '6'
    } else if d == 7 {
        '7'
    } else if d == 8 {
        '8'
    } else {
        '9'
    }
}

/// Appends the decimal representation of `n`.
pub fn push_decimal(s: &mut String, n: u64)
    ensures
        final(s)@ == old(s)@ + decimal(n as nat),
    decreases n,
{
    if n >= 10 {
        push_decimal(s, n / 10);
    }
    push_char(s, digit(n % 10));
    assert(final(s)@ =~= old(s)@ + decimal(n as nat)) by {
        if n >= 10 {
            assert(decimal(n as nat) == decimal((n / 10) as nat).push(digit_char((n % 10) as nat)));
        }
    }
}

/// The decimal representation of `n` (`u64::to_string`).
pub fn decimal_string(n: u64) -> (s: String)
    ensures
        s@ == decimal(n as nat),
{
    let mut s = String::new();
    push_decimal(&mut s, n);
    s
}

/// The decimal representation of a signed integer, with a leading `-` when negative.
pub open spec fn signed_decimal(n: int) -> Seq<char> {
    if n < 0 {
        seq!['-'] + decimal((-n) as nat)
    } else {
        decimal(n as nat)
    }
}

/// Appends the decimal representation of a signed integer (`i64::to_string`).
pub fn push_signed(s: &mut String, n: i64)
    ensures
        final(s)@ == old(s)@ + signed_decimal(n as int),
{
    if n < 0 {
        push_char(s, '-');
        let magnitude: u64 = if n == i64::MIN { 0x8000_0000_0000_0000 } else { (-n) as u64 };
        push_decimal(s, magnitude);
        assert(final(s)@ =~= old(s)@ + signed_decimal(n as int));
    } else {
        push_decimal(s, n as u64);
    }
}

/// Whether two string slices hold the same characters.
pub fn eq_str(a: &str, b: &str) -> (r: bool)
    ensures
        r == (a@ == b@),
{
    let x = chars_of(a);
    let y = chars_of(b);
    if x.len() != y.len() {
        return false;
    }
    let mut i: usize = 0;
    while i < x.len()
        invariant
            i <= x.len() == y.len(),
            x@ == a@,
            y@ == b@,
            x@.take(i as int) == y@.take(i as int),
        decreases x.len() - i,
    {
        if x[i] != y[i] {
            assert(x@[i as int] != y@[i as int]);
            return false;
        }
        assert(x@.take(i + 1) == x@.take(i as int).push(x@[i as int]));
        assert(y@.take(i + 1) == y@.take(i as int).push(y@[i as int]));
        i = i + 1;
    }
    assert(x@.take(x.len() as int) == x@);
    assert(y@.take(y.len() as int) == y@);
    true
}

/// Whether a character vector holds the same characters as a string slice.
pub fn chars_eq_str(a: &Vec<char>, b: &str) -> (r: bool)
    ensures
        r == (a@ == b@),
{
    let y = chars_of(b);
    if a.len() != y.len() {
        return false;
    }
    let mut i: usize = 0;
    while i < a.len()
        invariant
            i <= a.len() == y.len(),
            y@ == b@,
            a@.take(i as int) == y@.take(i as int),
        decreases a.len() - i,
    {
        if a[i] != y[i] {
            assert(a@[i as int] != y@[i as int]);
            return false;
        }
        assert(a@.take(i + 1) == a@.take(i as int).push(a@[i as int]));
        assert(y@.take(i + 1) == y@.take(i as int).push(y@[i as int]));
        i = i + 1;
    }
    assert(a@.take(a.len() as int) == a@);
    assert(y@.take(y.len() as int) == y@);
    true
}

/// A copy of a string slice as a string (`str::to_string`).
pub fn owned(s: &str) -> (o: String)
    ensures
        o@ == s@,
{
    s.to_owned()
}

/// Flattening a sequence with one more element appends that element.
pub proof fn lemma_flatten_push<A>(x: Seq<Seq<A>>, y: Seq<A>)
    ensures
        x.push(y).flatten() == x.flatten() + y,
{
    vstd::seq_lib::lemma_flatten_concat(x, seq![y]);
    assert(x.push(y) == x + seq![y]);
    assert(seq![y].flatten() == y + seq![y].drop_first().flatten());
    assert(seq![y].drop_first() =~= Seq::<Seq<A>>::empty());
    assert(seq![y].flatten() =~= y);
}

/// Whether `c` is an ASCII decimal digit.
pub open spec fn is_digit(c: char) -> bool {
    '0' <= c <= '9'
}

/// Whether every character of `s` is an ASCII decimal digit.
pub open spec fn all_digits(s: Seq<char>) -> bool {
    forall|i: int| 0 <= i < s.len() ==> #[trigger] is_digit(s[i])
}

/// The value of a digit character.
pub open spec fn digit_value(c: char) -> nat {
    (c as u32 - '0' as u32) as nat
}

/// The number that a sequence of decimal digits denotes.
pub open spec fn digits_value(s: Seq<char>) -> nat
    decreases s.len(),
{
    if s.len() == 0 {
        0
    } else {
        digits_value(s.drop_last()) * 10 + digit_value(s.last())
    }
}

/// Rust's parse of an unsigned integer no larger than `max` (`u64::from_str` and the
/// like): an optional `+`, then at least one decimal digit and nothing else, with a value
/// that fits.
pub open spec fn parse_unsigned_spec(s: Seq<char>, max: nat) -> Option<nat> {
    let digits = if s.len() > 0 && s[0] == '+' { s.drop_first() } else { s };
    if digits.len() == 0 || !all_digits(digits) || digits_value(digits) > max {
        None
    } else {
        Some(digits_value(digits))
    }
}

proof fn lemma_digits_value_grows(s: Seq<char>, i: int)
    requires
        0 <= i <= s.len(),
        all_digits(s),
    ensures
        digits_value(s.take(i)) <= digits_value(s),
    decreases s.len() - i,
{
    if i < s.len() {
        lemma_digits_value_grows(s, i + 1);
        assert(s.take(i + 1).drop_last() == s.take(i));
    } else {
        assert(s.take(i) == s);
    }
}

/// Parses an unsigned integer no larger than `max`, as Rust's `from_str` does.
pub fn parse_unsigned(v: &Vec<char>, max: u64) -> (r: Option<u64>)
    ensures
        r matches Some(n) ==> parse_unsigned_spec(v@, max as nat) == Some(n as nat),
        r is None ==> parse_unsigned_spec(v@, max as nat) is None,
{
    let start: usize = if v.len() > 0 && v[0] == '+' { 1 } else { 0 };
    let ghost digits = if v@.len() > 0 && v@[0] == '+' { v@.drop_first() } else { v@ };
    assert(digits == v@.skip(start as int));
    if start == v.len() {
        return None;
    }
    let mut acc: u128 = 0;
    let mut i = start;
    while i < v.len()
        invariant
            start <= i <= v.len(),
            start < v.len(),
            digits == v@.skip(start as int),
            digits == (if v@.len() > 0 && v@[0] == '+' { v@.drop_first() } else { v@ }),
            all_digits(v@.subrange(start as int, i as int)),
            acc == digits_value(v@.subrange(start as int, i as int)),
            acc <= max,
        decreases v.len() - i,
    {
        let c = v[i];
        if !('0' <= c && c <= '9') {
            assert(!is_digit(digits[i - start]));
            return None;
        }
        let d = (c as u32 - '0' as u32) as u128;
        let next = acc * 10 + d;
        assert(v@.subrange(start as int, i + 1).drop_last() == v@.subrange(start as int, i as int));
        assert(all_digits(v@.subrange(start as int, i + 1)));
        if next > max as u128 {
            proof {
                let pre = v@.subrange(start as int, i + 1);
                if all_digits(digits) {
                    assert(pre == digits.take(i + 1 - start));
                    lemma_digits_value_grows(digits, i + 1 - start);
                }
            }
            return None;
        }
        acc = next;
        i = i + 1;
    }
    assert(v@.subrange(start as int, v.len() as int) == digits);
    Some(acc as u64)
}

/// Whether `s` begins with `p`.
pub open spec fn starts_with(s: Seq<char>, p: Seq<char>) -> bool {
    p.len() <= s.len() && s.take(p.len() as int) == p
}

/// Whether `s` ends with `p`.
pub open spec fn ends_with(s: Seq<char>, p: Seq<char>) -> bool {
    p.len() <= s.len() && s.skip(s.len() - p.len()) == p
}

/// Whether `v` begins with the characters of `p`.
pub fn chars_start_with(v: &Vec<char>, p: &str) -> (b: bool)
    ensures
        b == starts_with(v@, p@),
{
    let pc = chars_of(p);
    if pc.len() > v.len() {
        return false;
    }
    let head = copy_chars(v, 0, pc.len());
    let mut i: usize = 0;
    while i < pc.len()
        invariant
            i <= pc.len() == head.len(),
            pc@ == p@,
            head@ == v@.take(pc.len() as int),
            head@.take(i as int) == pc@.take(i as int),
        decreases pc.len() - i,
    {
        if head[i] != pc[i] {
            assert(head@[i as int] != pc@[i as int]);
            return false;
        }
        assert(head@.take(i + 1) == head@.take(i as int).push(head@[i as int]));
        assert(pc@.take(i + 1) == pc@.take(i as int).push(pc@[i as int]));
        i = i + 1;
    }
    assert(head@.take(pc.len() as int) == head@);
    assert(pc@.take(pc.len() as int) == pc@);
    true
}

/// Whether `v` ends with the characters of `p`.
pub fn chars_end_with(v: &Vec<char>, p: &str) -> (b: bool)
    ensures
        b == ends_with(v@, p@),
{
    let pc = chars_of(p);
    if pc.len() > v.len() {
        return false;
    }
    let tail = copy_chars(v, v.len() - pc.len(), v.len());
    let mut i: usize = 0;
    while i < pc.len()
        invariant
            i <= pc.len() == tail.len(),
            pc@ == p@,
            tail@ == v@.skip(v.len() - pc.len()),
            tail@.take(i as int) == pc@.take(i as int),
        decreases pc.len() - i,
    {
        if tail[i] != pc[i] {
            assert(tail@[i as int] != pc@[i as int]);
            return false;
        }
        assert(tail@.take(i + 1) == tail@.take(i as int).push(tail@[i as int]));
        assert(pc@.take(i + 1) == pc@.take(i as int).push(pc@[i as int]));
        i = i + 1;
    }
    assert(tail@.take(pc.len() as int) == tail@);
    assert(pc@.take(pc.len() as int) == pc@);
    true
}

/// Index of the first occurrence of `c` in `s`, from position `i` on.
pub open spec fn index_of_from(s: Seq<char>, c: char, i: nat) -> Option<nat>
    decreases s.len() - i,
{
    if i >= s.len() {
        None
    } else if s[i as int] == c {
        Some(i)
    } else {
        index_of_from(s, c, i + 1)
    }
}

/// Index of the first occurrence of `c` in `s`.
pub open spec fn index_of(s: Seq<char>, c: char) -> Option<nat> {
    index_of_from(s, c, 0)
}

/// Finds the first occurrence of `c` in `v`.
pub fn find_char(v: &Vec<char>, c: char) -> (r: Option<usize>)
    ensures
        r matches Some(i) ==> index_of(v@, c) == Some(i as nat) && i < v.len(),
        r is None ==> index_of(v@, c) is None,
{
    let mut i: usize = 0;
    while i < v.len()
        invariant
            i <= v.len(),
            index_of(v@, c) == index_of_from(v@, c, i as nat),
        decreases v.len() - i,
    {
        if v[i] == c {
            return Some(i);
        }
        i = i + 1;
    }
    None
}

/// `s` without leading occurrences of `c`.
pub open spec fn trim_start_char(s: Seq<char>, c: char) -> Seq<char>
    decreases s.len(),
{
    if s.len() > 0 && s[0] == c {
        trim_start_char(s.drop_first(), c)
    } else {
        s
    }
}

/// `s` without trailing occurrences of `c`.
pub open spec fn trim_end_char(s: Seq<char>, c: char) -> Seq<char>
    decreases s.len(),
{
    if s.len() > 0 && s.last() == c {
        trim_end_char(s.drop_last(), c)
    } else {
        s
    }
}

/// `s` without leading and trailing occurrences of `c` (`str::trim_matches`).
pub open spec fn trim_char(s: Seq<char>, c: char) -> Seq<char> {
    trim_end_char(trim_start_char(s, c), c)
}

/// Strips leading occurrences of `c`.
pub fn trim_start_chars(v: &Vec<char>, c: char) -> (out: Vec<char>)
    ensures
        out@ == trim_start_char(v@, c),
{
    let mut i: usize = 0;
    assert(v@.skip(0) == v@);
    while i < v.len() && v[i] == c
        invariant
            i <= v.len(),
            trim_start_char(v@, c) == trim_start_char(v@.skip(i as int), c),
        decreases v.len() - i,
    {
        assert(v@.skip(i as int).drop_first() == v@.skip(i + 1));
        i = i + 1;
    }
    copy_chars(v, i, v.len())
}

/// Strips trailing occurrences of `c`.
pub fn trim_end_chars(v: &Vec<char>, c: char) -> (out: Vec<char>)
    ensures
        out@ == trim_end_char(v@, c),
{
    let mut j = v.len();
    assert(v@.take(j as int) == v@);
    while j > 0 && v[j - 1] == c
        invariant
            j <= v.len(),
            trim_end_char(v@, c) == trim_end_char(v@.take(j as int), c),
        decreases j,
    {
        assert(v@.take(j as int).drop_last() == v@.take(j - 1));
        j = j - 1;
    }
    copy_chars(v, 0, j)
}

/// `s` without one trailing `\r`, if it has one.
pub open spec fn strip_cr(s: Seq<char>) -> Seq<char> {
    if s.len() > 0 && s.last() == '\r' {
        s.drop_last()
    } else {
        s
    }
}

/// The lines of a text (`str::lines`): split at `\n`, a `\r` before a `\n` dropped, and no
/// empty line after a final line ending.
pub open spec fn lines_spec(s: Seq<char>) -> Seq<Seq<char>> {
    let p = split_spec(s, '\n');
    let n = p.len();
    Seq::new((n - 1) as nat, |i: int| strip_cr(p[i])) + if p[n - 1].len() > 0 {
        seq![p[n - 1]]
    } else {
        Seq::empty()
    }
}

/// Splits a text into lines (`str::lines`).
pub fn lines_of(s: &str) -> (lines: Vec<Vec<char>>)
    ensures
        pieces_view(lines@) == lines_spec(s@),
{
    let chars = chars_of(s);
    let pieces = split_chars(&chars, '\n');
    let ghost p = pieces_view(pieces@);
    let n = pieces.len();
    let mut lines: Vec<Vec<char>> = Vec::new();
    let mut i: usize = 0;
    while i + 1 < n
        invariant
            n == pieces.len() >= 1,
            i + 1 <= n,
            p == pieces_view(pieces@),
            pieces_view(lines@) == Seq::new(i as nat, |k: int| strip_cr(p[k])),
        decreases n - i,
    {
        let piece = &pieces[i];
        let line = if piece.len() > 0 && piece[piece.len() - 1] == '\r' {
            copy_chars(piece, 0, piece.len() - 1)
        } else {
            copy_chars(piece, 0, piece.len())
        };
        assert(piece@.subrange(0, piece@.len() as int) == piece@);
        assert(piece@.subrange(0, piece@.len() - 1) == piece@.drop_last());
        assert(p[i as int] == piece@);
        assert(line@ == strip_cr(piece@));
        let ghost prev = lines@;
        lines.push(line);
        assert(pieces_view(lines@) == pieces_view(prev).push(line@));
        i = i + 1;
        assert(pieces_view(lines@) =~= Seq::new(i as nat, |k: int| strip_cr(p[k])));
    }
    let last = &pieces[n - 1];
    if last.len() > 0 {
        lines.push(copy_chars(last, 0, last.len()));
        assert(last@.subrange(0, last@.len() as int) == last@);
    }
    assert(pieces_view(lines@) =~= lines_spec(s@));
    lines
}

/// What `String::from_utf8_lossy` gives for these bytes.
pub uninterp spec fn utf8_lossy(bytes: Seq<u8>) -> Seq<char>;

/// Decodes bytes as UTF-8 with `String::from_utf8_lossy`, which replaces each invalid
/// sequence by U+FFFD. The contract names the result; it claims nothing more of it.
#[verifier::external_body]
pub(crate) fn lossy_text(bytes: &[u8]) -> (s: String)
    ensures
        s@ == utf8_lossy(bytes@),
{
    String::from_utf8_lossy(bytes).into_owned()
}

/// The first position at or after `from` where `s` holds `p`.
pub open spec fn find_seq_from(s: Seq<char>, p: Seq<char>, from: nat) -> Option<nat>
    decreases s.len() - from,
{
    if from + p.len() > s.len() {
        None
    } else if s.subrange(from as int, (from + p.len()) as int) == p {
        Some(from)
    } else if from >= s.len() {
        None
    } else {
        find_seq_from(s, p, from + 1)
    }
}

/// Whether `v` holds `p` at position `at`.
pub fn chars_at(v: &Vec<char>, at: usize, p: &Vec<char>) -> (r: bool)
    requires
        at + p.len() <= v.len(),
    ensures
        r == (v@.subrange(at as int, at + p.len()) == p@),
{
    let mut i: usize = 0;
    while i < p.len()
        invariant
            i <= p.len(),
            at + p.len() <= v.len(),
            v@.subrange(at as int, at + i) == p@.take(i as int),
        decreases p.len() - i,
    {
        if v[at + i] != p[i] {
            assert(v@.subrange(at as int, at + p.len())[i as int] != p@[i as int]);
            return false;
        }
        assert(v@.subrange(at as int, at + i + 1) == v@.subrange(at as int, at + i).push(v@[at + i]));
        assert(p@.take(i + 1) == p@.take(i as int).push(p@[i as int]));
        i = i + 1;
    }
    assert(p@.take(p.len() as int) == p@);
    true
}

/// Finds the first position where `v` holds `p` (`str::find` with a string pattern).
pub fn find_chars(v: &Vec<char>, p: &Vec<char>) -> (r: Option<usize>)
    ensures
        r matches Some(i) ==> find_seq_from(v@, p@, 0) == Some(i as nat) && i + p.len() <= v.len(),
        r is None ==> find_seq_from(v@, p@, 0) is None,
{
    let mut i: usize = 0;
    while i <= v.len() && v.len() - i >= p.len()
        invariant
            find_seq_from(v@, p@, 0) == find_seq_from(v@, p@, i as nat),
        decreases v.len() - i,
    {
        let same = chars_at(v, i, p);
        if same {
            return Some(i);
        }
        if i >= v.len() {
            return None;
        }
        i = i + 1;
    }
    None
}

/// The leading ASCII digits of `s`.
pub open spec fn leading_digits(s: Seq<char>) -> Seq<char>
    decreases s.len(),
{
    if s.len() > 0 && is_digit(s[0]) {
        seq![s[0]] + leading_digits(s.drop_first())
    } else {
        Seq::empty()
    }
}

/// The leading ASCII digits of `v` from position `from` on.
pub fn leading_digits_from(v: &Vec<char>, from: usize) -> (out: Vec<char>)
    requires
        from <= v.len(),
    ensures
        out@ == leading_digits(v@.skip(from as int)),
{
    let mut j = from;
    while j < v.len() && '0' <= v[j] && v[j] <= '9'
        invariant
            from <= j <= v.len(),
            leading_digits(v@.skip(from as int)) == v@.subrange(from as int, j as int) + leading_digits(v@.skip(j as int)),
        decreases v.len() - j,
    {
        assert(v@.skip(j as int).drop_first() == v@.skip(j + 1));
        assert(v@.subrange(from as int, j + 1) == v@.subrange(from as int, j as int) + seq![v@[j as int]]);
        j = j + 1;
    }
    assert(leading_digits(v@.skip(j as int)) == Seq::<char>::empty());
    assert(v@.subrange(from as int, j as int) + Seq::<char>::empty() == v@.subrange(from as int, j as int));
    copy_chars(v, from, j)
}

/// Whether two character vectors are equal.
pub fn chars_eq_chars(a: &Vec<char>, b: &Vec<char>) -> (r: bool)
    ensures
        r == (a@ == b@),
{
    if a.len() != b.len() {
        return false;
    }
    let mut i: usize = 0;
    while i < a.len()
        invariant
            i <= a.len() == b.len(),
            a@.take(i as int) == b@.take(i as int),
        decreases a.len() - i,
    {
        if a[i] != b[i] {
            assert(a@[i as int] != b@[i as int]);
            return false;
        }
        assert(a@.take(i + 1) == a@.take(i as int).push(a@[i as int]));
        assert(b@.take(i + 1) == b@.take(i as int).push(b@[i as int]));
        i = i + 1;
    }
    assert(a@.take(a.len() as int) == a@);
    assert(b@.take(b.len() as int) == b@);
    true
}

} // verus!
