//! Character-sequence utilities: searching, splitting, trimming and decimal
//! numbers, each with a mathematical model over `Seq<char>`.

use vstd::prelude::*;
use vstd::std_specs::iter::IteratorSpec;

verus! {

/// `String::push` appends one character at the end of the string.
pub assume_specification[ String::push ](s: &mut String, ch: char)
    ensures
        final(s)@ == old(s)@.push(ch),
;

/// The delimiter `d` occurs in `s` starting at index `i`.
pub open spec fn matches_at(s: Seq<char>, d: Seq<char>, i: int) -> bool {
    0 <= i && i + d.len() <= s.len() && s.subrange(i, i + d.len()) == d
}

/// The least index at or after `from`, and below `s.len()`, at which `d`
/// occurs in `s`; `s.len()` when there is none.
pub open spec fn next_match(s: Seq<char>, d: Seq<char>, from: int) -> int
    decreases s.len() - from,
{
    if from < 0 || from >= s.len() {
        s.len() as int
    } else if matches_at(s, d, from) {
        from
    } else {
        next_match(s, d, from + 1)
    }
}

/// The pieces of `s` from index `from` on, cut at each occurrence of `d`
/// found left to right without overlap.
pub open spec fn split_from(s: Seq<char>, d: Seq<char>, from: int) -> Seq<Seq<char>>
    decreases s.len() - from,
{
    let i = next_match(s, d, from);
    if d.len() > 0 && 0 <= from <= i && i < s.len() && matches_at(s, d, i) {
        seq![s.subrange(from, i)] + split_from(s, d, i + d.len())
    } else {
        seq![s.skip(from)]
    }
}

/// The pieces of `s` between the occurrences of `d`. There is always at
/// least one piece; an empty delimiter cuts nothing.
pub open spec fn split_of(s: Seq<char>, d: Seq<char>) -> Seq<Seq<char>> {
    split_from(s, d, 0)
}

/// `needle` occurs somewhere in `hay`.
pub open spec fn contains(hay: Seq<char>, needle: Seq<char>) -> bool {
    exists|i: int| matches_at(hay, needle, i)
}

/// The views of a sequence of character vectors.
pub open spec fn views(v: Seq<Vec<char>>) -> Seq<Seq<char>> {
    v.map_values(|p: Vec<char>| p@)
}

/// The next match lies at or after the start, is a match where it lies
/// inside the text, and no match lies between the start and it.
pub proof fn lemma_next_match(s: Seq<char>, d: Seq<char>, from: int)
    requires
        0 <= from <= s.len(),
    ensures
        from <= next_match(s, d, from) <= s.len(),
        next_match(s, d, from) < s.len() ==> matches_at(s, d, next_match(s, d, from)),
        forall|j: int| from <= j < next_match(s, d, from) ==> !matches_at(s, d, j),
    decreases s.len() - from,
{
    if from < s.len() && !matches_at(s, d, from) {
        lemma_next_match(s, d, from + 1);
    }
}

/// The pieces with `d` between each two of them.
pub open spec fn joined(pieces: Seq<Seq<char>>, d: Seq<char>) -> Seq<char>
    decreases pieces.len(),
{
    if pieces.len() == 0 {
        Seq::empty()
    } else if pieces.len() == 1 {
        pieces[0]
    } else {
        pieces[0] + d + joined(pieces.drop_first(), d)
    }
}

/// Joining the pieces of a split with the delimiter gives the text back.
pub proof fn lemma_split_joins(s: Seq<char>, d: Seq<char>, from: int)
    requires
        0 <= from <= s.len(),
    ensures
        joined(split_from(s, d, from), d) == s.skip(from),
    decreases s.len() - from,
{
    let i = next_match(s, d, from);
    lemma_next_match(s, d, from);
    if d.len() > 0 && i < s.len() {
        let piece = s.subrange(from, i);
        let rest = split_from(s, d, i + d.len());
        lemma_split_joins(s, d, i + d.len());
        assert((seq![piece] + rest).drop_first() =~= rest);
        assert(piece + d + s.skip(i + d.len()) =~= s.skip(from)) by {
            assert(s.subrange(i, i + d.len()) == d);
        }
    }
}

/// No piece of a split holds the delimiter.
pub proof fn lemma_split_pieces_hold_no_delimiter(s: Seq<char>, d: Seq<char>, from: int, k: int)
    requires
        0 <= from <= s.len(),
        d.len() > 0,
        0 <= k < split_from(s, d, from).len(),
    ensures
        !contains(split_from(s, d, from)[k], d),
    decreases s.len() - from,
{
    let i = next_match(s, d, from);
    lemma_next_match(s, d, from);
    if k == 0 {
        let piece = s.subrange(from, i);
        assert(split_from(s, d, from)[0] =~= piece);
        assert forall|j: int| !matches_at(piece, d, j) by {
            if matches_at(piece, d, j) {
                assert(s.subrange(from + j, from + j + d.len()) =~= piece.subrange(
                    j,
                    j + d.len(),
                ));
                assert(matches_at(s, d, from + j));
            }
        }
    } else {
        let rest = split_from(s, d, i + d.len());
        assert(split_from(s, d, from)[k] == rest[k - 1]);
        lemma_split_pieces_hold_no_delimiter(s, d, i + d.len(), k - 1);
    }
}

/// Every split has at least one piece.
pub proof fn lemma_split_nonempty(s: Seq<char>, d: Seq<char>, from: int)
    ensures
        split_from(s, d, from).len() >= 1,
{
}

fn occurs_at(s: &[char], d: &[char], i: usize) -> (r: bool)
    requires
        i <= s.len(),
    ensures
        r == matches_at(s@, d@, i as int),
{
    if d.len() > s.len() - i {
        return false;
    }
    let mut k: usize = 0;
    while k < d.len()
        invariant
            k <= d.len(),
            i + d.len() <= s.len(),
            forall|j: int| 0 <= j < k ==> s@[i + j] == d@[j],
        decreases d.len() - k,
    {
        if s[i + k] != d[k] {
            proof {
                assert(s@.subrange(i as int, i + d.len())[k as int] == s@[i + k]);
            }
            return false;
        }
        k += 1;
    }
    proof {
        assert(s@.subrange(i as int, i + d.len()) =~= d@);
    }
    true
}

/// Finds the next occurrence of `d` in `s` at or after `from`.
pub fn find_match(s: &[char], d: &[char], from: usize) -> (r: usize)
    ensures
        r as int == next_match(s@, d@, from as int),
        r <= s.len(),
        from <= s.len() ==> from <= r,
{
    if from >= s.len() {
        return s.len();
    }
    let mut i: usize = from;
    while i < s.len()
        invariant
            from <= i <= s.len(),
            next_match(s@, d@, from as int) == next_match(s@, d@, i as int),
        decreases s.len() - i,
    {
        if occurs_at(s, d, i) {
            return i;
        }
        i += 1;
    }
    i
}

/// Copies the characters of `s` from index `a` up to index `b`.
pub(crate) fn copy_range(s: &[char], a: usize, b: usize) -> (r: Vec<char>)
    requires
        a <= b <= s.len(),
    ensures
        r@ == s@.subrange(a as int, b as int),
{
    let mut r: Vec<char> = Vec::new();
    let mut i: usize = a;
    while i < b
        invariant
            a <= i <= b <= s.len(),
            r@ == s@.subrange(a as int, i as int),
        decreases b - i,
    {
        r.push(s[i]);
        i += 1;
        proof {
            assert(r@ =~= s@.subrange(a as int, i as int));
        }
    }
    r
}

/// Cuts `s` at each occurrence of `d`.
pub fn split(s: &[char], d: &[char]) -> (pieces: Vec<Vec<char>>)
    ensures
        views(pieces@) == split_of(s@, d@),
        pieces@.len() >= 1,
{
    let mut pieces: Vec<Vec<char>> = Vec::new();
    let mut start: usize = 0;
    let mut done = false;
    proof {
        assert(views(pieces@) + split_from(s@, d@, 0) =~= split_from(s@, d@, 0));
    }
    while !done
        invariant
            start <= s.len(),
            !done ==> views(pieces@) + split_from(s@, d@, start as int) == split_of(s@, d@),
            done ==> views(pieces@) == split_of(s@, d@) && pieces@.len() >= 1,
        decreases s.len() - start + (if done { 0int } else { 1int }),
    {
        let i = find_match(s, d, start);
        let ghost before = pieces@;
        proof {
            lemma_next_match(s@, d@, start as int);
        }
        if d.len() == 0 || i >= s.len() {
            let piece = copy_range(s, start, s.len());
            pieces.push(piece);
            done = true;
            proof {
                assert(views(pieces@) =~= views(before) + seq![piece@]);
            }
        } else {
            let piece = copy_range(s, start, i);
            pieces.push(piece);
            proof {
                assert(views(pieces@) =~= views(before) + seq![piece@]);
                assert(views(pieces@) + split_from(s@, d@, i + d.len()) =~= views(before) + (
                seq![piece@] + split_from(s@, d@, i + d.len())));
            }
            start = i + d.len();
        }
    }
    pieces
}

/// Whether `needle` occurs in `hay`.
pub fn has_substring(hay: &[char], needle: &[char]) -> (r: bool)
    ensures
        r == contains(hay@, needle@),
{
    if needle.len() == 0 {
        proof {
            assert(hay@.subrange(0, 0) =~= needle@);
            assert(matches_at(hay@, needle@, 0));
        }
        return true;
    }
    let i = find_match(hay, needle, 0);
    proof {
        lemma_next_match(hay@, needle@, 0);
    }
    i < hay.len()
}

/// The characters of a string, in order.
pub fn to_chars(s: &str) -> (v: Vec<char>)
    ensures
        v@ == s@,
{
    broadcast use vstd::string::group_string_axioms;

    let mut v: Vec<char> = Vec::new();
    let mut it = s.chars();
    let mut done = false;
    proof {
        assert(v@ + it.remaining() =~= s@);
    }
    while !done
        invariant
            it.obeys_prophetic_iter_laws(),
            v@ + it.remaining() == s@,
            done ==> it.remaining().len() == 0,
        decreases s@.len() - v@.len() + (if done { 0int } else { 1int }),
    {
        let ghost before = it.remaining();
        let ghost taken = v@;
        match it.next() {
            Some(c) => {
                v.push(c);
                proof {
                    assert(v@ + it.remaining() =~= taken + before);
                }
            },
            None => {
                done = true;
            },
        }
    }
    proof {
        assert(v@ + it.remaining() =~= v@);
    }
    v
}

/// The string made of the given characters.
pub fn to_text(s: &[char]) -> (r: String)
    ensures
        r@ == s@,
{
    let mut r = String::new();
    let mut i: usize = 0;
    while i < s.len()
        invariant
            i <= s.len(),
            r@ == s@.subrange(0, i as int),
        decreases s.len() - i,
    {
        r.push(s[i]);
        i += 1;
        proof {
            assert(r@ =~= s@.subrange(0, i as int));
        }
    }
    proof {
        assert(s@.subrange(0, s@.len() as int) =~= s@);
    }
    r
}

/// The characters that count as white space at the ends of a text.
pub open spec fn is_space(c: char) -> bool {
    let u = c as u32;
    (0x09 <= u <= 0x0d) || u == 0x20 || u == 0x85 || u == 0xa0 || u == 0x1680 || (0x2000 <= u
        <= 0x200a) || u == 0x2028 || u == 0x2029 || u == 0x202f || u == 0x205f || u == 0x3000
}

/// `s` without its leading white space.
pub open spec fn trim_start(s: Seq<char>) -> Seq<char>
    decreases s.len(),
{
    if s.len() > 0 && is_space(s[0]) {
        trim_start(s.drop_first())
    } else {
        s
    }
}

/// `s` without its trailing white space.
pub open spec fn trim_end(s: Seq<char>) -> Seq<char>
    decreases s.len(),
{
    if s.len() > 0 && is_space(s.last()) {
        trim_end(s.drop_last())
    } else {
        s
    }
}

/// `s` without white space at either end.
pub open spec fn trimmed(s: Seq<char>) -> Seq<char> {
    trim_end(trim_start(s))
}

/// Whether `c` is white space.
pub fn is_space_char(c: char) -> (r: bool)
    ensures
        r == is_space(c),
{
    let u: u32 = c as u32;
    (0x09 <= u && u <= 0x0d) || u == 0x20 || u == 0x85 || u == 0xa0 || u == 0x1680 || (0x2000 <= u
        && u <= 0x200a) || u == 0x2028 || u == 0x2029 || u == 0x202f || u == 0x205f || u == 0x3000
}

/// The bounds of `s` without the white space at its ends.
pub fn trim_bounds(s: &[char]) -> (r: (usize, usize))
    ensures
        r.0 <= r.1 <= s.len(),
        s@.subrange(r.0 as int, r.1 as int) == trimmed(s@),
        forall|i: int| 0 <= i < r.0 || r.1 <= i < s.len() ==> is_space(#[trigger] s@[i]),
        r.0 < r.1 ==> !is_space(s@[r.0 as int]) && !is_space(s@[r.1 - 1]),
{
    let n = s.len();
    let mut lo: usize = 0;
    proof {
        assert(s@.subrange(0, n as int) =~= s@);
    }
    while lo < n && is_space_char(s[lo])
        invariant
            lo <= n,
            n == s.len(),
            trim_start(s@) == trim_start(s@.subrange(lo as int, n as int)),
            forall|i: int| 0 <= i < lo ==> is_space(#[trigger] s@[i]),
        decreases n - lo,
    {
        proof {
            assert(s@.subrange(lo as int, n as int).drop_first() =~= s@.subrange(
                lo as int + 1,
                n as int,
            ));
        }
        lo += 1;
    }
    let mut hi: usize = n;
    while hi > lo && is_space_char(s[hi - 1])
        invariant
            lo <= hi <= n,
            n == s.len(),
            trim_start(s@) == s@.subrange(lo as int, n as int),
            trimmed(s@) == trim_end(s@.subrange(lo as int, hi as int)),
            forall|i: int| 0 <= i < lo || hi <= i < n ==> is_space(#[trigger] s@[i]),
            lo < n ==> !is_space(s@[lo as int]),
        decreases hi - lo,
    {
        proof {
            assert(s@.subrange(lo as int, hi as int).drop_last() =~= s@.subrange(
                lo as int,
                hi as int - 1,
            ));
        }
        hi -= 1;
    }
    (lo, hi)
}

/// Whether `c` is one of the ten decimal digits.
pub open spec fn is_digit(c: char) -> bool {
    '0' <= c <= '9'
}

/// Every character of `s` is a decimal digit.
pub open spec fn all_digits(s: Seq<char>) -> bool {
    forall|i: int| 0 <= i < s.len() ==> is_digit(#[trigger] s[i])
}

/// The number that the decimal digits `s` write.
pub open spec fn digits_value(s: Seq<char>) -> nat
    decreases s.len(),
{
    if s.len() == 0 {
        0
    } else {
        (digits_value(s.drop_last()) * 10 + (s.last() as u32 - '0' as u32)) as nat
    }
}

/// The unsigned 64-bit number that `s` writes in decimal: an optional `+`,
/// then one digit or more, the value no more than `u64::MAX`. `None` for
/// every other text.
pub open spec fn decimal_u64(s: Seq<char>) -> Option<u64> {
    let body = if s.len() > 0 && s[0] == '+' {
        s.drop_first()
    } else {
        s
    };
    if body.len() > 0 && all_digits(body) && digits_value(body) <= u64::MAX {
        Some(digits_value(body) as u64)
    } else {
        None
    }
}

/// `s` writes a decimal fraction in plain digits: one digit or more, a
/// point, one digit or more.
pub open spec fn is_decimal(s: Seq<char>) -> bool {
    let k = after_last(s, '.') - 1;
    &&& 1 <= k
    &&& k + 1 < s.len()
    &&& all_digits(s.subrange(0, k))
    &&& all_digits(s.skip(k + 1))
}

/// Whether the characters of `s` from index `a` up to index `b` are all
/// decimal digits.
pub(crate) fn digits_only(s: &[char], a: usize, b: usize) -> (r: bool)
    requires
        a <= b <= s.len(),
    ensures
        r == all_digits(s@.subrange(a as int, b as int)),
{
    let mut i: usize = a;
    while i < b
        invariant
            a <= i <= b <= s.len(),
            forall|j: int| a <= j < i ==> is_digit(#[trigger] s@[j]),
        decreases b - i,
    {
        let c = s[i];
        if !('0' <= c && c <= '9') {
            proof {
                assert(s@.subrange(a as int, b as int)[i - a] == c);
            }
            return false;
        }
        i += 1;
    }
    true
}

/// Whether `s` writes a decimal fraction in plain digits.
pub fn is_decimal_text(s: &[char]) -> (r: bool)
    ensures
        r == is_decimal(s@),
{
    let after = after_last_index(s, '.');
    if after < 2 || after >= s.len() {
        return false;
    }
    digits_only(s, 0, after - 1) && digits_only(s, after, s.len())
}

/// Every character of `s` is the digit `0`.
pub open spec fn all_zeros(s: Seq<char>) -> bool {
    forall|i: int| 0 <= i < s.len() ==> #[trigger] s[i] == '0'
}

/// `s` writes a percentage: a decimal fraction in plain digits that is no
/// more than 100. Its whole part is below 100, or it is 100 and every digit
/// of the fraction is `0`.
pub open spec fn is_percentage(s: Seq<char>) -> bool {
    let k = after_last(s, '.') - 1;
    let whole = digits_value(s.subrange(0, k));
    &&& is_decimal(s)
    &&& (whole < 100 || (whole == 100 && all_zeros(s.skip(k + 1))))
}

/// Whether the characters of `s` from index `a` up to index `b` are all
/// the digit `0`.
pub(crate) fn zeros_only(s: &[char], a: usize, b: usize) -> (r: bool)
    requires
        a <= b <= s.len(),
    ensures
        r == all_zeros(s@.subrange(a as int, b as int)),
{
    let mut i: usize = a;
    while i < b
        invariant
            a <= i <= b <= s.len(),
            forall|j: int| a <= j < i ==> #[trigger] s@[j] == '0',
        decreases b - i,
    {
        if s[i] != '0' {
            proof {
                assert(s@.subrange(a as int, b as int)[i - a] == s@[i as int]);
            }
            return false;
        }
        i += 1;
    }
    true
}

/// Whether `s` writes a percentage.
pub fn is_percentage_text(s: &[char]) -> (r: bool)
    ensures
        r == is_percentage(s@),
{
    if !is_decimal_text(s) {
        return false;
    }
    let after = after_last_index(s, '.');
    let whole = copy_range(s, 0, after - 1);
    proof {
        assert(is_digit(whole@[0]));
    }
    match parse_u64(whole.as_slice()) {
        Some(v) => v < 100 || (v == 100 && zeros_only(s, after, s.len())),
        None => false,
    }
}

/// A prefix of a digit string writes no larger a number than the whole.
pub proof fn lemma_digits_prefix(s: Seq<char>, k: int)
    requires
        0 <= k <= s.len(),
        all_digits(s),
    ensures
        digits_value(s.subrange(0, k)) <= digits_value(s),
    decreases s.len() - k,
{
    if k == s.len() {
        assert(s.subrange(0, k) =~= s);
    } else {
        lemma_digits_prefix(s, k + 1);
        assert(s.subrange(0, k + 1).drop_last() =~= s.subrange(0, k));
        assert(is_digit(s[k]));
    }
}

/// Reads an unsigned 64-bit decimal number.
pub fn parse_u64(s: &[char]) -> (r: Option<u64>)
    ensures
        r == decimal_u64(s@),
{
    let n = s.len();
    let first: usize = if n > 0 && s[0] == '+' {
        1
    } else {
        0
    };
    let ghost body = s@.subrange(first as int, n as int);
    proof {
        if first == 1 {
            assert(body =~= s@.drop_first());
        } else {
            assert(body =~= s@);
        }
    }
    if first == n {
        return None;
    }
    let mut value: u64 = 0;
    let mut i: usize = first;
    proof {
        assert(body.subrange(0, 0) =~= Seq::<char>::empty());
    }
    while i < n
        invariant
            first <= i <= n,
            n == s.len(),
            body == s@.subrange(first as int, n as int),
            body == (if s@.len() > 0 && s@[0] == '+' {
                s@.drop_first()
            } else {
                s@
            }),
            all_digits(body.subrange(0, i - first)),
            value as nat == digits_value(body.subrange(0, i - first)),
        decreases n - i,
    {
        let c = s[i];
        let ghost next = body.subrange(0, i - first + 1);
        proof {
            assert(next.drop_last() =~= body.subrange(0, i - first));
            assert(next.last() == c);
            assert(body[i - first] == c);
        }
        if !('0' <= c && c <= '9') {
            return None;
        }
        let digit: u64 = (c as u32 - '0' as u32) as u64;
        proof {
            assert(all_digits(next)) by {
                assert forall|j: int| 0 <= j < next.len() implies is_digit(#[trigger] next[j]) by {
                    if j < i - first {
                        assert(body.subrange(0, i - first)[j] == next[j]);
                    }
                }
            }
        }
        let ghost total = value as nat * 10 + digit as nat;
        proof {
            assert(total == digits_value(next));
        }
        if value > (u64::MAX - digit) / 10 {
            proof {
                assert(total > u64::MAX);
                if all_digits(body) {
                    lemma_digits_prefix(body, i - first + 1);
                }
            }
            return None;
        }
        value = value * 10 + digit;
        i += 1;
    }
    proof {
        assert(body.subrange(0, n - first) =~= body);
    }
    Some(value)
}

/// The index just after the last `c` in `s`, or 0 where `s` holds none.
pub open spec fn after_last(s: Seq<char>, c: char) -> int
    decreases s.len(),
{
    if s.len() == 0 {
        0
    } else if s.last() == c {
        s.len() as int
    } else {
        after_last(s.drop_last(), c)
    }
}

/// A file name without its extension: what stands before the last `.`, or
/// the whole name where it has no `.` or only a leading one.
pub open spec fn file_stem(name: Seq<char>) -> Seq<char> {
    let k = after_last(name, '.');
    if k <= 1 {
        name
    } else {
        name.subrange(0, k - 1)
    }
}

/// The last component of a path: what follows its last separator.
pub open spec fn file_name_of(path: Seq<char>, separator: char) -> Seq<char> {
    path.skip(after_last(path, separator))
}

/// In a path made of a folder, a separator and a name that holds no
/// separator, the last component is the name.
pub proof fn lemma_file_name_of_joined(folder: Seq<char>, separator: char, name: Seq<char>)
    requires
        forall|i: int| 0 <= i < name.len() ==> name[i] != separator,
    ensures
        after_last(folder + seq![separator] + name, separator) == folder.len() + 1,
        file_name_of(folder + seq![separator] + name, separator) == name,
    decreases name.len(),
{
    let path = folder + seq![separator] + name;
    if name.len() == 0 {
        assert(path.last() == separator);
    } else {
        let shorter = name.drop_last();
        assert(path.last() == name.last());
        assert(path.drop_last() =~= folder + seq![separator] + shorter);
        lemma_file_name_of_joined(folder, separator, shorter);
    }
    assert(path.skip(folder.len() as int + 1) =~= name);
}

/// Finds the index just after the last `c` in `s`.
pub fn after_last_index(s: &[char], c: char) -> (r: usize)
    ensures
        r as int == after_last(s@, c),
        r <= s.len(),
{
    let n = s.len();
    let mut i: usize = n;
    proof {
        assert(s@.subrange(0, n as int) =~= s@);
    }
    while i > 0 && s[i - 1] != c
        invariant
            i <= n,
            n == s.len(),
            after_last(s@, c) == after_last(s@.subrange(0, i as int), c),
        decreases i,
    {
        proof {
            assert(s@.subrange(0, i as int).drop_last() =~= s@.subrange(0, i as int - 1));
        }
        i -= 1;
    }
    i
}

/// The length of the stem of the file name `name`.
pub fn stem_len(name: &[char]) -> (r: usize)
    ensures
        r <= name.len(),
        name@.subrange(0, r as int) == file_stem(name@),
{
    let k = after_last_index(name, '.');
    proof {
        assert(name@.subrange(0, name@.len() as int) =~= name@);
    }
    if k <= 1 {
        name.len()
    } else {
        k - 1
    }
}

} // verus!
