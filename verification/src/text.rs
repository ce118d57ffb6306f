//! Text as a sequence of characters, and as the UTF-8 bytes that hold it.

use vstd::prelude::*;
use vstd::utf8::*;

verus! {

// ---------------------------------------------------------------------------------------------
// Sizes
// ---------------------------------------------------------------------------------------------

/// How many bytes UTF-8 needs for `c`.
pub open spec fn width(c: char) -> nat {
    encode_scalar(c as u32).len()
}

/// How many bytes UTF-8 needs for `s`.
pub open spec fn byte_size(s: Seq<char>) -> nat {
    encode_utf8(s).len()
}

/// The encoding of two texts in a row is the two encodings in a row.
pub proof fn lemma_byte_size_concat(a: Seq<char>, b: Seq<char>)
    ensures
        byte_size(a + b) == byte_size(a) + byte_size(b),
    decreases a.len(),
{
    if a.len() == 0 {
        assert(a + b =~= b);
    } else {
        assert((a + b).drop_first() =~= a.drop_first() + b);
        assert((a + b)[0] == a[0]);
        lemma_byte_size_concat(a.drop_first(), b);
    }
}

/// A character needs at least one byte and at most four, and so does each character of a text.
pub proof fn lemma_byte_size_bounds(s: Seq<char>)
    ensures
        s.len() <= byte_size(s) <= 4 * s.len(),
    decreases s.len(),
{
    if s.len() > 0 {
        char_is_scalar(s[0]);
        lemma_byte_size_bounds(s.drop_first());
    }
}

/// ASCII text has as many bytes as characters.
pub proof fn lemma_byte_size_ascii(s: Seq<char>)
    requires
        is_ascii_chars(s),
    ensures
        byte_size(s) == s.len(),
{
    is_ascii_chars_encode_utf8(s);
}

/// The number of bytes that hold `s`.
pub fn byte_len(s: &str) -> (r: usize)
    ensures
        r == byte_size(s@),
{
    s.as_bytes().len()
}

/// The number of bytes that hold `c`.
pub fn char_width(c: char) -> (r: usize)
    ensures
        r == width(c),
        1 <= r <= 4,
{
    proof {
        char_is_scalar(c);
    }
    let v = c as u32;
    if v <= 0x7F {
        1
    } else if v <= 0x7FF {
        2
    } else if v <= 0xFFFF {
        3
    } else {
        4
    }
}

// ---------------------------------------------------------------------------------------------
// Conversions
// ---------------------------------------------------------------------------------------------

/// The characters of `s`.
pub fn chars_of(s: &str) -> (r: Vec<char>)
    ensures
        r@ == s@,
{
    let mut out: Vec<char> = Vec::new();
    for c in it: s.chars()
        invariant
            out@ == s@.take(it.index()),
            it.seq() == s@,
    {
        out.push(c);
    }
    out
}

/// The text of the characters `chars[from..to]`.
pub fn string_of(chars: &Vec<char>, from: usize, to: usize) -> (r: String)
    requires
        from <= to <= chars@.len(),
    ensures
        r@ == chars@.subrange(from as int, to as int),
{
    let mut out = String::new();
    let mut i: usize = from;
    while i < to
        invariant
            from <= i <= to <= chars@.len(),
            out@ == chars@.subrange(from as int, i as int),
        decreases to - i,
    {
        out.push(chars[i]);
        i += 1;
    }
    out
}

/// The texts of strings.
pub open spec fn text_views(strings: Seq<String>) -> Seq<Seq<char>> {
    Seq::new(strings.len(), |i: int| strings[i]@)
}

// ---------------------------------------------------------------------------------------------
// Comparison
// ---------------------------------------------------------------------------------------------

/// Whether the two texts are the same.
pub fn same_text(a: &str, b: &str) -> (r: bool)
    ensures
        r == (a@ == b@),
{
    proof {
        encode_utf8_decode_utf8(a@);
        encode_utf8_decode_utf8(b@);
    }
    let x = a.as_bytes();
    let y = b.as_bytes();
    if x.len() != y.len() {
        return false;
    }
    let mut i: usize = 0;
    while i < x.len()
        invariant
            i <= x@.len(),
            x@.len() == y@.len(),
            x@ == encode_utf8(a@),
            y@ == encode_utf8(b@),
            forall|j: int| 0 <= j < i ==> x@[j] == y@[j],
        decreases x@.len() - i,
    {
        if x[i] != y[i] {
            return false;
        }
        i += 1;
    }
    assert(x@ =~= y@);
    true
}

/// `a` comes before `b` in the order of their characters, read from the front: the order in which
/// strings compare.
pub open spec fn text_lt(a: Seq<char>, b: Seq<char>) -> bool
    decreases a.len(),
{
    if b.len() == 0 {
        false
    } else if a.len() == 0 {
        true
    } else if a[0] != b[0] {
        a[0] < b[0]
    } else {
        text_lt(a.drop_first(), b.drop_first())
    }
}

/// Of two texts, one comes first or they are the same.
pub proof fn lemma_text_lt_total(a: Seq<char>, b: Seq<char>)
    ensures
        text_lt(a, b) || text_lt(b, a) || a == b,
        !(text_lt(a, b) && text_lt(b, a)),
        !(text_lt(a, b) && a == b),
    decreases a.len(),
{
    if a.len() > 0 && b.len() > 0 && a[0] == b[0] {
        lemma_text_lt_total(a.drop_first(), b.drop_first());
        if a.drop_first() == b.drop_first() {
            assert(a =~= seq![a[0]] + a.drop_first());
            assert(b =~= seq![b[0]] + b.drop_first());
        }
    } else if a.len() == 0 && b.len() == 0 {
        assert(a =~= b);
    }
}

/// What comes before the earlier comes before the later.
pub proof fn lemma_text_lt_transitive(a: Seq<char>, b: Seq<char>, c: Seq<char>)
    requires
        text_lt(a, b),
        text_lt(b, c),
    ensures
        text_lt(a, c),
    decreases a.len(),
{
    if a.len() > 0 && b.len() > 0 && c.len() > 0 && a[0] == b[0] && b[0] == c[0] {
        lemma_text_lt_transitive(a.drop_first(), b.drop_first(), c.drop_first());
    }
}

/// Whether `a` comes before `b`.
pub fn text_before(a: &str, b: &str) -> (r: bool)
    ensures
        r == text_lt(a@, b@),
{
    let x = chars_of(a);
    let y = chars_of(b);
    let mut i: usize = 0;
    proof {
        assert(x@.skip(0) =~= x@);
        assert(y@.skip(0) =~= y@);
    }
    while i < x.len() && i < y.len() && x[i] == y[i]
        invariant
            i <= x@.len(),
            i <= y@.len(),
            text_lt(x@, y@) == text_lt(x@.skip(i as int), y@.skip(i as int)),
        decreases x@.len() - i,
    {
        assert(x@.skip(i as int).drop_first() =~= x@.skip(i + 1));
        assert(y@.skip(i as int).drop_first() =~= y@.skip(i + 1));
        i += 1;
    }
    if i >= y.len() {
        false
    } else if i >= x.len() {
        true
    } else {
        x[i] < y[i]
    }
}

// ---------------------------------------------------------------------------------------------
// Pieces of text
// ---------------------------------------------------------------------------------------------

/// Unicode's `White_Space` property.
pub open spec fn is_white_space(c: char) -> bool {
    let v = c as u32;
    ||| 0x09 <= v <= 0x0D
    ||| v == 0x20
    ||| v == 0x85
    ||| v == 0xA0
    ||| v == 0x1680
    ||| 0x2000 <= v <= 0x200A
    ||| v == 0x2028
    ||| v == 0x2029
    ||| v == 0x202F
    ||| v == 0x205F
    ||| v == 0x3000
}

/// `s` without the white space at its front.
pub open spec fn trim_front(s: Seq<char>) -> Seq<char>
    decreases s.len(),
{
    if s.len() > 0 && is_white_space(s[0]) {
        trim_front(s.drop_first())
    } else {
        s
    }
}

/// `s` without the white space at its end.
pub open spec fn trim_back(s: Seq<char>) -> Seq<char>
    decreases s.len(),
{
    if s.len() > 0 && is_white_space(s.last()) {
        trim_back(s.drop_last())
    } else {
        s
    }
}

/// `s` without the white space around it.
pub open spec fn trimmed(s: Seq<char>) -> Seq<char> {
    trim_back(trim_front(s))
}

/// The text of `s` without the white space around it.
pub fn trim_text(s: &str) -> (r: String)
    ensures
        r@ == trimmed(s@),
{
    let chars = chars_of(s);
    let mut from: usize = 0;
    assert(chars@.skip(0) =~= chars@);
    while from < chars.len() && chars[from].is_whitespace()
        invariant
            from <= chars@.len(),
            trim_front(chars@) == trim_front(chars@.skip(from as int)),
        decreases chars@.len() - from,
    {
        assert(chars@.skip(from as int).drop_first() =~= chars@.skip(from + 1));
        from += 1;
    }
    let mut to: usize = chars.len();
    assert(trim_front(chars@) == chars@.skip(from as int));
    assert(chars@.subrange(from as int, to as int) =~= chars@.skip(from as int));
    while from < to && chars[to - 1].is_whitespace()
        invariant
            from <= to <= chars@.len(),
            trim_back(trim_front(chars@)) == trim_back(chars@.subrange(from as int, to as int)),
        decreases to - from,
    {
        assert(chars@.subrange(from as int, to as int).drop_last() =~= chars@.subrange(
            from as int,
            to - 1,
        ));
        to -= 1;
    }
    string_of(&chars, from, to)
}

/// The first `n` characters of `s`, or all of them where it has fewer.
pub open spec fn first_chars(s: Seq<char>, n: int) -> Seq<char> {
    if s.len() <= n {
        s
    } else {
        s.take(n)
    }
}

/// The longest end of `s` that `n` bytes can hold.
pub open spec fn last_bytes(s: Seq<char>, n: nat) -> Seq<char>
    decreases s.len(),
{
    if s.len() == 0 || byte_size(s) <= n {
        s
    } else {
        last_bytes(s.drop_first(), n)
    }
}

/// The longest beginning of `s` that `n` bytes can hold.
pub open spec fn first_bytes(s: Seq<char>, n: nat) -> Seq<char>
    decreases s.len(),
{
    if s.len() == 0 || byte_size(s) <= n {
        s
    } else {
        first_bytes(s.drop_last(), n)
    }
}

/// The text of the first `n` characters of `s`.
pub fn first_chars_of(s: &str, n: usize) -> (r: String)
    ensures
        r@ == first_chars(s@, n as int),
{
    let chars = chars_of(s);
    let to = if chars.len() <= n { chars.len() } else { n };
    assert(chars@.subrange(0, to as int) =~= first_chars(s@, n as int));
    string_of(&chars, 0, to)
}

/// The end of a text that `n` bytes hold is an end of it and takes no more than `n` bytes.
pub proof fn lemma_last_bytes_fits(s: Seq<char>, n: nat)
    ensures
        byte_size(last_bytes(s, n)) <= n,
        ends_with(s, last_bytes(s, n)),
    decreases s.len(),
{
    if s.len() > 0 && byte_size(s) > n {
        let rest = s.drop_first();
        lemma_last_bytes_fits(rest, n);
        let end = last_bytes(rest, n);
        assert(s.skip(s.len() - end.len()) =~= rest.skip(rest.len() - end.len()));
    } else {
        assert(s.skip(0) =~= s);
    }
}

/// An end that fits, where the next longer one does not, is the longest that fits.
proof fn lemma_last_bytes_from(s: Seq<char>, n: nat, from: int)
    requires
        0 <= from <= s.len(),
        byte_size(s.skip(from)) <= n,
        from > 0 ==> byte_size(s.skip(from - 1)) > n,
    ensures
        last_bytes(s, n) == s.skip(from),
    decreases from,
{
    if from == 0 {
        assert(s.skip(0) =~= s);
    } else {
        assert(s =~= s.take(from - 1) + s.skip(from - 1));
        lemma_byte_size_concat(s.take(from - 1), s.skip(from - 1));
        let rest = s.drop_first();
        assert(rest.skip(from - 1) =~= s.skip(from));
        if from > 1 {
            assert(rest.skip(from - 2) =~= s.skip(from - 1));
        }
        lemma_last_bytes_from(rest, n, from - 1);
    }
}

/// The text of the longest end of `s` that `n` bytes can hold.
pub fn last_bytes_of(s: &str, n: usize) -> (r: String)
    ensures
        r@ == last_bytes(s@, n as nat),
{
    let chars = chars_of(s);
    let mut from: usize = chars.len();
    let mut left: usize = n;
    assert(chars@.skip(from as int) =~= Seq::<char>::empty());
    while from > 0
        invariant_except_break
            from <= chars@.len(),
            byte_size(chars@.skip(from as int)) + left == n,
        ensures
            from <= chars@.len(),
            byte_size(chars@.skip(from as int)) <= n,
            from > 0 ==> byte_size(chars@.skip(from - 1)) > n,
        decreases from,
    {
        assert(chars@.skip(from - 1).drop_first() =~= chars@.skip(from as int));
        let width = char_width(chars[from - 1]);
        if width > left {
            break;
        }
        left -= width;
        from -= 1;
    }
    proof {
        lemma_last_bytes_from(chars@, n as nat, from as int);
        assert(chars@.subrange(from as int, chars@.len() as int) =~= chars@.skip(from as int));
    }
    string_of(&chars, from, chars.len())
}

/// One character more takes its bytes more.
proof fn lemma_byte_size_push(s: Seq<char>, c: char)
    ensures
        byte_size(s.push(c)) == byte_size(s) + width(c),
{
    let one = seq![c];
    assert(s.push(c) =~= s + one);
    lemma_byte_size_concat(s, one);
    assert(one.drop_first() =~= Seq::<char>::empty());
    assert(encode_utf8(one) =~= encode_scalar(c as u32) + encode_utf8(one.drop_first()));
}

/// The beginning of a text that `n` bytes hold is a beginning of it and takes no more than `n`
/// bytes.
pub proof fn lemma_first_bytes_fits(s: Seq<char>, n: nat)
    ensures
        byte_size(first_bytes(s, n)) <= n,
        begins_with(s, first_bytes(s, n)),
    decreases s.len(),
{
    if s.len() > 0 && byte_size(s) > n {
        let front = s.drop_last();
        lemma_first_bytes_fits(front, n);
        let beginning = first_bytes(front, n);
        assert(s.take(beginning.len() as int) =~= front.take(beginning.len() as int));
    } else {
        assert(s.take(s.len() as int) =~= s);
    }
}

/// A beginning that fits, where the next longer one does not, is the longest that fits.
proof fn lemma_first_bytes_to(s: Seq<char>, n: nat, to: int)
    requires
        0 <= to <= s.len(),
        byte_size(s.take(to)) <= n,
        to < s.len() ==> byte_size(s.take(to + 1)) > n,
    ensures
        first_bytes(s, n) == s.take(to),
    decreases s.len() - to,
{
    if to == s.len() {
        assert(s.take(to) =~= s);
    } else {
        assert(s =~= s.take(to + 1) + s.skip(to + 1));
        lemma_byte_size_concat(s.take(to + 1), s.skip(to + 1));
        let front = s.drop_last();
        assert(front.take(to) =~= s.take(to));
        if to < front.len() {
            assert(front.take(to + 1) =~= s.take(to + 1));
        }
        lemma_first_bytes_to(front, n, to);
    }
}

/// The text of the longest beginning of `s` that `n` bytes can hold.
pub fn first_bytes_of(s: &str, n: usize) -> (r: String)
    ensures
        r@ == first_bytes(s@, n as nat),
{
    let chars = chars_of(s);
    let mut to: usize = 0;
    let mut left: usize = n;
    assert(chars@.take(0) =~= Seq::<char>::empty());
    while to < chars.len()
        invariant_except_break
            to <= chars@.len(),
            byte_size(chars@.take(to as int)) + left == n,
        ensures
            to <= chars@.len(),
            byte_size(chars@.take(to as int)) <= n,
            to < chars@.len() ==> byte_size(chars@.take(to + 1)) > n,
        decreases chars@.len() - to,
    {
        proof {
            assert(chars@.take(to + 1) =~= chars@.take(to as int).push(chars@[to as int]));
            lemma_byte_size_push(chars@.take(to as int), chars@[to as int]);
        }
        let width = char_width(chars[to]);
        if width > left {
            break;
        }
        left -= width;
        to += 1;
    }
    proof {
        lemma_first_bytes_to(chars@, n as nat, to as int);
        assert(chars@.subrange(0, to as int) =~= chars@.take(to as int));
    }
    string_of(&chars, 0, to)
}

/// `s` begins with `prefix`.
pub open spec fn begins_with(s: Seq<char>, prefix: Seq<char>) -> bool {
    prefix.len() <= s.len() && s.take(prefix.len() as int) == prefix
}

/// `s` ends with `suffix`.
pub open spec fn ends_with(s: Seq<char>, suffix: Seq<char>) -> bool {
    suffix.len() <= s.len() && s.skip(s.len() - suffix.len()) == suffix
}

/// Whether `s` ends with `suffix`.
pub fn text_ends_with(s: &str, suffix: &str) -> (r: bool)
    ensures
        r == ends_with(s@, suffix@),
{
    let x = chars_of(s);
    let y = chars_of(suffix);
    if y.len() > x.len() {
        return false;
    }
    let total = x.len();
    let from = total - y.len();
    let mut i: usize = 0;
    while i < y.len()
        invariant
            i <= y@.len(),
            x@ == s@,
            y@ == suffix@,
            total == x@.len(),
            from + y@.len() == total,
            forall|j: int| 0 <= j < i ==> x@[from + j] == #[trigger] y@[j],
        decreases y@.len() - i,
    {
        if x[from + i] != y[i] {
            assert(x@.skip(from as int)[i as int] != y@[i as int]);
            return false;
        }
        i += 1;
    }
    assert(x@.skip(from as int) =~= y@);
    true
}

/// The texts of `parts`, with `separator` between each two of them.
pub open spec fn joined(parts: Seq<Seq<char>>, separator: Seq<char>) -> Seq<char>
    decreases parts.len(),
{
    if parts.len() == 0 {
        Seq::empty()
    } else if parts.len() == 1 {
        parts[0]
    } else {
        joined(parts.drop_last(), separator) + separator + parts.last()
    }
}

// ---------------------------------------------------------------------------------------------
// Lines
// ---------------------------------------------------------------------------------------------

/// Where the first line of `s` ends: at the first newline, or at the end of the text.
pub open spec fn line_end(s: Seq<char>) -> int
    decreases s.len(),
{
    if s.len() == 0 || s[0] == '\n' {
        0
    } else {
        1 + line_end(s.drop_first())
    }
}

/// The first line ends within the text, no newline stands in it, and one stands behind it unless
/// the text ends there.
pub proof fn lemma_line_end(s: Seq<char>)
    ensures
        0 <= line_end(s) <= s.len(),
        forall|i: int| 0 <= i < line_end(s) ==> s[i] != '\n',
        line_end(s) < s.len() ==> s[line_end(s)] == '\n',
    decreases s.len(),
{
    if s.len() > 0 && s[0] != '\n' {
        let rest = s.drop_first();
        lemma_line_end(rest);
        assert(forall|i: int| 0 < i < s.len() ==> s[i] == #[trigger] rest[i - 1]);
        assert forall|i: int| 0 <= i < line_end(s) implies s[i] != '\n' by {
            if i > 0 {
                assert(rest[i - 1] != '\n');
            }
        }
    }
}

/// The lines of `s`. A newline ends a line; what stands behind the last one is a line where it is
/// not empty.
pub open spec fn split_lines(s: Seq<char>) -> Seq<Seq<char>>
    decreases s.len(),
    via split_lines_decreases
{
    let end = line_end(s);
    if s.len() == 0 {
        Seq::empty()
    } else if end >= s.len() {
        seq![s]
    } else {
        seq![s.take(end)] + split_lines(s.skip(end + 1))
    }
}

#[via_fn]
proof fn split_lines_decreases(s: Seq<char>) {
    lemma_line_end(s);
}

/// How many newlines stand in `s`.
pub open spec fn newlines(s: Seq<char>) -> nat
    decreases s.len(),
{
    if s.len() == 0 {
        0
    } else {
        newlines(s.drop_last()) + if s.last() == '\n' {
            1nat
        } else {
            0nat
        }
    }
}

/// The newlines of two texts in a row are those of both.
proof fn lemma_newlines_concat(a: Seq<char>, b: Seq<char>)
    ensures
        newlines(a + b) == newlines(a) + newlines(b),
    decreases b.len(),
{
    if b.len() == 0 {
        assert(a + b =~= a);
    } else {
        assert((a + b).drop_last() =~= a + b.drop_last());
        lemma_newlines_concat(a, b.drop_last());
    }
}

/// A text in which no newline stands has none.
proof fn lemma_newlines_none(s: Seq<char>)
    requires
        forall|i: int| 0 <= i < s.len() ==> s[i] != '\n',
    ensures
        newlines(s) == 0,
    decreases s.len(),
{
    if s.len() > 0 {
        lemma_newlines_none(s.drop_last());
    }
}

/// There is a line for each newline, and one more where text stands behind the last of them.
proof fn lemma_line_count(s: Seq<char>)
    ensures
        split_lines(s).len() == newlines(s) + if s.len() > 0 && s.last() != '\n' {
            1int
        } else {
            0int
        },
    decreases s.len(),
{
    lemma_line_end(s);
    let end = line_end(s);
    if s.len() == 0 {
    } else if end >= s.len() {
        lemma_newlines_none(s);
    } else {
        let head = s.take(end + 1);
        let rest = s.skip(end + 1);
        lemma_line_count(rest);
        assert(s =~= head + rest);
        lemma_newlines_concat(head, rest);
        assert(head.drop_last() =~= s.take(end));
        lemma_newlines_none(s.take(end));
    }
}

/// How many lines `s` has.
pub fn line_count(s: &str) -> (r: usize)
    ensures
        r == split_lines(s@).len(),
{
    let chars = chars_of(s);
    let total = chars.len();
    let mut count: usize = 0;
    let mut i: usize = 0;
    while i < total
        invariant
            i <= total,
            total == chars@.len(),
            count <= i,
            count == newlines(chars@.take(i as int)),
            i == 0 || chars@[i - 1] == '\n' || count < i,
        decreases total - i,
    {
        assert(chars@.take(i + 1).drop_last() =~= chars@.take(i as int));
        if chars[i] == '\n' {
            count += 1;
        }
        i += 1;
    }
    proof {
        assert(chars@.take(i as int) =~= chars@);
        lemma_line_count(s@);
    }
    if total > 0 && chars[total - 1] != '\n' {
        count += 1;
    }
    count
}

// ---------------------------------------------------------------------------------------------
// Numbers in text
// ---------------------------------------------------------------------------------------------

/// The decimal digit of `d`.
pub open spec fn digit(d: nat) -> char {
    if d == 0 {
        '0'
    } else if d == 1 {
        '1'
    } else if d == 2 {
        '2'
    } else if d == 3 {
        '3'
    } else if d == 4 {
        '4'
    } else if d == 5 {
        '5'
    } else if d == 6 {
        '6'
    } else if d == 7 {
        '7'
    } else if d == 8 {
        '8'
    } else {
        '9'
    }
}

/// `n` in decimal.
pub open spec fn decimal(n: nat) -> Seq<char>
    decreases n,
{
    if n < 10 {
        seq![digit(n)]
    } else {
        decimal(n / 10).push(digit(n % 10))
    }
}

/// The text of `n` in decimal.
pub fn decimal_text(n: u128) -> (r: String)
    ensures
        r@ == decimal(n as nat),
    decreases n,
{
    let last = match n % 10 {
        0 => '0',
        1 => '1',
        2 => '2',
        3 => '3',
        4 => '4',
        5 => '5',
        6 => '6',
        7 => '7',
        8 => '8',
        _ => '9',
    };
    let mut out = if n < 10 {
        String::new()
    } else {
        decimal_text(n / 10)
    };
    out.push(last);
    out
}

// ---------------------------------------------------------------------------------------------
// Laws
// ---------------------------------------------------------------------------------------------

/// The size of a text is that of its characters: one byte for each below U+0080, two below U+0800,
/// three below U+10000 and four for the others.
pub proof fn law_size_is_by_characters(s: Seq<char>, c: char)
    ensures
        byte_size(Seq::empty()) == 0,
        byte_size(s.push(c)) == byte_size(s) + if (c as u32) < 0x80 {
            1int
        } else if (c as u32) < 0x800 {
            2
        } else if (c as u32) < 0x1_0000 {
            3
        } else {
            4
        },
{
    char_is_scalar(c);
    lemma_byte_size_push(s, c);
}

/// What two texts have in common at their fronts does not matter for their order; the first
/// character in which they differ decides, and what ends first comes first.
pub proof fn law_first_difference_decides(
    common: Seq<char>,
    a: Seq<char>,
    b: Seq<char>,
    c: char,
    d: char,
)
    ensures
        text_lt(common + a, common + b) == text_lt(a, b),
        !text_lt(a, Seq::empty()),
        text_lt(Seq::empty(), seq![c] + a),
        c < d ==> text_lt(seq![c] + a, seq![d] + b),
        c < d ==> !text_lt(seq![d] + b, seq![c] + a),
    decreases common.len(),
{
    if common.len() == 0 {
        assert(common + a =~= a);
        assert(common + b =~= b);
    } else {
        assert((common + a).drop_first() =~= common.drop_first() + a);
        assert((common + b).drop_first() =~= common.drop_first() + b);
        law_first_difference_decides(common.drop_first(), a, b, c, d);
    }
}

/// White space is the space, the no-break space, the control characters from the tab to the
/// carriage return, the next line, and the spaces and separators of other scripts.
pub proof fn law_white_space(c: char)
    ensures
        is_white_space(c) <==> c == ' ' || c == '\t' || c == '\n' || c == '\u{b}' || c == '\u{c}'
            || c == '\r' || c == '\u{85}' || c == '\u{a0}' || c == '\u{1680}' || '\u{2000}' <= c
            <= '\u{200a}' || c == '\u{2028}' || c == '\u{2029}' || c == '\u{202f}' || c
            == '\u{205f}' || c == '\u{3000}',
{
}

/// What is left of a text without the white space at its front.
proof fn lemma_trim_front(s: Seq<char>) -> (i: int)
    ensures
        0 <= i <= s.len(),
        trim_front(s) == s.skip(i),
        forall|k: int| 0 <= k < i ==> is_white_space(#[trigger] s[k]),
        i < s.len() ==> !is_white_space(s[i]),
    decreases s.len(),
{
    if s.len() > 0 && is_white_space(s[0]) {
        let rest = s.drop_first();
        let i = lemma_trim_front(rest);
        assert(rest.skip(i) =~= s.skip(i + 1));
        assert forall|k: int| 0 <= k < i + 1 implies is_white_space(#[trigger] s[k]) by {
            if k > 0 {
                assert(is_white_space(rest[k - 1]));
            }
        }
        i + 1
    } else {
        assert(s.skip(0) =~= s);
        0
    }
}

/// What is left of a text without the white space at its end.
proof fn lemma_trim_back(s: Seq<char>) -> (j: int)
    ensures
        0 <= j <= s.len(),
        trim_back(s) == s.take(j),
        forall|k: int| j <= k < s.len() ==> is_white_space(#[trigger] s[k]),
        j > 0 ==> !is_white_space(s[j - 1]),
    decreases s.len(),
{
    if s.len() > 0 && is_white_space(s.last()) {
        let front = s.drop_last();
        let j = lemma_trim_back(front);
        assert(front.take(j) =~= s.take(j));
        assert forall|k: int| j <= k < s.len() implies is_white_space(#[trigger] s[k]) by {
            if k < front.len() {
                assert(is_white_space(front[k]));
            }
        }
        j
    } else {
        assert(s.take(s.len() as int) =~= s);
        s.len() as int
    }
}

/// Trimming takes white space away at both ends and nothing else, and leaves none there.
pub proof fn law_trimming_takes_white_space(s: Seq<char>)
    ensures
        exists|i: int, j: int|
            0 <= i <= j <= s.len() && trimmed(s) == #[trigger] s.subrange(i, j) && (forall|k: int|
                0 <= k < i || j <= k < s.len() ==> is_white_space(#[trigger] s[k])),
        trimmed(s).len() > 0 ==> !is_white_space(trimmed(s)[0]) && !is_white_space(
            trimmed(s).last(),
        ),
{
    let i = lemma_trim_front(s);
    let rest = s.skip(i);
    let j = lemma_trim_back(rest);
    assert(rest.take(j) =~= s.subrange(i, i + j));
    assert forall|k: int| 0 <= k < i || i + j <= k < s.len() implies is_white_space(
        #[trigger] s[k],
    ) by {
        if k >= i + j {
            assert(is_white_space(rest[k - i]));
        }
    }
    if j > 0 {
        assert(trimmed(s)[0] == s[i]);
        assert(trimmed(s).last() == rest[j - 1]);
    }
}

/// The first characters of a text are its beginning, as many as are asked for and there are.
pub proof fn law_first_characters(s: Seq<char>, n: nat)
    ensures
        first_chars(s, n as int).len() == if n <= s.len() {
            n
        } else {
            s.len()
        },
        forall|i: int|
            0 <= i < first_chars(s, n as int).len() ==> first_chars(s, n as int)[i] == s[i],
{
}

/// The end of a text that `n` bytes hold is an end of it that they hold, and they hold no longer
/// one.
pub proof fn law_last_bytes_are_the_longest_end(s: Seq<char>, n: nat, i: int)
    requires
        0 <= i <= s.len(),
    ensures
        last_bytes(s, n).len() <= s.len(),
        last_bytes(s, n) == s.subrange(s.len() - last_bytes(s, n).len(), s.len() as int),
        byte_size(last_bytes(s, n)) <= n,
        s.len() - i > last_bytes(s, n).len() ==> byte_size(s.subrange(i, s.len() as int)) > n,
    decreases s.len(),
{
    lemma_last_bytes_fits(s, n);
    let end = last_bytes(s, n);
    assert(end =~= s.subrange(s.len() - end.len(), s.len() as int));
    if s.len() > 0 && byte_size(s) > n {
        if i > 0 {
            law_last_bytes_are_the_longest_end(s.drop_first(), n, i - 1);
            assert(s.drop_first().subrange(i - 1, s.len() - 1) =~= s.subrange(i, s.len() as int));
        } else {
            assert(s.subrange(0, s.len() as int) =~= s);
        }
    }
}

/// The beginning of a text that `n` bytes hold is a beginning of it that they hold, and they hold
/// no longer one.
pub proof fn law_first_bytes_are_the_longest_beginning(s: Seq<char>, n: nat, i: int)
    requires
        0 <= i <= s.len(),
    ensures
        first_bytes(s, n).len() <= s.len(),
        first_bytes(s, n) == s.subrange(0, first_bytes(s, n).len() as int),
        byte_size(first_bytes(s, n)) <= n,
        i > first_bytes(s, n).len() ==> byte_size(s.subrange(0, i)) > n,
    decreases s.len(),
{
    lemma_first_bytes_fits(s, n);
    let beginning = first_bytes(s, n);
    assert(beginning =~= s.subrange(0, beginning.len() as int));
    if s.len() > 0 && byte_size(s) > n {
        if i < s.len() {
            law_first_bytes_are_the_longest_beginning(s.drop_last(), n, i);
            assert(s.drop_last().subrange(0, i) =~= s.subrange(0, i));
        } else {
            assert(s.subrange(0, s.len() as int) =~= s);
        }
    }
}

/// A text begins with what it was begun with and ends with what was put behind it; and what it
/// begins or ends with leaves a rest.
pub proof fn law_beginnings_and_ends(a: Seq<char>, b: Seq<char>, s: Seq<char>)
    ensures
        begins_with(a + b, a),
        ends_with(a + b, b),
        begins_with(s, a) ==> s == a + s.subrange(a.len() as int, s.len() as int),
        ends_with(s, b) ==> s == s.subrange(0, s.len() - b.len()) + b,
{
    assert((a + b).take(a.len() as int) =~= a);
    assert((a + b).skip((a + b).len() - b.len()) =~= b);
    if begins_with(s, a) {
        assert(s =~= a + s.subrange(a.len() as int, s.len() as int));
    }
    if ends_with(s, b) {
        assert(s =~= s.subrange(0, s.len() - b.len()) + s.skip(s.len() - b.len()));
    }
}

/// Joined texts stand in their order with one separator between each two of them, and none before
/// the first or behind the last.
pub proof fn law_joining_separates(
    parts: Seq<Seq<char>>,
    part: Seq<char>,
    separator: Seq<char>,
)
    ensures
        joined(Seq::empty(), separator).len() == 0,
        joined(seq![part], separator) == part,
        parts.len() > 0 ==> joined(parts.push(part), separator) == joined(parts, separator)
            + separator + part,
{
    assert(parts.push(part).drop_last() =~= parts);
    assert(parts.push(part).last() == part);
}

/// Each newline ends a line, and what stands behind the last newline is a line if there is
/// anything.
pub proof fn law_newlines_end_lines(line: Seq<char>, rest: Seq<char>)
    requires
        forall|i: int| 0 <= i < line.len() ==> line[i] != '\n',
    ensures
        split_lines(Seq::empty()).len() == 0,
        line.len() > 0 ==> split_lines(line) == seq![line],
        split_lines(line + seq!['\n'] + rest) == seq![line] + split_lines(rest),
{
    lemma_line_end(line);
    if line_end(line) < line.len() {
        assert(line[line_end(line)] == '\n');
    }
    let whole = line + seq!['\n'] + rest;
    lemma_line_end(whole);
    let end = line_end(whole);
    assert(whole[line.len() as int] == '\n');
    if end < line.len() {
        assert(whole[end] == line[end]);
    }
    assert(end == line.len());
    assert(whole.take(end) =~= line);
    assert(whole.skip(end + 1) =~= rest);
}

/// The number that decimal digits stand for.
pub open spec fn number_of(digits: Seq<char>) -> int
    decreases digits.len(),
{
    if digits.len() == 0 {
        0
    } else {
        10 * number_of(digits.drop_last()) + (digits.last() as u32 - '0' as u32)
    }
}

/// A number in decimal reads as that number, is made of digits alone, and begins with no zero
/// unless it is zero.
pub proof fn law_decimal_reads_back(n: nat)
    ensures
        number_of(decimal(n)) == n,
        decimal(n).len() > 0,
        forall|i: int| 0 <= i < decimal(n).len() ==> '0' <= #[trigger] decimal(n)[i] <= '9',
        n > 0 ==> decimal(n)[0] != '0',
    decreases n,
{
    reveal_with_fuel(number_of, 2);
    let digits = decimal(n);
    if n < 10 {
        assert(digits.drop_last() =~= Seq::<char>::empty());
    } else {
        law_decimal_reads_back(n / 10);
        let front = decimal(n / 10);
        assert(digits.drop_last() =~= front);
        assert forall|i: int| 0 <= i < digits.len() implies '0' <= #[trigger] digits[i] <= '9' by {
            if i < front.len() {
                assert(digits[i] == front[i]);
            }
        }
        assert(digits[0] == front[0]);
    }
}

} // verus!
