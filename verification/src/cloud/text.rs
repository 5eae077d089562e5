//! Operations on strings, stated over the sequence of their characters.

use vstd::prelude::*;

verus! {

/// The position of the first `c` in `s`, or the length of `s` if there is none.
pub open spec fn first_index(s: Seq<char>, c: char) -> int
    decreases s.len(),
{
    if s.len() == 0 || s[0] == c {
        0
    } else {
        1 + first_index(s.drop_first(), c)
    }
}

/// What stands before the first `c`; all of `s` if there is none.
pub open spec fn before(s: Seq<char>, c: char) -> Seq<char> {
    s.take(first_index(s, c))
}

/// What stands after the first `c`. Meaningful only where `s` holds a `c`.
pub open spec fn after(s: Seq<char>, c: char) -> Seq<char> {
    s.skip(first_index(s, c) + 1)
}

/// The `n`th of the parts, counted from zero, that `sep` cuts `s` into.
pub open spec fn nth_part(s: Seq<char>, sep: char, n: nat) -> Option<Seq<char>>
    decreases n,
{
    if n == 0 {
        Some(before(s, sep))
    } else if s.contains(sep) {
        nth_part(after(s, sep), sep, (n - 1) as nat)
    } else {
        None
    }
}

/// `s` without the run of `c` that it starts with.
pub open spec fn without_leading(s: Seq<char>, c: char) -> Seq<char>
    decreases s.len(),
{
    if s.len() > 0 && s[0] == c {
        without_leading(s.drop_first(), c)
    } else {
        s
    }
}

/// Characters with the Unicode property `White_Space`.
pub open spec fn is_white(c: char) -> bool {
    let u = c as u32;
    ||| 0x9 <= u <= 0xD
    ||| u == 0x20
    ||| u == 0x85
    ||| u == 0xA0
    ||| u == 0x1680
    ||| 0x2000 <= u <= 0x200A
    ||| u == 0x2028
    ||| u == 0x2029
    ||| u == 0x202F
    ||| u == 0x205F
    ||| u == 0x3000
}

/// `s` without the white space that it starts with.
pub open spec fn trim_start(s: Seq<char>) -> Seq<char>
    decreases s.len(),
{
    if s.len() > 0 && is_white(s[0]) {
        trim_start(s.drop_first())
    } else {
        s
    }
}

/// `s` without the white space that it ends with.
pub open spec fn trim_end(s: Seq<char>) -> Seq<char>
    decreases s.len(),
{
    if s.len() > 0 && is_white(s.last()) {
        trim_end(s.drop_last())
    } else {
        s
    }
}

/// `s` without the white space around it.
pub open spec fn trimmed(s: Seq<char>) -> Seq<char> {
    trim_end(trim_start(s))
}

/// The lower case of an ASCII letter; any other character as it is.
pub open spec fn lower_char(c: char) -> char {
    if 'A' <= c && c <= 'Z' {
        (c as u32 + 32) as char
    } else {
        c
    }
}

/// `s` with its ASCII letters in lower case.
pub open spec fn lowered(s: Seq<char>) -> Seq<char> {
    s.map_values(|c: char| lower_char(c))
}

/// `needle` stands somewhere in `s` in one piece.
pub open spec fn occurs(s: Seq<char>, needle: Seq<char>) -> bool {
    exists|i: int| 0 <= i <= s.len() - needle.len() && #[trigger] s.subrange(i, i + needle.len()) == needle
}

/// The items one after the other, with `sep` between neighbours.
pub open spec fn joined(items: Seq<Seq<char>>, sep: Seq<char>) -> Seq<char>
    decreases items.len(),
{
    if items.len() == 0 {
        Seq::empty()
    } else if items.len() == 1 {
        items[0]
    } else {
        joined(items.drop_last(), sep) + sep + items.last()
    }
}

/// The characters of each string.
pub open spec fn texts(strings: Seq<String>) -> Seq<Seq<char>> {
    strings.map_values(|s: String| s@)
}

/// `a` stands before `b` in the order of a dictionary over code points.
pub open spec fn lex_less(a: Seq<char>, b: Seq<char>) -> bool
    decreases a.len(),
{
    if b.len() == 0 {
        false
    } else if a.len() == 0 {
        true
    } else if a[0] != b[0] {
        a[0] < b[0]
    } else {
        lex_less(a.drop_first(), b.drop_first())
    }
}

/// An ASCII decimal digit.
pub open spec fn is_digit(c: char) -> bool {
    '0' <= c && c <= '9'
}

/// Every character of `s` is an ASCII decimal digit.
pub open spec fn all_digits(s: Seq<char>) -> bool {
    forall|i: int| 0 <= i < s.len() ==> is_digit(#[trigger] s[i])
}

/// The number that a row of decimal digits stands for.
pub open spec fn digits_value(s: Seq<char>) -> int
    decreases s.len(),
{
    if s.len() == 0 {
        0
    } else {
        10 * digits_value(s.drop_last()) + (s.last() as int - '0' as int)
    }
}

/// The number that `s` spells: decimal digits, at least one, after an optional
/// plus sign. None if `s` is of another form or the number exceeds 64 bits.
pub open spec fn number_of(s: Seq<char>) -> Option<u64> {
    let digits = if s.len() > 0 && s[0] == '+' {
        s.skip(1)
    } else {
        s
    };
    if digits.len() > 0 && all_digits(digits) && digits_value(digits) <= u64::MAX {
        Some(digits_value(digits) as u64)
    } else {
        None
    }
}

/// A position that holds the first `c` is the first index of `c`.
pub proof fn lemma_first_index(s: Seq<char>, c: char, i: int)
    requires
        0 <= i <= s.len(),
        forall|j: int| 0 <= j < i ==> s[j] != c,
        i < s.len() ==> s[i] == c,
    ensures
        first_index(s, c) == i,
    decreases s.len(),
{
    if i > 0 {
        assert(s[0] != c);
        assert forall|j: int| 0 <= j < i - 1 implies s.drop_first()[j] != c by {
            assert(s[j + 1] != c);
        }
        lemma_first_index(s.drop_first(), c, i - 1);
    }
}

/// The first index of `c` lies in `s`, holds a `c` unless it is the end, and
/// has none before it; it is the end just where `s` holds no `c`.
pub proof fn lemma_first_index_holds(s: Seq<char>, c: char)
    ensures
        0 <= first_index(s, c) <= s.len(),
        forall|j: int| 0 <= j < first_index(s, c) ==> s[j] != c,
        first_index(s, c) < s.len() ==> s[first_index(s, c)] == c,
        s.contains(c) <==> first_index(s, c) < s.len(),
    decreases s.len(),
{
    if s.len() > 0 && s[0] != c {
        let rest = s.drop_first();
        lemma_first_index_holds(rest, c);
        assert forall|j: int| 0 <= j < first_index(s, c) implies s[j] != c by {
            if j > 0 {
                assert(s[j] == rest[j - 1]);
            }
        }
        if first_index(s, c) < s.len() {
            assert(s[first_index(s, c)] == rest[first_index(rest, c)]);
        } else if s.contains(c) {
            let k = choose|k: int| 0 <= k < s.len() && s[k] == c;
            assert(0 <= k < first_index(s, c));
        }
    }
}

/// Skipping a run of `c` that ends at `n` removes the leading `c`s.
proof fn lemma_without_leading(s: Seq<char>, c: char, n: int)
    requires
        0 <= n <= s.len(),
        forall|j: int| 0 <= j < n ==> s[j] == c,
        n < s.len() ==> s[n] != c,
    ensures
        without_leading(s, c) == s.skip(n),
    decreases n,
{
    if n > 0 {
        assert(s[0] == c);
        assert forall|j: int| 0 <= j < n - 1 implies s.drop_first()[j] == c by {
            assert(s[j + 1] == c);
        }
        lemma_without_leading(s.drop_first(), c, n - 1);
        assert(s.drop_first().skip(n - 1) =~= s.skip(n));
    } else {
        assert(s.skip(0) =~= s);
    }
}

proof fn lemma_trim_start(s: Seq<char>, n: int)
    requires
        0 <= n <= s.len(),
        forall|j: int| 0 <= j < n ==> is_white(#[trigger] s[j]),
        n < s.len() ==> !is_white(s[n]),
    ensures
        trim_start(s) == s.skip(n),
    decreases n,
{
    if n > 0 {
        assert(is_white(s[0]));
        assert forall|j: int| 0 <= j < n - 1 implies is_white(#[trigger] s.drop_first()[j]) by {
            assert(is_white(s[j + 1]));
        }
        lemma_trim_start(s.drop_first(), n - 1);
        assert(s.drop_first().skip(n - 1) =~= s.skip(n));
    } else {
        assert(s.skip(0) =~= s);
    }
}

proof fn lemma_trim_end(s: Seq<char>, n: int)
    requires
        0 <= n <= s.len(),
        forall|j: int| n <= j < s.len() ==> is_white(#[trigger] s[j]),
        n > 0 ==> !is_white(s[n - 1]),
    ensures
        trim_end(s) == s.take(n),
    decreases s.len(),
{
    if n < s.len() {
        assert(is_white(s[s.len() - 1]));
        lemma_trim_end(s.drop_last(), n);
        assert(s.drop_last().take(n) =~= s.take(n));
    } else {
        assert(s.take(n) =~= s);
    }
}

/// A longer row of digits stands for no smaller number.
proof fn lemma_digits_value_grows(s: Seq<char>, n: int)
    requires
        0 <= n <= s.len(),
        all_digits(s),
    ensures
        0 <= digits_value(s.take(n)) <= digits_value(s),
    decreases s.len(),
{
    if n < s.len() {
        assert(is_digit(s[s.len() - 1]));
        lemma_digits_value_grows(s.drop_last(), n);
        assert(s.drop_last().take(n) =~= s.take(n));
    } else {
        assert(s.take(n) =~= s);
        if s.len() > 0 {
            assert(is_digit(s[s.len() - 1]));
            lemma_digits_value_grows(s.drop_last(), s.len() - 1);
            assert(s.drop_last().take(s.len() - 1) =~= s.drop_last());
        }
    }
}

/// A text stands in what it is put into.
pub proof fn lemma_occurs_between(front: Seq<char>, middle: Seq<char>, back: Seq<char>)
    ensures
        occurs(front + middle + back, middle),
{
    let n = front.len() as int;
    assert((front + middle + back).subrange(n, n + middle.len()) =~= middle);
}

/// Lower case changes no white space.
proof fn lemma_lowered_white(c: char)
    ensures
        is_white(lower_char(c)) == is_white(c),
{
}

/// Removing leading white space and lowering the case commute.
proof fn lemma_trim_start_of_lowered(s: Seq<char>)
    ensures
        trim_start(lowered(s)) == lowered(trim_start(s)),
    decreases s.len(),
{
    if s.len() > 0 {
        lemma_lowered_white(s[0]);
        lemma_trim_start_of_lowered(s.drop_first());
        assert(lowered(s).drop_first() =~= lowered(s.drop_first()));
    }
}

/// Removing trailing white space and lowering the case commute.
proof fn lemma_trim_end_of_lowered(s: Seq<char>)
    ensures
        trim_end(lowered(s)) == lowered(trim_end(s)),
    decreases s.len(),
{
    if s.len() > 0 {
        lemma_lowered_white(s.last());
        lemma_trim_end_of_lowered(s.drop_last());
        assert(lowered(s).drop_last() =~= lowered(s.drop_last()));
    }
}

/// Trimming and lowering the case commute.
pub proof fn lemma_trim_of_lowered(s: Seq<char>)
    ensures
        trimmed(lowered(s)) == lowered(trimmed(s)),
{
    lemma_trim_start_of_lowered(s);
    lemma_trim_end_of_lowered(trim_start(s));
}

/// Lower case stays as it is.
pub proof fn lemma_lowered_twice(s: Seq<char>)
    ensures
        lowered(lowered(s)) == lowered(s),
{
    assert(lowered(lowered(s)) =~= lowered(s));
}

/// What is left after removing leading white space starts with none.
proof fn lemma_trim_start_leaves(s: Seq<char>)
    ensures
        trim_start(s).len() > 0 ==> !is_white(trim_start(s)[0]),
    decreases s.len(),
{
    if s.len() > 0 && is_white(s[0]) {
        lemma_trim_start_leaves(s.drop_first());
    }
}

/// What is left after removing trailing white space ends with none, and starts
/// as it did.
proof fn lemma_trim_end_leaves(s: Seq<char>)
    ensures
        trim_end(s).len() > 0 ==> !is_white(trim_end(s).last()) && trim_end(s)[0] == s[0] && s.len() > 0,
    decreases s.len(),
{
    if s.len() > 0 && is_white(s.last()) {
        lemma_trim_end_leaves(s.drop_last());
    }
}

/// What is trimmed stays as it is.
pub proof fn lemma_trimmed_twice(s: Seq<char>)
    ensures
        trimmed(trimmed(s)) == trimmed(s),
{
    lemma_trim_start_leaves(s);
    lemma_trim_end_leaves(trim_start(s));
}

/// No text stands before itself.
pub proof fn lemma_lex_less_irreflexive(a: Seq<char>)
    ensures
        !lex_less(a, a),
    decreases a.len(),
{
    if a.len() > 0 {
        lemma_lex_less_irreflexive(a.drop_first());
    }
}

/// The order of texts is transitive.
pub proof fn lemma_lex_less_transitive(a: Seq<char>, b: Seq<char>, c: Seq<char>)
    requires
        lex_less(a, b),
        lex_less(b, c),
    ensures
        lex_less(a, c),
    decreases a.len(),
{
    if a.len() > 0 && a[0] == b[0] && b[0] == c[0] {
        lemma_lex_less_transitive(a.drop_first(), b.drop_first(), c.drop_first());
    }
}

/// Of two different texts one stands before the other.
pub proof fn lemma_lex_less_total(a: Seq<char>, b: Seq<char>)
    ensures
        lex_less(a, b) || lex_less(b, a) || a == b,
    decreases a.len(),
{
    if a.len() == 0 && b.len() == 0 {
        assert(a =~= b);
    } else if a.len() > 0 && b.len() > 0 && a[0] == b[0] {
        lemma_lex_less_total(a.drop_first(), b.drop_first());
        if a.drop_first() == b.drop_first() {
            assert(a =~= seq![a[0]] + a.drop_first());
            assert(b =~= seq![b[0]] + b.drop_first());
        }
    }
}

/// The characters of `s`.
pub fn to_chars(s: &str) -> (r: Vec<char>)
    ensures
        r@ == s@,
{
    let mut chars: Vec<char> = Vec::new();
    for c in it: s.chars()
        invariant
            chars@ == it.seq().take(it.index() as int),
    {
        chars.push(c);
    }
    chars
}

/// Whether two strings hold the same characters.
pub fn same_text(a: &str, b: &str) -> (r: bool)
    ensures
        r == (a@ == b@),
{
    let x = to_chars(a);
    let y = to_chars(b);
    if x.len() != y.len() {
        return false;
    }
    let mut i: usize = 0;
    while i < x.len()
        invariant
            x@ == a@,
            y@ == b@,
            x.len() == y.len(),
            i <= x.len(),
            forall|j: int| 0 <= j < i ==> x@[j] == y@[j],
        decreases x.len() - i,
    {
        if x[i] != y[i] {
            return false;
        }
        i += 1;
    }
    assert(a@ =~= b@);
    true
}

/// The position of the first `c` in `chars[lo..hi]`, or `hi` if there is none.
pub fn find_char(chars: &Vec<char>, c: char, lo: usize, hi: usize) -> (r: usize)
    requires
        lo <= hi <= chars.len(),
    ensures
        lo <= r <= hi,
        r - lo == first_index(chars@.subrange(lo as int, hi as int), c),
        r < hi ==> chars@[r as int] == c,
{
    let mut i: usize = lo;
    while i < hi && chars[i] != c
        invariant
            lo <= i <= hi <= chars.len(),
            forall|j: int| lo <= j < i ==> chars@[j] != c,
        decreases hi - i,
    {
        i += 1;
    }
    proof {
        lemma_first_index(chars@.subrange(lo as int, hi as int), c, i - lo);
    }
    i
}

/// Whether `s` holds `c`.
pub fn has_char(s: &str, c: char) -> (r: bool)
    ensures
        r == s@.contains(c),
{
    let chars = to_chars(s);
    let n: usize = chars.len();
    let i = find_char(&chars, c, 0, n);
    proof {
        assert(chars@.subrange(0, n as int) =~= s@);
        lemma_first_index_holds(s@, c);
    }
    i < n
}

/// `s` without the run of `c` that it starts with.
pub fn trim_leading(s: &str, c: char) -> (r: &str)
    ensures
        r@ == without_leading(s@, c),
{
    let chars = to_chars(s);
    let mut i: usize = 0;
    while i < chars.len() && chars[i] == c
        invariant
            i <= chars.len(),
            forall|j: int| 0 <= j < i ==> chars@[j] == c,
        decreases chars.len() - i,
    {
        i += 1;
    }
    proof {
        lemma_without_leading(s@, c, i as int);
        assert(s@.subrange(i as int, s@.len() as int) =~= s@.skip(i as int));
    }
    s.substring_char(i, chars.len())
}

/// Whether `c` is white space.
pub fn is_white_space(c: char) -> (r: bool)
    ensures
        r == is_white(c),
{
    let u: u32 = c as u32;
    (0x9 <= u && u <= 0xD) || u == 0x20 || u == 0x85 || u == 0xA0 || u == 0x1680 || (0x2000 <= u && u <= 0x200A)
        || u == 0x2028 || u == 0x2029 || u == 0x202F || u == 0x205F || u == 0x3000
}

/// `s` without the white space around it.
pub fn trim(s: &str) -> (r: &str)
    ensures
        r@ == trimmed(s@),
{
    let chars = to_chars(s);
    let mut lo: usize = 0;
    while lo < chars.len() && is_white_space(chars[lo])
        invariant
            lo <= chars.len(),
            forall|j: int| 0 <= j < lo ==> is_white(#[trigger] chars@[j]),
        decreases chars.len() - lo,
    {
        lo += 1;
    }
    let mut hi: usize = chars.len();
    while lo < hi && is_white_space(chars[hi - 1])
        invariant
            lo <= hi <= chars.len(),
            forall|j: int| hi <= j < chars.len() ==> is_white(#[trigger] chars@[j]),
        decreases hi,
    {
        hi -= 1;
    }
    proof {
        let rest = s@.skip(lo as int);
        lemma_trim_start(s@, lo as int);
        lemma_trim_end(rest, hi - lo);
        assert(s@.subrange(lo as int, hi as int) =~= rest.take(hi - lo));
    }
    s.substring_char(lo, hi)
}

/// The lower case of an ASCII letter; any other character as it is.
pub fn to_lower(c: char) -> (r: char)
    ensures
        r == lower_char(c),
{
    if 'A' <= c && c <= 'Z' {
        (c as u8 + 32) as char
    } else {
        c
    }
}

/// Whether `s` with its ASCII letters in lower case is `word`.
pub fn lowers_to(s: &str, word: &str) -> (r: bool)
    ensures
        r == (lowered(s@) == word@),
{
    let x = to_chars(s);
    let y = to_chars(word);
    if x.len() != y.len() {
        return false;
    }
    let mut i: usize = 0;
    while i < x.len()
        invariant
            x@ == s@,
            y@ == word@,
            x.len() == y.len(),
            i <= x.len(),
            forall|j: int| 0 <= j < i ==> lowered(s@)[j] == y@[j],
        decreases x.len() - i,
    {
        if to_lower(x[i]) != y[i] {
            assert(lowered(s@)[i as int] != word@[i as int]);
            return false;
        }
        i += 1;
    }
    assert(lowered(s@) =~= word@);
    true
}

/// Whether `needle` stands at position `at` of `chars`.
fn stands_at(chars: &Vec<char>, needle: &Vec<char>, at: usize) -> (r: bool)
    requires
        at + needle.len() <= chars.len(),
    ensures
        r == (chars@.subrange(at as int, at + needle.len()) == needle@),
{
    let mut i: usize = 0;
    while i < needle.len()
        invariant
            at + needle.len() <= chars.len(),
            i <= needle.len(),
            forall|j: int| 0 <= j < i ==> chars@[at + j] == needle@[j],
        decreases needle.len() - i,
    {
        if chars[at + i] != needle[i] {
            assert(chars@.subrange(at as int, at + needle.len())[i as int] != needle@[i as int]);
            return false;
        }
        i += 1;
    }
    assert(chars@.subrange(at as int, at + needle.len()) =~= needle@);
    true
}

/// Whether `needle` stands somewhere in `s`.
pub fn has_text(s: &str, needle: &str) -> (r: bool)
    ensures
        r == occurs(s@, needle@),
{
    let x = to_chars(s);
    let y = to_chars(needle);
    if y.len() > x.len() {
        return false;
    }
    let last: usize = x.len() - y.len();
    let mut i: usize = 0;
    loop
        invariant
            x@ == s@,
            y@ == needle@,
            last == x.len() - y.len(),
            i <= last,
            forall|j: int| 0 <= j < i ==> #[trigger] s@.subrange(j, j + needle@.len()) != needle@,
        decreases last - i,
    {
        if stands_at(&x, &y, i) {
            return true;
        }
        if i == last {
            return false;
        }
        i += 1;
    }
}

/// The strings one after the other, with `sep` between neighbours.
pub fn join(items: &Vec<String>, sep: &str) -> (r: String)
    ensures
        r@ == joined(texts(items@), sep@),
{
    let mut out = String::new();
    let mut i: usize = 0;
    while i < items.len()
        invariant
            i <= items.len(),
            out@ == joined(texts(items@).take(i as int), sep@),
        decreases items.len() - i,
    {
        let ghost done = texts(items@).take(i as int);
        let ghost more = texts(items@).take(i + 1);
        if i > 0 {
            out.append(sep);
        }
        out.append(items[i].as_str());
        assert(more.drop_last() =~= done);
        i += 1;
    }
    assert(texts(items@).take(items.len() as int) =~= texts(items@));
    out
}

/// Whether `a` stands before `b` in the order of a dictionary over code points.
pub fn text_less(a: &str, b: &str) -> (r: bool)
    ensures
        r == lex_less(a@, b@),
{
    let x = to_chars(a);
    let y = to_chars(b);
    let mut i: usize = 0;
    assert(a@.skip(0) =~= a@ && b@.skip(0) =~= b@);
    while i < x.len() && i < y.len()
        invariant
            x@ == a@,
            y@ == b@,
            i <= x.len(),
            i <= y.len(),
            lex_less(a@, b@) == lex_less(a@.skip(i as int), b@.skip(i as int)),
        decreases x.len() - i,
    {
        if x[i] != y[i] {
            return x[i] < y[i];
        }
        assert(a@.skip(i as int).drop_first() =~= a@.skip(i + 1));
        assert(b@.skip(i as int).drop_first() =~= b@.skip(i + 1));
        i += 1;
    }
    i < y.len()
}

/// The number that `chars[lo..hi]` spells.
pub fn parse_number(chars: &Vec<char>, lo: usize, hi: usize) -> (r: Option<u64>)
    requires
        lo <= hi <= chars.len(),
    ensures
        r == number_of(chars@.subrange(lo as int, hi as int)),
{
    let ghost s = chars@.subrange(lo as int, hi as int);
    let start: usize = if lo < hi && chars[lo] == '+' {
        lo + 1
    } else {
        lo
    };
    let ghost digits = chars@.subrange(start as int, hi as int);
    assert(digits =~= if s.len() > 0 && s[0] == '+' {
        s.skip(1)
    } else {
        s
    });
    if start == hi {
        return None;
    }
    let mut value: u64 = 0;
    let mut i: usize = start;
    while i < hi
        invariant
            lo <= start <= i <= hi <= chars.len(),
            start < hi,
            s == chars@.subrange(lo as int, hi as int),
            digits == chars@.subrange(start as int, hi as int),
            digits == (if s.len() > 0 && s[0] == '+' {
                s.skip(1)
            } else {
                s
            }),
            forall|j: int| 0 <= j < i - start ==> is_digit(#[trigger] digits[j]),
            value == digits_value(digits.take(i - start)),
        decreases hi - i,
    {
        let c = chars[i];
        assert(digits[i - start] == c);
        if c < '0' || '9' < c {
            assert(!is_digit(digits[i - start]));
            return None;
        }
        let digit: u64 = (c as u32 - '0' as u32) as u64;
        proof {
            let next = digits.take(i - start + 1);
            assert(next.drop_last() =~= digits.take(i - start));
            assert(digits_value(next) == 10 * value + digit);
            if all_digits(digits) {
                lemma_digits_value_grows(digits, i - start + 1);
            }
        }
        if value > (u64::MAX - digit) / 10 {
            return None;
        }
        value = value * 10 + digit;
        i += 1;
    }
    assert(digits.take(hi - start) =~= digits);
    Some(value)
}

/// The first separator cuts a text in two: what stands before it holds none, and
/// the two pieces with the separator between them are the text. Without a
/// separator the whole text stands before.
pub proof fn law_first_separator_cuts_in_two(s: Seq<char>, c: char)
    ensures
        !before(s, c).contains(c),
        s.contains(c) ==> s == before(s, c) + seq![c] + after(s, c),
        !s.contains(c) ==> s == before(s, c),
{
    lemma_first_index_holds(s, c);
    let front = before(s, c);
    if front.contains(c) {
        let k = choose|k: int| 0 <= k < front.len() && front[k] == c;
        assert(s[k] == c);
    }
    if s.contains(c) {
        assert(s =~= front + seq![c] + after(s, c));
    } else {
        assert(s =~= front);
    }
}

/// A piece without separators is the first part of every text that starts with
/// it and goes on with a separator; the parts of what follows come after it. A
/// text without separators has one part.
pub proof fn law_parts_follow_one_another(part: Seq<char>, sep: char, rest: Seq<char>, n: nat)
    requires
        !part.contains(sep),
    ensures
        nth_part(part, sep, 0) == Some(part),
        nth_part(part, sep, n + 1) is None,
        nth_part(part + seq![sep] + rest, sep, 0) == Some(part),
        nth_part(part + seq![sep] + rest, sep, n + 1) == nth_part(rest, sep, n),
{
    let whole = part + seq![sep] + rest;
    let k = part.len() as int;
    assert forall|j: int| 0 <= j < k implies part[j] != sep by {
        assert(part.contains(part[j]));
    }
    lemma_first_index(part, sep, k);
    assert(before(part, sep) =~= part);
    assert(whole[k] == sep);
    lemma_first_index(whole, sep, k);
    assert(before(whole, sep) =~= part);
    assert(after(whole, sep) =~= rest);
    assert(whole.contains(sep));
}

/// Dropping the leading `c`s drops a run of `c` from the front, all of it, and
/// nothing else.
pub proof fn law_only_the_leading_run_is_dropped(s: Seq<char>, c: char)
    ensures
        without_leading(s, c).len() <= s.len(),
        s.skip(s.len() - without_leading(s, c).len()) == without_leading(s, c),
        forall|j: int| 0 <= j < s.len() - without_leading(s, c).len() ==> s[j] == c,
        without_leading(s, c).len() > 0 ==> without_leading(s, c)[0] != c,
    decreases s.len(),
{
    if s.len() > 0 && s[0] == c {
        let rest = s.drop_first();
        law_only_the_leading_run_is_dropped(rest, c);
        let n = s.len() - without_leading(s, c).len();
        assert(s.skip(n) =~= rest.skip(n - 1));
        assert forall|j: int| 0 <= j < n implies s[j] == c by {
            if j > 0 {
                assert(s[j] == rest[j - 1]);
            }
        }
    } else {
        assert(s.skip(0) =~= s);
    }
}

/// White space is the tabulators and line breaks of ASCII, the space, the next
/// line, and the spaces and separators of Unicode; nothing else is.
pub proof fn law_white_space_characters(c: char)
    ensures
        is_white(c) <==> {
            ||| c == '\t' || c == '\n' || c == '\u{b}' || c == '\u{c}' || c == '\r' || c == ' '
            ||| c == '\u{85}' || c == '\u{a0}' || c == '\u{1680}'
            ||| c == '\u{2000}' || c == '\u{2001}' || c == '\u{2002}' || c == '\u{2003}' || c == '\u{2004}'
            ||| c == '\u{2005}' || c == '\u{2006}' || c == '\u{2007}' || c == '\u{2008}' || c == '\u{2009}'
            ||| c == '\u{200a}' || c == '\u{2028}' || c == '\u{2029}' || c == '\u{202f}' || c == '\u{205f}'
            ||| c == '\u{3000}'
        },
{
}

/// Trimming undoes padding: a text that neither starts nor ends with white space
/// comes back from between any white space, and nothing of mere white space.
pub proof fn law_trimming_undoes_padding(front: Seq<char>, middle: Seq<char>, back: Seq<char>)
    requires
        forall|j: int| 0 <= j < front.len() ==> is_white(#[trigger] front[j]),
        forall|j: int| 0 <= j < back.len() ==> is_white(#[trigger] back[j]),
        middle.len() > 0 ==> !is_white(middle[0]) && !is_white(middle[middle.len() - 1]),
    ensures
        trimmed(front + middle + back) == middle,
{
    let s = front + middle + back;
    if middle.len() > 0 {
        let n = front.len() as int;
        assert(s[n] == middle[0]);
        assert forall|j: int| 0 <= j < n implies is_white(#[trigger] s[j]) by {
            assert(s[j] == front[j]);
        }
        lemma_trim_start(s, n);
        let rest = s.skip(n);
        assert(rest =~= middle + back);
        let m = middle.len() as int;
        assert forall|j: int| m <= j < rest.len() implies is_white(#[trigger] rest[j]) by {
            assert(rest[j] == back[j - m]);
        }
        lemma_trim_end(rest, m);
        assert(rest.take(m) =~= middle);
    } else {
        let n = s.len() as int;
        assert forall|j: int| 0 <= j < n implies is_white(#[trigger] s[j]) by {
            if j < front.len() {
                assert(s[j] == front[j]);
            } else {
                assert(s[j] == back[j - front.len()]);
            }
        }
        lemma_trim_start(s, n);
        assert(s.skip(n) =~= middle);
    }
}

/// Lowering the case moves each capital letter of ASCII to its small letter and
/// leaves every other character in its place.
pub proof fn law_lowering_moves_capitals_only(s: Seq<char>)
    ensures
        lowered(s).len() == s.len(),
        forall|j: int|
            0 <= j < s.len() ==> (#[trigger] lowered(s)[j]) as int == s[j] as int + if 65 <= s[j] as int <= 90 {
                32int
            } else {
                0
            },
{
}

/// What occurs in a text can be cut out of it.
pub proof fn law_what_occurs_can_be_cut_out(s: Seq<char>, needle: Seq<char>) -> (r: (Seq<char>, Seq<char>))
    requires
        occurs(s, needle),
    ensures
        s == r.0 + needle + r.1,
{
    let i = choose|i: int|
        0 <= i <= s.len() - needle.len() && #[trigger] s.subrange(i, i + needle.len()) == needle;
    let r = (s.take(i), s.skip(i + needle.len()));
    assert(s =~= r.0 + s.subrange(i, i + needle.len()) + r.1);
    r
}

/// What is put between two texts occurs in the result.
pub proof fn law_what_is_put_in_occurs(front: Seq<char>, needle: Seq<char>, back: Seq<char>)
    ensures
        occurs(front + needle + back, needle),
{
    lemma_occurs_between(front, needle, back);
}

/// Joining two lists at once is joining each and putting the separator between;
/// one item joins to itself, and none to nothing.
pub proof fn law_joining_splits_anywhere(a: Seq<Seq<char>>, b: Seq<Seq<char>>, item: Seq<char>, sep: Seq<char>)
    requires
        a.len() > 0,
        b.len() > 0,
    ensures
        joined(a + b, sep) == joined(a, sep) + sep + joined(b, sep),
        joined(seq![item], sep) == item,
        joined(Seq::empty(), sep) == Seq::<char>::empty(),
    decreases b.len(),
{
    let whole = a + b;
    assert(whole.last() == b.last());
    assert(whole.drop_last() =~= a + b.drop_last());
    if b.len() == 1 {
        assert(whole.drop_last() =~= a);
    } else {
        law_joining_splits_anywhere(a, b.drop_last(), item, sep);
        assert(joined(whole, sep) =~= joined(a, sep) + sep + joined(b, sep));
    }
}

/// The texts of a list are the characters of its strings, in their places.
pub proof fn law_texts_keep_their_places(strings: Seq<String>)
    ensures
        texts(strings).len() == strings.len(),
        forall|i: int| 0 <= i < strings.len() ==> #[trigger] texts(strings)[i] == strings[i]@,
{
}

/// Where two texts part decides their order: the one that ends there comes first,
/// else the one with the smaller code point. A text that does not go on where
/// both end together is not before the other.
pub proof fn law_first_difference_decides(a: Seq<char>, b: Seq<char>, k: int)
    requires
        0 <= k <= a.len(),
        k <= b.len(),
        a.take(k) == b.take(k),
        k < a.len() && k < b.len() ==> a[k] != b[k],
    ensures
        lex_less(a, b) <==> k < b.len() && (k == a.len() || (a[k] as int) < (b[k] as int)),
    decreases k,
{
    if k > 0 {
        assert(a[0] == a.take(k)[0]);
        assert(b[0] == b.take(k)[0]);
        let x = a.drop_first();
        let y = b.drop_first();
        assert(x.take(k - 1) =~= a.take(k).drop_first());
        assert(y.take(k - 1) =~= b.take(k).drop_first());
        if k < a.len() {
            assert(x[k - 1] == a[k]);
        }
        if k < b.len() {
            assert(y[k - 1] == b[k]);
        }
        law_first_difference_decides(x, y, k - 1);
    }
}

/// A digit behind a number makes ten times the number plus the digit, or no
/// number where 64 bits do not hold it.
pub proof fn law_a_further_digit_counts_tenfold(s: Seq<char>, c: char)
    requires
        number_of(s) is Some,
        48 <= c as int <= 57,
    ensures
        10 * number_of(s)->0 + (c as int - 48) <= 0xffff_ffff_ffff_ffff ==> number_of(s.push(c)) is Some
            && number_of(s.push(c))->0 == 10 * number_of(s)->0 + (c as int - 48),
        10 * number_of(s)->0 + (c as int - 48) > 0xffff_ffff_ffff_ffff ==> number_of(s.push(c)) is None,
{
    let longer = s.push(c);
    let digits = if s[0] == '+' {
        s.skip(1)
    } else {
        s
    };
    assert(longer[0] == s[0]);
    let more = digits.push(c);
    assert(more =~= if longer[0] == '+' {
        longer.skip(1)
    } else {
        longer
    });
    assert(more.drop_last() =~= digits);
    lemma_digits_value_grows(digits, 0);
    assert forall|i: int| 0 <= i < more.len() implies is_digit(#[trigger] more[i]) by {
        if i < digits.len() {
            assert(is_digit(digits[i]));
        }
    }
}

/// A single digit is its own number, a plus sign in front changes nothing, and
/// neither nothing nor a lone plus sign is a number.
pub proof fn law_numbers_start_with_a_digit(c: char, s: Seq<char>)
    requires
        48 <= c as int <= 57,
    ensures
        number_of(seq![c]) is Some && number_of(seq![c])->0 == c as int - 48,
        s.len() > 0 && s[0] != '+' ==> number_of(seq!['+'] + s) == number_of(s),
        number_of(Seq::empty()) is None,
        number_of(seq!['+']) is None,
{
    let one = seq![c];
    assert(one.drop_last() =~= Seq::<char>::empty());
    assert(digits_value(one.drop_last()) == 0);
    assert(digits_value(one) == c as int - 48);
    assert((seq!['+'] + s).skip(1) =~= s);
    assert(seq!['+'].skip(1) =~= Seq::<char>::empty());
}

/// Numbers consist of digits behind at most one plus sign in front, and what is
/// no number, a lone plus sign apart, does not become one by going on.
pub proof fn law_only_digits_make_numbers(s: Seq<char>, c: char)
    ensures
        number_of(s) is Some ==> forall|j: int|
            0 <= j < s.len() ==> 48 <= (#[trigger] s[j]) as int <= 57 || j == 0 && s[j] == '+',
        number_of(s) is None && s.len() > 0 && s != seq!['+'] ==> number_of(s.push(c)) is None,
{
    let digits = if s.len() > 0 && s[0] == '+' {
        s.skip(1)
    } else {
        s
    };
    if number_of(s) is Some {
        assert forall|j: int| 0 <= j < s.len() implies 48 <= (#[trigger] s[j]) as int <= 57 || j == 0 && s[j]
            == '+' by {
            if s[0] == '+' {
                if j > 0 {
                    assert(is_digit(digits[j - 1]));
                }
            } else {
                assert(is_digit(digits[j]));
            }
        }
    } else if s.len() > 0 && s != seq!['+'] {
        let longer = s.push(c);
        let more = digits.push(c);
        assert(longer[0] == s[0]);
        assert(more =~= if longer[0] == '+' {
            longer.skip(1)
        } else {
            longer
        });
        if digits.len() == 0 {
            assert(s =~= seq!['+']);
        }
        if all_digits(more) {
            assert forall|i: int| 0 <= i < digits.len() implies is_digit(#[trigger] digits[i]) by {
                assert(is_digit(more[i]));
            }
            lemma_digits_value_grows(more, digits.len() as int);
            assert(more.take(digits.len() as int) =~= digits);
        }
    }
}

} // verus!
