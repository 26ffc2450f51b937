//! Text: the operations on characters and lines that everything else is made of.
#[allow(unused_imports)]
use vstd::utf8::{decode_utf8, valid_utf8};
use vstd::prelude::*;

verus! {

/// `String::push` appends one character at the end of the text.
pub assume_specification[ String::push ](s: &mut String, c: char)
    ensures
        final(s)@ == old(s)@.push(c),
;

/// The characters of the Unicode property `White_Space`.
pub open spec fn is_whitespace(c: char) -> bool {
    let n = c as u32;
    ||| 0x09 <= n <= 0x0d
    ||| n == 0x20
    ||| n == 0x85
    ||| n == 0xa0
    ||| n == 0x1680
    ||| 0x2000 <= n <= 0x200a
    ||| n == 0x2028
    ||| n == 0x2029
    ||| n == 0x202f
    ||| n == 0x205f
    ||| n == 0x3000
}

/// `s` without its leading white space.
pub open spec fn trimmed_start(s: Seq<char>) -> Seq<char>
    decreases s.len(),
{
    if s.len() > 0 && is_whitespace(s[0]) {
        trimmed_start(s.skip(1))
    } else {
        s
    }
}

/// `s` without its trailing white space.
pub open spec fn trimmed_end(s: Seq<char>) -> Seq<char>
    decreases s.len(),
{
    if s.len() > 0 && is_whitespace(s.last()) {
        trimmed_end(s.drop_last())
    } else {
        s
    }
}

/// `s` without white space at either end.
pub open spec fn trimmed(s: Seq<char>) -> Seq<char> {
    trimmed_end(trimmed_start(s))
}

/// The position of the first `c` in `s`, or the length of `s` where there is none.
pub open spec fn first_of(s: Seq<char>, c: char) -> nat
    decreases s.len(),
{
    if s.len() == 0 || s[0] == c {
        0
    } else {
        1 + first_of(s.skip(1), c)
    }
}

/// The parts of `s` between the occurrences of `c`; there is always at least one.
pub open spec fn split_on(s: Seq<char>, c: char) -> Seq<Seq<char>>
    decreases s.len(),
{
    let k = first_of(s, c) as int;
    if k >= s.len() {
        seq![s]
    } else {
        seq![s.take(k)] + split_on(s.skip(k + 1), c)
    }
}

/// The lines of `s` that a line feed ends, each with its line feed.
pub open spec fn complete_lines(s: Seq<char>) -> Seq<Seq<char>>
    decreases s.len(),
{
    let k = first_of(s, '\n') as int;
    if k >= s.len() {
        Seq::empty()
    } else {
        seq![s.take(k + 1)] + complete_lines(s.skip(k + 1))
    }
}

/// What follows the last line feed of `s`.
pub open spec fn unfinished_line(s: Seq<char>) -> Seq<char>
    decreases s.len(),
{
    let k = first_of(s, '\n') as int;
    if k >= s.len() {
        s
    } else {
        unfinished_line(s.skip(k + 1))
    }
}

/// `line` without one carriage return at its end.
pub open spec fn without_return(line: Seq<char>) -> Seq<char> {
    if line.len() > 0 && line.last() == '\r' {
        line.drop_last()
    } else {
        line
    }
}

/// The lines of `s` without their ends. A line ends with a line feed, or with a
/// carriage return and a line feed; the last one may end with the text.
pub open spec fn text_lines(s: Seq<char>) -> Seq<Seq<char>>
    decreases s.len(),
{
    let k = first_of(s, '\n') as int;
    if s.len() == 0 {
        Seq::empty()
    } else if k >= s.len() {
        seq![s]
    } else {
        seq![without_return(s.take(k))] + text_lines(s.skip(k + 1))
    }
}

/// Whether `word` stands somewhere in `s`.
pub open spec fn contains_word(s: Seq<char>, word: Seq<char>) -> bool {
    exists|i: int|
        0 <= i <= s.len() - word.len() && #[trigger] s.subrange(i, i + word.len()) == word
}

/// Whether `s` ends with `word`.
pub open spec fn ends_with_word(s: Seq<char>, word: Seq<char>) -> bool {
    word.len() <= s.len() && s.skip(s.len() - word.len()) == word
}

/// The texts one after the other.
pub open spec fn concatenated(parts: Seq<Seq<char>>) -> Seq<char>
    decreases parts.len(),
{
    if parts.len() == 0 {
        Seq::empty()
    } else {
        concatenated(parts.drop_last()) + parts.last()
    }
}

/// The texts one after the other with `sep` between them.
pub open spec fn joined(parts: Seq<Seq<char>>, sep: Seq<char>) -> Seq<char>
    decreases parts.len(),
{
    if parts.len() == 0 {
        Seq::empty()
    } else if parts.len() == 1 {
        parts[0]
    } else {
        joined(parts.drop_last(), sep) + sep + parts.last()
    }
}

/// `n` times the character `c`.
pub open spec fn repeated(c: char, n: nat) -> Seq<char> {
    Seq::new(n, |i: int| c)
}

/// `s` with spaces behind it, up to `width` characters.
pub open spec fn padded(s: Seq<char>, width: nat) -> Seq<char> {
    if s.len() < width {
        s + repeated(' ', (width - s.len()) as nat)
    } else {
        s
    }
}

/// The first `n` characters of `s`, or all of them where there are fewer.
pub open spec fn at_most(s: Seq<char>, n: nat) -> Seq<char> {
    if s.len() <= n {
        s
    } else {
        s.take(n as int)
    }
}

/// The decimal digit for a number below ten.
pub open spec fn digit(d: nat) -> char {
    (48 + d) as char
}

/// The decimal digits of `n`.
pub open spec fn decimal(n: nat) -> Seq<char>
    decreases n,
{
    if n < 10 {
        seq![digit(n)]
    } else {
        decimal(n / 10).push(digit(n % 10))
    }
}

/// The decimal digits of `n`, with a minus sign in front where it is negative.
pub open spec fn signed_decimal(n: int) -> Seq<char> {
    if n < 0 {
        seq!['-'] + decimal((-n) as nat)
    } else {
        decimal(n as nat)
    }
}

/// Whether a character is a decimal digit.
pub open spec fn is_digit(c: char) -> bool {
    '0' <= c <= '9'
}

/// Whether a text is made of decimal digits alone.
pub open spec fn all_digits(s: Seq<char>) -> bool {
    forall|i: int| 0 <= i < s.len() ==> is_digit(#[trigger] s[i])
}

/// The number that the decimal digits `s` write.
pub open spec fn digits_value(s: Seq<char>) -> nat
    decreases s.len(),
{
    if s.len() == 0 {
        0
    } else {
        digits_value(s.drop_last()) * 10 + (s.last() as u32 - 48) as nat
    }
}

/// The integer that `s` writes: an optional sign, then decimal digits and nothing
/// else, with a value that 64 bits hold.
pub open spec fn integer_of(s: Seq<char>) -> Option<int> {
    let signed = s.len() > 0 && (s[0] == '-' || s[0] == '+');
    let digits = if signed { s.skip(1) } else { s };
    let value = if signed && s[0] == '-' { -digits_value(digits) } else { digits_value(digits) as int };
    if digits.len() > 0 && all_digits(digits) && i64::MIN <= value <= i64::MAX {
        Some(value)
    } else {
        None
    }
}

/// The order of texts by their characters' code points, which is also the order of
/// their UTF-8 bytes.
pub open spec fn text_le(a: Seq<char>, b: Seq<char>) -> bool
    decreases a.len(),
{
    if a.len() == 0 {
        true
    } else if b.len() == 0 {
        false
    } else if a[0] == b[0] {
        text_le(a.skip(1), b.skip(1))
    } else {
        a[0] < b[0]
    }
}

/// What each text of a list holds.
pub open spec fn texts(list: Seq<String>) -> Seq<Seq<char>> {
    list.map_values(|s: String| s@)
}

/// The characters of `s`.
pub fn chars_of(s: &str) -> (r: Vec<char>)
    ensures
        r@ == s@,
{
    let mut r: Vec<char> = Vec::new();
    for c in it: s.chars()
        invariant
            it.seq() == s@,
            r@ == s@.take(it.index() as int),
    {
        r.push(c);
        assert(r@ =~= s@.take(it.index() as int + 1));
    }
    assert(s@.take(s@.len() as int) =~= s@);
    r
}

/// The text of the characters at `from` up to, not including, `to`.
pub fn text_between(chars: &Vec<char>, from: usize, to: usize) -> (r: String)
    requires
        from <= to <= chars@.len(),
    ensures
        r@ == chars@.subrange(from as int, to as int),
{
    let mut r = String::new();
    let mut i: usize = from;
    while i < to
        invariant
            from <= i <= to <= chars@.len(),
            r@ == chars@.subrange(from as int, i as int),
        decreases to - i,
    {
        r.push(chars[i]);
        i = i + 1;
        assert(r@ =~= chars@.subrange(from as int, i as int));
    }
    r
}

/// What `first_of` finds: no earlier character is `c`.
pub proof fn lemma_first_of(s: Seq<char>, c: char)
    ensures
        first_of(s, c) <= s.len(),
        first_of(s, c) < s.len() ==> s[first_of(s, c) as int] == c,
        forall|i: int| 0 <= i < first_of(s, c) ==> s[i] != c,
    decreases s.len(),
{
    if s.len() > 0 && s[0] != c {
        lemma_first_of(s.skip(1), c);
        assert forall|i: int| 0 <= i < first_of(s, c) implies s[i] != c by {
            if i > 0 {
                assert(s.skip(1)[i - 1] == s[i]);
            }
        }
    }
}

/// A position with no earlier `c`, at a `c` or at the end, is the first one.
pub proof fn lemma_first_of_is(s: Seq<char>, c: char, k: int)
    requires
        0 <= k <= s.len(),
        k < s.len() ==> s[k] == c,
        forall|i: int| 0 <= i < k ==> s[i] != c,
    ensures
        first_of(s, c) == k,
    decreases s.len(),
{
    if k > 0 {
        assert forall|i: int| 0 <= i < k - 1 implies s.skip(1)[i] != c by {
            assert(s.skip(1)[i] == s[i + 1]);
        }
        lemma_first_of_is(s.skip(1), c, k - 1);
    }
}

/// Where the first text holds no `c`, the search goes on in the second.
pub proof fn lemma_first_of_concat(a: Seq<char>, b: Seq<char>, c: char)
    ensures
        first_of(a, c) < a.len() ==> first_of(a + b, c) == first_of(a, c),
        first_of(a, c) == a.len() ==> first_of(a + b, c) == a.len() + first_of(b, c),
{
    lemma_first_of(a, c);
    lemma_first_of(b, c);
    let k = if first_of(a, c) < a.len() { first_of(a, c) as int } else { (a.len() + first_of(b, c)) as int };
    lemma_first_of_is(a + b, c, k);
}

/// The lines of two texts in a row: those of the first, then those of what it left
/// unfinished with the second.
pub proof fn lemma_lines_of_concat(a: Seq<char>, b: Seq<char>)
    ensures
        complete_lines(a + b) == complete_lines(a) + complete_lines(unfinished_line(a) + b),
        unfinished_line(a + b) == unfinished_line(unfinished_line(a) + b),
    decreases a.len(),
{
    let k = first_of(a, '\n') as int;
    lemma_first_of(a, '\n');
    lemma_first_of_concat(a, b, '\n');
    if k < a.len() {
        lemma_lines_of_concat(a.skip(k + 1), b);
        assert((a + b).skip(k + 1) =~= a.skip(k + 1) + b);
        assert((a + b).take(k + 1) =~= a.take(k + 1));
        assert(complete_lines(a + b) =~= complete_lines(a) + complete_lines(
            unfinished_line(a) + b,
        ));
    } else {
        assert(complete_lines(a + b) =~= complete_lines(a) + complete_lines(
            unfinished_line(a) + b,
        ));
    }
}

/// The lines of two texts in a row, where the first one ends with a line: those of the first,
/// then those of the second.
pub proof fn lemma_text_lines_of_concat(a: Seq<char>, b: Seq<char>)
    requires
        a.len() > 0 ==> a.last() == '\n',
    ensures
        text_lines(a + b) == text_lines(a) + text_lines(b),
    decreases a.len(),
{
    if a.len() == 0 {
        assert(a + b =~= b);
        assert(text_lines(a) + text_lines(b) =~= text_lines(b));
    } else {
        let k = first_of(a, '\n') as int;
        lemma_first_of(a, '\n');
        lemma_first_of_concat(a, b, '\n');
        assert(a[a.len() - 1] == '\n');
        assert(k < a.len());
        lemma_text_lines_of_concat(a.skip(k + 1), b);
        assert((a + b).skip(k + 1) =~= a.skip(k + 1) + b);
        assert((a + b).take(k) =~= a.take(k));
        assert(text_lines(a + b) =~= text_lines(a) + text_lines(b));
    }
}

/// A text in front of others stands in front of them all together.
pub proof fn lemma_concatenated_front(first: Seq<char>, rest: Seq<Seq<char>>)
    ensures
        concatenated(seq![first] + rest) == first + concatenated(rest),
    decreases rest.len(),
{
    let all = seq![first] + rest;
    if rest.len() == 0 {
        assert(all.drop_last() =~= Seq::<Seq<char>>::empty());
        assert(concatenated(Seq::<Seq<char>>::empty()) =~= Seq::empty());
        assert(all.last() == first);
        assert(concatenated(all) =~= first + concatenated(rest));
    } else {
        lemma_concatenated_front(first, rest.drop_last());
        assert(all.drop_last() =~= seq![first] + rest.drop_last());
        assert(all.last() == rest.last());
        assert(concatenated(all) =~= first + concatenated(rest));
    }
}

/// A text in front of others stands in front of them all joined.
pub proof fn lemma_joined_front(first: Seq<char>, rest: Seq<Seq<char>>, sep: Seq<char>)
    requires
        rest.len() > 0,
    ensures
        joined(seq![first] + rest, sep) == first + sep + joined(rest, sep),
    decreases rest.len(),
{
    let all = seq![first] + rest;
    assert(all.last() == rest.last());
    if rest.len() == 1 {
        assert(all.drop_last() =~= seq![first]);
        assert(joined(seq![first], sep) == first);
        assert(joined(all, sep) =~= first + sep + joined(rest, sep));
    } else {
        lemma_joined_front(first, rest.drop_last(), sep);
        assert(all.drop_last() =~= seq![first] + rest.drop_last());
        assert(joined(all, sep) =~= first + sep + joined(rest, sep));
    }
}

/// The complete lines of a text and its unfinished one are all of it.
pub proof fn lemma_lines_are_all(s: Seq<char>)
    ensures
        concatenated(complete_lines(s)) + unfinished_line(s) == s,
    decreases s.len(),
{
    let k = first_of(s, '\n') as int;
    if k < s.len() {
        lemma_lines_are_all(s.skip(k + 1));
        lemma_concatenated_front(s.take(k + 1), complete_lines(s.skip(k + 1)));
        assert(s.take(k + 1) + s.skip(k + 1) =~= s);
        assert(concatenated(complete_lines(s)) + unfinished_line(s) =~= s);
    } else {
        assert(concatenated(complete_lines(s)) + unfinished_line(s) =~= s);
    }
}

/// The parts of a text, with the character that they were split on between them, are all of
/// it.
pub proof fn lemma_split_is_all(s: Seq<char>, c: char)
    ensures
        split_on(s, c).len() > 0,
        joined(split_on(s, c), seq![c]) == s,
    decreases s.len(),
{
    let k = first_of(s, c) as int;
    lemma_first_of(s, c);
    if k < s.len() {
        lemma_split_is_all(s.skip(k + 1), c);
        lemma_joined_front(s.take(k), split_on(s.skip(k + 1), c), seq![c]);
        assert(s.take(k) + seq![c] + s.skip(k + 1) =~= s);
    }
}

/// Whether `c` is white space.
pub fn is_space(c: char) -> (r: bool)
    ensures
        r == is_whitespace(c),
{
    let n = c as u32;
    (0x09 <= n && n <= 0x0d) || n == 0x20 || n == 0x85 || n == 0xa0 || n == 0x1680 || (0x2000 <= n
        && n <= 0x200a) || n == 0x2028 || n == 0x2029 || n == 0x202f || n == 0x205f || n == 0x3000
}

/// Whether two texts are equal.
pub fn same_text(a: &str, b: &str) -> (r: bool)
    ensures
        r == (a@ == b@),
{
    let x = chars_of(a);
    let y = chars_of(b);
    if x.len() != y.len() {
        return false;
    }
    let mut i: usize = 0;
    while i < x.len()
        invariant
            x@ == a@,
            y@ == b@,
            x@.len() == y@.len(),
            i <= x@.len(),
            forall|k: int| 0 <= k < i ==> x@[k] == y@[k],
        decreases x@.len() - i,
    {
        if x[i] != y[i] {
            return false;
        }
        i = i + 1;
    }
    assert(a@ =~= b@);
    true
}

proof fn lemma_trimmed_start_at(s: Seq<char>, k: int)
    requires
        0 <= k <= s.len(),
        forall|i: int| 0 <= i < k ==> is_whitespace(#[trigger] s[i]),
        k < s.len() ==> !is_whitespace(s[k]),
    ensures
        trimmed_start(s) == s.skip(k),
    decreases k,
{
    if k == 0 {
        assert(s.skip(0) =~= s);
    } else {
        assert(is_whitespace(s[0]));
        assert forall|i: int| 0 <= i < k - 1 implies is_whitespace(#[trigger] s.skip(1)[i]) by {
            assert(s.skip(1)[i] == s[i + 1]);
        }
        lemma_trimmed_start_at(s.skip(1), k - 1);
        assert(s.skip(1).skip(k - 1) =~= s.skip(k));
    }
}

proof fn lemma_trimmed_end_at(s: Seq<char>, k: int)
    requires
        0 <= k <= s.len(),
        forall|i: int| k <= i < s.len() ==> is_whitespace(#[trigger] s[i]),
        k > 0 ==> !is_whitespace(s[k - 1]),
    ensures
        trimmed_end(s) == s.take(k),
    decreases s.len() - k,
{
    if k == s.len() {
        assert(s.take(k) =~= s);
    } else {
        assert(is_whitespace(s[s.len() - 1]));
        lemma_trimmed_end_at(s.drop_last(), k);
        assert(s.drop_last().take(k) =~= s.take(k));
    }
}

/// The position of the first character of `chars` that is no white space.
fn skip_space(chars: &Vec<char>) -> (k: usize)
    ensures
        k <= chars@.len(),
        trimmed_start(chars@) == chars@.skip(k as int),
{
    let mut k: usize = 0;
    while k < chars.len() && is_space(chars[k])
        invariant
            k <= chars@.len(),
            forall|i: int| 0 <= i < k ==> is_whitespace(#[trigger] chars@[i]),
        decreases chars@.len() - k,
    {
        k = k + 1;
    }
    proof {
        lemma_trimmed_start_at(chars@, k as int);
    }
    k
}

/// `s` without its leading white space.
pub fn trim_start(s: &str) -> (r: String)
    ensures
        r@ == trimmed_start(s@),
{
    let chars = chars_of(s);
    let from = skip_space(&chars);
    let to = chars.len();
    let r = text_between(&chars, from, to);
    assert(r@ =~= s@.skip(from as int));
    r
}

/// `s` without white space at either end.
pub fn trim(s: &str) -> (r: String)
    ensures
        r@ == trimmed(s@),
{
    let chars = chars_of(s);
    let from = skip_space(&chars);
    let mut to = chars.len();
    while to > from && is_space(chars[to - 1])
        invariant
            from <= to <= chars@.len(),
            forall|i: int| to <= i < chars@.len() ==> is_whitespace(#[trigger] chars@[i]),
        decreases to,
    {
        to = to - 1;
    }
    let r = text_between(&chars, from, to);
    proof {
        let rest = s@.skip(from as int);
        assert forall|i: int| to - from <= i < rest.len() implies is_whitespace(
            #[trigger] rest[i],
        ) by {
            assert(rest[i] == chars@[i + from]);
        }
        if to > from {
            assert(rest[to - from - 1] == chars@[to - 1]);
        }
        lemma_trimmed_end_at(rest, to - from);
        assert(r@ =~= rest.take(to - from));
    }
    r
}

/// The position of the first `c` at or behind `from`, or the number of characters.
pub fn position_of(chars: &Vec<char>, from: usize, c: char) -> (k: usize)
    requires
        from <= chars@.len(),
    ensures
        from <= k <= chars@.len(),
        k == from + first_of(chars@.skip(from as int), c),
{
    let mut k: usize = from;
    while k < chars.len() && chars[k] != c
        invariant
            from <= k <= chars@.len(),
            forall|i: int| from <= i < k ==> chars@[i] != c,
        decreases chars@.len() - k,
    {
        k = k + 1;
    }
    proof {
        lemma_first_of_is(chars@.skip(from as int), c, k - from);
    }
    k
}

/// Whether the characters at `at` are those of `word`.
pub fn stands_at(chars: &Vec<char>, at: usize, word: &Vec<char>) -> (r: bool)
    requires
        at + word@.len() <= chars@.len(),
    ensures
        r == (chars@.subrange(at as int, at + word@.len()) == word@),
{
    let total = chars.len();
    let mut i: usize = 0;
    while i < word.len()
        invariant
            i <= word@.len(),
            at + word@.len() <= total,
            total == chars@.len(),
            forall|k: int| 0 <= k < i ==> chars@[at + k] == word@[k],
        decreases word@.len() - i,
    {
        if chars[at + i] != word[i] {
            assert(chars@.subrange(at as int, at + word@.len())[i as int] != word@[i as int]);
            return false;
        }
        i = i + 1;
    }
    assert(chars@.subrange(at as int, at + word@.len()) =~= word@);
    true
}

/// Whether `s` begins with `prefix`.
pub fn starts_with(s: &str, prefix: &str) -> (r: bool)
    ensures
        r == prefix@.is_prefix_of(s@),
{
    let chars = chars_of(s);
    let word = chars_of(prefix);
    if word.len() > chars.len() {
        return false;
    }
    stands_at(&chars, 0, &word)
}

/// What stands in `s` behind `prefix`, where `s` begins with it.
pub fn strip_prefix(s: &str, prefix: &str) -> (r: Option<String>)
    ensures
        r is Some <==> prefix@.is_prefix_of(s@),
        r matches Some(rest) ==> rest@ == s@.skip(prefix@.len() as int),
{
    if !starts_with(s, prefix) {
        return None;
    }
    let chars = chars_of(s);
    let word = chars_of(prefix);
    let to = chars.len();
    let rest = text_between(&chars, word.len(), to);
    assert(rest@ =~= s@.skip(prefix@.len() as int));
    Some(rest)
}

/// Whether `s` ends with `suffix`.
pub fn ends_with(s: &str, suffix: &str) -> (r: bool)
    ensures
        r == ends_with_word(s@, suffix@),
{
    let chars = chars_of(s);
    let word = chars_of(suffix);
    if word.len() > chars.len() {
        return false;
    }
    let at = chars.len() - word.len();
    assert(s@.skip(at as int) =~= s@.subrange(at as int, at + suffix@.len()));
    stands_at(&chars, at, &word)
}

/// Whether `word` stands somewhere in `s`.
pub fn contains(s: &str, word: &str) -> (r: bool)
    ensures
        r == contains_word(s@, word@),
{
    let chars = chars_of(s);
    let sought = chars_of(word);
    if sought.len() > chars.len() {
        return false;
    }
    let last = chars.len() - sought.len();
    let mut at: usize = 0;
    loop
        invariant
            chars@ == s@,
            sought@ == word@,
            last == s@.len() - word@.len(),
            at <= last,
            forall|i: int| 0 <= i < at ==> #[trigger] s@.subrange(i, i + word@.len()) != word@,
        decreases last - at,
    {
        if stands_at(&chars, at, &sought) {
            return true;
        }
        if at == last {
            return false;
        }
        at = at + 1;
    }
}

/// The parts of `s` between the occurrences of `c`.
pub fn split(s: &str, c: char) -> (r: Vec<String>)
    ensures
        texts(r@) == split_on(s@, c),
{
    let chars = chars_of(s);
    let total = chars.len();
    let mut r: Vec<String> = Vec::new();
    let mut from: usize = 0;
    assert(texts(r@) + split_on(s@.skip(0), c) =~= split_on(s@, c)) by {
        assert(s@.skip(0) =~= s@);
    }
    loop
        invariant
            chars@ == s@,
            total == s@.len(),
            from <= total,
            texts(r@) + split_on(s@.skip(from as int), c) == split_on(s@, c),
        decreases total - from,
    {
        let k = position_of(&chars, from, c);
        let part = text_between(&chars, from, k);
        let ghost before = texts(r@);
        let ghost rest = s@.skip(from as int);
        r.push(part);
        proof {
            lemma_first_of(rest, c);
            assert(texts(r@) =~= before.push(part@));
            assert(part@ =~= rest.take(k - from));
        }
        if k >= total {
            assert(part@ =~= rest);
            assert(texts(r@) =~= before + split_on(rest, c));
            return r;
        }
        assert(rest.skip(k - from + 1) =~= s@.skip(k + 1));
        assert(before + split_on(rest, c) =~= texts(r@) + split_on(s@.skip(k + 1), c));
        from = k + 1;
    }
}

/// The lines of `s` without their ends.
pub fn lines(s: &str) -> (r: Vec<String>)
    ensures
        texts(r@) == text_lines(s@),
{
    let chars = chars_of(s);
    let total = chars.len();
    let mut r: Vec<String> = Vec::new();
    let mut from: usize = 0;
    assert(texts(r@) + text_lines(s@.skip(0)) =~= text_lines(s@)) by {
        assert(s@.skip(0) =~= s@);
    }
    while from < total
        invariant
            chars@ == s@,
            total == s@.len(),
            from <= total,
            texts(r@) + text_lines(s@.skip(from as int)) == text_lines(s@),
        decreases total - from,
    {
        let k = position_of(&chars, from, '\n');
        let to = if k < total && k > from && chars[k - 1] == '\r' { k - 1 } else { k };
        let line = text_between(&chars, from, to);
        let ghost before = texts(r@);
        let ghost rest = s@.skip(from as int);
        r.push(line);
        proof {
            lemma_first_of(rest, '\n');
            assert(texts(r@) =~= before.push(line@));
        }
        if k >= total {
            assert(line@ =~= rest);
            assert(texts(r@) =~= before + text_lines(rest));
            return r;
        }
        proof {
            if k > from {
                assert(rest.take(k - from).last() == chars@[k - 1]);
            }
            assert(line@ =~= without_return(rest.take(k - from)));
            assert(rest.skip(k - from + 1) =~= s@.skip(k + 1));
            assert(before + text_lines(rest) =~= texts(r@) + text_lines(s@.skip(k + 1)));
        }
        from = k + 1;
    }
    assert(s@.skip(total as int) =~= Seq::<char>::empty());
    assert(texts(r@) =~= text_lines(s@));
    r
}

/// The lines of `s` that a line feed ends, each with its line feed, and what follows
/// the last of them.
pub fn cut_lines(s: &str) -> (r: (Vec<String>, String))
    ensures
        texts(r.0@) == complete_lines(s@),
        r.1@ == unfinished_line(s@),
{
    let chars = chars_of(s);
    let total = chars.len();
    let mut r: Vec<String> = Vec::new();
    let mut from: usize = 0;
    assert(texts(r@) + complete_lines(s@.skip(0)) =~= complete_lines(s@)) by {
        assert(s@.skip(0) =~= s@);
    }
    assert(s@.skip(0) =~= s@);
    loop
        invariant
            chars@ == s@,
            total == s@.len(),
            from <= total,
            texts(r@) + complete_lines(s@.skip(from as int)) == complete_lines(s@),
            unfinished_line(s@.skip(from as int)) == unfinished_line(s@),
        decreases total - from,
    {
        let k = position_of(&chars, from, '\n');
        let ghost before = texts(r@);
        let ghost rest = s@.skip(from as int);
        proof {
            lemma_first_of(rest, '\n');
        }
        if k >= total {
            let tail = text_between(&chars, from, total);
            assert(tail@ =~= rest);
            assert(texts(r@) =~= before + complete_lines(rest));
            return (r, tail);
        }
        let line = text_between(&chars, from, k + 1);
        r.push(line);
        proof {
            assert(texts(r@) =~= before.push(line@));
            assert(line@ =~= rest.take(k - from + 1));
            assert(rest.skip(k - from + 1) =~= s@.skip(k + 1));
            assert(before + complete_lines(rest) =~= texts(r@) + complete_lines(s@.skip(k + 1)));
        }
        from = k + 1;
    }
}

/// `n` times the character `c`.
pub fn repeat(c: char, n: usize) -> (r: String)
    ensures
        r@ == repeated(c, n as nat),
{
    let mut r = String::new();
    let mut i: usize = 0;
    while i < n
        invariant
            i <= n,
            r@ =~= repeated(c, i as nat),
        decreases n - i,
    {
        r.push(c);
        i = i + 1;
    }
    r
}

/// `s` with spaces behind it, up to `width` characters.
pub fn pad(s: &str, width: usize) -> (r: String)
    ensures
        r@ == padded(s@, width as nat),
{
    let chars = chars_of(s);
    let total = chars.len();
    let mut r = text_between(&chars, 0, total);
    assert(r@ =~= s@);
    if total < width {
        let fill = repeat(' ', width - total);
        r.append(fill.as_str());
    }
    r
}

/// The first `n` characters of `s`, or all of them where there are fewer.
pub fn truncate(s: &str, n: usize) -> (r: String)
    ensures
        r@ == at_most(s@, n as nat),
{
    let chars = chars_of(s);
    let total = chars.len();
    if total <= n {
        let r = text_between(&chars, 0, total);
        assert(r@ =~= s@);
        r
    } else {
        let r = text_between(&chars, 0, n);
        assert(r@ =~= s@.take(n as int));
        r
    }
}

/// Two texts, one after the other.
pub fn concat(a: &str, b: &str) -> (r: String)
    ensures
        r@ == a@ + b@,
{
    let mut r = a.to_owned();
    r.append(b);
    r
}

/// The texts one after the other with `sep` between them.
pub fn join(parts: &Vec<String>, sep: &str) -> (r: String)
    ensures
        r@ == joined(texts(parts@), sep@),
{
    let mut r = String::new();
    let mut i: usize = 0;
    while i < parts.len()
        invariant
            i <= parts@.len(),
            r@ == joined(texts(parts@).take(i as int), sep@),
        decreases parts@.len() - i,
    {
        if i > 0 {
            r.append(sep);
        }
        r.append(parts[i].as_str());
        i = i + 1;
        proof {
            let done = texts(parts@).take(i as int);
            assert(done.drop_last() =~= texts(parts@).take(i - 1));
            assert(done.last() == parts@[i - 1]@);
            if i == 1 {
                assert(r@ =~= done[0]);
            }
        }
    }
    assert(texts(parts@).take(parts@.len() as int) =~= texts(parts@));
    r
}

/// A number is written with at least one digit, and starts with one.
pub proof fn lemma_decimal_starts(n: nat)
    ensures
        decimal(n).len() > 0,
        is_digit(decimal(n)[0]),
    decreases n,
{
    if n >= 10 {
        lemma_decimal_starts(n / 10);
        assert(decimal(n)[0] == decimal(n / 10)[0]);
    }
}

/// Appends the decimal digits of `n`.
fn push_decimal(out: &mut String, n: u64)
    ensures
        final(out)@ == old(out)@ + decimal(n as nat),
    decreases n,
{
    if n >= 10 {
        push_decimal(out, n / 10);
    }
    let d = (n % 10) as u8;
    let c = (48 + d) as char;
    assert(c == digit((n % 10) as nat));
    out.push(c);
    assert(out@ =~= old(out)@ + decimal(n as nat));
}

/// The decimal digits of `n`.
pub fn decimal_text(n: u64) -> (r: String)
    ensures
        r@ == decimal(n as nat),
{
    let mut r = String::new();
    push_decimal(&mut r, n);
    assert(r@ =~= decimal(n as nat));
    r
}

/// The decimal digits of `n`, with a minus sign in front where it is negative.
pub fn signed_decimal_text(n: i64) -> (r: String)
    ensures
        r@ == signed_decimal(n as int),
{
    let mut r = String::new();
    if n < 0 {
        r.push('-');
        push_decimal(&mut r, (-(n as i128)) as u64);
    } else {
        push_decimal(&mut r, n as u64);
    }
    assert(r@ =~= signed_decimal(n as int));
    r
}

proof fn lemma_digits_value_grows(s: Seq<char>, k: int)
    requires
        0 <= k <= s.len(),
    ensures
        digits_value(s.take(k)) <= digits_value(s),
    decreases s.len() - k,
{
    if k == s.len() {
        assert(s.take(k) =~= s);
    } else {
        lemma_digits_value_grows(s, k + 1);
        assert(s.take(k + 1).drop_last() =~= s.take(k));
    }
}

/// The integer that `s` writes, where it writes one that 64 bits hold.
pub fn parse_integer(s: &str) -> (r: Option<i64>)
    ensures
        r is Some <==> integer_of(s@) is Some,
        r matches Some(n) ==> integer_of(s@) == Some(n as int),
{
    let chars = chars_of(s);
    let total = chars.len();
    let signed = total > 0 && (chars[0] == '-' || chars[0] == '+');
    let negative = total > 0 && chars[0] == '-';
    let from: usize = if signed { 1 } else { 0 };
    let ghost digits = s@.skip(from as int);
    assert(digits == if signed { s@.skip(1) } else { s@ }) by {
        assert(s@.skip(0) =~= s@);
    }
    if from == total {
        return None;
    }
    let mut value: u64 = 0;
    let mut i: usize = from;
    while i < total
        invariant
            chars@ == s@,
            total == s@.len(),
            from <= i <= total,
            digits == s@.skip(from as int),
            forall|k: int| 0 <= k < i - from ==> is_digit(#[trigger] digits[k]),
            value == digits_value(digits.take(i - from)),
            value <= 0x8000_0000_0000_0000,
            signed == (s@.len() > 0 && (s@[0] == '-' || s@[0] == '+')),
            negative == (s@.len() > 0 && s@[0] == '-'),
            digits == if signed { s@.skip(1) } else { s@ },
        decreases total - i,
    {
        let c = chars[i];
        assert(digits[i - from] == c);
        if !('0' <= c && c <= '9') {
            assert(!is_digit(digits[i - from]));
            return None;
        }
        let d = (c as u32 - 48) as u64;
        proof {
            assert(digits.take(i - from + 1).drop_last() =~= digits.take(i - from));
            assert(digits.take(i - from + 1).last() == c);
        }
        if value > 0x0ccc_cccc_cccc_cccc || value * 10 + d > 0x8000_0000_0000_0000 {
            proof {
                lemma_digits_value_grows(digits, i - from + 1);
            }
            return None;
        }
        value = value * 10 + d;
        i = i + 1;
    }
    assert(digits.take(digits.len() as int) =~= digits);
    assert(all_digits(digits));
    if negative {
        if value == 0x8000_0000_0000_0000 {
            Some(i64::MIN)
        } else {
            Some(-(value as i64))
        }
    } else if value == 0x8000_0000_0000_0000 {
        None
    } else {
        Some(value as i64)
    }
}

/// The text that `String::from_utf8_lossy` reads in bytes.
pub uninterp spec fn lossy_text(bytes: Seq<u8>) -> Seq<char>;

/// Calls `String::from_utf8_lossy`: bytes of UTF-8 are read as they are, and what is none of it
/// becomes replacement characters. Which and how many is left unsaid.
#[verifier::external_body]
pub(crate) fn read_lossy(bytes: &[u8]) -> (r: String)
    ensures
        r@ == lossy_text(bytes@),
        valid_utf8(bytes@) ==> r@ == decode_utf8(bytes@),
{
    String::from_utf8_lossy(bytes).into_owned()
}

/// White space is made of twenty-five characters: of ASCII those from tabulator to carriage return
/// and the space, and beyond it those of the Unicode property.
pub proof fn law_white_space(c: char)
    ensures
        is_whitespace(c) <==> seq![
            '\t',
            '\n',
            '\u{b}',
            '\u{c}',
            '\r',
            ' ',
            '\u{85}',
            '\u{a0}',
            '\u{1680}',
            '\u{2000}',
            '\u{2001}',
            '\u{2002}',
            '\u{2003}',
            '\u{2004}',
            '\u{2005}',
            '\u{2006}',
            '\u{2007}',
            '\u{2008}',
            '\u{2009}',
            '\u{200a}',
            '\u{2028}',
            '\u{2029}',
            '\u{202f}',
            '\u{205f}',
            '\u{3000}',
        ].contains(c),
        is_whitespace('\t') && is_whitespace('\n') && is_whitespace('\r') && is_whitespace(' '),
        0x21 <= c as u32 <= 0x7f ==> !is_whitespace(c),
        (c as u32) < 0x09 || 0x0e <= c as u32 <= 0x1f ==> !is_whitespace(c),
        0xa1 <= c as u32 <= 0x167f ==> !is_whitespace(c),
        c as u32 > 0x3000 ==> !is_whitespace(c),
{
    let all = seq![
        '\t',
        '\n',
        '\u{b}',
        '\u{c}',
        '\r',
        ' ',
        '\u{85}',
        '\u{a0}',
        '\u{1680}',
        '\u{2000}',
        '\u{2001}',
        '\u{2002}',
        '\u{2003}',
        '\u{2004}',
        '\u{2005}',
        '\u{2006}',
        '\u{2007}',
        '\u{2008}',
        '\u{2009}',
        '\u{200a}',
        '\u{2028}',
        '\u{2029}',
        '\u{202f}',
        '\u{205f}',
        '\u{3000}',
    ];
    let n = c as u32;
    if 0x09 <= n <= 0x0d {
        assert(all[n - 0x09] == c);
    } else if 0x2000 <= n <= 0x200a {
        assert(all[n - 0x2000 + 9] == c);
    } else if is_whitespace(c) {
        assert(all[5] == c || all[6] == c || all[7] == c || all[8] == c || all[20] == c || all[21]
            == c || all[22] == c || all[23] == c || all[24] == c);
    }
}

/// Trimming takes the white space around a text and nothing else: whatever white space stands
/// before and behind it, the text comes back.
pub proof fn law_trimming_takes_white_space_alone(
    before: Seq<char>,
    s: Seq<char>,
    after: Seq<char>,
)
    requires
        forall|i: int| 0 <= i < before.len() ==> is_whitespace(#[trigger] before[i]),
        forall|i: int| 0 <= i < after.len() ==> is_whitespace(#[trigger] after[i]),
        s.len() > 0 ==> !is_whitespace(s[0]) && !is_whitespace(s[s.len() - 1]),
    ensures
        trimmed(before + s + after) == s,
        s.len() > 0 ==> trimmed_start(before + s + after) == s + after,
        s.len() == 0 ==> trimmed_start(before + s + after).len() == 0,
{
    let whole = before + s + after;
    let k: int = if s.len() > 0 {
        before.len() as int
    } else {
        whole.len() as int
    };
    assert forall|i: int| 0 <= i < k implies is_whitespace(#[trigger] whole[i]) by {
        if i < before.len() {
            assert(whole[i] == before[i]);
        } else {
            assert(whole[i] == after[i - before.len() - s.len()]);
        }
    }
    if s.len() > 0 {
        assert(whole[k] == s[0]);
    }
    lemma_trimmed_start_at(whole, k);
    let rest = whole.skip(k);
    if s.len() > 0 {
        assert(rest =~= s + after);
        assert forall|i: int| s.len() <= i < rest.len() implies is_whitespace(
            #[trigger] rest[i],
        ) by {
            assert(rest[i] == after[i - s.len()]);
        }
        assert(rest[s.len() - 1] == s[s.len() - 1]);
        lemma_trimmed_end_at(rest, s.len() as int);
        assert(rest.take(s.len() as int) =~= s);
    } else {
        assert(rest =~= s);
        lemma_trimmed_end_at(rest, 0);
        assert(rest.take(0) =~= s);
    }
}

/// Trimming at the start leaves what begins with the first character that is no white space.
pub proof fn law_trimmed_start_is_the_rest(s: Seq<char>) -> (k: int)
    ensures
        0 <= k <= s.len(),
        trimmed_start(s) == s.skip(k),
        forall|i: int| 0 <= i < k ==> is_whitespace(#[trigger] s[i]),
        k < s.len() ==> !is_whitespace(s[k]),
{
    let k = lemma_start_of_text(s);
    lemma_trimmed_start_at(s, k);
    k
}

/// Every text is one without white space at its ends, between white space: what trimming leaves.
pub proof fn law_trimmed_text_has_bare_ends(s: Seq<char>) -> (k: int)
    ensures
        0 <= k <= s.len() - trimmed(s).len(),
        s.subrange(k, k + trimmed(s).len()) == trimmed(s),
        forall|i: int| 0 <= i < k ==> is_whitespace(#[trigger] s[i]),
        forall|i: int| k + trimmed(s).len() <= i < s.len() ==> is_whitespace(#[trigger] s[i]),
        trimmed(s).len() > 0 ==> !is_whitespace(trimmed(s)[0]) && !is_whitespace(
            trimmed(s)[trimmed(s).len() - 1],
        ),
{
    let k = lemma_start_of_text(s);
    let rest = s.skip(k);
    let n = lemma_end_of_text(rest);
    lemma_trimmed_start_at(s, k);
    lemma_trimmed_end_at(rest, n);
    assert(s.subrange(k, k + n) =~= rest.take(n));
    assert forall|i: int| k + n <= i < s.len() implies is_whitespace(#[trigger] s[i]) by {
        assert(rest[i - k] == s[i]);
    }
    if n > 0 {
        assert(rest[0] == s[k]);
    }
    k
}

proof fn lemma_start_of_text(s: Seq<char>) -> (k: int)
    ensures
        0 <= k <= s.len(),
        forall|i: int| 0 <= i < k ==> is_whitespace(#[trigger] s[i]),
        k < s.len() ==> !is_whitespace(s[k]),
    decreases s.len(),
{
    if s.len() > 0 && is_whitespace(s[0]) {
        let k = lemma_start_of_text(s.skip(1));
        assert forall|i: int| 0 <= i < k + 1 implies is_whitespace(#[trigger] s[i]) by {
            if i > 0 {
                assert(s.skip(1)[i - 1] == s[i]);
            }
        }
        k + 1
    } else {
        0
    }
}

proof fn lemma_end_of_text(s: Seq<char>) -> (n: int)
    ensures
        0 <= n <= s.len(),
        forall|i: int| n <= i < s.len() ==> is_whitespace(#[trigger] s[i]),
        n > 0 ==> !is_whitespace(s[n - 1]),
    decreases s.len(),
{
    if s.len() > 0 && is_whitespace(s.last()) {
        let n = lemma_end_of_text(s.drop_last());
        assert forall|i: int| n <= i < s.len() implies is_whitespace(#[trigger] s[i]) by {
            if i < s.len() - 1 {
                assert(s.drop_last()[i] == s[i]);
            }
        }
        n
    } else {
        s.len() as int
    }
}

/// A text is split at every separator, and nowhere else: what stands before the first one is the
/// first part, and what stands behind it is split in the same way.
pub proof fn law_text_is_split_at_separators(a: Seq<char>, b: Seq<char>, c: char)
    requires
        !a.contains(c),
    ensures
        split_on(a, c) == seq![a],
        split_on(a + seq![c] + b, c) == seq![a] + split_on(b, c),
{
    let whole = a + seq![c] + b;
    assert forall|i: int| 0 <= i < a.len() implies a[i] != c by {
        assert(a.contains(a[i]));
    }
    lemma_first_of_is(a, c, a.len() as int);
    assert forall|i: int| 0 <= i < a.len() implies whole[i] != c by {
        assert(whole[i] == a[i]);
    }
    lemma_first_of_is(whole, c, a.len() as int);
    assert(whole.take(a.len() as int) =~= a);
    assert(whole.skip((a.len() + 1) as int) =~= b);
}

/// A line ends with its line feed and holds no other: what stands before the first line feed is
/// the first line, with the line feed, and what stands behind it is cut in the same way.
pub proof fn law_lines_end_with_line_feeds(a: Seq<char>, b: Seq<char>)
    requires
        !a.contains('\n'),
    ensures
        complete_lines(a) == Seq::<Seq<char>>::empty(),
        unfinished_line(a) == a,
        complete_lines(a + seq!['\n'] + b) == seq![a + seq!['\n']] + complete_lines(b),
        unfinished_line(a + seq!['\n'] + b) == unfinished_line(b),
{
    let whole = a + seq!['\n'] + b;
    assert forall|i: int| 0 <= i < a.len() implies a[i] != '\n' by {
        assert(a.contains(a[i]));
    }
    lemma_first_of_is(a, '\n', a.len() as int);
    assert forall|i: int| 0 <= i < a.len() implies whole[i] != '\n' by {
        assert(whole[i] == a[i]);
    }
    lemma_first_of_is(whole, '\n', a.len() as int);
    assert(whole.take((a.len() + 1) as int) =~= a + seq!['\n']);
    assert(whole.skip((a.len() + 1) as int) =~= b);
}

/// The lines of a text come without their ends, be those line feeds or carriage returns with line
/// feeds, and empty lines count. What follows the last line feed is a line where it is anything.
pub proof fn law_lines_come_without_ends(a: Seq<char>, b: Seq<char>)
    requires
        !a.contains('\n'),
    ensures
        text_lines(Seq::empty()) == Seq::<Seq<char>>::empty(),
        a.len() > 0 ==> text_lines(a) == seq![a],
        a.len() == 0 || a[a.len() - 1] != '\r' ==> text_lines(a + seq!['\n'] + b) == seq![a]
            + text_lines(b),
        text_lines(a + seq!['\r', '\n'] + b) == seq![a] + text_lines(b),
{
    assert forall|i: int| 0 <= i < a.len() implies a[i] != '\n' by {
        assert(a.contains(a[i]));
    }
    lemma_first_of_is(a, '\n', a.len() as int);
    let fed = a + seq!['\n'] + b;
    assert forall|i: int| 0 <= i < a.len() implies fed[i] != '\n' by {
        assert(fed[i] == a[i]);
    }
    lemma_first_of_is(fed, '\n', a.len() as int);
    assert(fed.take(a.len() as int) =~= a);
    assert(fed.skip((a.len() + 1) as int) =~= b);
    let returned = a + seq!['\r', '\n'] + b;
    assert forall|i: int| 0 <= i < a.len() + 1 implies returned[i] != '\n' by {
        if i < a.len() {
            assert(returned[i] == a[i]);
        }
    }
    lemma_first_of_is(returned, '\n', (a.len() + 1) as int);
    assert(returned.take((a.len() + 1) as int) =~= a.push('\r'));
    assert(a.push('\r').drop_last() =~= a);
    assert(returned.skip((a.len() + 2) as int) =~= b);
}

/// A word is found wherever it stands, and only there.
pub proof fn law_word_is_found_where_it_stands(s: Seq<char>, word: Seq<char>)
    ensures
        contains_word(s, word) <==> exists|a: Seq<char>, b: Seq<char>| s == #[trigger] (a + word + b),
        ends_with_word(s, word) <==> exists|a: Seq<char>| s == #[trigger] (a + word),
{
    if contains_word(s, word) {
        let i = choose|i: int|
            0 <= i <= s.len() - word.len() && #[trigger] s.subrange(i, i + word.len()) == word;
        assert(s =~= s.take(i) + word + s.skip(i + word.len()));
    }
    if exists|a: Seq<char>, b: Seq<char>| s == #[trigger] (a + word + b) {
        let (a, b) = choose|a: Seq<char>, b: Seq<char>| s == #[trigger] (a + word + b);
        let i = a.len() as int;
        assert(s.subrange(i, i + word.len()) =~= word);
    }
    if ends_with_word(s, word) {
        assert(s =~= s.take(s.len() - word.len()) + word);
    }
    if exists|a: Seq<char>| s == #[trigger] (a + word) {
        let a = choose|a: Seq<char>| s == #[trigger] (a + word);
        assert(s.skip(s.len() - word.len()) =~= word);
    }
}

/// The sum of the lengths of texts.
pub open spec fn length_sum(parts: Seq<Seq<char>>) -> nat {
    parts.fold_left(0nat, |n: nat, part: Seq<char>| n + part.len())
}

/// Texts one after the other are all of them, whole and in their order: a text more adds itself
/// at the end, and the length is the sum of theirs.
pub proof fn law_texts_add_up(parts: Seq<Seq<char>>, more: Seq<Seq<char>>, part: Seq<char>)
    ensures
        concatenated(seq![part]) == part,
        concatenated(parts.push(part)) == concatenated(parts) + part,
        concatenated(parts + more) == concatenated(parts) + concatenated(more),
        concatenated(parts).len() == length_sum(parts),
    decreases parts.len() + more.len(),
{
    assert(seq![part].drop_last() =~= Seq::<Seq<char>>::empty());
    assert(concatenated(Seq::<Seq<char>>::empty()) =~= Seq::<char>::empty());
    assert(seq![part].last() == part);
    assert(concatenated(seq![part]) =~= part);
    assert(parts.push(part).drop_last() =~= parts);
    if more.len() == 0 {
        assert(parts + more =~= parts);
        assert(concatenated(parts + more) =~= concatenated(parts) + concatenated(more));
        if parts.len() > 0 {
            law_texts_add_up(parts.drop_last(), more, part);
        }
    } else {
        law_texts_add_up(parts, more.drop_last(), part);
        assert((parts + more).drop_last() =~= parts + more.drop_last());
        assert(concatenated(parts + more) =~= concatenated(parts) + concatenated(more));
    }
}

/// Joined texts have the separator between each two of them, and nowhere else.
pub proof fn law_texts_join_with_separators(
    a: Seq<Seq<char>>,
    b: Seq<Seq<char>>,
    part: Seq<char>,
    sep: Seq<char>,
)
    ensures
        joined(Seq::empty(), sep).len() == 0,
        joined(seq![part], sep) == part,
        a.len() > 0 && b.len() > 0 ==> joined(a + b, sep) == joined(a, sep) + sep + joined(b, sep),
    decreases b.len(),
{
    if a.len() > 0 && b.len() > 0 {
        assert((a + b).drop_last() =~= a + b.drop_last());
        assert((a + b).last() == b.last());
        if b.len() == 1 {
            assert(a + b.drop_last() =~= a);
        } else {
            law_texts_join_with_separators(a, b.drop_last(), part, sep);
        }
        assert(joined(a + b, sep) =~= joined(a, sep) + sep + joined(b, sep));
    }
}

/// A text in a column keeps all its characters, and only spaces follow up to the width. A text
/// that is cut keeps its first characters up to the limit.
pub proof fn law_columns_and_cuts(s: Seq<char>, n: nat, c: char)
    ensures
        s.is_prefix_of(padded(s, n)),
        padded(s, n).len() == if s.len() < n { n } else { s.len() },
        forall|i: int| s.len() <= i < padded(s, n).len() ==> #[trigger] padded(s, n)[i] == ' ',
        at_most(s, n).is_prefix_of(s),
        at_most(s, n).len() == if s.len() < n { s.len() } else { n },
        repeated(c, n).len() == n,
        forall|i: int| 0 <= i < n ==> #[trigger] repeated(c, n)[i] == c,
{
    assert(padded(s, n).take(s.len() as int) =~= s);
    if s.len() <= n {
        assert(s.take(s.len() as int) =~= s);
    } else {
        assert(s.take(n as int) =~= at_most(s, n));
    }
}

/// A number is written digit by digit: a digit behind those of `n` writes ten times `n` and the
/// digit. What is written is read back as it was.
pub proof fn law_numbers_are_written_in_decimal(n: nat, d: nat)
    requires
        d < 10,
    ensures
        decimal(d) == seq![(48 + d) as char],
        n > 0 ==> decimal(10 * n + d) == decimal(n).push((48 + d) as char),
        all_digits(decimal(n)),
        digits_value(decimal(n)) == n,
    decreases n,
{
    if n > 0 {
        assert((10 * n + d) / 10 == n && (10 * n + d) % 10 == d);
    }
    if n >= 10 {
        law_numbers_are_written_in_decimal(n / 10, d);
        assert(decimal(n).drop_last() =~= decimal(n / 10));
        assert forall|i: int| 0 <= i < decimal(n).len() implies is_digit(
            #[trigger] decimal(n)[i],
        ) by {
            if i < decimal(n).len() - 1 {
                assert(decimal(n)[i] == decimal(n / 10)[i]);
            }
        }
    } else {
        assert(decimal(n).drop_last() =~= Seq::<char>::empty());
        assert(digits_value(Seq::<char>::empty()) == 0);
    }
}

/// Every integer of 64 bits is read back from what is written of it, with or without a plus sign,
/// and a text with anything but digits behind its sign is no integer.
pub proof fn law_integers_are_read_back(n: int, s: Seq<char>, k: int)
    ensures
        i64::MIN <= n <= i64::MAX ==> integer_of(signed_decimal(n)) == Some(n),
        0 <= n <= i64::MAX ==> integer_of(seq!['+'] + signed_decimal(n)) == Some(n),
        n >= 0 ==> signed_decimal(n) == decimal(n as nat),
        n < 0 ==> signed_decimal(n) == seq!['-'] + decimal((-n) as nat),
        (n < i64::MIN || n > i64::MAX) ==> integer_of(signed_decimal(n)) is None,
        s.len() == 0 ==> integer_of(s) is None,
        0 < k < s.len() && !('0' <= s[k] <= '9') ==> integer_of(s) is None,
        s.len() > 0 && !('0' <= s[0] <= '9') && s[0] != '-' && s[0] != '+' ==> integer_of(s) is None,
        s.len() == 1 && !('0' <= s[0] <= '9') ==> integer_of(s) is None,
{
    let m: nat = if n < 0 {
        (-n) as nat
    } else {
        n as nat
    };
    law_numbers_are_written_in_decimal(m, 0);
    lemma_decimal_starts(m);
    if n < 0 {
        assert((seq!['-'] + decimal(m)).skip(1) =~= decimal(m));
    } else {
        assert((seq!['+'] + decimal(m)).skip(1) =~= decimal(m));
    }
    if 0 < k < s.len() && !('0' <= s[k] <= '9') {
        assert(s.skip(1)[k - 1] == s[k]);
        assert(!is_digit(s[k]));
        assert(!is_digit(s.skip(1)[k - 1]));
    }
    if s.len() > 0 && !('0' <= s[0] <= '9') {
        assert(!is_digit(s[0]));
    }
}

/// The first difference decides the order of two texts, by the code points there; a text stands
/// before every longer one that begins with it.
pub proof fn law_first_difference_decides(
    common: Seq<char>,
    x: char,
    y: char,
    a: Seq<char>,
    b: Seq<char>,
)
    requires
        x < y,
    ensures
        text_le(common, common + a),
        a.len() > 0 ==> !text_le(common + a, common),
        text_le(common + seq![x] + a, common + seq![y] + b),
        !text_le(common + seq![y] + b, common + seq![x] + a),
    decreases common.len(),
{
    let p = common + seq![x] + a;
    let q = common + seq![y] + b;
    if common.len() == 0 {
        assert(p[0] == x && q[0] == y);
        assert(common + a =~= a);
    } else {
        law_first_difference_decides(common.skip(1), x, y, a, b);
        assert(p.skip(1) =~= common.skip(1) + seq![x] + a);
        assert(q.skip(1) =~= common.skip(1) + seq![y] + b);
        assert((common + a).skip(1) =~= common.skip(1) + a);
        assert((common + a)[0] == common[0]);
        assert(p[0] == common[0] && q[0] == common[0]);
    }
}

/// Digits write a number whatever zeros stand before it, one place after the other; with a sign in
/// front of them they are read as an integer wherever 64 bits hold it.
pub proof fn law_digits_are_read_as_integers(digits: Seq<char>, c: char)
    requires
        digits.len() > 0,
        forall|i: int| 0 <= i < digits.len() ==> '0' <= #[trigger] digits[i] <= '9',
    ensures
        digits_value(Seq::empty()) == 0,
        '0' <= c <= '9' ==> digits_value(digits.push(c)) == 10 * digits_value(digits) + (c as int
            - '0' as int),
        integer_of(digits) == (if digits_value(digits) <= i64::MAX {
            Some(digits_value(digits) as int)
        } else {
            None
        }),
        integer_of(seq!['+'] + digits) == integer_of(digits),
        integer_of(seq!['-'] + digits) == (if -digits_value(digits) >= i64::MIN {
            Some(-digits_value(digits))
        } else {
            None
        }),
{
    assert(digits.push(c).drop_last() =~= digits);
    assert((seq!['+'] + digits).skip(1) =~= digits);
    assert((seq!['-'] + digits).skip(1) =~= digits);
    assert('0' <= digits[0] <= '9');
    assert(all_digits(digits));
}

/// A list of texts is read as it is: each text whole and in its place.
pub proof fn law_texts_are_read_as_they_are(list: Seq<String>, i: int)
    ensures
        texts(list).len() == list.len(),
        0 <= i < list.len() ==> texts(list)[i] == list[i]@,
{
}

} // verus!
