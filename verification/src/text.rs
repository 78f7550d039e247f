//! Operations on text, seen as a sequence of characters.

use vstd::prelude::*;

verus! {

/// `String::push` appends one character to the end of the text.
pub assume_specification[ String::push ](s: &mut String, c: char)
    ensures
        final(s)@ == old(s)@.push(c),
;

/// The characters with the Unicode property `White_Space`.
pub open spec fn is_white_space(c: char) -> bool {
    ||| '\u{9}' <= c <= '\u{d}'
    ||| c == '\u{20}'
    ||| c == '\u{85}'
    ||| c == '\u{a0}'
    ||| c == '\u{1680}'
    ||| '\u{2000}' <= c <= '\u{200a}'
    ||| c == '\u{2028}'
    ||| c == '\u{2029}'
    ||| c == '\u{202f}'
    ||| c == '\u{205f}'
    ||| c == '\u{3000}'
}

/// Whether a text holds nothing but white space.
pub open spec fn is_blank(s: Seq<char>) -> bool {
    forall|i: int| 0 <= i < s.len() ==> is_white_space(#[trigger] s[i])
}

/// A text without the white space at its start.
pub open spec fn trimmed_start(s: Seq<char>) -> Seq<char>
    decreases s.len(),
{
    if s.len() > 0 && is_white_space(s[0]) {
        trimmed_start(s.drop_first())
    } else {
        s
    }
}

/// A text without the white space at its end.
pub open spec fn trimmed_end(s: Seq<char>) -> Seq<char>
    decreases s.len(),
{
    if s.len() > 0 && is_white_space(s.last()) {
        trimmed_end(s.drop_last())
    } else {
        s
    }
}

/// A text without the white space at its start and at its end.
pub open spec fn trimmed(s: Seq<char>) -> Seq<char> {
    trimmed_end(trimmed_start(s))
}

/// Whether `needle` stands in `s` from position `at` on.
pub open spec fn occurs_at(s: Seq<char>, needle: Seq<char>, at: int) -> bool {
    &&& 0 <= at
    &&& at + needle.len() <= s.len()
    &&& s.subrange(at, at + needle.len()) == needle
}

/// Whether `needle` stands somewhere in `s`.
pub open spec fn has_text(s: Seq<char>, needle: Seq<char>) -> bool {
    exists|at: int| occurs_at(s, needle, at)
}

/// Whether `s` begins with `prefix`.
pub open spec fn begins_with(s: Seq<char>, prefix: Seq<char>) -> bool {
    occurs_at(s, prefix, 0)
}

/// The strict order of texts by code point, which is also the order of their UTF-8 bytes.
pub open spec fn precedes(a: Seq<char>, b: Seq<char>) -> bool
    decreases a.len(),
{
    if b.len() == 0 {
        false
    } else if a.len() == 0 {
        true
    } else if a[0] != b[0] {
        a[0] < b[0]
    } else {
        precedes(a.drop_first(), b.drop_first())
    }
}

/// A character with an ASCII capital replaced by its small letter.
pub open spec fn lower(c: char) -> char {
    if 'A' <= c <= 'Z' {
        ((c as u8 + 32) as u8) as char
    } else {
        c
    }
}

/// A text with each ASCII capital replaced by its small letter.
pub open spec fn lowered(s: Seq<char>) -> Seq<char> {
    Seq::new(s.len(), |i: int| lower(s[i]))
}

/// The hexadecimal digit of a number below sixteen.
pub open spec fn hex_digit(n: u8) -> char {
    if n < 10 {
        ((n + 48) as u8) as char
    } else {
        ((n + 87) as u8) as char
    }
}

/// Bytes as lower-case hexadecimal digits, two for each byte.
pub open spec fn hex(bytes: Seq<u8>) -> Seq<char> {
    Seq::new(
        2 * bytes.len(),
        |i: int|
            if i % 2 == 0 {
                hex_digit(bytes[i / 2] / 16)
            } else {
                hex_digit(bytes[i / 2] % 16)
            },
    )
}

/// The first of two texts that is there.
pub open spec fn coalesce(first: Option<Seq<char>>, second: Option<Seq<char>>) -> Option<
    Seq<char>,
> {
    if first is Some {
        first
    } else {
        second
    }
}

/// The value of a text that was read, or of why it was not.
pub open spec fn text_read(text: Result<String, String>) -> Result<Seq<char>, Seq<char>> {
    match text {
        Ok(text) => Ok(text@),
        Err(complaint) => Err(complaint@),
    }
}

/// No text comes before itself.
pub proof fn lemma_precedes_irreflexive(a: Seq<char>)
    ensures
        !precedes(a, a),
    decreases a.len(),
{
    if a.len() > 0 {
        lemma_precedes_irreflexive(a.drop_first());
    }
}

/// The order of texts is transitive.
pub proof fn lemma_precedes_transitive(a: Seq<char>, b: Seq<char>, c: Seq<char>)
    requires
        precedes(a, b),
        precedes(b, c),
    ensures
        precedes(a, c),
    decreases a.len(),
{
    if a.len() > 0 && a[0] == b[0] && b[0] == c[0] {
        lemma_precedes_transitive(a.drop_first(), b.drop_first(), c.drop_first());
    }
}

/// Of two different texts one comes before the other.
pub proof fn lemma_precedes_total(a: Seq<char>, b: Seq<char>)
    ensures
        precedes(a, b) || precedes(b, a) || a == b,
    decreases a.len(),
{
    if a.len() > 0 && b.len() > 0 {
        if a[0] == b[0] {
            lemma_precedes_total(a.drop_first(), b.drop_first());
            if a.drop_first() == b.drop_first() {
                assert(a =~= seq![a[0]] + a.drop_first());
                assert(b =~= seq![b[0]] + b.drop_first());
            }
        }
    } else if a.len() == 0 && b.len() == 0 {
        assert(a =~= b);
    }
}

/// Whether a character is white space.
pub fn white_space(c: char) -> (r: bool)
    ensures
        r == is_white_space(c),
{
    ('\u{9}' <= c && c <= '\u{d}') || c == '\u{20}' || c == '\u{85}' || c == '\u{a0}' || c
        == '\u{1680}' || ('\u{2000}' <= c && c <= '\u{200a}') || c == '\u{2028}' || c == '\u{2029}'
        || c == '\u{202f}' || c == '\u{205f}' || c == '\u{3000}'
}

/// The characters of a text.
pub fn chars_of(s: &str) -> (r: Vec<char>)
    ensures
        r@ == s@,
{
    let mut r: Vec<char> = Vec::new();
    for c in it: s.chars()
        invariant
            it.seq() == s@,
            r@ == s@.take(it.index()),
    {
        assert(s@.take(it.index() + 1) =~= s@.take(it.index()).push(c));
        r.push(c);
    }
    assert(s@.take(s@.len() as int) =~= s@);
    r
}

/// The text that the characters from `from` up to `to` make.
pub fn text_between(chars: &Vec<char>, from: usize, to: usize) -> (r: String)
    requires
        from <= to <= chars@.len(),
    ensures
        r@ == chars@.subrange(from as int, to as int),
{
    let mut r = String::new();
    let mut i: usize = from;
    while i < to
        invariant
            from <= i <= to <= chars@.len(),
            r@ == chars@.subrange(from as int, i as int),
        decreases to - i,
    {
        assert(chars@.subrange(from as int, i + 1) =~= chars@.subrange(from as int, i as int).push(
            chars@[i as int],
        ));
        r.push(chars[i]);
        i += 1;
    }
    r
}

/// Whether two texts are the same.
pub fn same(a: &str, b: &str) -> (r: bool)
    ensures
        r == (a@ == b@),
{
    a.to_string() == b.to_string()
}

/// One text after the other.
pub fn concat(a: &str, b: &str) -> (r: String)
    ensures
        r@ == a@ + b@,
{
    let mut r = a.to_string();
    r.append(b);
    r
}

/// Whether a text holds nothing but white space.
pub fn blank(s: &str) -> (r: bool)
    ensures
        r == is_blank(s@),
{
    for c in it: s.chars()
        invariant
            it.seq() == s@,
            forall|i: int| 0 <= i < it.index() ==> is_white_space(#[trigger] s@[i]),
    {
        if !white_space(c) {
            assert(s@[it.index()] == c);
            return false;
        }
    }
    true
}

/// A text without the white space at its start and at its end.
pub fn trim(s: &str) -> (r: String)
    ensures
        r@ == trimmed(s@),
{
    let chars = chars_of(s);
    let n: usize = chars.len();
    let mut from: usize = 0;
    assert(chars@.skip(0) =~= chars@);
    while from < n && white_space(chars[from])
        invariant
            n == chars@.len(),
            from <= n,
            trimmed_start(chars@.skip(from as int)) == trimmed_start(chars@),
        decreases n - from,
    {
        assert(chars@.skip(from as int).drop_first() =~= chars@.skip(from + 1));
        from += 1;
    }
    assert(trimmed_start(chars@) == chars@.skip(from as int));
    let mut to: usize = n;
    while to > from && white_space(chars[to - 1])
        invariant
            n == chars@.len(),
            from <= to <= n,
            trimmed_end(chars@.subrange(from as int, to as int)) == trimmed_end(
                chars@.skip(from as int),
            ),
        decreases to,
    {
        assert(chars@.subrange(from as int, to as int).drop_last() =~= chars@.subrange(
            from as int,
            to - 1,
        ));
        to -= 1;
    }
    text_between(&chars, from, to)
}

/// Whether `needle` stands in `chars` from position `at` on.
fn stands_at(chars: &Vec<char>, needle: &Vec<char>, at: usize) -> (r: bool)
    requires
        at + needle@.len() <= chars@.len(),
    ensures
        r == occurs_at(chars@, needle@, at as int),
{
    let ghost window = chars@.subrange(at as int, at + needle@.len());
    let mut i: usize = 0;
    while i < needle.len()
        invariant
            at + needle.len() <= chars.len(),
            i <= needle.len(),
            window == chars@.subrange(at as int, at + needle@.len()),
            forall|k: int| 0 <= k < i ==> window[k] == needle@[k],
        decreases needle.len() - i,
    {
        if chars[at + i] != needle[i] {
            assert(window[i as int] != needle@[i as int]);
            return false;
        }
        i += 1;
    }
    assert(window =~= needle@);
    true
}

/// Whether `needle` stands somewhere in `s`.
pub fn contains(s: &str, needle: &str) -> (r: bool)
    ensures
        r == has_text(s@, needle@),
{
    let chars = chars_of(s);
    let wanted = chars_of(needle);
    if wanted.len() > chars.len() {
        return false;
    }
    let last: usize = chars.len() - wanted.len();
    let mut at: usize = 0;
    loop
        invariant
            chars@ == s@,
            wanted@ == needle@,
            last == chars@.len() - wanted@.len(),
            at <= last,
            forall|k: int| 0 <= k < at ==> !occurs_at(s@, needle@, k),
        decreases last - at,
    {
        if stands_at(&chars, &wanted, at) {
            return true;
        }
        if at == last {
            return false;
        }
        at += 1;
    }
}

/// Whether `s` begins with `prefix`.
pub fn starts_with(s: &str, prefix: &str) -> (r: bool)
    ensures
        r == begins_with(s@, prefix@),
{
    let chars = chars_of(s);
    let wanted = chars_of(prefix);
    wanted.len() <= chars.len() && stands_at(&chars, &wanted, 0)
}

/// Whether `a` comes strictly before `b` in code point order.
pub fn comes_before(a: &str, b: &str) -> (r: bool)
    ensures
        r == precedes(a@, b@),
{
    let left = chars_of(a);
    let right = chars_of(b);
    let mut i: usize = 0;
    assert(a@.skip(0) =~= a@);
    assert(b@.skip(0) =~= b@);
    loop
        invariant
            left@ == a@,
            right@ == b@,
            i <= left@.len(),
            i <= right@.len(),
            precedes(a@.skip(i as int), b@.skip(i as int)) == precedes(a@, b@),
        decreases left.len() - i,
    {
        if i == right.len() {
            return false;
        }
        if i == left.len() {
            return true;
        }
        if left[i] != right[i] {
            return left[i] < right[i];
        }
        assert(a@.skip(i as int).drop_first() =~= a@.skip(i + 1));
        assert(b@.skip(i as int).drop_first() =~= b@.skip(i + 1));
        i += 1;
    }
}

/// A text with each ASCII capital replaced by its small letter.
pub fn ascii_lowercase(s: &str) -> (r: String)
    ensures
        r@ == lowered(s@),
{
    let mut r = String::new();
    for c in it: s.chars()
        invariant
            it.seq() == s@,
            r@ == lowered(s@).take(it.index()),
    {
        assert(lowered(s@).take(it.index() + 1) =~= lowered(s@).take(it.index()).push(lower(c)));
        if 'A' <= c && c <= 'Z' {
            r.push((c as u8 + 32) as char);
        } else {
            r.push(c);
        }
    }
    assert(lowered(s@).take(s@.len() as int) =~= lowered(s@));
    r
}

/// The hexadecimal digit of a number below sixteen.
fn digit_of(n: u8) -> (r: char)
    requires
        n < 16,
    ensures
        r == hex_digit(n),
{
    if n < 10 {
        (n + 48) as char
    } else {
        (n + 87) as char
    }
}

/// Bytes as lower-case hexadecimal digits, two for each byte.
pub fn hex_of(bytes: &Vec<u8>) -> (r: String)
    ensures
        r@ == hex(bytes@),
{
    let mut r = String::new();
    let mut i: usize = 0;
    while i < bytes.len()
        invariant
            i <= bytes@.len(),
            r@ == hex(bytes@).take(2 * i),
        decreases bytes.len() - i,
    {
        let b: u8 = bytes[i];
        r.push(digit_of(b / 16));
        r.push(digit_of(b % 16));
        assert(hex(bytes@).take(2 * (i + 1)) =~= hex(bytes@).take(2 * i).push(
            hex_digit(b / 16),
        ).push(hex_digit(b % 16)));
        i += 1;
    }
    assert(hex(bytes@).take(2 * bytes@.len() as int) =~= hex(bytes@));
    r
}

/// Whether a text is among texts.
pub fn is_among(texts: &Vec<String>, text: &str) -> (r: bool)
    ensures
        r == texts.deep_view().contains(text@),
{
    let ghost view = texts.deep_view();
    let mut i: usize = 0;
    while i < texts.len()
        invariant
            i <= texts.len(),
            view == texts.deep_view(),
            forall|k: int| 0 <= k < i ==> #[trigger] view[k] != text@,
        decreases texts.len() - i,
    {
        assert(view[i as int] == texts@[i as int]@);
        if same(texts[i].as_str(), text) {
            return true;
        }
        i += 1;
    }
    false
}

/// Whether two texts agree up to a position at which the first is at its end and the other is not,
/// or at which the first has the smaller character.
pub open spec fn falls_behind_at(a: Seq<char>, b: Seq<char>, k: int) -> bool {
    &&& 0 <= k <= a.len()
    &&& k < b.len()
    &&& forall|i: int| 0 <= i < k ==> a[i] == #[trigger] b[i]
    &&& k == a.len() || a[k] < b[k]
}

/// A text comes before another exactly where they agree up to a position at which the first is at
/// its end and the other is not, or at which the first has the smaller character.
pub proof fn law_text_order(a: Seq<char>, b: Seq<char>)
    ensures
        precedes(a, b) <==> exists|k: int| falls_behind_at(a, b, k),
    decreases a.len(),
{
    if a.len() > 0 && b.len() > 0 && a[0] == b[0] {
        let rest = a.drop_first();
        let other = b.drop_first();
        law_text_order(rest, other);
        if precedes(rest, other) {
            let k = choose|k: int| falls_behind_at(rest, other, k);
            assert forall|i: int| 0 <= i < k + 1 implies a[i] == #[trigger] b[i] by {
                if i > 0 {
                    assert(rest[i - 1] == other[i - 1]);
                }
            }
            assert(falls_behind_at(a, b, k + 1));
        }
        if exists|k: int| falls_behind_at(a, b, k) {
            let k = choose|k: int| falls_behind_at(a, b, k);
            assert(k > 0);
            assert forall|i: int| 0 <= i < k - 1 implies rest[i] == #[trigger] other[i] by {
                assert(a[i + 1] == b[i + 1]);
            }
            assert(falls_behind_at(rest, other, k - 1));
        }
    } else {
        if precedes(a, b) {
            assert(falls_behind_at(a, b, 0));
        }
        if exists|k: int| falls_behind_at(a, b, k) {
            let k = choose|k: int| falls_behind_at(a, b, k);
            if k > 0 {
                assert(a[0] == b[0]);
            }
        }
    }
}

/// A trimmed text is what stands between the white space at the start and the white space at the
/// end: it neither begins nor ends with white space, and nothing but white space is left out.
pub proof fn law_trimmed(s: Seq<char>)
    ensures
        exists|from: int, to: int|
            {
                &&& 0 <= from <= to <= s.len()
                &&& trimmed(s) == #[trigger] s.subrange(from, to)
                &&& forall|i: int| 0 <= i < from ==> is_white_space(#[trigger] s[i])
                &&& forall|i: int| to <= i < s.len() ==> is_white_space(#[trigger] s[i])
                &&& from < to ==> !is_white_space(s[from]) && !is_white_space(s[to - 1])
            },
{
    lemma_trimmed_start(s);
    let from = choose|from: int|
        {
            &&& 0 <= from <= s.len()
            &&& trimmed_start(s) == #[trigger] s.skip(from)
            &&& forall|i: int| 0 <= i < from ==> is_white_space(#[trigger] s[i])
            &&& from < s.len() ==> !is_white_space(s[from])
        };
    let rest = s.skip(from);
    lemma_trimmed_end(rest);
    let n = choose|n: int|
        {
            &&& 0 <= n <= rest.len()
            &&& trimmed_end(rest) == #[trigger] rest.take(n)
            &&& forall|i: int| n <= i < rest.len() ==> is_white_space(#[trigger] rest[i])
            &&& n > 0 ==> !is_white_space(rest[n - 1])
        };
    assert(rest.take(n) =~= s.subrange(from, from + n));
    assert forall|i: int| from + n <= i < s.len() implies is_white_space(#[trigger] s[i]) by {
        assert(rest[i - from] == s[i]);
    }
    if n > 0 {
        assert(rest[n - 1] == s[from + n - 1]);
    }
}

proof fn lemma_trimmed_start(s: Seq<char>)
    ensures
        exists|from: int|
            {
                &&& 0 <= from <= s.len()
                &&& trimmed_start(s) == #[trigger] s.skip(from)
                &&& forall|i: int| 0 <= i < from ==> is_white_space(#[trigger] s[i])
                &&& from < s.len() ==> !is_white_space(s[from])
            },
    decreases s.len(),
{
    if s.len() > 0 && is_white_space(s[0]) {
        let rest = s.drop_first();
        lemma_trimmed_start(rest);
        let from = choose|from: int|
            {
                &&& 0 <= from <= rest.len()
                &&& trimmed_start(rest) == #[trigger] rest.skip(from)
                &&& forall|i: int| 0 <= i < from ==> is_white_space(#[trigger] rest[i])
                &&& from < rest.len() ==> !is_white_space(rest[from])
            };
        assert(rest.skip(from) =~= s.skip(from + 1));
        assert forall|i: int| 0 <= i < from + 1 implies is_white_space(#[trigger] s[i]) by {
            if i > 0 {
                assert(rest[i - 1] == s[i]);
            }
        }
    } else {
        assert(s.skip(0) =~= s);
    }
}

proof fn lemma_trimmed_end(s: Seq<char>)
    ensures
        exists|n: int|
            {
                &&& 0 <= n <= s.len()
                &&& trimmed_end(s) == #[trigger] s.take(n)
                &&& forall|i: int| n <= i < s.len() ==> is_white_space(#[trigger] s[i])
                &&& n > 0 ==> !is_white_space(s[n - 1])
            },
    decreases s.len(),
{
    if s.len() > 0 && is_white_space(s.last()) {
        let rest = s.drop_last();
        lemma_trimmed_end(rest);
        let n = choose|n: int|
            {
                &&& 0 <= n <= rest.len()
                &&& trimmed_end(rest) == #[trigger] rest.take(n)
                &&& forall|i: int| n <= i < rest.len() ==> is_white_space(#[trigger] rest[i])
                &&& n > 0 ==> !is_white_space(rest[n - 1])
            };
        assert(rest.take(n) =~= s.take(n));
        assert forall|i: int| n <= i < s.len() implies is_white_space(#[trigger] s[i]) by {
            if i < rest.len() {
                assert(rest[i] == s[i]);
            }
        }
    } else {
        assert(s.take(s.len() as int) =~= s);
    }
}

/// Blanks, tabs and the ends of lines are white space, and no visible character of ASCII is.
pub proof fn law_white_space(c: char)
    ensures
        c == ' ' || c == '\t' || c == '\n' || c == '\r' ==> is_white_space(c),
        '!' <= c <= '~' ==> !is_white_space(c),
{
}

/// The number that a hexadecimal digit of either case stands for; other characters stand for
/// none.
pub open spec fn digit_value(c: char) -> Option<int> {
    if '0' <= c <= '9' {
        Some(c as int - '0' as int)
    } else if 'a' <= c <= 'f' {
        Some(c as int - 'a' as int + 10)
    } else if 'A' <= c <= 'F' {
        Some(c as int - 'A' as int + 10)
    } else {
        None
    }
}

/// A text is the hexadecimal writing of bytes, in either case, exactly where it has two digits for
/// each byte that stand for its number.
pub proof fn law_hex(bytes: Seq<u8>, text: Seq<char>)
    ensures
        hex(bytes) == lowered(text) <==> {
            &&& text.len() == 2 * bytes.len()
            &&& forall|i: int|
                0 <= i < bytes.len() ==> {
                    &&& digit_value(text[2 * i]) == Some(#[trigger] bytes[i] as int / 16)
                    &&& digit_value(text[2 * i + 1]) == Some(bytes[i] as int % 16)
                }
        },
{
    assert forall|n: u8, c: char| n < 16 implies (#[trigger] hex_digit(n) == #[trigger] lower(c)
        <==> digit_value(c) == Some(n as int)) by {
        lemma_digit(n, c);
    }
    if hex(bytes) == lowered(text) {
        assert(hex(bytes).len() == text.len());
        assert forall|i: int| 0 <= i < bytes.len() implies {
            &&& digit_value(text[2 * i]) == Some(#[trigger] bytes[i] as int / 16)
            &&& digit_value(text[2 * i + 1]) == Some(bytes[i] as int % 16)
        } by {
            assert(hex(bytes)[2 * i] == lowered(text)[2 * i]);
            assert(hex(bytes)[2 * i + 1] == lowered(text)[2 * i + 1]);
            assert((2 * i) / 2 == i && (2 * i + 1) / 2 == i);
            assert(hex_digit(bytes[i] / 16) == lower(text[2 * i]));
            assert(hex_digit(bytes[i] % 16) == lower(text[2 * i + 1]));
        }
    }
    if text.len() == 2 * bytes.len() && forall|i: int|
        0 <= i < bytes.len() ==> {
            &&& digit_value(text[2 * i]) == Some(#[trigger] bytes[i] as int / 16)
            &&& digit_value(text[2 * i + 1]) == Some(bytes[i] as int % 16)
        } {
        assert forall|j: int| 0 <= j < text.len() implies hex(bytes)[j] == lowered(text)[j] by {
            let i = j / 2;
            assert(digit_value(text[2 * i]) == Some(bytes[i] as int / 16));
            if j % 2 == 0 {
                assert(j == 2 * i);
                assert(hex_digit(bytes[i] / 16) == lower(text[j]));
            } else {
                assert(j == 2 * i + 1);
                assert(hex_digit(bytes[i] % 16) == lower(text[j]));
            }
        }
        assert(hex(bytes) =~= lowered(text));
    }
}

proof fn lemma_digit(n: u8, c: char)
    requires
        n < 16,
    ensures
        hex_digit(n) == lower(c) <==> digit_value(c) == Some(n as int),
{
}

/// In lower case each of the letters from A to Z is the one 32 places behind it, and every other
/// character is itself.
pub proof fn law_lowered(s: Seq<char>)
    ensures
        lowered(s).len() == s.len(),
        forall|i: int|
            0 <= i < s.len() ==> {
                let is = #[trigger] lowered(s)[i];
                &&& 65 <= s[i] as int <= 90 ==> is as int == s[i] as int + 32
                &&& !(65 <= s[i] as int <= 90) ==> is == s[i]
            },
{
}

} // verus!
