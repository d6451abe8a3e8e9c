//! Text as sequences of characters: trimming, ordering, decimal numerals.

use vstd::prelude::*;

verus! {

broadcast use vstd::string::group_string_axioms;

/// `String::push`: appends one character at the end.
pub assume_specification[ std::string::String::push ](s: &mut std::string::String, c: char)
    ensures
        final(s)@ == old(s)@.push(c),
;

/// `String::pop`: removes the last character and returns it, or returns `None`
/// and leaves an empty string as it is.
pub assume_specification[ std::string::String::pop ](s: &mut std::string::String) -> (r: Option<char>)
    ensures
        old(s)@.len() == 0 ==> r is None && final(s)@ == old(s)@,
        old(s)@.len() > 0 ==> r == Some(old(s)@.last()) && final(s)@ == old(s)@.drop_last(),
;

// ── Equality and order ──────────────────────────────────────────────

/// The characters of `s`, in order.
pub fn chars_of(s: &str) -> (r: Vec<char>)
    ensures
        r@ == s@,
{
    let mut out: Vec<char> = Vec::new();
    for c in it: s.chars()
        invariant
            it.seq() == s@,
            out@ == it.seq().take(it.index()),
    {
        out.push(c);
    }
    out
}

/// `a` comes before `b` in dictionary order of their characters.
pub open spec fn text_lt(a: Seq<char>, b: Seq<char>) -> bool
    decreases a.len(),
{
    if b.len() == 0 {
        false
    } else if a.len() == 0 {
        true
    } else if a[0] != b[0] {
        (a[0] as int) < (b[0] as int)
    } else {
        text_lt(a.drop_first(), b.drop_first())
    }
}

/// No text comes before itself.
pub proof fn text_lt_irreflexive(a: Seq<char>)
    ensures
        !text_lt(a, a),
    decreases a.len(),
{
    if a.len() > 0 {
        text_lt_irreflexive(a.drop_first());
    }
}

/// Dictionary order is transitive.
pub proof fn text_lt_transitive(a: Seq<char>, b: Seq<char>, c: Seq<char>)
    requires
        text_lt(a, b),
        text_lt(b, c),
    ensures
        text_lt(a, c),
    decreases a.len(),
{
    if a.len() > 0 && a[0] == b[0] && b[0] == c[0] {
        text_lt_transitive(a.drop_first(), b.drop_first(), c.drop_first());
    }
}

/// Two texts neither of which comes before the other are equal.
pub proof fn text_lt_total(a: Seq<char>, b: Seq<char>)
    ensures
        text_lt(a, b) || text_lt(b, a) || a == b,
    decreases a.len(),
{
    if a.len() > 0 && b.len() > 0 && a[0] == b[0] {
        text_lt_total(a.drop_first(), b.drop_first());
        if a.drop_first() == b.drop_first() {
            assert(a =~= seq![a[0]] + a.drop_first());
            assert(b =~= seq![b[0]] + b.drop_first());
        }
    } else if a.len() == 0 && b.len() == 0 {
        assert(a =~= b);
    }
}

/// Whether two texts are the same.
pub fn text_eq(a: &str, b: &str) -> (r: bool)
    ensures
        r == (a@ == b@),
{
    let x = chars_of(a);
    let y = chars_of(b);
    if x.len() != y.len() {
        return false;
    }
    let mut i: usize = 0;
    while i < x.len()
        invariant
            i <= x.len(),
            x.len() == y.len(),
            x@ == a@,
            y@ == b@,
            x@.take(i as int) == y@.take(i as int),
        decreases x.len() - i,
    {
        if x[i] != y[i] {
            return false;
        }
        i += 1;
    }
    assert(x@ =~= x@.take(i as int));
    assert(y@ =~= y@.take(i as int));
    true
}

/// Whether `a` comes before `b` in dictionary order.
pub fn text_before(a: &str, b: &str) -> (r: bool)
    ensures
        r == text_lt(a@, b@),
{
    let x = chars_of(a);
    let y = chars_of(b);
    let mut i: usize = 0;
    assert(x@.skip(0) =~= x@);
    assert(y@.skip(0) =~= y@);
    while i < x.len() && i < y.len()
        invariant
            i <= x.len(),
            i <= y.len(),
            x@ == a@,
            y@ == b@,
            text_lt(x@, y@) == text_lt(x@.skip(i as int), y@.skip(i as int)),
        decreases x.len() - i,
    {
        if x[i] != y[i] {
            return x[i] < y[i];
        }
        assert(x@.skip(i as int).drop_first() =~= x@.skip(i + 1));
        assert(y@.skip(i as int).drop_first() =~= y@.skip(i + 1));
        i += 1;
    }
    i < y.len()
}

// ── White space ─────────────────────────────────────────────────────

/// The characters with the Unicode `White_Space` property.
pub open spec fn white_space(c: char) -> bool {
    ||| '\u{9}' <= c <= '\u{d}'
    ||| c == '\u{20}'
    ||| c == '\u{85}'
    ||| c == '\u{a0}'
    ||| c == '\u{1680}'
    ||| '\u{2000}' <= c <= '\u{200a}'
    ||| c == '\u{2028}'
    ||| c == '\u{2029}'
    ||| c == '\u{202f}'
    ||| c == '\u{205f}'
    ||| c == '\u{3000}'
}

/// Whether `c` is white space.
pub fn is_white_space(c: char) -> (r: bool)
    ensures
        r == white_space(c),
{
    ('\u{9}' <= c && c <= '\u{d}') || c == '\u{20}' || c == '\u{85}' || c == '\u{a0}' || c
        == '\u{1680}' || ('\u{2000}' <= c && c <= '\u{200a}') || c == '\u{2028}' || c == '\u{2029}'
        || c == '\u{202f}' || c == '\u{205f}' || c == '\u{3000}'
}

/// `s` without its leading white space.
pub open spec fn trim_front(s: Seq<char>) -> Seq<char>
    decreases s.len(),
{
    if s.len() > 0 && white_space(s[0]) {
        trim_front(s.drop_first())
    } else {
        s
    }
}

/// `s` without its trailing white space.
pub open spec fn trim_back(s: Seq<char>) -> Seq<char>
    decreases s.len(),
{
    if s.len() > 0 && white_space(s.last()) {
        trim_back(s.drop_last())
    } else {
        s
    }
}

/// `s` without the white space at either end.
pub open spec fn trimmed(s: Seq<char>) -> Seq<char> {
    trim_back(trim_front(s))
}

proof fn trim_back_keeps_front(s: Seq<char>)
    requires
        s.len() == 0 || !white_space(s[0]),
    ensures
        trim_back(s).len() == 0 || trim_back(s)[0] == s[0],
        trim_back(s).len() <= s.len(),
        s.len() > 0 ==> trim_back(s).len() > 0,
        trim_back(trim_back(s)) == trim_back(s),
    decreases s.len(),
{
    if s.len() > 0 && white_space(s.last()) {
        trim_back_keeps_front(s.drop_last());
    }
}

proof fn trim_front_clean(s: Seq<char>)
    ensures
        trim_front(s).len() == 0 || !white_space(trim_front(s)[0]),
    decreases s.len(),
{
    if s.len() > 0 && white_space(s[0]) {
        trim_front_clean(s.drop_first());
    }
}

/// Trimming a trimmed text changes nothing.
pub proof fn trimmed_idempotent(s: Seq<char>)
    ensures
        trimmed(trimmed(s)) == trimmed(s),
        trimmed(s).len() > 0 ==> !white_space(trimmed(s)[0]),
{
    trim_front_clean(s);
    trim_back_keeps_front(trim_front(s));
}

/// `s` without the white space at either end.
pub fn trim(s: &str) -> (r: &str)
    ensures
        r@ == trimmed(s@),
{
    let chars = chars_of(s);
    let mut from: usize = 0;
    assert(chars@.skip(0) =~= chars@);
    while from < chars.len() && is_white_space(chars[from])
        invariant
            from <= chars.len(),
            chars@ == s@,
            trim_front(s@) == trim_front(chars@.skip(from as int)),
        decreases chars.len() - from,
    {
        assert(chars@.skip(from as int).drop_first() =~= chars@.skip(from + 1));
        from += 1;
    }
    let ghost front = chars@.skip(from as int);
    assert(trim_front(s@) == front);
    let mut to: usize = chars.len();
    assert(chars@.subrange(from as int, to as int) =~= front);
    while to > from && is_white_space(chars[to - 1])
        invariant
            from <= to <= chars.len(),
            chars@ == s@,
            trim_back(front) == trim_back(chars@.subrange(from as int, to as int)),
        decreases to - from,
    {
        assert(chars@.subrange(from as int, to as int).drop_last() =~= chars@.subrange(
            from as int,
            to - 1,
        ));
        to -= 1;
    }
    s.substring_char(from, to)
}

// ── Numerals ────────────────────────────────────────────────────────

/// The decimal digit for `d`.
pub open spec fn digit(d: nat) -> char
    recommends
        d < 10,
{
    if d == 0 {
        '0'
    } else if d == 1 {
        '1'
    } else if d == 2 {
        '2'
    } else if d == 3 {
        '3'
    } else if d == 4 {
        '4'
    } else if d == 5 {
        '5'
    } else if d == 6 {
        '6'
    } else if d == 7 {
        '7'
    } else if d == 8 {
        '8'
    } else {
        '9'
    }
}

/// The decimal numeral for `n`, without leading zeros.
pub open spec fn numeral(n: nat) -> Seq<char>
    decreases n,
{
    if n < 10 {
        seq![digit(n)]
    } else {
        numeral(n / 10).push(digit(n % 10))
    }
}

/// Different numbers have different numerals.
pub proof fn numeral_injective(a: nat, b: nat)
    ensures
        numeral(a) == numeral(b) ==> a == b,
        numeral(a).len() > 0,
    decreases a,
{
    let x = numeral(a);
    let y = numeral(b);
    if a >= 10 {
        numeral_injective(a / 10, b / 10);
    }
    if b >= 10 {
        assert(y.len() > 1) by {
            numeral_nonempty(b / 10);
        }
    }
    if x == y {
        if a >= 10 && b >= 10 {
            assert(x.drop_last() =~= numeral(a / 10));
            assert(y.drop_last() =~= numeral(b / 10));
            assert(x.last() == y.last());
        } else if a < 10 && b < 10 {
            assert(x[0] == y[0]);
        } else if a >= 10 {
            assert(x.len() > 1);
        }
    }
}

/// A numeral has a digit.
pub proof fn numeral_nonempty(a: nat)
    ensures
        numeral(a).len() > 0,
    decreases a,
{
    if a >= 10 {
        numeral_nonempty(a / 10);
    }
}

/// The decimal digit for `d`.
pub fn digit_of(d: u64) -> (r: char)
    requires
        d < 10,
    ensures
        r == digit(d as nat),
{
    if d == 0 {
        '0'
    } else if d == 1 {
        '1'
    } else if d == 2 {
        '2'
    } else if d == 3 {
        '3'
    } else if d == 4 {
        '4'
    } else if d == 5 {
        '5'
    } else if d == 6 {
        '6'
    } else if d == 7 {
        '7'
    } else if d == 8 {
        '8'
    } else {
        '9'
    }
}

/// Writes `n` in decimal.
pub fn decimal(n: u64) -> (r: String)
    ensures
        r@ == numeral(n as nat),
    decreases n,
{
    if n < 10 {
        let mut out = String::new();
        out.push(digit_of(n));
        assert(out@ =~= seq![digit(n as nat)]);
        out
    } else {
        let mut out = decimal(n / 10);
        out.push(digit_of(n % 10));
        out
    }
}

/// The digit that `c` stands for.
pub open spec fn digit_value(c: char) -> Option<nat> {
    if '0' <= c <= '9' {
        Some((c as nat - '0' as nat) as nat)
    } else {
        None
    }
}

/// The number that a run of decimal digits stands for; `None` where some
/// character is no digit.
pub open spec fn digits_value(s: Seq<char>) -> Option<nat>
    decreases s.len(),
{
    if s.len() == 0 {
        Some(0)
    } else {
        match (digits_value(s.drop_last()), digit_value(s.last())) {
            (Some(n), Some(d)) => Some(n * 10 + d),
            _ => None,
        }
    }
}

/// `s` without one leading `+`.
pub open spec fn unsigned_part(s: Seq<char>) -> Seq<char> {
    if s.len() > 0 && s[0] == '+' {
        s.drop_first()
    } else {
        s
    }
}

/// What `s` says as an unsigned number no larger than `max`: an optional `+`
/// and at least one digit.
pub open spec fn parsed_unsigned(s: Seq<char>, max: nat) -> Option<nat> {
    let body = unsigned_part(s);
    if body.len() == 0 {
        None
    } else {
        match digits_value(body) {
            Some(n) => if n <= max {
                Some(n)
            } else {
                None
            },
            None => None,
        }
    }
}

proof fn digits_value_prefix(s: Seq<char>, k: int)
    requires
        0 <= k <= s.len(),
        digits_value(s) is Some,
    ensures
        digits_value(s.take(k)) is Some,
        digits_value(s.take(k))->0 <= digits_value(s)->0,
    decreases s.len() - k,
{
    if k == s.len() {
        assert(s.take(k) =~= s);
    } else {
        assert(s.take(k + 1).drop_last() =~= s.take(k));
        digits_value_prefix(s, k + 1);
    }
}

/// Reads an unsigned number no larger than `max`.
pub fn parse_unsigned(s: &str, max: u64) -> (r: Option<u64>)
    ensures
        match r {
            Some(n) => parsed_unsigned(s@, max as nat) == Some(n as nat),
            None => parsed_unsigned(s@, max as nat) is None,
        },
{
    let chars = chars_of(s);
    let start: usize = if chars.len() > 0 && chars[0] == '+' {
        1
    } else {
        0
    };
    let ghost body = unsigned_part(s@);
    assert(chars@.skip(start as int) =~= body);
    if start == chars.len() {
        return None;
    }
    let mut n: u64 = 0;
    let mut i: usize = start;
    while i < chars.len()
        invariant
            start <= i <= chars.len(),
            start < chars.len(),
            chars@ == s@,
            n <= max,
            body == unsigned_part(s@),
            chars@.skip(start as int) == body,
            body.len() == chars.len() - start,
            digits_value(body.take(i - start)) == Some(n as nat),
        decreases chars.len() - i,
    {
        let c = chars[i];
        assert(body[i - start] == c);
        assert(body.take(i - start + 1).drop_last() =~= body.take(i - start));
        if !('0' <= c && c <= '9') {
            proof {
                if digits_value(body) is Some {
                    digits_value_prefix(body, i - start + 1);
                }
            }
            return None;
        }
        let d: u64 = c as u64 - '0' as u64;
        if n > max / 10 || (n == max / 10 && d > max % 10) {
            proof {
                assert(n * 10 + d > max);
                if digits_value(body) is Some {
                    digits_value_prefix(body, i - start + 1);
                }
            }
            return None;
        }
        n = n * 10 + d;
        i += 1;
    }
    assert(body.take(body.len() as int) =~= body);
    Some(n)
}

// ── Lists ───────────────────────────────────────────────────────────

/// The views of a sequence's items.
pub open spec fn views<T: View>(s: Seq<T>) -> Seq<T::V> {
    Seq::new(s.len(), |i: int| s[i]@)
}

/// Where `item` first stands in `items`, or `items.len()`.
pub open spec fn first_index<T>(items: Seq<T>, item: T) -> int
    decreases items.len(),
{
    if items.len() == 0 || items[0] == item {
        0
    } else {
        1 + first_index(items.drop_first(), item)
    }
}

/// What `first_index` finds, stated by position.
pub proof fn first_index_at<T>(items: Seq<T>, item: T, k: int)
    requires
        0 <= k <= items.len(),
        forall|i: int| 0 <= i < k ==> items[i] != item,
        k < items.len() ==> items[k] == item,
    ensures
        first_index(items, item) == k,
        items.contains(item) <==> k < items.len(),
    decreases items.len(),
{
    if items.len() > 0 && items[0] != item {
        assert forall|i: int| 0 <= i < k - 1 implies items.drop_first()[i] != item by {
            assert(items[i + 1] != item);
        }
        first_index_at(items.drop_first(), item, k - 1);
    }
    if k < items.len() {
        assert(items.contains(items[k]));
    }
}

/// A first place is no later than any other, and holds the item.
pub proof fn first_index_finds<T>(items: Seq<T>, item: T, k: int)
    requires
        0 <= k < items.len(),
        items[k] == item,
    ensures
        0 <= first_index(items, item) <= k,
        items[first_index(items, item)] == item,
    decreases items.len(),
{
    if items[0] != item {
        assert(items.drop_first()[k - 1] == item);
        first_index_finds(items.drop_first(), item, k - 1);
    }
}

/// The position of `s` in `items`, or `None`.
pub fn position(items: &Vec<String>, s: &str) -> (r: Option<usize>)
    ensures
        match r {
            Some(k) => k < items.len() && first_index(views(items@), s@) == k && views(
                items@,
            ).contains(s@),
            None => !views(items@).contains(s@) && first_index(views(items@), s@) == items.len(),
        },
{
    let ghost vs = views(items@);
    let mut i: usize = 0;
    while i < items.len()
        invariant
            i <= items.len(),
            vs == views(items@),
            forall|j: int| 0 <= j < i ==> vs[j] != s@,
        decreases items.len() - i,
    {
        if text_eq(items[i].as_str(), s) {
            proof {
                first_index_at(vs, s@, i as int);
            }
            return Some(i);
        }
        i += 1;
    }
    proof {
        first_index_at(vs, s@, i as int);
    }
    None
}

/// Whether `s` stands in `items`.
pub fn contains_text(items: &Vec<String>, s: &str) -> (r: bool)
    ensures
        r == views(items@).contains(s@),
{
    position(items, s).is_some()
}

/// A copy of a list of strings.
pub fn copy_texts(items: &Vec<String>) -> (r: Vec<String>)
    ensures
        views(r@) == views(items@),
        r@ == items@,
{
    let mut out: Vec<String> = Vec::new();
    let mut i: usize = 0;
    while i < items.len()
        invariant
            i <= items.len(),
            out@ == items@.take(i as int),
        decreases items.len() - i,
    {
        out.push(items[i].clone());
        i += 1;
    }
    assert(out@ =~= items@);
    out
}

/// `parts` in order, with `sep` between each two.
pub open spec fn joined(parts: Seq<Seq<char>>, sep: Seq<char>) -> Seq<char>
    decreases parts.len(),
{
    if parts.len() == 0 {
        Seq::empty()
    } else if parts.len() == 1 {
        parts[0]
    } else {
        joined(parts.drop_last(), sep) + sep + parts.last()
    }
}

/// Joins `parts` with `sep` between each two.
pub fn join(parts: &Vec<String>, sep: &str) -> (r: String)
    ensures
        r@ == joined(views(parts@), sep@),
{
    let mut out = String::new();
    let mut i: usize = 0;
    while i < parts.len()
        invariant
            i <= parts.len(),
            out@ == joined(views(parts@).take(i as int), sep@),
        decreases parts.len() - i,
    {
        let ghost next = views(parts@).take(i + 1);
        assert(next.drop_last() =~= views(parts@).take(i as int));
        if i > 0 {
            out.append(sep);
        }
        out.append(parts[i].as_str());
        proof {
            if i == 0 {
                assert(out@ =~= parts@[0]@);
            }
        }
        i += 1;
    }
    assert(views(parts@).take(i as int) =~= views(parts@));
    out
}

// ── Cutting ─────────────────────────────────────────────────────────

/// The first `width` characters of `s`, or all of them.
pub open spec fn clipped(s: Seq<char>, width: nat) -> Seq<char> {
    if s.len() <= width {
        s
    } else {
        s.take(width as int)
    }
}

/// The first `width` characters of `text`.
pub fn clip(text: &str, width: usize) -> (r: String)
    ensures
        r@ == clipped(text@, width as nat),
{
    let len: usize = text.unicode_len();
    if len <= width {
        text.to_owned()
    } else {
        let cut = text.substring_char(0, width);
        assert(text@.subrange(0, width as int) =~= text@.take(width as int));
        cut.to_owned()
    }
}

/// `s` cut to `max` characters, the cut marked with an ellipsis.
pub open spec fn truncated(s: Seq<char>, max: nat) -> Seq<char> {
    if s.len() <= max {
        s
    } else {
        s.take(max as int).push('…')
    }
}

/// Cuts `text` to `max` characters and marks the cut.
pub fn truncate(text: &str, max: usize) -> (r: String)
    ensures
        r@ == truncated(text@, max as nat),
{
    if text.unicode_len() <= max {
        return text.to_owned();
    }
    let mut out = clip(text, max);
    out.push('…');
    out
}

/// `n` spaces.
pub open spec fn spaces(n: nat) -> Seq<char> {
    Seq::new(n, |i: int| ' ')
}

/// `s` clipped and padded to `width` characters, with one space after it.
pub open spec fn padded(s: Seq<char>, width: nat) -> Seq<char> {
    let cut = clipped(s, width);
    cut + spaces((width - cut.len()) as nat) + seq![' ']
}

/// Pads (or clips) to exactly `width` cells plus one separating space.
pub fn pad(text: &str, width: usize) -> (r: String)
    ensures
        r@ == padded(text@, width as nat),
        r@.len() == width + 1,
{
    let mut out = clip(text, width);
    let ghost cut = out@;
    let mut len: usize = out.as_str().unicode_len();
    while len < width
        invariant
            cut.len() <= len <= width,
            out@ == cut + spaces((len - cut.len()) as nat),
        decreases width - len,
    {
        out.push(' ');
        len += 1;
        assert(out@ =~= cut + spaces((len - cut.len()) as nat));
    }
    out.push(' ');
    assert(out@ =~= padded(text@, width as nat));
    out
}

// ── Searching ───────────────────────────────────────────────────────

/// Where `c` or `d` first stands in `s`, or `s.len()`.
pub open spec fn first_of(s: Seq<char>, c: char, d: char) -> int
    decreases s.len(),
{
    if s.len() == 0 || s[0] == c || s[0] == d {
        0
    } else {
        1 + first_of(s.drop_first(), c, d)
    }
}

/// A first place is a place, or the end.
pub proof fn first_of_bounds(s: Seq<char>, c: char, d: char)
    ensures
        0 <= first_of(s, c, d) <= s.len(),
    decreases s.len(),
{
    if s.len() > 0 {
        first_of_bounds(s.drop_first(), c, d);
    }
}

/// Where the first of two characters stands.
pub proof fn first_of_at(s: Seq<char>, c: char, d: char, k: int)
    requires
        0 <= k <= s.len(),
        forall|i: int| 0 <= i < k ==> s[i] != c && s[i] != d,
        k < s.len() ==> s[k] == c || s[k] == d,
    ensures
        first_of(s, c, d) == k,
    decreases s.len(),
{
    if s.len() > 0 && k > 0 {
        assert forall|i: int| 0 <= i < k - 1 implies s.drop_first()[i] != c && s.drop_first()[i]
            != d by {
            assert(s[i + 1] != c);
        }
        first_of_at(s.drop_first(), c, d, k - 1);
    }
}

/// The position of the first `c` or `d` in `s`, or the length of `s`.
pub fn find_of(s: &Vec<char>, c: char, d: char) -> (k: usize)
    ensures
        k <= s.len(),
        k == first_of(s@, c, d),
{
    let mut i: usize = 0;
    while i < s.len() && s[i] != c && s[i] != d
        invariant
            i <= s.len(),
            forall|j: int| 0 <= j < i ==> s@[j] != c && s@[j] != d,
        decreases s.len() - i,
    {
        i += 1;
    }
    proof {
        first_of_at(s@, c, d, i as int);
    }
    i
}

// ── Quoting ─────────────────────────────────────────────────────────

/// A text as Rust's `{:?}` writes it: in double quotes, escaped.
pub uninterp spec fn quoted(s: Seq<char>) -> Seq<char>;

/// A character as Rust's `{:?}` writes it: in single quotes, escaped.
pub uninterp spec fn quoted_char(c: char) -> Seq<char>;

/// `std`'s `Debug` formatting of a `str`: the text depends on the characters alone.
#[verifier::external_body]
pub(crate) fn quote(s: &str) -> (r: String)
    ensures
        r@ == quoted(s@),
{
    format!("{s:?}")
}

/// `std`'s `Debug` formatting of a `char`: the text depends on the character alone.
#[verifier::external_body]
pub(crate) fn quote_char(c: char) -> (r: String)
    ensures
        r@ == quoted_char(c),
{
    format!("{c:?}")
}

/// The number of bytes of `s` in UTF-8.
pub open spec fn byte_len(s: Seq<char>) -> usize {
    vstd::utf8::encode_utf8(s).len() as usize
}

/// The control characters, Unicode category `Cc`.
pub open spec fn control(c: char) -> bool {
    c <= '\u{1f}' || '\u{7f}' <= c <= '\u{9f}'
}

/// Whether `c` is a control character.
pub fn is_control(c: char) -> (r: bool)
    ensures
        r == control(c),
{
    c <= '\u{1f}' || ('\u{7f}' <= c && c <= '\u{9f}')
}

/// An ASCII letter or digit, `-` or `_`.
pub open spec fn slug_char(c: char) -> bool {
    ||| 'a' <= c <= 'z'
    ||| 'A' <= c <= 'Z'
    ||| '0' <= c <= '9'
    ||| c == '-'
    ||| c == '_'
}

/// Whether `c` is an ASCII letter or digit, `-` or `_`.
pub fn is_slug_char(c: char) -> (r: bool)
    ensures
        r == slug_char(c),
{
    ('a' <= c && c <= 'z') || ('A' <= c && c <= 'Z') || ('0' <= c && c <= '9') || c == '-' || c
        == '_'
}

/// The first control character of `s`.
pub open spec fn first_control(s: Seq<char>) -> Option<char>
    decreases s.len(),
{
    if s.len() == 0 {
        None
    } else if control(s[0]) {
        Some(s[0])
    } else {
        first_control(s.drop_first())
    }
}

/// The first character of `s` that is no slug character.
pub open spec fn first_unsluggable(s: Seq<char>) -> Option<char>
    decreases s.len(),
{
    if s.len() == 0 {
        None
    } else if !slug_char(s[0]) {
        Some(s[0])
    } else {
        first_unsluggable(s.drop_first())
    }
}

/// `first_unsluggable` finds nothing exactly where every character is a slug
/// character.
pub proof fn sluggable_everywhere(s: Seq<char>)
    ensures
        first_unsluggable(s) is None <==> forall|i: int| 0 <= i < s.len() ==> slug_char(#[trigger] s[i]),
    decreases s.len(),
{
    if s.len() > 0 {
        sluggable_everywhere(s.drop_first());
        if first_unsluggable(s) is None {
            assert forall|i: int| 0 <= i < s.len() implies slug_char(#[trigger] s[i]) by {
                if i > 0 {
                    assert(slug_char(s.drop_first()[i - 1]));
                }
            }
        }
        if forall|i: int| 0 <= i < s.len() ==> slug_char(#[trigger] s[i]) {
            assert forall|i: int| 0 <= i < s.drop_first().len() implies slug_char(
                #[trigger] s.drop_first()[i],
            ) by {
                assert(slug_char(s[i + 1]));
            }
            assert(slug_char(s[0]));
        }
    }
}

/// Finds the first control character.
pub fn find_control(s: &str) -> (r: Option<char>)
    ensures
        r == first_control(s@),
{
    let chars = chars_of(s);
    let mut i: usize = 0;
    assert(chars@.skip(0) =~= chars@);
    while i < chars.len()
        invariant
            i <= chars.len(),
            chars@ == s@,
            first_control(s@) == first_control(chars@.skip(i as int)),
        decreases chars.len() - i,
    {
        if is_control(chars[i]) {
            return Some(chars[i]);
        }
        assert(chars@.skip(i as int).drop_first() =~= chars@.skip(i + 1));
        i += 1;
    }
    None
}

/// Finds the first character that is no slug character.
pub fn find_unsluggable(s: &str) -> (r: Option<char>)
    ensures
        r == first_unsluggable(s@),
{
    let chars = chars_of(s);
    let mut i: usize = 0;
    assert(chars@.skip(0) =~= chars@);
    while i < chars.len()
        invariant
            i <= chars.len(),
            chars@ == s@,
            first_unsluggable(s@) == first_unsluggable(chars@.skip(i as int)),
        decreases chars.len() - i,
    {
        if !is_slug_char(chars[i]) {
            return Some(chars[i]);
        }
        assert(chars@.skip(i as int).drop_first() =~= chars@.skip(i + 1));
        i += 1;
    }
    None
}

/// A text is free of control characters exactly where none of its characters is one.
pub proof fn control_free_everywhere(s: Seq<char>)
    ensures
        first_control(s) is None <==> forall|i: int| 0 <= i < s.len() ==> !control(#[trigger] s[i]),
        first_control(s) matches Some(c) ==> control(c) && s.contains(c),
    decreases s.len(),
{
    if s.len() > 0 {
        let rest = s.drop_first();
        control_free_everywhere(rest);
        assert forall|i: int| 0 <= i < rest.len() implies #[trigger] rest[i] == s[i + 1] by {}
        if control(s[0]) {
            assert(s.contains(s[0]));
        } else if first_control(rest) is Some {
            let c = first_control(rest)->0;
            let k = choose|k: int| 0 <= k < rest.len() && rest[k] == c;
            assert(s[k + 1] == c);
        } else {
            assert forall|i: int| 0 <= i < s.len() implies !control(#[trigger] s[i]) by {
                if i > 0 {
                    assert(!control(rest[i - 1]));
                }
            }
        }
    }
}

// ── Laws ────────────────────────────────────────────────────────────

/// The order of two texts is that of the first characters in which they differ, and a text
/// comes before every longer one that begins with it.
pub proof fn the_first_difference_decides(a: Seq<char>, b: Seq<char>, k: int)
    requires
        0 <= k < b.len(),
        k <= a.len(),
        a.take(k) == b.take(k),
        k < a.len() ==> (a[k] as int) < (b[k] as int),
    ensures
        text_lt(a, b),
        !text_lt(b, a),
    decreases k,
{
    if k > 0 {
        assert(a.take(k)[0] == a[0] && b.take(k)[0] == b[0]);
        assert(a.drop_first().take(k - 1) =~= a.take(k).drop_first());
        assert(b.drop_first().take(k - 1) =~= b.take(k).drop_first());
        the_first_difference_decides(a.drop_first(), b.drop_first(), k - 1);
    }
}

proof fn front_taken_off(s: Seq<char>) -> (i: int)
    ensures
        0 <= i <= s.len(),
        trim_front(s) == s.skip(i),
        forall|k: int| 0 <= k < i ==> white_space(#[trigger] s[k]),
        i < s.len() ==> !white_space(s[i]),
    decreases s.len(),
{
    if s.len() > 0 && white_space(s[0]) {
        let rest = s.drop_first();
        let i = front_taken_off(rest);
        assert(rest.skip(i) =~= s.skip(i + 1));
        assert forall|k: int| 0 <= k < i + 1 implies white_space(#[trigger] s[k]) by {
            if k > 0 {
                assert(white_space(rest[k - 1]));
            }
        }
        if i < rest.len() {
            assert(rest[i] == s[i + 1]);
        }
        i + 1
    } else {
        assert(s.skip(0) =~= s);
        0
    }
}

proof fn back_taken_off(s: Seq<char>) -> (j: int)
    ensures
        0 <= j <= s.len(),
        trim_back(s) == s.take(j),
        forall|k: int| j <= k < s.len() ==> white_space(#[trigger] s[k]),
        j > 0 ==> !white_space(s[j - 1]),
    decreases s.len(),
{
    if s.len() > 0 && white_space(s.last()) {
        let rest = s.drop_last();
        let j = back_taken_off(rest);
        assert(rest.take(j) =~= s.take(j));
        assert forall|k: int| j <= k < s.len() implies white_space(#[trigger] s[k]) by {
            if k < rest.len() {
                assert(white_space(rest[k]));
            }
        }
        if j > 0 {
            assert(rest[j - 1] == s[j - 1]);
        }
        j
    } else {
        assert(s.take(s.len() as int) =~= s);
        s.len() as int
    }
}

/// A trimmed text is one stretch of the text, from `r.0` up to `r.1`: everything before and
/// after it is white space, and it neither begins nor ends with white space.
pub proof fn what_trimming_takes_off(s: Seq<char>) -> (r: (int, int))
    ensures
        0 <= r.0 <= r.1 <= s.len(),
        trimmed(s) == s.subrange(r.0, r.1),
        forall|k: int| 0 <= k < r.0 ==> white_space(#[trigger] s[k]),
        forall|k: int| r.1 <= k < s.len() ==> white_space(#[trigger] s[k]),
        r.0 < r.1 ==> !white_space(s[r.0]) && !white_space(s[r.1 - 1]),
        trimmed(s).len() == 0 <==> forall|k: int|
            0 <= k < s.len() ==> white_space(#[trigger] s[k]),
{
    let i = front_taken_off(s);
    let front = s.skip(i);
    let j = back_taken_off(front);
    assert(front.take(j) =~= s.subrange(i, i + j));
    assert forall|k: int| i + j <= k < s.len() implies white_space(#[trigger] s[k]) by {
        assert(white_space(front[k - i]));
    }
    if j > 0 {
        assert(front[j - 1] == s[i + j - 1]);
        assert(front[0] == s[i]);
    } else if i < s.len() {
        assert(white_space(front[0]));
    }
    (i, i + j)
}

/// A text that neither begins nor ends with white space is kept whole, and white space
/// around it makes no difference.
pub proof fn trimming_ignores_what_surrounds(before: Seq<char>, s: Seq<char>, after: Seq<char>)
    requires
        s.len() > 0,
        !white_space(s[0]),
        !white_space(s.last()),
        forall|k: int| 0 <= k < before.len() ==> white_space(#[trigger] before[k]),
        forall|k: int| 0 <= k < after.len() ==> white_space(#[trigger] after[k]),
    ensures
        trimmed(before + s + after) == s,
{
    let whole = before + s + after;
    let r = what_trimming_takes_off(whole);
    let at = before.len() as int;
    assert(whole[at] == s[0]);
    assert(whole[at + s.len() - 1] == s.last());
    if r.0 == r.1 {
        assert(white_space(whole[at]));
    }
    if r.0 < at {
        assert(whole[r.0] == before[r.0]);
    }
    if r.1 > at + s.len() {
        assert(whole[r.1 - 1] == after[r.1 - 1 - at - s.len()]);
    }
    assert(r.0 == at && r.1 == at + s.len());
    assert(whole.subrange(r.0, r.1) =~= s);
}

/// A numeral reads back as the number it was written for, and begins with a nought only
/// where it is nought.
pub proof fn numerals_read_back(n: nat, max: nat)
    ensures
        digits_value(numeral(n)) == Some(n),
        n > 0 ==> numeral(n)[0] != '0',
        parsed_unsigned(numeral(n), max) == if n <= max {
            Some(n)
        } else {
            None
        },
        parsed_unsigned(seq!['+'] + numeral(n), max) == parsed_unsigned(numeral(n), max),
    decreases n,
{
    numeral_nonempty(n);
    if n < 10 {
        assert(numeral(n).drop_last() =~= Seq::<char>::empty());
        assert(digits_value(Seq::<char>::empty()) == Some(0nat));
    } else {
        numerals_read_back(n / 10, max);
        assert(numeral(n).drop_last() =~= numeral(n / 10));
    }
    digits_only(numeral(n));
    assert((seq!['+'] + numeral(n)).drop_first() =~= numeral(n));
}

/// A numeral is made of digits, at least one.
pub proof fn numerals_are_digits(n: nat)
    ensures
        numeral(n).len() > 0,
        forall|i: int| 0 <= i < numeral(n).len() ==> '0' <= #[trigger] numeral(n)[i] <= '9',
{
    numeral_nonempty(n);
    numerals_read_back(n, 0);
    digits_only(numeral(n));
}

proof fn digits_only(s: Seq<char>)
    requires
        digits_value(s) is Some,
    ensures
        forall|i: int| 0 <= i < s.len() ==> '0' <= #[trigger] s[i] <= '9',
    decreases s.len(),
{
    if s.len() > 0 {
        digits_only(s.drop_last());
        assert forall|i: int| 0 <= i < s.len() implies '0' <= #[trigger] s[i] <= '9' by {
            if i < s.len() - 1 {
                assert(s.drop_last()[i] == s[i]);
            }
        }
    }
}

/// Only digits make a number: a text with any other character, but for one leading plus
/// sign, is none, and neither is an empty one.
pub proof fn only_digits_make_a_number(s: Seq<char>, max: nat, i: int)
    ensures
        0 <= i < s.len() && !('0' <= s[i] <= '9') && !(i == 0 && s[0] == '+') ==> parsed_unsigned(
            s,
            max,
        ) is None,
        s.len() == 0 ==> parsed_unsigned(s, max) is None,
        parsed_unsigned(s, max) matches Some(n) ==> n <= max,
{
    let body = unsigned_part(s);
    if digits_value(body) is Some {
        digits_only(body);
        if 0 <= i < s.len() && !('0' <= s[i] <= '9') && !(i == 0 && s[0] == '+') {
            if s[0] == '+' {
                assert(body[i - 1] == s[i]);
            } else {
                assert(body[i] == s[i]);
            }
        }
    }
}

/// Joining one more part adds the separator and the part, and nothing before the first.
pub proof fn joining_adds_at_the_end(parts: Seq<Seq<char>>, sep: Seq<char>, part: Seq<char>)
    ensures
        joined(parts.push(part), sep) == if parts.len() == 0 {
            part
        } else {
            joined(parts, sep) + sep + part
        },
        parts.len() == 0 ==> joined(parts, sep).len() == 0,
{
    assert(parts.push(part).drop_last() =~= parts);
}

/// A clipped text is the beginning of the text, a truncated one marks that something is
/// missing, and a padded one has the same width whatever it holds: short texts are kept
/// whole by all three.
pub proof fn cuts_keep_the_beginning(s: Seq<char>, width: nat, i: int)
    requires
        0 <= i < s.len(),
        i < width,
    ensures
        clipped(s, width)[i] == s[i] && truncated(s, width)[i] == s[i] && padded(s, width)[i]
            == s[i],
        s.len() <= width ==> clipped(s, width) == s && truncated(s, width) == s,
        s.len() > width ==> clipped(s, width).len() == width && truncated(s, width).len() == width
            + 1 && truncated(s, width).last() == '…',
        padded(s, width).len() == width + 1,
        padded(s, width).last() == ' ',
        forall|k: int| s.len() <= k < width ==> #[trigger] padded(s, width)[k] == ' ',
{
}

/// The first place of a character is one: none stands before it.
pub proof fn nothing_stands_before_the_first(s: Seq<char>, c: char, d: char)
    ensures
        ({
            let at = first_of(s, c, d);
            &&& 0 <= at <= s.len()
            &&& forall|i: int| 0 <= i < at ==> #[trigger] s[i] != c && s[i] != d
            &&& at < s.len() ==> s[at] == c || s[at] == d
        }),
    decreases s.len(),
{
    if s.len() > 0 && s[0] != c && s[0] != d {
        let rest = s.drop_first();
        nothing_stands_before_the_first(rest, c, d);
        let at = first_of(rest, c, d);
        assert forall|i: int| 0 <= i < at + 1 implies #[trigger] s[i] != c && s[i] != d by {
            if i > 0 {
                assert(rest[i - 1] == s[i]);
            }
        }
    }
}

/// Each part stands whole in the joined text, from `at` on.
pub proof fn joined_holds_each(parts: Seq<Seq<char>>, sep: Seq<char>, i: int) -> (at: int)
    requires
        0 <= i < parts.len(),
    ensures
        0 <= at,
        at + parts[i].len() <= joined(parts, sep).len(),
        joined(parts, sep).subrange(at, at + parts[i].len()) == parts[i],
    decreases parts.len(),
{
    let whole = joined(parts, sep);
    if parts.len() == 1 {
        assert(whole.subrange(0, parts[0].len() as int) =~= parts[0]);
        0
    } else {
        let earlier = joined(parts.drop_last(), sep);
        if i < parts.len() - 1 {
            let at = joined_holds_each(parts.drop_last(), sep, i);
            assert(parts.drop_last()[i] == parts[i]);
            assert(whole.subrange(at, at + parts[i].len()) =~= earlier.subrange(
                at,
                at + parts[i].len(),
            ));
            at
        } else {
            let at = (earlier.len() + sep.len()) as int;
            assert(whole.subrange(at, at + parts[i].len()) =~= parts[i]);
            at
        }
    }
}

/// `part` stands somewhere in `whole`.
pub open spec fn stands_in(part: Seq<char>, whole: Seq<char>) -> bool {
    exists|at: int|
        0 <= at && at + part.len() <= whole.len() && #[trigger] whole.subrange(
            at,
            at + part.len(),
        ) == part
}

/// What stands between two texts stands in the whole.
pub proof fn stands_between(head: Seq<char>, part: Seq<char>, rest: Seq<char>)
    ensures
        stands_in(part, head + part + rest),
{
    let whole = head + part + rest;
    let at = head.len() as int;
    assert(whole.subrange(at, at + part.len()) =~= part);
}

/// What stands in a part stands in the whole.
pub proof fn stands_deeper(part: Seq<char>, middle: Seq<char>, head: Seq<char>, rest: Seq<char>)
    requires
        stands_in(part, middle),
    ensures
        stands_in(part, head + middle + rest),
{
    let at = choose|at: int|
        0 <= at && at + part.len() <= middle.len() && #[trigger] middle.subrange(
            at,
            at + part.len(),
        ) == part;
    let whole = head + middle + rest;
    let from = head.len() + at;
    assert(whole.subrange(from, from + part.len()) =~= middle.subrange(at, at + part.len()));
}

} // verus!
