//! Text as a sequence of characters: the splitting, trimming and number
//! notations that the case files and the command line use.

use vstd::prelude::*;

verus! {

/// `String::push` appends one character to the end of the string.
pub assume_specification[ String::push ](buffer: &mut String, added: char)
    ensures
        final(buffer)@ == old(buffer)@.push(added),
;

/// The characters that trimming and splitting look for.
#[derive(Clone, Copy)]
pub enum CharClass {
    /// The characters with the Unicode `White_Space` property.
    Space,
    /// One character.
    Only(char),
    /// Square brackets.
    Brackets,
}

/// Whether `ch` has the Unicode `White_Space` property.
pub open spec fn is_space(ch: char) -> bool {
    let code = ch as u32;
    ||| 0x9 <= code <= 0xd
    ||| code == 0x20
    ||| code == 0x85
    ||| code == 0xa0
    ||| code == 0x1680
    ||| 0x2000 <= code <= 0x200a
    ||| code == 0x2028
    ||| code == 0x2029
    ||| code == 0x202f
    ||| code == 0x205f
    ||| code == 0x3000
}

/// Whether `ch` is a control character (Unicode category `Cc`).
pub open spec fn is_control(ch: char) -> bool {
    let code = ch as u32;
    code <= 0x1f || 0x7f <= code <= 0x9f
}

/// Whether `ch` is one of the ten ASCII digits.
pub open spec fn is_digit(ch: char) -> bool {
    0x30 <= ch as u32 <= 0x39
}

/// Whether `ch` is an ASCII letter or digit.
pub open spec fn is_alphanumeric(ch: char) -> bool {
    let code = ch as u32;
    is_digit(ch) || 0x41 <= code <= 0x5a || 0x61 <= code <= 0x7a
}

/// `ch` with an upper-case ASCII letter made lower case.
pub open spec fn lower(ch: char) -> char {
    let code = ch as u32;
    if 0x41 <= code <= 0x5a {
        (code + 0x20) as char
    } else {
        ch
    }
}

/// Membership of a character in a class.
pub open spec fn class_has(class: CharClass, ch: char) -> bool {
    match class {
        CharClass::Space => is_space(ch),
        CharClass::Only(only) => ch == only,
        CharClass::Brackets => ch == '[' || ch == ']',
    }
}

/// `s` without its leading characters of `class`.
pub open spec fn strip_start(class: CharClass, s: Seq<char>) -> Seq<char>
    decreases s.len(),
{
    if s.len() > 0 && class_has(class, s[0]) {
        strip_start(class, s.skip(1))
    } else {
        s
    }
}

/// `s` without its trailing characters of `class`.
pub open spec fn strip_end(class: CharClass, s: Seq<char>) -> Seq<char>
    decreases s.len(),
{
    if s.len() > 0 && class_has(class, s.last()) {
        strip_end(class, s.drop_last())
    } else {
        s
    }
}

/// `s` without its leading and trailing characters of `class`.
pub open spec fn strip(class: CharClass, s: Seq<char>) -> Seq<char> {
    strip_end(class, strip_start(class, s))
}

/// `s` without surrounding white space.
pub open spec fn trim(s: Seq<char>) -> Seq<char> {
    strip(CharClass::Space, s)
}

/// The pieces of `s` between characters of `class`; there is always one more
/// piece than there are such characters.
pub open spec fn pieces(class: CharClass, s: Seq<char>) -> Seq<Seq<char>>
    decreases s.len(),
{
    if s.len() == 0 {
        seq![Seq::empty()]
    } else {
        let before = pieces(class, s.drop_last());
        if class_has(class, s.last()) {
            before.push(Seq::empty())
        } else {
            before.drop_last().push(before.last().push(s.last()))
        }
    }
}

/// The parts that are not empty.
pub open spec fn nonempty(parts: Seq<Seq<char>>) -> Seq<Seq<char>>
    decreases parts.len(),
{
    if parts.len() == 0 {
        Seq::empty()
    } else if parts.last().len() > 0 {
        nonempty(parts.drop_last()).push(parts.last())
    } else {
        nonempty(parts.drop_last())
    }
}

/// The words of `s`: its maximal runs of characters that are not white space.
pub open spec fn words(s: Seq<char>) -> Seq<Seq<char>> {
    nonempty(pieces(CharClass::Space, s))
}

/// A line without the carriage return that ends it.
pub open spec fn without_return(line: Seq<char>) -> Seq<char> {
    if line.len() > 0 && line.last() == '\r' {
        line.drop_last()
    } else {
        line
    }
}

/// The lines of `s`: what stands before each line feed, without a carriage
/// return in front of it, and what follows the last one unless that is empty.
pub open spec fn lines(s: Seq<char>) -> Seq<Seq<char>> {
    let raw = pieces(CharClass::Only('\n'), s);
    let ended = raw.drop_last().map_values(|line: Seq<char>| without_return(line));
    if raw.last().len() == 0 {
        ended
    } else {
        ended.push(raw.last())
    }
}

/// Where `ch` first stands in `s`.
pub open spec fn find(s: Seq<char>, ch: char) -> Option<int>
    decreases s.len(),
{
    if s.len() == 0 {
        None
    } else {
        match find(s.drop_last(), ch) {
            Some(at) => Some(at),
            None => if s.last() == ch {
                Some(s.len() - 1)
            } else {
                None
            },
        }
    }
}

/// Where `ch` last stands in `s`.
pub open spec fn find_last(s: Seq<char>, ch: char) -> Option<int>
    decreases s.len(),
{
    if s.len() == 0 {
        None
    } else if s.last() == ch {
        Some(s.len() - 1)
    } else {
        find_last(s.drop_last(), ch)
    }
}

/// What stands before the first two slashes of `s` from `at` on.
pub open spec fn before_slashes(s: Seq<char>, at: int) -> Seq<char>
    decreases s.len() - at,
{
    if at + 1 >= s.len() {
        s
    } else if s[at] == '/' && s[at + 1] == '/' {
        s.take(at)
    } else {
        before_slashes(s, at + 1)
    }
}

/// What stands before and after the first `ch` of `s`.
pub open spec fn split_once(s: Seq<char>, ch: char) -> Option<(Seq<char>, Seq<char>)> {
    match find(s, ch) {
        Some(at) => Some((s.take(at), s.skip(at + 1))),
        None => None,
    }
}

/// `s` with its upper-case ASCII letters made lower case.
pub open spec fn lowered(s: Seq<char>) -> Seq<char> {
    s.map_values(|ch: char| lower(ch))
}

/// The parts one after another, with `separator` between two neighbours.
pub open spec fn join(parts: Seq<Seq<char>>, separator: Seq<char>) -> Seq<char>
    decreases parts.len(),
{
    if parts.len() == 0 {
        Seq::empty()
    } else if parts.len() == 1 {
        parts[0]
    } else {
        join(parts.drop_last(), separator) + separator + parts.last()
    }
}

/// The views of the texts of a vector.
pub open spec fn texts(parts: Seq<String>) -> Seq<Seq<char>> {
    Seq::new(parts.len(), |i: int| parts[i]@)
}

/// Where `wanted` first stands among the parts.
pub open spec fn find_text(parts: Seq<Seq<char>>, wanted: Seq<char>) -> Option<int>
    decreases parts.len(),
{
    if parts.len() == 0 {
        None
    } else {
        match find_text(parts.drop_last(), wanted) {
            Some(at) => Some(at),
            None => if parts.last() == wanted {
                Some(parts.len() - 1)
            } else {
                None
            },
        }
    }
}

/// The parts without the `.` parts that end them.
pub open spec fn without_dots(parts: Seq<Seq<char>>) -> Seq<Seq<char>>
    decreases parts.len(),
{
    if parts.len() > 0 && parts.last() == "."@ {
        without_dots(parts.drop_last())
    } else {
        parts
    }
}

/// The last component of a path with `/` between its components, if that is a
/// name.
pub open spec fn file_name(path: Seq<char>) -> Option<Seq<char>> {
    let parts = without_dots(nonempty(pieces(CharClass::Only('/'), path)));
    if parts.len() == 0 || parts.last() == ".."@ {
        None
    } else {
        Some(parts.last())
    }
}

/// The view of an optional text.
pub open spec fn opt_text(text: Option<String>) -> Option<Seq<char>> {
    match text {
        Some(inner) => Some(inner@),
        None => None,
    }
}

/// The contract's result is the value `found`.
pub open spec fn accepts<T>(named: Result<T, Seq<char>>, found: T) -> bool {
    named == Ok::<T, Seq<char>>(found)
}

/// The contract's result is the refusal with this message.
pub open spec fn refuses<T>(named: Result<T, Seq<char>>, message: String) -> bool {
    named == Err::<T, Seq<char>>(message@)
}

/// Whether `part` occurs in `s`.
pub open spec fn holds(s: Seq<char>, part: Seq<char>) -> bool {
    exists|i: int| 0 <= i <= s.len() - part.len() && #[trigger] s.subrange(i, i + part.len()) == part
}

/// The path of `name` below the directory `dir`; a path from the root stays.
pub open spec fn below(dir: Seq<char>, name: Seq<char>) -> Seq<char> {
    if name.len() > 0 && name[0] == '/' {
        name
    } else if dir.len() == 0 || dir.last() == '/' {
        dir + name
    } else {
        dir + "/"@ + name
    }
}

/// Whether every character of `s` is a digit.
pub open spec fn all_digits(s: Seq<char>) -> bool {
    forall|i: int| 0 <= i < s.len() ==> is_digit(#[trigger] s[i])
}

/// The number that a run of decimal digits stands for.
pub open spec fn digits_value(s: Seq<char>) -> nat
    decreases s.len(),
{
    if s.len() == 0 {
        0
    } else {
        digits_value(s.drop_last()) * 10 + (s.last() as u32 - 0x30) as nat
    }
}

/// The digits of a number without its sign.
pub open spec fn unsigned_digits(s: Seq<char>) -> Seq<char> {
    if s.len() > 0 && s[0] == '+' {
        s.skip(1)
    } else {
        s
    }
}

/// The natural number that `s` denotes, if it denotes one of at most `max`:
/// decimal digits, with a plus sign in front at most.
pub open spec fn natural(s: Seq<char>, max: nat) -> Option<nat> {
    let digits = unsigned_digits(s);
    if digits.len() > 0 && all_digits(digits) && digits_value(digits) <= max {
        Some(digits_value(digits))
    } else {
        None
    }
}

/// The integer that `s` denotes, if it denotes one between `min` and `max`:
/// decimal digits, with one sign in front at most.
pub open spec fn integer(s: Seq<char>, min: int, max: int) -> Option<int> {
    let negative = s.len() > 0 && s[0] == '-';
    let digits = if negative {
        s.skip(1)
    } else {
        unsigned_digits(s)
    };
    let value = if negative {
        -(digits_value(digits) as int)
    } else {
        digits_value(digits) as int
    };
    if digits.len() > 0 && all_digits(digits) && min <= value <= max {
        Some(value)
    } else {
        None
    }
}

/// What stands behind a sign.
pub open spec fn unsigned(s: Seq<char>) -> Seq<char> {
    if s.len() > 0 && (s[0] == '+' || s[0] == '-') {
        s.skip(1)
    } else {
        s
    }
}

/// Whether `s` is a decimal fraction: digits with one point in or round them
/// at most.
pub open spec fn is_fraction(s: Seq<char>) -> bool {
    match split_once(s, '.') {
        Some((whole, part)) => all_digits(whole) && all_digits(part) && whole.len() + part.len()
            > 0,
        None => all_digits(s) && s.len() > 0,
    }
}

/// Whether `s` denotes a floating-point number: a decimal fraction with an
/// exponent or without, or a word for a value that has no such notation; a
/// sign may stand before either, and the case of letters does not count.
pub open spec fn is_float(s: Seq<char>) -> bool {
    let body = lowered(unsigned(s));
    body == "inf"@ || body == "infinity"@ || body == "nan"@ || match split_once(body, 'e') {
        Some((mantissa, exponent)) => is_fraction(mantissa) && all_digits(unsigned(exponent))
            && unsigned(exponent).len() > 0,
        None => is_fraction(body),
    }
}

/// The digit character of a number below ten.
pub open spec fn digit(n: nat) -> char {
    (0x30 + n) as char
}

/// The decimal notation of `n`, without leading zeros.
pub open spec fn decimal(n: nat) -> Seq<char>
    decreases n,
{
    if n < 10 {
        seq![digit(n)]
    } else {
        decimal(n / 10).push(digit(n % 10))
    }
}

/// The decimal notation of an integer.
pub open spec fn signed_decimal(n: int) -> Seq<char> {
    if n < 0 {
        seq!['-'] + decimal((-n) as nat)
    } else {
        decimal(n as nat)
    }
}

/// The notation of a truth value.
pub open spec fn bool_text(value: bool) -> Seq<char> {
    if value {
        "true"@
    } else {
        "false"@
    }
}

/// Whether `left` comes before `right` in the order of their characters.
pub open spec fn precedes(left: Seq<char>, right: Seq<char>) -> bool
    decreases left.len(),
{
    if right.len() == 0 {
        false
    } else if left.len() == 0 {
        true
    } else if left[0] == right[0] {
        precedes(left.skip(1), right.skip(1))
    } else {
        (left[0] as u32) < (right[0] as u32)
    }
}

proof fn lemma_codes_differ(left: char, right: char)
    requires
        left != right,
    ensures
        left as u32 != right as u32,
{
}

/// No text comes before itself.
pub proof fn order_is_strict(text: Seq<char>)
    ensures
        !precedes(text, text),
    decreases text.len(),
{
    if text.len() > 0 {
        order_is_strict(text.skip(1));
    }
}

/// Of two texts that are not the same one comes before the other, and the other
/// does not come before it.
pub proof fn order_is_total(left: Seq<char>, right: Seq<char>)
    ensures
        precedes(left, right) ==> !precedes(right, left),
        left == right || precedes(left, right) || precedes(right, left),
    decreases left.len(),
{
    if left.len() > 0 && right.len() > 0 {
        if left[0] == right[0] {
            order_is_total(left.skip(1), right.skip(1));
            if left.skip(1) == right.skip(1) {
                assert(left =~= seq![left[0]] + left.skip(1));
                assert(right =~= seq![right[0]] + right.skip(1));
            }
        } else {
            lemma_codes_differ(left[0], right[0]);
        }
    } else {
        assert(left.len() == 0 && right.len() == 0 ==> left =~= right);
    }
}

/// A text that comes before a second comes before all that the second comes
/// before.
pub proof fn order_is_transitive(first: Seq<char>, second: Seq<char>, third: Seq<char>)
    requires
        precedes(first, second),
        precedes(second, third),
    ensures
        precedes(first, third),
    decreases first.len(),
{
    if first.len() > 0 && first[0] == second[0] && second[0] == third[0] {
        order_is_transitive(first.skip(1), second.skip(1), third.skip(1));
    }
}

/// The decimal notation of a number reads back as that number.
pub proof fn natural_reads_decimal(n: nat, max: nat)
    requires
        n <= max,
    ensures
        natural(decimal(n), max) == Some(n),
{
    lemma_decimal(n);
}

/// The decimal notation of an integer reads back as that integer.
pub proof fn integer_reads_signed_decimal(n: int, min: int, max: int)
    requires
        min <= n <= max,
    ensures
        integer(signed_decimal(n), min, max) == Some(n),
{
    if n < 0 {
        lemma_decimal((-n) as nat);
        assert(signed_decimal(n).skip(1) =~= decimal((-n) as nat));
    } else {
        lemma_decimal(n as nat);
    }
}

proof fn lemma_decimal(n: nat)
    ensures
        decimal(n).len() > 0,
        all_digits(decimal(n)),
        digits_value(decimal(n)) == n,
    decreases n,
{
    if n < 10 {
        assert(decimal(n).drop_last() =~= Seq::empty());
        assert(digits_value(Seq::empty()) == 0);
        assert(decimal(n).last() == digit(n));
    } else {
        assert(decimal(n).last() == digit(n % 10));
        lemma_decimal(n / 10);
        assert(decimal(n).drop_last() =~= decimal(n / 10));
    }
}

/// Trimming twice is trimming once.
pub proof fn strip_is_idempotent(class: CharClass, s: Seq<char>)
    ensures
        strip(class, strip(class, s)) == strip(class, s),
{
    lemma_strip_start(class, s);
    lemma_strip_end(class, strip_start(class, s));
    let t = strip(class, s);
    if t.len() > 0 {
        assert(t[0] == strip_start(class, s)[0]);
    }
}

proof fn lemma_strip_start(class: CharClass, s: Seq<char>)
    ensures
        strip_start(class, s).len() <= s.len(),
        strip_start(class, s).len() > 0 ==> !class_has(class, strip_start(class, s)[0]),
    decreases s.len(),
{
    if s.len() > 0 && class_has(class, s[0]) {
        lemma_strip_start(class, s.skip(1));
    }
}

proof fn lemma_strip_end(class: CharClass, s: Seq<char>)
    ensures
        strip_end(class, s).len() <= s.len(),
        strip_end(class, s).is_prefix_of(s),
        strip_end(class, s).len() > 0 ==> !class_has(class, strip_end(class, s).last()),
    decreases s.len(),
{
    if s.len() > 0 && class_has(class, s.last()) {
        lemma_strip_end(class, s.drop_last());
    }
}

pub proof fn lemma_pieces_len(class: CharClass, s: Seq<char>)
    ensures
        pieces(class, s).len() >= 1,
    decreases s.len(),
{
    if s.len() > 0 {
        lemma_pieces_len(class, s.drop_last());
    }
}

/// The characters of `text`, in order.
pub fn chars_of(text: &str) -> (chars: Vec<char>)
    ensures
        chars@ == text@,
{
    let mut chars: Vec<char> = Vec::new();
    for ch in iter: text.chars()
        invariant
            iter.seq() == text@,
            chars@ == iter.seq().take(iter.index() as int),
    {
        chars.push(ch);
    }
    chars
}

/// The text of the characters from `from` up to `to`.
pub fn text_of(chars: &[char], from: usize, to: usize) -> (text: String)
    requires
        from <= to <= chars@.len(),
    ensures
        text@ == chars@.subrange(from as int, to as int),
{
    let mut text = String::new();
    let mut i: usize = from;
    while i < to
        invariant
            from <= i <= to <= chars@.len(),
            text@ == chars@.subrange(from as int, i as int),
        decreases to - i,
    {
        text.push(chars[i]);
        i += 1;
    }
    text
}

/// Whether two texts are the same sequence of characters.
pub fn text_eq(left: &str, right: &str) -> (same: bool)
    ensures
        same == (left@ == right@),
{
    let mut a = left.chars();
    let mut b = right.chars();
    let ghost mut done: int = 0;
    loop
        invariant
            0 <= done <= left@.len(),
            done <= right@.len(),
            left@.take(done) == right@.take(done),
            vstd::std_specs::iter::IteratorSpec::remaining(&a) == left@.skip(done),
            vstd::std_specs::iter::IteratorSpec::remaining(&b) == right@.skip(done),
        decreases left@.len() - done,
    {
        let x = a.next();
        let y = b.next();
        match (x, y) {
            (Some(p), Some(q)) => {
                if p != q {
                    assert(left@[done] == p);
                    assert(right@[done] == q);
                    return false;
                }
                proof {
                    assert(left@.take(done + 1) =~= left@.take(done).push(p));
                    assert(right@.take(done + 1) =~= right@.take(done).push(q));
                    done = done + 1;
                }
            },
            (None, None) => {
                assert(left@.take(done) =~= left@);
                assert(right@.take(done) =~= right@);
                return true;
            },
            _ => {
                assert(left@.len() != right@.len());
                return false;
            },
        }
    }
}

/// Whether an optional text is there and the same as `expected`.
pub fn is_text(text: &Option<String>, expected: &str) -> (same: bool)
    ensures
        same == (opt_text(*text) == Some(expected@)),
{
    match text {
        Some(inner) => text_eq(inner.as_str(), expected),
        None => false,
    }
}

/// A copy of an optional text.
pub fn copy_opt(text: &Option<String>) -> (copy: Option<String>)
    ensures
        opt_text(copy) == opt_text(*text),
{
    match text {
        Some(inner) => Some(inner.clone()),
        None => None,
    }
}

/// A copy of a list of texts.
pub fn copy_texts(parts: &Vec<String>) -> (copy: Vec<String>)
    ensures
        texts(copy@) == texts(parts@),
{
    let mut copy: Vec<String> = Vec::new();
    let mut i: usize = 0;
    while i < parts.len()
        invariant
            i <= parts@.len(),
            texts(copy@) == texts(parts@).take(i as int),
        decreases parts@.len() - i,
    {
        copy.push(parts[i].clone());
        proof {
            assert(texts(copy@) =~= texts(parts@).take(i as int).push(parts@[i as int]@));
        }
        i += 1;
    }
    assert(texts(parts@).take(i as int) =~= texts(parts@));
    copy
}

/// Whether a character belongs to a class.
pub fn in_class(class: CharClass, ch: char) -> (has: bool)
    ensures
        has == class_has(class, ch),
{
    match class {
        CharClass::Space => {
            let code: u32 = ch as u32;
            (0x9 <= code && code <= 0xd) || code == 0x20 || code == 0x85 || code == 0xa0 || code
                == 0x1680 || (0x2000 <= code && code <= 0x200a) || code == 0x2028 || code == 0x2029
                || code == 0x202f || code == 0x205f || code == 0x3000
        },
        CharClass::Only(only) => ch == only,
        CharClass::Brackets => ch == '[' || ch == ']',
    }
}

/// `text` without its trailing characters of `class`.
pub fn trimmed_end(text: &str, class: CharClass) -> (trimmed: String)
    ensures
        trimmed@ == strip_end(class, text@),
{
    let chars = chars_of(text);
    let mut to: usize = chars.len();
    assert(chars@.take(to as int) =~= chars@);
    while to > 0 && in_class(class, chars[to - 1])
        invariant
            to <= chars@.len(),
            strip_end(class, chars@) == strip_end(class, chars@.take(to as int)),
        decreases to,
    {
        assert(chars@.take(to as int).drop_last() =~= chars@.take(to - 1));
        to -= 1;
    }
    text_of(chars.as_slice(), 0, to)
}

/// `text` without its leading characters of `class`.
pub fn trimmed_start(text: &str, class: CharClass) -> (trimmed: String)
    ensures
        trimmed@ == strip_start(class, text@),
{
    let chars = chars_of(text);
    let mut from: usize = 0;
    assert(chars@.skip(0) =~= chars@);
    while from < chars.len() && in_class(class, chars[from])
        invariant
            from <= chars@.len(),
            strip_start(class, chars@) == strip_start(class, chars@.skip(from as int)),
        decreases chars@.len() - from,
    {
        assert(chars@.skip(from as int).skip(1) =~= chars@.skip(from + 1));
        from += 1;
    }
    let head = text_of(chars.as_slice(), from, chars.len());
    assert(head@ =~= chars@.skip(from as int));
    head
}

/// `text` without its leading and trailing characters of `class`.
pub fn trimmed_of(text: &str, class: CharClass) -> (trimmed: String)
    ensures
        trimmed@ == strip(class, text@),
{
    trimmed_end(trimmed_start(text, class).as_str(), class)
}

/// `text` without surrounding white space.
pub fn trimmed(text: &str) -> (out: String)
    ensures
        out@ == trim(text@),
{
    trimmed_of(text, CharClass::Space)
}

/// Whether `text` holds nothing but white space.
pub fn is_blank(text: &str) -> (blank: bool)
    ensures
        blank == (trim(text@).len() == 0),
{
    trimmed(text).as_str().is_empty()
}

/// The pieces of `text` between characters of `class`.
pub fn split(text: &str, class: CharClass) -> (parts: Vec<String>)
    ensures
        texts(parts@) == pieces(class, text@),
{
    let chars = chars_of(text);
    let mut done: Vec<String> = Vec::new();
    let mut current = String::new();
    let mut i: usize = 0;
    assert(texts(done@).push(current@) =~= pieces(class, chars@.take(0)));
    while i < chars.len()
        invariant
            i <= chars@.len(),
            texts(done@).push(current@) == pieces(class, chars@.take(i as int)),
        decreases chars@.len() - i,
    {
        let ch = chars[i];
        let ghost before = pieces(class, chars@.take(i as int));
        assert(chars@.take(i + 1).drop_last() =~= chars@.take(i as int));
        assert(before.drop_last() =~= texts(done@));
        assert(before.last() == current@);
        if in_class(class, ch) {
            let ghost old_done = done@;
            done.push(current);
            current = String::new();
            proof {
                assert(texts(done@) =~= before);
            }
        } else {
            current.push(ch);
        }
        i += 1;
    }
    assert(chars@.take(i as int) =~= chars@);
    let ghost old_done = done@;
    done.push(current);
    assert(texts(done@) =~= pieces(class, text@));
    done
}

/// The parts of a list that are not empty.
pub fn drop_empty(parts: Vec<String>) -> (kept: Vec<String>)
    ensures
        texts(kept@) == nonempty(texts(parts@)),
{
    let mut kept: Vec<String> = Vec::new();
    let mut i: usize = 0;
    assert(texts(parts@).take(0) =~= Seq::<Seq<char>>::empty());
    assert(texts(kept@) =~= Seq::<Seq<char>>::empty());
    while i < parts.len()
        invariant
            i <= parts@.len(),
            texts(kept@) == nonempty(texts(parts@).take(i as int)),
        decreases parts@.len() - i,
    {
        assert(texts(parts@).take(i + 1).drop_last() =~= texts(parts@).take(i as int));
        if !parts[i].as_str().is_empty() {
            let ghost before = texts(kept@);
            kept.push(parts[i].clone());
            assert(texts(kept@) =~= before.push(parts@[i as int]@));
        }
        i += 1;
    }
    assert(texts(parts@).take(i as int) =~= texts(parts@));
    kept
}

/// The words of `text`.
pub fn words_of(text: &str) -> (found: Vec<String>)
    ensures
        texts(found@) == words(text@),
{
    drop_empty(split(text, CharClass::Space))
}

fn strip_return(line: &str) -> (stripped: String)
    ensures
        stripped@ == without_return(line@),
{
    let chars = chars_of(line);
    if chars.len() > 0 && chars[chars.len() - 1] == '\r' {
        let stripped = text_of(chars.as_slice(), 0, chars.len() - 1);
        assert(stripped@ =~= line@.drop_last());
        stripped
    } else {
        line.to_string()
    }
}

/// The lines of `text`.
pub fn lines_of(text: &str) -> (found: Vec<String>)
    ensures
        texts(found@) == lines(text@),
{
    let raw = split(text, CharClass::Only('\n'));
    let ghost parts = pieces(CharClass::Only('\n'), text@);
    proof {
        lemma_pieces_len(CharClass::Only('\n'), text@);
    }
    let ghost ended = parts.drop_last().map_values(|line: Seq<char>| without_return(line));
    let last: usize = raw.len() - 1;
    let mut found: Vec<String> = Vec::new();
    let mut i: usize = 0;
    while i < last
        invariant
            i <= last,
            last == raw@.len() - 1,
            texts(raw@) == parts,
            ended == parts.drop_last().map_values(|line: Seq<char>| without_return(line)),
            texts(found@) == ended.take(i as int),
        decreases last - i,
    {
        let line = strip_return(raw[i].as_str());
        assert(line@ == ended[i as int]);
        let ghost before = texts(found@);
        found.push(line);
        assert(texts(found@) =~= before.push(ended[i as int]));
        i += 1;
    }
    assert(texts(found@) =~= ended);
    if !raw[last].as_str().is_empty() {
        let ghost before = texts(found@);
        found.push(raw[last].clone());
        assert(texts(found@) =~= before.push(parts.last()));
    }
    found
}

/// Where `ch` first stands in `chars`.
fn position(chars: &[char], ch: char) -> (at: Option<usize>)
    ensures
        match at {
            Some(i) => find(chars@, ch) == Some(i as int) && i < chars@.len(),
            None => find(chars@, ch) is None,
        },
{
    let mut i: usize = 0;
    while i < chars.len()
        invariant
            i <= chars@.len(),
            find(chars@.take(i as int), ch) is None,
        decreases chars@.len() - i,
    {
        assert(chars@.take(i + 1).drop_last() =~= chars@.take(i as int));
        if chars[i] == ch {
            proof {
                lemma_find_prefix(chars@, ch, i + 1);
            }
            return Some(i);
        }
        i += 1;
    }
    assert(chars@.take(i as int) =~= chars@);
    None
}

proof fn lemma_find_prefix(s: Seq<char>, ch: char, n: int)
    requires
        0 <= n <= s.len(),
        find(s.take(n), ch) is Some,
    ensures
        find(s, ch) == find(s.take(n), ch),
    decreases s.len(),
{
    if n < s.len() {
        assert(s.drop_last().take(n) =~= s.take(n));
        lemma_find_prefix(s.drop_last(), ch, n);
    } else {
        assert(s.take(n) =~= s);
    }
}

/// Where `wanted` first stands among the parts.
pub fn position_of(parts: &Vec<String>, wanted: &str) -> (at: Option<usize>)
    ensures
        match at {
            Some(i) => find_text(texts(parts@), wanted@) == Some(i as int) && i < parts@.len()
                && parts@[i as int]@ == wanted@,
            None => find_text(texts(parts@), wanted@) is None,
        },
{
    let ghost all = texts(parts@);
    let mut i: usize = 0;
    while i < parts.len()
        invariant
            i <= parts@.len(),
            all == texts(parts@),
            find_text(all.take(i as int), wanted@) is None,
        decreases parts@.len() - i,
    {
        assert(all.take(i + 1).drop_last() =~= all.take(i as int));
        if text_eq(parts[i].as_str(), wanted) {
            proof {
                lemma_find_text_prefix(all, wanted@, i + 1);
            }
            return Some(i);
        }
        i += 1;
    }
    assert(all.take(i as int) =~= all);
    None
}

proof fn lemma_find_text_prefix(parts: Seq<Seq<char>>, wanted: Seq<char>, n: int)
    requires
        0 <= n <= parts.len(),
        find_text(parts.take(n), wanted) is Some,
    ensures
        find_text(parts, wanted) == find_text(parts.take(n), wanted),
    decreases parts.len(),
{
    if n < parts.len() {
        assert(parts.drop_last().take(n) =~= parts.take(n));
        lemma_find_text_prefix(parts.drop_last(), wanted, n);
    } else {
        assert(parts.take(n) =~= parts);
    }
}

/// The last component of a path, if that is a name.
pub fn name_of(path: &str) -> (name: Option<String>)
    ensures
        opt_text(name) == file_name(path@),
{
    let parts = drop_empty(split(path, CharClass::Only('/')));
    let ghost all = texts(parts@);
    let mut n: usize = parts.len();
    assert(all.take(n as int) =~= all);
    while n > 0 && text_eq(parts[n - 1].as_str(), ".")
        invariant
            n <= parts@.len(),
            all == texts(parts@),
            without_dots(all.take(n as int)) == without_dots(all),
        decreases n,
    {
        assert(all.take(n as int).drop_last() =~= all.take(n - 1));
        n -= 1;
    }
    if n == 0 || text_eq(parts[n - 1].as_str(), "..") {
        None
    } else {
        Some(parts[n - 1].clone())
    }
}

/// What stands before and after the first `ch` of `text`.
pub fn split_at_first(text: &str, ch: char) -> (halves: Option<(String, String)>)
    ensures
        match halves {
            Some(pair) => split_once(text@, ch) == Some((pair.0@, pair.1@)),
            None => split_once(text@, ch) is None,
        },
{
    let chars = chars_of(text);
    match position(chars.as_slice(), ch) {
        Some(at) => {
            let end: usize = chars.len();
            let head = text_of(chars.as_slice(), 0, at);
            let tail = text_of(chars.as_slice(), at + 1, end);
            assert(tail@ =~= text@.skip(at + 1));
            Some((head, tail))
        },
        None => None,
    }
}

/// Whether `text` starts with `prefix`.
pub fn starts_with(text: &str, prefix: &str) -> (yes: bool)
    ensures
        yes == prefix@.is_prefix_of(text@),
{
    let chars = chars_of(text);
    let head = chars_of(prefix);
    if head.len() > chars.len() {
        return false;
    }
    let mut i: usize = 0;
    while i < head.len()
        invariant
            i <= head@.len() <= chars@.len(),
            chars@ == text@,
            head@ == prefix@,
            forall|k: int| 0 <= k < i ==> head@[k] == chars@[k],
        decreases head@.len() - i,
    {
        if head[i] != chars[i] {
            assert(prefix@[i as int] != text@.subrange(0, prefix@.len() as int)[i as int]);
            return false;
        }
        i += 1;
    }
    assert(head@ =~= chars@.subrange(0, head@.len() as int));
    true
}

/// Where `ch` last stands in `text`: what stands before it.
pub fn before_last(text: &str, ch: char) -> (head: Option<String>)
    ensures
        match head {
            Some(found) => find_last(text@, ch) is Some && found@ == text@.take(
                find_last(text@, ch)->0,
            ),
            None => find_last(text@, ch) is None,
        },
{
    let chars = chars_of(text);
    let mut to: usize = chars.len();
    assert(chars@.take(to as int) =~= chars@);
    while to > 0
        invariant
            to <= chars@.len(),
            chars@ == text@,
            find_last(chars@, ch) == find_last(chars@.take(to as int), ch),
        decreases to,
    {
        assert(chars@.take(to as int).drop_last() =~= chars@.take(to - 1));
        if chars[to - 1] == ch {
            let head = text_of(chars.as_slice(), 0, to - 1);
            assert(head@ =~= text@.take(to - 1));
            return Some(head);
        }
        to -= 1;
    }
    None
}

/// What stands before the first two slashes of `text`.
pub fn without_comment(text: &str) -> (head: String)
    ensures
        head@ == before_slashes(text@, 0),
{
    let chars = chars_of(text);
    let count: usize = chars.len();
    let mut at: usize = 0;
    while at < count && count - at > 1
        invariant
            at <= count,
            count == chars@.len(),
            chars@ == text@,
            before_slashes(text@, 0) == before_slashes(text@, at as int),
        decreases count - at,
    {
        if chars[at] == '/' && chars[at + 1] == '/' {
            let head = text_of(chars.as_slice(), 0, at);
            assert(head@ =~= text@.take(at as int));
            return head;
        }
        at += 1;
    }
    text.to_string()
}

fn has_digits_only(text: &str) -> (yes: bool)
    ensures
        yes == all_digits(text@),
{
    let chars = chars_of(text);
    let mut i: usize = 0;
    while i < chars.len()
        invariant
            i <= chars@.len(),
            chars@ == text@,
            forall|k: int| 0 <= k < i ==> is_digit(#[trigger] text@[k]),
        decreases chars@.len() - i,
    {
        let code: u32 = chars[i] as u32;
        if !(0x30 <= code && code <= 0x39) {
            assert(!is_digit(text@[i as int]));
            return false;
        }
        i += 1;
    }
    true
}

fn without_sign(text: &str) -> (rest: String)
    ensures
        rest@ == unsigned(text@),
{
    let chars = chars_of(text);
    if chars.len() > 0 && (chars[0] == '+' || chars[0] == '-') {
        let rest = text_of(chars.as_slice(), 1, chars.len());
        assert(rest@ =~= text@.skip(1));
        rest
    } else {
        text.to_string()
    }
}

fn reads_fraction(text: &str) -> (yes: bool)
    ensures
        yes == is_fraction(text@),
{
    match split_at_first(text, '.') {
        Some((whole, part)) => {
            let empty = whole.as_str().is_empty() && part.as_str().is_empty();
            has_digits_only(whole.as_str()) && has_digits_only(part.as_str()) && !empty
        },
        None => has_digits_only(text) && !text.is_empty(),
    }
}

/// Whether `text` denotes a floating-point number.
pub fn reads_float(text: &str) -> (yes: bool)
    ensures
        yes == is_float(text@),
{
    let body = lowercase(without_sign(text).as_str());
    if text_eq(body.as_str(), "inf") || text_eq(body.as_str(), "infinity") || text_eq(
        body.as_str(),
        "nan",
    ) {
        return true;
    }
    match split_at_first(body.as_str(), 'e') {
        Some((mantissa, exponent)) => {
            let digits = without_sign(exponent.as_str());
            reads_fraction(mantissa.as_str()) && has_digits_only(digits.as_str())
                && !digits.as_str().is_empty()
        },
        None => reads_fraction(body.as_str()),
    }
}

fn occurs_at(chars: &Vec<char>, wanted: &Vec<char>, at: usize) -> (yes: bool)
    requires
        at + wanted@.len() <= chars@.len(),
    ensures
        yes == (chars@.subrange(at as int, at + wanted@.len()) == wanted@),
{
    let count: usize = chars.len();
    let mut k: usize = 0;
    while k < wanted.len()
        invariant
            k <= wanted@.len(),
            at + wanted@.len() <= chars@.len(),
            count == chars@.len(),
            forall|m: int| 0 <= m < k ==> chars@[at + m] == wanted@[m],
        decreases wanted@.len() - k,
    {
        if chars[at + k] != wanted[k] {
            assert(chars@.subrange(at as int, at + wanted@.len())[k as int] != wanted@[k as int]);
            return false;
        }
        k += 1;
    }
    assert(chars@.subrange(at as int, at + wanted@.len()) =~= wanted@);
    true
}

/// Whether `part` occurs in `text`.
pub fn contains(text: &str, part: &str) -> (yes: bool)
    ensures
        yes == holds(text@, part@),
{
    let chars = chars_of(text);
    let wanted = chars_of(part);
    if wanted.len() > chars.len() {
        return false;
    }
    let last: usize = chars.len() - wanted.len();
    let mut i: usize = 0;
    while i < last
        invariant
            i <= last,
            last == chars@.len() - wanted@.len(),
            chars@ == text@,
            wanted@ == part@,
            forall|k: int| 0 <= k < i ==> #[trigger] text@.subrange(k, k + part@.len()) != part@,
        decreases last - i,
    {
        if occurs_at(&chars, &wanted, i) {
            return true;
        }
        i += 1;
    }
    occurs_at(&chars, &wanted, last)
}

/// The path of `name` below the directory `dir`.
pub fn path_below(dir: &str, name: &str) -> (path: String)
    ensures
        path@ == below(dir@, name@),
{
    let chars = chars_of(dir);
    let first = chars_of(name);
    if first.len() > 0 && first[0] == '/' {
        return name.to_string();
    }
    let mut path = dir.to_string();
    let count: usize = chars.len();
    if count > 0 && chars[count - 1] != '/' {
        path.append("/");
    }
    path.append(name);
    path
}

/// `text` with its upper-case ASCII letters made lower case.
pub fn lowercase(text: &str) -> (out: String)
    ensures
        out@ == lowered(text@),
{
    let chars = chars_of(text);
    let mut out = String::new();
    let mut i: usize = 0;
    while i < chars.len()
        invariant
            i <= chars@.len(),
            out@ == lowered(chars@).take(i as int),
        decreases chars@.len() - i,
    {
        let ch = chars[i];
        let code: u32 = ch as u32;
        if 0x41 <= code && code <= 0x5a {
            out.push((code as u8 + 0x20) as char);
        } else {
            out.push(ch);
        }
        assert(out@ =~= lowered(chars@).take(i + 1));
        i += 1;
    }
    assert(out@ =~= lowered(text@));
    out
}

/// The parts one after another, with `separator` between two neighbours.
pub fn joined(parts: &Vec<String>, separator: &str) -> (out: String)
    ensures
        out@ == join(texts(parts@), separator@),
{
    let mut out = String::new();
    let mut i: usize = 0;
    let ghost all = texts(parts@);
    while i < parts.len()
        invariant
            i <= parts@.len(),
            all == texts(parts@),
            out@ == join(all.take(i as int), separator@),
        decreases parts@.len() - i,
    {
        assert(all.take(i + 1).drop_last() =~= all.take(i as int));
        if i > 0 {
            out.append(separator);
        }
        out.append(parts[i].as_str());
        assert(out@ =~= join(all.take(i + 1), separator@));
        i += 1;
    }
    assert(all.take(i as int) =~= all);
    out
}

/// Whether `left` comes before `right` in the order of their characters.
pub fn text_before(left: &str, right: &str) -> (before: bool)
    ensures
        before == precedes(left@, right@),
{
    let a = chars_of(left);
    let b = chars_of(right);
    let mut i: usize = 0;
    assert(a@.skip(0) =~= a@ && b@.skip(0) =~= b@);
    while i < a.len() && i < b.len()
        invariant
            i <= a@.len(),
            i <= b@.len(),
            a@ == left@,
            b@ == right@,
            precedes(a@, b@) == precedes(a@.skip(i as int), b@.skip(i as int)),
        decreases a@.len() - i,
    {
        let x: char = a[i];
        let y: char = b[i];
        if x != y {
            return (x as u32) < (y as u32);
        }
        assert(a@.skip(i as int).skip(1) =~= a@.skip(i + 1));
        assert(b@.skip(i as int).skip(1) =~= b@.skip(i + 1));
        i += 1;
    }
    i < b.len()
}

/// The value of the digits of `chars` from `from` on, if there is one at least
/// and the value is at most `max`.
fn digits_number(chars: &[char], from: usize, max: u64) -> (number: Option<u64>)
    requires
        from <= chars@.len(),
    ensures
        number == ({
            let digits = chars@.skip(from as int);
            if digits.len() > 0 && all_digits(digits) && digits_value(digits) <= max {
                Some(digits_value(digits) as u64)
            } else {
                None
            }
        }),
{
    let ghost digits = chars@.skip(from as int);
    if from == chars.len() {
        return None;
    }
    let mut value: u64 = 0;
    let mut i: usize = from;
    while i < chars.len()
        invariant
            from <= i <= chars@.len(),
            digits == chars@.skip(from as int),
            all_digits(digits.take(i - from)),
            value == digits_value(digits.take(i - from)),
            value <= max,
        decreases chars@.len() - i,
    {
        let ch: char = chars[i];
        let code: u32 = ch as u32;
        assert(chars@[i as int] == digits[i - from]);
        if code < 0x30 || code > 0x39 {
            return None;
        }
        let ghost next = digits.take(i - from + 1);
        assert(next.drop_last() =~= digits.take(i - from));
        let add: u64 = (code - 0x30) as u64;
        if value > max / 10 || add > max - value * 10 {
            proof {
                assert(digits_value(next) > max);
                lemma_digits_grow(digits, i - from + 1);
            }
            return None;
        }
        value = value * 10 + add;
        i += 1;
    }
    assert(digits.take(i - from) =~= digits);
    Some(value)
}

proof fn lemma_digits_grow(s: Seq<char>, n: int)
    requires
        0 <= n <= s.len(),
    ensures
        digits_value(s.take(n)) <= digits_value(s),
    decreases s.len(),
{
    if n < s.len() {
        assert(s.drop_last().take(n) =~= s.take(n));
        lemma_digits_grow(s.drop_last(), n);
    } else {
        assert(s.take(n) =~= s);
    }
}

/// The `usize` that `text` denotes.
pub fn read_usize(text: &str) -> (number: Option<usize>)
    ensures
        match number {
            Some(n) => natural(text@, usize::MAX as nat) == Some(n as nat),
            None => natural(text@, usize::MAX as nat) is None,
        },
{
    let chars = chars_of(text);
    let from: usize = if chars.len() > 0 && chars[0] == '+' {
        1
    } else {
        0
    };
    assert(chars@.skip(from as int) =~= unsigned_digits(text@));
    match digits_number(chars.as_slice(), from, usize::MAX as u64) {
        Some(n) => Some(n as usize),
        None => None,
    }
}

/// The `i64` that `text` denotes, if it lies between `min` and `max`.
pub fn read_integer(text: &str, min: i64, max: i64) -> (number: Option<i64>)
    requires
        min <= 0 <= max,
    ensures
        match number {
            Some(n) => integer(text@, min as int, max as int) == Some(n as int),
            None => integer(text@, min as int, max as int) is None,
        },
{
    let chars = chars_of(text);
    if chars.len() > 0 && chars[0] == '-' {
        let limit: u64 = if min == i64::MIN {
            0x8000_0000_0000_0000
        } else {
            (-min) as u64
        };
        match digits_number(chars.as_slice(), 1, limit) {
            Some(n) => if n == 0x8000_0000_0000_0000 {
                Some(i64::MIN)
            } else {
                Some(-(n as i64))
            },
            None => None,
        }
    } else {
        let from: usize = if chars.len() > 0 && chars[0] == '+' {
            1
        } else {
            0
        };
        assert(chars@.skip(from as int) =~= unsigned_digits(text@));
        match digits_number(chars.as_slice(), from, max as u64) {
            Some(n) => Some(n as i64),
            None => None,
        }
    }
}

/// The decimal notation of a number.
pub fn number_text(n: usize) -> (text: String)
    ensures
        text@ == decimal(n as nat),
    decreases n,
{
    if n < 10 {
        let mut text = String::new();
        text.push((0x30u8 + n as u8) as char);
        assert(text@ =~= decimal(n as nat));
        text
    } else {
        let mut text = number_text(n / 10);
        text.push((0x30u8 + (n % 10) as u8) as char);
        text
    }
}

/// The decimal notation of an integer.
pub fn integer_text(n: i64) -> (text: String)
    ensures
        text@ == signed_decimal(n as int),
{
    if n < 0 {
        let mut text = String::new();
        text.push('-');
        if n < -9 {
            let tens = tens_text(n);
            text.append(tens.as_str());
        }
        let last: u8 = if n == i64::MIN {
            8
        } else {
            ((-n) % 10) as u8
        };
        text.push((0x30u8 + last) as char);
        assert(text@ =~= signed_decimal(n as int));
        text
    } else {
        unsigned_text(n as u64)
    }
}

/// The decimal notation of the tens of a negative number without its sign.
fn tens_text(n: i64) -> (text: String)
    requires
        n < -9,
    ensures
        text@ == decimal((-(n as int)) as nat / 10),
{
    let tens: u64 = if n == i64::MIN {
        922337203685477580
    } else {
        (-n) as u64 / 10
    };
    unsigned_text(tens)
}

/// The decimal notation of a 64-bit number.
pub fn unsigned_text(n: u64) -> (text: String)
    ensures
        text@ == decimal(n as nat),
    decreases n,
{
    if n < 10 {
        let mut text = String::new();
        text.push((0x30u8 + n as u8) as char);
        assert(text@ =~= decimal(n as nat));
        text
    } else {
        let mut text = unsigned_text(n / 10);
        text.push((0x30u8 + (n % 10) as u8) as char);
        text
    }
}

/// The notation of a truth value.
pub fn flag_text(value: bool) -> (text: &'static str)
    ensures
        text@ == bool_text(value),
{
    if value {
        "true"
    } else {
        "false"
    }
}

/// A text denotes a natural number exactly where it is one digit or more, with a plus
/// sign in front at most, and the number is not too large; one digit more makes it ten
/// times as large and adds the digit.
pub proof fn natural_is_its_digits(s: Seq<char>, max: nat, last: nat)
    requires
        last < 10,
    ensures
        natural(s, max) is Some ==> s.len() > 0 && (forall|i: int|
            1 <= i < s.len() ==> is_digit(#[trigger] s[i])) && (is_digit(s[0]) || (s[0] == '+'
            && s.len() > 1)) && natural(s, max)->0 <= max,
        natural(s, max) matches Some(n) ==> (n * 10 + last <= max ==> natural(
            s.push(digit(last)),
            max,
        ) == Some(n * 10 + last)),
        natural(seq![digit(last)], 9) == Some(last),
{
    let digits = unsigned_digits(s);
    let more = s.push(digit(last));
    assert(digit(last) as u32 == 0x30 + last);
    if natural(s, max) is Some {
        assert(unsigned_digits(more) =~= digits.push(digit(last)));
        assert(digits.push(digit(last)).drop_last() =~= digits);
        assert forall|i: int| 1 <= i < s.len() implies is_digit(#[trigger] s[i]) by {
            if s[0] == '+' {
                assert(s[i] == digits[i - 1]);
                assert(is_digit(digits[i - 1]));
            } else {
                assert(is_digit(digits[i]));
            }
        }
        if s[0] != '+' {
            assert(is_digit(digits[0]));
        }
    }
    let one = seq![digit(last)];
    assert(one.drop_last() =~= Seq::empty());
    assert(one[0] == digit(last));
    assert(digits_value(one.drop_last()) == 0);
    assert(unsigned_digits(one) == one);
}

} // verus!
