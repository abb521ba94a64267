//! The grammar of JSON, and that the texts of [`crate::json`] belong to it.

use crate::json;
use crate::reals::RealView;
use crate::rounding;
use crate::text;
use vstd::prelude::*;

verus! {

/// Whether JSON lets `ch` stand between its tokens.
pub open spec fn is_space(ch: char) -> bool {
    ch == ' ' || ch == '\n' || ch == '\r' || ch == '\t'
}

/// Whether `s` is space only.
pub open spec fn is_blank(s: Seq<char>) -> bool {
    forall|i: int| 0 <= i < s.len() ==> is_space(#[trigger] s[i])
}

/// Whether `s` is one digit or more.
pub open spec fn is_digits(s: Seq<char>) -> bool {
    s.len() > 0 && forall|i: int| 0 <= i < s.len() ==> text::is_digit(#[trigger] s[i])
}

/// Whether `s` is the part of a number in front of its point.
pub open spec fn is_whole(s: Seq<char>) -> bool {
    is_digits(s) && (s.len() == 1 || s[0] != '0')
}

/// Whether `s` is a fraction with its point, or nothing.
pub open spec fn is_fraction(s: Seq<char>) -> bool {
    s.len() == 0 || (s[0] == '.' && is_digits(s.skip(1)))
}

/// Whether `s` is an exponent with its letter, or nothing.
pub open spec fn is_exponent(s: Seq<char>) -> bool {
    s.len() == 0 || ((s[0] == 'e' || s[0] == 'E') && (is_digits(s.skip(1)) || (s.len() > 1 && (
    s[1] == '+' || s[1] == '-') && is_digits(s.skip(2)))))
}

/// Whether `s` is a number without a sign.
pub open spec fn is_unsigned(s: Seq<char>) -> bool {
    exists|whole: Seq<char>, fraction: Seq<char>, exponent: Seq<char>|
        is_whole(whole) && is_fraction(fraction) && is_exponent(exponent) && s == #[trigger] (whole
            + fraction + exponent)
}

/// Whether `s` is a number.
pub open spec fn is_number(s: Seq<char>) -> bool {
    is_unsigned(s) || (s.len() > 0 && s[0] == '-' && is_unsigned(s.skip(1)))
}

/// Whether `ch` is a hexadecimal digit.
pub open spec fn is_hex(ch: char) -> bool {
    let code = ch as u32;
    text::is_digit(ch) || 0x41 <= code <= 0x46 || 0x61 <= code <= 0x66
}

/// Whether `ch` makes an escape of two characters with the backslash before it.
pub open spec fn is_short_escape(ch: char) -> bool {
    ch == '"' || ch == '\\' || ch == '/' || ch == 'b' || ch == 'f' || ch == 'n' || ch == 'r' || ch
        == 't'
}

/// Whether `s` can stand between the quotes of a string.
pub open spec fn is_inside(s: Seq<char>) -> bool
    decreases s.len(),
{
    if s.len() == 0 {
        true
    } else if s[0] != '\\' {
        s[0] != '"' && s[0] as u32 >= 0x20 && is_inside(s.skip(1))
    } else if s.len() >= 2 && is_short_escape(s[1]) {
        is_inside(s.skip(2))
    } else {
        &&& s.len() >= 6
        &&& s[1] == 'u'
        &&& is_hex(s[2]) && is_hex(s[3]) && is_hex(s[4]) && is_hex(s[5])
        &&& is_inside(s.skip(6))
    }
}

/// Whether `s` is a string with its quotes.
pub open spec fn is_string(s: Seq<char>) -> bool {
    s.len() >= 2 && s[0] == '"' && s.last() == '"' && is_inside(s.subrange(1, s.len() - 1))
}

/// Whether `s` is the name of a member, with its colon and the space around.
pub open spec fn is_key(s: Seq<char>) -> bool {
    exists|before: Seq<char>, name: Seq<char>, between: Seq<char>, after: Seq<char>|
        is_blank(before) && is_string(name) && is_blank(between) && is_blank(after) && s
            == #[trigger] (before + name + between + ":"@ + after)
}

/// An element of a list or a member of an object: its value, and what stands
/// before and behind it.
pub struct Item {
    pub head: Seq<char>,
    pub value: Seq<char>,
    pub tail: Seq<char>,
}

impl Item {
    /// The text of the element or member.
    pub open spec fn written(self) -> Seq<char> {
        self.head + self.value + self.tail
    }
}

/// The texts of elements or members.
pub open spec fn written(items: Seq<Item>) -> Seq<Seq<char>> {
    Seq::new(items.len(), |i: int| items[i].written())
}

/// Whether `s` is a list of the elements `items`.
pub open spec fn is_list(s: Seq<char>, items: Seq<Item>) -> bool {
    &&& items.len() > 0
    &&& s == "["@ + text::join(written(items), ","@) + "]"@
    &&& forall|i: int| 0 <= i < items.len() ==> is_blank(#[trigger] items[i].head) && is_blank(
        items[i].tail,
    )
}

/// Whether `s` is an object of the members `items`.
pub open spec fn is_object(s: Seq<char>, items: Seq<Item>) -> bool {
    &&& items.len() > 0
    &&& s == "{"@ + text::join(written(items), ","@) + "}"@
    &&& forall|i: int| 0 <= i < items.len() ==> is_key(#[trigger] items[i].head) && is_blank(
        items[i].tail,
    )
}

/// Whether `s` is a list or an object without elements.
pub open spec fn is_empty(s: Seq<char>) -> bool {
    exists|inner: Seq<char>|
        #![trigger "["@ + inner + "]"@]
        #![trigger "{"@ + inner + "}"@]
        is_blank(inner) && (s == "["@ + inner + "]"@ || s == "{"@ + inner + "}"@)
}

/// Whether `s` is a JSON value.
#[verifier::opaque]
pub open spec fn is_value(s: Seq<char>) -> bool
    decreases s.len(),
{
    ||| s == "null"@ || s == "true"@ || s == "false"@
    ||| is_number(s)
    ||| is_string(s)
    ||| is_empty(s)
    ||| exists|items: Seq<Item>|
        #![trigger written(items)]
        (is_list(s, items) || is_object(s, items)) && forall|i: int|
            0 <= i < items.len() ==> items[i].value.len() < s.len() && is_value(
                #[trigger] items[i].value,
            )
}

/// Whether `s` is a JSON text: a value with space around it.
pub open spec fn is_json(s: Seq<char>) -> bool {
    exists|before: Seq<char>, value: Seq<char>, after: Seq<char>|
        is_blank(before) && is_value(value) && is_blank(after) && s == #[trigger] (before + value
            + after)
}

/// Whether a number is shown as JSON demands: where it is finite, its notation
/// is a JSON number.
pub open spec fn is_plain(number: RealView) -> bool {
    number.finite() ==> is_number(number.display)
}

/// Whether an optional number is shown as JSON demands.
pub open spec fn opt_plain(number: Option<RealView>) -> bool {
    match number {
        Some(inner) => is_plain(inner),
        None => true,
    }
}

/// Whether all numbers of a sequence are shown as JSON demands.
pub open spec fn all_plain(numbers: Seq<RealView>) -> bool {
    forall|i: int| 0 <= i < numbers.len() ==> is_plain(#[trigger] numbers[i])
}

/// Whether all members of an object have JSON values.
#[verifier::opaque]
pub open spec fn all_values(pairs: Seq<(Seq<char>, Seq<char>)>) -> bool {
    forall|i: int| 0 <= i < pairs.len() ==> is_value((#[trigger] pairs[i]).1)
}

/// A truth value is a value.
pub broadcast proof fn bool_is_value(flag: bool)
    ensures
        #[trigger] is_value(text::bool_text(flag)),
{
    reveal(is_value);
}

/// `null` is a value.
pub proof fn null_is_value()
    ensures
        is_value("null"@),
{
    reveal(is_value);
}

proof fn lemma_decimal_shape(n: nat)
    ensures
        is_whole(text::decimal(n)),
        n > 0 ==> text::decimal(n)[0] != '0',
    decreases n,
{
    assert('0' as u32 == 0x30);
    if n < 10 {
        assert(text::digit(n) as u32 == 0x30 + n);
    } else {
        lemma_decimal_shape(n / 10);
        assert(text::digit(n % 10) as u32 == 0x30 + n % 10);
        assert(text::decimal(n)[0] == text::decimal(n / 10)[0]);
    }
}

/// A count is a value.
pub broadcast proof fn count_is_value(n: nat)
    ensures
        #[trigger] is_value(text::decimal(n)),
{
    reveal(is_value);
    lemma_decimal_shape(n);
    let whole = text::decimal(n);
    let none = Seq::<char>::empty();
    assert(whole =~= whole + none + none);
    assert(is_unsigned(whole));
}

proof fn lemma_inside_char(ch: char, rest: Seq<char>)
    requires
        is_inside(rest),
    ensures
        is_inside(json::escaped_char(ch) + rest),
{
    let front = json::escaped_char(ch);
    let all = front + rest;
    assert(all.skip(front.len() as int) =~= rest);
    if ch != '"' && ch != '\\' && ch != '\n' && ch != '\r' && ch != '\t' && text::is_control(ch) {
        let code = ch as u32 as nat;
        assert(code <= 0x9f);
        assert(is_hex('0'));
        assert(is_hex(json::hex_digit(code / 16)));
        assert(is_hex(json::hex_digit(code % 16)));
        assert(!is_short_escape('u'));
    }
}

proof fn lemma_inside(s: Seq<char>, done: nat)
    requires
        done <= s.len(),
    ensures
        is_inside(json::escaped(s.skip(done as int))),
    decreases s.len() - done,
{
    let rest = s.skip(done as int);
    if done < s.len() {
        lemma_inside(s, done + 1);
        json::lemma_escaped_first(rest);
        assert(rest.skip(1) =~= s.skip((done + 1) as int));
        lemma_inside_char(rest[0], json::escaped(rest.skip(1)));
    }
}

/// What is written as a string has the form of a string.
pub proof fn string_is_string(s: Seq<char>)
    ensures
        is_string(json::string(s)),
{
    reveal_strlit("\"");
    lemma_inside(s, 0);
    assert(s.skip(0) =~= s);
    let all = json::string(s);
    assert(all.subrange(1, all.len() - 1) =~= json::escaped(s));
}

/// What is written as a string is a value.
pub broadcast proof fn string_is_value(s: Seq<char>)
    ensures
        #[trigger] is_value(json::string(s)),
{
    reveal(is_value);
    string_is_string(s);
}

/// A number that is shown as JSON demands is a value.
pub broadcast proof fn number_is_value(number: RealView)
    requires
        is_plain(number),
    ensures
        #[trigger] is_value(json::number(number)),
{
    reveal(is_value);
    string_is_string(number.display);
}

/// A number or `null` is a value.
pub broadcast proof fn opt_number_is_value(number: Option<RealView>)
    requires
        opt_plain(number),
    ensures
        #[trigger] is_value(json::opt_number(number)),
{
    null_is_value();
    if let Some(inner) = number {
        number_is_value(inner);
    }
}

/// A count or `null` is a value.
pub broadcast proof fn opt_count_is_value(count: Option<usize>)
    ensures
        #[trigger] is_value(json::opt_count(count)),
{
    null_is_value();
    if let Some(inner) = count {
        count_is_value(inner as nat);
    }
}

/// A rounded count or `null` is a value.
pub broadcast proof fn opt_rounded_is_value(count: Option<usize>)
    ensures
        #[trigger] is_value(json::opt_rounded(count)),
{
    null_is_value();
    if let Some(inner) = count {
        count_is_value(rounding::shown(inner as nat));
    }
}

/// A truth value or `null` is a value.
pub broadcast proof fn opt_flag_is_value(flag: Option<bool>)
    ensures
        #[trigger] is_value(json::opt_flag(flag)),
{
    null_is_value();
    if let Some(inner) = flag {
        bool_is_value(inner);
    }
}

/// A string or `null` is a value.
pub broadcast proof fn opt_string_is_value(s: Option<Seq<char>>)
    ensures
        #[trigger] is_value(json::opt_string(s)),
{
    null_is_value();
    if let Some(inner) = s {
        string_is_value(inner);
    }
}

proof fn lemma_join_length(parts: Seq<Seq<char>>, separator: Seq<char>, at: int)
    requires
        0 <= at < parts.len(),
    ensures
        parts[at].len() <= text::join(parts, separator).len(),
    decreases parts.len(),
{
    if parts.len() > 1 && at < parts.len() - 1 {
        lemma_join_length(parts.drop_last(), separator, at);
    }
}

/// The parts with `front` before each of them.
pub open spec fn fronted(parts: Seq<Seq<char>>, front: Seq<char>) -> Seq<Seq<char>> {
    Seq::new(parts.len(), |i: int| front + parts[i])
}

proof fn lemma_fronted(parts: Seq<Seq<char>>, separator: Seq<char>, front: Seq<char>)
    requires
        parts.len() > 0,
    ensures
        front + text::join(parts, separator + front) == text::join(
            fronted(parts, front),
            separator,
        ),
    decreases parts.len(),
{
    let all = fronted(parts, front);
    if parts.len() > 1 {
        lemma_fronted(parts.drop_last(), separator, front);
        assert(all.drop_last() =~= fronted(parts.drop_last(), front));
        let inner = text::join(parts.drop_last(), separator + front);
        assert(front + (inner + (separator + front) + parts.last()) =~= (front + inner) + separator
            + (front + parts.last()));
    }
}

proof fn lemma_last_grows(parts: Seq<Seq<char>>, separator: Seq<char>, tail: Seq<char>)
    requires
        parts.len() > 0,
    ensures
        text::join(parts, separator) + tail == text::join(
            parts.drop_last().push(parts.last() + tail),
            separator,
        ),
{
    let grown = parts.drop_last().push(parts.last() + tail);
    assert(grown.drop_last() =~= parts.drop_last());
    if parts.len() > 1 {
        let inner = text::join(parts.drop_last(), separator);
        assert((inner + separator + parts.last()) + tail =~= inner + separator + (parts.last()
            + tail));
    }
}

proof fn lemma_is_value(s: Seq<char>, items: Seq<Item>, open: Seq<char>, close: Seq<char>)
    requires
        items.len() > 0,
        is_list(s, items) || is_object(s, items),
        open.len() == 1,
        close.len() == 1,
        s == open + text::join(written(items), ","@) + close,
        forall|i: int| 0 <= i < items.len() ==> is_value(#[trigger] items[i].value),
    ensures
        is_value(s),
{
    reveal(is_value);
    assert forall|i: int| 0 <= i < items.len() implies items[i].value.len() < s.len() && is_value(
        #[trigger] items[i].value,
    ) by {
        lemma_join_length(written(items), ","@, i);
        assert(written(items)[i] == items[i].written());
    }
}

/// The space behind item `at` of `n`: `tail` behind the last one.
pub open spec fn tail_of(at: int, n: nat, tail: Seq<char>) -> Seq<char> {
    if at == n - 1 {
        tail
    } else {
        Seq::empty()
    }
}

proof fn lemma_laid_out(
    heads: Seq<Seq<char>>,
    values: Seq<Seq<char>>,
    front: Seq<char>,
    tail: Seq<char>,
) -> (items: Seq<Item>)
    requires
        heads.len() == values.len(),
        heads.len() > 0,
    ensures
        items.len() == heads.len(),
        forall|i: int|
            0 <= i < items.len() ==> (#[trigger] items[i]) == (Item {
                head: front + heads[i],
                value: values[i],
                tail: tail_of(i, heads.len(), tail),
            }),
        front + text::join(Seq::new(heads.len(), |i: int| heads[i] + values[i]), ","@ + front)
            + tail == text::join(written(items), ","@),
{
    let n = heads.len();
    let parts = Seq::new(n, |i: int| heads[i] + values[i]);
    let items = Seq::new(
        n,
        |i: int| Item { head: front + heads[i], value: values[i], tail: tail_of(i, n, tail) },
    );
    let all = fronted(parts, front);
    lemma_fronted(parts, ","@, front);
    lemma_last_grows(all, ","@, tail);
    let grown = all.drop_last().push(all.last() + tail);
    assert forall|i: int| 0 <= i < n implies #[trigger] grown[i] == written(items)[i] by {
        if i < n - 1 {
            assert(grown[i] =~= front + (heads[i] + values[i]));
            assert(items[i].written() =~= front + (heads[i] + values[i]));
        } else {
            assert(grown[i] =~= front + (heads[i] + values[i]) + tail);
            assert(items[i].written() =~= front + (heads[i] + values[i]) + tail);
        }
    }
    assert(grown =~= written(items));
    items
}

proof fn lemma_key(front: Seq<char>, indent: nat, name: Seq<char>)
    requires
        is_blank(front),
    ensures
        is_key(front + json::key(indent, name)),
{
    reveal_strlit(": ");
    reveal_strlit(":");
    reveal_strlit(" ");
    let before = front + json::blanks(indent);
    string_is_string(name);
    assert(front + json::key(indent, name) =~= before + json::string(name) + Seq::<char>::empty()
        + ":"@ + " "@);
}

/// An object is a value where its members have values.
pub broadcast proof fn object_is_value(indent: nat, pairs: Seq<(Seq<char>, Seq<char>)>)
    requires
        all_values(pairs),
    ensures
        #[trigger] is_value(json::object(indent, pairs)),
{
    reveal(all_values);
    reveal_strlit("{\n");
    reveal_strlit("\n");
    reveal_strlit("{");
    reveal_strlit("}");
    reveal_strlit(",\n");
    reveal_strlit(",");
    let s = json::object(indent, pairs);
    let tail = "\n"@ + json::blanks(indent);
    if pairs.len() == 0 {
        reveal(is_value);
        let inner = "\n"@ + tail;
        assert(s =~= "{"@ + inner + "}"@);
        assert(is_blank(inner));
        assert(is_empty(s));
    } else {
        let heads = Seq::new(pairs.len(), |i: int| json::key(indent + 2, pairs[i].0));
        let values = Seq::new(pairs.len(), |i: int| pairs[i].1);
        let items = lemma_laid_out(heads, values, "\n"@, tail);
        let parts = Seq::new(heads.len(), |i: int| heads[i] + values[i]);
        assert(parts =~= json::members(indent + 2, pairs));
        assert(","@ + "\n"@ =~= ",\n"@);
        assert(s =~= "{"@ + ("\n"@ + text::join(parts, ",\n"@) + tail) + "}"@);
        assert forall|i: int| 0 <= i < items.len() implies is_key(#[trigger] items[i].head)
            && is_blank(items[i].tail) by {
            lemma_key("\n"@, indent + 2, pairs[i].0);
        }
        assert forall|i: int| 0 <= i < items.len() implies is_value(#[trigger] items[i].value) by {
            assert(is_value(pairs[i].1));
        }
        assert(is_object(s, items));
        lemma_is_value(s, items, "{"@, "}"@);
    }
}

/// A list over lines is a value where its items are.
pub broadcast proof fn listing_is_value(indent: nat, parts: Seq<Seq<char>>)
    requires
        forall|i: int| 0 <= i < parts.len() ==> is_value(#[trigger] parts[i]),
    ensures
        #[trigger] is_value(json::listing(indent, parts)),
{
    reveal_strlit("[\n");
    reveal_strlit("\n");
    reveal_strlit("[");
    reveal_strlit("]");
    reveal_strlit(",\n");
    reveal_strlit(",");
    let s = json::listing(indent, parts);
    if parts.len() == 0 {
        reveal(is_value);
        let inner = "\n"@ + json::blanks(indent);
        assert(s =~= "["@ + inner + "]"@);
        assert(is_blank(inner));
        assert(is_empty(s));
    } else {
        let tail = "\n"@ + json::blanks(indent);
        let heads = Seq::new(parts.len(), |i: int| json::blanks(indent + 2));
        let items = lemma_laid_out(heads, parts, "\n"@, tail);
        let inner = Seq::new(parts.len(), |i: int| json::blanks(indent + 2) + parts[i]);
        assert(inner =~= Seq::new(heads.len(), |i: int| heads[i] + parts[i]));
        assert(","@ + "\n"@ =~= ",\n"@);
        assert(s =~= "["@ + ("\n"@ + text::join(inner, ",\n"@) + tail) + "]"@);
        assert(is_list(s, items));
        lemma_is_value(s, items, "["@, "]"@);
    }
}

/// A list on one line is a value where its items are.
pub proof fn inline_is_value(parts: Seq<Seq<char>>)
    requires
        forall|i: int| 0 <= i < parts.len() ==> is_value(#[trigger] parts[i]),
    ensures
        is_value(json::inline(parts)),
{
    reveal_strlit("[");
    reveal_strlit("]");
    reveal_strlit(", ");
    reveal_strlit(",");
    reveal_strlit(" ");
    let s = json::inline(parts);
    let none = Seq::<char>::empty();
    if parts.len() == 0 {
        reveal(is_value);
        assert(s =~= "["@ + none + "]"@);
        assert(is_empty(s));
    } else {
        let heads = Seq::new(parts.len(), |i: int| none);
        let spaced = lemma_laid_out(heads, parts, " "@, none);
        let items = spaced.update(0, Item { head: none, ..spaced[0] });
        assert(","@ + " "@ =~= ", "@);
        assert(parts =~= Seq::new(heads.len(), |i: int| heads[i] + parts[i]));
        lemma_first_shrinks(written(spaced), written(items), ","@, " "@);
        let all = text::join(written(spaced), ","@);
        assert(all.skip(1) =~= text::join(parts, ", "@));
        assert(all.skip(1) =~= text::join(written(items), ","@));
        assert(is_list(s, items));
        lemma_is_value(s, items, "["@, "]"@);
    }
}

proof fn lemma_first_shrinks(
    parts: Seq<Seq<char>>,
    fewer: Seq<Seq<char>>,
    separator: Seq<char>,
    front: Seq<char>,
)
    requires
        parts.len() > 0,
        fewer.len() == parts.len(),
        parts[0] == front + fewer[0],
        forall|i: int| 0 < i < parts.len() ==> #[trigger] parts[i] == fewer[i],
    ensures
        text::join(parts, separator) == front + text::join(fewer, separator),
    decreases parts.len(),
{
    if parts.len() > 1 {
        lemma_first_shrinks(parts.drop_last(), fewer.drop_last(), separator, front);
        let inner = text::join(fewer.drop_last(), separator);
        assert((front + inner) + separator + parts.last() =~= front + (inner + separator
            + fewer.last()));
    }
}

/// A list of strings is a value.
pub broadcast proof fn strings_are_value(parts: Seq<Seq<char>>)
    ensures
        #[trigger] is_value(json::strings(parts)),
{
    let shown = Seq::new(parts.len(), |i: int| json::string(parts[i]));
    assert forall|i: int| 0 <= i < shown.len() implies is_value(#[trigger] shown[i]) by {
        string_is_value(parts[i]);
    }
    inline_is_value(shown);
}

/// A list of numbers is a value where they are shown as JSON demands.
pub broadcast proof fn numbers_are_value(values: Seq<RealView>)
    requires
        all_plain(values),
    ensures
        #[trigger] is_value(json::numbers(values)),
{
    let shown = Seq::new(values.len(), |i: int| json::number(values[i]));
    assert forall|i: int| 0 <= i < shown.len() implies is_value(#[trigger] shown[i]) by {
        assert(is_plain(values[i]));
        number_is_value(values[i]);
    }
    inline_is_value(shown);
}

/// A list of truth values is a value.
pub broadcast proof fn flags_are_value(values: Seq<bool>)
    ensures
        #[trigger] is_value(json::flags(values)),
{
    let shown = Seq::new(values.len(), |i: int| text::bool_text(values[i]));
    assert forall|i: int| 0 <= i < shown.len() implies is_value(#[trigger] shown[i]) by {
        bool_is_value(values[i]);
    }
    inline_is_value(shown);
}

/// Without members, no value is missing.
pub broadcast proof fn none_has_values()
    ensures
        #[trigger] all_values(Seq::<(Seq<char>, Seq<char>)>::empty()),
{
    reveal(all_values);
}

/// One member more with a value leaves all with values.
pub broadcast proof fn one_more_has_values(
    pairs: Seq<(Seq<char>, Seq<char>)>,
    pair: (Seq<char>, Seq<char>),
)
    requires
        all_values(pairs),
        is_value(pair.1),
    ensures
        #[trigger] all_values(pairs.push(pair)),
{
    reveal(all_values);
    let more = pairs.push(pair);
    assert forall|i: int| 0 <= i < more.len() implies is_value((#[trigger] more[i]).1) by {
        if i < pairs.len() {
            assert(more[i] == pairs[i]);
        }
    }
}

/// A value with a line feed behind it is a JSON text.
pub broadcast proof fn line_is_json(value: Seq<char>)
    requires
        is_value(value),
    ensures
        #[trigger] is_json(value + "\n"@),
{
    reveal_strlit("\n");
    let none = Seq::<char>::empty();
    assert(value + "\n"@ =~= none + value + "\n"@);
    assert(is_blank("\n"@));
}

/// What the texts of [`crate::json`] are.
pub broadcast group group_values {
    bool_is_value,
    count_is_value,
    string_is_value,
    number_is_value,
    opt_number_is_value,
    opt_count_is_value,
    opt_rounded_is_value,
    opt_flag_is_value,
    opt_string_is_value,
    object_is_value,
    strings_are_value,
    numbers_are_value,
    flags_are_value,
    none_has_values,
    one_more_has_values,
    line_is_json,
}

} // verus!
