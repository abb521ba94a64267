//! JSON texts: strings, and objects and lists laid out over lines.

use crate::reals;
use crate::reals::{Real, RealView};
use crate::rounding;
use crate::text;
use vstd::prelude::*;

verus! {

/// The lower-case hexadecimal digit of a number below sixteen.
pub open spec fn hex_digit(n: nat) -> char {
    if n < 10 {
        (0x30 + n) as char
    } else {
        (0x57 + n) as char
    }
}

/// What stands for `ch` inside a JSON string.
pub open spec fn escaped_char(ch: char) -> Seq<char> {
    if ch == '"' {
        seq!['\\', '"']
    } else if ch == '\\' {
        seq!['\\', '\\']
    } else if ch == '\n' {
        seq!['\\', 'n']
    } else if ch == '\r' {
        seq!['\\', 'r']
    } else if ch == '\t' {
        seq!['\\', 't']
    } else if text::is_control(ch) {
        let code = ch as u32 as nat;
        seq!['\\', 'u', '0', '0', hex_digit(code / 16), hex_digit(code % 16)]
    } else {
        seq![ch]
    }
}

/// What stands for `s` inside a JSON string.
pub open spec fn escaped(s: Seq<char>) -> Seq<char>
    decreases s.len(),
{
    if s.len() == 0 {
        Seq::empty()
    } else {
        escaped(s.drop_last()) + escaped_char(s.last())
    }
}

/// The JSON string of `s`.
pub open spec fn string(s: Seq<char>) -> Seq<char> {
    "\""@ + escaped(s) + "\""@
}

/// `n` blanks.
pub open spec fn blanks(n: nat) -> Seq<char> {
    Seq::new(n, |i: int| ' ')
}

/// A key with the blanks in front of it.
pub open spec fn key(indent: nat, name: Seq<char>) -> Seq<char> {
    blanks(indent) + string(name) + ": "@
}

/// The lines of the members of an object.
pub open spec fn members(indent: nat, pairs: Seq<(Seq<char>, Seq<char>)>) -> Seq<Seq<char>> {
    Seq::new(pairs.len(), |i: int| key(indent, pairs[i].0) + pairs[i].1)
}

/// An object whose closing brace stands behind `indent` blanks, with each member
/// on lines of its own.
pub open spec fn object(indent: nat, pairs: Seq<(Seq<char>, Seq<char>)>) -> Seq<char> {
    "{\n"@ + text::join(members(indent + 2, pairs), ",\n"@) + "\n"@ + blanks(indent) + "}"@
}

/// A list whose closing bracket stands behind `indent` blanks, with each item on
/// lines of its own.
pub open spec fn listing(indent: nat, items: Seq<Seq<char>>) -> Seq<char> {
    let inner = Seq::new(items.len(), |i: int| blanks(indent + 2) + items[i]);
    if items.len() == 0 {
        "[\n"@ + blanks(indent) + "]"@
    } else {
        "[\n"@ + text::join(inner, ",\n"@) + "\n"@ + blanks(indent) + "]"@
    }
}

/// A list on one line.
pub open spec fn inline(items: Seq<Seq<char>>) -> Seq<char> {
    "["@ + text::join(items, ", "@) + "]"@
}

/// A list of strings on one line.
pub open spec fn strings(items: Seq<Seq<char>>) -> Seq<char> {
    inline(Seq::new(items.len(), |i: int| string(items[i])))
}

/// A number, or a string where JSON has no number for it.
pub open spec fn number(value: RealView) -> Seq<char> {
    if value.finite() {
        value.display
    } else {
        string(value.display)
    }
}

/// A number or `null`.
pub open spec fn opt_number(value: Option<RealView>) -> Seq<char> {
    match value {
        Some(inner) => number(inner),
        None => "null"@,
    }
}

/// A count or `null`.
pub open spec fn opt_count(value: Option<usize>) -> Seq<char> {
    match value {
        Some(inner) => text::decimal(inner as nat),
        None => "null"@,
    }
}

/// A count, as a double-precision number shows it, or `null`.
pub open spec fn opt_rounded(value: Option<usize>) -> Seq<char> {
    match value {
        Some(inner) => text::decimal(rounding::shown(inner as nat)),
        None => "null"@,
    }
}

/// A truth value or `null`.
pub open spec fn opt_flag(value: Option<bool>) -> Seq<char> {
    match value {
        Some(inner) => text::bool_text(inner),
        None => "null"@,
    }
}

/// A string or `null`.
pub open spec fn opt_string(value: Option<Seq<char>>) -> Seq<char> {
    match value {
        Some(inner) => string(inner),
        None => "null"@,
    }
}

/// A list of numbers on one line.
pub open spec fn numbers(values: Seq<RealView>) -> Seq<char> {
    inline(Seq::new(values.len(), |i: int| number(values[i])))
}

/// A list of truth values on one line.
pub open spec fn flags(values: Seq<bool>) -> Seq<char> {
    inline(Seq::new(values.len(), |i: int| text::bool_text(values[i])))
}

/// The value of a hexadecimal digit.
pub open spec fn hex_value(ch: char) -> nat {
    let code = ch as u32;
    if code < 0x41 {
        (code - 0x30) as nat
    } else {
        (code - 0x57) as nat
    }
}

/// What the inside of a JSON string stands for.
pub open spec fn unescaped(s: Seq<char>) -> Seq<char>
    decreases s.len(),
{
    if s.len() == 0 {
        Seq::empty()
    } else if s[0] != '\\' || s.len() < 2 {
        seq![s[0]] + unescaped(s.skip(1))
    } else if s[1] == 'n' {
        seq!['\n'] + unescaped(s.skip(2))
    } else if s[1] == 'r' {
        seq!['\r'] + unescaped(s.skip(2))
    } else if s[1] == 't' {
        seq!['\t'] + unescaped(s.skip(2))
    } else if s[1] == 'u' && s.len() >= 6 {
        let code = ((hex_value(s[2]) * 16 + hex_value(s[3])) * 16 + hex_value(s[4])) * 16
            + hex_value(s[5]);
        seq![code as char] + unescaped(s.skip(6))
    } else {
        seq![s[1]] + unescaped(s.skip(2))
    }
}

/// Reading back what was written gives the text that was written.
pub proof fn unescaped_reads_escaped(s: Seq<char>)
    ensures
        unescaped(escaped(s)) == s,
    decreases s.len(),
{
    if s.len() > 0 {
        lemma_escaped_first(s);
        unescaped_reads_escaped(s.skip(1));
        let rest = escaped(s.skip(1));
        lemma_unescaped_char(s[0], rest);
        assert(seq![s[0]] + s.skip(1) =~= s);
    }
}

pub(crate) proof fn lemma_escaped_first(s: Seq<char>)
    requires
        s.len() > 0,
    ensures
        escaped(s) == escaped_char(s[0]) + escaped(s.skip(1)),
    decreases s.len(),
{
    if s.len() == 1 {
        assert(s.drop_last() =~= Seq::empty());
        assert(s.skip(1) =~= Seq::empty());
        assert(escaped(s) =~= escaped_char(s[0]) + escaped(s.skip(1)));
    } else {
        lemma_escaped_first(s.drop_last());
        assert(s.drop_last().skip(1) =~= s.skip(1).drop_last());
        assert(escaped(s) =~= escaped_char(s[0]) + (escaped(s.skip(1).drop_last()) + escaped_char(
            s.last(),
        )));
    }
}

proof fn lemma_unescaped_char(ch: char, rest: Seq<char>)
    ensures
        unescaped(escaped_char(ch) + rest) == seq![ch] + unescaped(rest),
{
    let front = escaped_char(ch);
    let all = front + rest;
    assert(all.skip(front.len() as int) =~= rest);
    if ch != '"' && ch != '\\' && ch != '\n' && ch != '\r' && ch != '\t' && text::is_control(ch) {
        let code = ch as u32 as nat;
        assert(code <= 0x9f);
        assert(hex_value('0') == 0);
        assert(hex_value(hex_digit(code / 16)) == code / 16);
        assert(hex_value(hex_digit(code % 16)) == code % 16);
        assert(code as char == ch);
    }
}

/// No control character is left inside a JSON string.
pub proof fn escaped_has_no_control(s: Seq<char>)
    ensures
        forall|i: int| 0 <= i < escaped(s).len() ==> !text::is_control(#[trigger] escaped(s)[i]),
    decreases s.len(),
{
    if s.len() > 0 {
        escaped_has_no_control(s.drop_last());
        let head = escaped(s.drop_last());
        let tail = escaped_char(s.last());
        assert(forall|i: int| 0 <= i < tail.len() ==> !text::is_control(#[trigger] tail[i]));
        assert forall|i: int| 0 <= i < escaped(s).len() implies !text::is_control(
            #[trigger] escaped(s)[i],
        ) by {
            if i < head.len() {
                assert(escaped(s)[i] == head[i]);
            } else {
                assert(escaped(s)[i] == tail[i - head.len()]);
            }
        }
    }
}

/// Appends the JSON string of `value`.
pub fn write_json_string(out: &mut String, value: &str)
    ensures
        final(out)@ == old(out)@ + string(value@),
{
    let quoted = string_text(value);
    out.append(quoted.as_str());
}

fn hex_char(n: u32) -> (ch: char)
    requires
        n < 16,
    ensures
        ch == hex_digit(n as nat),
{
    if n < 10 {
        (0x30u8 + n as u8) as char
    } else {
        (0x57u8 + n as u8) as char
    }
}

/// The JSON string of `value`.
pub fn string_text(value: &str) -> (out: String)
    ensures
        out@ == string(value@),
{
    let chars = text::chars_of(value);
    let mut out = "\"".to_string();
    let mut i: usize = 0;
    assert(escaped(chars@.take(0)) =~= Seq::empty());
    assert(out@ =~= "\""@ + Seq::<char>::empty());
    while i < chars.len()
        invariant
            i <= chars@.len(),
            chars@ == value@,
            out@ == "\""@ + escaped(chars@.take(i as int)),
        decreases chars@.len() - i,
    {
        let ch: char = chars[i];
        let ghost before = out@;
        let ghost done = escaped(chars@.take(i as int));
        assert(chars@.take(i + 1).drop_last() =~= chars@.take(i as int));
        if ch == '"' {
            out.push('\\');
            out.push('"');
        } else if ch == '\\' {
            out.push('\\');
            out.push('\\');
        } else if ch == '\n' {
            out.push('\\');
            out.push('n');
        } else if ch == '\r' {
            out.push('\\');
            out.push('r');
        } else if ch == '\t' {
            out.push('\\');
            out.push('t');
        } else {
            let code: u32 = ch as u32;
            if code <= 0x1f || (0x7f <= code && code <= 0x9f) {
                out.push('\\');
                out.push('u');
                out.push('0');
                out.push('0');
                out.push(hex_char(code / 16));
                out.push(hex_char(code % 16));
            } else {
                out.push(ch);
            }
        }
        assert(out@ =~= before + escaped_char(ch));
        assert(out@ =~= "\""@ + (done + escaped_char(ch)));
        i += 1;
    }
    assert(chars@.take(i as int) =~= chars@);
    out.append("\"");
    out
}

/// `n` blanks.
pub fn blank_text(n: usize) -> (out: String)
    ensures
        out@ == blanks(n as nat),
{
    let mut out = String::new();
    let mut i: usize = 0;
    while i < n
        invariant
            i <= n,
            out@ == blanks(i as nat),
        decreases n - i,
    {
        out.push(' ');
        assert(out@ =~= blanks((i + 1) as nat));
        i += 1;
    }
    out
}

/// A number, or a string where JSON has no number for it.
pub fn number_text(value: &Real) -> (out: String)
    ensures
        out@ == number(value@),
{
    if value.is_finite() {
        value.display.clone()
    } else {
        string_text(value.display.as_str())
    }
}

/// A number or `null`.
pub fn opt_number_text(value: &Option<Real>) -> (out: String)
    ensures
        out@ == opt_number(reals::opt_real(*value)),
{
    match value {
        Some(inner) => number_text(inner),
        None => "null".to_string(),
    }
}

/// A count or `null`.
pub fn opt_count_text(value: Option<usize>) -> (out: String)
    ensures
        out@ == opt_count(value),
{
    match value {
        Some(inner) => text::number_text(inner),
        None => "null".to_string(),
    }
}

/// A count, as a double-precision number shows it, or `null`.
pub fn opt_rounded_text(value: Option<usize>) -> (out: String)
    ensures
        out@ == opt_rounded(value),
{
    match value {
        Some(inner) => rounding::rounded_text(inner),
        None => "null".to_string(),
    }
}

/// A truth value or `null`.
pub fn opt_flag_text(value: Option<bool>) -> (out: String)
    ensures
        out@ == opt_flag(value),
{
    match value {
        Some(inner) => text::flag_text(inner).to_string(),
        None => "null".to_string(),
    }
}

/// A string or `null`.
pub fn opt_string_text(value: &Option<String>) -> (out: String)
    ensures
        out@ == opt_string(text::opt_text(*value)),
{
    match value {
        Some(inner) => string_text(inner.as_str()),
        None => "null".to_string(),
    }
}

fn inline_text(items: &Vec<String>) -> (out: String)
    ensures
        out@ == inline(text::texts(items@)),
{
    let mut out = "[".to_string();
    out.append(text::joined(items, ", ").as_str());
    out.append("]");
    out
}

/// A list of strings on one line.
pub fn strings_text(items: &Vec<String>) -> (out: String)
    ensures
        out@ == strings(text::texts(items@)),
{
    let ghost all = text::texts(items@);
    let ghost wanted = Seq::new(all.len(), |i: int| string(all[i]));
    let mut parts: Vec<String> = Vec::new();
    let mut i: usize = 0;
    while i < items.len()
        invariant
            i <= items@.len(),
            all == text::texts(items@),
            wanted == Seq::new(all.len(), |i: int| string(all[i])),
            text::texts(parts@) == wanted.take(i as int),
        decreases items@.len() - i,
    {
        let ghost earlier = text::texts(parts@);
        parts.push(string_text(items[i].as_str()));
        assert(text::texts(parts@) =~= earlier.push(wanted[i as int]));
        i += 1;
    }
    assert(text::texts(parts@) =~= wanted);
    inline_text(&parts)
}

/// A list of numbers on one line.
pub fn numbers_text(values: &[Real]) -> (out: String)
    ensures
        out@ == numbers(reals::real_views(values@)),
{
    let ghost all = reals::real_views(values@);
    let ghost wanted = Seq::new(all.len(), |i: int| number(all[i]));
    let mut parts: Vec<String> = Vec::new();
    let mut i: usize = 0;
    while i < values.len()
        invariant
            i <= values@.len(),
            all == reals::real_views(values@),
            wanted == Seq::new(all.len(), |i: int| number(all[i])),
            text::texts(parts@) == wanted.take(i as int),
        decreases values@.len() - i,
    {
        let ghost earlier = text::texts(parts@);
        parts.push(number_text(&values[i]));
        assert(text::texts(parts@) =~= earlier.push(wanted[i as int]));
        i += 1;
    }
    assert(text::texts(parts@) =~= wanted);
    inline_text(&parts)
}

/// A list of truth values on one line.
pub fn flags_text(values: &[bool]) -> (out: String)
    ensures
        out@ == flags(values@),
{
    let ghost all = values@;
    let ghost wanted = Seq::new(all.len(), |i: int| text::bool_text(all[i]));
    let mut parts: Vec<String> = Vec::new();
    let mut i: usize = 0;
    while i < values.len()
        invariant
            i <= values@.len(),
            all == values@,
            wanted == Seq::new(all.len(), |i: int| text::bool_text(all[i])),
            text::texts(parts@) == wanted.take(i as int),
        decreases values@.len() - i,
    {
        let ghost earlier = text::texts(parts@);
        parts.push(text::flag_text(values[i]).to_string());
        assert(text::texts(parts@) =~= earlier.push(wanted[i as int]));
        i += 1;
    }
    assert(text::texts(parts@) =~= wanted);
    inline_text(&parts)
}

/// The members of an object that is being written.
pub struct JsonObject {
    pairs: Vec<(String, String)>,
}

impl View for JsonObject {
    type V = Seq<(Seq<char>, Seq<char>)>;

    closed spec fn view(&self) -> Seq<(Seq<char>, Seq<char>)> {
        Seq::new(self.pairs@.len(), |i: int| (self.pairs@[i].0@, self.pairs@[i].1@))
    }
}

impl JsonObject {
    /// An object without members.
    pub fn new() -> (made: JsonObject)
        ensures
            made@ == Seq::<(Seq<char>, Seq<char>)>::empty(),
    {
        let made = JsonObject { pairs: Vec::new() };
        assert(made@ =~= Seq::empty());
        made
    }

    /// Adds a member with a value that is a JSON text.
    pub fn put(&mut self, name: &str, value: String)
        ensures
            final(self)@ == old(self)@.push((name@, value@)),
    {
        self.pairs.push((name.to_string(), value));
        assert(self@ =~= old(self)@.push((name@, value@)));
    }

    /// Adds a string.
    pub fn string(&mut self, name: &str, value: &str)
        ensures
            final(self)@ == old(self)@.push((name@, string(value@))),
    {
        self.put(name, string_text(value));
    }

    /// Adds a count.
    pub fn count(&mut self, name: &str, value: usize)
        ensures
            final(self)@ == old(self)@.push((name@, text::decimal(value as nat))),
    {
        self.put(name, text::number_text(value));
    }

    /// Adds a truth value.
    pub fn flag(&mut self, name: &str, value: bool)
        ensures
            final(self)@ == old(self)@.push((name@, text::bool_text(value))),
    {
        self.put(name, text::flag_text(value).to_string());
    }

    /// Adds a number.
    pub fn number(&mut self, name: &str, value: &Real)
        ensures
            final(self)@ == old(self)@.push((name@, number(value@))),
    {
        self.put(name, number_text(value));
    }

    /// Adds a number or `null`.
    pub fn opt_number(&mut self, name: &str, value: &Option<Real>)
        ensures
            final(self)@ == old(self)@.push((name@, opt_number(reals::opt_real(*value)))),
    {
        self.put(name, opt_number_text(value));
    }

    /// Adds a count or `null`.
    pub fn opt_count(&mut self, name: &str, value: Option<usize>)
        ensures
            final(self)@ == old(self)@.push((name@, opt_count(value))),
    {
        self.put(name, opt_count_text(value));
    }

    /// Adds a truth value or `null`.
    pub fn opt_flag(&mut self, name: &str, value: Option<bool>)
        ensures
            final(self)@ == old(self)@.push((name@, opt_flag(value))),
    {
        self.put(name, opt_flag_text(value));
    }

    /// Adds a string or `null`.
    pub fn opt_string(&mut self, name: &str, value: &Option<String>)
        ensures
            final(self)@ == old(self)@.push((name@, opt_string(text::opt_text(*value)))),
    {
        self.put(name, opt_string_text(value));
    }

    /// The text of the object.
    pub fn render(&self, indent: usize) -> (out: String)
        requires
            indent + 2 <= usize::MAX,
        ensures
            out@ == object(indent as nat, self@),
    {
        let ghost wanted = members(indent as nat + 2, self@);
        let mut lines: Vec<String> = Vec::new();
        let mut i: usize = 0;
        while i < self.pairs.len()
            invariant
                i <= self.pairs@.len(),
                indent + 2 <= usize::MAX,
                wanted == members(indent as nat + 2, self@),
                text::texts(lines@) == wanted.take(i as int),
            decreases self.pairs@.len() - i,
        {
            let mut line = blank_text(indent + 2);
            line.append(string_text(self.pairs[i].0.as_str()).as_str());
            line.append(": ");
            line.append(self.pairs[i].1.as_str());
            assert(line@ == wanted[i as int]);
            let ghost earlier = text::texts(lines@);
            lines.push(line);
            assert(text::texts(lines@) =~= earlier.push(wanted[i as int]));
            i += 1;
        }
        assert(text::texts(lines@) =~= wanted);
        let mut out = "{\n".to_string();
        out.append(text::joined(&lines, ",\n").as_str());
        out.append("\n");
        out.append(blank_text(indent).as_str());
        out.append("}");
        out
    }
}

/// The text of a list with each item on lines of its own.
pub fn listing_text(indent: usize, items: &Vec<String>) -> (out: String)
    requires
        indent + 2 <= usize::MAX,
    ensures
        out@ == listing(indent as nat, text::texts(items@)),
{
    let ghost all = text::texts(items@);
    let ghost wanted = Seq::new(all.len(), |i: int| blanks(indent as nat + 2) + all[i]);
    let mut lines: Vec<String> = Vec::new();
    let mut i: usize = 0;
    while i < items.len()
        invariant
            i <= items@.len(),
            indent + 2 <= usize::MAX,
            all == text::texts(items@),
            wanted == Seq::new(all.len(), |i: int| blanks(indent as nat + 2) + all[i]),
            text::texts(lines@) == wanted.take(i as int),
        decreases items@.len() - i,
    {
        let mut line = blank_text(indent + 2);
        line.append(items[i].as_str());
        let ghost earlier = text::texts(lines@);
        lines.push(line);
        assert(text::texts(lines@) =~= earlier.push(wanted[i as int]));
        i += 1;
    }
    assert(text::texts(lines@) =~= wanted);
    let mut out = "[\n".to_string();
    if !items.is_empty() {
        out.append(text::joined(&lines, ",\n").as_str());
        out.append("\n");
    }
    out.append(blank_text(indent).as_str());
    out.append("]");
    out
}

} // verus!
