//! Lines of text and rows of tables.

use crate::reals;
use crate::reals::Real;
use crate::reals::RealView;
use crate::text;
use vstd::prelude::*;

verus! {

/// The text of lines, each ended by a line feed.
pub open spec fn lines_text(lines: Seq<Seq<char>>) -> Seq<char>
    decreases lines.len(),
{
    if lines.len() == 0 {
        Seq::empty()
    } else {
        lines_text(lines.drop_last()) + lines.last() + "\n"@
    }
}

/// A row of a Markdown table.
pub open spec fn table_row(cells: Seq<Seq<char>>) -> Seq<char> {
    "| "@ + text::join(cells, " | "@) + " |"@
}

/// A row with a name and a value.
pub open spec fn named_row(name: Seq<char>, value: Seq<char>) -> Seq<char> {
    table_row(Seq::empty().push(name).push(value))
}

/// `yes` or `no`.
pub open spec fn yes_no(value: bool) -> Seq<char> {
    if value {
        "yes"@
    } else {
        "no"@
    }
}

/// `yes`, `no` or `missing`.
pub open spec fn opt_yes_no(value: Option<bool>) -> Seq<char> {
    match value {
        Some(inner) => yes_no(inner),
        None => "missing"@,
    }
}

/// A count, or `default` where there is none.
pub open spec fn count_or(value: Option<usize>, default: Seq<char>) -> Seq<char> {
    match value {
        Some(inner) => text::decimal(inner as nat),
        None => default,
    }
}

/// A number with an exponent, or `n/a`.
pub open spec fn opt_scientific(value: Option<RealView>) -> Seq<char> {
    match value {
        Some(inner) => inner.scientific,
        None => "n/a"@,
    }
}

/// A number, or `missing`.
pub open spec fn opt_display(value: Option<RealView>) -> Seq<char> {
    match value {
        Some(inner) => inner.display,
        None => "missing"@,
    }
}

/// A text, or `default` where there is none.
pub open spec fn text_or(value: Option<Seq<char>>, default: Seq<char>) -> Seq<char> {
    match value {
        Some(inner) => inner,
        None => default,
    }
}

/// `name` behind its region, where it has one.
pub open spec fn regional(region: Option<Seq<char>>, name: Seq<char>) -> Seq<char> {
    match region {
        Some(inner) => inner + "/"@ + name,
        None => name,
    }
}

/// Two texts with a slash between them.
pub open spec fn pair(first: Seq<char>, second: Seq<char>) -> Seq<char> {
    first + " / "@ + second
}

/// Three texts with slashes between them.
pub open spec fn triple(first: Seq<char>, second: Seq<char>, third: Seq<char>) -> Seq<char> {
    first + " / "@ + second + " / "@ + third
}

/// A list of texts.
#[derive(Debug)]
pub struct TextList {
    parts: Vec<String>,
}

impl View for TextList {
    type V = Seq<Seq<char>>;

    closed spec fn view(&self) -> Seq<Seq<char>> {
        text::texts(self.parts@)
    }
}

impl TextList {
    /// A list without texts.
    pub fn new() -> (list: TextList)
        ensures
            list@ == Seq::<Seq<char>>::empty(),
    {
        let list = TextList { parts: Vec::new() };
        assert(list@ =~= Seq::empty());
        list
    }

    /// Adds a text.
    pub fn push(&mut self, part: String)
        ensures
            final(self)@ == old(self)@.push(part@),
    {
        self.parts.push(part);
        assert(self@ =~= old(self)@.push(part@));
    }

    /// Adds a text.
    pub fn add(&mut self, part: &str)
        ensures
            final(self)@ == old(self)@.push(part@),
    {
        self.push(part.to_string());
    }

    /// Adds an empty text.
    pub fn blank(&mut self)
        ensures
            final(self)@ == old(self)@.push(Seq::empty()),
    {
        self.push(String::new());
    }

    /// Adds the row of these cells.
    pub fn row(&mut self, cells: &TextList)
        ensures
            final(self)@ == old(self)@.push(table_row(cells@)),
    {
        let mut row = "| ".to_string();
        row.append(text::joined(&cells.parts, " | ").as_str());
        row.append(" |");
        self.push(row);
    }

    /// Adds a row with a name and a value.
    pub fn named(&mut self, name: &str, value: &str)
        ensures
            final(self)@ == old(self)@.push(named_row(name@, value@)),
    {
        let mut cells = TextList::new();
        cells.add(name);
        cells.add(value);
        self.row(&cells);
    }

    /// Adds the texts of another list.
    pub fn extend(&mut self, other: TextList)
        ensures
            final(self)@ == old(self)@ + other@,
    {
        let mut other = other;
        let ghost added = other@;
        self.parts.append(&mut other.parts);
        assert(self@ =~= old(self)@ + added);
    }

    /// The texts as lines.
    pub fn as_lines(&self) -> (out: String)
        ensures
            out@ == lines_text(self@),
    {
        let ghost all = self@;
        let mut out = String::new();
        let mut i: usize = 0;
        assert(lines_text(all.take(0)) =~= Seq::empty());
        while i < self.parts.len()
            invariant
                i <= self.parts@.len(),
                all == self@,
                out@ == lines_text(all.take(i as int)),
            decreases self.parts@.len() - i,
        {
            assert(all.take(i + 1).drop_last() =~= all.take(i as int));
            out.append(self.parts[i].as_str());
            out.append("\n");
            i += 1;
        }
        assert(all.take(i as int) =~= all);
        out
    }

    /// The texts with `separator` between neighbours.
    pub fn joined(&self, separator: &str) -> (out: String)
        ensures
            out@ == text::join(self@, separator@),
    {
        text::joined(&self.parts, separator)
    }

    /// The texts.
    pub fn into_parts(self) -> (parts: Vec<String>)
        ensures
            text::texts(parts@) == self@,
    {
        self.parts
    }
}

/// Whether `show` may write `text` for `item`.
pub open spec fn may_show<T, F: Fn(&T) -> String>(show: F, item: T, text: Seq<char>) -> bool {
    exists|line: String| #[trigger] show.ensures((&item,), line) && line@ == text
}

/// A line for each item, as `show` writes it.
pub(crate) fn listed<T, F: Fn(&T) -> String>(items: &Vec<T>, show: F) -> (lines: TextList)
    requires
        forall|item: &T| #[trigger] show.requires((item,)),
    ensures
        lines@.len() == items@.len(),
        forall|i: int| 0 <= i < items@.len() ==> may_show(show, items@[i], #[trigger] lines@[i]),
{
    let mut lines = TextList::new();
    let mut at: usize = 0;
    while at < items.len()
        invariant
            at <= items@.len(),
            forall|item: &T| #[trigger] show.requires((item,)),
            lines@.len() == at,
            forall|i: int| 0 <= i < at ==> may_show(show, items@[i], #[trigger] lines@[i]),
        decreases items@.len() - at,
    {
        let line = show(&items[at]);
        assert(may_show(show, items@[at as int], line@));
        lines.push(line);
        at += 1;
    }
    lines
}

/// A line for each item, with `prefix` in front.
pub(crate) fn prefixed(prefix: &str, items: &Vec<String>) -> (lines: TextList)
    ensures
        lines@ == Seq::new(items@.len(), |i: int| prefix@ + items@[i]@),
{
    let ghost wanted = Seq::new(items@.len(), |i: int| prefix@ + items@[i]@);
    let mut lines = TextList::new();
    let mut at: usize = 0;
    assert(wanted.take(0) =~= Seq::empty());
    while at < items.len()
        invariant
            at <= items@.len(),
            wanted == Seq::new(items@.len(), |i: int| prefix@ + items@[i]@),
            lines@ == wanted.take(at as int),
        decreases items@.len() - at,
    {
        let mut line = prefix.to_string();
        line.append(items[at].as_str());
        lines.push(line);
        assert(wanted.take(at + 1) =~= wanted.take(at as int).push(wanted[at as int]));
        at += 1;
    }
    assert(wanted.take(at as int) =~= wanted);
    lines
}

/// `yes` or `no`.
pub fn yes_no_text(value: bool) -> (out: &'static str)
    ensures
        out@ == yes_no(value),
{
    if value {
        "yes"
    } else {
        "no"
    }
}

/// `yes`, `no` or `missing`.
pub fn opt_yes_no_text(value: Option<bool>) -> (out: &'static str)
    ensures
        out@ == opt_yes_no(value),
{
    match value {
        Some(inner) => yes_no_text(inner),
        None => "missing",
    }
}

/// A count, or `default` where there is none.
pub fn count_or_text(value: Option<usize>, default: &str) -> (out: String)
    ensures
        out@ == count_or(value, default@),
{
    match value {
        Some(inner) => text::number_text(inner),
        None => default.to_string(),
    }
}

/// A number with an exponent, or `n/a`.
pub fn opt_scientific_text(value: &Option<Real>) -> (out: String)
    ensures
        out@ == opt_scientific(reals::opt_real(*value)),
{
    match value {
        Some(inner) => inner.scientific.clone(),
        None => "n/a".to_string(),
    }
}

/// A number, or `missing`.
pub fn opt_display_text(value: &Option<Real>) -> (out: String)
    ensures
        out@ == opt_display(reals::opt_real(*value)),
{
    match value {
        Some(inner) => inner.display.clone(),
        None => "missing".to_string(),
    }
}

/// A text, or `default` where there is none.
pub fn text_or_default(value: &Option<String>, default: &str) -> (out: String)
    ensures
        out@ == text_or(text::opt_text(*value), default@),
{
    match value {
        Some(inner) => inner.clone(),
        None => default.to_string(),
    }
}

/// `name` behind its region, where it has one.
pub fn regional_text(region: &Option<String>, name: &str) -> (out: String)
    ensures
        out@ == regional(text::opt_text(*region), name@),
{
    match region {
        Some(inner) => {
            let mut out = inner.clone();
            out.append("/");
            out.append(name);
            out
        },
        None => name.to_string(),
    }
}

/// Two texts with a slash between them.
pub fn pair_text(first: &str, second: &str) -> (out: String)
    ensures
        out@ == pair(first@, second@),
{
    let mut out = first.to_string();
    out.append(" / ");
    out.append(second);
    out
}

/// Three texts with slashes between them.
pub fn triple_text(first: &str, second: &str, third: &str) -> (out: String)
    ensures
        out@ == triple(first@, second@, third@),
{
    let mut out = first.to_string();
    out.append(" / ");
    out.append(second);
    out.append(" / ");
    out.append(third);
    out
}

} // verus!
