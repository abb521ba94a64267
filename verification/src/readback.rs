//! What the readers make of the files that the writers leave behind.

use crate::dictionary;
use crate::error::Failure;
use crate::foam_case;
use crate::foam_case::FoamCase;
use crate::foam_text;
use crate::gmsh::PointView;
use crate::layout;
use crate::mesh::{Mesh, PhysicalName};
use crate::ordering;
use crate::ordering::FoamWriteOptions;
use crate::patches;
use crate::poly_mesh;
use crate::poly_mesh::{BoundaryPatch, PolyView};
use crate::text;
use crate::text::CharClass;
use crate::topology;
use crate::topology::FaceRecord;
use crate::zones::Zone;
use vstd::prelude::*;

verus! {

/// Whether a text is one line: it holds no line feed and does not end in a
/// carriage return.
pub open spec fn is_line(s: Seq<char>) -> bool {
    &&& forall|i: int| 0 <= i < s.len() ==> #[trigger] s[i] != '\n'
    &&& s.len() > 0 ==> s.last() != '\r'
}

/// Whether no character of a text is of a class.
pub open spec fn lacks(class: CharClass, s: Seq<char>) -> bool {
    forall|i: int| 0 <= i < s.len() ==> !text::class_has(class, #[trigger] s[i])
}

/// Whether a text has no white space at its ends, and is not empty.
pub open spec fn is_trimmed(s: Seq<char>) -> bool {
    s.len() > 0 && !text::is_space(s[0]) && !text::is_space(s.last())
}

/// Whether a text holds no comment.
pub open spec fn is_plain(s: Seq<char>) -> bool {
    forall|i: int| 0 <= i < s.len() ==> #[trigger] s[i] != '/'
}

proof fn lemma_pieces_append(class: CharClass, head: Seq<char>, tail: Seq<char>)
    requires
        lacks(class, tail),
    ensures
        text::pieces(class, head + tail) == text::pieces(class, head).drop_last().push(
            text::pieces(class, head).last() + tail,
        ),
    decreases tail.len(),
{
    let before = text::pieces(class, head);
    text::lemma_pieces_len(class, head);
    if tail.len() == 0 {
        assert(head + tail =~= head);
        assert(before.last() + tail =~= before.last());
        assert(before =~= before.drop_last().push(before.last()));
    } else {
        let shorter = tail.drop_last();
        assert(lacks(class, shorter)) by {
            assert forall|i: int| 0 <= i < shorter.len() implies !text::class_has(
                class,
                #[trigger] shorter[i],
            ) by {
                assert(shorter[i] == tail[i]);
            }
        }
        lemma_pieces_append(class, head, shorter);
        assert((head + tail).drop_last() =~= head + shorter);
        assert((head + tail).last() == tail.last());
        assert(!text::class_has(class, tail[tail.len() - 1]));
        let grown = before.drop_last().push(before.last() + shorter);
        assert(text::pieces(class, head + tail) == grown.drop_last().push(
            grown.last().push(tail.last()),
        ));
        assert(grown.drop_last() =~= before.drop_last());
        assert(grown.last().push(tail.last()) =~= before.last() + tail);
    }
}

proof fn lemma_pieces_whole(class: CharClass, s: Seq<char>)
    requires
        lacks(class, s),
    ensures
        text::pieces(class, s) == seq![s],
{
    lemma_pieces_append(class, Seq::empty(), s);
    assert(Seq::<char>::empty() + s =~= s);
    let none = text::pieces(class, Seq::empty());
    assert(none =~= seq![Seq::<char>::empty()]);
    assert(none.drop_last() =~= Seq::empty());
    assert(none.drop_last().push(s) =~= seq![s]);
}

proof fn lemma_written_pieces(lines: Seq<Seq<char>>)
    requires
        forall|i: int| 0 <= i < lines.len() ==> is_line(#[trigger] lines[i]),
    ensures
        text::pieces(CharClass::Only('\n'), layout::lines_text(lines)) == lines.push(Seq::empty()),
    decreases lines.len(),
{
    let class = CharClass::Only('\n');
    if lines.len() == 0 {
        assert(lines.push(Seq::empty()) =~= seq![Seq::<char>::empty()]);
    } else {
        let shorter = lines.drop_last();
        assert forall|i: int| 0 <= i < shorter.len() implies is_line(#[trigger] shorter[i]) by {
            assert(shorter[i] == lines[i]);
        }
        lemma_written_pieces(shorter);
        let head = layout::lines_text(shorter);
        let line = lines.last();
        assert(is_line(lines[lines.len() - 1]));
        lemma_pieces_append(class, head, line);
        assert(shorter.push(Seq::<char>::empty()).drop_last() =~= shorter);
        assert(Seq::<char>::empty() + line =~= line);
        assert(text::pieces(class, head + line) =~= lines) by {
            assert(shorter.push(line) =~= lines);
        }
        reveal_strlit("\n");
        let whole = head + line + "\n"@;
        assert(whole.drop_last() =~= head + line);
        assert(whole.last() == '\n');
    }
}

/// Lines that are written are read.
pub proof fn lines_are_read(lines: Seq<Seq<char>>)
    requires
        forall|i: int| 0 <= i < lines.len() ==> is_line(#[trigger] lines[i]),
    ensures
        text::lines(layout::lines_text(lines)) == lines,
{
    lemma_written_pieces(lines);
    let raw = lines.push(Seq::<char>::empty());
    assert(raw.last().len() == 0);
    assert(raw.drop_last() =~= lines);
    let ended = lines.map_values(|line: Seq<char>| text::without_return(line));
    assert forall|i: int| 0 <= i < lines.len() implies ended[i] == lines[i] by {
        assert(is_line(lines[i]));
    }
    assert(ended =~= lines);
}

pub(crate) proof fn lemma_trim_trimmed(s: Seq<char>)
    requires
        is_trimmed(s),
    ensures
        text::trim(s) == s,
{
}

proof fn lemma_strip_start_last(s: Seq<char>)
    requires
        s.len() > 0,
        !text::is_space(s.last()),
    ensures
        text::strip_start(CharClass::Space, s).len() > 0,
        text::strip_start(CharClass::Space, s).last() == s.last(),
    decreases s.len(),
{
    if text::is_space(s[0]) {
        assert(s.len() > 1);
        assert(s.skip(1).last() == s.last());
        lemma_strip_start_last(s.skip(1));
    }
}

/// A text that does not end in white space keeps its end when it is trimmed.
proof fn lemma_trim_keeps_end(s: Seq<char>)
    requires
        s.len() > 0,
        !text::is_space(s.last()),
    ensures
        text::trim(s).len() > 0,
        text::trim(s).last() == s.last(),
{
    lemma_strip_start_last(s);
}

proof fn lemma_plain_stays(s: Seq<char>, at: int)
    requires
        0 <= at,
        is_plain(s),
    ensures
        text::before_slashes(s, at) == s,
    decreases s.len() - at,
{
    if at + 1 < s.len() {
        assert(s[at] != '/');
        lemma_plain_stays(s, at + 1);
    }
}

pub(crate) proof fn lemma_decimal_chars(n: nat)
    ensures
        text::decimal(n).len() > 0,
        forall|i: int|
            0 <= i < text::decimal(n).len() ==> text::is_digit(#[trigger] text::decimal(n)[i]),
    decreases n,
{
    if n >= 10 {
        lemma_decimal_chars(n / 10);
        let shorter = text::decimal(n / 10);
        assert forall|i: int| 0 <= i < text::decimal(n).len() implies text::is_digit(
            #[trigger] text::decimal(n)[i],
        ) by {
            if i < shorter.len() {
                assert(text::decimal(n)[i] == shorter[i]);
            }
        }
    }
}

/// The notation of a number is a line of its own, without white space, brackets
/// or comments.
pub(crate) proof fn lemma_decimal_is_plain(n: nat)
    ensures
        text::decimal(n).len() > 0,
        is_line(text::decimal(n)),
        is_trimmed(text::decimal(n)),
        is_plain(text::decimal(n)),
        lacks(CharClass::Space, text::decimal(n)),
        lacks(CharClass::Only('('), text::decimal(n)),
        lacks(CharClass::Only(')'), text::decimal(n)),
{
    lemma_decimal_chars(n);
    let s = text::decimal(n);
    assert(text::is_digit(s[0]));
    assert(text::is_digit(s[s.len() - 1]));
}

proof fn lemma_not_natural(s: Seq<char>)
    requires
        s.len() == 0 || !text::is_digit(s.last()),
    ensures
        text::natural(s, usize::MAX as nat) is None,
{
    let digits = text::unsigned_digits(s);
    if digits.len() > 0 {
        assert(digits[digits.len() - 1] == s.last());
    }
}

/// What the list reader makes of a line.
pub open spec fn cleaned(line: Seq<char>) -> Seq<char> {
    text::trim(text::before_slashes(line, 0))
}

proof fn lemma_clean_append(head: Seq<Seq<char>>, tail: Seq<Seq<char>>, n: int)
    requires
        0 <= n <= tail.len(),
    ensures
        poly_mesh::clean_before(head + tail, head.len() + n) == poly_mesh::clean_before(
            head,
            head.len() as int,
        ) + poly_mesh::clean_before(tail, n),
    decreases n,
{
    if n == 0 {
        lemma_clean_prefix(head, tail, head.len() as int);
        assert(poly_mesh::clean_before(head, head.len() as int) + poly_mesh::clean_before(tail, 0)
            =~= poly_mesh::clean_before(head, head.len() as int));
    } else {
        lemma_clean_append(head, tail, n - 1);
        assert((head + tail)[head.len() + n - 1] == tail[n - 1]);
        let first = poly_mesh::clean_before(head, head.len() as int);
        let second = poly_mesh::clean_before(tail, n - 1);
        let line = cleaned(tail[n - 1]);
        if line.len() > 0 {
            assert((first + second).push(line) =~= first + second.push(line));
        }
    }
}

proof fn lemma_clean_prefix(head: Seq<Seq<char>>, tail: Seq<Seq<char>>, n: int)
    requires
        0 <= n <= head.len(),
    ensures
        poly_mesh::clean_before(head + tail, n) == poly_mesh::clean_before(head, n),
    decreases n,
{
    if n > 0 {
        lemma_clean_prefix(head, tail, n - 1);
        assert((head + tail)[n - 1] == head[n - 1]);
    }
}

proof fn lemma_clean_items(items: Seq<Seq<char>>, n: int)
    requires
        0 <= n <= items.len(),
        forall|i: int|
            0 <= i < items.len() ==> is_trimmed(#[trigger] items[i]) && is_plain(items[i]),
    ensures
        poly_mesh::clean_before(items, n) == items.take(n),
    decreases n,
{
    if n > 0 {
        lemma_clean_items(items, n - 1);
        let line = items[n - 1];
        assert(is_trimmed(line));
        lemma_plain_stays(line, 0);
        lemma_trim_trimmed(line);
        assert(items.take(n) =~= items.take(n - 1).push(line));
    } else {
        assert(items.take(0) =~= Seq::empty());
    }
}

proof fn lemma_clean_unnumbered(lines: Seq<Seq<char>>, n: int)
    requires
        0 <= n <= lines.len(),
        forall|i: int|
            0 <= i < n ==> text::natural(
                cleaned(#[trigger] lines[i]),
                usize::MAX as nat,
            ) is None,
    ensures
        forall|j: int|
            0 <= j < poly_mesh::clean_before(lines, n).len() ==> text::natural(
                #[trigger] poly_mesh::clean_before(lines, n)[j],
                usize::MAX as nat,
            ) is None,
    decreases n,
{
    if n > 0 {
        lemma_clean_unnumbered(lines, n - 1);
        let earlier = poly_mesh::clean_before(lines, n - 1);
        let all = poly_mesh::clean_before(lines, n);
        assert(text::natural(cleaned(lines[n - 1]), usize::MAX as nat) is None);
        assert forall|j: int| 0 <= j < all.len() implies text::natural(
            #[trigger] all[j],
            usize::MAX as nat,
        ) is None by {
            if j < earlier.len() {
                assert(all[j] == earlier[j]);
            }
        }
    }
}

/// Whether a line says no count: it ends in no digit, and no comment stands in
/// it.
proof fn lemma_uncounted(line: Seq<char>)
    requires
        is_plain(line),
        line.len() > 0,
        !text::is_space(line.last()),
        !text::is_digit(line.last()),
    ensures
        text::natural(cleaned(line), usize::MAX as nat) is None,
{
    lemma_plain_stays(line, 0);
    lemma_trim_keeps_end(line);
    lemma_not_natural(text::trim(line));
}

/// Whether a name can stand in the head of a file.
pub open spec fn is_object(name: Seq<char>) -> bool {
    is_plain(name) && forall|i: int| 0 <= i < name.len() ==> #[trigger] name[i] != '\n'
}

proof fn lemma_location()
    ensures
        text::before_slashes("    location \"constant/polyMesh\";"@, 0)
            == "    location \"constant/polyMesh\";"@,
{
    reveal_strlit("    location \"constant/polyMesh\";");
    reveal_with_fuel(text::before_slashes, 40);
}

proof fn lemma_head(class_name: Seq<char>, object: Seq<char>)
    requires
        is_object(class_name),
        is_object(object),
    ensures
        forall|i: int|
            0 <= i < foam_text::head(class_name, object, "constant/polyMesh"@).len() ==> {
                let line = #[trigger] foam_text::head(class_name, object, "constant/polyMesh"@)[i];
                is_line(line) && text::natural(cleaned(line), usize::MAX as nat) is None
            },
{
    let head = foam_text::head(class_name, object, "constant/polyMesh"@);
    reveal_strlit("FoamFile");
    reveal_strlit("{");
    reveal_strlit("    version 2.0;");
    reveal_strlit("    format ascii;");
    reveal_strlit("    class ");
    reveal_strlit(";");
    reveal_strlit("    location \"");
    reveal_strlit("constant/polyMesh");
    reveal_strlit("\";");
    reveal_strlit("    object ");
    reveal_strlit("}");
    reveal_strlit("    location \"constant/polyMesh\";");
    assert(head.len() == 9);
    lemma_uncounted(head[0]);
    lemma_uncounted(head[1]);
    lemma_uncounted(head[2]);
    lemma_uncounted(head[3]);
    lemma_uncounted(head[4]);
    let location = "    location \"constant/polyMesh\";"@;
    assert(head[5] =~= location);
    lemma_location();
    lemma_trim_keeps_end(location);
    lemma_not_natural(text::trim(location));
    lemma_uncounted(head[6]);
    lemma_uncounted(head[7]);
    assert(head[8].len() == 0);
    lemma_plain_stays(head[8], 0);
    lemma_not_natural(text::trim(head[8]));
    assert forall|i: int| 0 <= i < head.len() implies {
        let line = #[trigger] head[i];
        is_line(line) && text::natural(cleaned(line), usize::MAX as nat) is None
    } by {
        assert(i == 0 || i == 1 || i == 2 || i == 3 || i == 4 || i == 5 || i == 6 || i == 7 || i
            == 8);
    }
}

proof fn lemma_count_line(lines: Seq<Seq<char>>, at: int, first: int)
    requires
        0 <= at <= first < lines.len(),
        forall|i: int|
            at <= i < first ==> text::natural(#[trigger] lines[i], usize::MAX as nat) is None,
        text::natural(lines[first], usize::MAX as nat) is Some,
    ensures
        poly_mesh::count_line(lines, at) == Some(first),
    decreases first - at,
{
    if at < first {
        assert(text::natural(lines[at], usize::MAX as nat) is None);
        lemma_count_line(lines, at + 1, first);
    }
}

proof fn lemma_close_line(lines: Seq<Seq<char>>, at: int, end: int)
    requires
        0 <= at <= end < lines.len(),
        forall|i: int| at <= i < end ==> !poly_mesh::closes(#[trigger] lines[i]),
        poly_mesh::closes(lines[end]),
    ensures
        poly_mesh::close_line(lines, at) == end,
    decreases end - at,
{
    if at < end {
        assert(!poly_mesh::closes(lines[at]));
        lemma_close_line(lines, at + 1, end);
    }
}

/// Whether a text can be an item of a list: a line without white space round
/// it and without comments, which does not close the list.
pub open spec fn is_item(line: Seq<char>) -> bool {
    is_line(line) && is_trimmed(line) && is_plain(line) && !poly_mesh::closes(line)
}

/// A list that is written is read: the reader finds the items again.
pub proof fn list_is_read(
    class_name: Seq<char>,
    object: Seq<char>,
    items: Seq<Seq<char>>,
    path: Seq<char>,
)
    requires
        is_object(class_name),
        is_object(object),
        items.len() <= usize::MAX,
        forall|i: int| 0 <= i < items.len() ==> is_item(#[trigger] items[i]),
    ensures
        poly_mesh::list_entries(
            foam_case::list_file(class_name, object, items.len(), items),
            path,
        ) == Ok::<Seq<Seq<char>>, Failure>(items),
{
    let count = text::decimal(items.len());
    let head = foam_text::head(class_name, object, "constant/polyMesh"@);
    let opening = Seq::<Seq<char>>::empty().push(count).push("("@);
    let closing = Seq::<Seq<char>>::empty().push(")"@);
    let tail = opening + items + closing;
    let lines = head + opening + items + closing;
    assert(lines =~= head + tail);
    reveal_strlit("(");
    reveal_strlit(")");
    reveal_strlit(");");
    lemma_head(class_name, object);
    lemma_decimal_is_plain(items.len());
    text::natural_reads_decimal(items.len(), usize::MAX as nat);
    assert forall|i: int| 0 <= i < tail.len() implies is_line(#[trigger] tail[i]) && is_trimmed(
        tail[i],
    ) && is_plain(tail[i]) by {
        if 2 <= i < tail.len() - 1 {
            assert(tail[i] == items[i - 2]);
        }
    }
    assert forall|i: int| 0 <= i < lines.len() implies is_line(#[trigger] lines[i]) by {
        if i < head.len() {
            assert(lines[i] == head[i]);
        } else {
            assert(lines[i] == tail[i - head.len()]);
        }
    }
    lines_are_read(lines);
    lemma_clean_append(head, tail, tail.len() as int);
    lemma_clean_items(tail, tail.len() as int);
    assert(tail.take(tail.len() as int) =~= tail);
    lemma_clean_unnumbered(head, head.len() as int);
    let before = poly_mesh::clean_before(head, head.len() as int);
    let clean = before + tail;
    let first = before.len() as int;
    assert(poly_mesh::clean_lines(foam_case::list_file(class_name, object, items.len(), items))
        == clean);
    assert(clean[first] == count);
    assert(clean[first + 1] == "("@);
    assert forall|i: int| 0 <= i < first implies text::natural(
        #[trigger] clean[i],
        usize::MAX as nat,
    ) is None by {
        assert(clean[i] == before[i]);
    }
    lemma_count_line(clean, 0, first);
    let end = first + 2 + items.len();
    assert(clean[end] == ")"@);
    assert forall|i: int| first + 2 <= i < end implies !poly_mesh::closes(#[trigger] clean[i]) by {
        assert(clean[i] == items[i - first - 2]);
    }
    lemma_close_line(clean, first + 2, end);
    assert(clean.subrange(first + 2, end) =~= items);
}

/// The notations of labels.
pub open spec fn label_lines(labels: Seq<usize>) -> Seq<Seq<char>> {
    Seq::new(labels.len(), |i: int| text::decimal(labels[i] as nat))
}

proof fn lemma_label_lines(labels: Seq<usize>)
    ensures
        forall|i: int| 0 <= i < labels.len() ==> is_item(#[trigger] label_lines(labels)[i]),
{
    reveal_strlit(")");
    reveal_strlit(");");
    assert forall|i: int| 0 <= i < labels.len() implies is_item(
        #[trigger] label_lines(labels)[i],
    ) by {
        lemma_decimal_is_plain(labels[i] as nat);
        assert(!text::class_has(CharClass::Only(')'), label_lines(labels)[i][0]));
    }
}

proof fn lemma_plain_labels(labels: Seq<usize>, path: Seq<char>, n: int)
    requires
        0 <= n <= labels.len(),
    ensures
        poly_mesh::plain_labels(label_lines(labels), path, n) == Ok::<
            Seq<usize>,
            Failure,
        >(labels.take(n)),
    decreases n,
{
    if n > 0 {
        lemma_plain_labels(labels, path, n - 1);
        text::natural_reads_decimal(labels[n - 1] as nat, usize::MAX as nat);
        assert(labels.take(n) =~= labels.take(n - 1).push(labels[n - 1]));
    } else {
        assert(labels.take(0) =~= Seq::empty());
    }
}

/// Labels that are written are read.
pub proof fn labels_are_read(
    class_name: Seq<char>,
    object: Seq<char>,
    labels: Seq<usize>,
    path: Seq<char>,
)
    requires
        is_object(class_name),
        is_object(object),
        labels.len() <= usize::MAX,
    ensures
        poly_mesh::labels_of(
            foam_case::list_file(class_name, object, labels.len(), label_lines(labels)),
            path,
        ) == Ok::<Seq<usize>, Failure>(labels),
{
    lemma_label_lines(labels);
    list_is_read(class_name, object, label_lines(labels), path);
    lemma_plain_labels(labels, path, labels.len() as int);
    assert(labels.take(labels.len() as int) =~= labels);
}

pub(crate) proof fn lemma_find_first(s: Seq<char>, ch: char, at: int)
    requires
        0 <= at < s.len(),
        s[at] == ch,
        forall|i: int| 0 <= i < at ==> #[trigger] s[i] != ch,
    ensures
        text::find(s, ch) == Some(at),
    decreases s.len(),
{
    dictionary::lemma_find_bound(s, ch);
    match text::find(s, ch) {
        Some(found) => {
            if found < at {
                assert(s[found] != ch);
            }
        },
        None => {},
    }
}

pub(crate) proof fn lemma_nonempty_all(parts: Seq<Seq<char>>)
    requires
        forall|i: int| 0 <= i < parts.len() ==> (#[trigger] parts[i]).len() > 0,
    ensures
        text::nonempty(parts) == parts,
    decreases parts.len(),
{
    if parts.len() > 0 {
        let shorter = parts.drop_last();
        assert forall|i: int| 0 <= i < shorter.len() implies (#[trigger] shorter[i]).len() > 0 by {
            assert(shorter[i] == parts[i]);
        }
        lemma_nonempty_all(shorter);
        assert(parts[parts.len() - 1].len() > 0);
        assert(shorter.push(parts.last()) =~= parts);
    }
}

/// Parts with a separator between them are these parts.
pub proof fn joined_parts_are_read(class: CharClass, separator: char, parts: Seq<Seq<char>>)
    requires
        parts.len() > 0,
        text::class_has(class, separator),
        forall|i: int| 0 <= i < parts.len() ==> lacks(class, #[trigger] parts[i]),
    ensures
        text::pieces(class, text::join(parts, seq![separator])) == parts,
    decreases parts.len(),
{
    if parts.len() == 1 {
        assert(lacks(class, parts[0]));
        lemma_pieces_whole(class, parts[0]);
        assert(parts =~= seq![parts[0]]);
    } else {
        let shorter = parts.drop_last();
        assert forall|i: int| 0 <= i < shorter.len() implies lacks(class, #[trigger] shorter[i]) by {
            assert(shorter[i] == parts[i]);
        }
        joined_parts_are_read(class, separator, shorter);
        let head = text::join(shorter, seq![separator]);
        let spaced = head + seq![separator];
        assert(spaced.drop_last() =~= head);
        assert(spaced.last() == separator);
        assert(text::pieces(class, spaced) == shorter.push(Seq::empty()));
        let last = parts.last();
        assert(lacks(class, parts[parts.len() - 1]));
        lemma_pieces_append(class, spaced, last);
        assert(shorter.push(Seq::<char>::empty()).drop_last() =~= shorter);
        assert(Seq::<char>::empty() + last =~= last);
        assert(shorter.push(last) =~= parts);
    }
}

/// Words with blanks between them are these words.
pub proof fn joined_words_are_read(parts: Seq<Seq<char>>)
    requires
        forall|i: int|
            0 <= i < parts.len() ==> (#[trigger] parts[i]).len() > 0 && lacks(
                CharClass::Space,
                parts[i],
            ),
    ensures
        text::words(text::join(parts, " "@)) == parts,
{
    if parts.len() == 0 {
        let none = text::pieces(CharClass::Space, Seq::empty());
        assert(none =~= seq![Seq::<char>::empty()]);
        assert(none.drop_last() =~= Seq::empty());
        assert(text::nonempty(none.drop_last()) =~= Seq::empty());
        assert(none.last().len() == 0);
        assert(parts =~= Seq::empty());
    } else {
        reveal_strlit(" ");
        assert(" "@ =~= seq![' ']);
        joined_parts_are_read(CharClass::Space, ' ', parts);
        lemma_nonempty_all(parts);
    }
}

proof fn lemma_joined_chars(nodes: Seq<usize>, n: int)
    requires
        0 <= n <= nodes.len(),
    ensures
        forall|i: int|
            0 <= i < text::join(foam_case::node_texts(nodes).take(n), " "@).len() ==> {
                let ch = #[trigger] text::join(foam_case::node_texts(nodes).take(n), " "@)[i];
                text::is_digit(ch) || ch == ' '
            },
    decreases n,
{
    let parts = foam_case::node_texts(nodes);
    if n > 0 {
        lemma_decimal_chars(nodes[n - 1] as nat);
        reveal_strlit(" ");
        let last = parts[n - 1];
        if n == 1 {
            assert(parts.take(1)[0] == last);
        } else {
            lemma_joined_chars(nodes, n - 1);
            assert(parts.take(n).drop_last() =~= parts.take(n - 1));
            assert(parts.take(n).last() == last);
            let head = text::join(parts.take(n - 1), " "@);
            let all = text::join(parts.take(n), " "@);
            assert(all == head + " "@ + last);
            assert forall|i: int| 0 <= i < all.len() implies {
                let ch = #[trigger] all[i];
                text::is_digit(ch) || ch == ' '
            } by {
                if i < head.len() {
                    assert(all[i] == head[i]);
                } else if i > head.len() {
                    assert(all[i] == last[i - head.len() - 1]);
                }
            }
        }
    }
}

proof fn lemma_labels_of_texts(nodes: Seq<usize>, path: Seq<char>, n: int)
    requires
        0 <= n <= nodes.len(),
    ensures
        poly_mesh::labels_before(foam_case::node_texts(nodes), path, n) == Ok::<
            Seq<usize>,
            Failure,
        >(nodes.take(n)),
    decreases n,
{
    if n > 0 {
        lemma_labels_of_texts(nodes, path, n - 1);
        lemma_label(nodes[n - 1], path);
        assert(nodes.take(n) =~= nodes.take(n - 1).push(nodes[n - 1]));
    } else {
        assert(nodes.take(0) =~= Seq::empty());
    }
}

proof fn lemma_label(label: usize, path: Seq<char>)
    ensures
        poly_mesh::label_of(text::decimal(label as nat), path) == Ok::<usize, Failure>(label),
{
    lemma_decimal_is_plain(label as nat);
    lemma_trim_trimmed(text::decimal(label as nat));
    text::natural_reads_decimal(label as nat, usize::MAX as nat);
}

/// The line of the nodes of a face.
pub open spec fn nodes_line(nodes: Seq<usize>) -> Seq<char> {
    text::decimal(nodes.len()) + "("@ + text::join(foam_case::node_texts(nodes), " "@) + ")"@
}

/// A face that is written is read, and can be an item of a list.
pub proof fn face_is_read(nodes: Seq<usize>, path: Seq<char>)
    requires
        nodes.len() <= usize::MAX,
    ensures
        is_item(nodes_line(nodes)),
        poly_mesh::face_of(nodes_line(nodes), path) == Ok::<Seq<usize>, Failure>(nodes),
{
    let parts = foam_case::node_texts(nodes);
    let count = text::decimal(nodes.len());
    let joined = text::join(parts, " "@);
    let line = nodes_line(nodes);
    reveal_strlit("(");
    reveal_strlit(")");
    reveal_strlit(");");
    lemma_decimal_is_plain(nodes.len());
    lemma_decimal_chars(nodes.len());
    lemma_joined_chars(nodes, nodes.len() as int);
    assert(parts.take(nodes.len() as int) =~= parts);
    assert(line.len() == count.len() + joined.len() + 2);
    assert forall|i: int| 0 <= i < line.len() implies {
        let ch = #[trigger] line[i];
        text::is_digit(ch) || ch == ' ' || ch == '(' || ch == ')'
    } by {
        if i < count.len() {
            assert(line[i] == count[i]);
        } else if count.len() < i < line.len() - 1 {
            assert(line[i] == joined[i - count.len() - 1]);
        }
    }
    assert(line[0] == count[0]);
    assert(text::is_digit(count[0]));
    assert(line.last() == ')');
    assert forall|i: int| 0 <= i < count.len() implies #[trigger] line[i] != '(' by {
        assert(line[i] == count[i]);
        assert(text::is_digit(count[i]));
    }
    lemma_find_first(line, '(', count.len() as int);
    assert(line.take(count.len() as int) =~= count);
    let rest = line.skip(count.len() as int + 1);
    assert(rest =~= joined + ")"@);
    assert(rest.last() == ')');
    assert(line.subrange(count.len() as int + 1, line.len() - 1) =~= joined);
    assert forall|i: int| 0 <= i < parts.len() implies (#[trigger] parts[i]).len() > 0 && lacks(
        CharClass::Space,
        parts[i],
    ) by {
        lemma_decimal_is_plain(nodes[i] as nat);
    }
    joined_words_are_read(parts);
    lemma_label(nodes.len() as usize, path);
    lemma_labels_of_texts(nodes, path, nodes.len() as int);
    assert(nodes.take(nodes.len() as int) =~= nodes);
}

/// The lines of the nodes of faces.
pub open spec fn faces_lines(faces: Seq<Seq<usize>>) -> Seq<Seq<char>> {
    Seq::new(faces.len(), |i: int| nodes_line(faces[i]))
}

proof fn lemma_faces_before(faces: Seq<Seq<usize>>, path: Seq<char>, n: int)
    requires
        0 <= n <= faces.len(),
        forall|i: int| 0 <= i < faces.len() ==> (#[trigger] faces[i]).len() <= usize::MAX,
    ensures
        poly_mesh::faces_before(faces_lines(faces), path, n) == Ok::<Seq<Seq<usize>>, Failure>(
            faces.take(n),
        ),
    decreases n,
{
    if n > 0 {
        lemma_faces_before(faces, path, n - 1);
        assert(faces[n - 1].len() <= usize::MAX);
        face_is_read(faces[n - 1], path);
        assert(faces.take(n) =~= faces.take(n - 1).push(faces[n - 1]));
    } else {
        assert(faces.take(0) =~= Seq::empty());
    }
}

/// Faces that are written are read.
pub proof fn faces_are_read(
    class_name: Seq<char>,
    object: Seq<char>,
    faces: Seq<Seq<usize>>,
    path: Seq<char>,
)
    requires
        is_object(class_name),
        is_object(object),
        faces.len() <= usize::MAX,
        forall|i: int| 0 <= i < faces.len() ==> (#[trigger] faces[i]).len() <= usize::MAX,
    ensures
        poly_mesh::faces_of(
            foam_case::list_file(class_name, object, faces.len(), faces_lines(faces)),
            path,
        ) == Ok::<Seq<Seq<usize>>, Failure>(faces),
{
    assert forall|i: int| 0 <= i < faces.len() implies is_item(
        #[trigger] faces_lines(faces)[i],
    ) by {
        assert(faces[i].len() <= usize::MAX);
        face_is_read(faces[i], path);
    }
    list_is_read(class_name, object, faces_lines(faces), path);
    lemma_faces_before(faces, path, faces.len() as int);
    assert(faces.take(faces.len() as int) =~= faces);
}

/// Whether a character can stand in the notation of a number.
pub open spec fn is_float_char(ch: char) -> bool {
    text::is_alphanumeric(ch) || ch == '.' || ch == '+' || ch == '-'
}

/// Whether every character of a text can stand in the notation of a number.
pub open spec fn all_float_chars(s: Seq<char>) -> bool {
    forall|i: int| 0 <= i < s.len() ==> is_float_char(#[trigger] s[i])
}

proof fn lemma_fraction_chars(s: Seq<char>)
    requires
        text::is_fraction(s),
    ensures
        s.len() > 0,
        all_float_chars(s),
{
    dictionary::lemma_find_bound(s, '.');
    match text::find(s, '.') {
        Some(at) => {
            let whole = s.take(at);
            let part = s.skip(at + 1);
            assert forall|i: int| 0 <= i < s.len() implies is_float_char(#[trigger] s[i]) by {
                if i < at {
                    assert(text::is_digit(whole[i]));
                } else if i > at {
                    assert(text::is_digit(part[i - at - 1]));
                }
            }
        },
        None => {},
    }
}

pub(crate) proof fn lemma_float_chars(s: Seq<char>)
    requires
        text::is_float(s),
    ensures
        s.len() > 0,
        all_float_chars(s),
{
    let bare = text::unsigned(s);
    let body = text::lowered(bare);
    reveal_strlit("inf");
    reveal_strlit("infinity");
    reveal_strlit("nan");
    assert(body.len() > 0 && all_float_chars(body)) by {
        if body != "inf"@ && body != "infinity"@ && body != "nan"@ {
            dictionary::lemma_find_bound(body, 'e');
            match text::find(body, 'e') {
                Some(at) => {
                    let mantissa = body.take(at);
                    let exponent = body.skip(at + 1);
                    lemma_fraction_chars(mantissa);
                    let digits = text::unsigned(exponent);
                    assert forall|i: int| 0 <= i < body.len() implies is_float_char(
                        #[trigger] body[i],
                    ) by {
                        if i < at {
                            assert(body[i] == mantissa[i]);
                        } else if i > at {
                            let k = i - at - 1;
                            assert(body[i] == exponent[k]);
                            let shift = exponent.len() - digits.len();
                            if k >= shift {
                                assert(digits[k - shift] == exponent[k]);
                            }
                        }
                    }
                },
                None => {
                    lemma_fraction_chars(body);
                },
            }
        }
    }
    assert forall|i: int| 0 <= i < s.len() implies is_float_char(#[trigger] s[i]) by {
        let shift = s.len() - bare.len();
        if i >= shift {
            assert(bare[i - shift] == s[i]);
            assert(body[i - shift] == text::lower(s[i]));
            assert(is_float_char(body[i - shift]));
        }
    }
}

/// The notation of a number is without white space, brackets and comments.
pub(crate) proof fn lemma_float_is_plain(s: Seq<char>)
    requires
        text::is_float(s),
    ensures
        is_line(s),
        is_trimmed(s),
        is_plain(s),
        lacks(CharClass::Space, s),
        lacks(CharClass::Only('('), s),
        lacks(CharClass::Only(')'), s),
{
    lemma_float_chars(s);
    assert(is_float_char(s[0]));
    assert(is_float_char(s[s.len() - 1]));
}

/// The line of a point.
pub open spec fn coordinates_line(point: PointView) -> Seq<char> {
    "("@ + point.0 + " "@ + point.1 + " "@ + point.2 + ")"@
}

/// Whether the coordinates of a point denote numbers.
pub open spec fn is_point(point: PointView) -> bool {
    text::is_float(point.0) && text::is_float(point.1) && text::is_float(point.2)
}

/// A point that is written is read, and can be an item of a list.
pub proof fn point_is_read(point: PointView, path: Seq<char>)
    requires
        is_point(point),
    ensures
        is_item(coordinates_line(point)),
        poly_mesh::point_of(coordinates_line(point), path) == Ok::<
            PointView,
            Failure,
        >(point),
{
    let (x, y, z) = point;
    let line = coordinates_line(point);
    lemma_float_is_plain(x);
    lemma_float_is_plain(y);
    lemma_float_is_plain(z);
    reveal_strlit("(");
    reveal_strlit(")");
    reveal_strlit(");");
    reveal_strlit(" ");
    let inner = x + " "@ + y + " "@ + z;
    assert(line =~= seq!['('] + inner + seq![')']);
    assert forall|i: int| 0 <= i < inner.len() implies #[trigger] inner[i] != '\n' && inner[i]
        != '/' by {
        if i < x.len() {
            assert(inner[i] == x[i]);
        } else if x.len() < i < x.len() + 1 + y.len() {
            assert(inner[i] == y[i - x.len() - 1]);
        } else if i > x.len() + 1 + y.len() {
            assert(inner[i] == z[i - x.len() - y.len() - 2]);
        }
    }
    assert forall|i: int| 0 <= i < line.len() implies #[trigger] line[i] != '\n' && line[i]
        != '/' by {
        if 0 < i < line.len() - 1 {
            assert(line[i] == inner[i - 1]);
        }
    }
    assert(line[0] == '(');
    assert(line.last() == ')');
    lemma_trim_trimmed(line);
    let opened = line.skip(1);
    assert(opened[0] == x[0]);
    assert(!text::class_has(CharClass::Only('('), x[0]));
    assert(text::strip_start(CharClass::Only('('), line) == opened) by {
        assert(text::strip_start(CharClass::Only('('), opened) == opened);
    }
    assert(opened.last() == ')');
    assert(opened.drop_last() =~= inner);
    assert(inner.last() == z.last());
    assert(!text::class_has(CharClass::Only(')'), z[z.len() - 1]));
    assert(text::strip_end(CharClass::Only(')'), opened) == inner) by {
        assert(text::strip_end(CharClass::Only(')'), inner) == inner);
    }
    assert(inner[0] == x[0]);
    assert(is_trimmed(inner));
    lemma_trim_trimmed(inner);
    let words = seq![x, y, z];
    assert(words.drop_last() =~= seq![x, y]);
    assert(words.drop_last().drop_last() =~= seq![x]);
    assert(text::join(seq![x], " "@) == x);
    assert(text::join(seq![x, y], " "@) == x + " "@ + y);
    assert(text::join(words, " "@) == inner);
    joined_words_are_read(words);
    assert(poly_mesh::all_floats(words, 3));
    assert(poly_mesh::all_floats(words, 2));
    assert(poly_mesh::all_floats(words, 1));
    assert(line.len() > 2);
}

/// The lines of points.
pub open spec fn points_lines(points: Seq<PointView>) -> Seq<Seq<char>> {
    Seq::new(points.len(), |i: int| coordinates_line(points[i]))
}

proof fn lemma_points_before(
    points: Seq<PointView>,
    path: Seq<char>,
    n: int,
)
    requires
        0 <= n <= points.len(),
        forall|i: int| 0 <= i < points.len() ==> is_point(#[trigger] points[i]),
    ensures
        poly_mesh::points_before(points_lines(points), path, n) == Ok::<
            Seq<PointView>,
            Failure,
        >(points.take(n)),
    decreases n,
{
    if n > 0 {
        lemma_points_before(points, path, n - 1);
        assert(is_point(points[n - 1]));
        point_is_read(points[n - 1], path);
        assert(points.take(n) =~= points.take(n - 1).push(points[n - 1]));
    } else {
        assert(points.take(0) =~= Seq::empty());
    }
}

/// Points that are written are read.
pub proof fn points_are_read(
    class_name: Seq<char>,
    object: Seq<char>,
    points: Seq<PointView>,
    path: Seq<char>,
)
    requires
        is_object(class_name),
        is_object(object),
        points.len() <= usize::MAX,
        forall|i: int| 0 <= i < points.len() ==> is_point(#[trigger] points[i]),
    ensures
        poly_mesh::points_of(
            foam_case::list_file(class_name, object, points.len(), points_lines(points)),
            path,
        ) == Ok::<Seq<PointView>, Failure>(points),
{
    assert forall|i: int| 0 <= i < points.len() implies is_item(
        #[trigger] points_lines(points)[i],
    ) by {
        assert(is_point(points[i]));
        point_is_read(points[i], path);
    }
    list_is_read(class_name, object, points_lines(points), path);
    lemma_points_before(points, path, points.len() as int);
    assert(points.take(points.len() as int) =~= points);
}

/// The points of the notations of their coordinates.
pub open spec fn given_points(points: Seq<(String, String, String)>) -> Seq<PointView> {
    Seq::new(points.len(), |i: int| (points[i].0@, points[i].1@, points[i].2@))
}

/// The nodes of faces in an order.
pub open spec fn ordered_nodes(faces: Seq<FaceRecord>, order: Seq<usize>) -> Seq<Seq<usize>> {
    Seq::new(order.len(), |i: int| faces[order[i] as int].nodes@)
}

/// The owners of faces in an order.
pub open spec fn ordered_owners(faces: Seq<FaceRecord>, order: Seq<usize>) -> Seq<usize> {
    Seq::new(order.len(), |i: int| faces[order[i] as int].owner)
}

/// The cells on the other side of faces in an order.
pub open spec fn ordered_neighbours(faces: Seq<FaceRecord>, order: Seq<usize>) -> Seq<usize> {
    Seq::new(order.len(), |i: int| faces[order[i] as int].neighbour->0)
}

proof fn lemma_internal(faces: Seq<FaceRecord>, n: int)
    requires
        0 <= n <= faces.len() <= usize::MAX,
    ensures
        forall|i: int|
            0 <= i < ordering::internal(faces, n).len()
                ==> faces[#[trigger] ordering::internal(faces, n)[i] as int].neighbour is Some,
    decreases n,
{
    if n > 0 {
        lemma_internal(faces, n - 1);
        let earlier = ordering::internal(faces, n - 1);
        let all = ordering::internal(faces, n);
        assert forall|i: int| 0 <= i < all.len() implies faces[#[trigger] all[i] as int].neighbour
            is Some by {
            if i < earlier.len() {
                assert(all[i] == earlier[i]);
            }
        }
    }
}

proof fn lemma_neighbour_lines(faces: Seq<FaceRecord>, order: Seq<usize>, n: int)
    requires
        0 <= n <= order.len(),
        forall|i: int|
            0 <= i < order.len() ==> faces[#[trigger] order[i] as int].neighbour is Some,
    ensures
        foam_case::neighbour_lines(faces, order, n) == label_lines(
            ordered_neighbours(faces, order),
        ).take(n),
    decreases n,
{
    let wanted = label_lines(ordered_neighbours(faces, order));
    if n > 0 {
        lemma_neighbour_lines(faces, order, n - 1);
        assert(faces[order[n - 1] as int].neighbour is Some);
        assert(wanted.take(n) =~= wanted.take(n - 1).push(wanted[n - 1]));
    } else {
        assert(wanted.take(0) =~= Seq::empty());
    }
}

proof fn lemma_objects()
    ensures
        is_object("vectorField"@),
        is_object("points"@),
        is_object("faceList"@),
        is_object("faces"@),
        is_object("labelList"@),
        is_object("owner"@),
        is_object("neighbour"@),
{
    reveal_strlit("vectorField");
    reveal_strlit("points");
    reveal_strlit("faceList");
    reveal_strlit("faces");
    reveal_strlit("labelList");
    reveal_strlit("owner");
    reveal_strlit("neighbour");
}

proof fn lemma_written_faces(faces: Seq<FaceRecord>, order: Seq<usize>, path: Seq<char>)
    requires
        order.len() <= usize::MAX,
    ensures
        poly_mesh::faces_of(
            foam_case::list_file(
                "faceList"@,
                "faces"@,
                order.len(),
                foam_case::faces_lines(faces, order),
            ),
            path,
        ) == Ok::<Seq<Seq<usize>>, Failure>(ordered_nodes(faces, order)),
{
    lemma_objects();
    assert(foam_case::faces_lines(faces, order) =~= faces_lines(ordered_nodes(faces, order)));
    assert forall|i: int| 0 <= i < order.len() implies (#[trigger] ordered_nodes(
        faces,
        order,
    )[i]).len() <= usize::MAX by {
        assert(faces[order[i] as int].nodes.len() == faces[order[i] as int].nodes@.len());
    }
    faces_are_read("faceList"@, "faces"@, ordered_nodes(faces, order), path);
}

proof fn lemma_written_owners(faces: Seq<FaceRecord>, order: Seq<usize>, path: Seq<char>)
    requires
        order.len() <= usize::MAX,
    ensures
        poly_mesh::labels_of(
            foam_case::list_file(
                "labelList"@,
                "owner"@,
                order.len(),
                foam_case::owner_lines(faces, order),
            ),
            path,
        ) == Ok::<Seq<usize>, Failure>(ordered_owners(faces, order)),
{
    lemma_objects();
    assert(foam_case::owner_lines(faces, order) =~= label_lines(ordered_owners(faces, order)));
    labels_are_read("labelList"@, "owner"@, ordered_owners(faces, order), path);
}

proof fn lemma_written_neighbours(faces: Seq<FaceRecord>, path: Seq<char>)
    requires
        faces.len() <= usize::MAX,
        ordering::internal(faces, faces.len() as int).len() <= usize::MAX,
    ensures
        ({
            let inner = ordering::internal(faces, faces.len() as int);
            poly_mesh::labels_of(
                foam_case::list_file(
                    "labelList"@,
                    "neighbour"@,
                    inner.len(),
                    foam_case::neighbour_lines(faces, inner, inner.len() as int),
                ),
                path,
            ) == Ok::<Seq<usize>, Failure>(ordered_neighbours(faces, inner))
        }),
{
    let inner = ordering::internal(faces, faces.len() as int);
    lemma_objects();
    lemma_internal(faces, faces.len() as int);
    lemma_neighbour_lines(faces, inner, inner.len() as int);
    let beyond = label_lines(ordered_neighbours(faces, inner));
    assert(beyond.take(inner.len() as int) =~= beyond);
    labels_are_read("labelList"@, "neighbour"@, ordered_neighbours(faces, inner), path);
}

proof fn lemma_written_points(points: Seq<(String, String, String)>, path: Seq<char>)
    requires
        points.len() <= usize::MAX,
        forall|i: int| 0 <= i < points.len() ==> is_point(#[trigger] given_points(points)[i]),
    ensures
        poly_mesh::points_of(
            foam_case::list_file(
                "vectorField"@,
                "points"@,
                points.len(),
                foam_case::points_lines(points),
            ),
            path,
        ) == Ok::<Seq<PointView>, Failure>(given_points(points)),
{
    lemma_objects();
    assert(foam_case::points_lines(points) =~= points_lines(given_points(points)));
    points_are_read("vectorField"@, "points"@, given_points(points), path);
}

/// A mesh that is written is read: the points, faces, owners and neighbours
/// that the reader finds in the files are those of the mesh, in the order in
/// which its faces are written.
pub proof fn written_mesh_is_read<P>(
    mesh: Mesh<P>,
    points: Seq<(String, String, String)>,
    case_dir: Seq<char>,
    source: Seq<char>,
    options: FoamWriteOptions,
    faces: Seq<FaceRecord>,
    by_face: Seq<Zone>,
    by_cell: Seq<Zone>,
    found: FoamCase,
    path: Seq<char>,
)
    requires
        foam_case::is_case(
            mesh,
            points,
            case_dir,
            source,
            options,
            faces,
            by_face,
            by_cell,
            found,
        ),
        points.len() == mesh.points@.len(),
        forall|i: int| 0 <= i < points.len() ==> is_point(#[trigger] given_points(points)[i]),
    ensures
        ({
            let names = ordering::patch_order(faces, mesh.physical_names@);
            let order = ordering::face_order(faces, names, names.len() as int);
            let inner = ordering::internal(faces, faces.len() as int);
            let files = foam_case::file_views(found.files@);
            &&& files[0].0 == "constant/polyMesh/points"@
            &&& files[1].0 == "constant/polyMesh/faces"@
            &&& files[2].0 == "constant/polyMesh/owner"@
            &&& files[3].0 == "constant/polyMesh/neighbour"@
            &&& poly_mesh::mesh_of(path, files[0].1, files[1].1, files[2].1, files[3].1) == Ok::<
                PolyView,
                Failure,
            >(
                PolyView {
                    path,
                    points: given_points(points),
                    faces: ordered_nodes(faces, order),
                    owner: ordered_owners(faces, order),
                    neighbour: ordered_neighbours(faces, inner),
                },
            )
        }),
{
    let names = ordering::patch_order(faces, mesh.physical_names@);
    let order = ordering::face_order(faces, names, names.len() as int);
    let inner = ordering::internal(faces, faces.len() as int);
    let files = foam_case::file_views(found.files@);
    assert(mesh.points@.len() == found.summary.points);
    lemma_written_points(points, text::below(path, "points"@));
    lemma_written_faces(faces, order, text::below(path, "faces"@));
    lemma_written_owners(faces, order, text::below(path, "owner"@));
    lemma_written_neighbours(faces, text::below(path, "neighbour"@));
    foam_case::lemma_inner_first(faces, names, names.len() as int);
    assert(files == foam_case::mesh_files(
        mesh,
        points,
        faces,
        order,
        inner,
        found.summary.patches@,
        by_face,
        by_cell,
        found.summary,
        source,
    ));
}

proof fn lemma_internal_range(faces: Seq<FaceRecord>, n: int)
    requires
        0 <= n <= faces.len() <= usize::MAX,
    ensures
        forall|i: int|
            0 <= i < ordering::internal(faces, n).len() ==> #[trigger] ordering::internal(
                faces,
                n,
            )[i] < faces.len(),
    decreases n,
{
    if n > 0 {
        lemma_internal_range(faces, n - 1);
        let earlier = ordering::internal(faces, n - 1);
        let all = ordering::internal(faces, n);
        assert forall|i: int| 0 <= i < all.len() implies #[trigger] all[i] < faces.len() by {
            if i < earlier.len() {
                assert(all[i] == earlier[i]);
            }
        }
    }
}

proof fn lemma_patch_range(faces: Seq<FaceRecord>, name: Seq<char>, n: int)
    requires
        0 <= n <= faces.len() <= usize::MAX,
    ensures
        forall|i: int|
            0 <= i < ordering::of_patch(faces, name, n).len() ==> #[trigger] ordering::of_patch(
                faces,
                name,
                n,
            )[i] < faces.len(),
    decreases n,
{
    if n > 0 {
        lemma_patch_range(faces, name, n - 1);
        let earlier = ordering::of_patch(faces, name, n - 1);
        let all = ordering::of_patch(faces, name, n);
        assert forall|i: int| 0 <= i < all.len() implies #[trigger] all[i] < faces.len() by {
            if i < earlier.len() {
                assert(all[i] == earlier[i]);
            }
        }
    }
}

proof fn lemma_order_range(faces: Seq<FaceRecord>, names: Seq<Seq<char>>, n: int)
    requires
        0 <= n <= names.len(),
        faces.len() <= usize::MAX,
    ensures
        forall|i: int|
            0 <= i < ordering::face_order(faces, names, n).len() ==> #[trigger] ordering::face_order(
                faces,
                names,
                n,
            )[i] < faces.len(),
    decreases n,
{
    if n <= 0 {
        lemma_internal_range(faces, faces.len() as int);
    } else {
        lemma_order_range(faces, names, n - 1);
        lemma_patch_range(faces, names[n - 1], faces.len() as int);
        let earlier = ordering::face_order(faces, names, n - 1);
        let added = ordering::patch_faces(faces, names[n - 1]);
        let all = ordering::face_order(faces, names, n);
        assert forall|i: int| 0 <= i < all.len() implies #[trigger] all[i] < faces.len() by {
            if i < earlier.len() {
                assert(all[i] == earlier[i]);
            } else {
                assert(all[i] == added[i - earlier.len()]);
            }
        }
    }
}

proof fn lemma_nothing_missing(nodes: Seq<usize>, points: nat, at: int)
    requires
        0 <= at,
        forall|k: int| 0 <= k < nodes.len() ==> #[trigger] nodes[k] < points,
    ensures
        poly_mesh::missing_point(nodes, points, at) is None,
    decreases nodes.len() - at,
{
    if at < nodes.len() {
        assert(nodes[at] < points);
        lemma_nothing_missing(nodes, points, at + 1);
    }
}

proof fn lemma_polygons(faces: Seq<Seq<usize>>, points: nat, path: Seq<char>, at: int)
    requires
        0 <= at,
        forall|i: int|
            #![trigger faces[i]]
            0 <= i < faces.len() ==> faces[i].len() >= 3 && forall|k: int|
                0 <= k < faces[i].len() ==> #[trigger] faces[i][k] < points,
    ensures
        poly_mesh::polygons_checked(faces, points, path, at) is Ok,
    decreases faces.len() - at,
{
    if at < faces.len() {
        assert(faces[at].len() >= 3);
        lemma_nothing_missing(faces[at], points, 0);
        lemma_polygons(faces, points, path, at + 1);
    }
}

/// A mesh whose cells stand on its points is written with faces that pass the
/// check of polygons when they are read.
pub proof fn written_faces_are_polygons<P>(
    mesh: Mesh<P>,
    points: Seq<(String, String, String)>,
    case_dir: Seq<char>,
    source: Seq<char>,
    options: FoamWriteOptions,
    faces: Seq<FaceRecord>,
    by_face: Seq<Zone>,
    by_cell: Seq<Zone>,
    found: FoamCase,
    path: Seq<char>,
)
    requires
        foam_case::is_case(
            mesh,
            points,
            case_dir,
            source,
            options,
            faces,
            by_face,
            by_cell,
            found,
        ),
        forall|i: int, k: int|
            0 <= i < mesh.cells@.len() && 0 <= k < 8 ==> #[trigger] mesh.cells@[i].nodes@[k]
                < mesh.points@.len(),
    ensures
        ({
            let names = ordering::patch_order(faces, mesh.physical_names@);
            let order = ordering::face_order(faces, names, names.len() as int);
            poly_mesh::polygons_checked(
                ordered_nodes(faces, order),
                mesh.points@.len(),
                path,
                0,
            ) is Ok
        }),
{
    let names = ordering::patch_order(faces, mesh.physical_names@);
    let order = ordering::face_order(faces, names, names.len() as int);
    let nodes = ordered_nodes(faces, order);
    let total = mesh.points@.len();
    topology::faces_stand_on_points(mesh.cells@, mesh.cells@.len() as int, total);
    let shapes = topology::shapes_of(mesh.cells@, mesh.cells@.len() as int).faces;
    assert(topology::shapes(faces) == shapes);
    assert(faces.len() == found.summary.faces);
    lemma_order_range(faces, names, names.len() as int);
    assert forall|i: int|
        #![trigger nodes[i]]
        0 <= i < nodes.len() implies nodes[i].len() >= 3 && forall|k: int|
            0 <= k < nodes[i].len() ==> #[trigger] nodes[i][k] < total by {
        assert(order[i] < faces.len());
        let face = order[i] as int;
        assert(topology::shapes(faces)[face].nodes == faces[face].nodes@);
        assert(shapes[face].nodes.len() >= 3);
    }
    lemma_polygons(nodes, total, path, 0);
}

/// Whether every name of a list is that of a patch with faces.
pub open spec fn all_with_faces(faces: Seq<FaceRecord>, names: Seq<Seq<char>>) -> bool {
    forall|i: int|
        0 <= i < names.len() ==> ordering::patch_faces(faces, #[trigger] names[i]).len() > 0
}

proof fn lemma_of_patch_grows(faces: Seq<FaceRecord>, name: Seq<char>, n: int, m: int)
    requires
        0 <= n <= m <= faces.len(),
    ensures
        ordering::of_patch(faces, name, n).len() <= ordering::of_patch(faces, name, m).len(),
    decreases m,
{
    if n < m {
        lemma_of_patch_grows(faces, name, n, m - 1);
    }
}

proof fn lemma_inserted_with_faces(
    faces: Seq<FaceRecord>,
    names: Seq<Seq<char>>,
    name: Seq<char>,
)
    requires
        all_with_faces(faces, names),
        ordering::patch_faces(faces, name).len() > 0,
    ensures
        all_with_faces(faces, ordering::name_inserted(names, name)),
    decreases names.len(),
{
    if names.len() > 0 && !text::precedes(names.last(), name) && names.last() != name {
        let shorter = names.drop_last();
        assert(all_with_faces(faces, shorter)) by {
            assert forall|i: int| 0 <= i < shorter.len() implies ordering::patch_faces(
                faces,
                #[trigger] shorter[i],
            ).len() > 0 by {
                assert(shorter[i] == names[i]);
            }
        }
        lemma_inserted_with_faces(faces, shorter, name);
        assert(ordering::patch_faces(faces, names[names.len() - 1]).len() > 0);
    }
}

proof fn lemma_sorted_with_faces(faces: Seq<FaceRecord>, n: int)
    requires
        0 <= n <= faces.len(),
    ensures
        all_with_faces(faces, ordering::sorted_names(faces, n)),
    decreases n,
{
    if n > 0 {
        lemma_sorted_with_faces(faces, n - 1);
        match ordering::patch_name(faces[n - 1]) {
            Some(name) => {
                assert(ordering::of_patch(faces, name, n).len() > 0);
                lemma_of_patch_grows(faces, name, n, faces.len() as int);
                lemma_inserted_with_faces(faces, ordering::sorted_names(faces, n - 1), name);
            },
            None => {},
        }
    }
}

proof fn lemma_groups_with_faces(faces: Seq<FaceRecord>, groups: Seq<PhysicalName>, n: int)
    requires
        0 <= n <= groups.len(),
    ensures
        all_with_faces(faces, ordering::group_order(faces, groups, n)),
    decreases n,
{
    if n > 0 {
        lemma_groups_with_faces(faces, groups, n - 1);
    }
}

proof fn lemma_completed_with_faces(
    faces: Seq<FaceRecord>,
    head: Seq<Seq<char>>,
    names: Seq<Seq<char>>,
    n: int,
)
    requires
        0 <= n <= names.len(),
        all_with_faces(faces, head),
        all_with_faces(faces, names),
    ensures
        all_with_faces(faces, ordering::completed(head, names, n)),
    decreases n,
{
    if n > 0 {
        lemma_completed_with_faces(faces, head, names, n - 1);
        assert(ordering::patch_faces(faces, names[n - 1]).len() > 0);
    }
}

proof fn lemma_order_grows(faces: Seq<FaceRecord>, names: Seq<Seq<char>>, n: int, m: int)
    requires
        0 <= n <= m <= names.len(),
    ensures
        ordering::face_order(faces, names, n).len() <= ordering::face_order(faces, names, m).len(),
    decreases m,
{
    if n < m {
        lemma_order_grows(faces, names, n, m - 1);
    }
}

/// A patch of a written mesh passes the checks of patches: it has faces, and
/// they are boundary faces of the mesh.
pub proof fn written_patches_pass(
    faces: Seq<FaceRecord>,
    groups: Seq<PhysicalName>,
    options: FoamWriteOptions,
    at: int,
    patch: BoundaryPatch,
)
    requires
        ({
            let names = ordering::patch_order(faces, groups);
            let named = ordering::ordered_patches(faces, names, options);
            &&& 0 <= at < names.len()
            &&& patch.faces == named[at].faces
            &&& patch.start_face == named[at].start_face
            &&& ordering::face_order(faces, names, names.len() as int).len() <= usize::MAX
        }),
    ensures
        ({
            let names = ordering::patch_order(faces, groups);
            let order = ordering::face_order(faces, names, names.len() as int);
            let inner = ordering::internal(faces, faces.len() as int);
            &&& patches::range_warnings(patch, order.len(), inner.len()) == Seq::<
                Seq<char>,
            >::empty()
            &&& patches::special_warnings(patch) == Seq::<Seq<char>>::empty()
        }),
{
    let names = ordering::patch_order(faces, groups);
    let sorted = ordering::sorted_names(faces, faces.len() as int);
    lemma_sorted_with_faces(faces, faces.len() as int);
    lemma_groups_with_faces(faces, groups, groups.len() as int);
    lemma_completed_with_faces(
        faces,
        ordering::group_order(faces, groups, groups.len() as int),
        sorted,
        sorted.len() as int,
    );
    assert(ordering::patch_faces(faces, names[at]).len() > 0);
    assert(ordering::face_order(faces, names, at + 1) == ordering::face_order(faces, names, at)
        + ordering::patch_faces(faces, names[at]));
    lemma_order_grows(faces, names, 0, at);
    lemma_order_grows(faces, names, at + 1, names.len() as int);
}

} // verus!
