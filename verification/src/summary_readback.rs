//! What the reader of a mesh summary makes of the summary of a written mesh.

use crate::arguments;
use crate::case_summary;
use crate::case_summary::{CaseView, SummaryPart};
use crate::dictionary;
use crate::foam_case;
use crate::foam_case::{FoamCase, FoamWriteSummary};
use crate::layout;
use crate::mesh;
use crate::mesh::{Mesh, PhysicalName, UnsupportedElementCount};
use crate::ordering;
use crate::ordering::{FoamWriteOptions, PatchSummary};
use crate::readback;
use crate::text;
use crate::text::CharClass;
use crate::topology;
use crate::topology::FaceRecord;
use crate::zones::Zone;
use vstd::prelude::*;

verus! {

/// What a line adds to what has been read of a summary.
pub open spec fn read_line(state: (CaseView, SummaryPart), given: Seq<char>) -> (
    CaseView,
    SummaryPart,
) {
    let line = text::trim(given);
    if line.len() == 0 {
        state
    } else {
        match case_summary::part_opened(line) {
            Some(opened) => (state.0, opened),
            None => (state.0.told(state.1, line), state.1),
        }
    }
}

/// What the first `n` lines add to what has been read of a summary.
pub open spec fn read_on(state: (CaseView, SummaryPart), lines: Seq<Seq<char>>, n: int) -> (
    CaseView,
    SummaryPart,
)
    decreases n,
{
    if n <= 0 {
        state
    } else {
        read_line(read_on(state, lines, n - 1), lines[n - 1])
    }
}

proof fn lemma_read_on(path: Seq<char>, lines: Seq<Seq<char>>, n: int)
    requires
        0 <= n <= lines.len(),
    ensures
        case_summary::read_before(path, lines, n) == read_on(
            (case_summary::silent(path), SummaryPart::Sizes),
            lines,
            n,
        ),
    decreases n,
{
    if n > 0 {
        lemma_read_on(path, lines, n - 1);
    }
}

proof fn lemma_read_prefix(
    state: (CaseView, SummaryPart),
    head: Seq<Seq<char>>,
    tail: Seq<Seq<char>>,
    n: int,
)
    requires
        0 <= n <= head.len(),
    ensures
        read_on(state, head + tail, n) == read_on(state, head, n),
    decreases n,
{
    if n > 0 {
        lemma_read_prefix(state, head, tail, n - 1);
        assert((head + tail)[n - 1] == head[n - 1]);
    }
}

proof fn lemma_read_append(
    state: (CaseView, SummaryPart),
    head: Seq<Seq<char>>,
    tail: Seq<Seq<char>>,
    n: int,
)
    requires
        0 <= n <= tail.len(),
    ensures
        read_on(state, head + tail, head.len() + n) == read_on(
            read_on(state, head, head.len() as int),
            tail,
            n,
        ),
    decreases n,
{
    if n == 0 {
        lemma_read_prefix(state, head, tail, head.len() as int);
    } else {
        lemma_read_append(state, head, tail, n - 1);
        assert((head + tail)[head.len() + n - 1] == tail[n - 1]);
    }
}

/// A line that ends in a digit opens no part.
proof fn lemma_no_part(line: Seq<char>)
    requires
        line.len() > 0,
        line.last() != ']',
    ensures
        case_summary::part_opened(line) is None,
{
    reveal_strlit("[patches]");
    reveal_strlit("[cell_zones]");
    reveal_strlit("[face_zones]");
    reveal_strlit("[unsupported_elements]");
}

proof fn lemma_read_size(view: CaseView, key: Seq<char>, n: nat)
    requires
        key.len() > 0,
        !text::is_space(key[0]),
        forall|i: int| 0 <= i < key.len() ==> #[trigger] key[i] != '=',
        n <= usize::MAX,
    ensures
        read_line((view, SummaryPart::Sizes), key + "="@ + text::decimal(n)) == (
            view.sized(key, Some(n)),
            SummaryPart::Sizes,
        ),
{
    reveal_strlit("=");
    let number = text::decimal(n);
    readback::lemma_decimal_chars(n);
    let line = key + "="@ + number;
    assert(line[0] == key[0]);
    assert(line.last() == number[number.len() - 1]);
    readback::lemma_trim_trimmed(line);
    lemma_no_part(line);
    assert forall|i: int| 0 <= i < key.len() implies #[trigger] line[i] != '=' by {
        assert(line[i] == key[i]);
    }
    readback::lemma_find_first(line, '=', key.len() as int);
    assert(line.take(key.len() as int) =~= key);
    assert(line.skip(key.len() as int + 1) =~= number);
    text::natural_reads_decimal(n, usize::MAX as nat);
}

/// A setting that is no size is passed over.
proof fn lemma_read_other(view: CaseView, key: Seq<char>, value: Seq<char>)
    requires
        key == "source"@ || key == "case"@,
    ensures
        read_line((view, SummaryPart::Sizes), key + "="@ + value) == (view, SummaryPart::Sizes),
{
    reveal_strlit("source");
    reveal_strlit("case");
    reveal_strlit("=");
    let given = key + "="@ + value;
    let n = key.len() as int;
    assert(given[0] == key[0]);
    assert(text::strip_start(CharClass::Space, given) == given);
    lemma_strip_end_keeps(given, n);
    let line = text::trim(given);
    assert forall|i: int| 0 <= i <= n implies #[trigger] line[i] == given[i] by {}
    assert(line[n] == '=');
    assert forall|i: int| 0 <= i < n implies #[trigger] line[i] != '=' by {
        assert(line[i] == key[i]);
    }
    readback::lemma_find_first(line, '=', n);
    assert(line.take(n) =~= key);
    assert(case_summary::part_opened(line) is None) by {
        reveal_strlit("[patches]");
        reveal_strlit("[cell_zones]");
        reveal_strlit("[face_zones]");
        reveal_strlit("[unsupported_elements]");
        assert(line[0] != '[');
    }
    reveal_strlit("points");
    reveal_strlit("cells");
    reveal_strlit("faces");
    reveal_strlit("internal_faces");
    reveal_strlit("boundary_faces");
    reveal_strlit("unmatched_boundary_faces");
    reveal_strlit("duplicate_boundary_faces");
    reveal_strlit("non_manifold_faces");
    assert("points"@[0] == 'p');
}

proof fn lemma_strip_end_keeps(s: Seq<char>, at: int)
    requires
        0 <= at < s.len(),
        !text::is_space(s[at]),
    ensures
        text::strip_end(CharClass::Space, s).len() > at,
        text::strip_end(CharClass::Space, s).is_prefix_of(s),
    decreases s.len(),
{
    if text::is_space(s.last()) {
        assert(s.drop_last()[at] == s[at]);
        lemma_strip_end_keeps(s.drop_last(), at);
    }
}

/// What has been read of a summary after its sizes.
pub open spec fn sized_view(path: Seq<char>, summary: FoamWriteSummary) -> CaseView {
    CaseView {
        path,
        points: Some(summary.points as nat),
        cells: Some(summary.cells as nat),
        faces: Some(summary.faces as nat),
        internal_faces: Some(summary.internal_faces as nat),
        boundary_faces: Some(summary.boundary_faces as nat),
        unmatched_boundary_faces: Some(summary.unmatched_boundary_faces as nat),
        duplicate_boundary_faces: Some(summary.duplicate_boundary_faces as nat),
        non_manifold_faces: Some(summary.non_manifold_faces as nat),
        patches: Seq::empty(),
        face_zones: Seq::empty(),
        cell_zones: Seq::empty(),
    }
}

proof fn lemma_title(view: CaseView)
    ensures
        read_line((view, SummaryPart::Sizes), "FerrumCFD mesh summary"@) == (
            view,
            SummaryPart::Sizes,
        ),
{
    let line = "FerrumCFD mesh summary"@;
    reveal_strlit("FerrumCFD mesh summary");
    readback::lemma_trim_trimmed(line);
    lemma_no_part(line);
    dictionary::lemma_find_bound(line, '=');
}

proof fn lemma_read_first_sizes(view: CaseView, a: nat, b: nat, c: nat, d: nat)
    requires
        a <= usize::MAX,
        b <= usize::MAX,
        c <= usize::MAX,
        d <= usize::MAX,
    ensures
        read_line((view, SummaryPart::Sizes), "points="@ + text::decimal(a)) == (
            CaseView { points: Some(a), ..view },
            SummaryPart::Sizes,
        ),
        read_line((view, SummaryPart::Sizes), "cells="@ + text::decimal(b)) == (
            CaseView { cells: Some(b), ..view },
            SummaryPart::Sizes,
        ),
        read_line((view, SummaryPart::Sizes), "faces="@ + text::decimal(c)) == (
            CaseView { faces: Some(c), ..view },
            SummaryPart::Sizes,
        ),
        read_line((view, SummaryPart::Sizes), "internal_faces="@ + text::decimal(d)) == (
            CaseView { internal_faces: Some(d), ..view },
            SummaryPart::Sizes,
        ),
{
    lemma_keys_differ();
    reveal_strlit("=");
    reveal_strlit("points=");
    reveal_strlit("cells=");
    reveal_strlit("faces=");
    reveal_strlit("internal_faces=");
    reveal_strlit("points");
    reveal_strlit("cells");
    reveal_strlit("faces");
    reveal_strlit("internal_faces");
    assert("points="@ =~= "points"@ + "="@);
    assert("cells="@ =~= "cells"@ + "="@);
    assert("faces="@ =~= "faces"@ + "="@);
    assert("internal_faces="@ =~= "internal_faces"@ + "="@);
    lemma_read_size(view, "points"@, a);
    lemma_read_size(view, "cells"@, b);
    lemma_read_size(view, "faces"@, c);
    lemma_read_size(view, "internal_faces"@, d);
}

proof fn lemma_read_last_sizes(view: CaseView, a: nat, b: nat, c: nat, d: nat)
    requires
        a <= usize::MAX,
        b <= usize::MAX,
        c <= usize::MAX,
        d <= usize::MAX,
    ensures
        read_line((view, SummaryPart::Sizes), "boundary_faces="@ + text::decimal(a)) == (
            CaseView { boundary_faces: Some(a), ..view },
            SummaryPart::Sizes,
        ),
        read_line((view, SummaryPart::Sizes), "unmatched_boundary_faces="@ + text::decimal(b)) == (
            CaseView { unmatched_boundary_faces: Some(b), ..view },
            SummaryPart::Sizes,
        ),
        read_line((view, SummaryPart::Sizes), "duplicate_boundary_faces="@ + text::decimal(c)) == (
            CaseView { duplicate_boundary_faces: Some(c), ..view },
            SummaryPart::Sizes,
        ),
        read_line((view, SummaryPart::Sizes), "non_manifold_faces="@ + text::decimal(d)) == (
            CaseView { non_manifold_faces: Some(d), ..view },
            SummaryPart::Sizes,
        ),
{
    lemma_keys_differ();
    reveal_strlit("=");
    reveal_strlit("boundary_faces=");
    reveal_strlit("unmatched_boundary_faces=");
    reveal_strlit("duplicate_boundary_faces=");
    reveal_strlit("non_manifold_faces=");
    reveal_strlit("boundary_faces");
    reveal_strlit("unmatched_boundary_faces");
    reveal_strlit("duplicate_boundary_faces");
    reveal_strlit("non_manifold_faces");
    assert("boundary_faces="@ =~= "boundary_faces"@ + "="@);
    assert("unmatched_boundary_faces="@ =~= "unmatched_boundary_faces"@ + "="@);
    assert("duplicate_boundary_faces="@ =~= "duplicate_boundary_faces"@ + "="@);
    assert("non_manifold_faces="@ =~= "non_manifold_faces"@ + "="@);
    lemma_read_size(view, "boundary_faces"@, a);
    lemma_read_size(view, "unmatched_boundary_faces"@, b);
    lemma_read_size(view, "duplicate_boundary_faces"@, c);
    lemma_read_size(view, "non_manifold_faces"@, d);
}

proof fn lemma_keys_differ()
    ensures
        "cells"@ != "points"@,
        "faces"@ != "points"@,
        "faces"@ != "cells"@,
        "internal_faces"@ != "points"@,
        "internal_faces"@ != "cells"@,
        "internal_faces"@ != "faces"@,
        "boundary_faces"@ != "points"@,
        "boundary_faces"@ != "cells"@,
        "boundary_faces"@ != "faces"@,
        "boundary_faces"@ != "internal_faces"@,
        "unmatched_boundary_faces"@ != "points"@,
        "unmatched_boundary_faces"@ != "cells"@,
        "unmatched_boundary_faces"@ != "faces"@,
        "unmatched_boundary_faces"@ != "internal_faces"@,
        "unmatched_boundary_faces"@ != "boundary_faces"@,
        "duplicate_boundary_faces"@ != "points"@,
        "duplicate_boundary_faces"@ != "cells"@,
        "duplicate_boundary_faces"@ != "faces"@,
        "duplicate_boundary_faces"@ != "internal_faces"@,
        "duplicate_boundary_faces"@ != "boundary_faces"@,
        "duplicate_boundary_faces"@ != "unmatched_boundary_faces"@,
        "non_manifold_faces"@ != "points"@,
        "non_manifold_faces"@ != "cells"@,
        "non_manifold_faces"@ != "faces"@,
        "non_manifold_faces"@ != "internal_faces"@,
        "non_manifold_faces"@ != "boundary_faces"@,
        "non_manifold_faces"@ != "unmatched_boundary_faces"@,
        "non_manifold_faces"@ != "duplicate_boundary_faces"@,
{
    reveal_strlit("points");
    reveal_strlit("cells");
    reveal_strlit("faces");
    reveal_strlit("internal_faces");
    reveal_strlit("boundary_faces");
    reveal_strlit("unmatched_boundary_faces");
    reveal_strlit("duplicate_boundary_faces");
    reveal_strlit("non_manifold_faces");
    assert("points"@.len() == 6);
    assert("non_manifold_faces"@.len() == 18);
    assert("cells"@[0] != "faces"@[0]);
    assert("internal_faces"@[0] != "boundary_faces"@[0]);
    assert("unmatched_boundary_faces"@[0] != "duplicate_boundary_faces"@[0]);
}

proof fn lemma_read_sizes(path: Seq<char>, summary: FoamWriteSummary, source: Seq<char>)
    ensures
        read_on(
            (case_summary::silent(path), SummaryPart::Sizes),
            foam_case::sizes_lines(summary, source),
            foam_case::sizes_lines(summary, source).len() as int,
        ) == (sized_view(path, summary), SummaryPart::Sizes),
{
    let lines = foam_case::sizes_lines(summary, source);
    let start = case_summary::silent(path);
    assert(lines.len() == 11);
    reveal_strlit("source=");
    reveal_strlit("case=");
    reveal_strlit("source");
    reveal_strlit("case");
    reveal_strlit("=");
    assert("source="@ =~= "source"@ + "="@);
    assert("case="@ =~= "case"@ + "="@);
    lemma_title(start);
    lemma_read_other(start, "source"@, source);
    lemma_read_other(start, "case"@, summary.case_dir@);
    let a = summary.points as nat;
    let b = summary.cells as nat;
    let c = summary.faces as nat;
    let d = summary.internal_faces as nat;
    let e = summary.boundary_faces as nat;
    let f = summary.unmatched_boundary_faces as nat;
    let g = summary.duplicate_boundary_faces as nat;
    let h = summary.non_manifold_faces as nat;
    let v3 = CaseView { points: Some(a), ..start };
    let v4 = CaseView { cells: Some(b), ..v3 };
    let v5 = CaseView { faces: Some(c), ..v4 };
    let v6 = CaseView { internal_faces: Some(d), ..v5 };
    let v7 = CaseView { boundary_faces: Some(e), ..v6 };
    let v8 = CaseView { unmatched_boundary_faces: Some(f), ..v7 };
    let v9 = CaseView { duplicate_boundary_faces: Some(g), ..v8 };
    let state = (start, SummaryPart::Sizes);
    assert(lines[0] == "FerrumCFD mesh summary"@);
    assert(lines[1] == "source="@ + source);
    assert(lines[2] == "case="@ + summary.case_dir@);
    assert(lines[3] == "points="@ + text::decimal(a));
    assert(lines[4] == "cells="@ + text::decimal(b));
    assert(lines[5] == "faces="@ + text::decimal(c));
    assert(lines[6] == "internal_faces="@ + text::decimal(d));
    assert(lines[7] == "boundary_faces="@ + text::decimal(e));
    assert(lines[8] == "unmatched_boundary_faces="@ + text::decimal(f));
    assert(lines[9] == "duplicate_boundary_faces="@ + text::decimal(g));
    assert(lines[10] == "non_manifold_faces="@ + text::decimal(h));
    assert(read_on(state, lines, 0) == state);
    assert(read_on(state, lines, 1) == state);
    assert(read_on(state, lines, 2) == state);
    assert(read_on(state, lines, 3) == state);
    lemma_read_first_sizes(start, a, b, c, d);
    assert(read_on(state, lines, 4) == (v3, SummaryPart::Sizes));
    lemma_read_first_sizes(v3, a, b, c, d);
    assert(read_on(state, lines, 5) == (v4, SummaryPart::Sizes));
    lemma_read_first_sizes(v4, a, b, c, d);
    assert(read_on(state, lines, 6) == (v5, SummaryPart::Sizes));
    lemma_read_first_sizes(v5, a, b, c, d);
    assert(read_on(state, lines, 7) == (v6, SummaryPart::Sizes));
    lemma_read_last_sizes(v6, e, f, g, h);
    assert(read_on(state, lines, 8) == (v7, SummaryPart::Sizes));
    lemma_read_last_sizes(v7, e, f, g, h);
    assert(read_on(state, lines, 9) == (v8, SummaryPart::Sizes));
    lemma_read_last_sizes(v8, e, f, g, h);
    assert(read_on(state, lines, 10) == (v9, SummaryPart::Sizes));
    lemma_read_last_sizes(v9, e, f, g, h);
}

/// The summary with further lines in a part.
pub open spec fn told_all(view: CaseView, part: SummaryPart, items: Seq<Seq<char>>) -> CaseView {
    match part {
        SummaryPart::Patches => CaseView { patches: view.patches + items, ..view },
        SummaryPart::FaceZones => CaseView { face_zones: view.face_zones + items, ..view },
        SummaryPart::CellZones => CaseView { cell_zones: view.cell_zones + items, ..view },
        _ => view,
    }
}

/// Whether a text is a line of a part of the summary.
pub open spec fn is_told(line: Seq<char>) -> bool {
    readback::is_line(line) && readback::is_trimmed(line) && line.last() != ']'
}

proof fn lemma_read_items(view: CaseView, part: SummaryPart, items: Seq<Seq<char>>, n: int)
    requires
        0 <= n <= items.len(),
        part != SummaryPart::Sizes,
        part != SummaryPart::UnsupportedElements,
        forall|i: int| 0 <= i < items.len() ==> is_told(#[trigger] items[i]),
    ensures
        read_on((view, part), items, n) == (told_all(view, part, items.take(n)), part),
    decreases n,
{
    if n == 0 {
        assert(items.take(0) =~= Seq::empty());
        assert(view.patches + items.take(0) =~= view.patches);
        assert(view.face_zones + items.take(0) =~= view.face_zones);
        assert(view.cell_zones + items.take(0) =~= view.cell_zones);
    } else {
        lemma_read_items(view, part, items, n - 1);
        let line = items[n - 1];
        assert(is_told(line));
        readback::lemma_trim_trimmed(line);
        lemma_no_part(line);
        let earlier = items.take(n - 1);
        assert(items.take(n) =~= earlier.push(line));
        assert((view.patches + earlier).push(line) =~= view.patches + earlier.push(line));
        assert((view.face_zones + earlier).push(line) =~= view.face_zones + earlier.push(line));
        assert((view.cell_zones + earlier).push(line) =~= view.cell_zones + earlier.push(line));
    }
}

proof fn lemma_read_unsupported(view: CaseView, items: Seq<UnsupportedElementCount>, n: int)
    requires
        0 <= n <= items.len(),
    ensures
        read_on(
            (view, SummaryPart::UnsupportedElements),
            foam_case::unsupported_summary_items(items),
            n,
        ) == (view, SummaryPart::UnsupportedElements),
    decreases n,
{
    if n > 0 {
        lemma_read_unsupported(view, items, n - 1);
        let line = foam_case::unsupported_summary_line(items[n - 1]);
        lemma_unsupported_line(items[n - 1]);
        readback::lemma_trim_trimmed(line);
        lemma_no_part(line);
        reveal_strlit("type=");
        reveal_strlit("type");
        readback::lemma_find_first(line, '=', 4);
        assert(line.take(4) =~= "type"@);
        lemma_type_is_no_size();
    }
}

proof fn lemma_type_is_no_size()
    ensures
        forall|view: CaseView, number: Option<nat>| #[trigger]
            view.sized("type"@, number) == view,
{
    reveal_strlit("type");
    reveal_strlit("points");
    reveal_strlit("cells");
    reveal_strlit("faces");
    reveal_strlit("internal_faces");
    reveal_strlit("boundary_faces");
    reveal_strlit("unmatched_boundary_faces");
    reveal_strlit("duplicate_boundary_faces");
    reveal_strlit("non_manifold_faces");
    assert("type"@.len() == 4);
    assert("points"@.len() == 6);
    assert("cells"@.len() == 5);
    assert("faces"@.len() == 5);
    assert("internal_faces"@.len() == 14);
    assert("boundary_faces"@.len() == 14);
    assert("unmatched_boundary_faces"@.len() == 24);
    assert("duplicate_boundary_faces"@.len() == 24);
    assert("non_manifold_faces"@.len() == 18);
}

proof fn lemma_signed_chars(n: int)
    ensures
        text::signed_decimal(n).len() > 0,
        forall|i: int|
            0 <= i < text::signed_decimal(n).len() ==> #[trigger] text::signed_decimal(n)[i]
                != '\n',
{
    if n < 0 {
        readback::lemma_decimal_chars((-n) as nat);
        let digits = text::decimal((-n) as nat);
        let s = text::signed_decimal(n);
        assert forall|i: int| 0 <= i < s.len() implies #[trigger] s[i] != '\n' by {
            if i > 0 {
                assert(s[i] == digits[i - 1]);
            }
        }
    } else {
        readback::lemma_decimal_chars(n as nat);
    }
}

/// Whether a text holds no line feed.
pub open spec fn no_feed(s: Seq<char>) -> bool {
    forall|i: int| 0 <= i < s.len() ==> #[trigger] s[i] != '\n'
}

proof fn lemma_no_feed(head: Seq<char>, tail: Seq<char>)
    requires
        no_feed(head),
        no_feed(tail),
    ensures
        no_feed(head + tail),
{
    assert forall|i: int| 0 <= i < (head + tail).len() implies #[trigger] (head + tail)[i]
        != '\n' by {
        if i < head.len() {
            assert((head + tail)[i] == head[i]);
        } else {
            assert((head + tail)[i] == tail[i - head.len()]);
        }
    }
}

/// A line that ends in a count, behind a head that opens with no white space.
proof fn lemma_counted_line(head: Seq<char>, n: nat)
    requires
        head.len() > 0,
        !text::is_space(head[0]),
        no_feed(head),
    ensures
        is_told(head + text::decimal(n)),
{
    let number = text::decimal(n);
    readback::lemma_decimal_chars(n);
    readback::lemma_decimal_is_plain(n);
    lemma_no_feed(head, number);
    let line = head + number;
    assert(line[0] == head[0]);
    assert(line.last() == number[number.len() - 1]);
}

proof fn lemma_unsupported_line(element: UnsupportedElementCount)
    ensures
        is_told(foam_case::unsupported_summary_line(element)),
        foam_case::unsupported_summary_line(element)[0] == 't',
        foam_case::unsupported_summary_line(element)[1] == 'y',
        foam_case::unsupported_summary_line(element)[2] == 'p',
        foam_case::unsupported_summary_line(element)[3] == 'e',
        foam_case::unsupported_summary_line(element)[4] == '=',
{
    reveal_strlit("type=");
    reveal_strlit(" count=");
    let number = text::signed_decimal(element.element_type as int);
    lemma_signed_chars(element.element_type as int);
    lemma_no_feed("type="@, number);
    lemma_no_feed("type="@ + number, " count="@);
    let head = "type="@ + number + " count="@;
    assert(head[0] == 't');
    lemma_counted_line(head, element.count as nat);
    let line = foam_case::unsupported_summary_line(element);
    assert(line =~= head + text::decimal(element.count as nat));
}

proof fn lemma_word_has_no_feed(name: Seq<char>)
    requires
        arguments::is_word(name),
    ensures
        no_feed(name),
        !text::is_space(name[0]),
{
    assert forall|i: int| 0 <= i < name.len() implies #[trigger] name[i] != '\n' by {
        let ch = name[i];
        assert(text::is_alphanumeric(ch) || ch == '_' || ch == '-');
    }
    let first = name[0];
    assert(text::is_alphanumeric(first) || first == '_' || first == '-');
}

proof fn lemma_patch_line(patch: PatchSummary)
    requires
        arguments::is_word(patch.name@),
        no_feed(patch.patch_type@),
    ensures
        is_told(foam_case::patch_summary_line(patch)),
{
    lemma_word_has_no_feed(patch.name@);
    reveal_strlit(" type=");
    reveal_strlit(" tag=");
    reveal_strlit(" faces=");
    reveal_strlit(" startFace=");
    reveal_strlit("-");
    let tag = foam_case::tag_text(patch.physical_tag);
    match patch.physical_tag {
        Some(found) => {
            lemma_signed_chars(found as int);
        },
        None => {},
    }
    assert(no_feed(tag));
    let count = text::decimal(patch.faces as nat);
    readback::lemma_decimal_is_plain(patch.faces as nat);
    let a = patch.name@ + " type="@;
    lemma_no_feed(patch.name@, " type="@);
    let b = a + patch.patch_type@;
    lemma_no_feed(a, patch.patch_type@);
    let c = b + " tag="@;
    lemma_no_feed(b, " tag="@);
    let d = c + tag;
    lemma_no_feed(c, tag);
    let e = d + " faces="@;
    lemma_no_feed(d, " faces="@);
    let f = e + count;
    lemma_no_feed(e, count);
    let g = f + " startFace="@;
    lemma_no_feed(f, " startFace="@);
    assert(g[0] == patch.name@[0]);
    lemma_counted_line(g, patch.start_face as nat);
}

proof fn lemma_zone_line(name: Seq<char>, tag: int, label: Seq<char>, n: nat)
    requires
        arguments::is_word(name),
        no_feed(label),
    ensures
        is_told(name + " tag="@ + text::signed_decimal(tag) + label + text::decimal(n)),
{
    lemma_word_has_no_feed(name);
    reveal_strlit(" tag=");
    lemma_signed_chars(tag);
    let a = name + " tag="@;
    lemma_no_feed(name, " tag="@);
    let b = a + text::signed_decimal(tag);
    lemma_no_feed(a, text::signed_decimal(tag));
    let c = b + label;
    lemma_no_feed(b, label);
    assert(c[0] == name[0]);
    lemma_counted_line(c, n);
}

/// Whether a summary can be told in lines: its paths are lines, the names of
/// its patches and zones are words, and the types of its patches hold no line
/// feed.
pub open spec fn is_tellable(summary: FoamWriteSummary, source: Seq<char>) -> bool {
    &&& readback::is_line(source)
    &&& readback::is_line(summary.case_dir@)
    &&& forall|i: int|
        0 <= i < summary.patches@.len() ==> arguments::is_word(
            (#[trigger] summary.patches@[i]).name@,
        ) && no_feed(summary.patches@[i].patch_type@)
    &&& forall|i: int|
        0 <= i < summary.face_zones@.len() ==> arguments::is_word(
            (#[trigger] summary.face_zones@[i]).name@,
        )
    &&& forall|i: int|
        0 <= i < summary.cell_zones@.len() ==> arguments::is_word(
            (#[trigger] summary.cell_zones@[i]).name@,
        )
}

proof fn lemma_told_items(summary: FoamWriteSummary, source: Seq<char>)
    requires
        is_tellable(summary, source),
    ensures
        forall|i: int|
            0 <= i < summary.patches@.len() ==> is_told(
                #[trigger] foam_case::patch_summary_items(summary.patches@)[i],
            ),
        forall|i: int|
            0 <= i < summary.face_zones@.len() ==> is_told(
                #[trigger] foam_case::face_zone_summary_items(summary.face_zones@)[i],
            ),
        forall|i: int|
            0 <= i < summary.cell_zones@.len() ==> is_told(
                #[trigger] foam_case::cell_zone_summary_items(summary.cell_zones@)[i],
            ),
{
    assert forall|i: int| 0 <= i < summary.patches@.len() implies is_told(
        #[trigger] foam_case::patch_summary_items(summary.patches@)[i],
    ) by {
        lemma_patch_line(summary.patches@[i]);
    }
    reveal_strlit(" faces=");
    reveal_strlit(" cells=");
    assert forall|i: int| 0 <= i < summary.face_zones@.len() implies is_told(
        #[trigger] foam_case::face_zone_summary_items(summary.face_zones@)[i],
    ) by {
        let zone = summary.face_zones@[i];
        lemma_zone_line(zone.name@, zone.physical_tag as int, " faces="@, zone.faces as nat);
    }
    assert forall|i: int| 0 <= i < summary.cell_zones@.len() implies is_told(
        #[trigger] foam_case::cell_zone_summary_items(summary.cell_zones@)[i],
    ) by {
        let zone = summary.cell_zones@[i];
        lemma_zone_line(zone.name@, zone.physical_tag as int, " cells="@, zone.cells as nat);
    }
}

proof fn lemma_sizes_are_lines(summary: FoamWriteSummary, source: Seq<char>)
    requires
        readback::is_line(source),
        readback::is_line(summary.case_dir@),
    ensures
        forall|i: int|
            0 <= i < foam_case::sizes_lines(summary, source).len() ==> readback::is_line(
                #[trigger] foam_case::sizes_lines(summary, source)[i],
            ),
{
    let lines = foam_case::sizes_lines(summary, source);
    reveal_strlit("FerrumCFD mesh summary");
    reveal_strlit("source=");
    reveal_strlit("case=");
    reveal_strlit("points=");
    reveal_strlit("cells=");
    reveal_strlit("faces=");
    reveal_strlit("internal_faces=");
    reveal_strlit("boundary_faces=");
    reveal_strlit("unmatched_boundary_faces=");
    reveal_strlit("duplicate_boundary_faces=");
    reveal_strlit("non_manifold_faces=");
    lemma_no_feed("source="@, source);
    lemma_no_feed("case="@, summary.case_dir@);
    assert(readback::is_line(lines[0]));
    assert(readback::is_line(lines[1]));
    assert(readback::is_line(lines[2]));
    lemma_counted_line("points="@, summary.points as nat);
    lemma_counted_line("cells="@, summary.cells as nat);
    lemma_counted_line("faces="@, summary.faces as nat);
    lemma_counted_line("internal_faces="@, summary.internal_faces as nat);
    lemma_counted_line("boundary_faces="@, summary.boundary_faces as nat);
    lemma_counted_line("unmatched_boundary_faces="@, summary.unmatched_boundary_faces as nat);
    lemma_counted_line("duplicate_boundary_faces="@, summary.duplicate_boundary_faces as nat);
    lemma_counted_line("non_manifold_faces="@, summary.non_manifold_faces as nat);
    assert forall|i: int| 0 <= i < lines.len() implies readback::is_line(#[trigger] lines[i]) by {
        assert(i == 0 || i == 1 || i == 2 || i == 3 || i == 4 || i == 5 || i == 6 || i == 7 || i
            == 8 || i == 9 || i == 10);
    }
}

proof fn lemma_heading(state: (CaseView, SummaryPart), title: Seq<char>, part: SummaryPart)
    requires
        case_summary::part_opened(title) == Some(part),
        readback::is_trimmed(title),
    ensures
        read_on(state, Seq::<Seq<char>>::empty().push(Seq::empty()).push(title), 2) == (
            state.0,
            part,
        ),
{
    let lines = Seq::<Seq<char>>::empty().push(Seq::empty()).push(title);
    assert(lines[0] == Seq::<char>::empty());
    assert(lines[1] == title);
    assert(text::trim(lines[0]).len() == 0);
    assert(read_on(state, lines, 0) == state);
    assert(read_on(state, lines, 1) == state);
    readback::lemma_trim_trimmed(title);
}

proof fn lemma_titles()
    ensures
        case_summary::part_opened("[patches]"@) == Some(SummaryPart::Patches),
        case_summary::part_opened("[face_zones]"@) == Some(SummaryPart::FaceZones),
        case_summary::part_opened("[cell_zones]"@) == Some(SummaryPart::CellZones),
        case_summary::part_opened("[unsupported_elements]"@) == Some(
            SummaryPart::UnsupportedElements,
        ),
        readback::is_trimmed("[patches]"@) && readback::is_line("[patches]"@),
        readback::is_trimmed("[face_zones]"@) && readback::is_line("[face_zones]"@),
        readback::is_trimmed("[cell_zones]"@) && readback::is_line("[cell_zones]"@),
        readback::is_trimmed("[unsupported_elements]"@) && readback::is_line("[unsupported_elements]"@),
{
    reveal_strlit("[patches]");
    reveal_strlit("[face_zones]");
    reveal_strlit("[cell_zones]");
    reveal_strlit("[unsupported_elements]");
    assert("[patches]"@.len() == 9);
    assert("[face_zones]"@.len() == 12);
    assert("[cell_zones]"@.len() == 12);
    assert("[unsupported_elements]"@.len() == 22);
    assert("[face_zones]"@[1] == 'f');
    assert("[cell_zones]"@[1] == 'c');
}

/// Whether every text of a list is a line.
pub open spec fn all_lines(lines: Seq<Seq<char>>) -> bool {
    forall|i: int| 0 <= i < lines.len() ==> readback::is_line(#[trigger] lines[i])
}

proof fn lemma_all_lines(head: Seq<Seq<char>>, tail: Seq<Seq<char>>)
    requires
        all_lines(head),
        all_lines(tail),
    ensures
        all_lines(head + tail),
{
    assert forall|i: int| 0 <= i < (head + tail).len() implies readback::is_line(
        #[trigger] (head + tail)[i],
    ) by {
        if i < head.len() {
            assert((head + tail)[i] == head[i]);
        } else {
            assert((head + tail)[i] == tail[i - head.len()]);
        }
    }
}

/// A part of a summary: what its title and its items add.
proof fn lemma_read_part(
    path: Seq<char>,
    before: Seq<Seq<char>>,
    view: CaseView,
    open: SummaryPart,
    title: Seq<char>,
    part: SummaryPart,
    items: Seq<Seq<char>>,
)
    requires
        read_on(
            (case_summary::silent(path), SummaryPart::Sizes),
            before,
            before.len() as int,
        ) == (view, open),
        all_lines(before),
        case_summary::part_opened(title) == Some(part),
        readback::is_trimmed(title),
        readback::is_line(title),
        part != SummaryPart::Sizes,
        part != SummaryPart::UnsupportedElements,
        forall|i: int| 0 <= i < items.len() ==> is_told(#[trigger] items[i]),
    ensures
        ({
            let after = before + Seq::empty().push(Seq::empty()).push(title) + items;
            &&& all_lines(after)
            &&& read_on(
                (case_summary::silent(path), SummaryPart::Sizes),
                after,
                after.len() as int,
            ) == (told_all(view, part, items), part)
        }),
{
    let start = (case_summary::silent(path), SummaryPart::Sizes);
    let heading = Seq::<Seq<char>>::empty().push(Seq::empty()).push(title);
    assert(heading[0] == Seq::<char>::empty());
    assert(heading[1] == title);
    assert(all_lines(heading)) by {
        assert forall|i: int| 0 <= i < heading.len() implies readback::is_line(#[trigger] heading[i]) by {
            assert(i == 0 || i == 1);
        }
    }
    assert(all_lines(items)) by {
        assert forall|i: int| 0 <= i < items.len() implies readback::is_line(#[trigger] items[i]) by {
            assert(is_told(items[i]));
        }
    }
    lemma_all_lines(before, heading);
    lemma_all_lines(before + heading, items);
    lemma_read_append(start, before, heading, 2);
    lemma_heading((view, open), title, part);
    assert(heading.len() == 2);
    lemma_read_append(start, before + heading, items, items.len() as int);
    lemma_read_items(view, part, items, items.len() as int);
    assert(items.take(items.len() as int) =~= items);
}

/// What a summary says of a case.
pub open spec fn summary_view(path: Seq<char>, summary: FoamWriteSummary) -> CaseView {
    CaseView {
        patches: foam_case::patch_summary_items(summary.patches@),
        face_zones: foam_case::face_zone_summary_items(summary.face_zones@),
        cell_zones: foam_case::cell_zone_summary_items(summary.cell_zones@),
        ..sized_view(path, summary)
    }
}

/// The summary that an import writes is read: the sizes, patches and zones that
/// the reader finds in it are those that were written.
pub proof fn summary_is_read(
    path: Seq<char>,
    summary: FoamWriteSummary,
    unsupported: Seq<UnsupportedElementCount>,
    source: Seq<char>,
)
    requires
        is_tellable(summary, source),
    ensures
        case_summary::summary_of(
            path,
            layout::lines_text(foam_case::summary_lines(summary, unsupported, source)),
        ) == summary_view(path, summary),
{
    let start = (case_summary::silent(path), SummaryPart::Sizes);
    let sizes = foam_case::sizes_lines(summary, source);
    let patches = foam_case::patch_summary_items(summary.patches@);
    let face_zones = foam_case::face_zone_summary_items(summary.face_zones@);
    let cell_zones = foam_case::cell_zone_summary_items(summary.cell_zones@);
    lemma_titles();
    lemma_told_items(summary, source);
    lemma_sizes_are_lines(summary, source);
    lemma_read_sizes(path, summary, source);
    let v0 = sized_view(path, summary);
    lemma_read_part(
        path,
        sizes,
        v0,
        SummaryPart::Sizes,
        "[patches]"@,
        SummaryPart::Patches,
        patches,
    );
    let first = sizes + Seq::empty().push(Seq::empty()).push("[patches]"@) + patches;
    let v1 = told_all(v0, SummaryPart::Patches, patches);
    lemma_read_part(
        path,
        first,
        v1,
        SummaryPart::Patches,
        "[face_zones]"@,
        SummaryPart::FaceZones,
        face_zones,
    );
    let second = first + Seq::empty().push(Seq::empty()).push("[face_zones]"@) + face_zones;
    let v2 = told_all(v1, SummaryPart::FaceZones, face_zones);
    lemma_read_part(
        path,
        second,
        v2,
        SummaryPart::FaceZones,
        "[cell_zones]"@,
        SummaryPart::CellZones,
        cell_zones,
    );
    let third = second + Seq::empty().push(Seq::empty()).push("[cell_zones]"@) + cell_zones;
    let v3 = told_all(v2, SummaryPart::CellZones, cell_zones);
    assert(Seq::<Seq<char>>::empty() + patches =~= patches);
    assert(Seq::<Seq<char>>::empty() + face_zones =~= face_zones);
    assert(Seq::<Seq<char>>::empty() + cell_zones =~= cell_zones);
    assert(v3 == summary_view(path, summary));
    let all = foam_case::summary_lines(summary, unsupported, source);
    if unsupported.len() == 0 {
        assert(all =~= third);
    } else {
        let heading = Seq::<Seq<char>>::empty().push(Seq::empty()).push(
            "[unsupported_elements]"@,
        );
        let items = foam_case::unsupported_summary_items(unsupported);
        let tail = heading + items;
        assert(all == third + tail);
        assert(all_lines(tail)) by {
            assert forall|i: int| 0 <= i < tail.len() implies readback::is_line(#[trigger] tail[i]) by {
                if i >= 2 {
                    lemma_unsupported_line(unsupported[i - 2]);
                    assert(tail[i] == items[i - 2]);
                } else if i == 1 {
                    assert(tail[i] == "[unsupported_elements]"@);
                } else {
                    assert(tail[i] == Seq::<char>::empty());
                }
            }
        }
        lemma_all_lines(third, tail);
        lemma_read_append(start, third, tail, tail.len() as int);
        lemma_read_append((v3, SummaryPart::CellZones), heading, items, items.len() as int);
        lemma_heading(
            (v3, SummaryPart::CellZones),
            "[unsupported_elements]"@,
            SummaryPart::UnsupportedElements,
        );
        assert(heading.len() == 2);
        lemma_read_unsupported(v3, unsupported, unsupported.len() as int);
    }
    readback::lines_are_read(all);
    lemma_read_on(path, all, all.len() as int);
}

/// Whether every name of a list is a word.
pub open spec fn all_words(names: Seq<Seq<char>>) -> bool {
    forall|i: int| 0 <= i < names.len() ==> arguments::is_word(#[trigger] names[i])
}

proof fn lemma_words_inserted(names: Seq<Seq<char>>, name: Seq<char>)
    requires
        all_words(names),
        arguments::is_word(name),
    ensures
        all_words(ordering::name_inserted(names, name)),
    decreases names.len(),
{
    if names.len() > 0 && !text::precedes(names.last(), name) && names.last() != name {
        let shorter = names.drop_last();
        assert(all_words(shorter)) by {
            assert forall|i: int| 0 <= i < shorter.len() implies arguments::is_word(
                #[trigger] shorter[i],
            ) by {
                assert(shorter[i] == names[i]);
            }
        }
        lemma_words_inserted(shorter, name);
        assert(arguments::is_word(names[names.len() - 1]));
    }
}

proof fn lemma_sorted_words(faces: Seq<FaceRecord>, n: int)
    requires
        0 <= n <= faces.len(),
        forall|i: int|
            0 <= i < faces.len() ==> (ordering::patch_name(#[trigger] faces[i]) matches Some(name)
                ==> arguments::is_word(name)),
    ensures
        all_words(ordering::sorted_names(faces, n)),
    decreases n,
{
    if n > 0 {
        lemma_sorted_words(faces, n - 1);
        match ordering::patch_name(faces[n - 1]) {
            Some(name) => {
                lemma_words_inserted(ordering::sorted_names(faces, n - 1), name);
            },
            None => {},
        }
    }
}

proof fn lemma_group_words(faces: Seq<FaceRecord>, groups: Seq<PhysicalName>, n: int)
    requires
        0 <= n <= groups.len(),
    ensures
        all_words(ordering::group_order(faces, groups, n)),
    decreases n,
{
    if n > 0 {
        lemma_group_words(faces, groups, n - 1);
        mesh::sanitized_is_word(groups[n - 1].name@);
    }
}

proof fn lemma_completed_words(head: Seq<Seq<char>>, names: Seq<Seq<char>>, n: int)
    requires
        0 <= n <= names.len(),
        all_words(head),
        all_words(names),
    ensures
        all_words(ordering::completed(head, names, n)),
    decreases n,
{
    if n > 0 {
        lemma_completed_words(head, names, n - 1);
        assert(arguments::is_word(names[n - 1]));
    }
}

proof fn lemma_type_is_given(types: Seq<(String, String)>, name: Seq<char>, at: int)
    requires
        0 <= at,
        forall|i: int| 0 <= i < types.len() ==> no_feed((#[trigger] types[i]).1@),
    ensures
        ordering::type_from(types, name, at) matches Some(found) ==> no_feed(found),
    decreases types.len() - at,
{
    if at < types.len() {
        assert(no_feed(types[at].1@));
        lemma_type_is_given(types, name, at + 1);
    }
}

/// The patches of a written mesh have words as names.
pub proof fn patch_names_are_words(
    names: Seq<PhysicalName>,
    boundary: Seq<mesh::BoundaryFace>,
    faces: Seq<FaceRecord>,
)
    requires
        forall|i: int|
            0 <= i < faces.len() ==> topology::patch_view((#[trigger] faces[i]).patch)
                == topology::patch_of(names, boundary, topology::shape(faces[i])),
    ensures
        all_words(ordering::patch_order(faces, names)),
{
    assert forall|i: int| 0 <= i < faces.len() implies (ordering::patch_name(#[trigger] faces[i])
        matches Some(name) ==> arguments::is_word(name)) by {
        let keys = topology::boundary_keys(boundary);
        reveal_strlit("defaultFaces");
        match topology::last_place(
            keys,
            crate::face_keys::face_key(topology::shape(faces[i]).nodes),
            keys.len() as int,
        ) {
            Some(at) => {
                mesh::sanitized_is_word(mesh::group_name(names, boundary[at].physical_tag));
            },
            None => {},
        }
        assert(topology::patch_view(faces[i].patch) == topology::patch_of(
            names,
            boundary,
            topology::shape(faces[i]),
        ));
    }
    lemma_sorted_words(faces, faces.len() as int);
    lemma_group_words(faces, names, names.len() as int);
    let sorted = ordering::sorted_names(faces, faces.len() as int);
    lemma_completed_words(
        ordering::group_order(faces, names, names.len() as int),
        sorted,
        sorted.len() as int,
    );
}

/// The summary in the files of a written mesh is read: it says what was
/// written.
pub proof fn written_summary_is_read<P>(
    mesh: Mesh<P>,
    points: Seq<(String, String, String)>,
    case_dir: Seq<char>,
    source: Seq<char>,
    options: FoamWriteOptions,
    faces: Seq<FaceRecord>,
    by_face: Seq<Zone>,
    by_cell: Seq<Zone>,
    found: FoamCase,
    path: Seq<char>,
)
    requires
        foam_case::is_case(
            mesh,
            points,
            case_dir,
            source,
            options,
            faces,
            by_face,
            by_cell,
            found,
        ),
        readback::is_line(source),
        readback::is_line(case_dir),
        forall|i: int|
            0 <= i < options.patch_types@.len() ==> no_feed(
                (#[trigger] options.patch_types@[i]).1@,
            ),
    ensures
        foam_case::file_views(found.files@)[10].0 == "constant/ferrumMeshSummary.txt"@,
        case_summary::summary_of(path, foam_case::file_views(found.files@)[10].1) == summary_view(
            path,
            found.summary,
        ),
{
    let summary = found.summary;
    let names = ordering::patch_order(faces, mesh.physical_names@);
    patch_names_are_words(mesh.physical_names@, mesh.boundary_faces@, faces);
    reveal_strlit("patch");
    let ordered = ordering::ordered_patches(faces, names, options);
    assert(ordering::summary_views(summary.patches@) == ordered);
    assert(ordered.len() == names.len());
    assert(is_tellable(summary, source)) by {
        assert forall|i: int| 0 <= i < summary.patches@.len() implies arguments::is_word(
            (#[trigger] summary.patches@[i]).name@,
        ) && no_feed(summary.patches@[i].patch_type@) by {
            assert(ordering::summary_views(summary.patches@).len() == summary.patches@.len());
            assert(ordering::summary_views(summary.patches@)[i] == ordered[i]);
            assert(arguments::is_word(names[i]));
            lemma_type_is_given(options.patch_types@, names[i], 0);
        }
        assert forall|i: int| 0 <= i < summary.face_zones@.len() implies arguments::is_word(
            (#[trigger] summary.face_zones@[i]).name@,
        ) by {
            mesh::sanitized_is_word(mesh::group_name(mesh.physical_names@, by_face[i].tag));
        }
        assert forall|i: int| 0 <= i < summary.cell_zones@.len() implies arguments::is_word(
            (#[trigger] summary.cell_zones@[i]).name@,
        ) by {
            mesh::sanitized_is_word(mesh::group_name(mesh.physical_names@, by_cell[i].tag));
        }
    }
    summary_is_read(path, summary, mesh.unsupported_elements@, source);
}

} // verus!
