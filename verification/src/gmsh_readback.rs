//! That what a mesh file says of its names, nodes and elements is what is read.

use crate::error::Failure;
use crate::gmsh;
use crate::gmsh::{ElementsView, MeshView, NameView, PointView};
use crate::readback;
use crate::text;
use crate::text::CharClass;
use vstd::prelude::*;

verus! {

/// Whether a text is one word: it is not empty and holds no white space.
pub open spec fn is_word(s: Seq<char>) -> bool {
    s.len() > 0 && readback::lacks(CharClass::Space, s)
}

/// The line of a node is read as its number and its coordinates, in their order.
pub proof fn node_is_read(id: usize, x: Seq<char>, y: Seq<char>, z: Seq<char>, number: int)
    requires
        text::is_float(x),
        text::is_float(y),
        text::is_float(z),
    ensures
        gmsh::node_of(
            text::join(
                Seq::empty().push(text::decimal(id as nat)).push(x).push(y).push(z),
                " "@,
            ),
            number,
        ) == Ok::<(usize, PointView), Failure>((id, (x, y, z))),
{
    let parts = Seq::empty().push(text::decimal(id as nat)).push(x).push(y).push(z);
    readback::lemma_decimal_is_plain(id as nat);
    readback::lemma_float_chars(x);
    readback::lemma_float_is_plain(x);
    readback::lemma_float_chars(y);
    readback::lemma_float_is_plain(y);
    readback::lemma_float_chars(z);
    readback::lemma_float_is_plain(z);
    readback::joined_words_are_read(parts);
    text::natural_reads_decimal(id as nat, usize::MAX as nat);
}

/// The nodes of a section are those of its lines, each at the place of its line.
pub proof fn nodes_are_those_of_their_lines(lines: Seq<Seq<char>>, at: int, n: nat)
    requires
        0 <= at,
        gmsh::nodes_at(lines, at, n) is Ok,
    ensures
        ({
            let (ids, points) = gmsh::nodes_at(lines, at, n)->Ok_0;
            &&& ids.len() == n
            &&& points.len() == n
            &&& at + n <= lines.len() || n == 0
            &&& forall|k: int|
                0 <= k < n ==> gmsh::node_of(lines[at + k], at + k + 1) == Ok::<
                    (usize, PointView),
                    Failure,
                >((#[trigger] ids[k], points[k]))
        }),
    decreases n,
{
    if n > 0 {
        nodes_are_those_of_their_lines(lines, at, (n - 1) as nat);
    }
}

/// The names of a section are those of its lines, each at the place of its line.
pub proof fn names_are_those_of_their_lines(lines: Seq<Seq<char>>, at: int, n: nat)
    requires
        0 <= at,
        gmsh::names_at(lines, at, n) is Ok,
    ensures
        ({
            let names = gmsh::names_at(lines, at, n)->Ok_0;
            &&& names.len() == n
            &&& forall|k: int|
                0 <= k < n ==> gmsh::name_of(lines[at + k], at + k + 1) == Ok::<NameView, Failure>(
                    #[trigger] names[k],
                )
        }),
    decreases n,
{
    if n > 0 {
        names_are_those_of_their_lines(lines, at, (n - 1) as nat);
    }
}

/// The line of a physical name is read as its dimension, its tag and the name
/// between the quotes.
pub proof fn name_is_read(dim: u8, tag: i32, name: Seq<char>, number: int)
    requires
        forall|i: int| 0 <= i < name.len() ==> #[trigger] name[i] != '"',
    ensures
        gmsh::name_of(
            text::join(
                Seq::empty().push(text::decimal(dim as nat)).push(
                    text::signed_decimal(tag as int),
                ),
                " "@,
            ) + "\""@ + name + "\""@,
            number,
        ) == Ok::<NameView, Failure>(NameView { dim, tag, name }),
{
    reveal_strlit("\"");
    let parts = Seq::empty().push(text::decimal(dim as nat)).push(
        text::signed_decimal(tag as int),
    );
    let head = text::join(parts, " "@);
    let line = head + "\""@ + name + "\""@;
    readback::lemma_decimal_is_plain(dim as nat);
    lemma_signed_is_word(tag as int);
    readback::joined_words_are_read(parts);
    text::natural_reads_decimal(dim as nat, u8::MAX as nat);
    text::integer_reads_signed_decimal(tag as int, i32::MIN as int, i32::MAX as int);
    lemma_digits_lack_quotes(dim as nat);
    lemma_signed_lacks_quotes(tag as int);
    reveal_strlit(" ");
    let first = parts.drop_last();
    assert(first =~= Seq::empty().push(parts[0]));
    assert(first.len() == 1 && first[0] == parts[0]);
    assert(text::join(first, " "@) == parts[0]);
    assert(head =~= parts[0] + " "@ + parts[1]);
    assert forall|i: int| 0 <= i < head.len() implies #[trigger] line[i] != '"' by {
        assert(line[i] == head[i]);
        if i < parts[0].len() {
            assert(head[i] == parts[0][i]);
        } else if i > parts[0].len() {
            assert(head[i] == parts[1][i - parts[0].len() - 1]);
        }
    }
    readback::lemma_find_first(line, '"', head.len() as int);
    assert(line.take(head.len() as int) =~= head);
    let rest = line.skip(head.len() as int + 1);
    assert(rest =~= name + "\""@);
    assert(rest.last() == '"');
    assert(rest.take(rest.len() - 1) =~= name);
}

proof fn lemma_digits_lack_quotes(n: nat)
    ensures
        forall|i: int| 0 <= i < text::decimal(n).len() ==> text::is_digit(
            #[trigger] text::decimal(n)[i],
        ),
        forall|i: int| 0 <= i < text::decimal(n).len() ==> #[trigger] text::decimal(n)[i] != '"',
{
    text::natural_reads_decimal(n, n);
    let s = text::decimal(n);
    assert(s.len() > 0);
    if n < 10 {
        assert(s[0] as u32 == 0x30 + n);
    }
    lemma_first_is_digit(n);
    assert(text::unsigned_digits(s) == s);
    assert forall|i: int| 0 <= i < s.len() implies #[trigger] s[i] != '"' by {
        assert(text::is_digit(s[i]));
    }
}

proof fn lemma_first_is_digit(n: nat)
    ensures
        text::decimal(n).len() > 0,
        text::is_digit(text::decimal(n)[0]),
    decreases n,
{
    if n >= 10 {
        lemma_first_is_digit(n / 10);
        assert(text::decimal(n)[0] == text::decimal(n / 10)[0]);
    } else {
        assert(text::digit(n) as u32 == 0x30 + n);
    }
}

proof fn lemma_signed_lacks_quotes(n: int)
    ensures
        forall|i: int|
            0 <= i < text::signed_decimal(n).len() ==> #[trigger] text::signed_decimal(n)[i] != '"',
{
    let s = text::signed_decimal(n);
    if n < 0 {
        lemma_digits_lack_quotes((-n) as nat);
        let digits = text::decimal((-n) as nat);
        assert(s =~= seq!['-'] + digits);
        assert forall|i: int| 0 <= i < s.len() implies #[trigger] s[i] != '"' by {
            if i > 0 {
                assert(s[i] == digits[i - 1]);
            }
        }
    } else {
        lemma_digits_lack_quotes(n as nat);
    }
}

proof fn lemma_signed_is_word(n: int)
    ensures
        is_word(text::signed_decimal(n)),
{
    if n < 0 {
        let digits = text::decimal((-n) as nat);
        readback::lemma_decimal_is_plain((-n) as nat);
        let s = text::signed_decimal(n);
        assert(s =~= seq!['-'] + digits);
        assert forall|i: int| 0 <= i < s.len() implies !text::class_has(
            CharClass::Space,
            #[trigger] s[i],
        ) by {
            if i > 0 {
                assert(s[i] == digits[i - 1]);
                assert(!text::class_has(CharClass::Space, digits[i - 1]));
            }
        }
    } else {
        readback::lemma_decimal_is_plain(n as nat);
    }
}

/// Whether the corners of an element are the nodes with these numbers: each place
/// holds the number, and of two nodes with one number it is the later.
pub open spec fn are_corners(ids: Seq<usize>, numbers: Seq<i64>, nodes: Seq<usize>) -> bool {
    &&& nodes.len() == numbers.len()
    &&& forall|k: int|
        0 <= k < nodes.len() ==> #[trigger] nodes[k] < ids.len() && ids[nodes[k] as int]
            == numbers[k] && forall|later: int|
            nodes[k] < later < ids.len() ==> #[trigger] ids[later] != numbers[k]
}

proof fn lemma_place(ids: Seq<usize>, id: int, n: int)
    requires
        0 <= n <= ids.len(),
    ensures
        match gmsh::place_before(ids, id, n) {
            Some(at) => 0 <= at < n && ids[at] == id && forall|later: int|
                at < later < n ==> #[trigger] ids[later] != id,
            None => forall|i: int| 0 <= i < n ==> #[trigger] ids[i] != id,
        },
    decreases n,
{
    if n > 0 {
        lemma_place(ids, id, n - 1);
    }
}

proof fn lemma_places(ids: Seq<usize>, fields: Seq<i64>, start: int, n: nat, line: int)
    requires
        0 <= start,
        start + n <= fields.len(),
        ids.len() <= usize::MAX,
    ensures
        match gmsh::places_of(ids, fields, start, n, line) {
            Ok(nodes) => are_corners(ids, fields.subrange(start, start + n), nodes),
            Err(_) => exists|k: int|
                start <= k < start + n && forall|i: int|
                    0 <= i < ids.len() ==> #[trigger] ids[i] != #[trigger] fields[k],
        },
    decreases n,
{
    if n > 0 {
        lemma_places(ids, fields, start, (n - 1) as nat, line);
        let id = fields[start + n - 1] as int;
        lemma_place(ids, id, ids.len() as int);
        match gmsh::places_of(ids, fields, start, n, line) {
            Ok(nodes) => {
                let earlier = gmsh::places_of(ids, fields, start, (n - 1) as nat, line)->Ok_0;
                let numbers = fields.subrange(start, start + n);
                let fewer = fields.subrange(start, start + n - 1);
                assert forall|k: int| 0 <= k < nodes.len() implies #[trigger] nodes[k] < ids.len()
                    && ids[nodes[k] as int] == numbers[k] && forall|later: int|
                    nodes[k] < later < ids.len() ==> #[trigger] ids[later] != numbers[k] by {
                    if k < n - 1 {
                        assert(nodes[k] == earlier[k]);
                        assert(numbers[k] == fewer[k]);
                    }
                }
            },
            Err(_) => {
                if gmsh::places_of(ids, fields, start, (n - 1) as nat, line) is Ok {
                    let k = start + n - 1;
                    assert forall|i: int| 0 <= i < ids.len() implies #[trigger] ids[i]
                        != #[trigger] fields[k] by {}
                    assert(fields[k] == id);
                }
            },
        }
    }
}

/// Whether an element has these fields: its number, its type, its tags with their
/// count in front, and its corners.
pub open spec fn has_fields(
    fields: Seq<i64>,
    id: usize,
    kind: int,
    tags: Seq<i64>,
    corners: Seq<i64>,
) -> bool {
    &&& fields.len() == 3 + tags.len() + corners.len()
    &&& fields[0] == id
    &&& fields[1] == kind
    &&& fields[2] == tags.len()
    &&& fields.subrange(3, 3 + tags.len() as int) == tags
    &&& fields.subrange(3 + tags.len() as int, fields.len() as int) == corners
}

/// The tag of an element: the first of its tags, and zero where it has none.
pub open spec fn tag_of(tags: Seq<i64>) -> int {
    if tags.len() > 0 {
        tags[0] as int
    } else {
        0
    }
}

/// A hexahedron becomes a cell and a quadrilateral a boundary face, each with its
/// number, its first tag, and the nodes with the numbers of its corners in their
/// order; an element of another type is passed over by its type. The elements before
/// it stay as they are. Numbers and tags beyond 32 bits are left out here.
pub proof fn element_is_read(
    elements: ElementsView,
    ids: Seq<usize>,
    fields: Seq<i64>,
    line: int,
    id: usize,
    kind: int,
    tags: Seq<i64>,
    corners: Seq<i64>,
)
    requires
        has_fields(fields, id, kind, tags, corners),
        ids.len() <= usize::MAX,
        0 <= kind < 0x8000_0000,
        tags.len() > 0 ==> -0x8000_0000 <= tags[0] < 0x8000_0000,
    ensures
        match elements.with(ids, fields, line) {
            Ok(next) => if kind == 5 {
                &&& corners.len() == 8
                &&& next.faces == elements.faces
                &&& next.unsupported == elements.unsupported
                &&& next.cells.len() == elements.cells.len() + 1
                &&& next.cells.drop_last() == elements.cells
                &&& next.cells.last().source_id == id
                &&& next.cells.last().physical_tag == tag_of(tags)
                &&& are_corners(ids, corners, next.cells.last().nodes)
            } else if kind == 3 {
                &&& corners.len() == 4
                &&& next.cells == elements.cells
                &&& next.unsupported == elements.unsupported
                &&& next.faces.len() == elements.faces.len() + 1
                &&& next.faces.drop_last() == elements.faces
                &&& next.faces.last().source_id == id
                &&& next.faces.last().physical_tag == tag_of(tags)
                &&& are_corners(ids, corners, next.faces.last().nodes)
            } else {
                &&& next.cells == elements.cells
                &&& next.faces == elements.faces
                &&& next.unsupported == elements.unsupported.push(kind as i32)
            },
            Err(_) => (kind == 5 && corners.len() != 8) || (kind == 3 && corners.len() != 4) || ((
            kind == 5 || kind == 3) && exists|k: int|
                0 <= k < corners.len() && forall|i: int|
                    0 <= i < ids.len() ==> #[trigger] ids[i] != #[trigger] corners[k]),
        },
{
    let start = 3 + tags.len() as int;
    assert(gmsh::low_word(kind) == kind);
    if tags.len() > 0 {
        assert(fields[3] == fields.subrange(3, 3 + tags.len() as int)[0]);
        assert(gmsh::low_word(tags[0] as int) == tags[0]);
    }
    let size = usize::MAX as int + 1;
    assert(id as int % size == id) by (nonlinear_arith)
        requires
            0 <= id < size,
    ;
    assert(gmsh::low_bits(id as int) == id);
    let count = if kind == 5 {
        8nat
    } else {
        4nat
    };
    if (kind == 5 || kind == 3) && corners.len() == count {
        lemma_places(ids, fields, start, count, line);
        assert(fields.subrange(start, start + count) == corners);
        match elements.with(ids, fields, line) {
            Ok(next) => {
                if kind == 5 {
                    assert(next.cells.drop_last() =~= elements.cells);
                } else {
                    assert(next.faces.drop_last() =~= elements.faces);
                }
            },
            Err(_) => {
                let k = choose|k: int|
                    start <= k < start + count && forall|i: int|
                        0 <= i < ids.len() ==> #[trigger] ids[i] != #[trigger] fields[k];
                assert(corners[k - start] == fields[k]);
                assert forall|i: int| 0 <= i < ids.len() implies #[trigger] ids[i]
                    != #[trigger] corners[k - start] by {
                    assert(ids[i] != fields[k]);
                }
            },
        }
    }
}

/// The words of an element are read as the integers that they denote.
pub proof fn fields_are_those_of_the_words(words: Seq<Seq<char>>, n: int)
    requires
        0 <= n <= words.len(),
    ensures
        match gmsh::fields_before(words, n) {
            Some(fields) => fields.len() == n && forall|i: int|
                0 <= i < n ==> text::integer(words[i], i64::MIN as int, i64::MAX as int) == Some(
                    (#[trigger] fields[i]) as int,
                ),
            None => exists|i: int|
                0 <= i < n && text::integer(
                    #[trigger] words[i],
                    i64::MIN as int,
                    i64::MAX as int,
                ) is None,
        },
    decreases n,
{
    if n > 0 {
        fields_are_those_of_the_words(words, n - 1);
        lemma_integer_bounds(words[n - 1]);
    }
}

proof fn lemma_integer_bounds(s: Seq<char>)
    ensures
        text::integer(s, i64::MIN as int, i64::MAX as int) matches Some(number) ==> i64::MIN
            <= number <= i64::MAX,
{
}

/// A section gives what its lines say and nothing else: the names, nodes or elements
/// of the other sections stay as they are, and reading goes on behind its end.
pub proof fn section_is_read(mesh: MeshView, lines: Seq<Seq<char>>, at: int, count: nat)
    requires
        0 < at,
        at < lines.len(),
        mesh.after(lines, at) is Ok,
        text::natural(text::trim(lines[at]), usize::MAX as nat) == Some(count),
    ensures
        ({
            let title = text::trim(lines[at - 1]);
            let (next, end) = mesh.after(lines, at)->Ok_0;
            &&& title == "$PhysicalNames"@ ==> gmsh::names_at(lines, at + 1, count) == Ok::<
                Seq<NameView>,
                Failure,
            >(next.names) && next.ids == mesh.ids && next.points == mesh.points && next.elements
                == mesh.elements && end == at + 2 + count && text::trim(lines[at + 1 + count])
                == "$EndPhysicalNames"@
            &&& title == "$Nodes"@ ==> gmsh::nodes_at(lines, at + 1, count) == Ok::<
                (Seq<usize>, Seq<PointView>),
                Failure,
            >((next.ids, next.points)) && next.names == mesh.names && next.elements == mesh.elements
                && end == at + 2 + count && text::trim(lines[at + 1 + count]) == "$EndNodes"@
            &&& title == "$Elements"@ ==> gmsh::elements_at(lines, mesh.ids, at + 1, count) == Ok::<
                ElementsView,
                Failure,
            >(next.elements) && next.names == mesh.names && next.ids == mesh.ids && next.points
                == mesh.points && end == at + 2 + count && text::trim(lines[at + 1 + count])
                == "$EndElements"@
        }),
{
    reveal_strlit("$MeshFormat");
    reveal_strlit("$PhysicalNames");
    reveal_strlit("$Nodes");
    reveal_strlit("$Elements");
    assert("$MeshFormat"@.len() == 11 && "$PhysicalNames"@.len() == 14);
    assert("$Nodes"@.len() == 6 && "$Elements"@.len() == 9);
}

/// A file is refused whose format is not version 2.2 as text; its format changes
/// nothing of what has been read, and a line outside the known sections is passed
/// over.
pub proof fn format_and_other_lines(mesh: MeshView, lines: Seq<Seq<char>>, at: int)
    requires
        0 < at <= lines.len(),
    ensures
        ({
            let title = text::trim(lines[at - 1]);
            &&& title == "$MeshFormat"@ ==> match mesh.after(lines, at) {
                Ok((next, end)) => next == mesh && end == at + 2 && at + 1 < lines.len() && {
                    let parts = text::words(lines[at]);
                    &&& parts.len() >= 3
                    &&& "2.2"@.is_prefix_of(parts[0])
                    &&& parts[1] == "0"@
                    &&& text::trim(lines[at + 1]) == "$EndMeshFormat"@
                },
                Err(_) => at + 1 >= lines.len() || text::words(lines[at]).len() < 3
                    || !"2.2"@.is_prefix_of(text::words(lines[at])[0]) || text::words(
                    lines[at],
                )[1] != "0"@ || text::trim(lines[at + 1]) != "$EndMeshFormat"@,
            }
            &&& title != "$MeshFormat"@ && title != "$PhysicalNames"@ && title != "$Nodes"@ && title
                != "$Elements"@ ==> mesh.after(lines, at) == Ok::<(MeshView, int), Failure>(
                (mesh, at),
            )
        }),
{
}

} // verus!
