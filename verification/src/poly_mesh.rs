//! Meshes as they stand in a case: points, faces and the cells that the faces
//! lie between.

use crate::dictionary;
use crate::error::{Failure, MeshError};
use crate::gmsh;
use crate::gmsh::{Coordinates, PointView};
use crate::text;
use crate::text::CharClass;
use vstd::prelude::*;

verus! {

/// A mesh with points of type `P`.
#[derive(Debug)]
pub struct PolyMesh<P> {
    pub path: String,
    pub points: Vec<P>,
    pub faces: Vec<Vec<usize>>,
    pub owner: Vec<usize>,
    pub neighbour: Vec<usize>,
    pub patches: Vec<BoundaryPatch>,
}

/// A patch of the boundary: `faces` faces from `start_face` on.
#[derive(Debug)]
pub struct BoundaryPatch {
    pub name: String,
    pub patch_type: String,
    pub faces: usize,
    pub start_face: usize,
}

/// The nodes of faces.
pub open spec fn node_views(faces: Seq<Vec<usize>>) -> Seq<Seq<usize>> {
    Seq::new(faces.len(), |i: int| faces[i]@)
}

/// The failure of a file.
pub open spec fn file_failure(message: Seq<char>, path: Seq<char>) -> Failure {
    Failure::InvalidInput(message + " in "@ + path)
}

/// The first `n` lines without comments and white space round them, and
/// without those that are empty then.
pub open spec fn clean_before(lines: Seq<Seq<char>>, n: int) -> Seq<Seq<char>>
    decreases n,
{
    if n <= 0 {
        Seq::empty()
    } else {
        let earlier = clean_before(lines, n - 1);
        let line = text::trim(text::before_slashes(lines[n - 1], 0));
        if line.len() == 0 {
            earlier
        } else {
            earlier.push(line)
        }
    }
}

/// The lines of a file that say something.
pub open spec fn clean_lines(content: Seq<char>) -> Seq<Seq<char>> {
    let lines = text::lines(content);
    clean_before(lines, lines.len() as int)
}

/// The first line from `at` on that is a count.
pub open spec fn count_line(lines: Seq<Seq<char>>, at: int) -> Option<int>
    decreases lines.len() - at,
{
    if at >= lines.len() {
        None
    } else if text::natural(lines[at], usize::MAX as nat) is Some {
        Some(at)
    } else {
        count_line(lines, at + 1)
    }
}

/// The first line from `at` on that opens a list.
pub open spec fn open_line(lines: Seq<Seq<char>>, at: int) -> Option<int>
    decreases lines.len() - at,
{
    if at >= lines.len() {
        None
    } else if lines[at] == "("@ {
        Some(at)
    } else {
        open_line(lines, at + 1)
    }
}

/// Whether a line closes a list.
pub open spec fn closes(line: Seq<char>) -> bool {
    line == ")"@ || line == ");"@
}

/// The first line from `at` on that closes a list, or the end.
pub open spec fn close_line(lines: Seq<Seq<char>>, at: int) -> int
    decreases lines.len() - at,
{
    if at >= lines.len() || closes(lines[at]) {
        at
    } else {
        close_line(lines, at + 1)
    }
}

/// The entries of a list: a count, an opening bracket, so many lines and a
/// closing bracket.
pub open spec fn list_entries(content: Seq<char>, path: Seq<char>) -> Result<
    Seq<Seq<char>>,
    Failure,
> {
    let lines = clean_lines(content);
    match count_line(lines, 0) {
        None => Err(file_failure("missing list count"@, path)),
        Some(first) => match open_line(lines, first + 1) {
            None => Err(file_failure("missing list opening '('"@, path)),
            Some(start) => {
                let count = text::natural(lines[first], usize::MAX as nat)->0;
                let end = close_line(lines, start + 1);
                let entries = lines.subrange(start + 1, end);
                if entries.len() != count {
                    Err(
                        file_failure(
                            "expected "@ + text::decimal(count) + " entries but found "@
                                + text::decimal(entries.len()),
                            path,
                        ),
                    )
                } else {
                    Ok(entries)
                }
            },
        },
    }
}

/// A label: a number without a sign, white space round it aside.
pub open spec fn label_of(value: Seq<char>, path: Seq<char>) -> Result<usize, Failure> {
    match text::natural(text::trim(value), usize::MAX as nat) {
        Some(number) => Ok(number as usize),
        None => Err(file_failure("invalid label '"@ + value + "'"@, path)),
    }
}

/// The labels of the first `n` texts, or the first that is none.
pub open spec fn labels_before(values: Seq<Seq<char>>, path: Seq<char>, n: int) -> Result<
    Seq<usize>,
    Failure,
>
    decreases n,
{
    if n <= 0 {
        Ok(Seq::empty())
    } else {
        match labels_before(values, path, n - 1) {
            Err(failure) => Err(failure),
            Ok(earlier) => match label_of(values[n - 1], path) {
                Err(failure) => Err(failure),
                Ok(label) => Ok(earlier.push(label)),
            },
        }
    }
}

/// A face: the number of its nodes, and in brackets its nodes. The number is read
/// first, so that a closing bracket in front of the first opening one makes the
/// number invalid.
pub open spec fn face_of(line: Seq<char>, path: Seq<char>) -> Result<Seq<usize>, Failure> {
    match (text::find(line, '('), text::find_last(line, ')')) {
        (Some(open), Some(close)) => match label_of(line.take(open), path) {
            Err(failure) => Err(failure),
            Ok(declared) => {
                let words = text::words(line.subrange(open + 1, close));
                match labels_before(words, path, words.len() as int) {
                    Err(failure) => Err(failure),
                    Ok(nodes) => if nodes.len() != declared {
                        Err(
                            file_failure(
                                "face declares "@ + text::decimal(declared as nat)
                                    + " nodes but has "@ + text::decimal(nodes.len()),
                                path,
                            ),
                        )
                    } else {
                        Ok(nodes)
                    },
                }
            },
        },
        _ => Err(file_failure("invalid face '"@ + line + "'"@, path)),
    }
}

proof fn lemma_last_at(s: Seq<char>, ch: char)
    ensures
        text::find_last(s, ch) matches Some(at) ==> 0 <= at < s.len() && s[at] == ch && forall|i: int|
            at < i < s.len() ==> s[i] != ch,
        text::find_last(s, ch) is None ==> forall|i: int| 0 <= i < s.len() ==> s[i] != ch,
    decreases s.len(),
{
    if s.len() > 0 && s.last() != ch {
        lemma_last_at(s.drop_last(), ch);
        assert(forall|i: int| 0 <= i < s.len() - 1 ==> s.drop_last()[i] == s[i]);
    }
}

proof fn lemma_start_keeps(s: Seq<char>, ch: char)
    requires
        s.contains(ch),
        !text::is_space(ch),
    ensures
        text::strip_start(CharClass::Space, s).contains(ch),
    decreases s.len(),
{
    if text::is_space(s[0]) {
        let at = choose|i: int| 0 <= i < s.len() && s[i] == ch;
        assert(s.skip(1)[at - 1] == ch);
        lemma_start_keeps(s.skip(1), ch);
    }
}

proof fn lemma_end_keeps(s: Seq<char>, ch: char)
    requires
        s.contains(ch),
        !text::is_space(ch),
    ensures
        text::strip_end(CharClass::Space, s).contains(ch),
    decreases s.len(),
{
    if text::is_space(s.last()) {
        let at = choose|i: int| 0 <= i < s.len() && s[i] == ch;
        assert(s.drop_last()[at] == ch);
        lemma_end_keeps(s.drop_last(), ch);
    }
}

/// No label holds a closing bracket.
pub proof fn bracket_is_in_no_label(value: Seq<char>, path: Seq<char>)
    requires
        value.contains(')'),
    ensures
        label_of(value, path) is Err,
{
    let kept = text::trim(value);
    lemma_start_keeps(value, ')');
    lemma_end_keeps(text::strip_start(CharClass::Space, value), ')');
    let at = choose|i: int| 0 <= i < kept.len() && kept[i] == ')';
    let digits = text::unsigned_digits(kept);
    if kept[0] == '+' {
        assert(digits[at - 1] == ')');
    } else {
        assert(digits[at] == ')');
    }
    assert(!text::is_digit(')'));
}

proof fn lemma_brackets_in_order(line: Seq<char>, path: Seq<char>)
    requires
        text::find(line, '(') is Some,
        text::find_last(line, ')') is Some,
        label_of(line.take(text::find(line, '(')->0), path) is Ok,
    ensures
        ({
            let open = text::find(line, '(')->0;
            let close = text::find_last(line, ')')->0;
            let rest = line.skip(open + 1);
            &&& text::find_last(rest, ')') == Some(close - open - 1)
            &&& rest.take(close - open - 1) == line.subrange(open + 1, close)
        }),
{
    let open = text::find(line, '(')->0;
    let close = text::find_last(line, ')')->0;
    let rest = line.skip(open + 1);
    dictionary::lemma_find_bound(line, '(');
    lemma_last_at(line, ')');
    if close < open {
        assert(line.take(open)[close] == ')');
        bracket_is_in_no_label(line.take(open), path);
    }
    lemma_last_at(rest, ')');
    assert(rest[close - open - 1] == ')');
    let found = text::find_last(rest, ')')->0;
    assert(rest[found] == line[open + 1 + found]);
    assert(rest.take(close - open - 1) =~= line.subrange(open + 1, close));
}

/// The faces of the first `n` entries, or the first that is none.
pub open spec fn faces_before(entries: Seq<Seq<char>>, path: Seq<char>, n: int) -> Result<
    Seq<Seq<usize>>,
    Failure,
>
    decreases n,
{
    if n <= 0 {
        Ok(Seq::empty())
    } else {
        match faces_before(entries, path, n - 1) {
            Err(failure) => Err(failure),
            Ok(earlier) => match face_of(entries[n - 1], path) {
                Err(failure) => Err(failure),
                Ok(nodes) => Ok(earlier.push(nodes)),
            },
        }
    }
}

/// The faces of a file.
pub open spec fn faces_of(content: Seq<char>, path: Seq<char>) -> Result<
    Seq<Seq<usize>>,
    Failure,
> {
    match list_entries(content, path) {
        Err(failure) => Err(failure),
        Ok(entries) => faces_before(entries, path, entries.len() as int),
    }
}

/// The labels of a file. Its entries have no white space round them.
pub open spec fn labels_of(content: Seq<char>, path: Seq<char>) -> Result<Seq<usize>, Failure> {
    match list_entries(content, path) {
        Err(failure) => Err(failure),
        Ok(entries) => plain_labels(entries, path, entries.len() as int),
    }
}

/// The labels of the first `n` entries, or the first that is none.
pub open spec fn plain_labels(entries: Seq<Seq<char>>, path: Seq<char>, n: int) -> Result<
    Seq<usize>,
    Failure,
>
    decreases n,
{
    if n <= 0 {
        Ok(Seq::empty())
    } else {
        match plain_labels(entries, path, n - 1) {
            Err(failure) => Err(failure),
            Ok(earlier) => match text::natural(entries[n - 1], usize::MAX as nat) {
                Some(number) => Ok(earlier.push(number as usize)),
                None => Err(
                    file_failure("invalid label '"@ + entries[n - 1] + "'"@, path),
                ),
            },
        }
    }
}

/// A line without brackets round it.
pub open spec fn unwrapped(line: Seq<char>) -> Seq<char> {
    text::trim(
        text::strip_end(
            CharClass::Only(')'),
            text::strip_start(CharClass::Only('('), text::trim(line)),
        ),
    )
}

/// Whether every word from `at` on denotes a number.
pub open spec fn all_floats(words: Seq<Seq<char>>, at: int) -> bool
    decreases words.len() - at,
{
    at >= words.len() || (text::is_float(words[at]) && all_floats(words, at + 1))
}

/// A point: three numbers in brackets.
pub open spec fn point_of(line: Seq<char>, path: Seq<char>) -> Result<PointView, Failure> {
    let words = text::words(unwrapped(line));
    if !all_floats(words, 0) {
        Err(file_failure("invalid point"@, path))
    } else if words.len() != 3 {
        Err(file_failure("point does not have 3 coordinates"@, path))
    } else {
        Ok((words[0], words[1], words[2]))
    }
}

/// The points of the first `n` entries, or the first that is none.
pub open spec fn points_before(entries: Seq<Seq<char>>, path: Seq<char>, n: int) -> Result<
    Seq<PointView>,
    Failure,
>
    decreases n,
{
    if n <= 0 {
        Ok(Seq::empty())
    } else {
        match points_before(entries, path, n - 1) {
            Err(failure) => Err(failure),
            Ok(earlier) => match point_of(entries[n - 1], path) {
                Err(failure) => Err(failure),
                Ok(point) => Ok(earlier.push(point)),
            },
        }
    }
}

/// The points of a file.
pub open spec fn points_of(content: Seq<char>, path: Seq<char>) -> Result<
    Seq<PointView>,
    Failure,
> {
    match list_entries(content, path) {
        Err(failure) => Err(failure),
        Ok(entries) => points_before(entries, path, entries.len() as int),
    }
}

/// The mathematical view of a mesh without its patches.
pub struct PolyView {
    pub path: Seq<char>,
    pub points: Seq<PointView>,
    pub faces: Seq<Seq<usize>>,
    pub owner: Seq<usize>,
    pub neighbour: Seq<usize>,
}

/// The view of a mesh without its patches.
pub open spec fn poly_view(mesh: PolyMesh<Coordinates>) -> PolyView {
    PolyView {
        path: mesh.path@,
        points: gmsh::point_views(mesh.points@),
        faces: node_views(mesh.faces@),
        owner: mesh.owner@,
        neighbour: mesh.neighbour@,
    }
}

/// The mesh of a directory, by the texts of its files.
pub open spec fn mesh_of(
    path: Seq<char>,
    points: Seq<char>,
    faces: Seq<char>,
    owner: Seq<char>,
    neighbour: Seq<char>,
) -> Result<PolyView, Failure> {
    match points_of(points, text::below(path, "points"@)) {
        Err(failure) => Err(failure),
        Ok(found_points) => match faces_of(faces, text::below(path, "faces"@)) {
            Err(failure) => Err(failure),
            Ok(found_faces) => match labels_of(owner, text::below(path, "owner"@)) {
                Err(failure) => Err(failure),
                Ok(found_owner) => match labels_of(
                    neighbour,
                    text::below(path, "neighbour"@),
                ) {
                    Err(failure) => Err(failure),
                    Ok(found_neighbour) => if found_faces.len() != found_owner.len() {
                        Err(file_failure("faces/owner size mismatch"@, path))
                    } else if found_neighbour.len() > found_faces.len() {
                        Err(
                            file_failure("neighbour list is longer than face list"@, path),
                        )
                    } else {
                        Ok(
                            PolyView {
                                path,
                                points: found_points,
                                faces: found_faces,
                                owner: found_owner,
                                neighbour: found_neighbour,
                            },
                        )
                    },
                },
            },
        },
    }
}

/// One more than the largest of labels; nothing where there are none.
pub open spec fn label_bound(labels: Seq<usize>) -> nat
    decreases labels.len(),
{
    if labels.len() == 0 {
        0
    } else {
        let earlier = label_bound(labels.drop_last());
        if labels.last() + 1 > earlier {
            (labels.last() + 1) as nat
        } else {
            earlier
        }
    }
}

proof fn lemma_labels_fail(values: Seq<Seq<char>>, path: Seq<char>, n: int, m: int)
    requires
        0 <= n <= m,
        labels_before(values, path, n) is Err,
    ensures
        labels_before(values, path, m) == labels_before(values, path, n),
    decreases m,
{
    if n < m {
        lemma_labels_fail(values, path, n, m - 1);
    }
}

proof fn lemma_plain_fail(values: Seq<Seq<char>>, path: Seq<char>, n: int, m: int)
    requires
        0 <= n <= m,
        plain_labels(values, path, n) is Err,
    ensures
        plain_labels(values, path, m) == plain_labels(values, path, n),
    decreases m,
{
    if n < m {
        lemma_plain_fail(values, path, n, m - 1);
    }
}

proof fn lemma_faces_fail(values: Seq<Seq<char>>, path: Seq<char>, n: int, m: int)
    requires
        0 <= n <= m,
        faces_before(values, path, n) is Err,
    ensures
        faces_before(values, path, m) == faces_before(values, path, n),
    decreases m,
{
    if n < m {
        lemma_faces_fail(values, path, n, m - 1);
    }
}

proof fn lemma_points_fail(values: Seq<Seq<char>>, path: Seq<char>, n: int, m: int)
    requires
        0 <= n <= m,
        points_before(values, path, n) is Err,
    ensures
        points_before(values, path, m) == points_before(values, path, n),
    decreases m,
{
    if n < m {
        lemma_points_fail(values, path, n, m - 1);
    }
}

fn file_error(message: &str, path: &str) -> (error: MeshError)
    ensures
        error@ == file_failure(message@, path@),
{
    let mut text = message.to_string();
    text.append(" in ");
    text.append(path);
    MeshError::InvalidInput(text)
}

fn label_error(value: &str, path: &str) -> (error: MeshError)
    ensures
        error@ == file_failure("invalid label '"@ + value@ + "'"@, path@),
{
    let mut message = "invalid label '".to_string();
    message.append(value);
    message.append("'");
    file_error(message.as_str(), path)
}

fn cleaned(content: &str) -> (found: Vec<String>)
    ensures
        text::texts(found@) == clean_lines(content@),
{
    let lines = text::lines_of(content);
    let ghost all = text::texts(lines@);
    let mut found: Vec<String> = Vec::new();
    let mut at: usize = 0;
    assert(text::texts(found@) =~= Seq::empty());
    while at < lines.len()
        invariant
            at <= lines@.len(),
            all == text::texts(lines@),
            text::texts(found@) == clean_before(all, at as int),
        decreases lines@.len() - at,
    {
        let ghost earlier = text::texts(found@);
        let line = text::trimmed(text::without_comment(lines[at].as_str()).as_str());
        if !line.as_str().is_empty() {
            let ghost added = line@;
            found.push(line);
            assert(text::texts(found@) =~= earlier.push(added));
        }
        at += 1;
    }
    found
}

/// Reads the entries of a list.
pub fn read_list_entries(content: &str, path: &str) -> (out: Result<Vec<String>, MeshError>)
    ensures
        match out {
            Ok(entries) => dictionary::gives(
                list_entries(content@, path@),
                text::texts(entries@),
            ),
            Err(error) => dictionary::fails(list_entries(content@, path@), error),
        },
{
    let lines = cleaned(content);
    let ghost all = text::texts(lines@);
    let total: usize = lines.len();
    let mut first: usize = 0;
    while first < total && text::read_usize(lines[first].as_str()).is_none()
        invariant
            first <= total,
            total == lines@.len(),
            all == text::texts(lines@),
            count_line(all, 0) == count_line(all, first as int),
        decreases total - first,
    {
        first += 1;
    }
    if first == total {
        return Err(file_error("missing list count", path));
    }
    let count: usize = match text::read_usize(lines[first].as_str()) {
        Some(found) => found,
        None => 0,
    };
    assert(count_line(all, 0) == Some(first as int));
    let mut start: usize = first + 1;
    while start < total && !text::text_eq(lines[start].as_str(), "(")
        invariant
            first < start <= total,
            total == lines@.len(),
            all == text::texts(lines@),
            open_line(all, first + 1) == open_line(all, start as int),
        decreases total - start,
    {
        start += 1;
    }
    if start == total {
        return Err(file_error("missing list opening '('", path));
    }
    assert(open_line(all, first + 1) == Some(start as int));
    let mut entries: Vec<String> = Vec::new();
    let mut at: usize = start + 1;
    assert(text::texts(entries@) =~= all.subrange(start + 1, start + 1));
    while at < total && !(text::text_eq(lines[at].as_str(), ")") || text::text_eq(
        lines[at].as_str(),
        ");",
    ))
        invariant
            start < at <= total,
            total == lines@.len(),
            all == text::texts(lines@),
            close_line(all, start + 1) == close_line(all, at as int),
            text::texts(entries@) == all.subrange(start + 1, at as int),
        decreases total - at,
    {
        let ghost earlier = text::texts(entries@);
        entries.push(lines[at].clone());
        assert(text::texts(entries@) =~= earlier.push(all[at as int]));
        assert(all.subrange(start + 1, at + 1) =~= earlier.push(all[at as int]));
        at += 1;
    }
    assert(text::texts(entries@).len() == entries@.len());
    if entries.len() != count {
        let mut message = "expected ".to_string();
        message.append(text::number_text(count).as_str());
        message.append(" entries but found ");
        message.append(text::number_text(entries.len()).as_str());
        return Err(file_error(message.as_str(), path));
    }
    Ok(entries)
}

/// Reads a label.
pub fn parse_usize(value: &str, path: &str) -> (out: Result<usize, MeshError>)
    ensures
        match out {
            Ok(label) => dictionary::gives(label_of(value@, path@), label),
            Err(error) => dictionary::fails(label_of(value@, path@), error),
        },
{
    match text::read_usize(text::trimmed(value).as_str()) {
        Some(label) => Ok(label),
        None => Err(label_error(value, path)),
    }
}

fn parse_labels(values: &Vec<String>, path: &str) -> (out: Result<Vec<usize>, MeshError>)
    ensures
        match out {
            Ok(labels) => dictionary::gives(
                labels_before(text::texts(values@), path@, values@.len() as int),
                labels@,
            ),
            Err(error) => dictionary::fails(
                labels_before(text::texts(values@), path@, values@.len() as int),
                error,
            ),
        },
{
    let ghost all = text::texts(values@);
    let mut labels: Vec<usize> = Vec::new();
    let mut at: usize = 0;
    assert(labels@ =~= Seq::empty());
    while at < values.len()
        invariant
            at <= values@.len(),
            all == text::texts(values@),
            labels_before(all, path@, at as int) == Ok::<Seq<usize>, Failure>(labels@),
        decreases values@.len() - at,
    {
        match parse_usize(values[at].as_str(), path) {
            Ok(label) => {
                labels.push(label);
            },
            Err(error) => {
                proof {
                    lemma_labels_fail(all, path@, at + 1, values@.len() as int);
                }
                return Err(error);
            },
        }
        at += 1;
    }
    Ok(labels)
}

fn face_error(line: &str, path: &str) -> (error: MeshError)
    ensures
        error@ == file_failure("invalid face '"@ + line@ + "'"@, path@),
{
    let mut message = "invalid face '".to_string();
    message.append(line);
    message.append("'");
    file_error(message.as_str(), path)
}

/// Reads a face.
pub fn parse_face(line: &str, path: &str) -> (out: Result<Vec<usize>, MeshError>)
    ensures
        match out {
            Ok(nodes) => dictionary::gives(face_of(line@, path@), nodes@),
            Err(error) => dictionary::fails(face_of(line@, path@), error),
        },
{
    let (head, rest) = match text::split_at_first(line, '(') {
        Some(halves) => halves,
        None => {
            return Err(face_error(line, path));
        },
    };
    if text::before_last(line, ')').is_none() {
        return Err(face_error(line, path));
    }
    let declared: usize = parse_usize(head.as_str(), path)?;
    proof {
        lemma_brackets_in_order(line@, path@);
    }
    let inner = match text::before_last(rest.as_str(), ')') {
        Some(found) => found,
        None => {
            assert(false);
            String::new()
        },
    };
    let words = text::words_of(inner.as_str());
    let nodes = parse_labels(&words, path)?;
    assert(text::texts(words@).len() == words@.len());
    if nodes.len() != declared {
        let mut message = "face declares ".to_string();
        message.append(text::number_text(declared).as_str());
        message.append(" nodes but has ");
        message.append(text::number_text(nodes.len()).as_str());
        return Err(file_error(message.as_str(), path));
    }
    Ok(nodes)
}

/// Reads the faces of a file.
pub fn read_faces(content: &str, path: &str) -> (out: Result<Vec<Vec<usize>>, MeshError>)
    ensures
        match out {
            Ok(faces) => dictionary::gives(faces_of(content@, path@), node_views(faces@)),
            Err(error) => dictionary::fails(faces_of(content@, path@), error),
        },
{
    let entries = read_list_entries(content, path)?;
    let ghost all = text::texts(entries@);
    let mut faces: Vec<Vec<usize>> = Vec::new();
    let mut at: usize = 0;
    assert(node_views(faces@) =~= Seq::empty());
    while at < entries.len()
        invariant
            at <= entries@.len(),
            all == text::texts(entries@),
            list_entries(content@, path@) == Ok::<Seq<Seq<char>>, Failure>(all),
            faces_before(all, path@, at as int) == Ok::<Seq<Seq<usize>>, Failure>(
                node_views(faces@),
            ),
        decreases entries@.len() - at,
    {
        let ghost earlier = node_views(faces@);
        match parse_face(entries[at].as_str(), path) {
            Ok(nodes) => {
                let ghost added = nodes@;
                faces.push(nodes);
                assert(node_views(faces@) =~= earlier.push(added));
            },
            Err(error) => {
                proof {
                    lemma_faces_fail(all, path@, at + 1, all.len() as int);
                }
                return Err(error);
            },
        }
        at += 1;
    }
    Ok(faces)
}

/// Reads the labels of a file.
pub fn read_label_list(content: &str, path: &str) -> (out: Result<Vec<usize>, MeshError>)
    ensures
        match out {
            Ok(labels) => dictionary::gives(labels_of(content@, path@), labels@),
            Err(error) => dictionary::fails(labels_of(content@, path@), error),
        },
{
    let entries = read_list_entries(content, path)?;
    let ghost all = text::texts(entries@);
    let mut labels: Vec<usize> = Vec::new();
    let mut at: usize = 0;
    assert(labels@ =~= Seq::empty());
    while at < entries.len()
        invariant
            at <= entries@.len(),
            all == text::texts(entries@),
            list_entries(content@, path@) == Ok::<Seq<Seq<char>>, Failure>(all),
            plain_labels(all, path@, at as int) == Ok::<Seq<usize>, Failure>(labels@),
        decreases entries@.len() - at,
    {
        match text::read_usize(entries[at].as_str()) {
            Some(label) => {
                labels.push(label);
            },
            None => {
                proof {
                    lemma_plain_fail(all, path@, at + 1, all.len() as int);
                }
                return Err(label_error(entries[at].as_str(), path));
            },
        }
        at += 1;
    }
    Ok(labels)
}

fn parse_point(line: &str, path: &str) -> (out: Result<Coordinates, MeshError>)
    ensures
        match out {
            Ok(point) => dictionary::gives(
                point_of(line@, path@),
                (point.x@, point.y@, point.z@),
            ),
            Err(error) => dictionary::fails(point_of(line@, path@), error),
        },
{
    let bare = text::trimmed(
        text::trimmed_end(
            text::trimmed_start(text::trimmed(line).as_str(), CharClass::Only('(')).as_str(),
            CharClass::Only(')'),
        ).as_str(),
    );
    let words = text::words_of(bare.as_str());
    let ghost all = text::texts(words@);
    let mut at: usize = 0;
    while at < words.len()
        invariant
            at <= words@.len(),
            all == text::texts(words@),
            all == text::words(unwrapped(line@)),
            all_floats(all, 0) == all_floats(all, at as int),
        decreases words@.len() - at,
    {
        if !text::reads_float(words[at].as_str()) {
            return Err(file_error("invalid point", path));
        }
        at += 1;
    }
    if words.len() != 3 {
        return Err(file_error("point does not have 3 coordinates", path));
    }
    Ok(Coordinates { x: words[0].clone(), y: words[1].clone(), z: words[2].clone() })
}

/// Reads the points of a file.
pub fn read_points(content: &str, path: &str) -> (out: Result<Vec<Coordinates>, MeshError>)
    ensures
        match out {
            Ok(points) => dictionary::gives(
                points_of(content@, path@),
                gmsh::point_views(points@),
            ),
            Err(error) => dictionary::fails(points_of(content@, path@), error),
        },
{
    let entries = read_list_entries(content, path)?;
    let ghost all = text::texts(entries@);
    let mut points: Vec<Coordinates> = Vec::new();
    let mut at: usize = 0;
    assert(gmsh::point_views(points@) =~= Seq::empty());
    while at < entries.len()
        invariant
            at <= entries@.len(),
            all == text::texts(entries@),
            list_entries(content@, path@) == Ok::<Seq<Seq<char>>, Failure>(all),
            points_before(all, path@, at as int) == Ok::<Seq<PointView>, Failure>(
                gmsh::point_views(points@),
            ),
        decreases entries@.len() - at,
    {
        let ghost earlier = gmsh::point_views(points@);
        match parse_point(entries[at].as_str(), path) {
            Ok(point) => {
                let ghost added = (point.x@, point.y@, point.z@);
                points.push(point);
                assert(gmsh::point_views(points@) =~= earlier.push(added));
            },
            Err(error) => {
                proof {
                    lemma_points_fail(all, path@, at + 1, all.len() as int);
                }
                return Err(error);
            },
        }
        at += 1;
    }
    Ok(points)
}

/// The texts of the files of a mesh.
#[derive(Debug)]
pub struct PolyMeshFiles {
    pub points: String,
    pub faces: String,
    pub owner: String,
    pub neighbour: String,
}

impl PolyMesh<Coordinates> {
    /// Reads the mesh of the directory `path` from the texts of its files; the
    /// patches are those that are given.
    pub fn read(path: &str, files: &PolyMeshFiles, patches: Vec<BoundaryPatch>) -> (out: Result<
        PolyMesh<Coordinates>,
        MeshError,
    >)
        ensures
            ({
                let named = mesh_of(
                    path@,
                    files.points@,
                    files.faces@,
                    files.owner@,
                    files.neighbour@,
                );
                match out {
                    Ok(mesh) => dictionary::gives(named, poly_view(mesh)) && mesh.patches
                        == patches,
                    Err(error) => dictionary::fails(named, error),
                }
            }),
    {
        let points = read_points(
            files.points.as_str(),
            text::path_below(path, "points").as_str(),
        )?;
        let faces = read_faces(files.faces.as_str(), text::path_below(path, "faces").as_str())?;
        let owner = read_label_list(
            files.owner.as_str(),
            text::path_below(path, "owner").as_str(),
        )?;
        let neighbour = read_label_list(
            files.neighbour.as_str(),
            text::path_below(path, "neighbour").as_str(),
        )?;
        assert(node_views(faces@).len() == faces@.len());
        if faces.len() != owner.len() {
            return Err(file_error("faces/owner size mismatch", path));
        }
        if neighbour.len() > faces.len() {
            return Err(file_error("neighbour list is longer than face list", path));
        }
        Ok(PolyMesh { path: path.to_string(), points, faces, owner, neighbour, patches })
    }
}

fn bound(labels: &Vec<usize>) -> (count: usize)
    requires
        forall|i: int| 0 <= i < labels@.len() ==> #[trigger] labels@[i] < usize::MAX,
    ensures
        count == label_bound(labels@),
{
    let mut count: usize = 0;
    let mut at: usize = 0;
    assert(labels@.take(0) =~= Seq::empty());
    while at < labels.len()
        invariant
            at <= labels@.len(),
            forall|i: int| 0 <= i < labels@.len() ==> #[trigger] labels@[i] < usize::MAX,
            count == label_bound(labels@.take(at as int)),
        decreases labels@.len() - at,
    {
        assert(labels@.take(at + 1).drop_last() =~= labels@.take(at as int));
        assert(labels@[at as int] < usize::MAX);
        if labels[at] + 1 > count {
            count = labels[at] + 1;
        }
        at += 1;
    }
    assert(labels@.take(at as int) =~= labels@);
    count
}

impl<P> PolyMesh<P> {
    /// The number of cells: one more than the largest label of a cell.
    pub fn cell_count(&self) -> (count: usize)
        requires
            forall|i: int| 0 <= i < self.owner@.len() ==> #[trigger] self.owner@[i] < usize::MAX,
            forall|i: int|
                0 <= i < self.neighbour@.len() ==> #[trigger] self.neighbour@[i] < usize::MAX,
        ensures
            count as int == (if label_bound(self.owner@) > label_bound(self.neighbour@) {
                label_bound(self.owner@)
            } else {
                label_bound(self.neighbour@)
            }),
    {
        let owners: usize = bound(&self.owner);
        let neighbours: usize = bound(&self.neighbour);
        if owners > neighbours {
            owners
        } else {
            neighbours
        }
    }
}

/// Every label is below the bound of its list.
pub proof fn labels_are_bounded(labels: Seq<usize>, at: int)
    requires
        0 <= at < labels.len(),
    ensures
        labels[at] < label_bound(labels),
    decreases labels.len(),
{
    if at < labels.len() - 1 {
        labels_are_bounded(labels.drop_last(), at);
    }
}

/// The first node from `at` on that is not a point.
pub open spec fn missing_point(nodes: Seq<usize>, points: nat, at: int) -> Option<usize>
    decreases nodes.len() - at,
{
    if at >= nodes.len() {
        None
    } else if nodes[at] >= points {
        Some(nodes[at])
    } else {
        missing_point(nodes, points, at + 1)
    }
}

/// Whether the faces from `at` on are polygons of points.
pub open spec fn polygons_checked(
    faces: Seq<Seq<usize>>,
    points: nat,
    path: Seq<char>,
    at: int,
) -> Result<(), Failure>
    decreases faces.len() - at,
{
    if at >= faces.len() {
        Ok(())
    } else if faces[at].len() < 3 {
        Err(
            file_failure(
                "face with "@ + text::decimal(faces[at].len()) + " nodes found"@,
                path,
            ),
        )
    } else {
        match missing_point(faces[at], points, 0) {
            Some(node) => Err(
                file_failure(
                    "face references missing point "@ + text::decimal(node as nat),
                    path,
                ),
            ),
            None => polygons_checked(faces, points, path, at + 1),
        }
    }
}

fn find_missing(nodes: &Vec<usize>, points: usize) -> (node: Option<usize>)
    ensures
        node == missing_point(nodes@, points as nat, 0),
{
    let mut at: usize = 0;
    while at < nodes.len()
        invariant
            at <= nodes@.len(),
            missing_point(nodes@, points as nat, 0) == missing_point(
                nodes@,
                points as nat,
                at as int,
            ),
        decreases nodes@.len() - at,
    {
        if nodes[at] >= points {
            return Some(nodes[at]);
        }
        at += 1;
    }
    None
}

/// Whether the faces of a mesh are polygons of its points.
pub fn check_polygons<P>(mesh: &PolyMesh<P>) -> (out: Result<(), MeshError>)
    ensures
        match out {
            Ok(done) => dictionary::gives(
                polygons_checked(node_views(mesh.faces@), mesh.points@.len(), mesh.path@, 0),
                done,
            ),
            Err(error) => dictionary::fails(
                polygons_checked(node_views(mesh.faces@), mesh.points@.len(), mesh.path@, 0),
                error,
            ),
        },
{
    let faces = &mesh.faces;
    let points: usize = mesh.points.len();
    let ghost all = node_views(faces@);
    let mut at: usize = 0;
    while at < faces.len()
        invariant
            at <= faces@.len(),
            *faces == mesh.faces,
            points == mesh.points@.len(),
            all == node_views(faces@),
            polygons_checked(all, points as nat, mesh.path@, 0) == polygons_checked(
                all,
                points as nat,
                mesh.path@,
                at as int,
            ),
        decreases faces@.len() - at,
    {
        assert(all[at as int] == faces@[at as int]@);
        if faces[at].len() < 3 {
            let mut message = "face with ".to_string();
            message.append(text::number_text(faces[at].len()).as_str());
            message.append(" nodes found");
            return Err(file_error(message.as_str(), mesh.path.as_str()));
        }
        if let Some(node) = find_missing(&faces[at], points) {
            let mut message = "face references missing point ".to_string();
            message.append(text::number_text(node).as_str());
            return Err(file_error(message.as_str(), mesh.path.as_str()));
        }
        at += 1;
    }
    Ok(())
}

} // verus!
