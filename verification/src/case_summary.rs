//! The summary of a mesh that an import leaves behind.

use crate::text;
use vstd::prelude::*;

verus! {

/// What the summary of a mesh says.
#[derive(Debug)]
pub struct CaseSummary {
    pub path: String,
    pub points: Option<usize>,
    pub cells: Option<usize>,
    pub faces: Option<usize>,
    pub internal_faces: Option<usize>,
    pub boundary_faces: Option<usize>,
    pub unmatched_boundary_faces: Option<usize>,
    pub duplicate_boundary_faces: Option<usize>,
    pub non_manifold_faces: Option<usize>,
    pub patches: Vec<String>,
    pub face_zones: Vec<String>,
    pub cell_zones: Vec<String>,
}

/// The mathematical view of a [`CaseSummary`].
pub struct CaseView {
    pub path: Seq<char>,
    pub points: Option<nat>,
    pub cells: Option<nat>,
    pub faces: Option<nat>,
    pub internal_faces: Option<nat>,
    pub boundary_faces: Option<nat>,
    pub unmatched_boundary_faces: Option<nat>,
    pub duplicate_boundary_faces: Option<nat>,
    pub non_manifold_faces: Option<nat>,
    pub patches: Seq<Seq<char>>,
    pub face_zones: Seq<Seq<char>>,
    pub cell_zones: Seq<Seq<char>>,
}

/// The view of an optional count.
pub open spec fn opt_count(count: Option<usize>) -> Option<nat> {
    match count {
        Some(inner) => Some(inner as nat),
        None => None,
    }
}

impl View for CaseSummary {
    type V = CaseView;

    open spec fn view(&self) -> CaseView {
        CaseView {
            path: self.path@,
            points: opt_count(self.points),
            cells: opt_count(self.cells),
            faces: opt_count(self.faces),
            internal_faces: opt_count(self.internal_faces),
            boundary_faces: opt_count(self.boundary_faces),
            unmatched_boundary_faces: opt_count(self.unmatched_boundary_faces),
            duplicate_boundary_faces: opt_count(self.duplicate_boundary_faces),
            non_manifold_faces: opt_count(self.non_manifold_faces),
            patches: text::texts(self.patches@),
            face_zones: text::texts(self.face_zones@),
            cell_zones: text::texts(self.cell_zones@),
        }
    }
}

/// The part of a summary.
#[derive(Clone, Copy, Debug, Eq, PartialEq, Structural)]
pub enum SummaryPart {
    Sizes,
    Patches,
    FaceZones,
    CellZones,
    UnsupportedElements,
}

/// The part that a line opens.
pub open spec fn part_opened(line: Seq<char>) -> Option<SummaryPart> {
    if line == "[patches]"@ {
        Some(SummaryPart::Patches)
    } else if line == "[cell_zones]"@ {
        Some(SummaryPart::CellZones)
    } else if line == "[face_zones]"@ {
        Some(SummaryPart::FaceZones)
    } else if line == "[unsupported_elements]"@ {
        Some(SummaryPart::UnsupportedElements)
    } else {
        None
    }
}

impl CaseView {
    /// The summary after a size has been read.
    pub open spec fn sized(self, key: Seq<char>, number: Option<nat>) -> CaseView {
        if key == "points"@ {
            CaseView { points: number, ..self }
        } else if key == "cells"@ {
            CaseView { cells: number, ..self }
        } else if key == "faces"@ {
            CaseView { faces: number, ..self }
        } else if key == "internal_faces"@ {
            CaseView { internal_faces: number, ..self }
        } else if key == "boundary_faces"@ {
            CaseView { boundary_faces: number, ..self }
        } else if key == "unmatched_boundary_faces"@ {
            CaseView { unmatched_boundary_faces: number, ..self }
        } else if key == "duplicate_boundary_faces"@ {
            CaseView { duplicate_boundary_faces: number, ..self }
        } else if key == "non_manifold_faces"@ {
            CaseView { non_manifold_faces: number, ..self }
        } else {
            self
        }
    }

    /// The summary after a line has been read in a part.
    pub open spec fn told(self, part: SummaryPart, line: Seq<char>) -> CaseView {
        match part {
            SummaryPart::Patches => CaseView { patches: self.patches.push(line), ..self },
            SummaryPart::FaceZones => CaseView { face_zones: self.face_zones.push(line), ..self },
            SummaryPart::CellZones => CaseView { cell_zones: self.cell_zones.push(line), ..self },
            _ => match text::split_once(line, '=') {
                Some((key, value)) => self.sized(key, text::natural(value, usize::MAX as nat)),
                None => self,
            },
        }
    }
}

/// A summary that says nothing yet.
pub open spec fn silent(path: Seq<char>) -> CaseView {
    CaseView {
        path,
        points: None,
        cells: None,
        faces: None,
        internal_faces: None,
        boundary_faces: None,
        unmatched_boundary_faces: None,
        duplicate_boundary_faces: None,
        non_manifold_faces: None,
        patches: Seq::empty(),
        face_zones: Seq::empty(),
        cell_zones: Seq::empty(),
    }
}

/// The summary after the first `n` lines, and the part that is open then.
pub open spec fn read_before(path: Seq<char>, lines: Seq<Seq<char>>, n: int) -> (
    CaseView,
    SummaryPart,
)
    decreases n,
{
    if n <= 0 {
        (silent(path), SummaryPart::Sizes)
    } else {
        let (summary, part) = read_before(path, lines, n - 1);
        let line = text::trim(lines[n - 1]);
        if line.len() == 0 {
            (summary, part)
        } else {
            match part_opened(line) {
                Some(opened) => (summary, opened),
                None => (summary.told(part, line), part),
            }
        }
    }
}

/// What the text of a summary says.
pub open spec fn summary_of(path: Seq<char>, content: Seq<char>) -> CaseView {
    let lines = text::lines(content);
    let (summary, _) = read_before(path, lines, lines.len() as int);
    summary
}

fn open_part(line: &str) -> (part: Option<SummaryPart>)
    ensures
        part == part_opened(line@),
{
    if text::text_eq(line, "[patches]") {
        Some(SummaryPart::Patches)
    } else if text::text_eq(line, "[cell_zones]") {
        Some(SummaryPart::CellZones)
    } else if text::text_eq(line, "[face_zones]") {
        Some(SummaryPart::FaceZones)
    } else if text::text_eq(line, "[unsupported_elements]") {
        Some(SummaryPart::UnsupportedElements)
    } else {
        None
    }
}

impl CaseSummary {
    fn size(&mut self, key: &str, number: Option<usize>)
        ensures
            final(self)@ == old(self)@.sized(key@, opt_count(number)),
    {
        if text::text_eq(key, "points") {
            self.points = number;
        } else if text::text_eq(key, "cells") {
            self.cells = number;
        } else if text::text_eq(key, "faces") {
            self.faces = number;
        } else if text::text_eq(key, "internal_faces") {
            self.internal_faces = number;
        } else if text::text_eq(key, "boundary_faces") {
            self.boundary_faces = number;
        } else if text::text_eq(key, "unmatched_boundary_faces") {
            self.unmatched_boundary_faces = number;
        } else if text::text_eq(key, "duplicate_boundary_faces") {
            self.duplicate_boundary_faces = number;
        } else if text::text_eq(key, "non_manifold_faces") {
            self.non_manifold_faces = number;
        }
    }

    fn tell(&mut self, part: SummaryPart, line: String)
        ensures
            final(self)@ == old(self)@.told(part, line@),
    {
        let ghost said = line@;
        match part {
            SummaryPart::Patches => {
                self.patches.push(line);
                assert(text::texts(self.patches@) =~= old(self)@.patches.push(said));
            },
            SummaryPart::FaceZones => {
                self.face_zones.push(line);
                assert(text::texts(self.face_zones@) =~= old(self)@.face_zones.push(said));
            },
            SummaryPart::CellZones => {
                self.cell_zones.push(line);
                assert(text::texts(self.cell_zones@) =~= old(self)@.cell_zones.push(said));
            },
            _ => {
                if let Some((key, value)) = text::split_at_first(line.as_str(), '=') {
                    self.size(key.as_str(), text::read_usize(value.as_str()));
                }
            },
        }
    }
}

/// Reads the text of the summary of the case in `path`.
pub fn parse_case_summary_str(path: &str, content: &str) -> (summary: CaseSummary)
    ensures
        summary@ == summary_of(path@, content@),
{
    let mut summary = CaseSummary {
        path: path.to_string(),
        points: None,
        cells: None,
        faces: None,
        internal_faces: None,
        boundary_faces: None,
        unmatched_boundary_faces: None,
        duplicate_boundary_faces: None,
        non_manifold_faces: None,
        patches: Vec::new(),
        face_zones: Vec::new(),
        cell_zones: Vec::new(),
    };
    let mut part = SummaryPart::Sizes;
    let lines = text::lines_of(content);
    let ghost all = text::texts(lines@);
    let mut at: usize = 0;
    proof {
        assert(text::texts(summary.patches@) =~= Seq::empty());
        assert(text::texts(summary.face_zones@) =~= Seq::empty());
        assert(text::texts(summary.cell_zones@) =~= Seq::empty());
    }
    while at < lines.len()
        invariant
            at <= lines@.len(),
            all == text::texts(lines@),
            (summary@, part) == read_before(path@, all, at as int),
        decreases lines@.len() - at,
    {
        assert(all[at as int] == lines@[at as int]@);
        let line = text::trimmed(lines[at].as_str());
        if !line.as_str().is_empty() {
            match open_part(line.as_str()) {
                Some(opened) => {
                    part = opened;
                },
                None => {
                    summary.tell(part, line);
                },
            }
        }
        at += 1;
    }
    summary
}

/// What is said where the summary of a case cannot be read.
pub open spec fn unread(path: Seq<char>, reason: Seq<char>) -> Seq<char> {
    "could not read "@ + path + "; run gmshToFerrum first ("@ + reason + ")"@
}

/// What is said where the summary of a case cannot be read.
pub fn unread_text(path: &str, reason: &str) -> (message: String)
    ensures
        message@ == unread(path@, reason@),
{
    let mut message = "could not read ".to_string();
    message.append(path);
    message.append("; run gmshToFerrum first (");
    message.append(reason);
    message.append(")");
    message
}

} // verus!
