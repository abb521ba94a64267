//! The head of a file of a case.

use crate::layout::TextList;
use vstd::prelude::*;

verus! {

/// The head of a file, with an empty line behind it.
pub open spec fn head(class_name: Seq<char>, object: Seq<char>, location: Seq<char>) -> Seq<
    Seq<char>,
> {
    Seq::empty().push("FoamFile"@).push("{"@).push("    version 2.0;"@).push(
        "    format ascii;"@,
    ).push("    class "@ + class_name + ";"@).push("    location \""@ + location + "\";"@).push(
        "    object "@ + object + ";"@,
    ).push("}"@).push(Seq::empty())
}

/// The head of a file, with an empty line behind it.
pub fn header(class_name: &str, object: &str, location: &str) -> (lines: TextList)
    ensures
        lines@ == head(class_name@, object@, location@),
{
    let mut lines = TextList::new();
    lines.add("FoamFile");
    lines.add("{");
    lines.add("    version 2.0;");
    lines.add("    format ascii;");
    let mut class_line = "    class ".to_string();
    class_line.append(class_name);
    class_line.append(";");
    lines.push(class_line);
    let mut location_line = "    location \"".to_string();
    location_line.append(location);
    location_line.append("\";");
    lines.push(location_line);
    let mut object_line = "    object ".to_string();
    object_line.append(object);
    object_line.append(";");
    lines.push(object_line);
    lines.add("}");
    lines.blank();
    lines
}

} // verus!
