//! Meshes as they are imported.

use crate::arguments;
use crate::text;
use std::collections::HashMap;
use vstd::prelude::*;

verus! {

broadcast use vstd::std_specs::hash::group_hash_axioms;

/// An imported mesh with points of type `P`.
#[derive(Debug)]
pub struct Mesh<P> {
    pub points: Vec<P>,
    pub cells: Vec<Cell>,
    pub boundary_faces: Vec<BoundaryFace>,
    pub physical_names: Vec<PhysicalName>,
    pub unsupported_elements: Vec<UnsupportedElementCount>,
}

/// A hexahedron, by its corners.
#[derive(Clone, Debug)]
pub struct Cell {
    pub source_id: usize,
    pub physical_tag: i32,
    pub nodes: [usize; 8],
}

/// A quadrilateral on a boundary, by its corners.
#[derive(Clone, Debug)]
pub struct BoundaryFace {
    pub source_id: usize,
    pub physical_tag: i32,
    pub nodes: [usize; 4],
}

/// The name of a physical group.
#[derive(Clone, Debug)]
pub struct PhysicalName {
    pub dim: u8,
    pub tag: i32,
    pub name: String,
}

/// How many elements of a type were passed over.
#[derive(Clone, Debug)]
pub struct UnsupportedElementCount {
    pub element_type: i32,
    pub count: usize,
}

/// The name of the first group from `at` on with a tag.
pub open spec fn name_from(names: Seq<PhysicalName>, tag: i32, at: int) -> Option<Seq<char>>
    decreases names.len() - at,
{
    if at >= names.len() {
        None
    } else if names[at].tag == tag {
        Some(names[at].name@)
    } else {
        name_from(names, tag, at + 1)
    }
}

/// The name of a physical group; one without a name is called by its tag.
pub open spec fn group_name(names: Seq<PhysicalName>, tag: i32) -> Seq<char> {
    match name_from(names, tag, 0) {
        Some(name) => name,
        None => "physical_"@ + text::signed_decimal(tag as int),
    }
}

/// The name of the last group with a tag.
pub open spec fn last_name(names: Seq<PhysicalName>, tag: i32) -> Option<Seq<char>>
    decreases names.len(),
{
    if names.len() == 0 {
        None
    } else if names.last().tag == tag {
        Some(names.last().name@)
    } else {
        last_name(names.drop_last(), tag)
    }
}

/// The name of a physical group; one without a name is called by its tag.
pub fn physical_name(names: &Vec<PhysicalName>, tag: i32) -> (name: String)
    ensures
        name@ == group_name(names@, tag),
{
    let mut at: usize = 0;
    while at < names.len()
        invariant
            at <= names@.len(),
            name_from(names@, tag, 0) == name_from(names@, tag, at as int),
        decreases names@.len() - at,
    {
        if names[at].tag == tag {
            return names[at].name.clone();
        }
        at += 1;
    }
    let mut name = "physical_".to_string();
    name.append(text::integer_text(tag as i64).as_str());
    name
}

/// A character of a name in a case: letters, digits, `_` and `-` stay, others
/// become `_`.
pub open spec fn name_char(ch: char) -> char {
    if text::is_alphanumeric(ch) || ch == '_' || ch == '-' {
        ch
    } else {
        '_'
    }
}

/// A name as it stands in a case.
pub open spec fn sanitized(name: Seq<char>) -> Seq<char> {
    if name.len() == 0 {
        "unnamed"@
    } else {
        name.map_values(|ch: char| name_char(ch))
    }
}

/// A name in a case is a word.
pub proof fn sanitized_is_word(name: Seq<char>)
    ensures
        arguments::is_word(sanitized(name)),
{
    reveal_strlit("unnamed");
}

/// A word stays as it is in a case; so does a name that was made for one.
pub proof fn words_stay(name: Seq<char>)
    requires
        arguments::is_word(name),
    ensures
        sanitized(name) == name,
        sanitized(sanitized(name)) == sanitized(name),
{
    assert(sanitized(name) =~= name);
}

/// A name as it stands in a case.
pub fn sanitize_name(name: &str) -> (out: String)
    ensures
        out@ == sanitized(name@),
{
    let chars = text::chars_of(name);
    if chars.len() == 0 {
        return "unnamed".to_string();
    }
    let mut out = String::new();
    let mut i: usize = 0;
    while i < chars.len()
        invariant
            i <= chars@.len(),
            out@ == chars@.map_values(|ch: char| name_char(ch)).take(i as int),
        decreases chars@.len() - i,
    {
        let ch = chars[i];
        let code: u32 = ch as u32;
        let alphanumeric = (0x30 <= code && code <= 0x39) || (0x41 <= code && code <= 0x5a) || (0x61
            <= code && code <= 0x7a);
        if alphanumeric || ch == '_' || ch == '-' {
            out.push(ch);
        } else {
            out.push('_');
        }
        assert(out@ =~= chars@.map_values(|ch: char| name_char(ch)).take(i + 1));
        i += 1;
    }
    assert(out@ =~= sanitized(name@));
    out
}

impl<P> Mesh<P> {
    /// The name of a physical group; one without a name is called by its tag.
    pub fn physical_name(&self, tag: i32) -> (name: String)
        ensures
            name@ == group_name(self.physical_names@, tag),
    {
        physical_name(&self.physical_names, tag)
    }

    /// The names of the physical groups by their tags; of two groups with one
    /// tag the later counts.
    pub fn physical_name_map(&self) -> (map: HashMap<i32, String>)
        ensures
            forall|tag: i32|
                #![trigger map@.contains_key(tag)]
                #![trigger last_name(self.physical_names@, tag)]
                last_name(self.physical_names@, tag) == (if map@.contains_key(tag) {
                    Some(map@[tag]@)
                } else {
                    None
                }),
    {
        let names = &self.physical_names;
        let mut map: HashMap<i32, String> = HashMap::new();
        let mut at: usize = 0;
        while at < names.len()
            invariant
                at <= names@.len(),
                forall|tag: i32|
                    #![trigger map@.contains_key(tag)]
                    #![trigger last_name(names@.take(at as int), tag)]
                    last_name(names@.take(at as int), tag) == (if map@.contains_key(tag) {
                        Some(map@[tag]@)
                    } else {
                        None
                    }),
            decreases names@.len() - at,
        {
            let ghost before = map@;
            map.insert(names[at].tag, names[at].name.clone());
            proof {
                let now = names@.take(at + 1);
                assert(now.drop_last() =~= names@.take(at as int));
                assert forall|tag: i32|
                    #![trigger map@.contains_key(tag)]
                    #![trigger last_name(now, tag)]
                    last_name(now, tag) == (if map@.contains_key(tag) {
                        Some(map@[tag]@)
                    } else {
                        None
                    }) by {
                    assert(last_name(names@.take(at as int), tag) == (if before.contains_key(tag) {
                        Some(before[tag]@)
                    } else {
                        None
                    }));
                }
            }
            at += 1;
        }
        assert(names@.take(at as int) =~= names@);
        map
    }
}

} // verus!
