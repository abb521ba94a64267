//! Zones of cells and faces, by their tags.

use crate::face_keys;
use crate::face_keys::KeyIndex;
use crate::mesh::{BoundaryFace, Cell};
use crate::topology;
use crate::topology::FaceRecord;
use vstd::prelude::*;

verus! {

/// The members of a zone.
#[derive(Debug)]
pub struct Zone {
    pub tag: i32,
    pub members: Vec<usize>,
}

/// A zone as it is viewed: its tag and its members.
pub type ZoneView = (i32, Seq<usize>);

/// The views of zones.
pub open spec fn zone_views(zones: Seq<Zone>) -> Seq<ZoneView> {
    Seq::new(zones.len(), |i: int| (zones[i].tag, zones[i].members@))
}

/// A sorted list with a tag put in its place; a tag that it holds already is
/// not repeated.
pub open spec fn tag_inserted(tags: Seq<i32>, tag: i32) -> Seq<i32>
    decreases tags.len(),
{
    if tags.len() == 0 || tags.last() < tag {
        tags.push(tag)
    } else if tags.last() == tag {
        tags
    } else {
        tag_inserted(tags.drop_last(), tag).push(tags.last())
    }
}

/// The tags of the first `n` members in increasing order.
pub open spec fn sorted_tags(members: Seq<(i32, usize)>, n: int) -> Seq<i32>
    decreases n,
{
    if n <= 0 {
        Seq::empty()
    } else {
        tag_inserted(sorted_tags(members, n - 1), members[n - 1].0)
    }
}

/// Those of the first `n` members that have a tag.
pub open spec fn tagged(members: Seq<(i32, usize)>, tag: i32, n: int) -> Seq<usize>
    decreases n,
{
    if n <= 0 {
        Seq::empty()
    } else if members[n - 1].0 == tag {
        tagged(members, tag, n - 1).push(members[n - 1].1)
    } else {
        tagged(members, tag, n - 1)
    }
}

/// The zones of members, by increasing tags.
pub open spec fn zones_of(members: Seq<(i32, usize)>) -> Seq<ZoneView> {
    let tags = sorted_tags(members, members.len() as int);
    Seq::new(tags.len(), |i: int| (tags[i], tagged(members, tags[i], members.len() as int)))
}

/// Whether tags increase.
pub open spec fn increasing(tags: Seq<i32>) -> bool {
    forall|i: int, j: int| 0 <= i < j < tags.len() ==> tags[i] < tags[j]
}

proof fn lemma_tag_inserted(tags: Seq<i32>, tag: i32)
    requires
        increasing(tags),
    ensures
        increasing(tag_inserted(tags, tag)),
        tag_inserted(tags, tag).contains(tag),
        forall|other: i32|
            tags.contains(other) ==> #[trigger] tag_inserted(tags, tag).contains(other),
        forall|i: int|
            0 <= i < tag_inserted(tags, tag).len() ==> (#[trigger] tag_inserted(tags, tag)[i]
                == tag || tags.contains(tag_inserted(tags, tag)[i])),
    decreases tags.len(),
{
    let after = tag_inserted(tags, tag);
    if tags.len() == 0 || tags.last() < tag {
        assert(after[tags.len() as int] == tag);
        assert forall|other: i32| tags.contains(other) implies #[trigger] after.contains(other) by {
            let i = choose|i: int| 0 <= i < tags.len() && tags[i] == other;
            assert(after[i] == other);
        }
        assert forall|i: int| 0 <= i < after.len() implies (#[trigger] after[i] == tag
            || tags.contains(after[i])) by {
            if i < tags.len() {
                assert(tags[i] == after[i]);
            }
        }
    } else if tags.last() == tag {
        assert(tags[tags.len() - 1] == tag);
    } else {
        let head = tags.drop_last();
        lemma_tag_inserted(head, tag);
        let grown = tag_inserted(head, tag);
        assert forall|i: int| 0 <= i < grown.len() implies grown[i] < tags.last() by {
            assert(grown[i] == tag || head.contains(grown[i]));
            if head.contains(grown[i]) {
                let k = choose|k: int| 0 <= k < head.len() && head[k] == grown[i];
                assert(tags[k] < tags[tags.len() - 1]);
            }
        }
        assert forall|i: int, j: int| 0 <= i < j < after.len() implies after[i] < after[j] by {
            if j < grown.len() {
                assert(grown[i] < grown[j]);
            }
        }
        let k = choose|k: int| 0 <= k < grown.len() && grown[k] == tag;
        assert(after[k] == tag);
        assert forall|other: i32| tags.contains(other) implies #[trigger] after.contains(other) by {
            let i = choose|i: int| 0 <= i < tags.len() && tags[i] == other;
            if i < head.len() {
                assert(head[i] == other);
                assert(grown.contains(other));
                let m = choose|m: int| 0 <= m < grown.len() && grown[m] == other;
                assert(after[m] == other);
            } else {
                assert(after[grown.len() as int] == other);
            }
        }
        assert forall|i: int| 0 <= i < after.len() implies (#[trigger] after[i] == tag
            || tags.contains(after[i])) by {
            if i < grown.len() {
                assert(grown[i] == tag || head.contains(grown[i]));
                if head.contains(grown[i]) {
                    let m = choose|m: int| 0 <= m < head.len() && head[m] == grown[i];
                    assert(tags[m] == after[i]);
                }
            } else {
                assert(tags[tags.len() - 1] == after[i]);
            }
        }
    }
}

/// The zones stand by increasing tags, and every member has the zone of its
/// tag.
pub proof fn zones_are_complete(members: Seq<(i32, usize)>, n: int)
    requires
        0 <= n <= members.len(),
    ensures
        increasing(sorted_tags(members, n)),
        forall|i: int| 0 <= i < n ==> sorted_tags(members, n).contains((#[trigger] members[i]).0),
    decreases n,
{
    if n > 0 {
        zones_are_complete(members, n - 1);
        lemma_tag_inserted(sorted_tags(members, n - 1), members[n - 1].0);
        assert forall|i: int| 0 <= i < n implies sorted_tags(members, n).contains(
            (#[trigger] members[i]).0,
        ) by {
            if i < n - 1 {
                assert(sorted_tags(members, n - 1).contains(members[i].0));
            }
        }
    }
}

/// A member is in the zone of its tag.
pub proof fn member_is_tagged(members: Seq<(i32, usize)>, at: int, n: int)
    requires
        0 <= at < n <= members.len(),
    ensures
        tagged(members, members[at].0, n).contains(members[at].1),
    decreases n,
{
    let tag = members[at].0;
    let now = tagged(members, tag, n);
    if at == n - 1 {
        assert(now[now.len() - 1] == members[at].1);
    } else {
        member_is_tagged(members, at, n - 1);
        let before = tagged(members, tag, n - 1);
        let i = choose|i: int| 0 <= i < before.len() && before[i] == members[at].1;
        assert(now[i] == members[at].1);
    }
}

fn insert_tag(tags: &mut Vec<i32>, tag: i32)
    ensures
        final(tags)@ == tag_inserted(old(tags)@, tag),
{
    let ghost before = tags@;
    let mut at: usize = tags.len();
    let ghost mut tail: Seq<i32> = Seq::empty();
    assert(before.take(at as int) =~= before);
    assert(tag_inserted(before, tag) =~= tag_inserted(before.take(at as int), tag) + tail);
    while at > 0 && tags[at - 1] >= tag
        invariant
            at <= before.len(),
            tags@ == before,
            tail == before.skip(at as int),
            tag_inserted(before, tag) == tag_inserted(before.take(at as int), tag) + tail,
        decreases at,
    {
        proof {
            assert(before.take(at as int).last() == before[at - 1]);
        }
        if tags[at - 1] == tag {
            proof {
                assert(before.take(at as int) + tail =~= before);
            }
            return ;
        }
        proof {
            let part = before.take(at as int);
            assert(part.drop_last() =~= before.take(at - 1));
            let last = part.last();
            let shorter = tag_inserted(before.take(at - 1), tag);
            assert(before.skip(at - 1) =~= seq![last] + tail);
            assert(shorter.push(last) + tail =~= shorter + (seq![last] + tail));
            tail = before.skip(at - 1);
        }
        at -= 1;
    }
    proof {
        if at > 0 {
            assert(before.take(at as int).last() == before[at - 1]);
        }
    }
    tags.insert(at, tag);
    assert(tags@ =~= before.take(at as int).push(tag) + tail);
}

fn collect_tagged(members: &Vec<(i32, usize)>, tag: i32) -> (found: Vec<usize>)
    ensures
        found@ == tagged(members@, tag, members@.len() as int),
{
    let mut found: Vec<usize> = Vec::new();
    let mut at: usize = 0;
    while at < members.len()
        invariant
            at <= members@.len(),
            found@ == tagged(members@, tag, at as int),
        decreases members@.len() - at,
    {
        if members[at].0 == tag {
            found.push(members[at].1);
        }
        at += 1;
    }
    found
}

/// The zones of members, by increasing tags.
pub fn group_by_tag(members: &Vec<(i32, usize)>) -> (zones: Vec<Zone>)
    ensures
        zone_views(zones@) == zones_of(members@),
{
    let mut tags: Vec<i32> = Vec::new();
    let mut at: usize = 0;
    while at < members.len()
        invariant
            at <= members@.len(),
            tags@ == sorted_tags(members@, at as int),
        decreases members@.len() - at,
    {
        insert_tag(&mut tags, members[at].0);
        at += 1;
    }
    let ghost wanted = zones_of(members@);
    let mut zones: Vec<Zone> = Vec::new();
    let mut at: usize = 0;
    assert(zone_views(zones@) =~= wanted.take(0));
    while at < tags.len()
        invariant
            at <= tags@.len(),
            tags@ == sorted_tags(members@, members@.len() as int),
            wanted == zones_of(members@),
            zone_views(zones@) == wanted.take(at as int),
        decreases tags@.len() - at,
    {
        let ghost earlier = zone_views(zones@);
        zones.push(Zone { tag: tags[at], members: collect_tagged(members, tags[at]) });
        assert(zone_views(zones@) =~= earlier.push(wanted[at as int]));
        assert(wanted.take(at + 1) =~= earlier.push(wanted[at as int]));
        at += 1;
    }
    assert(wanted.take(at as int) =~= wanted);
    zones
}

/// The cells with their tags.
pub open spec fn cell_members(cells: Seq<Cell>) -> Seq<(i32, usize)> {
    Seq::new(cells.len(), |i: int| (cells[i].physical_tag, i as usize))
}

/// The zones of the cells.
pub fn cell_zones(cells: &Vec<Cell>) -> (zones: Vec<Zone>)
    ensures
        zone_views(zones@) == zones_of(cell_members(cells@)),
{
    let ghost wanted = cell_members(cells@);
    let mut members: Vec<(i32, usize)> = Vec::new();
    let mut at: usize = 0;
    while at < cells.len()
        invariant
            at <= cells@.len(),
            wanted == cell_members(cells@),
            members@ == wanted.take(at as int),
        decreases cells@.len() - at,
    {
        members.push((cells[at].physical_tag, at));
        assert(members@ =~= wanted.take(at + 1));
        at += 1;
    }
    assert(members@ =~= wanted);
    group_by_tag(&members)
}

/// The first `n` boundary faces that are faces of cells and have a place in
/// the order, with their tags.
pub open spec fn face_members(
    boundary: Seq<BoundaryFace>,
    keys: Seq<Seq<usize>>,
    labels: Seq<Option<usize>>,
    n: int,
) -> Seq<(i32, usize)>
    decreases n,
{
    if n <= 0 {
        Seq::empty()
    } else {
        let earlier = face_members(boundary, keys, labels, n - 1);
        match face_keys::place_of(keys, face_keys::face_key(boundary[n - 1].nodes@)) {
            Some(at) => match labels[at] {
                Some(label) => earlier.push((boundary[n - 1].physical_tag, label)),
                None => earlier,
            },
            None => earlier,
        }
    }
}

fn index_faces(faces: &Vec<FaceRecord>) -> (index: KeyIndex)
    requires
        face_keys::distinct(topology::keys_of(topology::shapes(faces@))),
    ensures
        index.valid(),
        index@ == topology::keys_of(topology::shapes(faces@)),
{
    let ghost keys = topology::keys_of(topology::shapes(faces@));
    let mut index = KeyIndex::new();
    let mut at: usize = 0;
    assert(index@ =~= keys.take(0));
    while at < faces.len()
        invariant
            at <= faces@.len(),
            keys == topology::keys_of(topology::shapes(faces@)),
            face_keys::distinct(keys),
            index.valid(),
            index@ == keys.take(at as int),
        decreases faces@.len() - at,
    {
        let key = face_keys::key_from_nodes(faces[at].nodes.as_slice());
        proof {
            assert(key@ == keys[at as int]);
            assert forall|i: int| 0 <= i < index@.len() implies #[trigger] index@[i] != key@ by {
                assert(index@[i] == keys[i]);
            }
            face_keys::lemma_no_place(index@, key@, 0);
        }
        index.push(key);
        assert(index@ =~= keys.take(at + 1));
        at += 1;
    }
    assert(keys.take(at as int) =~= keys);
    index
}

/// The zones of the boundary faces; `labels` are the places of the faces in
/// the order in which they are written.
pub fn face_zones(
    boundary: &Vec<BoundaryFace>,
    faces: &Vec<FaceRecord>,
    labels: &Vec<Option<usize>>,
) -> (zones: Vec<Zone>)
    requires
        face_keys::distinct(topology::keys_of(topology::shapes(faces@))),
        labels@.len() == faces@.len(),
    ensures
        zone_views(zones@) == zones_of(
            face_members(
                boundary@,
                topology::keys_of(topology::shapes(faces@)),
                labels@,
                boundary@.len() as int,
            ),
        ),
{
    let index = index_faces(faces);
    let ghost keys = topology::keys_of(topology::shapes(faces@));
    let mut members: Vec<(i32, usize)> = Vec::new();
    let mut at: usize = 0;
    while at < boundary.len()
        invariant
            at <= boundary@.len(),
            index.valid(),
            index@ == keys,
            keys.len() == labels@.len(),
            members@ == face_members(boundary@, keys, labels@, at as int),
        decreases boundary@.len() - at,
    {
        let key = face_keys::key_from_nodes(boundary[at].nodes.as_slice());
        if let Some(place) = index.find(&key) {
            if let Some(label) = labels[place] {
                members.push((boundary[at].physical_tag, label));
            }
        }
        at += 1;
    }
    group_by_tag(&members)
}

/// A zone holds only members of its tag, in their order, and there is a zone only
/// for a tag that a member has.
pub proof fn zones_hold_nothing_else(members: Seq<(i32, usize)>, tag: i32, n: int)
    requires
        0 <= n <= members.len(),
    ensures
        forall|k: int|
            0 <= k < tagged(members, tag, n).len() ==> exists|i: int|
                0 <= i < n && (#[trigger] members[i]).0 == tag && members[i].1
                    == #[trigger] tagged(members, tag, n)[k],
        sorted_tags(members, n).contains(tag) ==> exists|i: int|
            0 <= i < n && (#[trigger] members[i]).0 == tag,
    decreases n,
{
    if n > 0 {
        zones_hold_nothing_else(members, tag, n - 1);
        zones_are_complete(members, n - 1);
        lemma_tag_inserted(sorted_tags(members, n - 1), members[n - 1].0);
        let now = tagged(members, tag, n);
        let before = tagged(members, tag, n - 1);
        assert forall|k: int| 0 <= k < now.len() implies exists|i: int|
            0 <= i < n && (#[trigger] members[i]).0 == tag && members[i].1 == #[trigger] now[k] by {
            if k < before.len() {
                assert(now[k] == before[k]);
                let i = choose|i: int|
                    0 <= i < n - 1 && (#[trigger] members[i]).0 == tag && members[i].1 == before[k];
                assert(members[i].0 == tag && members[i].1 == now[k]);
            } else {
                assert(members[n - 1].0 == tag && members[n - 1].1 == now[k]);
            }
        }
        if sorted_tags(members, n).contains(tag) {
            let tags = sorted_tags(members, n);
            let k = choose|k: int| 0 <= k < tags.len() && tags[k] == tag;
            if tags[k] == members[n - 1].0 {
                assert(members[n - 1].0 == tag);
            } else {
                assert(sorted_tags(members, n - 1).contains(tag));
                let i = choose|i: int| 0 <= i < n - 1 && (#[trigger] members[i]).0 == tag;
                assert(members[i].0 == tag);
            }
        }
    }
}

/// Every cell is in the zone of its own tag.
pub proof fn cell_is_in_its_zone(cells: Seq<Cell>, at: int)
    requires
        0 <= at < cells.len(),
        cells.len() <= usize::MAX,
    ensures
        tagged(cell_members(cells), cells[at].physical_tag, cells.len() as int).contains(
            at as usize,
        ),
{
    let members = cell_members(cells);
    assert(members[at] == (cells[at].physical_tag, at as usize));
    member_is_tagged(members, at, cells.len() as int);
}

} // verus!
