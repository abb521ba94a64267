//! The order of the files of a case.

use crate::fields::FieldFile;
use crate::properties::PropertyDictionary;
use crate::text;
use vstd::prelude::*;

verus! {

/// What a file is ordered by: its region, then its name, then its path.
#[derive(Debug)]
pub struct FileKey {
    pub region: Option<String>,
    pub name: String,
    pub path: String,
}

/// The mathematical view of a [`FileKey`].
pub struct FileKeyView {
    pub region: Option<Seq<char>>,
    pub name: Seq<char>,
    pub path: Seq<char>,
}

impl View for FileKey {
    type V = FileKeyView;

    open spec fn view(&self) -> FileKeyView {
        FileKeyView { region: text::opt_text(self.region), name: self.name@, path: self.path@ }
    }
}

/// The views of keys.
pub open spec fn key_views(keys: Seq<FileKey>) -> Seq<FileKeyView> {
    Seq::new(keys.len(), |i: int| keys[i]@)
}

/// The keys of field files.
pub open spec fn field_keys(fields: Seq<FieldFile>) -> Seq<FileKeyView> {
    Seq::new(
        fields.len(),
        |i: int|
            FileKeyView {
                region: text::opt_text(fields[i].region),
                name: fields[i].name@,
                path: fields[i].path@,
            },
    )
}

/// The keys of property dictionaries.
pub open spec fn dictionary_keys(dictionaries: Seq<PropertyDictionary>) -> Seq<FileKeyView> {
    Seq::new(
        dictionaries.len(),
        |i: int|
            FileKeyView {
                region: text::opt_text(dictionaries[i].region),
                name: dictionaries[i].name@,
                path: dictionaries[i].path@,
            },
    )
}

/// Whether a region comes before another; the case itself comes first.
pub open spec fn region_before(left: Option<Seq<char>>, right: Option<Seq<char>>) -> bool {
    match (left, right) {
        (None, Some(_)) => true,
        (Some(first), Some(second)) => text::precedes(first, second),
        _ => false,
    }
}

/// Whether a file comes before another.
pub open spec fn comes_before(left: FileKeyView, right: FileKeyView) -> bool {
    ||| region_before(left.region, right.region)
    ||| left.region == right.region && text::precedes(left.name, right.name)
    ||| left.region == right.region && left.name == right.name && text::precedes(
        left.path,
        right.path,
    )
}

/// An order with `at` in its place: behind all that do not come after it.
pub open spec fn placed(keys: Seq<FileKeyView>, order: Seq<usize>, at: usize) -> Seq<usize>
    decreases order.len(),
{
    if order.len() == 0 || !comes_before(keys[at as int], keys[order.last() as int]) {
        order.push(at)
    } else {
        placed(keys, order.drop_last(), at).push(order.last())
    }
}

/// The order of the first `n` files.
pub open spec fn order_of(keys: Seq<FileKeyView>, n: int) -> Seq<usize>
    decreases n,
{
    if n <= 0 {
        Seq::empty()
    } else {
        placed(keys, order_of(keys, n - 1), (n - 1) as usize)
    }
}

/// Whether no file of an order comes before an earlier one.
pub open spec fn in_order(keys: Seq<FileKeyView>, order: Seq<usize>) -> bool {
    forall|i: int, j: int|
        0 <= i < j < order.len() ==> !comes_before(
            keys[#[trigger] order[j] as int],
            keys[#[trigger] order[i] as int],
        )
}

/// How often a place stands in an order.
pub open spec fn times(order: Seq<usize>, at: int) -> nat
    decreases order.len(),
{
    if order.len() == 0 {
        0
    } else {
        times(order.drop_last(), at) + if order.last() == at {
            1nat
        } else {
            0
        }
    }
}

proof fn lemma_transitive(first: FileKeyView, second: FileKeyView, third: FileKeyView)
    requires
        comes_before(first, second),
        !comes_before(third, second),
    ensures
        comes_before(first, third),
{
    lemma_total(third, second);
    if third != second {
        lemma_chain(first, second, third);
    }
}

proof fn lemma_chain(first: FileKeyView, second: FileKeyView, third: FileKeyView)
    requires
        comes_before(first, second),
        comes_before(second, third),
    ensures
        comes_before(first, third),
{
    match (first.region, second.region, third.region) {
        (Some(a), Some(b), Some(c)) => {
            if text::precedes(a, b) && text::precedes(b, c) {
                text::order_is_transitive(a, b, c);
            }
        },
        _ => {},
    }
    if text::precedes(first.name, second.name) && text::precedes(second.name, third.name) {
        text::order_is_transitive(first.name, second.name, third.name);
    }
    if text::precedes(first.path, second.path) && text::precedes(second.path, third.path) {
        text::order_is_transitive(first.path, second.path, third.path);
    }
}

proof fn lemma_total(left: FileKeyView, right: FileKeyView)
    ensures
        left == right || comes_before(left, right) || comes_before(right, left),
        comes_before(left, right) ==> !comes_before(right, left),
{
    match (left.region, right.region) {
        (Some(a), Some(b)) => {
            text::order_is_total(a, b);
            text::order_is_strict(a);
        },
        _ => {},
    }
    text::order_is_total(left.name, right.name);
    text::order_is_strict(left.name);
    text::order_is_total(left.path, right.path);
    text::order_is_strict(left.path);
}

proof fn lemma_placed(keys: Seq<FileKeyView>, order: Seq<usize>, at: usize)
    requires
        in_order(keys, order),
    ensures
        in_order(keys, placed(keys, order, at)),
        placed(keys, order, at).len() == order.len() + 1,
        forall|i: int|
            0 <= i < placed(keys, order, at).len() ==> order.contains(
                #[trigger] placed(keys, order, at)[i],
            ) || placed(keys, order, at)[i] == at,
        forall|place: int|
            #[trigger] times(placed(keys, order, at), place) == times(order, place) + if place == at {
                1nat
            } else {
                0
            },
    decreases order.len(),
{
    let all = placed(keys, order, at);
    if order.len() == 0 || !comes_before(keys[at as int], keys[order.last() as int]) {
        assert(all.drop_last() =~= order);
        assert forall|i: int, j: int| 0 <= i < j < all.len() implies !comes_before(
            keys[#[trigger] all[j] as int],
            keys[#[trigger] all[i] as int],
        ) by {
            if j == order.len() {
                let last = keys[order.last() as int];
                let inner = keys[order[i] as int];
                if i < order.len() - 1 {
                    assert(!comes_before(
                        keys[order[order.len() - 1] as int],
                        keys[order[i] as int],
                    ));
                    if comes_before(keys[at as int], inner) {
                        lemma_transitive(keys[at as int], inner, last);
                    }
                }
            } else {
                assert(all[i] == order[i] && all[j] == order[j]);
            }
        }
        assert forall|i: int| 0 <= i < all.len() implies order.contains(#[trigger] all[i]) || all[i]
            == at by {
            if i < order.len() {
                assert(all[i] == order[i]);
            }
        }
    } else {
        let shorter = order.drop_last();
        assert forall|i: int, j: int| 0 <= i < j < shorter.len() implies !comes_before(
            keys[#[trigger] shorter[j] as int],
            keys[#[trigger] shorter[i] as int],
        ) by {
            assert(shorter[i] == order[i] && shorter[j] == order[j]);
        }
        lemma_placed(keys, shorter, at);
        let grown = placed(keys, shorter, at);
        let last = order.last();
        assert(all.drop_last() =~= grown);
        lemma_total(keys[at as int], keys[last as int]);
        assert forall|i: int, j: int| 0 <= i < j < all.len() implies !comes_before(
            keys[#[trigger] all[j] as int],
            keys[#[trigger] all[i] as int],
        ) by {
            if j < grown.len() {
                assert(all[i] == grown[i] && all[j] == grown[j]);
            } else {
                assert(all[i] == grown[i]);
                if grown[i] != at {
                    assert(shorter.contains(grown[i]));
                    let k = choose|k: int| 0 <= k < shorter.len() && shorter[k] == grown[i];
                    assert(order[k] == grown[i]);
                    assert(!comes_before(
                        keys[order[order.len() - 1] as int],
                        keys[order[k] as int],
                    ));
                }
            }
        }
        assert forall|i: int| 0 <= i < all.len() implies order.contains(#[trigger] all[i]) || all[i]
            == at by {
            if i < grown.len() {
                assert(all[i] == grown[i]);
                if grown[i] != at {
                    assert(shorter.contains(grown[i]));
                    let k = choose|k: int| 0 <= k < shorter.len() && shorter[k] == grown[i];
                    assert(order[k] == all[i]);
                }
            } else {
                assert(order[order.len() - 1] == all[i]);
            }
        }
        assert forall|place: int| #[trigger]
            times(all, place) == times(order, place) + if place == at {
                1nat
            } else {
                0
            } by {
            assert(times(grown, place) == times(shorter, place) + if place == at {
                1nat
            } else {
                0
            });
        }
    }
}

/// The files are put in order: no file stands before one that comes before it.
pub proof fn files_are_in_order(keys: Seq<FileKeyView>, n: int)
    requires
        0 <= n <= keys.len() <= usize::MAX,
    ensures
        in_order(keys, order_of(keys, n)),
    decreases n,
{
    if n > 0 {
        files_are_in_order(keys, n - 1);
        lemma_placed(keys, order_of(keys, n - 1), (n - 1) as usize);
    }
}

/// The order holds each file once and nothing else.
pub proof fn no_file_is_lost(keys: Seq<FileKeyView>, n: int, at: int)
    requires
        0 <= n <= keys.len() <= usize::MAX,
    ensures
        order_of(keys, n).len() == n,
        times(order_of(keys, n), at) == if 0 <= at < n {
            1nat
        } else {
            0
        },
    decreases n,
{
    if n > 0 {
        no_file_is_lost(keys, n - 1, at);
        files_are_in_order(keys, n - 1);
        lemma_placed(keys, order_of(keys, n - 1), (n - 1) as usize);
    }
}

fn is_region_before(left: &Option<String>, right: &Option<String>) -> (yes: bool)
    ensures
        yes == region_before(text::opt_text(*left), text::opt_text(*right)),
{
    match (left, right) {
        (None, Some(_)) => true,
        (Some(first), Some(second)) => text::text_before(first.as_str(), second.as_str()),
        _ => false,
    }
}

fn is_same_region(left: &Option<String>, right: &Option<String>) -> (yes: bool)
    ensures
        yes == (text::opt_text(*left) == text::opt_text(*right)),
{
    match (left, right) {
        (None, None) => true,
        (Some(first), Some(second)) => text::text_eq(first.as_str(), second.as_str()),
        _ => false,
    }
}

fn is_before(left: &FileKey, right: &FileKey) -> (yes: bool)
    ensures
        yes == comes_before(left@, right@),
{
    if is_region_before(&left.region, &right.region) {
        return true;
    }
    if !is_same_region(&left.region, &right.region) {
        return false;
    }
    if text::text_before(left.name.as_str(), right.name.as_str()) {
        return true;
    }
    text::text_eq(left.name.as_str(), right.name.as_str()) && text::text_before(
        left.path.as_str(),
        right.path.as_str(),
    )
}

fn place(keys: &Vec<FileKey>, order: &mut Vec<usize>, file: usize)
    requires
        file < keys@.len(),
        forall|i: int| 0 <= i < old(order)@.len() ==> #[trigger] old(order)@[i] < keys@.len(),
    ensures
        final(order)@ == placed(key_views(keys@), old(order)@, file),
        forall|i: int| 0 <= i < final(order)@.len() ==> #[trigger] final(order)@[i] < keys@.len(),
{
    let ghost views = key_views(keys@);
    let ghost before = order@;
    let mut at: usize = order.len();
    let ghost mut tail: Seq<usize> = Seq::empty();
    assert(before.take(at as int) =~= before);
    assert(placed(views, before, file) =~= placed(views, before.take(at as int), file) + tail);
    while at > 0 && is_before(&keys[file], &keys[order[at - 1]])
        invariant
            at <= before.len(),
            order@ == before,
            file < keys@.len(),
            views == key_views(keys@),
            forall|i: int| 0 <= i < before.len() ==> #[trigger] before[i] < keys@.len(),
            tail == before.skip(at as int),
            placed(views, before, file) == placed(views, before.take(at as int), file) + tail,
        decreases at,
    {
        proof {
            let part = before.take(at as int);
            let last = part.last();
            assert(last == before[at - 1]);
            assert(part.drop_last() =~= before.take(at - 1));
            let shorter = placed(views, before.take(at - 1), file);
            assert(before.skip(at - 1) =~= seq![last] + tail);
            assert(shorter.push(last) + tail =~= shorter + (seq![last] + tail));
            tail = before.skip(at - 1);
        }
        at -= 1;
    }
    proof {
        if at > 0 {
            assert(before.take(at as int).last() == before[at - 1]);
        }
    }
    order.insert(at, file);
    assert(order@ =~= before.take(at as int).push(file) + tail);
    assert forall|i: int| 0 <= i < order@.len() implies #[trigger] order@[i] < keys@.len() by {
        if i < at {
            assert(order@[i] == before[i]);
        } else if i > at {
            assert(order@[i] == before[i - 1]);
        }
    }
}

/// The order of files.
pub fn file_order(keys: &Vec<FileKey>) -> (order: Vec<usize>)
    ensures
        order@ == order_of(key_views(keys@), keys@.len() as int),
        forall|i: int| 0 <= i < order@.len() ==> #[trigger] order@[i] < keys@.len(),
{
    let mut order: Vec<usize> = Vec::new();
    let mut at: usize = 0;
    while at < keys.len()
        invariant
            at <= keys@.len(),
            order@ == order_of(key_views(keys@), at as int),
            forall|i: int| 0 <= i < order@.len() ==> #[trigger] order@[i] < keys@.len(),
        decreases keys@.len() - at,
    {
        place(keys, &mut order, at);
        at += 1;
    }
    order
}

/// The order of field files.
pub fn field_order(fields: &Vec<FieldFile>) -> (order: Vec<usize>)
    ensures
        order@ == order_of(field_keys(fields@), fields@.len() as int),
        forall|i: int| 0 <= i < order@.len() ==> #[trigger] order@[i] < fields@.len(),
{
    let mut keys: Vec<FileKey> = Vec::new();
    let mut at: usize = 0;
    while at < fields.len()
        invariant
            at <= fields@.len(),
            keys@.len() == at,
            forall|i: int| 0 <= i < at ==> #[trigger] keys@[i]@ == field_keys(fields@)[i],
        decreases fields@.len() - at,
    {
        let field = &fields[at];
        keys.push(
            FileKey {
                region: text::copy_opt(&field.region),
                name: field.name.clone(),
                path: field.path.clone(),
            },
        );
        at += 1;
    }
    assert(key_views(keys@) =~= field_keys(fields@));
    file_order(&keys)
}

/// The order of property dictionaries.
pub fn dictionary_order(dictionaries: &Vec<PropertyDictionary>) -> (order: Vec<usize>)
    ensures
        order@ == order_of(dictionary_keys(dictionaries@), dictionaries@.len() as int),
        forall|i: int| 0 <= i < order@.len() ==> #[trigger] order@[i] < dictionaries@.len(),
{
    let mut keys: Vec<FileKey> = Vec::new();
    let mut at: usize = 0;
    while at < dictionaries.len()
        invariant
            at <= dictionaries@.len(),
            keys@.len() == at,
            forall|i: int|
                0 <= i < at ==> #[trigger] keys@[i]@ == dictionary_keys(dictionaries@)[i],
        decreases dictionaries@.len() - at,
    {
        let dictionary = &dictionaries[at];
        keys.push(
            FileKey {
                region: text::copy_opt(&dictionary.region),
                name: dictionary.name.clone(),
                path: dictionary.path.clone(),
            },
        );
        at += 1;
    }
    assert(key_views(keys@) =~= dictionary_keys(dictionaries@));
    file_order(&keys)
}

} // verus!
