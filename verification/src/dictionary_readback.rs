//! That the entries and blocks that the tokens of a dictionary spell are what is
//! read.

use crate::backends;
use crate::backends::{BackendChoice, BackendSectionView, BackendView};
use crate::control;
use crate::control::ControlView;
use crate::dictionary::Stream;
use crate::error::Failure;
use crate::reals::{RealView, Readings};
use crate::sections;
use crate::sections::{EntryView, SectionView};
use crate::token_readback;
use vstd::prelude::*;

verus! {

/// The tokens that spell an entry.
pub open spec fn entry_tokens(entry: EntryView) -> Seq<Seq<char>> {
    seq![entry.key] + entry.value + seq![";"@]
}

/// The tokens that spell entries.
pub open spec fn entries_tokens(entries: Seq<EntryView>) -> Seq<Seq<char>>
    decreases entries.len(),
{
    if entries.len() == 0 {
        Seq::empty()
    } else {
        entry_tokens(entries[0]) + entries_tokens(entries.skip(1))
    }
}

/// The tokens that spell a block behind its name: its entries, then its blocks.
pub open spec fn block_tokens(section: SectionView) -> Seq<Seq<char>>
    decreases section, 0nat,
{
    seq!["{"@] + (entries_tokens(section.entries) + (blocks_tokens(section.sections) + seq!["}"@]))
}

/// The tokens that spell blocks with their names.
pub open spec fn blocks_tokens(found: Seq<SectionView>) -> Seq<Seq<char>>
    decreases found, 1nat,
{
    if found.len() == 0 {
        Seq::empty()
    } else {
        (seq![found[0].name] + block_tokens(found[0])) + blocks_tokens(found.skip(1))
    }
}

/// Whether a word can be a key or the name of a block.
pub open spec fn is_key(s: Seq<char>) -> bool {
    s != ";"@ && s != "}"@ && s != "{"@
}

/// Whether an entry can be spelled: its value ends where its semicolon stands.
pub open spec fn is_entry(entry: EntryView) -> bool {
    &&& is_key(entry.key)
    &&& token_readback::fits(entry.value, 0)
    &&& entry.value.len() > 0 ==> entry.value[0] != "{"@
}

/// Whether entries can be spelled.
pub open spec fn are_entries(entries: Seq<EntryView>) -> bool {
    forall|i: int| 0 <= i < entries.len() ==> is_entry(#[trigger] entries[i])
}

/// Whether a block can be spelled, with at most `room` blocks inside one another
/// where there is a limit.
pub open spec fn is_block(section: SectionView, room: Option<nat>) -> bool
    decreases section, 0nat,
{
    &&& is_key(section.name)
    &&& are_entries(section.entries)
    &&& room != Some(0nat)
    &&& are_blocks(
        section.sections,
        match room {
            Some(levels) => Some((levels - 1) as nat),
            None => None,
        },
    )
}

/// Whether blocks can be spelled.
pub open spec fn are_blocks(found: Seq<SectionView>, room: Option<nat>) -> bool
    decreases found, 1nat,
{
    if found.len() == 0 {
        true
    } else {
        is_block(found[0], room) && are_blocks(found.skip(1), room)
    }
}

proof fn lemma_first_block(found: Seq<SectionView>, room: Option<nat>)
    requires
        are_blocks(found, room),
        found.len() > 0,
    ensures
        is_block(found[0], room),
        is_key(found[0].name),
        are_blocks(found.skip(1), room),
        blocks_tokens(found) == (seq![found[0].name] + block_tokens(found[0])) + blocks_tokens(
            found.skip(1),
        ),
        blocks_tokens(found)[0] == found[0].name,
        block_tokens(found[0]).len() > 0,
        block_tokens(found[0])[0] == "{"@,
{
    lemma_block_key(found[0], room);
}

proof fn lemma_block_key(section: SectionView, room: Option<nat>)
    requires
        is_block(section, room),
    ensures
        is_key(section.name),
        are_entries(section.entries),
{
}

proof fn lemma_entry_value(s: Stream, entry: EntryView, tail: Seq<Seq<char>>)
    requires
        is_entry(entry),
        token_readback::comes_next(s, entry_tokens(entry) + tail),
    ensures
        !s.ended(),
        s.value() == entry.key,
        !s.next().peeks("{"@),
        s.next().value_tokens(0) == entry.value,
        s.next().value_end(0) == token_readback::ahead(s, entry_tokens(entry).len()),
        token_readback::comes_next(
            token_readback::ahead(s, entry_tokens(entry).len()),
            tail,
        ),
{
    let all = entry_tokens(entry);
    token_readback::lemma_take_part(s, all, tail);
    token_readback::lemma_take_one(s, all);
    let rest = entry.value + seq![";"@];
    assert(all.skip(1) =~= rest);
    assert(all[0] == entry.key);
    token_readback::lemma_value(s.next(), entry.value, 0);
    token_readback::lemma_take_one(s.next(), rest);
    reveal_strlit(";");
    reveal_strlit("{");
    assert(";"@[0] != "{"@[0]);
    assert(rest[0] == (if entry.value.len() > 0 {
        entry.value[0]
    } else {
        ";"@
    }));
}

proof fn lemma_entries(
    s: Stream,
    name: Seq<char>,
    depth: nat,
    limit: Option<nat>,
    done: Seq<EntryView>,
    found: Seq<SectionView>,
    entries: Seq<EntryView>,
    tail: Seq<Seq<char>>,
)
    requires
        are_entries(entries),
        token_readback::comes_next(s, entries_tokens(entries) + tail),
    ensures
        sections::section_body(s, name, depth, limit, done, found) == sections::section_body(
            token_readback::ahead(s, entries_tokens(entries).len()),
            name,
            depth,
            limit,
            done + entries,
            found,
        ),
        token_readback::comes_next(
            token_readback::ahead(s, entries_tokens(entries).len()),
            tail,
        ),
    decreases entries.len(),
{
    if entries.len() == 0 {
        assert(done + entries =~= done);
        assert(entries_tokens(entries) + tail =~= tail);
        assert(token_readback::ahead(s, 0) == s);
    } else {
        let entry = entries[0];
        let rest = entries.skip(1);
        let after = entries_tokens(rest) + tail;
        assert(entries_tokens(entries) + tail =~= entry_tokens(entry) + after);
        assert(is_entry(entry));
        lemma_entry_value(s, entry, after);
        let next = token_readback::ahead(s, entry_tokens(entry).len());
        assert forall|i: int| 0 <= i < rest.len() implies is_entry(#[trigger] rest[i]) by {
            assert(rest[i] == entries[i + 1]);
        }
        lemma_entries(next, name, depth, limit, done.push(entry), found, rest, tail);
        assert(EntryView { key: s.value(), value: s.next().value_tokens(0) } == entry);
        assert(done.push(entry) + rest =~= done + entries);
        assert(token_readback::ahead(next, entries_tokens(rest).len()) == token_readback::ahead(
            s,
            entries_tokens(entries).len(),
        ));
    }
}

proof fn lemma_block(
    s: Stream,
    section: SectionView,
    depth: nat,
    limit: Option<nat>,
    room: Option<nat>,
    tail: Seq<Seq<char>>,
)
    requires
        is_block(section, room),
        limit is None ==> room is None,
        limit is Some ==> room is Some && depth + room->0 == limit->0 + 1,
        token_readback::comes_next(s, block_tokens(section) + tail),
        !token_readback::ahead(s, block_tokens(section).len()).peeks(";"@),
    ensures
        sections::section_at(s, section.name, depth, limit) == Ok::<(SectionView, Stream), Failure>(
            (section, token_readback::ahead(s, block_tokens(section).len())),
        ),
        token_readback::comes_next(token_readback::ahead(s, block_tokens(section).len()), tail),
    decreases section, 0nat,
{
    let all = block_tokens(section);
    let inner = blocks_tokens(section.sections) + seq!["}"@];
    let body = entries_tokens(section.entries) + inner;
    token_readback::lemma_take_part(s, all, tail);
    token_readback::lemma_take_one(s, all);
    assert(all[0] == "{"@);
    assert(all.skip(1) =~= body);
    let start = s.next();
    lemma_entries(
        start,
        section.name,
        depth,
        limit,
        Seq::empty(),
        Seq::empty(),
        section.entries,
        inner,
    );
    assert(Seq::<EntryView>::empty() + section.entries =~= section.entries);
    let middle = token_readback::ahead(start, entries_tokens(section.entries).len());
    let less: Option<nat> = match room {
        Some(levels) => Some((levels - 1) as nat),
        None => None,
    };
    reveal_strlit("}");
    reveal_strlit(";");
    assert("}"@[0] != ";"@[0]);
    lemma_blocks(
        middle,
        section.name,
        depth,
        limit,
        less,
        section.entries,
        Seq::empty(),
        section.sections,
        seq!["}"@],
    );
    assert(Seq::<SectionView>::empty() + section.sections =~= section.sections);
    let end = token_readback::ahead(middle, blocks_tokens(section.sections).len());
    token_readback::lemma_take_one(end, seq!["}"@]);
    assert(end.next() == token_readback::ahead(s, all.len()));
}

proof fn lemma_blocks(
    s: Stream,
    name: Seq<char>,
    depth: nat,
    limit: Option<nat>,
    room: Option<nat>,
    entries: Seq<EntryView>,
    done: Seq<SectionView>,
    found: Seq<SectionView>,
    tail: Seq<Seq<char>>,
)
    requires
        are_blocks(found, room),
        limit is None ==> room is None,
        limit is Some ==> room is Some && depth + room->0 == limit->0,
        token_readback::comes_next(s, blocks_tokens(found) + tail),
        tail.len() > 0,
        tail[0] != ";"@,
    ensures
        sections::section_body(s, name, depth, limit, entries, done) == sections::section_body(
            token_readback::ahead(s, blocks_tokens(found).len()),
            name,
            depth,
            limit,
            entries,
            done + found,
        ),
        token_readback::comes_next(token_readback::ahead(s, blocks_tokens(found).len()), tail),
    decreases found, 1nat,
{
    if found.len() == 0 {
        assert(done + found =~= done);
        assert(blocks_tokens(found) + tail =~= tail);
        assert(token_readback::ahead(s, 0) == s);
    } else {
        let section = found[0];
        let rest = found.skip(1);
        let after = blocks_tokens(rest) + tail;
        let head = seq![section.name] + block_tokens(section);
        lemma_first_block(found, room);
        assert(blocks_tokens(found) + tail =~= head + after);
        token_readback::lemma_take_part(s, head, after);
        token_readback::lemma_take_one(s, head + after);
        assert((head + after)[0] == section.name);
        assert((head + after).skip(1) =~= block_tokens(section) + after);
        token_readback::lemma_take_one(s.next(), block_tokens(section) + after);
        assert((block_tokens(section) + after)[0] == "{"@);
        let next = token_readback::ahead(s, head.len());
        assert(token_readback::ahead(s.next(), block_tokens(section).len()) == next);
        token_readback::lemma_take_one(next, after);
        assert(after[0] != ";"@) by {
            if rest.len() > 0 {
                lemma_first_block(rest, room);
                assert(after[0] == rest[0].name);
            } else {
                assert(after[0] == tail[0]);
            }
        }
        lemma_block(s.next(), section, depth + 1, limit, room, after);
        lemma_blocks(next, name, depth, limit, room, entries, done.push(section), rest, tail);
        assert(done.push(section) + rest =~= done + found);
        assert(token_readback::ahead(next, blocks_tokens(rest).len()) == token_readback::ahead(
            s,
            blocks_tokens(found).len(),
        ));
    }
}

/// The tokens of a block, its blocks inside one another included, are read as that
/// block, and the stream stands behind it.
pub proof fn block_is_read(
    s: Stream,
    section: SectionView,
    depth: nat,
    limit: Option<nat>,
    tail: Seq<Seq<char>>,
)
    requires
        is_block(
            section,
            match limit {
                Some(levels) => Some((levels + 1 - depth) as nat),
                None => None,
            },
        ),
        limit is Some ==> depth <= limit->0,
        token_readback::comes_next(s, block_tokens(section) + tail),
        !token_readback::ahead(s, block_tokens(section).len()).peeks(";"@),
    ensures
        sections::section_at(s, section.name, depth, limit) == Ok::<(SectionView, Stream), Failure>(
            (section, token_readback::ahead(s, block_tokens(section).len())),
        ),
{
    let room: Option<nat> = match limit {
        Some(levels) => Some((levels + 1 - depth) as nat),
        None => None,
    };
    lemma_block(s, section, depth, limit, room, tail);
}

/// The entries and blocks that the tokens of a dictionary file spell are read, in
/// their order.
pub proof fn dictionary_is_read(
    s: Stream,
    limit: Option<nat>,
    entries: Seq<EntryView>,
    found: Seq<SectionView>,
)
    requires
        are_entries(entries),
        are_blocks(found, limit),
        forall|i: int| 0 <= i < entries.len() ==> (#[trigger] entries[i]).key != "FoamFile"@,
        forall|i: int| 0 <= i < found.len() ==> (#[trigger] found[i]).name != "FoamFile"@,
        token_readback::comes_next(s, entries_tokens(entries) + blocks_tokens(found)),
        s.at + entries_tokens(entries).len() + blocks_tokens(found).len() == s.tokens.len(),
    ensures
        sections::file_body(s, limit, Seq::empty(), Seq::empty()) == Ok::<
            (Seq<EntryView>, Seq<SectionView>),
            Failure,
        >((entries, found)),
{
    lemma_file_entries(s, limit, Seq::empty(), entries, blocks_tokens(found));
    let middle = token_readback::ahead(s, entries_tokens(entries).len());
    assert(Seq::<EntryView>::empty() + entries =~= entries);
    assert(blocks_tokens(found) + Seq::<Seq<char>>::empty() =~= blocks_tokens(found));
    lemma_file_blocks(middle, limit, entries, Seq::empty(), found);
    assert(Seq::<SectionView>::empty() + found =~= found);
}

proof fn lemma_file_entries(
    s: Stream,
    limit: Option<nat>,
    done: Seq<EntryView>,
    entries: Seq<EntryView>,
    tail: Seq<Seq<char>>,
)
    requires
        are_entries(entries),
        forall|i: int| 0 <= i < entries.len() ==> (#[trigger] entries[i]).key != "FoamFile"@,
        token_readback::comes_next(s, entries_tokens(entries) + tail),
    ensures
        sections::file_body(s, limit, done, Seq::empty()) == sections::file_body(
            token_readback::ahead(s, entries_tokens(entries).len()),
            limit,
            done + entries,
            Seq::empty(),
        ),
        token_readback::comes_next(
            token_readback::ahead(s, entries_tokens(entries).len()),
            tail,
        ),
    decreases entries.len(),
{
    if entries.len() == 0 {
        assert(done + entries =~= done);
        assert(entries_tokens(entries) + tail =~= tail);
        assert(token_readback::ahead(s, 0) == s);
    } else {
        let entry = entries[0];
        let rest = entries.skip(1);
        let after = entries_tokens(rest) + tail;
        assert(entries_tokens(entries) + tail =~= entry_tokens(entry) + after);
        assert(is_entry(entry));
        lemma_entry_value(s, entry, after);
        let next = token_readback::ahead(s, entry_tokens(entry).len());
        assert forall|i: int| 0 <= i < rest.len() implies is_entry(#[trigger] rest[i])
            && rest[i].key != "FoamFile"@ by {
            assert(rest[i] == entries[i + 1]);
        }
        lemma_file_entries(next, limit, done.push(entry), rest, tail);
        assert(EntryView { key: s.value(), value: s.next().value_tokens(0) } == entry);
        assert(done.push(entry) + rest =~= done + entries);
        assert(token_readback::ahead(next, entries_tokens(rest).len()) == token_readback::ahead(
            s,
            entries_tokens(entries).len(),
        ));
    }
}

proof fn lemma_file_blocks(
    s: Stream,
    limit: Option<nat>,
    entries: Seq<EntryView>,
    done: Seq<SectionView>,
    found: Seq<SectionView>,
)
    requires
        are_blocks(found, limit),
        forall|i: int| 0 <= i < found.len() ==> (#[trigger] found[i]).name != "FoamFile"@,
        token_readback::comes_next(s, blocks_tokens(found)),
        s.at + blocks_tokens(found).len() == s.tokens.len(),
    ensures
        sections::file_body(s, limit, entries, done) == Ok::<
            (Seq<EntryView>, Seq<SectionView>),
            Failure,
        >((entries, done + found)),
    decreases found.len(),
{
    if found.len() == 0 {
        assert(done + found =~= done);
    } else {
        let section = found[0];
        let rest = found.skip(1);
        let after = blocks_tokens(rest);
        let head = seq![section.name] + block_tokens(section);
        lemma_first_block(found, limit);
        token_readback::lemma_take_part(s, head, after);
        token_readback::lemma_take_one(s, head + after);
        assert((head + after)[0] == section.name);
        assert((head + after).skip(1) =~= block_tokens(section) + after);
        token_readback::lemma_take_one(s.next(), block_tokens(section) + after);
        assert((block_tokens(section) + after)[0] == "{"@);
        let next = token_readback::ahead(s, head.len());
        assert(token_readback::ahead(s.next(), block_tokens(section).len()) == next);
        assert(!next.peeks(";"@)) by {
            if rest.len() > 0 {
                token_readback::lemma_take_one(next, after);
                lemma_first_block(rest, limit);
                assert(after[0] == rest[0].name);
            }
        }
        lemma_block(s.next(), section, 1, limit, limit, after);
        assert(section.name != "FoamFile"@);
        assert forall|i: int| 0 <= i < rest.len() implies (#[trigger] rest[i]).name
            != "FoamFile"@ by {
            assert(rest[i] == found[i + 1]);
        }
        lemma_file_blocks(next, limit, entries, done.push(section), rest);
        assert(done.push(section) + rest =~= done + found);
    }
}

/// An entry of a control dictionary sets what its key names to its one word, or to
/// the number that this word denotes, and leaves all else; an entry with another key
/// changes nothing.
pub proof fn control_entry_is_taken(
    s: Stream,
    key: Seq<char>,
    value: Seq<char>,
    before: ControlView,
    readings: Readings,
    number: RealView,
)
    requires
        token_readback::comes_next(s, seq![key, value, ";"@]),
        token_readback::fits(seq![value], 0),
        key != "FoamFile"@,
    ensures
        ({
            let rest = token_readback::ahead(s, 3);
            let found = control::control_file(s, before, readings);
            &&& key == "application"@ ==> found == control::control_file(
                rest,
                ControlView { application: Some(value), ..before },
                readings,
            )
            &&& key == "startFrom"@ ==> found == control::control_file(
                rest,
                ControlView { start_from: Some(value), ..before },
                readings,
            )
            &&& key == "stopAt"@ ==> found == control::control_file(
                rest,
                ControlView { stop_at: Some(value), ..before },
                readings,
            )
            &&& key == "writeControl"@ ==> found == control::control_file(
                rest,
                ControlView { write_control: Some(value), ..before },
                readings,
            )
            &&& readings.number(value) == Some(number) ==> {
                &&& key == "startTime"@ ==> found == control::control_file(
                    rest,
                    ControlView { start_time: Some(number), ..before },
                    readings,
                )
                &&& key == "endTime"@ ==> found == control::control_file(
                    rest,
                    ControlView { end_time: Some(number), ..before },
                    readings,
                )
                &&& key == "deltaT"@ ==> found == control::control_file(
                    rest,
                    ControlView { delta_t: Some(number), ..before },
                    readings,
                )
                &&& key == "writeInterval"@ ==> found == control::control_file(
                    rest,
                    ControlView { write_interval: Some(number), ..before },
                    readings,
                )
            }
            &&& readings.number(value) is None && (key == "startTime"@ || key == "endTime"@ || key
                == "deltaT"@ || key == "writeInterval"@) ==> found is Err
            &&& key != "application"@ && key != "startFrom"@ && key != "stopAt"@ && key
                != "writeControl"@ && key != "startTime"@ && key != "endTime"@ && key != "deltaT"@
                && key != "writeInterval"@ ==> found == control::control_file(
                rest,
                before,
                readings,
            )
        }),
{
    let all = seq![key, value, ";"@];
    token_readback::lemma_take_one(s, all);
    assert(all.skip(1) =~= seq![value] + seq![";"@]);
    token_readback::lemma_value(s.next(), seq![value], 0);
    assert(s.next().value_end(0) == token_readback::ahead(s, 3));
    reveal_strlit("application");
    reveal_strlit("startFrom");
    reveal_strlit("stopAt");
    reveal_strlit("writeControl");
    reveal_strlit("startTime");
    reveal_strlit("endTime");
    reveal_strlit("deltaT");
    reveal_strlit("writeInterval");
    assert("application"@.len() == 11 && "startFrom"@.len() == 9 && "stopAt"@.len() == 6);
    assert("writeControl"@.len() == 12 && "startTime"@.len() == 9 && "endTime"@.len() == 7);
    assert("deltaT"@.len() == 6 && "writeInterval"@.len() == 13);
    assert("startFrom"@[5] != "startTime"@[5]);
    assert("stopAt"@[0] != "deltaT"@[0]);
}

/// A control dictionary without entries sets nothing, and what was set stays.
pub proof fn empty_control_sets_nothing(s: Stream, before: ControlView, readings: Readings)
    requires
        s.ended(),
    ensures
        control::control_file(s, before, readings) == Ok::<ControlView, Failure>(before),
        control::control_unset().application is None,
        control::control_unset().start_from is None,
        control::control_unset().start_time is None,
        control::control_unset().stop_at is None,
        control::control_unset().end_time is None,
        control::control_unset().delta_t is None,
        control::control_unset().write_control is None,
        control::control_unset().write_interval is None,
{
}

/// The default of a backend file is the choice that is named there; a part of the
/// case gets the choices of its own block, in their order. Other parts stay as they
/// are.
pub proof fn backend_entry_is_taken(
    s: Stream,
    before: BackendView,
    word: Seq<char>,
    part: Seq<char>,
    step: Seq<char>,
    choice: BackendChoice,
)
    requires
        backends::choice_of(word, s.path) == Ok::<BackendChoice, Failure>(choice),
        is_key(step),
    ensures
        token_readback::comes_next(s, seq!["default"@, word, ";"@]) ==> backends::backend_entry(
            s,
            before,
        ) == Ok::<(BackendView, Stream), Failure>(
            (BackendView { default: Some(choice), ..before }, token_readback::ahead(s, 3)),
        ),
        part != "default"@ && part != "gpu"@ && token_readback::comes_next(
            s,
            seq![part, "{"@, step, word, ";"@, "}"@],
        ) ==> backends::backend_entry(s, before) == Ok::<(BackendView, Stream), Failure>(
            (
                BackendView {
                    sections: before.sections.push(
                        BackendSectionView { name: part, entries: seq![(step, choice)] },
                    ),
                    ..before
                },
                token_readback::ahead(s, 6),
            ),
        ),
{
    let first = seq!["default"@, word, ";"@];
    if token_readback::comes_next(s, first) {
        token_readback::lemma_take_one(s, first);
        token_readback::lemma_take_one(s.next(), first.skip(1));
        token_readback::lemma_take_one(s.next().next(), first.skip(1).skip(1));
        assert(first.skip(1)[0] == word);
        assert(first.skip(1).skip(1)[0] == ";"@);
    }
    let block = seq![part, "{"@, step, word, ";"@, "}"@];
    if part != "default"@ && part != "gpu"@ && token_readback::comes_next(s, block) {
        token_readback::lemma_take_one(s, block);
        let a = block.skip(1);
        token_readback::lemma_take_one(s.next(), a);
        let b = a.skip(1);
        let inside = s.next().next();
        token_readback::lemma_take_one(inside, b);
        let c = b.skip(1);
        token_readback::lemma_take_one(inside.next(), c);
        let d = c.skip(1);
        token_readback::lemma_take_one(inside.next().next(), d);
        let e = d.skip(1);
        token_readback::lemma_take_one(inside.next().next().next(), e);
        assert(a[0] == "{"@ && b[0] == step && c[0] == word && d[0] == ";"@ && e[0] == "}"@);
        let none = Seq::<(Seq<char>, BackendChoice)>::empty();
        let one = none.push((step, choice));
        assert(one =~= seq![(step, choice)]);
        let last = inside.next().next().next();
        assert(backends::section_block(last, one) == Ok::<
            (Seq<(Seq<char>, BackendChoice)>, Stream),
            Failure,
        >((one, last.next())));
        assert(backends::section_block(inside, none) == backends::section_block(last, one));
    }
}

} // verus!
