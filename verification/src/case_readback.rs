//! What the tokens of a written boundary and of written zones spell.

use crate::dictionary_readback;
use crate::field_readback;
use crate::foam_case;
use crate::json;
use crate::mesh;
use crate::mesh::PhysicalName;
use crate::ordering::PatchSummary;
use crate::sections::{EntryView, SectionView};
use crate::text;
use crate::token_readback;
use crate::zones::Zone;
use vstd::prelude::*;

verus! {

/// A patch as a block of a dictionary: its type, how many faces it has and where they
/// start.
pub open spec fn patch_block(patch: PatchSummary) -> SectionView {
    SectionView {
        name: patch.name@,
        entries: seq![
            EntryView { key: "type"@, value: seq![patch.patch_type@] },
            EntryView { key: "nFaces"@, value: seq![text::decimal(patch.faces as nat)] },
            EntryView { key: "startFace"@, value: seq![text::decimal(patch.start_face as nat)] },
        ],
        sections: Seq::empty(),
    }
}

/// The labels of a list, with their count in front and brackets around them.
pub open spec fn label_tokens(labels: Seq<usize>) -> Seq<Seq<char>> {
    seq![text::decimal(labels.len()), "("@] + Seq::new(
        labels.len(),
        |i: int| text::decimal(labels[i] as nat),
    ) + seq![")"@]
}

/// A zone of cells as a block of a dictionary.
pub open spec fn cell_zone_section(name: Seq<char>, zone: Zone) -> SectionView {
    SectionView {
        name,
        entries: seq![
            EntryView { key: "type"@, value: seq!["cellZone"@] },
            EntryView { key: "cellLabels"@, value: label_tokens(zone.members@) },
        ],
        sections: Seq::empty(),
    }
}

proof fn lemma_pushed(lines: Seq<Seq<char>>, line: Seq<char>)
    ensures
        token_readback::all_chunks(lines.push(line)) == token_readback::all_chunks(lines)
            + token_readback::chunks(line, Seq::empty()),
{
    assert(lines.push(line).drop_last() =~= lines);
}

proof fn lemma_word_line(n: nat, word: Seq<char>)
    requires
        token_readback::is_token(word),
    ensures
        token_readback::chunks(json::blanks(n) + word, Seq::empty()) == seq![word],
{
    token_readback::lemma_indent(n, word);
    token_readback::lemma_token(word);
}

proof fn lemma_mark_line(n: nat, ch: char)
    requires
        token_readback::is_mark(ch),
        !text::is_space(ch),
    ensures
        token_readback::chunks(json::blanks(n) + seq![ch], Seq::empty()) == seq![seq![ch]],
{
    token_readback::lemma_indent(n, seq![ch]);
    token_readback::lemma_mark(ch, Seq::empty());
    assert(seq![ch] + Seq::<char>::empty() =~= seq![ch]);
    assert(token_readback::chunks(Seq::<char>::empty(), Seq::empty()) =~= Seq::<
        Seq<char>,
    >::empty());
    assert(seq![seq![ch]] + Seq::<Seq<char>>::empty() =~= seq![seq![ch]]);
}

proof fn lemma_entry_line(n: nat, keyword: Seq<char>, value: Seq<char>)
    requires
        token_readback::is_token(keyword),
        token_readback::is_token(value),
    ensures
        token_readback::chunks(
            json::blanks(n) + (keyword + " "@ + value + ";"@),
            Seq::empty(),
        ) == dictionary_readback::entry_tokens(EntryView { key: keyword, value: seq![value] }),
{
    token_readback::lemma_indent(n, keyword + " "@ + value + ";"@);
    token_readback::lemma_token(value);
    token_readback::lemma_entry(keyword, value);
}

proof fn lemma_keywords()
    ensures
        token_readback::is_token("type"@),
        token_readback::is_token("nFaces"@),
        token_readback::is_token("startFace"@),
        "    "@ == json::blanks(4),
        "    {"@ == json::blanks(4) + seq!['{'],
        "    }"@ == json::blanks(4) + seq!['}'],
        "        type "@ == json::blanks(8) + ("type"@ + " "@),
        "        nFaces "@ == json::blanks(8) + ("nFaces"@ + " "@),
        "        startFace "@ == json::blanks(8) + ("startFace"@ + " "@),
        "{"@ == seq!['{'],
        "}"@ == seq!['}'],
{
    reveal_strlit("type");
    reveal_strlit("nFaces");
    reveal_strlit("startFace");
    reveal_strlit("    ");
    reveal_strlit("    {");
    reveal_strlit("    }");
    reveal_strlit("        type ");
    reveal_strlit("        nFaces ");
    reveal_strlit("        startFace ");
    reveal_strlit(" ");
    reveal_strlit("{");
    reveal_strlit("}");
    assert("    "@ =~= json::blanks(4));
    assert("    {"@ =~= json::blanks(4) + seq!['{']);
    assert("    }"@ =~= json::blanks(4) + seq!['}']);
    assert("        type "@ =~= json::blanks(8) + ("type"@ + " "@));
    assert("        nFaces "@ =~= json::blanks(8) + ("nFaces"@ + " "@));
    assert("        startFace "@ =~= json::blanks(8) + ("startFace"@ + " "@));
    assert("{"@ =~= seq!['{']);
    assert("}"@ =~= seq!['}']);
}

/// A written patch spells its name and a block with its type, the number of its faces
/// and the first of them.
pub proof fn written_patch_spells_its_block(patch: PatchSummary)
    requires
        token_readback::is_token(patch.name@),
        token_readback::is_token(patch.patch_type@),
    ensures
        token_readback::all_chunks(foam_case::patch_entry_block(patch)) == seq![patch.name@]
            + dictionary_readback::block_tokens(patch_block(patch)),
{
    lemma_keywords();
    let count = text::decimal(patch.faces as nat);
    let start = text::decimal(patch.start_face as nat);
    field_readback::lemma_decimal_token(patch.faces as nat);
    field_readback::lemma_decimal_token(patch.start_face as nat);
    let l0 = "    "@ + patch.name@;
    let l1 = "    {"@;
    let l2 = "        type "@ + patch.patch_type@ + ";"@;
    let l3 = "        nFaces "@ + count + ";"@;
    let l4 = "        startFace "@ + start + ";"@;
    let l5 = "    }"@;
    lemma_word_line(4, patch.name@);
    lemma_mark_line(4, '{');
    lemma_mark_line(4, '}');
    lemma_entry_line(8, "type"@, patch.patch_type@);
    lemma_entry_line(8, "nFaces"@, count);
    lemma_entry_line(8, "startFace"@, start);
    assert(l2 =~= json::blanks(8) + ("type"@ + " "@ + patch.patch_type@ + ";"@));
    assert(l3 =~= json::blanks(8) + ("nFaces"@ + " "@ + count + ";"@));
    assert(l4 =~= json::blanks(8) + ("startFace"@ + " "@ + start + ";"@));
    let none = Seq::<Seq<char>>::empty();
    lemma_pushed(none, l0);
    lemma_pushed(none.push(l0), l1);
    lemma_pushed(none.push(l0).push(l1), l2);
    lemma_pushed(none.push(l0).push(l1).push(l2), l3);
    lemma_pushed(none.push(l0).push(l1).push(l2).push(l3), l4);
    lemma_pushed(none.push(l0).push(l1).push(l2).push(l3).push(l4), l5);
    let block = patch_block(patch);
    let e0 = block.entries[0];
    let e1 = block.entries[1];
    let e2 = block.entries[2];
    lemma_entries_of_three(block.entries);
    assert(dictionary_readback::blocks_tokens(block.sections) =~= none);
    assert(token_readback::all_chunks(none) =~= none);
    assert(token_readback::all_chunks(foam_case::patch_entry_block(patch)) =~= seq![patch.name@]
        + seq!["{"@] + dictionary_readback::entry_tokens(e0) + dictionary_readback::entry_tokens(e1)
        + dictionary_readback::entry_tokens(e2) + seq!["}"@]);
    assert(dictionary_readback::block_tokens(block) =~= seq!["{"@]
        + dictionary_readback::entry_tokens(e0) + dictionary_readback::entry_tokens(e1)
        + dictionary_readback::entry_tokens(e2) + seq!["}"@]);
}

proof fn lemma_entries_of_three(entries: Seq<EntryView>)
    requires
        entries.len() == 3,
    ensures
        dictionary_readback::entries_tokens(entries) == dictionary_readback::entry_tokens(
            entries[0],
        ) + dictionary_readback::entry_tokens(entries[1]) + dictionary_readback::entry_tokens(
            entries[2],
        ),
{
    let a = entries.skip(1);
    let b = a.skip(1);
    let c = b.skip(1);
    assert(a[0] == entries[1] && b[0] == entries[2]);
    assert(c.len() == 0);
    assert(dictionary_readback::entries_tokens(c) =~= Seq::<Seq<char>>::empty());
    assert(dictionary_readback::entries_tokens(b) =~= dictionary_readback::entry_tokens(b[0]));
    assert(dictionary_readback::entries_tokens(a) =~= dictionary_readback::entry_tokens(a[0])
        + dictionary_readback::entry_tokens(b[0]));
    assert(dictionary_readback::entries_tokens(entries) =~= dictionary_readback::entry_tokens(
        entries[0],
    ) + dictionary_readback::entry_tokens(entries[1]) + dictionary_readback::entry_tokens(
        entries[2],
    ));
}

proof fn lemma_member_chunks(members: Seq<usize>, n: int)
    requires
        0 <= n <= members.len(),
    ensures
        token_readback::all_chunks(foam_case::member_lines(members).take(n)) == Seq::new(
            n as nat,
            |i: int| text::decimal(members[i] as nat),
        ),
    decreases n,
{
    let lines = foam_case::member_lines(members);
    if n == 0 {
        assert(lines.take(0) =~= Seq::empty());
        assert(token_readback::all_chunks(lines.take(0)) =~= Seq::new(
            0,
            |i: int| text::decimal(members[i] as nat),
        ));
    } else {
        lemma_member_chunks(members, n - 1);
        assert(lines.take(n) =~= lines.take(n - 1).push(lines[n - 1]));
        lemma_pushed(lines.take(n - 1), lines[n - 1]);
        let label = text::decimal(members[n - 1] as nat);
        field_readback::lemma_decimal_token(members[n - 1] as nat);
        reveal_strlit("            ");
        assert("            "@ =~= json::blanks(12));
        lemma_word_line(12, label);
        assert(token_readback::all_chunks(lines.take(n)) =~= Seq::new(
            n as nat,
            |i: int| text::decimal(members[i] as nat),
        ));
    }
}

/// A written zone of cells spells its name and a block with the labels of its cells,
/// in their order, with their count in front.
pub proof fn written_cell_zone_spells_its_cells(names: Seq<PhysicalName>, zone: Zone)
    ensures
        token_readback::all_chunks(foam_case::cell_zone_block(names, zone)) == seq![
            foam_case::zone_name(names, zone.tag),
        ] + dictionary_readback::block_tokens(
            cell_zone_section(foam_case::zone_name(names, zone.tag), zone),
        ),
{
    lemma_keywords();
    let name = foam_case::zone_name(names, zone.tag);
    lemma_name_is_token(mesh::group_name(names, zone.tag));
    let members = zone.members@;
    let count = text::decimal(members.len());
    field_readback::lemma_decimal_token(members.len());
    let none = Seq::<Seq<char>>::empty();
    let l0 = "    "@ + name;
    let l1 = "    {"@;
    let l2 = "        type cellZone;"@;
    let l3 = "        cellLabels "@ + count;
    let l4 = "        ("@;
    let l6 = "        );"@;
    let l7 = "    }"@;
    reveal_strlit("cellZone");
    reveal_strlit("cellLabels");
    reveal_strlit(";");
    reveal_strlit(" ");
    reveal_strlit("(");
    reveal_strlit(")");
    reveal_strlit("        type cellZone;");
    reveal_strlit("        cellLabels ");
    reveal_strlit("        (");
    reveal_strlit("        );");
    reveal_strlit("type");
    lemma_word_line(4, name);
    lemma_mark_line(4, '{');
    lemma_mark_line(4, '}');
    lemma_mark_line(8, '(');
    lemma_entry_line(8, "type"@, "cellZone"@);
    assert(l2 =~= json::blanks(8) + ("type"@ + " "@ + "cellZone"@ + ";"@));
    let tail = seq![' '] + count;
    assert(l3 =~= json::blanks(8) + ("cellLabels"@ + tail));
    token_readback::lemma_indent(8, "cellLabels"@ + tail);
    token_readback::lemma_token("cellLabels"@);
    token_readback::lemma_token(count);
    token_readback::lemma_chunks_split("cellLabels"@, Seq::empty(), tail);
    token_readback::lemma_blank(count);
    assert(l4 =~= json::blanks(8) + seq!['(']);
    assert(l6 =~= json::blanks(8) + (seq![')'] + seq![';']));
    token_readback::lemma_indent(8, seq![')'] + seq![';']);
    token_readback::lemma_mark(')', seq![';']);
    token_readback::lemma_mark(';', Seq::empty());
    assert(seq![';'] + Seq::<char>::empty() =~= seq![';']);
    assert(token_readback::chunks(Seq::<char>::empty(), Seq::empty()) =~= none);
    assert("("@ =~= seq!['(']);
    assert(")"@ =~= seq![')']);
    assert(";"@ =~= seq![';']);
    let head = none.push(l0).push(l1).push(l2).push(l3).push(l4);
    lemma_pushed(none, l0);
    lemma_pushed(none.push(l0), l1);
    lemma_pushed(none.push(l0).push(l1), l2);
    lemma_pushed(none.push(l0).push(l1).push(l2), l3);
    lemma_pushed(none.push(l0).push(l1).push(l2).push(l3), l4);
    let lines = foam_case::member_lines(members);
    lemma_member_chunks(members, members.len() as int);
    assert(lines.take(members.len() as int) =~= lines);
    token_readback::lemma_chunks_append(head, lines);
    lemma_pushed(head + lines, l6);
    lemma_pushed((head + lines).push(l6), l7);
    let all = foam_case::cell_zone_block(names, zone);
    assert(all =~= (head + lines).push(l6).push(l7));
    let block = cell_zone_section(name, zone);
    let e0 = block.entries[0];
    let e1 = block.entries[1];
    let rest = block.entries.skip(1);
    assert(rest[0] == e1);
    assert(rest.skip(1).len() == 0);
    assert(dictionary_readback::entries_tokens(rest.skip(1)) =~= none);
    assert(dictionary_readback::entries_tokens(rest) =~= dictionary_readback::entry_tokens(e1));
    assert(dictionary_readback::entries_tokens(block.entries) =~= dictionary_readback::entry_tokens(
        e0,
    ) + dictionary_readback::entry_tokens(e1));
    assert(dictionary_readback::blocks_tokens(block.sections) =~= none);
    assert(token_readback::all_chunks(none) =~= none);
    let labels = Seq::new(members.len(), |i: int| text::decimal(members[i] as nat));
    assert(token_readback::all_chunks(all) =~= seq![name] + seq!["{"@]
        + dictionary_readback::entry_tokens(e0) + seq!["cellLabels"@, count, "("@] + labels + seq![
        ")"@,
        ";"@,
        "}"@,
    ]);
    assert(dictionary_readback::block_tokens(block) =~= seq!["{"@]
        + dictionary_readback::entry_tokens(e0) + seq!["cellLabels"@, count, "("@] + labels + seq![
        ")"@,
        ";"@,
        "}"@,
    ]);
}

proof fn lemma_name_is_token(name: Seq<char>)
    ensures
        token_readback::is_token(mesh::sanitized(name)),
{
    mesh::sanitized_is_word(name);
    let s = mesh::sanitized(name);
    assert forall|i: int| 0 <= i < s.len() implies {
        let ch = #[trigger] s[i];
        ch != '"' && ch != '/' && !text::is_space(ch) && !token_readback::is_mark(ch)
    } by {
        let ch = s[i];
        assert(text::is_alphanumeric(ch) || ch == '_' || ch == '-');
    }
}

/// A name in a case keeps the length of the name it is made of, and its letters, digits,
/// underscores and dashes at their places; every other character becomes an
/// underscore.
pub proof fn names_keep_what_they_can(name: Seq<char>, i: int)
    requires
        0 <= i < name.len(),
    ensures
        mesh::sanitized(name).len() == name.len(),
        text::is_alphanumeric(name[i]) || name[i] == '_' || name[i] == '-' ==> mesh::sanitized(
            name,
        )[i] == name[i],
        !(text::is_alphanumeric(name[i]) || name[i] == '_' || name[i] == '-') ==> mesh::sanitized(
            name,
        )[i] == '_',
{
}

/// A tag is called by the name of the first group that has it, and else by its number.
pub proof fn group_has_its_name(names: Seq<PhysicalName>, tag: i32, at: int)
    ensures
        0 <= at < names.len() && names[at].tag == tag && (forall|i: int|
            0 <= i < at ==> (#[trigger] names[i]).tag != tag) ==> mesh::group_name(names, tag)
            == names[at].name@,
        (forall|i: int| 0 <= i < names.len() ==> (#[trigger] names[i]).tag != tag)
            ==> mesh::group_name(names, tag) == "physical_"@ + text::signed_decimal(tag as int),
{
    lemma_name_from(names, tag, 0, at);
}

proof fn lemma_name_from(names: Seq<PhysicalName>, tag: i32, from: int, at: int)
    requires
        0 <= from,
    ensures
        from <= at < names.len() && names[at].tag == tag && (forall|i: int|
            from <= i < at ==> (#[trigger] names[i]).tag != tag) ==> mesh::name_from(
            names,
            tag,
            from,
        ) == Some(names[at].name@),
        (forall|i: int| from <= i < names.len() ==> (#[trigger] names[i]).tag != tag)
            ==> mesh::name_from(names, tag, from) is None,
    decreases names.len() - from,
{
    if from < names.len() {
        lemma_name_from(names, tag, from + 1, at);
    }
}

} // verus!
