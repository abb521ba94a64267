//! What the reader of field files makes of a written field.

use crate::dictionary;
use crate::dictionary::{Dialect, Stream};
use crate::error::Failure;
use crate::fields;
use crate::fields::{FieldParts, FieldView, Header, PatchView, ValueView};
use crate::foam_field;
use crate::foam_field::{OutputField, OutputPatch, OutputValue};
use crate::json;
use crate::layout;
use crate::readback;
use crate::text;
use crate::text::CharClass;
use crate::token_readback;
use vstd::prelude::*;

verus! {

/// The tokens of the entry of a keyword.
pub open spec fn entry_tokens(keyword: Seq<char>, value: Seq<Seq<char>>) -> Seq<Seq<char>> {
    seq![keyword] + value + seq![";"@]
}

/// The tokens of a list, by the lines of its items.
pub open spec fn list_tokens(kind: Seq<char>, count: nat, items: Seq<Seq<char>>) -> Seq<
    Seq<char>,
> {
    seq!["nonuniform"@, kind, text::decimal(count), "("@] + token_readback::all_chunks(items)
        + seq![")"@]
}

/// The item lines of a list on a patch.
pub open spec fn patch_items(values: Seq<Seq<char>>, components: nat, count: nat) -> Seq<
    Seq<char>,
> {
    Seq::new(
        count,
        |i: int| foam_field::indented(12, foam_field::item_text(values, components, i)),
    )
}

/// How many items a list on a patch has.
pub open spec fn item_count(count: Option<usize>, values: nat, components: nat) -> nat {
    match count {
        Some(given) => given as nat,
        None => (values / components) as nat,
    }
}

/// The tokens of a value of a patch.
pub open spec fn value_tokens(value: OutputValue) -> Seq<Seq<char>> {
    match value {
        OutputValue::Uniform(inner) => seq!["uniform"@] + token_readback::chunks(
            text::trim(inner@),
            Seq::empty(),
        ),
        OutputValue::Other(inner) => token_readback::chunks(
            text::strip_end(CharClass::Only(';'), text::trim(inner@)),
            Seq::empty(),
        ),
        OutputValue::NonUniform { value_type, count, values } => {
            let kind = value_type->0@;
            let found = text::texts(values->0@);
            let components = foam_field::list_components(kind)->0;
            let n = item_count(count, found.len(), components);
            list_tokens(kind, n, patch_items(found, components, n))
        },
    }
}

/// Whether a text can stand as a value on a line.
pub open spec fn is_inline(s: Seq<char>) -> bool {
    token_readback::is_bland(s) && forall|i: int| 0 <= i < s.len() ==> #[trigger] s[i] != '\n'
}

/// Whether a value of a patch can be read: its text is without quotes, slashes
/// and line feeds, opens with no brace, and nothing in it ends the value; the
/// numbers of a list are words.
pub open spec fn is_readable(value: OutputValue) -> bool {
    match value {
        OutputValue::Uniform(inner) => is_inline(text::trim(inner@)) && token_readback::fits(
            value_tokens(value),
            0,
        ),
        OutputValue::Other(inner) => is_inline(
            text::strip_end(CharClass::Only(';'), text::trim(inner@)),
        ) && token_readback::fits(value_tokens(value), 0) && (value_tokens(value).len() == 0
            || value_tokens(value)[0] != "{"@),
        OutputValue::NonUniform { value_type, count, values } => {
            &&& foam_field::list_lines(
                "value"@,
                text::opt_text(value_type),
                count,
                foam_field::opt_texts(values),
            ) is Ok
            &&& values is Some ==> token_readback::all_tokens(text::texts(values->0@))
        },
    }
}

/// Whether an optional value of a patch can be read.
pub open spec fn opt_readable(value: Option<OutputValue>) -> bool {
    value matches Some(inner) ==> is_readable(inner)
}

/// Whether a patch can be read.
pub open spec fn is_readable_patch(patch: OutputPatch) -> bool {
    &&& token_readback::is_token(patch.name@)
    &&& patch.patch_type matches Some(kind) ==> token_readback::is_token(kind@)
    &&& opt_readable(patch.inlet_value)
    &&& opt_readable(patch.value)
}

/// The tokens of an optional entry.
pub open spec fn opt_entry(keyword: Seq<char>, value: Option<OutputValue>) -> Seq<Seq<char>> {
    match value {
        Some(inner) => entry_tokens(keyword, value_tokens(inner)),
        None => Seq::empty(),
    }
}

/// The tokens of the type of a patch.
pub open spec fn type_entry(kind: Option<String>) -> Seq<Seq<char>> {
    match kind {
        Some(found) => entry_tokens("type"@, seq![found@]),
        None => Seq::empty(),
    }
}

/// The tokens of a patch.
pub open spec fn patch_tokens(patch: OutputPatch) -> Seq<Seq<char>> {
    seq![patch.name@, "{"@] + type_entry(patch.patch_type) + opt_entry(
        "inletValue"@,
        patch.inlet_value,
    ) + opt_entry("value"@, patch.value) + seq!["}"@]
}

/// The tokens of the first `n` patches.
pub open spec fn tokens_before(patches: Seq<OutputPatch>, n: int) -> Seq<Seq<char>>
    decreases n,
{
    if n <= 0 {
        Seq::empty()
    } else {
        tokens_before(patches, n - 1) + patch_tokens(patches[n - 1])
    }
}

/// The tokens of the patches from `at` on.
pub open spec fn tokens_from(patches: Seq<OutputPatch>, at: int) -> Seq<Seq<char>>
    decreases patches.len() - at,
{
    if at >= patches.len() {
        Seq::empty()
    } else {
        patch_tokens(patches[at]) + tokens_from(patches, at + 1)
    }
}

/// What is read of a patch: its name, its type, and its value.
pub open spec fn patch_read(patch: OutputPatch) -> PatchView {
    PatchView {
        name: patch.name@,
        patch_type: text::opt_text(patch.patch_type),
        value: match patch.value {
            Some(value) => Some(fields::value_of(value_tokens(value))),
            None => None,
        },
    }
}

/// What is read of the patches from `at` on.
pub open spec fn patches_read(patches: Seq<OutputPatch>, at: int) -> Seq<PatchView>
    decreases patches.len() - at,
{
    if at >= patches.len() {
        Seq::empty()
    } else {
        seq![patch_read(patches[at])] + patches_read(patches, at + 1)
    }
}

proof fn lemma_keywords()
    ensures
        token_readback::is_token("type"@),
        token_readback::is_token("value"@),
        token_readback::is_token("inletValue"@),
        token_readback::is_token("uniform"@),
        token_readback::is_token("nonuniform"@),
        "value"@ != "type"@,
        "inletValue"@ != "type"@,
        "inletValue"@ != "value"@,
{
    reveal_strlit("type");
    reveal_strlit("value");
    reveal_strlit("inletValue");
    reveal_strlit("uniform");
    reveal_strlit("nonuniform");
    assert("type"@.len() == 4);
    assert("value"@.len() == 5);
    assert("inletValue"@.len() == 10);
}

proof fn lemma_kinds(kind: Seq<char>)
    requires
        foam_field::list_components(kind) is Some,
    ensures
        token_readback::is_token(kind),
        text::natural(kind, usize::MAX as nat) is None,
{
    reveal_strlit("List<scalar>");
    reveal_strlit("scalarField");
    reveal_strlit("Field<scalar>");
    reveal_strlit("List<vector>");
    reveal_strlit("vectorField");
    reveal_strlit("Field<vector>");
    assert(!text::is_digit(kind[0]) && kind[0] != '+');
}

proof fn lemma_marks_differ()
    ensures
        ")"@ != "("@,
        "["@ != "("@,
        "["@ != ")"@,
        "]"@ != "("@,
        "]"@ != ")"@,
        "]"@ != "["@,
        "{"@ != "("@,
        "{"@ != ")"@,
        "{"@ != "["@,
        "{"@ != "]"@,
        "}"@ != "("@,
        "}"@ != ")"@,
        "}"@ != "["@,
        "}"@ != "]"@,
        "}"@ != "{"@,
        ";"@ != "("@,
        ";"@ != ")"@,
        ";"@ != "["@,
        ";"@ != "]"@,
        ";"@ != "{"@,
        ";"@ != "}"@,
        "("@ != ")"@,
        "("@ != "["@,
        ")"@ != "["@,
        "("@ != "]"@,
        ")"@ != "]"@,
        "["@ != "]"@,
        "("@ != "{"@,
        ")"@ != "{"@,
        "["@ != "{"@,
        "]"@ != "{"@,
        "("@ != "}"@,
        ")"@ != "}"@,
        "["@ != "}"@,
        "]"@ != "}"@,
        "{"@ != "}"@,
        "("@ != ";"@,
        ")"@ != ";"@,
        "["@ != ";"@,
        "]"@ != ";"@,
        "{"@ != ";"@,
        "}"@ != ";"@,
{
    reveal_strlit("(");
    reveal_strlit(")");
    reveal_strlit("[");
    reveal_strlit("]");
    reveal_strlit("{");
    reveal_strlit("}");
    reveal_strlit(";");
    assert("("@[0] == '(');
    assert(")"@[0] == ')');
    assert("["@[0] == '[');
    assert("]"@[0] == ']');
    assert("{"@[0] == '{');
    assert("}"@[0] == '}');
    assert(";"@[0] == ';');
}

/// Whether the lines of items keep to the inside of a list.
pub open spec fn are_items(items: Seq<Seq<char>>) -> bool {
    forall|i: int|
        0 <= i < items.len() ==> token_readback::leads(
            token_readback::chunks(#[trigger] items[i], Seq::empty()),
            1,
            1,
        )
}

proof fn lemma_items_lead(items: Seq<Seq<char>>)
    requires
        are_items(items),
    ensures
        token_readback::leads(token_readback::all_chunks(items), 1, 1),
    decreases items.len(),
{
    if items.len() > 0 {
        let shorter = items.drop_last();
        assert(are_items(shorter)) by {
            assert forall|i: int| 0 <= i < shorter.len() implies token_readback::leads(
                token_readback::chunks(#[trigger] shorter[i], Seq::empty()),
                1,
                1,
            ) by {
                assert(shorter[i] == items[i]);
            }
        }
        lemma_items_lead(shorter);
        let last = items[items.len() - 1];
        assert(token_readback::leads(token_readback::chunks(last, Seq::empty()), 1, 1));
        token_readback::lemma_leads_append(
            token_readback::all_chunks(shorter),
            token_readback::chunks(last, Seq::empty()),
            1,
            1,
            1,
        );
    }
}

pub(crate) proof fn lemma_decimal_token(n: nat)
    ensures
        token_readback::is_token(text::decimal(n)),
{
    readback::lemma_decimal_chars(n);
    let s = text::decimal(n);
    assert forall|i: int| 0 <= i < s.len() implies {
        let ch = #[trigger] s[i];
        ch != '"' && ch != '/' && !text::is_space(ch) && !token_readback::is_mark(ch)
    } by {
        assert(text::is_digit(s[i]));
    }
}

/// A list is a value.
proof fn lemma_list_fits(kind: Seq<char>, count: nat, items: Seq<Seq<char>>)
    requires
        token_readback::is_token(kind),
        are_items(items),
    ensures
        token_readback::fits(list_tokens(kind, count, items), 0),
{
    lemma_marks_differ();
    lemma_keywords();
    lemma_decimal_token(count);
    let dec = text::decimal(count);
    token_readback::lemma_token_leads("nonuniform"@, 0);
    token_readback::lemma_token_leads(kind, 0);
    token_readback::lemma_token_leads(dec, 0);
    let opening = seq!["("@];
    assert(opening.skip(1) =~= Seq::<Seq<char>>::empty());
    assert(opening[0] == "("@);
    assert(token_readback::leads(opening.skip(1), 1, 1));
    assert(token_readback::leads(opening, 0, 1));
    let a = seq!["nonuniform"@];
    let b = a + seq![kind];
    let c = b + seq![dec];
    let d = c + opening;
    token_readback::lemma_leads_append(a, seq![kind], 0, 0, 0);
    token_readback::lemma_leads_append(b, seq![dec], 0, 0, 0);
    token_readback::lemma_leads_append(c, opening, 0, 0, 1);
    lemma_items_lead(items);
    let inner = token_readback::all_chunks(items);
    token_readback::lemma_leads_append(d, inner, 0, 1, 1);
    let closing = seq![")"@];
    assert(closing[0] == ")"@);
    assert(closing.skip(1) =~= Seq::<Seq<char>>::empty());
    assert(token_readback::fits(closing.skip(1), 0));
    assert(token_readback::fits(closing, 1));
    token_readback::lemma_fits_append(d + inner, closing, 0, 1);
    assert(d =~= seq!["nonuniform"@, kind, dec, "("@]);
    assert(list_tokens(kind, count, items) =~= d + inner + closing);
}

proof fn lemma_scalar_item(indent: nat, value: Seq<char>)
    requires
        token_readback::is_token(value),
    ensures
        token_readback::chunks(json::blanks(indent) + value, Seq::empty()) == seq![value],
        token_readback::leads(seq![value], 1, 1),
        readback::is_line(json::blanks(indent) + value),
{
    token_readback::lemma_indent(indent, value);
    token_readback::lemma_token(value);
    token_readback::lemma_token_leads(value, 1);
    lemma_indented_line(indent, value);
}

proof fn lemma_indented_line(indent: nat, rest: Seq<char>)
    requires
        rest.len() > 0,
        forall|i: int| 0 <= i < rest.len() ==> #[trigger] rest[i] != '\n',
        rest.last() != '\r',
    ensures
        readback::is_line(json::blanks(indent) + rest),
{
    let line = json::blanks(indent) + rest;
    assert forall|i: int| 0 <= i < line.len() implies #[trigger] line[i] != '\n' by {
        if i >= indent {
            assert(line[i] == rest[i - indent]);
        }
    }
    assert(line.last() == rest.last());
}

proof fn lemma_vector_item(indent: nat, x: Seq<char>, y: Seq<char>, z: Seq<char>)
    requires
        token_readback::is_token(x),
        token_readback::is_token(y),
        token_readback::is_token(z),
    ensures
        ({
            let line = json::blanks(indent) + ("("@ + x + " "@ + y + " "@ + z + ")"@);
            &&& token_readback::chunks(line, Seq::empty()) == seq!["("@, x, y, z, ")"@]
            &&& token_readback::leads(seq!["("@, x, y, z, ")"@], 1, 1)
            &&& readback::is_line(line)
        }),
{
    lemma_marks_differ();
    reveal_strlit("(");
    reveal_strlit(")");
    reveal_strlit(" ");
    let words = seq![x, y, z];
    let inner = x + " "@ + y + " "@ + z;
    assert(words.drop_last() =~= seq![x, y]);
    assert(words.drop_last().drop_last() =~= seq![x]);
    assert(text::join(seq![x], " "@) == x);
    assert(text::join(seq![x, y], " "@) == x + " "@ + y);
    assert(text::join(words, " "@) == inner);
    token_readback::lemma_joined_tokens(words);
    let item = "("@ + x + " "@ + y + " "@ + z + ")"@;
    assert(item =~= seq!['('] + (inner + ")"@));
    token_readback::lemma_mark('(', inner + ")"@);
    token_readback::lemma_chunks_split(inner, Seq::empty(), ")"@);
    token_readback::lemma_mark(')', Seq::empty());
    assert(seq![')'] + Seq::<char>::empty() =~= ")"@);
    assert(token_readback::chunks(Seq::<char>::empty(), Seq::empty()) =~= Seq::<
        Seq<char>,
    >::empty());
    assert(seq!['('] =~= "("@);
    assert(seq![')'] =~= ")"@);
    assert(token_readback::chunks(")"@, Seq::empty()) =~= seq![")"@]);
    assert(token_readback::chunks(item, Seq::empty()) =~= seq!["("@, x, y, z, ")"@]);
    token_readback::lemma_indent(indent, item);
    token_readback::lemma_token_leads(x, 2);
    token_readback::lemma_token_leads(y, 2);
    token_readback::lemma_token_leads(z, 2);
    let opening = seq!["("@];
    assert(opening[0] == "("@);
    assert(opening.skip(1) =~= Seq::<Seq<char>>::empty());
    assert(token_readback::leads(opening.skip(1), 2, 2));
    assert(token_readback::leads(opening, 1, 2));
    token_readback::lemma_leads_append(opening, seq![x], 1, 2, 2);
    token_readback::lemma_leads_append(opening + seq![x], seq![y], 1, 2, 2);
    token_readback::lemma_leads_append(opening + seq![x] + seq![y], seq![z], 1, 2, 2);
    let closing = seq![")"@];
    assert(closing[0] == ")"@);
    assert(closing.skip(1) =~= Seq::<Seq<char>>::empty());
    assert(token_readback::leads(closing.skip(1), 1, 1));
    assert(token_readback::leads(closing, 2, 1));
    token_readback::lemma_leads_append(
        opening + seq![x] + seq![y] + seq![z],
        closing,
        1,
        2,
        1,
    );
    assert(opening + seq![x] + seq![y] + seq![z] + closing =~= seq!["("@, x, y, z, ")"@]);
    assert forall|i: int| 0 <= i < item.len() implies #[trigger] item[i] != '\n' by {
        if 0 < i < item.len() - 1 {
            assert(item[i] == inner[i - 1]);
            lemma_joined_one_line(words, i - 1);
        }
    }
    assert(item.last() == ')');
    lemma_indented_line(indent, item);
}

proof fn lemma_joined_one_line(words: Seq<Seq<char>>, at: int)
    requires
        token_readback::all_tokens(words),
        0 <= at < text::join(words, " "@).len(),
    ensures
        text::join(words, " "@)[at] != '\n',
    decreases words.len(),
{
    reveal_strlit(" ");
    if words.len() == 1 {
        assert(is_token_char(words[0], at));
    } else if words.len() > 1 {
        let shorter = words.drop_last();
        let head = text::join(shorter, " "@);
        let last = words.last();
        assert(token_readback::all_tokens(shorter)) by {
            assert forall|i: int| 0 <= i < shorter.len() implies token_readback::is_token(
                #[trigger] shorter[i],
            ) by {
                assert(shorter[i] == words[i]);
            }
        }
        if at < head.len() {
            lemma_joined_one_line(shorter, at);
            assert(text::join(words, " "@)[at] == head[at]);
        } else if at > head.len() {
            assert(token_readback::is_token(words[words.len() - 1]));
            assert(is_token_char(last, at - head.len() - 1));
            assert(text::join(words, " "@)[at] == last[at - head.len() - 1]);
        }
    }
}

/// Whether the character at a place of a token is no white space.
pub open spec fn is_token_char(word: Seq<char>, at: int) -> bool {
    !text::is_space(word[at])
}

/// Whether every text of a list is a line.
pub open spec fn all_lines(lines: Seq<Seq<char>>) -> bool {
    forall|i: int| 0 <= i < lines.len() ==> readback::is_line(#[trigger] lines[i])
}

proof fn lemma_all_lines(head: Seq<Seq<char>>, tail: Seq<Seq<char>>)
    requires
        all_lines(head),
        all_lines(tail),
    ensures
        all_lines(head + tail),
{
    assert forall|i: int| 0 <= i < (head + tail).len() implies readback::is_line(
        #[trigger] (head + tail)[i],
    ) by {
        if i < head.len() {
            assert((head + tail)[i] == head[i]);
        } else {
            assert((head + tail)[i] == tail[i - head.len()]);
        }
    }
}

proof fn lemma_one_line(line: Seq<char>)
    requires
        readback::is_line(line),
    ensures
        all_lines(seq![line]),
        token_readback::all_chunks(seq![line]) == token_readback::chunks(line, Seq::empty()),
{
    assert(seq![line].drop_last() =~= Seq::<Seq<char>>::empty());
    assert(token_readback::all_chunks(Seq::<Seq<char>>::empty()) =~= Seq::<Seq<char>>::empty());
    assert(token_readback::all_chunks(seq![line]) =~= token_readback::chunks(
        line,
        Seq::empty(),
    ));
}

/// The lines of a list behind its keyword.
pub open spec fn list_block(
    indent: nat,
    keyword: Seq<char>,
    kind: Seq<char>,
    count: nat,
    items: Seq<Seq<char>>,
) -> Seq<Seq<char>> {
    seq![json::blanks(indent) + (keyword + " nonuniform "@ + kind)] + seq![
        json::blanks(indent) + text::decimal(count),
    ] + seq![json::blanks(indent) + "("@] + items + seq![json::blanks(indent) + ");"@]
}

proof fn lemma_list_head(indent: nat, keyword: Seq<char>, kind: Seq<char>)
    requires
        token_readback::is_token(keyword),
        token_readback::is_token(kind),
    ensures
        ({
            let line = json::blanks(indent) + (keyword + " nonuniform "@ + kind);
            &&& token_readback::chunks(line, Seq::empty()) == seq![keyword, "nonuniform"@, kind]
            &&& readback::is_line(line)
        }),
{
    lemma_keywords();
    reveal_strlit(" ");
    reveal_strlit("nonuniform");
    reveal_strlit(" nonuniform ");
    let words = seq![keyword, "nonuniform"@, kind];
    let joined = text::join(words, " "@);
    assert(words.drop_last() =~= seq![keyword, "nonuniform"@]);
    assert(words.drop_last().drop_last() =~= seq![keyword]);
    assert(text::join(seq![keyword], " "@) == keyword);
    assert(text::join(seq![keyword, "nonuniform"@], " "@) == keyword + " "@ + "nonuniform"@);
    assert(joined == keyword + " "@ + "nonuniform"@ + " "@ + kind);
    let inner = keyword + " nonuniform "@ + kind;
    assert(inner =~= joined);
    token_readback::lemma_joined_tokens(words);
    token_readback::lemma_indent(indent, inner);
    assert forall|i: int| 0 <= i < inner.len() implies #[trigger] inner[i] != '\n' by {
        lemma_joined_one_line(words, i);
    }
    assert(inner.last() == kind[kind.len() - 1]);
    assert(is_token_char(kind, kind.len() - 1));
    lemma_indented_line(indent, inner);
}

proof fn lemma_list_block(
    indent: nat,
    keyword: Seq<char>,
    kind: Seq<char>,
    count: nat,
    items: Seq<Seq<char>>,
)
    requires
        token_readback::is_token(keyword),
        token_readback::is_token(kind),
        all_lines(items),
    ensures
        all_lines(list_block(indent, keyword, kind, count, items)),
        token_readback::all_chunks(list_block(indent, keyword, kind, count, items))
            == entry_tokens(keyword, list_tokens(kind, count, items)),
{
    let first = json::blanks(indent) + (keyword + " nonuniform "@ + kind);
    let dec = text::decimal(count);
    let second = json::blanks(indent) + dec;
    let third = json::blanks(indent) + "("@;
    let last = json::blanks(indent) + ");"@;
    lemma_list_head(indent, keyword, kind);
    lemma_one_line(first);
    lemma_decimal_token(count);
    lemma_scalar_item(indent, dec);
    lemma_one_line(second);
    reveal_strlit("(");
    reveal_strlit(")");
    reveal_strlit(";");
    reveal_strlit(");");
    token_readback::lemma_indent(indent, "("@);
    token_readback::lemma_mark('(', Seq::empty());
    assert(seq!['('] + Seq::<char>::empty() =~= "("@);
    assert(seq!['('] =~= "("@);
    assert(token_readback::chunks(Seq::<char>::empty(), Seq::empty()) =~= Seq::<
        Seq<char>,
    >::empty());
    assert(token_readback::chunks("("@, Seq::empty()) =~= seq!["("@]);
    lemma_indented_line(indent, "("@);
    lemma_one_line(third);
    token_readback::lemma_indent(indent, ");"@);
    token_readback::lemma_mark(')', ";"@);
    token_readback::lemma_mark(';', Seq::empty());
    assert(seq![')'] + ";"@ =~= ");"@);
    assert(seq![';'] + Seq::<char>::empty() =~= ";"@);
    assert(seq![')'] =~= ")"@);
    assert(seq![';'] =~= ";"@);
    assert(token_readback::chunks(";"@, Seq::empty()) =~= seq![";"@]);
    assert(token_readback::chunks(");"@, Seq::empty()) =~= seq![")"@, ";"@]);
    lemma_indented_line(indent, ");"@);
    lemma_one_line(last);
    let a = seq![first];
    let b = a + seq![second];
    let c = b + seq![third];
    let d = c + items;
    token_readback::lemma_chunks_append(a, seq![second]);
    token_readback::lemma_chunks_append(b, seq![third]);
    token_readback::lemma_chunks_append(c, items);
    token_readback::lemma_chunks_append(d, seq![last]);
    lemma_all_lines(a, seq![second]);
    lemma_all_lines(b, seq![third]);
    lemma_all_lines(c, items);
    lemma_all_lines(d, seq![last]);
    assert(token_readback::all_chunks(list_block(indent, keyword, kind, count, items))
        =~= entry_tokens(keyword, list_tokens(kind, count, items)));
}

proof fn lemma_entry_line(indent: nat, keyword: Seq<char>, value: Seq<char>)
    requires
        token_readback::is_token(keyword),
        is_inline(value),
    ensures
        ({
            let line = json::blanks(indent) + (keyword + " "@ + value + ";"@);
            &&& token_readback::chunks(line, Seq::empty()) == entry_tokens(
                keyword,
                token_readback::chunks(value, Seq::empty()),
            )
            &&& readback::is_line(line)
        }),
{
    reveal_strlit(" ");
    reveal_strlit(";");
    let inner = keyword + " "@ + value + ";"@;
    token_readback::lemma_entry(keyword, value);
    token_readback::lemma_indent(indent, inner);
    assert forall|i: int| 0 <= i < inner.len() implies #[trigger] inner[i] != '\n' by {
        if i < keyword.len() {
            assert(inner[i] == keyword[i]);
            assert(is_token_char(keyword, i));
        } else if keyword.len() < i < inner.len() - 1 {
            assert(inner[i] == value[i - keyword.len() - 1]);
        }
    }
    assert(inner.last() == ';');
    lemma_indented_line(indent, inner);
}

/// A value of a patch is written as its tokens, and they make up a value.
proof fn lemma_value_lines(keyword: Seq<char>, value: OutputValue)
    requires
        token_readback::is_token(keyword),
        is_readable(value),
    ensures
        foam_field::value_lines(keyword, value) is Ok,
        all_lines(foam_field::value_lines(keyword, value)->Ok_0),
        token_readback::all_chunks(foam_field::value_lines(keyword, value)->Ok_0) == entry_tokens(
            keyword,
            value_tokens(value),
        ),
        token_readback::fits(value_tokens(value), 0),
{
    let lines = foam_field::value_lines(keyword, value)->Ok_0;
    lemma_keywords();
    match value {
        OutputValue::Uniform(inner) => {
            let given = text::trim(inner@);
            reveal_strlit(" ");
            reveal_strlit("uniform");
            reveal_strlit(" uniform ");
            reveal_strlit(";");
            let whole = "uniform"@ + (seq![' '] + given);
            token_readback::lemma_token("uniform"@);
            token_readback::lemma_chunks_split("uniform"@, Seq::empty(), seq![' '] + given);
            token_readback::lemma_blank(given);
            assert(is_inline(whole)) by {
                assert forall|i: int| 0 <= i < whole.len() implies #[trigger] whole[i] != '"'
                    && whole[i] != '/' && whole[i] != '\n' by {
                    if i > 7 {
                        assert(whole[i] == given[i - 8]);
                    }
                }
            }
            lemma_entry_line(8, keyword, whole);
            let line = json::blanks(8) + (keyword + " "@ + whole + ";"@);
            assert(foam_field::indented(8, keyword + " uniform "@ + given + ";"@) =~= line);
            lemma_one_line(line);
            assert(lines =~= seq![line]);
        },
        OutputValue::Other(inner) => {
            let given = text::strip_end(CharClass::Only(';'), text::trim(inner@));
            lemma_entry_line(8, keyword, given);
            let line = json::blanks(8) + (keyword + " "@ + given + ";"@);
            lemma_one_line(line);
            assert(lines =~= seq![line]);
        },
        OutputValue::NonUniform { value_type, count, values } => {
            let kind = value_type->0@;
            let found = text::texts(values->0@);
            let components = foam_field::list_components(kind)->0;
            let n = item_count(count, found.len(), components);
            let items = patch_items(found, components, n);
            lemma_kinds(kind);
            assert(components == 1 || components == 3);
            assert(found.len() == n * components);
            assert forall|i: int| 0 <= i < items.len() implies readback::is_line(
                #[trigger] items[i],
            ) && token_readback::leads(
                token_readback::chunks(items[i], Seq::empty()),
                1,
                1,
            ) by {
                if components == 1 {
                    assert(i < found.len()) by (nonlinear_arith)
                        requires
                            i < n,
                            found.len() == n * components,
                            components == 1,
                    ;
                    assert(token_readback::is_token(found[i]));
                    lemma_scalar_item(12, found[i]);
                } else {
                    assert(3 * i + 2 < found.len()) by (nonlinear_arith)
                        requires
                            i < n,
                            found.len() == n * 3,
                    ;
                    assert(token_readback::is_token(found[3 * i]));
                    assert(token_readback::is_token(found[3 * i + 1]));
                    assert(token_readback::is_token(found[3 * i + 2]));
                    lemma_vector_item(12, found[3 * i], found[3 * i + 1], found[3 * i + 2]);
                }
            }
            lemma_list_block(8, keyword, kind, n, items);
            lemma_list_fits(kind, n, items);
            assert(lines =~= list_block(8, keyword, kind, n, items));
        },
    }
}

/// A word behind blanks is a line with this token.
proof fn lemma_word_line(indent: nat, word: Seq<char>)
    requires
        token_readback::is_token(word),
    ensures
        all_lines(seq![json::blanks(indent) + word]),
        token_readback::all_chunks(seq![json::blanks(indent) + word]) == seq![word],
{
    lemma_scalar_item(indent, word);
    lemma_one_line(json::blanks(indent) + word);
}

/// A brace behind blanks is a line with this token.
proof fn lemma_brace_line(indent: nat, brace: char)
    requires
        brace == '{' || brace == '}',
    ensures
        all_lines(seq![json::blanks(indent) + seq![brace]]),
        token_readback::all_chunks(seq![json::blanks(indent) + seq![brace]]) == seq![seq![brace]],
{
    token_readback::lemma_indent(indent, seq![brace]);
    token_readback::lemma_mark(brace, Seq::empty());
    assert(seq![brace] + Seq::<char>::empty() =~= seq![brace]);
    assert(token_readback::chunks(Seq::<char>::empty(), Seq::empty()) =~= Seq::<
        Seq<char>,
    >::empty());
    assert(token_readback::chunks(seq![brace], Seq::empty()) =~= seq![seq![brace]]);
    lemma_indented_line(indent, seq![brace]);
    lemma_one_line(json::blanks(indent) + seq![brace]);
}

proof fn lemma_token_inline(word: Seq<char>)
    requires
        token_readback::is_token(word),
    ensures
        is_inline(word),
        token_readback::chunks(word, Seq::empty()) == seq![word],
{
    token_readback::lemma_token(word);
    assert forall|i: int| 0 <= i < word.len() implies #[trigger] word[i] != '\n' by {
        assert(is_token_char(word, i));
    }
}

proof fn lemma_opt_lines(keyword: Seq<char>, value: Option<OutputValue>)
    requires
        token_readback::is_token(keyword),
        opt_readable(value),
    ensures
        foam_field::opt_value_lines(keyword, value) is Ok,
        all_lines(foam_field::opt_value_lines(keyword, value)->Ok_0),
        token_readback::all_chunks(foam_field::opt_value_lines(keyword, value)->Ok_0) == opt_entry(
            keyword,
            value,
        ),
{
    match value {
        Some(inner) => {
            lemma_value_lines(keyword, inner);
        },
        None => {
            assert(token_readback::all_chunks(Seq::<Seq<char>>::empty()) =~= Seq::<
                Seq<char>,
            >::empty());
        },
    }
}

/// A patch is written as its tokens.
proof fn lemma_patch_lines(patch: OutputPatch)
    requires
        is_readable_patch(patch),
    ensures
        foam_field::patch_lines(patch) is Ok,
        all_lines(foam_field::patch_lines(patch)->Ok_0),
        token_readback::all_chunks(foam_field::patch_lines(patch)->Ok_0) == patch_tokens(patch),
{
    lemma_keywords();
    reveal_strlit("    ");
    reveal_strlit("    {");
    reveal_strlit("    }");
    reveal_strlit("{");
    reveal_strlit("}");
    reveal_strlit("        type ");
    reveal_strlit("type");
    reveal_strlit(" ");
    reveal_strlit(";");
    let name = seq![json::blanks(4) + patch.name@];
    let open = seq![json::blanks(4) + seq!['{']];
    let close = seq![json::blanks(4) + seq!['}']];
    lemma_word_line(4, patch.name@);
    lemma_brace_line(4, '{');
    lemma_brace_line(4, '}');
    assert(json::blanks(4) =~= "    "@);
    assert(json::blanks(4) + seq!['{'] =~= "    {"@);
    assert(json::blanks(4) + seq!['}'] =~= "    }"@);
    assert(seq!['{'] =~= "{"@);
    assert(seq!['}'] =~= "}"@);
    let kind = match patch.patch_type {
        Some(found) => Seq::<Seq<char>>::empty().push("        type "@ + found@ + ";"@),
        None => Seq::<Seq<char>>::empty(),
    };
    assert(all_lines(kind) && token_readback::all_chunks(kind) == type_entry(patch.patch_type)) by {
        match patch.patch_type {
            Some(found) => {
                lemma_token_inline(found@);
                lemma_entry_line(8, "type"@, found@);
                let line = json::blanks(8) + ("type"@ + " "@ + found@ + ";"@);
                assert("        type "@ + found@ + ";"@ =~= line);
                lemma_one_line(line);
                assert(kind =~= seq![line]);
            },
            None => {
                assert(token_readback::all_chunks(kind) =~= Seq::<Seq<char>>::empty());
            },
        }
    }
    lemma_opt_lines("inletValue"@, patch.inlet_value);
    lemma_opt_lines("value"@, patch.value);
    let inlet = foam_field::opt_value_lines("inletValue"@, patch.inlet_value)->Ok_0;
    let value = foam_field::opt_value_lines("value"@, patch.value)->Ok_0;
    let a = name + open;
    let b = a + kind;
    let c = b + inlet;
    let d = c + value;
    token_readback::lemma_chunks_append(name, open);
    token_readback::lemma_chunks_append(a, kind);
    token_readback::lemma_chunks_append(b, inlet);
    token_readback::lemma_chunks_append(c, value);
    token_readback::lemma_chunks_append(d, close);
    lemma_all_lines(name, open);
    lemma_all_lines(a, kind);
    lemma_all_lines(b, inlet);
    lemma_all_lines(c, value);
    lemma_all_lines(d, close);
    assert(foam_field::patch_lines(patch)->Ok_0 =~= d + close);
    assert(token_readback::all_chunks(d + close) =~= patch_tokens(patch));
}

proof fn lemma_patches_lines(patches: Seq<OutputPatch>, n: int)
    requires
        0 <= n <= patches.len(),
        forall|i: int| 0 <= i < patches.len() ==> is_readable_patch(#[trigger] patches[i]),
    ensures
        foam_field::patches_lines(patches, n) is Ok,
        all_lines(foam_field::patches_lines(patches, n)->Ok_0),
        token_readback::all_chunks(foam_field::patches_lines(patches, n)->Ok_0) == tokens_before(
            patches,
            n,
        ),
    decreases n,
{
    if n > 0 {
        lemma_patches_lines(patches, n - 1);
        assert(is_readable_patch(patches[n - 1]));
        lemma_patch_lines(patches[n - 1]);
        let earlier = foam_field::patches_lines(patches, n - 1)->Ok_0;
        let lines = foam_field::patch_lines(patches[n - 1])->Ok_0;
        token_readback::lemma_chunks_append(earlier, lines);
        lemma_all_lines(earlier, lines);
    } else {
        assert(token_readback::all_chunks(Seq::<Seq<char>>::empty()) =~= Seq::<Seq<char>>::empty());
    }
}

proof fn lemma_tokens_from(patches: Seq<OutputPatch>, n: int)
    requires
        0 <= n <= patches.len(),
    ensures
        tokens_before(patches, n) + tokens_from(patches, n) == tokens_from(patches, 0),
    decreases n,
{
    if n > 0 {
        lemma_tokens_from(patches, n - 1);
        assert(tokens_before(patches, n) + tokens_from(patches, n) =~= tokens_before(
            patches,
            n - 1,
        ) + (patch_tokens(patches[n - 1]) + tokens_from(patches, n)));
    } else {
        assert(tokens_before(patches, 0) + tokens_from(patches, 0) =~= tokens_from(patches, 0));
    }
}

/// The boundary is written as its tokens.
proof fn lemma_boundary_lines(patches: Seq<OutputPatch>)
    requires
        forall|i: int| 0 <= i < patches.len() ==> is_readable_patch(#[trigger] patches[i]),
    ensures
        foam_field::boundary_lines(patches) is Ok,
        all_lines(foam_field::boundary_lines(patches)->Ok_0),
        token_readback::all_chunks(foam_field::boundary_lines(patches)->Ok_0) == seq![
            "boundaryField"@,
            "{"@,
        ] + tokens_from(patches, 0) + seq!["}"@],
{
    lemma_patches_lines(patches, patches.len() as int);
    lemma_tokens_from(patches, patches.len() as int);
    let inner = foam_field::patches_lines(patches, patches.len() as int)->Ok_0;
    assert(tokens_before(patches, patches.len() as int) + tokens_from(
        patches,
        patches.len() as int,
    ) =~= tokens_before(patches, patches.len() as int));
    reveal_strlit("boundaryField");
    reveal_strlit("{");
    reveal_strlit("}");
    let name = seq![json::blanks(0) + "boundaryField"@];
    let open = seq![json::blanks(0) + seq!['{']];
    let close = seq![json::blanks(0) + seq!['}']];
    lemma_word_line(0, "boundaryField"@);
    lemma_brace_line(0, '{');
    lemma_brace_line(0, '}');
    assert(json::blanks(0) + "boundaryField"@ =~= "boundaryField"@);
    assert(json::blanks(0) + seq!['{'] =~= "{"@);
    assert(json::blanks(0) + seq!['}'] =~= "}"@);
    assert(seq!['{'] =~= "{"@);
    assert(seq!['}'] =~= "}"@);
    token_readback::lemma_chunks_append(name, open);
    token_readback::lemma_chunks_append(name + open, inner);
    token_readback::lemma_chunks_append(name + open + inner, close);
    lemma_all_lines(name, open);
    lemma_all_lines(name + open, inner);
    lemma_all_lines(name + open + inner, close);
    assert(foam_field::boundary_lines(patches)->Ok_0 =~= name + open + inner + close);
    assert(token_readback::all_chunks(name + open + inner + close) =~= seq![
        "boundaryField"@,
        "{"@,
    ] + tokens_from(patches, 0) + seq!["}"@]);
}

/// Whether a text can be the location of a file: no quote, backslash or line
/// feed is in it, and it is not one of the marks.
pub open spec fn is_location(s: Seq<char>) -> bool {
    &&& forall|i: int|
        0 <= i < s.len() ==> #[trigger] s[i] != '"' && s[i] != '\\' && s[i] != '\n'
    &&& s.len() == 1 ==> !token_readback::is_mark(s[0])
}

proof fn lemma_plain_escaped(s: Seq<char>)
    requires
        forall|i: int| 0 <= i < s.len() ==> #[trigger] s[i] != '"' && s[i] != '\\',
    ensures
        foam_field::escaped(s) == s,
    decreases s.len(),
{
    if s.len() > 0 {
        let shorter = s.drop_last();
        assert forall|i: int| 0 <= i < shorter.len() implies #[trigger] shorter[i] != '"'
            && shorter[i] != '\\' by {
            assert(shorter[i] == s[i]);
        }
        lemma_plain_escaped(shorter);
        assert(s[s.len() - 1] != '"');
        assert(shorter + seq![s.last()] =~= s);
    } else {
        assert(foam_field::escaped(s) =~= s);
    }
}

/// The line of the location is these tokens.
proof fn lemma_location_line(location: Seq<char>)
    requires
        is_location(location),
    ensures
        ({
            let line = "    location \""@ + foam_field::escaped(location) + "\";"@;
            &&& token_readback::chunks(line, Seq::empty()) == entry_tokens(
                "location"@,
                seq![location],
            )
            &&& readback::is_line(line)
        }),
{
    lemma_plain_escaped(location);
    reveal_strlit("    location \"");
    reveal_strlit("location");
    reveal_strlit("\";");
    reveal_strlit(";");
    let quoted = seq!['"'] + location + seq!['"'];
    let tail = quoted + ";"@;
    let line = "    location \""@ + location + "\";"@;
    assert(line =~= json::blanks(4) + ("location"@ + (seq![' '] + tail)));
    token_readback::lemma_indent(4, "location"@ + (seq![' '] + tail));
    token_readback::lemma_token("location"@);
    token_readback::lemma_chunks_split("location"@, Seq::empty(), seq![' '] + tail);
    token_readback::lemma_blank(tail);
    assert(tail[0] == '"');
    let behind = tail.skip(1);
    assert(behind[location.len() as int] == '"');
    assert forall|i: int| 0 <= i < location.len() implies #[trigger] behind[i] != '"' by {
        assert(behind[i] == location[i]);
    }
    readback::lemma_find_first(behind, '"', location.len() as int);
    let n = dictionary::quoted_len(tail);
    assert(n == location.len() + 2);
    assert(tail.take(n) =~= quoted);
    assert(tail.skip(n) =~= ";"@);
    assert(Seq::<char>::empty() + quoted =~= quoted);
    assert(token_readback::chunks(tail, Seq::empty()) == token_readback::chunks(";"@, quoted));
    let mark = seq![';'];
    assert(";"@ =~= mark);
    assert(";"@.skip(1) =~= Seq::<char>::empty());
    assert(token_readback::chunks(Seq::<char>::empty(), Seq::empty()) =~= Seq::<
        Seq<char>,
    >::empty());
    lemma_unquoted(location);
    assert(token_readback::word_value(quoted) == seq![location]);
    assert(token_readback::chunks(";"@, quoted) =~= seq![location, ";"@]);
    assert(token_readback::chunks(line, Seq::empty()) =~= entry_tokens(
        "location"@,
        seq![location],
    ));
    assert forall|i: int| 0 <= i < line.len() implies #[trigger] line[i] != '\n' by {
        if 14 <= i < 14 + location.len() {
            assert(line[i] == location[i - 14]);
        }
    }
    assert(line.last() == ';');
}

/// Quotes round a text without quotes are taken off.
proof fn lemma_unquoted(s: Seq<char>)
    requires
        forall|i: int| 0 <= i < s.len() ==> #[trigger] s[i] != '"',
    ensures
        text::strip(CharClass::Only('"'), seq!['"'] + s + seq!['"']) == s,
{
    let class = CharClass::Only('"');
    let quoted = seq!['"'] + s + seq!['"'];
    let opened = s + seq!['"'];
    assert(quoted[0] == '"');
    assert(quoted.skip(1) =~= opened);
    if s.len() == 0 {
        assert(opened[0] == '"');
        assert(opened.skip(1) =~= Seq::<char>::empty());
        assert(text::strip_start(class, Seq::<char>::empty()) == Seq::<char>::empty());
        assert(text::strip_start(class, opened) == Seq::<char>::empty());
        assert(text::strip_start(class, quoted) == Seq::<char>::empty());
        assert(text::strip_end(class, Seq::<char>::empty()) =~= s);
    } else {
        assert(opened[0] == s[0]);
        assert(text::strip_start(class, opened) == opened);
        assert(text::strip_start(class, quoted) == opened);
        assert(opened.last() == '"');
        assert(opened.drop_last() =~= s);
        assert(s[s.len() - 1] != '"');
        assert(text::strip_end(class, s) == s);
    }
}

/// The tokens of the head of a file behind its first word.
pub open spec fn head_tokens(class_name: Seq<char>, location: Seq<char>, object: Seq<char>) -> Seq<
    Seq<char>,
> {
    entry_tokens("version"@, seq!["2.0"@]) + entry_tokens("format"@, seq!["ascii"@])
        + entry_tokens("class"@, seq![class_name]) + entry_tokens("location"@, seq![location])
        + entry_tokens("object"@, seq![object])
}

proof fn lemma_head_words()
    ensures
        token_readback::is_token("FoamFile"@),
        token_readback::is_token("version"@),
        token_readback::is_token("2.0"@),
        token_readback::is_token("format"@),
        token_readback::is_token("ascii"@),
        token_readback::is_token("class"@),
        token_readback::is_token("location"@),
        token_readback::is_token("object"@),
        token_readback::is_token("dimensions"@),
        token_readback::is_token("internalField"@),
        token_readback::is_token("boundaryField"@),
        "version"@ != "class"@ && "version"@ != "object"@,
        "format"@ != "class"@ && "format"@ != "object"@,
        "object"@ != "class"@,
        "location"@ != "class"@ && "location"@ != "object"@,
        "dimensions"@ != "FoamFile"@,
        "internalField"@ != "FoamFile"@ && "internalField"@ != "dimensions"@,
        "boundaryField"@ != "FoamFile"@ && "boundaryField"@ != "dimensions"@ && "boundaryField"@
            != "internalField"@,
{
    reveal_strlit("FoamFile");
    reveal_strlit("version");
    reveal_strlit("2.0");
    reveal_strlit("format");
    reveal_strlit("ascii");
    reveal_strlit("class");
    reveal_strlit("location");
    reveal_strlit("object");
    reveal_strlit("dimensions");
    reveal_strlit("internalField");
    reveal_strlit("boundaryField");
    assert("version"@[0] == 'v');
    assert("class"@[0] == 'c');
    assert("object"@[0] == 'o');
    assert("format"@[0] == 'f');
    assert("location"@[0] == 'l');
    assert("dimensions"@[0] == 'd');
    assert("FoamFile"@[0] == 'F');
    assert("internalField"@[0] == 'i');
    assert("boundaryField"@[0] == 'b');
}

proof fn lemma_entry_one(indent: nat, keyword: Seq<char>, word: Seq<char>)
    requires
        token_readback::is_token(keyword),
        token_readback::is_token(word),
    ensures
        ({
            let line = json::blanks(indent) + (keyword + " "@ + word + ";"@);
            &&& all_lines(seq![line])
            &&& token_readback::all_chunks(seq![line]) == entry_tokens(keyword, seq![word])
        }),
{
    lemma_token_inline(word);
    lemma_entry_line(indent, keyword, word);
    lemma_one_line(json::blanks(indent) + (keyword + " "@ + word + ";"@));
}

/// The head of a file is written as its tokens.
proof fn lemma_head_lines(class_name: Seq<char>, location: Seq<char>, object: Seq<char>)
    requires
        token_readback::is_token(class_name),
        token_readback::is_token(object),
        is_location(location),
    ensures
        all_lines(foam_field::header_lines(class_name, location, object)),
        token_readback::all_chunks(foam_field::header_lines(class_name, location, object)) == seq![
            "FoamFile"@,
            "{"@,
        ] + head_tokens(class_name, location, object) + seq!["}"@],
{
    lemma_head_words();
    reveal_strlit("FoamFile");
    reveal_strlit("{");
    reveal_strlit("}");
    reveal_strlit("    version 2.0;");
    reveal_strlit("    format ascii;");
    reveal_strlit("    class ");
    reveal_strlit("    object ");
    reveal_strlit("version");
    reveal_strlit("2.0");
    reveal_strlit("format");
    reveal_strlit("ascii");
    reveal_strlit("class");
    reveal_strlit("object");
    reveal_strlit(" ");
    reveal_strlit(";");
    let l0 = seq![json::blanks(0) + "FoamFile"@];
    let l1 = seq![json::blanks(0) + seq!['{']];
    let l2 = seq![json::blanks(4) + ("version"@ + " "@ + "2.0"@ + ";"@)];
    let l3 = seq![json::blanks(4) + ("format"@ + " "@ + "ascii"@ + ";"@)];
    let l4 = seq![json::blanks(4) + ("class"@ + " "@ + class_name + ";"@)];
    let l5 = seq!["    location \""@ + foam_field::escaped(location) + "\";"@];
    let l6 = seq![json::blanks(4) + ("object"@ + " "@ + object + ";"@)];
    let l7 = seq![json::blanks(0) + seq!['}']];
    lemma_word_line(0, "FoamFile"@);
    lemma_brace_line(0, '{');
    lemma_entry_one(4, "version"@, "2.0"@);
    lemma_entry_one(4, "format"@, "ascii"@);
    lemma_entry_one(4, "class"@, class_name);
    lemma_location_line(location);
    lemma_one_line(l5[0]);
    lemma_entry_one(4, "object"@, object);
    lemma_brace_line(0, '}');
    let p1 = l0 + l1;
    let p2 = p1 + l2;
    let p3 = p2 + l3;
    let p4 = p3 + l4;
    let p5 = p4 + l5;
    let p6 = p5 + l6;
    let p7 = p6 + l7;
    token_readback::lemma_chunks_append(l0, l1);
    token_readback::lemma_chunks_append(p1, l2);
    token_readback::lemma_chunks_append(p2, l3);
    token_readback::lemma_chunks_append(p3, l4);
    token_readback::lemma_chunks_append(p4, l5);
    token_readback::lemma_chunks_append(p5, l6);
    token_readback::lemma_chunks_append(p6, l7);
    lemma_all_lines(l0, l1);
    lemma_all_lines(p1, l2);
    lemma_all_lines(p2, l3);
    lemma_all_lines(p3, l4);
    lemma_all_lines(p4, l5);
    lemma_all_lines(p5, l6);
    lemma_all_lines(p6, l7);
    assert(seq!['{'] =~= "{"@);
    assert(seq!['}'] =~= "}"@);
    assert(l0[0] =~= "FoamFile"@);
    assert(l1[0] =~= "{"@);
    assert(l2[0] =~= "    version 2.0;"@);
    assert(l3[0] =~= "    format ascii;"@);
    assert(l4[0] =~= "    class "@ + class_name + ";"@);
    assert(l6[0] =~= "    object "@ + object + ";"@);
    assert(l7[0] =~= "}"@);
    assert(foam_field::header_lines(class_name, location, object) =~= p7);
    assert(token_readback::all_chunks(p7) =~= seq!["FoamFile"@, "{"@] + head_tokens(
        class_name,
        location,
        object,
    ) + seq!["}"@]);
}

/// The line of the dimensions is these tokens.
proof fn lemma_dimensions(units: Seq<Seq<char>>)
    requires
        token_readback::all_tokens(units),
    ensures
        ({
            let line = "dimensions ["@ + text::join(units, " "@) + "];"@;
            &&& all_lines(seq![line])
            &&& token_readback::all_chunks(seq![line]) == seq!["dimensions"@, "["@] + units + seq![
                "]"@,
                ";"@,
            ]
        }),
{
    lemma_head_words();
    reveal_strlit("dimensions [");
    reveal_strlit("dimensions");
    reveal_strlit("[");
    reveal_strlit("]");
    reveal_strlit("];");
    reveal_strlit(";");
    let inner = text::join(units, " "@);
    let line = "dimensions ["@ + inner + "];"@;
    token_readback::lemma_joined_tokens(units);
    let closing = seq![']'] + ";"@;
    assert(closing =~= "];"@);
    let opened = seq!['['] + (inner + closing);
    assert(line =~= "dimensions"@ + (seq![' '] + opened));
    token_readback::lemma_token("dimensions"@);
    token_readback::lemma_chunks_split("dimensions"@, Seq::empty(), seq![' '] + opened);
    token_readback::lemma_blank(opened);
    token_readback::lemma_mark('[', inner + closing);
    token_readback::lemma_chunks_split(inner, Seq::empty(), closing);
    token_readback::lemma_mark(']', ";"@);
    token_readback::lemma_mark(';', Seq::empty());
    assert(seq![';'] + Seq::<char>::empty() =~= ";"@);
    assert(seq!['['] =~= "["@);
    assert(seq![']'] =~= "]"@);
    assert(seq![';'] =~= ";"@);
    assert(token_readback::chunks(Seq::<char>::empty(), Seq::empty()) =~= Seq::<
        Seq<char>,
    >::empty());
    assert(token_readback::chunks(";"@, Seq::empty()) =~= seq![";"@]);
    assert(token_readback::chunks(line, Seq::empty()) =~= seq!["dimensions"@, "["@] + units + seq![
        "]"@,
        ";"@,
    ]);
    assert forall|i: int| 0 <= i < line.len() implies #[trigger] line[i] != '\n' by {
        if 12 <= i < 12 + inner.len() {
            assert(line[i] == inner[i - 12]);
            lemma_joined_one_line(units, i - 12);
        }
    }
    assert(line.last() == ';');
    lemma_one_line(line);
}

/// The dimensions that are written.
pub open spec fn units_of(dimensions: Option<Vec<String>>, fallback: Seq<Seq<char>>) -> Seq<
    Seq<char>,
> {
    match dimensions {
        Some(values) => if values@.len() > 0 {
            text::texts(values@)
        } else {
            fallback
        },
        None => fallback,
    }
}

/// The tokens of a field file.
pub open spec fn file_tokens(
    field: OutputField,
    location: Seq<char>,
    object: Seq<char>,
    class_name: Seq<char>,
    units: Seq<Seq<char>>,
    kind: Seq<char>,
    items: Seq<Seq<char>>,
) -> Seq<Seq<char>> {
    seq!["FoamFile"@, "{"@] + head_tokens(class_name, location, object) + seq!["}"@] + (seq![
        "dimensions"@,
        "["@,
    ] + units + seq!["]"@, ";"@]) + entry_tokens(
        "internalField"@,
        list_tokens(kind, items.len(), items),
    ) + (seq!["boundaryField"@, "{"@] + tokens_from(field.boundary_patches@, 0) + seq!["}"@])
}

proof fn lemma_file_lines(
    field: OutputField,
    location: Seq<char>,
    object: Seq<char>,
    class_name: Seq<char>,
    fallback: Seq<Seq<char>>,
    kind: Seq<char>,
    items: Seq<Seq<char>>,
)
    requires
        token_readback::is_token(
            layout::text_or(text::opt_text(field.class_name), class_name),
        ),
        token_readback::is_token(object),
        is_location(location),
        token_readback::all_tokens(units_of(field.dimensions, fallback)),
        token_readback::is_token(kind),
        all_lines(items),
        forall|i: int|
            0 <= i < field.boundary_patches@.len() ==> is_readable_patch(
                #[trigger] field.boundary_patches@[i],
            ),
    ensures
        foam_field::boundary_lines(field.boundary_patches@) is Ok,
        ({
            let lines = foam_field::interior_lines(
                field,
                location,
                object,
                class_name,
                text::join(fallback, " "@),
                kind,
                items,
            ) + foam_field::boundary_lines(field.boundary_patches@)->Ok_0;
            &&& all_lines(lines)
            &&& token_readback::all_chunks(lines) == file_tokens(
                field,
                location,
                object,
                layout::text_or(text::opt_text(field.class_name), class_name),
                units_of(field.dimensions, fallback),
                kind,
                items,
            )
        }),
{
    let class = layout::text_or(text::opt_text(field.class_name), class_name);
    let units = units_of(field.dimensions, fallback);
    lemma_head_words();
    lemma_head_lines(class, location, object);
    lemma_dimensions(units);
    lemma_list_block(0, "internalField"@, kind, items.len(), items);
    lemma_boundary_lines(field.boundary_patches@);
    let head = foam_field::header_lines(class, location, object);
    let empty = seq![Seq::<char>::empty()];
    assert(readback::is_line(empty[0]));
    lemma_one_line(empty[0]);
    assert(token_readback::chunks(Seq::<char>::empty(), Seq::empty()) =~= Seq::<
        Seq<char>,
    >::empty());
    let line = seq!["dimensions ["@ + text::join(units, " "@) + "];"@];
    assert(foam_field::dimensions_line(field.dimensions, text::join(fallback, " "@)) == line[0]);
    let block = list_block(0, "internalField"@, kind, items.len(), items);
    let boundary = foam_field::boundary_lines(field.boundary_patches@)->Ok_0;
    let a = head + empty;
    let b = a + line;
    let c = b + empty;
    let d = c + block;
    let e = d + empty;
    let f = e + boundary;
    token_readback::lemma_chunks_append(head, empty);
    token_readback::lemma_chunks_append(a, line);
    token_readback::lemma_chunks_append(b, empty);
    token_readback::lemma_chunks_append(c, block);
    token_readback::lemma_chunks_append(d, empty);
    token_readback::lemma_chunks_append(e, boundary);
    lemma_all_lines(head, empty);
    lemma_all_lines(a, line);
    lemma_all_lines(b, empty);
    lemma_all_lines(c, block);
    lemma_all_lines(d, empty);
    lemma_all_lines(e, boundary);
    reveal_strlit("internalField nonuniform ");
    reveal_strlit("internalField");
    reveal_strlit(" nonuniform ");
    assert(json::blanks(0) + ("internalField"@ + " nonuniform "@ + kind)
        =~= "internalField nonuniform "@ + kind);
    assert(json::blanks(0) + text::decimal(items.len()) =~= text::decimal(items.len()));
    assert(json::blanks(0) + "("@ =~= "("@);
    assert(json::blanks(0) + ");"@ =~= ");"@);
    let lines = foam_field::interior_lines(
        field,
        location,
        object,
        class_name,
        text::join(fallback, " "@),
        kind,
        items,
    ) + boundary;
    assert(lines =~= f);
    assert(token_readback::all_chunks(f) =~= file_tokens(
        field,
        location,
        object,
        class,
        units,
        kind,
        items,
    ));
}

proof fn lemma_single_fits(word: Seq<char>)
    requires
        token_readback::is_token(word) || is_location(word),
    ensures
        token_readback::fits(seq![word], 0),
{
    reveal_strlit("(");
    reveal_strlit(")");
    reveal_strlit("[");
    reveal_strlit("]");
    reveal_strlit("{");
    reveal_strlit("}");
    reveal_strlit(";");
    let part = seq![word];
    assert(part[0] == word);
    assert(part.skip(1) =~= Seq::<Seq<char>>::empty());
    assert(token_readback::fits(part.skip(1), 0));
    if token_readback::is_token(word) {
        token_readback::lemma_token_leads(word, 0);
    } else {
        assert(word != ";"@ && word != "}"@ && word != "("@ && word != "["@ && word != "{"@) by {
            assert(";"@[0] == ';' && "}"@[0] == '}' && "("@[0] == '(' && "["@[0] == '[' && "{"@[0]
                == '{');
        }
        assert(dictionary::depth_after(word, 0) == 0);
    }
}

/// An entry with one word is read behind its keyword.
proof fn lemma_read_entry(s: Stream, keyword: Seq<char>, value: Seq<Seq<char>>)
    requires
        token_readback::comes_next(s, entry_tokens(keyword, value)),
        token_readback::fits(value, 0),
    ensures
        !s.ended(),
        s.value() == keyword,
        s.next().value_tokens(0) == value,
        s.next().value_end(0) == token_readback::ahead(s, entry_tokens(keyword, value).len()),
{
    let all = entry_tokens(keyword, value);
    token_readback::lemma_take_one(s, all);
    assert(all[0] == keyword);
    assert(all.skip(1) =~= value + seq![";"@]);
    token_readback::lemma_value(s.next(), value, 0);
    assert(token_readback::ahead(s.next(), value.len() + 1) == token_readback::ahead(
        s,
        all.len(),
    ));
}

/// The header after an entry.
pub open spec fn header_after(header: Header, keyword: Seq<char>, word: Seq<char>) -> Header {
    if keyword == "class"@ {
        Header { class_name: Some(word), ..header }
    } else if keyword == "object"@ {
        Header { object_name: Some(word), ..header }
    } else {
        header
    }
}

proof fn lemma_header_entry(s: Stream, keyword: Seq<char>, word: Seq<char>, header: Header)
    requires
        token_readback::comes_next(s, entry_tokens(keyword, seq![word])),
        token_readback::is_token(keyword),
        token_readback::is_token(word) || is_location(word),
    ensures
        fields::header_body(s, header) == fields::header_body(
            token_readback::ahead(s, 3),
            header_after(header, keyword, word),
        ),
{
    lemma_single_fits(word);
    lemma_read_entry(s, keyword, seq![word]);
    token_readback::lemma_token_leads(keyword, 0);
    assert(entry_tokens(keyword, seq![word]).len() == 3);
    assert(fields::first_token(seq![word]) == Some(word));
}

/// The head of a file is read: its class and its object.
proof fn lemma_header(
    s: Stream,
    class_name: Seq<char>,
    location: Seq<char>,
    object: Seq<char>,
)
    requires
        token_readback::comes_next(
            s,
            seq!["{"@] + head_tokens(class_name, location, object) + seq!["}"@],
        ),
        token_readback::is_token(class_name),
        token_readback::is_token(object),
        is_location(location),
    ensures
        fields::header_block(s) == Ok::<(Header, Stream), Failure>(
            (
                Header { class_name: Some(class_name), object_name: Some(object) },
                token_readback::ahead(s, 17),
            ),
        ),
{
    lemma_head_words();
    let e1 = entry_tokens("version"@, seq!["2.0"@]);
    let e2 = entry_tokens("format"@, seq!["ascii"@]);
    let e3 = entry_tokens("class"@, seq![class_name]);
    let e4 = entry_tokens("location"@, seq![location]);
    let e5 = entry_tokens("object"@, seq![object]);
    let end = seq!["}"@];
    let r5 = e5 + end;
    let r4 = e4 + r5;
    let r3 = e3 + r4;
    let r2 = e2 + r3;
    let r1 = e1 + r2;
    let all = seq!["{"@] + head_tokens(class_name, location, object) + end;
    assert(all =~= seq!["{"@] + r1);
    token_readback::lemma_take_one(s, all);
    assert(all.skip(1) =~= r1);
    let s1 = s.next();
    token_readback::lemma_take_part(s1, e1, r2);
    let h0 = Header { class_name: None, object_name: None };
    lemma_header_entry(s1, "version"@, "2.0"@, h0);
    let s2 = token_readback::ahead(s1, 3);
    token_readback::lemma_take_part(s2, e2, r3);
    lemma_header_entry(s2, "format"@, "ascii"@, h0);
    let s3 = token_readback::ahead(s2, 3);
    token_readback::lemma_take_part(s3, e3, r4);
    lemma_header_entry(s3, "class"@, class_name, h0);
    let h1 = Header { class_name: Some(class_name), object_name: None };
    let s4 = token_readback::ahead(s3, 3);
    token_readback::lemma_take_part(s4, e4, r5);
    lemma_header_entry(s4, "location"@, location, h1);
    let s5 = token_readback::ahead(s4, 3);
    token_readback::lemma_take_part(s5, e5, end);
    lemma_header_entry(s5, "object"@, object, h1);
    let s6 = token_readback::ahead(s5, 3);
    token_readback::lemma_take_one(s6, end);
    assert(s6.next() == token_readback::ahead(s, 17));
}

proof fn lemma_bracket_words(s: Stream, units: Seq<Seq<char>>, found: Seq<Seq<char>>)
    requires
        token_readback::all_tokens(units),
        token_readback::comes_next(s, units + seq!["]"@, ";"@]),
    ensures
        fields::bracket_words(s, found) == Ok::<(Seq<Seq<char>>, Stream), Failure>(
            (found + units, token_readback::ahead(s, units.len() + 2)),
        ),
    decreases units.len(),
{
    let all = units + seq!["]"@, ";"@];
    token_readback::lemma_take_one(s, all);
    if units.len() == 0 {
        assert(all[0] == "]"@);
        assert(all.skip(1) =~= seq![";"@]);
        token_readback::lemma_take_one(s.next(), seq![";"@]);
        assert(s.next().next() == token_readback::ahead(s, 2));
        assert(found + units =~= found);
    } else {
        assert(all[0] == units[0]);
        assert(token_readback::is_token(units[0]));
        token_readback::lemma_token_leads(units[0], 0);
        let rest = units.skip(1);
        assert(all.skip(1) =~= rest + seq!["]"@, ";"@]);
        assert(token_readback::all_tokens(rest)) by {
            assert forall|i: int| 0 <= i < rest.len() implies token_readback::is_token(
                #[trigger] rest[i],
            ) by {
                assert(rest[i] == units[i + 1]);
            }
        }
        lemma_bracket_words(s.next(), rest, found.push(units[0]));
        assert(found.push(units[0]) + rest =~= found + units);
        assert(token_readback::ahead(s.next(), rest.len() + 2) == token_readback::ahead(
            s,
            units.len() + 2,
        ));
    }
}

/// The dimensions are read.
proof fn lemma_read_dimensions(s: Stream, units: Seq<Seq<char>>)
    requires
        token_readback::all_tokens(units),
        token_readback::comes_next(s, seq!["["@] + units + seq!["]"@, ";"@]),
    ensures
        fields::dimension_words(s) == Ok::<(Seq<Seq<char>>, Stream), Failure>(
            (units, token_readback::ahead(s, units.len() + 3)),
        ),
{
    let all = seq!["["@] + units + seq!["]"@, ";"@];
    token_readback::lemma_take_one(s, all);
    assert(all[0] == "["@);
    assert(all.skip(1) =~= units + seq!["]"@, ";"@]);
    lemma_bracket_words(s.next(), units, Seq::empty());
    assert(Seq::<Seq<char>>::empty() + units =~= units);
    assert(token_readback::ahead(s.next(), units.len() + 2) == token_readback::ahead(
        s,
        units.len() + 3,
    ));
}

proof fn lemma_value_is_read(value: OutputValue)
    requires
        is_readable(value),
    ensures
        token_readback::fits(value_tokens(value), 0),
{
    lemma_keywords();
    lemma_value_lines("value"@, value);
}

/// A patch behind its opening brace is read.
proof fn lemma_read_patch(s: Stream, patch: OutputPatch)
    requires
        is_readable_patch(patch),
        token_readback::comes_next(
            s,
            type_entry(patch.patch_type) + opt_entry("inletValue"@, patch.inlet_value) + opt_entry(
                "value"@,
                patch.value,
            ) + seq!["}"@],
        ),
    ensures
        fields::patch_body(
            s,
            PatchView { name: patch.name@, patch_type: None, value: None },
        ) == Ok::<(PatchView, Stream), Failure>(
            (patch_read(patch), token_readback::ahead(s, (patch_tokens(patch).len() - 2) as nat)),
        ),
{
    lemma_keywords();
    lemma_marks_differ();
    let kind = type_entry(patch.patch_type);
    let inlet = opt_entry("inletValue"@, patch.inlet_value);
    let value = opt_entry("value"@, patch.value);
    let end = seq!["}"@];
    let r2 = value + end;
    let r1 = inlet + r2;
    assert(kind + inlet + value + end =~= kind + r1);
    token_readback::lemma_take_part(s, kind, r1);
    let start = PatchView { name: patch.name@, patch_type: None, value: None };
    let typed = PatchView { patch_type: text::opt_text(patch.patch_type), ..start };
    let s1 = token_readback::ahead(s, kind.len());
    assert(fields::patch_body(s, start) == fields::patch_body(s1, typed)) by {
        match patch.patch_type {
            Some(found) => {
                lemma_single_fits(found@);
                lemma_read_entry(s, "type"@, seq![found@]);
                token_readback::lemma_token_leads("type"@, 0);
                assert(fields::first_token(seq![found@]) == Some(found@));
            },
            None => {
                assert(s1 == s);
            },
        }
    }
    token_readback::lemma_take_part(s1, inlet, r2);
    let s2 = token_readback::ahead(s1, inlet.len());
    assert(fields::patch_body(s1, typed) == fields::patch_body(s2, typed)) by {
        match patch.inlet_value {
            Some(inner) => {
                lemma_value_is_read(inner);
                lemma_read_entry(s1, "inletValue"@, value_tokens(inner));
                token_readback::lemma_token_leads("inletValue"@, 0);
                let after = s1.next();
                lemma_value_opens(inner);
                token_readback::lemma_take_one(s1, entry_tokens("inletValue"@, value_tokens(inner)));
                let rest = entry_tokens("inletValue"@, value_tokens(inner)).skip(1);
                token_readback::lemma_take_one(after, rest);
                assert(rest =~= value_tokens(inner) + seq![";"@]);
                assert(rest[0] != "{"@);
                assert(!after.peeks("{"@));
            },
            None => {
                assert(s2 == s1);
            },
        }
    }
    token_readback::lemma_take_part(s2, value, end);
    let s3 = token_readback::ahead(s2, value.len());
    assert(fields::patch_body(s2, typed) == fields::patch_body(s3, patch_read(patch))) by {
        match patch.value {
            Some(inner) => {
                lemma_value_is_read(inner);
                lemma_read_entry(s2, "value"@, value_tokens(inner));
                token_readback::lemma_token_leads("value"@, 0);
            },
            None => {
                assert(s3 == s2);
            },
        }
    }
    token_readback::lemma_take_one(s3, end);
    assert(s3.next() == token_readback::ahead(s, (patch_tokens(patch).len() - 2) as nat));
}

/// A value does not open with a brace: a list opens with a word, and so does a
/// uniform value.
proof fn lemma_value_opens(value: OutputValue)
    requires
        is_readable(value),
    ensures
        value_tokens(value).len() == 0 || value_tokens(value)[0] != "{"@,
{
    lemma_keywords();
    token_readback::lemma_token_leads("uniform"@, 0);
    token_readback::lemma_token_leads("nonuniform"@, 0);
}

/// The patches from `at` on are read.
proof fn lemma_read_patches(
    s: Stream,
    patches: Seq<OutputPatch>,
    at: int,
    found: Seq<PatchView>,
)
    requires
        0 <= at <= patches.len(),
        forall|i: int| 0 <= i < patches.len() ==> is_readable_patch(#[trigger] patches[i]),
        token_readback::comes_next(s, tokens_from(patches, at) + seq!["}"@]),
    ensures
        fields::boundary_body(s, found) == Ok::<(Seq<PatchView>, Stream), Failure>(
            (
                found + patches_read(patches, at),
                token_readback::ahead(s, tokens_from(patches, at).len() + 1),
            ),
        ),
    decreases patches.len() - at,
{
    let end = seq!["}"@];
    if at >= patches.len() {
        assert(tokens_from(patches, at) + end =~= end);
        token_readback::lemma_take_one(s, end);
        assert(found + patches_read(patches, at) =~= found);
    } else {
        let patch = patches[at];
        assert(is_readable_patch(patch));
        lemma_marks_differ();
        token_readback::lemma_token_leads(patch.name@, 0);
        let rest = tokens_from(patches, at + 1) + end;
        let whole = patch_tokens(patch);
        assert(tokens_from(patches, at) + end =~= whole + rest);
        token_readback::lemma_take_part(s, whole, rest);
        token_readback::lemma_take_one(s, whole);
        let inner = type_entry(patch.patch_type) + opt_entry("inletValue"@, patch.inlet_value)
            + opt_entry("value"@, patch.value) + end;
        assert(whole =~= seq![patch.name@, "{"@] + inner);
        assert(whole.skip(1) =~= seq!["{"@] + inner);
        token_readback::lemma_take_one(s.next(), whole.skip(1));
        assert(whole.skip(1).skip(1) =~= inner);
        let inside = s.next().next();
        lemma_read_patch(inside, patch);
        let after = token_readback::ahead(s, whole.len());
        assert(token_readback::ahead(inside, (whole.len() - 2) as nat) == after);
        lemma_read_patches(after, patches, at + 1, found.push(patch_read(patch)));
        assert(found.push(patch_read(patch)) + patches_read(patches, at + 1) =~= found
            + patches_read(patches, at));
        assert(token_readback::ahead(after, tokens_from(patches, at + 1).len() + 1)
            == token_readback::ahead(s, tokens_from(patches, at).len() + 1));
    }
}

/// A field file is read from its tokens.
proof fn lemma_read_file(
    s: Stream,
    field: OutputField,
    location: Seq<char>,
    object: Seq<char>,
    class_name: Seq<char>,
    units: Seq<Seq<char>>,
    kind: Seq<char>,
    items: Seq<Seq<char>>,
    none: FieldParts,
)
    requires
        s.at == 0,
        token_readback::values_of(s.tokens) == file_tokens(
            field,
            location,
            object,
            class_name,
            units,
            kind,
            items,
        ),
        token_readback::is_token(class_name),
        token_readback::is_token(object),
        is_location(location),
        token_readback::all_tokens(units),
        token_readback::is_token(kind),
        are_items(items),
        forall|i: int|
            0 <= i < field.boundary_patches@.len() ==> is_readable_patch(
                #[trigger] field.boundary_patches@[i],
            ),
    ensures
        fields::field_file(s, none) == Ok::<FieldParts, Failure>(
            FieldParts {
                header: Header { class_name: Some(class_name), object_name: Some(object) },
                dimensions: Some(units),
                internal_field: Some(
                    fields::value_of(list_tokens(kind, items.len(), items)),
                ),
                boundary_patches: patches_read(field.boundary_patches@, 0),
            },
        ),
{
    lemma_head_words();
    lemma_marks_differ();
    let patches = field.boundary_patches@;
    let head = seq!["FoamFile"@, "{"@] + head_tokens(class_name, location, object) + seq!["}"@];
    let size = seq!["dimensions"@, "["@] + units + seq!["]"@, ";"@];
    let list = list_tokens(kind, items.len(), items);
    let inner = entry_tokens("internalField"@, list);
    let edge = seq!["boundaryField"@, "{"@] + tokens_from(patches, 0) + seq!["}"@];
    let r3 = inner + edge;
    let r2 = size + r3;
    let all = head + r2;
    assert(file_tokens(field, location, object, class_name, units, kind, items) =~= all);
    assert(token_readback::comes_next(s, all)) by {
        assert(token_readback::values_of(s.tokens).len() == s.tokens.len());
        assert forall|i: int| 0 <= i < all.len() implies s.tokens[s.at + i].value
            == #[trigger] all[i] by {
            assert(token_readback::values_of(s.tokens)[i] == all[i]);
        }
    }
    token_readback::lemma_take_part(s, head, r2);
    token_readback::lemma_take_one(s, head);
    assert(head.skip(1) =~= seq!["{"@] + head_tokens(class_name, location, object) + seq!["}"@]);
    lemma_header(s.next(), class_name, location, object);
    assert(head.len() == 18);
    let s1 = token_readback::ahead(s, head.len());
    assert(token_readback::ahead(s.next(), 17) == s1);
    let header = Header { class_name: Some(class_name), object_name: Some(object) };
    let p1 = FieldParts { header, ..none };
    assert(fields::field_file(s, none) == fields::field_file(s1, p1));

    token_readback::lemma_take_part(s1, size, r3);
    token_readback::lemma_take_one(s1, size);
    assert(size.skip(1) =~= seq!["["@] + units + seq!["]"@, ";"@]);
    lemma_read_dimensions(s1.next(), units);
    let s2 = token_readback::ahead(s1, size.len());
    assert(token_readback::ahead(s1.next(), units.len() + 3) == s2);
    let p2 = FieldParts { dimensions: Some(units), ..p1 };
    assert(fields::field_file(s1, p1) == fields::field_file(s2, p2));

    token_readback::lemma_take_part(s2, inner, edge);
    lemma_list_fits(kind, items.len(), items);
    lemma_read_entry(s2, "internalField"@, list);
    let s3 = token_readback::ahead(s2, inner.len());
    let p3 = FieldParts { internal_field: Some(fields::value_of(list)), ..p2 };
    assert(fields::field_file(s2, p2) == fields::field_file(s3, p3));

    token_readback::lemma_take_one(s3, edge);
    let opened = edge.skip(1);
    assert(opened =~= seq!["{"@] + (tokens_from(patches, 0) + seq!["}"@]));
    token_readback::lemma_take_one(s3.next(), opened);
    assert(opened.skip(1) =~= tokens_from(patches, 0) + seq!["}"@]);
    let inside = s3.next().next();
    lemma_read_patches(inside, patches, 0, Seq::empty());
    assert(Seq::<PatchView>::empty() + patches_read(patches, 0) =~= patches_read(patches, 0));
    let s4 = token_readback::ahead(s3, edge.len());
    assert(token_readback::ahead(inside, tokens_from(patches, 0).len() + 1) == s4);
    let p4 = FieldParts { boundary_patches: patches_read(patches, 0), ..p3 };
    assert(fields::field_file(s3, p3) == fields::field_file(s4, p4));
    assert(s.tokens.len() == all.len());
    assert(s4.ended());
}

/// What a list is read as: its kind and how many items it has.
proof fn lemma_list_value(kind: Seq<char>, count: nat, items: Seq<Seq<char>>)
    requires
        token_readback::is_token(kind),
        text::natural(kind, usize::MAX as nat) is None,
        count <= usize::MAX,
    ensures
        fields::value_of(list_tokens(kind, count, items)) == (ValueView::NonUniform {
            value_type: Some(kind),
            count: Some(count),
        }),
{
    lemma_keywords();
    reveal_strlit("uniform");
    reveal_strlit("nonuniform");
    let list = list_tokens(kind, count, items);
    assert(list[0] == "nonuniform"@);
    assert(list[1] == kind);
    assert(list[2] == text::decimal(count));
    assert("nonuniform"@ != "uniform"@) by {
        assert("nonuniform"@.len() == 10);
        assert("uniform"@.len() == 7);
    }
    assert(!text::is_digit("nonuniform"@[0]) && "nonuniform"@[0] != '+');
    assert(text::natural("nonuniform"@, usize::MAX as nat) is None);
    text::natural_reads_decimal(count, usize::MAX as nat);
    assert(list.skip(1)[0] == kind);
    assert(list.skip(1).skip(1)[0] == text::decimal(count));
    assert(fields::first_number(list.skip(1).skip(1)) == Some(count));
    assert(fields::first_number(list.skip(1)) == Some(count));
}

/// A field that is written is read: the reader finds its object, class and
/// dimensions, the kind and number of its interior values, and its patches with
/// their types and values.
pub proof fn written_field_is_read(
    field: OutputField,
    location: Seq<char>,
    object: Seq<char>,
    class_name: Seq<char>,
    fallback: Seq<Seq<char>>,
    kind: Seq<char>,
    items: Seq<Seq<char>>,
    path: Seq<char>,
    region: Option<Seq<char>>,
)
    requires
        token_readback::is_token(
            layout::text_or(text::opt_text(field.class_name), class_name),
        ),
        token_readback::is_token(object),
        is_location(location),
        token_readback::all_tokens(units_of(field.dimensions, fallback)),
        foam_field::list_components(kind) is Some,
        items.len() <= usize::MAX,
        all_lines(items),
        are_items(items),
        forall|i: int|
            0 <= i < field.boundary_patches@.len() ==> is_readable_patch(
                #[trigger] field.boundary_patches@[i],
            ),
    ensures
        ({
            let written = foam_field::field_text(
                field,
                location,
                object,
                class_name,
                text::join(fallback, " "@),
                kind,
                items,
            );
            &&& written is Ok
            &&& fields::field_of(written->Ok_0, path, region) == Ok::<FieldView, Failure>(
                FieldView {
                    path,
                    region,
                    name: object,
                    class_name: Some(
                        layout::text_or(text::opt_text(field.class_name), class_name),
                    ),
                    dimensions: Some(units_of(field.dimensions, fallback)),
                    internal_field: Some(
                        ValueView::NonUniform { value_type: Some(kind), count: Some(items.len()) },
                    ),
                    boundary_patches: patches_read(field.boundary_patches@, 0),
                },
            )
        }),
{
    let class = layout::text_or(text::opt_text(field.class_name), class_name);
    let units = units_of(field.dimensions, fallback);
    lemma_kinds(kind);
    lemma_file_lines(field, location, object, class_name, fallback, kind, items);
    let lines = foam_field::interior_lines(
        field,
        location,
        object,
        class_name,
        text::join(fallback, " "@),
        kind,
        items,
    ) + foam_field::boundary_lines(field.boundary_patches@)->Ok_0;
    let content = layout::lines_text(lines);
    readback::lines_are_read(lines);
    token_readback::tokens_are_chunks(lines);
    let stream = Stream { path, tokens: dictionary::tokens(content, Dialect::Square), at: 0 };
    let none = FieldParts {
        header: Header { class_name: None, object_name: None },
        dimensions: None,
        internal_field: None,
        boundary_patches: Seq::empty(),
    };
    lemma_read_file(stream, field, location, object, class, units, kind, items, none);
    lemma_list_value(kind, items.len(), items);
}

/// Whether a list of vectors is made of words.
pub open spec fn are_vectors(values: Seq<(String, String, String)>) -> bool {
    forall|i: int|
        0 <= i < values.len() ==> token_readback::is_token((#[trigger] values[i]).0@)
            && token_readback::is_token(values[i].1@) && token_readback::is_token(values[i].2@)
}

/// The lines of vectors are items of a list.
pub proof fn vectors_are_items(values: Seq<(String, String, String)>)
    requires
        are_vectors(values),
    ensures
        all_lines(foam_field::vector_items(values)),
        are_items(foam_field::vector_items(values)),
{
    let items = foam_field::vector_items(values);
    reveal_strlit("    (");
    reveal_strlit("(");
    assert forall|i: int| 0 <= i < items.len() implies readback::is_line(#[trigger] items[i])
        && token_readback::leads(token_readback::chunks(items[i], Seq::empty()), 1, 1) by {
        let value = values[i];
        assert(token_readback::is_token(value.0@));
        lemma_vector_item(4, value.0@, value.1@, value.2@);
        assert(items[i] =~= json::blanks(4) + ("("@ + value.0@ + " "@ + value.1@ + " "@ + value.2@
            + ")"@));
    }
}

/// The lines of numbers are items of a list.
pub proof fn numbers_are_items(values: Seq<String>)
    requires
        forall|i: int|
            0 <= i < values.len() ==> token_readback::is_token((#[trigger] values[i])@),
    ensures
        all_lines(foam_field::scalar_items(values)),
        are_items(foam_field::scalar_items(values)),
{
    let items = foam_field::scalar_items(values);
    reveal_strlit("    ");
    assert forall|i: int| 0 <= i < items.len() implies readback::is_line(#[trigger] items[i])
        && token_readback::leads(token_readback::chunks(items[i], Seq::empty()), 1, 1) by {
        assert(token_readback::is_token(values[i]@));
        lemma_scalar_item(4, values[i]@);
        assert(items[i] =~= json::blanks(4) + values[i]@);
    }
}

} // verus!
