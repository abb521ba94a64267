//! What the tokenizer makes of lines that are put together from words.

use crate::dictionary;
use crate::dictionary::{Dialect, Stream, TokenView};
use crate::json;
use crate::text;
use crate::text::CharClass;
use vstd::prelude::*;

verus! {

/// The texts of tokens.
pub open spec fn values_of(tokens: Seq<TokenView>) -> Seq<Seq<char>> {
    Seq::new(tokens.len(), |i: int| tokens[i].value)
}

/// The token of the characters collected so far.
pub open spec fn word_value(word: Seq<char>) -> Seq<Seq<char>> {
    if word.len() == 0 {
        Seq::empty()
    } else {
        seq![text::strip(CharClass::Only('"'), word)]
    }
}

/// Whether a character is a token of its own.
pub open spec fn is_mark(ch: char) -> bool {
    dictionary::is_mark(ch, Dialect::Square)
}

/// The texts of the tokens of the rest of a line, after the characters `word`
/// of a token that is not yet complete.
pub open spec fn chunks(s: Seq<char>, word: Seq<char>) -> Seq<Seq<char>>
    decreases s.len(),
{
    if s.len() == 0 || dictionary::is_comment(s) {
        word_value(word)
    } else if s[0] == '"' && 0 < dictionary::quoted_len(s) <= s.len() {
        chunks(s.skip(dictionary::quoted_len(s)), word + s.take(dictionary::quoted_len(s)))
    } else if text::is_space(s[0]) {
        word_value(word) + chunks(s.skip(1), Seq::empty())
    } else if is_mark(s[0]) {
        word_value(word).push(seq![s[0]]) + chunks(s.skip(1), Seq::empty())
    } else {
        chunks(s.skip(1), word.push(s[0]))
    }
}

/// The texts of the tokens of lines.
pub open spec fn all_chunks(lines: Seq<Seq<char>>) -> Seq<Seq<char>>
    decreases lines.len(),
{
    if lines.len() == 0 {
        Seq::empty()
    } else {
        all_chunks(lines.drop_last()) + chunks(lines.last(), Seq::empty())
    }
}

proof fn lemma_values_append(head: Seq<TokenView>, tail: Seq<TokenView>)
    ensures
        values_of(head + tail) == values_of(head) + values_of(tail),
{
    assert(values_of(head + tail) =~= values_of(head) + values_of(tail));
}

proof fn lemma_word_values(word: Seq<char>, line: nat)
    ensures
        values_of(dictionary::word_token(word, line)) == word_value(word),
{
    assert(values_of(dictionary::word_token(word, line)) =~= word_value(word));
}

proof fn lemma_line_values(before: Seq<TokenView>, s: Seq<char>, word: Seq<char>, line: nat)
    ensures
        values_of(dictionary::line_tokens(before, s, word, line, Dialect::Square)) == values_of(
            before,
        ) + chunks(s, word),
    decreases s.len(),
{
    let added = dictionary::word_token(word, line);
    lemma_word_values(word, line);
    lemma_values_append(before, added);
    if s.len() == 0 || dictionary::is_comment(s) {
    } else if s[0] == '"' && 0 < dictionary::quoted_len(s) <= s.len() {
        let n = dictionary::quoted_len(s);
        lemma_line_values(before, s.skip(n), word + s.take(n), line);
    } else if text::is_space(s[0]) {
        lemma_line_values(before + added, s.skip(1), Seq::empty(), line);
        assert(values_of(before) + word_value(word) + chunks(s.skip(1), Seq::empty()) =~= values_of(
            before,
        ) + (word_value(word) + chunks(s.skip(1), Seq::empty())));
    } else if is_mark(s[0]) {
        let mark = TokenView { value: seq![s[0]], line };
        let grown = (before + added).push(mark);
        lemma_line_values(grown, s.skip(1), Seq::empty(), line);
        assert(values_of(grown) =~= values_of(before) + word_value(word).push(seq![s[0]]));
        assert(values_of(before) + word_value(word).push(seq![s[0]]) + chunks(
            s.skip(1),
            Seq::empty(),
        ) =~= values_of(before) + (word_value(word).push(seq![s[0]]) + chunks(
            s.skip(1),
            Seq::empty(),
        )));
    } else {
        lemma_line_values(before, s.skip(1), word.push(s[0]), line);
    }
}

/// The tokens of lines, by their texts.
pub proof fn tokens_are_chunks(lines: Seq<Seq<char>>)
    ensures
        values_of(dictionary::lines_tokens(lines, Dialect::Square)) == all_chunks(lines),
    decreases lines.len(),
{
    if lines.len() > 0 {
        tokens_are_chunks(lines.drop_last());
        lemma_line_values(
            dictionary::lines_tokens(lines.drop_last(), Dialect::Square),
            lines.last(),
            Seq::empty(),
            lines.len(),
        );
    } else {
        assert(values_of(dictionary::lines_tokens(lines, Dialect::Square)) =~= all_chunks(lines));
    }
}

/// The tokens of two lists of lines are those of the first and those of the
/// second.
pub proof fn lemma_chunks_append(head: Seq<Seq<char>>, tail: Seq<Seq<char>>)
    ensures
        all_chunks(head + tail) == all_chunks(head) + all_chunks(tail),
    decreases tail.len(),
{
    if tail.len() == 0 {
        assert(head + tail =~= head);
        assert(all_chunks(head) + all_chunks(tail) =~= all_chunks(head));
    } else {
        assert((head + tail).drop_last() =~= head + tail.drop_last());
        assert((head + tail).last() == tail.last());
        lemma_chunks_append(head, tail.drop_last());
        assert(all_chunks(head) + all_chunks(tail.drop_last()) + chunks(tail.last(), Seq::empty())
            =~= all_chunks(head) + (all_chunks(tail.drop_last()) + chunks(
            tail.last(),
            Seq::empty(),
        )));
    }
}

/// Whether a text holds neither quotes nor slashes.
pub open spec fn is_bland(s: Seq<char>) -> bool {
    forall|i: int| 0 <= i < s.len() ==> #[trigger] s[i] != '"' && s[i] != '/'
}

/// Whether a text is a token: without white space, marks, quotes and slashes.
pub open spec fn is_token(s: Seq<char>) -> bool {
    s.len() > 0 && forall|i: int|
        0 <= i < s.len() ==> {
            let ch = #[trigger] s[i];
            ch != '"' && ch != '/' && !text::is_space(ch) && !is_mark(ch)
        }
}

/// Whether a token ends where a text begins.
pub open spec fn starts_apart(s: Seq<char>) -> bool {
    s.len() == 0 || text::is_space(s[0]) || is_mark(s[0])
}

/// The tokens of a text that is followed by another are those of the one and
/// those of the other, where no token reaches from the one into the other.
pub proof fn lemma_chunks_split(s: Seq<char>, word: Seq<char>, rest: Seq<char>)
    requires
        is_bland(s),
        starts_apart(rest),
    ensures
        chunks(s + rest, word) == chunks(s, word) + chunks(rest, Seq::empty()),
    decreases s.len(),
{
    let all = s + rest;
    if s.len() == 0 {
        assert(all =~= rest);
        assert(word_value(Seq::<char>::empty()) =~= Seq::empty());
        if rest.len() == 0 {
            assert(chunks(rest, Seq::empty()) =~= Seq::empty());
            assert(chunks(s, word) + chunks(rest, Seq::empty()) =~= word_value(word));
        } else {
            lemma_mark_chars(rest[0]);
            let tail = chunks(rest.skip(1), Seq::empty());
            if text::is_space(rest[0]) {
                assert(word_value(Seq::<char>::empty()) + tail =~= tail);
            } else {
                let mark = seq![rest[0]];
                assert(word_value(Seq::<char>::empty()).push(mark) + tail =~= seq![mark] + tail);
                assert(word_value(word).push(mark) + tail =~= word_value(word) + (seq![mark]
                    + tail));
            }
        }
    } else {
        assert(all[0] == s[0]);
        assert(all.skip(1) =~= s.skip(1) + rest);
        assert(s[0] != '"' && s[0] != '/');
        assert(is_bland(s.skip(1))) by {
            assert forall|i: int| 0 <= i < s.skip(1).len() implies #[trigger] s.skip(1)[i] != '"'
                && s.skip(1)[i] != '/' by {
                assert(s.skip(1)[i] == s[i + 1]);
            }
        }
        if text::is_space(s[0]) {
            lemma_chunks_split(s.skip(1), Seq::empty(), rest);
            assert(word_value(word) + (chunks(s.skip(1), Seq::empty()) + chunks(
                rest,
                Seq::empty(),
            )) =~= chunks(s, word) + chunks(rest, Seq::empty()));
        } else if is_mark(s[0]) {
            lemma_chunks_split(s.skip(1), Seq::empty(), rest);
            assert(word_value(word).push(seq![s[0]]) + (chunks(s.skip(1), Seq::empty()) + chunks(
                rest,
                Seq::empty(),
            )) =~= chunks(s, word) + chunks(rest, Seq::empty()));
        } else {
            lemma_chunks_split(s.skip(1), word.push(s[0]), rest);
        }
    }
}

proof fn lemma_mark_chars(ch: char)
    requires
        text::is_space(ch) || is_mark(ch),
    ensures
        ch != '"',
        ch != '/',
{
}

proof fn lemma_chunks_word(s: Seq<char>, word: Seq<char>)
    requires
        s.len() == 0 || is_token(s),
    ensures
        chunks(s, word) == word_value(word + s),
    decreases s.len(),
{
    if s.len() == 0 {
        assert(word + s =~= word);
    } else {
        let ch = s[0];
        assert(ch != '"' && ch != '/' && !text::is_space(ch) && !is_mark(ch));
        if s.len() > 1 {
            assert(is_token(s.skip(1))) by {
                assert forall|i: int| 0 <= i < s.skip(1).len() implies {
                    let ch = #[trigger] s.skip(1)[i];
                    ch != '"' && ch != '/' && !text::is_space(ch) && !is_mark(ch)
                } by {
                    assert(s.skip(1)[i] == s[i + 1]);
                }
            }
        }
        lemma_chunks_word(s.skip(1), word.push(ch));
        assert(word.push(ch) + s.skip(1) =~= word + s);
    }
}

/// A token is the token of its text.
pub proof fn lemma_token(s: Seq<char>)
    requires
        is_token(s),
    ensures
        chunks(s, Seq::empty()) == seq![s],
        is_bland(s),
{
    lemma_chunks_word(s, Seq::empty());
    assert(Seq::<char>::empty() + s =~= s);
    let first = s[0];
    assert(first != '"');
    let last = s[s.len() - 1];
    assert(last != '"');
    assert forall|i: int| 0 <= i < s.len() implies #[trigger] s[i] != '"' && s[i] != '/' by {
        let ch = s[i];
        assert(ch != '"' && ch != '/');
    }
}

/// A blank in front of a text adds no token.
pub proof fn lemma_blank(rest: Seq<char>)
    ensures
        chunks(seq![' '] + rest, Seq::empty()) == chunks(rest, Seq::empty()),
{
    let all = seq![' '] + rest;
    assert(all[0] == ' ');
    assert(all.skip(1) =~= rest);
    assert(word_value(Seq::<char>::empty()) + chunks(rest, Seq::empty()) =~= chunks(
        rest,
        Seq::empty(),
    ));
}

/// A mark in front of a text is a token.
pub proof fn lemma_mark(ch: char, rest: Seq<char>)
    requires
        is_mark(ch),
        !text::is_space(ch),
    ensures
        chunks(seq![ch] + rest, Seq::empty()) == seq![seq![ch]] + chunks(rest, Seq::empty()),
{
    let all = seq![ch] + rest;
    assert(all[0] == ch);
    assert(all.skip(1) =~= rest);
    lemma_mark_chars(ch);
    assert(word_value(Seq::<char>::empty()).push(seq![ch]) =~= seq![seq![ch]]);
}

/// Blanks in front of a text add no token.
pub proof fn lemma_indent(n: nat, rest: Seq<char>)
    ensures
        chunks(json::blanks(n) + rest, Seq::empty()) == chunks(rest, Seq::empty()),
    decreases n,
{
    if n == 0 {
        assert(json::blanks(n) + rest =~= rest);
    } else {
        let less = (n - 1) as nat;
        lemma_indent(less, rest);
        lemma_blank(json::blanks(less) + rest);
        assert(json::blanks(n) + rest =~= seq![' '] + (json::blanks(less) + rest));
    }
}

/// A keyword and a value, closed by a semicolon, are these tokens.
pub proof fn lemma_entry(keyword: Seq<char>, value: Seq<char>)
    requires
        is_token(keyword),
        is_bland(value),
    ensures
        chunks(keyword + " "@ + value + ";"@, Seq::empty()) == seq![keyword] + chunks(
            value,
            Seq::empty(),
        ) + seq![";"@],
{
    reveal_strlit(" ");
    reveal_strlit(";");
    lemma_token(keyword);
    let tail = seq![' '] + (value + ";"@);
    lemma_chunks_split(keyword, Seq::empty(), tail);
    lemma_blank(value + ";"@);
    lemma_chunks_split(value, Seq::empty(), ";"@);
    lemma_mark(';', Seq::empty());
    assert(seq![';'] + Seq::<char>::empty() =~= ";"@);
    assert(";"@ =~= seq![';']);
    assert(chunks(Seq::<char>::empty(), Seq::empty()) =~= Seq::<Seq<char>>::empty());
    assert(chunks(";"@, Seq::empty()) =~= seq![";"@]);
    assert(keyword + " "@ + value + ";"@ =~= keyword + tail);
    assert(seq![keyword] + (chunks(value, Seq::empty()) + seq![";"@]) =~= seq![keyword] + chunks(
        value,
        Seq::empty(),
    ) + seq![";"@]);
}

/// Whether every part is a token.
pub open spec fn all_tokens(parts: Seq<Seq<char>>) -> bool {
    forall|i: int| 0 <= i < parts.len() ==> is_token(#[trigger] parts[i])
}

/// Tokens with blanks between them are these tokens.
pub proof fn lemma_joined_tokens(parts: Seq<Seq<char>>)
    requires
        all_tokens(parts),
    ensures
        chunks(text::join(parts, " "@), Seq::empty()) == parts,
        is_bland(text::join(parts, " "@)),
    decreases parts.len(),
{
    reveal_strlit(" ");
    if parts.len() == 0 {
        assert(chunks(Seq::<char>::empty(), Seq::empty()) =~= parts);
    } else if parts.len() == 1 {
        assert(is_token(parts[0]));
        lemma_token(parts[0]);
        assert(parts =~= seq![parts[0]]);
    } else {
        let shorter = parts.drop_last();
        assert(all_tokens(shorter)) by {
            assert forall|i: int| 0 <= i < shorter.len() implies is_token(#[trigger] shorter[i]) by {
                assert(shorter[i] == parts[i]);
            }
        }
        lemma_joined_tokens(shorter);
        let head = text::join(shorter, " "@);
        let last = parts.last();
        assert(is_token(parts[parts.len() - 1]));
        lemma_token(last);
        let tail = seq![' '] + last;
        lemma_chunks_split(head, Seq::empty(), tail);
        lemma_blank(last);
        assert(head + " "@ + last =~= head + tail);
        assert(shorter + seq![last] =~= parts);
        let all = head + " "@ + last;
        assert forall|i: int| 0 <= i < all.len() implies #[trigger] all[i] != '"' && all[i]
            != '/' by {
            if i < head.len() {
                assert(all[i] == head[i]);
            } else if i > head.len() {
                assert(all[i] == last[i - head.len() - 1]);
            }
        }
    }
}

/// Whether the next tokens of a stream are these.
pub open spec fn comes_next(s: Stream, part: Seq<Seq<char>>) -> bool {
    &&& s.at + part.len() <= s.tokens.len()
    &&& forall|i: int|
        0 <= i < part.len() ==> s.tokens[s.at + i].value == #[trigger] part[i]
}

/// The stream further on.
pub open spec fn ahead(s: Stream, n: nat) -> Stream {
    Stream { at: s.at + n, ..s }
}

/// Whether tokens make up a value that is open at bracket depth `depth`.
pub open spec fn fits(part: Seq<Seq<char>>, depth: nat) -> bool
    decreases part.len(),
{
    if part.len() == 0 {
        depth == 0
    } else {
        !(depth == 0 && (part[0] == ";"@ || part[0] == "}"@)) && fits(
            part.skip(1),
            dictionary::depth_after(part[0], depth),
        )
    }
}

/// The tokens up to the first are taken, and the rest comes next.
pub proof fn lemma_take_one(s: Stream, part: Seq<Seq<char>>)
    requires
        comes_next(s, part),
        part.len() > 0,
    ensures
        !s.ended(),
        s.value() == part[0],
        comes_next(s.next(), part.skip(1)),
        s.next() == ahead(s, 1),
{
    assert(s.tokens[s.at as int].value == part[0]);
    let rest = part.skip(1);
    assert forall|i: int| 0 <= i < rest.len() implies s.next().tokens[s.next().at + i].value
        == #[trigger] rest[i] by {
        assert(rest[i] == part[i + 1]);
    }
}

/// A part of what comes next comes next, and the rest behind it.
pub proof fn lemma_take_part(s: Stream, head: Seq<Seq<char>>, tail: Seq<Seq<char>>)
    requires
        comes_next(s, head + tail),
    ensures
        comes_next(s, head),
        comes_next(ahead(s, head.len()), tail),
{
    let all = head + tail;
    assert forall|i: int| 0 <= i < head.len() implies s.tokens[s.at + i].value
        == #[trigger] head[i] by {
        assert(all[i] == head[i]);
    }
    let later = ahead(s, head.len());
    assert forall|i: int| 0 <= i < tail.len() implies later.tokens[later.at + i].value
        == #[trigger] tail[i] by {
        assert(all[head.len() + i] == tail[i]);
    }
}

/// A value that is written is read: its tokens are found, and the semicolon
/// behind it is taken.
pub proof fn lemma_value(s: Stream, part: Seq<Seq<char>>, depth: nat)
    requires
        comes_next(s, part + seq![";"@]),
        fits(part, depth),
    ensures
        s.value_tokens(depth) == part,
        s.value_end(depth) == ahead(s, part.len() + 1),
    decreases part.len(),
{
    let all = part + seq![";"@];
    lemma_take_one(s, all);
    if part.len() == 0 {
        assert(all[0] == ";"@);
        assert(s.value_tokens(depth) =~= part);
    } else {
        assert(all[0] == part[0]);
        assert(all.skip(1) =~= part.skip(1) + seq![";"@]);
        lemma_value(s.next(), part.skip(1), dictionary::depth_after(part[0], depth));
        assert(seq![part[0]] + part.skip(1) =~= part);
        assert(ahead(s.next(), (part.skip(1).len() + 1) as nat) == ahead(s, part.len() + 1));
    }
}

/// A value behind a value is a value.
pub proof fn lemma_fits_append(head: Seq<Seq<char>>, tail: Seq<Seq<char>>, depth: nat, inner: nat)
    requires
        leads(head, depth, inner),
        fits(tail, inner),
    ensures
        fits(head + tail, depth),
    decreases head.len(),
{
    if head.len() == 0 {
        assert(head + tail =~= tail);
    } else {
        assert((head + tail)[0] == head[0]);
        assert((head + tail).skip(1) =~= head.skip(1) + tail);
        lemma_fits_append(head.skip(1), tail, dictionary::depth_after(head[0], depth), inner);
    }
}

/// Whether tokens lead from one bracket depth to another without ending the
/// value.
pub open spec fn leads(part: Seq<Seq<char>>, depth: nat, inner: nat) -> bool
    decreases part.len(),
{
    if part.len() == 0 {
        depth == inner
    } else {
        !(depth == 0 && (part[0] == ";"@ || part[0] == "}"@)) && leads(
            part.skip(1),
            dictionary::depth_after(part[0], depth),
            inner,
        )
    }
}

/// Tokens that lead on behind tokens that lead on.
pub proof fn lemma_leads_append(
    head: Seq<Seq<char>>,
    tail: Seq<Seq<char>>,
    depth: nat,
    middle: nat,
    inner: nat,
)
    requires
        leads(head, depth, middle),
        leads(tail, middle, inner),
    ensures
        leads(head + tail, depth, inner),
    decreases head.len(),
{
    if head.len() == 0 {
        assert(head + tail =~= tail);
    } else {
        assert((head + tail)[0] == head[0]);
        assert((head + tail).skip(1) =~= head.skip(1) + tail);
        lemma_leads_append(
            head.skip(1),
            tail,
            dictionary::depth_after(head[0], depth),
            middle,
            inner,
        );
    }
}

/// A token is no mark, so it changes no depth and ends no value.
pub proof fn lemma_token_leads(word: Seq<char>, depth: nat)
    requires
        is_token(word),
    ensures
        dictionary::depth_after(word, depth) == depth,
        word != ";"@,
        word != "}"@,
        word != "{"@,
        word != "]"@,
        leads(seq![word], depth, depth),
{
    reveal_strlit("(");
    reveal_strlit(")");
    reveal_strlit("[");
    reveal_strlit("]");
    reveal_strlit("{");
    reveal_strlit("}");
    reveal_strlit(";");
    let ch = word[0];
    assert(!is_mark(ch));
    let part = seq![word];
    assert(part[0] == word);
    assert(part.skip(1) =~= Seq::<Seq<char>>::empty());
    assert(leads(part.skip(1), depth, depth));
}

} // verus!
