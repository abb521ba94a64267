//! Tokens of a dictionary file and a cursor over them.

use crate::error::{Failure, MeshError};
use crate::text;
use crate::text::CharClass;
use vstd::prelude::*;

verus! {

/// Sections nested deeper than this are refused.
pub const MAX_DICTIONARY_NESTING: usize = 64;

/// A token and the number of the line that it stands on, counted from one.
#[derive(Clone, Debug)]
pub struct Token {
    pub value: String,
    pub line: usize,
}

/// The mathematical view of a [`Token`].
pub struct TokenView {
    pub value: Seq<char>,
    pub line: nat,
}

impl View for Token {
    type V = TokenView;

    open spec fn view(&self) -> TokenView {
        TokenView { value: self.value@, line: self.line as nat }
    }
}

/// The views of the tokens of a vector.
pub open spec fn token_views(tokens: Seq<Token>) -> Seq<TokenView> {
    Seq::new(tokens.len(), |i: int| tokens[i]@)
}

/// How the characters of a file make up tokens.
#[derive(Clone, Copy, Debug, Eq, PartialEq, Structural)]
pub enum Dialect {
    /// Square brackets belong to words.
    Round,
    /// Square brackets are tokens.
    Square,
    /// Square brackets are tokens, and a keyword may carry arguments, as in
    /// `div(phi,U)`.
    Keywords,
}

/// Whether `ch` is a token of its own.
pub open spec fn is_mark(ch: char, dialect: Dialect) -> bool {
    ||| ch == '{'
    ||| ch == '}'
    ||| ch == '('
    ||| ch == ')'
    ||| ch == ';'
    ||| dialect != Dialect::Round && (ch == '[' || ch == ']')
}

/// Whether the characters `s` open with two slashes.
pub open spec fn is_comment(s: Seq<char>) -> bool {
    s.len() > 1 && s[0] == '/' && s[1] == '/'
}

/// How many characters of `s` it takes to close `depth` brackets; none where a
/// blank, a quote, a comment or another mark comes first.
pub open spec fn arguments_len(s: Seq<char>, depth: int) -> Option<int>
    decreases s.len(),
{
    if s.len() == 0 || is_comment(s) || text::is_space(s[0]) || s[0] == '"' {
        None
    } else if s[0] == ')' && depth <= 1 {
        Some(1)
    } else if s[0] != '(' && s[0] != ')' && is_mark(s[0], Dialect::Keywords) {
        None
    } else {
        let deeper: int = if s[0] == '(' {
            depth + 1
        } else if s[0] == ')' {
            depth - 1
        } else {
            depth
        };
        match arguments_len(s.skip(1), deeper) {
            Some(n) => Some(n + 1),
            None => None,
        }
    }
}

/// Whether the token behind the tokens `before` is a keyword: the first of a
/// statement.
pub open spec fn at_keyword(before: Seq<TokenView>) -> bool {
    before.len() == 0 || before.last().value == "{"@ || before.last().value == "}"@
        || before.last().value == ";"@
}

/// How many characters of `s` the arguments of the keyword `word` take, which
/// follows the tokens `before`.
pub open spec fn keyword_arguments(
    before: Seq<TokenView>,
    s: Seq<char>,
    word: Seq<char>,
    dialect: Dialect,
) -> int {
    if dialect == Dialect::Keywords && at_keyword(before) && word.len() > 0 && s.len() > 0 && s[0]
        == '(' {
        match arguments_len(s, 0) {
            Some(n) => n,
            None => 0,
        }
    } else {
        0
    }
}

/// The token of the characters collected so far, without the quotes round it.
pub open spec fn word_token(word: Seq<char>, line: nat) -> Seq<TokenView> {
    if word.len() == 0 {
        Seq::empty()
    } else {
        seq![TokenView { value: text::strip(CharClass::Only('"'), word), line }]
    }
}

/// How many characters of `s` its leading quotation takes: up to the closing
/// quote, or to the end of the line where there is none.
pub open spec fn quoted_len(s: Seq<char>) -> int {
    match text::find(s.skip(1), '"') {
        Some(at) => at + 2,
        None => s.len() as int,
    }
}

/// The tokens `before` and those of the rest `s` of a line after the characters
/// `word` of a token that is not yet complete.
pub open spec fn line_tokens(
    before: Seq<TokenView>,
    s: Seq<char>,
    word: Seq<char>,
    line: nat,
    dialect: Dialect,
) -> Seq<TokenView>
    decreases s.len(),
{
    if s.len() == 0 || is_comment(s) {
        before + word_token(word, line)
    } else if s[0] == '"' && 0 < quoted_len(s) <= s.len() {
        line_tokens(before, s.skip(quoted_len(s)), word + s.take(quoted_len(s)), line, dialect)
    } else if text::is_space(s[0]) {
        line_tokens(before + word_token(word, line), s.skip(1), Seq::empty(), line, dialect)
    } else if 0 < keyword_arguments(before, s, word, dialect) <= s.len() {
        let n = keyword_arguments(before, s, word, dialect);
        line_tokens(before, s.skip(n), word + s.take(n), line, dialect)
    } else if is_mark(s[0], dialect) {
        let mark = TokenView { value: seq![s[0]], line };
        line_tokens(
            (before + word_token(word, line)).push(mark),
            s.skip(1),
            Seq::empty(),
            line,
            dialect,
        )
    } else {
        line_tokens(before, s.skip(1), word.push(s[0]), line, dialect)
    }
}

/// The tokens of the lines of a file.
pub open spec fn lines_tokens(lines: Seq<Seq<char>>, dialect: Dialect) -> Seq<TokenView>
    decreases lines.len(),
{
    if lines.len() == 0 {
        Seq::empty()
    } else {
        line_tokens(
            lines_tokens(lines.drop_last(), dialect),
            lines.last(),
            Seq::empty(),
            lines.len(),
            dialect,
        )
    }
}

/// The tokens of a dictionary file.
pub open spec fn tokens(content: Seq<char>, dialect: Dialect) -> Seq<TokenView> {
    lines_tokens(text::lines(content), dialect)
}

proof fn lemma_quoted_len(s: Seq<char>)
    requires
        s.len() > 0,
    ensures
        0 < quoted_len(s) <= s.len(),
{
    lemma_find_bound(s.skip(1), '"');
}

pub(crate) proof fn lemma_find_bound(s: Seq<char>, ch: char)
    ensures
        text::find(s, ch) matches Some(at) ==> 0 <= at < s.len() && s[at] == ch,
        text::find(s, ch) matches Some(at) ==> forall|i: int| 0 <= i < at ==> s[i] != ch,
        text::find(s, ch) is None ==> forall|i: int| 0 <= i < s.len() ==> s[i] != ch,
    decreases s.len(),
{
    if s.len() > 0 {
        lemma_find_bound(s.drop_last(), ch);
        assert(forall|i: int| 0 <= i < s.len() - 1 ==> s.drop_last()[i] == s[i]);
    }
}

fn push_word(tokens: &mut Vec<Token>, word: &str, line: usize)
    ensures
        token_views(final(tokens)@) == token_views(old(tokens)@) + word_token(word@, line as nat),
{
    if word.is_empty() {
        assert(token_views(tokens@) =~= token_views(old(tokens)@) + word_token(word@, line as nat));
        return;
    }
    let value = text::trimmed_of(word, CharClass::Only('"'));
    tokens.push(Token { value, line });
    assert(token_views(tokens@) =~= token_views(old(tokens)@) + word_token(word@, line as nat));
}

proof fn lemma_arguments_len(s: Seq<char>, depth: int)
    ensures
        arguments_len(s, depth) matches Some(n) ==> 0 < n <= s.len(),
    decreases s.len(),
{
    if s.len() > 0 {
        let deeper: int = if s[0] == '(' {
            depth + 1
        } else if s[0] == ')' {
            depth - 1
        } else {
            depth
        };
        lemma_arguments_len(s.skip(1), deeper);
    }
}

/// Whether the token behind `tokens` is a keyword.
fn keyword_next(tokens: &Vec<Token>) -> (yes: bool)
    ensures
        yes == at_keyword(token_views(tokens@)),
{
    if tokens.len() == 0 {
        return true;
    }
    let value = tokens[tokens.len() - 1].value.as_str();
    assert(token_views(tokens@).last().value == value@);
    text::text_eq(value, "{") || text::text_eq(value, "}") || text::text_eq(value, ";")
}

fn is_mark_char(ch: char, dialect: Dialect) -> (yes: bool)
    ensures
        yes == is_mark(ch, dialect),
{
    ch == '{' || ch == '}' || ch == '(' || ch == ')' || ch == ';' || (dialect != Dialect::Round && (
    ch == '[' || ch == ']'))
}

/// Where the arguments that open at `from` end.
fn arguments_end(chars: &Vec<char>, from: usize) -> (end: Option<usize>)
    requires
        from < chars@.len(),
        chars@[from as int] == '(',
    ensures
        match end {
            Some(to) => arguments_len(chars@.skip(from as int), 0) == Some(to - from),
            None => arguments_len(chars@.skip(from as int), 0) is None,
        },
        end matches Some(to) ==> from < to <= chars@.len(),
{
    let mut depth: usize = 0;
    let mut at = from;
    while at < chars.len()
        invariant
            from <= at <= chars@.len(),
            depth <= at - from,
            at > from ==> depth > 0,
            at == from ==> chars@[at as int] == '(',
            match arguments_len(chars@.skip(at as int), depth as int) {
                Some(n) => arguments_len(chars@.skip(from as int), 0) == Some(n + at - from),
                None => arguments_len(chars@.skip(from as int), 0) is None,
            },
        decreases chars@.len() - at,
    {
        let ghost rest = chars@.skip(at as int);
        let ch: char = chars[at];
        assert(rest[0] == ch);
        assert(rest.skip(1) =~= chars@.skip(at + 1));
        if ch == '/' && at + 1 < chars.len() && chars[at + 1] == '/' {
            assert(rest[1] == '/');
            return None;
        }
        assert(!is_comment(rest));
        if text::in_class(CharClass::Space, ch) || ch == '"' {
            return None;
        }
        if ch == '(' {
            depth += 1;
        } else if ch == ')' {
            if depth <= 1 {
                return Some(at + 1);
            }
            depth -= 1;
        } else if is_mark_char(ch, Dialect::Keywords) {
            return None;
        }
        at += 1;
    }
    assert(chars@.skip(at as int).len() == 0);
    None
}

/// Adds the tokens of one line.
fn push_line(tokens: &mut Vec<Token>, content: &str, line: usize, dialect: Dialect)
    ensures
        token_views(final(tokens)@) == line_tokens(
            token_views(old(tokens)@),
            content@,
            Seq::empty(),
            line as nat,
            dialect,
        ),
{
    let chars = text::chars_of(content);
    let mut word = String::new();
    let mut i: usize = 0;
    let ghost target = line_tokens(
        token_views(old(tokens)@),
        content@,
        Seq::empty(),
        line as nat,
        dialect,
    );
    assert(chars@.skip(0) =~= chars@);
    while i < chars.len()
        invariant
            i <= chars@.len(),
            line_tokens(
                token_views(tokens@),
                chars@.skip(i as int),
                word@,
                line as nat,
                dialect,
            ) == target,
            target == line_tokens(
                token_views(old(tokens)@),
                content@,
                Seq::empty(),
                line as nat,
                dialect,
            ),
        decreases chars@.len() - i,
    {
        let ghost rest = chars@.skip(i as int);
        let ghost before = token_views(tokens@);
        let ch: char = chars[i];
        assert(rest[0] == ch);
        assert(rest.skip(1) =~= chars@.skip(i + 1));
        if ch == '/' && i + 1 < chars.len() && chars[i + 1] == '/' {
            assert(rest[1] == '/');
            push_word(tokens, word.as_str(), line);
            return;
        }
        assert(!is_comment(rest));
        if ch == '"' {
            let ghost start = i as int;
            let ghost head = word@;
            proof {
                lemma_quoted_len(rest);
                lemma_find_bound(rest.skip(1), '"');
            }
            let ghost n = quoted_len(rest);
            word.push(ch);
            i += 1;
            let mut open = true;
            while open && i < chars.len()
                invariant
                    0 <= start < i <= start + n <= chars@.len(),
                    rest == chars@.skip(start),
                    n == quoted_len(rest),
                    rest.len() > 0,
                    text::find(rest.skip(1), '"') matches Some(at) ==> 0 <= at < rest.len() - 1
                        && rest.skip(1)[at] == '"',
                    text::find(rest.skip(1), '"') matches Some(at) ==> forall|k: int|
                        0 <= k < at ==> rest.skip(1)[k] != '"',
                    text::find(rest.skip(1), '"') is None ==> forall|k: int|
                        0 <= k < rest.len() - 1 ==> rest.skip(1)[k] != '"',
                    word@ == head + rest.take(i - start),
                    open ==> forall|k: int| 0 <= k < i - start - 1 ==> rest.skip(1)[k] != '"',
                    !open ==> i == start + n,
                decreases chars@.len() - i + (if open { 1int } else { 0int }),
            {
                let quoted: char = chars[i];
                assert(rest.skip(1)[i - start - 1] == quoted);
                word.push(quoted);
                if quoted == '"' {
                    open = false;
                }
                assert(word@ =~= head + rest.take(i - start + 1));
                i += 1;
            }
            assert(i == start + n);
            assert(rest.skip(n) =~= chars@.skip(i as int));
        } else if text::in_class(CharClass::Space, ch) {
            push_word(tokens, word.as_str(), line);
            word = String::new();
            i += 1;
        } else {
            let mut arguments: Option<usize> = None;
            if dialect == Dialect::Keywords && ch == '(' && !word.as_str().is_empty() && keyword_next(
                tokens,
            ) {
                arguments = arguments_end(&chars, i);
            }
            if let Some(end) = arguments {
                proof {
                    lemma_arguments_len(rest, 0);
                }
                let part = text::text_of(chars.as_slice(), i, end);
                assert(part@ =~= rest.take(end - i));
                word.append(part.as_str());
                assert(rest.skip(end - i) =~= chars@.skip(end as int));
                i = end;
            } else if is_mark_char(ch, dialect) {
                push_word(tokens, word.as_str(), line);
                let ghost mid = token_views(tokens@);
                let mut value = String::new();
                value.push(ch);
                assert(value@ =~= seq![ch]);
                tokens.push(Token { value, line });
                assert(token_views(tokens@) =~= mid.push(
                    TokenView { value: seq![ch], line: line as nat },
                ));
                word = String::new();
                i += 1;
            } else {
                word.push(ch);
                i += 1;
            }
        }
    }
    push_word(tokens, word.as_str(), line);
}

/// The tokens of `content`.
pub fn tokenize_with(content: &str, dialect: Dialect) -> (found: Vec<Token>)
    ensures
        token_views(found@) == tokens(content@, dialect),
{
    let lines = text::lines_of(content);
    let ghost all = text::lines(content@);
    let mut found: Vec<Token> = Vec::new();
    let mut i: usize = 0;
    assert(token_views(found@) =~= lines_tokens(all.take(0), dialect));
    while i < lines.len()
        invariant
            i <= lines@.len(),
            text::texts(lines@) == all,
            token_views(found@) == lines_tokens(all.take(i as int), dialect),
        decreases lines@.len() - i,
    {
        assert(all.take(i + 1).drop_last() =~= all.take(i as int));
        push_line(&mut found, lines[i].as_str(), i + 1, dialect);
        i += 1;
    }
    assert(all.take(i as int) =~= all);
    found
}

/// The tokens of a dictionary file: braces, brackets and semicolons stand for
/// themselves, a comment starts with two slashes, a quotation may hold anything.
pub fn tokenize(content: &str) -> (found: Vec<Token>)
    ensures
        token_views(found@) == tokens(content@, Dialect::Square),
{
    tokenize_with(content, Dialect::Square)
}

/// The tokens of a file and how many of them have been taken.
pub struct Stream {
    pub path: Seq<char>,
    pub tokens: Seq<TokenView>,
    pub at: nat,
}

impl Stream {
    /// Whether the position lies within the file.
    pub open spec fn valid(self) -> bool {
        self.at <= self.tokens.len()
    }

    /// Whether this is a position in the file of `earlier` that comes no sooner.
    pub open spec fn follows(self, earlier: Stream) -> bool {
        self.path == earlier.path && self.tokens == earlier.tokens && earlier.at <= self.at
            <= self.tokens.len()
    }

    /// How many tokens have not been taken.
    pub open spec fn left(self) -> nat {
        (self.tokens.len() - self.at) as nat
    }

    /// Whether every token has been taken.
    pub open spec fn ended(self) -> bool {
        self.at >= self.tokens.len()
    }

    /// The next token.
    pub open spec fn value(self) -> Seq<char> {
        self.tokens[self.at as int].value
    }

    /// Whether the next token is `expected`.
    pub open spec fn peeks(self, expected: Seq<char>) -> bool {
        !self.ended() && self.value() == expected
    }

    /// The stream after the next token.
    pub open spec fn next(self) -> Stream {
        Stream { at: self.at + 1, ..self }
    }

    /// The failure at the end of the file.
    pub open spec fn eof(self) -> Failure {
        Failure::InvalidInput("unexpected EOF in "@ + self.path)
    }

    /// The failure where `expected` does not come next.
    pub open spec fn unexpected(self, expected: Seq<char>) -> Failure {
        Failure::Parse {
            line: self.tokens[self.at as int].line,
            message: "expected '"@ + expected + "' but found '"@ + self.value() + "'"@,
        }
    }

    /// Takes the token `expected`, which has to come next.
    pub open spec fn expect(self, expected: Seq<char>) -> Result<Stream, Failure> {
        if self.ended() {
            Err(self.eof())
        } else if self.value() == expected {
            Ok(self.next())
        } else {
            Err(self.unexpected(expected))
        }
    }

    /// Takes the token `expected` if it comes next.
    pub open spec fn optional(self, expected: Seq<char>) -> Stream {
        if self.peeks(expected) {
            self.next()
        } else {
            self
        }
    }

    /// Whether a value that is open at bracket depth `depth` stops here.
    pub open spec fn value_stops(self, depth: nat) -> bool {
        self.ended() || depth == 0 && (self.value() == ";"@ || self.value() == "}"@)
    }

    /// The tokens of a value: up to the semicolon or closing brace that is
    /// outside all brackets of the value.
    pub open spec fn value_tokens(self, depth: nat) -> Seq<Seq<char>>
        decreases self.left(),
    {
        if self.value_stops(depth) {
            Seq::empty()
        } else {
            seq![self.value()] + self.next().value_tokens(depth_after(self.value(), depth))
        }
    }

    /// The stream after a value and the semicolon that ends it.
    pub open spec fn value_end(self, depth: nat) -> Stream
        decreases self.left(),
    {
        if self.value_stops(depth) {
            self.optional(";"@)
        } else {
            self.next().value_end(depth_after(self.value(), depth))
        }
    }

    /// The stream after the brace that closes the `depth` open ones.
    pub open spec fn braces_end(self, depth: nat) -> Result<Stream, Failure>
        decreases self.left(),
    {
        if depth == 0 {
            Ok(self)
        } else if self.ended() {
            Err(self.eof())
        } else if self.value() == "{"@ {
            self.next().braces_end(depth + 1)
        } else if self.value() == "}"@ {
            self.next().braces_end((depth - 1) as nat)
        } else {
            self.next().braces_end(depth)
        }
    }

    /// The stream after a block in braces.
    pub open spec fn block_end(self) -> Result<Stream, Failure> {
        match self.expect("{"@) {
            Ok(inside) => inside.braces_end(1),
            Err(failure) => Err(failure),
        }
    }

    /// The stream with every token taken.
    pub open spec fn end(self) -> Stream {
        Stream { at: self.tokens.len(), ..self }
    }

    /// Where the stream stands once a block in braces was to be taken: behind the
    /// block, behind the token that is no opening brace, or at the end of the file.
    pub open spec fn block_stop(self) -> Stream {
        match self.block_end() {
            Ok(after) => after,
            Err(_) => if self.ended() {
                self
            } else if self.peeks("{"@) {
                self.end()
            } else {
                self.next()
            },
        }
    }

    /// The stream after a value or after a block in braces.
    pub open spec fn skipped(self) -> Result<Stream, Failure> {
        if self.peeks("{"@) {
            self.block_end()
        } else {
            Ok(self.value_end(0))
        }
    }
}

/// The bracket depth after `token`.
pub open spec fn depth_after(token: Seq<char>, depth: nat) -> nat {
    if token == "("@ || token == "["@ || token == "{"@ {
        depth + 1
    } else if depth > 0 && (token == ")"@ || token == "]"@ || token == "}"@) {
        (depth - 1) as nat
    } else {
        depth
    }
}

/// The contract's result is that `found` was read and that `after` is left.
pub open spec fn yields<T>(named: Result<(T, Stream), Failure>, found: T, after: Stream) -> bool {
    named == Ok::<(T, Stream), Failure>((found, after))
}

/// The contract's result is the value `found`.
pub open spec fn gives<T>(named: Result<T, Failure>, found: T) -> bool {
    named == Ok::<T, Failure>(found)
}

/// The contract's result is the failure that `error` stands for.
pub open spec fn fails<T>(named: Result<T, Failure>, error: MeshError) -> bool {
    named == Err::<T, Failure>(error@)
}

/// A result of the library agrees with the result that its contract names.
pub open spec fn same_failure<T, U>(found: Result<T, MeshError>, named: Result<U, Failure>) -> bool {
    match (found, named) {
        (Err(error), Err(failure)) => error@ == failure,
        (Ok(_), Ok(_)) => true,
        _ => false,
    }
}

/// A position in the tokens of a file.
pub struct TokenCursor {
    path: String,
    tokens: Vec<Token>,
    index: usize,
}

impl View for TokenCursor {
    type V = Stream;

    closed spec fn view(&self) -> Stream {
        Stream { path: self.path@, tokens: token_views(self.tokens@), at: self.index as nat }
    }
}

impl TokenCursor {
    /// A cursor in front of the first token.
    pub fn new(path: &str, tokens: Vec<Token>) -> (cursor: Self)
        ensures
            cursor@ == (Stream { path: path@, tokens: token_views(tokens@), at: 0 }),
            cursor@.valid(),
    {
        TokenCursor { path: path.to_string(), tokens, index: 0 }
    }

    /// The path of the file, for messages.
    pub fn path(&self) -> (path: &str)
        ensures
            path@ == self@.path,
    {
        self.path.as_str()
    }

    /// The next token, which stays where it is.
    pub fn peek(&self) -> (token: Option<&str>)
        requires
            self@.valid(),
        ensures
            match token {
                Some(value) => !self@.ended() && value@ == self@.value(),
                None => self@.ended(),
            },
    {
        if self.index < self.tokens.len() {
            Some(self.tokens[self.index].value.as_str())
        } else {
            None
        }
    }

    /// The token after the next one.
    pub fn peek_next(&self) -> (token: Option<&str>)
        requires
            self@.valid(),
        ensures
            match token {
                Some(value) => !self@.ended() && !self@.next().ended() && value@
                    == self@.next().value(),
                None => self@.next().ended(),
            },
    {
        if self.tokens.len() - self.index > 1 {
            Some(self.tokens[self.index + 1].value.as_str())
        } else {
            None
        }
    }

    /// Whether the next token is there and is `expected`.
    pub fn at(&self, expected: &str) -> (yes: bool)
        requires
            self@.valid(),
        ensures
            yes == self@.peeks(expected@),
    {
        match self.peek() {
            Some(value) => text::text_eq(value, expected),
            None => false,
        }
    }

    /// Whether the next token, which has to be there, is `expected`.
    pub fn peek_is(&self, expected: &str) -> (same: Result<bool, MeshError>)
        requires
            self@.valid(),
        ensures
            match same {
                Ok(yes) => !self@.ended() && yes == self@.peeks(expected@),
                Err(error) => self@.ended() && error@ == self@.eof(),
            },
    {
        match self.peek() {
            Some(value) => Ok(text::text_eq(value, expected)),
            None => Err(self.end_error()),
        }
    }

    /// The line of the next token.
    pub fn line(&self) -> (line: usize)
        requires
            !self@.ended(),
        ensures
            line == self@.tokens[self@.at as int].line,
    {
        self.tokens[self.index].line
    }

    fn end_error(&self) -> (error: MeshError)
        ensures
            error@ == self@.eof(),
    {
        let mut message = "unexpected EOF in ".to_string();
        message.append(self.path.as_str());
        MeshError::InvalidInput(message)
    }

    /// Takes the token `expected`, which has to come next; whatever comes next
    /// is taken.
    pub fn expect(&mut self, expected: &str) -> (result: Result<(), MeshError>)
        requires
            old(self)@.valid(),
        ensures
            same_failure(result, old(self)@.expect(expected@)),
            old(self)@.ended() ==> final(self)@ == old(self)@,
            !old(self)@.ended() ==> final(self)@ == old(self)@.next(),
            final(self)@.follows(old(self)@),
    {
        if self.index >= self.tokens.len() {
            return Err(self.end_error());
        }
        let at: usize = self.index;
        self.index = at + 1;
        if text::text_eq(self.tokens[at].value.as_str(), expected) {
            Ok(())
        } else {
            let mut message = "expected '".to_string();
            message.append(expected);
            message.append("' but found '");
            message.append(self.tokens[at].value.as_str());
            message.append("'");
            Err(MeshError::Parse { line: self.tokens[at].line, message })
        }
    }

    /// Takes the token `expected` if it comes next.
    pub fn expect_optional(&mut self, expected: &str) -> (result: Result<(), MeshError>)
        requires
            old(self)@.valid(),
        ensures
            result is Ok,
            final(self)@ == old(self)@.optional(expected@),
            final(self)@.follows(old(self)@),
    {
        if self.at(expected) {
            self.next_required()?;
        }
        Ok(())
    }

    /// Takes the next token, which has to be there.
    pub fn next_required(&mut self) -> (result: Result<String, MeshError>)
        requires
            old(self)@.valid(),
        ensures
            match result {
                Ok(value) => !old(self)@.ended() && value@ == old(self)@.value() && final(self)@
                    == old(self)@.next(),
                Err(error) => old(self)@.ended() && error@ == old(self)@.eof() && final(self)@
                    == old(self)@,
            },
            final(self)@.follows(old(self)@),
    {
        if self.index >= self.tokens.len() {
            return Err(self.end_error());
        }
        let at: usize = self.index;
        self.index = at + 1;
        Ok(self.tokens[at].value.clone())
    }

    /// Takes the tokens of a value and the semicolon that ends it.
    pub fn read_value_until_semicolon(&mut self) -> (result: Result<Vec<String>, MeshError>)
        requires
            old(self)@.valid(),
        ensures
            result matches Ok(values) && text::texts(values@) == old(self)@.value_tokens(0),
            final(self)@ == old(self)@.value_end(0),
            final(self)@.follows(old(self)@),
            !old(self)@.ended() && !old(self)@.peeks("}"@) ==> old(self)@.at < final(self)@.at,
    {
        let mut values: Vec<String> = Vec::new();
        let mut depth: usize = 0;
        assert(text::texts(values@) + self@.value_tokens(0) =~= old(self)@.value_tokens(0));
        loop
            invariant
                self@.valid(),
                depth <= self@.at,
                self@.follows(old(self)@),
                self@.at == old(self)@.at ==> self@ == old(self)@ && depth == 0,
                text::texts(values@) + self@.value_tokens(depth as nat) == old(self)@.value_tokens(
                    0,
                ),
                self@.value_end(depth as nat) == old(self)@.value_end(0),
            decreases self@.left(),
        {
            let ghost before = self@;
            if depth == 0 {
                if self.at(";") {
                    let _ = self.expect_optional(";");
                    assert(text::texts(values@) =~= old(self)@.value_tokens(0));
                    return Ok(values);
                }
                if self.at("}") {
                    assert(text::texts(values@) =~= old(self)@.value_tokens(0));
                    return Ok(values);
                }
            }
            if self.index >= self.tokens.len() {
                assert(text::texts(values@) =~= old(self)@.value_tokens(0));
                return Ok(values);
            }
            let token = self.next_required()?;
            let ghost rest = before.next().value_tokens(
                depth_after(before.value(), depth as nat),
            );
            depth = next_depth(token.as_str(), depth);
            let ghost taken = text::texts(values@);
            values.push(token);
            assert(text::texts(values@) + rest =~= taken + (seq![before.value()] + rest));
        }
    }

    /// Takes a block in braces.
    pub fn skip_braced_block(&mut self) -> (result: Result<(), MeshError>)
        requires
            old(self)@.valid(),
        ensures
            same_failure(result, old(self)@.block_end()),
            final(self)@ == old(self)@.block_stop(),
            result is Ok ==> old(self)@.block_end() == Ok::<Stream, Failure>(final(self)@),
            result is Ok ==> old(self)@.at < final(self)@.at,
            final(self)@.follows(old(self)@),
    {
        self.expect("{")?;
        let mut depth: usize = 1;
        while depth > 0
            invariant
                self@.valid(),
                depth <= self@.at,
                self@.follows(old(self)@),
                old(self)@.at < self@.at,
                old(self)@.peeks("{"@),
                self@.braces_end(depth as nat) == old(self)@.block_end(),
            decreases self@.left(),
        {
            let token = self.next_required()?;
            if text::text_eq(token.as_str(), "{") {
                depth += 1;
            } else if text::text_eq(token.as_str(), "}") {
                depth -= 1;
            }
        }
        Ok(())
    }

    /// Takes a value with its semicolon, or a block in braces.
    pub fn skip_value_or_block(&mut self) -> (result: Result<(), MeshError>)
        requires
            old(self)@.valid(),
        ensures
            same_failure(result, old(self)@.skipped()),
            old(self)@.peeks("{"@) ==> final(self)@ == old(self)@.block_stop(),
            !old(self)@.peeks("{"@) ==> final(self)@ == old(self)@.value_end(0),
            result is Ok ==> old(self)@.skipped() == Ok::<Stream, Failure>(final(self)@),
            result is Ok && !old(self)@.ended() && !old(self)@.peeks("}"@) ==> old(self)@.at
                < final(self)@.at,
            final(self)@.follows(old(self)@),
    {
        if self.at("{") {
            return self.skip_braced_block();
        }
        self.read_value_until_semicolon()?;
        Ok(())
    }
}

fn next_depth(token: &str, depth: usize) -> (after: usize)
    requires
        depth < usize::MAX,
    ensures
        after == depth_after(token@, depth as nat),
{
    if text::text_eq(token, "(") || text::text_eq(token, "[") || text::text_eq(token, "{") {
        depth + 1
    } else if depth > 0 && (text::text_eq(token, ")") || text::text_eq(token, "]")
        || text::text_eq(token, "}")) {
        depth - 1
    } else {
        depth
    }
}

} // verus!
