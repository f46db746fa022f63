//! The lexer of the assembler: splits the source text into items and
//! classifies them as tokens, keeping track of line and column.
use vstd::prelude::*;

use crate::text::{lemma_byte_len_at_most, lemma_byte_len_cons, lemma_byte_len_prefix, lemma_byte_len_single, lemma_byte_len_split, byte_len, chars_of, is_whitespace, len_utf8, string_of, unicode_whitespace, utf8_len};
use crate::token::{is_punctuation, punctuation_char, token_panics, token_result, token_spec, Token, TokenError, TokenResult};

verus! {

/// The character that starts a commentary, running to the end of the line.
pub const COMMENTATY_BEGIN: char = ';';

/// Lexer over a source text.
pub struct Lexer {
    chars: Vec<char>,
    pos: usize,
    line: usize,
    column: usize,
}

/// The state of a [`Lexer`]: the text still to read, the line and the column.
pub struct LexerView {
    pub stream: Seq<char>,
    pub line: usize,
    pub column: usize,
}

impl View for Lexer {
    type V = LexerView;

    closed spec fn view(&self) -> LexerView {
        LexerView { stream: self.chars@.skip(self.pos as int), line: self.line, column: self.column }
    }
}

/// A character that the lexer skips: a line break or Unicode white space.
pub open spec fn blank(c: char) -> bool {
    c == '\n' || unicode_whitespace(c)
}

/// The number of blank characters at the start of `s`.
pub open spec fn leading_blanks(s: Seq<char>) -> nat
    decreases s.len(),
{
    if s.len() == 0 {
        0
    } else if blank(s[0]) {
        1 + leading_blanks(s.skip(1))
    } else {
        0
    }
}

/// Line and column after walking over the blank characters `s` from
/// `(line, column)`: a line break starts a new line at column 1, any other
/// blank advances the column.
pub open spec fn walk(s: Seq<char>, line: int, column: int) -> (int, int)
    decreases s.len(),
{
    if s.len() == 0 {
        (line, column)
    } else {
        let (l, c) = walk(s.drop_last(), line, column);
        if s.last() == '\n' {
            (l + 1, 1)
        } else {
            (l, c + 1)
        }
    }
}

/// No line or column count overflows a `usize` during [`walk`].
pub open spec fn walk_safe(s: Seq<char>, line: int, column: int) -> bool
    decreases s.len(),
{
    if s.len() == 0 {
        true
    } else {
        let (l, c) = walk(s.drop_last(), line, column);
        &&& walk_safe(s.drop_last(), line, column)
        &&& if s.last() == '\n' {
            l + 1 <= usize::MAX
        } else {
            c + 1 <= usize::MAX
        }
    }
}

/// The number of characters that `trim_left` drops from `s`: all the
/// leading blanks, except that the last character stays when `s` is all blank.
pub open spec fn trim_count(s: Seq<char>) -> nat {
    let k = leading_blanks(s);
    if k < s.len() {
        k
    } else if s.len() > 0 {
        (s.len() - 1) as nat
    } else {
        0
    }
}

/// Position of the first line break of `s`, if any.
pub open spec fn first_newline(s: Seq<char>) -> Option<nat>
    decreases s.len(),
{
    if s.len() == 0 {
        None
    } else if s[0] == '\n' {
        Some(0)
    } else {
        match first_newline(s.skip(1)) {
            Some(k) => Some(k + 1),
            None => None,
        }
    }
}

/// `s` with every backslash removed and the character after it kept (a
/// trailing backslash ends the text).
pub open spec fn strip_escapes(s: Seq<char>) -> Seq<char>
    decreases s.len(),
{
    if s.len() == 0 {
        Seq::empty()
    } else if s[0] == '\\' {
        if s.len() == 1 {
            Seq::empty()
        } else {
            seq![s[1]] + strip_escapes(s.skip(2))
        }
    } else {
        seq![s[0]] + strip_escapes(s.skip(1))
    }
}

/// The number of leading characters of `s` that take exactly `b` bytes, if any.
pub open spec fn prefix_with_bytes(s: Seq<char>, b: nat) -> Option<nat>
    decreases s.len(),
{
    if b == 0 {
        Some(0)
    } else if s.len() == 0 {
        None
    } else if utf8_len(s[0]) > b {
        None
    } else {
        match prefix_with_bytes(s.skip(1), (b - utf8_len(s[0])) as nat) {
            Some(k) => Some(k + 1),
            None => None,
        }
    }
}

/// The leading characters of `s` up to white space or a punctuation sign.
pub open spec fn word_len(s: Seq<char>) -> nat
    decreases s.len(),
{
    if s.len() == 0 {
        0
    } else if unicode_whitespace(s[0]) || punctuation_char(s[0]) {
        0
    } else {
        1 + word_len(s.skip(1))
    }
}

impl LexerView {
    /// The state after `trim_left`.
    pub open spec fn trim_left(self) -> LexerView {
        let k = leading_blanks(self.stream);
        let (l, c) = walk(self.stream.take(k as int), self.line as int, self.column as int);
        LexerView { stream: self.stream.skip(trim_count(self.stream) as int), line: l as usize, column: c as usize }
    }

    /// `trim_left` does not overflow the line or column count.
    pub open spec fn trim_left_safe(self) -> bool {
        walk_safe(self.stream.take(leading_blanks(self.stream) as int), self.line as int, self.column as int)
    }

    /// The state after `next_line`: past the first line break (a new line
    /// at column 1), or at the end of the text when there is none.
    pub open spec fn next_line(self) -> LexerView {
        match first_newline(self.stream) {
            Some(k) => LexerView { stream: self.stream.skip(k + 1int), line: (self.line + 1) as usize, column: 1 },
            None => LexerView { stream: Seq::empty(), ..self },
        }
    }

    /// `next_line` does not overflow the line count.
    pub open spec fn next_line_safe(self) -> bool {
        first_newline(self.stream) is Some ==> self.line + 1 <= usize::MAX
    }

    /// The state after `skip_commentary`: while the text starts with
    /// [`COMMENTATY_BEGIN`], go to the next line and trim it.
    pub open spec fn skip_commentary(self) -> LexerView
        decreases self.stream.len(),
    {
        if self.stream.len() > 0 && self.stream[0] == COMMENTATY_BEGIN {
            let next = self.next_line().trim_left();
            if next.stream.len() < self.stream.len() {
                next.skip_commentary()
            } else {
                self
            }
        } else {
            self
        }
    }

    /// `skip_commentary` does not overflow the line or column count.
    pub open spec fn skip_commentary_safe(self) -> bool
        decreases self.stream.len(),
    {
        if self.stream.len() > 0 && self.stream[0] == COMMENTATY_BEGIN {
            let next = self.next_line().trim_left();
            &&& self.next_line_safe()
            &&& self.next_line().trim_left_safe()
            &&& (next.stream.len() < self.stream.len() ==> next.skip_commentary_safe())
        } else {
            true
        }
    }

    /// The state after reading the next item, and the item. An item is, after
    /// blanks and commentaries: from a `"`, the rest of the text with its
    /// escapes stripped (the text advances by as many bytes as the item has);
    /// a punctuation sign; or the characters up to white space or a
    /// punctuation sign. `None` at the end of the text.
    pub open spec fn next_item(self) -> (LexerView, Option<Seq<char>>) {
        let t = self.trim_left().skip_commentary();
        let s = t.stream;
        if s.len() == 0 {
            (t, None)
        } else if s[0] == '"' {
            let item = strip_escapes(s);
            match prefix_with_bytes(s, byte_len(item)) {
                Some(k) => (LexerView { stream: s.skip(k as int), ..t }, Some(item)),
                None => (t, Some(item)),
            }
        } else if punctuation_char(s[0]) {
            (LexerView { stream: s.skip(1), ..t }, Some(seq![s[0]]))
        } else {
            let k = word_len(s);
            (LexerView { stream: s.skip(k as int), ..t }, Some(s.take(k as int)))
        }
    }

    /// Reading the next item does not panic: no count overflows and a string
    /// item ends on a character boundary of the text.
    pub open spec fn next_item_safe(self) -> bool {
        let t = self.trim_left().skip_commentary();
        let s = t.stream;
        &&& self.trim_left_safe()
        &&& self.trim_left().skip_commentary_safe()
        &&& (s.len() > 0 && s[0] == '"' ==> prefix_with_bytes(s, byte_len(strip_escapes(s))) is Some)
    }

    /// The state after reading the next token, and the token: the next item
    /// classified by [`token_spec`].
    pub open spec fn next_token(self) -> (LexerView, Option<TokenResult>) {
        let (t, item) = self.next_item();
        match item {
            Some(s) => (t, Some(token_spec(s))),
            None => (t, None),
        }
    }

    /// Reading the next token does not panic.
    pub open spec fn next_token_safe(self) -> bool {
        &&& self.next_item_safe()
        &&& (self.next_item().1 matches Some(s) ==> !token_panics(s))
    }
}

/// The number of blank characters at the start is `k` when the first `k`
/// characters are blank and the next is not (or there is none).
proof fn lemma_leading_blanks(s: Seq<char>, k: nat)
    requires
        k <= s.len(),
        forall|j: int| 0 <= j < k ==> blank(#[trigger] s[j]),
        k == s.len() || !blank(s[k as int]),
    ensures
        leading_blanks(s) == k,
    decreases k,
{
    if k > 0 {
        let t = s.skip(1);
        assert forall|j: int| 0 <= j < k - 1 implies blank(#[trigger] t[j]) by {
            assert(t[j] == s[j + 1]);
        }
        if k < s.len() {
            assert(t[k - 1] == s[k as int]);
        }
        lemma_leading_blanks(t, (k - 1) as nat);
    }
}

/// The first line break is at `k` when none comes before it.
pub proof fn lemma_first_newline(s: Seq<char>, k: nat)
    requires
        k < s.len(),
        s[k as int] == '\n',
        forall|j: int| 0 <= j < k ==> #[trigger] s[j] != '\n',
    ensures
        first_newline(s) == Some(k),
    decreases k,
{
    if k > 0 {
        let t = s.skip(1);
        assert forall|j: int| 0 <= j < k - 1 implies #[trigger] t[j] != '\n' by {
            assert(t[j] == s[j + 1]);
        }
        lemma_first_newline(t, (k - 1) as nat);
    }
}

/// There is no line break when no character is one.
pub proof fn lemma_no_newline(s: Seq<char>)
    requires
        forall|j: int| 0 <= j < s.len() ==> #[trigger] s[j] != '\n',
    ensures
        first_newline(s) is None,
    decreases s.len(),
{
    if s.len() > 0 {
        let t = s.skip(1);
        assert forall|j: int| 0 <= j < t.len() implies #[trigger] t[j] != '\n' by {
            assert(t[j] == s[j + 1]);
        }
        lemma_no_newline(t);
    }
}

/// The word ends at `k` when the first `k` characters are neither white
/// space nor punctuation and the next one is (or there is none).
proof fn lemma_word_len(s: Seq<char>, k: nat)
    requires
        k <= s.len(),
        forall|j: int| 0 <= j < k ==> !unicode_whitespace(#[trigger] s[j]) && !punctuation_char(s[j]),
        k == s.len() || unicode_whitespace(s[k as int]) || punctuation_char(s[k as int]),
    ensures
        word_len(s) == k,
    decreases k,
{
    if k > 0 {
        let t = s.skip(1);
        assert forall|j: int| 0 <= j < k - 1 implies !unicode_whitespace(#[trigger] t[j]) && !punctuation_char(t[j]) by {
            assert(t[j] == s[j + 1]);
        }
        if k < s.len() {
            assert(t[k - 1] == s[k as int]);
        }
        lemma_word_len(t, (k - 1) as nat);
    }
}

impl Lexer {
    /// The position is inside the text.
    pub closed spec fn wf(&self) -> bool {
        self.pos <= self.chars@.len()
    }

    /// Creates a lexer over `stream`, at line 1 and column 1.
    pub fn new(stream: &str) -> (l: Self)
        ensures
            l.wf(),
            l@ == (LexerView { stream: stream@, line: 1, column: 1 }),
    {
        let chars = chars_of(stream);
        let l = Self { chars, pos: 0, line: 1, column: 1 };
        assert(l.chars@.skip(0) =~= stream@);
        l
    }

    /// The text still to read.
    pub fn stream(&self) -> (s: String)
        requires
            self.wf(),
        ensures
            s@ == self@.stream,
    {
        let rest = vstd::slice::slice_subrange(self.chars.as_slice(), self.pos, self.chars.len());
        assert(rest@ =~= self.chars@.skip(self.pos as int));
        string_of(rest)
    }

    /// The current line.
    pub fn line(&self) -> (l: usize)
        ensures
            l == self@.line,
    {
        self.line
    }

    /// The current column.
    pub fn column(&self) -> (c: usize)
        ensures
            c == self@.column,
    {
        self.column
    }

    /// Starts a new line at column 1.
    fn increment_line(&mut self)
        requires
            old(self).line + 1 <= usize::MAX,
        ensures
            final(self).chars == old(self).chars,
            final(self).pos == old(self).pos,
            final(self).line == old(self).line + 1,
            final(self).column == 1,
    {
        self.line += 1;
        self.column = 1;
    }

    /// Skips the rest of the current line (see [`LexerView::next_line`]).
    pub fn next_line(&mut self)
        requires
            old(self).wf(),
            old(self)@.next_line_safe(),
        ensures
            final(self).wf(),
            final(self)@ == old(self)@.next_line(),
    {
        let ghost s = self@.stream;
        let mut i = self.pos;
        while i < self.chars.len()
            invariant
                self.pos == old(self).pos,
                self.chars == old(self).chars,
                self.line == old(self).line,
                self.column == old(self).column,
                old(self)@.next_line_safe(),
                s == old(self)@.stream,
                self.pos <= i <= self.chars@.len(),
                s == self.chars@.skip(self.pos as int),
                forall|j: int| self.pos <= j < i ==> #[trigger] self.chars@[j] != '\n',
            decreases self.chars.len() - i,
        {
            if self.chars[i] == '\n' {
                proof {
                    assert forall|j: int| 0 <= j < i - self.pos implies #[trigger] s[j] != '\n' by {
                        assert(s[j] == self.chars@[self.pos + j]);
                    }
                    assert(s[i - self.pos] == self.chars@[i as int]);
                    lemma_first_newline(s, (i - self.pos) as nat);
                    assert(old(self)@.stream == s);
                    assert(old(self)@.next_line_safe());
                }
                self.pos = i + 1;
                self.increment_line();
                assert(self.chars@.skip(self.pos as int) =~= s.skip(i - old(self).pos + 1));
                return;
            }
            i += 1;
        }
        proof {
            assert forall|j: int| 0 <= j < s.len() implies #[trigger] s[j] != '\n' by {
                assert(s[j] == self.chars@[self.pos + j]);
            }
            lemma_no_newline(s);
        }
        self.pos = self.chars.len();
        assert(self.chars@.skip(self.pos as int) =~= Seq::<char>::empty());
    }

    /// Skips the blanks at the start of the text, counting lines and columns
    /// (see [`LexerView::trim_left`]).
    pub fn trim_left(&mut self)
        requires
            old(self).wf(),
            old(self)@.trim_left_safe(),
        ensures
            final(self).wf(),
            final(self)@ == old(self)@.trim_left(),
    {
        let ghost s = self@.stream;
        let ghost line0 = self.line;
        let ghost col0 = self.column;
        let start = self.pos;
        let mut n = start;
        let mut i = start;
        let mut stopped = false;
        while i < self.chars.len() && !stopped
            invariant
                start == old(self).pos,
                self.pos == start,
                self.chars == old(self).chars,
                start <= i <= self.chars@.len(),
                s == self.chars@.skip(start as int),
                forall|j: int| start <= j < i ==> blank(#[trigger] self.chars@[j]),
                stopped ==> i < self.chars@.len() && !blank(self.chars@[i as int]),
                (self.line as int, self.column as int) == walk(s.take(i - start), line0 as int, col0 as int),
                walk_safe(s.take(leading_blanks(s) as int), line0 as int, col0 as int),
                !stopped ==> n == (if i > start { i - 1 } else { start as int }),
                stopped ==> n == i,
                line0 == old(self).line,
                col0 == old(self).column,
            decreases self.chars.len() - i + (if stopped { 0int } else { 1int }),
        {
            let c = self.chars[i];
            assert(s[i - start] == c);
            if c == '\n' || is_whitespace(c) {
                proof {
                    assert forall|j: int| 0 <= j < i + 1 - start implies blank(#[trigger] s[j]) by {
                        assert(s[j] == self.chars@[start + j]);
                    }
                    lemma_leading_prefix(s, (i + 1 - start) as nat);
                    lemma_leading_blanks_bound(s);
                    lemma_walk_safe_prefix(s.take(leading_blanks(s) as int), (i + 1 - start) as nat, line0 as int, col0 as int);
                    assert(s.take(leading_blanks(s) as int).take(i + 1 - start) =~= s.take(i + 1 - start));
                    assert(s.take(i + 1 - start).drop_last() =~= s.take(i - start));
                }
                n = i;
                if c == '\n' {
                    self.increment_line();
                } else {
                    self.column += 1;
                }
                i += 1;
            } else {
                n = i;
                stopped = true;
            }
        }
        proof {
            assert forall|j: int| 0 <= j < i - start implies blank(#[trigger] s[j]) by {
                assert(s[j] == self.chars@[start + j]);
            }
            if stopped {
                assert(s[i - start] == self.chars@[i as int]);
            } else {
                assert(i - start == s.len());
            }
            lemma_leading_blanks(s, (i - start) as nat);
        }
        self.pos = n;
        assert(self.chars@.skip(self.pos as int) =~= s.skip(trim_count(s) as int));
    }

    /// Skips commentaries and the blanks after them (see
    /// [`LexerView::skip_commentary`]).
    pub fn skip_commentary(&mut self)
        requires
            old(self).wf(),
            old(self)@.skip_commentary_safe(),
        ensures
            final(self).wf(),
            final(self)@ == old(self)@.skip_commentary(),
    {
        while self.pos < self.chars.len() && self.chars[self.pos] == COMMENTATY_BEGIN
            invariant
                self.wf(),
                self@.skip_commentary() == old(self)@.skip_commentary(),
                self@.skip_commentary_safe(),
            decreases self@.stream.len(),
        {
            assert(self@.stream[0] == self.chars@[self.pos as int]);
            let ghost before = self@;
            self.next_line();
            self.trim_left();
            proof {
                lemma_comment_shrinks(before);
            }
        }
        proof {
            if self@.stream.len() > 0 {
                assert(self@.stream[0] == self.chars@[self.pos as int]);
            }
        }
    }

    /// `s` with escapes stripped, from position `self.pos` (see [`strip_escapes`]).
    fn string_item(&self) -> (v: Vec<char>)
        requires
            self.wf(),
        ensures
            v@ == strip_escapes(self@.stream),
    {
        let ghost s = self@.stream;
        let mut out: Vec<char> = Vec::new();
        let mut i = self.pos;
        assert(out@ + strip_escapes(self.chars@.skip(i as int)) =~= strip_escapes(s));
        while i < self.chars.len()
            invariant
                self.pos <= i <= self.chars@.len(),
                s == self.chars@.skip(self.pos as int),
                strip_escapes(s) == out@ + strip_escapes(self.chars@.skip(i as int)),
            decreases self.chars.len() - i,
        {
            let ghost t = self.chars@.skip(i as int);
            let c = self.chars[i];
            assert(t[0] == c);
            if c == '\\' {
                if i + 1 < self.chars.len() {
                    assert(t[1] == self.chars@[i + 1]);
                    assert(t.skip(2) =~= self.chars@.skip(i + 2));
                    assert(out@.push(t[1]) + strip_escapes(t.skip(2)) =~= out@ + (seq![t[1]] + strip_escapes(t.skip(2))));
                    out.push(self.chars[i + 1]);
                    i = i + 2;
                } else {
                    assert(t.len() == 1);
                    assert(out@ + Seq::<char>::empty() =~= out@);
                    return out;
                }
            } else {
                assert(t.skip(1) =~= self.chars@.skip(i + 1));
                assert(out@.push(c) + strip_escapes(t.skip(1)) =~= out@ + (seq![c] + strip_escapes(t.skip(1))));
                out.push(c);
                i = i + 1;
            }
        }
        assert(self.chars@.skip(i as int).len() == 0);
        assert(out@ + Seq::<char>::empty() =~= out@);
        out
    }

    /// The number of characters from `self.pos` that take `b` bytes (see
    /// [`prefix_with_bytes`]).
    fn chars_for_bytes(&self, b: u128) -> (r: Option<usize>)
        requires
            self.wf(),
        ensures
            r matches Some(k) ==> prefix_with_bytes(self@.stream, b as nat) == Some(k as nat) && self.pos + k <= self.chars@.len(),
            r is None ==> prefix_with_bytes(self@.stream, b as nat) is None,
    {
        let ghost s = self@.stream;
        let mut i = self.pos;
        let mut left = b;
        while left > 0
            invariant
                self.pos <= i <= self.chars@.len(),
                s == self.chars@.skip(self.pos as int),
                prefix_with_bytes(s, b as nat) == match prefix_with_bytes(self.chars@.skip(i as int), left as nat) {
                    Some(k) => Some(k + (i - self.pos) as nat),
                    None => None::<nat>,
                },
            decreases left,
        {
            if i >= self.chars.len() {
                return None;
            }
            let ghost t = self.chars@.skip(i as int);
            assert(t[0] == self.chars@[i as int]);
            let n = len_utf8(self.chars[i]) as u128;
            if n > left {
                return None;
            }
            assert(t.skip(1) =~= self.chars@.skip(i + 1));
            left = left - n;
            i = i + 1;
        }
        Some(i - self.pos)
    }

    /// Reads the next item (see [`LexerView::next_item`]).
    pub fn next_item(&mut self) -> (r: Option<String>)
        requires
            old(self).wf(),
            old(self)@.next_item_safe(),
        ensures
            final(self).wf(),
            final(self)@ == old(self)@.next_item().0,
            r matches Some(s) ==> old(self)@.next_item().1 == Some(s@),
            r is None ==> old(self)@.next_item().1 is None,
    {
        self.trim_left();
        self.skip_commentary();
        if self.pos >= self.chars.len() {
            return None;
        }
        let ghost s = self@.stream;
        let c = self.chars[self.pos];
        assert(s[0] == c);
        if c == '"' {
            let item = self.string_item();
            let b = self.item_bytes(&item);
            match self.chars_for_bytes(b) {
                Some(k) => {
                    assert(self.chars@.skip(self.pos + k) =~= s.skip(k as int));
                    self.pos = self.pos + k;
                },
                None => {},
            }
            Some(string_of(item.as_slice()))
        } else if is_punctuation(c) {
            assert(self.chars@.skip(self.pos + 1) =~= s.skip(1));
            self.pos = self.pos + 1;
            let mut v: Vec<char> = Vec::new();
            v.push(c);
            assert(v@ =~= seq![s[0]]);
            Some(string_of(v.as_slice()))
        } else {
            let start = self.pos;
            let mut i = start;
            while i < self.chars.len() && !is_whitespace(self.chars[i]) && !is_punctuation(self.chars[i])
                invariant
                    start <= i <= self.chars@.len(),
                    forall|j: int| start <= j < i ==> !unicode_whitespace(#[trigger] self.chars@[j]) && !punctuation_char(self.chars@[j]),
                decreases self.chars.len() - i,
            {
                i += 1;
            }
            proof {
                assert forall|j: int| 0 <= j < i - start implies !unicode_whitespace(#[trigger] s[j]) && !punctuation_char(s[j]) by {
                    assert(s[j] == self.chars@[start + j]);
                }
                if i < self.chars@.len() {
                    assert(s[i - start] == self.chars@[i as int]);
                }
                lemma_word_len(s, (i - start) as nat);
            }
            let word = vstd::slice::slice_subrange(self.chars.as_slice(), start, i);
            assert(word@ =~= s.take((i - start) as int));
            assert(self.chars@.skip(i as int) =~= s.skip((i - start) as int));
            self.pos = i;
            Some(string_of(word))
        }
    }

    /// Number of bytes of `item` in UTF-8, when it is a stripped string item
    /// of the text (its bytes are then at most the bytes of the text).
    fn item_bytes(&self, item: &Vec<char>) -> (b: u128)
        requires
            self.wf(),
            item@ == strip_escapes(self@.stream),
        ensures
            b == byte_len(item@),
    {
        proof {
            lemma_strip_bytes(self@.stream);
            lemma_byte_len_at_most(self@.stream);
        }
        let len = self.chars.len();
        assert(self@.stream.len() <= len);
        let mut total: u128 = 0;
        let mut k: usize = 0;
        while k < item.len()
            invariant
                k <= item@.len(),
                total == byte_len(item@.take(k as int)),
                byte_len(item@) <= u128::MAX,
            decreases item.len() - k,
        {
            proof {
                assert(item@.take(k + 1).drop_last() =~= item@.take(k as int));
                lemma_byte_len_prefix(item@, (k + 1) as nat);
            }
            total = total + len_utf8(item[k]) as u128;
            k += 1;
        }
        assert(item@.take(k as int) =~= item@);
        total
    }

    /// Reads the next token (see [`LexerView::next_token`]).
    pub fn next_token(&mut self) -> (r: Option<Result<Token, TokenError>>)
        requires
            old(self).wf(),
            old(self)@.next_token_safe(),
        ensures
            final(self).wf(),
            final(self)@ == old(self)@.next_token().0,
            r matches Some(t) ==> old(self)@.next_token().1 == Some(token_result(t)),
            r is None ==> old(self)@.next_token().1 is None,
    {
        match self.next_item() {
            Some(s) => Some(Token::from_str(s.as_str())),
            None => None,
        }
    }
}

/// A commentary step strictly shortens the text.
proof fn lemma_comment_shrinks(v: LexerView)
    requires
        v.stream.len() > 0,
        v.stream[0] == COMMENTATY_BEGIN,
    ensures
        v.next_line().trim_left().stream.len() < v.stream.len(),
{
    let a = v.next_line();
    match first_newline(v.stream) {
        Some(k) => {
            lemma_first_newline_bound(v.stream);
        },
        None => {},
    }
    assert(a.trim_left().stream.len() <= a.stream.len());
}

/// A line break found lies inside the text.
pub proof fn lemma_first_newline_bound(s: Seq<char>)
    ensures
        first_newline(s) matches Some(k) ==> k < s.len(),
    decreases s.len(),
{
    if s.len() > 0 && s[0] != '\n' {
        lemma_first_newline_bound(s.skip(1));
    }
}

/// There are no more leading blanks than characters.
proof fn lemma_leading_blanks_bound(s: Seq<char>)
    ensures
        leading_blanks(s) <= s.len(),
    decreases s.len(),
{
    if s.len() > 0 {
        lemma_leading_blanks_bound(s.skip(1));
    }
}

/// The first `k` characters are blank when `k` of them lead the text.
proof fn lemma_leading_prefix(s: Seq<char>, k: nat)
    requires
        k <= s.len(),
        forall|j: int| 0 <= j < k ==> blank(#[trigger] s[j]),
    ensures
        leading_blanks(s) >= k,
    decreases k,
{
    if k > 0 {
        let t = s.skip(1);
        assert forall|j: int| 0 <= j < k - 1 implies blank(#[trigger] t[j]) by {
            assert(t[j] == s[j + 1]);
        }
        lemma_leading_prefix(t, (k - 1) as nat);
    }
}

/// Safety of a walk holds for its prefixes.
proof fn lemma_walk_safe_prefix(s: Seq<char>, k: nat, line: int, column: int)
    requires
        k <= s.len(),
        walk_safe(s, line, column),
    ensures
        walk_safe(s.take(k as int), line, column),
        k > 0 ==> ({
            let (l, c) = walk(s.take(k - 1), line, column);
            if s[k - 1] == '\n' { l + 1 <= usize::MAX } else { c + 1 <= usize::MAX }
        }),
    decreases s.len(),
{
    if k < s.len() {
        assert(s.drop_last().take(k as int) =~= s.take(k as int));
        if k > 0 {
            assert(s.drop_last().take(k - 1) =~= s.take(k - 1));
        }
        lemma_walk_safe_prefix(s.drop_last(), k, line, column);
    } else {
        assert(s.take(k as int) =~= s);
        if k > 0 {
            assert(s.take(k - 1) =~= s.drop_last());
        }
    }
}

/// Stripping escapes does not add bytes.
proof fn lemma_strip_bytes(s: Seq<char>)
    ensures
        byte_len(strip_escapes(s)) <= byte_len(s),
    decreases s.len(),
{
    if s.len() > 0 {
        if s[0] == '\\' {
            if s.len() > 1 {
                lemma_strip_bytes(s.skip(2));
                lemma_byte_len_cons(seq![s[1]], strip_escapes(s.skip(2)));
                lemma_byte_len_split(s, 2);
                lemma_byte_len_split(s.take(2), 1);
                assert(s.take(2).take(1) =~= seq![s[0]]);
                assert(s.take(2).skip(1) =~= seq![s[1]]);
                lemma_byte_len_single(s[0]);
                lemma_byte_len_single(s[1]);
            }
        } else {
            lemma_strip_bytes(s.skip(1));
            lemma_byte_len_cons(seq![s[0]], strip_escapes(s.skip(1)));
            lemma_byte_len_split(s, 1);
            assert(s.take(1) =~= seq![s[0]]);
        }
    }
}

} // verus!
