//! Making a language model's reply fit to be spoken: markup, emoji and stage
//! directions are left out.
use crate::text::{is_blank, is_white_space, is_whitespace, to_chars, trimmed};
use vstd::prelude::*;

verus! {

/// A filter that reads a text piece by piece.
#[derive(Debug)]
pub struct TtsTextFilter {
    paren_depth: usize,
    square_depth: usize,
    line_start: bool,
    pending_hashes: usize,
    pending_gt: bool,
}

/// More brackets could be open than can be counted.
#[derive(Debug, Clone, Copy, PartialEq, Eq, Structural)]
pub struct TooManyBrackets;

/// What a filter remembers between two characters.
pub struct Filter {
    /// How many round brackets are open.
    pub paren_depth: nat,
    /// How many square brackets are open.
    pub square_depth: nat,
    /// No character of this line was kept yet.
    pub line_start: bool,
    /// Hash signs at the start of a line that may turn out to mark a heading.
    pub pending_hashes: nat,
    /// A `>` at the start of a line that may turn out to mark a quotation.
    pub pending_gt: bool,
}

/// The filter at the start of a text.
pub open spec fn fresh() -> Filter {
    Filter {
        paren_depth: 0,
        square_depth: 0,
        line_start: true,
        pending_hashes: 0,
        pending_gt: false,
    }
}

/// Characters that are left out as emoji and pictographs.
pub open spec fn emoji(c: char) -> bool {
    ||| 0x1F000 <= c as int <= 0x1FFFF
    ||| 0x2600 <= c as int <= 0x26FF
    ||| 0x2700 <= c as int <= 0x27BF
}

/// A round bracket that opens a stage direction.
pub open spec fn opens_paren(c: char) -> bool {
    c == '(' || c == '（'
}

pub open spec fn closes_paren(c: char) -> bool {
    c == ')' || c == '）'
}

/// A square bracket that opens link text.
pub open spec fn opens_square(c: char) -> bool {
    c == '[' || c == '【'
}

pub open spec fn closes_square(c: char) -> bool {
    c == ']' || c == '】'
}

/// Characters that mark emphasis, code and tables.
pub open spec fn is_mark(c: char) -> bool {
    c == '*' || c == '_' || c == '`' || c == '~' || c == '|'
}

/// `n` hash signs.
pub open spec fn hashes(n: nat) -> Seq<char> {
    Seq::new(n, |i: int| '#')
}

/// The depth of brackets after one more character inside them.
pub open spec fn deeper(depth: nat, opens: bool, closes: bool) -> nat {
    if opens {
        depth + 1
    } else if closes {
        (depth - 1) as nat
    } else {
        depth
    }
}

/// A character that no open bracket and nothing pending stands before.
pub open spec fn plain_step(f: Filter, c: char) -> (Filter, Seq<char>) {
    if opens_paren(c) {
        (Filter { paren_depth: 1, ..f }, seq![])
    } else if opens_square(c) {
        (Filter { square_depth: 1, ..f }, seq![])
    } else if is_mark(c) {
        (f, seq![])
    } else if c == '#' && f.line_start {
        (Filter { pending_hashes: 1, ..f }, seq![])
    } else if c == '>' && f.line_start {
        (Filter { pending_gt: true, ..f }, seq![])
    } else if emoji(c) {
        (f, seq![])
    } else {
        (Filter { line_start: c == '\n', ..f }, seq![c])
    }
}

/// What one character does: the filter after it, and what is kept.
pub open spec fn step(f: Filter, c: char) -> (Filter, Seq<char>) {
    if f.paren_depth > 0 {
        (
            Filter { paren_depth: deeper(f.paren_depth, opens_paren(c), closes_paren(c)), ..f },
            seq![],
        )
    } else if f.square_depth > 0 {
        (
            Filter {
                square_depth: deeper(f.square_depth, opens_square(c), closes_square(c)),
                ..f
            },
            seq![],
        )
    } else if 0 < f.pending_hashes < 6 && c == '#' {
        (Filter { pending_hashes: f.pending_hashes + 1, ..f }, seq![])
    } else if f.pending_hashes > 0 && is_white_space(c) {
        (Filter { pending_hashes: 0, line_start: false, ..f }, seq![])
    } else if f.pending_gt && f.pending_hashes == 0 && is_white_space(c) {
        (Filter { pending_gt: false, line_start: false, ..f }, seq![])
    } else {
        let (next, out) = plain_step(Filter { pending_hashes: 0, pending_gt: false, ..f }, c);
        (
            next,
            hashes(f.pending_hashes) + (if f.pending_gt {
                seq!['>']
            } else {
                seq![]
            }) + out,
        )
    }
}

/// What a text does: the filter after it, and what is kept of it.
pub open spec fn filtered(f: Filter, text: Seq<char>) -> (Filter, Seq<char>)
    decreases text.len(),
{
    if text.len() == 0 {
        (f, seq![])
    } else {
        let (middle, kept) = filtered(f, text.drop_last());
        let (end, last) = step(middle, text.last());
        (end, kept + last)
    }
}

/// What the end of the text brings out.
pub open spec fn tail(f: Filter) -> Seq<char> {
    hashes(f.pending_hashes) + (if f.pending_gt {
        seq!['>']
    } else {
        seq![]
    })
}

/// At most six hash signs wait, and never together with a `>`; inside brackets
/// nothing waits.
pub open spec fn wf(f: Filter) -> bool {
    &&& f.pending_hashes <= 6
    &&& !(f.pending_hashes > 0 && f.pending_gt)
    &&& f.paren_depth > 0 ==> f.square_depth == 0
    &&& f.paren_depth + f.square_depth > 0 ==> f.pending_hashes == 0 && !f.pending_gt
}

/// Whether a character is left out as an emoji.
fn is_emoji(ch: char) -> (r: bool)
    ensures
        r == emoji(ch),
{
    let code: u32 = ch as u32;
    (0x1F000 <= code && code <= 0x1FFFF) || (0x2600 <= code && code <= 0x26FF) || (0x2700 <= code
        && code <= 0x27BF)
}

/// Appends `n` hash signs.
fn push_hashes(out: &mut String, n: usize)
    ensures
        final(out)@ == old(out)@ + hashes(n as nat),
{
    let ghost given = out@;
    proof {
        assert(given + hashes(0) =~= given);
    }
    for i in 0..n
        invariant
            out@ == given + hashes(i as nat),
    {
        out.push('#');
        proof {
            assert((given + hashes(i as nat)).push('#') =~= given + hashes((i + 1) as nat));
        }
    }
}

impl Default for TtsTextFilter {
    fn default() -> (r: Self)
        ensures
            r@ == fresh(),
    {
        TtsTextFilter {
            paren_depth: 0,
            square_depth: 0,
            line_start: true,
            pending_hashes: 0,
            pending_gt: false,
        }
    }
}

impl TtsTextFilter {
    pub closed spec fn view(self) -> Filter {
        Filter {
            paren_depth: self.paren_depth as nat,
            square_depth: self.square_depth as nat,
            line_start: self.line_start,
            pending_hashes: self.pending_hashes as nat,
            pending_gt: self.pending_gt,
        }
    }

    /// Filters the next piece of the text. The brackets that are open have to
    /// stay countable.
    pub fn filter_chunk(&mut self, chunk: &str) -> (r: String)
        requires
            old(self)@.paren_depth + old(self)@.square_depth + chunk@.len() <= usize::MAX,
        ensures
            (final(self)@, r@) == filtered(old(self)@, chunk@),
            wf(old(self)@) ==> wf(final(self)@),
            final(self)@.paren_depth + final(self)@.square_depth <= old(self)@.paren_depth
                + old(self)@.square_depth + chunk@.len(),
    {
        let chars = to_chars(chunk);
        let mut out = String::new();
        proof {
            assert(chars@.take(0) =~= seq![]);
            assert(out@ =~= seq![]);
        }
        for i in 0..chars.len()
            invariant
                chars@ == chunk@,
                wf(old(self)@) ==> wf(self@),
                old(self)@.paren_depth + old(self)@.square_depth + chunk@.len() <= usize::MAX,
                self@.paren_depth + self@.square_depth <= old(self)@.paren_depth
                    + old(self)@.square_depth + i,
                (self@, out@) == filtered(old(self)@, chars@.take(i as int)),
        {
            let ghost kept = out@;
            let ghost f = self@;
            proof {
                assert(chars@.take(i + 1).drop_last() =~= chars@.take(i as int));
                assert(chars@.take(i + 1).last() == chars@[i as int]);
            }
            self.filter_char(chars[i], &mut out);
        }
        proof {
            assert(chars@.take(chars@.len() as int) =~= chunk@);
        }
        out
    }

    /// Filters one character.
    fn filter_char(&mut self, ch: char, out: &mut String)
        requires
            old(self)@.paren_depth + old(self)@.square_depth < usize::MAX,
        ensures
            final(self)@ == step(old(self)@, ch).0,
            final(out)@ == old(out)@ + step(old(self)@, ch).1,
            wf(old(self)@) ==> wf(final(self)@),
            final(self)@.paren_depth + final(self)@.square_depth <= old(self)@.paren_depth
                + old(self)@.square_depth + 1,
    {
        proof {
            assert(out@ + Seq::<char>::empty() =~= out@);
        }
        if self.paren_depth > 0 {
            if ch == '(' || ch == '（' {
                self.paren_depth = self.paren_depth + 1;
            } else if ch == ')' || ch == '）' {
                self.paren_depth = self.paren_depth - 1;
            }
            return ;
        }
        if self.square_depth > 0 {
            if ch == '[' || ch == '【' {
                self.square_depth = self.square_depth + 1;
            } else if ch == ']' || ch == '】' {
                self.square_depth = self.square_depth - 1;
            }
            return ;
        }
        if self.pending_hashes > 0 {
            if ch == '#' && self.pending_hashes < 6 {
                self.pending_hashes = self.pending_hashes + 1;
                return ;
            }
            if is_whitespace(ch) {
                self.pending_hashes = 0;
                self.line_start = false;
                return ;
            }
        }
        if self.pending_gt && is_whitespace(ch) {
            self.pending_gt = false;
            self.line_start = false;
            return ;
        }
        let ghost given = out@;
        let ghost gt: Seq<char> = if self.pending_gt {
            seq!['>']
        } else {
            seq![]
        };
        let ghost signs = hashes(self.pending_hashes as nat);
        push_hashes(out, self.pending_hashes);
        self.pending_hashes = 0;
        proof {
            assert((given + signs) + Seq::<char>::empty() =~= given + signs);
        }
        if self.pending_gt {
            out.push('>');
            self.pending_gt = false;
        }
        proof {
            assert(out@ =~= given + signs + gt);
            assert(signs + gt + Seq::<char>::empty() =~= signs + gt);
            assert(given + (signs + gt) =~= given + signs + gt);
        }
        if ch == '(' || ch == '（' {
            self.paren_depth = 1;
        } else if ch == '[' || ch == '【' {
            self.square_depth = 1;
        } else if ch == '*' || ch == '_' || ch == '`' || ch == '~' || ch == '|' {
        } else if ch == '#' && self.line_start {
            self.pending_hashes = 1;
        } else if ch == '>' && self.line_start {
            self.pending_gt = true;
        } else if is_emoji(ch) {
        } else {
            out.push(ch);
            self.line_start = ch == '\n';
            proof {
                assert(out@ =~= given + (signs + gt + seq![ch]));
            }
        }
    }

    /// Ends the text and brings out what was pending.
    pub fn finish(&mut self) -> (r: String)
        ensures
            r@ == tail(old(self)@),
            final(self)@ == (Filter {
                pending_hashes: 0,
                pending_gt: false,
                line_start: false,
                ..old(self)@
            }),
    {
        let mut out = String::new();
        push_hashes(&mut out, self.pending_hashes);
        self.pending_hashes = 0;
        if self.pending_gt {
            out.push('>');
            self.pending_gt = false;
        }
        self.line_start = false;
        proof {
            assert(out@ =~= tail(old(self)@));
        }
        out
    }

    /// Filters the next piece of a stream. A piece of which only white space is
    /// kept is not passed on.
    pub fn stream_chunk(&mut self, chunk: &str) -> (r: Option<String>)
        requires
            old(self)@.paren_depth + old(self)@.square_depth + chunk@.len() <= usize::MAX,
        ensures
            final(self)@ == filtered(old(self)@, chunk@).0,
            wf(old(self)@) ==> wf(final(self)@),
            final(self)@.paren_depth + final(self)@.square_depth <= old(self)@.paren_depth
                + old(self)@.square_depth + chunk@.len(),
            crate::text::opt_text(r) == spoken(filtered(old(self)@, chunk@).1),
    {
        let kept = self.filter_chunk(chunk);
        if is_blank(kept.as_str()) {
            None
        } else {
            Some(kept)
        }
    }

    /// Filters the next piece of a stream, unless more brackets could then be open than
    /// can be counted: such a piece is refused and changes nothing.
    pub fn try_stream_chunk(&mut self, chunk: &str) -> (r: Result<Option<String>, TooManyBrackets>)
        ensures
            match r {
                Ok(kept) => {
                    &&& old(self)@.paren_depth + old(self)@.square_depth + chunk@.len()
                        <= usize::MAX
                    &&& final(self)@ == filtered(old(self)@, chunk@).0
                    &&& crate::text::opt_text(kept) == spoken(filtered(old(self)@, chunk@).1)
                },
                Err(_) => {
                    &&& old(self)@.paren_depth + old(self)@.square_depth + chunk@.len()
                        > usize::MAX
                    &&& final(self)@ == old(self)@
                },
            },
    {
        let n: usize = to_chars(chunk).len();
        if self.paren_depth > usize::MAX - n || self.square_depth > usize::MAX - n
            - self.paren_depth {
            return Err(TooManyBrackets);
        }
        Ok(self.stream_chunk(chunk))
    }

    /// Ends a stream and passes on what was pending.
    pub fn stream_end(&mut self) -> (r: Option<String>)
        ensures
            crate::text::opt_text(r) == spoken(tail(old(self)@)),
            final(self)@ == (Filter {
                pending_hashes: 0,
                pending_gt: false,
                line_start: false,
                ..old(self)@
            }),
    {
        let kept = self.finish();
        if is_blank(kept.as_str()) {
            None
        } else {
            Some(kept)
        }
    }
}

/// A piece is passed on unless it is white space throughout.
pub open spec fn spoken(piece: Seq<char>) -> Option<Seq<char>> {
    if trimmed(piece).len() == 0 {
        None
    } else {
        Some(piece)
    }
}

/// How a text is cut into pieces makes no difference to what is kept of it.
pub proof fn law_filter_in_pieces(f: Filter, a: Seq<char>, b: Seq<char>)
    ensures
        ({
            let (middle, first) = filtered(f, a);
            let (end, second) = filtered(middle, b);
            filtered(f, a + b) == (end, first + second)
        }),
    decreases b.len(),
{
    let (middle, first) = filtered(f, a);
    let (end, second) = filtered(middle, b);
    if b.len() == 0 {
        assert(a + b =~= a);
        assert(first + second =~= first);
    } else {
        let (before, kept) = filtered(middle, b.drop_last());
        let (_, last) = step(before, b.last());
        law_filter_in_pieces(f, a, b.drop_last());
        assert((a + b).drop_last() =~= a + b.drop_last());
        assert((first + kept) + last =~= first + (kept + last));
    }
}

/// A character that is never spoken.
pub open spec fn is_markup(c: char) -> bool {
    opens_paren(c) || opens_square(c) || is_mark(c) || emoji(c)
}

/// No mark, no emoji and no opening bracket is ever kept.
pub proof fn law_markup_is_removed(f: Filter, text: Seq<char>, i: int)
    requires
        0 <= i < filtered(f, text).1.len(),
    ensures
        !is_markup(filtered(f, text).1[i]),
    decreases text.len(),
{
    let (middle, kept) = filtered(f, text.drop_last());
    if i < kept.len() {
        law_markup_is_removed(f, text.drop_last(), i);
    }
}

/// How many more brackets a text opens than it closes: square ones, or round ones.
pub open spec fn nesting(text: Seq<char>, square: bool) -> int
    decreases text.len(),
{
    if text.len() == 0 {
        0
    } else {
        let c = text.last();
        let (opens, closes) = if square {
            (opens_square(c), closes_square(c))
        } else {
            (opens_paren(c), closes_paren(c))
        };
        nesting(text.drop_last(), square) + (if opens {
            1int
        } else if closes {
            -1
        } else {
            0
        })
    }
}

/// Every bracket of the kind that a text opens it closes, and it closes no other.
pub open spec fn is_balanced(text: Seq<char>, square: bool) -> bool {
    &&& nesting(text, square) == 0
    &&& forall|i: int| 0 <= i <= text.len() ==> nesting(#[trigger] text.take(i), square) >= 0
}

/// Inside brackets only their depth changes.
proof fn lemma_inside(f: Filter, inner: Seq<char>, square: bool, n: int)
    requires
        if square {
            f.paren_depth == 0 && f.square_depth > 0
        } else {
            f.paren_depth > 0
        },
        0 <= n <= inner.len(),
        forall|i: int| 0 <= i <= inner.len() ==> nesting(#[trigger] inner.take(i), square) >= 0,
    ensures
        filtered(f, inner.take(n)) == (
            if square {
                Filter {
                    square_depth: (f.square_depth + nesting(inner.take(n), square)) as nat,
                    ..f
                }
            } else {
                Filter {
                    paren_depth: (f.paren_depth + nesting(inner.take(n), square)) as nat,
                    ..f
                }
            },
            Seq::<char>::empty(),
        ),
    decreases n,
{
    let none = Seq::<char>::empty();
    if n > 0 {
        lemma_inside(f, inner, square, n - 1);
        assert(inner.take(n).drop_last() =~= inner.take(n - 1));
        assert(none + none =~= none);
        assert(nesting(inner.take(n - 1), square) >= 0);
        assert(nesting(inner.take(n), square) >= 0);
    } else {
        assert(inner.take(n) =~= none);
    }
}

/// What stands in brackets, round or square, is never spoken, whatever other brackets
/// stand in it: nothing of it is kept, and the text goes on as if it had not been there.
pub proof fn law_brackets_are_removed(f: Filter, open: char, inner: Seq<char>, close: char)
    requires
        f.paren_depth == 0,
        f.square_depth == 0,
        f.pending_hashes == 0,
        !f.pending_gt,
        ({
            ||| opens_paren(open) && closes_paren(close) && is_balanced(inner, false)
            ||| opens_square(open) && closes_square(close) && is_balanced(inner, true)
        }),
    ensures
        filtered(f, seq![open] + inner + seq![close]) == (f, Seq::<char>::empty()),
{
    let text = seq![open] + inner + seq![close];
    let none = Seq::<char>::empty();
    let square = opens_square(open);
    let inside = if square {
        Filter { square_depth: 1, ..f }
    } else {
        Filter { paren_depth: 1, ..f }
    };
    assert(filtered(f, seq![open]) == (inside, none)) by {
        assert(seq![open].drop_last() =~= none);
        assert(filtered(f, none) == (f, none));
        assert(hashes(0) + none + none =~= none);
        assert(none + none =~= none);
    }
    lemma_inside(inside, inner, square, inner.len() as int);
    assert(inner.take(inner.len() as int) =~= inner);
    law_filter_in_pieces(f, seq![open], inner);
    assert(none + none =~= none);
    assert(text.drop_last() =~= seq![open] + inner);
    assert(text.last() == close);
}

/// Hash signs at the start of a line wait.
proof fn lemma_hashes_wait(f: Filter, n: nat)
    requires
        f.paren_depth == 0,
        f.square_depth == 0,
        f.pending_hashes == 0,
        !f.pending_gt,
        f.line_start,
        n <= 6,
    ensures
        filtered(f, hashes(n)) == (Filter { pending_hashes: n, ..f }, Seq::<char>::empty()),
    decreases n,
{
    let none = Seq::<char>::empty();
    if n > 0 {
        lemma_hashes_wait(f, (n - 1) as nat);
        assert(hashes(n).drop_last() =~= hashes((n - 1) as nat));
        assert(hashes(0) + none + none =~= none);
        assert(none + none =~= none);
    }
}

/// What marks a heading or a quotation, one to six hash signs or a `>` at the start
/// of a line and the white space behind it, is not spoken.
pub proof fn law_line_marks_are_removed(f: Filter, n: nat, space: char)
    requires
        f.paren_depth == 0,
        f.square_depth == 0,
        f.pending_hashes == 0,
        !f.pending_gt,
        f.line_start,
        1 <= n <= 6,
        is_white_space(space),
    ensures
        filtered(f, hashes(n).push(space)) == (
            Filter { line_start: false, ..f },
            Seq::<char>::empty(),
        ),
        filtered(f, seq!['>', space]) == (
            Filter { line_start: false, ..f },
            Seq::<char>::empty(),
        ),
{
    let none = Seq::<char>::empty();
    assert(none + none =~= none);
    lemma_hashes_wait(f, n);
    assert(hashes(n).push(space).drop_last() =~= hashes(n));
    assert(filtered(f, seq!['>']) == (Filter { pending_gt: true, ..f }, none)) by {
        assert(seq!['>'].drop_last() =~= none);
        assert(filtered(f, none) == (f, none));
        assert(hashes(0) + none + none =~= none);
    }
    assert(seq!['>', space].drop_last() =~= seq!['>']);
}

/// A character that stands for itself wherever it occurs.
pub open spec fn is_plain(c: char) -> bool {
    !is_markup(c) && c != '#' && c != '>'
}

/// A text without markup is kept as it is, wherever nothing is pending and no
/// bracket is open.
pub proof fn law_plain_text_is_kept(f: Filter, text: Seq<char>)
    requires
        f.paren_depth == 0,
        f.square_depth == 0,
        f.pending_hashes == 0,
        !f.pending_gt,
        forall|i: int| 0 <= i < text.len() ==> is_plain(#[trigger] text[i]),
    ensures
        filtered(f, text).1 == text,
        filtered(f, text).0 == (Filter {
            line_start: if text.len() == 0 {
                f.line_start
            } else {
                text.last() == '\n'
            },
            ..f
        }),
    decreases text.len(),
{
    if text.len() > 0 {
        assert forall|i: int| 0 <= i < text.drop_last().len() implies is_plain(
            #[trigger] text.drop_last()[i],
        ) by {
            assert(is_plain(text[i]));
        }
        law_plain_text_is_kept(f, text.drop_last());
        let c = text.last();
        assert(is_plain(text[text.len() - 1]));
        assert(hashes(0) + Seq::<char>::empty() + seq![c] =~= seq![c]);
        assert(text.drop_last() + seq![c] =~= text);
    } else {
        assert(text =~= seq![]);
    }
}

/// A character that means nothing to the filter: none of the brackets that open, none of
/// the five marks, neither `#` nor `>`, and no pictograph.
pub open spec fn is_ordinary(c: char) -> bool {
    &&& c != '(' && c != '（' && c != '[' && c != '【'
    &&& c != '*' && c != '_' && c != '`' && c != '~' && c != '|'
    &&& c != '#' && c != '>'
    &&& !(0x1F000 <= c as int <= 0x1FFFF)
    &&& !(0x2600 <= c as int <= 0x26FF)
    &&& !(0x2700 <= c as int <= 0x27BF)
}

/// Nothing was read that decides about what comes next.
pub open spec fn is_idle(f: Filter) -> bool {
    f.paren_depth == 0 && f.square_depth == 0 && f.pending_hashes == 0 && !f.pending_gt
}

/// Every text of ordinary characters is kept as it is.
pub proof fn law_ordinary_text_is_kept(f: Filter, text: Seq<char>)
    requires
        is_idle(f),
        forall|i: int| 0 <= i < text.len() ==> is_ordinary(#[trigger] text[i]),
    ensures
        filtered(f, text).1 == text,
        is_idle(filtered(f, text).0),
        text.len() > 0 ==> filtered(f, text).0.line_start == (text.last() == '\n'),
{
    assert forall|i: int| 0 <= i < text.len() implies is_plain(#[trigger] text[i]) by {
        assert(is_ordinary(text[i]));
    }
    law_plain_text_is_kept(f, text);
}

/// What is kept holds no bracket that opens, no mark and no pictograph.
pub proof fn law_kept_text_can_be_spoken(f: Filter, text: Seq<char>, i: int)
    requires
        0 <= i < filtered(f, text).1.len(),
    ensures
        ({
            let c = filtered(f, text).1[i];
            &&& c != '(' && c != '（' && c != '[' && c != '【'
            &&& c != '*' && c != '_' && c != '`' && c != '~' && c != '|'
            &&& !(0x1F000 <= c as int <= 0x1FFFF)
            &&& !(0x2600 <= c as int <= 0x26FF)
            &&& !(0x2700 <= c as int <= 0x27BF)
        }),
{
    law_markup_is_removed(f, text, i);
}

/// What each character alone does where nothing was read that decides about it: a mark
/// or a pictograph is left out and changes nothing, a bracket opens, `#` and `>` wait at
/// the start of a line and are kept elsewhere, and everything else is kept.
pub proof fn law_each_character(f: Filter, c: char)
    requires
        is_idle(f),
    ensures
        ({
            let (next, out) = filtered(f, seq![c]);
            &&& (c == '*' || c == '_' || c == '`' || c == '~' || c == '|' || 0x1F000 <= c as int
                <= 0x1FFFF || 0x2600 <= c as int <= 0x26FF || 0x2700 <= c as int <= 0x27BF)
                ==> next == f && out.len() == 0
            &&& (c == '(' || c == '（') ==> out.len() == 0 && next == (Filter {
                paren_depth: 1,
                ..f
            })
            &&& (c == '[' || c == '【') ==> out.len() == 0 && next == (Filter {
                square_depth: 1,
                ..f
            })
            &&& c == '#' && f.line_start ==> out.len() == 0 && next == (Filter {
                pending_hashes: 1,
                ..f
            })
            &&& c == '>' && f.line_start ==> out.len() == 0 && next == (Filter {
                pending_gt: true,
                ..f
            })
            &&& (is_ordinary(c) || !f.line_start && (c == '#' || c == '>')) ==> out == seq![c]
                && next == (Filter { line_start: c == '\n', ..f })
        }),
{
    let none = Seq::<char>::empty();
    assert(seq![c].drop_last() =~= none);
    assert(filtered(f, none) == (f, none));
    assert(hashes(0) =~= none);
    let out = plain_step(f, c).1;
    assert(none + none + out =~= out);
    assert(none + out =~= out);
    assert(filtered(f, seq![c]) == (plain_step(f, c).0, out));
}

/// Hash signs or a `>` at the start of a line that no white space follows mark nothing:
/// they are kept, with what follows them.
pub proof fn law_other_line_starts_are_kept(f: Filter, n: nat, c: char)
    requires
        is_idle(f),
        f.line_start,
        1 <= n <= 6,
        is_ordinary(c),
        !is_white_space(c),
    ensures
        filtered(f, Seq::new(n, |i: int| '#').push(c)) == (
            Filter { line_start: false, ..f },
            Seq::new(n, |i: int| '#').push(c),
        ),
        filtered(f, seq!['>', c]) == (Filter { line_start: false, ..f }, seq!['>', c]),
{
    let none = Seq::<char>::empty();
    let signs = hashes(n);
    let waiting = Filter { pending_hashes: n, ..f };
    let quoting = Filter { pending_gt: true, ..f };
    assert(signs =~= Seq::new(n, |i: int| '#'));
    lemma_hashes_wait(f, n);
    assert(signs.push(c).drop_last() =~= signs);
    assert(c != '\n');
    assert(step(waiting, c).1 =~= signs.push(c));
    assert(none + signs.push(c) =~= signs.push(c));
    law_each_character(f, '>');
    assert(filtered(f, seq!['>']).1 =~= none);
    assert(seq!['>', c].drop_last() =~= seq!['>']);
    assert(hashes(0) =~= none);
    assert(step(quoting, c).1 =~= seq!['>', c]);
    assert(none + seq!['>', c] =~= seq!['>', c]);
}

/// At the end of a text, hash signs or a `>` that still wait come out; nothing else
/// does.
pub proof fn law_end_brings_out_what_waits(f: Filter, n: nat)
    requires
        is_idle(f),
        f.line_start,
        n <= 6,
    ensures
        tail(filtered(f, Seq::new(n, |i: int| '#')).0) == Seq::new(n, |i: int| '#'),
        tail(filtered(f, seq!['>']).0) == seq!['>'],
        tail(f) == Seq::<char>::empty(),
{
    assert(hashes(n) =~= Seq::new(n, |i: int| '#'));
    lemma_hashes_wait(f, n);
    assert(tail(Filter { pending_hashes: n, ..f }) =~= hashes(n));
    law_each_character(f, '>');
    assert(tail(Filter { pending_gt: true, ..f }) =~= seq!['>']);
    assert(tail(f) =~= Seq::<char>::empty());
}

/// Nothing is spoken of what follows a bracket until that is closed.
pub proof fn law_open_brackets_silence(f: Filter, text: Seq<char>)
    requires
        f.paren_depth > 0 ==> forall|i: int|
            0 <= i < text.len() ==> #[trigger] text[i] != ')' && text[i] != '）',
        f.paren_depth == 0 ==> f.square_depth > 0 && forall|i: int|
            0 <= i < text.len() ==> #[trigger] text[i] != ']' && text[i] != '】',
    ensures
        filtered(f, text).1.len() == 0,
        f.paren_depth > 0 ==> filtered(f, text).0.paren_depth > 0,
        f.paren_depth == 0 ==> filtered(f, text).0.paren_depth == 0 && filtered(
            f,
            text,
        ).0.square_depth > 0,
    decreases text.len(),
{
    if text.len() > 0 {
        let before = text.drop_last();
        assert forall|i: int| 0 <= i < before.len() implies #[trigger] before[i] == text[i] by {}
        law_open_brackets_silence(f, before);
        assert(text.last() == text[text.len() - 1]);
    }
}

/// Brackets are closed by their own kind, one at a time, the ASCII form and the full-width
/// form alike.
pub proof fn law_brackets_close(f: Filter, c: char)
    ensures
        f.paren_depth > 0 && (c == ')' || c == '）') ==> step(f, c).0 == (Filter {
            paren_depth: (f.paren_depth - 1) as nat,
            ..f
        }),
        f.paren_depth > 0 && (c == '(' || c == '（') ==> step(f, c).0 == (Filter {
            paren_depth: f.paren_depth + 1,
            ..f
        }),
        f.paren_depth == 0 && f.square_depth > 0 && (c == ']' || c == '】') ==> step(f, c).0 == (
        Filter { square_depth: (f.square_depth - 1) as nat, ..f }),
        f.paren_depth == 0 && f.square_depth > 0 && (c == '[' || c == '【') ==> step(f, c).0 == (
        Filter { square_depth: f.square_depth + 1, ..f }),
{
}

/// A piece is passed on as it is if anything in it is not white space, and not at all
/// otherwise.
pub proof fn law_pieces_are_passed_on(piece: Seq<char>)
    ensures
        (forall|i: int| 0 <= i < piece.len() ==> is_white_space(#[trigger] piece[i])) ==> spoken(
            piece,
        ) is None,
        (exists|i: int| 0 <= i < piece.len() && !is_white_space(#[trigger] piece[i])) ==> spoken(
            piece,
        ) == Some(piece),
{
    crate::text::law_blank(piece);
}

} // verus!
