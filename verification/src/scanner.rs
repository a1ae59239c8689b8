//! The scanner: mesh text cut into lines, and lines into tokens.
//!
//! A line ends at a line feed or at the end of the text. A token is a run of
//! bytes that are not blank, as long as it can be: lines are cut at runs of
//! spaces, tabs and carriage returns, so a line needs no trimming.

use vstd::prelude::*;
use vstd::slice::{slice_subrange, slice_to_vec};

verus! {

/// The byte that ends a line.
pub const LINE_FEED: u8 = 0x0a;

/// A stretch of the text: the bytes from `start` up to, not including, `end`.
#[derive(Clone, Copy, Debug, PartialEq, Eq, Structural)]
pub struct Span {
    pub start: usize,
    pub end: usize,
}

/// The span from `start` to `end`.
pub open spec fn span(start: int, end: int) -> Span {
    Span { start: start as usize, end: end as usize }
}

impl Span {
    /// Whether the span lies within a text of `len` bytes.
    pub open spec fn fits(self, len: nat) -> bool {
        self.start <= self.end <= len
    }

    /// The bytes of the span.
    pub open spec fn of(self, text: Seq<u8>) -> Seq<u8> {
        text.subrange(self.start as int, self.end as int)
    }
}

/// Whether a byte separates tokens: a space, a tab or a carriage return.
pub open spec fn is_blank(b: u8) -> bool {
    b == 0x20 || b == 0x09 || b == 0x0d
}

/// The lines of the text from byte `at` on, the first of which began at
/// `start`.
pub open spec fn lines_from(text: Seq<u8>, start: int, at: int) -> Seq<Span>
    decreases text.len() - at,
{
    if at >= text.len() {
        seq![span(start, text.len() as int)]
    } else if text[at] == LINE_FEED {
        seq![span(start, at)] + lines_from(text, at + 1, at + 1)
    } else {
        lines_from(text, start, at + 1)
    }
}

/// The lines of the text, without their line feeds. A text of `n` line feeds
/// has `n + 1` lines; the last is empty where the text ends in a line feed.
pub open spec fn lines(text: Seq<u8>) -> Seq<Span> {
    lines_from(text, 0, 0)
}

/// The tokens between `at` and `end`, where `at` is outside a token.
pub open spec fn tokens_from(text: Seq<u8>, at: int, end: int) -> Seq<Span>
    decreases end - at, 1int,
{
    if at >= end {
        Seq::empty()
    } else if is_blank(text[at]) {
        tokens_from(text, at + 1, end)
    } else {
        token_rest(text, at, at + 1, end)
    }
}

/// The tokens between `at` and `end`, where `at` is inside or just behind a
/// token that began at `start`.
pub open spec fn token_rest(text: Seq<u8>, start: int, at: int, end: int) -> Seq<Span>
    decreases end - at, 0int,
{
    if at >= end {
        seq![span(start, end)]
    } else if is_blank(text[at]) {
        seq![span(start, at)] + tokens_from(text, at + 1, end)
    } else {
        token_rest(text, start, at + 1, end)
    }
}

/// The tokens of a line, in order.
pub open spec fn tokens(text: Seq<u8>, line: Span) -> Seq<Span> {
    tokens_from(text, line.start as int, line.end as int)
}

/// Whether the spans cut the text from `start` on into lines: each holds no
/// line feed, the first begins at `start`, each but the last ends at a line
/// feed behind which the next begins, and the last ends with the text.
pub open spec fn cuts_into_lines(text: Seq<u8>, start: int, spans: Seq<Span>) -> bool {
    &&& spans.len() >= 1
    &&& spans[0].start == start
    &&& spans.last().end == text.len()
    &&& forall|j: int|
        0 <= j < spans.len() ==> (#[trigger] spans[j]).fits(text.len()) && forall|i: int|
            spans[j].start <= i < spans[j].end ==> text[i] != LINE_FEED
    &&& forall|j: int|
        0 <= j < spans.len() - 1 ==> text[(#[trigger] spans[j]).end as int] == LINE_FEED
            && spans[j + 1].start == spans[j].end + 1
}

/// Whether `at` is a token of the line: a run of bytes that are not blank,
/// with a blank or an end of the line on either side.
pub open spec fn is_token(text: Seq<u8>, line: Span, at: Span) -> bool {
    &&& line.start <= at.start < at.end <= line.end
    &&& forall|i: int| at.start <= i < at.end ==> !is_blank(#[trigger] text[i])
    &&& at.start == line.start || is_blank(text[at.start - 1])
    &&& at.end == line.end || is_blank(text[at.end as int])
}

/// Whether the spans are the tokens of the line from `from` on: each is a
/// token, they come in the order of the text, and every byte at or behind
/// `from` that is not blank lies in one of them.
pub open spec fn cuts_into_tokens(text: Seq<u8>, line: Span, from: int, spans: Seq<Span>) -> bool {
    &&& forall|k: int| 0 <= k < spans.len() ==> is_token(text, line, #[trigger] spans[k])
    &&& forall|k: int| 0 <= k < spans.len() ==> from <= (#[trigger] spans[k]).start
    &&& forall|k: int| 0 <= k < spans.len() - 1 ==> (#[trigger] spans[k]).end < spans[k + 1].start
    &&& forall|i: int|
        from <= i < line.end && !is_blank(#[trigger] text[i]) ==> exists|k: int|
            0 <= k < spans.len() && (#[trigger] spans[k]).start <= i < spans[k].end
}

proof fn lemma_lines_from(text: Seq<u8>, start: int, at: int)
    requires
        0 <= start <= at <= text.len() <= usize::MAX,
        forall|i: int| start <= i < at ==> text[i] != LINE_FEED,
    ensures
        cuts_into_lines(text, start, lines_from(text, start, at)),
    decreases text.len() - at,
{
    if at >= text.len() {
    } else if text[at] == LINE_FEED {
        lemma_lines_from(text, at + 1, at + 1);
        let rest = lines_from(text, at + 1, at + 1);
        let all = lines_from(text, start, at);
        assert(all == seq![span(start, at)] + rest);
        assert forall|j: int| 0 <= j < all.len() implies (#[trigger] all[j]).fits(text.len())
            && forall|i: int| all[j].start <= i < all[j].end ==> text[i] != LINE_FEED by {
            if j > 0 {
                assert(all[j] == rest[j - 1]);
            }
        }
        assert forall|j: int| 0 <= j < all.len() - 1 implies text[(#[trigger] all[j]).end as int]
            == LINE_FEED && all[j + 1].start == all[j].end + 1 by {
            assert(all[j + 1] == rest[j]);
            if j > 0 {
                assert(all[j] == rest[j - 1]);
            }
        }
        assert(all.last() == rest.last());
    } else {
        lemma_lines_from(text, start, at + 1);
    }
}

/// The lines of a text cut it into lines.
pub proof fn lemma_lines(text: Seq<u8>)
    requires
        text.len() <= usize::MAX,
    ensures
        cuts_into_lines(text, 0, lines(text)),
{
    lemma_lines_from(text, 0, 0);
}

proof fn lemma_tokens_from(text: Seq<u8>, line: Span, at: int)
    requires
        line.fits(text.len()),
        text.len() <= usize::MAX,
        line.start <= at <= line.end,
        at == line.start || at == line.end || is_blank(text[at - 1]),
    ensures
        cuts_into_tokens(text, line, at, tokens_from(text, at, line.end as int)),
    decreases line.end - at, 1int,
{
    if at >= line.end {
    } else if is_blank(text[at]) {
        lemma_tokens_from(text, line, at + 1);
        let spans = tokens_from(text, at + 1, line.end as int);
        assert forall|k: int| 0 <= k < spans.len() implies at <= (#[trigger] spans[k]).start by {}
    } else {
        lemma_token_rest(text, line, at, at + 1);
    }
}

proof fn lemma_token_rest(text: Seq<u8>, line: Span, start: int, at: int)
    requires
        line.fits(text.len()),
        text.len() <= usize::MAX,
        line.start <= start < at <= line.end,
        start == line.start || is_blank(text[start - 1]),
        forall|i: int| start <= i < at ==> !is_blank(#[trigger] text[i]),
    ensures
        cuts_into_tokens(text, line, start, token_rest(text, start, at, line.end as int)),
    decreases line.end - at, 0int,
{
    let end = line.end as int;
    let all = token_rest(text, start, at, end);
    if at >= end {
        assert(all[0] == span(start, end));
        assert forall|i: int| start <= i < line.end && !is_blank(#[trigger] text[i]) implies exists|
            k: int,
        |
            0 <= k < all.len() && (#[trigger] all[k]).start <= i < all[k].end by {
            assert(all[0].start <= i < all[0].end);
        }
    } else if is_blank(text[at]) {
        lemma_tokens_from(text, line, at + 1);
        let rest = tokens_from(text, at + 1, end);
        assert(all == seq![span(start, at)] + rest);
        assert(all[0] == span(start, at));
        assert(is_token(text, line, all[0]));
        assert forall|k: int| 0 <= k < all.len() implies is_token(text, line, #[trigger] all[k])
            && start <= all[k].start by {
            if k > 0 {
                assert(all[k] == rest[k - 1]);
            }
        }
        assert forall|k: int| 0 <= k < all.len() - 1 implies (#[trigger] all[k]).end < all[k
            + 1].start by {
            assert(all[k + 1] == rest[k]);
            if k > 0 {
                assert(all[k] == rest[k - 1]);
            }
        }
        assert forall|i: int| start <= i < line.end && !is_blank(#[trigger] text[i]) implies exists|
            k: int,
        |
            0 <= k < all.len() && (#[trigger] all[k]).start <= i < all[k].end by {
            if i < at {
                assert(all[0].start <= i < all[0].end);
            } else {
                let k = choose|k: int|
                    0 <= k < rest.len() && (#[trigger] rest[k]).start <= i < rest[k].end;
                assert(all[k + 1] == rest[k]);
                assert(all[k + 1].start <= i < all[k + 1].end);
            }
        }
    } else {
        lemma_token_rest(text, line, start, at + 1);
    }
}

/// The tokens of a line are its runs of bytes that are not blank, each as
/// long as it can be, in the order of the text, and none is left out.
pub proof fn lemma_tokens(text: Seq<u8>, line: Span)
    requires
        line.fits(text.len()),
        text.len() <= usize::MAX,
    ensures
        cuts_into_tokens(text, line, line.start as int, tokens(text, line)),
{
    lemma_tokens_from(text, line, line.start as int);
}

/// Whether a byte separates tokens.
pub fn blank(b: u8) -> (r: bool)
    ensures
        r == is_blank(b),
{
    b == 0x20 || b == 0x09 || b == 0x0d
}

/// Cuts the text into lines.
pub fn split_lines(text: &[u8]) -> (r: Vec<Span>)
    ensures
        r@ == lines(text@),
        r.len() >= 1,
        forall|j: int| 0 <= j < r.len() ==> (#[trigger] r@[j]).fits(text@.len()),
{
    let mut r: Vec<Span> = Vec::new();
    let mut start: usize = 0;
    let mut at: usize = 0;
    while at < text.len()
        invariant
            start <= at <= text.len(),
            lines(text@) == r@ + lines_from(text@, start as int, at as int),
            forall|j: int| 0 <= j < r.len() ==> (#[trigger] r@[j]).fits(text@.len()),
        decreases text.len() - at,
    {
        if text[at] == LINE_FEED {
            let ghost rest = lines_from(text@, at + 1, at + 1);
            assert(r@ + (seq![span(start as int, at as int)] + rest) =~= r@.push(
                span(start as int, at as int),
            ) + rest);
            r.push(Span { start, end: at });
            start = at + 1;
        }
        at += 1;
    }
    assert(r@ + seq![span(start as int, text@.len() as int)] =~= r@.push(
        span(start as int, text@.len() as int),
    ));
    r.push(Span { start, end: at });
    r
}

/// Cuts a line into tokens.
pub fn split_tokens(text: &[u8], line: Span) -> (r: Vec<Span>)
    requires
        line.fits(text@.len()),
    ensures
        r@ == tokens(text@, line),
        forall|k: int| 0 <= k < r.len() ==> (#[trigger] r@[k]).fits(text@.len()),
{
    let mut r: Vec<Span> = Vec::new();
    let mut open: Option<usize> = None;
    let mut at: usize = line.start;
    let end = line.end;
    while at < end
        invariant
            line.start <= at <= end <= text.len(),
            end == line.end,
            open matches Some(s) ==> line.start <= s < at,
            tokens(text@, line) == r@ + match open {
                Some(s) => token_rest(text@, s as int, at as int, end as int),
                None => tokens_from(text@, at as int, end as int),
            },
            forall|k: int| 0 <= k < r.len() ==> (#[trigger] r@[k]).fits(text@.len()),
        decreases end - at,
    {
        let b = blank(text[at]);
        match open {
            Some(s) => {
                if b {
                    let ghost rest = tokens_from(text@, at + 1, end as int);
                    assert(r@ + (seq![span(s as int, at as int)] + rest) =~= r@.push(
                        span(s as int, at as int),
                    ) + rest);
                    r.push(Span { start: s, end: at });
                    open = None;
                }
            },
            None => {
                if !b {
                    open = Some(at);
                }
            },
        }
        at += 1;
    }
    match open {
        Some(s) => {
            assert(r@ + seq![span(s as int, end as int)] =~= r@.push(span(s as int, end as int)));
            r.push(Span { start: s, end });
        },
        None => {
            assert(r@ + Seq::<Span>::empty() =~= r@);
        },
    }
    r
}

/// A token that has begun is there.
pub proof fn lemma_token_rest_nonempty(text: Seq<u8>, start: int, at: int, end: int)
    ensures
        token_rest(text, start, at, end).len() > 0,
    decreases end - at,
{
    if at < end && !is_blank(text[at]) {
        lemma_token_rest_nonempty(text, start, at + 1, end);
    }
}

/// The first token of a line, if it has one.
pub fn first_token(text: &[u8], line: Span) -> (r: Option<Span>)
    requires
        line.fits(text@.len()),
    ensures
        r == if tokens(text@, line).len() == 0 {
            None
        } else {
            Some(tokens(text@, line)[0])
        },
        r matches Some(at) ==> at.fits(text@.len()),
{
    let end = line.end;
    let mut start: usize = line.start;
    while start < end && blank(text[start])
        invariant
            line.start <= start <= end <= text.len(),
            end == line.end,
            tokens(text@, line) == tokens_from(text@, start as int, end as int),
        decreases end - start,
    {
        start += 1;
    }
    if start >= end {
        return None;
    }
    let mut at: usize = start + 1;
    proof {
        lemma_token_rest_nonempty(text@, start as int, at as int, end as int);
    }
    while at < end && !blank(text[at])
        invariant
            start < at <= end <= text.len(),
            tokens(text@, line).len() > 0,
            token_rest(text@, start as int, at as int, end as int).len() > 0,
            tokens(text@, line)[0] == token_rest(text@, start as int, at as int, end as int)[0],
        decreases end - at,
    {
        proof {
            lemma_token_rest_nonempty(text@, start as int, at + 1, end as int);
        }
        at += 1;
    }
    Some(Span { start, end: at })
}

/// The bytes of a span of the text.
pub fn slice<'a>(text: &'a [u8], at: Span) -> (r: &'a [u8])
    requires
        at.fits(text@.len()),
    ensures
        r@ == at.of(text@),
{
    slice_subrange(text, at.start, at.end)
}

/// A copy of the bytes of a span of the text.
pub fn copy_of(text: &[u8], at: Span) -> (r: Vec<u8>)
    requires
        at.fits(text@.len()),
    ensures
        r@ == at.of(text@),
{
    slice_to_vec(slice_subrange(text, at.start, at.end))
}

} // verus!
