//! Text with escape sequences in it: how many of its bytes show on the
//! screen, and how to cut it to a number of columns without cutting a
//! sequence in two.
//!
//! `ESC` begins an escape sequence. The bytes after it belong to the sequence
//! up to and including the first byte between `0x40` and `0x7e`; a `[` right
//! behind the `ESC` does not count as that byte. Every other byte is visible.

use crate::input::{final_byte, is_final_byte, CSI_OPEN, ESC};
use vstd::prelude::*;

verus! {

/// Where a scan of the bytes stands.
#[derive(Debug, Clone, Copy, PartialEq, Eq, Structural)]
pub enum Scan {
    /// Outside any escape sequence.
    Text,
    /// Right behind an `ESC`.
    Introduced,
    /// Further inside an escape sequence.
    Inside,
}

/// Where the scan stands behind `b`.
pub open spec fn scan_step(state: Scan, b: u8) -> Scan {
    if b == ESC {
        Scan::Introduced
    } else {
        match state {
            Scan::Text => Scan::Text,
            Scan::Introduced => if b != CSI_OPEN && is_final_byte(b) {
                Scan::Text
            } else {
                Scan::Inside
            },
            Scan::Inside => if is_final_byte(b) {
                Scan::Text
            } else {
                Scan::Inside
            },
        }
    }
}

/// Whether `b`, met in `state`, shows on the screen.
pub open spec fn is_visible(state: Scan, b: u8) -> bool {
    state is Text && b != ESC
}

/// Where a scan that begins in `start` stands behind `bytes`.
pub open spec fn scan(start: Scan, bytes: Seq<u8>) -> Scan
    decreases bytes.len(),
{
    if bytes.len() == 0 {
        start
    } else {
        scan_step(scan(start, bytes.drop_last()), bytes.last())
    }
}

/// The number of visible bytes that a scan beginning in `start` meets in
/// `bytes`.
pub open spec fn visible_from(start: Scan, bytes: Seq<u8>) -> nat
    decreases bytes.len(),
{
    if bytes.len() == 0 {
        0
    } else {
        let seen = visible_from(start, bytes.drop_last());
        if is_visible(scan(start, bytes.drop_last()), bytes.last()) {
            seen + 1
        } else {
            seen
        }
    }
}

/// The number of bytes of `bytes` that are outside its escape sequences.
pub open spec fn visible_len(bytes: Seq<u8>) -> nat {
    visible_from(Scan::Text, bytes)
}

/// The length of the longest prefix of `bytes` that has at most `budget`
/// visible bytes.
pub open spec fn prefix_len(bytes: Seq<u8>, budget: nat) -> nat
    decreases bytes.len(),
{
    if bytes.len() == 0 || visible_len(bytes) <= budget {
        bytes.len()
    } else {
        prefix_len(bytes.drop_last(), budget)
    }
}

/// The longest prefix of `bytes` that has at most `budget` visible bytes.
pub open spec fn visible_prefix(bytes: Seq<u8>, budget: nat) -> Seq<u8> {
    bytes.take(prefix_len(bytes, budget) as int)
}

/// A scan of two pieces one after the other is the scan of the first,
/// followed by the scan of the second from where the first ended.
pub proof fn lemma_scan_concat(start: Scan, first: Seq<u8>, second: Seq<u8>)
    ensures
        scan(start, first + second) == scan(scan(start, first), second),
        visible_from(start, first + second) == visible_from(start, first) + visible_from(
            scan(start, first),
            second,
        ),
    decreases second.len(),
{
    if second.len() == 0 {
        assert(first + second =~= first);
    } else {
        lemma_scan_concat(start, first, second.drop_last());
        assert((first + second).drop_last() =~= first + second.drop_last());
    }
}

/// A prefix has no more visible bytes than the whole, and no more bytes.
pub proof fn lemma_visible_prefix_bound(bytes: Seq<u8>, k: int)
    requires
        0 <= k <= bytes.len(),
    ensures
        visible_len(bytes.take(k)) <= visible_len(bytes),
        visible_len(bytes) <= bytes.len(),
    decreases bytes.len(),
{
    if bytes.len() > 0 {
        lemma_visible_prefix_bound(bytes.drop_last(), if k < bytes.len() {
            k
        } else {
            k - 1
        });
        if k < bytes.len() {
            assert(bytes.take(k) =~= bytes.drop_last().take(k));
        } else {
            assert(bytes.take(k) =~= bytes);
        }
    } else {
        assert(bytes.take(k) =~= bytes);
    }
}

/// The prefix of `k` bytes is the longest with at most `budget` visible
/// bytes if it has at most that many, and one byte more would have more.
pub proof fn lemma_prefix_len_is(bytes: Seq<u8>, budget: nat, k: int)
    requires
        0 <= k <= bytes.len(),
        visible_len(bytes.take(k)) <= budget,
        k < bytes.len() ==> visible_len(bytes.take(k + 1)) > budget,
    ensures
        prefix_len(bytes, budget) == k,
    decreases bytes.len() - k,
{
    if k == bytes.len() {
        assert(bytes.take(k) =~= bytes);
    } else {
        lemma_visible_prefix_bound(bytes, k + 1);
        let shorter = bytes.drop_last();
        assert(shorter.take(k) =~= bytes.take(k));
        if k < shorter.len() {
            assert(shorter.take(k + 1) =~= bytes.take(k + 1));
        }
        lemma_prefix_len_is(shorter, budget, k);
    }
}

/// What cutting to a budget gives: a prefix with at most `budget` visible
/// bytes, which no longer prefix has, and the whole where the whole has no
/// more than `budget`.
pub proof fn lemma_visible_prefix(bytes: Seq<u8>, budget: nat)
    ensures
        prefix_len(bytes, budget) <= bytes.len(),
        visible_len(visible_prefix(bytes, budget)) <= budget,
        prefix_len(bytes, budget) < bytes.len() ==> visible_len(
            bytes.take(prefix_len(bytes, budget) as int + 1),
        ) > budget,
        visible_len(bytes) <= budget ==> visible_prefix(bytes, budget) == bytes,
    decreases bytes.len(),
{
    if bytes.len() == 0 || visible_len(bytes) <= budget {
        assert(bytes.take(bytes.len() as int) =~= bytes);
    } else {
        let shorter = bytes.drop_last();
        lemma_visible_prefix(shorter, budget);
        let k = prefix_len(shorter, budget) as int;
        assert(shorter.take(k) =~= bytes.take(k));
        if k < shorter.len() {
            assert(shorter.take(k + 1) =~= bytes.take(k + 1));
        } else {
            assert(bytes.take(k + 1) =~= bytes);
        }
    }
}

/// A piece of a text: plain bytes, or a control sequence, which is `ESC [`,
/// a body and a final byte.
pub enum Segment {
    Plain(Seq<u8>),
    Control(Seq<u8>, u8),
}

impl Segment {
    /// Plain bytes hold no `ESC`; a control sequence's body holds neither
    /// `ESC` nor a final byte, and its last byte is a final byte.
    pub open spec fn wf(self) -> bool {
        match self {
            Segment::Plain(text) => forall|i: int| 0 <= i < text.len() ==> #[trigger] text[i] != ESC,
            Segment::Control(body, last) => {
                &&& is_final_byte(last)
                &&& forall|i: int|
                    0 <= i < body.len() ==> #[trigger] body[i] != ESC && !is_final_byte(body[i])
            },
        }
    }

    /// The bytes of the piece.
    pub open spec fn bytes(self) -> Seq<u8> {
        match self {
            Segment::Plain(text) => text,
            Segment::Control(body, last) => seq![ESC, CSI_OPEN] + body + seq![last],
        }
    }

    /// The number of bytes of the piece that are outside control sequences.
    pub open spec fn plain_len(self) -> nat {
        match self {
            Segment::Plain(text) => text.len(),
            Segment::Control(_, _) => 0,
        }
    }
}

/// The bytes of the pieces, one after another.
pub open spec fn segments_bytes(segments: Seq<Segment>) -> Seq<u8>
    decreases segments.len(),
{
    if segments.len() == 0 {
        Seq::empty()
    } else {
        segments_bytes(segments.drop_last()) + segments.last().bytes()
    }
}

/// The number of bytes of the pieces that are outside control sequences.
pub open spec fn segments_plain_len(segments: Seq<Segment>) -> nat
    decreases segments.len(),
{
    if segments.len() == 0 {
        0
    } else {
        segments_plain_len(segments.drop_last()) + segments.last().plain_len()
    }
}

/// Bytes without `ESC`, scanned from outside a sequence, are all visible.
proof fn lemma_plain_is_visible(text: Seq<u8>)
    requires
        forall|i: int| 0 <= i < text.len() ==> #[trigger] text[i] != ESC,
    ensures
        scan(Scan::Text, text) == Scan::Text,
        visible_from(Scan::Text, text) == text.len(),
    decreases text.len(),
{
    if text.len() > 0 {
        let shorter = text.drop_last();
        assert forall|i: int| 0 <= i < shorter.len() implies #[trigger] shorter[i] != ESC by {
            assert(shorter[i] == text[i]);
        }
        lemma_plain_is_visible(shorter);
        assert(text.last() == text[text.len() - 1]);
    }
}

/// The body of a control sequence hides itself and leaves the scan inside.
proof fn lemma_body_is_hidden(body: Seq<u8>)
    requires
        forall|i: int| 0 <= i < body.len() ==> #[trigger] body[i] != ESC && !is_final_byte(body[i]),
    ensures
        scan(Scan::Inside, body) == Scan::Inside,
        visible_from(Scan::Inside, body) == 0,
    decreases body.len(),
{
    if body.len() > 0 {
        let shorter = body.drop_last();
        assert forall|i: int| 0 <= i < shorter.len() implies #[trigger] shorter[i] != ESC
            && !is_final_byte(shorter[i]) by {
            assert(shorter[i] == body[i]);
        }
        lemma_body_is_hidden(shorter);
        assert(body.last() == body[body.len() - 1]);
    }
}

/// A well-formed piece, scanned from outside a sequence, shows its plain
/// bytes and nothing else, and leaves the scan outside again.
proof fn lemma_segment_visible(segment: Segment)
    requires
        segment.wf(),
    ensures
        scan(Scan::Text, segment.bytes()) == Scan::Text,
        visible_from(Scan::Text, segment.bytes()) == segment.plain_len(),
{
    match segment {
        Segment::Plain(text) => {
            lemma_plain_is_visible(text);
        },
        Segment::Control(body, last) => {
            let opening = seq![ESC, CSI_OPEN];
            assert(opening.drop_last() =~= seq![ESC]);
            assert(seq![ESC].drop_last() =~= Seq::<u8>::empty());
            reveal_with_fuel(scan, 3);
            reveal_with_fuel(visible_from, 3);
            assert(scan(Scan::Text, opening) == Scan::Inside);
            assert(visible_from(Scan::Text, opening) == 0);
            lemma_body_is_hidden(body);
            lemma_scan_concat(Scan::Text, opening, body);
            let closing = seq![last];
            assert(closing.drop_last() =~= Seq::<u8>::empty());
            assert(scan(Scan::Inside, closing) == Scan::Text);
            assert(visible_from(Scan::Inside, closing) == 0);
            lemma_scan_concat(Scan::Text, opening + body, closing);
        },
    }
}

/// The visible length of a text made of plain bytes and control sequences, in
/// any interleaving, is the number of its bytes outside the sequences.
pub proof fn lemma_visible_len_counts_plain_bytes(segments: Seq<Segment>)
    requires
        forall|i: int| 0 <= i < segments.len() ==> (#[trigger] segments[i]).wf(),
    ensures
        visible_len(segments_bytes(segments)) == segments_plain_len(segments),
        scan(Scan::Text, segments_bytes(segments)) == Scan::Text,
    decreases segments.len(),
{
    if segments.len() > 0 {
        let shorter = segments.drop_last();
        assert forall|i: int| 0 <= i < shorter.len() implies (#[trigger] shorter[i]).wf() by {
            assert(shorter[i] == segments[i]);
        }
        lemma_visible_len_counts_plain_bytes(shorter);
        assert(segments.last() == segments[segments.len() - 1]);
        lemma_segment_visible(segments.last());
        lemma_scan_concat(Scan::Text, segments_bytes(shorter), segments.last().bytes());
    }
}

/// Where the scan stands behind `b`.
pub fn advance(state: Scan, b: u8) -> (next: Scan)
    ensures
        next == scan_step(state, b),
{
    if b == ESC {
        Scan::Introduced
    } else {
        match state {
            Scan::Text => Scan::Text,
            Scan::Introduced => if b != CSI_OPEN && final_byte(b) {
                Scan::Text
            } else {
                Scan::Inside
            },
            Scan::Inside => if final_byte(b) {
                Scan::Text
            } else {
                Scan::Inside
            },
        }
    }
}

/// Whether `b`, met in `state`, shows on the screen.
pub fn visible(state: Scan, b: u8) -> (shows: bool)
    ensures
        shows == is_visible(state, b),
{
    match state {
        Scan::Text => b != ESC,
        _ => false,
    }
}

/// The number of bytes of `bytes` that are outside its escape sequences.
pub fn visible_length(bytes: &[u8]) -> (n: usize)
    ensures
        n == visible_len(bytes@),
{
    let mut state = Scan::Text;
    let mut n: usize = 0;
    let mut i: usize = 0;
    while i < bytes.len()
        invariant
            i <= bytes@.len(),
            n <= i,
            state == scan(Scan::Text, bytes@.take(i as int)),
            n == visible_len(bytes@.take(i as int)),
        decreases bytes@.len() - i,
    {
        let b = bytes[i];
        proof {
            let next = bytes@.take(i as int + 1);
            assert(next.drop_last() =~= bytes@.take(i as int));
            assert(next.last() == b);
        }
        if visible(state, b) {
            n = n + 1;
        }
        state = advance(state, b);
        i = i + 1;
    }
    proof {
        assert(bytes@.take(bytes@.len() as int) =~= bytes@);
    }
    n
}

/// Cuts `bytes` to at most `budget` visible bytes: returns the longest prefix
/// that has no more. Escape sequences take nothing from the budget, so the
/// cut never falls inside one, and a sequence that follows the last visible
/// byte is kept; where `bytes` ends inside a sequence, so may the prefix.
pub fn truncate_visible(bytes: &[u8], budget: usize) -> (prefix: &[u8])
    ensures
        prefix@ == visible_prefix(bytes@, budget as nat),
        prefix@.len() <= bytes@.len(),
        prefix@ == bytes@.take(prefix@.len() as int),
        visible_len(prefix@) <= budget,
        prefix@.len() < bytes@.len() ==> visible_len(bytes@.take(prefix@.len() as int + 1)) > budget,
        visible_len(bytes@) <= budget ==> prefix@ == bytes@,
{
    let mut state = Scan::Text;
    let mut n: usize = 0;
    let mut i: usize = 0;
    while i < bytes.len() && !(n == budget && visible(state, bytes[i]))
        invariant
            i <= bytes@.len(),
            n <= i,
            n <= budget,
            state == scan(Scan::Text, bytes@.take(i as int)),
            n == visible_len(bytes@.take(i as int)),
        decreases bytes@.len() - i,
    {
        let b = bytes[i];
        proof {
            let next = bytes@.take(i as int + 1);
            assert(next.drop_last() =~= bytes@.take(i as int));
            assert(next.last() == b);
        }
        if visible(state, b) {
            n = n + 1;
        }
        state = advance(state, b);
        i = i + 1;
    }
    proof {
        if i < bytes@.len() {
            let next = bytes@.take(i as int + 1);
            assert(next.drop_last() =~= bytes@.take(i as int));
            assert(next.last() == bytes@[i as int]);
        }
        lemma_prefix_len_is(bytes@, budget as nat, i as int);
        lemma_visible_prefix(bytes@, budget as nat);
        assert(bytes@.subrange(0, i as int) =~= bytes@.take(i as int));
    }
    &bytes[0..i]
}

} // verus!
