//! The frames of the backend's pitch trace: which of them a segment of the
//! caller's pitch curve draws over, and how they lie in the pitch file.
//! The trace has 99.84 frames in a second; time is counted in whole
//! nanoseconds. A frame is kept as the 32 bits of its number.

use vstd::prelude::*;

verus! {

/// The frames of a hundred seconds.
pub const FRAMES_PER_100_SECONDS: i128 = 9984;

/// The nanoseconds of a hundred seconds.
pub const NS_PER_100_SECONDS: i128 = 100_000_000_000;

/// The last frame that is not after the time `t_ns`.
pub open spec fn frame_floor(t_ns: int) -> int {
    (t_ns * 9984) / 100_000_000_000
}

/// The first frame that is not before the time `t_ns`.
pub open spec fn frame_ceil(t_ns: int) -> int {
    -((-(t_ns * 9984)) / 100_000_000_000)
}

/// The frame nearest to the middle of the times `a_ns` and `b_ns`; a
/// middle half way between two frames goes to the one farther from zero.
pub open spec fn frame_nearest_middle(a_ns: int, b_ns: int) -> int {
    let x = (a_ns + b_ns) * 9984;
    if x >= 0 {
        (2 * x + 200_000_000_000) / 400_000_000_000
    } else {
        -((-2 * x + 200_000_000_000) / 400_000_000_000)
    }
}

/// The frames that a segment from `a_ns` to `b_ns` draws: all frames from
/// the first not before `a_ns` to the last not after `b_ns`; where there is
/// none, the one nearest to the middle, so that a short segment leaves a
/// trace.
pub open spec fn segment_first_frame(a_ns: int, b_ns: int) -> int {
    if frame_ceil(a_ns) <= frame_floor(b_ns) {
        frame_ceil(a_ns)
    } else {
        frame_nearest_middle(a_ns, b_ns)
    }
}

/// The last frame that a segment from `a_ns` to `b_ns` draws.
pub open spec fn segment_last_frame(a_ns: int, b_ns: int) -> int {
    if frame_ceil(a_ns) <= frame_floor(b_ns) {
        frame_floor(b_ns)
    } else {
        frame_nearest_middle(a_ns, b_ns)
    }
}

/// Whether a segment of the curve is drawn at all: both its pitches are
/// numbers, and it ends after it starts.
pub open spec fn segment_drawn(
    finite_before: bool,
    finite_after: bool,
    a_ns: int,
    b_ns: int,
) -> bool {
    finite_before && finite_after && a_ns < b_ns
}

/// The frames of a trace of `frame_count` frames that a segment draws
/// over, first and last; `None` where it draws over none.
pub open spec fn segment_frames_spec(
    finite_before: bool,
    finite_after: bool,
    a_ns: int,
    b_ns: int,
    frame_count: int,
) -> Option<(int, int)> {
    let first = segment_first_frame(a_ns, b_ns);
    let last = segment_last_frame(a_ns, b_ns);
    let lo = if first < 0 {
        0
    } else {
        first
    };
    let hi = if last >= frame_count {
        frame_count - 1
    } else {
        last
    };
    if segment_drawn(finite_before, finite_after, a_ns, b_ns) && lo <= hi {
        Some((lo, hi))
    } else {
        None
    }
}

/// `x / d` rounded down, for a positive `d`.
fn div_floor(x: i128, d: i128) -> (q: i128)
    requires
        0 < d <= 400_000_000_000,
        -0x4000_0000_0000_0000_0000_0000 <= x <= 0x4000_0000_0000_0000_0000_0000,
    ensures
        q == x / d,
        -0x4000_0000_0000_0000_0000_0000 <= q <= 0x4000_0000_0000_0000_0000_0000,
{
    if x >= 0 {
        let q = (x as u128) / (d as u128);
        assert(0 <= q <= x) by (nonlinear_arith)
            requires
                q == (x as int) / (d as int),
                x >= 0,
                d > 0,
        ;
        q as i128
    } else {
        let n: u128 = (-x) as u128;
        let q: u128 = (n + (d as u128) - 1) / (d as u128);
        assert(0 <= q <= n && (x as int) / (d as int) == -(q as int)) by (nonlinear_arith)
            requires
                q == (n + d - 1) / (d as int),
                n == -x,
                x < 0,
                d > 0,
        ;
        -(q as i128)
    }
}

/// The frames of a pitch trace of `frame_count` frames that one segment of
/// the caller's curve draws over, first and last. The segment runs from
/// `before_ns` to `after_ns` on the caller's time base, `offset_ns` before
/// the time base of the trace. A segment with a pitch that is no number,
/// or one that does not end after it starts, draws nothing.
pub fn segment_frames(
    finite_before: bool,
    finite_after: bool,
    before_ns: i64,
    after_ns: i64,
    offset_ns: i64,
    frame_count: usize,
) -> (r: Option<(usize, usize)>)
    ensures
        match r {
            Some((lo, hi)) => segment_frames_spec(
                finite_before,
                finite_after,
                before_ns + offset_ns,
                after_ns + offset_ns,
                frame_count as int,
            ) == Some((lo as int, hi as int)),
            None => segment_frames_spec(
                finite_before,
                finite_after,
                before_ns + offset_ns,
                after_ns + offset_ns,
                frame_count as int,
            ) is None,
        },
        !finite_before || !finite_after ==> r is None,
        match r {
            Some((lo, hi)) => lo <= hi < frame_count,
            None => true,
        },
{
    if !finite_before || !finite_after || after_ns <= before_ns {
        return None;
    }
    let a: i128 = before_ns as i128 + offset_ns as i128;
    let b: i128 = after_ns as i128 + offset_ns as i128;
    let ceil_a: i128 = -div_floor(-(a * FRAMES_PER_100_SECONDS), NS_PER_100_SECONDS);
    let floor_b: i128 = div_floor(b * FRAMES_PER_100_SECONDS, NS_PER_100_SECONDS);
    let (first, last): (i128, i128) = if ceil_a <= floor_b {
        (ceil_a, floor_b)
    } else {
        let x: i128 = (a + b) * FRAMES_PER_100_SECONDS;
        let nearest: i128 = if x >= 0 {
            div_floor(2 * x + 2 * NS_PER_100_SECONDS, 4 * NS_PER_100_SECONDS)
        } else {
            -div_floor(-2 * x + 2 * NS_PER_100_SECONDS, 4 * NS_PER_100_SECONDS)
        };
        (nearest, nearest)
    };
    if frame_count == 0 {
        return None;
    }
    let lo: i128 = if first < 0 {
        0
    } else {
        first
    };
    let hi: i128 = if last >= frame_count as i128 {
        frame_count as i128 - 1
    } else {
        last
    };
    if lo <= hi {
        Some((lo as usize, hi as usize))
    } else {
        None
    }
}

// ---------------------------------------------------------------------
// The pitch file
// ---------------------------------------------------------------------

/// The 32-bit word whose four bytes, the least first, are `bytes[4 * i..]`.
pub open spec fn le_word(bytes: Seq<u8>, i: int) -> u32 {
    (bytes[4 * i] + bytes[4 * i + 1] * 0x100 + bytes[4 * i + 2] * 0x1_0000 + bytes[4 * i + 3]
        * 0x100_0000) as u32
}

/// Byte `k` of the word `w`, counted from the least.
pub open spec fn word_byte(w: u32, k: int) -> u8 {
    if k == 0 {
        (w % 0x100) as u8
    } else if k == 1 {
        (w / 0x100 % 0x100) as u8
    } else if k == 2 {
        (w / 0x1_0000 % 0x100) as u8
    } else {
        (w / 0x100_0000 % 0x100) as u8
    }
}

/// The frames of a pitch file: one 32-bit word for every four bytes, the
/// least byte first. Bytes after the last whole word are left out.
pub fn f0_words(bytes: &[u8]) -> (words: Vec<u32>)
    ensures
        words.len() == bytes.len() / 4,
        forall|i: int| 0 <= i < words.len() ==> #[trigger] words@[i] == le_word(bytes@, i),
{
    let count = bytes.len() / 4;
    let mut words: Vec<u32> = Vec::new();
    let mut i: usize = 0;
    while i < count
        invariant
            i <= count,
            count == bytes.len() / 4,
            words.len() == i,
            forall|j: int| 0 <= j < i ==> #[trigger] words@[j] == le_word(bytes@, j),
        decreases count - i,
    {
        let at = 4 * i;
        let word: u32 = bytes[at] as u32 + (bytes[at + 1] as u32) * 0x100 + (bytes[at + 2] as u32)
            * 0x1_0000 + (bytes[at + 3] as u32) * 0x100_0000;
        words.push(word);
        i += 1;
    }
    words
}

/// The bytes of a pitch file: four for every frame, the least byte first.
pub fn f0_bytes(words: &[u32]) -> (bytes: Vec<u8>)
    ensures
        bytes.len() == 4 * words.len(),
        forall|i: int, k: int|
            0 <= i < words.len() && 0 <= k < 4 ==> #[trigger] bytes@[4 * i + k] == word_byte(
                words@[i],
                k,
            ),
{
    let mut bytes: Vec<u8> = Vec::new();
    let mut i: usize = 0;
    while i < words.len()
        invariant
            i <= words.len(),
            bytes.len() == 4 * i,
            forall|j: int, k: int|
                0 <= j < i && 0 <= k < 4 ==> #[trigger] bytes@[4 * j + k] == word_byte(
                    words@[j],
                    k,
                ),
        decreases words.len() - i,
    {
        let w = words[i];
        let ghost before = bytes@;
        bytes.push((w % 0x100) as u8);
        bytes.push((w / 0x100 % 0x100) as u8);
        bytes.push((w / 0x1_0000 % 0x100) as u8);
        bytes.push((w / 0x100_0000 % 0x100) as u8);
        assert forall|j: int, k: int| 0 <= j < i + 1 && 0 <= k < 4 implies #[trigger] bytes@[4 * j
            + k] == word_byte(words@[j], k) by {
            if j < i {
                assert(bytes@[4 * j + k] == before[4 * j + k]);
            }
        }
        i += 1;
    }
    bytes
}

/// The bytes that are written for a word make that word again.
pub proof fn lemma_word_bytes(w: u32)
    ensures
        word_byte(w, 0) + word_byte(w, 1) * 0x100 + word_byte(w, 2) * 0x1_0000 + word_byte(w, 3)
            * 0x100_0000 == w,
{
}

/// A pitch file that is written for frames is read back as those frames.
pub proof fn lemma_f0_bytes_then_words(words: Seq<u32>, bytes: Seq<u8>)
    requires
        bytes.len() == 4 * words.len(),
        forall|i: int, k: int|
            0 <= i < words.len() && 0 <= k < 4 ==> #[trigger] bytes[4 * i + k] == word_byte(
                words[i],
                k,
            ),
    ensures
        forall|i: int| 0 <= i < words.len() ==> le_word(bytes, i) == #[trigger] words[i],
{
    assert forall|i: int| 0 <= i < words.len() implies le_word(bytes, i) == #[trigger] words[i] by {
        lemma_word_bytes(words[i]);
        assert(bytes[4 * i + 0] == word_byte(words[i], 0));
        assert(bytes[4 * i + 1] == word_byte(words[i], 1));
        assert(bytes[4 * i + 2] == word_byte(words[i], 2));
        assert(bytes[4 * i + 3] == word_byte(words[i], 3));
    }
}

} // verus!
