//! Scrolling of a wrapped paragraph: the offset and its clamp against the
//! content as wrapped are kept together, so that the end of a long text is
//! always reachable. The offset is an intention (keys only push it, and
//! `jump_to_end` asks for the very end); drawing normalizes it to the real
//! maximum once the wrapped height is known, so that an arrow up right after
//! jumping to the end answers at once.
use vstd::prelude::*;

verus! {

/// Scroll state of a paragraph (offset in visual lines from the top).
#[derive(Debug, Clone, Copy)]
pub struct ScrollState {
    offset: u16,
}

impl Default for ScrollState {
    fn default() -> (r: ScrollState)
        ensures
            r@ == 0,
    {
        ScrollState { offset: 0 }
    }
}

/// Lines of the body that stay visible: the inner height less the reserved
/// bottom lines, at least one.
pub open spec fn body_height(inner_height: u16, reserve_bottom: u16) -> int {
    let h = if inner_height >= reserve_bottom {
        inner_height - reserve_bottom
    } else {
        0
    };
    if h < 1 {
        1
    } else {
        h
    }
}

/// Greatest offset for `line_count` wrapped lines (the count as the drawing
/// takes it, narrowed to 16 bits).
pub open spec fn max_offset(line_count: usize, inner_height: u16, reserve_bottom: u16) -> int {
    let n = line_count as u16;
    let b = body_height(inner_height, reserve_bottom);
    if n >= b {
        n - b
    } else {
        0
    }
}

/// An offset held at most at `max`.
pub open spec fn clamp_offset(offset: int, max: int) -> int {
    if offset <= max {
        offset
    } else {
        max
    }
}

impl View for ScrollState {
    type V = u16;

    /// The offset (0 = top).
    closed spec fn view(&self) -> u16 {
        self.offset
    }
}

impl ScrollState {
    /// Effective offset of the last drawing (0 = top).
    pub fn offset(&self) -> (r: u16)
        ensures
            r == self@,
    {
        self.offset
    }

    /// Moves down `n` lines (saturating; clamped at the next drawing).
    pub fn down(&mut self, n: u16)
        ensures
            final(self)@ == (if old(self)@ + n > u16::MAX {
                u16::MAX as int
            } else {
                old(self)@ + n
            }),
    {
        self.offset = self.offset.saturating_add(n);
    }

    /// Moves up `n` lines (saturating at the top).
    pub fn up(&mut self, n: u16)
        ensures
            final(self)@ == (if old(self)@ >= n {
                old(self)@ - n
            } else {
                0
            }),
    {
        self.offset = self.offset.saturating_sub(n);
    }

    /// Jumps to the end (clamped for real at the next drawing).
    pub fn jump_to_end(&mut self)
        ensures
            final(self)@ == u16::MAX,
    {
        self.offset = u16::MAX;
    }

    /// Normalizes the offset against the wrapped content: `line_count` visual
    /// lines in a body of `inner_height` rows, of which `reserve_bottom` are
    /// drawn over by the caller (a footer) and do not count as visible body.
    pub fn clamp_to(&mut self, line_count: usize, inner_height: u16, reserve_bottom: u16)
        ensures
            final(self)@ == clamp_offset(
                old(self)@ as int,
                max_offset(line_count, inner_height, reserve_bottom),
            ),
    {
        let h = inner_height.saturating_sub(reserve_bottom);
        let body: u16 = if h < 1 {
            1
        } else {
            h
        };
        let n = line_count as u16;
        let max = n.saturating_sub(body);
        if self.offset > max {
            self.offset = max;
        }
    }
}

/// Clamping is idempotent and never passes the end: normalizing twice
/// against the same content leaves the offset where the first normalization
/// put it, at most the greatest offset.
pub proof fn lemma_clamp_idempotent(offset: int, line_count: usize, inner_height: u16, reserve_bottom: u16)
    ensures
        ({
            let m = max_offset(line_count, inner_height, reserve_bottom);
            &&& clamp_offset(offset, m) <= m
            &&& clamp_offset(clamp_offset(offset, m), m) == clamp_offset(offset, m)
        }),
{
}

} // verus!
