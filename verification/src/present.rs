//! Presenting the off-screen canvas through two shared buffers.
//!
//! At frame time the compositor has released at least one of the two
//! buffers; the damage since the last frame is copied into it. Whatever a
//! frame damages becomes stale in the other buffer, which catches up the next
//! time it is used. Regions are kept as lists of rectangles.

use vstd::prelude::*;

use crate::canvas::Rect;

verus! {

/// Whether a rectangle covers no pixel.
pub open spec fn is_empty_rect(r: Rect) -> bool {
    r.width <= 0 || r.height <= 0
}

/// Whether a region covers some pixel.
pub open spec fn covers_some(rs: Seq<Rect>) -> bool {
    exists|i: int| 0 <= i < rs.len() && !is_empty_rect(#[trigger] rs[i])
}

/// The damage to present and what each buffer misses.
pub struct Presenter {
    /// Damaged since the last frame.
    pub pending: Vec<Rect>,
    /// Out of date in the first buffer.
    pub stale_first: Vec<Rect>,
    /// Out of date in the second buffer.
    pub stale_second: Vec<Rect>,
    /// A frame callback is outstanding.
    pub frame_requested: bool,
}

/// What to do for a frame: which buffer to use, what to copy into it from
/// the canvas, and what to report damaged to the compositor.
pub struct Flush {
    pub buffer: usize,
    pub copy: Vec<Rect>,
    pub damage: Vec<Rect>,
}

/// The state after flushing into buffer `idx`, as (pending, stale of the
/// first buffer, stale of the second), with the rectangles to copy.
pub open spec fn flushed(pending: Seq<Rect>, stale: (Seq<Rect>, Seq<Rect>), idx: int) -> ((Seq<Rect>, Seq<Rect>), Seq<Rect>) {
    if idx == 0 {
        ((Seq::empty(), stale.1 + pending), stale.0 + pending)
    } else {
        ((stale.0 + pending, Seq::empty()), stale.1 + pending)
    }
}

impl Presenter {
    /// Nothing to present, both buffers up to date.
    pub fn new() -> (res: Self)
        ensures
            res.pending@.len() == 0,
            res.stale_first@.len() == 0,
            res.stale_second@.len() == 0,
            !res.frame_requested,
    {
        Presenter { pending: Vec::new(), stale_first: Vec::new(), stale_second: Vec::new(), frame_requested: false }
    }

    /// Records `damage`. Returns whether a frame callback should be requested
    /// and a frame flushed now: when none is outstanding.
    pub fn mark_dirty(&mut self, damage: Rect) -> (flush_now: bool)
        ensures
            final(self).pending@ == old(self).pending@.push(damage),
            final(self).stale_first@ == old(self).stale_first@,
            final(self).stale_second@ == old(self).stale_second@,
            final(self).frame_requested,
            flush_now == !old(self).frame_requested,
    {
        self.pending.push(damage);
        if !self.frame_requested {
            self.frame_requested = true;
            true
        } else {
            false
        }
    }

    /// Takes the pending damage for a frame into the first free buffer, if
    /// either is free; otherwise nothing changes and the frame waits.
    pub fn flush(&mut self, first_free: bool, second_free: bool) -> (res: Option<Flush>)
        ensures
            !first_free && !second_free ==> res is None && final(self).pending@ == old(self).pending@
                && final(self).stale_first@ == old(self).stale_first@
                && final(self).stale_second@ == old(self).stale_second@,
            first_free || second_free ==> ({
                let idx: int = if first_free { 0 } else { 1 };
                let (stale, copy) = flushed(
                    old(self).pending@,
                    (old(self).stale_first@, old(self).stale_second@),
                    idx,
                );
                &&& res matches Some(f)
                &&& f.buffer == idx
                &&& f.copy@ == copy
                &&& f.damage@ == old(self).pending@
                &&& final(self).pending@.len() == 0
                &&& final(self).stale_first@ == stale.0
                &&& final(self).stale_second@ == stale.1
            }),
            final(self).frame_requested == old(self).frame_requested,
    {
        if !first_free && !second_free {
            return None;
        }
        let mut damage: Vec<Rect> = Vec::new();
        std::mem::swap(&mut damage, &mut self.pending);
        let mut i: usize = 0;
        let ghost stale_first = self.stale_first@;
        let ghost stale_second = self.stale_second@;
        let mut copy: Vec<Rect> = Vec::new();
        let buffer: usize;
        if first_free {
            std::mem::swap(&mut copy, &mut self.stale_first);
            buffer = 0;
        } else {
            std::mem::swap(&mut copy, &mut self.stale_second);
            buffer = 1;
        }
        let ghost copy0 = copy@;
        let ghost other0 = if first_free { stale_second } else { stale_first };
        while i < damage.len()
            invariant
                i <= damage@.len(),
                copy@ == copy0 + damage@.take(i as int),
                first_free ==> self.stale_second@ == other0 + damage@.take(i as int)
                    && self.stale_first@.len() == 0,
                !first_free ==> self.stale_first@ == other0 + damage@.take(i as int)
                    && self.stale_second@.len() == 0,
                self.pending@.len() == 0,
                self.frame_requested == old(self).frame_requested,
            decreases damage@.len() - i,
        {
            assert(damage@.take(i + 1) =~= damage@.take(i as int).push(damage@[i as int]));
            copy.push(damage[i]);
            if first_free {
                self.stale_second.push(damage[i]);
            } else {
                self.stale_first.push(damage[i]);
            }
            i = i + 1;
        }
        assert(damage@.take(damage@.len() as int) =~= damage@);
        Some(Flush { buffer, copy, damage })
    }

    /// The frame callback came: returns whether to request another and flush
    /// a frame, which is when some damage waits.
    pub fn on_frame_callback(&mut self) -> (flush_now: bool)
        ensures
            flush_now == covers_some(old(self).pending@),
            final(self).frame_requested == flush_now,
            final(self).pending@ == old(self).pending@,
            final(self).stale_first@ == old(self).stale_first@,
            final(self).stale_second@ == old(self).stale_second@,
    {
        let mut i: usize = 0;
        let mut found = false;
        while i < self.pending.len()
            invariant
                i <= self.pending@.len(),
                found == exists|j: int| 0 <= j < i && !is_empty_rect(#[trigger] self.pending@[j]),
            decreases self.pending@.len() - i,
        {
            let r = self.pending[i];
            if r.width > 0 && r.height > 0 {
                found = true;
            }
            i = i + 1;
        }
        self.frame_requested = found;
        found
    }
}

/// Damage is never lost: whatever is pending reaches the buffer flushed
/// next, and the other buffer the time after.
pub proof fn lemma_damage_reaches_both_buffers(
    pending: Seq<Rect>,
    stale: (Seq<Rect>, Seq<Rect>),
    idx: int,
    later: Seq<Rect>,
    r: Rect,
)
    requires
        0 <= idx <= 1,
        pending.contains(r),
    ensures
        flushed(pending, stale, idx).1.contains(r),
        flushed(later, flushed(pending, stale, idx).0, 1 - idx).1.contains(r),
{
    let k = choose|k: int| 0 <= k < pending.len() && pending[k] == r;
    let (s, c) = flushed(pending, stale, idx);
    if idx == 0 {
        assert(c[stale.0.len() + k] == r);
        assert(s.1[stale.1.len() + k] == r);
        assert((s.1 + later)[stale.1.len() + k] == r);
    } else {
        assert(c[stale.1.len() + k] == r);
        assert(s.0[stale.0.len() + k] == r);
        assert((s.0 + later)[stale.0.len() + k] == r);
    }
}

} // verus!
