//! The scrollback buffer: a bounded, insertion-ordered store of
//! timestamped log lines. New lines evict the oldest once the count
//! reaches the capacity. A scroll offset pans backward through
//! history; it auto-follows new content while it is zero and stays
//! anchored to the same historical lines otherwise. Rendering wraps
//! every body against the content width and selects the visible
//! window from the offset and the viewport height observed last.

use std::collections::VecDeque;

use vstd::prelude::*;

use crate::clock::{clock_text, format_clock, utc_offset};
use crate::text::{LineModel, StyledLine, sat_usize, spans_width};
use crate::wrap::{wrap, wrap_model};

verus! {

/// One stored log line: when it arrived, who said it, and what.
pub struct LogLine {
    pub timestamp: i64,
    pub tag: StyledLine,
    pub body: StyledLine,
}

/// Mathematical model of a log line.
#[verifier::ext_equal]
pub ghost struct LogLineModel {
    pub timestamp: int,
    pub tag: LineModel,
    pub body: LineModel,
}

impl View for LogLine {
    type V = LogLineModel;

    open spec fn view(&self) -> LogLineModel {
        LogLineModel { timestamp: self.timestamp as int, tag: self.tag@, body: self.body@ }
    }
}

/// Mathematical model of the buffer: the zone handle used for display
/// is opaque and does not appear here.
#[verifier::ext_equal]
pub ghost struct LogBufferModel {
    pub limit: int,
    pub lines: Seq<LogLineModel>,
    pub scroll: int,
    pub last_height: int,
}

/// The largest offset the buffer accepts: the line count (capped at
/// what the counter holds), plus two rows of frame chrome, minus the
/// viewport height observed at the previous render, floored at zero.
pub open spec fn scroll_bound(count: int, last_height: int) -> int {
    let c = if count > 65535 {
        65535int
    } else {
        count
    };
    let b = if c + 2 > 65535 {
        65535int
    } else {
        c + 2
    };
    if b - last_height < 0 {
        0
    } else {
        b - last_height
    }
}

/// An offset, clamped into the accepted range.
pub open spec fn clamped_scroll(v: int, count: int, last_height: int) -> int {
    let bound = scroll_bound(count, last_height);
    if v > bound {
        bound
    } else {
        v
    }
}

/// The lines kept after appending one: everything, while the count
/// stays under the capacity; otherwise the newest `capacity - 1`, the
/// oldest evicted first. A zero capacity keeps nothing.
pub open spec fn pushed_lines(
    lines: Seq<LogLineModel>,
    l: LogLineModel,
    limit: int,
) -> Seq<LogLineModel> {
    let appended = lines.push(l);
    if limit <= 0 {
        Seq::empty()
    } else if appended.len() >= limit {
        appended.skip(appended.len() - (limit - 1))
    } else {
        appended
    }
}

/// The whole buffer after a push: the line enters, a nonzero offset
/// grows by one (clamped, against the count before eviction) so the
/// view stays anchored, a zero offset stays pinned to the newest
/// content, and the capacity is enforced by eviction.
pub open spec fn push_model(m: LogBufferModel, l: LogLineModel) -> LogBufferModel {
    let scroll = if m.scroll != 0 {
        clamped_scroll(
            if m.scroll + 1 > 65535 {
                65535int
            } else {
                m.scroll + 1
            },
            m.lines.len() as int + 1,
            m.last_height,
        )
    } else {
        0
    };
    LogBufferModel {
        limit: m.limit,
        lines: pushed_lines(m.lines, l, m.limit),
        scroll,
        last_height: m.last_height,
    }
}

/// The first stored row shown in a viewport of the given height: the
/// window ends `scroll` rows above the newest line, floored at zero.
pub open spec fn view_offset(count: int, height: int, scroll: int) -> int {
    let vis = if height - 2 < 0 {
        0
    } else {
        height - 2
    };
    let anchored = if count - vis < 0 {
        0
    } else {
        count - vis
    };
    if anchored - scroll < 0 {
        0
    } else {
        anchored - scroll
    }
}

/// Rendered height of a line at a width: how many wrapped rows it
/// needs, one more than its width divided by the viewport's, and one
/// row for the degenerate zero-width viewport.
pub open spec fn spec_line_height(l: LineModel, max_width: int) -> int {
    if max_width == 0 {
        1
    } else {
        let wdth = sat_usize(spans_width(l.spans)) as int;
        let q = wdth / max_width;
        if q + 1 > usize::MAX {
            usize::MAX as int
        } else {
            q + 1
        }
    }
}

/// The width left over for body content once the clock column, the
/// borders and the tag column have taken theirs.
pub open spec fn spec_content_width(width: int, lcol_width: int) -> int {
    let a = if width - 14 < 0 {
        0
    } else {
        width - 14
    };
    if a - lcol_width < 0 {
        0
    } else {
        a - lcol_width
    }
}

/// The line height, capped at what the row-height counter holds.
pub open spec fn capped_height(l: LineModel, max_width: int) -> int {
    if spec_line_height(l, max_width) > 65535 {
        65535
    } else {
        spec_line_height(l, max_width)
    }
}

/// What a rendered row says about the stored line it renders: the tag
/// is carried over, the body is the line's body wrapped at the content
/// width, the height is the body's, and the clock text shows the
/// line's timestamp at some offset the zone database gave.
pub open spec fn row_renders(r: RenderRow, l: LogLineModel, content_width: int) -> bool {
    &&& r.tag@ == l.tag
    &&& r.body@.map_values(|b: StyledLine| b@) == wrap_model(l.body, content_width as nat)
    &&& r.height as int == capped_height(l.body, content_width)
    &&& exists|off: int| -86400 <= off <= 86400 && r.time@ == clock_text(l.timestamp, off)
}

/// One rendered row: the clock column, the tag column, the wrapped
/// body rows, and the row height the body needs.
pub struct RenderRow {
    pub time: String,
    pub tag: StyledLine,
    pub body: Vec<StyledLine>,
    pub height: u16,
}

/// One rendered frame: a row per stored line, the index of the first
/// visible row, and the width the bodies were wrapped at.
pub struct RenderFrame {
    pub rows: Vec<RenderRow>,
    pub offset: usize,
    pub content_width: u16,
}

/// The bounded scrollback store with its pan state.
pub struct LogBuffer {
    limit: u16,
    tz: chrono_tz::Tz,
    scroll: u16,
    last_frame_height: u16,
    raw: VecDeque<LogLine>,
}

impl View for LogBuffer {
    type V = LogBufferModel;

    closed spec fn view(&self) -> LogBufferModel {
        LogBufferModel {
            limit: self.limit as int,
            lines: self.raw@.map_values(|l: LogLine| l@),
            scroll: self.scroll as int,
            last_height: self.last_frame_height as int,
        }
    }
}

/// The buffer's standing shape: the stored lines never reach the
/// capacity, which eviction on push maintains.
pub open spec fn wf(m: LogBufferModel) -> bool {
    if m.limit == 0 {
        m.lines.len() == 0
    } else {
        m.lines.len() < m.limit
    }
}

impl LogBuffer {
    /// An empty buffer with the given capacity, displaying clocks in
    /// the given zone.
    pub fn new(buf_limit: u16, tz: chrono_tz::Tz) -> (r: LogBuffer)
        ensures
            r@.limit == buf_limit as int,
            r@.lines.len() == 0,
            r@.scroll == 0,
            r@.last_height == 0,
            wf(r@),
    {
        let r = LogBuffer {
            limit: buf_limit,
            tz,
            scroll: 0,
            last_frame_height: 0,
            raw: VecDeque::new(),
        };
        proof {
            assert(r@.lines =~= Seq::<LogLineModel>::empty());
        }
        r
    }

    /// How many lines are stored.
    pub fn count(&self) -> (r: usize)
        ensures
            r == self@.lines.len(),
    {
        self.raw.len()
    }

    /// The current scroll offset.
    pub fn scroll(&self) -> (r: u16)
        ensures
            r as int == self@.scroll,
    {
        self.scroll
    }

    /// The stored lines, oldest first.
    pub fn lines(&self) -> (r: &VecDeque<LogLine>)
        ensures
            r@.map_values(|l: LogLine| l@) == self@.lines,
    {
        &self.raw
    }

    /// Appends a line, keeping the view anchored and the capacity
    /// enforced.
    #[verifier::loop_isolation(false)]
    pub fn push_line(&mut self, timestamp: i64, tag: StyledLine, body: StyledLine)
        ensures
            final(self)@ == push_model(
                old(self)@,
                LogLineModel { timestamp: timestamp as int, tag: tag@, body: body@ },
            ),
            wf(old(self)@) ==> wf(final(self)@),
    {
        let ghost m0 = self@;
        let ghost l = LogLineModel { timestamp: timestamp as int, tag: tag@, body: body@ };
        self.raw.push_back(LogLine { timestamp, tag, body });
        proof {
            assert(self@.lines =~= m0.lines.push(l));
        }
        // A nonzero offset follows the content it is anchored to; a
        // zero offset keeps the camera pinned to the newest line.
        if self.scroll != 0 {
            self.inc_scroll();
        }
        let ghost target = push_model(m0, l);
        let ghost appended = m0.lines.push(l);
        // Evict from the front until the count is back under the
        // capacity.
        while self.raw.len() >= self.limit as usize && self.raw.len() > 0
            invariant
                self.limit == m0.limit,
                self.scroll as int == target.scroll,
                self.last_frame_height as int == m0.last_height,
                self@.lines =~= appended.skip(appended.len() - self.raw.len()),
                self.raw.len() <= appended.len(),
                m0.limit > 0 && appended.len() < m0.limit ==> self.raw.len() == appended.len(),
                appended.len() >= m0.limit ==> self.raw.len() + 1 >= m0.limit,
            decreases self.raw.len(),
        {
            let ghost pre = self@.lines;
            self.raw.pop_front();
            proof {
                assert(self@.lines =~= pre.subrange(1, pre.len() as int));
                assert(self@.lines =~= appended.skip(appended.len() - self.raw.len()));
            }
        }
        proof {
            if m0.limit == 0 {
                assert(self@.lines =~= Seq::<LogLineModel>::empty());
            } else if appended.len() >= m0.limit {
                assert(self.raw.len() == m0.limit - 1);
            } else {
                assert(self@.lines =~= appended) by {
                    assert(appended.skip(0) =~= appended);
                }
            }
            assert(self@.lines =~= target.lines);
            assert(self@ =~= target);
        }
    }

    /// Sets the offset, clamped against the count and the viewport
    /// height observed at the previous render.
    pub fn set_scroll(&mut self, val: u16)
        ensures
            final(self)@ == (LogBufferModel {
                scroll: clamped_scroll(val as int, old(self)@.lines.len() as int, old(self)@.last_height),
                ..old(self)@
            }),
    {
        self.scroll = self.clamp_scroll(val);
    }

    /// Pans one line further back into history, clamped.
    pub fn inc_scroll(&mut self)
        ensures
            final(self)@ == (LogBufferModel {
                scroll: clamped_scroll(
                    if old(self)@.scroll + 1 > 65535 {
                        65535int
                    } else {
                        old(self)@.scroll + 1
                    },
                    old(self)@.lines.len() as int,
                    old(self)@.last_height,
                ),
                ..old(self)@
            }),
    {
        self.scroll = self.clamp_scroll(self.scroll.saturating_add(1));
    }

    /// Pans one line back toward the newest content, clamped.
    pub fn dec_scroll(&mut self)
        ensures
            final(self)@ == (LogBufferModel {
                scroll: clamped_scroll(
                    if old(self)@.scroll - 1 < 0 {
                        0int
                    } else {
                        old(self)@.scroll - 1
                    },
                    old(self)@.lines.len() as int,
                    old(self)@.last_height,
                ),
                ..old(self)@
            }),
    {
        self.scroll = self.clamp_scroll(self.scroll.saturating_sub(1));
    }

    /// Rendered height of a line at a width: one more row than its
    /// width divided by the viewport's, and a single row when the
    /// viewport has no width.
    pub fn line_height(line: &StyledLine, max_width: u16) -> (r: usize)
        ensures
            r as int == spec_line_height(line@, max_width as int),
    {
        if max_width == 0 {
            1
        } else {
            let wdth = line.width();
            (wdth / (max_width as usize)).saturating_add(1)
        }
    }

    /// One rendered row per stored line, oldest first: the clock text
    /// for the line's timestamp at the zone's offset, the tag, the
    /// body wrapped at the content width, and the body's row height.
    #[verifier::loop_isolation(false)]
    pub fn rows(&self, content_width: u16) -> (r: Vec<RenderRow>)
        ensures
            r@.len() == self@.lines.len(),
            forall|i: int|
                0 <= i < r@.len() ==> #[trigger] row_renders(
                    r@[i],
                    self@.lines[i],
                    content_width as int,
                ),
    {
        let mut out: Vec<RenderRow> = Vec::new();
        let mut i: usize = 0;
        while i < self.raw.len()
            invariant
                i <= self.raw.len(),
                out@.len() == i,
                forall|k: int|
                    0 <= k < i ==> #[trigger] row_renders(
                        out@[k],
                        self@.lines[k],
                        content_width as int,
                    ),
            decreases self.raw.len() - i,
        {
            let line = &self.raw[i];
            let off: i64 = match utc_offset(&self.tz, line.timestamp) {
                Some(o) => o,
                None => 0,
            };
            let time = format_clock(line.timestamp, off);
            let tag = line.tag.duplicate();
            let body = wrap(&line.body, content_width);
            let h = Self::line_height(&line.body, content_width);
            let height: u16 = if h > 65535 {
                65535
            } else {
                h as u16
            };
            let row = RenderRow { time, tag, body, height };
            proof {
                let ln = self@.lines[i as int];
                assert(-86400 <= off as int <= 86400 && row.time@ == clock_text(
                    ln.timestamp,
                    off as int,
                ));
                assert(row_renders(row, ln, content_width as int));
            }
            out.push(row);
            i = i + 1;
        }
        out
    }

    /// Renders a frame: records the viewport height for later scroll
    /// clamping, wraps every line at the width left over for content,
    /// and selects the first visible row from the scroll offset.
    pub fn render(&mut self, width: u16, height: u16, lcol_width: u16) -> (r: RenderFrame)
        ensures
            final(self)@ == (LogBufferModel { last_height: height as int, ..old(self)@ }),
            r.content_width as int == spec_content_width(width as int, lcol_width as int),
            r.rows@.len() == old(self)@.lines.len(),
            forall|i: int|
                0 <= i < r.rows@.len() ==> #[trigger] row_renders(
                    r.rows@[i],
                    old(self)@.lines[i],
                    r.content_width as int,
                ),
            r.offset as int == view_offset(
                old(self)@.lines.len() as int,
                height as int,
                old(self)@.scroll,
            ),
    {
        self.last_frame_height = height;
        let content_width = width.saturating_sub(14).saturating_sub(lcol_width);
        let rows = self.rows(content_width);
        let vis = height.saturating_sub(2);
        let offset = self.raw.len().saturating_sub(vis as usize).saturating_sub(
            self.scroll as usize,
        );
        RenderFrame { rows, offset, content_width }
    }

    /// The offset the buffer would accept in place of the given one.
    fn clamp_scroll(&self, value: u16) -> (r: u16)
        ensures
            r as int == clamped_scroll(value as int, self@.lines.len() as int, self@.last_height),
    {
        let count = self.raw.len();
        let capped: u16 = if count > 65535 {
            65535
        } else {
            count as u16
        };
        let bound = capped.saturating_add(2).saturating_sub(self.last_frame_height);
        if value > bound {
            bound
        } else {
            value
        }
    }
}

/// Law: a push always lands within the capacity. The buffer that a
/// push yields is well formed whatever came before, so the stored
/// count never exceeds the capacity after any sequence of pushes.
pub proof fn lemma_count_within_capacity(m: LogBufferModel, l: LogLineModel)
    requires
        m.limit >= 0,
    ensures
        wf(push_model(m, l)),
        push_model(m, l).lines.len() <= m.limit,
{
    let appended = m.lines.push(l);
    if m.limit > 0 && appended.len() >= m.limit {
        assert(appended.skip(appended.len() - (m.limit - 1)).len() == m.limit - 1);
    }
}

/// Law: auto-follow. A zero offset stays zero across a push, so the
/// camera keeps following the newest content; a nonzero offset grows
/// by exactly one, so the view stays anchored to the same lines —
/// provided the offset and count are clear of their counters' ends
/// and the grown offset is still within the clamp for the viewport
/// height observed last.
pub proof fn lemma_push_auto_follow(m: LogBufferModel, l: LogLineModel)
    requires
        m.scroll == 0 || (m.scroll < 65535 && m.scroll + 1 <= scroll_bound(
            m.lines.len() as int + 1,
            m.last_height,
        )),
    ensures
        m.scroll == 0 ==> push_model(m, l).scroll == 0,
        m.scroll != 0 ==> push_model(m, l).scroll == m.scroll + 1,
{
}

/// Law: scroll clamping. Whatever offset is requested, the offset
/// kept never exceeds the line count plus two rows of chrome minus
/// the viewport height observed at the previous render — so a later
/// render at that height starts its window within the stored lines.
pub proof fn lemma_scroll_clamped(m: LogBufferModel, v: int)
    requires
        m.lines.len() + 2 <= 65535,
    ensures
        clamped_scroll(v, m.lines.len() as int, m.last_height) <= if m.lines.len() as int + 2
            - m.last_height < 0 {
            0int
        } else {
            m.lines.len() as int + 2 - m.last_height
        },
{
}

} // verus!
