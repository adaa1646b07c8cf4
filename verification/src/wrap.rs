//! Line wrapping for fixed-width rendering. A styled line is broken
//! into sub-lines no wider than the given width, accumulating grapheme
//! clusters into a pending segment and flushing that segment whenever
//! the next cluster would overflow the open sub-line. Breaking points
//! are always cluster boundaries, so no cluster is ever split.

use vstd::prelude::*;

use vstd::string::StringExecFns;

use crate::text::{
    LineModel, SpanModel, Style, StyledLine, StyledSpan, graphemes, graphemes_of, str_width,
    width_of,
};

verus! {

/// A piece of an output sub-line: grapheme clusters drawn in one style.
#[verifier::ext_equal]
pub ghost struct WrapPiece {
    pub gs: Seq<Seq<char>>,
    pub style: Style,
}

/// The wrapping scan's state: the finished sub-lines, the open
/// sub-line, and the pending segment of clusters not yet flushed.
#[verifier::ext_equal]
pub ghost struct WrapState {
    pub done: Seq<Seq<WrapPiece>>,
    pub acc: Seq<WrapPiece>,
    pub buf: Seq<Seq<char>>,
}

/// The span a piece renders as: its clusters joined, in its style.
pub open spec fn piece_model(p: WrapPiece) -> SpanModel {
    SpanModel { text: p.gs.flatten(), style: p.style }
}

/// The sub-line a sequence of pieces renders as.
pub open spec fn pieces_model(ps: Seq<WrapPiece>) -> LineModel {
    LineModel { spans: ps.map_values(|p: WrapPiece| piece_model(p)) }
}

/// Display width of a sequence of pieces: the sum of the widths of
/// their joined texts, the width the open sub-line occupies.
pub open spec fn pieces_width(ps: Seq<WrapPiece>) -> nat
    decreases ps.len(),
{
    if ps.len() == 0 {
        0
    } else {
        pieces_width(ps.drop_last()) + width_of(ps.last().gs.flatten())
    }
}

/// The text of a sequence of pieces, in order.
pub open spec fn pieces_text(ps: Seq<WrapPiece>) -> Seq<char>
    decreases ps.len(),
{
    if ps.len() == 0 {
        Seq::empty()
    } else {
        pieces_text(ps.drop_last()) + ps.last().gs.flatten()
    }
}

/// The clusters of a sequence of pieces, in order.
pub open spec fn pieces_gs(ps: Seq<WrapPiece>) -> Seq<Seq<char>>
    decreases ps.len(),
{
    if ps.len() == 0 {
        Seq::empty()
    } else {
        pieces_gs(ps.drop_last()) + ps.last().gs
    }
}

/// The text of a sequence of finished sub-lines, in order.
pub open spec fn layout_text(done: Seq<Seq<WrapPiece>>) -> Seq<char>
    decreases done.len(),
{
    if done.len() == 0 {
        Seq::empty()
    } else {
        layout_text(done.drop_last()) + pieces_text(done.last())
    }
}

/// The clusters of a sequence of finished sub-lines, in order.
pub open spec fn layout_gs(done: Seq<Seq<WrapPiece>>) -> Seq<Seq<char>>
    decreases done.len(),
{
    if done.len() == 0 {
        Seq::empty()
    } else {
        layout_gs(done.drop_last()) + pieces_gs(done.last())
    }
}

/// All text a wrapping state holds, finished or pending.
pub open spec fn state_text(s: WrapState) -> Seq<char> {
    layout_text(s.done) + pieces_text(s.acc) + s.buf.flatten()
}

/// All clusters a wrapping state holds, finished or pending.
pub open spec fn state_gs(s: WrapState) -> Seq<Seq<char>> {
    layout_gs(s.done) + pieces_gs(s.acc) + s.buf
}

/// The scan's starting state: nothing emitted, nothing pending.
pub open spec fn wrap_init() -> WrapState {
    WrapState { done: Seq::empty(), acc: Seq::empty(), buf: Seq::empty() }
}

/// One cluster arrives. If placing the pending segment and the cluster
/// on the open sub-line would exceed the width, the segment is flushed
/// onto that sub-line, the sub-line is finished, and the cluster opens
/// the next segment; otherwise the cluster joins the segment.
pub open spec fn wrap_step(s: WrapState, g: Seq<char>, style: Style, max_width: nat) -> WrapState {
    if pieces_width(s.acc) + width_of(s.buf.flatten()) + width_of(g) > max_width {
        WrapState {
            done: s.done.push(s.acc.push(WrapPiece { gs: s.buf, style })),
            acc: Seq::empty(),
            buf: seq![g],
        }
    } else {
        WrapState { done: s.done, acc: s.acc, buf: s.buf.push(g) }
    }
}

/// The scan over one span's clusters, left to right.
pub open spec fn wrap_span_rec(
    s: WrapState,
    gs: Seq<Seq<char>>,
    style: Style,
    max_width: nat,
) -> WrapState
    decreases gs.len(),
{
    if gs.len() == 0 {
        s
    } else {
        wrap_step(wrap_span_rec(s, gs.drop_last(), style, max_width), gs.last(), style, max_width)
    }
}

/// A span ends: whatever segment is pending joins the open sub-line.
pub open spec fn wrap_flush(s: WrapState, style: Style) -> WrapState {
    if s.buf.len() > 0 {
        WrapState {
            done: s.done,
            acc: s.acc.push(WrapPiece { gs: s.buf, style }),
            buf: Seq::empty(),
        }
    } else {
        WrapState { done: s.done, acc: s.acc, buf: Seq::empty() }
    }
}

/// The scan over one whole span.
pub open spec fn wrap_span(s: WrapState, sp: SpanModel, max_width: nat) -> WrapState {
    wrap_flush(wrap_span_rec(s, graphemes_of(sp.text), sp.style, max_width), sp.style)
}

/// The scan over a line's spans, left to right.
pub open spec fn wrap_spans(s: WrapState, spans: Seq<SpanModel>, max_width: nat) -> WrapState
    decreases spans.len(),
{
    if spans.len() == 0 {
        s
    } else {
        wrap_span(wrap_spans(s, spans.drop_last(), max_width), spans.last(), max_width)
    }
}

/// The finished layout of a wrapped line: the scan's sub-lines, with
/// the still-open sub-line closing the layout. A line always wraps to
/// at least one sub-line, an empty line to exactly one empty sub-line.
pub open spec fn wrap_layout(l: LineModel, max_width: nat) -> Seq<Seq<WrapPiece>> {
    let s = wrap_spans(wrap_init(), l.spans, max_width);
    s.done.push(s.acc)
}

/// The wrapped sub-lines of a line at a given width.
pub open spec fn wrap_model(l: LineModel, max_width: nat) -> Seq<LineModel> {
    wrap_layout(l, max_width).map_values(|ps: Seq<WrapPiece>| pieces_model(ps))
}

/// The text of a line: its span texts, in order.
pub open spec fn spans_text(spans: Seq<SpanModel>) -> Seq<char>
    decreases spans.len(),
{
    if spans.len() == 0 {
        Seq::empty()
    } else {
        spans_text(spans.drop_last()) + spans.last().text
    }
}

/// The clusters of a line: its spans' clusters, in order.
pub open spec fn spans_gs(spans: Seq<SpanModel>) -> Seq<Seq<char>>
    decreases spans.len(),
{
    if spans.len() == 0 {
        Seq::empty()
    } else {
        spans_gs(spans.drop_last()) + graphemes_of(spans.last().text)
    }
}

/// The text of a sequence of wrapped sub-lines, in order.
pub open spec fn wrapped_text(ls: Seq<LineModel>) -> Seq<char>
    decreases ls.len(),
{
    if ls.len() == 0 {
        Seq::empty()
    } else {
        wrapped_text(ls.drop_last()) + spans_text(ls.last().spans)
    }
}

proof fn lemma_pieces_text_push(ps: Seq<WrapPiece>, p: WrapPiece)
    ensures
        pieces_text(ps.push(p)) == pieces_text(ps) + p.gs.flatten(),
        pieces_gs(ps.push(p)) == pieces_gs(ps) + p.gs,
        pieces_width(ps.push(p)) == pieces_width(ps) + width_of(p.gs.flatten()),
{
    assert(ps.push(p).drop_last() =~= ps);
}

proof fn lemma_layout_push(done: Seq<Seq<WrapPiece>>, ps: Seq<WrapPiece>)
    ensures
        layout_text(done.push(ps)) == layout_text(done) + pieces_text(ps),
        layout_gs(done.push(ps)) == layout_gs(done) + pieces_gs(ps),
{
    assert(done.push(ps).drop_last() =~= done);
}

/// One step of the scan keeps all text, appending the new cluster.
proof fn lemma_step_preserves(s: WrapState, g: Seq<char>, style: Style, max_width: nat)
    ensures
        state_text(wrap_step(s, g, style, max_width)) =~= state_text(s) + g,
        state_gs(wrap_step(s, g, style, max_width)) =~= state_gs(s).push(g),
{
    broadcast use vstd::seq_lib::group_seq_properties;

    let s2 = wrap_step(s, g, style, max_width);
    if pieces_width(s.acc) + width_of(s.buf.flatten()) + width_of(g) > max_width {
        lemma_pieces_text_push(s.acc, WrapPiece { gs: s.buf, style });
        lemma_layout_push(s.done, s.acc.push(WrapPiece { gs: s.buf, style }));
        assert(s2.buf.flatten() =~= g) by {
            assert(s2.buf.len() == 1);
            s2.buf.lemma_flatten_one_element();
        }
        assert(state_gs(s).push(g) =~= state_gs(s) + seq![g]);
    } else {
        assert(s.buf.push(g).flatten() =~= s.buf.flatten() + g) by {
            broadcast use Seq::lemma_flatten_push;

        }
    }
}

/// Ending a span keeps all text: the pending segment only moves.
proof fn lemma_flush_preserves(s: WrapState, style: Style)
    ensures
        state_text(wrap_flush(s, style)) =~= state_text(s),
        state_gs(wrap_flush(s, style)) =~= state_gs(s),
{
    if s.buf.len() > 0 {
        lemma_pieces_text_push(s.acc, WrapPiece { gs: s.buf, style });
    } else {
        assert(s.buf =~= Seq::<Seq<char>>::empty());
        assert(s.buf.flatten() =~= Seq::<char>::empty());
    }
}

/// The scan over a span's clusters keeps all text, appending them.
proof fn lemma_span_rec_preserves(s: WrapState, gs: Seq<Seq<char>>, style: Style, max_width: nat)
    ensures
        state_text(wrap_span_rec(s, gs, style, max_width)) =~= state_text(s) + gs.flatten(),
        state_gs(wrap_span_rec(s, gs, style, max_width)) =~= state_gs(s) + gs,
    decreases gs.len(),
{
    broadcast use vstd::seq_lib::group_seq_properties;

    if gs.len() == 0 {
        assert(gs.flatten() =~= Seq::<char>::empty());
    } else {
        lemma_span_rec_preserves(s, gs.drop_last(), style, max_width);
        let mid = wrap_span_rec(s, gs.drop_last(), style, max_width);
        lemma_step_preserves(mid, gs.last(), style, max_width);
        assert(gs.drop_last().push(gs.last()) =~= gs);
        assert(gs.drop_last().flatten() + gs.last() =~= gs.flatten()) by {
            broadcast use Seq::lemma_flatten_push;

            assert(gs.drop_last().push(gs.last()).flatten() == gs.drop_last().flatten()
                + gs.last());
        }
    }
}

/// The scan over a line's spans keeps all text: each span contributes
/// its clusters, and — when its clusters join back into its text — its
/// text.
proof fn lemma_spans_preserve(s: WrapState, spans: Seq<SpanModel>, max_width: nat)
    requires
        forall|k: int|
            0 <= k < spans.len() ==> #[trigger] graphemes_of(spans[k].text).flatten()
                == spans[k].text,
    ensures
        state_text(wrap_spans(s, spans, max_width)) =~= state_text(s) + spans_text(spans),
        state_gs(wrap_spans(s, spans, max_width)) =~= state_gs(s) + spans_gs(spans),
        spans.len() > 0 ==> wrap_spans(s, spans, max_width).buf == Seq::<Seq<char>>::empty(),
        spans.len() == 0 ==> wrap_spans(s, spans, max_width) == s,
    decreases spans.len(),
{
    broadcast use vstd::seq_lib::group_seq_properties;

    if spans.len() == 0 {
        assert(spans_text(spans) =~= Seq::<char>::empty());
        assert(spans_gs(spans) =~= Seq::<Seq<char>>::empty());
    } else {
        assert forall|k: int| 0 <= k < spans.drop_last().len() implies #[trigger] graphemes_of(
            spans.drop_last()[k].text,
        ).flatten() == spans.drop_last()[k].text by {
            assert(spans.drop_last()[k] == spans[k]);
        }
        lemma_spans_preserve(s, spans.drop_last(), max_width);
        let mid = wrap_spans(s, spans.drop_last(), max_width);
        let sp = spans.last();
        lemma_span_rec_preserves(mid, graphemes_of(sp.text), sp.style, max_width);
        lemma_flush_preserves(
            wrap_span_rec(mid, graphemes_of(sp.text), sp.style, max_width),
            sp.style,
        );
        assert(graphemes_of(sp.text).flatten() == sp.text);
    }
}

/// A sequence of pieces renders as a sub-line with the pieces' text.
proof fn lemma_pieces_model_text(ps: Seq<WrapPiece>)
    ensures
        spans_text(pieces_model(ps).spans) == pieces_text(ps),
    decreases ps.len(),
{
    if ps.len() > 0 {
        lemma_pieces_model_text(ps.drop_last());
        let m = ps.map_values(|p: WrapPiece| piece_model(p));
        assert(m.drop_last() =~= ps.drop_last().map_values(|p: WrapPiece| piece_model(p)));
        assert(spans_text(m) == spans_text(m.drop_last()) + m.last().text);
    }
}

/// A finished layout renders as sub-lines with the layout's text.
proof fn lemma_layout_model_text(done: Seq<Seq<WrapPiece>>)
    ensures
        wrapped_text(done.map_values(|ps: Seq<WrapPiece>| pieces_model(ps))) == layout_text(done),
    decreases done.len(),
{
    if done.len() > 0 {
        lemma_layout_model_text(done.drop_last());
        let m = done.map_values(|ps: Seq<WrapPiece>| pieces_model(ps));
        assert(m.drop_last() =~= done.drop_last().map_values(
            |ps: Seq<WrapPiece>| pieces_model(ps),
        ));
        lemma_pieces_model_text(done.last());
        assert(wrapped_text(m) == wrapped_text(m.drop_last()) + spans_text(m.last().spans));
    }
}

/// Breaks a styled line into sub-lines for a viewport of the given
/// width. Sub-lines are exactly the ones the wrapping scan yields; all
/// text is kept, in order, and every break falls on a grapheme-cluster
/// boundary: the clusters of the layout, read in order, are exactly
/// the clusters of the input line. An empty line yields exactly one
/// empty sub-line.
#[verifier::loop_isolation(false)]
pub fn wrap(line: &StyledLine, max_width: u16) -> (r: Vec<StyledLine>)
    ensures
        r@.map_values(|l: StyledLine| l@) == wrap_model(line@, max_width as nat),
        wrapped_text(r@.map_values(|l: StyledLine| l@)) == spans_text(line@.spans),
        layout_gs(wrap_layout(line@, max_width as nat)) == spans_gs(line@.spans),
        r@.len() >= 1,
        line@.spans.len() == 0 ==> r@.len() == 1 && r@[0]@.spans.len() == 0,
{
    let ghost w = max_width as nat;
    let ghost all_spans = line@.spans;
    let mut out: Vec<StyledLine> = Vec::new();
    let mut acc: Vec<StyledSpan> = Vec::new();
    let mut acc_w: usize = 0;
    let ghost mut st = wrap_init();
    let mut i: usize = 0;
    while i < line.spans.len()
        invariant
            i <= line.spans.len(),
            all_spans == line@.spans,
            st == wrap_spans(wrap_init(), all_spans.take(i as int), w),
            st.buf == Seq::<Seq<char>>::empty(),
            out@.len() == st.done.len(),
            forall|k: int| 0 <= k < st.done.len() ==> out@[k]@ == pieces_model(st.done[k]),
            acc@.len() == st.acc.len(),
            forall|k: int| 0 <= k < st.acc.len() ==> acc@[k]@ == piece_model(st.acc[k]),
            acc_w as nat == if pieces_width(st.acc) > usize::MAX {
                usize::MAX as nat
            } else {
                pieces_width(st.acc)
            },
            forall|k: int|
                0 <= k < i ==> #[trigger] graphemes_of(all_spans[k].text).flatten()
                    == all_spans[k].text,
        decreases line.spans.len() - i,
    {
        let span = &line.spans[i];
        let ghost style = span.style;
        let ghost st0 = st;
        let gs = graphemes(span.text.as_str());
        let ghost gseq = graphemes_of(span@.text);
        let mut buf = String::new();
        let mut j: usize = 0;
        proof {
            assert(gseq.take(0int) =~= Seq::<Seq<char>>::empty());
        }
        while j < gs.len()
            invariant
                j <= gs.len(),
                gs@.map_values(|g: String| g@) == gseq,
                forall|k: int| 0 <= k < gs@.len() ==> (#[trigger] gs@[k])@.len() > 0,
                gs@.map_values(|g: String| g@).flatten() == span@.text,
                gseq == graphemes_of(span@.text),
                st == wrap_span_rec(st0, gseq.take(j as int), style, w),
                buf@ == st.buf.flatten(),
                forall|k: int| 0 <= k < st.buf.len() ==> #[trigger] st.buf[k].len() > 0,
                out@.len() == st.done.len(),
                forall|k: int| 0 <= k < st.done.len() ==> out@[k]@ == pieces_model(st.done[k]),
                acc@.len() == st.acc.len(),
                forall|k: int| 0 <= k < st.acc.len() ==> acc@[k]@ == piece_model(st.acc[k]),
                acc_w as nat == if pieces_width(st.acc) > usize::MAX {
                    usize::MAX as nat
                } else {
                    pieces_width(st.acc)
                },
            decreases gs.len() - j,
        {
            let gw = str_width(gs[j].as_str());
            let bw = str_width(buf.as_str());
            proof {
                assert(gs@.map_values(|g: String| g@)[j as int] == gs@[j as int]@);
                assert(gw as nat == width_of(gseq[j as int]));
            }
            let ghost cond = pieces_width(st.acc) + width_of(st.buf.flatten()) + width_of(
                gseq[j as int],
            ) > w;
            let ghost piece = WrapPiece { gs: st.buf, style };
            let ghost bufv = buf@;
            let ghost accv = acc@;
            proof {
                let pw = pieces_width(st.acc);
                let total = pw + width_of(st.buf.flatten()) + width_of(gseq[j as int]);
                let s2 = acc_w.saturating_add(bw).saturating_add(gw);
                if total > usize::MAX as nat {
                    assert(usize::MAX > u16::MAX as usize);
                    assert(s2 == usize::MAX);
                    assert(w <= u16::MAX as nat);
                    assert((u16::MAX as nat) < (usize::MAX as nat));
                    assert(total > w);
                    assert(cond);
                    assert(s2 > max_width as usize);
                } else {
                    assert(s2 as nat == total);
                }
                assert((s2 > max_width as usize) == cond);
            }
            if acc_w.saturating_add(bw).saturating_add(gw) > max_width as usize {
                let ghost newline = st.acc.push(piece);
                let flushed = StyledSpan { text: buf, style: span.style };
                proof {
                    assert(flushed@.text == bufv);
                    assert(bufv == st.buf.flatten());
                    assert(flushed@.style == style);
                    assert(piece_model(piece).text == st.buf.flatten());
                    assert(piece_model(piece).style == style);
                    assert(flushed@ == piece_model(piece));
                }
                buf = String::new();
                acc.push(flushed);
                proof {
                    assert(acc@ == accv.push(flushed));
                    assert forall|k: int| 0 <= k < newline.len() implies acc@[k]@ == piece_model(
                        newline[k],
                    ) by {
                        if k < st.acc.len() {
                            assert(acc@[k] == accv[k]);
                            assert(newline[k] == st.acc[k]);
                        } else {
                            assert(acc@[k] == flushed);
                            assert(newline[k] == piece);
                        }
                    }
                }
                let finished = StyledLine { spans: acc };
                proof {
                    assert(finished@ =~= pieces_model(newline)) by {
                        assert(finished@.spans.len() == newline.len());
                        assert(forall|k: int|
                            0 <= k < newline.len() ==> finished@.spans[k] == piece_model(
                                #[trigger] newline[k],
                            ));
                    }
                }
                acc = Vec::new();
                out.push(finished);
                acc_w = 0;
            }
            buf.append(gs[j].as_str());
            proof {
                let g = gseq[j as int];
                let st1 = wrap_step(st, g, style, w);
                if cond {
                    assert(st1.buf.flatten() =~= g) by {
                        assert(st1.buf.len() == 1);
                        st1.buf.lemma_flatten_one_element();
                    }
                    assert(st1.done.last() == st.acc.push(piece));
                    assert(out@.last()@ == pieces_model(st.acc.push(piece)));
                } else {
                    assert(st1.buf.flatten() =~= st.buf.flatten() + g) by {
                        broadcast use Seq::lemma_flatten_push;

                    }
                }
                st = st1;
                assert(gseq.take(j + 1int).drop_last() =~= gseq.take(j as int));
                assert(gseq.take(j + 1int).last() == g);
                assert(st == wrap_span_rec(st0, gseq.take(j + 1int), style, w));
            }
            j = j + 1;
        }
        // End of the span: flush whatever segment is pending.
        proof {
            assert(gseq.take(gs@.len() as int) =~= gseq);
            if st.buf.len() > 0 {
                st.buf.lemma_flatten_and_flatten_alt_are_equivalent();
                st.buf.lemma_flatten_length_ge_single_element_length(0);
                assert(buf@.len() > 0);
            } else {
                assert(st.buf.flatten() =~= Seq::<char>::empty());
            }
        }
        if !buf.as_str().is_empty() {
            let ghost piece = WrapPiece { gs: st.buf, style };
            let ghost bufv = buf@;
            let ghost accv = acc@;
            let bw = str_width(buf.as_str());
            acc_w = acc_w.saturating_add(bw);
            let flushed = StyledSpan { text: buf, style: span.style };
            proof {
                assert(flushed@ == piece_model(piece));
            }
            acc.push(flushed);
            proof {
                lemma_pieces_text_push(st.acc, piece);
                assert(acc@ == accv.push(flushed));
                assert forall|k: int|
                    0 <= k < st.acc.push(piece).len() implies acc@[k]@ == piece_model(
                    st.acc.push(piece)[k],
                ) by {
                    if k < st.acc.len() {
                        assert(acc@[k] == accv[k]);
                        assert(st.acc.push(piece)[k] == st.acc[k]);
                    } else {
                        assert(acc@[k] == flushed);
                        assert(st.acc.push(piece)[k] == piece);
                    }
                }
            }
        }
        proof {
            st = wrap_flush(st, style);
            assert(st == wrap_span(st0, all_spans[i as int], w));
            assert(all_spans.take(i + 1int).drop_last() =~= all_spans.take(i as int));
            assert(st == wrap_spans(wrap_init(), all_spans.take(i + 1int), w));
        }
        i = i + 1;
    }
    proof {
        assert(all_spans.take(all_spans.len() as int) =~= all_spans);
    }
    let ghost accv = acc@;
    let finished = StyledLine { spans: acc };
    out.push(finished);
    proof {
        lemma_spans_preserve(wrap_init(), all_spans, w);
        assert(state_text(wrap_init()) =~= Seq::<char>::empty()) by {
            assert(Seq::<Seq<char>>::empty().flatten() =~= Seq::<char>::empty());
        }
        let layout = st.done.push(st.acc);
        assert(layout == wrap_layout(line@, w));
        lemma_layout_push(st.done, st.acc);
        assert(st.buf.flatten() =~= Seq::<char>::empty());
        // The returned vector renders the layout.
        assert(out@.map_values(|l: StyledLine| l@) =~= layout.map_values(
            |ps: Seq<WrapPiece>| pieces_model(ps),
        )) by {
            assert(forall|k: int|
                0 <= k < st.done.len() ==> out@[k]@ == pieces_model(#[trigger] layout[k]));
            assert(out@.last()@ =~= pieces_model(st.acc)) by {
                assert(out@.last()@.spans.len() == st.acc.len());
                assert(forall|k: int|
                    0 <= k < st.acc.len() ==> out@.last()@.spans[k] == (#[trigger] accv[k])@);
            }
        }
        // Round trip: the sub-lines' text is the line's text.
        lemma_layout_model_text(layout);
        assert(state_text(st) =~= spans_text(all_spans));
        assert(layout_text(layout) =~= spans_text(all_spans));
        // Alignment: the layout's clusters are the line's clusters.
        assert(layout_gs(layout) =~= spans_gs(all_spans)) by {
            assert(state_gs(wrap_init()) =~= Seq::<Seq<char>>::empty());
            assert(state_gs(st) =~= spans_gs(all_spans));
        }
        if all_spans.len() == 0 {
            assert(wrap_spans(wrap_init(), all_spans, w) == wrap_init());
            assert(out@[0]@.spans.len() == 0);
        }
    }
    out
}

} // verus!
