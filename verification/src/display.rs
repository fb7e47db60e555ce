//! The display coordinator: collects pending resize-class signals into a
//! mailbox and, once per frame tick, collapses them into one authoritative
//! geometry update.
//!
//! Signals coalesce: of several signals of the same kind only the last one
//! arriving counts. The tick decides whether anything changed at all (a
//! no-op avoids redundant viewport churn), whether the glyph cache must be
//! rebuilt (exactly when font size or device pixel ratio changed), what
//! viewport size is authoritative (an explicit size, or the current size
//! rescaled by the ratio change), and which collaborators must be told:
//! the pseudo-terminal only when its cell grid changed, the renderer and the
//! event loop only when an explicit size was resolved.

use vstd::prelude::*;
use crate::term::{BarMessage, RenderableCell, Rgb, SizeInfo, WindowSize, DPR_MILLI_MAX};
use crate::geometry::{size_info_spec, compute_size_info};
use crate::ui_config::{FontSize, WindowConfig};

verus! {

/// A fatal initialization failure, tagged with the failing subsystem and its
/// message; propagated up to terminate the process, never retried.
#[derive(Debug, PartialEq)]
pub enum Error {
    /// Error with window management.
    Window(String),
    /// Error dealing with fonts.
    Font(String),
    /// Error in renderer.
    Render(String),
}

impl Error {
    /// The failing subsystem's name.
    pub fn subsystem(&self) -> (r: &'static str)
        ensures
            match self {
                Error::Window(_) => r@ == "window"@,
                Error::Font(_) => r@ == "font"@,
                Error::Render(_) => r@ == "renderer"@,
            },
    {
        match self {
            Error::Window(_) => "window",
            Error::Font(_) => "font",
            Error::Render(_) => "renderer",
        }
    }

    /// The underlying message.
    pub fn message(&self) -> (r: &String)
        ensures
            match self {
                Error::Window(m) => r == m,
                Error::Font(m) => r == m,
                Error::Render(m) => r == m,
            },
    {
        match self {
            Error::Window(m) => m,
            Error::Font(m) => m,
            Error::Render(m) => m,
        }
    }
}

/// The per-frame snapshot handed to the drawing side, so that it never
/// touches live mutable terminal state.
#[derive(Debug, PartialEq)]
pub struct RenderUpdate {
    pub grid_cells: Vec<RenderableCell>,
    pub message: Option<BarMessage>,
    /// Visual bell intensity in thousandths (1000 is full intensity).
    pub visual_bell_intensity_milli: u32,
    pub background_color: Rgb,
}

/// A resize-class signal. Any number of asynchronous senders may produce
/// them; the coordinator consumes them once per tick.
#[derive(Clone, Copy, Debug, PartialEq, Eq, Structural)]
pub enum Resize {
    /// An explicit viewport size in device pixels.
    Size(WindowSize),
    /// The message bar now occupies this many grid lines.
    MessageBar(usize),
    /// The font size changed.
    FontSize(FontSize),
    /// The device pixel ratio changed, in thousandths.
    DPR(u32),
}

/// The coordinator's observable phase: no signal pending, signals collected
/// but not yet applied, or a coalesced decision being applied.
#[derive(Clone, Copy, Debug, PartialEq, Eq, Structural)]
pub enum CoordPhase {
    Idle,
    Collecting,
    Reconciling,
}

/// The last value of each signal kind seen while draining the mailbox.
#[derive(Clone, Copy, Debug, PartialEq, Eq, Structural)]
pub struct Coalesced {
    pub new_size: Option<WindowSize>,
    pub new_dpr_milli: u32,
    pub new_font_size: FontSize,
    pub message_bar_lines: Option<usize>,
}

/// The coalesced state before any signal: everything as it currently is.
pub open spec fn coalesced_initial(cur_dpr_milli: u32, cur_font: FontSize) -> Coalesced {
    Coalesced {
        new_size: None,
        new_dpr_milli: cur_dpr_milli,
        new_font_size: cur_font,
        message_bar_lines: None,
    }
}

/// One signal supersedes the earlier value of its kind.
pub open spec fn coalesce_one(acc: Coalesced, signal: Resize) -> Coalesced {
    match signal {
        Resize::Size(size) => Coalesced { new_size: Some(size), ..acc },
        Resize::MessageBar(lines) => Coalesced { message_bar_lines: Some(lines), ..acc },
        Resize::FontSize(fs) => Coalesced { new_font_size: fs, ..acc },
        Resize::DPR(dpr) => Coalesced { new_dpr_milli: dpr, ..acc },
    }
}

/// Folds the pending signals in arrival order over an accumulator.
pub open spec fn coalesce_from(acc: Coalesced, signals: Seq<Resize>) -> Coalesced
    decreases signals.len(),
{
    if signals.len() == 0 {
        acc
    } else {
        coalesce_from(coalesce_one(acc, signals[0]), signals.drop_first())
    }
}

/// The coalesced outcome of draining the whole mailbox: only the last value
/// of each kind survives.
pub open spec fn coalesce_spec(signals: Seq<Resize>, cur_dpr_milli: u32, cur_font: FontSize) -> Coalesced {
    coalesce_from(coalesced_initial(cur_dpr_milli, cur_font), signals)
}

/// The payload of the last explicit-size signal, if any arrived.
pub open spec fn last_size(signals: Seq<Resize>) -> Option<WindowSize>
    decreases signals.len(),
{
    if signals.len() == 0 {
        None
    } else {
        match signals.last() {
            Resize::Size(w) => Some(w),
            _ => last_size(signals.drop_last()),
        }
    }
}

/// The payload of the last message-bar signal, if any arrived.
pub open spec fn last_message_bar(signals: Seq<Resize>) -> Option<usize>
    decreases signals.len(),
{
    if signals.len() == 0 {
        None
    } else {
        match signals.last() {
            Resize::MessageBar(l) => Some(l),
            _ => last_message_bar(signals.drop_last()),
        }
    }
}

/// The last font size signalled, or the current one when none arrived.
pub open spec fn last_font(signals: Seq<Resize>, cur: FontSize) -> FontSize
    decreases signals.len(),
{
    if signals.len() == 0 {
        cur
    } else {
        match signals.last() {
            Resize::FontSize(f) => f,
            _ => last_font(signals.drop_last(), cur),
        }
    }
}

/// The last ratio signalled, or the current one when none arrived.
pub open spec fn last_dpr(signals: Seq<Resize>, cur: u32) -> u32
    decreases signals.len(),
{
    if signals.len() == 0 {
        cur
    } else {
        match signals.last() {
            Resize::DPR(d) => d,
            _ => last_dpr(signals.drop_last(), cur),
        }
    }
}

proof fn lemma_coalesce_snoc(acc: Coalesced, signals: Seq<Resize>, x: Resize)
    ensures
        coalesce_from(acc, signals.push(x)) == coalesce_one(coalesce_from(acc, signals), x),
    decreases signals.len(),
{
    if signals.len() == 0 {
        assert(signals.push(x)[0] == x);
        assert(signals.push(x).drop_first() =~= Seq::<Resize>::empty());
        assert(coalesce_from(acc, signals.push(x)) == coalesce_from(
            coalesce_one(acc, x),
            Seq::<Resize>::empty(),
        ));
        assert(coalesce_from(acc, signals) == acc);
    } else {
        assert(signals.push(x)[0] == signals[0]);
        assert(signals.push(x).drop_first() =~= signals.drop_first().push(x));
        lemma_coalesce_snoc(coalesce_one(acc, signals[0]), signals.drop_first(), x);
        assert(coalesce_from(acc, signals.push(x)) == coalesce_from(
            coalesce_one(acc, signals[0]),
            signals.drop_first().push(x),
        ));
        assert(coalesce_from(acc, signals) == coalesce_from(
            coalesce_one(acc, signals[0]),
            signals.drop_first(),
        ));
    }
}

proof fn lemma_coalesce_from_last(acc: Coalesced, signals: Seq<Resize>)
    ensures
        coalesce_from(acc, signals).new_size == (match last_size(signals) {
            Some(w) => Some(w),
            None => acc.new_size,
        }),
        coalesce_from(acc, signals).message_bar_lines == (match last_message_bar(signals) {
            Some(l) => Some(l),
            None => acc.message_bar_lines,
        }),
        coalesce_from(acc, signals).new_font_size == last_font(signals, acc.new_font_size),
        coalesce_from(acc, signals).new_dpr_milli == last_dpr(signals, acc.new_dpr_milli),
    decreases signals.len(),
{
    if signals.len() > 0 {
        let s0 = signals.drop_last();
        let x = signals.last();
        assert(signals =~= s0.push(x));
        lemma_coalesce_from_last(acc, s0);
        lemma_coalesce_snoc(acc, s0, x);
    }
}

/// Law: draining the mailbox is intentional coalescing. For each signal kind
/// only the last value observed survives: earlier values of the same kind
/// are superseded, and a kind that never arrived keeps the current state's
/// value.
pub proof fn lemma_coalesce_keeps_last(signals: Seq<Resize>, cur_dpr_milli: u32, cur_font: FontSize)
    ensures
        coalesce_spec(signals, cur_dpr_milli, cur_font).new_size == last_size(signals),
        coalesce_spec(signals, cur_dpr_milli, cur_font).message_bar_lines == last_message_bar(
            signals,
        ),
        coalesce_spec(signals, cur_dpr_milli, cur_font).new_font_size == last_font(
            signals,
            cur_font,
        ),
        coalesce_spec(signals, cur_dpr_milli, cur_font).new_dpr_milli == last_dpr(
            signals,
            cur_dpr_milli,
        ),
{
    lemma_coalesce_from_last(coalesced_initial(cur_dpr_milli, cur_font), signals);
}

/// Whether the coalesced signals change the font geometry: a new font size,
/// or a new device pixel ratio.
pub open spec fn font_changed_spec(c: Coalesced, cur_font: FontSize, cur_dpr_milli: u32) -> bool {
    c.new_font_size != cur_font || c.new_dpr_milli != cur_dpr_milli
}

/// Whether the tick is a no-op: no font change, no message-bar change, and
/// no explicit size other than the current one.
pub open spec fn noop_spec(c: Coalesced, cur: SizeInfo, cur_font: FontSize) -> bool {
    &&& !font_changed_spec(c, cur_font, cur.dpr_milli)
    &&& c.message_bar_lines.is_none()
    &&& (c.new_size.is_none() || c.new_size == Some(
        WindowSize { width: cur.width, height: cur.height },
    ))
}

/// One dimension rescaled by a device-pixel-ratio change, saturating at the
/// largest representable pixel count.
pub open spec fn rescale_spec(dim: u32, old_dpr_milli: u32, new_dpr_milli: u32) -> u32
    recommends
        old_dpr_milli > 0,
{
    let scaled = (dim as int) * (new_dpr_milli as int) / (old_dpr_milli as int);
    if scaled <= u32::MAX {
        scaled as u32
    } else {
        u32::MAX
    }
}

/// The size synthesized when font or device pixel ratio changed without an
/// explicit size: the current size rescaled by the ratio change, so that the
/// grid is recomputed for the new cell dimensions.
pub open spec fn synth_size_spec(cur: SizeInfo, new_dpr_milli: u32) -> WindowSize {
    WindowSize {
        width: rescale_spec(cur.width, cur.dpr_milli, new_dpr_milli),
        height: rescale_spec(cur.height, cur.dpr_milli, new_dpr_milli),
    }
}

/// The coalesced decision of one tick.
#[derive(Clone, Copy, Debug, PartialEq, Eq, Structural)]
pub struct ResizeDecision {
    /// Nothing changed: the tick must touch nothing.
    pub noop: bool,
    /// The glyph cache must be rebuilt before geometry is recomputed.
    pub font_changed: bool,
    /// The authoritative viewport size; present exactly when not a no-op.
    pub resolved_size: Option<WindowSize>,
    pub new_dpr_milli: u32,
    pub new_font_size: FontSize,
    pub message_bar_lines: Option<usize>,
    /// The grid size before the tick, for diffing the pty notification.
    pub previous_cols: usize,
    pub previous_lines: usize,
}

/// The decision derived from the current state and the pending signals.
pub open spec fn decision_spec(cur: SizeInfo, cur_font: FontSize, pending: Seq<Resize>) -> ResizeDecision {
    let c = coalesce_spec(pending, cur.dpr_milli, cur_font);
    let noop = noop_spec(c, cur, cur_font);
    ResizeDecision {
        noop,
        font_changed: font_changed_spec(c, cur_font, cur.dpr_milli),
        resolved_size: if noop {
            None
        } else if c.new_size.is_some() {
            c.new_size
        } else {
            Some(synth_size_spec(cur, c.new_dpr_milli))
        },
        new_dpr_milli: c.new_dpr_milli,
        new_font_size: c.new_font_size,
        message_bar_lines: c.message_bar_lines,
        previous_cols: cur.cols_spec() as usize,
        previous_lines: cur.lines_spec() as usize,
    }
}

/// The pty-visible size: the authoritative size minus the grid lines that
/// the message bar occupies; that area is never handed to the session. A
/// message bar taller than the viewport leaves no pty-visible height.
pub open spec fn pty_size_spec(s: SizeInfo, message_bar_lines: Option<usize>) -> SizeInfo {
    match message_bar_lines {
        None => s,
        Some(l) => SizeInfo {
            height: if l * s.cell_height <= s.height {
                (s.height - l * s.cell_height) as u32
            } else {
                0
            },
            ..s
        },
    }
}

/// What a tick tells the outside collaborators to do.
#[derive(Clone, Copy, Debug, PartialEq, Eq)]
pub struct ResizeEffects {
    /// The glyph cache was rebuilt for the new font size and ratio.
    pub rebuilt_glyph_cache: bool,
    /// Tell the pseudo-terminal session its new visible size, if the cell
    /// grid or the message bar changed.
    pub pty_resize: Option<SizeInfo>,
    /// Reconfigure the GPU viewport: size and the two paddings.
    pub renderer_resize: Option<(WindowSize, u32, u32)>,
    /// Re-broadcast the completed resize to the event loop.
    pub broadcast: Option<SizeInfo>,
}

/// No effect at all: what a no-op tick produces.
pub open spec fn effects_none() -> ResizeEffects {
    ResizeEffects { rebuilt_glyph_cache: false, pty_resize: None, renderer_resize: None, broadcast: None }
}

/// Applies a non-no-op decision: the new authoritative geometry and the
/// effects of the tick. `cell_dims` are the cell dimensions after a glyph
/// cache rebuild, or the current ones when the font did not change.
pub open spec fn apply_spec(
    cur: SizeInfo,
    d: ResizeDecision,
    cell_dims: (u32, u32),
    config: WindowConfig,
) -> (SizeInfo, ResizeEffects)
    recommends
        d.resolved_size.is_some(),
{
    let new_info = size_info_spec(
        d.resolved_size.unwrap(),
        cell_dims.0,
        cell_dims.1,
        config.padding.x,
        config.padding.y,
        d.new_dpr_milli,
        config.dynamic_padding,
    );
    let pty = pty_size_spec(new_info, d.message_bar_lines);
    let notify_pty = d.message_bar_lines.is_some() || pty.cols_spec() != d.previous_cols
        || pty.lines_spec() != d.previous_lines;
    (
        new_info,
        ResizeEffects {
            rebuilt_glyph_cache: d.font_changed,
            pty_resize: if notify_pty {
                Some(pty)
            } else {
                None
            },
            renderer_resize: Some((d.resolved_size.unwrap(), new_info.padding_x, new_info.padding_y)),
            broadcast: Some(new_info),
        },
    )
}

/// A signal as stored in the mailbox: the device pixel ratio is already
/// clamped into its valid range.
pub open spec fn signal_wf(s: Resize) -> bool {
    match s {
        Resize::DPR(d) => 0 < d <= DPR_MILLI_MAX,
        _ => true,
    }
}

/// A device pixel ratio clamped into its valid range; a malformed value is
/// a recoverable per-event issue, never a crash.
pub open spec fn clamp_dpr_spec(dpr_milli: u32) -> u32 {
    if dpr_milli == 0 {
        1u32
    } else if dpr_milli > DPR_MILLI_MAX {
        DPR_MILLI_MAX
    } else {
        dpr_milli
    }
}

/// The display coordinator: the authoritative geometry, the current font
/// size, the signal mailbox, and the observable phase.
pub struct Display {
    pub size_info: SizeInfo,
    pub font_size: FontSize,
    pub pending: Vec<Resize>,
    pub phase: CoordPhase,
}

impl Display {
    /// Internal invariant: the geometry is well formed and every pending
    /// signal carries a valid ratio.
    pub open spec fn wf(self) -> bool {
        &&& self.size_info.wf()
        &&& forall|i: int| 0 <= i < self.pending@.len() ==> signal_wf(#[trigger] self.pending@[i])
    }

    pub fn new(size_info: SizeInfo, font_size: FontSize) -> (r: Self)
        requires
            size_info.wf(),
        ensures
            r.wf(),
            r.size_info == size_info,
            r.font_size == font_size,
            r.pending@.len() == 0,
            r.phase == CoordPhase::Idle,
    {
        Display { size_info, font_size, pending: Vec::new(), phase: CoordPhase::Idle }
    }

    /// Get size info about the display.
    pub fn size(&self) -> (r: &SizeInfo)
        ensures
            r == &self.size_info,
    {
        &self.size_info
    }

    /// Accepts one resize signal into the mailbox; a malformed device pixel
    /// ratio is clamped on entry. Receiving a signal moves an idle
    /// coordinator into its collecting phase.
    pub fn push_resize(&mut self, signal: Resize)
        requires
            old(self).wf(),
        ensures
            final(self).wf(),
            final(self).pending@ =~= old(self).pending@.push(clamp_signal_spec(signal)),
            final(self).size_info == old(self).size_info,
            final(self).font_size == old(self).font_size,
            final(self).phase == (if old(self).phase == CoordPhase::Idle {
                CoordPhase::Collecting
            } else {
                old(self).phase
            }),
    {
        let clamped = match signal {
            Resize::DPR(d) => {
                if d == 0 {
                    Resize::DPR(1)
                } else if d > DPR_MILLI_MAX {
                    Resize::DPR(DPR_MILLI_MAX)
                } else {
                    Resize::DPR(d)
                }
            },
            other => other,
        };
        self.pending.push(clamped);
        if matches!(self.phase, CoordPhase::Idle) {
            self.phase = CoordPhase::Collecting;
        }
    }

    /// Applies the cell dimensions a rebuilt glyph cache reports. The
    /// rasterization itself happens outside; only the geometry state changes
    /// here.
    pub fn update_glyph_cache(&mut self, cell_width: u32, cell_height: u32)
        requires
            old(self).wf(),
            cell_width > 0,
            cell_height > 0,
        ensures
            final(self).wf(),
            final(self).size_info == (SizeInfo {
                cell_width,
                cell_height,
                ..old(self).size_info
            }),
            final(self).font_size == old(self).font_size,
            final(self).pending@ == old(self).pending@,
            final(self).phase == old(self).phase,
    {
        self.size_info.cell_width = cell_width;
        self.size_info.cell_height = cell_height;
    }

    /// Drains the mailbox and decides the tick. A tick with nothing to do
    /// ends in the idle phase at once: the reconciling phase is entered only
    /// when a change must be applied, so spurious wake-ups cause no churn.
    pub fn begin_resize(&mut self) -> (d: ResizeDecision)
        requires
            old(self).wf(),
        ensures
            final(self).wf(),
            d == decision_spec(old(self).size_info, old(self).font_size, old(self).pending@),
            final(self).pending@.len() == 0,
            d.noop ==> final(self).size_info == old(self).size_info
                && final(self).font_size == old(self).font_size
                && final(self).phase == CoordPhase::Idle,
            !d.noop ==> final(self).size_info == (SizeInfo {
                dpr_milli: d.new_dpr_milli,
                ..old(self).size_info
            }) && final(self).font_size == d.new_font_size
                && final(self).phase == CoordPhase::Reconciling,
            !d.noop ==> d.resolved_size.is_some(),
            d.new_dpr_milli <= DPR_MILLI_MAX && d.new_dpr_milli > 0,
    {
        let ghost pending0 = self.pending@;
        let cur = self.size_info;
        let cur_font = self.font_size;
        let mut acc = Coalesced {
            new_size: None,
            new_dpr_milli: cur.dpr_milli,
            new_font_size: cur_font,
            message_bar_lines: None,
        };
        let n = self.pending.len();
        let mut i: usize = 0;
        proof {
            assert(pending0.skip(0) =~= pending0);
        }
        while i < n
            invariant
                n == pending0.len(),
                self.pending@ == pending0,
                i <= n,
                coalesce_from(acc, pending0.skip(i as int)) == coalesce_spec(
                    pending0,
                    cur.dpr_milli,
                    cur_font,
                ),
                forall|j: int| 0 <= j < pending0.len() ==> signal_wf(#[trigger] pending0[j]),
                0 < acc.new_dpr_milli <= DPR_MILLI_MAX,
                0 < cur.dpr_milli <= DPR_MILLI_MAX,
            decreases n - i,
        {
            let signal = self.pending[i];
            proof {
                assert(pending0.skip(i as int)[0] == pending0[i as int]);
                assert(pending0.skip(i as int).drop_first() =~= pending0.skip(i as int + 1));
            }
            acc = match signal {
                Resize::Size(size) => Coalesced { new_size: Some(size), ..acc },
                Resize::MessageBar(lines) => Coalesced { message_bar_lines: Some(lines), ..acc },
                Resize::FontSize(fs) => Coalesced { new_font_size: fs, ..acc },
                Resize::DPR(dpr) => Coalesced { new_dpr_milli: dpr, ..acc },
            };
            i = i + 1;
        }
        proof {
            assert(pending0.skip(n as int) =~= Seq::<Resize>::empty());
        }
        self.pending.clear();

        let font_changed = acc.new_font_size.half_points != cur_font.half_points
            || acc.new_dpr_milli != cur.dpr_milli;
        let size_is_current = match acc.new_size {
            Some(s) => s.width == cur.width && s.height == cur.height,
            None => true,
        };
        let noop = !font_changed && acc.message_bar_lines.is_none() && size_is_current;
        let previous_cols = cur.cols();
        let previous_lines = cur.lines();

        if noop {
            self.phase = CoordPhase::Idle;
            ResizeDecision {
                noop: true,
                font_changed,
                resolved_size: None,
                new_dpr_milli: acc.new_dpr_milli,
                new_font_size: acc.new_font_size,
                message_bar_lines: acc.message_bar_lines,
                previous_cols,
                previous_lines,
            }
        } else {
            let resolved = match acc.new_size {
                Some(s) => s,
                None => WindowSize {
                    width: rescale(cur.width, cur.dpr_milli, acc.new_dpr_milli),
                    height: rescale(cur.height, cur.dpr_milli, acc.new_dpr_milli),
                },
            };
            self.size_info.dpr_milli = acc.new_dpr_milli;
            self.font_size = acc.new_font_size;
            self.phase = CoordPhase::Reconciling;
            ResizeDecision {
                noop: false,
                font_changed,
                resolved_size: Some(resolved),
                new_dpr_milli: acc.new_dpr_milli,
                new_font_size: acc.new_font_size,
                message_bar_lines: acc.message_bar_lines,
                previous_cols,
                previous_lines,
            }
        }
    }

    /// Applies the decision of this tick and returns what the collaborators
    /// must be told. `cell_dims` are the cell dimensions reported by the
    /// rebuilt glyph cache, present exactly when the decision asks for a
    /// rebuild; cache invalidation therefore precedes the geometry it feeds.
    pub fn finish_resize(
        &mut self,
        d: &ResizeDecision,
        cell_dims: Option<(u32, u32)>,
        config: &WindowConfig,
    ) -> (e: ResizeEffects)
        requires
            old(self).wf(),
            d.noop ==> cell_dims.is_none(),
            !d.noop ==> d.resolved_size.is_some(),
            !d.noop ==> old(self).size_info.dpr_milli == d.new_dpr_milli,
            cell_dims.is_some() == d.font_changed,
            cell_dims.is_some() ==> cell_dims.unwrap().0 > 0 && cell_dims.unwrap().1 > 0,
        ensures
            final(self).wf(),
            final(self).phase == CoordPhase::Idle,
            final(self).pending@ == old(self).pending@,
            final(self).font_size == old(self).font_size,
            d.noop ==> final(self).size_info == old(self).size_info && e == effects_none(),
            !d.noop ==> ({
                let dims = if d.font_changed {
                    cell_dims.unwrap()
                } else {
                    (old(self).size_info.cell_width, old(self).size_info.cell_height)
                };
                let applied = apply_spec(old(self).size_info, *d, dims, *config);
                final(self).size_info == applied.0 && e == applied.1
            }),
    {
        if d.noop {
            self.phase = CoordPhase::Idle;
            return ResizeEffects {
                rebuilt_glyph_cache: false,
                pty_resize: None,
                renderer_resize: None,
                broadcast: None,
            };
        }
        let (cell_width, cell_height) = match cell_dims {
            Some(dims) => dims,
            None => (self.size_info.cell_width, self.size_info.cell_height),
        };
        let resolved = match d.resolved_size {
            Some(s) => s,
            None => WindowSize { width: self.size_info.width, height: self.size_info.height },
        };
        let new_info = compute_size_info(
            resolved,
            cell_width,
            cell_height,
            config.padding.x,
            config.padding.y,
            d.new_dpr_milli,
            config.dynamic_padding,
        );
        let pty = pty_visible_size(&new_info, d.message_bar_lines);
        let notify_pty = d.message_bar_lines.is_some() || pty.cols() != d.previous_cols
            || pty.lines() != d.previous_lines;
        self.size_info = new_info;
        self.phase = CoordPhase::Idle;
        ResizeEffects {
            rebuilt_glyph_cache: d.font_changed,
            pty_resize: if notify_pty {
                Some(pty)
            } else {
                None
            },
            renderer_resize: Some((resolved, new_info.padding_x, new_info.padding_y)),
            broadcast: Some(new_info),
        }
    }
}

/// A signal with its device pixel ratio clamped into range.
pub open spec fn clamp_signal_spec(s: Resize) -> Resize {
    match s {
        Resize::DPR(d) => Resize::DPR(clamp_dpr_spec(d)),
        other => other,
    }
}

/// One dimension rescaled by a ratio change, saturating.
fn rescale(dim: u32, old_dpr_milli: u32, new_dpr_milli: u32) -> (r: u32)
    requires
        0 < old_dpr_milli,
        new_dpr_milli <= DPR_MILLI_MAX,
    ensures
        r == rescale_spec(dim, old_dpr_milli, new_dpr_milli),
{
    proof {
        assert((dim as int) * (new_dpr_milli as int) <= (u32::MAX as int) * (DPR_MILLI_MAX as int))
            by (nonlinear_arith)
            requires dim <= u32::MAX && new_dpr_milli <= DPR_MILLI_MAX;
    }
    let scaled = (dim as u64) * (new_dpr_milli as u64) / (old_dpr_milli as u64);
    if scaled <= u32::MAX as u64 {
        scaled as u32
    } else {
        u32::MAX
    }
}

/// The pty-visible size for a geometry and a possible message-bar change.
fn pty_visible_size(s: &SizeInfo, message_bar_lines: Option<usize>) -> (r: SizeInfo)
    requires
        s.wf(),
    ensures
        r == pty_size_spec(*s, message_bar_lines),
        r.wf(),
{
    match message_bar_lines {
        None => *s,
        Some(l) => {
            proof {
                assert((l as int) * (s.cell_height as int) <= (u64::MAX as int) * (u32::MAX as int))
                    by (nonlinear_arith)
                    requires l <= u64::MAX && s.cell_height <= u32::MAX;
            }
            let occupied = (l as u128) * (s.cell_height as u128);
            let height = if occupied <= s.height as u128 {
                (s.height as u128 - occupied) as u32
            } else {
                0
            };
            SizeInfo { height, ..*s }
        },
    }
}

/// One whole tick at the specification level: the geometry and font size
/// after draining `pending`, deciding, and applying. `cell_dims` are the
/// cell dimensions a glyph-cache rebuild would report.
pub open spec fn tick_state_spec(
    cur: SizeInfo,
    cur_font: FontSize,
    pending: Seq<Resize>,
    cell_dims: (u32, u32),
    config: WindowConfig,
) -> (SizeInfo, FontSize) {
    let d = decision_spec(cur, cur_font, pending);
    if d.noop {
        (cur, cur_font)
    } else {
        let mid = SizeInfo { dpr_milli: d.new_dpr_milli, ..cur };
        let dims = if d.font_changed {
            cell_dims
        } else {
            (mid.cell_width, mid.cell_height)
        };
        (apply_spec(mid, d, dims, config).0, d.new_font_size)
    }
}

/// Law: a tick with an empty mailbox decides a no-op, so feeding a coalesced
/// signal set through the coordinator twice — the second time with no new
/// signals — leaves the state exactly where the first application put it:
/// there is no drift.
pub proof fn lemma_tick_idempotent(
    cur: SizeInfo,
    cur_font: FontSize,
    pending: Seq<Resize>,
    cell_dims: (u32, u32),
    cell_dims2: (u32, u32),
    config: WindowConfig,
)
    ensures
        decision_spec(cur, cur_font, Seq::<Resize>::empty()).noop,
        ({
            let first = tick_state_spec(cur, cur_font, pending, cell_dims, config);
            tick_state_spec(first.0, first.1, Seq::<Resize>::empty(), cell_dims2, config) == first
        }),
{
    let first = tick_state_spec(cur, cur_font, pending, cell_dims, config);
    assert(coalesce_spec(Seq::<Resize>::empty(), cur.dpr_milli, cur_font) == coalesced_initial(
        cur.dpr_milli,
        cur_font,
    ));
    assert(coalesce_spec(Seq::<Resize>::empty(), first.0.dpr_milli, first.1)
        == coalesced_initial(first.0.dpr_milli, first.1));
    assert(decision_spec(first.0, first.1, Seq::<Resize>::empty()).noop);
}

} // verus!
