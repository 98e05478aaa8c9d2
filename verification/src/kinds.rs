//! The small closed vocabularies the widgets are configured with, and the
//! glyphs and labels that belong to them.

use vstd::prelude::*;

verus! {

// ---------------------------------------------------------------------------
// charts
// ---------------------------------------------------------------------------

#[derive(Clone, Copy, Debug, Default, PartialEq, Eq, Structural)]
pub enum BarOrientation {
    #[default]
    Vertical,
    Horizontal,
}

// ---------------------------------------------------------------------------
// layout
// ---------------------------------------------------------------------------

/// Alignment options for Align widget
#[derive(Clone, Copy, Debug, PartialEq, Eq, Structural)]
pub enum Alignment {
    Center,
    TopLeft,
    TopRight,
    BottomLeft,
    BottomRight,
}

#[derive(Clone, Copy, Debug, PartialEq, Eq, Structural)]
pub enum FlexDirection {
    Row,
    Column,
}

#[derive(Clone, Copy, Debug, PartialEq, Eq, Structural)]
pub enum FlexJustify {
    Start,
    Center,
    End,
    SpaceBetween,
    SpaceAround,
}

#[derive(Clone, Copy, Debug, PartialEq, Eq, Structural)]
pub enum FlexAlign {
    Start,
    Center,
    End,
    Stretch,
}

// ---------------------------------------------------------------------------
// live widgets
// ---------------------------------------------------------------------------

/// Source of text content
pub enum TextSource {
    Static(String),
}

/// Trend indicator
#[derive(Clone, Copy, Debug, PartialEq, Eq, Structural)]
pub enum Trend {
    Up,
    Down,
    Stable,
    /// No trend.
    NoTrend,
}

// ---------------------------------------------------------------------------
// media
// ---------------------------------------------------------------------------

/// How an image should be scaled to fit its container
#[derive(Clone, Copy, Debug, Default, PartialEq, Eq, Structural)]
pub enum BoxFit {
    /// Scale to fill container while maintaining aspect ratio (may crop)
    #[default]
    Cover,
    /// Scale to fit entirely within container (may letterbox)
    Contain,
    /// Stretch to fill container (may distort)
    Fill,
    /// Show at native size, may be clipped
    Native,
    /// Scale down only if larger than container
    ScaleDown,
}

/// Source for image data
pub enum ImageSource {
    /// Path to asset file
    Asset(String),
    /// URL for network image (requires async loading)
    Network(String),
    /// Raw pixel data (RGBA8)
    Memory { data: Vec<u8>, width: u32, height: u32 },
    /// Placeholder while loading
    Placeholder,
}

impl Default for ImageSource {
    fn default() -> (r: Self)
        ensures
            r is Placeholder,
    {
        ImageSource::Placeholder
    }
}

// ---------------------------------------------------------------------------
// rich text
// ---------------------------------------------------------------------------

/// Font weight
#[derive(Clone, Copy, Debug, Default, PartialEq, Eq, Structural)]
pub enum FontWeight {
    Thin,
    Light,
    #[default]
    Regular,
    Medium,
    SemiBold,
    Bold,
    ExtraBold,
}

/// Text decoration
#[derive(Clone, Copy, Debug, Default, PartialEq, Eq, Structural)]
pub enum TextDecoration {
    /// No decoration
    #[default]
    Plain,
    Underline,
    Strikethrough,
    Overline,
}

// ---------------------------------------------------------------------------
// tables
// ---------------------------------------------------------------------------

/// Sort direction
#[derive(Clone, Copy, Debug, PartialEq, Eq, Structural)]
pub enum SortDirection {
    Ascending,
    Descending,
    /// Not sorted
    Unsorted,
}

// ---------------------------------------------------------------------------
// status and metrics
// ---------------------------------------------------------------------------

/// Toast notification type
#[derive(Clone, Copy, Debug, PartialEq, Eq, Structural)]
pub enum ToastType {
    Info,
    Success,
    Warning,
    Error,
}

impl ToastType {
    pub fn icon(&self) -> (r: &'static str)
        ensures
            r@ == match *self {
                ToastType::Info => "ℹ️"@,
                ToastType::Success => "✓"@,
                ToastType::Warning => "⚠"@,
                ToastType::Error => "✕"@,
            },
    {
        match self {
            ToastType::Info => "ℹ️",
            ToastType::Success => "✓",
            ToastType::Warning => "⚠",
            ToastType::Error => "✕",
        }
    }
}

/// Trend direction for metrics
#[derive(Clone, Copy, Debug, PartialEq, Eq, Structural)]
pub enum MetricTrend {
    Up,
    Down,
    Stable,
}

impl MetricTrend {
    pub fn icon(&self) -> (r: &'static str)
        ensures
            r@ == match *self {
                MetricTrend::Up => "↑"@,
                MetricTrend::Down => "↓"@,
                MetricTrend::Stable => "→"@,
            },
    {
        match self {
            MetricTrend::Up => "↑",
            MetricTrend::Down => "↓",
            MetricTrend::Stable => "→",
        }
    }
}

// ---------------------------------------------------------------------------
// panel controls
// ---------------------------------------------------------------------------

/// Current control mode based on held keys
#[derive(Clone, Copy, Debug, PartialEq, Eq, Structural, Default)]
pub enum PanelControlMode {
    /// No key held
    #[default]
    Idle,
    /// Hold R - resize mode
    Resize,
    /// Hold M - move mode
    Move,
    /// Hold C - color cycle mode
    Color,
}

impl PanelControlMode {
    /// Get the key for this mode
    pub fn key_hint(&self) -> (r: &'static str)
        ensures
            r@ == match *self {
                PanelControlMode::Idle => ""@,
                PanelControlMode::Resize => "R"@,
                PanelControlMode::Move => "M"@,
                PanelControlMode::Color => "C"@,
            },
    {
        match self {
            PanelControlMode::Idle => "",
            PanelControlMode::Resize => "R",
            PanelControlMode::Move => "M",
            PanelControlMode::Color => "C",
        }
    }

    /// Get description
    pub fn description(&self) -> (r: &'static str)
        ensures
            r@ == match *self {
                PanelControlMode::Idle => ""@,
                PanelControlMode::Resize => "Resize"@,
                PanelControlMode::Move => "Move"@,
                PanelControlMode::Color => "Color"@,
            },
    {
        match self {
            PanelControlMode::Idle => "",
            PanelControlMode::Resize => "Resize",
            PanelControlMode::Move => "Move",
            PanelControlMode::Color => "Color",
        }
    }

    /// The glyph on the corner button of this mode.
    pub fn button_icon(&self) -> (r: &'static str)
        ensures
            r@ == match *self {
                PanelControlMode::Idle => ""@,
                PanelControlMode::Resize => "⤡"@,
                PanelControlMode::Move => "✥"@,
                PanelControlMode::Color => "◐"@,
            },
    {
        match self {
            PanelControlMode::Idle => "",
            PanelControlMode::Resize => "⤡",
            PanelControlMode::Move => "✥",
            PanelControlMode::Color => "◐",
        }
    }
}

// ---------------------------------------------------------------------------
// workspaces
// ---------------------------------------------------------------------------

/// Identity of a widget or panel.
#[derive(Clone, Copy, Debug, PartialEq, Eq, Structural)]
pub struct WidgetId(pub u64);

/// Tiling modes
#[derive(Clone, Copy, Debug, PartialEq, Eq, Structural)]
pub enum TileMode {
    /// Split horizontally
    Horizontal,
    /// Split vertically
    Vertical,
    /// Binary space partitioning
    Bsp,
    /// Master + stack
    MasterStack,
}

/// Layout mode for workspace
#[derive(Clone, Copy, Debug, PartialEq, Eq, Structural)]
pub enum WorkspaceLayout {
    /// Free positioning (manual)
    Free,
    /// Auto-tiling
    Tiled(TileMode),
    /// Fixed grid
    Grid { columns: usize, rows: usize },
    /// Stacked/tabbed
    Stacked,
}

impl Default for WorkspaceLayout {
    fn default() -> (r: Self)
        ensures
            r == WorkspaceLayout::Free,
    {
        WorkspaceLayout::Free
    }
}

/// Screen edges for snapping
#[derive(Clone, Copy, Debug, PartialEq, Eq, Structural)]
pub enum SnapEdge {
    Top,
    Bottom,
    Left,
    Right,
    TopLeft,
    TopRight,
    BottomLeft,
    BottomRight,
}

/// Relation to another panel
#[derive(Clone, Copy, Debug, PartialEq, Eq, Structural)]
pub enum PanelRelation {
    Above,
    Below,
    LeftOf,
    RightOf,
}

/// Targets for panel snapping
#[derive(Clone, Copy, Debug, PartialEq, Eq, Structural)]
pub enum SnapTarget {
    /// Snap to screen edge
    Edge(SnapEdge),
    /// Snap to grid cell
    Grid(usize, usize),
    /// Snap relative to another panel
    Panel(WidgetId, PanelRelation),
    /// Center on screen
    Center,
}

/// The cell of the `i`-th panel in a grid layout of `cols` columns and
/// `rows` rows: filled row by row, left to right; panels past the last row
/// get no cell (and keep their place).
pub fn grid_cell(i: usize, cols: usize, rows: usize) -> (r: Option<(usize, usize)>)
    requires
        cols > 0,
    ensures
        r == if i / cols < rows {
            Some(((i % cols) as usize, (i / cols) as usize))
        } else {
            None::<(usize, usize)>
        },
{
    let col = i % cols;
    let row = i / cols;
    if row < rows {
        Some((col, row))
    } else {
        None
    }
}

/// The id a counter at `n` moves on to (wrapping at the top of `u64`).
pub open spec fn next_id(n: u64) -> u64 {
    if n == u64::MAX {
        0
    } else {
        (n + 1) as u64
    }
}

/// Where a counter at `n` stands after handing out `k` ids.
pub open spec fn id_after(n: u64, k: nat) -> u64
    decreases k,
{
    if k == 0 {
        n
    } else {
        next_id(id_after(n, (k - 1) as nat))
    }
}

/// A source of ids: a counter that starts at 1 and hands out its
/// value, then moves on by one (wrapping at the top of `u64`). Ids are
/// distinct only among those one counter hands out, so the timeline entries
/// (or the toasts) of one application should share a counter.
pub struct IdCounter {
    pub next: u64,
}

impl IdCounter {
    pub fn new() -> (r: Self)
        ensures
            r.next == 1,
    {
        IdCounter { next: 1 }
    }

    /// Hands out the next id.
    pub fn take(&mut self) -> (r: u64)
        ensures
            r == old(self).next,
            final(self).next == if old(self).next == u64::MAX {
                0
            } else {
                (old(self).next + 1) as u64
            },
    {
        let r = self.next;
        self.next = self.next.wrapping_add(1);
        r
    }
}

} // verus!
