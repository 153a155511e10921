//! Short cuts for the drawing processor: fills that need no look at single pixels.
use vstd::prelude::*;

verus! {

/// What is added to coordinates so that they are not negative.
pub const REX3_COORD_BIAS: i32 = 4096;

/// Bits below the whole pixels in a coordinate, as a divisor.
pub const REX3_COORD_SCALE: i32 = 2048;

/// Address modes: a row of pixels, and a rectangle.
pub const ADRMODE_SPAN: u32 = 0;

pub const ADRMODE_BLOCK: u32 = 1;

/// The logic operation that takes the source as it is.
pub const LOGICOP_SRC: u32 = 3;

/// Size of the screen memory.
#[derive(Clone, Copy, Debug, PartialEq, Eq, Structural)]
pub struct Screen {
    pub width: i32,
    pub height: i32,
}

/// The registers of the drawing processor that the short cuts look at.
#[derive(Clone, Copy, Debug, PartialEq, Eq, Structural)]
pub struct Rex3Context {
    pub fastclear: bool,
    pub enzpattern: bool,
    pub enlspattern: bool,
    pub colorhost: bool,
    pub alphahost: bool,
    pub shade: bool,
    /// New pixels are mixed with what is there.
    pub blend: bool,
    pub adrmode: u32,
    pub logicop: u32,
    pub planes: u32,
    pub xstart: i32,
    pub ystart: i32,
    pub xend: i32,
    pub yend: i32,
    /// Color of fast clears.
    pub clear_color: u32,
    /// Color of other fills.
    pub color: u32,
}

/// A rectangle of one color, in biased coordinates, both ends included.
#[derive(Clone, Copy, Debug, PartialEq, Eq, Structural)]
pub struct Fill {
    pub x_lo: i32,
    pub x_hi: i32,
    pub y_lo: i32,
    pub y_hi: i32,
    pub color: u32,
}

/// `v` moved into the range from `lo` to `hi`.
pub open spec fn clamped(v: int, lo: int, hi: int) -> int {
    if v < lo {
        lo
    } else if v > hi {
        hi
    } else {
        v
    }
}

impl Screen {
    pub open spec fn wf(&self) -> bool {
        0 < self.width <= 0x10000 && 0 < self.height <= 0x10000
    }

    /// The column of a coordinate, moved onto the screen.
    pub open spec fn column(&self, coord: i32) -> int {
        clamped(
            coord as int / REX3_COORD_SCALE as int,
            REX3_COORD_BIAS as int,
            REX3_COORD_BIAS + self.width - 1,
        )
    }

    /// The row of a coordinate, moved onto the screen.
    pub open spec fn row(&self, coord: i32) -> int {
        clamped(
            coord as int / REX3_COORD_SCALE as int,
            REX3_COORD_BIAS as int,
            REX3_COORD_BIAS + self.height - 1,
        )
    }

    fn column_of(&self, coord: i32) -> (c: i32)
        requires
            self.wf(),
        ensures
            c == self.column(coord),
    {
        clamp(whole(coord), REX3_COORD_BIAS, REX3_COORD_BIAS + self.width - 1)
    }

    fn row_of(&self, coord: i32) -> (c: i32)
        requires
            self.wf(),
        ensures
            c == self.row(coord),
    {
        clamp(whole(coord), REX3_COORD_BIAS, REX3_COORD_BIAS + self.height - 1)
    }
}

/// The whole pixels of a coordinate.
fn whole(coord: i32) -> (c: i32)
    ensures
        c == coord as int / REX3_COORD_SCALE as int,
{
    if coord >= 0 {
        coord / REX3_COORD_SCALE
    } else {
        -1 - (-(coord + 1)) / REX3_COORD_SCALE
    }
}

fn clamp(v: i32, lo: i32, hi: i32) -> (c: i32)
    ensures
        c == clamped(v as int, lo as int, hi as int),
{
    if v < lo {
        lo
    } else if v > hi {
        hi
    } else {
        v
    }
}

pub open spec fn smaller(a: int, b: int) -> int {
    if a <= b {
        a
    } else {
        b
    }
}

pub open spec fn larger(a: int, b: int) -> int {
    if a <= b {
        b
    } else {
        a
    }
}

impl Rex3Context {
    /// No pattern, and no colors from the host.
    pub open spec fn is_solid(&self) -> bool {
        !self.enzpattern && !self.enlspattern && !self.colorhost && !self.alphahost
    }

    /// A rectangle cleared to one color.
    pub open spec fn is_fastclear_block(&self) -> bool {
        self.fastclear && self.is_solid() && self.adrmode == ADRMODE_BLOCK
    }

    /// One color, as it is, in the color planes.
    pub open spec fn is_src_rgb(&self) -> bool {
        self.logicop == LOGICOP_SRC && self.is_solid() && !self.shade && !self.blend && self.planes
            == 0
    }

    pub open spec fn is_src_span(&self) -> bool {
        self.adrmode == ADRMODE_SPAN && self.is_src_rgb()
    }

    pub open spec fn is_src_block(&self) -> bool {
        self.adrmode == ADRMODE_BLOCK && self.is_src_rgb() && !self.fastclear
    }

    /// `f` covers the rectangle between start and end, as far as it is on the screen.
    pub open spec fn is_block(&self, s: Screen, f: Fill) -> bool {
        &&& f.x_lo == smaller(s.column(self.xstart), s.column(self.xend))
        &&& f.x_hi == larger(s.column(self.xstart), s.column(self.xend))
        &&& f.y_lo == smaller(s.row(self.ystart), s.row(self.yend))
        &&& f.y_hi == larger(s.row(self.ystart), s.row(self.yend))
    }

    /// `f` covers the row from start to end.
    pub open spec fn is_span(&self, s: Screen, f: Fill) -> bool {
        &&& f.x_lo == smaller(s.column(self.xstart), s.column(self.xend))
        &&& f.x_hi == larger(s.column(self.xstart), s.column(self.xend))
        &&& f.y_lo == s.row(self.ystart)
        &&& f.y_hi == s.row(self.ystart)
    }
}

fn block(ctx: &Rex3Context, s: &Screen, color: u32) -> (f: Fill)
    requires
        s.wf(),
    ensures
        ctx.is_block(*s, f),
        f.color == color,
{
    let x0: i32 = s.column_of(ctx.xstart);
    let x1: i32 = s.column_of(ctx.xend);
    let y0: i32 = s.row_of(ctx.ystart);
    let y1: i32 = s.row_of(ctx.yend);
    let (x_lo, x_hi): (i32, i32) = if x0 <= x1 {
        (x0, x1)
    } else {
        (x1, x0)
    };
    let (y_lo, y_hi): (i32, i32) = if y0 <= y1 {
        (y0, y1)
    } else {
        (y1, y0)
    };
    Fill { x_lo, x_hi, y_lo, y_hi, color }
}

/// The fill that does a fast clear of a rectangle; nothing where the primitive is
/// another.
pub fn try_fastclear_block(ctx: &Rex3Context, s: &Screen) -> (r: Option<Fill>)
    requires
        s.wf(),
    ensures
        r is Some == ctx.is_fastclear_block(),
        r matches Some(f) ==> ctx.is_block(*s, f) && f.color == ctx.clear_color,
{
    if !ctx.fastclear {
        return None;
    }
    if ctx.enzpattern || ctx.enlspattern {
        return None;
    }
    if ctx.colorhost || ctx.alphahost {
        return None;
    }
    if ctx.adrmode != ADRMODE_BLOCK {
        return None;
    }
    Some(block(ctx, s, ctx.clear_color))
}

/// The fill that draws a row of one color; nothing where the primitive is another.
pub fn try_src_span_rgb(ctx: &Rex3Context, s: &Screen) -> (r: Option<Fill>)
    requires
        s.wf(),
    ensures
        r is Some == ctx.is_src_span(),
        r matches Some(f) ==> ctx.is_span(*s, f) && f.color == ctx.color,
{
    if ctx.adrmode != ADRMODE_SPAN {
        return None;
    }
    if ctx.logicop != LOGICOP_SRC {
        return None;
    }
    if ctx.enzpattern || ctx.enlspattern {
        return None;
    }
    if ctx.colorhost || ctx.alphahost || ctx.shade || ctx.blend {
        return None;
    }
    if ctx.planes != 0 {
        return None;
    }
    let x0: i32 = s.column_of(ctx.xstart);
    let x1: i32 = s.column_of(ctx.xend);
    let y: i32 = s.row_of(ctx.ystart);
    let (x_lo, x_hi): (i32, i32) = if x0 <= x1 {
        (x0, x1)
    } else {
        (x1, x0)
    };
    Some(Fill { x_lo, x_hi, y_lo: y, y_hi: y, color: ctx.color })
}

/// The fill that draws a rectangle of one color; nothing where the primitive is another.
pub fn try_src_block_rgb(ctx: &Rex3Context, s: &Screen) -> (r: Option<Fill>)
    requires
        s.wf(),
    ensures
        r is Some == ctx.is_src_block(),
        r matches Some(f) ==> ctx.is_block(*s, f) && f.color == ctx.color,
{
    if ctx.adrmode != ADRMODE_BLOCK {
        return None;
    }
    if ctx.logicop != LOGICOP_SRC {
        return None;
    }
    if ctx.enzpattern || ctx.enlspattern {
        return None;
    }
    if ctx.colorhost || ctx.alphahost || ctx.shade || ctx.blend {
        return None;
    }
    if ctx.planes != 0 || ctx.fastclear {
        return None;
    }
    Some(block(ctx, s, ctx.color))
}

impl Fill {
    pub open spec fn wf(&self) -> bool {
        0 <= self.x_lo <= self.x_hi <= 0x20000 && 0 <= self.y_lo <= self.y_hi <= 0x20000
    }

    pub open spec fn width(&self) -> int {
        self.x_hi - self.x_lo + 1
    }

    /// The pixels, row by row: the first `n` rows.
    pub open spec fn first_rows(&self, n: int) -> Seq<(i32, i32)>
        decreases n,
    {
        if n <= 0 {
            Seq::empty()
        } else {
            self.first_rows(n - 1) + self.row_pixels((self.y_lo + n - 1) as i32)
        }
    }

    /// All pixels, row by row and from left to right.
    pub open spec fn all_pixels(&self) -> Seq<(i32, i32)> {
        self.first_rows(self.y_hi - self.y_lo + 1)
    }

    pub open spec fn row_pixels(&self, y: i32) -> Seq<(i32, i32)> {
        Seq::new(self.width() as nat, |i: int| ((self.x_lo + i) as i32, y))
    }

    /// Number of rows.
    pub fn rows(&self) -> (n: u64)
        requires
            self.wf(),
        ensures
            n == self.y_hi - self.y_lo + 1,
    {
        (self.y_hi - self.y_lo + 1) as u64
    }

    /// The pixels, row by row and from left to right.
    pub fn pixels(&self) -> (v: Vec<(i32, i32)>)
        requires
            self.wf(),
        ensures
            v@ == self.all_pixels(),
    {
        let mut v: Vec<(i32, i32)> = Vec::new();
        let mut y: i32 = self.y_lo;
        assert(v@ =~= self.first_rows(0));
        while y <= self.y_hi
            invariant
                self.wf(),
                self.y_lo <= y <= self.y_hi + 1,
                v@ == self.first_rows(y - self.y_lo),
            decreases self.y_hi + 1 - y,
        {
            let ghost before = v@;
            let mut x: i32 = self.x_lo;
            while x <= self.x_hi
                invariant
                    self.wf(),
                    self.y_lo <= y <= self.y_hi,
                    self.x_lo <= x <= self.x_hi + 1,
                    v@ == before + self.row_pixels(y).take(x - self.x_lo),
                decreases self.x_hi + 1 - x,
            {
                v.push((x, y));
                x = x + 1;
                assert(v@ =~= before + self.row_pixels(y).take(x - self.x_lo));
            }
            assert(self.row_pixels(y).take(x - self.x_lo) =~= self.row_pixels(y));
            y = y + 1;
        }
        v
    }
}

/// Law: the fills stay on the screen, in biased coordinates.
pub proof fn law_fills_stay_on_screen(ctx: Rex3Context, s: Screen, f: Fill)
    requires
        s.wf(),
        ctx.is_block(s, f) || ctx.is_span(s, f),
    ensures
        f.wf(),
        REX3_COORD_BIAS <= f.x_lo <= f.x_hi < REX3_COORD_BIAS + s.width,
        REX3_COORD_BIAS <= f.y_lo <= f.y_hi < REX3_COORD_BIAS + s.height,
{
}

/// Law: a pixel on the screen is drawn where it was asked for, since coordinates and
/// bounds are biased alike.
pub proof fn law_coordinates_on_screen_are_kept(s: Screen, x: i32, y: i32)
    requires
        s.wf(),
        0 <= x as int / REX3_COORD_SCALE as int - REX3_COORD_BIAS < s.width,
        0 <= y as int / REX3_COORD_SCALE as int - REX3_COORD_BIAS < s.height,
    ensures
        s.column(x) == x as int / REX3_COORD_SCALE as int,
        s.row(y) == y as int / REX3_COORD_SCALE as int,
{
}

proof fn lemma_first_rows(f: Fill, n: int)
    requires
        f.wf(),
        0 <= n <= f.y_hi - f.y_lo + 1,
    ensures
        forall|x: i32, y: i32|
            f.first_rows(n).contains((x, y)) <==> f.x_lo <= x <= f.x_hi && f.y_lo <= y < f.y_lo + n,
        f.first_rows(n).no_duplicates(),
    decreases n,
{
    if n > 0 {
        lemma_first_rows(f, n - 1);
        let a = f.first_rows(n - 1);
        let b = f.row_pixels((f.y_lo + n - 1) as i32);
        assert forall|x: i32, y: i32|
            f.first_rows(n).contains((x, y)) <==> f.x_lo <= x <= f.x_hi && f.y_lo <= y < f.y_lo
                + n by {
            if a.contains((x, y)) {
                let i = choose|i: int| 0 <= i < a.len() && a[i] == (x, y);
                assert((a + b)[i] == (x, y));
            }
            if f.x_lo <= x <= f.x_hi && y == f.y_lo + n - 1 {
                assert(b[x - f.x_lo] == (x, y));
                assert((a + b)[a.len() + (x - f.x_lo)] == (x, y));
            }
            if (a + b).contains((x, y)) {
                let i = choose|i: int| 0 <= i < (a + b).len() && (a + b)[i] == (x, y);
                if i < a.len() {
                    assert(a[i] == (x, y));
                } else {
                    assert(b[i - a.len()] == (x, y));
                }
            }
        }
        assert forall|i: int, j: int| 0 <= i < j < (a + b).len() implies (a + b)[i] != (a + b)[j] by {
            if i < a.len() && j >= a.len() {
                assert(a.contains(a[i]));
                assert(a.contains((a[i].0, a[i].1)));
            }
        }
    }
}

/// Law: the pixels of a fill are those of its rectangle, each once.
pub proof fn law_pixels_cover_the_rectangle(f: Fill)
    requires
        f.wf(),
    ensures
        forall|x: i32, y: i32|
            #[trigger] f.all_pixels().contains((x, y)) <==> f.x_lo <= x <= f.x_hi && f.y_lo <= y
                <= f.y_hi,
        f.all_pixels().no_duplicates(),
{
    lemma_first_rows(f, f.y_hi - f.y_lo + 1);
}

} // verus!
