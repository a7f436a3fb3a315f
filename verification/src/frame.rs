use vstd::prelude::*;
use vstd::arithmetic::div_mod::{lemma_fundamental_div_mod, lemma_fundamental_div_mod_converse};
use crate::config::Constants;
use crate::matrix::{module_at, ModuleMatrix};

verus! {

/// Largest canvas side that is drawn, in pixels.
pub const MAX_CANVAS_SIDE: u64 = 0x7fff_ffff;

/// Bits of one gray level: every frame is a single channel of 8 bits.
pub const GRAY_BIT_DEPTH: u8 = 8;

/// One picture of the animation: a square of gray levels, and how long it is
/// shown.
#[derive(Debug, PartialEq, Eq)]
pub struct Frame {
    /// One byte per pixel.
    pub pixels: Vec<u8>,
    /// Numerator of the display delay.
    pub delay_num: u16,
    /// Denominator of the display delay.
    pub delay_den: u16,
}

/// The frames of one run, all of one size.
#[derive(Debug, PartialEq, Eq)]
pub struct Animation {
    /// Width of every frame, in pixels.
    pub width: u32,
    /// Height of every frame, in pixels.
    pub height: u32,
    /// Bits of one gray level.
    pub bit_depth: u8,
    /// Number of frames that the animation announces.
    pub frame_count: u32,
    /// The frames, in the order of the packets.
    pub frames: Vec<Frame>,
}

/// The model of a frame.
pub struct FrameView {
    pub pixels: Seq<u8>,
    pub delay_num: u16,
    pub delay_den: u16,
}

/// The model of an animation.
pub struct AnimationView {
    pub width: int,
    pub height: int,
    pub bit_depth: int,
    pub frame_count: int,
    pub frames: Seq<FrameView>,
}

impl View for Frame {
    type V = FrameView;

    /// The pixels and the delay of the frame.
    open spec fn view(&self) -> FrameView {
        FrameView { pixels: self.pixels@, delay_num: self.delay_num, delay_den: self.delay_den }
    }
}

impl View for Animation {
    type V = AnimationView;

    /// The size of the animation and the models of its frames.
    open spec fn view(&self) -> AnimationView {
        AnimationView {
            width: self.width as int,
            height: self.height as int,
            bit_depth: self.bit_depth as int,
            frame_count: self.frame_count as int,
            frames: Seq::new(self.frames@.len(), |i: int| self.frames@[i]@),
        }
    }
}

/// Why a set of matrices did not become an animation.
#[derive(Debug, Clone, Copy, PartialEq, Eq)]
pub enum CompositeError {
    /// The matrices are not all of one size.
    InconsistentFrameSize,
}

/// Side of the canvas for a matrix of `dim` modules: the scaled matrix with
/// the scaled border on both sides.
pub open spec fn canvas_side(dim: int, c: Constants) -> int {
    dim * c.scaling + 2 * (c.border * c.scaling)
}

/// The canvases that are drawn: the side fits a signed 32-bit number and the
/// pixels can be counted.
pub open spec fn canvas_fits(dim: int, c: Constants) -> bool {
    &&& canvas_side(dim, c) <= MAX_CANVAS_SIDE
    &&& canvas_side(dim, c) * canvas_side(dim, c) <= usize::MAX
}

/// Gray level of the pixel `(px, py)`: the main colour where the module under
/// it is dark, the back colour where it is light or where the pixel lies in
/// the border.
pub open spec fn pixel_at(m: Seq<Seq<bool>>, c: Constants, px: int, py: int) -> u8 {
    if module_at(m, px / (c.scaling as int) - c.border, py / (c.scaling as int) - c.border) {
        c.main_color
    } else {
        c.back_color
    }
}

/// The pixel buffer of a matrix, row by row from the top and each row from
/// the left: the pixel in column `px` of row `py` stands at `py * side + px`.
pub open spec fn frame_pixels(m: Seq<Seq<bool>>, c: Constants) -> Seq<u8> {
    let side = canvas_side(m.len() as int, c);
    Seq::new((side * side) as nat, |i: int| pixel_at(m, c, i % side, i / side))
}

/// The grids of a row of matrices.
pub open spec fn grids(data: Seq<ModuleMatrix>) -> Seq<Seq<Seq<bool>>> {
    Seq::new(data.len(), |i: int| data[i]@)
}

/// All grids have the side of the first.
pub open spec fn sizes_agree(data: Seq<Seq<Seq<bool>>>) -> bool {
    forall|i: int| 0 <= i < data.len() ==> (#[trigger] data[i]).len() == data[0].len()
}

/// The frame drawn of one matrix with the settings of the run.
pub open spec fn frame_of(m: Seq<Seq<bool>>, c: Constants) -> FrameView {
    FrameView { pixels: frame_pixels(m, c), delay_num: c.fps_nom, delay_den: c.fps_den }
}

/// The animation made of a row of grids: one frame for every grid, in their
/// order, on a canvas for the side that they share; or the defect of the row.
pub open spec fn composited(data: Seq<Seq<Seq<bool>>>, c: Constants) -> Result<
    AnimationView,
    CompositeError,
>
    recommends
        data.len() > 0,
{
    if !sizes_agree(data) {
        Err(CompositeError::InconsistentFrameSize)
    } else {
        Ok(
            AnimationView {
                width: canvas_side(data[0].len() as int, c),
                height: canvas_side(data[0].len() as int, c),
                bit_depth: GRAY_BIT_DEPTH as int,
                frame_count: data.len() as int,
                frames: Seq::new(data.len(), |k: int| frame_of(data[k], c)),
            },
        )
    }
}

/// The model of the outcome of compositing.
pub open spec fn composite_view(out: Result<Animation, CompositeError>) -> Result<
    AnimationView,
    CompositeError,
> {
    match out {
        Ok(animation) => Ok(animation@),
        Err(e) => Err(e),
    }
}

/// Computes the canvas side for a matrix of `dim` modules, where such a
/// canvas is drawn.
pub fn canvas_size(dim: usize, constants: &Constants) -> (out: Option<u32>)
    requires
        constants.scaling > 0,
        constants.border >= 0,
    ensures
        out is Some <==> canvas_fits(dim as int, *constants),
        out matches Some(side) ==> side == canvas_side(dim as int, *constants),
{
    let scaling: u64 = constants.scaling as u64;
    let border: u64 = constants.border as u64;
    proof {
        assert(dim * scaling >= dim) by (nonlinear_arith)
            requires
                scaling >= 1,
                dim >= 0,
        ;
        assert(border * scaling >= 0) by (nonlinear_arith)
            requires
                scaling >= 1,
                border >= 0,
        ;
    }
    if dim > MAX_CANVAS_SIDE as usize {
        return None;
    }
    assert(dim * scaling <= 0x7fff_ffff * 0x7fff_ffff) by (nonlinear_arith)
        requires
            0 <= dim <= 0x7fff_ffff,
            0 <= scaling <= 0x7fff_ffff,
    ;
    assert(border * scaling <= 0x7fff_ffff * 0x7fff_ffff) by (nonlinear_arith)
        requires
            0 <= border <= 0x7fff_ffff,
            0 <= scaling <= 0x7fff_ffff,
    ;
    let side: u64 = (dim as u64) * scaling + 2 * (border * scaling);
    if side > MAX_CANVAS_SIDE {
        return None;
    }
    assert(side * side <= 0x7fff_ffff * 0x7fff_ffff) by (nonlinear_arith)
        requires
            0 <= side <= 0x7fff_ffff,
    ;
    if side * side > usize::MAX as u64 {
        return None;
    }
    Some(side as u32)
}

/// Draws one matrix: every module becomes a square of `scaling` pixels in
/// the main or the back colour, inside a border in the back colour.
pub fn render_frame(matrix: &ModuleMatrix, constants: &Constants) -> (out: Vec<u8>)
    requires
        constants.scaling > 0,
        constants.border >= 0,
        canvas_fits(matrix@.len() as int, *constants),
    ensures
        out@ == frame_pixels(matrix@, *constants),
{
    let dim = matrix.size();
    let side: u32 = match canvas_size(dim, constants) {
        Some(side) => side,
        None => {
            assert(false);
            0
        },
    };
    let ghost m = matrix@;
    let ghost c = *constants;
    let ghost s = side as int;
    let mut out: Vec<u8> = Vec::new();
    let mut py: u32 = 0;
    while py < side
        invariant
            py <= side,
            s == side,
            s == canvas_side(m.len() as int, c),
            s * s <= usize::MAX,
            s <= MAX_CANVAS_SIDE,
            m == matrix@,
            c == *constants,
            c.scaling > 0,
            c.border >= 0,
            out@.len() == py * s,
            forall|i: int| 0 <= i < out@.len() ==> (#[trigger] out@[i]) == pixel_at(m, c, i % s, i / s),
        decreases side - py,
    {
        let mut px: u32 = 0;
        while px < side
            invariant
                py < side,
                px <= side,
                s == side,
                m == matrix@,
                c == *constants,
                c.scaling > 0,
                c.border >= 0,
                s <= MAX_CANVAS_SIDE,
                out@.len() == py * s + px,
                forall|i: int|
                    0 <= i < out@.len() ==> (#[trigger] out@[i]) == pixel_at(m, c, i % s, i / s),
            decreases side - px,
        {
            let x: i32 = px as i32 / constants.scaling - constants.border;
            let y: i32 = py as i32 / constants.scaling - constants.border;
            let level = if matrix.get_module(x, y) {
                constants.main_color
            } else {
                constants.back_color
            };
            proof {
                lemma_fundamental_div_mod_converse(py * s + px, s, py as int, px as int);
            }
            out.push(level);
            px += 1;
        }
        assert((py + 1) * s == py * s + s) by (nonlinear_arith);
        py += 1;
    }
    assert(out@ =~= frame_pixels(m, c));
    out
}

/// Draws every matrix and gathers the frames, in the order of the matrices,
/// each with the delay of the settings, under a heading that announces their
/// number, their size and the depth of a gray level.
pub fn make_apng(data: Vec<ModuleMatrix>, constants: &Constants) -> (out: Result<
    Animation,
    CompositeError,
>)
    requires
        data@.len() > 0,
        data@.len() <= u32::MAX,
        constants.scaling > 0,
        constants.border >= 0,
        canvas_fits(data@[0]@.len() as int, *constants),
    ensures
        composite_view(out) == composited(grids(data@), *constants),
        out is Ok <==> sizes_agree(grids(data@)),
        out matches Err(e) ==> e == CompositeError::InconsistentFrameSize,
        out matches Ok(animation) ==> {
            &&& animation.width == canvas_side(data@[0]@.len() as int, *constants)
            &&& animation.height == animation.width
            &&& animation.bit_depth == GRAY_BIT_DEPTH
            &&& animation.frame_count == data@.len()
            &&& animation.frames@.len() == data@.len()
            &&& forall|i: int|
                0 <= i < data@.len() ==> {
                    &&& (#[trigger] animation.frames@[i])@ == frame_of(data@[i]@, *constants)
                    &&& animation.frames@[i].pixels@.len() == animation.width * animation.height
                }
        },
{
    let ghost want = grids(data@);
    let dim = data[0].size();
    let mut k: usize = 0;
    while k < data.len()
        invariant
            k <= data@.len(),
            data@.len() > 0,
            want == grids(data@),
            dim == data@[0]@.len(),
            forall|j: int| 0 <= j < k ==> (#[trigger] data@[j])@.len() == dim,
        decreases data@.len() - k,
    {
        if data[k].size() != dim {
            assert(want[k as int] == data@[k as int]@ && want[0] == data@[0]@);
            assert(!sizes_agree(want));
            return Err(CompositeError::InconsistentFrameSize);
        }
        k += 1;
    }
    assert(sizes_agree(want)) by {
        assert forall|j: int| 0 <= j < want.len() implies (#[trigger] want[j]).len()
            == want[0].len() by {
            assert(want[j] == data@[j]@ && want[0] == data@[0]@);
        }
    }
    let side: u32 = match canvas_size(dim, constants) {
        Some(side) => side,
        None => {
            assert(false);
            0
        },
    };
    let mut frames: Vec<Frame> = Vec::new();
    let mut i: usize = 0;
    while i < data.len()
        invariant
            i <= data@.len(),
            forall|j: int| 0 <= j < data@.len() ==> (#[trigger] data@[j])@.len() == dim,
            constants.scaling > 0,
            constants.border >= 0,
            canvas_fits(dim as int, *constants),
            side == canvas_side(dim as int, *constants),
            frames@.len() == i,
            forall|j: int|
                0 <= j < i ==> {
                    &&& (#[trigger] frames@[j])@ == frame_of(data@[j]@, *constants)
                    &&& frames@[j].pixels@.len() == side * side
                },
        decreases data@.len() - i,
    {
        let pixels = render_frame(&data[i], constants);
        frames.push(Frame { pixels, delay_num: constants.fps_nom, delay_den: constants.fps_den });
        i += 1;
    }
    let frame_count = data.len() as u32;
    let animation = Animation {
        width: side,
        height: side,
        bit_depth: GRAY_BIT_DEPTH,
        frame_count,
        frames,
    };
    proof {
        assert(want[0] == data@[0]@);
        assert(animation@.frames =~= Seq::new(
            want.len(),
            |k: int| frame_of(want[k], *constants),
        ));
    }
    Ok(animation)
}

/// The buffer of a frame has one byte for every pixel of the canvas, and
/// holds the pixel in column `px` of row `py` at `py * side + px`.
pub proof fn frame_holds_pixels(m: Seq<Seq<bool>>, c: Constants, px: int, py: int)
    requires
        c.scaling > 0,
        c.border >= 0,
        0 <= px < canvas_side(m.len() as int, c),
        0 <= py < canvas_side(m.len() as int, c),
    ensures
        frame_pixels(m, c).len() == canvas_side(m.len() as int, c) * canvas_side(
            m.len() as int,
            c,
        ),
        0 <= py * canvas_side(m.len() as int, c) + px < frame_pixels(m, c).len(),
        frame_pixels(m, c)[py * canvas_side(m.len() as int, c) + px] == pixel_at(m, c, px, py),
{
    let side = canvas_side(m.len() as int, c);
    assert(side * side >= 0 && 0 <= py * side + px < side * side) by (nonlinear_arith)
        requires
            0 <= px < side,
            0 <= py < side,
    ;
    lemma_fundamental_div_mod_converse(py * side + px, side, py, px);
}

/// The border is background: a pixel that lies in the ring of
/// `border * scaling` pixels round the scaled matrix has the back colour.
pub proof fn border_is_background(m: Seq<Seq<bool>>, c: Constants, px: int, py: int)
    requires
        c.scaling > 0,
        c.border >= 0,
        0 <= px < canvas_side(m.len() as int, c),
        0 <= py < canvas_side(m.len() as int, c),
        px < c.border * c.scaling || px >= (c.border + m.len()) * c.scaling || py < c.border
            * c.scaling || py >= (c.border + m.len()) * c.scaling,
    ensures
        pixel_at(m, c, px, py) == c.back_color,
{
    let s = c.scaling as int;
    let b = c.border as int;
    let d = m.len() as int;
    lemma_fundamental_div_mod(px, s);
    lemma_fundamental_div_mod(py, s);
    assert(px < b * s ==> px / s < b) by (nonlinear_arith)
        requires
            s > 0,
            px == s * (px / s) + px % s,
            0 <= px % s < s,
    ;
    assert(px >= (b + d) * s ==> px / s >= b + d) by (nonlinear_arith)
        requires
            s > 0,
            px == s * (px / s) + px % s,
            0 <= px % s < s,
    ;
    assert(py < b * s ==> py / s < b) by (nonlinear_arith)
        requires
            s > 0,
            py == s * (py / s) + py % s,
            0 <= py % s < s,
    ;
    assert(py >= (b + d) * s ==> py / s >= b + d) by (nonlinear_arith)
        requires
            s > 0,
            py == s * (py / s) + py % s,
            0 <= py % s < s,
    ;
}

/// Inside the border every module is a square of `scaling` pixels: the pixel
/// at the offset `(dx, dy)` within the module in column `x` of row `y` has
/// the main colour where that module is dark, the back colour where it is
/// light.
pub proof fn interior_is_scaled_matrix(
    m: Seq<Seq<bool>>,
    c: Constants,
    x: int,
    y: int,
    dx: int,
    dy: int,
)
    requires
        c.scaling > 0,
        c.border >= 0,
        0 <= x < m.len(),
        0 <= y < m.len(),
        0 <= dx < c.scaling,
        0 <= dy < c.scaling,
    ensures
        pixel_at(m, c, (c.border + x) * c.scaling + dx, (c.border + y) * c.scaling + dy) == (if m[y][x] {
            c.main_color
        } else {
            c.back_color
        }),
        0 <= (c.border + x) * c.scaling + dx < canvas_side(m.len() as int, c),
        0 <= (c.border + y) * c.scaling + dy < canvas_side(m.len() as int, c),
{
    let s = c.scaling as int;
    let b = c.border as int;
    let d = m.len() as int;
    lemma_fundamental_div_mod_converse((b + x) * s + dx, s, b + x, dx);
    lemma_fundamental_div_mod_converse((b + y) * s + dy, s, b + y, dy);
    assert(0 <= (b + x) * s + dx < d * s + 2 * (b * s)) by (nonlinear_arith)
        requires
            s > 0,
            b >= 0,
            0 <= x < d,
            0 <= dx < s,
    ;
    assert(0 <= (b + y) * s + dy < d * s + 2 * (b * s)) by (nonlinear_arith)
        requires
            s > 0,
            b >= 0,
            0 <= y < d,
            0 <= dy < s,
    ;
}

/// An animation is consistent: a row of grids of one side gives one frame
/// for every grid, in their order, and announces that number; every frame
/// is a square of the one canvas size, with one byte for every pixel, and
/// carries the delay of the settings as it stands there.
pub proof fn animation_is_consistent(data: Seq<Seq<Seq<bool>>>, c: Constants)
    requires
        data.len() >= 1,
        sizes_agree(data),
        c.scaling > 0,
        c.border >= 0,
    ensures
        composited(data, c) is Ok,
        ({
            let a = composited(data, c)->Ok_0;
            let side = canvas_side(data[0].len() as int, c);
            &&& a.frame_count == data.len()
            &&& a.frames.len() == data.len()
            &&& a.width == side
            &&& a.height == side
            &&& a.bit_depth == 8
            &&& forall|k: int|
                0 <= k < data.len() ==> {
                    &&& (#[trigger] a.frames[k]) == frame_of(data[k], c)
                    &&& a.frames[k].pixels.len() == side * side
                    &&& a.frames[k].delay_num == c.fps_nom
                    &&& a.frames[k].delay_den == c.fps_den
                }
        }),
{
    let a = composited(data, c)->Ok_0;
    let side = canvas_side(data[0].len() as int, c);
    assert(side >= 0 && side * side >= 0) by (nonlinear_arith)
        requires
            side == data[0].len() * c.scaling + 2 * (c.border * c.scaling),
            c.scaling > 0,
            c.border >= 0,
            data[0].len() >= 0,
    ;
    assert forall|k: int| 0 <= k < data.len() implies (#[trigger] a.frames[k]).pixels.len()
        == side * side by {
        assert(data[k].len() == data[0].len());
    }
}

/// Whatever animation `make_apng` hands out for matrices of one side is
/// consistent: the outcome is no error, it holds one frame for every matrix,
/// in their order, and announces that number; its width and height are the
/// canvas side; every buffer has one byte for every pixel; and every frame
/// carries the delay of the settings as it stands there. Nothing is asked of
/// the size of the canvas: an animation that exists has a size that fits.
pub proof fn outcome_is_consistent(
    data: Seq<ModuleMatrix>,
    c: Constants,
    out: Result<Animation, CompositeError>,
)
    requires
        data.len() >= 1,
        sizes_agree(grids(data)),
        c.scaling > 0,
        c.border >= 0,
        composite_view(out) == composited(grids(data), c),
    ensures
        out is Ok,
        ({
            let a = out->Ok_0;
            let side = canvas_side(data[0]@.len() as int, c);
            &&& a.frame_count == data.len()
            &&& a.frames@.len() == data.len()
            &&& a.width == side
            &&& a.height == side
            &&& a.bit_depth == GRAY_BIT_DEPTH
            &&& forall|k: int|
                0 <= k < data.len() ==> {
                    &&& (#[trigger] a.frames@[k]).pixels@ == frame_pixels(data[k]@, c)
                    &&& a.frames@[k].pixels@.len() == a.width * a.height
                    &&& a.frames@[k].delay_num == c.fps_nom
                    &&& a.frames@[k].delay_den == c.fps_den
                }
        }),
{
    let a = out->Ok_0;
    let model = composited(grids(data), c)->Ok_0;
    animation_is_consistent(grids(data), c);
    assert(a@ == model);
    assert(a@.frames.len() == a.frames@.len());
    assert(grids(data)[0] == data[0]@);
    assert forall|k: int| 0 <= k < data.len() implies {
        &&& (#[trigger] a.frames@[k]).pixels@ == frame_pixels(data[k]@, c)
        &&& a.frames@[k].pixels@.len() == a.width * a.height
        &&& a.frames@[k].delay_num == c.fps_nom
        &&& a.frames@[k].delay_den == c.fps_den
    } by {
        assert(a@.frames[k] == a.frames@[k]@);
        assert(model.frames[k] == frame_of(grids(data)[k], c));
        assert(grids(data)[k] == data[k]@);
    }
}

/// Compositing is a function of the matrices and the settings: two
/// outcomes for the same row of grids and the same settings are the same
/// error, or animations with the same heading and the same frames, buffer
/// for buffer and delay for delay.
pub proof fn recomposing_is_identical(
    data: Seq<Seq<Seq<bool>>>,
    c: Constants,
    first: Result<Animation, CompositeError>,
    second: Result<Animation, CompositeError>,
)
    requires
        composite_view(first) == composited(data, c),
        composite_view(second) == composited(data, c),
    ensures
        composite_view(first) == composite_view(second),
        first is Ok <==> second is Ok,
        first is Ok ==> {
            let a = first->Ok_0;
            let b = second->Ok_0;
            &&& a.width == b.width
            &&& a.height == b.height
            &&& a.bit_depth == b.bit_depth
            &&& a.frame_count == b.frame_count
            &&& a.frames@.len() == b.frames@.len()
            &&& forall|i: int|
                0 <= i < a.frames@.len() ==> {
                    &&& (#[trigger] a.frames@[i]).pixels@ == b.frames@[i].pixels@
                    &&& a.frames@[i].delay_num == b.frames@[i].delay_num
                    &&& a.frames@[i].delay_den == b.frames@[i].delay_den
                }
        },
{
    if first is Ok {
        let a = first->Ok_0;
        let b = second->Ok_0;
        assert(a@ == b@);
        assert(a@.frames.len() == a.frames@.len());
        assert(b@.frames.len() == b.frames@.len());
        assert forall|i: int| 0 <= i < a.frames@.len() implies {
            &&& (#[trigger] a.frames@[i]).pixels@ == b.frames@[i].pixels@
            &&& a.frames@[i].delay_num == b.frames@[i].delay_num
            &&& a.frames@[i].delay_den == b.frames@[i].delay_den
        } by {
            assert(a@.frames[i] == a.frames@[i]@);
            assert(b@.frames[i] == b.frames@[i]@);
        }
    }
}

} // verus!
