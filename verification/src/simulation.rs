//! The water surface: two generations of heights, the pixels that show the
//! newer one, and the rules by which a frame changes them.

use crate::color::{height_color, height_to_color};
use crate::grid::{Grid, GridView};
use vstd::prelude::*;

verus! {

/// What a surface is made with.
pub struct Config<H> {
    /// The number of columns.
    pub width: usize,
    /// The number of rows.
    pub height: usize,
    /// The height of still water, which every cell starts from.
    pub rest: H,
    /// The height that a click sets.
    pub click_height: H,
    /// The height that a falling drop sets.
    pub drop_height: H,
}

/// What a surface is: the two generations, the pixels, and what it knows of
/// the pointer.
pub struct SimulationView<H> {
    /// The generation that the next step reads, and that impulses write to.
    pub previous: GridView<H>,
    /// The generation that the next step overwrites.
    pub current: GridView<H>,
    /// One grey pixel per cell.
    pub pixels: GridView<u32>,
    /// Whether the last frame with the pointer inside took a click.
    pub left_click: bool,
    /// The height that a click sets.
    pub click_height: H,
    /// The height that a falling drop sets.
    pub drop_height: H,
}

impl<H> SimulationView<H> {
    /// The two generations and the pixels are grids of one shape.
    pub open spec fn wf(self) -> bool {
        &&& self.previous.wf()
        &&& self.current.wf()
        &&& self.pixels.wf()
        &&& self.current.same_shape(self.previous)
        &&& self.pixels.same_shape(self.previous)
    }

    /// The cell `(x, y)` lies on the surface.
    pub open spec fn contains(self, x: int, y: int) -> bool {
        self.previous.contains(x, y)
    }

    /// This surface after an impulse: cell `(x, y)` of the previous generation
    /// holds `intensity`, nothing else has changed.
    pub open spec fn perturbed(self, x: int, y: int, intensity: H) -> Self {
        SimulationView { previous: self.previous.put(x, y, intensity), ..self }
    }

    /// Whether a frame takes a click, given whether the frame before took one
    /// and whether the button is down: while the button is held, every other
    /// frame takes one.
    pub open spec fn takes_click(self, button_down: bool) -> bool {
        !self.left_click && button_down
    }

    /// This surface after the pointer has been looked at. With the pointer
    /// outside nothing changes. With it over a cell, the surface notes whether
    /// this frame takes a click, and a click sets that cell to the click
    /// height.
    pub open spec fn clicked(self, cursor: Option<(usize, usize)>, button_down: bool) -> Self {
        match cursor {
            Some((x, y)) => {
                let noted = SimulationView { left_click: self.takes_click(button_down), ..self };
                if self.takes_click(button_down) {
                    noted.perturbed(x as int, y as int, self.click_height)
                } else {
                    noted
                }
            },
            None => self,
        }
    }

    /// This surface after a drop has fallen on `site`, if one has.
    pub open spec fn rained(self, site: Option<(usize, usize)>) -> Self {
        match site {
            Some((x, y)) => self.perturbed(x as int, y as int, self.drop_height),
            None => self,
        }
    }

    /// This surface with the roles of the two generations exchanged.
    pub open spec fn swapped(self) -> Self {
        SimulationView { previous: self.current, current: self.previous, ..self }
    }
}

/// The nine heights that decide the next height of one interior cell: its
/// eight neighbours in the previous generation and the cell's own height in
/// the current one. Rows are counted downwards, so `up` is the row above.
#[derive(Debug)]
pub struct Stencil<H> {
    /// The neighbour at `(x - 1, y)`.
    pub left: H,
    /// The neighbour at `(x + 1, y)`.
    pub right: H,
    /// The neighbour at `(x, y - 1)`.
    pub up: H,
    /// The neighbour at `(x, y + 1)`.
    pub down: H,
    /// The neighbour at `(x - 1, y - 1)`.
    pub up_left: H,
    /// The neighbour at `(x + 1, y + 1)`.
    pub down_right: H,
    /// The neighbour at `(x + 1, y - 1)`.
    pub up_right: H,
    /// The neighbour at `(x - 1, y + 1)`.
    pub down_left: H,
    /// The cell's own height at `(x, y)` in the current generation.
    pub own: H,
}

/// The stencil of cell `(x, y)`.
pub open spec fn stencil_at<H>(
    previous: GridView<H>,
    current: GridView<H>,
    x: int,
    y: int,
) -> Stencil<H> {
    Stencil {
        left: previous.at(x - 1, y),
        right: previous.at(x + 1, y),
        up: previous.at(x, y - 1),
        down: previous.at(x, y + 1),
        up_left: previous.at(x - 1, y - 1),
        down_right: previous.at(x + 1, y + 1),
        up_right: previous.at(x + 1, y - 1),
        down_left: previous.at(x - 1, y + 1),
        own: current.at(x, y),
    }
}

/// Every interior cell of `after` holds what the kernel makes of that cell's
/// stencil, taken from `previous` and from `before`.
pub open spec fn follows_kernel<H, K: Fn(Stencil<H>) -> H>(
    kernel: K,
    previous: GridView<H>,
    before: GridView<H>,
    after: GridView<H>,
) -> bool {
    forall|x: int, y: int|
        #![trigger after.at(x, y)]
        before.interior(x, y) ==> call_ensures(
            kernel,
            (stencil_at(previous, before, x, y),),
            after.at(x, y),
        )
}

/// Every cell on the outer ring holds in `after` what it held in `before`.
pub open spec fn border_kept<T>(before: GridView<T>, after: GridView<T>) -> bool {
    forall|x: int, y: int|
        #![trigger after.at(x, y)]
        before.border(x, y) ==> after.at(x, y) == before.at(x, y)
}

/// The kernel accepts the stencil of every interior cell.
pub open spec fn kernel_ready<H, K: Fn(Stencil<H>) -> H>(
    kernel: K,
    previous: GridView<H>,
    current: GridView<H>,
) -> bool {
    forall|x: int, y: int|
        #![trigger stencil_at(previous, current, x, y)]
        current.interior(x, y) ==> call_requires(kernel, (stencil_at(previous, current, x, y),))
}

/// One step of the wave: `after` is `before` with the current generation
/// advanced by the kernel on every interior cell, and nothing else changed.
pub open spec fn stepped<H, K: Fn(Stencil<H>) -> H>(
    kernel: K,
    before: SimulationView<H>,
    after: SimulationView<H>,
) -> bool {
    &&& after.current.same_shape(before.current)
    &&& follows_kernel(kernel, before.previous, before.current, after.current)
    &&& border_kept(before.current, after.current)
    &&& after == (SimulationView { current: after.current, ..before })
}

/// The cell `(cx, cy)` comes before `(x, y)` when the grid is walked row by
/// row.
spec fn walked(x: int, y: int, cx: int, cy: int) -> bool {
    cy < y || (cy == y && cx < x)
}

/// The state of the current generation while a step has reached `(x, y)`:
/// interior cells already walked follow the kernel, all others are untouched.
spec fn stepped_until<H, K: Fn(Stencil<H>) -> H>(
    kernel: K,
    previous: GridView<H>,
    before: GridView<H>,
    now: GridView<H>,
    x: int,
    y: int,
) -> bool {
    forall|cx: int, cy: int|
        #![trigger now.at(cx, cy)]
        before.contains(cx, cy) ==> if before.interior(cx, cy) && walked(x, y, cx, cy) {
            call_ensures(kernel, (stencil_at(previous, before, cx, cy),), now.at(cx, cy))
        } else {
            now.at(cx, cy) == before.at(cx, cy)
        }
}

/// `pixel` is the grey in which `height` is shown, `level` giving the whole
/// number that the height is narrowed from.
pub open spec fn shows<H, L: Fn(H) -> i64>(level: L, height: H, pixel: u32) -> bool {
    exists|whole: i64| #[trigger]
        call_ensures(level, (height,), whole) && pixel == height_color(whole as int)
}

/// Every interior pixel of `pixels` shows the height of its cell.
pub open spec fn shaded<H, L: Fn(H) -> i64>(
    level: L,
    heights: GridView<H>,
    pixels: GridView<u32>,
) -> bool {
    forall|x: int, y: int|
        #![trigger pixels.at(x, y)]
        heights.interior(x, y) ==> shows(level, heights.at(x, y), pixels.at(x, y))
}

/// `level` accepts the height of every interior cell.
pub open spec fn level_ready<H, L: Fn(H) -> i64>(level: L, heights: GridView<H>) -> bool {
    forall|x: int, y: int|
        #![trigger heights.at(x, y)]
        heights.interior(x, y) ==> call_requires(level, (heights.at(x, y),))
}

/// The pixels brought up to date: in `after` every interior pixel shows its
/// cell of the current generation, and nothing else has changed.
pub open spec fn rendered<H, L: Fn(H) -> i64>(
    level: L,
    before: SimulationView<H>,
    after: SimulationView<H>,
) -> bool {
    &&& after.pixels.same_shape(before.pixels)
    &&& shaded(level, before.current, after.pixels)
    &&& border_kept(before.pixels, after.pixels)
    &&& after == (SimulationView { pixels: after.pixels, ..before })
}

/// The state of the pixels while rendering has reached `(x, y)`: interior
/// pixels already walked show their cell, all others are untouched.
spec fn shaded_until<H, L: Fn(H) -> i64>(
    level: L,
    heights: GridView<H>,
    before: GridView<u32>,
    now: GridView<u32>,
    x: int,
    y: int,
) -> bool {
    forall|cx: int, cy: int|
        #![trigger now.at(cx, cy)]
        before.contains(cx, cy) ==> if before.interior(cx, cy) && walked(x, y, cx, cy) {
            shows(level, heights.at(cx, cy), now.at(cx, cy))
        } else {
            now.at(cx, cy) == before.at(cx, cy)
        }
}

/// One frame after the impulses: `after` is `before` stepped by `kernel`,
/// its pixels brought up to date through `level`, and the two generations
/// then exchanged, so that the heights just computed are the previous
/// generation of the next frame.
pub open spec fn advanced<H, K: Fn(Stencil<H>) -> H, L: Fn(H) -> i64>(
    kernel: K,
    level: L,
    before: SimulationView<H>,
    after: SimulationView<H>,
) -> bool {
    let shown = after.swapped();
    let computed = SimulationView { pixels: before.pixels, ..shown };
    stepped(kernel, before, computed) && rendered(level, computed, shown)
}

/// What a frame comes to, cell by cell. The generation that was read is the
/// new current one, height for height. The new previous generation follows
/// the kernel on the interior and keeps the outer ring of the generation it
/// replaces. The interior pixels show the new previous generation, the
/// pixels of the outer ring are kept, and what the surface knows of the
/// pointer and of its impulses is unchanged.
pub proof fn lemma_frame_cell_by_cell<H, K: Fn(Stencil<H>) -> H, L: Fn(H) -> i64>(
    kernel: K,
    level: L,
    before: SimulationView<H>,
    after: SimulationView<H>,
)
    requires
        advanced(kernel, level, before, after),
    ensures
        after.current == before.previous,
        after.previous.same_shape(before.current),
        follows_kernel(kernel, before.previous, before.current, after.previous),
        border_kept(before.current, after.previous),
        after.pixels.same_shape(before.pixels),
        shaded(level, after.previous, after.pixels),
        border_kept(before.pixels, after.pixels),
        after.left_click == before.left_click,
        after.click_height == before.click_height,
        after.drop_height == before.drop_height,
{
}

/// Every cell of `grid` holds `value`.
pub open spec fn is_flat<T>(grid: GridView<T>, value: T) -> bool {
    forall|x: int, y: int| #![trigger grid.at(x, y)] grid.contains(x, y) ==> grid.at(x, y) == value
}

/// The stencil of a cell in flat water: the cell and its eight neighbours all
/// hold `value`.
pub open spec fn flat_stencil<H>(value: H) -> Stencil<H> {
    Stencil {
        left: value,
        right: value,
        up: value,
        down: value,
        up_left: value,
        down_right: value,
        up_right: value,
        down_left: value,
        own: value,
    }
}

/// Flat water at `value` is at rest under the kernel: of the flat stencil the
/// kernel makes `value` again, and nothing else.
pub open spec fn rests_at<H, K: Fn(Stencil<H>) -> H>(kernel: K, value: H) -> bool {
    forall|next: H| #[trigger] call_ensures(kernel, (flat_stencil(value),), next) ==> next == value
}

/// Still water stays still: if both generations are flat at a height at which
/// the kernel rests, a step leaves both generations flat at that height.
pub proof fn lemma_still_water_stays_still<H, K: Fn(Stencil<H>) -> H>(
    kernel: K,
    before: SimulationView<H>,
    after: SimulationView<H>,
    value: H,
)
    requires
        before.current.same_shape(before.previous),
        is_flat(before.previous, value),
        is_flat(before.current, value),
        rests_at(kernel, value),
        stepped(kernel, before, after),
    ensures
        after.current.same_shape(after.previous),
        is_flat(after.previous, value),
        is_flat(after.current, value),
{
    assert forall|x: int, y: int| #![trigger after.current.at(x, y)] after.current.contains(x, y)
    implies after.current.at(x, y) == value by {
        if before.current.interior(x, y) {
            assert(stencil_at(before.previous, before.current, x, y) == flat_stencil(value));
        }
    }
}

/// Still water stays still over two frames' steps: a step, the exchange of
/// the generations and a second step, with no impulse in between, leave both
/// generations flat at the height they started from, if the kernel rests
/// there.
pub proof fn lemma_still_water_two_steps<H, K: Fn(Stencil<H>) -> H>(
    kernel: K,
    start: SimulationView<H>,
    first: SimulationView<H>,
    second: SimulationView<H>,
    value: H,
)
    requires
        start.current.same_shape(start.previous),
        is_flat(start.previous, value),
        is_flat(start.current, value),
        rests_at(kernel, value),
        stepped(kernel, start, first),
        stepped(kernel, first.swapped(), second),
    ensures
        is_flat(second.previous, value),
        is_flat(second.current, value),
{
    lemma_still_water_stays_still(kernel, start, first, value);
    lemma_still_water_stays_still(kernel, first.swapped(), second, value);
}

/// A water surface.
pub struct Simulation<H> {
    previous: Grid<H>,
    current: Grid<H>,
    pixels: Grid<u32>,
    left_click: bool,
    click_height: H,
    drop_height: H,
}

impl<H> View for Simulation<H> {
    type V = SimulationView<H>;

    closed spec fn view(&self) -> SimulationView<H> {
        SimulationView {
            previous: self.previous@,
            current: self.current@,
            pixels: self.pixels@,
            left_click: self.left_click,
            click_height: self.click_height,
            drop_height: self.drop_height,
        }
    }
}

impl<H: Copy> Simulation<H> {
    /// The two generations and the pixels are grids of one shape.
    pub open spec fn wf(&self) -> bool {
        self@.wf()
    }

    /// A still surface: every cell of both generations at rest, every pixel
    /// black, no click taken.
    pub fn new(config: Config<H>) -> (surface: Self)
        requires
            config.width * config.height <= usize::MAX,
        ensures
            surface.wf(),
            surface@ == (SimulationView {
                previous: GridView::flat(config.width as nat, config.height as nat, config.rest),
                current: GridView::flat(config.width as nat, config.height as nat, config.rest),
                pixels: GridView::flat(config.width as nat, config.height as nat, 0u32),
                left_click: false,
                click_height: config.click_height,
                drop_height: config.drop_height,
            }),
    {
        Simulation {
            previous: Grid::new(config.width, config.height, config.rest),
            current: Grid::new(config.width, config.height, config.rest),
            pixels: Grid::new(config.width, config.height, 0u32),
            left_click: false,
            click_height: config.click_height,
            drop_height: config.drop_height,
        }
    }

    /// The number of columns.
    pub fn width(&self) -> (width: usize)
        ensures
            width == self@.previous.width,
    {
        self.previous.width()
    }

    /// The number of rows.
    pub fn height(&self) -> (height: usize)
        ensures
            height == self@.previous.height,
    {
        self.previous.height()
    }

    /// The height of cell `(x, y)` in the previous generation.
    pub fn previous(&self, x: usize, y: usize) -> (value: H)
        requires
            self.wf(),
            self@.contains(x as int, y as int),
        ensures
            value == self@.previous.at(x as int, y as int),
    {
        self.previous.get(x, y)
    }

    /// The height of cell `(x, y)` in the current generation.
    pub fn current(&self, x: usize, y: usize) -> (value: H)
        requires
            self.wf(),
            self@.contains(x as int, y as int),
        ensures
            value == self@.current.at(x as int, y as int),
    {
        self.current.get(x, y)
    }

    /// The pixel of cell `(x, y)`.
    pub fn pixel(&self, x: usize, y: usize) -> (value: u32)
        requires
            self.wf(),
            self@.contains(x as int, y as int),
        ensures
            value == self@.pixels.at(x as int, y as int),
    {
        self.pixels.get(x, y)
    }

    /// All pixels, row after row, as a window takes them.
    pub fn pixels(&self) -> (buffer: &[u32])
        ensures
            buffer@ == self@.pixels.cells,
    {
        self.pixels.as_slice()
    }

    /// Whether the last frame with the pointer inside took a click.
    pub fn left_click(&self) -> (held: bool)
        ensures
            held == self@.left_click,
    {
        self.left_click
    }

    /// An impulse: sets cell `(x, y)` of the previous generation to
    /// `intensity`, whatever it held. The next step spreads it.
    pub fn perturb(&mut self, x: usize, y: usize, intensity: H)
        requires
            old(self).wf(),
            old(self)@.contains(x as int, y as int),
        ensures
            final(self).wf(),
            final(self)@ == old(self)@.perturbed(x as int, y as int, intensity),
            final(self)@.previous.at(x as int, y as int) == intensity,
    {
        proof {
            self.previous@.lemma_put_at(x as int, y as int, intensity, x as int, y as int);
        }
        self.previous.set(x, y, intensity);
    }

    /// Whether a frame with the pointer inside takes a click: the button is
    /// down and the frame before took none.
    pub fn takes_click(&self, button_down: bool) -> (taken: bool)
        ensures
            taken == self@.takes_click(button_down),
    {
        !self.left_click && button_down
    }

    /// Looks at the pointer. `cursor` is the cell under it, or `None` while it
    /// is outside the window; `button_down` says whether the left button is
    /// down. A cursor under which a click is taken must lie on the surface.
    pub fn click(&mut self, cursor: Option<(usize, usize)>, button_down: bool)
        requires
            old(self).wf(),
            cursor matches Some((x, y)) ==> old(self)@.takes_click(button_down) ==> old(
                self,
            )@.contains(x as int, y as int),
        ensures
            final(self).wf(),
            final(self)@ == old(self)@.clicked(cursor, button_down),
    {
        if let Some((x, y)) = cursor {
            let taken = self.takes_click(button_down);
            self.left_click = taken;
            if taken {
                self.perturb(x, y, self.click_height);
            }
        }
    }

    /// Lets a drop fall on `site`, if there is one: that cell of the previous
    /// generation is set to the drop height.
    pub fn rain(&mut self, site: Option<(usize, usize)>)
        requires
            old(self).wf(),
            site matches Some((x, y)) ==> old(self)@.contains(x as int, y as int),
        ensures
            final(self).wf(),
            final(self)@ == old(self)@.rained(site),
    {
        if let Some((x, y)) = site {
            self.perturb(x, y, self.drop_height);
        }
    }

    /// The stencil of the interior cell `(x, y)`.
    fn stencil(&self, x: usize, y: usize) -> (stencil: Stencil<H>)
        requires
            self.wf(),
            self@.current.interior(x as int, y as int),
        ensures
            stencil == stencil_at(self@.previous, self@.current, x as int, y as int),
    {
        proof {
            self.current.lemma_dimensions_fit();
        }
        Stencil {
            left: self.previous.get(x - 1, y),
            right: self.previous.get(x + 1, y),
            up: self.previous.get(x, y - 1),
            down: self.previous.get(x, y + 1),
            up_left: self.previous.get(x - 1, y - 1),
            down_right: self.previous.get(x + 1, y + 1),
            up_right: self.previous.get(x + 1, y - 1),
            down_left: self.previous.get(x - 1, y + 1),
            own: self.current.get(x, y),
        }
    }

    /// One step of the wave. Every interior cell of the current generation
    /// becomes what `kernel` makes of its stencil: its eight neighbours in
    /// the previous generation and its own height before the step. The cells
    /// on the outer ring, the previous generation and the pixels stay as they
    /// are.
    pub fn step<K: Fn(Stencil<H>) -> H>(&mut self, kernel: K)
        requires
            old(self).wf(),
            kernel_ready(kernel, old(self)@.previous, old(self)@.current),
        ensures
            final(self).wf(),
            stepped(kernel, old(self)@, final(self)@),
    {
        let ghost before = self@;
        let width: usize = self.current.width();
        let height: usize = self.current.height();
        if width < 3 || height < 3 {
            return ;
        }
        let mut y: usize = 1;
        while y < height - 1
            invariant
                self.wf(),
                before.wf(),
                width == before.current.width,
                height == before.current.height,
                width >= 3,
                height >= 3,
                1 <= y <= height - 1,
                self@ == (SimulationView { current: self@.current, ..before }),
                self@.current.same_shape(before.current),
                kernel_ready(kernel, before.previous, before.current),
                stepped_until(kernel, before.previous, before.current, self@.current, 1, y as int),
            decreases height - y,
        {
            let mut x: usize = 1;
            while x < width - 1
                invariant
                    self.wf(),
                    before.wf(),
                    width == before.current.width,
                    height == before.current.height,
                    width >= 3,
                    height >= 3,
                    1 <= y < height - 1,
                    1 <= x <= width - 1,
                    self@ == (SimulationView { current: self@.current, ..before }),
                    self@.current.same_shape(before.current),
                    kernel_ready(kernel, before.previous, before.current),
                    stepped_until(
                        kernel,
                        before.previous,
                        before.current,
                        self@.current,
                        x as int,
                        y as int,
                    ),
                decreases width - x,
            {
                let ghost now = self@.current;
                let stencil = self.stencil(x, y);
                assert(stencil == stencil_at(before.previous, before.current, x as int, y as int));
                let next = kernel(stencil);
                self.current.set(x, y, next);
                proof {
                    assert forall|cx: int, cy: int|
                        #![trigger self@.current.at(cx, cy)]
                        before.current.contains(cx, cy) implies if before.current.interior(cx, cy)
                        && walked(x + 1, y as int, cx, cy) {
                        call_ensures(
                            kernel,
                            (stencil_at(before.previous, before.current, cx, cy),),
                            self@.current.at(cx, cy),
                        )
                    } else {
                        self@.current.at(cx, cy) == before.current.at(cx, cy)
                    } by {
                        now.lemma_put_at(x as int, y as int, next, cx, cy);
                    }
                }
                x += 1;
            }
            y += 1;
        }
    }

    /// Brings the pixels up to date. Every interior pixel becomes the grey of
    /// its cell in the current generation: `level` gives the height as a whole
    /// number, which is narrowed to 8 bits by wrapping. The pixels on the
    /// outer ring and both generations stay as they are.
    pub fn render<L: Fn(H) -> i64>(&mut self, level: L)
        requires
            old(self).wf(),
            level_ready(level, old(self)@.current),
        ensures
            final(self).wf(),
            rendered(level, old(self)@, final(self)@),
    {
        let ghost before = self@;
        let width: usize = self.current.width();
        let height: usize = self.current.height();
        if width < 3 || height < 3 {
            return ;
        }
        let mut y: usize = 1;
        while y < height - 1
            invariant
                self.wf(),
                before.wf(),
                width == before.current.width,
                height == before.current.height,
                width >= 3,
                height >= 3,
                1 <= y <= height - 1,
                self@ == (SimulationView { pixels: self@.pixels, ..before }),
                self@.pixels.same_shape(before.pixels),
                level_ready(level, before.current),
                shaded_until(level, before.current, before.pixels, self@.pixels, 1, y as int),
            decreases height - y,
        {
            let mut x: usize = 1;
            while x < width - 1
                invariant
                    self.wf(),
                    before.wf(),
                    width == before.current.width,
                    height == before.current.height,
                    width >= 3,
                    height >= 3,
                    1 <= y < height - 1,
                    1 <= x <= width - 1,
                    self@ == (SimulationView { pixels: self@.pixels, ..before }),
                    self@.pixels.same_shape(before.pixels),
                    level_ready(level, before.current),
                    shaded_until(
                        level,
                        before.current,
                        before.pixels,
                        self@.pixels,
                        x as int,
                        y as int,
                    ),
                decreases width - x,
            {
                let ghost now = self@.pixels;
                let own = self.current.get(x, y);
                let whole: i64 = level(own);
                let pixel: u32 = height_to_color(whole);
                self.pixels.set(x, y, pixel);
                proof {
                    assert forall|cx: int, cy: int|
                        #![trigger self@.pixels.at(cx, cy)]
                        before.pixels.contains(cx, cy) implies if before.pixels.interior(cx, cy)
                        && walked(x + 1, y as int, cx, cy) {
                        shows(level, before.current.at(cx, cy), self@.pixels.at(cx, cy))
                    } else {
                        self@.pixels.at(cx, cy) == before.pixels.at(cx, cy)
                    } by {
                        now.lemma_put_at(x as int, y as int, pixel, cx, cy);
                    }
                }
                x += 1;
            }
            y += 1;
        }
    }

    /// Exchanges the roles of the two generations. No height is copied.
    pub fn swap(&mut self)
        requires
            old(self).wf(),
        ensures
            final(self).wf(),
            final(self)@ == old(self)@.swapped(),
    {
        std::mem::swap(&mut self.previous, &mut self.current);
    }
    /// One frame. The pointer is looked at and a click, if the frame takes
    /// one, sets the cell under it; then a drop falls on `drop`, if there is
    /// one; then the wave takes one step, the pixels are brought up to date,
    /// and the two generations exchange their roles.
    pub fn frame<K: Fn(Stencil<H>) -> H, L: Fn(H) -> i64>(
        &mut self,
        cursor: Option<(usize, usize)>,
        button_down: bool,
        drop: Option<(usize, usize)>,
        kernel: K,
        level: L,
    )
        requires
            old(self).wf(),
            cursor matches Some((x, y)) ==> old(self)@.takes_click(button_down) ==> old(
                self,
            )@.contains(x as int, y as int),
            drop matches Some((x, y)) ==> old(self)@.contains(x as int, y as int),
            kernel_ready(
                kernel,
                old(self)@.clicked(cursor, button_down).rained(drop).previous,
                old(self)@.current,
            ),
            forall|height: H| call_requires(level, (height,)),
        ensures
            final(self).wf(),
            advanced(
                kernel,
                level,
                old(self)@.clicked(cursor, button_down).rained(drop),
                final(self)@,
            ),
    {
        self.click(cursor, button_down);
        self.rain(drop);
        self.step(kernel);
        self.render(level);
        self.swap();
    }
}

} // verus!
