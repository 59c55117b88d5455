//! Integer geometry and the master-and-stack tiling rule.
use vstd::prelude::*;

verus! {

/// A location in logical output coordinates.
#[derive(Clone, Copy, Debug, PartialEq, Eq, Structural)]
pub struct Point {
    pub x: i32,
    pub y: i32,
}

/// A width and height in logical output coordinates.
#[derive(Clone, Copy, Debug, PartialEq, Eq, Structural)]
pub struct Size {
    pub w: i32,
    pub h: i32,
}

/// A rectangle: its top-left corner and its size.
#[derive(Clone, Copy, Debug, PartialEq, Eq, Structural)]
pub struct Rect {
    pub loc: Point,
    pub size: Size,
}

pub open spec fn point(x: int, y: int) -> Point {
    Point { x: x as i32, y: y as i32 }
}

pub open spec fn size_of(w: int, h: int) -> Size {
    Size { w: w as i32, h: h as i32 }
}

/// Division that rounds toward zero, as integer `/` does on `i32`.
pub open spec fn tdiv(a: int, b: int) -> int {
    if a >= 0 {
        a / b
    } else {
        -((-a) / b)
    }
}

pub open spec fn min_int(a: int, b: int) -> int {
    if a <= b {
        a
    } else {
        b
    }
}

pub open spec fn max_int(a: int, b: int) -> int {
    if a >= b {
        a
    } else {
        b
    }
}

/// `v` clamped into `[lo, hi]`.
pub open spec fn clamp_int(v: int, lo: int, hi: int) -> int {
    if v < lo {
        lo
    } else if v > hi {
        hi
    } else {
        v
    }
}

/// The tile of window `i` among `n >= 2` windows: the master takes the left
/// half (rounded down), the others share the right column, and the last
/// stack tile absorbs the remainder of the height.
pub open spec fn stack_tile(output: Size, n: int, i: int) -> (Point, Size) {
    let master_width = tdiv(output.w as int, 2);
    let stack_width = output.w - master_width;
    let stack_count = n - 1;
    let stack_height = tdiv(output.h as int, stack_count);
    if i == 0 {
        (point(0, 0), size_of(master_width, output.h as int))
    } else {
        let y = (i - 1) * stack_height;
        let height = if i == stack_count {
            output.h - y
        } else {
            stack_height
        };
        (point(master_width, y), size_of(stack_width, height))
    }
}

/// The tiles of `n` windows on an output of the given size.
pub open spec fn master_stack_spec(output: Size, n: nat) -> Seq<(Point, Size)> {
    if n == 0 {
        Seq::empty()
    } else if n == 1 {
        seq![(point(0, 0), output)]
    } else {
        Seq::new(n, |i: int| stack_tile(output, n as int, i))
    }
}

/// Bounds of truncating division.
pub proof fn lemma_tdiv_bounds(a: int, b: int)
    requires
        b > 0,
    ensures
        a >= 0 ==> 0 <= tdiv(a, b) <= a,
        a < 0 ==> a <= tdiv(a, b) <= 0,
{
    if a >= 0 {
        assert(0 <= a / b <= a) by (nonlinear_arith)
            requires
                a >= 0,
                b > 0,
        ;
    } else {
        assert(0 <= (-a) / b <= -a) by (nonlinear_arith)
            requires
                -a > 0,
                b > 0,
        ;
    }
}

proof fn lemma_stack_offsets(h: int, k: int, j: int)
    requires
        k >= 1,
        0 <= j < k,
        i32::MIN <= h <= i32::MAX,
    ensures
        h >= 0 ==> 0 <= j * tdiv(h, k) <= h,
        h < 0 ==> h <= j * tdiv(h, k) <= 0,
        h >= 0 ==> 0 <= h - j * tdiv(h, k) <= h,
        h < 0 ==> h <= h - j * tdiv(h, k) <= 0,
{
    let s = tdiv(h, k);
    if h >= 0 {
        assert(s == h / k);
        assert(0 <= j * (h / k) <= h) by (nonlinear_arith)
            requires
                h >= 0,
                k >= 1,
                0 <= j < k,
        ;
    } else {
        let m = -h;
        assert(s == -(m / k));
        assert(0 <= j * (m / k) <= m) by (nonlinear_arith)
            requires
                m > 0,
                k >= 1,
                0 <= j < k,
        ;
        assert(j * s == -(j * (m / k))) by (nonlinear_arith)
            requires
                s == -(m / k),
        ;
    }
}

/// The master-and-stack tiling of `window_count` windows on `output`.
pub fn master_stack_layout(output: Size, window_count: usize) -> (tiles: Vec<(Point, Size)>)
    requires
        window_count <= i32::MAX,
    ensures
        tiles@ == master_stack_spec(output, window_count as nat),
{
    if window_count == 0 {
        return Vec::new();
    }
    if window_count == 1 {
        let mut tiles = Vec::new();
        tiles.push((Point { x: 0, y: 0 }, output));
        return tiles;
    }
    let master_width: i32 = output.w / 2;
    proof {
        lemma_tdiv_bounds(output.w as int, 2);
    }
    let stack_width: i32 = output.w - master_width;
    let stack_count: i32 = window_count as i32 - 1;
    let stack_height: i32 = output.h / stack_count;
    proof {
        lemma_tdiv_bounds(output.h as int, stack_count as int);
    }
    let mut result: Vec<(Point, Size)> = Vec::new();
    result.push((Point { x: 0, y: 0 }, Size { w: master_width, h: output.h }));
    let mut index: i32 = 0;
    while index < stack_count
        invariant
            0 <= index <= stack_count,
            stack_count == window_count - 1,
            window_count >= 2,
            window_count <= i32::MAX,
            master_width == tdiv(output.w as int, 2),
            stack_width == output.w - master_width,
            stack_height == tdiv(output.h as int, stack_count as int),
            result@.len() == index + 1,
            forall|i: int|
                0 <= i < result@.len() ==> result@[i] == stack_tile(output, window_count as int, i),
        decreases stack_count - index,
    {
        proof {
            lemma_stack_offsets(output.h as int, stack_count as int, index as int);
        }
        let y: i32 = index * stack_height;
        let height: i32 = if index + 1 == stack_count {
            output.h - y
        } else {
            stack_height
        };
        result.push((Point { x: master_width, y }, Size { w: stack_width, h: height }));
        index = index + 1;
    }
    assert(result@ =~= master_stack_spec(output, window_count as nat));
    result
}

/// Every tile lies inside an output of nonnegative size.
pub proof fn lemma_tile_bounds(output: Size, n: nat, i: int)
    requires
        output.w >= 0,
        output.h >= 0,
        0 <= i < n,
        n <= i32::MAX,
    ensures
        ({
            let t = master_stack_spec(output, n)[i];
            &&& 0 <= t.0.x && 0 <= t.0.y && 0 <= t.1.w && 0 <= t.1.h
            &&& t.0.x + t.1.w <= output.w
            &&& t.0.y + t.1.h <= output.h
        }),
{
    if n >= 2 {
        let k = n - 1;
        lemma_tdiv_bounds(output.w as int, 2);
        lemma_tdiv_bounds(output.h as int, k);
        if i > 0 {
            lemma_stack_offsets(output.h as int, k, i - 1);
            let sh = tdiv(output.h as int, k);
            if i < k {
                lemma_stack_offsets(output.h as int, k, i);
                assert((i - 1) * sh + sh == i * sh) by (nonlinear_arith);
            }
        }
    }
}

/// A rectangle inside the nonnegative `i32` quadrant.
pub open spec fn rect_ok(r: Rect) -> bool {
    &&& r.loc.x >= 0 && r.loc.y >= 0 && r.size.w >= 0 && r.size.h >= 0
    &&& r.loc.x + r.size.w <= i32::MAX
    &&& r.loc.y + r.size.h <= i32::MAX
}

/// A fitted rectangle has a positive size no larger than the output (or
/// one) and lies inside it.
pub proof fn lemma_constrain_bounds(rect: Rect, output: Size, min: Size, max: Size)
    requires
        output.w >= 0,
        output.h >= 0,
    ensures
        ({
            let r = constrain_spec(rect, output, min, max);
            &&& 1 <= r.size.w <= max_int(output.w as int, 1)
            &&& 1 <= r.size.h <= max_int(output.h as int, 1)
            &&& rect_ok(r)
            &&& r.loc.x + r.size.w <= max_int(output.w as int, 1)
            &&& r.loc.y + r.size.h <= max_int(output.h as int, 1)
        }),
{
}

/// A size fixed by its client: a positive minimum equal to the maximum.
pub open spec fn fixed_size_spec(min: Size, max: Size) -> bool {
    min.w > 0 && min.h > 0 && min == max
}

pub fn fixed_size(min: Size, max: Size) -> (fixed: bool)
    ensures
        fixed == fixed_size_spec(min, max),
{
    min.w > 0 && min.h > 0 && min.w == max.w && min.h == max.h
}

/// The largest extent a window may take along one axis: its positive
/// maximum, never more than the output, and at least one.
pub open spec fn extent_upper(max: int, output: int) -> int {
    max_int(if max > 0 { min_int(max, output) } else { output }, 1)
}

/// One axis of a window's size limited by its hints and the output.
pub open spec fn limit_extent(size: int, min: int, max: int, output: int) -> int {
    let upper = extent_upper(max, output);
    clamp_int(size, min_int(max_int(min, 1), upper), upper)
}

/// A floating window's rectangle fitted inside the output and its size hints.
pub open spec fn constrain_spec(rect: Rect, output: Size, min: Size, max: Size) -> Rect {
    let w = limit_extent(rect.size.w as int, min.w as int, max.w as int, output.w as int);
    let h = limit_extent(rect.size.h as int, min.h as int, max.h as int, output.h as int);
    let x = clamp_int(rect.loc.x as int, 0, max_int(output.w - w, 0));
    let y = clamp_int(rect.loc.y as int, 0, max_int(output.h - h, 0));
    Rect { loc: point(x, y), size: size_of(w, h) }
}

fn limit(size: i32, min: i32, max: i32, output: i32) -> (r: i32)
    ensures
        r as int == limit_extent(size as int, min as int, max as int, output as int),
        1 <= r,
        r <= max_int(output as int, 1),
{
    let capped: i32 = if max > 0 {
        if max <= output {
            max
        } else {
            output
        }
    } else {
        output
    };
    let upper: i32 = if capped >= 1 {
        capped
    } else {
        1
    };
    let floor: i32 = if min >= 1 {
        min
    } else {
        1
    };
    let lower: i32 = if floor <= upper {
        floor
    } else {
        upper
    };
    if size < lower {
        lower
    } else if size > upper {
        upper
    } else {
        size
    }
}

/// Fit `rect` inside `output` and within the `min`/`max` size hints.
pub fn constrain_geometry(rect: Rect, output: Size, min: Size, max: Size) -> (r: Rect)
    requires
        output.w > i32::MIN,
        output.h > i32::MIN,
    ensures
        r == constrain_spec(rect, output, min, max),
{
    let w = limit(rect.size.w, min.w, max.w, output.w);
    let h = limit(rect.size.h, min.h, max.h, output.h);
    let room_x: i32 = if output.w - w >= 0 {
        output.w - w
    } else {
        0
    };
    let room_y: i32 = if output.h - h >= 0 {
        output.h - h
    } else {
        0
    };
    let x: i32 = if rect.loc.x < 0 {
        0
    } else if rect.loc.x > room_x {
        room_x
    } else {
        rect.loc.x
    };
    let y: i32 = if rect.loc.y < 0 {
        0
    } else if rect.loc.y > room_y {
        room_y
    } else {
        rect.loc.y
    };
    Rect { loc: Point { x, y }, size: Size { w, h } }
}

} // verus!
