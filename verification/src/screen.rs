use vstd::prelude::*;

use crate::model::{lanes_view, HitPoint};

verus! {

/// The colour value that a pixel read returns when it fails.
pub const INVALID_PIXEL: u32 = 0xFFFF_FFFF;

/// The screen rectangle that is captured to sample the hit points.
#[derive(Clone, Copy, Debug, PartialEq, Eq)]
pub struct Region {
    pub min_x: i32,
    pub min_y: i32,
    pub width: i32,
    pub height: i32,
}

/// `(k, m)` names a hit point of the lanes.
pub open spec fn is_point(lanes: Seq<Seq<HitPoint>>, k: int, m: int) -> bool {
    0 <= k < lanes.len() && 0 <= m < lanes[k].len()
}

/// No lane has a hit point.
pub open spec fn no_points(lanes: Seq<Seq<HitPoint>>) -> bool {
    forall|k: int| 0 <= k < lanes.len() ==> (#[trigger] lanes[k]).len() == 0
}

/// Any two hit points are less than `i32::MAX` apart on each axis, so the
/// width and height of the region that holds them are `i32` values.
pub open spec fn spans_fit(lanes: Seq<Seq<HitPoint>>) -> bool {
    forall|k1: int, m1: int, k2: int, m2: int|
        is_point(lanes, k1, m1) && is_point(lanes, k2, m2) ==> {
            &&& (#[trigger] lanes[k1][m1]).x - (#[trigger] lanes[k2][m2]).x < i32::MAX
            &&& lanes[k1][m1].y - lanes[k2][m2].y < i32::MAX
        }
}

/// `r` is the smallest rectangle holding every hit point: its left and top
/// edges are the least x and y of a point, its right and bottom edges the
/// greatest.
pub open spec fn bounds_points(lanes: Seq<Seq<HitPoint>>, r: Region) -> bool {
    &&& forall|k: int, m: int|
        is_point(lanes, k, m) ==> {
            &&& r.min_x <= (#[trigger] lanes[k][m]).x <= r.min_x + r.width - 1
            &&& r.min_y <= lanes[k][m].y <= r.min_y + r.height - 1
        }
    &&& exists|k: int, m: int| is_point(lanes, k, m) && (#[trigger] lanes[k][m]).x == r.min_x
    &&& exists|k: int, m: int| is_point(lanes, k, m) && (#[trigger] lanes[k][m]).x == r.min_x + r.width - 1
    &&& exists|k: int, m: int| is_point(lanes, k, m) && (#[trigger] lanes[k][m]).y == r.min_y
    &&& exists|k: int, m: int| is_point(lanes, k, m) && (#[trigger] lanes[k][m]).y == r.min_y + r.height - 1
}

/// The least and greatest coordinates of the hit points are these.
pub open spec fn is_extent(l: Seq<Seq<HitPoint>>, min_x: int, max_x: int, min_y: int, max_y: int) -> bool {
    &&& forall|k: int, m: int|
        is_point(l, k, m) ==> {
            &&& min_x <= (#[trigger] l[k][m]).x <= max_x
            &&& min_y <= l[k][m].y <= max_y
        }
    &&& exists|k: int, m: int| is_point(l, k, m) && (#[trigger] l[k][m]).x == min_x
    &&& exists|k: int, m: int| is_point(l, k, m) && (#[trigger] l[k][m]).x == max_x
    &&& exists|k: int, m: int| is_point(l, k, m) && (#[trigger] l[k][m]).y == min_y
    &&& exists|k: int, m: int| is_point(l, k, m) && (#[trigger] l[k][m]).y == max_y
}

/// The least and greatest coordinates of the points seen so far.
struct Extent {
    min_x: i32,
    max_x: i32,
    min_y: i32,
    max_y: i32,
}

/// The extent of all hit points, if there is one.
fn extent(lanes: &[Vec<HitPoint>; 4]) -> (e: Option<Extent>)
    ensures
        e is None <==> no_points(lanes_view(*lanes)),
        e matches Some(e) ==> is_extent(lanes_view(*lanes), e.min_x as int, e.max_x as int, e.min_y as int, e.max_y as int),
{
    let ghost l = lanes_view(*lanes);
    assert(l.len() == 4);
    let mut found: Option<Extent> = None;
    for k in 0..4
        invariant
            l == lanes_view(*lanes),
            found is None <==> forall|kk: int| 0 <= kk < k ==> (#[trigger] l[kk]).len() == 0,
            found matches Some(e) ==> {
                &&& e.min_x <= e.max_x && e.min_y <= e.max_y
                &&& forall|kk: int, m: int|
                    0 <= kk < k && is_point(l, kk, m) ==> {
                        &&& e.min_x <= (#[trigger] l[kk][m]).x <= e.max_x
                        &&& e.min_y <= l[kk][m].y <= e.max_y
                    }
                &&& exists|kk: int, m: int| 0 <= kk < k && is_point(l, kk, m) && (#[trigger] l[kk][m]).x == e.min_x
                &&& exists|kk: int, m: int| 0 <= kk < k && is_point(l, kk, m) && (#[trigger] l[kk][m]).x == e.max_x
                &&& exists|kk: int, m: int| 0 <= kk < k && is_point(l, kk, m) && (#[trigger] l[kk][m]).y == e.min_y
                &&& exists|kk: int, m: int| 0 <= kk < k && is_point(l, kk, m) && (#[trigger] l[kk][m]).y == e.max_y
            },
    {
        let n = lanes[k].len();
        assert(l[k as int] == lanes@[k as int]@);
        for m in 0..n
            invariant
                k < 4,
                n == l[k as int].len(),
                l == lanes_view(*lanes),
                found is None <==> (forall|kk: int| 0 <= kk < k ==> (#[trigger] l[kk]).len() == 0) && m == 0,
                found matches Some(e) ==> {
                    &&& e.min_x <= e.max_x && e.min_y <= e.max_y
                    &&& forall|kk: int, mm: int|
                        (0 <= kk < k || (kk == k && mm < m)) && is_point(l, kk, mm) ==> {
                            &&& e.min_x <= (#[trigger] l[kk][mm]).x <= e.max_x
                            &&& e.min_y <= l[kk][mm].y <= e.max_y
                        }
                    &&& exists|kk: int, mm: int|
                        (0 <= kk < k || (kk == k && mm < m)) && is_point(l, kk, mm) && (#[trigger] l[kk][mm]).x
                            == e.min_x
                    &&& exists|kk: int, mm: int|
                        (0 <= kk < k || (kk == k && mm < m)) && is_point(l, kk, mm) && (#[trigger] l[kk][mm]).x
                            == e.max_x
                    &&& exists|kk: int, mm: int|
                        (0 <= kk < k || (kk == k && mm < m)) && is_point(l, kk, mm) && (#[trigger] l[kk][mm]).y
                            == e.min_y
                    &&& exists|kk: int, mm: int|
                        (0 <= kk < k || (kk == k && mm < m)) && is_point(l, kk, mm) && (#[trigger] l[kk][mm]).y
                            == e.max_y
                },
        {
            let p = lanes[k][m];
            assert(p == l[k as int][m as int]);
            let next = match found {
                None => Extent { min_x: p.x, max_x: p.x, min_y: p.y, max_y: p.y },
                Some(e) => Extent {
                    min_x: if p.x < e.min_x {
                        p.x
                    } else {
                        e.min_x
                    },
                    max_x: if p.x > e.max_x {
                        p.x
                    } else {
                        e.max_x
                    },
                    min_y: if p.y < e.min_y {
                        p.y
                    } else {
                        e.min_y
                    },
                    max_y: if p.y > e.max_y {
                        p.y
                    } else {
                        e.max_y
                    },
                },
            };
            found = Some(next);
        }
    }
    assert(forall|kk: int| 0 <= kk < 4 ==> (#[trigger] l[kk]).len() == 0 ==> forall|m: int| !is_point(l, kk, m));
    found
}

/// The region to capture: the smallest rectangle holding every hit point,
/// or none when there are no hit points.
pub fn capture_region(lanes: &[Vec<HitPoint>; 4]) -> (r: Option<Region>)
    requires
        spans_fit(lanes_view(*lanes)),
    ensures
        r is None <==> no_points(lanes_view(*lanes)),
        r matches Some(region) ==> bounds_points(lanes_view(*lanes), region),
{
    match extent(lanes) {
        None => None,
        Some(e) => {
            let ghost l = lanes_view(*lanes);
            let ghost (k1, m1) = choose|k: int, m: int| is_point(l, k, m) && (#[trigger] l[k][m]).x == e.max_x;
            let ghost (k2, m2) = choose|k: int, m: int| is_point(l, k, m) && (#[trigger] l[k][m]).x == e.min_x;
            let ghost (k3, m3) = choose|k: int, m: int| is_point(l, k, m) && (#[trigger] l[k][m]).y == e.max_y;
            let ghost (k4, m4) = choose|k: int, m: int| is_point(l, k, m) && (#[trigger] l[k][m]).y == e.min_y;
            assert(l[k1][m1].x - l[k2][m2].x < i32::MAX);
            assert(l[k3][m3].y - l[k4][m4].y < i32::MAX);
            let w = e.max_x - e.min_x + 1;
            let h = e.max_y - e.min_y + 1;
            Some(
                Region {
                    min_x: e.min_x,
                    min_y: e.min_y,
                    width: if w < 1 {
                        1
                    } else {
                        w
                    },
                    height: if h < 1 {
                        1
                    } else {
                        h
                    },
                },
            )
        },
    }
}

/// Whether `capture_region` may be applied to these lanes: it says
/// `spans_fit`.
pub fn region_fits(lanes: &[Vec<HitPoint>; 4]) -> (ok: bool)
    ensures
        ok == spans_fit(lanes_view(*lanes)),
{
    let ghost l = lanes_view(*lanes);
    match extent(lanes) {
        None => {
            assert forall|k1: int, m1: int, k2: int, m2: int|
                is_point(l, k1, m1) && is_point(l, k2, m2) implies {
                    &&& (#[trigger] l[k1][m1]).x - (#[trigger] l[k2][m2]).x < i32::MAX
                    &&& l[k1][m1].y - l[k2][m2].y < i32::MAX
                } by {
                assert(l[k1].len() == 0);
            }
            true
        },
        Some(e) => {
            let ghost (k1, m1) = choose|k: int, m: int| is_point(l, k, m) && (#[trigger] l[k][m]).x == e.max_x;
            let ghost (k2, m2) = choose|k: int, m: int| is_point(l, k, m) && (#[trigger] l[k][m]).x == e.min_x;
            let ghost (k3, m3) = choose|k: int, m: int| is_point(l, k, m) && (#[trigger] l[k][m]).y == e.max_y;
            let ghost (k4, m4) = choose|k: int, m: int| is_point(l, k, m) && (#[trigger] l[k][m]).y == e.min_y;
            let ok = (e.max_x as i64 - e.min_x as i64) < i32::MAX as i64 && (e.max_y as i64 - e.min_y as i64)
                < i32::MAX as i64;
            if !ok {
                assert(!(l[k1][m1].x - l[k2][m2].x < i32::MAX && l[k3][m3].y - l[k4][m4].y < i32::MAX));
            }
            ok
        },
    }
}

impl Region {
    /// Whether hit point `p` lies in the region.
    pub open spec fn holds(self, p: HitPoint) -> bool {
        &&& self.min_x <= p.x < self.min_x + self.width
        &&& self.min_y <= p.y < self.min_y + self.height
    }

    /// Whether hit point `p` lies in the region.
    pub fn contains(&self, p: &HitPoint) -> (r: bool)
        ensures
            r == self.holds(*p),
    {
        self.min_x <= p.x && (p.x as i64) < self.min_x as i64 + self.width as i64 && self.min_y <= p.y
            && (p.y as i64) < self.min_y as i64 + self.height as i64
    }

    /// Where hit point `p` lies in the captured image.
    pub fn offset(&self, p: &HitPoint) -> (r: (i32, i32))
        requires
            self.holds(*p),
        ensures
            r.0 == p.x - self.min_x,
            r.1 == p.y - self.min_y,
    {
        (p.x - self.min_x, p.y - self.min_y)
    }
}

/// The brightness of a pixel value: none for a failed read, else the
/// largest of its red (lowest byte), green and blue channels.
pub open spec fn pixel_value(pixel: u32) -> Option<u8> {
    if pixel == INVALID_PIXEL {
        None
    } else {
        Some(max_u8(max_u8((pixel % 256) as u8, ((pixel / 256) % 256) as u8), ((pixel / 65536) % 256) as u8))
    }
}

pub open spec fn max_u8(a: u8, b: u8) -> u8 {
    if a >= b {
        a
    } else {
        b
    }
}

/// The brightness of a pixel value, as `pixel_value` says.
pub fn pixel_brightness(pixel: u32) -> (b: Option<u8>)
    ensures
        b == pixel_value(pixel),
{
    if pixel == INVALID_PIXEL {
        return None;
    }
    let r = (pixel & 0xFF) as u8;
    let g = ((pixel >> 8) & 0xFF) as u8;
    let b = ((pixel >> 16) & 0xFF) as u8;
    assert(pixel & 0xFF == pixel % 256) by (bit_vector);
    assert((pixel >> 8) & 0xFF == (pixel / 256) % 256) by (bit_vector);
    assert((pixel >> 16) & 0xFF == (pixel / 65536) % 256) by (bit_vector);
    let rg = if r >= g {
        r
    } else {
        g
    };
    Some(if rg >= b {
        rg
    } else {
        b
    })
}

/// The brightest of the readable pixels, 0 when none is readable.
pub open spec fn brightest(pixels: Seq<u32>) -> u8
    decreases pixels.len(),
{
    if pixels.len() == 0 {
        0
    } else {
        match pixel_value(pixels.last()) {
            Some(v) => max_u8(brightest(pixels.drop_last()), v),
            None => brightest(pixels.drop_last()),
        }
    }
}

/// The brightness of a lane: the brightest of its readable pixels.
pub fn lane_brightness(pixels: &Vec<u32>) -> (best: u8)
    ensures
        best == brightest(pixels@),
{
    let mut best: u8 = 0;
    for i in 0..pixels.len()
        invariant
            best == brightest(pixels@.take(i as int)),
    {
        assert(pixels@.take(i + 1).drop_last() =~= pixels@.take(i as int));
        assert(pixels@.take(i + 1).last() == pixels@[i as int]);
        match pixel_brightness(pixels[i]) {
            Some(v) => {
                if v > best {
                    best = v;
                }
            },
            None => {},
        }
    }
    assert(pixels@.take(pixels@.len() as int) =~= pixels@);
    best
}

/// The brightness under each lane, from the pixels read at its hit points.
pub fn get_brightnesses(samples: &[Vec<u32>; 4]) -> (b: [u8; 4])
    ensures
        forall|i: int| 0 <= i < 4 ==> #[trigger] b@[i] == brightest(samples@[i]@),
{
    [
        lane_brightness(&samples[0]),
        lane_brightness(&samples[1]),
        lane_brightness(&samples[2]),
        lane_brightness(&samples[3]),
    ]
}

/// A lane is at least as bright as each of its readable pixels.
pub proof fn lemma_brightest_is_upper_bound(pixels: Seq<u32>, i: int)
    requires
        0 <= i < pixels.len(),
        pixel_value(pixels[i]) is Some,
    ensures
        pixel_value(pixels[i])->0 <= brightest(pixels),
    decreases pixels.len(),
{
    if i < pixels.len() - 1 {
        assert(pixels.drop_last()[i] == pixels[i]);
        lemma_brightest_is_upper_bound(pixels.drop_last(), i);
    }
}

/// A lane's brightness is 0 or that of one of its readable pixels.
pub proof fn lemma_brightest_is_attained(pixels: Seq<u32>)
    ensures
        brightest(pixels) == 0 || exists|i: int|
            0 <= i < pixels.len() && #[trigger] pixel_value(pixels[i]) == Some(brightest(pixels)),
    decreases pixels.len(),
{
    if pixels.len() > 0 {
        let rest = pixels.drop_last();
        lemma_brightest_is_attained(rest);
        if brightest(pixels) != 0 && brightest(pixels) == brightest(rest) {
            let i = choose|i: int| 0 <= i < rest.len() && #[trigger] pixel_value(rest[i]) == Some(brightest(rest));
            assert(pixels[i] == rest[i]);
        } else if brightest(pixels) != 0 {
            assert(pixel_value(pixels[pixels.len() - 1]) == Some(brightest(pixels)));
        }
    }
}

/// A pixel value holds red in its low byte, then green, then blue; its
/// brightness is its brightest channel, whatever its high byte, unless the
/// read failed.
pub proof fn lemma_pixel_brightness_is_brightest_channel(r: u8, g: u8, b: u8, a: u8)
    ensures
        ({
            let p = r + 256 * g + 65536 * b + 16777216 * a;
            &&& p != INVALID_PIXEL ==> pixel_value(p as u32) is Some
            &&& p != INVALID_PIXEL ==> pixel_value(p as u32)->0 >= r && pixel_value(p as u32)->0 >= g
                && pixel_value(p as u32)->0 >= b
            &&& p != INVALID_PIXEL ==> (pixel_value(p as u32)->0 == r || pixel_value(p as u32)->0 == g
                || pixel_value(p as u32)->0 == b)
        }),
{
    let p: int = r + 256 * g + 65536 * b + 16777216 * a;
    let q1: int = g + 256 * b + 65536 * a;
    let q2: int = b + 256 * a;
    assert(p == q1 * 256 + r) by (nonlinear_arith)
        requires
            p == r + 256 * g + 65536 * b + 16777216 * a,
            q1 == g + 256 * b + 65536 * a,
    ;
    assert(q1 == q2 * 256 + g) by (nonlinear_arith)
        requires
            q1 == g + 256 * b + 65536 * a,
            q2 == b + 256 * a,
    ;
    assert(0 <= p < 0x1_0000_0000) by (nonlinear_arith)
        requires
            p == r + 256 * g + 65536 * b + 16777216 * a,
            0 <= r < 256,
            0 <= g < 256,
            0 <= b < 256,
            0 <= a < 256,
    ;
    vstd::arithmetic::div_mod::lemma_fundamental_div_mod_converse(p, 256, q1, r as int);
    vstd::arithmetic::div_mod::lemma_fundamental_div_mod_converse(q1, 256, q2, g as int);
    vstd::arithmetic::div_mod::lemma_fundamental_div_mod_converse(q2, 256, a as int, b as int);
    assert(p / 65536 == q2) by {
        vstd::arithmetic::div_mod::lemma_div_denominator(p, 256, 256);
    }
}

} // verus!
