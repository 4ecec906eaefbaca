use vstd::prelude::*;

use crate::model::{lanes_view, HitPoint};

verus! {

/// The overlay's transparent colour (0x00BBGGRR): pixels of this colour
/// are not shown.
pub const OVERLAY_KEY_COLOR: u32 = 0x00FF_00FF;

/// How far each arm of a hit-point mark reaches from its centre.
pub const MARK_LEN: i32 = 20;

/// How far each arm of a hit-point mark starts from its centre.
pub const MARK_GAP: i32 = 4;

/// A line from `(from_x, from_y)` to `(to_x, to_y)`.
#[derive(Clone, Copy, Debug, PartialEq, Eq)]
pub struct Segment {
    pub from_x: i32,
    pub from_y: i32,
    pub to_x: i32,
    pub to_y: i32,
}

/// A hit point as the overlay draws it: its position and a colour value
/// (0x00BBGGRR).
#[derive(Clone, Copy, Debug, PartialEq, Eq)]
pub struct Mark {
    pub x: i32,
    pub y: i32,
    pub color: u32,
}

/// The colour value of red, green and blue channels.
pub open spec fn rgb_value(color: Seq<u8>) -> int {
    color[0] + color[1] * 256 + color[2] * 65536
}

/// The colour a hit point is drawn in: its own, except that the overlay's
/// transparent colour is nudged by one in its red channel so the mark stays
/// visible.
pub open spec fn mark_color_of(color: Seq<u8>) -> u32 {
    if rgb_value(color) == OVERLAY_KEY_COLOR {
        (OVERLAY_KEY_COLOR - 1) as u32
    } else {
        rgb_value(color) as u32
    }
}

/// The colour value a hit point is drawn in, as `mark_color_of` says.
pub fn mark_color(color: [u8; 3]) -> (c: u32)
    ensures
        c == mark_color_of(color@),
{
    let r = color[0] as u32;
    let g = color[1] as u32;
    let b = color[2] as u32;
    let c = r | (g << 8) | (b << 16);
    assert(r < 256 && g < 256 && b < 256 ==> r | (g << 8) | (b << 16) == r + g * 256 + b * 65536) by (bit_vector);
    if c == OVERLAY_KEY_COLOR {
        assert(c == 0x00FF_00FF ==> c ^ 1 == 0x00FF_00FE) by (bit_vector);
        c ^ 1
    } else {
        c
    }
}

/// A hit point's mark never takes the overlay's transparent colour.
pub proof fn lemma_marks_stay_visible(color: Seq<u8>)
    ensures
        mark_color_of(color) != OVERLAY_KEY_COLOR,
{
}

/// The four arms of the mark of a hit point at `(x, y)`: left, right, up
/// and down, each from `MARK_LEN` to `MARK_GAP` away from the centre.
pub open spec fn crosshair_of(x: int, y: int) -> Seq<Segment> {
    seq![
        Segment { from_x: (x - MARK_LEN) as i32, from_y: y as i32, to_x: (x - MARK_GAP) as i32, to_y: y as i32 },
        Segment { from_x: (x + MARK_GAP) as i32, from_y: y as i32, to_x: (x + MARK_LEN) as i32, to_y: y as i32 },
        Segment { from_x: x as i32, from_y: (y - MARK_LEN) as i32, to_x: x as i32, to_y: (y - MARK_GAP) as i32 },
        Segment { from_x: x as i32, from_y: (y + MARK_GAP) as i32, to_x: x as i32, to_y: (y + MARK_LEN) as i32 },
    ]
}

/// The arms of a mark at `(x, y)` are `i32` coordinates.
pub open spec fn crosshair_in_range(x: int, y: int) -> bool {
    &&& i32::MIN + MARK_LEN <= x <= i32::MAX - MARK_LEN
    &&& i32::MIN + MARK_LEN <= y <= i32::MAX - MARK_LEN
}

/// Whether `crosshair` may be applied at `(x, y)`.
pub fn crosshair_fits(x: i32, y: i32) -> (ok: bool)
    ensures
        ok == crosshair_in_range(x as int, y as int),
{
    i32::MIN + MARK_LEN <= x && x <= i32::MAX - MARK_LEN && i32::MIN + MARK_LEN <= y && y <= i32::MAX
        - MARK_LEN
}

/// The four arms of the mark of a hit point at `(x, y)`.
pub fn crosshair(x: i32, y: i32) -> (arms: [Segment; 4])
    requires
        crosshair_in_range(x as int, y as int),
    ensures
        arms@ == crosshair_of(x as int, y as int),
{
    let arms = [
        Segment { from_x: x - MARK_LEN, from_y: y, to_x: x - MARK_GAP, to_y: y },
        Segment { from_x: x + MARK_GAP, from_y: y, to_x: x + MARK_LEN, to_y: y },
        Segment { from_x: x, from_y: y - MARK_LEN, to_x: x, to_y: y - MARK_GAP },
        Segment { from_x: x, from_y: y + MARK_GAP, to_x: x, to_y: y + MARK_LEN },
    ];
    assert(arms@ =~= crosshair_of(x as int, y as int));
    arms
}

pub open spec fn dist(a: int, b: int) -> int {
    if a >= b {
        a - b
    } else {
        b - a
    }
}

/// Each arm of a mark runs along the row or the column of its centre, and
/// both its ends lie between `MARK_GAP` and `MARK_LEN` from the centre, so
/// the centre pixel itself stays clear.
pub proof fn lemma_crosshair_leaves_centre_free(x: int, y: int, k: int)
    requires
        crosshair_in_range(x, y),
        0 <= k < 4,
    ensures
        ({
            let s = crosshair_of(x, y)[k];
            ||| s.from_y == y && s.to_y == y && MARK_GAP <= dist(s.from_x as int, x) <= MARK_LEN && MARK_GAP <= dist(
                s.to_x as int,
                x,
            ) <= MARK_LEN
            ||| s.from_x == x && s.to_x == x && MARK_GAP <= dist(s.from_y as int, y) <= MARK_LEN && MARK_GAP <= dist(
                s.to_y as int,
                y,
            ) <= MARK_LEN
        }),
{
}

/// The mark of a hit point.
pub open spec fn mark_of(p: HitPoint) -> Mark {
    Mark { x: p.x, y: p.y, color: mark_color_of(p.color@) }
}

/// The marks of lanes `0..n`, lane by lane.
pub open spec fn marks_upto(lanes: Seq<Seq<HitPoint>>, n: nat) -> Seq<Mark>
    decreases n,
{
    if n == 0 {
        seq![]
    } else {
        marks_upto(lanes, (n - 1) as nat) + lanes[n - 1].map_values(|p: HitPoint| mark_of(p))
    }
}

/// What the overlay draws: the marks of all hit points, lane by lane, when
/// hit points are shown; nothing otherwise.
pub fn overlay_marks(lanes: &[Vec<HitPoint>; 4], show: bool) -> (marks: Vec<Mark>)
    ensures
        marks@ == (if show {
            marks_upto(lanes_view(*lanes), 4)
        } else {
            Seq::empty()
        }),
        show ==> marks@.len() == lanes@[0]@.len() + lanes@[1]@.len() + lanes@[2]@.len() + lanes@[3]@.len(),
        show ==> forall|k: int, m: int|
            0 <= k < 4 && 0 <= m < lanes@[k]@.len() ==> marks@[point_index(lanes_view(*lanes), k, m)] == (Mark {
                x: (#[trigger] lanes@[k]@[m]).x,
                y: lanes@[k]@[m].y,
                color: mark_color_of(lanes@[k]@[m].color@),
            }),
        !show ==> marks@.len() == 0,
{
    proof {
        lemma_every_point_marked(lanes_view(*lanes));
        assert forall|k: int| 0 <= k < 4 implies (#[trigger] lanes_view(*lanes)[k]) == lanes@[k]@ by {}
    }
    let mut marks: Vec<Mark> = Vec::new();
    if !show {
        return marks;
    }
    let ghost l = lanes_view(*lanes);
    for k in 0..4
        invariant
            l == lanes_view(*lanes),
            marks@ == marks_upto(l, k as nat),
    {
        let ghost before = marks@;
        assert(l[k as int] == lanes@[k as int]@);
        let n = lanes[k].len();
        for m in 0..n
            invariant
                k < 4,
                n == l[k as int].len(),
                l == lanes_view(*lanes),
                marks@ == before + l[k as int].take(m as int).map_values(|p: HitPoint| mark_of(p)),
        {
            let p = lanes[k][m];
            marks.push(Mark { x: p.x, y: p.y, color: mark_color(p.color) });
            assert(l[k as int].take(m + 1) =~= l[k as int].take(m as int).push(p));
            assert(marks@ =~= before + l[k as int].take(m + 1).map_values(|p: HitPoint| mark_of(p)));
        }
        assert(l[k as int].take(n as int) =~= l[k as int]);
    }
    marks
}

/// Where point `m` of lane `k` stands when the points of the four lanes are
/// listed lane by lane: after all points of the lanes before `k`.
pub open spec fn point_index(l: Seq<Seq<HitPoint>>, k: int, m: int) -> int {
    (if k > 0 {
        l[0].len() as int
    } else {
        0
    }) + (if k > 1 {
        l[1].len() as int
    } else {
        0
    }) + (if k > 2 {
        l[2].len() as int
    } else {
        0
    }) + m
}

proof fn lemma_marks_upto_shape(l: Seq<Seq<HitPoint>>, n: nat)
    requires
        n <= l.len(),
    ensures
        n == 0 ==> marks_upto(l, n).len() == 0,
        n > 0 ==> marks_upto(l, n).len() == marks_upto(l, (n - 1) as nat).len() + l[n - 1].len(),
        n > 0 ==> forall|i: int| 0 <= i < marks_upto(l, (n - 1) as nat).len() ==> marks_upto(l, n)[i] == marks_upto(l, (n - 1) as nat)[i],
        n > 0 ==> forall|m: int|
            0 <= m < l[n - 1].len() ==> marks_upto(l, n)[marks_upto(l, (n - 1) as nat).len() + m] == mark_of(
                #[trigger] l[n - 1][m],
            ),
{
}

/// When hit points are shown, every hit point of every lane gets its mark,
/// at its position and in its colour (nudged only off the transparent
/// colour), lane by lane and point by point, and there are no other marks.
pub proof fn lemma_every_point_marked(l: Seq<Seq<HitPoint>>)
    requires
        l.len() == 4,
    ensures
        marks_upto(l, 4).len() == l[0].len() + l[1].len() + l[2].len() + l[3].len(),
        forall|k: int, m: int|
            0 <= k < 4 && 0 <= m < l[k].len() ==> marks_upto(l, 4)[point_index(l, k, m)] == (Mark {
                x: (#[trigger] l[k][m]).x,
                y: l[k][m].y,
                color: mark_color_of(l[k][m].color@),
            }),
{
    lemma_marks_upto_shape(l, 0);
    lemma_marks_upto_shape(l, 1);
    lemma_marks_upto_shape(l, 2);
    lemma_marks_upto_shape(l, 3);
    lemma_marks_upto_shape(l, 4);
    assert forall|k: int, m: int|
        0 <= k < 4 && 0 <= m < l[k].len() implies marks_upto(l, 4)[point_index(l, k, m)] == (Mark {
            x: (#[trigger] l[k][m]).x,
            y: l[k][m].y,
            color: mark_color_of(l[k][m].color@),
        }) by {
        assert(mark_of(l[k][m]) == (Mark { x: l[k][m].x, y: l[k][m].y, color: mark_color_of(l[k][m].color@) }));
    }
}

/// A mark's colour value holds the point's red, green and blue channels in
/// its low, middle and high bytes, except that the overlay's transparent
/// colour (magenta) is drawn one red step darker.
pub proof fn lemma_mark_color_channels(c: Seq<u8>)
    requires
        c.len() == 3,
    ensures
        !(c[0] == 255 && c[1] == 0 && c[2] == 255) ==> mark_color_of(c) as int == c[0] + 256 * c[1] + 65536 * c[2],
        (c[0] == 255 && c[1] == 0 && c[2] == 255) ==> mark_color_of(c) == 0x00FF_00FEu32,
{
}

/// A mark is a cross centred on its point: arm 0 runs on the point's row
/// to its left and arm 1 mirrors it to the right; arm 2 runs on its column
/// above and arm 3 mirrors it below; every arm reaches from `MARK_GAP` to
/// `MARK_LEN` away from the centre.
pub proof fn lemma_crosshair_is_centred_cross(x: int, y: int)
    requires
        crosshair_in_range(x, y),
    ensures
        ({
            let a = crosshair_of(x, y);
            &&& a.len() == 4
            &&& a[0].from_y == y && a[0].to_y == y && a[1].from_y == y && a[1].to_y == y
            &&& a[2].from_x == x && a[2].to_x == x && a[3].from_x == x && a[3].to_x == x
            &&& a[0].from_x < a[0].to_x < x && x < a[1].from_x < a[1].to_x
            &&& a[2].from_y < a[2].to_y < y && y < a[3].from_y < a[3].to_y
            &&& a[0].from_x + a[1].to_x == 2 * x && a[0].to_x + a[1].from_x == 2 * x
            &&& a[2].from_y + a[3].to_y == 2 * y && a[2].to_y + a[3].from_y == 2 * y
            &&& x - a[0].from_x == MARK_LEN && x - a[0].to_x == MARK_GAP
            &&& y - a[2].from_y == MARK_LEN && y - a[2].to_y == MARK_GAP
        }),
{
}

} // verus!
