use vstd::prelude::*;

use crate::model::{clone_lanes, lanes_view, HitPoint};

verus! {

/// Adds a hit point to lane `lane`: a copy of its last point, 30 pixels
/// higher.
pub fn add_hit_point(lanes: &mut [Vec<HitPoint>; 4], lane: usize)
    requires
        lane < 4,
        old(lanes)@[lane as int]@.len() > 0,
        old(lanes)@[lane as int]@.last().y - 30 >= i32::MIN,
    ensures
        lanes_view(*final(lanes)) == lanes_view(*old(lanes)).update(
            lane as int,
            lanes_view(*old(lanes))[lane as int].push(
                HitPoint {
                    x: old(lanes)@[lane as int]@.last().x,
                    y: (old(lanes)@[lane as int]@.last().y - 30) as i32,
                    color: old(lanes)@[lane as int]@.last().color,
                },
            ),
        ),
{
    let mut v = lanes[lane].clone();
    assert(v@ =~= old(lanes)@[lane as int]@);
    let last = v[v.len() - 1];
    v.push(HitPoint { x: last.x, y: last.y - 30, color: last.color });
    lanes[lane] = v;
    assert(lanes_view(*lanes) =~= lanes_view(*old(lanes)).update(
        lane as int,
        lanes_view(*old(lanes))[lane as int].push(
            HitPoint {
                x: old(lanes)@[lane as int]@.last().x,
                y: (old(lanes)@[lane as int]@.last().y - 30) as i32,
                color: old(lanes)@[lane as int]@.last().color,
            },
        ),
    ));
}

/// Whether the editor offers to remove hit points of lane `lane`: only
/// while it has more than one.
pub fn can_remove(lanes: &[Vec<HitPoint>; 4], lane: usize) -> (r: bool)
    requires
        lane < 4,
    ensures
        r == (lanes@[lane as int]@.len() > 1),
{
    lanes[lane].len() > 1
}

/// Removes hit point `point` of lane `lane`.
pub fn remove_hit_point(lanes: &mut [Vec<HitPoint>; 4], lane: usize, point: usize)
    requires
        lane < 4,
        point < old(lanes)@[lane as int]@.len(),
    ensures
        lanes_view(*final(lanes)) == lanes_view(*old(lanes)).update(
            lane as int,
            lanes_view(*old(lanes))[lane as int].remove(point as int),
        ),
{
    let mut v = lanes[lane].clone();
    assert(v@ =~= old(lanes)@[lane as int]@);
    v.remove(point);
    lanes[lane] = v;
    assert(lanes_view(*lanes) =~= lanes_view(*old(lanes)).update(
        lane as int,
        lanes_view(*old(lanes))[lane as int].remove(point as int),
    ));
}

/// How many points of lane `i` are compared between the edited lanes `l`
/// and the lanes `o` before the edit.
pub open spec fn scan_len(l: Seq<Seq<HitPoint>>, o: Seq<Seq<HitPoint>>, i: int) -> int {
    if l[i].len() <= o[i].len() {
        l[i].len() as int
    } else {
        o[i].len() as int
    }
}

/// Point `j` of lane `i` was moved by the edit, and its lane is linked.
pub open spec fn moved_at(
    l: Seq<Seq<HitPoint>>,
    o: Seq<Seq<HitPoint>>,
    linked: Seq<bool>,
    i: int,
    j: int,
) -> bool {
    &&& 0 <= i < 4
    &&& 0 <= j < scan_len(l, o, i)
    &&& linked[i]
    &&& (l[i][j].x != o[i][j].x || l[i][j].y != o[i][j].y)
}

/// `(i2, j2)` comes before `(i, j)`, lane by lane and point by point.
pub open spec fn before(i2: int, j2: int, i: int, j: int) -> bool {
    i2 < i || (i2 == i && j2 < j)
}

/// No moved point of a linked lane comes before `(i, j)`.
pub open spec fn none_before(
    l: Seq<Seq<HitPoint>>,
    o: Seq<Seq<HitPoint>>,
    linked: Seq<bool>,
    i: int,
    j: int,
) -> bool {
    forall|i2: int, j2: int| before(i2, j2, i, j) ==> !#[trigger] moved_at(l, o, linked, i2, j2)
}

/// `(i, j)` is the first moved point of a linked lane: the one dragged.
pub open spec fn first_move(
    l: Seq<Seq<HitPoint>>,
    o: Seq<Seq<HitPoint>>,
    linked: Seq<bool>,
    i: int,
    j: int,
) -> bool {
    moved_at(l, o, linked, i, j) && none_before(l, o, linked, i, j)
}

/// Some point of a linked lane was dragged.
pub open spec fn dragged(l: Seq<Seq<HitPoint>>, o: Seq<Seq<HitPoint>>, linked: Seq<bool>) -> bool {
    exists|i: int, j: int| first_move(l, o, linked, i, j)
}

/// `p` moved by `(dx, dy)`.
pub open spec fn shift_point(p: HitPoint, dx: int, dy: int) -> HitPoint {
    HitPoint { x: (p.x + dx) as i32, y: (p.y + dy) as i32, color: p.color }
}

/// Every point of every linked lane, but point `j` of lane `i`, moved by
/// `(dx, dy)`.
pub open spec fn shifted(
    l: Seq<Seq<HitPoint>>,
    linked: Seq<bool>,
    i: int,
    j: int,
    dx: int,
    dy: int,
) -> Seq<Seq<HitPoint>> {
    Seq::new(
        l.len(),
        |k: int|
            Seq::new(
                l[k].len(),
                |m: int|
                    if linked[k] && !(k == i && m == j) {
                        shift_point(l[k][m], dx, dy)
                    } else {
                        l[k][m]
                    },
            ),
    )
}

pub open spec fn fits_i32(v: int) -> bool {
    i32::MIN <= v <= i32::MAX
}

/// `p` moved by `(dx, dy)` is still an `i32` position.
pub open spec fn shift_fits_point(p: HitPoint, dx: int, dy: int) -> bool {
    fits_i32(p.x + dx) && fits_i32(p.y + dy)
}

/// `p` differs from `q` by an `i32` offset.
pub open spec fn diff_fits(p: HitPoint, q: HitPoint) -> bool {
    fits_i32(p.x - q.x) && fits_i32(p.y - q.y)
}

/// The linked drag stays within `i32`: every compared point up to the
/// dragged one differs from its old position by an `i32`, and every point
/// that moves along stays an `i32` position.
pub open spec fn drag_fits(l: Seq<Seq<HitPoint>>, o: Seq<Seq<HitPoint>>, linked: Seq<bool>) -> bool {
    &&& forall|i: int, j: int|
        0 <= i < 4 && 0 <= j < scan_len(l, o, i) && #[trigger] none_before(l, o, linked, i, j)
            ==> diff_fits(l[i][j], o[i][j])
    &&& forall|i: int, j: int|
        #[trigger] first_move(l, o, linked, i, j) ==> forall|k: int, m: int|
            0 <= k < 4 && 0 <= m < l[k].len() && linked[k] && !(k == i && m == j) ==> shift_fits_point(#[trigger] l[k][m], l[i][j].x - o[i][j].x, l[i][j].y - o[i][j].y)
}


/// Moves every point of every linked lane but point `j` of lane `i` by
/// `(dx, dy)`.
fn shift_linked(lanes: &mut [Vec<HitPoint>; 4], linked: &[bool; 4], i: usize, j: usize, dx: i32, dy: i32)
    requires
        forall|k: int, m: int|
            0 <= k < 4 && 0 <= m < old(lanes)@[k]@.len() && linked@[k] && !(k == i && m == j) ==> shift_fits_point(#[trigger] old(lanes)@[k]@[m], dx as int, dy as int),
    ensures
        lanes_view(*final(lanes)) == shifted(lanes_view(*old(lanes)), linked@, i as int, j as int, dx as int, dy as int),
{
    let ghost l = lanes_view(*old(lanes));
    let ghost target = shifted(l, linked@, i as int, j as int, dx as int, dy as int);
    for k in 0..4
        invariant
            l == lanes_view(*old(lanes)),
            target == shifted(l, linked@, i as int, j as int, dx as int, dy as int),
            forall|kk: int| 0 <= kk < k ==> #[trigger] lanes@[kk]@ == target[kk],
            forall|kk: int| k <= kk < 4 ==> #[trigger] lanes@[kk] == old(lanes)@[kk],
            forall|kk: int, m: int|
                0 <= kk < 4 && 0 <= m < old(lanes)@[kk]@.len() && linked@[kk] && !(kk == i && m == j) ==> shift_fits_point(#[trigger] old(lanes)@[kk]@[m], dx as int, dy as int),
    {
        if linked[k] {
            let mut v = lanes[k].clone();
            assert(v@ =~= old(lanes)@[k as int]@);
            let n = v.len();
            for m in 0..n
                invariant
                    n == v@.len(),
                    n == old(lanes)@[k as int]@.len(),
                    linked@[k as int],
                    k < 4,
                    forall|mm: int| 0 <= mm < m ==> #[trigger] v@[mm] == target[k as int][mm],
                    forall|mm: int| m <= mm < n ==> #[trigger] v@[mm] == old(lanes)@[k as int]@[mm],
                    target == shifted(l, linked@, i as int, j as int, dx as int, dy as int),
                    l == lanes_view(*old(lanes)),
                    forall|kk: int, mm: int|
                        0 <= kk < 4 && 0 <= mm < old(lanes)@[kk]@.len() && linked@[kk] && !(kk == i && mm == j) ==> shift_fits_point(#[trigger] old(lanes)@[kk]@[mm], dx as int, dy as int),
            {
                if !(k == i && m == j) {
                    let p = v[m];
                    v.set(m, HitPoint { x: p.x + dx, y: p.y + dy, color: p.color });
                }
            }
            assert(v@ =~= target[k as int]);
            lanes[k] = v;
        } else {
            assert(lanes@[k as int]@ =~= target[k as int]);
        }
    }
    assert(lanes_view(*lanes) =~= target);
}

/// After an edit of the hit points (`lanes`, compared with `previous`
/// from before the edit), carries a drag over to the linked lanes: the first
/// moved point of a linked lane, lane by lane and point by point, is the
/// dragged one, and every other point of every linked lane moves by the
/// same offset. Says whether a point was dragged.
pub fn apply_linked_drag(lanes: &mut [Vec<HitPoint>; 4], previous: &[Vec<HitPoint>; 4], linked: &[bool; 4]) -> (was_dragged: bool)
    requires
        drag_fits(lanes_view(*old(lanes)), lanes_view(*previous), linked@),
    ensures
        was_dragged == dragged(lanes_view(*old(lanes)), lanes_view(*previous), linked@),
        was_dragged ==> forall|i: int, j: int|
            #[trigger] first_move(lanes_view(*old(lanes)), lanes_view(*previous), linked@, i, j)
                ==> lanes_view(*final(lanes)) == shifted(
                lanes_view(*old(lanes)),
                linked@,
                i,
                j,
                lanes_view(*old(lanes))[i][j].x - lanes_view(*previous)[i][j].x,
                lanes_view(*old(lanes))[i][j].y - lanes_view(*previous)[i][j].y,
            ),
        !was_dragged ==> lanes_view(*final(lanes)) == lanes_view(*old(lanes)),
{
    let ghost l = lanes_view(*lanes);
    let ghost o = lanes_view(*previous);
    let mut i: usize = 0;
    while i < 4
        invariant
            i <= 4,
            l == lanes_view(*lanes),
            o == lanes_view(*previous),
            *lanes == *old(lanes),
            drag_fits(l, o, linked@),
            none_before(l, o, linked@, i as int, 0),
        decreases 4 - i,
    {
        let n = if lanes[i].len() <= previous[i].len() {
            lanes[i].len()
        } else {
            previous[i].len()
        };
        let mut j: usize = 0;
        while j < n
            invariant
                i < 4,
                j <= n,
                n == scan_len(l, o, i as int),
                l == lanes_view(*lanes),
                o == lanes_view(*previous),
                *lanes == *old(lanes),
                drag_fits(l, o, linked@),
                none_before(l, o, linked@, i as int, j as int),
            decreases n - j,
        {
            assert(l[i as int][j as int] == lanes@[i as int]@[j as int]);
            assert(o[i as int][j as int] == previous@[i as int]@[j as int]);
            let dx = lanes[i][j].x - previous[i][j].x;
            let dy = lanes[i][j].y - previous[i][j].y;
            if !((dx == 0 && dy == 0) || !linked[i]) {
                assert(first_move(l, o, linked@, i as int, j as int));
                assert forall|k: int, m: int|
                    0 <= k < 4 && 0 <= m < old(lanes)@[k]@.len() && linked@[k] && !(k == i && m == j) implies shift_fits_point(#[trigger] old(lanes)@[k]@[m], dx as int, dy as int) by {
                    assert(l[k][m] == old(lanes)@[k]@[m]);
                }
                shift_linked(lanes, linked, i, j, dx, dy);
                assert forall|i2: int, j2: int| #[trigger] first_move(l, o, linked@, i2, j2) implies i2 == i && j2 == j by {
                    if before(i2, j2, i as int, j as int) {
                        assert(!moved_at(l, o, linked@, i2, j2));
                    } else if before(i as int, j as int, i2, j2) {
                        assert(!moved_at(l, o, linked@, i as int, j as int));
                    }
                }
                return true;
            }
            assert(!moved_at(l, o, linked@, i as int, j as int));
            assert forall|i2: int, j2: int| before(i2, j2, i as int, j as int + 1) implies !#[trigger] moved_at(l, o, linked@, i2, j2) by {
                if !(i2 == i && j2 == j) {
                    assert(before(i2, j2, i as int, j as int));
                }
            }
            j = j + 1;
        }
        assert forall|i2: int, j2: int| before(i2, j2, i as int + 1, 0) implies !#[trigger] moved_at(l, o, linked@, i2, j2) by {
            if i2 < i {
                assert(before(i2, j2, i as int, 0));
            } else if i2 == i && j2 < n {
                assert(before(i2, j2, i as int, n as int));
            }
        }
        i = i + 1;
    }
    assert forall|i2: int, j2: int| !#[trigger] first_move(l, o, linked@, i2, j2) by {
        if 0 <= i2 < 4 {
            assert(before(i2, j2, 4, 0));
        }
    }
    false
}


/// Every point of every linked lane but point `j` of lane `i` stays an
/// `i32` position when moved by `(dx, dy)`.
pub open spec fn shift_fits(l: Seq<Seq<HitPoint>>, linked: Seq<bool>, i: int, j: int, dx: int, dy: int) -> bool {
    forall|k: int, m: int|
        0 <= k < 4 && 0 <= m < l[k].len() && linked[k] && !(k == i && m == j) ==> shift_fits_point(#[trigger] l[k][m], dx as int, dy as int)
}

fn check_shift_lane(lane: &Vec<HitPoint>, k: usize, i: usize, j: usize, dx: i64, dy: i64) -> (ok: bool)
    requires
        fits_i32(dx as int),
        fits_i32(dy as int),
    ensures
        ok == forall|m: int|
            0 <= m < lane@.len() && !(k == i && m == j) ==> shift_fits_point(#[trigger] lane@[m], dx as int, dy as int),
{
    let n = lane.len();
    let mut m: usize = 0;
    while m < n
        invariant
            m <= n,
            n == lane@.len(),
            fits_i32(dx as int),
            fits_i32(dy as int),
            forall|mm: int|
                0 <= mm < m && !(k == i && mm == j) ==> shift_fits_point(#[trigger] lane@[mm], dx as int, dy as int),
        decreases n - m,
    {
        if !(k == i && m == j) {
            let p = lane[m];
            let x: i64 = p.x as i64 + dx;
            let y: i64 = p.y as i64 + dy;
            if x < i32::MIN as i64 || x > i32::MAX as i64 || y < i32::MIN as i64 || y > i32::MAX as i64 {
                return false;
            }
        }
        m = m + 1;
    }
    true
}

fn check_shift(lanes: &[Vec<HitPoint>; 4], linked: &[bool; 4], i: usize, j: usize, dx: i64, dy: i64) -> (ok: bool)
    requires
        fits_i32(dx as int),
        fits_i32(dy as int),
    ensures
        ok == shift_fits(lanes_view(*lanes), linked@, i as int, j as int, dx as int, dy as int),
{
    let ghost l = lanes_view(*lanes);
    let mut k: usize = 0;
    while k < 4
        invariant
            k <= 4,
            l == lanes_view(*lanes),
            fits_i32(dx as int),
            fits_i32(dy as int),
            forall|kk: int, m: int|
                0 <= kk < k && 0 <= m < l[kk].len() && linked@[kk] && !(kk == i && m == j) ==> shift_fits_point(#[trigger] l[kk][m], dx as int, dy as int),
        decreases 4 - k,
    {
        assert(l[k as int] == lanes@[k as int]@);
        if linked[k] {
            if !check_shift_lane(&lanes[k], k, i, j, dx, dy) {
                return false;
            }
        }
        assert forall|kk: int, m: int|
            0 <= kk < k + 1 && 0 <= m < l[kk].len() && linked@[kk] && !(kk == i && m == j) implies shift_fits_point(#[trigger] l[kk][m], dx as int, dy as int) by {
            if kk == k {
                assert(l[kk][m] == lanes@[k as int]@[m]);
            }
        }
        k = k + 1;
    }
    true
}

/// Whether `apply_linked_drag` may be applied to these lanes: it says
/// `drag_fits`.
pub fn check_drag_fits(lanes: &[Vec<HitPoint>; 4], previous: &[Vec<HitPoint>; 4], linked: &[bool; 4]) -> (ok: bool)
    ensures
        ok == drag_fits(lanes_view(*lanes), lanes_view(*previous), linked@),
{
    let ghost l = lanes_view(*lanes);
    let ghost o = lanes_view(*previous);
    let mut i: usize = 0;
    while i < 4
        invariant
            i <= 4,
            l == lanes_view(*lanes),
            o == lanes_view(*previous),
            none_before(l, o, linked@, i as int, 0),
            forall|i2: int, j2: int|
                before(i2, j2, i as int, 0) && 0 <= i2 < 4 && 0 <= j2 < scan_len(l, o, i2) ==> diff_fits(#[trigger] l[i2][j2], o[i2][j2]),
        decreases 4 - i,
    {
        let n = if lanes[i].len() <= previous[i].len() {
            lanes[i].len()
        } else {
            previous[i].len()
        };
        let mut j: usize = 0;
        while j < n
            invariant
                i < 4,
                j <= n,
                n == scan_len(l, o, i as int),
                l == lanes_view(*lanes),
                o == lanes_view(*previous),
                none_before(l, o, linked@, i as int, j as int),
                forall|i2: int, j2: int|
                    before(i2, j2, i as int, j as int) && 0 <= i2 < 4 && 0 <= j2 < scan_len(l, o, i2) ==> diff_fits(#[trigger] l[i2][j2], o[i2][j2]),
            decreases n - j,
        {
            assert(l[i as int][j as int] == lanes@[i as int]@[j as int]);
            assert(o[i as int][j as int] == previous@[i as int]@[j as int]);
            let dx: i64 = lanes[i][j].x as i64 - previous[i][j].x as i64;
            let dy: i64 = lanes[i][j].y as i64 - previous[i][j].y as i64;
            if dx < i32::MIN as i64 || dx > i32::MAX as i64 || dy < i32::MIN as i64 || dy > i32::MAX as i64 {
                assert(none_before(l, o, linked@, i as int, j as int));
                return false;
            }
            if (dx != 0 || dy != 0) && linked[i] {
                assert(first_move(l, o, linked@, i as int, j as int));
                let ok = check_shift(lanes, linked, i, j, dx, dy);
                assert forall|i2: int, j2: int| #[trigger] first_move(l, o, linked@, i2, j2) implies i2 == i && j2 == j by {
                    if before(i2, j2, i as int, j as int) {
                        assert(!moved_at(l, o, linked@, i2, j2));
                    } else if before(i as int, j as int, i2, j2) {
                        assert(!moved_at(l, o, linked@, i as int, j as int));
                    }
                }
                assert forall|i2: int, j2: int|
                    0 <= i2 < 4 && 0 <= j2 < scan_len(l, o, i2) && #[trigger] none_before(l, o, linked@, i2, j2) implies
                    diff_fits(l[i2][j2], o[i2][j2]) by {
                    if before(i as int, j as int, i2, j2) {
                        assert(!moved_at(l, o, linked@, i as int, j as int));
                    } else if !(i2 == i && j2 == j) {
                        assert(before(i2, j2, i as int, j as int));
                    }
                }
                return ok;
            }
            assert(!moved_at(l, o, linked@, i as int, j as int));
            assert forall|i2: int, j2: int| before(i2, j2, i as int, j as int + 1) implies !#[trigger] moved_at(l, o, linked@, i2, j2) by {
                if !(i2 == i && j2 == j) {
                    assert(before(i2, j2, i as int, j as int));
                }
            }
            assert forall|i2: int, j2: int|
                before(i2, j2, i as int, j as int + 1) && 0 <= i2 < 4 && 0 <= j2 < scan_len(l, o, i2) implies diff_fits(#[trigger] l[i2][j2], o[i2][j2]) by {
                if !(i2 == i && j2 == j) {
                    assert(before(i2, j2, i as int, j as int));
                }
            }
            j = j + 1;
        }
        assert forall|i2: int, j2: int| before(i2, j2, i as int + 1, 0) implies !#[trigger] moved_at(l, o, linked@, i2, j2) by {
            if i2 < i {
                assert(before(i2, j2, i as int, 0));
            } else if i2 == i && j2 < n {
                assert(before(i2, j2, i as int, n as int));
            }
        }
        assert forall|i2: int, j2: int|
            before(i2, j2, i as int + 1, 0) && 0 <= i2 < 4 && 0 <= j2 < scan_len(l, o, i2) implies diff_fits(#[trigger] l[i2][j2], o[i2][j2]) by {
            assert(before(i2, j2, i as int, n as int));
        }
        i = i + 1;
    }
    assert forall|i2: int, j2: int| !#[trigger] first_move(l, o, linked@, i2, j2) by {
        if 0 <= i2 < 4 {
            assert(before(i2, j2, 4, 0));
        }
    }
    assert forall|i2: int, j2: int|
        0 <= i2 < 4 && 0 <= j2 < scan_len(l, o, i2) && #[trigger] none_before(l, o, linked@, i2, j2) implies
        diff_fits(l[i2][j2], o[i2][j2]) by {
        assert(before(i2, j2, 4, 0));
    }
    true
}

/// A drag moves every linked point that the edit left in place by the
/// dragged point's offset, so it keeps its position relative to the
/// dragged point; the dragged point stays where it was dragged to.
pub proof fn lemma_linked_drag_keeps_shape(
    l: Seq<Seq<HitPoint>>,
    o: Seq<Seq<HitPoint>>,
    linked: Seq<bool>,
    i: int,
    j: int,
    k: int,
    m: int,
)
    requires
        l.len() == 4,
        drag_fits(l, o, linked),
        first_move(l, o, linked, i, j),
        0 <= k < 4,
        0 <= m < scan_len(l, o, k),
        linked[k],
        l[k][m] == o[k][m],
        !(k == i && m == j),
    ensures
        ({
            let n = shifted(l, linked, i, j, l[i][j].x - o[i][j].x, l[i][j].y - o[i][j].y);
            &&& n[i][j] == l[i][j]
            &&& n[k][m].x - n[i][j].x == o[k][m].x - o[i][j].x
            &&& n[k][m].y - n[i][j].y == o[k][m].y - o[i][j].y
        }),
{
    assert(shift_fits_point(l[k][m], l[i][j].x - o[i][j].x, l[i][j].y - o[i][j].y));
}

/// A drag leaves unlinked lanes as they are.
pub proof fn lemma_unlinked_lanes_stay(l: Seq<Seq<HitPoint>>, linked: Seq<bool>, i: int, j: int, dx: int, dy: int, k: int)
    requires
        0 <= k < l.len(),
        !linked[k],
    ensures
        shifted(l, linked, i, j, dx, dy)[k] == l[k],
{
    assert(shifted(l, linked, i, j, dx, dy)[k] =~= l[k]);
}

/// A drag keeps the number of points of every lane.
pub proof fn lemma_shifted_keeps_lengths(l: Seq<Seq<HitPoint>>, linked: Seq<bool>, i: int, j: int, dx: int, dy: int, k: int)
    requires
        0 <= k < l.len(),
    ensures
        shifted(l, linked, i, j, dx, dy).len() == l.len(),
        shifted(l, linked, i, j, dx, dy)[k].len() == l[k].len(),
{
}

/// The point added below the last point of a lane: 30 pixels higher.
pub open spec fn added_point(last: HitPoint) -> HitPoint {
    HitPoint { x: last.x, y: (last.y - 30) as i32, color: last.color }
}

/// The hit points after the edits that the editor collects during a frame:
/// the point added to lane `add`, if any, then the point removed from its
/// lane by `remove`, if any.
pub open spec fn frame_edits(
    l: Seq<Seq<HitPoint>>,
    add: Option<usize>,
    remove: Option<(usize, usize)>,
) -> Seq<Seq<HitPoint>> {
    let a = match add {
        Some(lane) => l.update(lane as int, l[lane as int].push(added_point(l[lane as int].last()))),
        None => l,
    };
    match remove {
        Some((lane, point)) => a.update(lane as int, a[lane as int].remove(point as int)),
        None => a,
    }
}

/// What a frame's edits need: an added point goes below the last point of
/// a lane and stays an `i32` position; a point is removed only from a lane
/// that has more than one (the editor offers removal only then); the drag
/// that follows stays within `i32`.
pub open spec fn frame_fits(
    l: Seq<Seq<HitPoint>>,
    previous: Seq<Seq<HitPoint>>,
    linked: Seq<bool>,
    add: Option<usize>,
    remove: Option<(usize, usize)>,
) -> bool {
    &&& add matches Some(lane) ==> lane < 4 && l[lane as int].len() > 0 && l[lane as int].last().y - 30 >= i32::MIN
    &&& remove matches Some((lane, point)) ==> lane < 4 && l[lane as int].len() > 1 && point < l[lane as int].len()
    &&& drag_fits(frame_edits(l, add, remove), previous, linked)
}

/// Whether `end_frame` may be applied: it says `frame_fits`.
pub fn check_frame(
    lanes: &[Vec<HitPoint>; 4],
    previous: &[Vec<HitPoint>; 4],
    linked: &[bool; 4],
    add: Option<usize>,
    remove: Option<(usize, usize)>,
) -> (ok: bool)
    ensures
        ok == frame_fits(lanes_view(*lanes), lanes_view(*previous), linked@, add, remove),
{
    let ghost l = lanes_view(*lanes);
    if let Some(lane) = add {
        if lane >= 4 || lanes[lane].len() == 0 {
            return false;
        }
        let last = lanes[lane][lanes[lane].len() - 1];
        if last.y < i32::MIN + 30 {
            return false;
        }
    }
    if let Some((lane, point)) = remove {
        if lane >= 4 || lanes[lane].len() <= 1 || point >= lanes[lane].len() {
            return false;
        }
    }
    let mut edited = clone_lanes(lanes);
    assert forall|i: int| 0 <= i < 4 implies (#[trigger] edited@[i])@ == lanes@[i]@ by {
        assert(lanes_view(edited)[i] == lanes_view(*lanes)[i]);
    }
    if let Some(lane) = add {
        add_hit_point(&mut edited, lane);
        assert(lanes_view(edited)[lane as int] == edited@[lane as int]@);
    }
    if let Some((lane, point)) = remove {
        assert(lanes_view(edited)[lane as int] == edited@[lane as int]@);
        remove_hit_point(&mut edited, lane, point);
    }
    assert(lanes_view(edited) =~= frame_edits(l, add, remove));
    check_drag_fits(&edited, previous, linked)
}

/// The end of an editor frame: applies the added and removed point
/// collected while drawing, then carries a drag over to the linked lanes
/// (see `apply_linked_drag`); says whether a point was dragged. No lane
/// that had a point is left without one.
pub fn end_frame(
    lanes: &mut [Vec<HitPoint>; 4],
    previous: &[Vec<HitPoint>; 4],
    linked: &[bool; 4],
    add: Option<usize>,
    remove: Option<(usize, usize)>,
) -> (was_dragged: bool)
    requires
        frame_fits(lanes_view(*old(lanes)), lanes_view(*previous), linked@, add, remove),
    ensures
        was_dragged == dragged(frame_edits(lanes_view(*old(lanes)), add, remove), lanes_view(*previous), linked@),
        was_dragged ==> forall|i: int, j: int|
            #[trigger] first_move(frame_edits(lanes_view(*old(lanes)), add, remove), lanes_view(*previous), linked@, i, j)
                ==> lanes_view(*final(lanes)) == shifted(
                frame_edits(lanes_view(*old(lanes)), add, remove),
                linked@,
                i,
                j,
                frame_edits(lanes_view(*old(lanes)), add, remove)[i][j].x - lanes_view(*previous)[i][j].x,
                frame_edits(lanes_view(*old(lanes)), add, remove)[i][j].y - lanes_view(*previous)[i][j].y,
            ),
        !was_dragged ==> lanes_view(*final(lanes)) == frame_edits(lanes_view(*old(lanes)), add, remove),
        forall|i: int| 0 <= i < 4 && old(lanes)@[i]@.len() >= 1 ==> (#[trigger] final(lanes)@[i])@.len() >= 1,
{
    let ghost l = lanes_view(*lanes);
    let ghost o = lanes_view(*previous);
    if let Some(lane) = add {
        add_hit_point(lanes, lane);
    }
    if let Some((lane, point)) = remove {
        remove_hit_point(lanes, lane, point);
    }
    let ghost e = lanes_view(*lanes);
    assert(e =~= frame_edits(l, add, remove));
    assert forall|i: int| 0 <= i < 4 && l[i].len() >= 1 implies #[trigger] e[i].len() >= 1 by {
        assert(e[i] == lanes@[i]@);
    }
    let was_dragged = apply_linked_drag(lanes, previous, linked);
    proof {
        let f = lanes_view(*lanes);
        assert forall|i: int| 0 <= i < 4 && old(lanes)@[i]@.len() >= 1 implies (#[trigger] lanes@[i])@.len() >= 1 by {
            assert(l[i] == old(lanes)@[i]@);
            assert(f[i] == lanes@[i]@);
            if was_dragged {
                let (a, b) = choose|a: int, b: int| first_move(e, o, linked@, a, b);
                lemma_shifted_keeps_lengths(e, linked@, a, b, e[a][b].x - o[a][b].x, e[a][b].y - o[a][b].y, i);
            }
        }
    }
    was_dragged
}

/// A linked drag only moves points: every lane keeps its number of points
/// and every point keeps its colour; a point of a linked lane other than
/// the dragged one moves by exactly `(dx, dy)` (when that stays an `i32`
/// position), and every other point stays where it is.
pub proof fn lemma_drag_moves_only_positions(
    l: Seq<Seq<HitPoint>>,
    linked: Seq<bool>,
    i: int,
    j: int,
    dx: int,
    dy: int,
    k: int,
    m: int,
)
    requires
        0 <= k < l.len(),
        0 <= m < l[k].len(),
    ensures
        shifted(l, linked, i, j, dx, dy).len() == l.len(),
        shifted(l, linked, i, j, dx, dy)[k].len() == l[k].len(),
        shifted(l, linked, i, j, dx, dy)[k][m].color == l[k][m].color,
        linked[k] && !(k == i && m == j) && fits_i32(l[k][m].x + dx) && fits_i32(l[k][m].y + dy) ==> {
            &&& shifted(l, linked, i, j, dx, dy)[k][m].x == l[k][m].x + dx
            &&& shifted(l, linked, i, j, dx, dy)[k][m].y == l[k][m].y + dy
        },
        !(linked[k] && !(k == i && m == j)) ==> shifted(l, linked, i, j, dx, dy)[k][m] == l[k][m],
{
}

/// The editor's removal of any point of a lane that has more than one is
/// accepted by `frame_fits` whenever the drag check that follows accepts
/// the result: no index of such a lane is refused.
pub proof fn lemma_removal_accepted(
    l: Seq<Seq<HitPoint>>,
    previous: Seq<Seq<HitPoint>>,
    linked: Seq<bool>,
    lane: usize,
    point: usize,
)
    requires
        lane < 4,
        l.len() == 4,
        l[lane as int].len() > 1,
        point < l[lane as int].len(),
        drag_fits(frame_edits(l, None, Some((lane, point))), previous, linked),
    ensures
        frame_fits(l, previous, linked, None, Some((lane, point))),
        frame_edits(l, None, Some((lane, point)))[lane as int].len() == l[lane as int].len() - 1,
        frame_edits(l, None, Some((lane, point)))[lane as int] =~= l[lane as int].subrange(0, point as int)
            + l[lane as int].subrange(point + 1, l[lane as int].len() as int),
{
}

/// The editor's addition below the last point of any non-empty lane is
/// accepted by `frame_fits` whenever the new point is an `i32` position and
/// the drag check that follows accepts the result; the new point copies
/// the last one, 30 pixels higher.
pub proof fn lemma_addition_accepted(
    l: Seq<Seq<HitPoint>>,
    previous: Seq<Seq<HitPoint>>,
    linked: Seq<bool>,
    lane: usize,
)
    requires
        lane < 4,
        l.len() == 4,
        l[lane as int].len() > 0,
        l[lane as int].last().y - 30 >= i32::MIN,
        drag_fits(frame_edits(l, Some(lane), None), previous, linked),
    ensures
        frame_fits(l, previous, linked, Some(lane), None),
        frame_edits(l, Some(lane), None)[lane as int].len() == l[lane as int].len() + 1,
        frame_edits(l, Some(lane), None)[lane as int].last().x == l[lane as int].last().x,
        frame_edits(l, Some(lane), None)[lane as int].last().y == l[lane as int].last().y - 30,
        frame_edits(l, Some(lane), None)[lane as int].last().color == l[lane as int].last().color,
        forall|k: int| 0 <= k < 4 && k != lane ==> #[trigger] frame_edits(l, Some(lane), None)[k] == l[k],
{
}

} // verus!
