//! Replaying a committed sequence into a drawable polyline.
//!
//! The renderer replays the sequence from scratch, collecting the pose
//! after every action, and coalesces any point that stays within a
//! centimetre of the last vertex it kept. The result always begins at
//! the starting position; a caller draws a line through the vertices, a
//! start marker at the first and waypoint markers at the rest.
use crate::action::{Action, Pose};
use crate::robot_state::{replay_pose, RobotState};
use crate::vec::Vec2;
use vstd::prelude::*;

verus! {

/// The coalescing threshold, in nanometres: a centimetre. A replayed
/// point closer than this to the last kept vertex is dropped.
pub const POINT_EPSILON: i64 = 10_000_000;

/// Whether two points are strictly more than the threshold apart. The
/// squared distances are exact integers, so this is the true Euclidean
/// comparison, with no rounding anywhere.
pub open spec fn far_apart(a: Vec2, b: Vec2) -> bool {
    let dx = b.x - a.x;
    let dy = b.y - a.y;
    dx * dx + dy * dy > (POINT_EPSILON as int) * (POINT_EPSILON as int)
}

/// `far_apart`, decided on machine integers of any magnitude: a square
/// already over the threshold decides early, so nothing overflows.
pub fn is_far(a: Vec2, b: Vec2) -> (r: bool)
    ensures
        r == far_apart(a, b),
{
    let dx: i128 = b.x as i128 - a.x as i128;
    let dy: i128 = b.y as i128 - a.y as i128;
    let udx: u128 = if dx < 0 {
        (-dx) as u128
    } else {
        dx as u128
    };
    let udy: u128 = if dy < 0 {
        (-dy) as u128
    } else {
        dy as u128
    };
    assert((udx as int) * (udx as int) == (dx as int) * (dx as int) && (udx as int) * (udx as int)
        <= 0xFFFF_FFFF_FFFF_FFFF * 0xFFFF_FFFF_FFFF_FFFF) by (nonlinear_arith)
        requires
            0 <= udx as int <= 0xFFFF_FFFF_FFFF_FFFF,
            udx as int == dx as int || udx as int == -(dx as int),
    ;
    assert((udy as int) * (udy as int) == (dy as int) * (dy as int) && (udy as int) * (udy as int)
        <= 0xFFFF_FFFF_FFFF_FFFF * 0xFFFF_FFFF_FFFF_FFFF) by (nonlinear_arith)
        requires
            0 <= udy as int <= 0xFFFF_FFFF_FFFF_FFFF,
            udy as int == dy as int || udy as int == -(dy as int),
    ;
    let dx2: u128 = udx * udx;
    let dy2: u128 = udy * udy;
    let e: u128 = POINT_EPSILON as u128;
    assert(e == 10_000_000);
    let eps2: u128 = e * e;
    if dx2 > eps2 || dy2 > eps2 {
        true
    } else {
        dx2 + dy2 > eps2
    }
}

/// The vertices kept after `last`, walking `rest` in order: a point is
/// kept exactly when it is far from the vertex kept most recently.
pub open spec fn simplify_from(last: Vec2, rest: Seq<Vec2>) -> Seq<Vec2>
    decreases rest.len(),
{
    if rest.len() == 0 {
        Seq::empty()
    } else if far_apart(last, rest[0]) {
        seq![rest[0]] + simplify_from(rest[0], rest.drop_first())
    } else {
        simplify_from(last, rest.drop_first())
    }
}

/// The simplified polyline: the first point always stays, and each later
/// point stays exactly when it is far from the last point kept.
pub open spec fn simplify_spec(pts: Seq<Vec2>) -> Seq<Vec2> {
    if pts.len() == 0 {
        Seq::empty()
    } else {
        seq![pts[0]] + simplify_from(pts[0], pts.drop_first())
    }
}

/// The vertex a walk of `rest` after `last` most recently kept.
pub open spec fn kept_last(last: Vec2, rest: Seq<Vec2>) -> Vec2 {
    if simplify_from(last, rest).len() == 0 {
        last
    } else {
        simplify_from(last, rest).last()
    }
}

/// Walking one more point keeps it exactly when it is far from the
/// vertex kept most recently — the streaming step the renderer takes.
proof fn lemma_simplify_push(last: Vec2, rest: Seq<Vec2>, p: Vec2)
    ensures
        simplify_from(last, rest.push(p)) == if far_apart(kept_last(last, rest), p) {
            simplify_from(last, rest).push(p)
        } else {
            simplify_from(last, rest)
        },
    decreases rest.len(),
{
    if rest.len() == 0 {
        assert(rest.push(p) =~= seq![p]);
        assert(rest.push(p).drop_first() =~= Seq::<Vec2>::empty());
        if far_apart(last, p) {
            assert(simplify_from(p, Seq::<Vec2>::empty()) =~= Seq::<Vec2>::empty());
            assert(simplify_from(last, rest.push(p)) == seq![p] + simplify_from(
                p,
                rest.push(p).drop_first(),
            ));
            assert(simplify_from(last, rest.push(p)) =~= simplify_from(last, rest).push(p));
        } else {
            assert(simplify_from(last, rest) =~= Seq::<Vec2>::empty());
            assert(simplify_from(last, rest.push(p)) == simplify_from(
                last,
                rest.push(p).drop_first(),
            ));
            assert(simplify_from(last, rest.push(p)) =~= Seq::<Vec2>::empty());
        }
    } else {
        assert(rest.push(p)[0] == rest[0]);
        assert(rest.push(p).drop_first() =~= rest.drop_first().push(p));
        lemma_simplify_push(rest[0], rest.drop_first(), p);
        lemma_simplify_push(last, rest.drop_first(), p);
        if far_apart(last, rest[0]) {
            assert(kept_last(last, rest) == kept_last(rest[0], rest.drop_first()));
            if far_apart(kept_last(rest[0], rest.drop_first()), p) {
                assert(simplify_from(last, rest.push(p)) =~= simplify_from(last, rest).push(p));
            } else {
                assert(simplify_from(last, rest.push(p)) =~= simplify_from(last, rest));
            }
        } else {
            assert(kept_last(last, rest) == kept_last(last, rest.drop_first()));
            if far_apart(kept_last(last, rest.drop_first()), p) {
                assert(simplify_from(last, rest.push(p)) =~= simplify_from(last, rest).push(p));
            } else {
                assert(simplify_from(last, rest.push(p)) =~= simplify_from(last, rest));
            }
        }
    }
}

/// No two consecutive vertices of a simplified polyline are within the
/// threshold of one another.
pub open spec fn spaced(v: Seq<Vec2>) -> bool {
    forall|i: int| 0 <= i && i + 1 < v.len() ==> far_apart(v[i], #[trigger] v[i + 1])
}

proof fn lemma_simplify_from_spaced(last: Vec2, rest: Seq<Vec2>)
    ensures
        spaced(seq![last] + simplify_from(last, rest)),
    decreases rest.len(),
{
    if rest.len() == 0 {
        assert(spaced(seq![last] + simplify_from(last, rest)));
    } else if far_apart(last, rest[0]) {
        lemma_simplify_from_spaced(rest[0], rest.drop_first());
        let tail = seq![rest[0]] + simplify_from(rest[0], rest.drop_first());
        let whole = seq![last] + simplify_from(last, rest);
        assert(whole =~= seq![last] + tail);
        assert forall|i: int| 0 <= i && i + 1 < whole.len() implies far_apart(
            whole[i],
            #[trigger] whole[i + 1],
        ) by {
            if i == 0 {
                assert(whole[0] == last && whole[1] == rest[0]);
            } else {
                let j = i - 1;
                assert(whole[i] == tail[j] && whole[i + 1] == tail[j + 1]);
                assert(far_apart(tail[j], tail[j + 1]));
            }
        }
    } else {
        lemma_simplify_from_spaced(last, rest.drop_first());
        assert(seq![last] + simplify_from(last, rest) =~= seq![last] + simplify_from(
            last,
            rest.drop_first(),
        ));
    }
}

/// What simplification promises: the polyline of a non-empty trace is
/// non-empty, starts where the trace starts, and never keeps two
/// consecutive vertices within the threshold. Being a function of the
/// trace alone, it is deterministic by construction.
pub proof fn lemma_simplify_well_formed(pts: Seq<Vec2>)
    ensures
        pts.len() > 0 ==> simplify_spec(pts).len() >= 1,
        pts.len() > 0 ==> simplify_spec(pts)[0] == pts[0],
        spaced(simplify_spec(pts)),
{
    if pts.len() > 0 {
        lemma_simplify_from_spaced(pts[0], pts.drop_first());
        assert(seq![pts[0]] + simplify_from(pts[0], pts.drop_first()) =~= simplify_spec(pts));
    }
}

/// The position after each prefix of the sequence: what the renderer
/// plots before coalescing.
pub open spec fn pose_trace(s: Seq<Action>) -> Seq<Vec2> {
    Seq::new(s.len(), |i: int| replay_pose(s.take(i + 1)).pos)
}

/// One-pass simplification of a point list, exactly `simplify_spec`.
pub fn simplify(points: &Vec<Vec2>) -> (r: Vec<Vec2>)
    ensures
        r@ == simplify_spec(points@),
{
    let mut out: Vec<Vec2> = Vec::new();
    let n: usize = points.len();
    let mut i: usize = 0;
    proof {
        assert(points@.take(0) =~= Seq::<Vec2>::empty());
    }
    while i < n
        invariant
            n == points@.len(),
            0 <= i <= n,
            out@ == simplify_spec(points@.take(i as int)),
            i > 0 ==> out@.len() >= 1 && out@.last() == kept_last(
                points@.take(i as int)[0],
                points@.take(i as int).drop_first(),
            ),
        decreases n - i,
    {
        let p: Vec2 = points[i];
        proof {
            assert(points@.take(i as int + 1) =~= points@.take(i as int).push(points@[i as int]));
        }
        if i == 0 {
            out.push(p);
            proof {
                let one = points@.take(1);
                assert(one[0] == points@[0]);
                assert(one.drop_first() =~= Seq::<Vec2>::empty());
                assert(simplify_spec(one) =~= seq![points@[0]]);
            }
        } else {
            let last: Vec2 = out[out.len() - 1];
            proof {
                let prefix = points@.take(i as int);
                lemma_simplify_push(prefix[0], prefix.drop_first(), points@[i as int]);
                assert(points@.take(i as int + 1)[0] == prefix[0]);
                assert(points@.take(i as int + 1).drop_first() =~= prefix.drop_first().push(
                    points@[i as int],
                ));
            }
            if is_far(last, p) {
                out.push(p);
            }
            proof {
                let prefix = points@.take(i as int);
                let next = points@.take(i as int + 1);
                assert(simplify_spec(next) =~= seq![next[0]] + simplify_from(
                    next[0],
                    next.drop_first(),
                ));
                if far_apart(kept_last(prefix[0], prefix.drop_first()), points@[i as int]) {
                    assert(out@ =~= simplify_spec(prefix).push(points@[i as int]));
                    assert(simplify_spec(next) =~= simplify_spec(prefix).push(
                        points@[i as int],
                    ));
                } else {
                    assert(simplify_spec(next) =~= simplify_spec(prefix));
                }
            }
        }
        i = i + 1;
    }
    proof {
        assert(points@.take(n as int) =~= points@);
    }
    out
}

impl RobotState {
    /// The drawable polyline of the committed sequence: the pose after
    /// every action, replayed from scratch and coalesced. Empty exactly
    /// when nothing is committed; otherwise it starts at the starting
    /// position.
    pub fn render(&self) -> (r: Vec<Vec2>)
        requires
            self.wf(),
        ensures
            r@ == simplify_spec(pose_trace(self.committed())),
    {
        let acts: &Vec<Action> = self.actions();
        let n: usize = acts.len();
        let mut pos: Vec2 = Vec2 { x: 0, y: 0 };
        let mut heading: i64 = 0;
        let mut trace: Vec<Vec2> = Vec::new();
        let mut i: usize = 0;
        while i < n
            invariant
                n == acts@.len(),
                acts@ == self.committed(),
                self.wf(),
                0 <= i <= n,
                (Pose { pos, heading }) == replay_pose(acts@.take(i as int)),
                trace@ =~= pose_trace(acts@).take(i as int),
            decreases n - i,
        {
            proof {
                assert(acts@.take(i as int + 1).drop_last() =~= acts@.take(i as int));
                assert(acts@.take(i as int + 1).last() == acts@[i as int]);
            }
            let a: Action = acts[i];
            a.modify_position(&mut pos, &mut heading);
            trace.push(pos);
            i = i + 1;
        }
        proof {
            assert(pose_trace(acts@).take(n as int) =~= pose_trace(acts@));
        }
        simplify(&trace)
    }
}

} // verus!
