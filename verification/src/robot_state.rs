//! The committed action sequence and its derived pose.
//!
//! A `RobotState` owns the actions accepted so far, in execution order,
//! together with the pose they lead to. Candidates pass the admission
//! check before anything changes: a sequence starts with exactly one
//! `StartAt`, and every pose it ever reaches stays strictly inside the
//! field. Committing is atomic — a rejected action leaves the state
//! untouched — and undo works by truncating and replaying from scratch,
//! which needs no inverse for any action.
use crate::action::{advanced, advanced_fits, advanced_pose, origin_spec, Action, Pose};
use crate::error::ActionCreationError;
use crate::vec::Vec2;
use vstd::prelude::*;

verus! {

/// Half the field's side, in nanometres: 1.8288 metres, the twelve-foot
/// square field. The bound is exclusive — a coordinate of exactly this
/// magnitude is already out.
pub const FIELD_HALF_WIDTH: i64 = 1_828_800_000;

/// Whether raw candidate coordinates lie strictly inside the field.
pub open spec fn coords_in_bounds(x: int, y: int) -> bool {
    &&& -(FIELD_HALF_WIDTH as int) < x < FIELD_HALF_WIDTH as int
    &&& -(FIELD_HALF_WIDTH as int) < y < FIELD_HALF_WIDTH as int
}

/// Whether a stored position lies strictly inside the field.
pub open spec fn in_bounds(v: Vec2) -> bool {
    coords_in_bounds(v.x as int, v.y as int)
}

/// The first action, and only the first, sets the starting pose.
pub open spec fn start_discipline(s: Seq<Action>) -> bool {
    forall|i: int| 0 <= i < s.len() ==> ((#[trigger] s[i]) is StartAt <==> i == 0)
}

/// The pose reached by replaying `s` from scratch: the origin, advanced
/// by every action in order.
pub open spec fn replay_pose(s: Seq<Action>) -> Pose
    decreases s.len(),
{
    if s.len() == 0 {
        origin_spec()
    } else {
        advanced_pose(replay_pose(s.drop_last()), s.last())
    }
}

/// Every step of the replay stays within the coordinate width, so
/// narrowing a replayed pose back to machine integers loses nothing.
pub open spec fn steps_fit(s: Seq<Action>) -> bool {
    forall|i: int| 0 <= i < s.len() ==> advanced_fits(replay_pose(#[trigger] s.take(i)), s[i])
}

/// Replaying any non-empty prefix lands strictly inside the field.
pub open spec fn prefixes_in_bounds(s: Seq<Action>) -> bool {
    forall|i: int| 0 < i <= s.len() ==> in_bounds(replay_pose(#[trigger] s.take(i)).pos)
}

/// The admission verdict for a candidate, before anything mutates: the
/// start-once rule first, then the field bound on the pose the candidate
/// would lead to. Turns never move, so they never fail the bound.
pub open spec fn admission(committed: Seq<Action>, pose: Pose, a: Action) -> Result<
    (),
    ActionCreationError,
> {
    if committed.len() == 0 && !(a is StartAt) {
        Err(ActionCreationError::MissingStart)
    } else if committed.len() > 0 && a is StartAt {
        Err(ActionCreationError::DuplicateStart)
    } else {
        match a {
            Action::TurnRel { .. } | Action::TurnRelAbs { .. } | Action::TurnTo { .. } => Ok(()),
            _ => {
                let t = advanced(pose, a);
                if !coords_in_bounds(t.0, t.1) {
                    Err(ActionCreationError::OutOfBounds)
                } else {
                    Ok(())
                }
            },
        }
    }
}

/// The committed sequence and the pose it derives.
pub struct RobotState {
    actions: Vec<Action>,
    pos: Vec2,
    heading: i64,
}

impl RobotState {
    /// The committed sequence, as the contracts speak of it.
    pub closed spec fn committed(self) -> Seq<Action> {
        self.actions@
    }

    /// The derived pose the state carries.
    pub closed spec fn pose(self) -> Pose {
        Pose { pos: self.pos, heading: self.heading }
    }

    /// What every reachable state satisfies: the start discipline, the
    /// field bound on every prefix, and a carried pose that equals the
    /// replay of the whole sequence.
    pub open spec fn wf(self) -> bool {
        &&& start_discipline(self.committed())
        &&& steps_fit(self.committed())
        &&& prefixes_in_bounds(self.committed())
        &&& self.pose() == replay_pose(self.committed())
    }

    /// The admission verdict this state gives a candidate.
    pub open spec fn verdict(self, a: Action) -> Result<(), ActionCreationError> {
        admission(self.committed(), self.pose(), a)
    }

    /// An empty state: nothing committed, the pose at the origin.
    pub fn new() -> (r: RobotState)
        ensures
            r.wf(),
            r.committed() =~= Seq::<Action>::empty(),
            r.pose() == origin_spec(),
    {
        RobotState { actions: Vec::new(), pos: Vec2 { x: 0, y: 0 }, heading: 0 }
    }

    /// The committed actions, in execution order.
    pub fn actions(&self) -> (r: &Vec<Action>)
        ensures
            r@ == self.committed(),
    {
        &self.actions
    }

    /// The current derived position, in nanometres.
    pub fn position(&self) -> (r: Vec2)
        ensures
            r == self.pose().pos,
    {
        self.pos
    }

    /// The current derived heading, in nanoradians.
    pub fn heading(&self) -> (r: i64)
        ensures
            r == self.pose().heading,
    {
        self.heading
    }

    /// The coordinates the candidate would lead to, kept wide so that no
    /// admission decision ever truncates.
    fn candidate_coords(&self, action: &Action) -> (r: (i128, i128))
        ensures
            r.0 == advanced(self.pose(), *action).0,
            r.1 == advanced(self.pose(), *action).1,
    {
        match action {
            Action::StartAt { pos, .. } => (pos.x as i128, pos.y as i128),
            Action::MoveRel { rel } | Action::MoveRelAbs { rel } => {
                let c: i64 = crate::trig::cos_nano(self.heading);
                let s: i64 = crate::trig::sin_nano(self.heading);
                let dx: i128 = crate::fixed::scaled_product(c as i128, *rel as i128);
                let dy: i128 = crate::fixed::scaled_product(s as i128, *rel as i128);
                (self.pos.x as i128 + dx, self.pos.y as i128 + dy)
            },
            Action::MoveTo { pos } => (pos.x as i128, pos.y as i128),
            Action::TurnRel { .. } | Action::TurnRelAbs { .. } | Action::TurnTo { .. } => (
                self.pos.x as i128,
                self.pos.y as i128,
            ),
        }
    }

    /// The admission check alone: pure, deterministic, and free of any
    /// mutation — the same pair of state and candidate always gets the
    /// same verdict.
    pub fn is_valid_next(&self, action: &Action) -> (r: Result<(), ActionCreationError>)
        ensures
            r == self.verdict(*action),
    {
        if self.actions.len() == 0 && !matches!(action, Action::StartAt { .. }) {
            return Err(ActionCreationError::MissingStart);
        }
        if self.actions.len() > 0 && matches!(action, Action::StartAt { .. }) {
            return Err(ActionCreationError::DuplicateStart);
        }
        match action {
            Action::TurnRel { .. } | Action::TurnRelAbs { .. } | Action::TurnTo { .. } => Ok(()),
            _ => {
                let (nx, ny): (i128, i128) = self.candidate_coords(action);
                if nx <= -(FIELD_HALF_WIDTH as i128) || nx >= FIELD_HALF_WIDTH as i128 || ny <= -(
                FIELD_HALF_WIDTH as i128) || ny >= FIELD_HALF_WIDTH as i128 {
                    Err(ActionCreationError::OutOfBounds)
                } else {
                    Ok(())
                }
            },
        }
    }

    /// Commit a candidate atomically: on success the action is appended
    /// and the pose advanced; on any rejection the state is exactly what
    /// it was.
    pub fn try_action(&mut self, action: Action) -> (r: Result<(), ActionCreationError>)
        requires
            old(self).wf(),
        ensures
            final(self).wf(),
            r == old(self).verdict(action),
            r is Err ==> *final(self) == *old(self),
            r is Ok ==> final(self).committed() == old(self).committed().push(action),
            r is Ok ==> final(self).pose() == advanced_pose(old(self).pose(), action),
    {
        match self.is_valid_next(&action) {
            Err(e) => Err(e),
            Ok(()) => {
                proof {
                    lemma_ok_verdict_fits(self.actions@, self.pose(), action);
                }
                let ghost old_state = *self;
                let mut pos: Vec2 = self.pos;
                let mut heading: i64 = self.heading;
                action.modify_position(&mut pos, &mut heading);
                self.pos = pos;
                self.heading = heading;
                self.actions.push(action);
                proof {
                    lemma_commit_preserves_wf(old_state, *self, action);
                }
                Ok(())
            },
        }
    }

    /// Drop the last committed action, if any, and recompute the pose by
    /// replaying what is left from scratch. Replaying sidesteps inverse
    /// transitions, which `MoveTo`'s bearing update does not have.
    pub fn remove_last(&mut self)
        requires
            old(self).wf(),
        ensures
            final(self).wf(),
            old(self).committed().len() == 0 ==> *final(self) == *old(self),
            old(self).committed().len() > 0 ==> final(self).committed() == old(self).committed().drop_last(),
    {
        if self.actions.len() == 0 {
            return ;
        }
        let ghost old_seq = self.actions@;
        let _ = self.actions.pop();
        proof {
            assert(self.actions@ =~= old_seq.drop_last());
            lemma_truncate_preserves_invariants(old_seq);
        }
        let mut pos: Vec2 = Vec2 { x: 0, y: 0 };
        let mut heading: i64 = 0;
        let n: usize = self.actions.len();
        let mut i: usize = 0;
        while i < n
            invariant
                n == self.actions@.len(),
                0 <= i <= n,
                start_discipline(self.actions@),
                steps_fit(self.actions@),
                prefixes_in_bounds(self.actions@),
                (Pose { pos, heading }) == replay_pose(self.actions@.take(i as int)),
            decreases n - i,
        {
            proof {
                assert(self.actions@.take(i as int + 1).drop_last() =~= self.actions@.take(
                    i as int,
                ));
                assert(self.actions@.take(i as int + 1).last() == self.actions@[i as int]);
            }
            let a: Action = self.actions[i];
            a.modify_position(&mut pos, &mut heading);
            i = i + 1;
        }
        proof {
            assert(self.actions@.take(n as int) =~= self.actions@);
        }
        self.pos = pos;
        self.heading = heading;
    }

    /// Seed a state by committing each action in order, silently letting
    /// rejected ones fall away, as bulk loading always has.
    pub fn from_actions(actions: Vec<Action>) -> (r: RobotState)
        ensures
            r.wf(),
            r.committed() == seeded(actions@).0,
            r.pose() == seeded(actions@).1,
    {
        let mut r = RobotState::new();
        let n: usize = actions.len();
        let mut i: usize = 0;
        proof {
            assert(actions@.take(0) =~= Seq::<Action>::empty());
        }
        while i < n
            invariant
                r.wf(),
                n == actions@.len(),
                0 <= i <= n,
                r.actions@ == seeded(actions@.take(i as int)).0,
                r.pose() == seeded(actions@.take(i as int)).1,
            decreases n - i,
        {
            proof {
                assert(actions@.take(i as int + 1).drop_last() =~= actions@.take(i as int));
                assert(actions@.take(i as int + 1).last() == actions@[i as int]);
            }
            let a: Action = actions[i];
            let _ = r.try_action(a);
            i = i + 1;
        }
        proof {
            assert(actions@.take(n as int) =~= actions@);
        }
        r
    }

    /// Seed a state, failing loudly: commit each action in order and, on
    /// the first rejection, return its index and error instead of a
    /// state.
    pub fn try_from_actions(actions: Vec<Action>) -> (r: Result<
        RobotState,
        (usize, ActionCreationError),
    >)
        ensures
            r matches Ok(state) ==> state.wf() && state.committed() == actions@
                && first_rejection(actions@) is None,
            r matches Err(p) ==> first_rejection(actions@) == Some((p.0 as int, p.1)),
    {
        let mut state = RobotState::new();
        let n: usize = actions.len();
        let mut i: usize = 0;
        proof {
            assert(actions@.take(0) =~= Seq::<Action>::empty());
        }
        while i < n
            invariant
                state.wf(),
                n == actions@.len(),
                0 <= i <= n,
                state.actions@ == actions@.take(i as int),
                state.pose() == replay_pose(actions@.take(i as int)),
                first_rejection(actions@.take(i as int)) is None,
            decreases n - i,
        {
            proof {
                assert(actions@.take(i as int + 1).drop_last() =~= actions@.take(i as int));
                assert(actions@.take(i as int + 1).last() == actions@[i as int]);
            }
            let a: Action = actions[i];
            match state.try_action(a) {
                Ok(()) => {
                    i = i + 1;
                },
                Err(e) => {
                    proof {
                        assert(first_rejection(actions@.take(i as int + 1)) == Some((
                            i as int,
                            e,
                        )));
                        lemma_first_rejection_extends(actions@, i as int + 1);
                    }
                    return Err((i, e));
                },
            }
        }
        proof {
            assert(actions@.take(n as int) =~= actions@);
        }
        Ok(state)
    }
}

/// The first action the seeding admission rejects, with its error, or
/// nothing when the whole sequence commits cleanly.
pub open spec fn first_rejection(s: Seq<Action>) -> Option<(int, ActionCreationError)>
    decreases s.len(),
{
    if s.len() == 0 {
        Option::None
    } else {
        match first_rejection(s.drop_last()) {
            Some(p) => Some(p),
            Option::None => match admission(
                s.drop_last(),
                replay_pose(s.drop_last()),
                s.last(),
            ) {
                Ok(()) => Option::None,
                Err(e) => Some((s.len() - 1, e)),
            },
        }
    }
}

/// A rejection already found in a prefix stands for the whole sequence.
proof fn lemma_first_rejection_extends(s: Seq<Action>, i: int)
    requires
        0 <= i <= s.len(),
        first_rejection(s.take(i)) is Some,
    ensures
        first_rejection(s) == first_rejection(s.take(i)),
    decreases s.len() - i,
{
    if i < s.len() {
        assert(s.take(i + 1).drop_last() =~= s.take(i));
        lemma_first_rejection_extends(s, i + 1);
    } else {
        assert(s.take(i) =~= s);
    }
}

/// What seeding computes: each action of `s` in order, committed when the
/// admission check at that moment allows it, dropped when it does not.
pub open spec fn seeded(s: Seq<Action>) -> (Seq<Action>, Pose)
    decreases s.len(),
{
    if s.len() == 0 {
        (Seq::empty(), origin_spec())
    } else {
        let prev = seeded(s.drop_last());
        if admission(prev.0, prev.1, s.last()) is Ok {
            (prev.0.push(s.last()), advanced_pose(prev.1, s.last()))
        } else {
            prev
        }
    }
}

/// The invariant laws, spelled out: a well-formed state's committed
/// sequence opens with exactly one `StartAt` and with nothing else, and
/// replaying any of its non-empty prefixes lands strictly inside the
/// field.
pub proof fn lemma_state_invariants(s: RobotState)
    requires
        s.wf(),
    ensures
        start_discipline(s.committed()),
        prefixes_in_bounds(s.committed()),
        s.pose() == replay_pose(s.committed()),
{
}

/// The derived pose is a function of the committed sequence alone: two
/// well-formed states with the same actions carry the same pose. In
/// particular, truncating the last action and replaying gives exactly
/// the pose of committing the shorter sequence from scratch.
pub proof fn lemma_pose_determined_by_actions(a: RobotState, b: RobotState)
    requires
        a.wf(),
        b.wf(),
        a.committed() == b.committed(),
    ensures
        a.pose() == b.pose(),
{
}

/// An accepted verdict means the advanced pose fits the coordinate
/// width: either the bound check passed, or the action was a turn and
/// the position, already stored in machine width, did not move.
proof fn lemma_ok_verdict_fits(committed: Seq<Action>, pose: Pose, a: Action)
    requires
        admission(committed, pose, a) is Ok,
    ensures
        advanced_fits(pose, a),
{
}

/// Committing an admitted action preserves every part of
/// well-formedness.
proof fn lemma_commit_preserves_wf(pre: RobotState, post: RobotState, a: Action)
    requires
        pre.wf(),
        pre.verdict(a) is Ok,
        post.committed() == pre.committed().push(a),
        post.pose() == advanced_pose(pre.pose(), a),
    ensures
        post.wf(),
{
    let s = pre.committed();
    let t = post.committed();
    assert(t.drop_last() =~= s);
    assert(t.last() == a);
    assert forall|i: int| 0 <= i < t.len() implies ((#[trigger] t[i]) is StartAt <==> i == 0) by {
        if i < s.len() {
            assert(t[i] == s[i]);
            assert(s[i] is StartAt <==> i == 0);
        } else {
            assert(t[i] == a);
            assert(s.len() > 0 ==> !(a is StartAt));
            assert(s.len() == 0 ==> a is StartAt);
        }
    }
    assert(replay_pose(t) == advanced_pose(replay_pose(s), a));
    assert(advanced_fits(pre.pose(), a)) by {
        lemma_ok_verdict_fits(s, pre.pose(), a);
    }
    assert forall|i: int| 0 <= i < t.len() implies advanced_fits(
        replay_pose(#[trigger] t.take(i)),
        t[i],
    ) by {
        if i < s.len() {
            assert(t.take(i) =~= s.take(i));
            assert(advanced_fits(replay_pose(s.take(i)), s[i]));
            assert(t[i] == s[i]);
        } else {
            assert(t.take(i) =~= s);
            assert(replay_pose(t.take(i)) == pre.pose());
            assert(t[i] == a);
        }
    }
    assert forall|i: int| 0 < i <= t.len() implies in_bounds(
        replay_pose(#[trigger] t.take(i)).pos,
    ) by {
        if i <= s.len() {
            assert(t.take(i) =~= s.take(i));
            if i < s.len() || s.len() > 0 {
                assert(in_bounds(replay_pose(s.take(i)).pos));
            }
        } else {
            assert(t.take(i) =~= t);
            assert(replay_pose(t) == advanced_pose(pre.pose(), a));
            match a {
                Action::TurnRel { .. } | Action::TurnRelAbs { .. } | Action::TurnTo { .. } => {
                    assert(s.len() > 0);
                    assert(s.take(s.len() as int) =~= s);
                    assert(in_bounds(replay_pose(s).pos));
                    assert(advanced_pose(pre.pose(), a).pos == pre.pose().pos);
                },
                _ => {
                    let adv = advanced(pre.pose(), a);
                    assert(coords_in_bounds(adv.0, adv.1));
                    assert(advanced_pose(pre.pose(), a).pos.x as int == adv.0);
                    assert(advanced_pose(pre.pose(), a).pos.y as int == adv.1);
                },
            }
        }
    }
}

/// Dropping the last action keeps the start discipline, the fit of every
/// step and the field bound on every prefix.
proof fn lemma_truncate_preserves_invariants(s: Seq<Action>)
    requires
        s.len() > 0,
        start_discipline(s),
        steps_fit(s),
        prefixes_in_bounds(s),
    ensures
        start_discipline(s.drop_last()),
        steps_fit(s.drop_last()),
        prefixes_in_bounds(s.drop_last()),
{
    let u = s.drop_last();
    assert forall|i: int| 0 <= i < u.len() implies ((#[trigger] u[i]) is StartAt <==> i == 0) by {
        assert(u[i] == s[i]);
    }
    assert forall|i: int| 0 <= i < u.len() implies advanced_fits(
        replay_pose(#[trigger] u.take(i)),
        u[i],
    ) by {
        assert(u.take(i) =~= s.take(i));
        assert(advanced_fits(replay_pose(s.take(i)), s[i]));
        assert(u[i] == s[i]);
    }
    assert forall|i: int| 0 < i <= u.len() implies in_bounds(
        replay_pose(#[trigger] u.take(i)).pos,
    ) by {
        assert(u.take(i) =~= s.take(i));
        assert(in_bounds(replay_pose(s.take(i)).pos));
    }
}

} // verus!
