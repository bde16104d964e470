use vstd::prelude::*;

verus! {

/// Type of robotic joint.
#[derive(Debug, Clone, Copy, PartialEq, Eq, Structural)]
pub enum JointType {
    /// Rotational joint with finite limits.
    Revolute,
    /// Rotational joint with continuous rotation (-infinity to +infinity).
    Continuous,
    /// Linear sliding joint with finite limits.
    Prismatic,
    /// Rigidly fixed connection.
    Fixed,
}

/// A joint of this type is an active degree of freedom (it is not fixed).
pub open spec fn is_actuated_type(t: JointType) -> bool {
    t != JointType::Fixed
}

impl JointType {
    /// Checks if a joint of this type is an active degree of freedom (i.e. not fixed).
    pub fn is_actuated(&self) -> (r: bool)
        ensures
            r == is_actuated_type(*self),
    {
        !matches!(self, JointType::Fixed)
    }
}

/// Positions, in chain order, of the actuated joints among `types`.
pub open spec fn actuated_indices(types: Seq<JointType>) -> Seq<int>
    decreases types.len(),
{
    if types.len() == 0 {
        Seq::empty()
    } else {
        let prev = actuated_indices(types.drop_last());
        if is_actuated_type(types.last()) {
            prev.push(types.len() - 1)
        } else {
            prev
        }
    }
}

/// Number of actuated degrees of freedom of a chain with these joint types.
pub open spec fn dof_of(types: Seq<JointType>) -> nat {
    actuated_indices(types).len()
}

/// Every listed position is that of an actuated joint, in increasing order.
pub proof fn lemma_actuated_indices_valid(types: Seq<JointType>)
    ensures
        actuated_indices(types).len() <= types.len(),
        forall|k: int|
            0 <= k < actuated_indices(types).len() ==> 0 <= #[trigger] actuated_indices(types)[k]
                < types.len() && is_actuated_type(types[actuated_indices(types)[k]]),
        forall|k: int, l: int|
            0 <= k < l < actuated_indices(types).len() ==> #[trigger] actuated_indices(types)[k]
                < #[trigger] actuated_indices(types)[l],
    decreases types.len(),
{
    if types.len() > 0 {
        lemma_actuated_indices_valid(types.drop_last());
    }
}

/// Positions, in chain order, of the joints that are actuated.
pub fn actuated_joint_indices(types: &[JointType]) -> (r: Vec<usize>)
    ensures
        r@.map_values(|i: usize| i as int) == actuated_indices(types@),
{
    let mut r: Vec<usize> = Vec::new();
    let mut i: usize = 0;
    while i < types.len()
        invariant
            i <= types@.len(),
            r@.map_values(|i: usize| i as int) == actuated_indices(types@.take(i as int)),
        decreases types@.len() - i,
    {
        assert(types@.take(i + 1).drop_last() =~= types@.take(i as int));
        let ghost old_r = r@;
        if types[i].is_actuated() {
            r.push(i);
            assert(r@.map_values(|i: usize| i as int) =~= old_r.map_values(|i: usize| i as int).push(
                i as int,
            ));
        }
        i = i + 1;
    }
    assert(types@.take(i as int) =~= types@);
    r
}

/// Number of actuated degrees of freedom among `types` (joints that are not fixed).
pub fn count_actuated(types: &[JointType]) -> (n: usize)
    ensures
        n == dof_of(types@),
{
    let mut n: usize = 0;
    let mut i: usize = 0;
    while i < types.len()
        invariant
            i <= types@.len(),
            n == dof_of(types@.take(i as int)),
            n <= i,
        decreases types@.len() - i,
    {
        assert(types@.take(i + 1).drop_last() =~= types@.take(i as int));
        if types[i].is_actuated() {
            n = n + 1;
        }
        i = i + 1;
    }
    assert(types@.take(i as int) =~= types@);
    n
}

} // verus!
