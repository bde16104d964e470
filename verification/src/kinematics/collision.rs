use vstd::prelude::*;

verus! {

/// Detailed collision detection diagnostic report.
///
/// The geometric distance tests decide which links collide; this report keeps
/// the verdict, the distinct colliding link indices in order of discovery, and
/// one message per detected contact.
#[derive(Debug, Clone)]
pub struct CollisionReport {
    pub in_collision: bool,
    pub colliding_links: Vec<usize>,
    pub details: Vec<String>,
}

/// No index occurs twice in `s`.
pub open spec fn no_duplicates(s: Seq<usize>) -> bool {
    forall|i: int, j: int| 0 <= i < j < s.len() ==> #[trigger] s[i] != #[trigger] s[j]
}

/// `links` with `link` appended unless it is already there.
pub open spec fn with_link(links: Seq<usize>, link: usize) -> Seq<usize> {
    if links.contains(link) {
        links
    } else {
        links.push(link)
    }
}

impl CollisionReport {
    /// The report is in collision exactly when it lists a colliding link and
    /// exactly when it holds a contact message, and no link is listed twice.
    pub open spec fn consistent(&self) -> bool {
        &&& no_duplicates(self.colliding_links@)
        &&& self.in_collision <==> self.colliding_links@.len() > 0
        &&& self.in_collision <==> self.details@.len() > 0
    }

    /// An empty report: nothing collides.
    pub fn new() -> (r: Self)
        ensures
            !r.in_collision,
            r.colliding_links@ == Seq::<usize>::empty(),
            r.details@ == Seq::<String>::empty(),
            r.consistent(),
    {
        CollisionReport { in_collision: false, colliding_links: Vec::new(), details: Vec::new() }
    }

    /// Adds `link` to the colliding links unless it is already listed.
    fn note_link(&mut self, link: usize)
        ensures
            final(self).colliding_links@ == with_link(old(self).colliding_links@, link),
            final(self).in_collision == old(self).in_collision,
            final(self).details@ == old(self).details@,
            no_duplicates(old(self).colliding_links@) ==> no_duplicates(
                final(self).colliding_links@,
            ),
    {
        let mut i: usize = 0;
        while i < self.colliding_links.len()
            invariant
                i <= self.colliding_links@.len(),
                forall|j: int| 0 <= j < i ==> self.colliding_links@[j] != link,
            decreases self.colliding_links@.len() - i,
        {
            if self.colliding_links[i] == link {
                assert(self.colliding_links@.contains(link));
                return;
            }
            i = i + 1;
        }
        assert(!self.colliding_links@.contains(link));
        self.colliding_links.push(link);
    }

    /// Records that link `link` touches an obstacle, with its diagnostic message.
    pub fn record_obstacle_contact(&mut self, link: usize, detail: String)
        ensures
            final(self).in_collision,
            final(self).colliding_links@ == with_link(old(self).colliding_links@, link),
            final(self).details@ == old(self).details@.push(detail),
            no_duplicates(old(self).colliding_links@) ==> no_duplicates(
                final(self).colliding_links@,
            ),
            old(self).consistent() ==> final(self).consistent(),
    {
        self.in_collision = true;
        self.note_link(link);
        self.details.push(detail);
    }

    /// Records that the non-adjacent links `first` and `second` intersect each
    /// other, with its diagnostic message.
    pub fn record_self_contact(&mut self, first: usize, second: usize, detail: String)
        ensures
            final(self).in_collision,
            final(self).colliding_links@ == with_link(
                with_link(old(self).colliding_links@, first),
                second,
            ),
            final(self).details@ == old(self).details@.push(detail),
            no_duplicates(old(self).colliding_links@) ==> no_duplicates(
                final(self).colliding_links@,
            ),
            old(self).consistent() ==> final(self).consistent(),
    {
        self.in_collision = true;
        self.note_link(first);
        self.note_link(second);
        self.details.push(detail);
    }
}

impl Default for CollisionReport {
    fn default() -> (r: Self)
        ensures
            !r.in_collision,
            r.colliding_links@ == Seq::<usize>::empty(),
            r.details@ == Seq::<String>::empty(),
            r.consistent(),
    {
        CollisionReport::new()
    }
}

} // verus!
