use vstd::prelude::*;

verus! {

/// A cursor over a native singly-linked list whose nodes are named by `N`.
///
/// It keeps the head of the list, which releasing the list needs, and the node
/// it stands on. `None` is the list's end, and an empty list is a cursor that
/// starts there.
pub struct ListCursor<N> {
    head: Option<N>,
    current: Option<N>,
    passed: Ghost<Seq<N>>,
}

impl<N: Copy> ListCursor<N> {
    /// The head of the list.
    pub closed spec fn head(&self) -> Option<N> {
        self.head
    }

    /// The node that the next step yields, `None` once the list is used up.
    pub closed spec fn current(&self) -> Option<N> {
        self.current
    }

    /// The nodes yielded so far, in order.
    pub closed spec fn passed(&self) -> Seq<N> {
        self.passed@
    }

    /// A cursor stands on a node only within a list, and it stands on the head
    /// until its first step.
    pub open spec fn wf(&self) -> bool {
        &&& self.current() is Some ==> self.head() is Some
        &&& self.passed().len() == 0 ==> self.current() == self.head()
    }

    /// A cursor at the head of the list `head`.
    pub fn new(head: Option<N>) -> (r: Self)
        ensures
            r.wf(),
            r.head() == head,
            r.current() == head,
            r.passed() == Seq::<N>::empty(),
    {
        ListCursor { head, current: head, passed: Ghost(Seq::empty()) }
    }

    /// The head of the list, to release the whole list in one call.
    pub fn list(&self) -> (r: Option<N>)
        ensures
            r == self.head(),
    {
        self.head
    }

    /// Whether every node has been yielded.
    pub fn is_done(&self) -> (r: bool)
        ensures
            r == (self.current() is None),
    {
        self.current.is_none()
    }

    /// One step: reads the element at the cursor with `read`, then moves to the
    /// node that `link` gives for it within the list. At the end of the list it
    /// yields nothing and stays there.
    pub fn next<T, R: Fn(N) -> T, L: Fn(N, N) -> Option<N>>(&mut self, read: R, link: L) -> (r:
        Option<T>)
        requires
            old(self).wf(),
            forall|n: N| read.requires((n,)),
            forall|h: N, n: N| link.requires((h, n)),
        ensures
            final(self).wf(),
            final(self).head() == old(self).head(),
            old(self).current() is None ==> r is None && *final(self) == *old(self),
            old(self).current() matches Some(c) ==> {
                &&& r matches Some(t) && read.ensures((c,), t)
                &&& link.ensures((old(self).head()->0, c), final(self).current())
                &&& final(self).passed() == old(self).passed().push(c)
            },
    {
        match self.current {
            None => None,
            Some(c) => {
                let item = read(c);
                let head = self.head.unwrap();
                self.current = link(head, c);
                self.passed = Ghost(self.passed@.push(c));
                Some(item)
            },
        }
    }
}

} // verus!
