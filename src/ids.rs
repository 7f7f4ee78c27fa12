use vstd::prelude::*;

verus! {

/// Hands out endpoint identifiers. Every identifier is issued at most once
/// over the lifetime of one counter.
pub struct UidCounter {
    next: usize,
}

impl UidCounter {
    /// The identifiers handed out so far.
    pub closed spec fn issued(&self) -> Set<int> {
        Set::new(|i: int| 1 <= i < self.next)
    }

    /// The identifier the next call will return.
    pub closed spec fn peek(&self) -> int {
        self.next as int
    }

    pub closed spec fn wf(&self) -> bool {
        self.next >= 1
    }

    /// A fresh counter whose first identifier is 1.
    pub fn new() -> (r: UidCounter)
        ensures
            r.wf(),
            r.issued() == Set::<int>::empty(),
            r.peek() == 1,
    {
        let r = UidCounter { next: 1 };
        assert(r.issued() =~= Set::<int>::empty());
        r
    }

    /// Whether another identifier can still be handed out.
    pub fn can_issue(&self) -> (r: bool)
        ensures
            r == (self.peek() < usize::MAX),
    {
        self.next < usize::MAX
    }
}

/// Issues the next endpoint identifier: it was never issued before by this
/// counter, and from now on it counts as issued.
pub fn generate_uid(counter: &mut UidCounter) -> (r: usize)
    requires
        old(counter).wf(),
        old(counter).peek() < usize::MAX,
    ensures
        final(counter).wf(),
        r as int == old(counter).peek(),
        !old(counter).issued().contains(r as int),
        final(counter).issued() == old(counter).issued().insert(r as int),
        final(counter).peek() == old(counter).peek() + 1,
{
    let r = counter.next;
    counter.next = counter.next + 1;
    assert(counter.issued() =~= old(counter).issued().insert(r as int));
    r
}

/// Two identifiers issued by one counter differ: whatever was issued before
/// differs from the one the counter hands out next.
pub proof fn lemma_ids_unique(c: UidCounter, earlier: int)
    requires
        c.wf(),
        c.issued().contains(earlier),
    ensures
        earlier != c.peek(),
{
}

} // verus!
