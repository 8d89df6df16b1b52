//! The sparse octree node.
//!
//! A node stores a single material id and either no child slots or exactly
//! eight, addressed by octant. An empty slot means "same value as this
//! node, not yet refined": a lookup that runs out of explicit children
//! returns the value of the deepest node it reached, so an unrefined
//! region implicitly inherits its ancestor's value.

use vstd::prelude::*;

use crate::octant::SubVlox;
use crate::MaterialId;

verus! {

/// One node of the sparse octree.
#[derive(Debug)]
pub struct Vlox {
    value: MaterialId,
    children: Vec<Option<Vlox>>,
}

impl Vlox {
    /// A node has no child slots or exactly eight, and every present
    /// child is itself well formed.
    pub closed spec fn wf(self) -> bool
        decreases self,
    {
        &&& self.children@.len() == 0 || self.children@.len() == 8
        &&& forall|i: int|
            0 <= i < self.children@.len() ==> ((#[trigger] self.children@[i]) matches Some(c)
                ==> c.wf())
    }

    /// The value that a lookup along `path` resolves to: the stored value
    /// of the deepest explicitly refined node on the path.
    pub closed spec fn stored_at(self, path: Seq<SubVlox>) -> MaterialId
        decreases self,
    {
        if path.len() == 0 {
            self.value
        } else if self.children@.len() != 8 {
            self.value
        } else {
            match self.children@[path[0].idx()] {
                Some(c) => c.stored_at(path.drop_first()),
                None => self.value,
            }
        }
    }

    /// A fresh unrefined node: every lookup beneath it inherits `value`.
    pub fn new(value: MaterialId) -> (node: Vlox)
        ensures
            node.wf(),
            forall|path: Seq<SubVlox>| node.stored_at(path) == value,
    {
        let children = eight_empty_slots();
        let node = Vlox { value, children };
        proof {
            assert forall|path: Seq<SubVlox>| node.stored_at(path) == value by {
                if path.len() > 0 {
                    assert(node.children@[path[0].idx()] is None);
                }
            }
        }
        node
    }

    /// Walks `path` and returns the resolved value. The walk stops at the
    /// first unrefined node, so its cost is bounded by the explicitly
    /// refined depth, not by the path's length.
    pub fn get(&self, path: &Vec<SubVlox>) -> (r: MaterialId)
        requires
            self.wf(),
        ensures
            r == self.stored_at(path@),
    {
        let mut node: &Vlox = self;
        let mut i: usize = 0;
        proof {
            assert(path@.skip(0) =~= path@);
        }
        while i < path.len()
            invariant
                i <= path@.len(),
                node.wf(),
                self.stored_at(path@) == node.stored_at(path@.skip(i as int)),
            decreases path@.len() - i,
        {
            proof {
                assert(path@.skip(i as int).len() > 0);
            }
            if node.children.len() == 0 {
                return node.value;
            }
            let idx = path[i].index();
            proof {
                assert(path@.skip(i as int)[0] == path@[i as int]);
                assert(path@.skip(i as int).drop_first() =~= path@.skip(i as int + 1));
            }
            match &node.children[idx] {
                Some(c) => {
                    node = c;
                },
                None => {
                    return node.value;
                },
            }
            i = i + 1;
        }
        proof {
            assert(path@.skip(i as int).len() == 0);
        }
        node.value
    }

    /// Writes `value` at the end of `path`, materializing a child at each
    /// empty slot on the way down (initialized with its parent's current
    /// value) and discarding any refinement beneath the written node.
    ///
    /// The single postcondition pins the whole effect down: a lookup that
    /// extends `path` now resolves to `value`, and every other lookup is
    /// unchanged.
    pub fn set(&mut self, path: &Vec<SubVlox>, value: MaterialId)
        requires
            old(self).wf(),
        ensures
            final(self).wf(),
            forall|q: Seq<SubVlox>|
                final(self).stored_at(q) == if path@.is_prefix_of(q) {
                    value
                } else {
                    old(self).stored_at(q)
                },
    {
        self.set_from(path, 0, value);
        proof {
            assert(path@.skip(0) =~= path@);
        }
    }

    /// The recursive worker for [`Vlox::set`]: writes `value` at the end
    /// of the path suffix `path[i..]`.
    fn set_from(&mut self, path: &Vec<SubVlox>, i: usize, value: MaterialId)
        requires
            old(self).wf(),
            i <= path@.len(),
        ensures
            final(self).wf(),
            forall|q: Seq<SubVlox>|
                final(self).stored_at(q) == if path@.skip(i as int).is_prefix_of(q) {
                    value
                } else {
                    old(self).stored_at(q)
                },
        decreases path@.len() - i,
    {
        if i == path.len() {
            self.value = value;
            self.children = Vec::new();
            proof {
                assert(path@.skip(i as int).len() == 0);
                assert forall|q: Seq<SubVlox>| self.stored_at(q) == value by {
                    assert(self.children@.len() == 0);
                }
            }
            return ;
        }
        if self.children.len() == 0 {
            let ghost pre = *self;
            let children = eight_empty_slots();
            self.children = children;
            proof {
                // materializing eight empty slots changes no lookup
                assert forall|q: Seq<SubVlox>| self.stored_at(q) == pre.stored_at(q) by {
                    assert(pre.children@.len() == 0);
                    if q.len() > 0 {
                        assert(self.children@[q[0].idx()] is None);
                    }
                }
            }
        }
        let ghost mid = *self;
        let ghost oct = path@[i as int];
        let idx = path[i].index();
        let has_child = self.children[idx].is_some();
        if has_child {
            match &mut self.children[idx] {
                Some(child) => {
                    let ghost child_pre = *child;
                    proof {
                        assert(mid.children@[oct.idx()] == Some(child_pre));
                        assert forall|q: Seq<SubVlox>|
                            q.len() > 0 && q[0] == oct implies mid.stored_at(q)
                            == child_pre.stored_at(q.drop_first()) by {
                            assert(mid.children@[q[0].idx()] == Some(child_pre));
                        }
                    }
                    child.set_from(path, i + 1, value);
                    proof {
                        lemma_set_step(mid, *self, child_pre, *child, path@, i as nat, value);
                    }
                },
                None => {
                    proof {
                        assert(false);
                    }
                },
            }
        } else {
            let mut vlox = Vlox::new(self.value);
            let ghost child_pre = vlox;
            vlox.set_from(path, i + 1, value);
            let ghost child_post = vlox;
            self.children.set(idx, Some(vlox));
            proof {
                assert(mid.children@[oct.idx()] is None);
                assert forall|q: Seq<SubVlox>| q.len() > 0 && q[0] == oct implies mid.stored_at(
                    q,
                ) == child_pre.stored_at(q.drop_first()) by {
                    assert(mid.children@[q[0].idx()] is None);
                }
                lemma_set_step(mid, *self, child_pre, child_post, path@, i as nat, value);
            }
        }
    }
}

/// A fresh vector of eight unrefined child slots.
fn eight_empty_slots() -> (children: Vec<Option<Vlox>>)
    ensures
        children@.len() == 8,
        forall|j: int| 0 <= j < 8 ==> children@[j] is None,
{
    let mut children: Vec<Option<Vlox>> = Vec::new();
    let mut i: usize = 0;
    while i < 8
        invariant
            i <= 8,
            children@.len() == i,
            forall|j: int| 0 <= j < i ==> children@[j] is None,
        decreases 8 - i,
    {
        children.push(None);
        i = i + 1;
    }
    children
}

/// One step of the `set` induction: if `post` differs from `pre` only in
/// the child slot for `path[i]`, where `child_pre` became `child_post` by
/// a write of the path suffix `path[i+1..]`, then `post` as a whole is
/// `pre` with the suffix `path[i..]` written.
proof fn lemma_set_step(
    pre: Vlox,
    post: Vlox,
    child_pre: Vlox,
    child_post: Vlox,
    path: Seq<SubVlox>,
    i: nat,
    value: MaterialId,
)
    requires
        i < path.len(),
        pre.wf(),
        child_post.wf(),
        pre.children@.len() == 8,
        post.value == pre.value,
        post.children@ == pre.children@.update(path[i as int].idx(), Some(child_post)),
        // what a lookup through the old slot resolved to
        forall|q: Seq<SubVlox>|
            q.len() > 0 && q[0] == path[i as int] ==> #[trigger] pre.stored_at(q)
                == child_pre.stored_at(q.drop_first()),
        // the recursive write's own postcondition
        forall|q: Seq<SubVlox>|
            #[trigger] child_post.stored_at(q) == if path.skip(i as int + 1).is_prefix_of(q) {
                value
            } else {
                child_pre.stored_at(q)
            },
    ensures
        post.wf(),
        forall|q: Seq<SubVlox>|
            post.stored_at(q) == if path.skip(i as int).is_prefix_of(q) {
                value
            } else {
                pre.stored_at(q)
            },
{
    let oct = path[i as int];
    assert(post.children@.len() == 8);
    assert(post.wf()) by {
        assert forall|k: int|
            0 <= k < 8 implies ((#[trigger] post.children@[k]) matches Some(c) ==> c.wf()) by {
            if k != oct.idx() {
                assert(post.children@[k] == pre.children@[k]);
            }
        }
    }
    assert forall|q: Seq<SubVlox>|
        post.stored_at(q) == if path.skip(i as int).is_prefix_of(q) {
            value
        } else {
            pre.stored_at(q)
        } by {
        let suffix = path.skip(i as int);
        assert(suffix.len() > 0);
        assert(suffix[0] == oct);
        if q.len() == 0 {
            assert(!suffix.is_prefix_of(q));
            assert(post.stored_at(q) == post.value);
            assert(pre.stored_at(q) == pre.value);
        } else if q[0] == oct {
            assert(post.children@[q[0].idx()] == Some(child_post));
            assert(post.stored_at(q) == child_post.stored_at(q.drop_first()));
            assert(suffix.is_prefix_of(q) <==> path.skip(i as int + 1).is_prefix_of(
                q.drop_first(),
            )) by {
                assert(suffix.drop_first() =~= path.skip(i as int + 1));
                if suffix.is_prefix_of(q) {
                    assert(suffix =~= q.subrange(0, suffix.len() as int));
                    assert(suffix.drop_first() =~= q.drop_first().subrange(
                        0,
                        suffix.len() - 1,
                    ));
                }
                if path.skip(i as int + 1).is_prefix_of(q.drop_first()) {
                    assert(q.subrange(0, suffix.len() as int) =~= suffix) by {
                        assert forall|j: int|
                            0 <= j < suffix.len() implies q.subrange(0, suffix.len() as int)[j]
                            == suffix[j] by {
                            if j == 0 {
                                assert(q[0] == suffix[0]);
                            } else {
                                assert(q.subrange(0, suffix.len() as int)[j] == q[j]);
                                assert(q[j] == q.drop_first()[j - 1]);
                                assert(path.skip(i as int + 1)[j - 1] == q.drop_first().subrange(
                                    0,
                                    suffix.len() - 1,
                                )[j - 1]);
                                assert(suffix[j] == suffix.drop_first()[j - 1]);
                            }
                        }
                    }
                }
            }
        } else {
            assert(q[0].idx() != oct.idx());
            assert(post.children@[q[0].idx()] == pre.children@[q[0].idx()]);
            assert(!suffix.is_prefix_of(q)) by {
                if suffix.is_prefix_of(q) {
                    assert(q.subrange(0, suffix.len() as int)[0] == q[0]);
                }
            }
            assert(post.stored_at(q) == pre.stored_at(q));
        }
    }
}

} // verus!
