use vstd::prelude::*;

verus! {

/// A stack of lexical scope frames, innermost frame last.  Each frame maps an
/// identifier to a value of type `V` (the checker stores type-variable
/// handles).  Binding the same identifier twice in one frame overwrites: a
/// lookup always observes the most recent binding of the innermost enclosing
/// frame that knows the name.
///
/// A frame is a plain association list searched from its newest entry
/// backwards, so inserting never rewrites an older entry; the newest one
/// simply shadows it.
pub struct Scopes<V>(pub Vec<Vec<(String, V)>>);

/// The position of the binding of `k` in one frame: the index of the newest
/// entry whose key is `k`, or -1 if the frame does not bind `k`.
pub open spec fn frame_pos<V>(frame: Seq<(Seq<char>, V)>, k: Seq<char>) -> int
    decreases frame.len(),
{
    if frame.len() == 0 {
        -1
    } else if frame.last().0 == k {
        frame.len() - 1
    } else {
        frame_pos(frame.drop_last(), k)
    }
}

/// The frame that resolves `k`: the index of the innermost frame binding `k`,
/// or -1 if no enclosing frame binds it.
pub open spec fn scope_pos<V>(frames: Seq<Seq<(Seq<char>, V)>>, k: Seq<char>) -> int
    decreases frames.len(),
{
    if frames.len() == 0 {
        -1
    } else if frame_pos(frames.last(), k) >= 0 {
        frames.len() - 1
    } else {
        scope_pos(frames.drop_last(), k)
    }
}

/// The value a lookup of `k` observes: the newest binding of the innermost
/// enclosing frame that binds `k`.
pub open spec fn scopes_get<V>(frames: Seq<Seq<(Seq<char>, V)>>, k: Seq<char>) -> Option<V> {
    if scope_pos(frames, k) >= 0 {
        let i = scope_pos(frames, k);
        Some(frames[i][frame_pos(frames[i], k)].1)
    } else {
        None
    }
}

/// `frame_pos` stays in bounds, and a nonnegative position names an entry
/// whose key is `k`.
pub proof fn lemma_frame_pos_bounds<V>(frame: Seq<(Seq<char>, V)>, k: Seq<char>)
    ensures
        -1 <= frame_pos(frame, k) < frame.len(),
        frame_pos(frame, k) >= 0 ==> frame[frame_pos(frame, k)].0 == k,
    decreases frame.len(),
{
    if frame.len() > 0 && frame.last().0 != k {
        lemma_frame_pos_bounds(frame.drop_last(), k);
    }
}

/// An entry whose key is `k` bounds `frame_pos` from below: the newest
/// matching entry is at that index or a newer one.
pub proof fn lemma_frame_pos_lower<V>(frame: Seq<(Seq<char>, V)>, k: Seq<char>, j: int)
    requires
        0 <= j < frame.len(),
        frame[j].0 == k,
    ensures
        frame_pos(frame, k) >= j,
    decreases frame.len(),
{
    if frame.last().0 != k {
        lemma_frame_pos_lower(frame.drop_last(), k, j);
    }
}

/// `scope_pos` stays in bounds, and a nonnegative position names a frame
/// that binds `k`.
pub proof fn lemma_scope_pos_bounds<V>(frames: Seq<Seq<(Seq<char>, V)>>, k: Seq<char>)
    ensures
        -1 <= scope_pos(frames, k) < frames.len(),
        scope_pos(frames, k) >= 0 ==> frame_pos(frames[scope_pos(frames, k)], k) >= 0,
    decreases frames.len(),
{
    if frames.len() > 0 && !(frame_pos(frames.last(), k) >= 0) {
        lemma_scope_pos_bounds(frames.drop_last(), k);
    }
}

/// A frame that binds `k` bounds `scope_pos` from below.
pub proof fn lemma_scope_pos_lower<V>(frames: Seq<Seq<(Seq<char>, V)>>, k: Seq<char>, i: int)
    requires
        0 <= i < frames.len(),
        frame_pos(frames[i], k) >= 0,
    ensures
        scope_pos(frames, k) >= i,
    decreases frames.len(),
{
    if !(frame_pos(frames.last(), k) >= 0) {
        lemma_scope_pos_lower(frames.drop_last(), k, i);
    }
}

impl<V> Scopes<V> {
    /// The abstract value: the frames, each entry's key abstracted to its
    /// character sequence.
    pub open spec fn view(&self) -> Seq<Seq<(Seq<char>, V)>> {
        self.0@.map_values(
            |frame: Vec<(String, V)>| frame@.map_values(|e: (String, V)| (e.0@, e.1)),
        )
    }

    /// A fresh scope table holding a single (root) frame with no bindings.
    pub fn new() -> (r: Scopes<V>)
        ensures
            r@.len() == 1,
            r@[0].len() == 0,
    {
        let mut frames: Vec<Vec<(String, V)>> = Vec::new();
        frames.push(Vec::new());
        Scopes(frames)
    }

    /// Enter a scope: push a new, empty innermost frame.
    pub fn push_scope(&mut self)
        ensures
            final(self)@ == old(self)@.push(Seq::<(Seq<char>, V)>::empty()),
    {
        self.0.push(Vec::new());
        proof {
            assert(self@ =~~= old(self)@.push(Seq::<(Seq<char>, V)>::empty()));
        }
    }

    /// Leave a scope: discard the innermost frame and all its bindings.
    /// Calling this with no frame present is a programmer error, not a
    /// user-facing diagnostic, so it is ruled out by precondition.
    pub fn pop_scope(&mut self)
        requires
            old(self)@.len() > 0,
        ensures
            final(self)@ == old(self)@.drop_last(),
    {
        self.0.pop();
        proof {
            assert(self@ =~~= old(self)@.drop_last());
        }
    }

    /// Bind `k` to `v` in the innermost frame, overwriting (shadowing) any
    /// existing binding of `k` in that frame only.  Calling this with no
    /// frame present is a programmer error, ruled out by precondition.
    pub fn insert(&mut self, k: String, v: V)
        requires
            old(self)@.len() > 0,
        ensures
            final(self)@ == old(self)@.update(
                old(self)@.len() - 1,
                old(self)@.last().push((k@, v)),
            ),
    {
        let ghost gk = k@;
        let last = self.0.len() - 1;
        let frame = &mut self.0[last];
        frame.push((k, v));
        proof {
            assert(self@ =~~= old(self)@.update(
                old(self)@.len() - 1,
                old(self)@.last().push((gk, v)),
            ));
        }
    }

    /// Look `k` up, walking frames from innermost to outermost and returning
    /// the nearest enclosing binding, or `None` if no frame binds `k`.
    pub fn get(&self, k: &String) -> (r: Option<&V>)
        ensures
            match r {
                Option::Some(v) => scopes_get(self@, k@) == Option::Some(*v),
                Option::None => scopes_get(self@, k@) is None,
            },
    {
        proof {
            lemma_scope_pos_bounds(self@, k@);
        }
        let mut i = self.0.len();
        while i > 0
            invariant
                i <= self@.len(),
                scope_pos(self@, k@) < i,
            decreases i,
        {
            i -= 1;
            let frame = &self.0[i];
            let ghost gframe = self@[i as int];
            proof {
                lemma_frame_pos_bounds(gframe, k@);
            }
            let mut j = frame.len();
            while j > 0
                invariant
                    j <= frame@.len(),
                    i < self@.len(),
                    gframe == self@[i as int],
                    gframe =~= frame@.map_values(|e: (String, V)| (e.0@, e.1)),
                    frame_pos(gframe, k@) < j,
                    scope_pos(self@, k@) <= i,
                decreases j,
            {
                j -= 1;
                let e = &frame[j];
                if e.0 == *k {
                    proof {
                        assert(gframe[j as int] == (frame@[j as int].0@, frame@[j as int].1));
                        lemma_frame_pos_lower(gframe, k@, j as int);
                        assert(frame_pos(gframe, k@) == j);
                        lemma_scope_pos_lower(self@, k@, i as int);
                        assert(scope_pos(self@, k@) == i);
                        assert(scopes_get(self@, k@) == Option::Some(gframe[j as int].1));
                    }
                    return Some(&e.1);
                }
                proof {
                    lemma_frame_pos_bounds(gframe, k@);
                }
            }
            proof {
                lemma_scope_pos_bounds(self@, k@);
            }
        }
        None
    }

    /// Look `k` up like `get`, but hand back a mutable reference to the
    /// nearest enclosing binding's value, so that a caller can rebind in
    /// place.  The table afterwards is the old table with exactly that one
    /// value replaced by whatever the caller leaves behind.
    pub fn get_mut(&mut self, k: &String) -> (r: Option<&mut V>)
        ensures
            match r {
                Option::Some(v) => {
                    let i = scope_pos(old(self)@, k@);
                    let j = frame_pos(old(self)@[i], k@);
                    &&& i >= 0
                    &&& *v == old(self)@[i][j].1
                    &&& final(self)@.len() == old(self)@.len()
                    &&& forall|a: int|
                        0 <= a < old(self)@.len() && a != i ==> final(self)@[a] == old(self)@[a]
                    &&& final(self)@[i].len() == old(self)@[i].len()
                    &&& forall|b: int|
                        0 <= b < old(self)@[i].len() && b != j ==> final(self)@[i][b] == old(
                            self,
                        )@[i][b]
                    &&& final(self)@[i][j] == (k@, *final(v))
                },
                Option::None => {
                    &&& scope_pos(old(self)@, k@) == -1
                    &&& final(self)@ == old(self)@
                },
            },
    {
        proof {
            lemma_scope_pos_bounds(self@, k@);
        }
        let mut i = self.0.len();
        while i > 0
            invariant
                i <= self@.len(),
                *self == *old(self),
                scope_pos(self@, k@) < i,
            decreases i,
        {
            i -= 1;
            let ghost gframe = self@[i as int];
            proof {
                lemma_frame_pos_bounds(gframe, k@);
            }
            let mut j = self.0[i].len();
            while j > 0
                invariant
                    i < self@.len(),
                    *self == *old(self),
                    j <= self.0@[i as int]@.len(),
                    gframe == self@[i as int],
                    frame_pos(gframe, k@) < j,
                    scope_pos(self@, k@) <= i,
                decreases j,
            {
                j -= 1;
                let hit = self.0[i][j].0 == *k;
                if hit {
                    proof {
                        assert(gframe[j as int] == (
                            self.0@[i as int]@[j as int].0@,
                            self.0@[i as int]@[j as int].1,
                        ));
                        lemma_frame_pos_lower(gframe, k@, j as int);
                        assert(frame_pos(gframe, k@) == j);
                        lemma_scope_pos_lower(self@, k@, i as int);
                        assert(scope_pos(self@, k@) == i);
                    }
                    let frame = &mut self.0[i];
                    let entry = &mut frame[j];
                    return Some(&mut entry.1);
                }
                proof {
                    lemma_frame_pos_bounds(gframe, k@);
                }
            }
            proof {
                lemma_scope_pos_bounds(self@, k@);
            }
        }
        None
    }
}

} // verus!
