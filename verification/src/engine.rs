use vstd::prelude::*;
use vstd::pervasive::VecAdditionalExecFns;
use crate::span::{Span, Spanned};
use crate::typed_ast::Type;
use crate::error::TypecheckError;

verus! {

/// The handle of a type-variable slot: an index into the engine's arena.
pub type TypeId = usize;

/// A provisional type description held by one slot: not yet determined,
/// a forwarding reference to another slot (the union-find edge), or a
/// concrete type.
#[derive(Clone, Copy, PartialEq, Eq, Structural, Debug)]
pub enum TypeInfo {
    Unknown,
    Ref(TypeId),
    Num,
}

/// The slot description of a concrete type.
pub fn type_to_typeinfo(ty: Spanned<Type>) -> (r: Spanned<TypeInfo>)
    ensures
        r == (TypeInfo::Num, ty.1),
{
    (
        match ty.0 {
            Type::Num => TypeInfo::Num,
        },
        ty.1,
    )
}

/// The constraint engine: an arena of type-variable slots addressed by
/// `TypeId`, owned exclusively by the engine.  Slots are only ever added,
/// never removed, and a slot changes only by unification.
///
/// Each slot carries a ghost stamp; stamps strictly decrease along
/// forwarding references, which is what makes every reference chain finite.
pub struct Engine {
    slots: Vec<(TypeInfo, Span)>,
    stamps: Ghost<Seq<int>>,
    lo: Ghost<int>,
    hi: Ghost<int>,
}

impl View for Engine {
    type V = Seq<(TypeInfo, Span)>;

    /// The abstract value: the arena's slots in allocation order.
    closed spec fn view(&self) -> Seq<(TypeInfo, Span)> {
        self.slots@
    }
}

impl Engine {
    /// Slot `i` is locally sound: a forwarding reference stays inside the
    /// arena and strictly decreases the ghost stamp.
    pub closed spec fn slot_ok(self, i: int) -> bool {
        match self.slots@[i].0 {
            TypeInfo::Ref(j) => j < self.slots@.len() && self.stamps@[j as int] < self.stamps@[i],
            TypeInfo::Unknown => true,
            TypeInfo::Num => true,
        }
    }

    /// The engine invariant: every slot is locally sound and every stamp
    /// lies strictly between the ghost bounds.
    pub closed spec fn wf(self) -> bool {
        &&& self.lo@ < self.hi@
        &&& self.stamps@.len() == self.slots@.len()
        &&& forall|i: int|
            0 <= i < self.slots@.len() ==> self.lo@ < #[trigger] self.stamps@[i] < self.hi@
        &&& forall|i: int| 0 <= i < self.slots@.len() ==> #[trigger] self.slot_ok(i)
    }

    /// The slot a reference chain ends at, followed one reference at a time
    /// (the ghost stamps witness that every chain is finite).
    spec fn root_of_from(self, i: int) -> int
        decreases self.stamps@[i] - self.lo@
        when self.wf() && 0 <= i < self.slots@.len()
        via Self::root_of_from_dec
    {
        match self.slots@[i].0 {
            TypeInfo::Ref(j) => self.root_of_from(j as int),
            TypeInfo::Unknown => i,
            TypeInfo::Num => i,
        }
    }

    #[via_fn]
    proof fn root_of_from_dec(self, i: int) {
        assert(self.slot_ok(i));
    }

    /// The slot a reference chain ends at: follow forwarding references
    /// until a slot that is not a reference.
    pub closed spec fn root_of(self, i: int) -> int {
        self.root_of_from(i)
    }

    /// What slot `i` currently stands for: the content and span of the slot
    /// its reference chain ends at.
    pub closed spec fn resolve(self, i: int) -> (TypeInfo, Span) {
        self.slots@[self.root_of(i)]
    }

    /// Slot `i` resolves to a concrete type.
    pub open spec fn known(self, i: int) -> bool {
        self.resolve(i).0 is Num
    }

    /// The chain from any slot ends, in bounds, at a slot that is not a
    /// reference, and a non-reference slot is its own end.
    pub proof fn lemma_root(self, i: int)
        requires
            self.wf(),
            0 <= i < self@.len(),
        ensures
            0 <= self.root_of(i) < self@.len(),
            !(self@[self.root_of(i)].0 is Ref),
            !(self@[i].0 is Ref) ==> self.root_of(i) == i,
            self@[i].0 matches TypeInfo::Ref(j) ==> self.root_of(i) == self.root_of(j as int),
    {
        self.lemma_root_from(i);
    }

    proof fn lemma_root_from(self, i: int)
        requires
            self.wf(),
            0 <= i < self@.len(),
        ensures
            0 <= self.root_of(i) < self@.len(),
            !(self@[self.root_of(i)].0 is Ref),
            !(self@[i].0 is Ref) ==> self.root_of(i) == i,
            self@[i].0 matches TypeInfo::Ref(j) ==> self.root_of(i) == self.root_of(j as int),
        decreases self.stamps@[i] - self.lo@,
    {
        assert(self.slot_ok(i));
        match self.slots@[i].0 {
            TypeInfo::Ref(j) => {
                self.lemma_root_from(j as int);
            },
            _ => {},
        }
    }

    /// Two engines whose arenas agree on a self-contained prefix resolve
    /// every slot of that prefix alike, whatever their ghost stamps.
    proof fn lemma_root_prefix(e1: Engine, e2: Engine, i: int)
        requires
            e1.wf(),
            e2.wf(),
            0 <= i < e1@.len(),
            e1@.len() <= e2@.len(),
            forall|k: int| 0 <= k < e1@.len() ==> e1@[k] == e2@[k],
        ensures
            e1.root_of(i) == e2.root_of(i),
        decreases e1.stamps@[i] - e1.lo@,
    {
        assert(e1.slot_ok(i));
        match e1@[i].0 {
            TypeInfo::Ref(j) => {
                Engine::lemma_root_prefix(e1, e2, j as int);
            },
            _ => {},
        }
    }

    /// Redirecting the (unresolved) end of one chain onto another chain
    /// moves exactly the slots of the first chain's class to the new end and
    /// leaves every other slot's end alone.
    proof fn lemma_root_update(pre: Engine, post: Engine, ra: int, rb: int, i: int)
        requires
            pre.wf(),
            post.wf(),
            0 <= ra < pre@.len(),
            0 <= rb < pre@.len(),
            ra != rb,
            !(pre@[ra].0 is Ref),
            !(pre@[rb].0 is Ref),
            post@.len() == pre@.len(),
            post@[ra].0 == TypeInfo::Ref(rb as usize),
            forall|k: int| 0 <= k < pre@.len() && k != ra ==> post@[k] == pre@[k],
            0 <= i < pre@.len(),
            pre@.len() <= usize::MAX,
        ensures
            post.root_of(i) == (if pre.root_of(i) == ra {
                rb
            } else {
                pre.root_of(i)
            }),
        decreases post.stamps@[i] - post.lo@,
    {
        assert(post.slot_ok(i));
        pre.lemma_root(i);
        if i == ra {
            pre.lemma_root(rb);
            assert(post.stamps@[rb] < post.stamps@[i]);
            Engine::lemma_root_update(pre, post, ra, rb, rb);
        } else {
            match pre@[i].0 {
                TypeInfo::Ref(j) => {
                    assert(pre.slot_ok(i));
                    Engine::lemma_root_update(pre, post, ra, rb, j as int);
                },
                _ => {},
            }
        }
    }

    /// A fresh engine with no slots.
    pub fn new() -> (r: Engine)
        ensures
            r.wf(),
            r@.len() == 0,
    {
        Engine { slots: Vec::new(), stamps: Ghost(Seq::empty()), lo: Ghost(0), hi: Ghost(1) }
    }

    /// Allocate a new slot with the given initial content and hand back its
    /// fresh identifier.  Identifiers increase monotonically and are never
    /// reused; what older slots stand for does not change.
    pub fn insert(&mut self, info: Spanned<TypeInfo>) -> (id: TypeId)
        requires
            old(self).wf(),
            info.0 matches TypeInfo::Ref(j) ==> j < old(self)@.len(),
        ensures
            final(self).wf(),
            id == old(self)@.len(),
            final(self)@ == old(self)@.push(info),
            forall|k: int|
                0 <= k < old(self)@.len() ==> final(self).resolve(k) == old(self).resolve(k),
            final(self).resolve(id as int) == (match info.0 {
                TypeInfo::Ref(j) => old(self).resolve(j as int),
                TypeInfo::Unknown => info,
                TypeInfo::Num => info,
            }),
    {
        let ghost pre = *self;
        let id = self.slots.len();
        self.slots.push(info);
        proof {
            self.stamps@ = self.stamps@.push(self.hi@);
            self.hi@ = self.hi@ + 1;
            assert forall|i: int| 0 <= i < self.slots@.len() implies #[trigger] self.slot_ok(i) by {
                if i < pre@.len() {
                    assert(pre.slot_ok(i));
                }
            }
            assert(self.wf());
            assert forall|k: int|
                0 <= k < pre@.len() implies self.resolve(k) == pre.resolve(k) by {
                pre.lemma_root(k);
                Engine::lemma_root_prefix(pre, *self, k);
            }
            match info.0 {
                TypeInfo::Ref(j) => {
                    pre.lemma_root(j as int);
                    Engine::lemma_root_prefix(pre, *self, j as int);
                    assert(self.root_of(id as int) == self.root_of(j as int));
                },
                _ => {
                    assert(self.root_of(id as int) == id);
                },
            }
        }
        id
    }

    /// The slot a reference chain ends at, computed by walking the chain.
    fn find_root(&self, i: TypeId) -> (r: TypeId)
        requires
            self.wf(),
            i < self@.len(),
        ensures
            r == self.root_of(i as int),
            r < self@.len(),
            !(self@[r as int].0 is Ref),
    {
        let mut cur = i;
        loop
            invariant
                self.wf(),
                cur < self@.len(),
                self.root_of(cur as int) == self.root_of(i as int),
            decreases self.stamps@[cur as int] - self.lo@,
        {
            proof {
                self.lemma_root(cur as int);
                assert(self.slot_ok(cur as int));
            }
            match self.slots[cur].0 {
                TypeInfo::Ref(j) => {
                    cur = j;
                },
                _ => {
                    return cur;
                },
            }
        }
    }

    /// Assert that slots `a` and `b` describe the same type.
    ///
    /// Both reference chains are followed fully to their ends.  If either
    /// end is still unresolved it becomes a forwarding reference to the
    /// other end (the unresolved `a` end onto `b`'s, symmetrically the
    /// unresolved `b` end onto `a`'s); if both ends already hold the same
    /// concrete type nothing changes.  The language has a single concrete
    /// type, so no unification can fail; a mismatch of two different
    /// concrete types would be reported as a type-mismatch diagnostic
    /// carrying both ends' spans and type descriptions.
    ///
    /// Afterwards `a` and `b` resolve to the same type description, every
    /// slot that already resolved to a concrete type still does, and no
    /// other slot's resolution changes.
    pub fn unify(&mut self, a: TypeId, b: TypeId) -> (r: Result<(), TypecheckError>)
        requires
            old(self).wf(),
            a < old(self)@.len(),
            b < old(self)@.len(),
        ensures
            final(self).wf(),
            final(self)@.len() == old(self)@.len(),
            r is Ok,
            ({
                let ra = old(self).root_of(a as int);
                let rb = old(self).root_of(b as int);
                if ra == rb {
                    final(self)@ == old(self)@
                } else if old(self)@[ra].0 is Unknown {
                    final(self)@ == old(self)@.update(
                        ra,
                        (TypeInfo::Ref(rb as usize), old(self)@[rb].1),
                    )
                } else if old(self)@[rb].0 is Unknown {
                    final(self)@ == old(self)@.update(
                        rb,
                        (TypeInfo::Ref(ra as usize), old(self)@[ra].1),
                    )
                } else {
                    final(self)@ == old(self)@
                }
            }),
            final(self).resolve(a as int).0 == final(self).resolve(b as int).0,
            forall|k: int|
                0 <= k < old(self)@.len() && old(self).known(k) ==> final(self).resolve(k) == old(
                    self,
                ).resolve(k),
            forall|k: int|
                0 <= k < old(self)@.len() ==> (final(self).known(k) <==> (old(self).known(k) || (
                old(self).root_of(k) == old(self).root_of(a as int) && old(self).known(b as int))
                    || (old(self).root_of(k) == old(self).root_of(b as int) && old(self).known(
                    a as int,
                )))),
    {
        let ghost pre = *self;
        proof {
            vstd::std_specs::vec::axiom_spec_len(&self.slots);
        }
        let ra = self.find_root(a);
        let rb = self.find_root(b);
        proof {
            pre.lemma_root(a as int);
            pre.lemma_root(b as int);
        }
        if ra == rb {
            return Ok(());
        }
        let a_root = self.slots[ra];
        let b_root = self.slots[rb];
        match (a_root.0, b_root.0) {
            (TypeInfo::Unknown, _) => {
                self.slots.set(ra, (TypeInfo::Ref(rb), b_root.1));
                proof {
                    self.stamps@ = self.stamps@.update(rb as int, self.lo@ - 1);
                    self.lo@ = self.lo@ - 2;
                    assert forall|i: int|
                        0 <= i < self.slots@.len() implies #[trigger] self.slot_ok(i) by {
                        assert(pre.slot_ok(i));
                    }
                    assert(self.wf());
                    self.lemma_finish_redirect(pre, ra as int, rb as int, a as int, b as int);
                }
                Ok(())
            },
            (_, TypeInfo::Unknown) => {
                self.slots.set(rb, (TypeInfo::Ref(ra), a_root.1));
                proof {
                    self.stamps@ = self.stamps@.update(ra as int, self.lo@ - 1);
                    self.lo@ = self.lo@ - 2;
                    assert forall|i: int|
                        0 <= i < self.slots@.len() implies #[trigger] self.slot_ok(i) by {
                        assert(pre.slot_ok(i));
                    }
                    assert(self.wf());
                    self.lemma_finish_redirect(pre, rb as int, ra as int, b as int, a as int);
                }
                Ok(())
            },
            (TypeInfo::Num, TypeInfo::Num) => Ok(()),
            _ => {
                proof {
                    assert(false);
                }
                Ok(())
            },
        }
    }

    /// After redirecting root `ra` onto root `rb`, every class's resolution
    /// is accounted for: the old `ra` class now resolves like `rb`, and
    /// everything else is untouched.
    proof fn lemma_finish_redirect(self, pre: Engine, ra: int, rb: int, a: int, b: int)
        requires
            pre.wf(),
            self.wf(),
            0 <= ra < pre@.len(),
            0 <= rb < pre@.len(),
            ra != rb,
            !(pre@[ra].0 is Ref),
            !(pre@[rb].0 is Ref),
            self@ == pre@.update(ra, (TypeInfo::Ref(rb as usize), pre@[rb].1)),
            0 <= a < pre@.len(),
            0 <= b < pre@.len(),
            pre.root_of(a) == ra,
            pre.root_of(b) == rb,
            pre@.len() <= usize::MAX,
        ensures
            forall|k: int|
                0 <= k < pre@.len() ==> self.root_of(k) == (if pre.root_of(k) == ra {
                    rb
                } else {
                    pre.root_of(k)
                }),
            forall|k: int|
                0 <= k < pre@.len() ==> self.resolve(k) == (if pre.root_of(k) == ra {
                    pre@[rb]
                } else {
                    pre.resolve(k)
                }),
    {
        assert forall|k: int|
            0 <= k < pre@.len() implies self.root_of(k) == (if pre.root_of(k) == ra {
            rb
        } else {
            pre.root_of(k)
        }) by {
            Engine::lemma_root_update(pre, self, ra, rb, k);
        }
        assert forall|k: int|
            0 <= k < pre@.len() implies self.resolve(k) == (if pre.root_of(k) == ra {
            pre@[rb]
        } else {
            pre.resolve(k)
        }) by {
            pre.lemma_root(k);
        }
    }

    /// Dereference slot `id`'s reference chain down to a concrete type,
    /// keeping the span of the queried slot; fail with the cannot-infer-type
    /// diagnostic, carrying the chain end's span, exactly when the chain
    /// ends unresolved.
    pub fn reconstruct(&self, id: TypeId) -> (r: Result<Spanned<Type>, TypecheckError>)
        requires
            self.wf(),
            id < self@.len(),
        ensures
            match r {
                Result::Ok(t) => self.known(id as int) && t == (Type::Num, self@[id as int].1),
                Result::Err(e) => {
                    &&& !self.known(id as int)
                    &&& e == (TypecheckError::CannotInferType { span: self.resolve(id as int).1 })
                },
            },
    {
        let root = self.find_root(id);
        match self.slots[root].0 {
            TypeInfo::Num => Ok((Type::Num, self.slots[id].1)),
            _ => {
                proof {
                    assert(!(self@[root as int].0 is Ref));
                }
                Err(TypecheckError::CannotInferType { span: self.slots[root].1 })
            },
        }
    }
}

} // verus!
