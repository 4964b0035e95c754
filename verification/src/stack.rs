//! A LIFO stack built from individually heap-allocated, exclusively owned
//! nodes. The abstract value of a stack is the sequence of its elements
//! from head (most recently pushed) to tail.

use vstd::prelude::*;

verus! {

/// One link of the chain: an element and the rest of the stack below
/// it (whose head slot is `None` at the end of the chain).
struct Node<T> {
    elem: T,
    rest: List<T>,
}

/// A LIFO stack of elements of type `T`. Its view is the sequence of
/// elements from head (most recently pushed, index 0) to tail.
pub struct List<T> {
    head: Option<Box<Node<T>>>,
}

/// The sequence of elements stored in the chain starting at `l`,
/// head first.
spec fn link_view<T>(l: Option<Box<Node<T>>>) -> Seq<T>
    decreases l,
{
    match l {
        None => Seq::empty(),
        Some(n) => seq![n.elem] + link_view(n.rest.head),
    }
}

impl<T> View for List<T> {
    type V = Seq<T>;

    closed spec fn view(&self) -> Seq<T> {
        link_view(self.head)
    }
}

impl<T> List<T> {
    /// An empty stack.
    pub fn new() -> (r: List<T>)
        ensures
            r@ == Seq::<T>::empty(),
    {
        List { head: None }
    }

    /// Makes `elem` the new head; the previous head becomes its successor.
    pub fn push(&mut self, elem: T)
        ensures
            final(self)@ == seq![elem] + old(self)@,
    {
        let prev = self.head.take();
        self.head = Some(Box::new(Node { elem, rest: List { head: prev } }));
    }

    /// Removes and returns the head element, or `None` when the stack is
    /// empty.
    pub fn pop(&mut self) -> (r: Option<T>)
        ensures
            old(self)@.len() == 0 ==> r.is_none() && final(self)@ == old(self)@,
            old(self)@.len() != 0 ==> r == Some(old(self)@[0])
                && final(self)@ == old(self)@.drop_first(),
    {
        match self.head.take() {
            None => None,
            Some(node) => {
                let mut n = *node;
                self.head = n.rest.head.take();
                proof {
                    assert(old(self)@.drop_first() =~= link_view(self.head));
                }
                Some(n.elem)
            },
        }
    }

    /// A read-only reference to the head element, or `None` when the
    /// stack is empty. The stack itself is untouched.
    pub fn peek(&self) -> (r: Option<&T>)
        ensures
            self@.len() == 0 ==> r.is_none(),
            self@.len() != 0 ==> r.is_some() && *r.unwrap() == self@[0],
    {
        match &self.head {
            None => None,
            Some(node) => Some(&node.elem),
        }
    }

    /// A mutable reference to the head element, or `None` when the stack
    /// is empty. A write through the reference replaces the head element;
    /// the rest of the stack is untouched.
    pub fn peek_mut(&mut self) -> (r: Option<&mut T>)
        ensures
            old(self)@.len() == 0 ==> r.is_none() && final(self)@ == old(self)@,
            old(self)@.len() != 0 ==> r.is_some() && *r.unwrap() == old(self)@[0]
                && final(self)@ == old(self)@.update(0, *final(r.unwrap())),
    {
        match &mut self.head {
            None => None,
            Some(node) => Some(&mut node.elem),
        }
    }
}

/// Frees the chain starting at `*l` iteratively: each node's successor
/// is detached and held locally before the node itself is released, so
/// no recursive destruction of the chain can occur.
fn drop_chain<T>(l: &mut Option<Box<Node<T>>>)
    ensures
        *final(l) is None,
    opens_invariants none
    no_unwind
{
    let mut cur: Option<Box<Node<T>>> = None;
    core::mem::swap(&mut cur, l);
    loop
        decreases cur,
    {
        match cur {
            None => {
                break;
            },
            Some(node) => {
                let mut n = *node;
                cur = None;
                core::mem::swap(&mut cur, &mut n.rest.head);
            },
        }
    }
}

/// Consuming traversal: each step pops the head of the wrapped stack,
/// so elements come out most-recently-pushed first and the stack is
/// empty once the traversal is exhausted.
pub struct ListIntoIter<T>(List<T>);

impl<T> View for ListIntoIter<T> {
    type V = Seq<T>;

    closed spec fn view(&self) -> Seq<T> {
        self.0@
    }
}

impl<T> List<T> {
    /// Turns the stack into a consuming traversal over its elements.
    pub fn into_iter(self) -> (it: ListIntoIter<T>)
        ensures
            it@ == self@,
    {
        ListIntoIter(self)
    }
}

impl<T> ListIntoIter<T> {
    /// Removes and returns the next element, or `None` once every
    /// element has been yielded.
    pub fn next(&mut self) -> (r: Option<T>)
        ensures
            old(self)@.len() == 0 ==> r.is_none() && final(self)@ == old(self)@,
            old(self)@.len() != 0 ==> r == Some(old(self)@[0])
                && final(self)@ == old(self)@.drop_first(),
    {
        self.0.pop()
    }
}

/// Read-only traversal: walks the chain head to tail, yielding a shared
/// reference to each element, and leaves the stack untouched.
pub struct ListIter<'a, T> {
    next: Option<&'a Node<T>>,
}

/// The sequence of elements still to be yielded by a read-only
/// traversal standing at `l`.
spec fn ref_link_view<T>(l: Option<&Node<T>>) -> Seq<T> {
    match l {
        None => Seq::empty(),
        Some(n) => seq![n.elem] + link_view(n.rest.head),
    }
}

impl<'a, T> View for ListIter<'a, T> {
    type V = Seq<T>;

    closed spec fn view(&self) -> Seq<T> {
        ref_link_view(self.next)
    }
}

impl<T> List<T> {
    /// A read-only traversal over the stack, head first. The stack is
    /// only borrowed: it is intact once the traversal is dropped.
    pub fn iter(&self) -> (it: ListIter<'_, T>)
        ensures
            it@ == self@,
    {
        ListIter {
            next: match &self.head {
                None => None,
                Some(node) => Some(&**node),
            },
        }
    }
}

impl<'a, T> ListIter<'a, T> {
    /// Returns a reference to the next element, or `None` once the
    /// traversal has reached the end of the chain.
    pub fn next(&mut self) -> (r: Option<&'a T>)
        ensures
            old(self)@.len() == 0 ==> r.is_none() && final(self)@ == old(self)@,
            old(self)@.len() != 0 ==> r.is_some() && *r.unwrap() == old(self)@[0]
                && final(self)@ == old(self)@.drop_first(),
    {
        match self.next {
            None => None,
            Some(node) => {
                self.next = match &node.rest.head {
                    None => None,
                    Some(succ) => Some(&**succ),
                };
                proof {
                    assert(old(self)@.drop_first() =~= ref_link_view(self.next));
                }
                Some(&node.elem)
            },
        }
    }
}

/// Mutable traversal: walks the chain head to tail, yielding an
/// exclusive reference to each element exactly once. The stack stays
/// exclusively borrowed by the cursor; writes through the yielded
/// references land in the stack.
pub struct ListIterMut<'a, T> {
    /// The part of the stack still to be visited; `None` once the
    /// traversal is exhausted and the borrow has been released.
    pub cursor: Option<&'a mut List<T>>,
}

impl<'a, T> View for ListIterMut<'a, T> {
    type V = Seq<T>;

    open spec fn view(&self) -> Seq<T> {
        match self.cursor {
            None => Seq::empty(),
            Some(c) => c@,
        }
    }
}

impl<T> List<T> {
    /// A mutable traversal over the stack, head first. The stack is
    /// exclusively borrowed for the traversal's lifetime; what it holds
    /// afterwards is exactly what the traversal leaves behind.
    pub fn iter_mut(&mut self) -> (it: ListIterMut<'_, T>)
        ensures
            (match it.cursor {
                None => false,
                Some(c) => *c == *old(self) && final(self)@ == final(c)@,
            }),
            it@ == old(self)@,
    {
        ListIterMut { cursor: Some(self) }
    }
}

impl<'a, T> ListIterMut<'a, T> {
    /// Returns an exclusive reference to the next element, or `None`
    /// once the traversal has reached the end of the chain. The element
    /// the borrowed stack finally holds at this position is whatever
    /// the caller leaves in the yielded reference; the elements below
    /// it are what the rest of the traversal leaves behind.
    pub fn next(&mut self) -> (r: Option<&'a mut T>)
        ensures
            (match old(self).cursor {
                None => r.is_none() && final(self).cursor is None,
                Some(c) => if c@.len() == 0 {
                    r.is_none() && final(self).cursor is None && final(c)@ == c@
                } else {
                    r.is_some() && *r.unwrap() == c@[0] && (match final(self).cursor {
                        None => false,
                        Some(d) => d@ == c@.drop_first()
                            && final(c)@ == seq![*final(r.unwrap())] + final(d)@,
                    })
                },
            }),
    {
        match self.cursor.take() {
            None => None,
            Some(c) => match &mut c.head {
                None => None,
                Some(node) => {
                    self.cursor = Some(&mut node.rest);
                    Some(&mut node.elem)
                },
            },
        }
    }
}

impl<T> Drop for List<T> {
    /// Destroys the stack without recursing over the chain, however
    /// long it is.
    fn drop(&mut self)
        opens_invariants none
        no_unwind
    {
        drop_chain(&mut self.head);
    }
}

/// The contents of a stack that held `base` after the elements of
/// `vs` have been pushed onto it one by one, first `vs[0]`, last
/// `vs[vs.len() - 1]`, as `push` lays them down.
pub open spec fn pushed<T>(base: Seq<T>, vs: Seq<T>) -> Seq<T>
    decreases vs.len(),
{
    if vs.len() == 0 {
        base
    } else {
        pushed(seq![vs[0]] + base, vs.drop_first())
    }
}

/// The LIFO law: after pushing the elements of `vs` in order onto a
/// stack that held `base`, the stack holds them in reverse push order
/// above `base`. Since `pop` always returns the element at index 0 and
/// drops it, popping `vs.len()` times returns the pushed elements most
/// recent first, and then uncovers `base` unchanged.
pub proof fn lemma_lifo_order<T>(base: Seq<T>, vs: Seq<T>)
    ensures
        pushed(base, vs).len() == base.len() + vs.len(),
        forall|i: int|
            0 <= i < vs.len() ==> pushed(base, vs)[i] == vs[vs.len() - 1 - i],
        forall|i: int|
            vs.len() <= i < base.len() + vs.len() ==> pushed(base, vs)[i] == base[i - vs.len()],
    decreases vs.len(),
{
    if vs.len() > 0 {
        lemma_lifo_order(seq![vs[0]] + base, vs.drop_first());
    }
}

} // verus!
