//! A persistent singly-linked list.
//!
//! Prepending an element or dropping the head never mutates or invalidates
//! existing list handles: nodes are shared by reference count, so several
//! handles may reach the same suffix at once. Every operation is read-only
//! on existing nodes; `prepend` and `tail` compose handles out of the nodes
//! that are already there.
//!
//! Each handle is specified through its view, the sequence of its elements
//! from head to tail.

use std::rc::Rc;
use vstd::prelude::*;

verus! {

/// One cell of a chain: an element and a shared link to the rest.
/// A node is never changed after it is built, which is what makes
/// sharing it between handles safe.
struct Node<T> {
    elem: T,
    next: Option<Rc<Node<T>>>,
}

/// A handle onto a persistent list: a nullable shared link to the
/// first node. Cheap to derive from (`prepend`, `tail`) and cheap to
/// read (`head`, `iter`); never mutated in place.
pub struct List<T> {
    head: Option<Rc<Node<T>>>,
}

/// The elements stored in the chain that starts at `n`, front first.
spec fn node_elems<T>(n: Node<T>) -> Seq<T>
    decreases n,
{
    match n.next {
        None => seq![n.elem],
        Some(m) => seq![n.elem] + node_elems(*m),
    }
}

/// The elements reachable through a link, front first; empty for the
/// null link.
spec fn link_elems<T>(l: Option<Rc<Node<T>>>) -> Seq<T> {
    match l {
        None => Seq::empty(),
        Some(n) => node_elems(*n),
    }
}

/// What one `tail` step does to a view: the empty sequence stays
/// empty, anything else loses its first element.
pub open spec fn tail_seq<T>(s: Seq<T>) -> Seq<T> {
    if s.len() == 0 {
        s
    } else {
        s.drop_first()
    }
}

impl<T> View for List<T> {
    type V = Seq<T>;

    closed spec fn view(&self) -> Seq<T> {
        link_elems(self.head)
    }
}

impl<T> List<T> {
    /// The empty list.
    pub fn new() -> (r: List<T>)
        ensures
            r@ == Seq::<T>::empty(),
    {
        List { head: None }
    }

    /// A new handle whose first element is `elem` and whose remainder is
    /// this list. The receiver is only borrowed: it stays valid, and the
    /// two handles share every node below the new head.
    pub fn prepend(&self, elem: T) -> (r: List<T>)
        ensures
            r@ == seq![elem] + self@,
    {
        let next = match &self.head {
            None => None,
            Some(rc) => Some(rc.clone()),
        };
        let r = List { head: Some(Rc::new(Node { elem, next })) };
        proof {
            assert(r@ =~= seq![elem] + self@);
        }
        r
    }

    /// A new handle onto everything after the first element; the empty
    /// list yields another empty list. The receiver stays valid, and the
    /// two handles share every node of the result.
    pub fn tail(&self) -> (r: List<T>)
        ensures
            r@ == tail_seq(self@),
    {
        let head = match &self.head {
            None => None,
            Some(rc) => match &rc.next {
                None => None,
                Some(next_rc) => Some(next_rc.clone()),
            },
        };
        let r = List { head };
        proof {
            assert(r@ =~= tail_seq(self@));
        }
        r
    }

    /// A borrowed view of the first element, or `None` on the empty list.
    pub fn head(&self) -> (r: Option<&T>)
        ensures
            match r {
                Some(v) => self@.len() > 0 && *v == self@[0],
                None => self@.len() == 0,
            },
    {
        match &self.head {
            None => None,
            Some(rc) => Some(&rc.elem),
        }
    }

    /// A fresh cursor over this list's elements, front first. Each call
    /// starts a new traversal; the list itself is never touched.
    pub fn iter(&self) -> (it: Iter<'_, T>)
        ensures
            it@ == self@,
    {
        Iter {
            next: match &self.head {
                None => None,
                Some(rc) => Some(&**rc),
            },
        }
    }
}

/// Relies on Rc::try_unwrap: when this handle is the only one to the node
/// the node itself comes back, otherwise the handle comes back unchanged;
/// either way it is the value the handle pointed at, and the call never
/// panics or unwinds. vstd states the result but not the absence of
/// unwinding, which the teardown loop in `drop` needs.
#[verifier::external_body]
fn take_if_sole<T>(rc: Rc<Node<T>>) -> (r: Result<Node<T>, Rc<Node<T>>>)
    ensures
        match r {
            Ok(n) => n == rc,
            Err(e) => e == rc,
        },
    opens_invariants none
    no_unwind
{
    Rc::try_unwrap(rc)
}

/// Walks a chain front to back, reclaiming each node while this link is
/// its last reference and stopping at the first node that some other
/// handle still shares; that node and everything behind it stay alive.
/// The walk is a loop, not recursion through nested destructors, so a
/// deep chain cannot exhaust the stack.
fn release<T>(l: Option<Rc<Node<T>>>)
    opens_invariants none
    no_unwind
{
    let mut link = l;
    loop
        decreases link_elems(link).len(),
    {
        match link {
            None => {
                break;
            },
            Some(rc) => {
                match take_if_sole(rc) {
                    Ok(node) => {
                        let Node { elem: _, next } = node;
                        link = next;
                    },
                    Err(_) => {
                        break;
                    },
                }
            },
        }
    }
}

impl<T> Drop for List<T> {
    /// Hands the handle's chain to the iterative teardown in `release`,
    /// leaving the handle empty first so that nothing reaches the chain
    /// through it while the walk runs. Which nodes the walk then frees is
    /// a matter of reference counts, which the contracts do not model.
    fn drop(&mut self)
        ensures
            final(self)@ == Seq::<T>::empty(),
        opens_invariants none
        no_unwind
    {
        let mut link: Option<Rc<Node<T>>> = None;
        core::mem::swap(&mut link, &mut self.head);
        release(link);
    }
}

/// A forward cursor over a list: a borrowed link to the next unvisited
/// node. Its view is the sequence of elements still to be yielded.
pub struct Iter<'a, T> {
    next: Option<&'a Node<T>>,
}

impl<'a, T> View for Iter<'a, T> {
    type V = Seq<T>;

    closed spec fn view(&self) -> Seq<T> {
        match self.next {
            None => Seq::empty(),
            Some(n) => node_elems(*n),
        }
    }
}

impl<'a, T> Iter<'a, T> {
    /// A borrowed view of the next element, advancing the cursor past it;
    /// `None` once every element has been yielded, with the cursor left
    /// where it is.
    pub fn next(&mut self) -> (r: Option<&'a T>)
        ensures
            match r {
                Some(v) => old(self)@.len() > 0 && *v == old(self)@[0]
                    && final(self)@ == old(self)@.drop_first(),
                None => old(self)@.len() == 0 && final(self)@ == old(self)@,
            },
    {
        match self.next {
            None => None,
            Some(node) => {
                self.next = match &node.next {
                    None => None,
                    Some(rc) => Some(&**rc),
                };
                proof {
                    assert(self@ =~= old(self)@.drop_first());
                }
                Some(&node.elem)
            },
        }
    }
}

/// `tail_seq` applied `n` times over.
pub open spec fn tail_seq_n<T>(s: Seq<T>, n: nat) -> Seq<T>
    decreases n,
{
    if n == 0 {
        s
    } else {
        tail_seq(tail_seq_n(s, (n - 1) as nat))
    }
}

/// While steps remain within the length, `n` tail steps drop exactly the
/// first `n` elements.
proof fn lemma_tail_seq_n_skips<T>(s: Seq<T>, n: nat)
    requires
        n <= s.len(),
    ensures
        tail_seq_n(s, n) == s.skip(n as int),
    decreases n,
{
    if n == 0 {
        assert(s.skip(0) =~= s);
    } else {
        lemma_tail_seq_n_skips(s, (n - 1) as nat);
        assert(s.skip(n as int - 1).drop_first() =~= s.skip(n as int));
    }
}

/// Law: whatever prepends built a list, one more prepend puts its element
/// first. `prepend` ensures the view `seq![e] + s`, whose first element is
/// `e`, and `head` returns exactly the view's first element.
pub proof fn lemma_prepend_puts_elem_first<T>(s: Seq<T>, e: T)
    ensures
        (seq![e] + s)[0] == e,
        (seq![e] + s).len() == s.len() + 1,
{
}

/// Law: prepending never disturbs a handle derived earlier. Every method
/// takes its receiver by shared borrow, so an existing handle's view is
/// the very same value after any number of prepends to other handles; and
/// the new view carries the old one whole behind the new head, so nothing
/// an older handle can observe through `head` or `iter` has moved.
pub proof fn lemma_prepend_keeps_older_view<T>(s: Seq<T>, e: T)
    ensures
        (seq![e] + s).drop_first() == s,
{
    assert((seq![e] + s).drop_first() =~= s);
}

/// Law: taking the tail once per element drains a list to empty, and
/// taking the tail of the drained list still yields an empty list.
pub proof fn lemma_tail_drains_and_stays_empty<T>(s: Seq<T>)
    ensures
        tail_seq_n(s, s.len()).len() == 0,
        tail_seq(tail_seq_n(s, s.len())).len() == 0,
{
    lemma_tail_seq_n_skips(s, s.len());
    assert(s.skip(s.len() as int).len() == 0);
}

} // verus!
