//! The list type and its operations.

use vstd::prelude::*;
use vstd::std_specs::cmp::PartialEqSpec;

verus! {

/// One link in the chain: a payload together with exclusive ownership of
/// the rest of the list from this point on.
pub struct Node<T> {
    data: T,
    next: Option<Box<Node<T>>>,
}

impl<T> Node<T> {
    /// The sequence of payloads reachable from this cell, this cell's
    /// payload first.
    pub closed spec fn elems(self) -> Seq<T>
        decreases self,
    {
        match self.next {
            None => seq![self.data],
            Some(n) => seq![self.data] + n.elems(),
        }
    }

    /// Read-only access to this cell's payload.
    pub fn data(&self) -> (r: &T)
        ensures
            *r == self.elems()[0],
    {
        &self.data
    }

    /// Replaces this cell's payload with `v`; the rest of the chain is
    /// untouched.
    pub fn mut_data(&mut self, v: T)
        ensures
            final(self).elems() == old(self).elems().update(0, v),
    {
        self.data = v;
        proof {
            assert(self.elems() =~= old(self).elems().update(0, v));
        }
    }
}

/// The payloads reachable from an optional first cell; empty when there is
/// no cell.
pub closed spec fn opt_elems<T>(o: Option<Box<Node<T>>>) -> Seq<T>
    decreases o,
{
    match o {
        None => Seq::empty(),
        Some(n) => n.elems(),
    }
}

/// A singly-linked list. The chain is owned through `head`; `idx` is the
/// internal cursor of the restartable shared traversal (`next`), and
/// `length` caches the number of cells.
///
/// The internal cursor is shared state: two interleaved shared traversals
/// of one list interfere with each other, so a traversal must be driven by
/// a single caller at a time.
pub struct NodeList<T> {
    head: Option<Box<Node<T>>>,
    idx: usize,
    length: usize,
}

impl<T> NodeList<T> {
    /// The mathematical contents of the list, front first.
    pub closed spec fn elems(self) -> Seq<T> {
        opt_elems(self.head)
    }

    /// The position of the internal cursor of the shared traversal.
    pub closed spec fn cursor(self) -> nat {
        self.idx as nat
    }

    /// The cached length agrees with the chain.
    pub closed spec fn wf(self) -> bool {
        self.length == self.elems().len()
    }
}

impl<T> View for NodeList<T> {
    type V = Seq<T>;

    open spec fn view(&self) -> Seq<T> {
        self.elems()
    }
}

impl<T> NodeList<T> {
    /// An empty list with the traversal cursor at the front.
    pub fn new() -> (r: NodeList<T>)
        ensures
            r.wf(),
            r@ == Seq::<T>::empty(),
            r.cursor() == 0,
    {
        NodeList { head: None, idx: 0, length: 0 }
    }

    /// The number of elements in the list.
    pub fn len(&self) -> (r: usize)
        requires
            self.wf(),
        ensures
            r == self@.len(),
    {
        self.length
    }
}

/// Appends `v` at the end of the chain starting at `node`.
fn push_opt<T>(node: &mut Option<Box<Node<T>>>, v: T)
    ensures
        opt_elems(*final(node)) == opt_elems(*old(node)).push(v),
    decreases *old(node),
{
    match node.take() {
        None => {
            *node = Some(Box::new(Node { data: v, next: None }));
            proof {
                assert(opt_elems(*node) =~= opt_elems(*old(node)).push(v));
            }
        }
        Some(mut b) => {
            push_opt(&mut b.next, v);
            *node = Some(b);
            proof {
                assert(opt_elems(*node) =~= opt_elems(*old(node)).push(v));
            }
        }
    }
}

impl<T> NodeList<T> {
    /// Appends `v` at the end of the list.
    pub fn push(&mut self, v: T)
        requires
            old(self).wf(),
            old(self)@.len() < usize::MAX,
        ensures
            final(self).wf(),
            final(self)@ == old(self)@.push(v),
            final(self).cursor() == old(self).cursor(),
    {
        push_opt(&mut self.head, v);
        self.length = self.length + 1;
    }

    /// Prepends `v` at the front of the list.
    pub fn unshift(&mut self, v: T)
        requires
            old(self).wf(),
            old(self)@.len() < usize::MAX,
        ensures
            final(self).wf(),
            final(self)@ == seq![v] + old(self)@,
            final(self).cursor() == old(self).cursor(),
    {
        let rest = self.head.take();
        self.head = Some(Box::new(Node { data: v, next: rest }));
        self.length = self.length + 1;
        proof {
            assert(self.elems() =~= seq![v] + old(self).elems());
        }
    }

    /// Removes and returns the first element; absent when the list is
    /// empty.
    pub fn shift(&mut self) -> (r: Option<T>)
        requires
            old(self).wf(),
        ensures
            final(self).wf(),
            final(self).cursor() == old(self).cursor(),
            old(self)@.len() == 0 ==> r is None && *final(self) == *old(self),
            old(self)@.len() > 0 ==> r == Some(old(self)@[0]) && final(self)@ == old(self)@.drop_first(),
    {
        match self.head.take() {
            None => None,
            Some(b) => {
                let Node { data, next } = *b;
                self.head = next;
                self.length = self.length - 1;
                proof {
                    assert(self.elems() =~= old(self).elems().drop_first());
                }
                Some(data)
            }
        }
    }
}

/// A cell always carries at least its own payload.
proof fn lemma_node_elems_len<T>(n: Node<T>)
    ensures
        n.elems().len() >= 1,
        n.elems()[0] == n.data,
    decreases n,
{
    match n.next {
        None => {}
        Some(m) => {
            lemma_node_elems_len(*m);
        }
    }
}

/// Removes the cell just before the tail of the chain starting at `node`,
/// by detaching the link that owns it; the final cell goes with it. The
/// detached cell's payload is returned. Chains of fewer than two cells are
/// left unchanged.
fn pop_opt<T>(node: &mut Option<Box<Node<T>>>) -> (r: Option<T>)
    ensures
        opt_elems(*old(node)).len() < 2 ==> r is None && *final(node) == *old(node),
        opt_elems(*old(node)).len() >= 2 ==> {
            let s = opt_elems(*old(node));
            r == Some(s[s.len() - 2]) && opt_elems(*final(node)) == s.take(s.len() - 2)
        },
    decreases *old(node),
{
    match node.take() {
        None => None,
        Some(mut b) => {
            match b.next.take() {
                None => {
                    *node = Some(b);
                    None
                }
                Some(b2) => {
                    proof {
                        let s = opt_elems(*old(node));
                        assert(s == seq![b.data] + b2.elems());
                        lemma_node_elems_len(*b2);
                    }
                    if b2.next.is_none() {
                        // `b` is the second-to-last cell: detaching the
                        // link to it drops `b2` with it.
                        proof {
                            let s = opt_elems(*old(node));
                            assert(b2.elems() == seq![b2.data]);
                            assert(s.len() == 2);
                            assert(s[0] == b.data);
                            assert(opt_elems(*node) =~= s.take(s.len() - 2));
                        }
                        Some(b.data)
                    } else {
                        proof {
                            lemma_node_elems_len(*b2.next->Some_0);
                            assert(b2.elems().len() >= 2);
                        }
                        b.next = Some(b2);
                        let r = pop_opt(&mut b.next);
                        *node = Some(b);
                        proof {
                            let s = opt_elems(*old(node));
                            let t = b2.elems();
                            assert(s.len() == 1 + t.len());
                            assert(t[t.len() - 2] == s[s.len() - 2]);
                            assert(opt_elems(*node) == seq![b.data] + t.take(t.len() - 2));
                            assert(opt_elems(*node) =~= s.take(s.len() - 2));
                        }
                        r
                    }
                }
            }
        }
    }
}

impl<T> NodeList<T> {
    /// Removes the second-to-last element and returns its value; the last
    /// element, owned by the removed cell, is dropped with it. Absent on a
    /// list of fewer than two elements, which is left unchanged.
    pub fn pop(&mut self) -> (r: Option<T>)
        requires
            old(self).wf(),
        ensures
            final(self).wf(),
            final(self).cursor() == old(self).cursor(),
            old(self)@.len() < 2 ==> r is None && *final(self) == *old(self),
            old(self)@.len() >= 2 ==> r == Some(old(self)@[old(self)@.len() - 2])
                && final(self)@ == old(self)@.take(old(self)@.len() - 2),
    {
        let r = pop_opt(&mut self.head);
        if r.is_some() {
            self.length = self.length - 2;
        }
        r
    }
}

/// Inserts `v` before position `i` of the chain starting at `node`;
/// returns whether the chain was long enough for the insertion.
fn insert_opt<T>(node: &mut Option<Box<Node<T>>>, v: T, i: usize) -> (r: bool)
    ensures
        ({
            let s = opt_elems(*old(node));
            &&& i <= s.len() ==> r && opt_elems(*final(node)) == s.take(i as int) + seq![v]
                + s.skip(i as int)
            &&& i > s.len() ==> !r && *final(node) == *old(node)
        }),
    decreases *old(node),
{
    if i == 0 {
        let rest = node.take();
        *node = Some(Box::new(Node { data: v, next: rest }));
        proof {
            let s = opt_elems(*old(node));
            assert(opt_elems(*node) =~= s.take(0) + seq![v] + s.skip(0));
        }
        true
    } else {
        match node.take() {
            None => false,
            Some(mut b) => {
                let r = insert_opt(&mut b.next, v, i - 1);
                *node = Some(b);
                proof {
                    let s = opt_elems(*old(node));
                    let t = s.drop_first();
                    assert(s == seq![b.data] + t);
                    if i <= s.len() {
                        assert(opt_elems(*node) == seq![b.data] + (t.take(i - 1) + seq![v]
                            + t.skip(i - 1)));
                        assert(opt_elems(*node) =~= s.take(i as int) + seq![v] + s.skip(i as int));
                    }
                }
                r
            }
        }
    }
}

impl<T> NodeList<T> {
    /// Inserts `v` before position `i`: at the front when `i` is 0, after
    /// the cell at `i - 1` otherwise. When the list is shorter than `i`
    /// the list is left unchanged and the result is absent; on success the
    /// result is the position of the inserted cell, usable as a read-only
    /// handle with `get`.
    pub fn insert(&mut self, v: T, i: usize) -> (r: Option<usize>)
        requires
            old(self).wf(),
            old(self)@.len() < usize::MAX,
        ensures
            final(self).wf(),
            final(self).cursor() == old(self).cursor(),
            i <= old(self)@.len() ==> r == Some(i) && final(self)@ == old(self)@.take(i as int)
                + seq![v] + old(self)@.skip(i as int),
            i > old(self)@.len() ==> r is None && *final(self) == *old(self),
    {
        let ok = insert_opt(&mut self.head, v, i);
        if ok {
            self.length = self.length + 1;
            Some(i)
        } else {
            None
        }
    }
}

/// Reads the payload at position `i` of the chain starting at `node`.
fn get_opt<'a, T>(node: &'a Option<Box<Node<T>>>, i: usize) -> (r: &'a T)
    requires
        i < opt_elems(*node).len(),
    ensures
        *r == opt_elems(*node)[i as int],
    decreases node,
{
    let b = node.as_ref().unwrap();
    if i == 0 {
        proof {
            lemma_node_elems_len(**b);
        }
        &b.data
    } else {
        proof {
            assert(opt_elems(*node) == seq![b.data] + opt_elems(b.next));
        }
        get_opt(&b.next, i - 1)
    }
}

/// Replaces the payload at position `i` of the chain starting at `node`.
fn set_opt<T>(node: &mut Option<Box<Node<T>>>, i: usize, v: T)
    requires
        i < opt_elems(*old(node)).len(),
    ensures
        opt_elems(*final(node)) == opt_elems(*old(node)).update(i as int, v),
    decreases *old(node),
{
    let mut b = node.take().unwrap();
    if i == 0 {
        b.mut_data(v);
        *node = Some(b);
        proof {
            let s = opt_elems(*old(node));
            assert(opt_elems(*node) =~= s.update(0, v));
        }
    } else {
        set_opt(&mut b.next, i - 1, v);
        *node = Some(b);
        proof {
            let s = opt_elems(*old(node));
            let t = s.drop_first();
            assert(s == seq![b.data] + t);
            assert(opt_elems(*node) == seq![b.data] + t.update(i - 1, v));
            assert(opt_elems(*node) =~= s.update(i as int, v));
        }
    }
}

impl<T> NodeList<T> {
    /// Reads the element at position `i`; the position must be in range.
    pub fn get(&self, i: usize) -> (r: &T)
        requires
            self.wf(),
            i < self@.len(),
        ensures
            *r == self@[i as int],
    {
        get_opt(&self.head, i)
    }

    /// Replaces the element at position `i`; the position must be in
    /// range.
    pub fn set(&mut self, i: usize, v: T)
        requires
            old(self).wf(),
            i < old(self)@.len(),
        ensures
            final(self).wf(),
            final(self).cursor() == old(self).cursor(),
            final(self)@ == old(self)@.update(i as int, v),
    {
        set_opt(&mut self.head, i, v);
    }
}

/// The position of the first element of `s` equal to `x` under the
/// element type's equality, or absence when no element is.
pub open spec fn find_pos<T: PartialEq>(s: Seq<T>, x: T) -> Option<int>
    decreases s.len(),
{
    if s.len() == 0 {
        None
    } else if s[0].eq_spec(&x) {
        Some(0int)
    } else {
        match find_pos(s.drop_first(), x) {
            None => None,
            Some(i) => Some(i + 1),
        }
    }
}

/// A found position is in range, carries an element equal to `x`, and is
/// the first such position; absence means no element of `s` is equal to
/// `x` — in particular, nothing is ever found in an empty sequence.
pub proof fn lemma_find_pos_first<T: PartialEq>(s: Seq<T>, x: T)
    ensures
        match find_pos(s, x) {
            None => forall|j: int| 0 <= j < s.len() ==> !s[j].eq_spec(&x),
            Some(i) => 0 <= i < s.len() && s[i].eq_spec(&x) && forall|j: int|
                0 <= j < i ==> !s[j].eq_spec(&x),
        },
    decreases s.len(),
{
    if s.len() > 0 && !s[0].eq_spec(&x) {
        lemma_find_pos_first(s.drop_first(), x);
        let t = s.drop_first();
        match find_pos(t, x) {
            None => {
                assert forall|j: int| 0 <= j < s.len() implies !s[j].eq_spec(&x) by {
                    if j > 0 {
                        assert(s[j] == t[j - 1]);
                    }
                }
            }
            Some(i) => {
                assert(s[i + 1] == t[i]);
                assert forall|j: int| 0 <= j < i + 1 implies !s[j].eq_spec(&x) by {
                    if j > 0 {
                        assert(s[j] == t[j - 1]);
                    }
                }
            }
        }
    }
}

/// Finds the first cell of the chain starting at `node` whose payload
/// equals `x`.
fn find_opt<'a, T: PartialEq>(node: &'a Option<Box<Node<T>>>, x: &T) -> (r: Option<&'a Node<T>>)
    ensures
        T::obeys_eq_spec() ==> match find_pos(opt_elems(*node), *x) {
            None => r is None,
            Some(i) => r matches Some(n) && n.elems() == opt_elems(*node).skip(i),
        },
    decreases node,
{
    match node {
        None => None,
        Some(b) => {
            proof {
                assert(opt_elems(*node) == seq![b.data] + opt_elems(b.next));
            }
            if b.data.eq(x) {
                proof {
                    if T::obeys_eq_spec() {
                        assert(b.elems() =~= opt_elems(*node).skip(0));
                    }
                }
                Some(&**b)
            } else {
                let r = find_opt(&b.next, x);
                proof {
                    if T::obeys_eq_spec() {
                        let s = opt_elems(*node);
                        let t = opt_elems(b.next);
                        assert(s.drop_first() =~= t);
                        lemma_find_pos_first(t, *x);
                        match find_pos(t, *x) {
                            None => {}
                            Some(i) => {
                                assert(t.skip(i) =~= s.skip(i + 1));
                            }
                        }
                    }
                }
                r
            }
        }
    }
}

impl<T: PartialEq> NodeList<T> {
    /// Scans from the front for the first element equal to `x` and
    /// returns its cell as a read-only handle; absent when the list is
    /// empty or no element is equal to `x`.
    pub fn find(&self, x: T) -> (r: Option<&Node<T>>)
        ensures
            T::obeys_eq_spec() ==> match find_pos(self@, x) {
                None => r is None,
                Some(i) => r matches Some(n) && n.elems() == self@.skip(i),
            },
    {
        find_opt(&self.head, &x)
    }
}

/// Reads the last payload of the chain starting at `node`.
fn last_opt<'a, T>(node: &'a Option<Box<Node<T>>>) -> (r: Option<&'a T>)
    ensures
        opt_elems(*node).len() == 0 ==> r is None,
        opt_elems(*node).len() > 0 ==> (r matches Some(v) && *v == opt_elems(*node).last()),
    decreases node,
{
    match node {
        None => None,
        Some(b) => {
            proof {
                assert(opt_elems(*node) == seq![b.data] + opt_elems(b.next));
            }
            match last_opt(&b.next) {
                None => Some(&b.data),
                Some(v) => Some(v),
            }
        }
    }
}

impl<T> NodeList<T> {
    /// The last element of the list; absent when the list is empty.
    pub fn tail(&self) -> (r: Option<&T>)
        ensures
            self@.len() == 0 ==> r is None,
            self@.len() > 0 ==> (r matches Some(v) && *v == self@.last()),
    {
        last_opt(&self.head)
    }
}

impl<T: Copy> NodeList<T> {
    /// One step of the restartable shared traversal: yields the element
    /// under the internal cursor and advances it. Past the last element
    /// the cursor resets to the front, so the following calls traverse
    /// the list again from the start. On an empty list nothing is yielded
    /// and the cursor keeps its position.
    pub fn next(&mut self) -> (r: Option<T>)
        requires
            old(self).wf(),
        ensures
            final(self).wf(),
            final(self)@ == old(self)@,
            old(self)@.len() == 0 ==> r is None && *final(self) == *old(self),
            old(self).cursor() < old(self)@.len() ==> r == Some(
                old(self)@[old(self).cursor() as int],
            ) && final(self).cursor() == old(self).cursor() + 1,
            old(self)@.len() > 0 && old(self).cursor() >= old(self)@.len() ==> r is None
                && final(self).cursor() == 0,
    {
        if self.length == 0 {
            return None;
        }
        if self.idx < self.length {
            let i = self.idx;
            let v = *self.get(i);
            self.idx = i + 1;
            Some(v)
        } else {
            self.idx = 0;
            None
        }
    }
}

/// A one-shot read-only cursor, anchored at the front of a list when it
/// is created and positioned independently of any other cursor.
pub struct Iter {
    pos: usize,
}

impl Iter {
    /// The number of elements already yielded.
    pub closed spec fn position(self) -> nat {
        self.pos as nat
    }

    /// Yields the element of `list` under this cursor and advances;
    /// absent, and the cursor stays put, once the end is passed.
    pub fn next<'a, T>(&mut self, list: &'a NodeList<T>) -> (r: Option<&'a T>)
        requires
            list.wf(),
        ensures
            old(self).position() < list@.len() ==> (r matches Some(v) && *v == list@[old(
                self,
            ).position() as int] && final(self).position() == old(self).position() + 1),
            old(self).position() >= list@.len() ==> r is None && *final(self) == *old(self),
    {
        if self.pos < list.len() {
            let i = self.pos;
            self.pos = i + 1;
            Some(list.get(i))
        } else {
            None
        }
    }
}

/// A one-shot forward cursor for updating a list in place, positioned
/// independently of any other cursor. Reads go through `next`, writes to
/// the element most recently yielded go through `set`.
pub struct MutIter {
    pos: usize,
}

impl MutIter {
    /// The number of elements already yielded.
    pub closed spec fn position(self) -> nat {
        self.pos as nat
    }

    /// Yields the element of `list` under this cursor and advances;
    /// absent, and the cursor stays put, once the end is passed.
    pub fn next<'a, T>(&mut self, list: &'a NodeList<T>) -> (r: Option<&'a T>)
        requires
            list.wf(),
        ensures
            old(self).position() < list@.len() ==> (r matches Some(v) && *v == list@[old(
                self,
            ).position() as int] && final(self).position() == old(self).position() + 1),
            old(self).position() >= list@.len() ==> r is None && *final(self) == *old(self),
    {
        if self.pos < list.len() {
            let i = self.pos;
            self.pos = i + 1;
            Some(list.get(i))
        } else {
            None
        }
    }

    /// Replaces the element most recently yielded by `next`. False, and
    /// the list is unchanged, when nothing has been yielded yet or the
    /// yielded position is no longer inside the list.
    pub fn set<T>(&self, list: &mut NodeList<T>, v: T) -> (r: bool)
        requires
            old(list).wf(),
        ensures
            final(list).wf(),
            final(list).cursor() == old(list).cursor(),
            1 <= self.position() && self.position() <= old(list)@.len() ==> (r && final(list)@
                == old(list)@.update(self.position() as int - 1, v)),
            !(1 <= self.position() && self.position() <= old(list)@.len()) ==> (!r && *final(list)
                == *old(list)),
    {
        if 1 <= self.pos && self.pos <= list.len() {
            list.set(self.pos - 1, v);
            true
        } else {
            false
        }
    }
}

impl<T> NodeList<T> {
    /// Unlinks every cell, front first, leaving the list empty. Each cell
    /// is freed on its own, so no chain of destructions runs through the
    /// whole list at once.
    pub fn drop(&mut self)
        requires
            old(self).wf(),
        ensures
            final(self).wf(),
            final(self)@ == Seq::<T>::empty(),
            final(self).cursor() == old(self).cursor(),
    {
        loop
            invariant
                self.wf(),
                self.cursor() == old(self).cursor(),
            ensures
                self.wf(),
                self.cursor() == old(self).cursor(),
                self@.len() == 0,
            decreases self@.len(),
        {
            if self.shift().is_none() {
                break;
            }
        }
        proof {
            assert(self@ =~= Seq::<T>::empty());
        }
    }

    /// Consumes the list, draining it from the front into a vector; the
    /// list's own storage is destroyed as it is consumed.
    pub fn into_vec(self) -> (r: Vec<T>)
        requires
            self.wf(),
        ensures
            r@ == self@,
    {
        let ghost orig: Seq<T> = self@;
        let mut l = self;
        let mut v: Vec<T> = Vec::new();
        loop
            invariant
                l.wf(),
                v@ + l@ == orig,
            ensures
                l@.len() == 0,
                v@ + l@ == orig,
            decreases l@.len(),
        {
            match l.shift() {
                None => break,
                Some(x) => {
                    v.push(x);
                    proof {
                        assert(v@ + l@ =~= orig);
                    }
                }
            }
        }
        proof {
            assert(v@ =~= v@ + l@);
        }
        v
    }

    /// A fresh one-shot read-only cursor anchored at the current front.
    pub fn iter(&self) -> (r: Iter)
        ensures
            r.position() == 0,
    {
        Iter { pos: 0 }
    }

    /// A fresh one-shot updating cursor anchored at the current front.
    pub fn mut_iter(&self) -> (r: MutIter)
        ensures
            r.position() == 0,
    {
        MutIter { pos: 0 }
    }
}

impl<T> NodeList<T> {
    /// Replaces every element with what `f` makes of it, front to back.
    pub fn my_map<F: Fn(&T) -> T>(&mut self, f: F)
        requires
            old(self).wf(),
            forall|i: int| 0 <= i < old(self)@.len() ==> call_requires(f, (&old(self)@[i],)),
        ensures
            final(self).wf(),
            final(self).cursor() == old(self).cursor(),
            final(self)@.len() == old(self)@.len(),
            forall|i: int| 0 <= i < old(self)@.len() ==> call_ensures(
                f,
                (&old(self)@[i],),
                final(self)@[i],
            ),
    {
        let n = self.len();
        let mut k: usize = 0;
        while k < n
            invariant
                forall|i: int| 0 <= i < old(self)@.len() ==> call_requires(f, (&old(self)@[i],)),
                self.wf(),
                self.cursor() == old(self).cursor(),
                self@.len() == old(self)@.len(),
                n == self@.len(),
                k <= n,
                forall|i: int| 0 <= i < k ==> call_ensures(f, (&old(self)@[i],), self@[i]),
                forall|i: int| k <= i < self@.len() ==> self@[i] == old(self)@[i],
            decreases n - k,
        {
            let v = f(self.get(k));
            self.set(k, v);
            k = k + 1;
        }
    }
}

impl NodeList<u32> {
    /// A small ready-made list holding 10, 20 and 99, front first.
    pub fn make_test() -> (r: NodeList<u32>)
        ensures
            r.wf(),
            r@ == seq![10u32, 20u32, 99u32],
            r.cursor() == 0,
    {
        let mut l = NodeList::<u32>::new();
        l.push(10);
        l.push(20);
        l.push(99);
        proof {
            assert(l@ =~= seq![10u32, 20u32, 99u32]);
        }
        l
    }
}

/// A mutable traversal that adds a constant to every element, one cursor
/// step at a time; a read-only traversal afterwards sees every element
/// increased by `c`.
pub fn add_to_all(list: &mut NodeList<u32>, c: u32)
    requires
        old(list).wf(),
        forall|i: int| 0 <= i < old(list)@.len() ==> old(list)@[i] + c <= u32::MAX,
    ensures
        final(list).wf(),
        final(list).cursor() == old(list).cursor(),
        final(list)@.len() == old(list)@.len(),
        forall|i: int| 0 <= i < old(list)@.len() ==> final(list)@[i] == old(list)@[i] + c,
{
    let mut it = list.mut_iter();
    loop
        invariant
            forall|i: int| 0 <= i < old(list)@.len() ==> old(list)@[i] + c <= u32::MAX,
            list.wf(),
            list.cursor() == old(list).cursor(),
            list@.len() == old(list)@.len(),
            it.position() <= list@.len(),
            forall|i: int| 0 <= i < it.position() ==> list@[i] == old(list)@[i] + c,
            forall|i: int| it.position() <= i < list@.len() ==> list@[i] == old(list)@[i],
        ensures
            list.wf(),
            list.cursor() == old(list).cursor(),
            list@.len() == old(list)@.len(),
            forall|i: int| 0 <= i < list@.len() ==> list@[i] == old(list)@[i] + c,
        decreases list@.len() - it.position(),
    {
        let x = match it.next(list) {
            None => break,
            Some(v) => *v,
        };
        proof {
            let p = it.position() as int - 1;
            assert(x == old(list)@[p]);
            assert(x + c <= u32::MAX);
        }
        it.set(list, x + c);
    }
}

} // verus!
