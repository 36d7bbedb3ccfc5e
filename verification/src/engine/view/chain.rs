//! The composite view: an ordered sequence of views that itself acts as one
//! view by handing every event to every child.

use vstd::prelude::*;
use crate::engine::geometry::Rect;
use crate::engine::input::MouseButton;
use crate::engine::view::UiView;

verus! {

/// An ordered sequence of views with the rectangle around them. Later
/// children are drawn on top of earlier ones; every child sees every event.
pub struct ViewChain<V> {
    views: Vec<V>,
    bound: Rect,
}

/// The rectangle of a chain whose children had these rectangles when they
/// were added, in this order: the first gives the chain its rectangle, and
/// every further one is joined to what was there. A chain without children
/// has the single pixel at the origin.
pub open spec fn union_of_bounds(bounds: Seq<Rect>) -> Rect
    decreases bounds.len(),
{
    if bounds.len() == 0 {
        Rect { x: 0, y: 0, w: 1, h: 1 }
    } else if bounds.len() == 1 {
        bounds[0]
    } else {
        union_of_bounds(bounds.drop_last()).spec_union(bounds.last())
    }
}

/// The rectangle of a chain after one more child has been added.
pub proof fn lemma_union_of_bounds_push(bounds: Seq<Rect>, next: Rect)
    ensures
        union_of_bounds(bounds.push(next)) == (if bounds.len() == 0 {
            next
        } else {
            union_of_bounds(bounds).spec_union(next)
        }),
{
    assert(bounds.push(next).drop_last() =~= bounds);
}

/// The rectangle of a chain after its first `k + 1` children, from the one
/// after its first `k`.
pub proof fn lemma_union_of_bounds_take(bounds: Seq<Rect>, k: int)
    requires
        0 <= k < bounds.len(),
    ensures
        union_of_bounds(bounds.take(k + 1)) == (if k == 0 {
            bounds[0]
        } else {
            union_of_bounds(bounds.take(k)).spec_union(bounds[k])
        }),
{
    assert(bounds.take(k + 1) =~= bounds.take(k).push(bounds[k]));
    lemma_union_of_bounds_push(bounds.take(k), bounds[k]);
}

/// What the key `key` going down fires in the first `n` of the views, child
/// after child.
pub open spec fn chain_fired_by_key_down<A, V: UiView<A>>(views: Seq<V>, key: i32, n: nat) -> Seq<A>
    decreases n,
{
    if n == 0 {
        Seq::empty()
    } else {
        chain_fired_by_key_down::<A, V>(views, key, (n - 1) as nat) + views[n
            - 1].fired_by_key_down(key)
    }
}

/// What a mouse button going down fires in the first `n` of the views, child
/// after child.
pub open spec fn chain_fired_by_mouse_button_down<A, V: UiView<A>>(
    views: Seq<V>,
    button: MouseButton,
    x: i32,
    y: i32,
    n: nat,
) -> Seq<A>
    decreases n,
{
    if n == 0 {
        Seq::empty()
    } else {
        chain_fired_by_mouse_button_down::<A, V>(views, button, x, y, (n - 1) as nat) + views[n
            - 1].fired_by_mouse_button_down(button, x, y)
    }
}

impl<V> ViewChain<V> {
    /// The children, in the order in which they were added.
    pub closed spec fn children(&self) -> Seq<V> {
        self.views@
    }

    /// The rectangle of the chain.
    pub closed spec fn bound(&self) -> Rect {
        self.bound
    }

    /// A chain without children.
    pub fn new() -> (chain: ViewChain<V>)
        ensures
            chain.children() == Seq::<V>::empty(),
            chain.bound() == (Rect { x: 0, y: 0, w: 1, h: 1 }),
    {
        ViewChain { views: Vec::new(), bound: Rect::new(0, 0, 0, 0) }
    }

    /// The number of children.
    pub fn len(&self) -> (n: usize)
        ensures
            n == self.children().len(),
    {
        self.views.len()
    }

    /// The child at position `i`.
    pub fn get(&self, i: usize) -> (view: &V)
        requires
            i < self.children().len(),
        ensures
            *view == self.children()[i as int],
    {
        &self.views[i]
    }

    /// The child at position `i`, to be changed in place. The rectangle of
    /// the chain stays as it is, whatever becomes of the child's.
    pub fn get_mut(&mut self, i: usize) -> (view: &mut V)
        requires
            i < old(self).children().len(),
        ensures
            *view == old(self).children()[i as int],
            final(self).children() == old(self).children().update(i as int, *final(view)),
            final(self).bound() == old(self).bound(),
    {
        &mut self.views[i]
    }
}

impl<V> ViewChain<V> {
    /// Every child is well formed, and so is the rectangle of the chain.
    pub open spec fn all_wf<A>(&self) -> bool where V: UiView<A> {
        &&& self.bound().wf()
        &&& forall|i: int| 0 <= i < self.children().len() ==> (#[trigger] self.children()[i]).wf()
    }

    /// Adds a view behind the children that are there. The rectangle of the
    /// chain grows to hold the rectangle that the view has now: the first
    /// view gives the chain its rectangle, every further one is joined to it.
    pub fn add_view<A>(&mut self, view: V) where V: UiView<A>
        requires
            old(self).all_wf::<A>(),
            view.wf(),
        ensures
            final(self).all_wf::<A>(),
            final(self).children() == old(self).children().push(view),
            final(self).bound() == (if old(self).children().len() == 0 {
                view.spec_bound()
            } else {
                old(self).bound().spec_union(view.spec_bound())
            }),
    {
        let bound = view.get_bound();
        if self.views.len() == 0 {
            self.bound = bound;
        } else {
            self.bound = self.bound.union(bound);
        }
        self.views.push(view);
        assert forall|i: int| 0 <= i < self.children().len() implies (#[trigger] self.children()[i]).wf() by {
            if i < old(self).children().len() {
                assert(self.children()[i] == old(self).children()[i]);
            }
        }
    }
}

impl<A, V: UiView<A>> UiView<A> for ViewChain<V> {
    open spec fn wf(&self) -> bool {
        self.all_wf::<A>()
    }

    open spec fn spec_bound(&self) -> Rect {
        self.bound()
    }

    /// Every child has seen the key; the rectangle of the chain stays.
    open spec fn after_key_down(&self, after: &Self, key: i32) -> bool {
        &&& after.bound() == self.bound()
        &&& after.children().len() == self.children().len()
        &&& forall|i: int|
            0 <= i < self.children().len() ==> (#[trigger] self.children()[i]).after_key_down(
                &after.children()[i],
                key,
            )
    }

    open spec fn fired_by_key_down(&self, key: i32) -> Seq<A> {
        chain_fired_by_key_down::<A, V>(self.children(), key, self.children().len())
    }

    /// Every child has seen the press, whether or not the pointer was over it;
    /// the rectangle of the chain stays.
    open spec fn after_mouse_button_down(&self, after: &Self, button: MouseButton, x: i32, y: i32) -> bool {
        &&& after.bound() == self.bound()
        &&& after.children().len() == self.children().len()
        &&& forall|i: int|
            0 <= i < self.children().len() ==> (
            #[trigger] self.children()[i]).after_mouse_button_down(
                &after.children()[i],
                button,
                x,
                y,
            )
    }

    open spec fn fired_by_mouse_button_down(&self, button: MouseButton, x: i32, y: i32) -> Seq<A> {
        chain_fired_by_mouse_button_down::<A, V>(
            self.children(),
            button,
            x,
            y,
            self.children().len(),
        )
    }

    /// Every child has seen the motion; the rectangle of the chain stays.
    open spec fn after_mouse_motion(&self, after: &Self, x: i32, y: i32) -> bool {
        &&& after.bound() == self.bound()
        &&& after.children().len() == self.children().len()
        &&& forall|i: int|
            0 <= i < self.children().len() ==> (#[trigger] self.children()[i]).after_mouse_motion(
                &after.children()[i],
                x,
                y,
            )
    }

    /// Every child has seen the tick; the rectangle of the chain stays.
    open spec fn after_tick(&self, after: &Self) -> bool {
        &&& after.bound() == self.bound()
        &&& after.children().len() == self.children().len()
        &&& forall|i: int|
            0 <= i < self.children().len() ==> (#[trigger] self.children()[i]).after_tick(
                &after.children()[i],
            )
    }

    fn get_bound(&self) -> (bound: Rect) {
        self.bound
    }

    fn on_key_down(&mut self, key: i32) -> (fired: Vec<A>) {
        let mut fired: Vec<A> = Vec::new();
        let mut i: usize = 0;
        assert(self.children() == self.views@);
        while i < self.views.len()
            invariant
                i <= self.views.len(),
                self.bound == old(self).bound,
                self.views@.len() == old(self).views@.len(),
                forall|j: int| 0 <= j < self.views@.len() ==> (#[trigger] self.views@[j]).wf(),
                self.bound.wf(),
                forall|j: int|
                    0 <= j < i ==> (#[trigger] old(self).views@[j]).after_key_down(
                        &self.views@[j],
                        key,
                    ),
                forall|j: int| i <= j < self.views@.len() ==> self.views@[j] == old(self).views@[j],
                fired@ == chain_fired_by_key_down::<A, V>(old(self).views@, key, i as nat),
            decreases self.views.len() - i,
        {
            let mut part = self.views[i].on_key_down(key);
            fired.append(&mut part);
            i += 1;
        }
        fired
    }

    fn on_mouse_button_down(&mut self, button: MouseButton, x: i32, y: i32) -> (fired: Vec<A>) {
        let mut fired: Vec<A> = Vec::new();
        let mut i: usize = 0;
        assert(self.children() == self.views@);
        while i < self.views.len()
            invariant
                i <= self.views.len(),
                self.bound == old(self).bound,
                self.views@.len() == old(self).views@.len(),
                forall|j: int| 0 <= j < self.views@.len() ==> (#[trigger] self.views@[j]).wf(),
                self.bound.wf(),
                forall|j: int|
                    0 <= j < i ==> (#[trigger] old(self).views@[j]).after_mouse_button_down(
                        &self.views@[j],
                        button,
                        x,
                        y,
                    ),
                forall|j: int| i <= j < self.views@.len() ==> self.views@[j] == old(self).views@[j],
                fired@ == chain_fired_by_mouse_button_down::<A, V>(
                    old(self).views@,
                    button,
                    x,
                    y,
                    i as nat,
                ),
            decreases self.views.len() - i,
        {
            let mut part = self.views[i].on_mouse_button_down(button, x, y);
            fired.append(&mut part);
            i += 1;
        }
        fired
    }

    fn on_mouse_motion(&mut self, x: i32, y: i32) {
        let mut i: usize = 0;
        assert(self.children() == self.views@);
        while i < self.views.len()
            invariant
                i <= self.views.len(),
                self.bound == old(self).bound,
                self.views@.len() == old(self).views@.len(),
                forall|j: int| 0 <= j < self.views@.len() ==> (#[trigger] self.views@[j]).wf(),
                self.bound.wf(),
                forall|j: int|
                    0 <= j < i ==> (#[trigger] old(self).views@[j]).after_mouse_motion(
                        &self.views@[j],
                        x,
                        y,
                    ),
                forall|j: int| i <= j < self.views@.len() ==> self.views@[j] == old(self).views@[j],
            decreases self.views.len() - i,
        {
            self.views[i].on_mouse_motion(x, y);
            i += 1;
        }
    }

    fn on_tick(&mut self) {
        let mut i: usize = 0;
        assert(self.children() == self.views@);
        while i < self.views.len()
            invariant
                i <= self.views.len(),
                self.bound == old(self).bound,
                self.views@.len() == old(self).views@.len(),
                forall|j: int| 0 <= j < self.views@.len() ==> (#[trigger] self.views@[j]).wf(),
                self.bound.wf(),
                forall|j: int|
                    0 <= j < i ==> (#[trigger] old(self).views@[j]).after_tick(&self.views@[j]),
                forall|j: int| i <= j < self.views@.len() ==> self.views@[j] == old(self).views@[j],
            decreases self.views.len() - i,
        {
            self.views[i].on_tick();
            i += 1;
        }
    }
}

} // verus!
