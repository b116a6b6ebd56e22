//! The per-tick input snapshot.
//!
//! Each tick accumulates key press edges, retracts release edges, and
//! projects the pointer onto the ground plane. A failed projection — no
//! active camera, or a ray parallel to the ground — is a transient
//! condition: the snapshot keeps its last valid mouse coordinate and the
//! tick goes on.

use vstd::prelude::*;

verus! {

/// The movement keys the pipeline reacts to.
#[derive(Clone, Copy, PartialEq, Eq, Structural, Debug)]
pub enum Key {
    Forward,
    Backward,
    StrafeLeft,
    StrafeRight,
}

/// Coordinates further out than this are never stored in a snapshot; the
/// bound keeps every per-tick difference inside the integer range.
pub const COORDINATE_LIMIT: i64 = 1_000_000_000_000;

/// A world-space position or displacement, held in thousandths of a world
/// unit so that per-tick state stays exact integer data. The embedding
/// program converts to and from its own scalar type at the boundary.
#[derive(Clone, Copy, PartialEq, Eq, Structural, Debug)]
pub struct WorldVector {
    pub x: i64,
    pub y: i64,
    pub z: i64,
}

impl WorldVector {
    /// Every component is within the coordinate bound.
    pub open spec fn in_bounds(self) -> bool {
        &&& -COORDINATE_LIMIT <= self.x <= COORDINATE_LIMIT
        &&& -COORDINATE_LIMIT <= self.y <= COORDINATE_LIMIT
        &&& -COORDINATE_LIMIT <= self.z <= COORDINATE_LIMIT
    }

    pub fn zero() -> (r: WorldVector)
        ensures
            r == (WorldVector { x: 0, y: 0, z: 0 }),
            r.in_bounds(),
    {
        WorldVector { x: 0, y: 0, z: 0 }
    }
}

/// The pointer's projection onto the ground plane, in world space.
#[derive(Clone, Copy, PartialEq, Eq, Structural, Debug)]
pub struct MousePosition {
    pub coordinates: WorldVector,
}

/// What every downstream system reads during one tick: the movement keys
/// currently held, in press order, and the last valid mouse world
/// coordinate.
pub struct InputData {
    pub pressed_keys: Vec<Key>,
    pub mouse_position: MousePosition,
}

/// Accumulating one press edge: a key already held changes nothing, a new
/// key goes to the back of the press order.
pub open spec fn spec_press(keys: Seq<Key>, key: Key) -> Seq<Key> {
    if keys.contains(key) {
        keys
    } else {
        keys.push(key)
    }
}

/// Accumulating a sequence of press edges, oldest first.
pub open spec fn spec_press_all(keys: Seq<Key>, edges: Seq<Key>) -> Seq<Key>
    decreases edges.len(),
{
    if edges.len() == 0 {
        keys
    } else {
        spec_press(spec_press_all(keys, edges.drop_last()), edges.last())
    }
}

/// Retracting one release edge: the key disappears, the others keep their
/// order.
pub open spec fn spec_release(keys: Seq<Key>, key: Key) -> Seq<Key> {
    keys.filter(|k: Key| k != key)
}

/// Retracting a sequence of release edges, oldest first.
pub open spec fn spec_release_all(keys: Seq<Key>, edges: Seq<Key>) -> Seq<Key>
    decreases edges.len(),
{
    if edges.len() == 0 {
        keys
    } else {
        spec_release(spec_release_all(keys, edges.drop_last()), edges.last())
    }
}

impl InputData {
    /// The held keys are pairwise distinct: a set with a stable order.
    pub open spec fn wf(self) -> bool {
        forall|i: int, j: int|
            0 <= i < j < self.pressed_keys@.len() ==> self.pressed_keys@[i]
                != self.pressed_keys@[j]
    }

    /// An empty snapshot: nothing held, mouse at the origin.
    pub fn new() -> (r: InputData)
        ensures
            r.pressed_keys@ == Seq::<Key>::empty(),
            r.mouse_position.coordinates == (WorldVector { x: 0, y: 0, z: 0 }),
            r.wf(),
    {
        InputData {
            pressed_keys: Vec::new(),
            mouse_position: MousePosition { coordinates: WorldVector::zero() },
        }
    }

    /// Accumulates one press edge.
    pub fn press_key(&mut self, key: Key)
        ensures
            final(self).pressed_keys@ == spec_press(old(self).pressed_keys@, key),
            final(self).mouse_position == old(self).mouse_position,
            old(self).wf() ==> final(self).wf(),
    {
        let n = self.pressed_keys.len();
        for i in 0..n
            invariant
                n == self.pressed_keys@.len(),
                forall|j: int| 0 <= j < i ==> self.pressed_keys@[j] != key,
        {
            if self.pressed_keys[i] == key {
                proof {
                    assert(old(self).pressed_keys@[i as int] == key);
                    assert(old(self).pressed_keys@.contains(key));
                }
                return ;
            }
        }
        assert(!old(self).pressed_keys@.contains(key));
        self.pressed_keys.push(key);
        proof {
            if old(self).wf() {
                assert forall|i: int, j: int|
                    0 <= i < j < self.pressed_keys@.len() implies self.pressed_keys@[i]
                    != self.pressed_keys@[j] by {
                    if j == self.pressed_keys@.len() - 1 {
                        assert(self.pressed_keys@[i] == old(self).pressed_keys@[i]);
                    }
                }
            }
        }
    }

    /// Retracts one release edge.
    pub fn release_key(&mut self, key: Key)
        ensures
            final(self).pressed_keys@ == spec_release(old(self).pressed_keys@, key),
            final(self).mouse_position == old(self).mouse_position,
            old(self).wf() ==> final(self).wf(),
    {
        let mut kept: Vec<Key> = Vec::new();
        let n = self.pressed_keys.len();
        for i in 0..n
            invariant
                n == self.pressed_keys@.len(),
                kept@ == spec_release(self.pressed_keys@.take(i as int), key),
        {
            proof {
                reveal(Seq::filter);
                assert(self.pressed_keys@.take(i as int + 1).drop_last() =~= self.pressed_keys@.take(
                    i as int,
                ));
                assert(self.pressed_keys@.take(i as int + 1).last() == self.pressed_keys@[i as int]);
            }
            let k = self.pressed_keys[i];
            if !(k == key) {
                kept.push(k);
            }
        }
        proof {
            assert(self.pressed_keys@.take(n as int) =~= self.pressed_keys@);
        }
        let ghost before = *self;
        self.pressed_keys = kept;
        proof {
            if before.wf() {
                assert forall|a: int, b: int|
                    0 <= a < b < self.pressed_keys@.len() implies self.pressed_keys@[a]
                    != self.pressed_keys@[b] by {
                    lemma_filter_take_distinct(before.pressed_keys@, key, a, b);
                }
            }
        }
    }

    /// Stores one tick's projection result: a successful ray-ground
    /// intersection replaces the coordinate; a failed one keeps the last
    /// valid value and raises no fault.
    pub fn update_mouse(&mut self, projected: Option<WorldVector>)
        ensures
            final(self).pressed_keys@ == old(self).pressed_keys@,
            match projected {
                Some(p) => final(self).mouse_position.coordinates == p,
                None => final(self).mouse_position == old(self).mouse_position,
            },
            old(self).wf() ==> final(self).wf(),
    {
        match projected {
            Some(p) => {
                self.mouse_position = MousePosition { coordinates: p };
            },
            None => {},
        }
    }

    /// One whole tick: accumulate the press edges, retract the release
    /// edges, then store the projection result, in that order, so all
    /// downstream systems observe one consistent snapshot.
    pub fn update_state(
        &mut self,
        pressed: &Vec<Key>,
        released: &Vec<Key>,
        projected: Option<WorldVector>,
    )
        ensures
            final(self).pressed_keys@ == spec_release_all(
                spec_press_all(old(self).pressed_keys@, pressed@),
                released@,
            ),
            match projected {
                Some(p) => final(self).mouse_position.coordinates == p,
                None => final(self).mouse_position == old(self).mouse_position,
            },
            old(self).wf() ==> final(self).wf(),
    {
        let n = pressed.len();
        for i in 0..n
            invariant
                n == pressed@.len(),
                self.pressed_keys@ == spec_press_all(
                    old(self).pressed_keys@,
                    pressed@.take(i as int),
                ),
                self.mouse_position == old(self).mouse_position,
                old(self).wf() ==> self.wf(),
        {
            proof {
                assert(pressed@.take(i as int + 1).drop_last() =~= pressed@.take(i as int));
            }
            self.press_key(pressed[i]);
        }
        proof {
            assert(pressed@.take(n as int) =~= pressed@);
        }
        let ghost after_press = self.pressed_keys@;
        let m = released.len();
        for i in 0..m
            invariant
                m == released@.len(),
                self.pressed_keys@ == spec_release_all(after_press, released@.take(i as int)),
                self.mouse_position == old(self).mouse_position,
                old(self).wf() ==> self.wf(),
        {
            proof {
                assert(released@.take(i as int + 1).drop_last() =~= released@.take(i as int));
            }
            self.release_key(released[i]);
        }
        proof {
            assert(released@.take(m as int) =~= released@);
        }
        self.update_mouse(projected);
    }
}

/// Two distinct positions of a distinct-element sequence stay distinct
/// after a release.
proof fn lemma_filter_take_distinct(keys: Seq<Key>, key: Key, a: int, b: int)
    requires
        forall|i: int, j: int| 0 <= i < j < keys.len() ==> keys[i] != keys[j],
        0 <= a < b < spec_release(keys, key).len(),
    ensures
        spec_release(keys, key)[a] != spec_release(keys, key)[b],
    decreases keys.len(),
{
    reveal(Seq::filter);
    let filtered = spec_release(keys, key);
    if keys.len() > 0 {
        let prefix = keys.drop_last();
        if keys.last() != key {
            if b < filtered.len() - 1 {
                lemma_filter_take_distinct(prefix, key, a, b);
            } else {
                lemma_filter_element_of(prefix, key, a);
            }
        } else {
            lemma_filter_take_distinct(prefix, key, a, b);
        }
    }
}

/// Every element of the filtered sequence occurs in the source.
proof fn lemma_filter_element_of(keys: Seq<Key>, key: Key, a: int)
    requires
        0 <= a < spec_release(keys, key).len(),
    ensures
        exists|i: int| 0 <= i < keys.len() && #[trigger] keys[i] == spec_release(keys, key)[a],
    decreases keys.len(),
{
    reveal(Seq::filter);
    let filtered = spec_release(keys, key);
    if keys.len() > 0 {
        let prefix = keys.drop_last();
        if keys.last() != key && a == filtered.len() - 1 {
            assert(keys[keys.len() - 1] == filtered[a]);
        } else {
            lemma_filter_element_of(prefix, key, a);
            let i = choose|i: int|
                0 <= i < prefix.len() && #[trigger] prefix[i] == spec_release(prefix, key)[a];
            assert(keys[i] == filtered[a]);
        }
    }
}

} // verus!
