use vstd::prelude::*;
use crate::entity::Entity;
use crate::entity::EntityKey;
use crate::entity::EntityType;
use crate::entity::Input;
use crate::entity::entity_after;
use crate::entity::advanced_by_some_step;
use crate::entity::entity_image;
use crate::entity::entity_kind;
use crate::entity::entities_hit;
use crate::entity::drawn_entity;
use crate::entity::deeply_overlapping;
use crate::entity::lemma_deep_overlap_survives_frame;
use crate::mode::Mode;
use crate::mode::next_mode;
use crate::render::Render;

verus! {

/// The pixels of a frame after the entities of `s` are drawn in order, so
/// that where two overlap the later one shows.
pub open spec fn drawn_all(buf: Seq<u32>, width: int, s: Seq<(EntityKey, Entity)>) -> Seq<u32>
    decreases s.len(),
{
    if s.len() == 0 {
        buf
    } else {
        drawn_entity(drawn_all(buf, width, s.drop_last()), width, s.last().1)
    }
}

/// Whether some entity of kind `a` in `s` hits some entity of kind `b`.
pub open spec fn any_hit(s: Seq<(EntityKey, Entity)>, a: EntityType, b: EntityType) -> bool {
    exists|i: int, j: int|
        0 <= i < s.len() && 0 <= j < s.len() && entity_kind(s[i].1) == a && entity_kind(s[j].1) == b
            && #[trigger] entities_hit(s[i].1, s[j].1)
}

/// Play ends in the frame after a player and an enemy of the world overlap
/// deeply: whatever keys are held and whatever steps the enemies take, once
/// every entity has advanced the player hits an enemy.
pub proof fn lemma_deep_overlap_ends_play(
    before: Seq<(EntityKey, Entity)>,
    after: Seq<(EntityKey, Entity)>,
    width: int,
    height: int,
    input: Input,
    i: int,
    j: int,
)
    requires
        0 <= width <= u32::MAX,
        0 <= height <= u32::MAX,
        after.len() == before.len(),
        forall|k: int| 0 <= k < before.len() ==> #[trigger] advanced_by_some_step(
            before[k].1, after[k].1, width, height, input),
        0 <= i < before.len(),
        0 <= j < before.len(),
        before[i].1 matches Entity::Player(p) && before[j].1 matches Entity::Enemy(e)
            && deeply_overlapping(p, e, width, height),
    ensures
        any_hit(after, EntityType::Player, EntityType::Enemy),
        next_mode(Mode::Play, input.confirm, any_hit(after, EntityType::Player, EntityType::Enemy)) == Mode::Over,
{
    assert(advanced_by_some_step(before[i].1, after[i].1, width, height, input));
    assert(advanced_by_some_step(before[j].1, after[j].1, width, height, input));
    let dj = choose|d: u32| 1 <= d <= 4 && after[j].1 == #[trigger] entity_after(before[j].1, width, height, input, d);
    match (before[i].1, before[j].1) {
        (Entity::Player(p), Entity::Enemy(e)) => {
            lemma_deep_overlap_survives_frame(p, e, width, height, input, dj);
            assert(entities_hit(after[i].1, after[j].1));
        },
        _ => {},
    }
}

/// Whether `key` is the key of some entry of `s`.
pub open spec fn has_key(s: Seq<(EntityKey, Entity)>, key: EntityKey) -> bool {
    exists|i: int| 0 <= i < s.len() && #[trigger] s[i].0 == key
}

/// The entities of a game, each under its own key, kept in the order in
/// which their keys were first inserted; updates and drawing follow that
/// order.
pub struct World {
    pub entries: Vec<(EntityKey, Entity)>,
}

impl World {
    /// Keys are unique and every image is well formed.
    pub open spec fn wf(&self) -> bool {
        &&& forall|i: int, j: int|
            0 <= i < j < self.entries@.len() ==> #[trigger] self.entries@[i].0 != #[trigger] self.entries@[j].0
        &&& forall|i: int| 0 <= i < self.entries@.len() ==> (#[trigger] entity_image(self.entries@[i].1)).wf()
    }

    /// A world with no entities.
    pub fn new() -> (r: World)
        ensures
            r.wf(),
            r.entries@.len() == 0,
    {
        World { entries: Vec::new() }
    }

    /// Puts `entity` under `key`: it replaces the entity already under that
    /// key in place, or else is added at the end.
    pub fn insert(&mut self, key: EntityKey, entity: Entity)
        requires
            old(self).wf(),
            entity_image(entity).wf(),
        ensures
            final(self).wf(),
            has_key(old(self).entries@, key) ==> final(self).entries@.len() == old(self).entries@.len()
                && forall|j: int| 0 <= j < old(self).entries@.len() ==> #[trigger] final(self).entries@[j] == (
                    if old(self).entries@[j].0 == key { (key, entity) } else { old(self).entries@[j] }),
            !has_key(old(self).entries@, key) ==> final(self).entries@ == old(self).entries@.push((key, entity)),
    {
        let n: usize = self.entries.len();
        let mut i: usize = 0;
        while i < n
            invariant
                n == self.entries@.len(),
                self.entries@ == old(self).entries@,
                old(self).wf(),
                entity_image(entity).wf(),
                i <= n,
                forall|j: int| 0 <= j < i ==> self.entries@[j].0 != key,
            decreases n - i,
        {
            if self.entries[i].0 == key {
                self.entries.set(i, (key, entity));
                assert forall|j: int| 0 <= j < n && old(self).entries@[j].0 == key implies j == i by {
                    if j != i {
                        assert(old(self).entries@[j].0 != old(self).entries@[i as int].0);
                    }
                }
                return;
            }
            i = i + 1;
        }
        self.entries.push((key, entity));
    }

    /// The entity under `key`, if any.
    pub fn get(&self, key: &EntityKey) -> (r: Option<&Entity>)
        ensures
            r.is_some() <==> has_key(self.entries@, *key),
            r matches Some(e) ==> exists|i: int| 0 <= i < self.entries@.len() && self.entries@[i] == (*key, *e),
    {
        let n: usize = self.entries.len();
        let mut i: usize = 0;
        while i < n
            invariant
                n == self.entries@.len(),
                i <= n,
                forall|j: int| 0 <= j < i ==> self.entries@[j].0 != *key,
            decreases n - i,
        {
            if self.entries[i].0 == *key {
                return Some(&self.entries[i].1);
            }
            i = i + 1;
        }
        None
    }

    /// Advances every entity by one frame, in order; entity `i` of an enemy
    /// kind steps in `directions[i]`.
    pub fn advance_all(&mut self, width: u32, height: u32, input: &Input, directions: &Vec<u32>)
        requires
            old(self).wf(),
            directions@.len() == old(self).entries@.len(),
        ensures
            final(self).wf(),
            final(self).entries@.len() == old(self).entries@.len(),
            forall|i: int| 0 <= i < old(self).entries@.len() ==> #[trigger] final(self).entries@[i] == (
                old(self).entries@[i].0,
                entity_after(old(self).entries@[i].1, width as int, height as int, *input, directions@[i])),
    {
        let n: usize = self.entries.len();
        let mut i: usize = 0;
        while i < n
            invariant
                n == self.entries@.len(),
                n == old(self).entries@.len(),
                n == directions@.len(),
                old(self).wf(),
                i <= n,
                forall|j: int| 0 <= j < i ==> #[trigger] self.entries@[j] == (
                    old(self).entries@[j].0,
                    entity_after(old(self).entries@[j].1, width as int, height as int, *input, directions@[j])),
                forall|j: int| i <= j < n ==> #[trigger] self.entries@[j] == old(self).entries@[j],
            decreases n - i,
        {
            self.entries[i].1.advance(width, height, input, directions[i]);
            i = i + 1;
        }
        assert forall|a: int, b: int| 0 <= a < b < n implies
            #[trigger] self.entries@[a].0 != #[trigger] self.entries@[b].0 by {
            assert(old(self).entries@[a].0 != old(self).entries@[b].0);
        }
        assert forall|j: int| 0 <= j < n implies (#[trigger] entity_image(self.entries@[j].1)).wf() by {
            assert(entity_image(old(self).entries@[j].1).wf());
        }
    }

    /// Advances every entity by one frame, in order: the player follows the
    /// keys, each enemy takes a step in a direction drawn at random.
    pub fn update_all(&mut self, width: u32, height: u32, input: &Input)
        requires
            old(self).wf(),
        ensures
            final(self).wf(),
            final(self).entries@.len() == old(self).entries@.len(),
            forall|i: int| 0 <= i < old(self).entries@.len() ==> #[trigger] final(self).entries@[i].0 == old(self).entries@[i].0,
            forall|i: int| 0 <= i < old(self).entries@.len() ==> #[trigger] advanced_by_some_step(
                old(self).entries@[i].1, final(self).entries@[i].1, width as int, height as int, *input),
    {
        let n: usize = self.entries.len();
        let mut i: usize = 0;
        while i < n
            invariant
                n == self.entries@.len(),
                n == old(self).entries@.len(),
                old(self).wf(),
                i <= n,
                forall|j: int| 0 <= j < n ==> #[trigger] self.entries@[j].0 == old(self).entries@[j].0,
                forall|j: int| 0 <= j < n ==> #[trigger] entity_image(self.entries@[j].1) == entity_image(old(self).entries@[j].1),
                forall|j: int| 0 <= j < i ==> #[trigger] advanced_by_some_step(
                    old(self).entries@[j].1, self.entries@[j].1, width as int, height as int, *input),
                forall|j: int| i <= j < n ==> #[trigger] self.entries@[j] == old(self).entries@[j],
            decreases n - i,
        {
            self.entries[i].1.update(width, height, input);
            i = i + 1;
        }
        assert forall|a: int, b: int| 0 <= a < b < n implies
            #[trigger] self.entries@[a].0 != #[trigger] self.entries@[b].0 by {
            assert(old(self).entries@[a].0 != old(self).entries@[b].0);
        }
        assert forall|j: int| 0 <= j < n implies (#[trigger] entity_image(self.entries@[j].1)).wf() by {
            assert(entity_image(old(self).entries@[j].1).wf());
        }
    }

    /// Draws every entity in order, so that where two overlap the later one
    /// shows.
    pub fn draw_all(&self, render: &mut Render)
        requires
            self.wf(),
            old(render).wf(),
        ensures
            final(render).wf(),
            final(render).width == old(render).width,
            final(render).height == old(render).height,
            final(render).buffer@ == drawn_all(old(render).buffer@, old(render).width as int, self.entries@),
    {
        let n: usize = self.entries.len();
        let mut i: usize = 0;
        while i < n
            invariant
                n == self.entries@.len(),
                self.wf(),
                i <= n,
                render.wf(),
                render.width == old(render).width,
                render.height == old(render).height,
                render.buffer@ == drawn_all(old(render).buffer@, old(render).width as int, self.entries@.subrange(0, i as int)),
            decreases n - i,
        {
            assert(entity_image(self.entries@[i as int].1).wf());
            self.entries[i].1.draw(render);
            assert(self.entries@.subrange(0, i + 1).drop_last() =~= self.entries@.subrange(0, i as int));
            i = i + 1;
        }
        assert(self.entries@.subrange(0, n as int) =~= self.entries@);
    }

    /// Whether some entity of kind `a` hits some entity of kind `b`.
    pub fn hit_test_any(&self, a: EntityType, b: EntityType) -> (r: bool)
        ensures
            r == any_hit(self.entries@, a, b),
    {
        let n: usize = self.entries.len();
        let mut i: usize = 0;
        while i < n
            invariant
                n == self.entries@.len(),
                i <= n,
                forall|p: int, q: int| 0 <= p < i && 0 <= q < n && entity_kind(self.entries@[p].1) == a
                    && entity_kind(self.entries@[q].1) == b ==> !#[trigger] entities_hit(self.entries@[p].1, self.entries@[q].1),
            decreases n - i,
        {
            if self.entries[i].1.kind() == a {
                let mut j: usize = 0;
                while j < n
                    invariant
                        n == self.entries@.len(),
                        i < n,
                        j <= n,
                        entity_kind(self.entries@[i as int].1) == a,
                        forall|q: int| 0 <= q < j && entity_kind(self.entries@[q].1) == b
                            ==> !#[trigger] entities_hit(self.entries@[i as int].1, self.entries@[q].1),
                    decreases n - j,
                {
                    if self.entries[j].1.kind() == b && self.entries[i].1.hit(&self.entries[j].1) {
                        return true;
                    }
                    j = j + 1;
                }
            }
            i = i + 1;
        }
        false
    }
}

} // verus!
