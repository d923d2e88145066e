use vstd::prelude::*;
use rand::Rng;
use crate::bitmap::Bitmap;
use crate::render::Render;
use crate::render::blitted;
use crate::world::World;

verus! {

/// How far the player moves per frame along each held direction.
pub const PLAYER_SPEED: i64 = 5;

/// How far an enemy moves per frame.
pub const ENEMY_SPEED: i64 = 3;

/// The kind of an entity.
#[derive(Clone, Copy, Debug, PartialEq, Eq, Structural, Hash)]
pub enum EntityType {
    Player,
    Enemy,
}

/// A stable identifier of an entity in a world.
#[derive(Clone, Copy, Debug, PartialEq, Eq, Structural, Hash)]
pub struct EntityKey {
    pub id: u32,
    pub entity_type: EntityType,
}

/// The keys held during one frame.
#[derive(Clone, Copy, Debug, PartialEq, Eq, Structural)]
pub struct Input {
    pub left: bool,
    pub right: bool,
    pub up: bool,
    pub down: bool,
    pub confirm: bool,
}

/// An axis-aligned box: top-left corner and size.
#[derive(Clone, Copy, Debug, PartialEq, Eq, Structural)]
pub struct BoundingBox {
    pub x: i64,
    pub y: i64,
    pub width: u32,
    pub height: u32,
}

/// Two boxes overlap when on both axes each one starts strictly before the
/// other ends; boxes that only touch do not overlap.
pub open spec fn boxes_intersect(a: BoundingBox, b: BoundingBox) -> bool {
    a.x < b.x + b.width && b.x < a.x + a.width && a.y < b.y + b.height && b.y < a.y + a.height
}

impl BoundingBox {
    /// Whether the two boxes overlap.
    pub fn intersects(&self, other: &BoundingBox) -> (r: bool)
        ensures
            r == boxes_intersect(*self, *other),
    {
        (self.x as i128) < other.x as i128 + other.width as i128
            && (other.x as i128) < self.x as i128 + self.width as i128
            && (self.y as i128) < other.y as i128 + other.height as i128
            && (other.y as i128) < self.y as i128 + self.height as i128
    }
}

/// Overlap does not depend on the order of the two boxes.
pub proof fn lemma_intersects_symmetric(a: BoundingBox, b: BoundingBox)
    ensures
        boxes_intersect(a, b) == boxes_intersect(b, a),
{
}

/// A box with a positive width and height overlaps a box with the same
/// coordinates.
pub proof fn lemma_same_box_intersects(a: BoundingBox, b: BoundingBox)
    requires
        a == b,
        a.width > 0,
        a.height > 0,
    ensures
        boxes_intersect(a, b),
{
}

/// Boxes that are apart, or only touch, along some axis do not overlap.
pub proof fn lemma_separated_boxes_disjoint(a: BoundingBox, b: BoundingBox)
    requires
        a.x + a.width <= b.x || b.x + b.width <= a.x || a.y + a.height <= b.y || b.y + b.height <= a.y,
    ensures
        !boxes_intersect(a, b),
{
}

/// The largest coordinate at which a thing `size` long still lies inside
/// `[0, world]`; zero when it is longer than the world.
pub open spec fn axis_limit(world: int, size: int) -> int {
    if size <= world {
        world - size
    } else {
        0
    }
}

/// `v` limited to `[0, hi]`.
pub open spec fn clamp(v: int, hi: int) -> int {
    if v < 0 {
        0
    } else if v > hi {
        hi
    } else {
        v
    }
}

/// `axis_limit` for a world and a size that fit in `u32`.
fn limit_of(world: u32, size: u32) -> (r: i64)
    ensures
        r == axis_limit(world as int, size as int),
        0 <= r <= u32::MAX,
{
    if size <= world {
        (world - size) as i64
    } else {
        0
    }
}

/// Moves `pos` by `delta` and clamps the result to `[0, limit]`.
fn step_clamped(pos: i64, delta: i64, limit: i64) -> (r: i64)
    requires
        -5 <= delta <= 5,
        0 <= limit <= u32::MAX,
    ensures
        r == clamp(pos + delta, limit as int),
{
    if delta >= 0 {
        if pos >= limit - delta {
            limit
        } else if pos + delta < 0 {
            0
        } else {
            pos + delta
        }
    } else {
        if pos <= -delta {
            0
        } else if pos + delta > limit {
            limit
        } else {
            pos + delta
        }
    }
}

/// The entity controlled from the keyboard.
pub struct Player {
    pub image: Bitmap,
    pub x: i64,
    pub y: i64,
}

/// The player after one frame in a `width` by `height` world: right, then
/// left, then up, then down are applied for each held key, each move clamped
/// so that the player's box stays inside the world.
pub open spec fn player_after(p: Player, width: int, height: int, input: Input) -> Player {
    let lx = axis_limit(width, p.image.width as int);
    let ly = axis_limit(height, p.image.height as int);
    let x1 = if input.right { clamp(p.x + PLAYER_SPEED, lx) } else { p.x as int };
    let x2 = if input.left { clamp(x1 - PLAYER_SPEED, lx) } else { x1 };
    let y1 = if input.up { clamp(p.y - PLAYER_SPEED, ly) } else { p.y as int };
    let y2 = if input.down { clamp(y1 + PLAYER_SPEED, ly) } else { y1 };
    Player { image: p.image, x: x2 as i64, y: y2 as i64 }
}

/// A player that is already at or beyond the right edge of the room it has
/// stays exactly on that edge while only "right" is held horizontally.
pub proof fn lemma_player_held_at_right_edge(p: Player, width: int, height: int, input: Input)
    requires
        input.right,
        !input.left,
        p.x >= axis_limit(width, p.image.width as int),
    ensures
        player_after(p, width, height, input).x == axis_limit(width, p.image.width as int),
{
}

/// After a frame, a player whose image fits the world lies inside it on
/// every axis along which a key was held.
pub proof fn lemma_player_stays_in_world(p: Player, width: int, height: int, input: Input)
    requires
        p.image.width <= width,
        p.image.height <= height,
        width <= u32::MAX,
        height <= u32::MAX,
    ensures
        (input.right || input.left) ==> 0 <= player_after(p, width, height, input).x
            && player_after(p, width, height, input).x + p.image.width <= width,
        (input.up || input.down) ==> 0 <= player_after(p, width, height, input).y
            && player_after(p, width, height, input).y + p.image.height <= height,
{
}

/// The box of an image placed at `(x, y)`.
pub open spec fn box_at(img: Bitmap, x: i64, y: i64) -> BoundingBox {
    BoundingBox { x, y, width: img.width, height: img.height }
}

impl Player {
    /// The box the player occupies.
    pub fn bounding_box(&self) -> (r: BoundingBox)
        ensures
            r == box_at(self.image, self.x, self.y),
    {
        BoundingBox { x: self.x, y: self.y, width: self.image.width, height: self.image.height }
    }

    /// Moves the player by the held direction keys, clamped to the world.
    pub fn update(&mut self, width: u32, height: u32, input: &Input)
        ensures
            *final(self) == player_after(*old(self), width as int, height as int, *input),
    {
        let lx: i64 = limit_of(width, self.image.width);
        let ly: i64 = limit_of(height, self.image.height);
        if input.right {
            self.x = step_clamped(self.x, PLAYER_SPEED, lx);
        }
        if input.left {
            self.x = step_clamped(self.x, -PLAYER_SPEED, lx);
        }
        if input.up {
            self.y = step_clamped(self.y, -PLAYER_SPEED, ly);
        }
        if input.down {
            self.y = step_clamped(self.y, PLAYER_SPEED, ly);
        }
    }

    /// Draws the player's image at its position.
    pub fn draw(&self, render: &mut Render)
        requires
            old(render).wf(),
            self.image.wf(),
        ensures
            final(render).wf(),
            final(render).width == old(render).width,
            final(render).height == old(render).height,
            final(render).buffer@ == blitted(
                old(render).buffer@, old(render).width as int, self.image, self.x as int, self.y as int),
    {
        render.image_at(&self.image, self.x, self.y);
    }
}

/// An entity that wanders the world on its own.
pub struct Enemy {
    pub image: Bitmap,
    pub x: i64,
    pub y: i64,
}

/// The enemy after one step in `direction` (1 right, 2 left, 3 up, 4 down;
/// any other value leaves it in place), clamped so that its box stays inside
/// a `width` by `height` world.
pub open spec fn enemy_after(e: Enemy, width: int, height: int, direction: u32) -> Enemy {
    let lx = axis_limit(width, e.image.width as int);
    let ly = axis_limit(height, e.image.height as int);
    if direction == 1 {
        Enemy { image: e.image, x: clamp(e.x + ENEMY_SPEED, lx) as i64, y: e.y }
    } else if direction == 2 {
        Enemy { image: e.image, x: clamp(e.x - ENEMY_SPEED, lx) as i64, y: e.y }
    } else if direction == 3 {
        Enemy { image: e.image, x: e.x, y: clamp(e.y - ENEMY_SPEED, ly) as i64 }
    } else if direction == 4 {
        Enemy { image: e.image, x: e.x, y: clamp(e.y + ENEMY_SPEED, ly) as i64 }
    } else {
        e
    }
}

/// Relies on `rand::thread_rng` and `Rng::gen_range`: a number drawn from
/// `1..=4`.
#[verifier::external_body]
fn random_direction() -> (r: u32)
    ensures
        1 <= r <= 4,
{
    rand::thread_rng().gen_range(1..=4u32)
}

impl Enemy {
    /// The box the enemy occupies.
    pub fn bounding_box(&self) -> (r: BoundingBox)
        ensures
            r == box_at(self.image, self.x, self.y),
    {
        BoundingBox { x: self.x, y: self.y, width: self.image.width, height: self.image.height }
    }

    /// Moves the enemy one step in `direction`, clamped to the world.
    pub fn move_toward(&mut self, width: u32, height: u32, direction: u32)
        ensures
            *final(self) == enemy_after(*old(self), width as int, height as int, direction),
    {
        let lx: i64 = limit_of(width, self.image.width);
        let ly: i64 = limit_of(height, self.image.height);
        if direction == 1 {
            self.x = step_clamped(self.x, ENEMY_SPEED, lx);
        } else if direction == 2 {
            self.x = step_clamped(self.x, -ENEMY_SPEED, lx);
        } else if direction == 3 {
            self.y = step_clamped(self.y, -ENEMY_SPEED, ly);
        } else if direction == 4 {
            self.y = step_clamped(self.y, ENEMY_SPEED, ly);
        }
    }

    /// Moves the enemy one step in a direction drawn at random.
    pub fn move_randomly(&mut self, width: u32, height: u32)
        ensures
            exists|d: u32| 1 <= d <= 4 && *final(self) == enemy_after(*old(self), width as int, height as int, d),
    {
        let d: u32 = random_direction();
        self.move_toward(width, height, d);
    }

    /// One frame of the enemy: a random step; keys are not read.
    pub fn update(&mut self, width: u32, height: u32, input: &Input)
        ensures
            exists|d: u32| 1 <= d <= 4 && *final(self) == enemy_after(*old(self), width as int, height as int, d),
    {
        self.move_randomly(width, height);
    }

    /// Draws the enemy's image at its position.
    pub fn draw(&self, render: &mut Render)
        requires
            old(render).wf(),
            self.image.wf(),
        ensures
            final(render).wf(),
            final(render).width == old(render).width,
            final(render).height == old(render).height,
            final(render).buffer@ == blitted(
                old(render).buffer@, old(render).width as int, self.image, self.x as int, self.y as int),
    {
        render.image_at(&self.image, self.x, self.y);
    }
}

/// Whether a player and an enemy lie inside a `width` by `height` world and
/// their boxes overlap by more than a player's step plus an enemy's step
/// along both axes.
pub open spec fn deeply_overlapping(p: Player, e: Enemy, width: int, height: int) -> bool {
    &&& 0 <= p.x <= axis_limit(width, p.image.width as int)
    &&& 0 <= p.y <= axis_limit(height, p.image.height as int)
    &&& 0 <= e.x <= axis_limit(width, e.image.width as int)
    &&& 0 <= e.y <= axis_limit(height, e.image.height as int)
    &&& p.x + PLAYER_SPEED + ENEMY_SPEED < e.x + e.image.width
    &&& e.x + PLAYER_SPEED + ENEMY_SPEED < p.x + p.image.width
    &&& p.y + PLAYER_SPEED + ENEMY_SPEED < e.y + e.image.height
    &&& e.y + PLAYER_SPEED + ENEMY_SPEED < p.y + p.image.height
}

/// A player and an enemy that lie inside the world, and whose boxes overlap
/// by more than a player's step plus an enemy's step along both axes, still
/// overlap after one frame, whatever keys are held and whichever step the
/// enemy takes.
pub proof fn lemma_deep_overlap_survives_frame(p: Player, e: Enemy, width: int, height: int, input: Input, direction: u32)
    requires
        0 <= width <= u32::MAX,
        0 <= height <= u32::MAX,
        deeply_overlapping(p, e, width, height),
    ensures
        ({
            let q = player_after(p, width, height, input);
            let f = enemy_after(e, width, height, direction);
            boxes_intersect(box_at(q.image, q.x, q.y), box_at(f.image, f.x, f.y))
        }),
{
}

/// A thing in the world.
pub enum Entity {
    Player(Player),
    Enemy(Enemy),
}

/// The entity after one frame, with `direction` the step an enemy draws.
pub open spec fn entity_after(e: Entity, width: int, height: int, input: Input, direction: u32) -> Entity {
    match e {
        Entity::Player(p) => Entity::Player(player_after(p, width, height, input)),
        Entity::Enemy(n) => Entity::Enemy(enemy_after(n, width, height, direction)),
    }
}

/// Whether `after` is `before` advanced by one frame with some enemy step.
pub open spec fn advanced_by_some_step(before: Entity, after: Entity, width: int, height: int, input: Input) -> bool {
    exists|d: u32| 1 <= d <= 4 && after == #[trigger] entity_after(before, width, height, input, d)
}

/// The image an entity is drawn with.
pub open spec fn entity_image(e: Entity) -> Bitmap {
    match e {
        Entity::Player(p) => p.image,
        Entity::Enemy(n) => n.image,
    }
}

/// The box an entity occupies.
pub open spec fn entity_box(e: Entity) -> BoundingBox {
    match e {
        Entity::Player(p) => box_at(p.image, p.x, p.y),
        Entity::Enemy(n) => box_at(n.image, n.x, n.y),
    }
}

/// The kind of an entity.
pub open spec fn entity_kind(e: Entity) -> EntityType {
    match e {
        Entity::Player(_) => EntityType::Player,
        Entity::Enemy(_) => EntityType::Enemy,
    }
}

/// A player and an enemy hit each other when their boxes overlap; two
/// entities of one kind never do.
pub open spec fn entities_hit(a: Entity, b: Entity) -> bool {
    entity_kind(a) != entity_kind(b) && boxes_intersect(entity_box(a), entity_box(b))
}

/// The pixels of a frame after `e` is drawn.
pub open spec fn drawn_entity(buf: Seq<u32>, width: int, e: Entity) -> Seq<u32> {
    let b = entity_box(e);
    blitted(buf, width, entity_image(e), b.x as int, b.y as int)
}

impl Entity {
    /// The kind of this entity.
    pub fn kind(&self) -> (r: EntityType)
        ensures
            r == entity_kind(*self),
    {
        match self {
            Entity::Player(_) => EntityType::Player,
            Entity::Enemy(_) => EntityType::Enemy,
        }
    }

    /// The box this entity occupies.
    pub fn bounding_box(&self) -> (r: BoundingBox)
        ensures
            r == entity_box(*self),
    {
        match self {
            Entity::Player(p) => p.bounding_box(),
            Entity::Enemy(n) => n.bounding_box(),
        }
    }

    /// Advances every entity of `world` by one frame, in order.
    pub fn update_all(world: &mut World, width: u32, height: u32, input: &Input)
        requires
            old(world).wf(),
        ensures
            final(world).wf(),
            final(world).entries@.len() == old(world).entries@.len(),
            forall|i: int| 0 <= i < old(world).entries@.len() ==> #[trigger] final(world).entries@[i].0 == old(world).entries@[i].0,
            forall|i: int| 0 <= i < old(world).entries@.len() ==> #[trigger] advanced_by_some_step(
                old(world).entries@[i].1, final(world).entries@[i].1, width as int, height as int, *input),
    {
        world.update_all(width, height, input);
    }

    /// Advances the entity by one frame, with `direction` the step an enemy
    /// takes.
    pub fn advance(&mut self, width: u32, height: u32, input: &Input, direction: u32)
        ensures
            *final(self) == entity_after(*old(self), width as int, height as int, *input, direction),
    {
        match self {
            Entity::Player(p) => p.update(width, height, input),
            Entity::Enemy(n) => n.move_toward(width, height, direction),
        }
    }

    /// Advances the entity by one frame: the player follows the keys, an
    /// enemy takes a random step.
    pub fn update(&mut self, width: u32, height: u32, input: &Input)
        ensures
            advanced_by_some_step(*old(self), *final(self), width as int, height as int, *input),
            entity_image(*final(self)) == entity_image(*old(self)),
            entity_kind(*final(self)) == entity_kind(*old(self)),
    {
        let d: u32 = random_direction();
        self.advance(width, height, input, d);
    }

    /// Draws the entity's image at its position.
    pub fn draw(&self, render: &mut Render)
        requires
            old(render).wf(),
            entity_image(*self).wf(),
        ensures
            final(render).wf(),
            final(render).width == old(render).width,
            final(render).height == old(render).height,
            final(render).buffer@ == drawn_entity(old(render).buffer@, old(render).width as int, *self),
    {
        match self {
            Entity::Player(p) => p.draw(render),
            Entity::Enemy(n) => n.draw(render),
        }
    }

    /// Whether this entity and `other` are a player and an enemy whose boxes
    /// overlap.
    pub fn hit(&self, other: &Entity) -> (r: bool)
        ensures
            r == entities_hit(*self, *other),
    {
        if self.kind() == other.kind() {
            false
        } else {
            self.bounding_box().intersects(&other.bounding_box())
        }
    }
}

} // verus!
