use vstd::prelude::*;
use vstd::string::StringExecFns;
use crate::bitmap::Bitmap;
use crate::bitmap::same_bitmap;
use crate::entity::Enemy;
use crate::entity::Entity;
use crate::entity::EntityKey;
use crate::entity::EntityType;
use crate::entity::Input;
use crate::entity::Player;
use crate::entity::entity_after;
use crate::entity::advanced_by_some_step;
use crate::mode::Mode;
use crate::mode::next_mode;
use crate::render::RED;
use crate::render::Render;
use crate::render::cleared;
use crate::render::filled_with;
use crate::world::World;
use crate::world::any_hit;
use crate::world::drawn_all;

verus! {

/// The target length of one frame, in microseconds (sixty frames a second).
pub const FRAME_MICROS: u64 = 16666;

/// Whether some image in `images` is registered under `name`.
pub open spec fn has_image(images: Seq<(String, Bitmap)>, name: Seq<char>) -> bool {
    exists|i: int| 0 <= i < images.len() && #[trigger] images[i].0@ == name
}

/// Whether `img` has the size and colours of the image registered under
/// `name`.
pub open spec fn is_image_named(images: Seq<(String, Bitmap)>, name: Seq<char>, img: Bitmap) -> bool {
    exists|i: int| 0 <= i < images.len() && #[trigger] images[i].0@ == name && same_bitmap(img, images[i].1)
}

/// How long to wait after a frame that took `elapsed` microseconds.
pub open spec fn pause_after(elapsed: u64) -> u64 {
    if elapsed < FRAME_MICROS {
        (FRAME_MICROS - elapsed) as u64
    } else {
        0
    }
}

/// The key of the player.
pub open spec fn player_key() -> EntityKey {
    EntityKey { id: 0, entity_type: EntityType::Player }
}

/// The key of the enemy.
pub open spec fn enemy_key() -> EntityKey {
    EntityKey { id: 1, entity_type: EntityType::Enemy }
}

/// Whether `e` is the player of a new game: centred across a `width` by
/// `height` world (the half of a negative room rounds down) with its bottom
/// edge on the world's, drawn with the image registered under `player.png`.
/// An image larger than the world starts partly outside it.
pub open spec fn is_start_player(images: Seq<(String, Bitmap)>, width: int, height: int, e: Entity) -> bool {
    match e {
        Entity::Player(p) => is_image_named(images, "player.png"@, p.image)
            && p.x == (width - p.image.width) / 2
            && p.y == height - p.image.height,
        Entity::Enemy(_) => false,
    }
}

/// Whether `e` is the enemy of a new game: centred across a `width` wide
/// world (the half of a negative room rounds down) at its top, drawn with
/// the image registered under `enemy.png`.
pub open spec fn is_start_enemy(images: Seq<(String, Bitmap)>, width: int, e: Entity) -> bool {
    match e {
        Entity::Enemy(n) => is_image_named(images, "enemy.png"@, n.image)
            && n.x == (width - n.image.width) / 2
            && n.y == 0,
        Entity::Player(_) => false,
    }
}

/// A game: its name, the size of its world, its score and level, the images
/// it has loaded by name, and how long the last frame took.
pub struct Game {
    pub name: String,
    pub width: u32,
    pub height: u32,
    pub score: usize,
    pub level: usize,
    pub images: Vec<(String, Bitmap)>,
    pub delta_time: u64,
}

impl Game {
    /// Image names are unique and every image is well formed.
    pub open spec fn wf(&self) -> bool {
        &&& forall|i: int, j: int|
            0 <= i < j < self.images@.len() ==> #[trigger] self.images@[i].0@ != #[trigger] self.images@[j].0@
        &&& forall|i: int| 0 <= i < self.images@.len() ==> (#[trigger] self.images@[i].1).wf()
    }

    /// A game with no images loaded yet.
    pub fn new(name: &str, width: u32, height: u32) -> (r: Game)
        ensures
            r.wf(),
            r.name@ == name@,
            r.width == width,
            r.height == height,
            r.score == 0,
            r.level == 0,
            r.images@.len() == 0,
            r.delta_time == 0,
    {
        Game {
            name: name.to_owned(),
            width,
            height,
            score: 0,
            level: 0,
            images: Vec::new(),
            delta_time: 0,
        }
    }

    /// The names of the images the game loads.
    pub fn add_images(&self) -> (r: Vec<String>)
        ensures
            r@.len() == 2,
            r@[0]@ == "player.png"@,
            r@[1]@ == "enemy.png"@,
    {
        let mut r: Vec<String> = Vec::new();
        r.push("player.png".to_owned());
        r.push("enemy.png".to_owned());
        r
    }

    /// The path an image of the game is loaded from: the file name under
    /// `./images/`.
    pub fn image_path(&self, filename: &str) -> (r: String)
        ensures
            r@ == "./images/"@ + filename@,
    {
        "./images/".to_owned().concat(filename)
    }

    /// Registers `img` under `name`, replacing an image already registered
    /// under that name.
    pub fn add_image(&mut self, name: String, img: Bitmap)
        requires
            old(self).wf(),
            img.wf(),
        ensures
            final(self).wf(),
            final(self).name == old(self).name,
            final(self).width == old(self).width,
            final(self).height == old(self).height,
            final(self).score == old(self).score,
            final(self).level == old(self).level,
            final(self).delta_time == old(self).delta_time,
            has_image(old(self).images@, name@) ==> final(self).images@.len() == old(self).images@.len()
                && forall|j: int| 0 <= j < old(self).images@.len() ==> #[trigger] final(self).images@[j] == (
                    if old(self).images@[j].0@ == name@ { (name, img) } else { old(self).images@[j] }),
            !has_image(old(self).images@, name@) ==> final(self).images@ == old(self).images@.push((name, img)),
    {
        let n: usize = self.images.len();
        let mut i: usize = 0;
        while i < n
            invariant
                n == self.images@.len(),
                self.images@ == old(self).images@,
                self.name == old(self).name,
                self.width == old(self).width,
                self.height == old(self).height,
                self.score == old(self).score,
                self.level == old(self).level,
                self.delta_time == old(self).delta_time,
                old(self).wf(),
                img.wf(),
                i <= n,
                forall|j: int| 0 <= j < i ==> self.images@[j].0@ != name@,
            decreases n - i,
        {
            if self.images[i].0 == name {
                self.images.set(i, (name, img));
                assert forall|j: int| 0 <= j < n && old(self).images@[j].0@ == name@ implies j == i by {
                    if j > i {
                        assert(old(self).images@[i as int].0@ != old(self).images@[j].0@);
                    }
                }
                return;
            }
            i = i + 1;
        }
        self.images.push((name, img));
    }

    /// A copy of the image registered under `path`, if any.
    pub fn get_image(&self, path: &str) -> (r: Option<Bitmap>)
        requires
            self.wf(),
        ensures
            r.is_some() <==> has_image(self.images@, path@),
            r matches Some(b) ==> b.wf() && is_image_named(self.images@, path@, b),
    {
        let key: String = path.to_owned();
        let n: usize = self.images.len();
        let mut i: usize = 0;
        while i < n
            invariant
                n == self.images@.len(),
                key@ == path@,
                self.wf(),
                i <= n,
                forall|j: int| 0 <= j < i ==> self.images@[j].0@ != path@,
            decreases n - i,
        {
            if self.images[i].0 == key {
                let b = self.images[i].1.copy();
                assert(self.images@[i as int].1.wf());
                return Some(b);
            }
            i = i + 1;
        }
        None
    }

    /// The world of a new game: the player centred at the bottom, under key
    /// 0, then the enemy centred at the top, under key 1; each only when its
    /// image is registered.
    pub fn add_entities(&self) -> (r: World)
        requires
            self.wf(),
        ensures
            r.wf(),
            r.entries@.len() == (if has_image(self.images@, "player.png"@) { 1int } else { 0 })
                + (if has_image(self.images@, "enemy.png"@) { 1int } else { 0 }),
            has_image(self.images@, "player.png"@) ==> r.entries@[0].0 == player_key()
                && is_start_player(self.images@, self.width as int, self.height as int, r.entries@[0].1),
            has_image(self.images@, "enemy.png"@) ==> r.entries@.last().0 == enemy_key()
                && is_start_enemy(self.images@, self.width as int, r.entries@.last().1),
    {
        let mut world = World::new();
        match self.get_image("player.png") {
            Some(img) => {
                let x: i64 = centred(self.width, img.width);
                let y: i64 = self.height as i64 - img.height as i64;
                let key = EntityKey { id: 0, entity_type: EntityType::Player };
                world.insert(key, Entity::Player(Player { image: img, x, y }));
            },
            None => {},
        }
        match self.get_image("enemy.png") {
            Some(img) => {
                let x: i64 = centred(self.width, img.width);
                let key = EntityKey { id: 1, entity_type: EntityType::Enemy };
                proof {
                    assert(!crate::world::has_key(world.entries@, key));
                }
                world.insert(key, Entity::Enemy(Enemy { image: img, x, y: 0 }));
            },
            None => {},
        }
        world
    }

    /// The start screen waits for the confirm key.
    pub fn update_start(&self, input: &Input, mode: &mut Mode)
        requires
            *old(mode) == Mode::Start,
        ensures
            *final(mode) == next_mode(Mode::Start, input.confirm, false),
    {
        if input.confirm {
            *mode = Mode::Play;
        }
    }

    /// The start screen draws nothing.
    pub fn draw_start(&self, render: &Render)
    {
    }

    /// One frame of play: every entity advances, the player by the keys and
    /// each enemy by a random step; the game is over when the player then
    /// hits an enemy.
    pub fn update_play(&self, input: &Input, mode: &mut Mode, world: &mut World)
        requires
            *old(mode) == Mode::Play,
            old(world).wf(),
        ensures
            final(world).wf(),
            final(world).entries@.len() == old(world).entries@.len(),
            forall|i: int| 0 <= i < old(world).entries@.len() ==> #[trigger] final(world).entries@[i].0 == old(world).entries@[i].0,
            forall|i: int| 0 <= i < old(world).entries@.len() ==> #[trigger] advanced_by_some_step(
                old(world).entries@[i].1, final(world).entries@[i].1, self.width as int, self.height as int, *input),
            *final(mode) == next_mode(Mode::Play, input.confirm,
                any_hit(final(world).entries@, EntityType::Player, EntityType::Enemy)),
    {
        world.update_all(self.width, self.height, input);
        self.check_collision(mode, world);
    }

    /// One frame of play in which entity `i` of an enemy kind steps in
    /// `directions[i]`; the game is over when the player then hits an enemy.
    pub fn update_play_with(&self, input: &Input, mode: &mut Mode, world: &mut World, directions: &Vec<u32>)
        requires
            *old(mode) == Mode::Play,
            old(world).wf(),
            directions@.len() == old(world).entries@.len(),
        ensures
            final(world).wf(),
            final(world).entries@.len() == old(world).entries@.len(),
            forall|i: int| 0 <= i < old(world).entries@.len() ==> #[trigger] final(world).entries@[i] == (
                old(world).entries@[i].0,
                entity_after(old(world).entries@[i].1, self.width as int, self.height as int, *input, directions@[i])),
            *final(mode) == next_mode(Mode::Play, input.confirm,
                any_hit(final(world).entries@, EntityType::Player, EntityType::Enemy)),
    {
        world.advance_all(self.width, self.height, input, directions);
        self.check_collision(mode, world);
    }

    /// Ends play when the player hits an enemy.
    fn check_collision(&self, mode: &mut Mode, world: &World)
        requires
            *old(mode) == Mode::Play,
        ensures
            *final(mode) == next_mode(Mode::Play, false,
                any_hit(world.entries@, EntityType::Player, EntityType::Enemy)),
    {
        if world.hit_test_any(EntityType::Player, EntityType::Enemy) {
            *mode = Mode::Over;
        }
    }

    /// Play draws every entity in order.
    pub fn draw_play(&self, render: &mut Render, world: &World)
        requires
            old(render).wf(),
            world.wf(),
        ensures
            final(render).wf(),
            final(render).width == old(render).width,
            final(render).height == old(render).height,
            final(render).buffer@ == drawn_all(old(render).buffer@, old(render).width as int, world.entries@),
    {
        world.draw_all(render);
    }

    /// The game-over screen waits for the confirm key.
    pub fn update_over(&self, input: &Input, mode: &mut Mode)
        requires
            *old(mode) == Mode::Over,
        ensures
            *final(mode) == next_mode(Mode::Over, input.confirm, false),
    {
        if input.confirm {
            *mode = Mode::Start;
        }
    }

    /// The game-over screen is all red.
    pub fn draw_over(&self, render: &mut Render)
        ensures
            final(render).width == old(render).width,
            final(render).height == old(render).height,
            final(render).buffer@ == filled_with(old(render).buffer@, RED),
    {
        render.color(RED);
    }

    /// One frame: the frame is cleared, then the update and the drawing of
    /// the mode the frame began in run.
    pub fn frame(&self, input: &Input, mode: &mut Mode, world: &mut World, render: &mut Render)
        requires
            old(world).wf(),
            old(render).wf(),
        ensures
            final(world).wf(),
            final(render).wf(),
            final(render).width == old(render).width,
            final(render).height == old(render).height,
            *final(mode) == next_mode(*old(mode), input.confirm,
                any_hit(final(world).entries@, EntityType::Player, EntityType::Enemy)),
            *old(mode) != Mode::Play ==> *final(world) == *old(world),
            *old(mode) == Mode::Play ==> final(world).entries@.len() == old(world).entries@.len()
                && (forall|i: int| 0 <= i < old(world).entries@.len() ==> #[trigger] final(world).entries@[i].0 == old(world).entries@[i].0)
                && (forall|i: int| 0 <= i < old(world).entries@.len() ==> #[trigger] advanced_by_some_step(
                    old(world).entries@[i].1, final(world).entries@[i].1, self.width as int, self.height as int, *input)),
            *old(mode) == Mode::Start ==> final(render).buffer@ == cleared(old(render).buffer@),
            *old(mode) == Mode::Play ==> final(render).buffer@ == drawn_all(
                cleared(old(render).buffer@), old(render).width as int, final(world).entries@),
            *old(mode) == Mode::Over ==> final(render).buffer@ == filled_with(old(render).buffer@, RED),
    {
        render.clear();
        match *mode {
            Mode::Start => {
                self.update_start(input, mode);
                self.draw_start(render);
            },
            Mode::Play => {
                self.update_play(input, mode, world);
                self.draw_play(render, world);
            },
            Mode::Over => {
                self.update_over(input, mode);
                self.draw_over(render);
                assert(filled_with(cleared(old(render).buffer@), RED) =~= filled_with(old(render).buffer@, RED));
            },
        }
    }

    /// Records that the last frame took `elapsed` microseconds and returns
    /// how long to wait before the next one: the rest of the frame's time,
    /// or nothing when the frame ran over.
    pub fn frame_pause(&mut self, elapsed: u64) -> (r: u64)
        ensures
            r == pause_after(elapsed),
            final(self).delta_time == elapsed,
            final(self).name == old(self).name,
            final(self).width == old(self).width,
            final(self).height == old(self).height,
            final(self).score == old(self).score,
            final(self).level == old(self).level,
            final(self).images == old(self).images,
    {
        self.delta_time = elapsed;
        if elapsed < FRAME_MICROS {
            FRAME_MICROS - elapsed
        } else {
            0
        }
    }
}

/// Where a thing `size` wide starts when centred in a world `world` wide:
/// half the room left beside it, rounded down.
fn centred(world: u32, size: u32) -> (r: i64)
    ensures
        r == (world - size) / 2,
{
    let room: i64 = world as i64 - size as i64;
    if room >= 0 {
        room / 2
    } else {
        -((-room + 1) / 2)
    }
}

} // verus!
