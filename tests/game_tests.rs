use pixelgame::bitmap::Bitmap;
use pixelgame::entity::BoundingBox;
use pixelgame::entity::Enemy;
use pixelgame::entity::Entity;
use pixelgame::entity::EntityKey;
use pixelgame::entity::EntityType;
use pixelgame::entity::Input;
use pixelgame::entity::Player;
use pixelgame::game::Game;
use pixelgame::mode::Mode;
use pixelgame::render::Render;
use pixelgame::world::World;

fn solid(w: u32, h: u32, c: u32) -> Bitmap {
    Bitmap::filled(w, h, c).unwrap()
}

fn keys(left: bool, right: bool, up: bool, down: bool, confirm: bool) -> Input {
    Input { left, right, up, down, confirm }
}

fn none() -> Input {
    keys(false, false, false, false, false)
}

fn bx(x: i64, y: i64, width: u32, height: u32) -> BoundingBox {
    BoundingBox { x, y, width, height }
}

fn player_key() -> EntityKey {
    EntityKey { id: 0, entity_type: EntityType::Player }
}

fn enemy_key() -> EntityKey {
    EntityKey { id: 1, entity_type: EntityType::Enemy }
}

#[test]
fn intersects_is_symmetric() {
    let boxes = [bx(0, 0, 10, 10), bx(5, 5, 10, 10), bx(10, 0, 5, 5), bx(-3, 8, 4, 4), bx(20, 20, 1, 1), bx(0, 0, 0, 0)];
    for a in &boxes {
        for b in &boxes {
            assert_eq!(a.intersects(b), b.intersects(a));
        }
    }
    assert!(bx(0, 0, 10, 10).intersects(&bx(5, 5, 10, 10)));
}

#[test]
fn identical_boxes_intersect() {
    assert!(bx(3, 4, 5, 6).intersects(&bx(3, 4, 5, 6)));
    assert!(bx(-100, 7, 1, 1).intersects(&bx(-100, 7, 1, 1)));
}

#[test]
fn touching_or_apart_boxes_do_not_intersect() {
    assert!(!bx(0, 0, 10, 10).intersects(&bx(10, 0, 10, 10)));
    assert!(!bx(10, 0, 10, 10).intersects(&bx(0, 0, 10, 10)));
    assert!(!bx(0, 0, 10, 10).intersects(&bx(0, 10, 10, 10)));
    assert!(!bx(0, 0, 10, 10).intersects(&bx(11, 3, 10, 10)));
    assert!(!bx(0, 0, 10, 10).intersects(&bx(3, -20, 10, 10)));
    assert!(bx(0, 0, 10, 10).intersects(&bx(9, 9, 10, 10)));
}

#[test]
fn player_is_clamped_at_right_edge() {
    let mut p = Player { image: solid(50, 50, 1), x: 470, y: 0 };
    p.update(500, 500, &keys(false, true, false, false, false));
    assert_eq!(p.x, 450);
    p.update(500, 500, &keys(false, true, false, false, false));
    assert_eq!(p.x, 450);
    let mut q = Player { image: solid(50, 50, 1), x: 440, y: 0 };
    q.update(500, 500, &keys(false, true, false, false, false));
    assert_eq!(q.x, 445);
    q.update(500, 500, &keys(false, true, false, false, false));
    assert_eq!(q.x, 450);
}

#[test]
fn player_moves_and_clamps_on_each_axis() {
    let mut p = Player { image: solid(10, 20, 1), x: 3, y: 100 };
    p.update(200, 120, &keys(true, false, true, false, false));
    assert_eq!((p.x, p.y), (0, 95));
    p.update(200, 120, &keys(false, false, false, true, false));
    assert_eq!((p.x, p.y), (0, 100));
    p.update(200, 120, &keys(false, false, false, true, false));
    assert_eq!((p.x, p.y), (0, 100));
    p.update(200, 120, &keys(false, true, false, false, false));
    assert_eq!((p.x, p.y), (5, 100));
    p.update(200, 120, &keys(true, true, false, false, false));
    assert_eq!((p.x, p.y), (5, 100));
    p.update(200, 120, &none());
    assert_eq!((p.x, p.y), (5, 100));
}

#[test]
fn enemy_steps_in_each_direction() {
    let mut e = Enemy { image: solid(10, 10, 2), x: 50, y: 50 };
    e.move_toward(100, 100, 1);
    assert_eq!((e.x, e.y), (53, 50));
    e.move_toward(100, 100, 2);
    assert_eq!((e.x, e.y), (50, 50));
    e.move_toward(100, 100, 3);
    assert_eq!((e.x, e.y), (50, 47));
    e.move_toward(100, 100, 4);
    assert_eq!((e.x, e.y), (50, 50));
    e.move_toward(100, 100, 9);
    assert_eq!((e.x, e.y), (50, 50));
    let mut f = Enemy { image: solid(10, 10, 2), x: 89, y: 1 };
    f.move_toward(100, 100, 1);
    assert_eq!(f.x, 90);
    f.move_toward(100, 100, 3);
    assert_eq!(f.y, 0);
}

#[test]
fn random_enemy_step_is_one_of_four() {
    let mut seen = [false; 4];
    for _ in 0..400 {
        let mut e = Enemy { image: solid(10, 10, 2), x: 50, y: 50 };
        e.move_randomly(100, 100);
        let i = match (e.x, e.y) {
            (53, 50) => 0,
            (47, 50) => 1,
            (50, 47) => 2,
            (50, 53) => 3,
            other => panic!("unexpected position {:?}", other),
        };
        seen[i] = true;
    }
    assert!(seen.iter().all(|s| *s));
}

#[test]
fn hit_needs_a_player_and_an_enemy() {
    let p = Entity::Player(Player { image: solid(10, 10, 1), x: 0, y: 0 });
    let e = Entity::Enemy(Enemy { image: solid(10, 10, 2), x: 5, y: 5 });
    let far = Entity::Enemy(Enemy { image: solid(10, 10, 2), x: 10, y: 0 });
    let p2 = Entity::Player(Player { image: solid(10, 10, 1), x: 0, y: 0 });
    assert!(p.hit(&e));
    assert!(e.hit(&p));
    assert!(!p.hit(&far));
    assert!(!p.hit(&p2));
    assert!(!e.hit(&e));
}

#[test]
fn world_insert_replaces_in_place() {
    let mut w = World::new();
    w.insert(player_key(), Entity::Player(Player { image: solid(1, 1, 1), x: 0, y: 0 }));
    w.insert(enemy_key(), Entity::Enemy(Enemy { image: solid(1, 1, 2), x: 5, y: 5 }));
    w.insert(player_key(), Entity::Player(Player { image: solid(1, 1, 1), x: 9, y: 9 }));
    assert_eq!(w.entries.len(), 2);
    assert_eq!(w.entries[0].0, player_key());
    match w.get(&player_key()) {
        Some(Entity::Player(p)) => assert_eq!((p.x, p.y), (9, 9)),
        _ => panic!("player missing"),
    }
    assert!(w.get(&EntityKey { id: 7, entity_type: EntityType::Enemy }).is_none());
}

#[test]
fn world_draws_in_order_later_wins() {
    let mut w = World::new();
    w.insert(player_key(), Entity::Player(Player { image: solid(2, 2, 1), x: 0, y: 0 }));
    w.insert(enemy_key(), Entity::Enemy(Enemy { image: solid(2, 2, 2), x: 1, y: 0 }));
    let mut r = Render::new(4, 2);
    w.draw_all(&mut r);
    assert_eq!(r.buffer, vec![1, 2, 2, 0, 1, 2, 2, 0]);
}

#[test]
fn world_hit_test_any() {
    let mut w = World::new();
    w.insert(player_key(), Entity::Player(Player { image: solid(5, 5, 1), x: 0, y: 0 }));
    w.insert(enemy_key(), Entity::Enemy(Enemy { image: solid(5, 5, 2), x: 5, y: 0 }));
    assert!(!w.hit_test_any(EntityType::Player, EntityType::Enemy));
    w.insert(EntityKey { id: 2, entity_type: EntityType::Enemy }, Entity::Enemy(Enemy { image: solid(5, 5, 2), x: 4, y: 4 }));
    assert!(w.hit_test_any(EntityType::Player, EntityType::Enemy));
    assert!(w.hit_test_any(EntityType::Enemy, EntityType::Player));
    assert!(!w.hit_test_any(EntityType::Enemy, EntityType::Enemy));
}

#[test]
fn world_advance_all_uses_given_directions() {
    let mut w = World::new();
    w.insert(player_key(), Entity::Player(Player { image: solid(5, 5, 1), x: 10, y: 10 }));
    w.insert(enemy_key(), Entity::Enemy(Enemy { image: solid(5, 5, 2), x: 20, y: 20 }));
    w.advance_all(100, 100, &keys(false, false, false, true, false), &vec![1, 2]);
    match (&w.entries[0].1, &w.entries[1].1) {
        (Entity::Player(p), Entity::Enemy(e)) => {
            assert_eq!((p.x, p.y), (10, 15));
            assert_eq!((e.x, e.y), (17, 20));
        }
        _ => panic!("kinds changed"),
    }
}

#[test]
fn mode_transitions() {
    assert_eq!(Mode::Start.next(true, false), Mode::Play);
    assert_eq!(Mode::Start.next(false, true), Mode::Start);
    assert_eq!(Mode::Play.next(false, true), Mode::Over);
    assert_eq!(Mode::Play.next(true, false), Mode::Play);
    assert_eq!(Mode::Over.next(true, false), Mode::Start);
    assert_eq!(Mode::Over.next(false, true), Mode::Over);
}

fn overlapping_world() -> World {
    let mut w = World::new();
    w.insert(player_key(), Entity::Player(Player { image: solid(50, 50, 1), x: 0, y: 0 }));
    w.insert(enemy_key(), Entity::Enemy(Enemy { image: solid(50, 50, 2), x: 0, y: 0 }));
    w
}

#[test]
fn frames_walk_through_every_mode() {
    let game = Game::new("test", 500, 500);
    let mut world = overlapping_world();
    let mut render = Render::new(500, 500);
    let mut mode = Mode::Start;
    game.frame(&none(), &mut mode, &mut world, &mut render);
    assert_eq!(mode, Mode::Start);
    game.frame(&keys(false, false, false, false, true), &mut mode, &mut world, &mut render);
    assert_eq!(mode, Mode::Play);
    game.frame(&none(), &mut mode, &mut world, &mut render);
    assert_eq!(mode, Mode::Over);
    game.frame(&none(), &mut mode, &mut world, &mut render);
    assert_eq!(mode, Mode::Over);
    assert!(render.buffer.iter().all(|p| *p == 0xFF0000));
    game.frame(&keys(false, false, false, false, true), &mut mode, &mut world, &mut render);
    assert_eq!(mode, Mode::Start);
}

#[test]
fn overlapping_player_and_enemy_end_play() {
    let game = Game::new("test", 500, 500);
    let mut world = overlapping_world();
    let mut mode = Mode::Play;
    game.update_play(&none(), &mut mode, &mut world);
    assert_eq!(mode, Mode::Over);
}

#[test]
fn overlap_ends_play_for_every_enemy_step() {
    let game = Game::new("test", 500, 500);
    for d in 1..=4u32 {
        let mut world = overlapping_world();
        let mut mode = Mode::Play;
        game.update_play_with(&none(), &mut mode, &mut world, &vec![0, d]);
        assert_eq!(mode, Mode::Over);
    }
}

#[test]
fn apart_player_and_enemy_keep_playing() {
    let game = Game::new("test", 500, 500);
    let mut world = World::new();
    world.insert(player_key(), Entity::Player(Player { image: solid(50, 50, 1), x: 0, y: 0 }));
    world.insert(enemy_key(), Entity::Enemy(Enemy { image: solid(50, 50, 2), x: 300, y: 300 }));
    let mut mode = Mode::Play;
    game.update_play(&none(), &mut mode, &mut world);
    assert_eq!(mode, Mode::Play);
}

#[test]
fn play_frame_draws_entities_on_a_cleared_frame() {
    let game = Game::new("test", 4, 2);
    let mut world = World::new();
    world.insert(player_key(), Entity::Player(Player { image: solid(1, 1, 8), x: 0, y: 0 }));
    let mut render = Render::new(4, 2);
    render.color(3);
    let mut mode = Mode::Play;
    game.frame(&keys(false, true, false, false, false), &mut mode, &mut world, &mut render);
    assert_eq!(mode, Mode::Play);
    assert_eq!(render.buffer, vec![0, 0, 0, 8, 0, 0, 0, 0]);
}

#[test]
fn frame_pause_fills_the_frame_budget() {
    let mut game = Game::new("test", 10, 10);
    assert_eq!(game.frame_pause(1000), 15666);
    assert_eq!(game.delta_time, 1000);
    assert_eq!(game.frame_pause(16666), 0);
    assert_eq!(game.frame_pause(40000), 0);
    assert_eq!(game.frame_pause(0), 16666);
}

#[test]
fn images_are_registered_by_name() {
    let mut game = Game::new("My Game", 500, 500);
    assert_eq!(game.name, "My Game");
    assert!(game.get_image("player.png").is_none());
    game.add_image(String::from("player.png"), solid(2, 2, 1));
    game.add_image(String::from("player.png"), solid(3, 3, 4));
    assert_eq!(game.images.len(), 1);
    let b = game.get_image("player.png").unwrap();
    assert_eq!((b.width, b.height, b.pixels[0]), (3, 3, 4));
    assert_eq!(game.add_images(), vec![String::from("player.png"), String::from("enemy.png")]);
    assert_eq!(game.image_path("enemy.png"), "./images/enemy.png");
}

#[test]
fn new_world_places_player_and_enemy() {
    let mut game = Game::new("My Game", 500, 500);
    game.add_image(String::from("player.png"), solid(50, 50, 1));
    game.add_image(String::from("enemy.png"), solid(40, 30, 2));
    let world = game.add_entities();
    assert_eq!(world.entries.len(), 2);
    match (&world.entries[0], &world.entries[1]) {
        ((k0, Entity::Player(p)), (k1, Entity::Enemy(e))) => {
            assert_eq!(*k0, player_key());
            assert_eq!(*k1, enemy_key());
            assert_eq!((p.x, p.y), (225, 450));
            assert_eq!((e.x, e.y), (230, 0));
        }
        _ => panic!("wrong entities"),
    }
}

#[test]
fn new_world_skips_missing_images() {
    let mut game = Game::new("My Game", 500, 500);
    assert_eq!(game.add_entities().entries.len(), 0);
    game.add_image(String::from("enemy.png"), solid(600, 30, 2));
    let world = game.add_entities();
    assert_eq!(world.entries.len(), 1);
    match &world.entries[0] {
        (k, Entity::Enemy(e)) => {
            assert_eq!(*k, enemy_key());
            assert_eq!((e.x, e.y), (-50, 0));
        }
        _ => panic!("wrong entity"),
    }
}

#[test]
fn new_world_centres_images_larger_than_the_world() {
    let mut game = Game::new("My Game", 100, 80);
    game.add_image(String::from("player.png"), solid(103, 90, 1));
    game.add_image(String::from("enemy.png"), solid(101, 10, 2));
    let world = game.add_entities();
    match (&world.entries[0].1, &world.entries[1].1) {
        (Entity::Player(p), Entity::Enemy(e)) => {
            assert_eq!((p.x, p.y), (-2, -10));
            assert_eq!((e.x, e.y), (-1, 0));
        }
        _ => panic!("wrong entities"),
    }
}
