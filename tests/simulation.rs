use pong::collision::handle_collisions;
use pong::control::{handle_player_input, move_ai};
use pong::entity::{find_single, Entity, Field, Role};
use pong::game::{spawn, tick};
use pong::geometry::{collide_with_side, Aabb, BoundingCircle, Collision, Vector2};
use pong::movement::{move_ball, move_paddles};
use pong::scoring::{detect_scoring, reset_ball, update_score, Score, Scored, Scorer};

fn v(x: i64, y: i64) -> Vector2 {
    Vector2::new(x, y)
}

fn ball_at(x: i64, y: i64, vx: i64, vy: i64) -> Entity {
    let mut ball = Entity::ball(vx, vy);
    ball.position = v(x, y);
    ball
}

fn circle(x: i64, y: i64, r: i64) -> BoundingCircle {
    BoundingCircle { center: v(x, y), radius: r }
}

fn aabb(x: i64, y: i64, w: i64, h: i64) -> Aabb {
    Aabb { center: v(x, y), size: v(w, h) }
}

#[test]
fn ball_runs_to_the_edge_and_scores_past_it() {
    let field = Some(Field { width: 100, height: 100 });
    let mut entities = vec![Entity::ball(1, 0)];
    let mut score = Score::new();
    for _ in 0..49 {
        let events = tick(&mut entities, &mut score, field, false, false);
        assert!(events.is_empty());
    }
    assert_eq!(entities[0].position, v(49, 0));
    let events = tick(&mut entities, &mut score, field, false, false);
    assert!(events.is_empty());
    assert_eq!(entities[0].position, v(50, 0));
    assert_eq!(score, Score { player: 0, ai: 0 });
    let events = tick(&mut entities, &mut score, field, false, false);
    assert_eq!(events, vec![Scored(Scorer::Ai)]);
    assert_eq!(entities[0].position, v(0, 0));
    assert_eq!(entities[0].velocity, v(-1, 1));
    assert_eq!(score, Score { player: 0, ai: 1 });
}

#[test]
fn ai_paddle_climbs_to_the_ball_and_stops() {
    let field = Some(Field { width: 400, height: 400 });
    let mut entities = vec![ball_at(0, 10, 0, 0), Entity::paddle(Role::Ai, -150, 0)];
    let mut score = Score::new();
    tick(&mut entities, &mut score, field, false, false);
    assert_eq!(entities[1].velocity.y, 1);
    assert_eq!(entities[1].position, v(-150, 5));
    tick(&mut entities, &mut score, field, false, false);
    assert_eq!(entities[1].velocity.y, 1);
    assert_eq!(entities[1].position, v(-150, 10));
    tick(&mut entities, &mut score, field, false, false);
    assert_eq!(entities[1].velocity.y, 0);
    assert_eq!(entities[1].position, v(-150, 10));
}

#[test]
fn integration_adds_n_times_the_velocity() {
    let mut entities = vec![ball_at(3, -7, 4, -2), Entity::gutter(0, 100)];
    for _ in 0..25 {
        move_ball(&mut entities);
    }
    assert_eq!(entities[0].position, v(3 + 25 * 4, -7 - 25 * 2));
    assert_eq!(entities[0].velocity, v(4, -2));
    assert_eq!(entities[1], Entity::gutter(0, 100));
}

#[test]
fn contact_sides_of_a_box() {
    let wall = aabb(0, 0, 10, 10);
    assert_eq!(collide_with_side(circle(-8, 0, 5), wall), Some(Collision::Left));
    assert_eq!(collide_with_side(circle(8, 1, 5), wall), Some(Collision::Right));
    assert_eq!(collide_with_side(circle(1, 8, 5), wall), Some(Collision::Top));
    assert_eq!(collide_with_side(circle(0, -8, 5), wall), Some(Collision::Bottom));
    assert_eq!(collide_with_side(circle(11, 0, 5), wall), None);
    assert_eq!(collide_with_side(circle(10, 0, 5), wall), Some(Collision::Right));
}

#[test]
fn contact_tie_goes_to_the_vertical_axis() {
    let wall = aabb(0, 0, 10, 10);
    assert_eq!(collide_with_side(circle(8, 8, 5), wall), Some(Collision::Top));
    assert_eq!(collide_with_side(circle(-8, -8, 5), wall), Some(Collision::Bottom));
    assert_eq!(collide_with_side(circle(0, 0, 5), wall), Some(Collision::Bottom));
}

#[test]
fn contact_with_odd_box_sizes_is_exact() {
    let wall = aabb(0, 0, 1, 1);
    assert_eq!(collide_with_side(circle(4, 0, 4), wall), Some(Collision::Right));
    assert_eq!(collide_with_side(circle(5, 0, 4), wall), None);
    assert_eq!(collide_with_side(circle(6, 0, 5), wall), None);
    assert_eq!(collide_with_side(circle(5, 3, 4), wall), None);
}

#[test]
fn corner_contact_uses_the_distance() {
    let wall = aabb(0, 0, 10, 10);
    assert_eq!(collide_with_side(circle(9, 9, 5), wall), None);
    assert_eq!(collide_with_side(circle(8, 9, 5), wall), Some(Collision::Top));
}

#[test]
fn reflection_flips_one_component() {
    assert_eq!(v(3, -4).reflect(Collision::Left), v(-3, -4));
    assert_eq!(v(3, -4).reflect(Collision::Right), v(-3, -4));
    assert_eq!(v(3, -4).reflect(Collision::Top), v(3, 4));
    assert_eq!(v(3, -4).reflect(Collision::Bottom), v(3, 4));
}

#[test]
fn ball_bounces_off_a_paddle() {
    let mut entities = vec![ball_at(-8, 0, -2, 1), Entity::paddle(Role::Ai, -15, 0)];
    let paddle = entities[1];
    handle_collisions(&mut entities);
    assert_eq!(entities[0].velocity, v(2, 1));
    assert_eq!(entities[0].position, v(-8, 0));
    assert_eq!(entities[1], paddle);
}

#[test]
fn ball_bounces_off_a_gutter() {
    let mut entities = vec![ball_at(0, 86, 1, 1), Entity::gutter(0, 100)];
    handle_collisions(&mut entities);
    assert_eq!(entities[0].velocity, v(1, -1));
}

#[test]
fn two_contacts_in_one_tick_flip_both_axes() {
    let mut entities = vec![
        ball_at(0, 0, 3, 2),
        Entity::gutter(0, 12),
        Entity::paddle(Role::Player, 9, 0),
    ];
    handle_collisions(&mut entities);
    assert_eq!(entities[0].velocity, v(-3, -2));
    let mut entities = vec![ball_at(0, 0, 3, 2), Entity::gutter(0, 12), Entity::gutter(0, -12)];
    handle_collisions(&mut entities);
    assert_eq!(entities[0].velocity, v(3, 2));
}

#[test]
fn no_contact_keeps_the_velocity() {
    let mut entities = vec![ball_at(0, 0, 3, 2), Entity::gutter(0, 100)];
    handle_collisions(&mut entities);
    assert_eq!(entities[0].velocity, v(3, 2));
}

#[test]
fn input_maps_to_paddle_velocity() {
    let cases = [(true, false, 1), (false, true, -1), (false, false, 0), (true, true, 1)];
    for (up, down, expected) in cases {
        let mut entities = vec![Entity::paddle(Role::Player, 100, 0)];
        handle_player_input(&mut entities, up, down);
        assert_eq!(entities[0].velocity, v(0, expected));
    }
}

#[test]
fn input_without_a_player_paddle_changes_nothing() {
    let mut entities = vec![Entity::paddle(Role::Ai, 100, 0), Entity::ball(1, 0)];
    let before = entities.clone();
    handle_player_input(&mut entities, true, false);
    assert_eq!(entities, before);
}

#[test]
fn ai_follows_the_sign_of_the_height_difference() {
    for (ball_y, expected) in [(30, 1), (-30, -1), (12, 0)] {
        let mut entities = vec![Entity::paddle(Role::Ai, -100, 12), ball_at(0, ball_y, 1, 1)];
        move_ai(&mut entities);
        assert_eq!(entities[0].velocity, v(0, expected));
    }
}

#[test]
fn ai_without_a_ball_changes_nothing() {
    let mut entities = vec![Entity::paddle(Role::Ai, -100, 12)];
    entities[0].velocity = v(0, -1);
    move_ai(&mut entities);
    assert_eq!(entities[0].velocity, v(0, -1));
}

#[test]
fn paddle_move_past_the_limit_is_dropped() {
    // height 200: the bound is 100 - 20 - 25 = 55
    let field = Some(Field { width: 400, height: 200 });
    let mut entities = vec![Entity::paddle(Role::Player, 100, 50)];
    entities[0].velocity = v(0, 1);
    move_paddles(&mut entities, field);
    assert_eq!(entities[0].position, v(100, 50));
    entities[0].position = v(100, 49);
    move_paddles(&mut entities, field);
    assert_eq!(entities[0].position, v(100, 54));
    entities[0].velocity = v(0, -1);
    entities[0].position = v(100, -49);
    move_paddles(&mut entities, field);
    assert_eq!(entities[0].position, v(100, -54));
    move_paddles(&mut entities, field);
    assert_eq!(entities[0].position, v(100, -54));
}

#[test]
fn paddle_limit_with_an_odd_height() {
    // height 201: the bound is 100.5 - 45 = 55.5
    let field = Some(Field { width: 400, height: 201 });
    let mut entities = vec![Entity::paddle(Role::Ai, -100, 50)];
    entities[0].velocity = v(0, 1);
    move_paddles(&mut entities, field);
    assert_eq!(entities[0].position, v(-100, 55));
    move_paddles(&mut entities, field);
    assert_eq!(entities[0].position, v(-100, 55));
}

#[test]
fn paddles_do_not_move_without_a_field() {
    let mut entities = vec![Entity::paddle(Role::Ai, -100, 0)];
    entities[0].velocity = v(0, 1);
    move_paddles(&mut entities, None);
    assert_eq!(entities[0].position, v(-100, 0));
}

#[test]
fn scoring_on_each_side_and_on_the_edge() {
    let field = Some(Field { width: 100, height: 100 });
    let mut events = Vec::new();
    detect_scoring(&vec![ball_at(51, 0, 1, 0)], field, &mut events);
    assert_eq!(events, vec![Scored(Scorer::Ai)]);
    let mut events = Vec::new();
    detect_scoring(&vec![ball_at(-51, 0, 1, 0)], field, &mut events);
    assert_eq!(events, vec![Scored(Scorer::Player)]);
    let mut events = Vec::new();
    detect_scoring(&vec![ball_at(50, 0, 1, 0)], field, &mut events);
    detect_scoring(&vec![ball_at(-50, 0, 1, 0)], field, &mut events);
    assert!(events.is_empty());
}

#[test]
fn scoring_with_an_odd_width() {
    let field = Some(Field { width: 101, height: 100 });
    let mut events = Vec::new();
    detect_scoring(&vec![ball_at(50, 0, 1, 0)], field, &mut events);
    assert!(events.is_empty());
    detect_scoring(&vec![ball_at(51, 0, 1, 0)], field, &mut events);
    assert_eq!(events, vec![Scored(Scorer::Ai)]);
}

#[test]
fn scoring_needs_a_field_and_one_ball() {
    let mut events = Vec::new();
    detect_scoring(&vec![ball_at(500, 0, 1, 0)], None, &mut events);
    let two_balls = vec![ball_at(500, 0, 1, 0), ball_at(500, 0, 1, 0)];
    detect_scoring(&two_balls, Some(Field { width: 100, height: 100 }), &mut events);
    assert!(events.is_empty());
}

#[test]
fn reset_relaunches_away_from_the_scorer() {
    let mut entities = vec![ball_at(70, 3, 2, 2)];
    reset_ball(&mut entities, &vec![Scored(Scorer::Player)]);
    assert_eq!(entities[0].position, v(0, 0));
    assert_eq!(entities[0].velocity, v(1, 1));
    let mut entities = vec![ball_at(70, 3, 2, 2)];
    reset_ball(&mut entities, &vec![Scored(Scorer::Player), Scored(Scorer::Ai)]);
    assert_eq!(entities[0].velocity, v(-1, 1));
    let mut entities = vec![ball_at(70, 3, 2, 2)];
    reset_ball(&mut entities, &Vec::new());
    assert_eq!(entities[0], ball_at(70, 3, 2, 2));
}

#[test]
fn score_counts_each_event() {
    let mut score = Score { player: 2, ai: 5 };
    let events = vec![Scored(Scorer::Ai), Scored(Scorer::Player), Scored(Scorer::Ai)];
    update_score(&mut score, &events);
    assert_eq!(score, Score { player: 3, ai: 7 });
    update_score(&mut score, &Vec::new());
    assert_eq!(score, Score { player: 3, ai: 7 });
}

#[test]
fn single_lookup() {
    let entities = vec![Entity::gutter(0, 5), Entity::ball(1, 0), Entity::gutter(0, -5)];
    assert_eq!(find_single(&entities, Role::Ball), Some(1));
    assert_eq!(find_single(&entities, Role::Gutter), None);
    assert_eq!(find_single(&entities, Role::Player), None);
    assert_eq!(find_single(&Vec::new(), Role::Ball), None);
}

#[test]
fn startup_layout() {
    let entities = spawn(Some(Field { width: 1280, height: 720 }));
    assert_eq!(entities.len(), 5);
    assert_eq!(entities[0], Entity::ball(1, 0));
    assert_eq!(entities[0].shape, v(5, 5));
    assert_eq!(entities[1], Entity::paddle(Role::Player, 590, 0));
    assert_eq!(entities[2], Entity::paddle(Role::Ai, -590, 0));
    assert_eq!(entities[3], Entity::gutter(0, 350));
    assert_eq!(entities[4], Entity::gutter(0, -350));
    assert_eq!(entities[1].shape, v(10, 50));
    assert_eq!(entities[3].shape, v(0, 20));
    assert_eq!(spawn(None), vec![Entity::ball(1, 0)]);
}

#[test]
fn player_paddle_follows_input_in_a_tick() {
    let field = Some(Field { width: 1280, height: 720 });
    let mut entities = spawn(field);
    let mut score = Score::new();
    tick(&mut entities, &mut score, field, true, false);
    assert_eq!(entities[1].position, v(590, 5));
    assert_eq!(entities[2].position, v(-590, 0));
    assert_eq!(entities[0].position, v(1, 0));
    tick(&mut entities, &mut score, field, false, true);
    assert_eq!(entities[1].position, v(590, 0));
}

#[test]
fn player_scores_on_the_left() {
    let field = Some(Field { width: 100, height: 100 });
    let mut entities = vec![ball_at(-50, 0, -1, 0)];
    let mut score = Score::new();
    let events = tick(&mut entities, &mut score, field, false, false);
    assert_eq!(events, vec![Scored(Scorer::Player)]);
    assert_eq!(entities[0].position, v(0, 0));
    assert_eq!(entities[0].velocity, v(1, 1));
    assert_eq!(score, Score { player: 1, ai: 0 });
}
