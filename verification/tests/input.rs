use movement_core::math::{Quat, Vec3, ONE};
use movement_core::physics::{ExternalForce, Velocity};
use movement_core::player::{attach_player_model, Physics, Player, PlayerBundle, SpawnedPlayersCount};
use movement_core::protocol::{
    ClientId, Color, Direction, InputEvent, Inputs, PlayerColor, PlayerPosition,
};
use movement_core::registry::{ClientIds, Entity};
use movement_core::server_input::{
    apply_input_event, find_player, movement, shared_movement_behaviour, sync_positions,
    InputOutcome, ServerInputPlugin, MAX_TORQUE, TORQUE_MULTIPLIER,
};
use movement_core::world::{Gate, LastTouchedTime, SECOND};

const NONE: Direction =
    Direction { forward: false, back: false, left: false, right: false, reset: false };
const FORWARD: Direction = Direction { forward: true, ..NONE };
const BACK: Direction = Direction { back: true, ..NONE };
const LEFT: Direction = Direction { left: true, ..NONE };
const RIGHT: Direction = Direction { right: true, ..NONE };
const RESET: Direction = Direction { reset: true, ..NONE };

fn v(x: i64, y: i64, z: i64) -> Vec3 {
    Vec3 { x, y, z }
}

fn moving(linvel: Vec3) -> Velocity {
    Velocity { linvel, angvel: v(11, 22, 33) }
}

fn loaded(torque: Vec3) -> ExternalForce {
    ExternalForce { force: v(4, 5, 6), torque }
}

fn steer(torque: Vec3, linvel: Vec3, direction: Direction) -> Vec3 {
    let mut velocity = moving(linvel);
    let mut force = loaded(torque);
    shared_movement_behaviour(&mut velocity, &mut force, &Inputs::Direction(direction));
    assert_eq!(velocity.linvel, linvel);
    assert_eq!(force.force, v(4, 5, 6));
    if direction.reset {
        assert_eq!(velocity.angvel, Vec3::zero());
    } else {
        assert_eq!(velocity.angvel, v(11, 22, 33));
    }
    force.torque
}

fn length_squared(t: Vec3) -> i128 {
    (t.x as i128).pow(2) + (t.y as i128).pow(2) + (t.z as i128).pow(2)
}

fn materialized(entity: u64) -> Player {
    let bundle = PlayerBundle {
        position: PlayerPosition(v(0, 0, 0), Quat::identity()),
        color: PlayerColor(Color { red: 1, green: 2, blue: 3 }),
    };
    let mut player = Player::spawn(Entity(entity), bundle, false);
    assert!(player.materialize(true));
    player
}

fn with_velocity(mut player: Player, linvel: Vec3) -> Player {
    let mut body = player.body.unwrap();
    body.velocity.linvel = linvel;
    player.body = Some(body);
    player
}

fn with_marker(mut player: Player, marker: LastTouchedTime) -> Player {
    let mut body = player.body.unwrap();
    body.last_touched_time = marker;
    player.body = Some(body);
    player
}

fn torque_of(player: &Player) -> Vec3 {
    player.body.unwrap().external_force.torque
}

fn event(client: u64, input: Inputs) -> InputEvent {
    InputEvent { from: ClientId(client), input: Some(input) }
}

fn registry(pairs: &[(u64, u64)]) -> ClientIds {
    let mut ids = ClientIds::new();
    for (client, entity) in pairs {
        ids.register(ClientId(*client), Entity(*entity));
    }
    ids
}

#[test]
fn torque_constants() {
    assert_eq!(TORQUE_MULTIPLIER, ONE / 10);
    assert_eq!(MAX_TORQUE, 10 * ONE);
    assert_eq!(SECOND, 1_000_000);
}

#[test]
fn gate_is_unlocked_within_a_second_of_the_touch() {
    assert_eq!(LastTouchedTime(0, false).gate(0), Gate::Unlocked);
    assert_eq!(LastTouchedTime(0, false).gate(999_999), Gate::Unlocked);
    assert_eq!(LastTouchedTime(5_000_000, false).gate(5_999_999), Gate::Unlocked);
}

#[test]
fn gate_locks_a_second_after_the_touch() {
    assert_eq!(LastTouchedTime(0, false).gate(1_000_000), Gate::Locked);
    assert_eq!(LastTouchedTime(5_000_000, false).gate(6_000_000), Gate::Locked);
    assert_eq!(LastTouchedTime(0, false).gate(u64::MAX), Gate::Locked);
}

#[test]
fn sticky_marker_never_locks() {
    assert_eq!(LastTouchedTime(0, true).gate(1_000_000), Gate::Unlocked);
    assert_eq!(LastTouchedTime(0, true).gate(u64::MAX), Gate::Unlocked);
}

#[test]
fn touch_ahead_of_the_clock_is_unlocked() {
    assert_eq!(LastTouchedTime(10, false).gate(3), Gate::Unlocked);
    assert_eq!(LastTouchedTime(u64::MAX, false).gate(0), Gate::Unlocked);
    assert_eq!(LastTouchedTime(u64::MAX, false).gate(u64::MAX), Gate::Unlocked);
}

#[test]
fn forward_adds_up_cross_direction() {
    assert_eq!(steer(Vec3::zero(), v(0, 0, ONE), FORWARD), v(100_000, 0, 0));
    assert_eq!(steer(Vec3::zero(), v(3 * ONE, 0, 4 * ONE), FORWARD), v(80_000, 0, -60_000));
    assert_eq!(steer(v(1, 2, 3), v(-7, 0, 0), FORWARD), v(1, 2, 100_003));
}

#[test]
fn back_subtracts_the_forward_torque() {
    assert_eq!(steer(Vec3::zero(), v(0, 0, ONE), BACK), v(-100_000, 0, 0));
    assert_eq!(steer(v(80_000, 0, -60_000), v(3 * ONE, 0, 4 * ONE), BACK), Vec3::zero());
}

#[test]
fn left_adds_twice_the_multiplier_sideways() {
    assert_eq!(steer(Vec3::zero(), v(0, 0, ONE), LEFT), v(0, 0, -200_000));
    assert_eq!(steer(Vec3::zero(), v(3 * ONE, 0, 4 * ONE), LEFT), v(-120_000, 0, -160_000));
    assert_eq!(steer(Vec3::zero(), v(-7, 0, 0), LEFT), v(200_000, 0, 0));
}

#[test]
fn right_subtracts_the_sideways_torque() {
    assert_eq!(steer(Vec3::zero(), v(0, 0, ONE), RIGHT), v(0, 0, 200_000));
    assert_eq!(steer(Vec3::zero(), v(3 * ONE, 0, 4 * ONE), RIGHT), v(120_000, 0, 160_000));
}

#[test]
fn vertical_travel_contributes_nothing() {
    let all = Direction { forward: true, back: false, left: true, right: false, reset: false };
    assert_eq!(steer(v(5, 6, 7), v(0, 5 * ONE, 0), all), v(5, 6, 7));
}

#[test]
fn travel_direction_is_rounded_per_component() {
    let linvel = v(ONE, 2 * ONE, 2 * ONE);
    assert_eq!(steer(Vec3::zero(), linvel, FORWARD), v(66_666, 0, -33_333));
    assert_eq!(steer(Vec3::zero(), linvel, LEFT), v(-66_666, 0, -133_333));
}

#[test]
fn flags_combine_in_order() {
    let linvel = v(3 * ONE, 0, 4 * ONE);
    let forward_left = Direction { forward: true, left: true, ..NONE };
    let back_right = Direction { back: true, right: true, ..NONE };
    let all = Direction { forward: true, back: true, left: true, right: true, reset: false };
    assert_eq!(steer(Vec3::zero(), linvel, forward_left), v(-40_000, 0, -220_000));
    assert_eq!(steer(Vec3::zero(), linvel, back_right), v(40_000, 0, 220_000));
    assert_eq!(steer(Vec3::zero(), linvel, all), Vec3::zero());
}

#[test]
fn no_flag_leaves_the_torque() {
    assert_eq!(steer(v(1, 2, 3), v(0, 0, ONE), NONE), v(1, 2, 3));
    assert_eq!(steer(v(20 * ONE, 0, 0), v(0, 0, ONE), NONE), v(20 * ONE, 0, 0));
}

#[test]
fn body_at_rest_gets_no_contribution() {
    let all = Direction { forward: true, back: true, left: true, right: true, reset: false };
    assert_eq!(steer(v(1, 2, 3), Vec3::zero(), FORWARD), v(1, 2, 3));
    assert_eq!(steer(v(1, 2, 3), Vec3::zero(), all), v(1, 2, 3));
    assert_eq!(steer(v(30 * ONE, 0, 40 * ONE), Vec3::zero(), LEFT), v(6 * ONE, 0, 8 * ONE));
}

#[test]
fn torque_is_clamped_to_ten_units() {
    assert_eq!(steer(v(9_950_000, 0, 0), v(0, 0, ONE), FORWARD), v(10_000_000, 0, 0));
    assert_eq!(steer(v(20 * ONE, 0, 0), v(0, 0, ONE), BACK), v(10_000_000, 0, 0));
    assert_eq!(
        steer(v(8_000_000, 6_000_000, 0), v(0, 0, ONE), FORWARD),
        v(8_035_571, 5_952_275, 0)
    );
}

#[test]
fn clamp_follows_each_contribution() {
    let forward_back = Direction { forward: true, back: true, ..NONE };
    assert_eq!(steer(v(9_950_000, 0, 0), v(0, 0, ONE), forward_back), v(9_900_000, 0, 0));
}

#[test]
fn clamp_holds_for_every_flag_combination() {
    let starts = [
        Vec3::zero(),
        v(9_999_999, 0, 0),
        v(-7_000_000, 7_000_000, 1_000_000),
        v(i64::MAX, i64::MIN, 5),
        v(-5_773_502, -5_773_502, -5_773_502),
    ];
    let travels = [v(0, 0, ONE), v(-3, 9, 4), v(i64::MIN, 0, i64::MAX), v(1, 0, 0)];
    for start in starts {
        for travel in travels {
            for bits in 1..16u8 {
                let direction = Direction {
                    forward: bits & 1 != 0,
                    back: bits & 2 != 0,
                    left: bits & 4 != 0,
                    right: bits & 8 != 0,
                    reset: false,
                };
                let torque = steer(start, travel, direction);
                assert!(length_squared(torque) <= (MAX_TORQUE as i128).pow(2));
            }
        }
    }
}

#[test]
fn extreme_torque_is_clamped_without_overflow() {
    let far = v(i64::MAX, i64::MIN, 5);
    assert_eq!(steer(far, v(3 * ONE, 0, 4 * ONE), FORWARD), v(7_071_067, -7_071_067, 0));
    assert_eq!(steer(far, v(3 * ONE, 0, 4 * ONE), RIGHT), v(7_071_067, -7_071_067, 0));
}

#[test]
fn forward_twice_accumulates() {
    let linvel = v(0, 0, ONE);
    let once = steer(Vec3::zero(), linvel, FORWARD);
    let twice = steer(once, linvel, FORWARD);
    assert_eq!(once, v(100_000, 0, 0));
    assert_eq!(twice, v(200_000, 0, 0));
    assert!(length_squared(twice) >= length_squared(once));
}

#[test]
fn forward_accumulates_up_to_the_clamp() {
    let linvel = v(3 * ONE, 0, 4 * ONE);
    let mut torque = Vec3::zero();
    let mut previous = 0;
    for _ in 0..150 {
        torque = steer(torque, linvel, FORWARD);
        let now = length_squared(torque);
        assert!(now >= previous || now >= (MAX_TORQUE as i128 - 3).pow(2));
        assert!(now <= (MAX_TORQUE as i128).pow(2));
        previous = now;
    }
    assert_eq!(torque, v(8_000_000, 0, -6_000_000));
}

#[test]
fn forward_against_a_large_torque_shortens_it() {
    let linvel = v(0, 0, ONE);
    let once = steer(v(-300_000, 0, 0), linvel, FORWARD);
    let twice = steer(once, linvel, FORWARD);
    assert_eq!(once, v(-200_000, 0, 0));
    assert_eq!(twice, v(-100_000, 0, 0));
}

#[test]
fn reset_zeroes_angular_velocity_alone() {
    assert_eq!(steer(v(1, 2, 3), v(0, 0, ONE), RESET), v(1, 2, 3));
}

#[test]
fn reset_is_independent_of_the_other_flags() {
    let linvel = v(3 * ONE, 0, 4 * ONE);
    for bits in 0..16u8 {
        let plain = Direction {
            forward: bits & 1 != 0,
            back: bits & 2 != 0,
            left: bits & 4 != 0,
            right: bits & 8 != 0,
            reset: false,
        };
        let with_reset = Direction { reset: true, ..plain };
        let start = v(9_000_000, 0, 4_000_000);
        assert_eq!(steer(start, linvel, with_reset), steer(start, linvel, plain));
    }
}

#[test]
fn other_input_zeroes_the_torque() {
    let mut velocity = moving(v(0, 0, ONE));
    let mut force = loaded(v(9_000_000, -1, 4));
    shared_movement_behaviour(&mut velocity, &mut force, &Inputs::Idle);
    assert_eq!(force, ExternalForce { force: v(4, 5, 6), torque: Vec3::zero() });
    assert_eq!(velocity, moving(v(0, 0, ONE)));
}

#[test]
fn find_player_gives_the_first_carrier() {
    let players = vec![materialized(4), materialized(9), materialized(4)];
    assert_eq!(find_player(&players, Entity(4)), Some(0));
    assert_eq!(find_player(&players, Entity(9)), Some(1));
    assert_eq!(find_player(&players, Entity(5)), None);
    assert_eq!(find_player(&Vec::new(), Entity(4)), None);
}

#[test]
fn event_without_input_is_skipped() {
    let mut players = vec![with_velocity(materialized(10), v(0, 0, ONE))];
    let before = players.clone();
    let ids = registry(&[(1, 10)]);
    let empty = InputEvent { from: ClientId(1), input: None };
    assert_eq!(apply_input_event(&mut players, &ids, &empty, 0), InputOutcome::NoInput);
    assert_eq!(players, before);
}

#[test]
fn event_of_an_unknown_client_is_skipped() {
    let mut players = vec![with_velocity(materialized(10), v(0, 0, ONE))];
    let before = players.clone();
    let ids = registry(&[(1, 10)]);
    let stray = event(2, Inputs::Direction(FORWARD));
    assert_eq!(apply_input_event(&mut players, &ids, &stray, 0), InputOutcome::UnknownClient);
    assert_eq!(players, before);
}

#[test]
fn event_for_a_missing_entity_is_skipped() {
    let mut players = vec![with_velocity(materialized(10), v(0, 0, ONE))];
    let before = players.clone();
    let ids = registry(&[(1, 11)]);
    let input = event(1, Inputs::Direction(FORWARD));
    assert_eq!(apply_input_event(&mut players, &ids, &input, 0), InputOutcome::NotMaterialized);
    assert_eq!(players, before);
}

#[test]
fn event_for_a_player_without_body_is_skipped() {
    let bundle = PlayerBundle {
        position: PlayerPosition(v(0, 0, 0), Quat::identity()),
        color: PlayerColor(Color { red: 1, green: 2, blue: 3 }),
    };
    let mut shell = Player::spawn(Entity(10), bundle, false);
    let mut players = vec![shell];
    let ids = registry(&[(1, 10)]);
    let input = event(1, Inputs::Idle);
    assert_eq!(apply_input_event(&mut players, &ids, &input, 0), InputOutcome::NotMaterialized);
    assert_eq!(players, vec![shell]);
    assert!(shell.materialize(false));
    let mut players = vec![shell];
    assert_eq!(apply_input_event(&mut players, &ids, &input, 0), InputOutcome::NotMaterialized);
    assert_eq!(players, vec![shell]);
}

#[test]
fn locked_gate_leaves_the_torque_unchanged() {
    let touched = with_marker(
        with_velocity(materialized(10), v(0, 0, ONE)),
        LastTouchedTime(2_000_000, false),
    );
    let mut players = vec![touched];
    let ids = registry(&[(1, 10)]);
    let forward = event(1, Inputs::Direction(FORWARD));
    assert_eq!(apply_input_event(&mut players, &ids, &forward, 3_000_000), InputOutcome::Locked);
    assert_eq!(players, vec![touched]);
    let idle = event(1, Inputs::Idle);
    assert_eq!(apply_input_event(&mut players, &ids, &idle, 9_000_000), InputOutcome::Locked);
    assert_eq!(players, vec![touched]);
}

#[test]
fn unlocked_gate_translates_the_input() {
    let touched = with_marker(
        with_velocity(materialized(10), v(0, 0, ONE)),
        LastTouchedTime(2_000_000, false),
    );
    let mut players = vec![materialized(9), touched];
    let ids = registry(&[(1, 10)]);
    let forward = event(1, Inputs::Direction(FORWARD));
    assert_eq!(
        apply_input_event(&mut players, &ids, &forward, 2_999_999),
        InputOutcome::Translated
    );
    assert_eq!(torque_of(&players[1]), v(100_000, 0, 0));
    assert_eq!(players[0], materialized(9));
    let mut expected = touched;
    let mut body = expected.body.unwrap();
    body.external_force.torque = v(100_000, 0, 0);
    expected.body = Some(body);
    assert_eq!(players[1], expected);
}

#[test]
fn sticky_marker_translates_long_after_the_touch() {
    let touched = with_marker(
        with_velocity(materialized(10), v(0, 0, ONE)),
        LastTouchedTime(0, true),
    );
    let mut players = vec![touched];
    let ids = registry(&[(1, 10)]);
    let left = event(1, Inputs::Direction(LEFT));
    assert_eq!(
        apply_input_event(&mut players, &ids, &left, 50_000_000),
        InputOutcome::Translated
    );
    assert_eq!(torque_of(&players[0]), v(0, 0, -200_000));
}

#[test]
fn event_reaches_the_first_player_of_an_entity() {
    let mut players = vec![
        with_velocity(materialized(10), v(0, 0, ONE)),
        with_velocity(materialized(10), v(0, 0, ONE)),
    ];
    let ids = registry(&[(1, 10)]);
    let forward = event(1, Inputs::Direction(FORWARD));
    assert_eq!(apply_input_event(&mut players, &ids, &forward, 0), InputOutcome::Translated);
    assert_eq!(torque_of(&players[0]), v(100_000, 0, 0));
    assert_eq!(torque_of(&players[1]), Vec3::zero());
}

#[test]
fn movement_handles_events_in_order() {
    let mut players = vec![
        with_velocity(materialized(10), v(0, 0, ONE)),
        with_velocity(materialized(20), v(3 * ONE, 0, 4 * ONE)),
        with_marker(with_velocity(materialized(30), v(0, 0, ONE)), LastTouchedTime(0, true)),
    ];
    let ids = registry(&[(1, 10), (2, 20), (3, 30)]);
    let events = vec![
        event(1, Inputs::Direction(FORWARD)),
        event(2, Inputs::Direction(LEFT)),
        event(1, Inputs::Direction(FORWARD)),
        InputEvent { from: ClientId(1), input: None },
        event(4, Inputs::Direction(FORWARD)),
        event(3, Inputs::Direction(RIGHT)),
        event(3, Inputs::Idle),
        event(2, Inputs::Direction(RESET)),
    ];
    assert_eq!(movement(&mut players, &events, &ids, 500_000), 6);
    assert_eq!(torque_of(&players[0]), v(200_000, 0, 0));
    assert_eq!(torque_of(&players[1]), v(-120_000, 0, -160_000));
    assert_eq!(torque_of(&players[2]), Vec3::zero());
}

#[test]
fn movement_after_the_window_moves_only_sticky_players() {
    let mut players = vec![
        with_velocity(materialized(10), v(0, 0, ONE)),
        with_marker(with_velocity(materialized(30), v(0, 0, ONE)), LastTouchedTime(0, true)),
    ];
    let ids = registry(&[(1, 10), (3, 30)]);
    let events =
        vec![event(1, Inputs::Direction(FORWARD)), event(3, Inputs::Direction(FORWARD))];
    assert_eq!(movement(&mut players, &events, &ids, 1_000_000), 1);
    assert_eq!(torque_of(&players[0]), Vec3::zero());
    assert_eq!(torque_of(&players[1]), v(100_000, 0, 0));
}

#[test]
fn movement_without_events_changes_nothing() {
    let mut players = vec![with_velocity(materialized(10), v(0, 0, ONE))];
    let before = players.clone();
    assert_eq!(movement(&mut players, &Vec::new(), &registry(&[(1, 10)]), 0), 0);
    assert_eq!(players, before);
}

#[test]
fn reset_event_zeroes_angular_velocity() {
    let mut spinning = with_velocity(materialized(10), v(0, 0, ONE));
    let mut body = spinning.body.unwrap();
    body.velocity.angvel = v(7, 8, 9);
    body.external_force.torque = v(1, 2, 3);
    spinning.body = Some(body);
    let mut players = vec![spinning];
    let ids = registry(&[(1, 10)]);
    let reset = Direction { forward: true, reset: true, ..NONE };
    let events = vec![event(1, Inputs::Direction(reset))];
    assert_eq!(movement(&mut players, &events, &ids, 0), 1);
    let body = players[0].body.unwrap();
    assert_eq!(body.velocity.angvel, Vec3::zero());
    assert_eq!(body.velocity.linvel, v(0, 0, ONE));
    assert_eq!(body.external_force.torque, v(100_001, 2, 3));
}

#[test]
fn publisher_copies_the_transform() {
    let mut player = materialized(10);
    let mut model = player.model.unwrap();
    model.transform.translation = v(5, -6, 7);
    model.transform.rotation = Quat { x: 1, y: 2, z: 3, w: 4 };
    player.model = Some(model);
    let mut players = vec![player];
    sync_positions(&mut players);
    assert_eq!(players[0].position, PlayerPosition(v(5, -6, 7), Quat { x: 1, y: 2, z: 3, w: 4 }));
    let mut expected = player;
    expected.position = PlayerPosition(v(5, -6, 7), Quat { x: 1, y: 2, z: 3, w: 4 });
    assert_eq!(players[0], expected);
}

#[test]
fn publisher_skips_a_player_without_transform() {
    let bundle = PlayerBundle {
        position: PlayerPosition(v(1, 2, 3), Quat::identity()),
        color: PlayerColor(Color { red: 1, green: 2, blue: 3 }),
    };
    let shell = Player::spawn(Entity(10), bundle, true);
    let mut players = vec![shell, materialized(11)];
    sync_positions(&mut players);
    assert_eq!(players[0], shell);
    assert_eq!(players[1], materialized(11));
}

#[test]
fn publisher_is_unconditional() {
    let mut locked = with_marker(materialized(10), LastTouchedTime(0, false));
    locked.predicted = true;
    let mut model = locked.model.unwrap();
    model.transform.translation = v(9, 9, 9);
    locked.model = Some(model);
    let mut players = vec![locked];
    sync_positions(&mut players);
    assert_eq!(players[0].position.0, v(9, 9, 9));
}

#[test]
fn plugin_runs_movement_in_update() {
    let mut players = vec![with_velocity(materialized(10), v(0, 0, ONE))];
    let ids = registry(&[(1, 10)]);
    let events = vec![event(1, Inputs::Direction(BACK))];
    assert_eq!(ServerInputPlugin.update(&mut players, &events, &ids, 10), 1);
    assert_eq!(torque_of(&players[0]), v(-100_000, 0, 0));
    assert_eq!(players[0].position.0, Vec3::zero());
}

#[test]
fn plugin_runs_the_publisher_in_post_update() {
    let mut player = with_velocity(materialized(10), v(0, 0, ONE));
    let mut model = player.model.unwrap();
    model.transform.translation = v(1, 1, 1);
    player.model = Some(model);
    let mut players = vec![player];
    ServerInputPlugin.post_update(&mut players);
    assert_eq!(torque_of(&players[0]), Vec3::zero());
    assert_eq!(players[0].position.0, v(1, 1, 1));
}

#[test]
fn one_tick_from_roster_to_record() {
    let bundle = PlayerBundle {
        position: PlayerPosition(v(ONE, 0, 0), Quat::identity()),
        color: PlayerColor(Color { red: 9, green: 9, blue: 9 }),
    };
    let mut players = vec![Player::spawn(Entity(10), bundle, false)];
    let ids = registry(&[(1, 10)]);
    let count = SpawnedPlayersCount { current: 1, max: 1 };
    assert_eq!(attach_player_model(&mut players, &count, &Physics(true)), 1);
    let events = vec![event(1, Inputs::Direction(FORWARD))];
    assert_eq!(movement(&mut players, &events, &ids, 100), 0 + 1);
    assert_eq!(torque_of(&players[0]), Vec3::zero());
    let mut stepped = players[0];
    let mut model = stepped.model.unwrap();
    model.transform.translation = v(ONE, -5, 0);
    stepped.model = Some(model);
    players[0] = stepped;
    sync_positions(&mut players);
    assert_eq!(players[0].position, PlayerPosition(v(ONE, -5, 0), Quat::identity()));
}
