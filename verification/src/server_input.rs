//! The input phase, which turns directional input into torque behind the
//! "last touched" gate of each player, and the publisher.

use vstd::prelude::*;
use crate::math::{
    lemma_clamped_length, lemma_component_within, lemma_cross_unit_y, lemma_length_of_sum,
    lemma_normalized, lemma_with_length_is_close, lemma_within_length, Vec3, Vector,
};
use crate::physics::{ExternalForce, Velocity};
use crate::player::{
    attach_pass, Physics, Player, PlayerBody, PlayerModel, SpawnedPlayersCount,
};
use crate::protocol::{ClientId, Direction, InputEvent, Inputs, PlayerPosition};
use crate::registry::{ClientIds, Entity};
use crate::world::{Gate, SECOND};

verus! {

/// The torque that one directional flag contributes: a tenth of a unit.
pub const TORQUE_MULTIPLIER: i64 = 100_000;

/// The bound on the length of the accumulated torque: ten units.
pub const MAX_TORQUE: i64 = 10_000_000;

/// The systems that turn input into forces and publish the result.
#[derive(Debug, Clone, Copy, PartialEq, Eq, Structural)]
pub struct ServerInputPlugin;

/// What became of one input event.
#[derive(Debug, Clone, Copy, PartialEq, Eq, Structural)]
pub enum InputOutcome {
    /// The input was translated into forces on its player.
    Translated,
    /// The event carried no input.
    NoInput,
    /// No entity is registered for the client that sent the event.
    UnknownClient,
    /// The entity has no physical attachments, or is no player.
    NotMaterialized,
    /// The player's gate was locked.
    Locked,
}

/// The torque that `forward` adds and `back` takes away: the upward axis
/// crossed with the direction of travel, times the multiplier.
pub open spec fn forward_torque(linvel: Vector) -> Vector {
    Vector::unit_y().cross(linvel.normalized()).scaled(TORQUE_MULTIPLIER as int)
}

/// The torque that `left` adds and `right` takes away: the upward axis crossed
/// with the direction of travel turned by a quarter turn about that axis,
/// times twice the multiplier.
pub open spec fn sideways_torque(linvel: Vector) -> Vector {
    Vector::unit_y().cross(linvel.normalized().quarter_turn_y()).scaled(
        2 * TORQUE_MULTIPLIER as int,
    )
}

/// The torque after one contribution: the sum, clamped to the bound.
pub open spec fn pushed(torque: Vector, push: Vector) -> Vector {
    torque.plus(push).clamped(MAX_TORQUE as int)
}

/// The torque after the directional flags of one input, applied in the order
/// forward, back, left, right, each followed by the clamp. The reset flag
/// plays no part.
pub open spec fn steered(torque: Vector, linvel: Vector, direction: Direction) -> Vector {
    let forward = forward_torque(linvel);
    let sideways = sideways_torque(linvel);
    let first = if direction.forward {
        pushed(torque, forward)
    } else {
        torque
    };
    let second = if direction.back {
        pushed(first, forward.negated())
    } else {
        first
    };
    let third = if direction.left {
        pushed(second, sideways)
    } else {
        second
    };
    if direction.right {
        pushed(third, sideways.negated())
    } else {
        third
    }
}

/// Velocity and force of a body after one input.
///
/// Directional input steers the torque and, with the reset flag, zeroes the
/// angular velocity; any other input zeroes the torque. Linear velocity and
/// accumulated force are never touched.
pub open spec fn translated(velocity: Velocity, force: ExternalForce, input: Inputs) -> (
    Velocity,
    ExternalForce,
) {
    match input {
        Inputs::Direction(direction) => (
            Velocity {
                angvel: if direction.reset {
                    Vec3::zero()
                } else {
                    velocity.angvel
                },
                ..velocity
            },
            ExternalForce {
                torque: steered(force.torque@, velocity.linvel@, direction).to_vec3(),
                ..force
            },
        ),
        _ => (velocity, ExternalForce { torque: Vec3::zero(), ..force }),
    }
}

/// The input that sets the forward flag and no other.
pub open spec fn forward_only() -> Direction {
    Direction { forward: true, back: false, left: false, right: false, reset: false }
}

impl Player {
    /// The player after `input` was translated into forces on its body; a
    /// player without a body stays as it is.
    pub open spec fn with_input(self, input: Inputs) -> Player {
        match self.body {
            Some(body) => {
                let (velocity, external_force) = translated(
                    body.velocity,
                    body.external_force,
                    input,
                );
                Player { body: Some(PlayerBody { velocity, external_force, ..body }), ..self }
            },
            None => self,
        }
    }

    /// The player after the publisher copied the simulated transform into the
    /// authoritative record; a player without a transform stays as it is.
    pub open spec fn published(self) -> Player {
        match self.model {
            Some(model) => Player {
                position: PlayerPosition(model.transform.translation, model.transform.rotation),
                ..self
            },
            None => self,
        }
    }
}

/// Whether `index` is the place of the first of `players` that `entity`
/// carries.
pub open spec fn is_first_of(players: Seq<Player>, entity: Entity, index: int) -> bool {
    &&& 0 <= index < players.len()
    &&& players[index].entity == entity
    &&& forall|j: int| 0 <= j < index ==> players[j].entity != entity
}

/// The place of the player that `entity` carries, if it carries one.
pub open spec fn index_of(players: Seq<Player>, entity: Entity) -> Option<int> {
    if exists|index: int| is_first_of(players, entity, index) {
        Some(choose|index: int| is_first_of(players, entity, index))
    } else {
        None
    }
}

/// What becomes of `event` at time `now`.
///
/// An event is skipped if it carries no input, if no entity is registered for
/// its client, if that entity is no player or has no body, or if the player's
/// gate is locked; otherwise its input is translated.
pub open spec fn input_outcome(
    players: Seq<Player>,
    client_ids: Map<ClientId, Entity>,
    event: InputEvent,
    now: u64,
) -> InputOutcome {
    if event.input is None {
        InputOutcome::NoInput
    } else {
        match ClientIds::lookup(client_ids, event.from) {
            None => InputOutcome::UnknownClient,
            Some(entity) => match index_of(players, entity) {
                None => InputOutcome::NotMaterialized,
                Some(index) => match players[index].body {
                    None => InputOutcome::NotMaterialized,
                    Some(body) => if body.last_touched_time.gate_at(now) == Gate::Locked {
                        InputOutcome::Locked
                    } else {
                        InputOutcome::Translated
                    },
                },
            },
        }
    }
}

/// The players after `event`: a translated input changes the forces on its
/// player, and a skipped event changes nothing.
pub open spec fn after_input(
    players: Seq<Player>,
    client_ids: Map<ClientId, Entity>,
    event: InputEvent,
    now: u64,
) -> Seq<Player> {
    if input_outcome(players, client_ids, event, now) == InputOutcome::Translated {
        let index = index_of(players, client_ids[event.from])->0;
        players.update(index, players[index].with_input(event.input->0))
    } else {
        players
    }
}

/// The players after all of `events`, taken in order.
pub open spec fn after_inputs(
    players: Seq<Player>,
    client_ids: Map<ClientId, Entity>,
    events: Seq<InputEvent>,
    now: u64,
) -> Seq<Player>
    decreases events.len(),
{
    if events.len() == 0 {
        players
    } else {
        after_input(
            after_inputs(players, client_ids, events.drop_last(), now),
            client_ids,
            events.last(),
            now,
        )
    }
}

/// How many of `events`, taken in order, are translated.
pub open spec fn translated_inputs(
    players: Seq<Player>,
    client_ids: Map<ClientId, Entity>,
    events: Seq<InputEvent>,
    now: u64,
) -> nat
    decreases events.len(),
{
    if events.len() == 0 {
        0
    } else {
        let earlier = events.drop_last();
        let outcome = input_outcome(
            after_inputs(players, client_ids, earlier, now),
            client_ids,
            events.last(),
            now,
        );
        translated_inputs(players, client_ids, earlier, now) + if outcome
            == InputOutcome::Translated {
            1nat
        } else {
            0nat
        }
    }
}

/// The players after the publisher has run.
pub open spec fn published_all(players: Seq<Player>) -> Seq<Player> {
    players.map_values(|p: Player| p.published())
}

/// Whether `after` is `before` but for the angular velocity and the torque of
/// its body.
pub open spec fn differs_in_forces_alone(before: Player, after: Player) -> bool {
    match (before.body, after.body) {
        (Some(old_body), Some(new_body)) => after == (Player {
            body: Some(
                PlayerBody {
                    velocity: Velocity { angvel: new_body.velocity.angvel, ..old_body.velocity },
                    external_force: ExternalForce {
                        torque: new_body.external_force.torque,
                        ..old_body.external_force
                    },
                    ..old_body
                },
            ),
            ..before
        }),
        (None, None) => after == before,
        _ => false,
    }
}

/// Translates one input into forces on a body.
///
/// Directional input adds the contribution of each set flag to the torque,
/// clamping after each, and with the reset flag zeroes the angular velocity.
/// Any other input zeroes the torque. A body at rest has no direction of
/// travel: its contributions are zero.
pub fn shared_movement_behaviour(
    velocity: &mut Velocity,
    force: &mut ExternalForce,
    input: &Inputs,
)
    ensures
        (*final(velocity), *final(force)) == translated(*old(velocity), *old(force), *input),
        final(velocity).linvel == old(velocity).linvel,
        final(force).force == old(force).force,
        match *input {
            Inputs::Direction(direction) => {
                &&& final(force).torque@ == steered(
                    old(force).torque@,
                    old(velocity).linvel@,
                    direction,
                )
                &&& direction.reset ==> final(velocity).angvel == Vec3::zero()
                &&& !direction.reset ==> final(velocity).angvel == old(velocity).angvel
                &&& direction.forward || direction.back || direction.left || direction.right
                    ==> final(force).torque@.length_squared() <= MAX_TORQUE * MAX_TORQUE
            },
            _ => {
                &&& final(force).torque == Vec3::zero()
                &&& final(velocity).angvel == old(velocity).angvel
            },
        },
{
    match *input {
        Inputs::Direction(direction) => {
            let lin = velocity.linvel.normalize();
            let up = Vec3::unit_y();
            proof {
                lemma_normalized(velocity.linvel@);
                lemma_cross_unit_y(lin@);
                lemma_cross_unit_y(lin@.quarter_turn_y());
                lemma_contributions_small(velocity.linvel@);
                lemma_steered_bounded(force.torque@, velocity.linvel@, direction);
            }
            let forward = up.cross(lin).scaled(TORQUE_MULTIPLIER);
            let sideways = up.cross(lin.quarter_turn_y()).scaled(2 * TORQUE_MULTIPLIER);
            let mut torque = force.torque;
            if direction.forward {
                torque = torque.plus_clamped(forward, MAX_TORQUE);
            }
            if direction.back {
                torque = torque.plus_clamped(forward.negated(), MAX_TORQUE);
            }
            if direction.left {
                torque = torque.plus_clamped(sideways, MAX_TORQUE);
            }
            if direction.right {
                torque = torque.plus_clamped(sideways.negated(), MAX_TORQUE);
            }
            force.torque = torque;
            if direction.reset {
                velocity.angvel = Vec3::zero();
            }
        },
        _ => {
            force.torque = Vec3::zero();
        },
    }
}

/// The place of the player that `entity` carries.
pub fn find_player(players: &Vec<Player>, entity: Entity) -> (found: Option<usize>)
    ensures
        match found {
            Some(index) => index_of(players@, entity) == Some(index as int),
            None => index_of(players@, entity) is None,
        },
{
    let mut i: usize = 0;
    while i < players.len()
        invariant
            i <= players.len(),
            forall|j: int| 0 <= j < i ==> players@[j].entity != entity,
        decreases players.len() - i,
    {
        if players[i].entity.0 == entity.0 {
            assert(is_first_of(players@, entity, i as int));
            return Some(i);
        }
        i += 1;
    }
    None
}

/// Handles one input event: resolves its player, evaluates its gate, and
/// translates the input if nothing stands in the way.
pub fn apply_input_event(
    players: &mut Vec<Player>,
    client_ids: &ClientIds,
    event: &InputEvent,
    now: u64,
) -> (outcome: InputOutcome)
    ensures
        outcome == input_outcome(old(players)@, client_ids@, *event, now),
        final(players)@ == after_input(old(players)@, client_ids@, *event, now),
{
    let input = match event.input {
        Some(input) => input,
        None => {
            return InputOutcome::NoInput;
        },
    };
    let entity = match client_ids.resolve(event.from) {
        Some(entity) => entity,
        None => {
            return InputOutcome::UnknownClient;
        },
    };
    let index = match find_player(players, entity) {
        Some(index) => index,
        None => {
            return InputOutcome::NotMaterialized;
        },
    };
    let mut player = players[index];
    let mut body = match player.body {
        Some(body) => body,
        None => {
            return InputOutcome::NotMaterialized;
        },
    };
    match body.last_touched_time.gate(now) {
        Gate::Locked => InputOutcome::Locked,
        Gate::Unlocked => {
            let mut velocity = body.velocity;
            let mut external_force = body.external_force;
            shared_movement_behaviour(&mut velocity, &mut external_force, &input);
            body.velocity = velocity;
            body.external_force = external_force;
            player.body = Some(body);
            players.set(index, player);
            InputOutcome::Translated
        },
    }
}

/// The input phase of one tick: handles every event in order. Returns how
/// many inputs were translated.
pub fn movement(
    players: &mut Vec<Player>,
    events: &Vec<InputEvent>,
    client_ids: &ClientIds,
    now: u64,
) -> (count: usize)
    ensures
        final(players)@ == after_inputs(old(players)@, client_ids@, events@, now),
        count == translated_inputs(old(players)@, client_ids@, events@, now),
{
    let ghost before = players@;
    let mut count: usize = 0;
    let mut i: usize = 0;
    while i < events.len()
        invariant
            i <= events.len(),
            count <= i,
            count == translated_inputs(before, client_ids@, events@.take(i as int), now),
            players@ == after_inputs(before, client_ids@, events@.take(i as int), now),
        decreases events.len() - i,
    {
        proof {
            assert(events@.take(i + 1).drop_last() =~= events@.take(i as int));
        }
        let outcome = apply_input_event(players, client_ids, &events[i], now);
        match outcome {
            InputOutcome::Translated => {
                count += 1;
            },
            _ => {},
        }
        i += 1;
    }
    assert(events@.take(events.len() as int) =~= events@);
    count
}

/// The publishing phase of one tick: for every player with a transform, the
/// authoritative position and rotation become those of the transform.
pub fn sync_positions(players: &mut Vec<Player>)
    ensures
        final(players)@ == published_all(old(players)@),
{
    let ghost before = players@;
    let n = players.len();
    let mut i: usize = 0;
    while i < n
        invariant
            i <= n,
            n == before.len(),
            players@.len() == n,
            forall|j: int| 0 <= j < i ==> players@[j] == before[j].published(),
            forall|j: int| i <= j < n ==> players@[j] == before[j],
        decreases n - i,
    {
        let mut player = players[i];
        match player.model {
            Some(model) => {
                player.position = PlayerPosition(
                    model.transform.translation,
                    model.transform.rotation,
                );
                players.set(i, player);
            },
            None => {},
        }
        i += 1;
    }
    assert(players@ =~= published_all(before));
}

impl ServerInputPlugin {
    /// What this plugin does before the physics engine integrates: the input
    /// phase. Returns how many inputs were translated.
    pub fn update(
        &self,
        players: &mut Vec<Player>,
        events: &Vec<InputEvent>,
        client_ids: &ClientIds,
        now: u64,
    ) -> (count: usize)
        ensures
            final(players)@ == after_inputs(old(players)@, client_ids@, events@, now),
            count == translated_inputs(old(players)@, client_ids@, events@, now),
    {
        movement(players, events, client_ids, now)
    }

    /// What this plugin does after the physics engine has integrated: the
    /// publishing phase.
    pub fn post_update(&self, players: &mut Vec<Player>)
        ensures
            final(players)@ == published_all(old(players)@),
    {
        sync_positions(players)
    }
}

/// Both contributions are short: no component exceeds a fifth of a unit.
pub proof fn lemma_contributions_small(linvel: Vector)
    ensures
        forward_torque(linvel).within(TORQUE_MULTIPLIER as int),
        sideways_torque(linvel).within(2 * TORQUE_MULTIPLIER as int),
{
    let lin = linvel.normalized();
    lemma_normalized(linvel);
    lemma_cross_unit_y(lin);
    lemma_cross_unit_y(lin.quarter_turn_y());
}

/// A contribution leaves the torque within the bound, in length and component
/// by component, whatever the torque was before.
pub proof fn lemma_pushed(torque: Vector, push: Vector)
    ensures
        pushed(torque, push).length_squared() <= MAX_TORQUE * MAX_TORQUE,
        pushed(torque, push).within(MAX_TORQUE as int),
{
    let sum = torque.plus(push);
    let after = pushed(torque, push);
    lemma_clamped_length(sum, MAX_TORQUE as int);
    assert(after.x * after.x >= 0 && after.y * after.y >= 0 && after.z * after.z >= 0)
        by (nonlinear_arith);
    lemma_component_within(after.x, MAX_TORQUE as int);
    lemma_component_within(after.y, MAX_TORQUE as int);
    lemma_component_within(after.z, MAX_TORQUE as int);
}

/// The clamp holds after any input with a directional flag, and an input
/// without one leaves the torque as it was: the steered torque is within the
/// bound if a flag was set or the torque was within the bound before.
pub proof fn lemma_steered_bounded(torque: Vector, linvel: Vector, direction: Direction)
    ensures
        direction.forward || direction.back || direction.left || direction.right
            || torque.length_squared() <= MAX_TORQUE * MAX_TORQUE ==> steered(
            torque,
            linvel,
            direction,
        ).length_squared() <= MAX_TORQUE * MAX_TORQUE,
        !(direction.forward || direction.back || direction.left || direction.right) ==> steered(
            torque,
            linvel,
            direction,
        ) == torque,
        torque.fits() ==> steered(torque, linvel, direction).fits(),
{
    let forward = forward_torque(linvel);
    let sideways = sideways_torque(linvel);
    let first = if direction.forward {
        pushed(torque, forward)
    } else {
        torque
    };
    let second = if direction.back {
        pushed(first, forward.negated())
    } else {
        first
    };
    let third = if direction.left {
        pushed(second, sideways)
    } else {
        second
    };
    lemma_pushed(torque, forward);
    lemma_pushed(first, forward.negated());
    lemma_pushed(second, sideways);
    lemma_pushed(third, sideways.negated());
}

/// A contribution that does not oppose the torque never shortens it, up to
/// the clamp: the torque after it is at least as long as before, or less than
/// three short of the bound. The condition is that twice the dot product of
/// torque and contribution, plus the squared length of the contribution, is
/// not negative; without it the sum is shorter than the torque.
pub proof fn lemma_push_accumulates(torque: Vector, push: Vector)
    requires
        2 * torque.dot(push) + push.length_squared() >= 0,
    ensures
        pushed(torque, push).length_squared() >= torque.length_squared() || pushed(
            torque,
            push,
        ).length_squared() >= (MAX_TORQUE - 3) * (MAX_TORQUE - 3),
{
    let sum = torque.plus(push);
    lemma_length_of_sum(torque, push);
    if sum.length_squared() > MAX_TORQUE * MAX_TORQUE {
        lemma_with_length_is_close(sum, MAX_TORQUE as int);
    }
}

/// Forward input accumulates from tick to tick: the torque after a second
/// forward input is at least as long as after the first, or less than three
/// short of the bound, provided the second contribution does not oppose the
/// torque that the first left (see [`lemma_push_accumulates`]). The direction
/// of travel may have changed between the two ticks.
pub proof fn lemma_forward_accumulates(torque: Vector, linvel: Vector, next_linvel: Vector)
    requires
        ({
            let once = steered(torque, linvel, forward_only());
            let push = forward_torque(next_linvel);
            2 * once.dot(push) + push.length_squared() >= 0
        }),
    ensures
        ({
            let once = steered(torque, linvel, forward_only());
            let twice = steered(once, next_linvel, forward_only());
            ||| twice.length_squared() >= once.length_squared()
            ||| twice.length_squared() >= (MAX_TORQUE - 3) * (MAX_TORQUE - 3)
        }),
{
    let once = steered(torque, linvel, forward_only());
    lemma_push_accumulates(once, forward_torque(next_linvel));
}

/// From no torque at all, two forward inputs at one direction of travel give
/// twice the torque of one: nothing is clamped and nothing is lost.
pub proof fn lemma_forward_twice_from_rest(linvel: Vector)
    ensures
        ({
            let once = steered(Vector::zero(), linvel, forward_only());
            let twice = steered(once, linvel, forward_only());
            &&& once == forward_torque(linvel)
            &&& twice == once.plus(once)
            &&& twice.length_squared() == 4 * once.length_squared()
            &&& twice.length_squared() >= once.length_squared()
        }),
{
    let push = forward_torque(linvel);
    lemma_contributions_small(linvel);
    lemma_within_length(push, TORQUE_MULTIPLIER as int);
    assert(Vector::zero().plus(push) == push);
    let twice = push.plus(push);
    lemma_within_length(twice, 2 * TORQUE_MULTIPLIER as int);
    lemma_length_of_sum(push, push);
}

/// The torque that a directional input leaves fits in 64 bits, so that the
/// torque of the body after the input is the steered torque itself.
pub proof fn lemma_translated_torque(
    velocity: Velocity,
    force: ExternalForce,
    direction: Direction,
)
    ensures
        translated(velocity, force, Inputs::Direction(direction)).1.torque@ == steered(
            force.torque@,
            velocity.linvel@,
            direction,
        ),
{
    lemma_steered_bounded(force.torque@, velocity.linvel@, direction);
}

/// The reset flag does not alter the torque: two inputs that differ in that
/// flag alone steer the torque alike.
pub proof fn lemma_reset_leaves_torque(torque: Vector, linvel: Vector, direction: Direction)
    ensures
        steered(torque, linvel, Direction { reset: true, ..direction }) == steered(
            torque,
            linvel,
            Direction { reset: false, ..direction },
        ),
{
}

/// A locked gate lets nothing through: if the player of an event was touched
/// a second or more ago and its marker is not sticky, the event changes no
/// player, so every torque is what it was.
pub proof fn lemma_locked_input_changes_nothing(
    players: Seq<Player>,
    client_ids: Map<ClientId, Entity>,
    event: InputEvent,
    now: u64,
    index: int,
)
    requires
        client_ids.contains_key(event.from),
        index_of(players, client_ids[event.from]) == Some(index),
        players[index].body matches Some(body) && !body.last_touched_time.1 && now
            - body.last_touched_time.0 >= SECOND,
    ensures
        after_input(players, client_ids, event, now) == players,
{
}

/// An input event writes forces and nothing else: it keeps the number of
/// players, and each player but for the angular velocity and the torque of
/// its body. In particular it never writes the authoritative position.
pub proof fn lemma_input_writes_forces_alone(
    players: Seq<Player>,
    client_ids: Map<ClientId, Entity>,
    event: InputEvent,
    now: u64,
)
    ensures
        after_input(players, client_ids, event, now).len() == players.len(),
        forall|j: int|
            0 <= j < players.len() ==> differs_in_forces_alone(
                players[j],
                #[trigger] after_input(players, client_ids, event, now)[j],
            ),
{
}

/// The input phase writes forces and nothing else, however many events it
/// handles.
pub proof fn lemma_inputs_write_forces_alone(
    players: Seq<Player>,
    client_ids: Map<ClientId, Entity>,
    events: Seq<InputEvent>,
    now: u64,
)
    ensures
        after_inputs(players, client_ids, events, now).len() == players.len(),
        forall|j: int|
            0 <= j < players.len() ==> differs_in_forces_alone(
                players[j],
                #[trigger] after_inputs(players, client_ids, events, now)[j],
            ),
    decreases events.len(),
{
    if events.len() > 0 {
        let earlier = after_inputs(players, client_ids, events.drop_last(), now);
        lemma_inputs_write_forces_alone(players, client_ids, events.drop_last(), now);
        lemma_input_writes_forces_alone(earlier, client_ids, events.last(), now);
    }
}

/// The publisher is the only writer of the authoritative record: neither a
/// materialization pass nor the input phase changes the position of a player.
pub proof fn lemma_only_publisher_writes_position(
    players: Seq<Player>,
    player_count: SpawnedPlayersCount,
    physics: Physics,
    client_ids: Map<ClientId, Entity>,
    events: Seq<InputEvent>,
    now: u64,
    j: int,
)
    requires
        0 <= j < players.len(),
    ensures
        attach_pass(players, player_count, physics)[j].position == players[j].position,
        after_inputs(players, client_ids, events, now)[j].position == players[j].position,
{
    lemma_inputs_write_forces_alone(players, client_ids, events, now);
}

/// The publisher is faithful: once the simulation has set the transform of a
/// player to a translation and a rotation, publishing makes exactly these the
/// authoritative record, and changes nothing else of the player.
pub proof fn lemma_published_is_transform(player: Player, model: PlayerModel)
    requires
        player.model == Some(model),
    ensures
        player.published().position == PlayerPosition(
            model.transform.translation,
            model.transform.rotation,
        ),
        player.published() == (Player { position: player.published().position, ..player }),
{
}

} // verus!
