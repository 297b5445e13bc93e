//! Player entities and their materialization.

use vstd::prelude::*;
use crate::math::{Quat, Vec3, ONE};
use crate::physics::{
    ActiveEvents, Ccd, Collider, ExternalForce, GravityScale, Restitution, RigidBody, Transform,
    Velocity,
};
use crate::protocol::{Color, PlayerColor, PlayerPosition};
use crate::registry::Entity;
use crate::world::{GravityModifier, LastTouchedId, LastTouchedTime};

verus! {

/// The radius of a player's sphere, visual and physical: half a unit.
pub const PLAYER_RADIUS: i64 = 500_000;

/// The restitution coefficient of a player's body: seven tenths.
pub const PLAYER_RESTITUTION: i64 = 700_000;

/// Configuration of the player systems.
#[derive(Debug, Clone, Copy, PartialEq, Eq, Structural)]
pub struct PlayerPlugin {
    /// Whether materialized players get a physical body.
    pub physics: bool,
    /// How many players are expected before materialization starts.
    pub player_count: u8,
}

/// The physics toggle, fixed at startup.
#[derive(Debug, Clone, Copy, PartialEq, Eq, Structural)]
pub struct Physics(pub bool);

/// How many players have spawned, against the configured maximum.
#[derive(Debug, Clone, Copy, PartialEq, Eq, Structural)]
pub struct SpawnedPlayersCount {
    pub current: u8,
    pub max: u8,
}

/// What a player entity is spawned with.
#[derive(Debug, Clone, Copy, PartialEq, Eq, Structural)]
pub struct PlayerBundle {
    pub position: PlayerPosition,
    pub color: PlayerColor,
}

/// The visual representation of a player: a coloured sphere at a transform.
#[derive(Debug, Clone, Copy, PartialEq, Eq, Structural)]
pub struct PlayerModel {
    /// Radius of the sphere mesh.
    pub radius: i64,
    /// Colour of the material.
    pub material: Color,
    /// Where the sphere is; the physics engine moves it.
    pub transform: Transform,
}

/// The physical attachments of a player.
#[derive(Debug, Clone, Copy, PartialEq, Eq, Structural)]
pub struct PlayerBody {
    pub collider: Collider,
    pub restitution: Restitution,
    pub rigid_body: RigidBody,
    pub active_events: ActiveEvents,
    pub velocity: Velocity,
    pub external_force: ExternalForce,
    pub gravity_scale: GravityScale,
    pub ccd: Ccd,
    pub last_touched_id: LastTouchedId,
    pub last_touched_time: LastTouchedTime,
    pub gravity_modifier: GravityModifier,
}

/// A player entity.
#[derive(Debug, Clone, Copy, PartialEq, Eq, Structural)]
pub struct Player {
    /// The entity that carries the player.
    pub entity: Entity,
    /// The authoritative position and rotation.
    pub position: PlayerPosition,
    /// The assigned colour.
    pub color: PlayerColor,
    /// Whether a client-side prediction owns the entity.
    pub predicted: bool,
    /// The visual representation, once materialized.
    pub model: Option<PlayerModel>,
    /// The physical attachments, once materialized with physics enabled.
    pub body: Option<PlayerBody>,
}

impl SpawnedPlayersCount {
    /// Whether the expected roster is complete.
    pub open spec fn is_full(self) -> bool {
        self.current == self.max
    }
}

/// How many of `players` a materialization pass selects.
pub open spec fn awaiting_models(players: Seq<Player>) -> nat
    decreases players.len(),
{
    if players.len() == 0 {
        0
    } else {
        awaiting_models(players.drop_last()) + if players.last().awaits_model() {
            1nat
        } else {
            0nat
        }
    }
}

/// The players after one materialization pass: with a full roster every
/// player is [`Player::materialized`]; before that nothing happens.
pub open spec fn attach_pass(
    players: Seq<Player>,
    player_count: SpawnedPlayersCount,
    physics: Physics,
) -> Seq<Player> {
    if player_count.is_full() {
        players.map_values(|p: Player| p.materialized(physics.0))
    } else {
        players
    }
}

/// The players after `passes` materialization passes in a row.
pub open spec fn attach_passes(
    players: Seq<Player>,
    player_count: SpawnedPlayersCount,
    physics: Physics,
    passes: nat,
) -> Seq<Player>
    decreases passes,
{
    if passes == 0 {
        players
    } else {
        attach_pass(
            attach_passes(players, player_count, physics, (passes - 1) as nat),
            player_count,
            physics,
        )
    }
}

impl PlayerBody {
    /// The body of a freshly materialized player: a dynamic ball at rest, with
    /// no force on it, standard gravity, touched by no one at time zero.
    pub open spec fn initial() -> PlayerBody {
        PlayerBody {
            collider: Collider::Ball(PLAYER_RADIUS),
            restitution: Restitution { coefficient: PLAYER_RESTITUTION },
            rigid_body: RigidBody::Dynamic,
            active_events: ActiveEvents { collision_events: true },
            velocity: Velocity { linvel: Vec3::zero(), angvel: Vec3::zero() },
            external_force: ExternalForce { force: Vec3::zero(), torque: Vec3::zero() },
            gravity_scale: GravityScale(ONE),
            ccd: Ccd { enabled: true },
            last_touched_id: LastTouchedId(0),
            last_touched_time: LastTouchedTime(0, false),
            gravity_modifier: GravityModifier { base_gravity: ONE, remaining: 0, current: ONE },
        }
    }

    /// The body of a freshly materialized player.
    #[verifier::when_used_as_spec(initial)]
    pub fn new() -> (body: PlayerBody)
        ensures
            body == PlayerBody::initial(),
    {
        PlayerBody {
            collider: Collider::Ball(PLAYER_RADIUS),
            restitution: Restitution { coefficient: PLAYER_RESTITUTION },
            rigid_body: RigidBody::Dynamic,
            active_events: ActiveEvents { collision_events: true },
            velocity: Velocity { linvel: Vec3::zero(), angvel: Vec3::zero() },
            external_force: ExternalForce { force: Vec3::zero(), torque: Vec3::zero() },
            gravity_scale: GravityScale(ONE),
            ccd: Ccd { enabled: true },
            last_touched_id: LastTouchedId(0),
            last_touched_time: LastTouchedTime(0, false),
            gravity_modifier: GravityModifier { base_gravity: ONE, remaining: 0, current: ONE },
        }
    }
}

impl Player {
    /// Whether the materializer selects the player: it has no visual
    /// transform yet and no client-side prediction owns it.
    pub open spec fn awaits_model(self) -> bool {
        self.model is None && !self.predicted
    }

    /// The player after a materialization pass with the given physics toggle.
    ///
    /// A selected player gets the sphere in its colour at its authoritative
    /// position and, if the toggle is on, a fresh body; any other player stays
    /// as it is.
    pub open spec fn materialized(self, physics: bool) -> Player {
        if self.awaits_model() {
            Player {
                model: Some(
                    PlayerModel {
                        radius: PLAYER_RADIUS,
                        material: self.color.0,
                        transform: Transform::at(self.position.0),
                    },
                ),
                body: if physics {
                    Some(PlayerBody::initial())
                } else {
                    self.body
                },
                ..self
            }
        } else {
            self
        }
    }

    /// The bare player that the network layer spawns for `entity`.
    pub fn spawn(entity: Entity, bundle: PlayerBundle, predicted: bool) -> (player: Player)
        ensures
            player == (Player {
                entity,
                position: bundle.position,
                color: bundle.color,
                predicted,
                model: None,
                body: None,
            }),
    {
        Player {
            entity,
            position: bundle.position,
            color: bundle.color,
            predicted,
            model: None,
            body: None,
        }
    }

    /// Attaches the visual and, with `physics`, the physical representation,
    /// if the player is selected; says whether it was.
    pub fn materialize(&mut self, physics: bool) -> (attached: bool)
        ensures
            attached == old(self).awaits_model(),
            *final(self) == old(self).materialized(physics),
    {
        if self.model.is_none() && !self.predicted {
            self.model = Some(
                PlayerModel {
                    radius: PLAYER_RADIUS,
                    material: self.color.0,
                    transform: Transform::from_translation(self.position.0),
                },
            );
            if physics {
                self.body = Some(PlayerBody::new());
            }
            true
        } else {
            false
        }
    }
}

/// The materialization pass of one tick. Once the roster is full, every player
/// without a model that no prediction owns gets its model and, with the
/// physics toggle on, its body. Returns how many players were materialized.
pub fn attach_player_model(
    players: &mut Vec<Player>,
    player_count: &SpawnedPlayersCount,
    physics: &Physics,
) -> (attached: usize)
    ensures
        final(players)@ == attach_pass(old(players)@, *player_count, *physics),
        attached == if player_count.is_full() {
            awaiting_models(old(players)@)
        } else {
            0
        },
{
    let ghost before = players@;
    let mut attached: usize = 0;
    if player_count.current == player_count.max {
        let n = players.len();
        let mut i: usize = 0;
        while i < n
            invariant
                i <= n,
                n == before.len(),
                players@.len() == n,
                attached <= i,
                attached == awaiting_models(before.take(i as int)),
                forall|j: int| 0 <= j < i ==> players@[j] == before[j].materialized(physics.0),
                forall|j: int| i <= j < n ==> players@[j] == before[j],
            decreases n - i,
        {
            let mut player = players[i];
            let selected = player.materialize(physics.0);
            players.set(i, player);
            proof {
                let next = before.take(i + 1);
                assert(next.drop_last() =~= before.take(i as int));
                assert(next.last() == before[i as int]);
            }
            if selected {
                attached += 1;
            }
            i += 1;
        }
        assert(before.take(n as int) =~= before);
        assert(players@ =~= attach_pass(before, *player_count, *physics));
    }
    attached
}

impl PlayerPlugin {
    /// The resources that the player systems start with: no player spawned
    /// yet against the configured maximum, and the physics toggle.
    pub fn build(&self) -> (resources: (SpawnedPlayersCount, Physics))
        ensures
            resources.0 == (SpawnedPlayersCount { current: 0, max: self.player_count }),
            resources.1 == Physics(self.physics),
    {
        (SpawnedPlayersCount { current: 0, max: self.player_count }, Physics(self.physics))
    }

    /// What this plugin does in every tick: the materialization pass, under
    /// the physics toggle of the configuration.
    pub fn update(
        &self,
        players: &mut Vec<Player>,
        player_count: &SpawnedPlayersCount,
    ) -> (attached: usize)
        ensures
            final(players)@ == attach_pass(old(players)@, *player_count, Physics(self.physics)),
            attached == if player_count.is_full() {
                awaiting_models(old(players)@)
            } else {
                0
            },
    {
        attach_player_model(players, player_count, &Physics(self.physics))
    }
}

/// A materialized player is never selected again: whatever the physics toggle
/// of either pass, a second materialization leaves the result of the first
/// untouched.
pub proof fn lemma_materialized_once(player: Player, first: bool, second: bool)
    ensures
        !player.materialized(first).awaits_model(),
        player.materialized(first).materialized(second) == player.materialized(first),
{
}

/// A selected player gets all of its representation at once: the sphere of
/// half a unit in its colour at its authoritative position and, with the
/// physics toggle on, the fresh body with it. Nothing else of the player
/// changes.
pub proof fn lemma_materialized_at_once(player: Player, physics: bool)
    requires
        player.awaits_model(),
    ensures
        player.materialized(physics).model == Some(
            PlayerModel {
                radius: PLAYER_RADIUS,
                material: player.color.0,
                transform: Transform {
                    translation: player.position.0,
                    rotation: Quat::identity(),
                    scale: Vec3::one(),
                },
            },
        ),
        physics ==> player.materialized(physics).body == Some(PlayerBody::initial()),
        !physics ==> player.materialized(physics).body == player.body,
        player.materialized(physics) == (Player {
            model: player.materialized(physics).model,
            body: player.materialized(physics).body,
            ..player
        }),
{
}

/// Only the absence of a model selects a player: one that has a model is left
/// as it is, however the simulation has moved it since it was materialized.
pub proof fn lemma_model_guards_player(player: Player, physics: bool)
    ensures
        player.model is Some ==> player.materialized(physics) == player,
        player.predicted ==> player.materialized(physics) == player,
{
}

/// After a pass over a full roster no player awaits its model.
pub proof fn lemma_pass_leaves_none_waiting(
    players: Seq<Player>,
    player_count: SpawnedPlayersCount,
    physics: Physics,
)
    requires
        player_count.is_full(),
    ensures
        awaiting_models(attach_pass(players, player_count, physics)) == 0,
    decreases players.len(),
{
    let after = attach_pass(players, player_count, physics);
    if players.len() > 0 {
        lemma_pass_leaves_none_waiting(players.drop_last(), player_count, physics);
        assert(after.drop_last() =~= attach_pass(players.drop_last(), player_count, physics));
        lemma_materialized_once(players.last(), physics.0, physics.0);
    }
}

/// A second pass makes no further change, whatever its physics toggle.
pub proof fn lemma_second_pass_changes_nothing(
    players: Seq<Player>,
    player_count: SpawnedPlayersCount,
    first: Physics,
    second: Physics,
)
    ensures
        attach_pass(attach_pass(players, player_count, first), player_count, second)
            == attach_pass(players, player_count, first),
{
    let once = attach_pass(players, player_count, first);
    let twice = attach_pass(once, player_count, second);
    if player_count.is_full() {
        assert forall|i: int| 0 <= i < players.len() implies twice[i] == once[i] by {
            lemma_materialized_once(players[i], first.0, second.0);
        }
        assert(twice =~= once);
    }
}

/// Every player is materialized exactly once: any number of passes, from the
/// first on, gives what a single pass gives.
pub proof fn lemma_passes_attach_once(
    players: Seq<Player>,
    player_count: SpawnedPlayersCount,
    physics: Physics,
    passes: nat,
)
    requires
        passes >= 1,
    ensures
        attach_passes(players, player_count, physics, passes) == attach_pass(
            players,
            player_count,
            physics,
        ),
    decreases passes,
{
    if passes == 1 {
        assert(attach_passes(players, player_count, physics, 0) == players);
    } else {
        lemma_passes_attach_once(players, player_count, physics, (passes - 1) as nat);
        lemma_second_pass_changes_nothing(players, player_count, physics, physics);
    }
}

} // verus!
