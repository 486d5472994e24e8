//! The game world: its nodes, the players in it, and the rules by which the
//! engine answers commands and input.

pub mod actions;
pub mod assets;
pub mod errors;
pub mod grammar;
pub mod properties;
pub mod states;

use std::collections::HashMap;
use generational_arena::{Arena, Index};
use vstd::prelude::*;
use vstd::string::*;
use crate::connection_manager::{ClientId, Command, DataMessage};
use crate::world::actions::{Action, ActionView};
use crate::world::assets::{listing, GameAsset, Node};
use crate::world::errors::Error;
use crate::world::grammar::line;

verus! {

/// `generational_arena::Arena`, the collection that holds the nodes of a
/// world. Nothing inside it is visible here: what it holds is told by
/// [`arena_nodes`].
#[verifier::external_type_specification]
#[verifier::external_body]
#[verifier::reject_recursive_types(T)]
pub struct ExArena<T>(Arena<T>);

/// The place of a node in the world. It stays valid for as long as the node
/// is in the world, and names no other node afterwards.
#[derive(Clone, Copy, Debug, PartialEq, Eq, Structural)]
pub struct NodeIndex {
    pub slot: usize,
    pub generation: u64,
}

/// The nodes that an arena holds, each under its index.
pub uninterp spec fn arena_nodes(arena: Arena<Node>) -> Map<NodeIndex, Node>;

/// Calls `Arena::new`, which makes an arena that holds nothing.
#[verifier::external_body]
fn arena_new() -> (arena: Arena<Node>)
    ensures
        arena_nodes(arena) == (Map::<NodeIndex, Node>::empty()),
{
    Arena::new()
}

/// Calls `Arena::insert`, which puts the node into a free slot and returns
/// the index of that slot with the arena's generation. No node was under
/// that index before, and every other node stays where it was.
#[verifier::external_body]
fn arena_insert(arena: &mut Arena<Node>, node: Node) -> (index: NodeIndex)
    ensures
        !arena_nodes(*old(arena)).dom().contains(index),
        arena_nodes(*final(arena)) == arena_nodes(*old(arena)).insert(index, node),
{
    let (slot, generation) = arena.insert(node).into_raw_parts();
    NodeIndex { slot, generation }
}

/// Calls `Arena::get`, which returns the node under the index if the arena
/// holds one there, and nothing otherwise.
#[verifier::external_body]
fn arena_get(arena: &Arena<Node>, index: NodeIndex) -> (node: Option<&Node>)
    ensures
        match node {
            Some(n) => arena_nodes(*arena).dom().contains(index) && *n == arena_nodes(
                *arena,
            )[index],
            None => !arena_nodes(*arena).dom().contains(index),
        },
{
    arena.get(Index::from_raw_parts(index.slot, index.generation))
}

/// Something that can be placed at a spawn point.
pub trait Spawnable {
    /// Where the object was last placed, if it was placed at all.
    spec fn spawn_point(&self) -> Option<NodeIndex>;

    /// Whether this is the object `before` at another place, or at the same:
    /// whatever else makes up the object is as it was.
    spec fn moved_from(&self, before: &Self) -> bool;

    /// Places the object at the node with the index `index`.
    fn set_spawn_point_index(&mut self, index: NodeIndex)
        ensures
            final(self).spawn_point() == Some(index),
            final(self).moved_from(old(self)),
    ;
}

/// An asset that players can refer to by what it is and how it looks.
pub trait Identifiable {
    /// Returns true if the object can be identified by a given property.
    fn has_property() -> bool;

    /// Returns true if the asset can be identified as an object.
    fn is_object() -> bool;
}

/// An asset that answers with an action when it is observed.
pub trait Observable {
    /// The action with which the object answers.
    fn observe(&self) -> Action;
}

/// The game world: its nodes, and the nodes at which new players may appear.
#[derive(Debug)]
pub struct GameWorld {
    name: String,
    description: Option<String>,
    spawn_nodes: Vec<NodeIndex>,
    nodes: Arena<Node>,
}

impl GameWorld {
    /// The name of the world.
    pub closed spec fn name(&self) -> Seq<char> {
        self.name@
    }

    /// The nodes of the world, each under its index.
    pub closed spec fn nodes(&self) -> Map<NodeIndex, Node> {
        arena_nodes(self.nodes)
    }

    /// The indices of the spawn nodes, in the order in which they were added.
    pub closed spec fn spawn_points(&self) -> Seq<NodeIndex> {
        self.spawn_nodes@
    }

    /// Every spawn point is the index of a node of the world.
    pub open spec fn wf(&self) -> bool {
        forall|i: int|
            0 <= i < self.spawn_points().len() ==> self.nodes().dom().contains(
                #[trigger] self.spawn_points()[i],
            )
    }

    /// Creates a world without nodes.
    pub fn new(name: String) -> (world: GameWorld)
        ensures
            world.wf(),
            world.name() == name@,
            world.nodes() == Map::<NodeIndex, Node>::empty(),
            world.spawn_points() == Seq::<NodeIndex>::empty(),
    {
        GameWorld { name, description: None, spawn_nodes: Vec::new(), nodes: arena_new() }
    }

    /// Adds a node to the world and marks it as a spawn node. Returns the
    /// index of the node.
    pub fn add_spwan_node(&mut self, node: Node) -> (r: Option<NodeIndex>)
        ensures
            old(self).wf() ==> final(self).wf(),
            r matches Some(index) && !old(self).nodes().dom().contains(index)
                && final(self).nodes() == old(self).nodes().insert(index, node)
                && final(self).spawn_points() == old(self).spawn_points().push(index),
            final(self).name() == old(self).name(),
    {
        let index = arena_insert(&mut self.nodes, node);
        self.spawn_nodes.push(index);
        proof {
            if old(self).wf() {
                assert forall|i: int| 0 <= i < self.spawn_points().len() implies self.nodes().dom().contains(
                     #[trigger] self.spawn_points()[i],
                ) by {
                    if i < old(self).spawn_points().len() {
                        assert(self.spawn_points()[i] == old(self).spawn_points()[i]);
                    }
                }
            }
        }
        Some(index)
    }

    /// Adds a node to the world. Returns the index of the node.
    pub fn add_node(&mut self, node: Node) -> (r: Option<NodeIndex>)
        ensures
            old(self).wf() ==> final(self).wf(),
            r matches Some(index) && !old(self).nodes().dom().contains(index)
                && final(self).nodes() == old(self).nodes().insert(index, node),
            final(self).spawn_points() == old(self).spawn_points(),
            final(self).name() == old(self).name(),
    {
        let index = arena_insert(&mut self.nodes, node);
        proof {
            if old(self).wf() {
                assert forall|i: int| 0 <= i < self.spawn_points().len() implies self.nodes().dom().contains(
                     #[trigger] self.spawn_points()[i],
                ) by {
                    assert(self.spawn_points()[i] == old(self).spawn_points()[i]);
                }
            }
        }
        Some(index)
    }

    /// Looks up the node with the index `index`.
    pub fn node(&self, index: NodeIndex) -> (r: Option<&Node>)
        ensures
            match r {
                Some(n) => self.nodes().dom().contains(index) && *n == self.nodes()[index],
                None => !self.nodes().dom().contains(index),
            },
    {
        arena_get(&self.nodes, index)
    }

    /// Chooses a spawn node for `asset` and places it there. The first spawn
    /// node is chosen. A world without spawn nodes gives `NoSpawnpointFound`
    /// and leaves the asset alone.
    pub fn spawn<T: Spawnable>(&self, asset: &mut T) -> (r: Result<NodeIndex, Error>)
        ensures
            self.spawn_points().len() == 0 ==> r == Err::<NodeIndex, Error>(
                Error::NoSpawnpointFound,
            ) && *final(asset) == *old(asset),
            self.spawn_points().len() > 0 ==> r == Ok::<NodeIndex, Error>(self.spawn_points()[0])
                && final(asset).spawn_point() == Some(self.spawn_points()[0])
                && final(asset).moved_from(old(asset)),
            self.wf() ==> (r matches Ok(index) ==> self.nodes().dom().contains(index)),
    {
        if self.spawn_nodes.len() == 0 {
            Err(Error::NoSpawnpointFound)
        } else {
            let index = self.spawn_nodes[0];
            asset.set_spawn_point_index(index);
            Ok(index)
        }
    }
}

/// A player in the world. `H` is the session of the player's client, see
/// [`Command`].
#[derive(Debug)]
pub struct Player<H> {
    player_name: String,
    active_session: H,
    location: Option<NodeIndex>,
}

impl<H> Player<H> {
    /// The name of the player.
    pub closed spec fn name(&self) -> Seq<char> {
        self.player_name@
    }

    /// The session of the player's client.
    pub closed spec fn session(&self) -> H {
        self.active_session
    }

    /// The node at which the player is, if the player is anywhere.
    pub closed spec fn location(&self) -> Option<NodeIndex> {
        self.location
    }

    /// Creates a player who is nowhere yet.
    pub fn new(player_name: String, active_session: H) -> (player: Player<H>)
        ensures
            player.name() == player_name@,
            player.session() == active_session,
            player.location() is None,
    {
        Player { player_name, active_session, location: None }
    }

    /// Returns the name of the player.
    pub fn player_name(&self) -> (r: &String)
        ensures
            r@ == self.name(),
    {
        &self.player_name
    }

    /// Returns the session of the player's client.
    pub fn active_session(&self) -> (r: &H)
        ensures
            *r == self.session(),
    {
        &self.active_session
    }

    /// Returns the node at which the player is.
    pub fn current_location(&self) -> (r: Option<NodeIndex>)
        ensures
            r == self.location(),
    {
        self.location
    }
}

impl<H> Spawnable for Player<H> {
    open spec fn spawn_point(&self) -> Option<NodeIndex> {
        self.location()
    }

    open spec fn moved_from(&self, before: &Self) -> bool {
        self.name() == before.name() && self.session() == before.session()
    }

    fn set_spawn_point_index(&mut self, index: NodeIndex) {
        self.location = Some(index);
    }
}

/// What the engine did with a command, and what is left for the transport to
/// do.
#[derive(Debug)]
pub enum CommandOutcome<H> {
    /// The client is now a player. It is to be shown the welcome screen.
    Welcome(ClientId),
    /// The client could not enter the world. Its session is handed back, so
    /// that the client can be told why and its connection closed.
    Refused(ClientId, H, Error),
    /// The client left the world. The player that it was, if it was one, is
    /// handed back, so that its session can be closed.
    Left(ClientId, Option<Player<H>>),
}

/// What the engine answers to a line of input.
#[derive(Debug, Clone, PartialEq, Eq)]
pub enum DataOutcome {
    /// These bytes are to be sent to the client.
    Reply { client_id: ClientId, bytes: Vec<u8> },
    /// The line came from a client that is no player. It is dropped.
    Dropped,
}

/// What a player is told whose line is no action.
pub open spec fn command_not_found() -> Seq<char> {
    "Error 23: Command not found.\r\n"@
}

/// What a player is told who is at no node.
pub open spec fn nowhere() -> Seq<char> {
    "In limbo everything is possible. And nothing. Makes you wonder...\r\n"@
}

/// What a player is told whose location is no node of the world.
pub open spec fn glitch() -> Seq<char> {
    "A glitch in the matrix occured.\r\n"@
}

/// The answer to a line of input from a player at `location`, in a world
/// with the nodes `nodes`. A line that is no action is answered with
/// [`command_not_found`]. An action is answered by the node at which the
/// player is, followed by a line break.
pub open spec fn answer(nodes: Map<NodeIndex, Node>, location: Option<NodeIndex>, bytes: Seq<u8>) -> Seq<char> {
    match line(bytes) {
        Err(_) => command_not_found(),
        Ok(action) => match location {
            None => nowhere(),
            Some(index) => if nodes.dom().contains(index) {
                nodes[index].reaction(action) + "\r\n"@
            } else {
                glitch()
            },
        },
    }
}

/// Handles a command from a connection handler.
///
/// `Register` makes the client a player at the first spawn node of the world
/// and stores the player under the id of the client. In a world without spawn
/// nodes nobody is stored and the command is refused. `Hangup` removes the
/// player of the client. Players of other clients are never touched.
pub fn process_command<H>(
    command: Command<H>,
    world: &GameWorld,
    players: &mut HashMap<ClientId, Player<H>>,
) -> (outcome: CommandOutcome<H>)
    ensures
        match command {
            Command::Register(id, name, session) => if world.spawn_points().len() == 0 {
                &&& outcome == CommandOutcome::Refused(id, session, Error::NoSpawnpointFound)
                &&& final(players)@ == old(players)@
            } else {
                &&& outcome == CommandOutcome::<H>::Welcome(id)
                &&& final(players)@.contains_key(id)
                &&& final(players)@ == old(players)@.insert(id, final(players)@[id])
                &&& final(players)@[id].name() == name@
                &&& final(players)@[id].session() == session
                &&& final(players)@[id].location() == Some(world.spawn_points()[0])
            },
            Command::Hangup(id) => {
                &&& final(players)@ == old(players)@.remove(id)
                &&& outcome == CommandOutcome::Left(
                    id,
                    if old(players)@.contains_key(id) {
                        Some(old(players)@[id])
                    } else {
                        None
                    },
                )
            },
        },
{
    broadcast use vstd::std_specs::hash::group_hash_axioms;

    match command {
        Command::Register(client_id, username, session) => {
            let mut player = Player::new(username, session);
            match world.spawn(&mut player) {
                Ok(_) => {
                    players.insert(client_id, player);
                    CommandOutcome::Welcome(client_id)
                },
                Err(reason) => CommandOutcome::Refused(client_id, player.active_session, reason),
            }
        },
        Command::Hangup(client_id) => {
            let player = players.remove(&client_id);
            CommandOutcome::Left(client_id, player)
        },
    }
}

/// Handles a line of input from a client.
///
/// A line from a client that is no player is dropped. Any other line is
/// answered, see [`answer`]: the reply holds the answer as UTF-8. Nothing in
/// the world and no player changes.
pub fn process_data<H>(
    data_message: DataMessage,
    world: &GameWorld,
    players: &HashMap<ClientId, Player<H>>,
) -> (outcome: DataOutcome)
    ensures
        match outcome {
            DataOutcome::Dropped => !players@.contains_key(data_message.client_id),
            DataOutcome::Reply { client_id, bytes } => {
                &&& players@.contains_key(data_message.client_id)
                &&& client_id == data_message.client_id
                &&& bytes@ == vstd::utf8::encode_utf8(
                    answer(
                        world.nodes(),
                        players@[data_message.client_id].location(),
                        data_message.data@,
                    ),
                )
            },
        },
{
    broadcast use vstd::std_specs::hash::group_hash_axioms;

    match players.get(&data_message.client_id) {
        Some(player) => {
            let text = match Action::parse(data_message.data.as_slice()) {
                Ok(action) => match player.location {
                    Some(index) => match world.node(index) {
                        Some(node) => {
                            let mut text = node.react_to(&action);
                            text.append("\r\n");
                            text
                        },
                        None => "A glitch in the matrix occured.\r\n".to_owned(),
                    },
                    None => "In limbo everything is possible. And nothing. Makes you wonder...\r\n".to_owned(),
                },
                Err(_) => "Error 23: Command not found.\r\n".to_owned(),
            };
            DataOutcome::Reply {
                client_id: data_message.client_id,
                bytes: text.as_str().as_bytes_vec(),
            }
        },
        None => DataOutcome::Dropped,
    }
}

/// A player who looks around is shown the node and what stands in it.
///
/// Let a player be at a node of the world and send a line that means a look
/// at nothing in particular. The answer is the description of the node on a
/// line of its own, then one line for each of its sub-assets in the order in
/// which they were added, then a line break.
pub proof fn law_look_shows_surroundings(
    nodes: Map<NodeIndex, Node>,
    index: NodeIndex,
    bytes: Seq<u8>,
)
    requires
        nodes.dom().contains(index),
        line(bytes) == Ok::<ActionView, Error>(ActionView::plain_look()),
    ensures
        answer(nodes, Some(index), bytes) == nodes[index].description() + "\r\n"@ + listing(
            nodes[index].assets(),
        ) + "\r\n"@,
{
}

/// A line that is no text is answered with "command not found".
///
/// Bytes that are not well-formed UTF-8 get this answer wherever the player
/// is, and whatever the world holds.
pub proof fn law_malformed_line_is_refused(
    nodes: Map<NodeIndex, Node>,
    location: Option<NodeIndex>,
    bytes: Seq<u8>,
)
    requires
        !vstd::utf8::valid_utf8(bytes),
    ensures
        answer(nodes, location, bytes) == command_not_found(),
{
}

/// A spawn point of a well-formed world is a node of that world.
pub proof fn law_spawn_points_are_nodes(world: GameWorld, i: int)
    requires
        world.wf(),
        0 <= i < world.spawn_points().len(),
    ensures
        world.nodes().dom().contains(world.spawn_points()[i]),
{
}

} // verus!
