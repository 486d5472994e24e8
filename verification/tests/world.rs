use mud_server::connection_manager::{Command, DataMessage};
use mud_server::world::assets::{Asset, GameAsset, Node, Port};
use mud_server::world::errors::Error;
use mud_server::world::{
    process_command, process_data, CommandOutcome, DataOutcome, GameWorld, NodeIndex, Player,
    Spawnable,
};
use std::collections::HashMap;

fn port(id: u64, description: &str) -> Asset {
    let mut port = Port::new(id);
    port.update_description(description);
    Asset::Port(port)
}

fn test_world() -> (GameWorld, NodeIndex) {
    let mut world = GameWorld::new("Testworld".to_string());
    let mut node = Node::new(0);
    node.update_description(
        "Around you its dark. You feel more than you see a pulsing ultraviolet light.",
    );
    node.add_asset(port(1, "A simple port that looks absolutely normal."));
    node.add_asset(port(2, "A port that has a slight purple shimmering edge."));
    let index = world.add_spwan_node(node).unwrap();
    (world, index)
}

fn reply(outcome: DataOutcome) -> (usize, String) {
    match outcome {
        DataOutcome::Reply { client_id, bytes } => (client_id, String::from_utf8(bytes).unwrap()),
        DataOutcome::Dropped => panic!("the line was dropped"),
    }
}

const SURROUNDINGS: &str = "Around you its dark. You feel more than you see a pulsing ultraviolet light.\r\n\
A simple port that looks absolutely normal. The port is closed.\r\n\
A port that has a slight purple shimmering edge. The port is closed.\r\n\r\n";

#[test]
fn a_world_without_spawn_nodes_refuses_to_spawn() {
    let mut world = GameWorld::new("Empty".to_string());
    let mut player = Player::new("nobody".to_string(), ());
    assert_eq!(world.spawn(&mut player), Err(Error::NoSpawnpointFound));
    assert_eq!(player.current_location(), None);

    let index = world.add_node(Node::new(1)).unwrap();
    assert_eq!(world.spawn(&mut player), Err(Error::NoSpawnpointFound));
    assert_eq!(player.current_location(), None);
    assert_eq!(world.node(index).unwrap().uid(), 1);
}

#[test]
fn spawning_places_at_the_first_spawn_node() {
    let mut world = GameWorld::new("World".to_string());
    let plain = world.add_node(Node::new(1)).unwrap();
    let first = world.add_spwan_node(Node::new(2)).unwrap();
    let second = world.add_spwan_node(Node::new(3)).unwrap();
    assert!(plain != first && first != second && plain != second);

    let mut player = Player::new("someone".to_string(), 17u8);
    assert_eq!(world.spawn(&mut player), Ok(first));
    assert_eq!(player.current_location(), Some(first));
    assert_eq!(player.player_name(), "someone");
    assert_eq!(*player.active_session(), 17);
    assert_eq!(world.node(first).unwrap().uid(), 2);

    let mut other = Player::new("someone else".to_string(), 18u8);
    assert_eq!(world.spawn(&mut other), Ok(first));
    assert_eq!(world.node(second).unwrap().uid(), 3);
    assert_eq!(world.node(plain).unwrap().uid(), 1);
}

#[test]
fn indices_of_other_worlds_and_stale_indices_find_nothing() {
    let (world, index) = test_world();
    assert!(world.node(index).is_some());
    assert!(world.node(NodeIndex { slot: index.slot + 1, generation: index.generation }).is_none());
    assert!(world.node(NodeIndex { slot: index.slot, generation: index.generation + 1 }).is_none());
    assert!(GameWorld::new("Other".to_string()).node(index).is_none());
}

#[test]
fn set_spawn_point_index_moves_the_player() {
    let mut player = Player::new("p".to_string(), ());
    player.set_spawn_point_index(NodeIndex { slot: 4, generation: 2 });
    assert_eq!(player.current_location(), Some(NodeIndex { slot: 4, generation: 2 }));
    assert_eq!(player.player_name(), "p");
}

#[test]
fn register_then_look() {
    let (world, index) = test_world();
    let mut players: HashMap<usize, Player<&str>> = HashMap::new();

    let outcome = process_command(Command::Register(5, "neo".to_string(), "session 5"), &world, &mut players);
    assert!(matches!(outcome, CommandOutcome::Welcome(5)));
    assert_eq!(players.len(), 1);
    assert_eq!(players[&5].player_name(), "neo");
    assert_eq!(*players[&5].active_session(), "session 5");
    assert_eq!(players[&5].current_location(), Some(index));

    let outcome = process_data(DataMessage::new(5, b"look".to_vec()), &world, &players);
    assert_eq!(reply(outcome), (5, SURROUNDINGS.to_string()));
}

#[test]
fn a_malformed_line_is_answered_and_changes_nothing() {
    let (world, index) = test_world();
    let mut players: HashMap<usize, Player<()>> = HashMap::new();
    process_command(Command::Register(1, "neo".to_string(), ()), &world, &mut players);

    let outcome = process_data(DataMessage::new(1, vec![0xc3, 0x28]), &world, &players);
    assert_eq!(reply(outcome), (1, "Error 23: Command not found.\r\n".to_string()));
    assert_eq!(players[&1].current_location(), Some(index));

    let outcome = process_data(DataMessage::new(1, b"xyzzy".to_vec()), &world, &players);
    assert_eq!(reply(outcome), (1, "Error 23: Command not found.\r\n".to_string()));
    let outcome = process_data(DataMessage::new(1, b"look at".to_vec()), &world, &players);
    assert_eq!(reply(outcome), (1, "Error 23: Command not found.\r\n".to_string()));
    let outcome = process_data(DataMessage::new(1, Vec::new()), &world, &players);
    assert_eq!(reply(outcome), (1, "Error 23: Command not found.\r\n".to_string()));
    assert_eq!(players[&1].current_location(), Some(index));
    assert_eq!(players.len(), 1);
}

#[test]
fn actions_are_answered_by_the_node() {
    let (world, _) = test_world();
    let mut players: HashMap<usize, Player<()>> = HashMap::new();
    process_command(Command::Register(1, "neo".to_string(), ()), &world, &mut players);

    let answers = [
        ("read", "Read what?\r\n"),
        ("ENTER the matrix", "Enter what?\r\n"),
        ("connect", "Connect what?\r\n"),
        ("access", "Access what?\r\n"),
        ("Open", "Open what?\r\n"),
        ("look at port", "A simple port that looks absolutely normal.\n The port is closed.\r\n"),
        ("look at the red port.", "You see nothing like that here.\r\n\r\n"),
        ("look at door", "You see nothing like that here.\r\n\r\n"),
        ("look .", SURROUNDINGS),
    ];
    for (line, answer) in answers {
        let outcome = process_data(DataMessage::new(1, line.as_bytes().to_vec()), &world, &players);
        assert_eq!(reply(outcome), (1, answer.to_string()), "{:?}", line);
    }
}

#[test]
fn a_line_from_a_stranger_is_dropped() {
    let (world, _) = test_world();
    let mut players: HashMap<usize, Player<()>> = HashMap::new();
    assert_eq!(process_data(DataMessage::new(1, b"look".to_vec()), &world, &players), DataOutcome::Dropped);
    process_command(Command::Register(1, "neo".to_string(), ()), &world, &mut players);
    assert_eq!(process_data(DataMessage::new(2, b"look".to_vec()), &world, &players), DataOutcome::Dropped);
}

#[test]
fn a_player_who_is_nowhere_or_at_a_missing_node() {
    let (world, index) = test_world();
    let mut players: HashMap<usize, Player<()>> = HashMap::new();
    players.insert(1, Player::new("limbo".to_string(), ()));
    let mut lost = Player::new("lost".to_string(), ());
    lost.set_spawn_point_index(NodeIndex { slot: index.slot, generation: index.generation + 1 });
    players.insert(2, lost);

    let outcome = process_data(DataMessage::new(1, b"look".to_vec()), &world, &players);
    assert_eq!(
        reply(outcome),
        (1, "In limbo everything is possible. And nothing. Makes you wonder...\r\n".to_string())
    );
    let outcome = process_data(DataMessage::new(2, b"look".to_vec()), &world, &players);
    assert_eq!(reply(outcome), (2, "A glitch in the matrix occured.\r\n".to_string()));
    let outcome = process_data(DataMessage::new(1, b"nonsense".to_vec()), &world, &players);
    assert_eq!(reply(outcome), (1, "Error 23: Command not found.\r\n".to_string()));
}

#[test]
fn registering_in_a_world_without_spawn_nodes_is_refused() {
    let world = GameWorld::new("Empty".to_string());
    let mut players: HashMap<usize, Player<&str>> = HashMap::new();
    let outcome = process_command(Command::Register(3, "neo".to_string(), "session"), &world, &mut players);
    match outcome {
        CommandOutcome::Refused(id, session, reason) => {
            assert_eq!(id, 3);
            assert_eq!(session, "session");
            assert_eq!(reason, Error::NoSpawnpointFound);
        }
        other => panic!("{:?}", other),
    }
    assert!(players.is_empty());
}

#[test]
fn hangup_removes_the_player_and_no_other() {
    let (world, index) = test_world();
    let mut players: HashMap<usize, Player<u32>> = HashMap::new();
    process_command(Command::Register(1, "neo".to_string(), 100), &world, &mut players);
    process_command(Command::Register(2, "trinity".to_string(), 200), &world, &mut players);

    match process_command(Command::Hangup(1), &world, &mut players) {
        CommandOutcome::Left(id, Some(player)) => {
            assert_eq!(id, 1);
            assert_eq!(player.player_name(), "neo");
            assert_eq!(*player.active_session(), 100);
            assert_eq!(player.current_location(), Some(index));
        }
        other => panic!("{:?}", other),
    }
    assert_eq!(players.len(), 1);
    assert_eq!(players[&2].player_name(), "trinity");
    assert_eq!(process_data(DataMessage::new(1, b"look".to_vec()), &world, &players), DataOutcome::Dropped);

    assert!(matches!(process_command(Command::Hangup(1), &world, &mut players), CommandOutcome::Left(1, None)));
    assert!(matches!(process_command(Command::Hangup(7), &world, &mut players), CommandOutcome::Left(7, None)));
    assert_eq!(players.len(), 1);
}

#[test]
fn registering_again_replaces_the_player() {
    let (world, _) = test_world();
    let mut players: HashMap<usize, Player<u32>> = HashMap::new();
    process_command(Command::Register(1, "neo".to_string(), 100), &world, &mut players);
    process_command(Command::Register(1, "smith".to_string(), 101), &world, &mut players);
    assert_eq!(players.len(), 1);
    assert_eq!(players[&1].player_name(), "smith");
    assert_eq!(*players[&1].active_session(), 101);
}

#[test]
fn many_clients_look_and_each_gets_the_whole_answer() {
    let (world, index) = test_world();
    let mut players: HashMap<usize, Player<usize>> = HashMap::new();
    let clients = 64;
    for id in 0..clients {
        let outcome = process_command(Command::Register(id, format!("player {}", id), id), &world, &mut players);
        assert!(matches!(outcome, CommandOutcome::Welcome(welcomed) if welcomed == id));
    }
    let mut lines: Vec<DataMessage> = Vec::new();
    for id in 0..clients {
        lines.push(DataMessage::new(clients - 1 - id, b"look".to_vec()));
        lines.push(DataMessage::new(id, b"LOOK .".to_vec()));
    }
    for line in lines {
        let sender = line.client_id;
        assert_eq!(reply(process_data(line, &world, &players)), (sender, SURROUNDINGS.to_string()));
    }
    assert_eq!(players.len(), clients);
    for id in 0..clients {
        assert_eq!(players[&id].current_location(), Some(index));
        assert_eq!(*players[&id].active_session(), id);
    }
}
