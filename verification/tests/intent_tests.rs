use rustcore::intent::{admit_intent, with_soul_id, UserInput};
use rustcore::lifecycle::{Command, ServerState};
use rustcore::tick::partition_batch;

#[test]
fn get_soul_id_reads_every_variant() {
    let input = UserInput::Build {
        soul_id: "abc".to_string(),
        block_type: "Tissue".to_string(),
        x: 1,
        y: 2,
        dir: "N".to_string(),
        power: 5,
    };
    assert_eq!(input.get_soul_id(), Some("abc"));
    let input = UserInput::Login { username: "u".to_string(), soul_id: "s1".to_string() };
    assert_eq!(input.get_soul_id(), Some("s1"));
    let input = UserInput::ReadBrain { soul_id: "s2".to_string() };
    assert_eq!(input.get_soul_id(), Some("s2"));
}

#[test]
fn with_soul_id_overwrites_only_the_identity() {
    let input = UserInput::Build {
        soul_id: "claimed".to_string(),
        block_type: "Armor".to_string(),
        x: 3,
        y: 4,
        dir: "E".to_string(),
        power: 9,
    };
    let stamped = with_soul_id(input, "session".to_string());
    match stamped {
        UserInput::Build { soul_id, block_type, x, y, dir, power } => {
            assert_eq!(soul_id, "session");
            assert_eq!(block_type, "Armor");
            assert_eq!(x, 3);
            assert_eq!(y, 4);
            assert_eq!(dir, "E");
            assert_eq!(power, 9);
        },
        _ => panic!("variant changed"),
    }
}

#[test]
fn admission_restamps_matching_claims() {
    let session_soul = "soul-1".to_string();
    let session_cred = "cred-1".to_string();
    let input = UserInput::GenerateSoul { soul_id: "soul-1".to_string() };
    let admitted = admit_intent(input, &session_soul, &session_cred);
    match admitted {
        Some(UserInput::GenerateSoul { soul_id }) => assert_eq!(soul_id, "soul-1"),
        _ => panic!("should be admitted"),
    }
    // A claim matching the credential is admitted, stamped with the soul.
    let input = UserInput::ReadBrain { soul_id: "cred-1".to_string() };
    let admitted = admit_intent(input, &session_soul, &session_cred);
    match admitted {
        Some(UserInput::ReadBrain { soul_id }) => assert_eq!(soul_id, "soul-1"),
        _ => panic!("should be admitted under the credential"),
    }
}

#[test]
fn admission_drops_foreign_claims_and_logins() {
    let session_soul = "soul-1".to_string();
    let session_cred = "cred-1".to_string();
    let input = UserInput::GenerateSoul { soul_id: "someone-else".to_string() };
    assert!(admit_intent(input, &session_soul, &session_cred).is_none());
    let input = UserInput::Login { username: "u".to_string(), soul_id: "soul-1".to_string() };
    assert!(admit_intent(input, &session_soul, &session_cred).is_none());
}

#[test]
fn partition_splits_by_kind_in_arrival_order() {
    let batch = vec![
        UserInput::Build {
            soul_id: "a".to_string(),
            block_type: "Tissue".to_string(),
            x: 1,
            y: 1,
            dir: "C".to_string(),
            power: 1,
        },
        UserInput::GenerateSoul { soul_id: "a".to_string() },
        UserInput::NameSoul { soul_id: "a".to_string(), name: "Vin".to_string() },
        UserInput::GenerateSoul { soul_id: "b".to_string() },
        UserInput::Activate { soul_id: "a".to_string(), x: 2, y: 2, power: 4 },
        UserInput::Build {
            soul_id: "b".to_string(),
            block_type: "Mouth".to_string(),
            x: 5,
            y: 5,
            dir: "N".to_string(),
            power: 2,
        },
    ];
    let (soul_que, build_que, action_que) = partition_batch(batch);
    assert_eq!(soul_que.len(), 2);
    match (&soul_que[0], &soul_que[1]) {
        (
            UserInput::GenerateSoul { soul_id: first },
            UserInput::GenerateSoul { soul_id: second },
        ) => {
            assert_eq!(first, "a");
            assert_eq!(second, "b");
        },
        _ => panic!("wrong partition"),
    }
    assert_eq!(build_que.len(), 2);
    match &build_que[1] {
        UserInput::Build { soul_id, block_type, .. } => {
            assert_eq!(soul_id, "b");
            assert_eq!(block_type, "Mouth");
        },
        _ => panic!("wrong partition"),
    }
    assert_eq!(action_que.len(), 1);
    match &action_que[0] {
        UserInput::Activate { soul_id, x, y, power } => {
            assert_eq!(soul_id, "a");
            assert_eq!((*x, *y, *power), (2, 2, 4));
        },
        _ => panic!("wrong partition"),
    }
}

#[test]
fn lifecycle_accepts_the_five_transitions() {
    let state = ServerState::Idle.handle_command(Command::StartWorldLoop);
    assert!(matches!(state, ServerState::WorldRunning));
    let state = state.handle_command(Command::StopWorldLoop);
    assert!(matches!(state, ServerState::Idle));
    let state = ServerState::Idle.handle_command(Command::GenerateWorld(12));
    assert!(matches!(state, ServerState::GeneratingWorld(12)));
    let state = ServerState::Idle.handle_command(Command::SaveWorld("w.bin".to_string()));
    match state {
        ServerState::SavingWorld(name) => assert_eq!(name, "w.bin"),
        _ => panic!("expected SavingWorld"),
    }
    let state = ServerState::Idle.handle_command(Command::LoadWorld("w.bin".to_string()));
    match state {
        ServerState::LoadingWorld(name) => assert_eq!(name, "w.bin"),
        _ => panic!("expected LoadingWorld"),
    }
}

#[test]
fn lifecycle_rejects_invalid_pairs_as_identity() {
    let state = ServerState::WorldRunning.handle_command(Command::SaveWorld("w".to_string()));
    assert!(matches!(state, ServerState::WorldRunning));
    let state = ServerState::Idle.handle_command(Command::StopWorldLoop);
    assert!(matches!(state, ServerState::Idle));
    let state = ServerState::GeneratingWorld(4).handle_command(Command::StartWorldLoop);
    assert!(matches!(state, ServerState::GeneratingWorld(4)));
    let state = ServerState::Idle.handle_command(Command::Quit);
    assert!(matches!(state, ServerState::Idle));
}
