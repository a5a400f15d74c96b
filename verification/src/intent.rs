//! Client intents and the ingestion rules: every intent carries a soul
//! identifier, and the pipeline re-stamps it with the session's authenticated
//! identifier before it may reach the tick orchestrator.

use vstd::prelude::*;

verus! {

/// An identity-stamped command arriving from a client.
#[derive(Debug)]
pub enum UserInput {
    Login { username: String, soul_id: String },
    GenerateSoul { soul_id: String },
    MountSoul { soul_id: String },
    NameSoul { soul_id: String, name: String },
    DismountSoul { soul_id: String },
    Activate { soul_id: String, x: u32, y: u32, power: i16 },
    Build { soul_id: String, block_type: String, x: u32, y: u32, dir: String, power: i16 },
    UpdateBrain { soul_id: String, code: String },
    ReadBrain { soul_id: String },
}

/// The mathematical view of a `UserInput`.
pub ghost enum IntentView {
    Login { username: Seq<char>, soul_id: Seq<char> },
    GenerateSoul { soul_id: Seq<char> },
    MountSoul { soul_id: Seq<char> },
    NameSoul { soul_id: Seq<char>, name: Seq<char> },
    DismountSoul { soul_id: Seq<char> },
    Activate { soul_id: Seq<char>, x: int, y: int, power: int },
    Build { soul_id: Seq<char>, block_type: Seq<char>, x: int, y: int, dir: Seq<char>, power: int },
    UpdateBrain { soul_id: Seq<char>, code: Seq<char> },
    ReadBrain { soul_id: Seq<char> },
}

impl DeepView for UserInput {
    type V = IntentView;

    open spec fn deep_view(&self) -> IntentView {
        match self {
            UserInput::Login { username, soul_id } => IntentView::Login {
                username: username@,
                soul_id: soul_id@,
            },
            UserInput::GenerateSoul { soul_id } => IntentView::GenerateSoul { soul_id: soul_id@ },
            UserInput::MountSoul { soul_id } => IntentView::MountSoul { soul_id: soul_id@ },
            UserInput::NameSoul { soul_id, name } => IntentView::NameSoul {
                soul_id: soul_id@,
                name: name@,
            },
            UserInput::DismountSoul { soul_id } => IntentView::DismountSoul { soul_id: soul_id@ },
            UserInput::Activate { soul_id, x, y, power } => IntentView::Activate {
                soul_id: soul_id@,
                x: *x as int,
                y: *y as int,
                power: *power as int,
            },
            UserInput::Build { soul_id, block_type, x, y, dir, power } => IntentView::Build {
                soul_id: soul_id@,
                block_type: block_type@,
                x: *x as int,
                y: *y as int,
                dir: dir@,
                power: *power as int,
            },
            UserInput::UpdateBrain { soul_id, code } => IntentView::UpdateBrain {
                soul_id: soul_id@,
                code: code@,
            },
            UserInput::ReadBrain { soul_id } => IntentView::ReadBrain { soul_id: soul_id@ },
        }
    }
}

/// The soul identifier an intent claims to act for.
pub open spec fn spec_soul_id(v: IntentView) -> Seq<char> {
    match v {
        IntentView::Login { soul_id, .. } => soul_id,
        IntentView::GenerateSoul { soul_id } => soul_id,
        IntentView::MountSoul { soul_id } => soul_id,
        IntentView::NameSoul { soul_id, .. } => soul_id,
        IntentView::DismountSoul { soul_id } => soul_id,
        IntentView::Activate { soul_id, .. } => soul_id,
        IntentView::Build { soul_id, .. } => soul_id,
        IntentView::UpdateBrain { soul_id, .. } => soul_id,
        IntentView::ReadBrain { soul_id } => soul_id,
    }
}

/// The same intent with its soul identifier replaced.
pub open spec fn spec_with_soul_id(v: IntentView, new_id: Seq<char>) -> IntentView {
    match v {
        IntentView::Login { username, .. } => IntentView::Login { username, soul_id: new_id },
        IntentView::GenerateSoul { .. } => IntentView::GenerateSoul { soul_id: new_id },
        IntentView::MountSoul { .. } => IntentView::MountSoul { soul_id: new_id },
        IntentView::NameSoul { name, .. } => IntentView::NameSoul { soul_id: new_id, name },
        IntentView::Activate { x, y, power, .. } => IntentView::Activate {
            soul_id: new_id,
            x,
            y,
            power,
        },
        IntentView::DismountSoul { .. } => IntentView::DismountSoul { soul_id: new_id },
        IntentView::Build { block_type, x, y, dir, power, .. } => IntentView::Build {
            soul_id: new_id,
            block_type,
            x,
            y,
            dir,
            power,
        },
        IntentView::UpdateBrain { code, .. } => IntentView::UpdateBrain { soul_id: new_id, code },
        IntentView::ReadBrain { .. } => IntentView::ReadBrain { soul_id: new_id },
    }
}

impl UserInput {
    /// The claimed soul identifier; every variant carries one.
    pub fn get_soul_id(&self) -> (r: Option<&str>)
        ensures
            r matches Some(s) && s@ == spec_soul_id(self.deep_view()),
    {
        match self {
            UserInput::Login { soul_id, .. } => Some(soul_id.as_str()),
            UserInput::GenerateSoul { soul_id } => Some(soul_id.as_str()),
            UserInput::MountSoul { soul_id } => Some(soul_id.as_str()),
            UserInput::NameSoul { soul_id, .. } => Some(soul_id.as_str()),
            UserInput::DismountSoul { soul_id } => Some(soul_id.as_str()),
            UserInput::Activate { soul_id, .. } => Some(soul_id.as_str()),
            UserInput::Build { soul_id, .. } => Some(soul_id.as_str()),
            UserInput::UpdateBrain { soul_id, .. } => Some(soul_id.as_str()),
            UserInput::ReadBrain { soul_id } => Some(soul_id.as_str()),
        }
    }
}

/// Rebuilds an intent with its soul-identifier field overwritten, so that a
/// client can never act on behalf of another soul.
pub fn with_soul_id(user_input: UserInput, new_soul_id: String) -> (r: UserInput)
    ensures
        r.deep_view() == spec_with_soul_id(user_input.deep_view(), new_soul_id@),
{
    match user_input {
        UserInput::Login { username, .. } => UserInput::Login { username, soul_id: new_soul_id },
        UserInput::GenerateSoul { .. } => UserInput::GenerateSoul { soul_id: new_soul_id },
        UserInput::MountSoul { .. } => UserInput::MountSoul { soul_id: new_soul_id },
        UserInput::NameSoul { name, .. } => UserInput::NameSoul { soul_id: new_soul_id, name },
        UserInput::DismountSoul { .. } => UserInput::DismountSoul { soul_id: new_soul_id },
        UserInput::Activate { x, y, power, .. } => UserInput::Activate {
            soul_id: new_soul_id,
            x,
            y,
            power,
        },
        UserInput::Build { block_type, x, y, dir, power, .. } => UserInput::Build {
            soul_id: new_soul_id,
            block_type,
            x,
            y,
            dir,
            power,
        },
        UserInput::UpdateBrain { code, .. } => UserInput::UpdateBrain {
            soul_id: new_soul_id,
            code,
        },
        UserInput::ReadBrain { .. } => UserInput::ReadBrain { soul_id: new_soul_id },
    }
}

/// What the ingestion pipeline does with one authenticated client's inbound
/// intent: logins are handled at the connection (never forwarded); any other
/// intent is forwarded, re-stamped with the session's soul identifier, only
/// when the claimed identifier matches the session's soul or its credential.
pub open spec fn spec_admit(
    v: IntentView,
    session_soul: Seq<char>,
    session_cred: Seq<char>,
) -> Option<IntentView> {
    if v is Login {
        None
    } else if spec_soul_id(v) == session_soul || spec_soul_id(v) == session_cred {
        Some(spec_with_soul_id(v, session_soul))
    } else {
        None
    }
}

/// Admission control for one inbound intent of an authenticated session.
/// Rejected intents (`None`) are dropped without closing the connection.
pub fn admit_intent(
    user_input: UserInput,
    session_soul: &String,
    session_cred: &String,
) -> (r: Option<UserInput>)
    ensures
        r.deep_view() == spec_admit(user_input.deep_view(), session_soul@, session_cred@),
{
    if let UserInput::Login { .. } = &user_input {
        return None;
    }
    let claimed_matches: bool = match user_input.get_soul_id() {
        Some(claimed) => {
            crate::cell_def::str_eq(claimed, session_soul.as_str())
                || crate::cell_def::str_eq(claimed, session_cred.as_str())
        },
        None => false,
    };
    if claimed_matches {
        Some(with_soul_id(user_input, session_soul.clone()))
    } else {
        None
    }
}

} // verus!
