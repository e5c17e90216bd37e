use vstd::prelude::*;

verus! {

/// Public identity of a user as the lobby server reports it.
#[derive(Debug, Clone)]
pub struct UserProfile {
    pub user_tag: String,
    pub display_name: String,
    pub avatar_url: Option<String>,
}

/// Reply to a pending friend request.
#[derive(Debug, Clone)]
pub enum FriendRequestActionChoice {
    Accept,
    Decline,
}

/// A pending friend request, as inviter or invitee.
#[derive(Debug, Clone)]
pub struct FriendRequest {
    pub id: String,
    pub state: String,
    pub user_profile: UserProfile,
}

/// One entry of the friend list.
#[derive(Debug, Clone)]
pub struct Friend {
    pub user_profile: UserProfile,
    pub is_online: bool,
}

/// Reply to a lobby invitation.
#[derive(Debug, Clone)]
pub enum LobbyInviteActionChoice {
    Accept,
    Decline,
}

/// A member's standing within a lobby.
#[derive(Debug, Clone)]
pub enum LobbyRole {
    Leader,
    Member,
}

/// One member of a lobby.
#[derive(Debug, Clone)]
pub struct LobbyMember {
    pub user_profile: UserProfile,
    pub role: LobbyRole,
    pub is_online: bool,
}

} // verus!
