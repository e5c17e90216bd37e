use vstd::prelude::*;

use crate::net::packet::PacketInfo;

verus! {

/// Number of registered wire message kinds; `PacketType::Last` sits at this
/// discriminant and is never a real message.
pub const PACKET_TYPE_COUNT: usize = 27;

/// Closed enumeration of wire message kinds. The wire identity of each kind
/// is its position in this declaration order, starting at zero; it must stay
/// stable across protocol revisions.
#[derive(Debug, Copy, Clone, PartialEq, Eq, Structural)]
pub enum PacketType {
    FatalError,
    PacketInit,
    AuthenticationRequest,
    AuthenticationResponse,
    PacketPing,
    PacketPong,
    AddFriendRequest,
    AddFriendRequestResponse,
    FriendRequestAction,
    FriendRequestActionResponse,
    FetchPendingFriendRequests,
    FetchPendingFriendRequestsResponse,
    FetchFriendList,
    FetchFriendListResponse,
    RemoveFriend,
    RemoveFriendResponse,
    SendPrivateMessage,
    NewPrivateMessage,
    SystemNotification,
    InviteUser,
    LobbyInvite,
    LobbyInviteAction,
    LobbyJoined,
    LobbyMemberUpdate,
    LobbyLeft,
    SendLobbyMessage,
    NewLobbyMessage,

    Last,
}

/// Numeric wire identity of a packet type.
pub open spec fn type_id(t: PacketType) -> u16 {
    match t {
        PacketType::FatalError => 0,
        PacketType::PacketInit => 1,
        PacketType::AuthenticationRequest => 2,
        PacketType::AuthenticationResponse => 3,
        PacketType::PacketPing => 4,
        PacketType::PacketPong => 5,
        PacketType::AddFriendRequest => 6,
        PacketType::AddFriendRequestResponse => 7,
        PacketType::FriendRequestAction => 8,
        PacketType::FriendRequestActionResponse => 9,
        PacketType::FetchPendingFriendRequests => 10,
        PacketType::FetchPendingFriendRequestsResponse => 11,
        PacketType::FetchFriendList => 12,
        PacketType::FetchFriendListResponse => 13,
        PacketType::RemoveFriend => 14,
        PacketType::RemoveFriendResponse => 15,
        PacketType::SendPrivateMessage => 16,
        PacketType::NewPrivateMessage => 17,
        PacketType::SystemNotification => 18,
        PacketType::InviteUser => 19,
        PacketType::LobbyInvite => 20,
        PacketType::LobbyInviteAction => 21,
        PacketType::LobbyJoined => 22,
        PacketType::LobbyMemberUpdate => 23,
        PacketType::LobbyLeft => 24,
        PacketType::SendLobbyMessage => 25,
        PacketType::NewLobbyMessage => 26,
        PacketType::Last => 27,
    }
}

/// Packet type for a numeric wire identity, if the identity is registered.
pub open spec fn spec_type_of_id(id: u16) -> Option<PacketType> {
    if id == 0 {
        Some(PacketType::FatalError)
    } else if id == 1 {
        Some(PacketType::PacketInit)
    } else if id == 2 {
        Some(PacketType::AuthenticationRequest)
    } else if id == 3 {
        Some(PacketType::AuthenticationResponse)
    } else if id == 4 {
        Some(PacketType::PacketPing)
    } else if id == 5 {
        Some(PacketType::PacketPong)
    } else if id == 6 {
        Some(PacketType::AddFriendRequest)
    } else if id == 7 {
        Some(PacketType::AddFriendRequestResponse)
    } else if id == 8 {
        Some(PacketType::FriendRequestAction)
    } else if id == 9 {
        Some(PacketType::FriendRequestActionResponse)
    } else if id == 10 {
        Some(PacketType::FetchPendingFriendRequests)
    } else if id == 11 {
        Some(PacketType::FetchPendingFriendRequestsResponse)
    } else if id == 12 {
        Some(PacketType::FetchFriendList)
    } else if id == 13 {
        Some(PacketType::FetchFriendListResponse)
    } else if id == 14 {
        Some(PacketType::RemoveFriend)
    } else if id == 15 {
        Some(PacketType::RemoveFriendResponse)
    } else if id == 16 {
        Some(PacketType::SendPrivateMessage)
    } else if id == 17 {
        Some(PacketType::NewPrivateMessage)
    } else if id == 18 {
        Some(PacketType::SystemNotification)
    } else if id == 19 {
        Some(PacketType::InviteUser)
    } else if id == 20 {
        Some(PacketType::LobbyInvite)
    } else if id == 21 {
        Some(PacketType::LobbyInviteAction)
    } else if id == 22 {
        Some(PacketType::LobbyJoined)
    } else if id == 23 {
        Some(PacketType::LobbyMemberUpdate)
    } else if id == 24 {
        Some(PacketType::LobbyLeft)
    } else if id == 25 {
        Some(PacketType::SendLobbyMessage)
    } else if id == 26 {
        Some(PacketType::NewLobbyMessage)
    } else {
        None
    }
}

impl PacketType {
    /// Numeric wire identity of this packet type.
    pub fn to_u16(self) -> (r: u16)
        ensures
            r == type_id(self),
    {
        match self {
            PacketType::FatalError => 0,
            PacketType::PacketInit => 1,
            PacketType::AuthenticationRequest => 2,
            PacketType::AuthenticationResponse => 3,
            PacketType::PacketPing => 4,
            PacketType::PacketPong => 5,
            PacketType::AddFriendRequest => 6,
            PacketType::AddFriendRequestResponse => 7,
            PacketType::FriendRequestAction => 8,
            PacketType::FriendRequestActionResponse => 9,
            PacketType::FetchPendingFriendRequests => 10,
            PacketType::FetchPendingFriendRequestsResponse => 11,
            PacketType::FetchFriendList => 12,
            PacketType::FetchFriendListResponse => 13,
            PacketType::RemoveFriend => 14,
            PacketType::RemoveFriendResponse => 15,
            PacketType::SendPrivateMessage => 16,
            PacketType::NewPrivateMessage => 17,
            PacketType::SystemNotification => 18,
            PacketType::InviteUser => 19,
            PacketType::LobbyInvite => 20,
            PacketType::LobbyInviteAction => 21,
            PacketType::LobbyJoined => 22,
            PacketType::LobbyMemberUpdate => 23,
            PacketType::LobbyLeft => 24,
            PacketType::SendLobbyMessage => 25,
            PacketType::NewLobbyMessage => 26,
            PacketType::Last => 27,
        }
    }

    /// Packet type with the given numeric wire identity, if one is registered.
    pub fn from_u16(id: u16) -> (r: Option<PacketType>)
        ensures
            r == spec_type_of_id(id),
    {
        if id == 0 {
            Some(PacketType::FatalError)
        } else if id == 1 {
            Some(PacketType::PacketInit)
        } else if id == 2 {
            Some(PacketType::AuthenticationRequest)
        } else if id == 3 {
            Some(PacketType::AuthenticationResponse)
        } else if id == 4 {
            Some(PacketType::PacketPing)
        } else if id == 5 {
            Some(PacketType::PacketPong)
        } else if id == 6 {
            Some(PacketType::AddFriendRequest)
        } else if id == 7 {
            Some(PacketType::AddFriendRequestResponse)
        } else if id == 8 {
            Some(PacketType::FriendRequestAction)
        } else if id == 9 {
            Some(PacketType::FriendRequestActionResponse)
        } else if id == 10 {
            Some(PacketType::FetchPendingFriendRequests)
        } else if id == 11 {
            Some(PacketType::FetchPendingFriendRequestsResponse)
        } else if id == 12 {
            Some(PacketType::FetchFriendList)
        } else if id == 13 {
            Some(PacketType::FetchFriendListResponse)
        } else if id == 14 {
            Some(PacketType::RemoveFriend)
        } else if id == 15 {
            Some(PacketType::RemoveFriendResponse)
        } else if id == 16 {
            Some(PacketType::SendPrivateMessage)
        } else if id == 17 {
            Some(PacketType::NewPrivateMessage)
        } else if id == 18 {
            Some(PacketType::SystemNotification)
        } else if id == 19 {
            Some(PacketType::InviteUser)
        } else if id == 20 {
            Some(PacketType::LobbyInvite)
        } else if id == 21 {
            Some(PacketType::LobbyInviteAction)
        } else if id == 22 {
            Some(PacketType::LobbyJoined)
        } else if id == 23 {
            Some(PacketType::LobbyMemberUpdate)
        } else if id == 24 {
            Some(PacketType::LobbyLeft)
        } else if id == 25 {
            Some(PacketType::SendLobbyMessage)
        } else if id == 26 {
            Some(PacketType::NewLobbyMessage)
        } else {
            None
        }
    }
}

/// Handshake sent immediately on connect, carrying both revision numbers.
#[derive(Debug, Clone)]
pub struct PacketInit {
    pub protocol_version: u16,
    pub app_version: u16,
}

/// Credentials submitted once the handshake has completed.
#[derive(Debug, Clone)]
pub struct AuthenticationRequest {
    pub email: String,
    pub password: String,
}

/// Ask the server to create a friend request toward a user.
#[derive(Debug, Clone)]
pub struct AddFriendRequest {
    pub user_tag: String,
}

/// Accept or decline one pending friend request.
#[derive(Debug, Clone)]
pub struct FriendRequestAction {
    pub request_id: String,
    pub action: crate::net::structs::FriendRequestActionChoice,
}

/// Ask the server for the pending friend requests, both directions.
#[derive(Debug, Clone)]
pub struct FetchPendingFriendRequests {}

/// Ask the server for the full friend list.
#[derive(Debug, Clone)]
pub struct FetchFriendList {}

/// Remove a user from the friend list.
#[derive(Debug, Clone)]
pub struct RemoveFriend {
    pub user_tag: String,
}

/// Array-backed registry of packet metadata, indexed by wire identity.
/// Built once at startup and passed by reference wherever packets are
/// encoded or decoded.
pub struct PacketRegistry {
    pub infos: Vec<Option<PacketInfo>>,
}

impl PacketRegistry {
    /// Every slot agrees with its index: a registered entry at slot `i`
    /// describes the packet type whose wire identity is `i`. A registered
    /// fixed payload size fits the three-byte wire size field.
    pub open spec fn wf(self) -> bool {
        &&& self.infos@.len() == PACKET_TYPE_COUNT
        &&& forall|i: int|
            0 <= i < self.infos@.len() ==> (#[trigger] self.infos@[i] matches Some(info) ==> {
                &&& type_id(info.packet_type) == i
                &&& (info.fixed_size matches Some(n) ==> n < 0x1000000)
            })
    }

    /// Whether the given packet type has a registered entry.
    pub open spec fn has_spec(self, t: PacketType) -> bool {
        &&& type_id(t) < self.infos@.len()
        &&& self.infos@[type_id(t) as int] is Some
    }

    /// Registered metadata of the given packet type.
    pub open spec fn info_spec(self, t: PacketType) -> PacketInfo {
        self.infos@[type_id(t) as int]->Some_0
    }

    /// Registered fixed payload size of the given packet type, if any.
    pub open spec fn fixed_size_spec(self, t: PacketType) -> Option<usize> {
        self.info_spec(t).fixed_size
    }

    /// The registry as the standard protocol ships it: every real packet
    /// type registered, none with a fixed payload size.
    pub open spec fn is_standard(self) -> bool {
        &&& self.wf()
        &&& forall|t: PacketType| #[trigger]
            self.has_spec(t) <==> type_id(t) < PACKET_TYPE_COUNT
        &&& forall|t: PacketType|
            #[trigger] self.has_spec(t) ==> self.fixed_size_spec(t) is None
    }
}

/// Number of real packet types; also the size of the registry.
pub fn packet_count() -> (r: usize)
    ensures
        r == PACKET_TYPE_COUNT,
{
    PACKET_TYPE_COUNT
}

/// Registered metadata for one packet type, with no fixed payload size.
fn info_of(t: PacketType) -> (r: PacketInfo)
    ensures
        r.packet_type == t,
        r.fixed_size is None,
{
    let name = match t {
        PacketType::FatalError => "FatalError",
        PacketType::PacketInit => "PacketInit",
        PacketType::AuthenticationRequest => "AuthenticationRequest",
        PacketType::AuthenticationResponse => "AuthenticationResponse",
        PacketType::PacketPing => "PacketPing",
        PacketType::PacketPong => "PacketPong",
        PacketType::AddFriendRequest => "AddFriendRequest",
        PacketType::AddFriendRequestResponse => "AddFriendRequestResponse",
        PacketType::FriendRequestAction => "FriendRequestAction",
        PacketType::FriendRequestActionResponse => "FriendRequestActionResponse",
        PacketType::FetchPendingFriendRequests => "FetchPendingFriendRequests",
        PacketType::FetchPendingFriendRequestsResponse => "FetchPendingFriendRequestsResponse",
        PacketType::FetchFriendList => "FetchFriendList",
        PacketType::FetchFriendListResponse => "FetchFriendListResponse",
        PacketType::RemoveFriend => "RemoveFriend",
        PacketType::RemoveFriendResponse => "RemoveFriendResponse",
        PacketType::SendPrivateMessage => "SendPrivateMessage",
        PacketType::NewPrivateMessage => "NewPrivateMessage",
        PacketType::SystemNotification => "SystemNotification",
        PacketType::InviteUser => "InviteUser",
        PacketType::LobbyInvite => "LobbyInvite",
        PacketType::LobbyInviteAction => "LobbyInviteAction",
        PacketType::LobbyJoined => "LobbyJoined",
        PacketType::LobbyMemberUpdate => "LobbyMemberUpdate",
        PacketType::LobbyLeft => "LobbyLeft",
        PacketType::SendLobbyMessage => "SendLobbyMessage",
        PacketType::NewLobbyMessage => "NewLobbyMessage",
        PacketType::Last => "Last",
    };
    PacketInfo { packet_type: t, name, fixed_size: None }
}

/// Build the registry with every real packet type registered in
/// declaration order.
pub fn init_packets() -> (r: PacketRegistry)
    ensures
        r.is_standard(),
{
    let mut infos: Vec<Option<PacketInfo>> = Vec::new();
    infos.push(Some(info_of(PacketType::FatalError)));
    infos.push(Some(info_of(PacketType::PacketInit)));
    infos.push(Some(info_of(PacketType::AuthenticationRequest)));
    infos.push(Some(info_of(PacketType::AuthenticationResponse)));
    infos.push(Some(info_of(PacketType::PacketPing)));
    infos.push(Some(info_of(PacketType::PacketPong)));
    infos.push(Some(info_of(PacketType::AddFriendRequest)));
    infos.push(Some(info_of(PacketType::AddFriendRequestResponse)));
    infos.push(Some(info_of(PacketType::FriendRequestAction)));
    infos.push(Some(info_of(PacketType::FriendRequestActionResponse)));
    infos.push(Some(info_of(PacketType::FetchPendingFriendRequests)));
    infos.push(Some(info_of(PacketType::FetchPendingFriendRequestsResponse)));
    infos.push(Some(info_of(PacketType::FetchFriendList)));
    infos.push(Some(info_of(PacketType::FetchFriendListResponse)));
    infos.push(Some(info_of(PacketType::RemoveFriend)));
    infos.push(Some(info_of(PacketType::RemoveFriendResponse)));
    infos.push(Some(info_of(PacketType::SendPrivateMessage)));
    infos.push(Some(info_of(PacketType::NewPrivateMessage)));
    infos.push(Some(info_of(PacketType::SystemNotification)));
    infos.push(Some(info_of(PacketType::InviteUser)));
    infos.push(Some(info_of(PacketType::LobbyInvite)));
    infos.push(Some(info_of(PacketType::LobbyInviteAction)));
    infos.push(Some(info_of(PacketType::LobbyJoined)));
    infos.push(Some(info_of(PacketType::LobbyMemberUpdate)));
    infos.push(Some(info_of(PacketType::LobbyLeft)));
    infos.push(Some(info_of(PacketType::SendLobbyMessage)));
    infos.push(Some(info_of(PacketType::NewLobbyMessage)));
    let r = PacketRegistry { infos };
    proof {
        assert forall|t: PacketType| #[trigger] r.has_spec(t) implies type_id(t)
            < PACKET_TYPE_COUNT by {
            assert(type_id(t) < r.infos@.len());
        }
        assert forall|t: PacketType| type_id(t) < PACKET_TYPE_COUNT implies #[trigger] r.has_spec(
            t,
        ) by {
            assert(r.infos@[type_id(t) as int] is Some);
        }
    }
    r
}

/// Build the standard registry; the explicit object every encoder and
/// decoder works against.
pub fn init() -> (r: PacketRegistry)
    ensures
        r.is_standard(),
{
    init_packets()
}

/// Whether the packet type is registered.
pub fn has(reg: &PacketRegistry, packet_type: PacketType) -> (r: bool)
    requires
        reg.wf(),
    ensures
        r == reg.has_spec(packet_type),
{
    let id = packet_type.to_u16() as usize;
    id < reg.infos.len() && reg.infos[id].is_some()
}

/// Registered metadata of the packet type; the type must be registered.
pub fn get(reg: &PacketRegistry, packet_type: PacketType) -> (r: PacketInfo)
    requires
        reg.wf(),
        reg.has_spec(packet_type),
    ensures
        r == reg.info_spec(packet_type),
{
    let id = packet_type.to_u16() as usize;
    let info = reg.infos[id];
    info.unwrap()
}

} // verus!
