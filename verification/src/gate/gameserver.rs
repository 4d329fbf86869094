//! Game servers known to this gate and the rules for accepting them.
use super::gameserver_handler::GameServerRejectionReason;
use vstd::prelude::*;

verus! {

/// A game server: its name and the maps it runs.
#[derive(Debug)]
pub struct GameServer {
    pub name: String,
    pub map_list: Vec<String>,
}

impl GameServer {
    /// A game server with no name and no maps.
    pub fn new() -> (r: Self)
        ensures
            r.name@ == Seq::<char>::empty(),
            r.map_list@.len() == 0,
    {
        GameServer { name: String::new(), map_list: Vec::new() }
    }

    pub fn set_name(&mut self, name: String)
        ensures
            final(self).name@ == name@,
            final(self).map_list@ == old(self).map_list@,
    {
        self.name = name;
    }

    pub fn set_map_list(&mut self, map_list: Vec<String>)
        ensures
            final(self).name@ == old(self).name@,
            final(self).map_list@ == map_list@,
    {
        self.map_list = map_list;
    }

    /// The server runs a map with this name.
    pub open spec fn runs_map(self, map: Seq<char>) -> bool {
        exists|i: int| 0 <= i < self.map_list@.len() && #[trigger] self.map_list@[i]@ == map
    }

    /// Some map of `other` is run by this server too.
    pub open spec fn shares_map_with(self, other: GameServer) -> bool {
        exists|j: int| 0 <= j < other.map_list@.len() && self.runs_map(#[trigger] other.map_list@[j]@)
    }
}

/// Whether `candidate` may join the servers `servers`: the servers are looked
/// at in order, and the first one with the same name, or else running one of
/// its maps, decides the reason for rejecting it.
pub open spec fn spec_check_game_server(servers: Seq<GameServer>, candidate: GameServer) -> Result<
    (),
    GameServerRejectionReason,
>
    decreases servers.len(),
{
    if servers.len() == 0 {
        Ok(())
    } else if servers[0].name@ == candidate.name@ {
        Err(GameServerRejectionReason::DuplicateName)
    } else if servers[0].shares_map_with(candidate) {
        Err(GameServerRejectionReason::OverlappingMapList)
    } else {
        spec_check_game_server(servers.drop_first(), candidate)
    }
}

/// Whether `list` holds the map name `map`.
fn contains_name(list: &Vec<String>, map: &String) -> (r: bool)
    ensures
        r == exists|i: int| 0 <= i < list@.len() && #[trigger] list@[i]@ == map@,
{
    let mut i: usize = 0;
    while i < list.len()
        invariant
            i <= list@.len(),
            forall|k: int| 0 <= k < i ==> #[trigger] list@[k]@ != map@,
        decreases list@.len() - i,
    {
        if list[i] == *map {
            return true;
        }
        i = i + 1;
    }
    false
}

/// Whether some map of `candidate` is run by `server`.
fn shares_map(server: &GameServer, candidate: &GameServer) -> (r: bool)
    ensures
        r == server.shares_map_with(*candidate),
{
    let mut j: usize = 0;
    while j < candidate.map_list.len()
        invariant
            j <= candidate.map_list@.len(),
            forall|k: int| 0 <= k < j ==> !server.runs_map(#[trigger] candidate.map_list@[k]@),
        decreases candidate.map_list@.len() - j,
    {
        if contains_name(&server.map_list, &candidate.map_list[j]) {
            assert(server.runs_map(candidate.map_list@[j as int]@));
            return true;
        }
        j = j + 1;
    }
    false
}

/// The game servers that joined, each with the handle `H` through which it
/// is reached, in the order they joined.
#[derive(Debug)]
pub struct GameServerList<H> {
    servers: Vec<GameServer>,
    handlers: Vec<H>,
}

impl<H> GameServerList<H> {
    #[verifier::type_invariant]
    spec fn one_handler_per_server(self) -> bool {
        self.servers@.len() == self.handlers@.len()
    }

    /// The servers, in the order they joined.
    pub closed spec fn spec_servers(self) -> Seq<GameServer> {
        self.servers@
    }

    /// Their handles, in the same order.
    pub closed spec fn spec_handlers(self) -> Seq<H> {
        self.handlers@
    }

    /// An empty list.
    pub fn new() -> (r: Self)
        ensures
            r.spec_servers().len() == 0,
            r.spec_handlers().len() == 0,
    {
        GameServerList { servers: Vec::new(), handlers: Vec::new() }
    }

    /// Whether `game_server` may join (see `spec_check_game_server`): a game
    /// server's name must be unique and no map may run on two servers.
    pub fn check_for_duplicate_name_or_overlapping_maps(&self, game_server: &GameServer) -> (r: Result<
        (),
        GameServerRejectionReason,
    >)
        ensures
            r == spec_check_game_server(self.spec_servers(), *game_server),
    {
        let servers = &self.servers;
        let mut i: usize = 0;
        assert(servers@.skip(0) =~= servers@);
        while i < servers.len()
            invariant
                i <= servers@.len(),
                servers@ == self.spec_servers(),
                spec_check_game_server(servers@, *game_server) == spec_check_game_server(
                    servers@.skip(i as int),
                    *game_server,
                ),
            decreases servers@.len() - i,
        {
            let server_data = &servers[i];
            assert(servers@.skip(i as int)[0] == servers@[i as int]);
            assert(servers@.skip(i as int).drop_first() =~= servers@.skip(i + 1));
            if server_data.name == game_server.name {
                return Err(GameServerRejectionReason::DuplicateName);
            }
            if shares_map(server_data, game_server) {
                return Err(GameServerRejectionReason::OverlappingMapList);
            }
            i = i + 1;
        }
        Ok(())
    }

    /// Adds a server and its handle at the end.
    pub fn add_game_server(&mut self, game_server: GameServer, handler: H)
        ensures
            final(self).spec_servers() == old(self).spec_servers().push(game_server),
            final(self).spec_handlers() == old(self).spec_handlers().push(handler),
    {
        let mut taken = GameServerList::new();
        std::mem::swap(&mut taken, self);
        proof {
            use_type_invariant(&taken);
        }
        let GameServerList { mut servers, mut handlers } = taken;
        servers.push(game_server);
        handlers.push(handler);
        *self = GameServerList { servers, handlers };
    }

    /// Lets a game server join when it passes the check (see
    /// `spec_check_game_server`): it and its handle are added at the end.
    /// A server that does not pass leaves the list as it is, and the reason
    /// is returned.
    pub fn register_game_server(&mut self, game_server: GameServer, handler: H) -> (r: Result<
        (),
        GameServerRejectionReason,
    >)
        ensures
            r == spec_check_game_server(old(self).spec_servers(), game_server),
            r is Ok ==> final(self).spec_servers() == old(self).spec_servers().push(game_server)
                && final(self).spec_handlers() == old(self).spec_handlers().push(handler),
            r is Err ==> final(self).spec_servers() == old(self).spec_servers()
                && final(self).spec_handlers() == old(self).spec_handlers(),
    {
        let checked = self.check_for_duplicate_name_or_overlapping_maps(&game_server);
        if checked.is_ok() {
            self.add_game_server(game_server, handler);
        }
        checked
    }

    /// The handle of the first server that runs the map `map_name`.
    pub fn find_game_server_with_map(&self, map_name: &String) -> (r: Option<&H>)
        ensures
            match r {
                Some(h) => exists|i: int|
                    0 <= i < self.spec_servers().len() && *h == self.spec_handlers()[i]
                        && self.spec_servers()[i].runs_map(map_name@) && forall|k: int|
                        0 <= k < i ==> !(#[trigger] self.spec_servers()[k]).runs_map(map_name@),
                None => forall|k: int|
                    0 <= k < self.spec_servers().len() ==> !(
                    #[trigger] self.spec_servers()[k]).runs_map(map_name@),
            },
    {
        proof {
            use_type_invariant(self);
        }
        let servers = &self.servers;
        let mut i: usize = 0;
        while i < servers.len()
            invariant
                i <= servers@.len(),
                servers@ == self.spec_servers(),
                servers@.len() == self.spec_handlers().len(),
                forall|k: int| 0 <= k < i ==> !(#[trigger] servers@[k]).runs_map(map_name@),
            decreases servers@.len() - i,
        {
            if contains_name(&servers[i].map_list, map_name) {
                return Some(&self.handlers[i]);
            }
            i = i + 1;
        }
        None
    }

    /// The handles of all servers, in the order the servers joined.
    pub fn get_handlers(&self) -> (r: &[H])
        ensures
            r@ == self.spec_handlers(),
    {
        self.handlers.as_slice()
    }
}

/// No two servers share a name or a map.
pub open spec fn servers_consistent(servers: Seq<GameServer>) -> bool {
    forall|i: int, j: int|
        0 <= i < servers.len() && 0 <= j < servers.len() && i != j ==> {
            &&& (#[trigger] servers[i]).name@ != (#[trigger] servers[j]).name@
            &&& !servers[i].shares_map_with(servers[j])
        }
}

/// Sharing a map goes both ways.
pub proof fn lemma_shares_map_symmetric(a: GameServer, b: GameServer)
    ensures
        a.shares_map_with(b) == b.shares_map_with(a),
{
    if a.shares_map_with(b) {
        let j = choose|j: int| 0 <= j < b.map_list@.len() && a.runs_map(#[trigger] b.map_list@[j]@);
        let i = choose|i: int| 0 <= i < a.map_list@.len() && #[trigger] a.map_list@[i]@ == b.map_list@[j]@;
        assert(b.runs_map(a.map_list@[i]@));
    }
    if b.shares_map_with(a) {
        let j = choose|j: int| 0 <= j < a.map_list@.len() && b.runs_map(#[trigger] a.map_list@[j]@);
        let i = choose|i: int| 0 <= i < b.map_list@.len() && #[trigger] b.map_list@[i]@ == a.map_list@[j]@;
        assert(a.runs_map(b.map_list@[i]@));
    }
}

/// A server that passes the check differs in name from every server and
/// shares no map with any.
pub proof fn lemma_accepted_server_is_distinct(servers: Seq<GameServer>, candidate: GameServer)
    requires
        spec_check_game_server(servers, candidate) is Ok,
    ensures
        forall|k: int|
            0 <= k < servers.len() ==> (#[trigger] servers[k]).name@ != candidate.name@
                && !servers[k].shares_map_with(candidate),
    decreases servers.len(),
{
    if servers.len() > 0 {
        lemma_accepted_server_is_distinct(servers.drop_first(), candidate);
        assert forall|k: int| 0 <= k < servers.len() implies (#[trigger] servers[k]).name@
            != candidate.name@ && !servers[k].shares_map_with(candidate) by {
            if k > 0 {
                assert(servers[k] == servers.drop_first()[k - 1]);
            }
        }
    }
}

/// Adding a server that passes the check to servers with distinct names and
/// maps keeps their names and maps distinct.
pub proof fn law_accepting_keeps_servers_consistent(servers: Seq<GameServer>, candidate: GameServer)
    requires
        servers_consistent(servers),
        spec_check_game_server(servers, candidate) is Ok,
    ensures
        servers_consistent(servers.push(candidate)),
{
    lemma_accepted_server_is_distinct(servers, candidate);
    let s2 = servers.push(candidate);
    assert forall|i: int, j: int|
        0 <= i < s2.len() && 0 <= j < s2.len() && i != j implies (#[trigger] s2[i]).name@ != (
    #[trigger] s2[j]).name@ && !s2[i].shares_map_with(s2[j]) by {
        if i == servers.len() {
            lemma_shares_map_symmetric(candidate, servers[j]);
        } else if j == servers.len() {
        } else {
            assert(s2[i] == servers[i] && s2[j] == servers[j]);
        }
    }
}

/// Among servers with distinct names and maps, a map is run by one server
/// only, so the server found for it is that one.
pub proof fn law_map_runs_on_one_server(servers: Seq<GameServer>, i: int, map: Seq<char>)
    requires
        servers_consistent(servers),
        0 <= i < servers.len(),
        servers[i].runs_map(map),
    ensures
        forall|k: int| 0 <= k < servers.len() && k != i ==> !(#[trigger] servers[k]).runs_map(map),
{
    let idx = choose|idx: int| 0 <= idx < servers[i].map_list@.len() && #[trigger] servers[i].map_list@[idx]@ == map;
    assert forall|k: int| 0 <= k < servers.len() && k != i implies !(#[trigger] servers[k]).runs_map(map) by {
        if servers[k].runs_map(map) {
            assert(servers[k].runs_map(servers[i].map_list@[idx]@));
            assert(servers[k].shares_map_with(servers[i]));
        }
    }
}

/// What the check on a joining game server answers: it refuses a name only
/// when some server already has exactly that name, and a map list only when
/// some server already runs one of its maps; a server with a new name and no
/// shared map is accepted.
pub proof fn law_check_refuses_only_real_conflicts(servers: Seq<GameServer>, candidate: GameServer)
    ensures
        spec_check_game_server(servers, candidate) == Err::<(), GameServerRejectionReason>(
            GameServerRejectionReason::DuplicateName,
        ) ==> exists|i: int| 0 <= i < servers.len() && (#[trigger] servers[i]).name@ == candidate.name@,
        spec_check_game_server(servers, candidate) == Err::<(), GameServerRejectionReason>(
            GameServerRejectionReason::OverlappingMapList,
        ) ==> exists|i: int| 0 <= i < servers.len() && (#[trigger] servers[i]).shares_map_with(candidate),
        (forall|i: int|
            0 <= i < servers.len() ==> (#[trigger] servers[i]).name@ != candidate.name@
                && !servers[i].shares_map_with(candidate)) ==> spec_check_game_server(servers, candidate)
            == Ok::<(), GameServerRejectionReason>(()),
        (exists|i: int|
            0 <= i < servers.len() && ((#[trigger] servers[i]).name@ == candidate.name@
                || servers[i].shares_map_with(candidate))) ==> spec_check_game_server(servers, candidate) is Err,
    decreases servers.len(),
{
    if servers.len() > 0 {
        let rest = servers.drop_first();
        law_check_refuses_only_real_conflicts(rest, candidate);
        assert forall|i: int| 0 <= i < rest.len() implies rest[i] == servers[i + 1] by {}
        if spec_check_game_server(servers, candidate) == Err::<(), GameServerRejectionReason>(
            GameServerRejectionReason::DuplicateName,
        ) {
            if servers[0].name@ != candidate.name@ {
                let j = choose|j: int| 0 <= j < rest.len() && (#[trigger] rest[j]).name@ == candidate.name@;
                assert(servers[j + 1].name@ == candidate.name@);
            }
        }
        if spec_check_game_server(servers, candidate) == Err::<(), GameServerRejectionReason>(
            GameServerRejectionReason::OverlappingMapList,
        ) {
            if !servers[0].shares_map_with(candidate) {
                let j = choose|j: int| 0 <= j < rest.len() && (#[trigger] rest[j]).shares_map_with(candidate);
                assert(servers[j + 1].shares_map_with(candidate));
            }
        }
        if forall|i: int|
            0 <= i < servers.len() ==> (#[trigger] servers[i]).name@ != candidate.name@
                && !servers[i].shares_map_with(candidate) {
            assert(servers[0].name@ != candidate.name@ && !servers[0].shares_map_with(candidate));
            assert forall|i: int| 0 <= i < rest.len() implies (#[trigger] rest[i]).name@ != candidate.name@
                && !rest[i].shares_map_with(candidate) by {
                assert(rest[i] == servers[i + 1]);
            }
        }
        if exists|i: int|
            0 <= i < servers.len() && ((#[trigger] servers[i]).name@ == candidate.name@
                || servers[i].shares_map_with(candidate)) {
            let i = choose|i: int|
                0 <= i < servers.len() && ((#[trigger] servers[i]).name@ == candidate.name@
                    || servers[i].shares_map_with(candidate));
            if i > 0 {
                assert(rest[i - 1] == servers[i]);
            }
        }
    }
}

} // verus!
