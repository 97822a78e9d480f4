//! ICE server configuration for NAT traversal: STUN and TURN servers per
//! region, and the choice of the TURN servers nearest to a client.
use vstd::prelude::*;
use crate::text::str_equal;

verus! {

/// TURN server configuration with credentials.
#[derive(Debug, Clone)]
pub struct TurnServerConfig {
    /// TURN server URLs (udp/tcp transports).
    pub urls: Vec<String>,
    /// Authentication username.
    pub username: String,
    /// Authentication credential (password).
    pub credential: String,
    /// Geographic region for latency optimization.
    pub region: String,
    /// Maximum bandwidth limit (bytes/sec, for the free tier).
    pub bandwidth_limit: Option<u64>,
}

/// Mathematical view of a [`TurnServerConfig`].
pub struct TurnServerView {
    pub urls: Seq<Seq<char>>,
    pub username: Seq<char>,
    pub credential: Seq<char>,
    pub region: Seq<char>,
    pub bandwidth_limit: Option<u64>,
}

/// The views of a list of strings.
pub open spec fn strings_view(v: Seq<String>) -> Seq<Seq<char>> {
    v.map_values(|s: String| s@)
}

impl View for TurnServerConfig {
    type V = TurnServerView;

    open spec fn view(&self) -> TurnServerView {
        TurnServerView {
            urls: strings_view(self.urls@),
            username: self.username@,
            credential: self.credential@,
            region: self.region@,
            bandwidth_limit: self.bandwidth_limit,
        }
    }
}

/// Complete ICE server configuration.
#[derive(Debug, Clone)]
pub struct IceServerConfig {
    /// STUN servers for NAT type detection and reflexive candidates.
    pub stun_servers: Vec<String>,
    /// TURN relay servers with authentication.
    pub turn_servers: Vec<TurnServerConfig>,
}

/// The views of a list of TURN servers.
pub open spec fn turns_view(v: Seq<TurnServerConfig>) -> Seq<TurnServerView> {
    v.map_values(|t: TurnServerConfig| t@)
}

/// Viewing a list after a push views the pushed string last.
pub proof fn lemma_strings_view_push(v: Seq<String>, x: String)
    ensures
        strings_view(v.push(x)) == strings_view(v).push(x@),
{
    assert(strings_view(v.push(x)) =~= strings_view(v).push(x@));
}

/// Viewing a list of servers after a push views the pushed server last.
pub proof fn lemma_turns_view_push(v: Seq<TurnServerConfig>, x: TurnServerConfig)
    ensures
        turns_view(v.push(x)) == turns_view(v).push(x@),
{
    assert(turns_view(v.push(x)) =~= turns_view(v).push(x@));
}

/// A copy of a list of strings.
pub fn clone_strings(v: &Vec<String>) -> (r: Vec<String>)
    ensures
        strings_view(r@) == strings_view(v@),
{
    let n = v.len();
    let mut r: Vec<String> = Vec::with_capacity(n);
    let mut i: usize = 0;
    while i < n
        invariant
            n == v@.len(),
            i <= n,
            strings_view(r@) == strings_view(v@.subrange(0, i as int)),
        decreases n - i,
    {
        let c = v[i].clone();
        let ghost before = r@;
        r.push(c);
        proof {
            lemma_strings_view_push(before, c);
            assert(v@.subrange(0, i + 1) =~= v@.subrange(0, i as int).push(v@[i as int]));
            lemma_strings_view_push(v@.subrange(0, i as int), v@[i as int]);
        }
        i += 1;
    }
    assert(v@.subrange(0, n as int) =~= v@);
    r
}

impl TurnServerConfig {
    /// A copy of this server's configuration.
    pub fn duplicate(&self) -> (r: Self)
        ensures
            r@ == self@,
    {
        TurnServerConfig {
            urls: clone_strings(&self.urls),
            username: self.username.clone(),
            credential: self.credential.clone(),
            region: self.region.clone(),
            bandwidth_limit: self.bandwidth_limit,
        }
    }
}

/// A string built from a literal.
fn s(lit: &str) -> (r: String)
    ensures
        r@ == lit@,
{
    String::from_str(lit)
}

/// One TURN server of the built-in configurations.
fn turn_server(url: &str, username: &str, credential: &String, region: &str, limit: Option<u64>) -> (t: TurnServerConfig)
    ensures
        t@ == (TurnServerView {
            urls: seq![url@],
            username: username@,
            credential: credential@,
            region: region@,
            bandwidth_limit: limit,
        }),
{
    let mut urls: Vec<String> = Vec::new();
    urls.push(s(url));
    let t = TurnServerConfig {
        urls,
        username: s(username),
        credential: credential.clone(),
        region: s(region),
        bandwidth_limit: limit,
    };
    assert(t@.urls =~= seq![url@]);
    t
}

/// Distance between two regions: 0 for the same region, then a fixed table,
/// and 10 for a pair the table does not know.
pub open spec fn spec_region_distance(from: Seq<char>, to: Seq<char>) -> u32 {
    if from == to {
        0
    } else if (from == "us-west"@ && to == "us-east"@) || (from == "us-east"@ && to == "us-west"@) {
        1
    } else if (from == "us-west"@ && to == "eu-central"@) || (from == "eu-central"@ && to == "us-west"@) {
        2
    } else if (from == "us-west"@ && to == "ap-southeast"@) || (from == "ap-southeast"@ && to
        == "us-west"@) {
        2
    } else if (from == "us-east"@ && to == "eu-central"@) || (from == "eu-central"@ && to
        == "us-east"@) {
        2
    } else if (from == "us-east"@ && to == "ap-southeast"@) || (from == "ap-southeast"@ && to
        == "us-east"@) {
        3
    } else if (from == "eu-central"@ && to == "ap-southeast"@) || (from == "ap-southeast"@ && to
        == "eu-central"@) {
        3
    } else {
        10
    }
}

/// The (simplified) distance between two regions.
pub fn region_distance(from: &str, to: &str) -> (d: u32)
    ensures
        d == spec_region_distance(from@, to@),
{
    if str_equal(from, to) {
        return 0;
    }
    let f = |a: &str, b: &str| -> (r: bool)
        ensures
            r == (from@ == a@ && to@ == b@),
        { str_equal(from, a) && str_equal(to, b) };
    if f("us-west", "us-east") || f("us-east", "us-west") {
        1
    } else if f("us-west", "eu-central") || f("eu-central", "us-west") {
        2
    } else if f("us-west", "ap-southeast") || f("ap-southeast", "us-west") {
        2
    } else if f("us-east", "eu-central") || f("eu-central", "us-east") {
        2
    } else if f("us-east", "ap-southeast") || f("ap-southeast", "us-east") {
        3
    } else if f("eu-central", "ap-southeast") || f("ap-southeast", "eu-central") {
        3
    } else {
        10
    }
}

/// The distances that `region_distance` can return, in increasing order.
pub open spec fn distance_levels() -> Seq<u32> {
    seq![0u32, 1u32, 2u32, 3u32, 10u32]
}

/// The servers at distance `d` from `client`, in their original order.
pub open spec fn servers_at(servers: Seq<TurnServerView>, client: Seq<char>, d: u32) -> Seq<TurnServerView> {
    servers.filter(|t: TurnServerView| spec_region_distance(client, t.region) == d)
}

/// The servers ordered by distance from `client`, servers at equal distance
/// keeping their original order (a stable sort by distance).
pub open spec fn by_distance(servers: Seq<TurnServerView>, client: Seq<char>) -> Seq<TurnServerView> {
    servers_at(servers, client, 0) + servers_at(servers, client, 1) + servers_at(servers, client, 2)
        + servers_at(servers, client, 3) + servers_at(servers, client, 10)
}

/// The URLs of the servers in `region` (all servers when `None`), in order.
pub open spec fn turn_urls(servers: Seq<TurnServerView>, region: Option<Seq<char>>) -> Seq<Seq<char>>
    decreases servers.len(),
{
    if servers.len() == 0 {
        Seq::empty()
    } else {
        let last = servers.last();
        let keep = match region {
            Some(r) => last.region == r,
            None => true,
        };
        turn_urls(servers.drop_last(), region) + if keep {
            last.urls
        } else {
            Seq::empty()
        }
    }
}

/// The URLs of the built-in test and production TURN servers.
pub open spec fn production_turn(credential: Seq<char>) -> Seq<TurnServerView> {
    seq![
        TurnServerView {
            urls: seq![
                "turn:turn-us-west.rdcs.io:3478?transport=udp"@,
                "turn:turn-us-west.rdcs.io:3478?transport=tcp"@,
            ],
            username: "rdcs-user"@,
            credential,
            region: "us-west"@,
            bandwidth_limit: Some(2_000_000),
        },
        TurnServerView {
            urls: seq!["turn:turn-us-east.rdcs.io:3478?transport=udp"@],
            username: "rdcs-user"@,
            credential,
            region: "us-east"@,
            bandwidth_limit: Some(2_000_000),
        },
        TurnServerView {
            urls: seq!["turn:turn-eu-central.rdcs.io:3478?transport=udp"@],
            username: "rdcs-user"@,
            credential,
            region: "eu-central"@,
            bandwidth_limit: Some(2_000_000),
        },
        TurnServerView {
            urls: seq!["turn:turn-ap-southeast.rdcs.io:3478?transport=udp"@],
            username: "rdcs-user"@,
            credential,
            region: "ap-southeast"@,
            bandwidth_limit: Some(2_000_000),
        },
    ]
}

impl IceServerConfig {
    /// Production configuration: two STUN servers and TURN servers in four
    /// regions, each limited to 2 Mbps (the free tier). The TURN credential is
    /// `turn_password` when one is configured, else `"changeme"`.
    pub fn production_config(turn_password: Option<String>) -> (c: Self)
        ensures
            strings_view(c.stun_servers@) == seq!["stun:stun.rdcs.io:3478"@, "stun:stun.l.google.com:19302"@],
            turns_view(c.turn_servers@) == production_turn(match turn_password {
                Some(p) => p@,
                None => "changeme"@,
            }),
    {
        let credential = match turn_password {
            Some(p) => p,
            None => s("changeme"),
        };
        let mut stun: Vec<String> = Vec::new();
        stun.push(s("stun:stun.rdcs.io:3478"));
        stun.push(s("stun:stun.l.google.com:19302"));
        let mut west = turn_server(
            "turn:turn-us-west.rdcs.io:3478?transport=udp",
            "rdcs-user",
            &credential,
            "us-west",
            Some(2_000_000),
        );
        let tcp = s("turn:turn-us-west.rdcs.io:3478?transport=tcp");
        let ghost west_urls = west.urls@;
        west.urls.push(tcp);
        proof {
            lemma_strings_view_push(west_urls, tcp);
            reveal_strlit("turn:turn-us-west.rdcs.io:3478?transport=tcp");
            assert(west@.urls =~= production_turn(credential@)[0].urls);
            assert(west@ == production_turn(credential@)[0]);
        }
        let mut turn: Vec<TurnServerConfig> = Vec::new();
        turn.push(west);
        turn.push(
            turn_server(
                "turn:turn-us-east.rdcs.io:3478?transport=udp",
                "rdcs-user",
                &credential,
                "us-east",
                Some(2_000_000),
            ),
        );
        turn.push(
            turn_server(
                "turn:turn-eu-central.rdcs.io:3478?transport=udp",
                "rdcs-user",
                &credential,
                "eu-central",
                Some(2_000_000),
            ),
        );
        turn.push(
            turn_server(
                "turn:turn-ap-southeast.rdcs.io:3478?transport=udp",
                "rdcs-user",
                &credential,
                "ap-southeast",
                Some(2_000_000),
            ),
        );
        let c = IceServerConfig { stun_servers: stun, turn_servers: turn };
        assert(strings_view(c.stun_servers@) =~= seq![
            "stun:stun.rdcs.io:3478"@,
            "stun:stun.l.google.com:19302"@,
        ]);
        assert forall|k: int| 0 <= k < 4 implies #[trigger] turns_view(c.turn_servers@)[k]
            == production_turn(credential@)[k] by {
            assert(c.turn_servers@[k]@.urls =~= production_turn(credential@)[k].urls);
        }
        assert(turns_view(c.turn_servers@) =~= production_turn(credential@));
        c
    }

    /// Test configuration using local servers and public STUN.
    pub fn test_config() -> (c: Self)
        ensures
            strings_view(c.stun_servers@) == seq!["stun:localhost:3478"@, "stun:stun.l.google.com:19302"@],
            turns_view(c.turn_servers@) == seq![
                TurnServerView {
                    urls: seq!["turn:localhost:3478?transport=udp"@],
                    username: "test-user"@,
                    credential: "test-password"@,
                    region: "local"@,
                    bandwidth_limit: None,
                },
            ],
    {
        let mut stun: Vec<String> = Vec::new();
        stun.push(s("stun:localhost:3478"));
        stun.push(s("stun:stun.l.google.com:19302"));
        let password = s("test-password");
        let mut turn: Vec<TurnServerConfig> = Vec::new();
        turn.push(turn_server("turn:localhost:3478?transport=udp", "test-user", &password, "local", None));
        let c = IceServerConfig { stun_servers: stun, turn_servers: turn };
        assert(strings_view(c.stun_servers@) =~= seq![
            "stun:localhost:3478"@,
            "stun:stun.l.google.com:19302"@,
        ]);
        assert(turns_view(c.turn_servers@) =~= seq![
            TurnServerView {
                urls: seq!["turn:localhost:3478?transport=udp"@],
                username: "test-user"@,
                credential: "test-password"@,
                region: "local"@,
                bandwidth_limit: None,
            },
        ]);
        c
    }

    /// The TURN servers nearest to `client_region`: the servers ordered by
    /// distance (a stable sort), at most the first three.
    pub fn select_nearest_servers(&self, client_region: &str) -> (r: Vec<TurnServerConfig>)
        ensures
            turns_view(r@) == by_distance(turns_view(self.turn_servers@), client_region@).take(
                if by_distance(turns_view(self.turn_servers@), client_region@).len() < 3 {
                    by_distance(turns_view(self.turn_servers@), client_region@).len() as int
                } else {
                    3
                },
            ),
    {
        let ghost all = turns_view(self.turn_servers@);
        let ghost client = client_region@;
        let mut sorted: Vec<TurnServerConfig> = Vec::new();
        let levels: [u32; 5] = [0, 1, 2, 3, 10];
        let mut li: usize = 0;
        while li < 5
            invariant
                li <= 5,
                all == turns_view(self.turn_servers@),
                client == client_region@,
                levels@ == distance_levels(),
                turns_view(sorted@) == concat_levels(all, client, li as int),
            decreases 5 - li,
        {
            let d = levels[li];
            let n = self.turn_servers.len();
            let mut i: usize = 0;
            let ghost before = turns_view(sorted@);
            while i < n
                invariant
                    n == self.turn_servers@.len(),
                    i <= n,
                    all == turns_view(self.turn_servers@),
                    client == client_region@,
                    turns_view(sorted@) == before + servers_at(all.take(i as int), client, d),
                decreases n - i,
            {
                let t = &self.turn_servers[i];
                proof {
                    reveal_with_fuel(Seq::filter, 1);
                    assert(all.take(i + 1).drop_last() =~= all.take(i as int));
                    assert(all.take(i + 1).last() == t@);
                }
                if region_distance(client_region, t.region.as_str()) == d {
                    let dup = t.duplicate();
                    let ghost pre = sorted@;
                    sorted.push(dup);
                    proof {
                        lemma_turns_view_push(pre, dup);
                    }
                    assert(turns_view(sorted@) =~= before + servers_at(all.take(i + 1), client, d));
                } else {
                    assert(turns_view(sorted@) =~= before + servers_at(all.take(i + 1), client, d));
                }
                i += 1;
            }
            assert(all.take(n as int) =~= all);
            li += 1;
        }
        assert(concat_levels(all, client, 5) =~= by_distance(all, client)) by {
            reveal_with_fuel(concat_levels, 6);
        }
        let total = sorted.len();
        let keep = if total < 3 { total } else { 3 };
        let mut r: Vec<TurnServerConfig> = Vec::new();
        let mut k: usize = 0;
        while k < keep
            invariant
                keep <= total == sorted@.len(),
                k <= keep,
                turns_view(r@) == turns_view(sorted@).take(k as int),
            decreases keep - k,
        {
            let dup = sorted[k].duplicate();
            let ghost pre = r@;
            r.push(dup);
            proof {
                lemma_turns_view_push(pre, dup);
            }
            k += 1;
            assert(turns_view(r@) =~= turns_view(sorted@).take(k as int));
        }
        r
    }

    /// All STUN server URLs.
    pub fn get_stun_urls(&self) -> (r: Vec<String>)
        ensures
            strings_view(r@) == strings_view(self.stun_servers@),
    {
        clone_strings(&self.stun_servers)
    }

    /// The URLs of all TURN servers, or only of those in `region` when given,
    /// in order.
    pub fn get_turn_urls(&self, region: Option<&str>) -> (r: Vec<String>)
        ensures
            strings_view(r@) == turn_urls(turns_view(self.turn_servers@), match region {
                Some(x) => Some(x@),
                None => None,
            }),
    {
        let ghost reg = match region {
            Some(x) => Some(x@),
            None => None,
        };
        let ghost all = turns_view(self.turn_servers@);
        let n = self.turn_servers.len();
        let mut r: Vec<String> = Vec::new();
        let mut i: usize = 0;
        while i < n
            invariant
                n == self.turn_servers@.len(),
                i <= n,
                all == turns_view(self.turn_servers@),
                reg == match region {
                    Some(x) => Some(x@),
                    None => None::<Seq<char>>,
                },
                strings_view(r@) == turn_urls(all.take(i as int), reg),
            decreases n - i,
        {
            let t = &self.turn_servers[i];
            let keep = match region {
                Some(x) => str_equal(t.region.as_str(), x),
                None => true,
            };
            let ghost before = strings_view(r@);
            if keep {
                let m = t.urls.len();
                let mut j: usize = 0;
                while j < m
                    invariant
                        m == t.urls@.len(),
                        j <= m,
                        strings_view(r@) == before + strings_view(t.urls@).take(j as int),
                    decreases m - j,
                {
                    let u = t.urls[j].clone();
                    let ghost pre = r@;
                    r.push(u);
                    proof {
                        lemma_strings_view_push(pre, u);
                    }
                    j += 1;
                    assert(strings_view(r@) =~= before + strings_view(t.urls@).take(j as int));
                }
                assert(strings_view(t.urls@).take(m as int) =~= t@.urls);
            }
            proof {
                assert(all.take(i + 1).drop_last() =~= all.take(i as int));
                assert(all.take(i + 1).last() == t@);
                if !keep {
                    assert(strings_view(r@) =~= turn_urls(all.take(i + 1), reg));
                } else {
                    assert(strings_view(r@) =~= turn_urls(all.take(i + 1), reg));
                }
            }
            i += 1;
        }
        assert(all.take(n as int) =~= all);
        r
    }
}

/// The servers of the first `k` distance levels, level by level.
pub open spec fn concat_levels(servers: Seq<TurnServerView>, client: Seq<char>, k: int) -> Seq<TurnServerView>
    decreases k,
{
    if k <= 0 {
        Seq::empty()
    } else {
        concat_levels(servers, client, k - 1) + servers_at(servers, client, distance_levels()[k - 1])
    }
}

/// The stable sort by distance keeps every server exactly once: each server's
/// distance is one of the known levels, so it falls into exactly one group.
pub proof fn lemma_distance_is_a_level(from: Seq<char>, to: Seq<char>)
    ensures
        distance_levels().contains(spec_region_distance(from, to)),
{
    let d = spec_region_distance(from, to);
    if d == 0 {
        assert(distance_levels()[0] == d);
    } else if d == 1 {
        assert(distance_levels()[1] == d);
    } else if d == 2 {
        assert(distance_levels()[2] == d);
    } else if d == 3 {
        assert(distance_levels()[3] == d);
    } else {
        assert(distance_levels()[4] == d);
    }
}

/// One of the four regions that the distance table knows.
pub open spec fn is_known_region(r: Seq<char>) -> bool {
    r == "us-west"@ || r == "us-east"@ || r == "eu-central"@ || r == "ap-southeast"@
}

/// The four known region names are distinct.
proof fn lemma_known_regions_distinct()
    ensures
        "us-west"@ != "us-east"@,
        "us-west"@ != "eu-central"@,
        "us-west"@ != "ap-southeast"@,
        "us-east"@ != "eu-central"@,
        "us-east"@ != "ap-southeast"@,
        "eu-central"@ != "ap-southeast"@,
{
    reveal_strlit("us-west");
    reveal_strlit("us-east");
    reveal_strlit("eu-central");
    reveal_strlit("ap-southeast");
    assert("us-west"@[3] != "us-east"@[3]);
    assert("us-west"@.len() != "eu-central"@.len());
    assert("us-west"@.len() != "ap-southeast"@.len());
    assert("us-east"@.len() != "eu-central"@.len());
    assert("us-east"@.len() != "ap-southeast"@.len());
    assert("eu-central"@.len() != "ap-southeast"@.len());
}

/// Law: region distance is a symmetric measure: a region is at distance 0
/// from itself, and the distance from `a` to `b` is the distance from `b`
/// to `a`.
pub proof fn lemma_region_distance_symmetric(a: Seq<char>, b: Seq<char>)
    ensures
        spec_region_distance(a, a) == 0,
        spec_region_distance(a, b) == spec_region_distance(b, a),
{
}

/// Law: two different known regions lie 1 to 3 apart; a pair of different
/// regions of which one is unknown lies 10 apart, farther than any pair of
/// known regions.
pub proof fn lemma_region_distance_range(a: Seq<char>, b: Seq<char>)
    requires
        a != b,
    ensures
        is_known_region(a) && is_known_region(b) ==> 1 <= spec_region_distance(a, b) <= 3,
        !(is_known_region(a) && is_known_region(b)) ==> spec_region_distance(a, b) == 10,
{
    lemma_known_regions_distinct();
}

/// Law: the two US regions are the closest pair: every other pair of
/// different known regions lies strictly farther apart.
pub proof fn lemma_us_regions_are_closest(a: Seq<char>, b: Seq<char>)
    requires
        a != b,
        is_known_region(a),
        is_known_region(b),
        !(a == "us-west"@ && b == "us-east"@),
        !(a == "us-east"@ && b == "us-west"@),
    ensures
        spec_region_distance("us-west"@, "us-east"@) < spec_region_distance(a, b),
{
    lemma_known_regions_distinct();
}

/// Law: the geography behind the table. South-East Asia is nearer to the US
/// west coast than to the US east coast or to central Europe, and from the
/// US east coast central Europe is nearer than South-East Asia.
pub proof fn lemma_region_distance_geography()
    ensures
        spec_region_distance("us-west"@, "ap-southeast"@) < spec_region_distance("us-east"@, "ap-southeast"@),
        spec_region_distance("us-west"@, "ap-southeast"@) < spec_region_distance("eu-central"@, "ap-southeast"@),
        spec_region_distance("us-east"@, "eu-central"@) < spec_region_distance("us-east"@, "ap-southeast"@),
{
    lemma_known_regions_distinct();
}

/// Law: the steps of the table. The two US regions are one step apart;
/// central Europe is as far from either US region as South-East Asia is
/// from the US west coast; the US east coast and central Europe are equally
/// far from South-East Asia, the farthest known pairs, three steps.
pub proof fn lemma_region_distance_steps()
    ensures
        spec_region_distance("us-west"@, "us-east"@) == 1,
        spec_region_distance("us-west"@, "eu-central"@) == spec_region_distance("us-east"@, "eu-central"@),
        spec_region_distance("us-west"@, "eu-central"@) == spec_region_distance("us-west"@, "ap-southeast"@),
        spec_region_distance("us-east"@, "ap-southeast"@) == spec_region_distance("eu-central"@, "ap-southeast"@),
        spec_region_distance("us-east"@, "ap-southeast"@) == 3,
{
    lemma_known_regions_distinct();
}

/// Law: with no region given, the TURN URLs listed are those of every
/// server: a URL is listed if and only if some server carries it.
pub proof fn lemma_all_urls_listed(servers: Seq<TurnServerView>, u: Seq<char>)
    ensures
        turn_urls(servers, None).contains(u) <==> exists|i: int|
            0 <= i < servers.len() && #[trigger] servers[i].urls.contains(u),
    decreases servers.len(),
{
    if servers.len() > 0 {
        let init = servers.drop_last();
        let last = servers.last();
        lemma_all_urls_listed(init, u);
        lemma_concat_contains(turn_urls(init, None), last.urls, u);
        if turn_urls(servers, None).contains(u) {
            if turn_urls(init, None).contains(u) {
                let i = choose|i: int| 0 <= i < init.len() && #[trigger] init[i].urls.contains(u);
                assert(servers[i] == init[i]);
            } else {
                assert(servers[servers.len() - 1] == last);
            }
        }
        if exists|i: int| 0 <= i < servers.len() && #[trigger] servers[i].urls.contains(u) {
            let i = choose|i: int| 0 <= i < servers.len() && #[trigger] servers[i].urls.contains(u);
            if i < init.len() {
                assert(init[i] == servers[i]);
            }
        }
    }
}

/// The distance of a server's region from `client`.
pub open spec fn server_distance(client: Seq<char>, t: TurnServerView) -> u32 {
    spec_region_distance(client, t.region)
}

/// The servers are in order of distance from `client`, nearest first.
pub open spec fn nearest_first(s: Seq<TurnServerView>, client: Seq<char>) -> bool {
    forall|i: int, j: int| 0 <= i < j < s.len() ==> server_distance(client, #[trigger] s[i]) <= server_distance(
        client,
        #[trigger] s[j],
    )
}

/// Every server of `servers_at(.., d)` lies at distance `d`.
proof fn lemma_servers_at_distance(servers: Seq<TurnServerView>, client: Seq<char>, d: u32)
    ensures
        forall|i: int|
            0 <= i < servers_at(servers, client, d).len() ==> server_distance(
                client,
                #[trigger] servers_at(servers, client, d)[i],
            ) == d,
{
    let p = |t: TurnServerView| spec_region_distance(client, t.region) == d;
    assert forall|i: int| 0 <= i < servers.filter(p).len() implies server_distance(
        client,
        #[trigger] servers.filter(p)[i],
    ) == d by {
        servers.lemma_filter_pred(p, i);
    }
}

/// Appending servers of distance `d` to servers in order whose distances
/// are at most `d` keeps the order, and every distance is at most `d`.
proof fn lemma_append_level(a: Seq<TurnServerView>, b: Seq<TurnServerView>, client: Seq<char>, d: u32)
    requires
        nearest_first(a, client),
        forall|i: int| 0 <= i < a.len() ==> server_distance(client, #[trigger] a[i]) <= d,
        forall|i: int| 0 <= i < b.len() ==> server_distance(client, #[trigger] b[i]) == d,
    ensures
        nearest_first(a + b, client),
        forall|i: int| 0 <= i < (a + b).len() ==> server_distance(client, #[trigger] (a + b)[i]) <= d,
{
    let c = a + b;
    assert forall|i: int, j: int| 0 <= i < j < c.len() implies server_distance(client, #[trigger] c[i])
        <= server_distance(client, #[trigger] c[j]) by {
        if j < a.len() {
            assert(c[i] == a[i] && c[j] == a[j]);
        } else if i < a.len() {
            assert(c[i] == a[i] && c[j] == b[j - a.len()]);
        } else {
            assert(c[i] == b[i - a.len()] && c[j] == b[j - a.len()]);
        }
    }
    assert forall|i: int| 0 <= i < c.len() implies server_distance(client, #[trigger] c[i]) <= d by {
        if i < a.len() {
            assert(c[i] == a[i]);
        } else {
            assert(c[i] == b[i - a.len()]);
        }
    }
}

/// Law: the servers ordered for a client are in order of distance from it,
/// nearest first; so the servers `select_nearest_servers` returns are at
/// least as near as every server it leaves out.
pub proof fn lemma_by_distance_nearest_first(servers: Seq<TurnServerView>, client: Seq<char>)
    ensures
        nearest_first(by_distance(servers, client), client),
{
    let s0 = servers_at(servers, client, 0);
    let s1 = servers_at(servers, client, 1);
    let s2 = servers_at(servers, client, 2);
    let s3 = servers_at(servers, client, 3);
    let s10 = servers_at(servers, client, 10);
    lemma_servers_at_distance(servers, client, 0);
    lemma_servers_at_distance(servers, client, 1);
    lemma_servers_at_distance(servers, client, 2);
    lemma_servers_at_distance(servers, client, 3);
    lemma_servers_at_distance(servers, client, 10);
    let e = Seq::<TurnServerView>::empty();
    lemma_append_level(e, s0, client, 0);
    assert(e + s0 =~= s0);
    lemma_append_level(s0, s1, client, 1);
    lemma_append_level(s0 + s1, s2, client, 2);
    lemma_append_level(s0 + s1 + s2, s3, client, 3);
    lemma_append_level(s0 + s1 + s2 + s3, s10, client, 10);
}

/// Law: ordering the servers for a client loses no server and adds none: a
/// server is among them exactly when it is among the configured ones.
pub proof fn lemma_by_distance_keeps_servers(servers: Seq<TurnServerView>, client: Seq<char>, t: TurnServerView)
    ensures
        by_distance(servers, client).contains(t) <==> servers.contains(t),
{
    let s0 = servers_at(servers, client, 0);
    let s1 = servers_at(servers, client, 1);
    let s2 = servers_at(servers, client, 2);
    let s3 = servers_at(servers, client, 3);
    let s10 = servers_at(servers, client, 10);
    lemma_concat_contains(s0, s1, t);
    lemma_concat_contains(s0 + s1, s2, t);
    lemma_concat_contains(s0 + s1 + s2, s3, t);
    lemma_concat_contains(s0 + s1 + s2 + s3, s10, t);
    let d = spec_region_distance(client, t.region);
    lemma_distance_is_a_level(client, t.region);
    let p = |x: TurnServerView| spec_region_distance(client, x.region) == d;
    if servers.contains(t) {
        let i = choose|i: int| 0 <= i < servers.len() && servers[i] == t;
        servers.lemma_filter_contains(p, i);
    }
    assert forall|lv: u32| #[trigger] servers_at(servers, client, lv).contains(t) implies servers.contains(t) by {
        let q = |x: TurnServerView| spec_region_distance(client, x.region) == lv;
        servers.lemma_filter_contains_rev(q, t);
    }
}

/// Law: TURN URLs are listed server by server, in the configured order: a
/// single server lists its own URLs, and a server added after others lists
/// its URLs after theirs (when no region is given, or it is in the region).
pub proof fn lemma_urls_in_server_order(servers: Seq<TurnServerView>, t: TurnServerView, r: Seq<char>)
    ensures
        turn_urls(seq![t], None) == t.urls,
        turn_urls(servers.push(t), None) == turn_urls(servers, None) + t.urls,
        t.region == r ==> turn_urls(servers.push(t), Some(r)) == turn_urls(servers, Some(r)) + t.urls,
        t.region != r ==> turn_urls(servers.push(t), Some(r)) == turn_urls(servers, Some(r)),
{
    assert(servers.push(t).drop_last() =~= servers);
    assert(seq![t].drop_last() =~= Seq::<TurnServerView>::empty());
    assert(seq![t].last() == t);
    assert(turn_urls(seq![t].drop_last(), None) == Seq::<Seq<char>>::empty());
    assert(Seq::<Seq<char>>::empty() + t.urls =~= t.urls);
    assert(turn_urls(servers, Some(r)) + Seq::<Seq<char>>::empty() =~= turn_urls(servers, Some(r)));
}

/// `u` occurs in `a + b` exactly when it occurs in `a` or in `b`.
proof fn lemma_concat_contains<A>(a: Seq<A>, b: Seq<A>, u: A)
    ensures
        (a + b).contains(u) <==> (a.contains(u) || b.contains(u)),
{
    if (a + b).contains(u) {
        let k = choose|k: int| 0 <= k < (a + b).len() && (a + b)[k] == u;
        if k < a.len() {
            assert(a[k] == u);
        } else {
            assert(b[k - a.len()] == u);
        }
    }
    if a.contains(u) {
        let k = choose|k: int| 0 <= k < a.len() && a[k] == u;
        assert((a + b)[k] == u);
    }
    if b.contains(u) {
        let k = choose|k: int| 0 <= k < b.len() && b[k] == u;
        assert((a + b)[a.len() + k] == u);
    }
}

/// Law: the TURN URLs listed for a region are exactly the URLs of the
/// servers in that region: a URL is listed if and only if some server of
/// the region carries it.
pub proof fn lemma_region_urls_belong_to_region(servers: Seq<TurnServerView>, r: Seq<char>, u: Seq<char>)
    ensures
        turn_urls(servers, Some(r)).contains(u) <==> exists|i: int|
            0 <= i < servers.len() && servers[i].region == r && #[trigger] servers[i].urls.contains(u),
    decreases servers.len(),
{
    if servers.len() > 0 {
        let init = servers.drop_last();
        let last = servers.last();
        lemma_region_urls_belong_to_region(init, r, u);
        let tail = if last.region == r {
            last.urls
        } else {
            Seq::<Seq<char>>::empty()
        };
        lemma_concat_contains(turn_urls(init, Some(r)), tail, u);
        if turn_urls(servers, Some(r)).contains(u) {
            if turn_urls(init, Some(r)).contains(u) {
                let i = choose|i: int| 0 <= i < init.len() && init[i].region == r && #[trigger] init[i].urls.contains(u);
                assert(servers[i] == init[i]);
            } else {
                assert(servers[servers.len() - 1] == last);
            }
        }
        if exists|i: int| 0 <= i < servers.len() && servers[i].region == r && #[trigger] servers[i].urls.contains(u) {
            let i = choose|i: int| 0 <= i < servers.len() && servers[i].region == r && #[trigger] servers[i].urls.contains(u);
            if i < init.len() {
                assert(init[i] == servers[i]);
            }
        }
    }
}

/// Law: listing the URLs of one region is listing all URLs of the servers
/// of that region, kept in their order.
pub proof fn lemma_region_urls_are_filtered_urls(servers: Seq<TurnServerView>, r: Seq<char>)
    ensures
        turn_urls(servers, Some(r)) == turn_urls(servers.filter(|t: TurnServerView| t.region == r), None),
    decreases servers.len(),
{
    reveal_with_fuel(Seq::filter, 1);
    let p = |t: TurnServerView| t.region == r;
    if servers.len() == 0 {
        assert(servers.filter(p) =~= Seq::<TurnServerView>::empty());
    } else {
        let init = servers.drop_last();
        let last = servers.last();
        lemma_region_urls_are_filtered_urls(init, r);
        let sub = init.filter(p);
        if last.region == r {
            assert(servers.filter(p) == sub.push(last));
            assert(sub.push(last).drop_last() =~= sub);
            assert(sub.push(last).last() == last);
        } else {
            assert(servers.filter(p) == sub);
            assert(turn_urls(init, Some(r)) + Seq::<Seq<char>>::empty() =~= turn_urls(init, Some(r)));
        }
    }
}

} // verus!
