use vstd::prelude::*;

use crate::clientinfo::{clientinfo_strings, spec_clientinfo_strings};
use crate::error::Error;
use crate::text::latin1;

verus! {

/// The fields of a client info string the roster reads: name, team, top
/// colour, bottom colour, spectator flag and bot flag.
pub type InfoFields = (Option<String>, Option<String>, Option<i32>, Option<i32>, Option<i32>, Option<i32>);

/// Those fields with their texts as character sequences.
pub type InfoFieldsView = (
    Option<Seq<char>>,
    Option<Seq<char>>,
    Option<i32>,
    Option<i32>,
    Option<i32>,
    Option<i32>,
);

/// What `quake_clientinfo::Clientinfo::from` reads from an info string.
pub uninterp spec fn clientinfo_of(s: Seq<char>) -> InfoFieldsView;

pub open spec fn opt_string_view(s: Option<String>) -> Option<Seq<char>> {
    match s {
        Some(t) => Some(t@),
        None => None,
    }
}

pub open spec fn fields_view(f: InfoFields) -> InfoFieldsView {
    (opt_string_view(f.0), opt_string_view(f.1), f.2, f.3, f.4, f.5)
}

/// Relies on `quake_clientinfo::Clientinfo::from(&str)`, which parses a
/// `\key\value` info string; its fields are moved out as they are.
#[verifier::external_body]
fn parse_clientinfo(s: &str) -> (r: InfoFields)
    ensures
        fields_view(r) == clientinfo_of(s@),
{
    let c = quake_clientinfo::Clientinfo::from(s);
    (c.name, c.team, c.topcolor, c.bottomcolor, c.spectator, c.bot)
}

/// A client of the server: a player or a spectator.
#[derive(Clone, Debug, Default, PartialEq)]
pub struct Client {
    pub number: u8,
    pub name: String,
    pub team: String,
    pub color: [u8; 2],
    pub is_spectator: bool,
    pub is_bot: bool,
}

pub open spec fn text_or_empty(s: Option<Seq<char>>) -> Seq<char> {
    match s {
        Some(t) => t,
        None => Seq::empty(),
    }
}

pub open spec fn flag_set(v: Option<i32>) -> bool {
    match v {
        Some(x) => x != 0,
        None => false,
    }
}

pub open spec fn colour_byte(v: Option<i32>) -> u8 {
    match v {
        Some(x) => x as u8,
        None => 0,
    }
}

/// `c` is the client with slot `number` described by fields `f`.
pub open spec fn is_client_of(c: Client, f: InfoFieldsView, number: u8) -> bool {
    &&& c.number == number
    &&& c.name@ == text_or_empty(f.0)
    &&& c.team@ == text_or_empty(f.1)
    &&& c.color[0] == colour_byte(f.2)
    &&& c.color[1] == colour_byte(f.3)
    &&& c.is_spectator == flag_set(f.4)
    &&& c.is_bot == flag_set(f.5)
}

/// `cs` is the roster of the stream: one client per info string, numbered
/// in order.
pub open spec fn is_roster(data: Seq<u8>, cs: Seq<Client>) -> bool {
    match spec_clientinfo_strings(data) {
        Some(strings) => cs.len() == strings.len() && forall|i: int|
            0 <= i < cs.len() ==> is_client_of(#[trigger] cs[i], clientinfo_of(latin1(strings[i])), i as u8),
        None => false,
    }
}

/// The clients of `cs` with the given spectator flag, in order.
pub open spec fn with_spectator_flag(cs: Seq<Client>, spectator: bool) -> Seq<Client>
    decreases cs.len(),
{
    if cs.len() == 0 {
        Seq::empty()
    } else {
        let rest = with_spectator_flag(cs.drop_last(), spectator);
        if cs.last().is_spectator == spectator {
            rest.push(cs.last())
        } else {
            rest
        }
    }
}

fn text_or_default(s: Option<String>) -> (r: String)
    ensures
        r@ == text_or_empty(opt_string_view(s)),
{
    match s {
        Some(t) => t,
        None => String::new(),
    }
}

fn int_flag(v: Option<i32>) -> (r: bool)
    ensures
        r == flag_set(v),
{
    match v {
        Some(x) => x != 0,
        None => false,
    }
}

fn colour_of(v: Option<i32>) -> (r: u8)
    ensures
        r == colour_byte(v),
{
    match v {
        Some(x) => x as u8,
        None => 0,
    }
}

fn copy_client(c: &Client) -> (r: Client)
    ensures
        r.number == c.number,
        r.name@ == c.name@,
        r.team@ == c.team@,
        r.color == c.color,
        r.is_spectator == c.is_spectator,
        r.is_bot == c.is_bot,
{
    Client {
        number: c.number,
        name: c.name.clone(),
        team: c.team.clone(),
        color: c.color,
        is_spectator: c.is_spectator,
        is_bot: c.is_bot,
    }
}

/// Two clients agree on every field the roster reads.
pub open spec fn same_client(a: Client, b: Client) -> bool {
    a.number == b.number && a.name@ == b.name@ && a.team@ == b.team@ && a.color[0] == b.color[0]
        && a.color[1] == b.color[1] && a.is_spectator == b.is_spectator && a.is_bot == b.is_bot
}

/// Two rosters agree client by client.
pub open spec fn same_clients(a: Seq<Client>, b: Seq<Client>) -> bool {
    a.len() == b.len() && forall|i: int| 0 <= i < a.len() ==> same_client(#[trigger] a[i], b[i])
}

impl Client {
    /// The client with slot `number` described by an info string.
    pub fn from_info(s: &str, number: u8) -> (r: Client)
        ensures
            is_client_of(r, clientinfo_of(s@), number),
    {
        let (name, team, top, bottom, spectator, bot) = parse_clientinfo(s);
        Client {
            number,
            name: text_or_default(name),
            team: text_or_default(team),
            color: [colour_of(top), colour_of(bottom)],
            is_spectator: int_flag(spectator),
            is_bot: int_flag(bot),
        }
    }
}

/// The clients of the stream, numbered by the order of their info strings.
pub fn clients(data: &[u8]) -> (r: Result<Vec<Client>, Error>)
    ensures
        match r {
            Ok(cs) => is_roster(data@, cs@),
            Err(e) => spec_clientinfo_strings(data@) is None && e == Error::ClientinfoNotFound,
        },
{
    let strings = clientinfo_strings(data)?;
    let ghost infos = spec_clientinfo_strings(data@)->0;
    let n = strings.len();
    let mut result: Vec<Client> = Vec::new();
    let mut i: usize = 0;
    while i < n
        invariant
            n == strings@.len(),
            spec_clientinfo_strings(data@) == Some(infos),
            infos.len() == n,
            forall|j: int| 0 <= j < n ==> #[trigger] strings@[j]@ == latin1(infos[j]),
            i <= n,
            result@.len() == i,
            forall|j: int|
                0 <= j < i ==> is_client_of(#[trigger] result@[j], clientinfo_of(latin1(infos[j])), j as u8),
        decreases n - i,
    {
        let c = Client::from_info(strings[i].as_str(), i as u8);
        result.push(c);
        i = i + 1;
    }
    Ok(result)
}

/// The clients of `cs` with the given spectator flag, in order.
pub fn filter_spectator(cs: &Vec<Client>, spectator: bool) -> (r: Vec<Client>)
    ensures
        same_clients(r@, with_spectator_flag(cs@, spectator)),
{
    let n = cs.len();
    let mut result: Vec<Client> = Vec::new();
    let mut i: usize = 0;
    while i < n
        invariant
            n == cs@.len(),
            i <= n,
            same_clients(result@, with_spectator_flag(cs@.subrange(0, i as int), spectator)),
        decreases n - i,
    {
        assert(cs@.subrange(0, i + 1).drop_last() =~= cs@.subrange(0, i as int));
        if cs[i].is_spectator == spectator {
            let c = copy_client(&cs[i]);
            result.push(c);
        }
        i = i + 1;
    }
    assert(cs@.subrange(0, n as int) =~= cs@);
    result
}

/// The clients that play.
pub fn player_clients(data: &[u8]) -> (r: Result<Vec<Client>, Error>)
    ensures
        match r {
            Ok(ps) => exists|cs: Seq<Client>|
                is_roster(data@, cs) && same_clients(ps@, #[trigger] with_spectator_flag(cs, false)),
            Err(e) => spec_clientinfo_strings(data@) is None && e == Error::ClientinfoNotFound,
        },
{
    let cs = clients(data)?;
    Ok(filter_spectator(&cs, false))
}

/// The clients that watch.
pub fn spectator_clients(data: &[u8]) -> (r: Result<Vec<Client>, Error>)
    ensures
        match r {
            Ok(ps) => exists|cs: Seq<Client>|
                is_roster(data@, cs) && same_clients(ps@, #[trigger] with_spectator_flag(cs, true)),
            Err(e) => spec_clientinfo_strings(data@) is None && e == Error::ClientinfoNotFound,
        },
{
    let cs = clients(data)?;
    Ok(filter_spectator(&cs, true))
}

/// Whether any client of `cs` has the given bot flag.
pub fn any_with_bot_flag(cs: &Vec<Client>, bot: bool) -> (r: bool)
    ensures
        r == exists|i: int| 0 <= i < cs@.len() && #[trigger] cs@[i].is_bot == bot,
{
    let n = cs.len();
    let mut i: usize = 0;
    while i < n
        invariant
            n == cs@.len(),
            i <= n,
            forall|j: int| 0 <= j < i ==> #[trigger] cs@[j].is_bot != bot,
        decreases n - i,
    {
        if cs[i].is_bot == bot {
            return true;
        }
        i = i + 1;
    }
    false
}

/// Whether a bot plays.
pub fn has_bot_players(data: &[u8]) -> (r: Result<bool, Error>)
    ensures
        match r {
            Ok(b) => exists|cs: Seq<Client>|
                is_roster(data@, cs) && (b == exists|i: int|
                    0 <= i < with_spectator_flag(cs, false).len() && #[trigger] with_spectator_flag(
                        cs,
                        false,
                    )[i].is_bot),
            Err(e) => spec_clientinfo_strings(data@) is None && e == Error::ClientinfoNotFound,
        },
{
    let ps = player_clients(data)?;
    let b = any_with_bot_flag(&ps, true);
    proof {
        let cs = choose|cs: Seq<Client>|
            is_roster(data@, cs) && same_clients(ps@, #[trigger] with_spectator_flag(cs, false));
        let f = with_spectator_flag(cs, false);
        if b {
            let i = choose|i: int| 0 <= i < ps@.len() && #[trigger] ps@[i].is_bot == true;
            assert(same_client(ps@[i], f[i]));
            assert(0 <= i < f.len() && f[i].is_bot);
        } else {
            assert forall|i: int| 0 <= i < f.len() implies !(#[trigger] f[i].is_bot) by {
                assert(same_client(ps@[i], f[i]));
            }
        }
    }
    Ok(b)
}

/// Whether a human plays.
pub fn has_human_players(data: &[u8]) -> (r: Result<bool, Error>)
    ensures
        match r {
            Ok(b) => exists|cs: Seq<Client>|
                is_roster(data@, cs) && (b == exists|i: int|
                    0 <= i < with_spectator_flag(cs, false).len() && !#[trigger] with_spectator_flag(
                        cs,
                        false,
                    )[i].is_bot),
            Err(e) => spec_clientinfo_strings(data@) is None && e == Error::ClientinfoNotFound,
        },
{
    let ps = player_clients(data)?;
    let b = any_with_bot_flag(&ps, false);
    proof {
        let cs = choose|cs: Seq<Client>|
            is_roster(data@, cs) && same_clients(ps@, #[trigger] with_spectator_flag(cs, false));
        let f = with_spectator_flag(cs, false);
        if b {
            let i = choose|i: int| 0 <= i < ps@.len() && #[trigger] ps@[i].is_bot == false;
            assert(same_client(ps@[i], f[i]));
            assert(0 <= i < f.len() && !f[i].is_bot);
        } else {
            assert forall|i: int| 0 <= i < f.len() implies !(!#[trigger] f[i].is_bot) by {
                assert(same_client(ps@[i], f[i]));
            }
        }
    }
    Ok(b)
}

/// What `quake_text::unicode::sort` makes of a list of names.
pub uninterp spec fn unicode_sorted(values: Seq<Seq<char>>) -> Seq<Seq<char>>;

pub open spec fn names_view(v: Seq<String>) -> Seq<Seq<char>> {
    Seq::new(v.len(), |i: int| v[i]@)
}

/// Relies on `quake_text::unicode::sort`: the names sorted, without regard
/// to case or colour, by the game's text ordering; the result depends on the
/// names alone.
#[verifier::external_body]
fn sort_names(values: &Vec<String>) -> (r: Vec<String>)
    ensures
        names_view(r@) == unicode_sorted(names_view(values@)),
{
    quake_text::unicode::sort(values.as_slice())
}

/// Names of the clients of `cs`.
pub open spec fn client_names(cs: Seq<Client>) -> Seq<Seq<char>> {
    Seq::new(cs.len(), |i: int| cs[i].name@)
}

/// Teams of the clients of `cs`.
pub open spec fn client_teams(cs: Seq<Client>) -> Seq<Seq<char>> {
    Seq::new(cs.len(), |i: int| cs[i].team@)
}

fn names_of(cs: &Vec<Client>, teams: bool) -> (r: Vec<String>)
    ensures
        names_view(r@) == if teams {
            client_teams(cs@)
        } else {
            client_names(cs@)
        },
{
    let n = cs.len();
    let mut r: Vec<String> = Vec::new();
    let mut i: usize = 0;
    while i < n
        invariant
            n == cs@.len(),
            i <= n,
            names_view(r@) == if teams {
                client_teams(cs@.subrange(0, i as int))
            } else {
                client_names(cs@.subrange(0, i as int))
            },
        decreases n - i,
    {
        let ghost before = names_view(r@);
        if teams {
            r.push(cs[i].team.clone());
            assert(names_view(r@) =~= before.push(cs@[i as int].team@));
            assert(client_teams(cs@.subrange(0, i + 1)) =~= client_teams(cs@.subrange(0, i as int)).push(
                cs@[i as int].team@,
            ));
        } else {
            r.push(cs[i].name.clone());
            assert(names_view(r@) =~= before.push(cs@[i as int].name@));
            assert(client_names(cs@.subrange(0, i + 1)) =~= client_names(cs@.subrange(0, i as int)).push(
                cs@[i as int].name@,
            ));
        }
        i = i + 1;
    }
    assert(cs@.subrange(0, n as int) =~= cs@);
    r
}

proof fn lemma_same_names(a: Seq<Client>, b: Seq<Client>)
    requires
        same_clients(a, b),
    ensures
        client_names(a) == client_names(b),
        client_teams(a) == client_teams(b),
{
    assert forall|i: int| 0 <= i < a.len() implies client_names(a)[i] == client_names(b)[i]
        && client_teams(a)[i] == client_teams(b)[i] by {
        assert(same_client(a[i], b[i]));
    }
    assert(client_names(a) =~= client_names(b));
    assert(client_teams(a) =~= client_teams(b));
}

/// Names of the players, sorted.
pub fn player_names(data: &[u8]) -> (r: Result<Vec<String>, Error>)
    ensures
        match r {
            Ok(v) => exists|cs: Seq<Client>|
                is_roster(data@, cs) && names_view(v@) == unicode_sorted(
                    client_names(#[trigger] with_spectator_flag(cs, false)),
                ),
            Err(e) => spec_clientinfo_strings(data@) is None && e == Error::ClientinfoNotFound,
        },
{
    let ps = player_clients(data)?;
    let names = names_of(&ps, false);
    let sorted = sort_names(&names);
    proof {
        let cs = choose|cs: Seq<Client>|
            is_roster(data@, cs) && same_clients(ps@, #[trigger] with_spectator_flag(cs, false));
        lemma_same_names(ps@, with_spectator_flag(cs, false));
    }
    Ok(sorted)
}

/// Names of the spectators, sorted.
pub fn spectator_names(data: &[u8]) -> (r: Result<Vec<String>, Error>)
    ensures
        match r {
            Ok(v) => exists|cs: Seq<Client>|
                is_roster(data@, cs) && names_view(v@) == unicode_sorted(
                    client_names(#[trigger] with_spectator_flag(cs, true)),
                ),
            Err(e) => spec_clientinfo_strings(data@) is None && e == Error::ClientinfoNotFound,
        },
{
    let ps = spectator_clients(data)?;
    let names = names_of(&ps, false);
    let sorted = sort_names(&names);
    proof {
        let cs = choose|cs: Seq<Client>|
            is_roster(data@, cs) && same_clients(ps@, #[trigger] with_spectator_flag(cs, true));
        lemma_same_names(ps@, with_spectator_flag(cs, true));
    }
    Ok(sorted)
}

/// `s` with each run of equal neighbours cut to one.
pub open spec fn dedup_names(s: Seq<Seq<char>>) -> Seq<Seq<char>>
    decreases s.len(),
{
    if s.len() == 0 {
        s
    } else {
        let d = dedup_names(s.drop_last());
        if d.len() > 0 && d.last() == s.last() {
            d
        } else {
            d.push(s.last())
        }
    }
}

proof fn lemma_dedup_names_last(s: Seq<Seq<char>>)
    ensures
        s.len() > 0 ==> dedup_names(s).len() > 0 && dedup_names(s).last() == s.last(),
    decreases s.len(),
{
    if s.len() > 0 {
        lemma_dedup_names_last(s.drop_last());
    }
}

/// Names of the players' teams, sorted, each once.
pub fn team_names(data: &[u8]) -> (r: Result<Vec<String>, Error>)
    ensures
        match r {
            Ok(v) => exists|cs: Seq<Client>|
                is_roster(data@, cs) && names_view(v@) == dedup_names(
                    unicode_sorted(client_teams(#[trigger] with_spectator_flag(cs, false))),
                ),
            Err(e) => spec_clientinfo_strings(data@) is None && e == Error::ClientinfoNotFound,
        },
{
    let ps = player_clients(data)?;
    let teams = names_of(&ps, true);
    let sorted = sort_names(&teams);
    let ghost sv = names_view(sorted@);
    let n = sorted.len();
    let mut out: Vec<String> = Vec::new();
    let mut i: usize = 0;
    while i < n
        invariant
            n == sorted@.len(),
            sv == names_view(sorted@),
            i <= n,
            names_view(out@) == dedup_names(sv.subrange(0, i as int)),
        decreases n - i,
    {
        assert(sv.subrange(0, i + 1).drop_last() =~= sv.subrange(0, i as int));
        proof {
            lemma_dedup_names_last(sv.subrange(0, i as int));
        }
        let m = out.len();
        let dup = m > 0 && out[m - 1] == sorted[i];
        assert(m > 0 ==> names_view(out@).last() == out@[m - 1]@);
        if !dup {
            let ghost before = names_view(out@);
            out.push(sorted[i].clone());
            assert(names_view(out@) =~= before.push(sv[i as int]));
        }
        i = i + 1;
    }
    assert(sv.subrange(0, n as int) =~= sv);
    proof {
        let cs = choose|cs: Seq<Client>|
            is_roster(data@, cs) && same_clients(ps@, #[trigger] with_spectator_flag(cs, false));
        lemma_same_names(ps@, with_spectator_flag(cs, false));
    }
    Ok(out)
}

} // verus!
