//! Choosing the agent that acts as a swarm's queen.

use vstd::prelude::*;

use crate::strmap;
use crate::strmap::StrMap;
use crate::text;
use crate::text::text_eq;

verus! {

/// A configured agent.
#[derive(Debug, PartialEq, Eq)]
pub struct AgentEntry {
    pub alias: String,
    pub enabled: bool,
}

/// A configured agent as plain values.
#[verifier::ext_equal]
pub struct AgentView {
    pub alias: Seq<char>,
    pub enabled: bool,
}

impl View for AgentEntry {
    type V = AgentView;

    open spec fn view(&self) -> AgentView {
        AgentView { alias: self.alias@, enabled: self.enabled }
    }
}

/// Which agent is the queen.
#[derive(Debug, PartialEq, Eq)]
pub enum QueenChoice {
    /// This one.
    Chosen(String),
    /// The user is to pick one of these, in order.
    Ask(Vec<String>),
}

/// There is a configured agent under that alias.
pub open spec fn configured(agents: Seq<AgentView>, alias: Seq<char>) -> bool {
    exists|i: int| 0 <= i < agents.len() && (#[trigger] agents[i]).alias == alias
}

/// There is an enabled agent under that alias.
pub open spec fn usable(agents: Seq<AgentView>, alias: Seq<char>) -> bool {
    exists|i: int|
        0 <= i < agents.len() && (#[trigger] agents[i]).alias == alias && agents[i].enabled
}

/// The aliases of the enabled agents, in dictionary order.
pub open spec fn is_roll(agents: Seq<AgentView>, roll: Seq<Seq<char>>) -> bool {
    &&& strmap::ascending(roll)
    &&& forall|alias: Seq<char>| #[trigger] roll.contains(alias) <==> usable(agents, alias)
}

/// What is said of a queen that is not configured.
pub open spec fn missing_queen(alias: Seq<char>) -> Seq<char> {
    "queen agent `"@ + alias + "` is not configured (no [agents."@ + alias
        + "] entry). Run `zeroclaw quickstart` to create it, then `zeroclaw swarm --queen "@
        + alias + "`."@
}

/// What is said where no agent can be the queen.
pub open spec fn no_queen() -> Seq<char> {
    "no agents configured to act as the queen. Run `zeroclaw quickstart` to create one, then re-run `zeroclaw swarm`."@
}

fn roll_of(agents: &Vec<AgentEntry>) -> (r: Vec<String>)
    ensures
        is_roll(text::views(agents@), text::views(r@)),
{
    let ghost all = text::views(agents@);
    let mut seen: StrMap<String> = StrMap::new();
    let mut i: usize = 0;
    while i < agents.len()
        invariant
            i <= agents.len(),
            all == text::views(agents@),
            forall|alias: Seq<char>| #[trigger]
                seen@.contains_key(alias) <==> usable(all.take(i as int), alias),
        decreases agents.len() - i,
    {
        let ghost before = all.take(i as int);
        let ghost after = all.take(i + 1);
        let ghost earlier = seen@;
        assert(all[i as int] == agents@[i as int]@);
        if agents[i].enabled {
            seen.insert(agents[i].alias.clone(), agents[i].alias.clone());
        }
        assert forall|alias: Seq<char>| #[trigger]
            seen@.contains_key(alias) <==> usable(after, alias) by {
            if usable(before, alias) {
                let k = choose|k: int|
                    0 <= k < before.len() && (#[trigger] before[k]).alias == alias
                        && before[k].enabled;
                assert(after[k] == before[k]);
            }
            if usable(after, alias) {
                let k = choose|k: int|
                    0 <= k < after.len() && (#[trigger] after[k]).alias == alias
                        && after[k].enabled;
                if k < i {
                    assert(before[k] == after[k]);
                }
            }
            assert(after[i as int] == all[i as int]);
            assert(earlier.contains_key(alias) <==> usable(before, alias));
        }
        i += 1;
    }
    assert(all.take(i as int) =~= all);
    let mut out: Vec<String> = Vec::new();
    let n: usize = seen.len();
    let ghost keys = seen.keys();
    let mut k: usize = 0;
    while k < n
        invariant
            k <= n,
            n == keys.len(),
            keys == seen.keys(),
            out.len() == k,
            forall|j: int| 0 <= j < k ==> (#[trigger] out@[j])@ == keys[j],
        decreases n - k,
    {
        out.push(seen.key_at(k).to_owned());
        k += 1;
    }
    assert(text::views(out@) =~= keys);
    proof {
        assert forall|alias: Seq<char>| #[trigger]
            keys.contains(alias) <==> usable(all, alias) by {
            assert(seen@.contains_key(alias) <==> usable(all, alias));
            if keys.contains(alias) {
                let j = choose|j: int| 0 <= j < keys.len() && keys[j] == alias;
                assert(seen@.contains_key(seen.keys()[j]));
            }
            if seen@.contains_key(alias) {
                assert(seen@.dom().contains(alias));
            }
        }
    }
    out
}

/// Decide which configured agent acts as the queen: the one that was asked for, which
/// must exist; else the only enabled one; else the user picks. Never creates one.
pub fn resolve_queen(agents: &Vec<AgentEntry>, queen: Option<String>) -> (r: Result<
    QueenChoice,
    String,
>)
    ensures
        match queen {
            Some(alias) => if configured(text::views(agents@), alias@) {
                r matches Ok(QueenChoice::Chosen(a)) && a@ == alias@
            } else {
                r matches Err(e) && e@ == missing_queen(alias@)
            },
            None => exists|roll: Seq<Seq<char>>|
                #[trigger] is_roll(text::views(agents@), roll) && match r {
                    Ok(QueenChoice::Chosen(a)) => roll == seq![a@],
                    Ok(QueenChoice::Ask(choices)) => roll.len() > 1 && text::views(choices@) == roll,
                    Err(e) => roll.len() == 0 && e@ == no_queen(),
                },
        },
{
    if let Some(alias) = queen {
        let ghost all = text::views(agents@);
        let mut i: usize = 0;
        while i < agents.len()
            invariant
                i <= agents.len(),
                all == text::views(agents@),
                queen == Some(alias),
                forall|j: int| 0 <= j < i ==> (#[trigger] all[j]).alias != alias@,
            decreases agents.len() - i,
        {
            assert(all[i as int] == agents@[i as int]@);
            if text_eq(agents[i].alias.as_str(), alias.as_str()) {
                return Ok(QueenChoice::Chosen(alias));
            }
            i += 1;
        }
        let mut message = "queen agent `".to_owned();
        message.append(alias.as_str());
        message.append("` is not configured (no [agents.");
        message.append(alias.as_str());
        message.append(
            "] entry). Run `zeroclaw quickstart` to create it, then `zeroclaw swarm --queen ",
        );
        message.append(alias.as_str());
        message.append("`.");
        return Err(message);
    }
    let mut roll = roll_of(agents);
    let ghost all = text::views(roll@);
    assert(is_roll(text::views(agents@), all));
    if roll.len() == 0 {
        return Err(
            "no agents configured to act as the queen. Run `zeroclaw quickstart` to create one, then re-run `zeroclaw swarm`.".to_owned(),
        );
    }
    if roll.len() == 1 {
        let only = roll.remove(0);
        assert(all =~= seq![only@]);
        return Ok(QueenChoice::Chosen(only));
    }
    Ok(QueenChoice::Ask(roll))
}

/// What the banner says of the queen.
pub open spec fn banner(alias: Seq<char>, model: Option<Seq<char>>, risk: Option<Seq<char>>) -> Seq<
    Seq<char>,
> {
    seq![
        "🐝 zeroclaw swarm (experimental — MVP-0)"@,
        "   queen : "@ + alias,
        "   model : "@ + match model {
            Some(m) => m,
            None => "<default model>"@,
        },
        "   risk  : "@ + match risk {
            Some(x) => x,
            None => "<no risk_profile>"@,
        },
        "   workers: none yet — this is a queen-only chat."@,
        "   Type your goal for the queen, or Ctrl-C to exit."@,
        ""@,
    ]
}

/// The lines that announce which agent drives the swarm.
pub fn banner_lines(alias: &str, model: &Option<String>, risk: &Option<String>) -> (r: Vec<String>)
    ensures
        text::views(r@) == banner(
            alias@,
            crate::duplicate::opt_view(*model),
            crate::duplicate::opt_view(*risk),
        ),
{
    let mut out: Vec<String> = Vec::new();
    out.push("🐝 zeroclaw swarm (experimental — MVP-0)".to_owned());
    out.push("   queen : ".to_owned().concat(alias));
    out.push(
        "   model : ".to_owned().concat(
            match model {
                Some(m) => m.as_str(),
                None => "<default model>",
            },
        ),
    );
    out.push(
        "   risk  : ".to_owned().concat(
            match risk {
                Some(x) => x.as_str(),
                None => "<no risk_profile>",
            },
        ),
    );
    out.push("   workers: none yet — this is a queen-only chat.".to_owned());
    out.push("   Type your goal for the queen, or Ctrl-C to exit.".to_owned());
    out.push("".to_owned());
    assert(text::views(out@) =~= banner(
        alias@,
        crate::duplicate::opt_view(*model),
        crate::duplicate::opt_view(*risk),
    ));
    out
}

// ── Laws ────────────────────────────────────────────────────────────

/// The roll names every agent that is enabled and no other, each once, in dictionary
/// order; and there is only one such roll.
pub proof fn the_roll_is_of_enabled_agents(
    agents: Seq<AgentView>,
    roll: Seq<Seq<char>>,
    other: Seq<Seq<char>>,
    alias: Seq<char>,
    i: int,
    j: int,
)
    requires
        is_roll(agents, roll),
        is_roll(agents, other),
        0 <= i < j < roll.len(),
    ensures
        roll.contains(alias) <==> exists|k: int|
            0 <= k < agents.len() && (#[trigger] agents[k]).alias == alias && agents[k].enabled,
        text::text_lt(roll[i], roll[j]),
        roll[i] != roll[j],
        roll == other,
{
    text::text_lt_irreflexive(roll[i]);
    assert forall|a: Seq<char>| #[trigger] roll.contains(a) <==> other.contains(a) by {
        assert(roll.contains(a) <==> usable(agents, a));
        assert(other.contains(a) <==> usable(agents, a));
    }
    assert forall|a: Seq<char>| roll.to_set().contains(a) <==> other.to_set().contains(a) by {
        assert(roll.contains(a) <==> other.contains(a));
    }
    assert(roll.to_set() =~= other.to_set());
    strmap::ascending_unique(roll, other);
}

/// An agent can be asked for by name exactly where one is configured under that name,
/// enabled or not; an enabled one always can.
pub proof fn any_configured_agent_can_be_named(agents: Seq<AgentView>, alias: Seq<char>, k: int)
    requires
        0 <= k < agents.len(),
    ensures
        agents[k].alias == alias ==> configured(agents, alias),
        (forall|i: int| 0 <= i < agents.len() ==> (#[trigger] agents[i]).alias != alias)
            ==> !configured(agents, alias),
        usable(agents, alias) ==> configured(agents, alias),
{
}

/// The banner names the queen, and the model and the risk profile where they are set.
pub proof fn the_banner_names_the_queen(
    alias: Seq<char>,
    model: Option<Seq<char>>,
    risk: Option<Seq<char>>,
)
    ensures
        banner(alias, model, risk).len() == 7,
        banner(alias, model, risk)[1] == "   queen : "@ + alias,
        model matches Some(m) ==> banner(alias, model, risk)[2] == "   model : "@ + m,
        risk matches Some(x) ==> banner(alias, model, risk)[3] == "   risk  : "@ + x,
{
}

/// What is said of a queen that is not configured names it.
pub proof fn a_missing_queen_is_named(alias: Seq<char>)
    ensures
        text::stands_in("queen agent `"@ + alias + "`"@, missing_queen(alias)),
{
    reveal_strlit("`");
    reveal_strlit("` is not configured (no [agents.");
    let message = missing_queen(alias);
    let part = "queen agent `"@ + alias + "`"@;
    let rest = message.skip(part.len() as int);
    assert("` is not configured (no [agents."@.take(1) =~= "`"@);
    assert(Seq::<char>::empty() + part + rest =~= message);
    text::stands_between(Seq::empty(), part, rest);
}

} // verus!
