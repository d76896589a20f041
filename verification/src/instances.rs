//! The channel instances configured from the dashboard: several instances
//! per channel type, identified by ID, the first enabled one of a type
//! being the active one.

use vstd::prelude::*;
use vstd::string::*;
use crate::json::{items_of, str_of, JsonValue};
use crate::text::{decimal, str_eq};

verus! {

/// A configured channel instance.
#[derive(Debug, Clone)]
pub struct ChannelInstance {
    pub id: String,
    pub name: String,
    pub channel_type: String,
    pub enabled: bool,
    pub agent_name: String,
    /// The instance's settings, as JSON text.
    pub config: String,
    /// RFC 3339 time of the last change.
    pub updated_at: String,
}

/// An instance as submitted: its ID is empty for a new one.
#[derive(Debug, Clone)]
pub struct InstanceRequest {
    pub id: String,
    pub name: String,
    pub channel_type: String,
    pub enabled: bool,
    pub agent_name: String,
    pub config: String,
}

/// The ID given to a new instance: its type, "_" and the time in
/// milliseconds.
pub open spec fn new_instance_id(channel_type: Seq<char>, now_millis: u64) -> Seq<char> {
    channel_type + "_"@ + decimal(now_millis as nat)
}

/// The ID an instance is saved under.
pub open spec fn instance_id_of(req: InstanceRequest, now_millis: u64) -> Seq<char> {
    if req.id@.len() == 0 { new_instance_id(req.channel_type@, now_millis) } else { req.id@ }
}

/// The IDs of the instances.
pub open spec fn instance_ids(v: Seq<ChannelInstance>) -> Seq<Seq<char>> {
    v.map_values(|i: ChannelInstance| i.id@)
}

/// The saved instance matches the request under the given ID and time.
pub open spec fn saved_as(i: ChannelInstance, req: InstanceRequest, id: Seq<char>, updated_at: Seq<char>) -> bool {
    &&& i.id@ == id
    &&& i.name@ == req.name@
    &&& i.channel_type@ == req.channel_type@
    &&& i.enabled == req.enabled
    &&& i.agent_name@ == req.agent_name@
    &&& i.config@ == req.config@
    &&& i.updated_at@ == updated_at
}

fn find_id(v: &Vec<ChannelInstance>, id: &str) -> (r: Option<usize>)
    ensures
        match r {
            Some(k) => k < v@.len() && v@[k as int].id@ == id@
                && forall|j: int| 0 <= j < k ==> v@[j].id@ != id@,
            None => forall|j: int| 0 <= j < v@.len() ==> v@[j].id@ != id@,
        },
{
    let mut k: usize = 0;
    while k < v.len()
        invariant
            k <= v.len(),
            forall|j: int| 0 <= j < k ==> v@[j].id@ != id@,
        decreases v.len() - k,
    {
        if str_eq(v[k].id.as_str(), id) {
            return Some(k);
        }
        k = k + 1;
    }
    None
}

/// Saves a submitted instance at time `now_millis` (`now_rfc3339` being the
/// same time as text): a name and a type are required; an instance with
/// the same ID is replaced in place, a new one is added at the end; the
/// saved ID is returned.
pub fn save_instance(instances: &mut Vec<ChannelInstance>, req: &InstanceRequest, now_millis: u64, now_rfc3339: &str) -> (r: Result<String, String>)
    ensures
        (req.name@.len() == 0 || req.channel_type@.len() == 0) ==> (*final(instances) == *old(instances)
            && (r matches Err(e) && e@ == "name and channel_type required"@)),
        req.name@.len() > 0 && req.channel_type@.len() > 0 ==> (r matches Ok(id) && id@ == instance_id_of(*req, now_millis)
            && ((exists|k: int| 0 <= k < old(instances)@.len() && old(instances)@[k].id@ == id@
                && (forall|j: int| 0 <= j < k ==> old(instances)@[j].id@ != id@)
                && final(instances)@.len() == old(instances)@.len()
                && final(instances)@ == old(instances)@.update(k, final(instances)@[k])
                && saved_as(final(instances)@[k], *req, id@, now_rfc3339@))
            || ((forall|j: int| 0 <= j < old(instances)@.len() ==> old(instances)@[j].id@ != id@)
                && final(instances)@.len() == old(instances)@.len() + 1
                && final(instances)@.drop_last() == old(instances)@
                && saved_as(final(instances)@.last(), *req, id@, now_rfc3339@)))),
{
    if req.name.as_str().is_empty() || req.channel_type.as_str().is_empty() {
        return Err(String::from_str("name and channel_type required"));
    }
    let id = if req.id.as_str().is_empty() {
        let mut s = String::from_str(req.channel_type.as_str());
        s.append("_");
        let n = crate::text::u64_to_string(now_millis);
        s.append(n.as_str());
        s
    } else {
        String::from_str(req.id.as_str())
    };
    let inst = ChannelInstance {
        id: String::from_str(id.as_str()),
        name: String::from_str(req.name.as_str()),
        channel_type: String::from_str(req.channel_type.as_str()),
        enabled: req.enabled,
        agent_name: String::from_str(req.agent_name.as_str()),
        config: String::from_str(req.config.as_str()),
        updated_at: String::from_str(now_rfc3339),
    };
    match find_id(instances, id.as_str()) {
        Some(k) => {
            instances.set(k, inst);
            assert(instances@ =~= old(instances)@.update(k as int, instances@[k as int]));
            assert(saved_as(instances@[k as int], *req, id@, now_rfc3339@));
            assert(old(instances)@[k as int].id@ == id@);
        },
        None => {
            instances.push(inst);
            assert(instances@.drop_last() =~= old(instances)@);
        },
    }
    Ok(id)
}

/// The active instance of a type: the first enabled one.
pub fn primary_instance<'a>(instances: &'a Vec<ChannelInstance>, channel_type: &str) -> (r: Option<&'a ChannelInstance>)
    ensures
        match r {
            Some(i) => exists|k: int| 0 <= k < instances@.len() && instances@[k] == *i
                && i.enabled && i.channel_type@ == channel_type@
                && forall|j: int| 0 <= j < k ==> !(instances@[j].enabled && instances@[j].channel_type@ == channel_type@),
            None => forall|j: int| 0 <= j < instances@.len() ==> !(instances@[j].enabled && instances@[j].channel_type@ == channel_type@),
        },
{
    let mut k: usize = 0;
    while k < instances.len()
        invariant
            k <= instances.len(),
            forall|j: int| 0 <= j < k ==> !(instances@[j].enabled && instances@[j].channel_type@ == channel_type@),
        decreases instances.len() - k,
    {
        if instances[k].enabled && str_eq(instances[k].channel_type.as_str(), channel_type) {
            return Some(&instances[k]);
        }
        k = k + 1;
    }
    None
}

/// Some instance is a Telegram one.
pub fn has_telegram_instance(instances: &[ChannelInstance]) -> (r: bool)
    ensures
        r == exists|i: int| 0 <= i < instances@.len() && (#[trigger] instances@[i]).channel_type@ == "telegram"@,
{
    let mut i: usize = 0;
    while i < instances.len()
        invariant
            i <= instances.len(),
            forall|j: int| 0 <= j < i ==> (#[trigger] instances@[j]).channel_type@ != "telegram"@,
        decreases instances.len() - i,
    {
        if str_eq(instances[i].channel_type.as_str(), "telegram") {
            return true;
        }
        i = i + 1;
    }
    false
}

/// Whether an instance is polled at start-up: an enabled Telegram instance
/// bound to an agent, with a bot token in its settings.
pub fn polls_telegram(inst: &ChannelInstance, bot_token: &str) -> (r: bool)
    ensures
        r == (inst.enabled && inst.channel_type@ == "telegram"@ && inst.agent_name@.len() > 0
            && bot_token@.len() > 0),
{
    inst.enabled && str_eq(inst.channel_type.as_str(), "telegram") && !inst.agent_name.as_str().is_empty()
        && !bot_token.is_empty()
}

/// A bindings member lists "telegram" among its channels.
pub open spec fn binds_telegram(channels: JsonValue) -> bool {
    exists|i: int| 0 <= i < items_of(channels).len() && str_of(#[trigger] items_of(channels)[i]) == Some("telegram"@)
}

/// The position of the first bindings member that lists "telegram".
pub open spec fn first_telegram(ms: Seq<(String, JsonValue)>) -> int {
    choose|i: int| 0 <= i < ms.len() && binds_telegram(ms[i].1)
        && forall|j: int| 0 <= j < i ==> !binds_telegram(#[trigger] ms[j].1)
}

/// The members of a bindings object; none for any other value.
pub open spec fn members_of(bindings: JsonValue) -> Seq<(String, JsonValue)> {
    match bindings {
        JsonValue::Object(ms) => ms@,
        _ => Seq::empty(),
    }
}

/// Some member lists "telegram".
pub open spec fn any_telegram(ms: Seq<(String, JsonValue)>) -> bool {
    exists|i: int| 0 <= i < ms.len() && binds_telegram(#[trigger] ms[i].1)
}

/// The agent the configured Telegram bot is bound to: the first agent of
/// the bindings whose channels include "telegram", else the first agent
/// there is, else none.
pub open spec fn telegram_target_of(ms: Seq<(String, JsonValue)>, agents: Seq<Seq<char>>) -> Option<Seq<char>> {
    if any_telegram(ms) {
        Some(ms[first_telegram(ms)].0@)
    } else if agents.len() > 0 {
        Some(agents[0])
    } else {
        None
    }
}

fn lists_telegram(channels: &JsonValue) -> (r: bool)
    ensures
        r == binds_telegram(*channels),
{
    match channels {
        JsonValue::Array(a) => {
            let mut i: usize = 0;
            while i < a.len()
                invariant
                    i <= a.len(),
                    items_of(*channels) == a@,
                    forall|j: int| 0 <= j < i ==> str_of(#[trigger] a@[j]) != Some("telegram"@),
                decreases a.len() - i,
            {
                match &a[i] {
                    JsonValue::Str(t) => {
                        if str_eq(t.as_str(), "telegram") {
                            assert(str_of(items_of(*channels)[i as int]) == Some("telegram"@));
                            return true;
                        }
                    },
                    _ => {},
                }
                i = i + 1;
            }
            false
        },
        _ => false,
    }
}

/// The agent the configured Telegram bot is bound to.
pub fn telegram_target(bindings: &JsonValue, agents: &[String]) -> (r: Option<String>)
    ensures
        (match r { Some(a) => Some(a@), None => None }) == telegram_target_of(members_of(*bindings), agents@.map_values(|a: String| a@)),
{
    match bindings {
        JsonValue::Object(ms) => {
            let mut i: usize = 0;
            while i < ms.len()
                invariant
                    i <= ms.len(),
                    *bindings == JsonValue::Object(*ms),
                    forall|j: int| 0 <= j < i ==> !binds_telegram(#[trigger] ms@[j].1),
                decreases ms.len() - i,
            {
                if lists_telegram(&ms[i].1) {
                    proof {
                        assert(0 <= i < ms@.len() && binds_telegram(ms@[i as int].1)
                            && forall|j: int| 0 <= j < i ==> !binds_telegram(#[trigger] ms@[j].1));
                        let c = first_telegram(ms@);
                        if c < i {
                            assert(!binds_telegram(ms@[c].1));
                        }
                        if c > i {
                            assert(!binds_telegram(ms@[i as int].1));
                        }
                        assert(any_telegram(ms@));
                        assert(members_of(*bindings) == ms@);
                    }
                    return Some(ms[i].0.clone());
                }
                i = i + 1;
            }
        },
        _ => {},
    }
    if agents.len() > 0 {
        Some(agents[0].clone())
    } else {
        None
    }
}

} // verus!
