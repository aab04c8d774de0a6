//! Switching to a session and killing one, over all providers.

use vstd::prelude::*;

use crate::context::{context_in, parse_context_client};
use crate::sessions::{
    every_session_has_one_owner, listing_views, neighbour_is_another_session, owns,
    provider_for_session, shown_neighbour, switch_before_kill, visible_at_index, MuxSessionInfo,
    MuxSessionView,
};
use crate::state_source::{ReadOnlyMuxStateSource, SourceView};
use crate::text_map::{own_text, str_of, text_of, texts};

verus! {

/// A switch that a provider is to make.
#[derive(Debug, PartialEq, Eq)]
pub struct SwitchPlan {
    /// The position of the provider.
    pub provider: usize,
    pub name: String,
    pub client_tty: Option<String>,
}

/// Whether a plan switches a client to a session by the provider that owns it.
pub open spec fn switches_to(
    plan: SwitchPlan,
    listings: Seq<Seq<MuxSessionView>>,
    name: Seq<char>,
    client_tty: Option<Seq<char>>,
) -> bool {
    &&& owns(listings, name, plan.provider as int)
    &&& plan.name@ == name
    &&& text_of(plan.client_tty) == client_tty
}

/// Plans the switch of a client to a session.
pub fn plan_switch(
    listings: &Vec<Vec<MuxSessionInfo>>,
    name: &str,
    client_tty: Option<&str>,
) -> (plan: Option<SwitchPlan>)
    ensures
        match plan {
            Some(plan) => switches_to(plan, listing_views(listings@), name@, str_of(client_tty)),
            None => listings@.len() == 0,
        },
{
    match provider_for_session(listings, name) {
        Some(provider) => Some(
            SwitchPlan { provider, name: name.to_string(), client_tty: own_text(client_tty) },
        ),
        None => None,
    }
}

/// Plans the switch of a client to the session at a place of the list that is
/// shown, counted from 1. A place that the list does not have is none.
pub fn switch_visible_index(
    index: u32,
    client_tty: Option<&str>,
    names: &Vec<String>,
    listings: &Vec<Vec<MuxSessionInfo>>,
) -> (plan: Option<SwitchPlan>)
    ensures
        match plan {
            Some(plan) => 1 <= index <= names@.len() && switches_to(
                plan,
                listing_views(listings@),
                names@[index - 1]@,
                str_of(client_tty),
            ),
            None => !(1 <= index <= names@.len()) || listings@.len() == 0,
        },
{
    match visible_at_index(names, index) {
        Some(name) => plan_switch(listings, name.as_str(), client_tty),
        None => None,
    }
}

/// Plans the switch to a place of the list that is shown, for the client that
/// a report names.
pub fn handle_switch_index(
    index: u32,
    body: &str,
    names: &Vec<String>,
    listings: &Vec<Vec<MuxSessionInfo>>,
) -> (plan: Option<SwitchPlan>)
    ensures
        match plan {
            Some(plan) => 1 <= index <= names@.len() && switches_to(
                plan,
                listing_views(listings@),
                names@[index - 1]@,
                match context_in(body@) {
                    Some(context) => context.client_tty,
                    None => None,
                },
            ),
            None => !(1 <= index <= names@.len()) || listings@.len() == 0,
        },
{
    let client = parse_context_client(body);
    let client_tty = match &client {
        Some(tty) => Some(tty.as_str()),
        None => None,
    };
    switch_visible_index(index, client_tty, names, listings)
}

/// What is to be done so that a session ends.
#[derive(Debug, PartialEq, Eq)]
pub struct KillPlan {
    /// The switch away from it that comes first, where it is the current one.
    pub switch: Option<SwitchPlan>,
    /// The position of the provider that kills it.
    pub provider: usize,
}

/// The session that is switched to before a session is killed.
pub open spec fn refuge(
    name: Seq<char>,
    current: Option<Seq<char>>,
    names: Option<Seq<Seq<char>>>,
) -> Option<Seq<char>> {
    match (current, names) {
        (Some(current), Some(names)) => if current == name {
            shown_neighbour(names, name)
        } else {
            None
        },
        _ => None,
    }
}

impl ReadOnlyMuxStateSource {
    /// Plans the end of a session. `current` is the session that is in front
    /// at the provider that owns it, and `names` is the list that is shown.
    /// Where the session is in front, the one beside it in the list comes to
    /// the front and gets the focus.
    pub fn plan_kill(
        &mut self,
        name: &str,
        current: Option<&str>,
        names: Option<&Vec<String>>,
        listings: &Vec<Vec<MuxSessionInfo>>,
    ) -> (plan: Option<KillPlan>)
        ensures
            match plan {
                Some(plan) => {
                    let next = refuge(
                        name@,
                        str_of(current),
                        match names {
                            Some(names) => Some(texts(names@)),
                            None => None,
                        },
                    );
                    &&& owns(listing_views(listings@), name@, plan.provider as int)
                    &&& match plan.switch {
                        Some(switch) => next is Some && switches_to(
                            switch,
                            listing_views(listings@),
                            next->Some_0,
                            None,
                        ) && final(self)@ == (SourceView { focused_session: next, ..old(self)@ }),
                        None => next is None && final(self)@ == old(self)@,
                    }
                },
                None => listings@.len() == 0 && final(self)@ == old(self)@,
            },
    {
        let provider = match provider_for_session(listings, name) {
            Some(provider) => provider,
            None => {
                return None;
            },
        };
        let switch = match switch_before_kill(name, current, names) {
            Some(next) => match plan_switch(listings, next.as_str(), None) {
                Some(switch) => {
                    self.focus_session(next.as_str());
                    Some(switch)
                },
                None => None,
            },
            None => None,
        };
        Some(KillPlan { switch, provider })
    }
}

// ---------------------------------------------------------------------------
// Laws.
// ---------------------------------------------------------------------------

/// A session that is killed is never the one that is switched to, and only a
/// session in front is switched away from.
pub proof fn killed_sessions_are_left(
    name: Seq<char>,
    current: Option<Seq<char>>,
    names: Seq<Seq<char>>,
)
    requires
        names.no_duplicates(),
    ensures
        refuge(name, current, Some(names)) matches Some(next) ==> next != name && names.contains(
            next,
        ) && current == Some(name),
        current == Some(name) && names.contains(name) && names.len() > 1 ==> refuge(
            name,
            current,
            Some(names),
        ) is Some,
{
    neighbour_is_another_session(names, name);
}

/// Two plans for the same switch are made by the same provider.
pub proof fn switches_are_made_by_one_provider(
    one: SwitchPlan,
    other: SwitchPlan,
    listings: Seq<Seq<MuxSessionView>>,
    name: Seq<char>,
    client_tty: Option<Seq<char>>,
)
    requires
        switches_to(one, listings, name, client_tty),
        switches_to(other, listings, name, client_tty),
    ensures
        one.provider == other.provider,
{
    every_session_has_one_owner(
        listings,
        name,
        one.provider as int,
        other.provider as int,
    );
}

/// Only a session in front is switched away from, and the session beside it
/// in the list that is shown comes to the front.
pub proof fn sessions_in_front_have_a_refuge(
    name: Seq<char>,
    current: Option<Seq<char>>,
    names: Seq<Seq<char>>,
)
    ensures
        current == Some(name) ==> refuge(name, current, Some(names)) == shown_neighbour(names, name),
        current != Some(name) ==> refuge(name, current, Some(names)) is None,
        refuge(name, current, None) is None,
{
}

/// A plan for a switch names the session and the client as they were asked for,
/// and the provider that owns the session.
pub proof fn plans_hold_what_was_asked_for(
    plan: SwitchPlan,
    listings: Seq<Seq<MuxSessionView>>,
    name: Seq<char>,
    client_tty: Option<Seq<char>>,
)
    ensures
        switches_to(plan, listings, name, client_tty) ==> plan.name@ == name && text_of(
            plan.client_tty,
        ) == client_tty && owns(listings, name, plan.provider as int),
        plan.name@ == name && text_of(plan.client_tty) == client_tty && owns(
            listings,
            name,
            plan.provider as int,
        ) ==> switches_to(plan, listings, name, client_tty),
{
}

} // verus!
