//! When sidebars are shown, hidden and brought to their width.

use vstd::prelude::*;

use crate::commands::client_of;
use crate::context::{
    context_in, parse_context_session, ClientConnectionContext, ClientView, HttpContext,
    HttpContextView,
};
use crate::sessions::{session_beside, shown_neighbour};
use crate::state_source::text_values;
use crate::text::same_text;
use crate::text_map::{copy_text, str_of, texts, TextMap};

verus! {

/// How long a sidebar is said to warm up, in milliseconds.
pub const SIDEBAR_WARMUP_MS: u64 = 1_200;

/// A pane in which a sidebar runs.
#[derive(Debug, PartialEq, Eq)]
pub struct SidebarPane {
    pub pane_id: String,
    pub session_name: String,
    pub window_id: String,
    pub width: Option<u16>,
}

/// The sidebars of a provider.
#[derive(Debug)]
pub struct ProviderSidebars {
    /// Whether the provider has sidebars at all.
    pub capable: bool,
    pub panes: Vec<SidebarPane>,
}

/// The time until which a sidebar warms up that is started now, as far as it
/// can be told.
pub open spec fn warm_until(now: u64) -> int {
    if now + SIDEBAR_WARMUP_MS <= u64::MAX {
        now + SIDEBAR_WARMUP_MS
    } else {
        u64::MAX as int
    }
}

/// The width of a sidebar, or the largest that the commands of tmux take.
pub open spec fn short_width(width: u32) -> int {
    if width <= u16::MAX {
        width as int
    } else {
        u16::MAX as int
    }
}

/// The time until which a sidebar warms up that is started now.
pub fn warmup_until(now: u64) -> (until: u64)
    ensures
        until == warm_until(now),
{
    now.saturating_add(SIDEBAR_WARMUP_MS)
}

/// The width of a sidebar as the commands of tmux take it.
pub fn sidebar_width_u16(width: u32) -> (short: u16)
    ensures
        short == short_width(width),
{
    if width <= u16::MAX as u32 {
        width as u16
    } else {
        u16::MAX
    }
}

// ---------------------------------------------------------------------------
// Widths.
// ---------------------------------------------------------------------------

/// The panes that do not have a width, the last of them first.
pub open spec fn misfits(panes: Seq<SidebarPane>, width: u16) -> Seq<Seq<char>>
    decreases panes.len(),
{
    if panes.len() == 0 {
        Seq::empty()
    } else {
        let earlier = misfits(panes.drop_last(), width);
        if panes.last().width == Some(width) {
            earlier
        } else {
            seq![panes.last().pane_id@] + earlier
        }
    }
}

/// The panes of all providers with sidebars that do not have a width, the
/// last of them first.
pub open spec fn all_misfits(providers: Seq<ProviderSidebars>, width: u16) -> Seq<Seq<char>>
    decreases providers.len(),
{
    if providers.len() == 0 {
        Seq::empty()
    } else {
        let earlier = all_misfits(providers.drop_last(), width);
        if providers.last().capable {
            misfits(providers.last().panes@, width) + earlier
        } else {
            earlier
        }
    }
}

fn add_misfits(ids: &mut Vec<String>, panes: &Vec<SidebarPane>, width: u16)
    ensures
        texts(final(ids)@) == texts(old(ids)@) + misfits(panes@, width),
{
    let mut i: usize = panes.len();
    assert(panes@.take(i as int) == panes@);
    while i > 0
        invariant
            i <= panes@.len(),
            texts(old(ids)@) + misfits(panes@, width) == texts(ids@) + misfits(
                panes@.take(i as int),
                width,
            ),
        decreases i,
    {
        i -= 1;
        let pane = &panes[i];
        let ghost before = ids@;
        let ghost rest = misfits(panes@.take(i as int), width);
        proof {
            assert(panes@.take(i + 1).drop_last() == panes@.take(i as int));
            assert(panes@.take(i + 1).last() == *pane);
        }
        let fits = match pane.width {
            Some(found) => found == width,
            None => false,
        };
        if !fits {
            ids.push(pane.pane_id.clone());
            assert(texts(ids@) =~= texts(before).push(pane.pane_id@));
            assert(texts(before) + (seq![pane.pane_id@] + rest) =~= texts(ids@) + rest);
        }
    }
    assert(texts(ids@) + misfits(panes@.take(0), width) =~= texts(ids@));
}

/// The panes that are to be resized so that all have a width, the last of
/// them first.
pub fn sidebar_panes_to_resize(providers: &Vec<ProviderSidebars>, width: u16) -> (ids: Vec<String>)
    ensures
        texts(ids@) == all_misfits(providers@, width),
{
    let mut ids: Vec<String> = Vec::new();
    let mut i: usize = providers.len();
    assert(providers@.take(i as int) == providers@);
    assert(texts(ids@) + all_misfits(providers@, width) =~= all_misfits(providers@, width));
    while i > 0
        invariant
            i <= providers@.len(),
            all_misfits(providers@, width) == texts(ids@) + all_misfits(
                providers@.take(i as int),
                width,
            ),
        decreases i,
    {
        i -= 1;
        let provider = &providers[i];
        let ghost before = ids@;
        let ghost rest = all_misfits(providers@.take(i as int), width);
        proof {
            assert(providers@.take(i + 1).drop_last() == providers@.take(i as int));
            assert(providers@.take(i + 1).last() == *provider);
        }
        if provider.capable {
            add_misfits(&mut ids, &provider.panes, width);
            assert(texts(before) + (misfits(provider.panes@, width) + rest) =~= texts(ids@) + rest);
        }
    }
    assert(texts(ids@) + all_misfits(providers@.take(0), width) =~= texts(ids@));
    ids
}

/// Which sidebars are brought to their width.
#[derive(Debug, PartialEq, Eq)]
pub enum WidthRepair<S> {
    /// None, because no sidebar is to be seen.
    Nothing,
    /// The one in which the client runs.
    Pane { pane_id: S },
    /// All that do not have it.
    All,
}

/// The plain values of a repair.
pub open spec fn repair_values(repair: WidthRepair<String>) -> WidthRepair<Seq<char>> {
    match repair {
        WidthRepair::Nothing => WidthRepair::Nothing,
        WidthRepair::Pane { pane_id } => WidthRepair::Pane { pane_id: pane_id@ },
        WidthRepair::All => WidthRepair::All,
    }
}

/// Which sidebars a client has brought to their width.
pub open spec fn repair_for(visible: bool, client: Option<ClientView>) -> WidthRepair<Seq<char>> {
    if !visible {
        WidthRepair::Nothing
    } else {
        match client {
            Some(client) => match client.pane_id {
                Some(pane_id) => WidthRepair::Pane { pane_id },
                None => WidthRepair::All,
            },
            None => WidthRepair::All,
        }
    }
}

/// Decides which sidebars a client has brought to their width.
pub fn repair_context_sidebar_width(
    visible: bool,
    context: Option<&ClientConnectionContext>,
) -> (repair: WidthRepair<String>)
    ensures
        repair_values(repair) == repair_for(visible, client_of(context)),
{
    if !visible {
        return WidthRepair::Nothing;
    }
    match context {
        Some(context) => match copy_text(&context.pane_id) {
            Some(pane_id) => WidthRepair::Pane { pane_id },
            None => WidthRepair::All,
        },
        None => WidthRepair::All,
    }
}

// ---------------------------------------------------------------------------
// Showing and hiding.
// ---------------------------------------------------------------------------

/// A provider as far as its sidebars can be toggled.
#[derive(Debug)]
pub struct ToggledProvider {
    /// Whether the provider can show and hide sidebars.
    pub full: bool,
    /// The panes of its sidebars.
    pub pane_ids: Vec<String>,
}

/// A pane of a provider that is to be hidden.
#[derive(Debug, PartialEq, Eq)]
pub struct HiddenPane {
    pub provider: usize,
    pub pane_id: String,
}

/// What toggling comes to.
#[derive(Debug, PartialEq, Eq)]
pub enum TogglePlan {
    /// The sidebars that are there are hidden.
    Hide(Vec<HiddenPane>),
    /// Providers, by their position, get a sidebar in every window.
    Show(Vec<usize>),
}

/// Whether a provider that can hide sidebars has any.
pub open spec fn any_sidebar(providers: Seq<ToggledProvider>) -> bool {
    exists|i: int|
        0 <= i < providers.len() && (#[trigger] providers[i]).full && providers[i].pane_ids@.len()
            > 0
}

/// The panes of a provider.
pub open spec fn panes_of(provider: int, ids: Seq<Seq<char>>) -> Seq<(int, Seq<char>)> {
    ids.map_values(|id: Seq<char>| (provider, id))
}

/// The panes of all providers that can hide them, in their order.
pub open spec fn panes_to_hide(providers: Seq<ToggledProvider>) -> Seq<(int, Seq<char>)>
    decreases providers.len(),
{
    if providers.len() == 0 {
        Seq::empty()
    } else {
        let earlier = panes_to_hide(providers.drop_last());
        if providers.last().full {
            earlier + panes_of(providers.len() - 1, texts(providers.last().pane_ids@))
        } else {
            earlier
        }
    }
}

/// The positions of the providers that can show sidebars.
pub open spec fn providers_to_show(providers: Seq<ToggledProvider>) -> Seq<int>
    decreases providers.len(),
{
    if providers.len() == 0 {
        Seq::empty()
    } else {
        let earlier = providers_to_show(providers.drop_last());
        if providers.last().full {
            earlier.push(providers.len() - 1)
        } else {
            earlier
        }
    }
}

/// The plain values of panes that are to be hidden.
pub open spec fn hidden_values(panes: Seq<HiddenPane>) -> Seq<(int, Seq<char>)> {
    panes.map_values(|pane: HiddenPane| (pane.provider as int, pane.pane_id@))
}

/// The plain values of positions.
pub open spec fn positions(list: Seq<usize>) -> Seq<int> {
    list.map_values(|i: usize| i as int)
}

fn add_panes_to_hide(list: &mut Vec<HiddenPane>, provider: usize, ids: &Vec<String>)
    ensures
        hidden_values(final(list)@) == hidden_values(old(list)@) + panes_of(
            provider as int,
            texts(ids@),
        ),
{
    let ghost all = panes_of(provider as int, texts(ids@));
    let mut i: usize = 0;
    assert(hidden_values(list@) =~= hidden_values(old(list)@) + all.take(0));
    while i < ids.len()
        invariant
            i <= ids@.len(),
            all == panes_of(provider as int, texts(ids@)),
            hidden_values(list@) == hidden_values(old(list)@) + all.take(i as int),
        decreases ids@.len() - i,
    {
        let ghost before = list@;
        list.push(HiddenPane { provider, pane_id: ids[i].clone() });
        assert(hidden_values(list@) =~= hidden_values(before).push(all[i as int]));
        assert(all.take(i + 1) =~= all.take(i as int).push(all[i as int]));
        i += 1;
    }
    assert(all.take(all.len() as int) == all);
}

fn has_sidebar(providers: &Vec<ToggledProvider>) -> (yes: bool)
    ensures
        yes == any_sidebar(providers@),
{
    let mut i: usize = 0;
    while i < providers.len()
        invariant
            i <= providers@.len(),
            forall|j: int|
                0 <= j < i ==> !((#[trigger] providers@[j]).full && providers@[j].pane_ids@.len()
                    > 0),
        decreases providers@.len() - i,
    {
        if providers[i].full && providers[i].pane_ids.len() > 0 {
            return true;
        }
        i += 1;
    }
    false
}

/// Decides what toggling comes to: where there is a sidebar all are hidden,
/// and where there is none they are shown.
pub fn toggle_sidebar(providers: &Vec<ToggledProvider>) -> (plan: TogglePlan)
    ensures
        match plan {
            TogglePlan::Hide(panes) => any_sidebar(providers@) && hidden_values(panes@)
                == panes_to_hide(providers@),
            TogglePlan::Show(list) => !any_sidebar(providers@) && positions(list@)
                == providers_to_show(providers@),
        },
{
    let hide = has_sidebar(providers);
    let mut panes: Vec<HiddenPane> = Vec::new();
    let mut list: Vec<usize> = Vec::new();
    let mut i: usize = 0;
    assert(hidden_values(panes@) =~= panes_to_hide(providers@.take(0)));
    assert(positions(list@) =~= providers_to_show(providers@.take(0)));
    while i < providers.len()
        invariant
            i <= providers@.len(),
            hidden_values(panes@) == panes_to_hide(providers@.take(i as int)),
            positions(list@) == providers_to_show(providers@.take(i as int)),
        decreases providers@.len() - i,
    {
        let ghost before = list@;
        proof {
            assert(providers@.take(i + 1).drop_last() == providers@.take(i as int));
            assert(providers@.take(i + 1).last() == providers@[i as int]);
        }
        if providers[i].full {
            add_panes_to_hide(&mut panes, i, &providers[i].pane_ids);
            list.push(i);
            assert(positions(list@) =~= positions(before).push(i as int));
        }
        i += 1;
    }
    assert(providers@.take(providers@.len() as int) == providers@);
    if hide {
        TogglePlan::Hide(panes)
    } else {
        TogglePlan::Show(list)
    }
}

/// A window that a session has in front.
#[derive(Debug, PartialEq, Eq)]
pub struct ActiveWindow {
    pub id: String,
    pub session_name: String,
    pub active: bool,
}

/// A window, as plain values.
pub struct WindowView {
    pub id: Seq<char>,
    pub session_name: Seq<char>,
    pub active: bool,
}

impl View for ActiveWindow {
    type V = WindowView;

    open spec fn view(&self) -> WindowView {
        WindowView { id: self.id@, session_name: self.session_name@, active: self.active }
    }
}

/// The plain values of windows.
pub open spec fn window_views(windows: Seq<ActiveWindow>) -> Seq<WindowView> {
    windows.map_values(|window: ActiveWindow| window@)
}

/// The first position of a window.
pub open spec fn window_position(windows: Seq<WindowView>, id: Seq<char>) -> Option<int>
    decreases windows.len(),
{
    if windows.len() == 0 {
        None
    } else {
        match window_position(windows.drop_last(), id) {
            Some(i) => Some(i),
            None => if windows.last().id == id {
                Some(windows.len() - 1)
            } else {
                None
            },
        }
    }
}

/// Windows without repetitions: a window that several sessions share stands
/// where it first stood, and for the first session in which it is active, if
/// there is one.
pub open spec fn unique(windows: Seq<WindowView>) -> Seq<WindowView>
    decreases windows.len(),
{
    if windows.len() == 0 {
        Seq::empty()
    } else {
        let earlier = unique(windows.drop_last());
        let last = windows.last();
        match window_position(earlier, last.id) {
            Some(i) => if !earlier[i].active && last.active {
                earlier.update(i, last)
            } else {
                earlier
            },
            None => earlier.push(last),
        }
    }
}

/// `window_position` gives the least index of the window.
pub proof fn lemma_window_position(windows: Seq<WindowView>, id: Seq<char>)
    ensures
        match window_position(windows, id) {
            Some(i) => 0 <= i < windows.len() && windows[i].id == id && forall|j: int|
                0 <= j < i ==> (#[trigger] windows[j]).id != id,
            None => forall|j: int| 0 <= j < windows.len() ==> (#[trigger] windows[j]).id != id,
        },
    decreases windows.len(),
{
    if windows.len() > 0 {
        let earlier = windows.drop_last();
        lemma_window_position(earlier, id);
        assert(forall|j: int| 0 <= j < earlier.len() ==> earlier[j] == windows[j]);
        if window_position(earlier, id) is None {
            assert forall|j: int| 0 <= j < windows.len() - 1 implies (#[trigger] windows[j]).id
                != id by {
                assert(earlier[j].id != id);
            }
        } else {
            let i = window_position(earlier, id)->Some_0;
            assert forall|j: int| 0 <= j < i implies (#[trigger] windows[j]).id != id by {
                assert(earlier[j].id != id);
            }
        }
    }
}

fn find_window(windows: &Vec<ActiveWindow>, id: &str) -> (found: Option<usize>)
    ensures
        match found {
            Some(i) => i < windows@.len() && window_position(window_views(windows@), id@) == Some(
                i as int,
            ),
            None => window_position(window_views(windows@), id@) is None,
        },
{
    let ghost all = window_views(windows@);
    proof {
        lemma_window_position(all, id@);
    }
    let mut i: usize = 0;
    while i < windows.len()
        invariant
            i <= windows@.len(),
            all == window_views(windows@),
            match window_position(all, id@) {
                Some(p) => i <= p < all.len() && all[p].id == id@ && forall|j: int|
                    0 <= j < p ==> (#[trigger] all[j]).id != id@,
                None => forall|j: int| 0 <= j < all.len() ==> (#[trigger] all[j]).id != id@,
            },
        decreases windows@.len() - i,
    {
        assert(all[i as int] == windows@[i as int]@);
        if same_text(windows[i].id.as_str(), id) {
            return Some(i);
        }
        i += 1;
    }
    None
}

/// Removes repetitions from windows.
pub fn unique_windows(windows: Vec<ActiveWindow>) -> (kept: Vec<ActiveWindow>)
    ensures
        window_views(kept@) == unique(window_views(windows@)),
{
    let ghost all = window_views(windows@);
    let mut rest = windows;
    let mut kept: Vec<ActiveWindow> = Vec::new();
    let ghost mut done: int = 0;
    assert(window_views(kept@) =~= unique(all.take(0)));
    assert(window_views(rest@) =~= all.skip(0));
    while rest.len() > 0
        invariant
            0 <= done <= all.len(),
            window_views(rest@) == all.skip(done),
            window_views(kept@) == unique(all.take(done)),
        decreases rest@.len(),
    {
        let ghost before = rest@;
        let ghost earlier = kept@;
        let window = rest.remove(0);
        proof {
            assert(window_views(before)[0] == window@);
            assert(window_views(before).len() == before.len());
            assert(done < all.len());
            assert(all.skip(done)[0] == all[done]);
            assert(all.take(done + 1).drop_last() == all.take(done));
            assert(all.take(done + 1).last() == window@);
            assert(window_views(rest@) =~= all.skip(done + 1)) by {
                assert(rest@ =~= before.drop_first());
                assert(window_views(rest@) =~= window_views(before).drop_first());
            }
            lemma_window_position(window_views(kept@), window@.id);
        }
        match find_window(&kept, window.id.as_str()) {
            Some(i) => {
                assert(window_views(kept@)[i as int] == kept@[i as int]@);
                if !kept[i].active && window.active {
                    kept.set(i, window);
                    assert(window_views(kept@) =~= window_views(earlier).update(i as int, window@));
                }
            },
            None => {
                kept.push(window);
                assert(window_views(kept@) =~= window_views(earlier).push(window@));
            },
        }
        proof {
            done = done + 1;
        }
    }
    assert(all.take(done) =~= all) by {
        assert(window_views(rest@).len() == 0);
    }
    kept
}

/// Where a sidebar is to be started.
#[derive(Debug, PartialEq, Eq)]
pub struct SpawnTarget {
    pub session_name: String,
    pub window_id: String,
}

/// The plain values of an optional target.
pub open spec fn spawn_values(target: Option<SpawnTarget>) -> Option<(Seq<char>, Seq<char>)> {
    match target {
        Some(target) => Some((target.session_name@, target.window_id@)),
        None => None,
    }
}

/// The session and the window that are to have a sidebar: those of the
/// report, or else those that are in front.
pub open spec fn sidebar_place(
    full: bool,
    context: Option<HttpContextView>,
    current_session: Option<Seq<char>>,
    current_window: Option<Seq<char>>,
) -> Option<(Seq<char>, Seq<char>)> {
    if !full {
        None
    } else {
        match (context, current_session, current_window) {
            (Some(context), _, _) => Some((context.session, context.window_id)),
            (None, Some(session), Some(window)) => Some((session, window)),
            _ => None,
        }
    }
}

/// Finds the session and the window that are to have a sidebar.
pub fn spawn_target(
    full: bool,
    context: Option<&HttpContext>,
    current_session: Option<&str>,
    current_window: Option<&str>,
) -> (target: Option<SpawnTarget>)
    ensures
        spawn_values(target) == sidebar_place(
            full,
            match context {
                Some(context) => Some(context@),
                None => None,
            },
            str_of(current_session),
            str_of(current_window),
        ),
{
    if !full {
        return None;
    }
    match (context, current_session, current_window) {
        (Some(context), _, _) => Some(
            SpawnTarget {
                session_name: context.session.clone(),
                window_id: context.window_id.clone(),
            },
        ),
        (None, Some(session), Some(window)) => Some(
            SpawnTarget { session_name: session.to_string(), window_id: window.to_string() },
        ),
        _ => None,
    }
}

/// Whether a window has a sidebar.
pub open spec fn window_has_sidebar(panes: Seq<SidebarPane>, window_id: Seq<char>) -> bool {
    exists|i: int| 0 <= i < panes.len() && (#[trigger] panes[i]).window_id@ == window_id
}

/// Decides whether a sidebar has to be started in a window, given the panes
/// of the sidebars of its session.
pub fn needs_sidebar(panes: &Vec<SidebarPane>, window_id: &str) -> (yes: bool)
    ensures
        yes == !window_has_sidebar(panes@, window_id@),
{
    let mut i: usize = 0;
    while i < panes.len()
        invariant
            i <= panes@.len(),
            forall|j: int| 0 <= j < i ==> (#[trigger] panes@[j]).window_id@ != window_id@,
        decreases panes@.len() - i,
    {
        if same_text(panes[i].window_id.as_str(), window_id) {
            return false;
        }
        i += 1;
    }
    true
}

/// A place of a provider that is to have a sidebar, and the panes of the
/// sidebars of its session.
#[derive(Debug)]
pub struct SidebarPlace {
    pub target: Option<SpawnTarget>,
    pub panes: Vec<SidebarPane>,
}

/// Whether a sidebar has to be started in a place.
pub open spec fn lacks_sidebar(place: SidebarPlace) -> bool {
    match place.target {
        Some(target) => !window_has_sidebar(place.panes@, target.window_id@),
        None => false,
    }
}

/// The positions of the places in which a sidebar has to be started.
pub open spec fn places_to_fill(places: Seq<SidebarPlace>) -> Seq<int>
    decreases places.len(),
{
    if places.len() == 0 {
        Seq::empty()
    } else {
        let earlier = places_to_fill(places.drop_last());
        if lacks_sidebar(places.last()) {
            earlier.push(places.len() - 1)
        } else {
            earlier
        }
    }
}

/// Decides in which places a sidebar has to be started: in none while
/// sidebars are hidden.
pub fn ensure_sidebar(visible: bool, places: &Vec<SidebarPlace>) -> (list: Vec<usize>)
    ensures
        positions(list@) == if visible {
            places_to_fill(places@)
        } else {
            Seq::empty()
        },
{
    let mut list: Vec<usize> = Vec::new();
    assert(positions(list@) =~= places_to_fill(places@.take(0)));
    if !visible {
        return list;
    }
    let mut i: usize = 0;
    while i < places.len()
        invariant
            i <= places@.len(),
            positions(list@) == places_to_fill(places@.take(i as int)),
        decreases places@.len() - i,
    {
        let place = &places[i];
        let ghost before = list@;
        proof {
            assert(places@.take(i + 1).drop_last() == places@.take(i as int));
            assert(places@.take(i + 1).last() == *place);
        }
        if let Some(target) = &place.target {
            if needs_sidebar(&place.panes, target.window_id.as_str()) {
                list.push(i);
                assert(positions(list@) =~= positions(before).push(i as int));
            }
        }
        i += 1;
    }
    assert(places@.take(places@.len() as int) == places@);
    list
}

// ---------------------------------------------------------------------------
// Hooks.
// ---------------------------------------------------------------------------

/// What a hook leads to.
#[derive(Debug, Clone, Copy, PartialEq, Eq, Structural)]
pub enum HookAction {
    /// The sidebars are toggled, and the state is broadcast.
    Toggle,
    /// A window gets a sidebar, if sidebars are to be seen.
    EnsureSidebar,
    /// Sidebars that are left alone are closed, and the others are brought to
    /// their width.
    PaneExited,
    /// The sidebars are brought to their width.
    Relayout,
}

/// What the hook of a path leads to.
pub open spec fn hook_action_of(path: Seq<char>) -> Option<HookAction> {
    if path == "/toggle"@ {
        Some(HookAction::Toggle)
    } else if path == "/ensure-sidebar"@ {
        Some(HookAction::EnsureSidebar)
    } else if path == "/pane-exited"@ {
        Some(HookAction::PaneExited)
    } else if path == "/pane-layout-changed"@ || path == "/client-resized"@ {
        Some(HookAction::Relayout)
    } else {
        None
    }
}

/// Decides what the hook of a path leads to.
pub fn handle_http_hook(path: &str) -> (action: Option<HookAction>)
    ensures
        action == hook_action_of(path@),
{
    if same_text(path, "/toggle") {
        Some(HookAction::Toggle)
    } else if same_text(path, "/ensure-sidebar") {
        Some(HookAction::EnsureSidebar)
    } else if same_text(path, "/pane-exited") {
        Some(HookAction::PaneExited)
    } else if same_text(path, "/pane-layout-changed") || same_text(path, "/client-resized") {
        Some(HookAction::Relayout)
    } else {
        None
    }
}

/// What is broadcast after a window got its sidebar.
#[derive(Debug, PartialEq, Eq)]
pub enum EnsureReply<S> {
    /// The session of the window is said to be in front.
    Activate { name: S },
    /// The state is broadcast.
    Snapshot,
    /// Nothing is.
    Nothing,
}

/// The plain values of what is broadcast.
pub open spec fn ensure_values(reply: EnsureReply<String>) -> EnsureReply<Seq<char>> {
    match reply {
        EnsureReply::Activate { name } => EnsureReply::Activate { name: name@ },
        EnsureReply::Snapshot => EnsureReply::Snapshot,
        EnsureReply::Nothing => EnsureReply::Nothing,
    }
}

/// What is broadcast after a report, given whether a sidebar was started.
pub open spec fn ensured(body: Seq<char>, spawned: bool) -> EnsureReply<Seq<char>> {
    match context_in(body) {
        Some(context) => EnsureReply::Activate { name: context.session },
        None => if spawned {
            EnsureReply::Snapshot
        } else {
            EnsureReply::Nothing
        },
    }
}

/// Decides what is broadcast after a report, given whether a sidebar was
/// started.
pub fn ensure_reply(body: &str, spawned: bool) -> (reply: EnsureReply<String>)
    ensures
        ensure_values(reply) == ensured(body@, spawned),
{
    match parse_context_session(body) {
        Some(name) => EnsureReply::Activate { name },
        None => if spawned {
            EnsureReply::Snapshot
        } else {
            EnsureReply::Nothing
        },
    }
}

/// The session to go to from each session, should it end with the pane of its
/// sidebar.
pub open spec fn fallbacks(sessions: Seq<Seq<char>>, names: Seq<Seq<char>>) -> Map<
    Seq<char>,
    Seq<char>,
>
    decreases sessions.len(),
{
    if sessions.len() == 0 {
        Map::empty()
    } else {
        let earlier = fallbacks(sessions.drop_last(), names);
        match shown_neighbour(names, sessions.last()) {
            Some(name) => earlier.insert(sessions.last(), name),
            None => earlier,
        }
    }
}

/// Finds the session to go to from each session that has a sidebar, given the
/// list that is shown.
pub fn fallback_sessions(sessions: &Vec<String>, names: &Vec<String>) -> (map: TextMap<String>)
    ensures
        text_values(map@) == fallbacks(texts(sessions@), texts(names@)),
{
    let mut map: TextMap<String> = TextMap::new();
    let ghost all = texts(sessions@);
    let mut i: usize = 0;
    assert(text_values(map@) =~= fallbacks(all.take(0), texts(names@)));
    while i < sessions.len()
        invariant
            i <= sessions@.len(),
            all == texts(sessions@),
            text_values(map@) == fallbacks(all.take(i as int), texts(names@)),
        decreases sessions@.len() - i,
    {
        let session = &sessions[i];
        let ghost before = text_values(map@);
        proof {
            assert(all.take(i + 1).drop_last() == all.take(i as int));
            assert(all.take(i + 1).last() == session@);
        }
        if let Some(name) = session_beside(names, session.as_str()) {
            let _ = map.insert(session.clone(), name);
            assert(text_values(map@) =~= before.insert(session@, name@));
        }
        i += 1;
    }
    assert(all.take(all.len() as int) == all);
    map
}

// ---------------------------------------------------------------------------
// Laws.
// ---------------------------------------------------------------------------

/// No window gets two sidebars, however many sessions share it, and every
/// window gets one.
pub proof fn every_window_gets_one_sidebar(windows: Seq<WindowView>, id: Seq<char>)
    ensures
        forall|i: int, j: int|
            0 <= i < j < unique(windows).len() ==> (#[trigger] unique(windows)[i]).id != (
            #[trigger] unique(windows)[j]).id,
        window_position(unique(windows), id) is Some <==> window_position(windows, id) is Some,
    decreases windows.len(),
{
    if windows.len() > 0 {
        let rest = windows.drop_last();
        let earlier = unique(rest);
        let last = windows.last();
        every_window_gets_one_sidebar(rest, id);
        every_window_gets_one_sidebar(rest, last.id);
        lemma_window_position(earlier, id);
        lemma_window_position(earlier, last.id);
        lemma_window_position(unique(windows), id);
        match window_position(earlier, last.id) {
            Some(k) => {
                if !earlier[k].active && last.active {
                    let kept = earlier.update(k, last);
                    assert(forall|j: int| 0 <= j < kept.len() ==> (#[trigger] kept[j]).id == earlier[j].id);
                    if let Some(p) = window_position(earlier, id) {
                        assert(kept[p].id == id);
                    }
                    if let Some(p) = window_position(kept, id) {
                        assert(earlier[p].id == id);
                    }
                }
            },
            None => {
                let kept = earlier.push(last);
                assert(forall|j: int| 0 <= j < earlier.len() ==> (#[trigger] kept[j]) == earlier[j]);
                assert(kept[earlier.len() as int] == last);
                if let Some(p) = window_position(earlier, id) {
                    assert(kept[p].id == id);
                }
            },
        }
    }
}

/// Whether no window that stands before position `k` is the same and active.
pub open spec fn first_active(windows: Seq<WindowView>, k: int) -> bool {
    forall|j: int| 0 <= j < k && (#[trigger] windows[j]).id == windows[k].id ==> !windows[j].active
}

/// Nothing stands among windows without repetitions that was not there before.
proof fn lemma_unique_from(windows: Seq<WindowView>, p: int)
    requires
        0 <= p < unique(windows).len(),
    ensures
        windows.contains(unique(windows)[p]),
    decreases windows.len(),
{
    if windows.len() > 0 {
        let rest = windows.drop_last();
        let earlier = unique(rest);
        assert(windows[windows.len() - 1] == windows.last());
        lemma_window_position(earlier, windows.last().id);
        if unique(windows)[p] != windows.last() {
            assert(p < earlier.len() && unique(windows)[p] == earlier[p]);
            lemma_unique_from(rest, p);
            let j = choose|j: int| 0 <= j < rest.len() && rest[j] == earlier[p];
            assert(windows[j] == earlier[p]);
        }
    }
}

/// The sidebar of a window is started for a session in which the window is
/// active, where there is one, and for the first of them.
pub proof fn active_sessions_get_the_sidebar(windows: Seq<WindowView>, k: int)
    requires
        0 <= k < windows.len(),
        windows[k].active,
    ensures
        window_position(unique(windows), windows[k].id) matches Some(i) && unique(
            windows,
        )[i].active && (first_active(windows, k) ==> unique(windows)[i] == windows[k]),
    decreases windows.len(),
{
    let rest = windows.drop_last();
    let earlier = unique(rest);
    let last = windows.last();
    let id = windows[k].id;
    lemma_window_position(earlier, last.id);
    lemma_window_position(earlier, id);
    lemma_window_position(unique(windows), id);
    every_window_gets_one_sidebar(rest, id);
    every_window_gets_one_sidebar(windows, id);
    lemma_window_position(windows, id);
    if k < rest.len() {
        assert(rest[k] == windows[k]);
        active_sessions_get_the_sidebar(rest, k);
        if first_active(windows, k) {
            assert forall|j: int| 0 <= j < k && (#[trigger] rest[j]).id == rest[k].id implies
                !rest[j].active by {
                assert(rest[j] == windows[j]);
            }
        }
        let p = window_position(earlier, id)->Some_0;
        match window_position(earlier, last.id) {
            Some(q) => {
                if !earlier[q].active && last.active {
                    assert(p != q);
                    assert(unique(windows)[p] == earlier[p]);
                }
                assert(unique(windows)[p].id == id);
            },
            None => {
                assert(unique(windows)[p] == earlier[p]);
            },
        }
        let i = window_position(unique(windows), id)->Some_0;
        assert(i == p);
    } else {
        match window_position(earlier, id) {
            Some(p) => {
                let i = window_position(unique(windows), id)->Some_0;
                assert(unique(windows)[p].id == id);
                assert(i == p);
                lemma_unique_from(rest, p);
                let j = choose|j: int| 0 <= j < rest.len() && rest[j] == earlier[p];
                assert(windows[j] == earlier[p]);
            },
            None => {
                assert(unique(windows)[earlier.len() as int] == last);
            },
        }
    }
}

/// Once the panes that were to be resized have the width, none is left to be
/// resized.
pub proof fn fitting_panes_stay(panes: Seq<SidebarPane>, width: u16)
    requires
        forall|i: int| 0 <= i < panes.len() ==> (#[trigger] panes[i]).width == Some(width),
    ensures
        misfits(panes, width) == Seq::<Seq<char>>::empty(),
    decreases panes.len(),
{
    if panes.len() > 0 {
        let earlier = panes.drop_last();
        assert forall|i: int| 0 <= i < earlier.len() implies (#[trigger] earlier[i]).width == Some(
            width,
        ) by {
            assert(earlier[i] == panes[i]);
        }
        fitting_panes_stay(earlier, width);
        assert(panes.last() == panes[panes.len() - 1]);
    }
}

/// Whether a pane that does not have a width is among panes.
pub open spec fn has_misfit(panes: Seq<SidebarPane>, width: u16, id: Seq<char>) -> bool {
    exists|i: int|
        0 <= i < panes.len() && (#[trigger] panes[i]).pane_id@ == id && panes[i].width != Some(width)
}

proof fn lemma_misfits(panes: Seq<SidebarPane>, width: u16, id: Seq<char>)
    ensures
        misfits(panes, width).contains(id) == has_misfit(panes, width, id),
    decreases panes.len(),
{
    if panes.len() > 0 {
        let earlier = panes.drop_last();
        let last = panes.last();
        let rest = misfits(earlier, width);
        lemma_misfits(earlier, width, id);
        if has_misfit(earlier, width, id) {
            let i = choose|i: int|
                0 <= i < earlier.len() && (#[trigger] earlier[i]).pane_id@ == id && earlier[i].width
                    != Some(width);
            assert(panes[i] == earlier[i]);
        }
        if has_misfit(panes, width, id) {
            let i = choose|i: int|
                0 <= i < panes.len() && (#[trigger] panes[i]).pane_id@ == id && panes[i].width
                    != Some(width);
            if i < earlier.len() {
                assert(earlier[i] == panes[i]);
            }
        }
        if last.width != Some(width) {
            let all = seq![last.pane_id@] + rest;
            assert(panes[panes.len() - 1] == last);
            assert(all[0] == last.pane_id@);
            if rest.contains(id) {
                let j = choose|j: int| 0 <= j < rest.len() && rest[j] == id;
                assert(all[j + 1] == id);
            }
            if all.contains(id) {
                let j = choose|j: int| 0 <= j < all.len() && all[j] == id;
                if j > 0 {
                    assert(rest[j - 1] == id);
                }
            }
        }
    }
}

/// A change of the width reaches every sidebar: a pane is resized just where a
/// provider with sidebars has it and it does not have the width.
pub proof fn every_misfit_is_resized(
    providers: Seq<ProviderSidebars>,
    width: u16,
    id: Seq<char>,
)
    ensures
        all_misfits(providers, width).contains(id) <==> exists|i: int|
            0 <= i < providers.len() && (#[trigger] providers[i]).capable && has_misfit(
                providers[i].panes@,
                width,
                id,
            ),
    decreases providers.len(),
{
    if providers.len() > 0 {
        let earlier = providers.drop_last();
        let last = providers.last();
        let front = misfits(last.panes@, width);
        let rest = all_misfits(earlier, width);
        every_misfit_is_resized(earlier, width, id);
        lemma_misfits(last.panes@, width, id);
        if exists|i: int|
            0 <= i < earlier.len() && (#[trigger] earlier[i]).capable && has_misfit(
                earlier[i].panes@,
                width,
                id,
            ) {
            let i = choose|i: int|
                0 <= i < earlier.len() && (#[trigger] earlier[i]).capable && has_misfit(
                    earlier[i].panes@,
                    width,
                    id,
                );
            assert(providers[i] == earlier[i]);
        }
        if exists|i: int|
            0 <= i < providers.len() && (#[trigger] providers[i]).capable && has_misfit(
                providers[i].panes@,
                width,
                id,
            ) {
            let i = choose|i: int|
                0 <= i < providers.len() && (#[trigger] providers[i]).capable && has_misfit(
                    providers[i].panes@,
                    width,
                    id,
                );
            if i < earlier.len() {
                assert(earlier[i] == providers[i]);
            }
        }
        if last.capable {
            let all = front + rest;
            assert(providers[providers.len() - 1] == last);
            if front.contains(id) {
                let j = choose|j: int| 0 <= j < front.len() && front[j] == id;
                assert(all[j] == id);
            }
            if rest.contains(id) {
                let j = choose|j: int| 0 <= j < rest.len() && rest[j] == id;
                assert(all[front.len() + j] == id);
            }
            if all.contains(id) {
                let j = choose|j: int| 0 <= j < all.len() && all[j] == id;
                if j < front.len() {
                    assert(front[j] == id);
                } else {
                    assert(rest[j - front.len()] == id);
                }
            }
        }
    }
}

/// The panes to be resized stand with the last provider and its last pane
/// first, and each stands once for every time that it is listed.
pub proof fn the_last_misfit_is_resized_first(
    panes: Seq<SidebarPane>,
    pane: SidebarPane,
    providers: Seq<ProviderSidebars>,
    provider: ProviderSidebars,
    width: u16,
)
    ensures
        pane.width == Some(width) ==> misfits(panes.push(pane), width) == misfits(panes, width),
        pane.width != Some(width) ==> misfits(panes.push(pane), width) == seq![pane.pane_id@]
            + misfits(panes, width),
        provider.capable ==> all_misfits(providers.push(provider), width) == misfits(
            provider.panes@,
            width,
        ) + all_misfits(providers, width),
        !provider.capable ==> all_misfits(providers.push(provider), width) == all_misfits(
            providers,
            width,
        ),
{
    assert(panes.push(pane).drop_last() =~= panes);
    assert(providers.push(provider).drop_last() =~= providers);
}

/// While sidebars are shown, a client that is known to run in a pane has that
/// pane brought to its width, and any other has all of them; while they are
/// hidden nothing is.
pub proof fn widths_are_repaired_while_sidebars_are_shown(
    client: ClientView,
    pane_id: Seq<char>,
)
    ensures
        repair_for(false, Some(client)) == WidthRepair::<Seq<char>>::Nothing,
        repair_for(false, None) == WidthRepair::<Seq<char>>::Nothing,
        client.pane_id == Some(pane_id) ==> repair_for(true, Some(client)) == (WidthRepair::Pane {
            pane_id,
        }),
        client.pane_id is None ==> repair_for(true, Some(client)) == WidthRepair::<Seq<char>>::All,
        repair_for(true, None) == WidthRepair::<Seq<char>>::All,
{
}

/// When sidebars are hidden, every pane of every full provider is, under that
/// provider, and no other.
pub proof fn every_sidebar_is_hidden(
    providers: Seq<ToggledProvider>,
    provider: int,
    pane_id: Seq<char>,
)
    ensures
        panes_to_hide(providers).contains((provider, pane_id)) <==> 0 <= provider < providers.len()
            && providers[provider].full && texts(providers[provider].pane_ids@).contains(pane_id),
    decreases providers.len(),
{
    if providers.len() > 0 {
        let front = providers.drop_last();
        let last = providers.last();
        let n = providers.len() - 1;
        every_sidebar_is_hidden(front, provider, pane_id);
        let earlier = panes_to_hide(front);
        let ids = texts(last.pane_ids@);
        let own = panes_of(n, ids);
        let all = panes_to_hide(providers);
        let item = (provider, pane_id);
        if provider < n {
            assert(0 <= provider ==> front[provider] == providers[provider]);
        }
        if last.full {
            if all.contains(item) {
                let k = choose|k: int| 0 <= k < all.len() && all[k] == item;
                if k < earlier.len() {
                    assert(earlier[k] == item);
                } else {
                    let l = k - earlier.len();
                    assert(own[l] == (n, ids[l]));
                    assert(ids[l] == pane_id);
                }
            }
            if earlier.contains(item) {
                let k = choose|k: int| 0 <= k < earlier.len() && earlier[k] == item;
                assert(all[k] == item);
            }
            if provider == n && ids.contains(pane_id) {
                let l = choose|l: int| 0 <= l < ids.len() && ids[l] == pane_id;
                assert(own[l] == item);
                assert(all[earlier.len() + l] == item);
            }
        }
    }
}

/// When sidebars are shown, every full provider shows them, in the order of
/// the providers, and no other does.
pub proof fn every_full_provider_shows_sidebars(providers: Seq<ToggledProvider>, provider: int)
    ensures
        providers_to_show(providers).contains(provider) <==> 0 <= provider < providers.len()
            && providers[provider].full,
        forall|i: int, j: int|
            0 <= i < j < providers_to_show(providers).len() ==> #[trigger] providers_to_show(
                providers,
            )[i] < #[trigger] providers_to_show(providers)[j],
        forall|i: int|
            0 <= i < providers_to_show(providers).len() ==> #[trigger] providers_to_show(
                providers,
            )[i] < providers.len(),
    decreases providers.len(),
{
    if providers.len() > 0 {
        let front = providers.drop_last();
        let n = providers.len() - 1;
        every_full_provider_shows_sidebars(front, provider);
        let earlier = providers_to_show(front);
        let all = providers_to_show(providers);
        if providers.last().full {
            assert(all[earlier.len() as int] == n);
            if earlier.contains(provider) {
                let k = choose|k: int| 0 <= k < earlier.len() && earlier[k] == provider;
                assert(all[k] == provider);
            }
            if all.contains(provider) {
                let k = choose|k: int| 0 <= k < all.len() && all[k] == provider;
                if k < earlier.len() {
                    assert(earlier[k] == provider);
                }
            }
        }
        if 0 <= provider < n {
            assert(front[provider] == providers[provider]);
        }
    }
}

/// Sidebars are hidden just where some full provider has one.
pub proof fn sidebars_are_hidden_where_there_are_any(providers: Seq<ToggledProvider>)
    ensures
        any_sidebar(providers) <==> panes_to_hide(providers).len() > 0,
{
    let all = panes_to_hide(providers);
    if any_sidebar(providers) {
        let i = choose|i: int|
            0 <= i < providers.len() && (#[trigger] providers[i]).full && providers[i].pane_ids@.len()
                > 0;
        let ids = texts(providers[i].pane_ids@);
        every_sidebar_is_hidden(providers, i, ids[0]);
        assert(ids.contains(ids[0]));
        assert(all.contains((i, ids[0])));
    }
    if all.len() > 0 {
        let (i, id) = all[0];
        every_sidebar_is_hidden(providers, i, id);
        assert(all.contains((i, id)));
        assert(texts(providers[i].pane_ids@).contains(id));
    }
}

/// A window that no session has active is kept for the first session that
/// lists it.
pub proof fn inactive_windows_stay_with_their_first_session(windows: Seq<WindowView>, k: int)
    requires
        0 <= k < windows.len(),
        forall|j: int| 0 <= j < k ==> (#[trigger] windows[j]).id != windows[k].id,
        forall|j: int|
            0 <= j < windows.len() && (#[trigger] windows[j]).id == windows[k].id
                ==> !windows[j].active,
    ensures
        window_position(unique(windows), windows[k].id) matches Some(i) && unique(windows)[i]
            == windows[k],
    decreases windows.len(),
{
    let rest = windows.drop_last();
    let earlier = unique(rest);
    let last = windows.last();
    let id = windows[k].id;
    let n = windows.len() - 1;
    assert(windows[n] == last);
    assert forall|j: int| 0 <= j < n implies #[trigger] rest[j] == windows[j] by {}
    lemma_window_position(earlier, last.id);
    lemma_window_position(earlier, id);
    lemma_window_position(unique(windows), id);
    every_window_gets_one_sidebar(rest, id);
    every_window_gets_one_sidebar(windows, id);
    lemma_window_position(rest, id);
    lemma_window_position(windows, id);
    if k < n {
        assert(rest[k] == windows[k]);
        inactive_windows_stay_with_their_first_session(rest, k);
        let i = window_position(earlier, id)->0;
        assert(earlier[i] == windows[k]);
        assert(unique(windows)[i] == windows[k]);
    } else {
        assert(window_position(rest, id) is None);
        assert(window_position(earlier, id) is None);
        assert(unique(windows)[earlier.len() as int] == last);
    }
}

/// A sidebar is started by a full provider alone: where the report says, or
/// else in the window that is in front.
pub proof fn sidebars_start_where_the_report_says(
    context: HttpContextView,
    session: Option<Seq<char>>,
    window: Option<Seq<char>>,
)
    ensures
        sidebar_place(false, Some(context), session, window) is None,
        sidebar_place(false, None, session, window) is None,
        sidebar_place(true, Some(context), session, window) == Some(
            (context.session, context.window_id),
        ),
        session is Some && window is Some ==> sidebar_place(true, None, session, window) == Some(
            (session->0, window->0),
        ),
        session is None || window is None ==> sidebar_place(true, None, session, window) is None,
{
}

/// A place is filled just where a sidebar is to be in a window and none of the
/// panes there is in that window; the places are filled in their order.
pub proof fn windows_without_a_sidebar_are_filled(places: Seq<SidebarPlace>, at: int)
    ensures
        places_to_fill(places).contains(at) <==> 0 <= at < places.len() && places[at].target is Some
            && forall|i: int|
            0 <= i < places[at].panes@.len() ==> (#[trigger] places[at].panes@[i]).window_id@
                != places[at].target->0.window_id@,
        forall|i: int, j: int|
            0 <= i < j < places_to_fill(places).len() ==> #[trigger] places_to_fill(places)[i]
                < #[trigger] places_to_fill(places)[j],
        forall|i: int|
            0 <= i < places_to_fill(places).len() ==> #[trigger] places_to_fill(places)[i]
                < places.len(),
    decreases places.len(),
{
    if places.len() > 0 {
        let front = places.drop_last();
        let n = places.len() - 1;
        windows_without_a_sidebar_are_filled(front, at);
        let earlier = places_to_fill(front);
        let all = places_to_fill(places);
        assert(places[n] == places.last());
        if lacks_sidebar(places.last()) {
            assert(all[earlier.len() as int] == n);
            if earlier.contains(at) {
                let k = choose|k: int| 0 <= k < earlier.len() && earlier[k] == at;
                assert(all[k] == at);
            }
            if all.contains(at) {
                let k = choose|k: int| 0 <= k < all.len() && all[k] == at;
                if k < earlier.len() {
                    assert(earlier[k] == at);
                }
            }
        }
        if 0 <= at < n {
            assert(front[at] == places[at]);
        }
        if at == n && places[n].target is Some {
            let id = places[n].target->0.window_id@;
            if window_has_sidebar(places[n].panes@, id) {
                let i = choose|i: int|
                    0 <= i < places[n].panes@.len() && (#[trigger] places[n].panes@[i]).window_id@
                        == id;
                assert(places[n].panes@[i].window_id@ == id);
            }
        }
    }
}

/// Every hook does what its path says, and a change of the layout and a change
/// of the client's size do the same.
pub proof fn hooks_do_what_their_path_says(path: Seq<char>)
    ensures
        hook_action_of(path) == Some(HookAction::Toggle) <==> path == "/toggle"@,
        hook_action_of(path) == Some(HookAction::EnsureSidebar) <==> path == "/ensure-sidebar"@,
        hook_action_of(path) == Some(HookAction::PaneExited) <==> path == "/pane-exited"@,
        hook_action_of(path) == Some(HookAction::Relayout) <==> path == "/pane-layout-changed"@
            || path == "/client-resized"@,
{
    reveal_strlit("/toggle");
    reveal_strlit("/ensure-sidebar");
    reveal_strlit("/pane-exited");
    reveal_strlit("/pane-layout-changed");
    reveal_strlit("/client-resized");
    assert("/toggle"@.len() == 7);
    assert("/ensure-sidebar"@.len() == 15 && "/ensure-sidebar"@[1] == 'e');
    assert("/pane-exited"@.len() == 12);
    assert("/pane-layout-changed"@.len() == 20);
    assert("/client-resized"@.len() == 15 && "/client-resized"@[1] == 'c');
}

/// After a sidebar was asked for, clients are told the session of the report.
/// Where the report names none they get the state if a sidebar was started,
/// and nothing otherwise.
pub proof fn ensured_sidebars_are_told(body: Seq<char>, context: HttpContextView, spawned: bool)
    ensures
        context_in(body) == Some(context) ==> ensured(body, spawned) == (EnsureReply::Activate {
            name: context.session,
        }),
        context_in(body) is None ==> ensured(body, true) == EnsureReply::<Seq<char>>::Snapshot,
        context_in(body) is None ==> ensured(body, false) == EnsureReply::<Seq<char>>::Nothing,
{
}

/// A session that might end falls back to its neighbour in the list that is
/// shown, and one without a neighbour, or that is not asked about, to none.
pub proof fn sessions_fall_back_to_their_neighbours(
    sessions: Seq<Seq<char>>,
    names: Seq<Seq<char>>,
    session: Seq<char>,
    name: Seq<char>,
)
    ensures
        fallbacks(sessions, names).contains_pair(session, name) <==> sessions.contains(session)
            && shown_neighbour(names, session) == Some(name),
    decreases sessions.len(),
{
    if sessions.len() > 0 {
        let front = sessions.drop_last();
        let n = sessions.len() - 1;
        sessions_fall_back_to_their_neighbours(front, names, session, name);
        assert(sessions[n] == sessions.last());
        if front.contains(session) {
            let i = choose|i: int| 0 <= i < front.len() && front[i] == session;
            assert(sessions[i] == session);
        }
        if sessions.contains(session) && session != sessions.last() {
            let i = choose|i: int| 0 <= i < sessions.len() && sessions[i] == session;
            assert(front[i] == session);
        }
        if session == sessions.last() {
            assert(sessions.contains(session));
            if fallbacks(front, names).contains_key(session) {
                sessions_fall_back_to_their_neighbours(
                    front,
                    names,
                    session,
                    fallbacks(front, names)[session],
                );
            }
        }
    }
}

/// A sidebar warms up for 1.2 seconds, and a width that is too large for tmux
/// is the largest that is not.
pub proof fn sidebars_warm_up_and_fit(now: u64, width: u32)
    ensures
        now <= u64::MAX - 1_200 ==> warm_until(now) == now + 1_200,
        now > u64::MAX - 1_200 ==> warm_until(now) == u64::MAX,
        width <= 65535 ==> short_width(width) == width,
        width > 65535 ==> short_width(width) == 65535,
{
}

/// Windows, panes and places are taken for what they hold.
pub proof fn windows_and_panes_are_taken_whole(
    window: ActiveWindow,
    panes: Seq<HiddenPane>,
    list: Seq<usize>,
    target: SpawnTarget,
    i: int,
)
    ensures
        window@.id == window.id@,
        window@.session_name == window.session_name@,
        window@.active == window.active,
        hidden_values(panes).len() == panes.len(),
        0 <= i < panes.len() ==> hidden_values(panes)[i] == (
            panes[i].provider as int,
            panes[i].pane_id@,
        ),
        positions(list).len() == list.len(),
        0 <= i < list.len() ==> positions(list)[i] == list[i],
        spawn_values(Some(target)) == Some((target.session_name@, target.window_id@)),
        spawn_values(None) is None,
{
}

/// Repairs and replies are taken for what they hold.
pub proof fn repairs_and_replies_are_taken_whole(
    text: String,
    repair: WidthRepair<String>,
    reply: EnsureReply<String>,
)
    ensures
        repair_values(WidthRepair::Pane { pane_id: text }) == (WidthRepair::Pane {
            pane_id: text@,
        }),
        repair is Nothing <==> repair_values(repair) is Nothing,
        repair is All <==> repair_values(repair) is All,
        ensure_values(EnsureReply::Activate { name: text }) == (EnsureReply::Activate {
            name: text@,
        }),
        reply is Snapshot <==> ensure_values(reply) is Snapshot,
        reply is Nothing <==> ensure_values(reply) is Nothing,
{
}

} // verus!
