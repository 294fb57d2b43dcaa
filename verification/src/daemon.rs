//! Starting and stopping the daemon: what a configuration wires, how its loops
//! pace themselves, and the order in which it winds down.

use vstd::prelude::*;

use crate::api::Wiring;
use crate::config::{BindAddress, Config, VolumePct};
use crate::display;
use crate::display::{DisplayProfile, Surface};
use crate::runs::{Message, MessageRole, ParkedRuns, Run, RunInput};
use crate::text;

verus! {

/// How soon the queue is looked at again while a run waits, in seconds.
pub const HEALTH_POLL_SECS: u64 = 10;

/// How soon where none waits.
pub const HEALTH_IDLE_SECS: u64 = 300;

/// How long a failed dispatcher waits before it starts again.
pub const DISPATCH_RESTART_BACKOFF_SECS: u64 = 1;

/// How long each step of winding down may take.
pub const DRAIN_DEADLINE_SECS: u64 = 15;

/// How many messages of a session are searched for its last question.
pub const RECOVERY_MESSAGES: u32 = 100;

// ---------------------------------------------------------------------------
// Starting
// ---------------------------------------------------------------------------

/// What is registered at start. An integration that is not configured registers
/// nothing.
#[derive(Debug)]
pub struct StartPlan {
    /// The secret of the mail account, where mail is on.
    pub smtp_secret: Option<String>,
    /// The secret of the calendar account, where the calendar is on.
    pub caldav_secret: Option<String>,
    /// The key of the web provider and the bound of a fetch, where the web is on.
    pub web: Option<(String, usize)>,
    pub max_volume: VolumePct,
    /// Whether to connect to the session bus.
    pub media: bool,
    /// Whether a monitor is there to cast onto.
    pub cast: bool,
    /// The map archive, where one is named.
    pub archive: Option<String>,
    pub timers: bool,
    pub lists: bool,
}

/// Why nothing is started.
pub open spec fn start_fault(config: Config) -> Option<Seq<char>> {
    if config.integrations.web_search matches Some(web) && web.provider@ != "brave"@ {
        Some(
            "integrations.web_search.provider "@ + text::debug_text(
                config.integrations.web_search->0.provider@,
            ) + " is not supported (only \"brave\")"@,
        )
    } else if config.integrations.media.max_volume_pct > 100 {
        Some("[integrations.media].max_volume_pct: must be 0..=100"@)
    } else {
        None
    }
}

/// Whether a plan registers what a configuration asks for, and nothing else.
pub open spec fn plans(plan: StartPlan, config: Config, profile: DisplayProfile) -> bool {
    &&& text::opt_view(plan.smtp_secret) == (if config.integrations.smtp.enabled {
        Some(config.integrations.smtp.password_secret@)
    } else {
        None
    })
    &&& text::opt_view(plan.caldav_secret) == (if config.integrations.caldav.enabled {
        Some(config.integrations.caldav.password_secret@)
    } else {
        None
    })
    &&& match config.integrations.web_search {
        Some(web) => plan.web matches Some((secret, bound)) && secret@ == web.api_key_secret@
            && bound == web.max_fetch_bytes,
        None => plan.web is None,
    }
    &&& plan.max_volume.pct == config.integrations.media.max_volume_pct
    &&& plan.media == config.integrations.media.enabled
    &&& plan.cast == (display::assigned(profile.assignments@, Surface::MediaWindow) is Some)
    &&& text::opt_view(plan.archive) == config.maps.spec_archive_path()
    &&& plan.timers == config.timers.enabled
    &&& plan.lists == config.lists.enabled
}

/// Plan a start. That a web provider is configured is the consent to reach the
/// web, so one that there is no adapter for stops the start.
pub fn start_plan(config: &Config, profile: &DisplayProfile) -> (r: Result<StartPlan, String>)
    ensures
        match (r, start_fault(*config)) {
            (Ok(plan), None) => plans(plan, *config, *profile),
            (Err(why), Some(fault)) => why@ == fault,
            _ => false,
        },
{
    let web = match &config.integrations.web_search {
        Some(w) => {
            if !w.is_supported() {
                let shown = text::quoted(w.provider.as_str());
                return Err(
                    text::concat3(
                        "integrations.web_search.provider ",
                        shown.as_str(),
                        " is not supported (only \"brave\")",
                    ),
                );
            }
            Some((w.api_key_secret.clone(), w.max_fetch_bytes))
        },
        None => None,
    };
    let max_volume = match config.integrations.media.max_volume() {
        Ok(v) => v,
        Err(why) => {
            return Err(why);
        },
    };
    let smtp_secret = if config.integrations.smtp.enabled {
        Some(config.integrations.smtp.password_secret.clone())
    } else {
        None
    };
    let caldav_secret = if config.integrations.caldav.enabled {
        Some(config.integrations.caldav.password_secret.clone())
    } else {
        None
    };
    let archive = match config.maps.archive_path() {
        Some(p) => Some(p.to_owned()),
        None => None,
    };
    Ok(
        StartPlan {
            smtp_secret,
            caldav_secret,
            web,
            max_volume,
            media: config.integrations.media.enabled,
            cast: profile.monitor_for(Surface::MediaWindow).is_some(),
            archive,
            timers: config.timers.enabled,
            lists: config.lists.enabled,
        },
    )
}

/// The surfaces that a plan mounts. `media_connected` says whether a session bus
/// was reached.
pub open spec fn wiring_of(plan: StartPlan, media_connected: bool, web_assets: bool, loopback: bool) -> Wiring {
    Wiring {
        sessions: true,
        runs: true,
        artifacts: true,
        appbridge: false,
        display: true,
        media: plan.media && media_connected,
        maps: plan.archive is Some,
        timers: plan.timers,
        lists: plan.lists,
        deepdive: true,
        memories: true,
        web_assets,
        public_health: loopback,
    }
}

/// Whether an address is on loopback. One that cannot be read is not.
pub open spec fn on_loopback(bind: BindAddress) -> bool {
    bind matches BindAddress::Socket { shown, loopback } && loopback
}

pub fn wiring(plan: &StartPlan, media_connected: bool, config: &Config, bind: &BindAddress) -> (w:
    Wiring)
    ensures
        w == wiring_of(
            *plan,
            media_connected,
            config.server.web_assets is Some,
            on_loopback(*bind),
        ),
{
    let loopback = match bind {
        BindAddress::Socket { shown: _, loopback } => *loopback,
        BindAddress::Unreadable { reason: _ } => false,
    };
    Wiring {
        sessions: true,
        runs: true,
        artifacts: true,
        appbridge: false,
        display: true,
        media: plan.media && media_connected,
        maps: plan.archive.is_some(),
        timers: plan.timers,
        lists: plan.lists,
        deepdive: true,
        memories: true,
        web_assets: config.server.web_assets.is_some(),
        public_health: loopback,
    }
}

/// A fresh configuration talks to nothing: no mail, no calendar, no web, no
/// media and no map.
pub proof fn law_a_fresh_start_reaches_nothing(plan: StartPlan, config: Config, profile: DisplayProfile)
    requires
        plans(plan, config, profile),
        config.integrations.is_default(),
        config.maps.is_default(),
    ensures
        plan.smtp_secret is None,
        plan.caldav_secret is None,
        plan.web is None,
        !plan.media,
        plan.archive is None,
        start_fault(config) is None,
{
}

// ---------------------------------------------------------------------------
// Recovery
// ---------------------------------------------------------------------------

/// What the user said last, or nothing.
pub open spec fn last_said(messages: Seq<Message>) -> Seq<char>
    decreases messages.len(),
{
    if messages.len() == 0 {
        seq![]
    } else if messages.last().role == MessageRole::User {
        messages.last().text@
    } else {
        last_said(messages.drop_last())
    }
}

/// The input that an unfinished run is driven with again: what the user said
/// last, or nothing where that cannot be found.
pub fn latest_user_text(messages: Option<&Vec<Message>>) -> (s: String)
    ensures
        s@ == (match messages {
            Some(m) => last_said(m@),
            None => seq![],
        }),
{
    let all = match messages {
        Some(m) => m,
        None => {
            return String::new();
        },
    };
    let mut n: usize = all.len();
    assert(all@.take(n as int) =~= all@);
    while n > 0
        invariant
            messages == Some(all),
            n <= all@.len(),
            last_said(all@) == last_said(all@.take(n as int)),
        decreases n,
    {
        assert(all@.take(n as int).drop_last() =~= all@.take(n - 1));
        if all[n - 1].role == MessageRole::User {
            return all[n - 1].text.clone();
        }
        n = n - 1;
    }
    String::new()
}

/// An unfinished run, restarted from the top: the same run with the same budget,
/// in its first state.
pub fn recover(run: Run, said: String) -> (r: (Run, RunInput))
    ensures
        r.0.id == run.id,
        r.0.session_id == run.session_id,
        r.0.budget == run.budget,
        r.0.state is Received,
        r.0.outcome is None,
        r.1.text == said,
{
    (Run::new(run.id, run.session_id, run.budget), RunInput { text: said })
}

// ---------------------------------------------------------------------------
// Loops
// ---------------------------------------------------------------------------

/// How long to wait before the queue is looked at again: briefly while a run
/// waits, and long where none does.
pub open spec fn poll_wait(queued: nat) -> u64 {
    if queued > 0 {
        HEALTH_POLL_SECS
    } else {
        HEALTH_IDLE_SECS
    }
}

pub fn poll_wait_secs(queued: usize) -> (secs: u64)
    ensures
        secs == poll_wait(queued as nat),
{
    if queued > 0 {
        HEALTH_POLL_SECS
    } else {
        HEALTH_IDLE_SECS
    }
}

/// One pass of the recovery loop: the run to drive again, at most one, and how
/// long to wait after that. Whether the provider is back shows in how the run
/// ends; where it is not, the run is parked anew.
pub fn poll_provider_health(parked: &mut ParkedRuns) -> (r: (Option<(Run, RunInput)>, u64))
    ensures
        match r.0 {
            Some(first) => old(parked)@.len() > 0 && first == old(parked)@.first()
                && final(parked)@ == old(parked)@.skip(1),
            None => old(parked)@.len() == 0 && final(parked)@ == old(parked)@,
        },
        r.1 == poll_wait(final(parked)@.len()),
{
    let resumed = parked.try_dequeue();
    let wait: u64 = poll_wait_secs(parked.queued_len());
    (resumed, wait)
}

/// What follows the end of the dispatcher: nothing where it was cancelled, and
/// otherwise a new start after a pause, so that a failure that stays cannot spin.
pub fn dispatcher_restart(failed: bool) -> (wait_secs: Option<u64>)
    ensures
        wait_secs == restart_wait(failed),
        wait_secs == (if failed {
            Some(DISPATCH_RESTART_BACKOFF_SECS)
        } else {
            None
        }),
{
    if failed {
        Some(DISPATCH_RESTART_BACKOFF_SECS)
    } else {
        None
    }
}

// ---------------------------------------------------------------------------
// Stopping
// ---------------------------------------------------------------------------

/// A step of winding down. Each is bounded by the deadline.
#[derive(Debug, Clone, Copy, PartialEq, Eq, Structural)]
pub enum ShutdownStep {
    StopServing,
    DrainRuns,
    JoinTimers,
    StopDispatcher,
    DrainTelemetry,
}

pub open spec fn shutdown_order(timers: bool) -> Seq<ShutdownStep> {
    if timers {
        seq![
            ShutdownStep::StopServing,
            ShutdownStep::DrainRuns,
            ShutdownStep::JoinTimers,
            ShutdownStep::StopDispatcher,
            ShutdownStep::DrainTelemetry,
        ]
    } else {
        seq![
            ShutdownStep::StopServing,
            ShutdownStep::DrainRuns,
            ShutdownStep::StopDispatcher,
            ShutdownStep::DrainTelemetry,
        ]
    }
}

/// The steps of winding down. `timers` says whether a scheduler is running.
pub fn shutdown_steps(timers: bool) -> (steps: Vec<ShutdownStep>)
    ensures
        steps@ == shutdown_order(timers),
{
    let mut steps: Vec<ShutdownStep> = Vec::new();
    steps.push(ShutdownStep::StopServing);
    steps.push(ShutdownStep::DrainRuns);
    if timers {
        steps.push(ShutdownStep::JoinTimers);
    }
    steps.push(ShutdownStep::StopDispatcher);
    steps.push(ShutdownStep::DrainTelemetry);
    assert(steps@ =~= shutdown_order(timers));
    steps
}

/// The dispatcher outlives the runs that it publishes for: whatever they
/// checkpoint last is still sent.
pub proof fn law_runs_drain_before_the_dispatcher_stops(timers: bool, i: int, j: int)
    requires
        0 <= i < shutdown_order(timers).len(),
        0 <= j < shutdown_order(timers).len(),
        shutdown_order(timers)[i] == ShutdownStep::DrainRuns,
        shutdown_order(timers)[j] == ShutdownStep::StopDispatcher,
    ensures
        i < j,
{
}

/// What was said last is the last message of the user's, whatever was answered
/// since; where the user said nothing, nothing was said.
pub proof fn law_the_last_words_are_the_users(messages: Seq<Message>, message: Message)
    ensures
        message.role is User ==> last_said(messages.push(message)) == message.text@,
        message.role !is User ==> last_said(messages.push(message)) == last_said(messages),
        last_said(Seq::<Message>::empty()).len() == 0,
{
    assert(messages.push(message).drop_last() =~= messages);
}

/// The queue is looked at every ten seconds while anything waits in it, and
/// every five minutes while nothing does.
pub proof fn law_the_queue_is_polled_while_it_holds(queued: nat)
    ensures
        queued > 0 ==> poll_wait(queued) == 10,
        queued == 0 ==> poll_wait(queued) == 300,
{
}

/// What is wired is what was configured and could be reached: media where it was
/// switched on and connected, maps where an archive was named, timers and lists
/// where they were switched on; and health is public on the loopback alone.
pub proof fn law_what_was_configured_is_wired(
    plan: StartPlan,
    media_connected: bool,
    web_assets: bool,
    loopback: bool,
)
    ensures
        ({
            let w = wiring_of(plan, media_connected, web_assets, loopback);
            &&& w.media <==> plan.media && media_connected
            &&& w.maps <==> plan.archive is Some
            &&& w.timers == plan.timers
            &&& w.lists == plan.lists
            &&& w.web_assets == web_assets
            &&& w.public_health == loopback
            &&& w.sessions && w.runs && w.artifacts && w.display && w.deepdive && w.memories
            &&& !w.appbridge
        }),
{
}

/// The daemon starts exactly where the search provider, if one is configured, is
/// the one that is supported, and the volume limit is a percentage.
pub proof fn law_the_daemon_starts_where_it_can(config: Config)
    ensures
        start_fault(config) is None <==> {
            &&& config.integrations.web_search matches Some(web) ==> web.provider@ == "brave"@
            &&& config.integrations.media.max_volume_pct <= 100
        },
{
}

/// The plan asks for exactly the secrets of what is switched on, and takes its
/// limits from the configuration.
pub proof fn law_the_plan_follows_the_configuration(
    plan: StartPlan,
    config: Config,
    profile: DisplayProfile,
)
    requires
        plans(plan, config, profile),
    ensures
        plan.smtp_secret is Some <==> config.integrations.smtp.enabled,
        plan.smtp_secret matches Some(s) ==> s@ == config.integrations.smtp.password_secret@,
        plan.caldav_secret is Some <==> config.integrations.caldav.enabled,
        plan.caldav_secret matches Some(s) ==> s@ == config.integrations.caldav.password_secret@,
        plan.web is Some <==> config.integrations.web_search is Some,
        plan.web matches Some((secret, bound)) ==> secret@
            == config.integrations.web_search->0.api_key_secret@ && bound
            == config.integrations.web_search->0.max_fetch_bytes,
        plan.max_volume.pct == config.integrations.media.max_volume_pct,
        plan.media == config.integrations.media.enabled,
        plan.timers == config.timers.enabled,
        plan.lists == config.lists.enabled,
        plan.cast <==> exists|i: int|
            0 <= i < profile.assignments@.len() && (#[trigger] profile.assignments@[i]).0
                == Surface::MediaWindow,
{
    display::law_the_first_assignment_holds(profile.assignments@, Surface::MediaWindow);
}

/// The daemon stops in an order that loses nothing: it takes no more requests
/// before it lets the runs end, it waits for the timers while what they send can
/// still go out, and telemetry goes last. Every part stops once.
pub proof fn law_the_daemon_stops_in_order(timers: bool)
    ensures
        shutdown_order(timers).no_duplicates(),
        shutdown_order(timers)[0] == ShutdownStep::StopServing,
        shutdown_order(timers)[1] == ShutdownStep::DrainRuns,
        shutdown_order(timers)[shutdown_order(timers).len() - 2] == ShutdownStep::StopDispatcher,
        shutdown_order(timers).last() == ShutdownStep::DrainTelemetry,
        shutdown_order(timers).contains(ShutdownStep::JoinTimers) <==> timers,
        shutdown_order(timers).len() == (if timers {
            5nat
        } else {
            4nat
        }),
{
    if timers {
        assert(shutdown_order(timers)[2] == ShutdownStep::JoinTimers);
    }
}

/// How long the dispatcher waits before it starts again, if it does.
pub open spec fn restart_wait(failed: bool) -> Option<u64> {
    if failed {
        Some(DISPATCH_RESTART_BACKOFF_SECS)
    } else {
        None
    }
}

/// A dispatcher that failed starts again a second later; one that ended in order
/// does not.
pub proof fn law_a_failed_dispatcher_starts_again(failed: bool)
    ensures
        restart_wait(failed) is Some <==> failed,
        restart_wait(failed) matches Some(secs) ==> secs == 1,
        DRAIN_DEADLINE_SECS == 15,
        RECOVERY_MESSAGES == 100,
{
}

/// The daemon is on the loopback exactly where the address it binds is.
pub proof fn law_the_loopback_is_the_address_bound(shown: String, loopback: bool, reason: String)
    ensures
        on_loopback(BindAddress::Socket { shown, loopback }) <==> loopback,
        !on_loopback(BindAddress::Unreadable { reason }),
{
}

} // verus!
