//! What the server keeps while it runs.

use vstd::prelude::*;

use crate::api::formation::search::FormationClient;
use crate::api::gtfs_rt::GtfsRtClient;
use crate::api::ojp::client::OjpClient;
use crate::config::Config;
use crate::error::Error;
use crate::json;
use crate::json::{Json, JsonView};
use crate::mcp::tools;
use crate::models::{ToolWarning, TransportMode, TripDetails};
use crate::service::monitor;
use crate::service::monitor::{Monitor, SubscriptionState};

verus! {

/// What the server keeps while it runs.
#[derive(Debug)]
pub struct AppState {
    /// The configuration.
    pub config: Config,
    /// The journey planner.
    pub ojp: OjpClient,
    /// The live feed.
    pub gtfs_rt: GtfsRtClient,
    /// The formation service.
    pub formation: FormationClient,
    /// The subscriptions of the client.
    pub monitor: Monitor,
}

impl AppState {
    /// The state of a server that just started: each client has its own endpoint and
    /// token, and nothing is subscribed to.
    pub fn new(config: Config) -> (r: AppState)
        ensures
            r.config.deep_view() == config.deep_view(),
            r.ojp.endpoint@ == config.ojp_endpoint@,
            r.ojp.token@ == config.api_token@,
            r.gtfs_rt.endpoint@ == config.gtfs_rt_endpoint@,
            r.gtfs_rt.token@ == config.gtfs_rt_token@,
            r.formation.endpoint@ == config.formation_endpoint@,
            r.formation.token@ == config.formation_token@,
            r.monitor.deep_view().len() == 0,
            r.ojp.station_cache.contents().dom().is_empty(),
            r.ojp.trip_cache.contents().dom().is_empty(),
            r.ojp.known_stations@.len() == 0,
            r.gtfs_rt.cache.contents().dom().is_empty(),
    {
        let ojp = OjpClient::new(config.ojp_endpoint.clone(), config.api_token.clone());
        let gtfs_rt = GtfsRtClient::new(
            config.gtfs_rt_endpoint.clone(),
            config.gtfs_rt_token.clone(),
        );
        let formation = FormationClient::new(
            config.formation_endpoint.clone(),
            config.formation_token.clone(),
        );
        AppState { config, ojp, gtfs_rt, formation, monitor: Monitor::new() }
    }

    /// The notifications that are due, given what is known of the first trips of a snapshot
    /// of the subscriptions.
    pub fn monitor_notifications(
        &mut self,
        snapshot: &Vec<SubscriptionState>,
        outcomes: &Vec<Result<(Option<TripDetails>, Option<ToolWarning>), Error>>,
    ) -> (r: Result<Vec<Json>, Error>)
        requires
            outcomes@.len() <= snapshot@.len(),
        ensures
            final(self).config == old(self).config,
            final(self).ojp == old(self).ojp,
            final(self).gtfs_rt == old(self).gtfs_rt,
            final(self).formation == old(self).formation,
            ({
                let (subscriptions, notes) = monitor::after_round(
                    old(self).monitor.deep_view(),
                    snapshot.deep_view(),
                    monitor::trip_outcomes(outcomes@),
                );
                &&& final(self).monitor.deep_view() == subscriptions
                &&& notes == match r {
                    Ok(sent) => Ok(json::views(sent@)),
                    Err(e) => Err(e.deep_view()),
                }
            }),
    {
        self.monitor.run_round(snapshot, outcomes)
    }
}

/// The words for modes.
pub open spec fn mode_words(modes: Seq<TransportMode>) -> Seq<Seq<char>> {
    Seq::new(modes.len(), |i: int| modes[i].name())
}

/// All modes, by their words.
pub fn list_transport_modes() -> (r: Json)
    ensures
        r.deep_view() == JsonView::Object(
            seq![
                (
                    "modes"@,
                    JsonView::Array(
                        tools::text_items(
                            mode_words(
                                seq![
                                    TransportMode::Rail,
                                    TransportMode::Bus,
                                    TransportMode::Tram,
                                    TransportMode::Ship,
                                    TransportMode::Cableway,
                                    TransportMode::Funicular,
                                    TransportMode::All,
                                ],
                            ),
                        ),
                    ),
                ),
            ],
        ),
{
    let modes = TransportMode::all_modes();
    let mut words: Vec<String> = Vec::new();
    let mut i: usize = 0;
    while i < modes.len()
        invariant
            i <= modes@.len(),
            words@.len() == i,
            forall|k: int| 0 <= k < i ==> (#[trigger] words@[k])@ == modes@[k].name(),
        decreases modes@.len() - i,
    {
        words.push(modes[i].as_str().to_owned());
        i += 1;
    }
    assert(words.deep_view() =~= mode_words(modes@));
    let mut fields: Vec<(String, Json)> = Vec::new();
    assert(json::field_views(fields@) =~= Seq::empty());
    tools::add_field(&mut fields, "modes", tools::list_texts(&words));
    assert(json::field_views(fields@) =~= seq![
        ("modes"@, JsonView::Array(tools::text_items(mode_words(modes@)))),
    ]);
    Json::object(fields)
}

/// The words for modes are those that name them, in the same order.
pub proof fn law_modes_are_told_by_their_words(modes: Seq<TransportMode>, mode: TransportMode)
    ensures
        mode_words(modes.push(mode)) == mode_words(modes).push(mode.name()),
        mode_words(Seq::empty()).len() == 0,
{
    assert(mode_words(modes.push(mode)) =~= mode_words(modes).push(mode.name()));
}

} // verus!
