//! The dashboard as a whole.
use super::change::{after_headers, headers_step, ChangeStep};
use super::http::{
    config_refusal, config_refused, query_authorized, reply_view, ws_refusal, HttpHeaders,
    HttpReply,
};
use super::json::{rendered, value_field};
use super::telemetry::{
    event_fields, event_heard, event_log, event_to_ws_msg, heard_by, log_fields, log_text,
    log_to_ws_msg, snapshot_fields, snapshot_to_ws_msg, Dashboard, DashboardState, LastHeard, Ms,
    TelemetryEvent,
};
use crate::text::{opt_str, opt_view};
use std::time::Instant;
use vstd::prelude::*;

verus! {

/// What is to be told of an event.
pub struct Notice {
    /// An entry of the log.
    pub log: Option<String>,
    /// A station that was heard.
    pub heard: Option<LastHeard>,
    /// A message for all browsers.
    pub message: Option<String>,
}

pub struct DashboardServer<R> {
    pub state: DashboardState<R>,
    pub config_path: String,
    pub allow_config_api: bool,
    pub allow_control_commands: bool,
    pub auth_token: Option<String>,
}

impl<R: Copy> DashboardServer<R> {
    pub fn new(
        config_path: String,
        allow_config_api: bool,
        allow_control_commands: bool,
        auth_token: Option<String>,
    ) -> (out: DashboardServer<R>)
        ensures
            out.state@ == (Dashboard {
                ms: Map::<u32, Ms<R>>::empty(),
                calls: Map::empty(),
                brew_online: false,
            }),
            out.config_path == config_path,
            out.allow_config_api == allow_config_api,
            out.allow_control_commands == allow_control_commands,
            out.auth_token == auth_token,
    {
        DashboardServer {
            state: DashboardState::new(),
            config_path,
            allow_config_api,
            allow_control_commands,
            auth_token,
        }
    }

    /// Takes an event and says what is to be told of it. `now` is the current time.
    pub fn handle_telemetry(&mut self, event: &TelemetryEvent<R>, now: Instant) -> (out: Notice)
        ensures
            final(self).state@ == old(self).state@.after(*event, now),
            final(self).config_path == old(self).config_path,
            final(self).allow_config_api == old(self).allow_config_api,
            final(self).allow_control_commands == old(self).allow_control_commands,
            final(self).auth_token == old(self).auth_token,
            opt_view(out.log) == log_text(*event),
            out.heard == heard_by(*event),
            opt_view(out.message) == Some(rendered(event_fields(*event))),
    {
        let message = event_to_ws_msg(event);
        self.state.take(event, now);
        Notice { log: event_log(event), heard: event_heard(event), message }
    }

    /// The message for all browsers about a new entry of the log.
    pub fn push_log(&self, ts: &str, level: &str, msg: &str) -> (out: Option<String>)
        ensures
            opt_view(out) == Some(rendered(log_fields(ts@, level@, msg@))),
    {
        log_to_ws_msg(ts, level, msg)
    }

    /// The first message that a browser gets: the stations, the calls, the log and the stations
    /// that were last heard, as they are given, and whether the network link stands.
    pub fn snapshot(
        &self,
        ms: &serde_json::Value,
        calls: &serde_json::Value,
        log: &serde_json::Value,
        last_heard: &serde_json::Value,
    ) -> (out: Option<String>)
        ensures
            opt_view(out) == Some(
                rendered(
                    snapshot_fields(
                        value_field(*ms),
                        value_field(*calls),
                        value_field(*log),
                        self.state@.brew_online,
                        value_field(*last_heard),
                    ),
                ),
            ),
    {
        snapshot_to_ws_msg(ms, calls, log, self.state.brew_online, last_heard)
    }

    /// The reply by which reading the configuration is refused, where it is.
    pub fn read_refusal(&self, headers: &HttpHeaders) -> (out: Option<HttpReply>)
        ensures
            reply_view(out) == config_refused(
                self.allow_config_api,
                headers@.token,
                opt_view(self.auth_token),
            ),
    {
        config_refusal(self.allow_config_api, &headers.token, &self.auth_token)
    }

    /// What follows from the headers of a request to change the configuration.
    pub fn change_step(&self, headers: &HttpHeaders) -> (out: ChangeStep)
        ensures
            out@ == after_headers(self.allow_config_api, headers@, opt_view(self.auth_token)),
    {
        headers_step(self.allow_config_api, headers, &self.auth_token)
    }

    /// Why a connection for messages with this query is refused, where it is.
    pub fn connection_refusal(&self, query: Option<&str>) -> (out: Option<&'static str>)
        ensures
            opt_str(out) == if query_authorized(opt_str(query), opt_view(self.auth_token)) {
                None
            } else {
                Some("401 Unauthorized"@)
            },
    {
        match &self.auth_token {
            Some(token) => ws_refusal(query, Some(token.as_str())),
            None => ws_refusal(query, None),
        }
    }
}

// ---------------------------------------------------------------------------------------------
// Laws
// ---------------------------------------------------------------------------------------------
/// The dashboard takes an event as its state does, tells of it all that is to be told, and changes
/// nothing else.
pub proof fn events_are_taken_and_told<R: Copy>(
    server: &mut DashboardServer<R>,
    event: &TelemetryEvent<R>,
    now: Instant,
    out: Notice,
    state: &mut DashboardState<R>,
    done: (),
    log: Option<String>,
    heard: Option<LastHeard>,
    message: Option<String>,
)
    requires
        call_ensures(DashboardServer::<R>::handle_telemetry, (server, event, now), out),
        *state == server.state,
        call_ensures(DashboardState::<R>::take, (state, event, now), done),
        call_ensures(event_log::<R>, (event,), log),
        call_ensures(event_heard::<R>, (event,), heard),
        call_ensures(event_to_ws_msg::<R>, (event,), message),
    ensures
        final(server).state@ == final(state)@,
        opt_view(out.log) == opt_view(log),
        out.heard == heard,
        opt_view(out.message) == opt_view(message),
        final(server).config_path == old(server).config_path,
        final(server).allow_config_api == old(server).allow_config_api,
        final(server).allow_control_commands == old(server).allow_control_commands,
        final(server).auth_token == old(server).auth_token,
{
}

/// A new dashboard knows nothing yet, and is as it is configured.
pub proof fn new_dashboard_is_as_configured<R: Copy>(
    config_path: String,
    allow_config_api: bool,
    allow_control_commands: bool,
    auth_token: Option<String>,
    out: DashboardServer<R>,
    state: DashboardState<R>,
)
    requires
        call_ensures(
            DashboardServer::<R>::new,
            (config_path, allow_config_api, allow_control_commands, auth_token),
            out,
        ),
        call_ensures(DashboardState::<R>::new, (), state),
    ensures
        out.state@ == state@,
        out.config_path == config_path,
        out.allow_config_api == allow_config_api,
        out.allow_control_commands == allow_control_commands,
        out.auth_token == auth_token,
{
}

/// The dashboard makes its messages of what it is given and of the network link that it knows, and
/// refuses by its own settings and its own token.
pub proof fn dashboard_answers_by_its_own_settings<R: Copy>(
    server: &DashboardServer<R>,
    ts: &str,
    level: &str,
    msg: &str,
    log_out: Option<String>,
    log_msg: Option<String>,
    ms: &serde_json::Value,
    calls: &serde_json::Value,
    log: &serde_json::Value,
    last_heard: &serde_json::Value,
    snapshot: Option<String>,
    snapshot_msg: Option<String>,
    headers: &HttpHeaders,
    read: Option<HttpReply>,
    refusal: Option<HttpReply>,
    change: ChangeStep,
    step: ChangeStep,
    query: Option<&str>,
    token: Option<&str>,
    connection: Option<&'static str>,
    refused: Option<&'static str>,
)
    requires
        call_ensures(DashboardServer::<R>::push_log, (server, ts, level, msg), log_out),
        call_ensures(log_to_ws_msg, (ts, level, msg), log_msg),
        call_ensures(
            DashboardServer::<R>::snapshot,
            (server, ms, calls, log, last_heard),
            snapshot,
        ),
        call_ensures(
            snapshot_to_ws_msg,
            (ms, calls, log, server.state.brew_online, last_heard),
            snapshot_msg,
        ),
        call_ensures(DashboardServer::<R>::read_refusal, (server, headers), read),
        call_ensures(
            config_refusal,
            (server.allow_config_api, &headers.token, &server.auth_token),
            refusal,
        ),
        call_ensures(DashboardServer::<R>::change_step, (server, headers), change),
        call_ensures(headers_step, (server.allow_config_api, headers, &server.auth_token), step),
        opt_str(token) == opt_view(server.auth_token),
        call_ensures(DashboardServer::<R>::connection_refusal, (server, query), connection),
        call_ensures(ws_refusal, (query, token), refused),
    ensures
        opt_view(log_out) == opt_view(log_msg),
        opt_view(snapshot) == opt_view(snapshot_msg),
        reply_view(read) == reply_view(refusal),
        change@ == step@,
        opt_str(connection) == opt_str(refused),
{
}

} // verus!
