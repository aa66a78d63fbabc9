//! The output router of one run: what each line of the child's output and error streams
//! does to the registry, to the legacy slot, and what it makes the caller emit.
//!
//! The caller reads the two streams, one task each, and hands every line to the router
//! in the order it was read. The first init line of the output stream fixes the session
//! id of the run; later init lines are ordinary lines.

use crate::envelope::{decode, decoded, Envelope, EnvelopeView};
use crate::event::{
    line_effect, line_event, Channel, Effect, EffectView, Notification, NotificationView, Payload,
    PayloadView, SessionState, SessionStateView,
};
use crate::registry::{Registry, RegistryView};
use crate::run::{LaunchInfo, LaunchInfoView, RunId};
use crate::slot::{announced, LegacySlot, OccupantView};
use vstd::prelude::*;
use vstd::string::*;

verus! {

/// The router as a mathematical value.
pub struct RouterView {
    pub launch: LaunchInfoView,
    /// The registry id of the run, once it has one.
    pub run_id: Option<RunId>,
    /// The session id the child has announced, once it has.
    pub session_id: Option<Seq<char>>,
}

/// Everything one line changes and causes.
pub struct Routed {
    pub router: RouterView,
    pub registry: RegistryView,
    pub slot: Option<OccupantView>,
    pub effects: Seq<EffectView>,
}

/// The notification that a session has started.
pub open spec fn started_effect(launch: LaunchInfoView, run_id: RunId, session_id: Seq<char>) -> EffectView {
    EffectView::Emit(
        NotificationView {
            tool: launch.tool_kind,
            channel: Channel::SessionState,
            session: None,
            payload: PayloadView::State(
                SessionStateView {
                    session_id,
                    started: true,
                    project_path: Some(launch.project_path),
                    model: Some(launch.model),
                    pid: Some(launch.pid),
                    run_id: Some(run_id),
                    success: None,
                    error: None,
                },
            ),
        },
    )
}

impl RouterView {
    /// The run id the router works with once a session has been announced: the one it
    /// had, or the one a registration at that moment gives.
    pub open spec fn run_id_at_capture(self, registry: RegistryView) -> Option<RunId> {
        match self.run_id {
            Some(id) => Some(id),
            None => if registry.can_register() {
                Some(registry.next_run_id)
            } else {
                None
            },
        }
    }

    /// The registry once the run is entered for the announcement, before promotion.
    pub open spec fn registry_at_capture(self, registry: RegistryView) -> RegistryView {
        if self.run_id is None && registry.can_register() {
            registry.registered(self.launch)
        } else {
            registry
        }
    }

    /// Capturing the session id `sid`: the run is registered if it was not, promoted, noted
    /// in the legacy slot, and, where the promotion was accepted, announced to listeners.
    pub open spec fn capture(
        self,
        registry: RegistryView,
        slot: Option<OccupantView>,
        sid: Seq<char>,
    ) -> Routed {
        let run_id = self.run_id_at_capture(registry);
        let entered = self.registry_at_capture(registry);
        let router = RouterView { run_id, session_id: Some(sid), ..self };
        let slot = announced(slot, self.launch.pid, run_id, sid);
        match run_id {
            Some(id) => Routed {
                router,
                registry: entered.promoted(id, sid),
                slot,
                effects: if entered.promotion(id, sid) is Ok {
                    seq![started_effect(self.launch, id, sid)]
                } else {
                    Seq::empty()
                },
            },
            None => Routed { router, registry: entered, slot, effects: Seq::empty() },
        }
    }

    /// What the usage collaborator is told about a line.
    pub open spec fn usage_effects(self, envelope: Option<EnvelopeView>) -> Seq<EffectView> {
        match (envelope, self.session_id) {
            (Some(e), Some(sid)) => match e.token_total() {
                Some(total) => seq![EffectView::ReportUsage { session_id: sid, total_tokens: total }],
                None => Seq::empty(),
            },
            _ => Seq::empty(),
        }
    }

    /// The notifications that forward a line on `channel`: the session-scoped one first,
    /// where the session is known, then the generic one.
    pub open spec fn forward(self, channel: Channel, line: Seq<char>) -> Seq<EffectView> {
        let generic = line_effect(self.launch.tool_kind, channel, None, line);
        match self.session_id {
            Some(sid) => seq![line_effect(self.launch.tool_kind, channel, Some(sid), line), generic],
            None => seq![generic],
        }
    }

    /// Whether `envelope` makes the router capture a session id.
    pub open spec fn captures(self, envelope: Option<EnvelopeView>) -> bool {
        self.session_id is None && envelope is Some && envelope->0.announced_session() is Some
    }

    /// One line of the output stream, with the envelope decoded from it.
    pub open spec fn route(
        self,
        registry: RegistryView,
        slot: Option<OccupantView>,
        line: Seq<char>,
        envelope: Option<EnvelopeView>,
    ) -> Routed {
        let first = if self.captures(envelope) {
            self.capture(registry, slot, envelope->0.announced_session()->0)
        } else {
            Routed { router: self, registry, slot, effects: Seq::empty() }
        };
        Routed {
            router: first.router,
            registry: match first.router.run_id {
                Some(id) => first.registry.appended(id, line),
                None => first.registry,
            },
            slot: first.slot,
            effects: first.effects + first.router.usage_effects(envelope) + first.router.forward(
                Channel::Output,
                line,
            ),
        }
    }
}

/// The output router of one run.
#[derive(Debug)]
pub struct Router {
    launch: LaunchInfo,
    run_id: Option<RunId>,
    session_id: Option<String>,
}

/// Appends one effect.
pub(crate) fn push_effect(effects: &mut Vec<Effect>, effect: Effect)
    ensures
        final(effects).deep_view() == old(effects).deep_view().push(effect@),
{
    effects.push(effect);
    assert(effects.deep_view() =~= old(effects).deep_view().push(effect@));
}

/// An empty list of effects.
pub(crate) fn no_effects() -> (r: Vec<Effect>)
    ensures
        r.deep_view() == Seq::<EffectView>::empty(),
{
    let r: Vec<Effect> = Vec::new();
    assert(r.deep_view() =~= Seq::<EffectView>::empty());
    r
}

impl View for Router {
    type V = RouterView;

    closed spec fn view(&self) -> RouterView {
        RouterView {
            launch: self.launch@,
            run_id: self.run_id,
            session_id: self.session_id.deep_view(),
        }
    }
}

impl Router {
    /// The router of a run that has just been launched. `run_id` is the registry id of
    /// the run where it was registered at launch, `None` where registration waits for the
    /// child to announce its session.
    pub fn new(launch: LaunchInfo, run_id: Option<RunId>) -> (r: Router)
        ensures
            r@ == (RouterView { launch: launch@, run_id, session_id: None }),
    {
        Router { launch, run_id, session_id: None }
    }

    /// The registry id of the run, once it has one.
    pub fn run_id(&self) -> (r: Option<RunId>)
        ensures
            r == self@.run_id,
    {
        self.run_id
    }

    /// The session id the child has announced, once it has.
    pub fn session_id(&self) -> (r: Option<&String>)
        ensures
            r.deep_view() == self@.session_id,
    {
        self.session_id.as_ref()
    }

    /// What the run was launched with.
    pub fn launch(&self) -> (r: &LaunchInfo)
        ensures
            r@ == self@.launch,
    {
        &self.launch
    }

    fn capture(
        &mut self,
        registry: &mut Registry,
        slot: &mut LegacySlot,
        sid: &str,
        effects: &mut Vec<Effect>,
    )
        requires
            old(registry).wf(),
            old(self)@.session_id is None,
        ensures
            final(registry).wf(),
            final(self)@ == old(self)@.capture(old(registry)@, old(slot)@, sid@).router,
            final(registry)@ == old(self)@.capture(old(registry)@, old(slot)@, sid@).registry,
            final(slot)@ == old(self)@.capture(old(registry)@, old(slot)@, sid@).slot,
            final(effects).deep_view() == old(effects).deep_view() + old(self)@.capture(
                old(registry)@,
                old(slot)@,
                sid@,
            ).effects,
    {
        if self.run_id.is_none() {
            match registry.register_run(self.launch.clone()) {
                Ok(id) => {
                    self.run_id = Some(id);
                },
                Err(_) => {},
            }
        }
        self.session_id = Some(String::from_str(sid));
        slot.announce(self.launch.pid, self.run_id, sid);
        match self.run_id {
            Some(id) => {
                let outcome = registry.promote_to_session(id, sid);
                if outcome.is_ok() {
                    let started = Effect::Emit(
                        Notification {
                            tool: self.launch.tool_kind,
                            channel: Channel::SessionState,
                            session: None,
                            payload: Payload::State(
                                SessionState {
                                    session_id: String::from_str(sid),
                                    started: true,
                                    project_path: Some(self.launch.project_path.clone()),
                                    model: Some(self.launch.model.clone()),
                                    pid: Some(self.launch.pid),
                                    run_id: Some(id),
                                    success: None,
                                    error: None,
                                },
                            ),
                        },
                    );
                    assert(started@ == started_effect(self@.launch, id, sid@));
                    push_effect(effects, started);
                    assert(old(effects).deep_view().push(started@) =~= old(effects).deep_view()
                        + seq![started@]);
                } else {
                    assert(old(effects).deep_view() =~= old(effects).deep_view()
                        + Seq::<EffectView>::empty());
                }
            },
            None => {
                assert(old(effects).deep_view() =~= old(effects).deep_view()
                    + Seq::<EffectView>::empty());
            },
        }
    }

    fn forward(&self, channel: Channel, line: &str, effects: &mut Vec<Effect>)
        ensures
            final(effects).deep_view() == old(effects).deep_view() + self@.forward(channel, line@),
    {
        match &self.session_id {
            Some(sid) => {
                push_effect(
                    effects,
                    line_event(self.launch.tool_kind, channel, Some(sid.clone()), line),
                );
            },
            None => {},
        }
        push_effect(effects, line_event(self.launch.tool_kind, channel, None, line));
        assert(effects.deep_view() =~= old(effects).deep_view() + self@.forward(channel, line@));
    }

    /// Routes one line of the output stream whose envelope the caller has decoded.
    ///
    /// An init line captures the session id if none was captured before. A usage line is
    /// reported to the usage collaborator once the session is known. Whatever the line
    /// holds, it is appended to the run's buffered output, where the run is registered,
    /// and forwarded to listeners: session-scoped first, then generic.
    pub fn route_decoded(
        &mut self,
        registry: &mut Registry,
        slot: &mut LegacySlot,
        line: &str,
        envelope: Option<&Envelope>,
    ) -> (effects: Vec<Effect>)
        requires
            old(registry).wf(),
        ensures
            final(registry).wf(),
            final(self)@ == old(self)@.route(
                old(registry)@,
                old(slot)@,
                line@,
                envelope.deep_view(),
            ).router,
            final(registry)@ == old(self)@.route(
                old(registry)@,
                old(slot)@,
                line@,
                envelope.deep_view(),
            ).registry,
            final(slot)@ == old(self)@.route(
                old(registry)@,
                old(slot)@,
                line@,
                envelope.deep_view(),
            ).slot,
            effects.deep_view() == old(self)@.route(
                old(registry)@,
                old(slot)@,
                line@,
                envelope.deep_view(),
            ).effects,
    {
        let mut effects = no_effects();
        let announced = match envelope {
            Some(e) => e.announced_session(),
            None => None,
        };
        if self.session_id.is_none() {
            match announced {
                Some(sid) => {
                    self.capture(registry, slot, sid.as_str(), &mut effects);
                },
                None => {},
            }
        }
        let ghost first = if old(self)@.captures(envelope.deep_view()) {
            old(self)@.capture(
                old(registry)@,
                old(slot)@,
                envelope.deep_view()->0.announced_session()->0,
            )
        } else {
            Routed {
                router: old(self)@,
                registry: old(registry)@,
                slot: old(slot)@,
                effects: Seq::empty(),
            }
        };
        assert(self@ == first.router);
        assert(registry@ == first.registry);
        assert(effects.deep_view() =~= first.effects);
        let total = match envelope {
            Some(e) => e.token_total(),
            None => None,
        };
        match (total, &self.session_id) {
            (Some(total_tokens), Some(sid)) => {
                push_effect(
                    &mut effects,
                    Effect::ReportUsage { session_id: sid.clone(), total_tokens },
                );
            },
            _ => {},
        }
        assert(effects.deep_view() =~= first.effects + first.router.usage_effects(
            envelope.deep_view(),
        ));
        match self.run_id {
            Some(id) => {
                registry.append_live_output(id, line);
            },
            None => {},
        }
        self.forward(Channel::Output, line, &mut effects);
        effects
    }

    /// Routes one line of the output stream.
    ///
    /// The line is decoded and then routed as [`Router::route_decoded`] says. A line that
    /// is not JSON is routed all the same; it only cannot announce a session or report
    /// usage.
    pub fn route_stdout_line(
        &mut self,
        registry: &mut Registry,
        slot: &mut LegacySlot,
        line: &str,
    ) -> (effects: Vec<Effect>)
        requires
            old(registry).wf(),
        ensures
            final(registry).wf(),
            final(self)@ == old(self)@.route(old(registry)@, old(slot)@, line@, decoded(line@)).router,
            final(registry)@ == old(self)@.route(
                old(registry)@,
                old(slot)@,
                line@,
                decoded(line@),
            ).registry,
            final(slot)@ == old(self)@.route(old(registry)@, old(slot)@, line@, decoded(line@)).slot,
            effects.deep_view() == old(self)@.route(
                old(registry)@,
                old(slot)@,
                line@,
                decoded(line@),
            ).effects,
    {
        let envelope = decode(line);
        self.route_decoded(registry, slot, line, envelope.as_ref())
    }

    /// Routes one line of the error stream: it is forwarded to listeners, session-scoped
    /// first where the session is known, then generic. It touches neither the buffered
    /// output nor the status of the run.
    pub fn route_stderr_line(&self, line: &str) -> (effects: Vec<Effect>)
        ensures
            effects.deep_view() == self@.forward(Channel::Error, line@),
    {
        let mut effects = no_effects();
        self.forward(Channel::Error, line, &mut effects);
        assert(Seq::<EffectView>::empty() + self@.forward(Channel::Error, line@) =~= self@.forward(
            Channel::Error,
            line@,
        ));
        effects
    }
}

/// Routing the lines of an output stream one after another, as [`Router::route_stdout_line`]
/// does for each.
pub open spec fn route_all(
    router: RouterView,
    registry: RegistryView,
    slot: Option<OccupantView>,
    lines: Seq<Seq<char>>,
) -> Routed
    decreases lines.len(),
{
    if lines.len() == 0 {
        Routed { router, registry, slot, effects: Seq::empty() }
    } else {
        let before = route_all(router, registry, slot, lines.drop_last());
        let step = before.router.route(
            before.registry,
            before.slot,
            lines.last(),
            decoded(lines.last()),
        );
        Routed { effects: before.effects + step.effects, ..step }
    }
}

/// The session id that `line` announces, if it is an init line.
pub open spec fn announced_by(line: Seq<char>) -> Option<Seq<char>> {
    match decoded(line) {
        Some(e) => e.announced_session(),
        None => None,
    }
}

/// The session id announced by the first init line among `lines`.
pub open spec fn first_announced(lines: Seq<Seq<char>>) -> Option<Seq<char>>
    decreases lines.len(),
{
    if lines.len() == 0 {
        None
    } else {
        match first_announced(lines.drop_last()) {
            Some(sid) => Some(sid),
            None => announced_by(lines.last()),
        }
    }
}

/// Whether `effect` tells listeners that a session has started.
pub open spec fn is_started(effect: EffectView) -> bool {
    match effect {
        EffectView::Emit(n) => match n.payload {
            PayloadView::State(state) => n.channel == Channel::SessionState && state.started,
            _ => false,
        },
        _ => false,
    }
}

/// How many of `effects` tell listeners that a session has started.
pub open spec fn started_count(effects: Seq<EffectView>) -> nat
    decreases effects.len(),
{
    if effects.len() == 0 {
        0
    } else {
        started_count(effects.drop_last()) + if is_started(effects.last()) {
            1nat
        } else {
            0nat
        }
    }
}

/// The line that `effect` forwards on the generic event of `channel`, if it does.
pub open spec fn forwarded_line(effect: EffectView, channel: Channel) -> Option<Seq<char>> {
    match effect {
        EffectView::Emit(n) => match n.payload {
            PayloadView::Line(line) => if n.channel == channel && n.session is None {
                Some(line)
            } else {
                None
            },
            _ => None,
        },
        _ => None,
    }
}

/// The lines that `effects` forward on the generic event of `channel`, in order.
pub open spec fn forwarded_lines(effects: Seq<EffectView>, channel: Channel) -> Seq<Seq<char>>
    decreases effects.len(),
{
    if effects.len() == 0 {
        Seq::empty()
    } else {
        let earlier = forwarded_lines(effects.drop_last(), channel);
        match forwarded_line(effects.last(), channel) {
            Some(line) => earlier.push(line),
            None => earlier,
        }
    }
}

/// Counting started notifications distributes over concatenation.
pub proof fn lemma_started_count_add(a: Seq<EffectView>, b: Seq<EffectView>)
    ensures
        started_count(a + b) == started_count(a) + started_count(b),
    decreases b.len(),
{
    if b.len() == 0 {
        assert(a + b =~= a);
    } else {
        assert((a + b).drop_last() =~= a + b.drop_last());
        assert((a + b).last() == b.last());
        lemma_started_count_add(a, b.drop_last());
    }
}

/// Collecting forwarded lines distributes over concatenation.
pub proof fn lemma_forwarded_lines_add(a: Seq<EffectView>, b: Seq<EffectView>, channel: Channel)
    ensures
        forwarded_lines(a + b, channel) == forwarded_lines(a, channel) + forwarded_lines(
            b,
            channel,
        ),
    decreases b.len(),
{
    if b.len() == 0 {
        assert(a + b =~= a);
        assert(forwarded_lines(a, channel) + forwarded_lines(b, channel) =~= forwarded_lines(
            a,
            channel,
        ));
    } else {
        assert((a + b).drop_last() =~= a + b.drop_last());
        assert((a + b).last() == b.last());
        lemma_forwarded_lines_add(a, b.drop_last(), channel);
        let earlier = forwarded_lines(a, channel) + forwarded_lines(b.drop_last(), channel);
        assert(forall|line: Seq<char>|
            (forwarded_lines(a, channel) + forwarded_lines(b.drop_last(), channel)).push(line)
                =~= forwarded_lines(a, channel) + forwarded_lines(b.drop_last(), channel).push(
                line,
            ));
    }
}

/// The counts and forwarded lines of short effect lists.
proof fn lemma_short_lists(e: EffectView, channel: Channel)
    ensures
        started_count(Seq::<EffectView>::empty()) == 0,
        forwarded_lines(Seq::<EffectView>::empty(), channel) == Seq::<Seq<char>>::empty(),
        started_count(seq![e]) == (if is_started(e) {
            1nat
        } else {
            0nat
        }),
        forwarded_lines(seq![e], channel) == (match forwarded_line(e, channel) {
            Some(line) => seq![line],
            None => Seq::<Seq<char>>::empty(),
        }),
{
    assert(seq![e].drop_last() =~= Seq::<EffectView>::empty());
    assert(seq![e].last() == e);
    assert(forwarded_lines(seq![e].drop_last(), channel) =~= Seq::<Seq<char>>::empty());
    match forwarded_line(e, channel) {
        Some(line) => {
            assert(Seq::<Seq<char>>::empty().push(line) =~= seq![line]);
        },
        None => {},
    }
}

/// What one line does, in the terms the laws below are stated in: it starts at most one
/// session, and only when it captures; it forwards exactly itself on the generic output
/// event; and the router keeps a session id it has.
pub proof fn lemma_route_step(
    router: RouterView,
    registry: RegistryView,
    slot: Option<OccupantView>,
    line: Seq<char>,
    envelope: Option<EnvelopeView>,
)
    ensures
        ({
            let step = router.route(registry, slot, line, envelope);
            &&& step.router.launch == router.launch
            &&& started_count(step.effects) <= 1
            &&& !router.captures(envelope) ==> started_count(step.effects) == 0
            &&& forwarded_lines(step.effects, Channel::Output) == seq![line]
            &&& router.session_id is Some ==> step.router.session_id == router.session_id
            &&& router.session_id is None ==> step.router.session_id == (match envelope {
                Some(e) => e.announced_session(),
                None => None,
            })
        }),
{
    let step = router.route(registry, slot, line, envelope);
    let first = if router.captures(envelope) {
        router.capture(registry, slot, envelope->0.announced_session()->0)
    } else {
        Routed { router, registry, slot, effects: Seq::empty() }
    };
    let tool = router.launch.tool_kind;
    let usage = first.router.usage_effects(envelope);
    let fwd = first.router.forward(Channel::Output, line);
    let generic = line_effect(tool, Channel::Output, None, line);
    lemma_short_lists(generic, Channel::Output);
    if first.effects.len() > 0 {
        assert(first.effects =~= seq![first.effects[0]]);
        lemma_short_lists(first.effects[0], Channel::Output);
    } else {
        assert(first.effects =~= Seq::<EffectView>::empty());
    }
    if usage.len() > 0 {
        assert(usage =~= seq![usage[0]]);
        lemma_short_lists(usage[0], Channel::Output);
    } else {
        assert(usage =~= Seq::<EffectView>::empty());
    }
    match first.router.session_id {
        Some(sid) => {
            let scoped = line_effect(tool, Channel::Output, Some(sid), line);
            lemma_short_lists(scoped, Channel::Output);
            assert(fwd =~= seq![scoped] + seq![generic]);
            lemma_started_count_add(seq![scoped], seq![generic]);
            lemma_forwarded_lines_add(seq![scoped], seq![generic], Channel::Output);
            assert(Seq::<Seq<char>>::empty() + seq![line] =~= seq![line]);
        },
        None => {
            assert(fwd =~= seq![generic]);
        },
    }
    lemma_started_count_add(first.effects, usage);
    lemma_started_count_add(first.effects + usage, fwd);
    lemma_forwarded_lines_add(first.effects, usage, Channel::Output);
    lemma_forwarded_lines_add(first.effects + usage, fwd, Channel::Output);
    assert(forwarded_lines(step.effects, Channel::Output) =~= seq![line]);
}

/// Single promotion. Whatever lines the output stream carries and however many of them
/// are init lines, the router ends with the session id of the first init line, and
/// listeners are told at most once that a session has started.
pub proof fn lemma_single_promotion(
    router: RouterView,
    registry: RegistryView,
    slot: Option<OccupantView>,
    lines: Seq<Seq<char>>,
)
    requires
        router.session_id is None,
    ensures
        route_all(router, registry, slot, lines).router.session_id == first_announced(lines),
        started_count(route_all(router, registry, slot, lines).effects) <= 1,
        first_announced(lines) is None ==> started_count(
            route_all(router, registry, slot, lines).effects,
        ) == 0,
    decreases lines.len(),
{
    if lines.len() > 0 {
        lemma_single_promotion(router, registry, slot, lines.drop_last());
        let before = route_all(router, registry, slot, lines.drop_last());
        lemma_route_step(
            before.router,
            before.registry,
            before.slot,
            lines.last(),
            decoded(lines.last()),
        );
        let step = before.router.route(
            before.registry,
            before.slot,
            lines.last(),
            decoded(lines.last()),
        );
        lemma_started_count_add(before.effects, step.effects);
    }
}

/// A session id, once captured, is the router's for good: no later line replaces it.
pub proof fn lemma_first_session_wins(
    router: RouterView,
    registry: RegistryView,
    slot: Option<OccupantView>,
    lines: Seq<Seq<char>>,
)
    requires
        router.session_id is Some,
    ensures
        route_all(router, registry, slot, lines).router.session_id == router.session_id,
        started_count(route_all(router, registry, slot, lines).effects) == 0,
    decreases lines.len(),
{
    if lines.len() > 0 {
        lemma_first_session_wins(router, registry, slot, lines.drop_last());
        let before = route_all(router, registry, slot, lines.drop_last());
        lemma_route_step(
            before.router,
            before.registry,
            before.slot,
            lines.last(),
            decoded(lines.last()),
        );
        let step = before.router.route(
            before.registry,
            before.slot,
            lines.last(),
            decoded(lines.last()),
        );
        lemma_started_count_add(before.effects, step.effects);
    }
}

/// Order preservation, for listeners. The lines forwarded on the generic output event are
/// exactly the lines of the stream, in the order the child wrote them.
pub proof fn lemma_forwarding_keeps_order(
    router: RouterView,
    registry: RegistryView,
    slot: Option<OccupantView>,
    lines: Seq<Seq<char>>,
)
    ensures
        forwarded_lines(route_all(router, registry, slot, lines).effects, Channel::Output)
            == lines,
    decreases lines.len(),
{
    if lines.len() == 0 {
        assert(forwarded_lines(Seq::<EffectView>::empty(), Channel::Output) =~= lines);
    } else {
        lemma_forwarding_keeps_order(router, registry, slot, lines.drop_last());
        let before = route_all(router, registry, slot, lines.drop_last());
        lemma_route_step(
            before.router,
            before.registry,
            before.slot,
            lines.last(),
            decoded(lines.last()),
        );
        let step = before.router.route(
            before.registry,
            before.slot,
            lines.last(),
            decoded(lines.last()),
        );
        lemma_forwarded_lines_add(before.effects, step.effects, Channel::Output);
        assert(lines.drop_last() + seq![lines.last()] =~= lines);
    }
}

/// What one line does to the registry: the router's own run, where it is registered,
/// gets the line appended, and every other registered run is left as it was.
pub proof fn lemma_route_registry(
    router: RouterView,
    registry: RegistryView,
    slot: Option<OccupantView>,
    line: Seq<char>,
    envelope: Option<EnvelopeView>,
)
    requires
        registry.wf(),
    ensures
        ({
            let step = router.route(registry, slot, line, envelope);
            &&& step.registry.wf()
            &&& forall|other: RunId|
                registry.runs.dom().contains(other) && router.run_id != Some(other)
                    ==> step.registry.runs.dom().contains(other) && step.registry.runs[other]
                    == registry.runs[other]
            &&& router.run_id is Some ==> step.router.run_id == router.run_id
            &&& router.run_id is Some && registry.runs.dom().contains(router.run_id->0) ==> {
                &&& step.registry.runs.dom().contains(router.run_id->0)
                &&& step.registry.runs[router.run_id->0].live_output
                    == registry.runs[router.run_id->0].live_output.push(line)
            }
        }),
{
    let first = if router.captures(envelope) {
        router.capture(registry, slot, envelope->0.announced_session()->0)
    } else {
        Routed { router, registry, slot, effects: Seq::empty() }
    };
    if router.captures(envelope) {
        let sid = envelope->0.announced_session()->0;
        let entered = router.registry_at_capture(registry);
        if router.run_id is None && registry.can_register() {
            crate::registry::lemma_registered_wf(registry, router.launch);
        }
        match router.run_id_at_capture(registry) {
            Some(id) => {
                crate::registry::lemma_promoted_wf(entered, id, sid);
            },
            None => {},
        }
    }
    match first.router.run_id {
        Some(id) => {
            crate::registry::lemma_appended_wf(first.registry, id, line);
        },
        None => {},
    }
}

/// Order preservation, for the buffer. The buffered output of the router's run grows by
/// exactly the lines of the stream, in the order the child wrote them.
pub proof fn lemma_buffer_keeps_order(
    router: RouterView,
    registry: RegistryView,
    slot: Option<OccupantView>,
    lines: Seq<Seq<char>>,
    id: RunId,
)
    requires
        registry.wf(),
        router.run_id == Some(id),
        registry.runs.dom().contains(id),
    ensures
        route_all(router, registry, slot, lines).registry.wf(),
        route_all(router, registry, slot, lines).router.run_id == Some(id),
        route_all(router, registry, slot, lines).registry.runs.dom().contains(id),
        route_all(router, registry, slot, lines).registry.runs[id].live_output
            == registry.runs[id].live_output + lines,
    decreases lines.len(),
{
    if lines.len() == 0 {
        assert(registry.runs[id].live_output + lines =~= registry.runs[id].live_output);
    } else {
        lemma_buffer_keeps_order(router, registry, slot, lines.drop_last(), id);
        let before = route_all(router, registry, slot, lines.drop_last());
        lemma_route_registry(
            before.router,
            before.registry,
            before.slot,
            lines.last(),
            decoded(lines.last()),
        );
        assert((registry.runs[id].live_output + lines.drop_last()).push(lines.last())
            =~= registry.runs[id].live_output + lines);
    }
}

/// Buffer isolation. The lines of one run's output stream never reach another run: every
/// run that is registered when the stream starts, other than the router's own, has the
/// same record when the stream ends.
pub proof fn lemma_buffer_isolation(
    router: RouterView,
    registry: RegistryView,
    slot: Option<OccupantView>,
    lines: Seq<Seq<char>>,
    other: RunId,
)
    requires
        registry.wf(),
        registry.runs.dom().contains(other),
        router.run_id != Some(other),
    ensures
        route_all(router, registry, slot, lines).registry.wf(),
        route_all(router, registry, slot, lines).router.run_id != Some(other),
        route_all(router, registry, slot, lines).registry.runs.dom().contains(other),
        route_all(router, registry, slot, lines).registry.runs[other] == registry.runs[other],
    decreases lines.len(),
{
    if lines.len() > 0 {
        lemma_buffer_isolation(router, registry, slot, lines.drop_last(), other);
        let before = route_all(router, registry, slot, lines.drop_last());
        lemma_route_registry(
            before.router,
            before.registry,
            before.slot,
            lines.last(),
            decoded(lines.last()),
        );
    }
}

/// Single promotion, for the registry. The session id recorded for the router's run is
/// set at most once while the stream is routed, and then to the session id of the first
/// init line: at the end the record carries either what it carried before or that id.
pub proof fn lemma_recorded_session(
    router: RouterView,
    registry: RegistryView,
    slot: Option<OccupantView>,
    lines: Seq<Seq<char>>,
    id: RunId,
)
    requires
        registry.wf(),
        router.run_id == Some(id),
        router.session_id is None,
        registry.runs.dom().contains(id),
    ensures
        route_all(router, registry, slot, lines).registry.runs.dom().contains(id),
        ({
            let recorded = route_all(router, registry, slot, lines).registry.runs[id].session_id;
            ||| recorded == registry.runs[id].session_id
            ||| first_announced(lines) is Some && recorded == first_announced(lines)
        }),
    decreases lines.len(),
{
    if lines.len() > 0 {
        let earlier = lines.drop_last();
        lemma_recorded_session(router, registry, slot, earlier, id);
        lemma_single_promotion(router, registry, slot, earlier);
        lemma_buffer_keeps_order(router, registry, slot, earlier, id);
        let before = route_all(router, registry, slot, earlier);
        lemma_route_registry(
            before.router,
            before.registry,
            before.slot,
            lines.last(),
            decoded(lines.last()),
        );
    }
}

} // verus!
