//! The response resolver: from one inbound event and the configuration to
//! the ordered outbound actions, with no side effect.
use vstd::prelude::*;
use crate::config::{
    has_repeated_pattern, Config, KeywordResponse, Presence, PresenceView, KeywordView, TextCommandView, TextCommands,
    SlashCommandView, ConfigView,
};
use crate::text::{contains, is_substring, prefixed, starts_with};

verus! {

/// An event delivered by the transport.
#[derive(Clone, Debug, PartialEq, Eq)]
pub enum InboundEvent {
    Ready,
    Message(String),
    Interaction(String),
}

/// An action for the transport to perform.
#[derive(Clone, Debug, PartialEq, Eq)]
pub enum Action {
    ReplyToMessage(String),
    ReplyToInteraction(String),
    /// Registers a slash command, in the guild if one is given, else globally.
    RegisterCommand { name: String, description: String, guild_id: Option<u64> },
    SetPresence(Presence),
}

/// The mathematical value of an inbound event.
pub enum EventView {
    Ready,
    Message(Seq<char>),
    Interaction(Seq<char>),
}

/// The mathematical value of an action.
pub enum ActionView {
    ReplyToMessage(Seq<char>),
    ReplyToInteraction(Seq<char>),
    RegisterCommand(Seq<char>, Seq<char>, Option<u64>),
    SetPresence(PresenceView),
}

impl DeepView for InboundEvent {
    type V = EventView;

    open spec fn deep_view(&self) -> EventView {
        match self {
            InboundEvent::Ready => EventView::Ready,
            InboundEvent::Message(s) => EventView::Message(s@),
            InboundEvent::Interaction(s) => EventView::Interaction(s@),
        }
    }
}

impl DeepView for Action {
    type V = ActionView;

    open spec fn deep_view(&self) -> ActionView {
        match self {
            Action::ReplyToMessage(s) => ActionView::ReplyToMessage(s@),
            Action::ReplyToInteraction(s) => ActionView::ReplyToInteraction(s@),
            Action::RegisterCommand { name, description, guild_id } => ActionView::RegisterCommand(
                name@,
                description@,
                *guild_id,
            ),
            Action::SetPresence(p) => ActionView::SetPresence(p.deep_view()),
        }
    }
}

/// One reply for each keyword entry whose pattern occurs in the content, in
/// the order of the entries.
pub open spec fn keyword_replies(rs: Seq<KeywordView>, content: Seq<char>) -> Seq<ActionView>
    decreases rs.len(),
{
    if rs.len() == 0 {
        Seq::empty()
    } else {
        let prev = keyword_replies(rs.drop_last(), content);
        if is_substring(rs.last().0, content) {
            prev.push(ActionView::ReplyToMessage(rs.last().1))
        } else {
            prev
        }
    }
}

/// One reply for each text command whose prefixed name starts the content, in
/// declaration order.
pub open spec fn command_replies(prefix: char, cs: Seq<TextCommandView>, content: Seq<char>) -> Seq<
    ActionView,
>
    decreases cs.len(),
{
    if cs.len() == 0 {
        Seq::empty()
    } else {
        let prev = command_replies(prefix, cs.drop_last(), content);
        if (seq![prefix] + cs.last().0).is_prefix_of(content) {
            prev.push(ActionView::ReplyToMessage(cs.last().1))
        } else {
            prev
        }
    }
}

/// The actions for a message: keyword replies, then text command replies.
pub open spec fn message_actions(c: ConfigView, content: Seq<char>) -> Seq<ActionView> {
    let keywords = match c.responses {
        Some(rs) => keyword_replies(rs, content),
        None => Seq::empty(),
    };
    let commands = match c.commands {
        Some((Some(t), _)) => if content.len() > 0 && content[0] == t.0 {
            command_replies(t.0, t.1, content)
        } else {
            Seq::empty()
        },
        _ => Seq::empty(),
    };
    keywords + commands
}

/// The reply of the first slash command with the given name.
pub open spec fn slash_reply(cs: Seq<SlashCommandView>, name: Seq<char>) -> Option<Seq<char>>
    decreases cs.len(),
{
    if cs.len() == 0 {
        None
    } else if cs[0].0 == name {
        Some(cs[0].2)
    } else {
        slash_reply(cs.drop_first(), name)
    }
}

/// The actions for an interaction: one reply if a slash command has its name,
/// none otherwise.
pub open spec fn interaction_actions(c: ConfigView, name: Seq<char>) -> Seq<ActionView> {
    match c.commands {
        Some((_, Some(cs))) => match slash_reply(cs, name) {
            Some(reply) => seq![ActionView::ReplyToInteraction(reply)],
            None => Seq::empty(),
        },
        _ => Seq::empty(),
    }
}

/// The actions of the bootstrap: the presence if one is configured, then one
/// registration per slash command in declaration order.
pub open spec fn bootstrap_actions(c: ConfigView) -> Seq<ActionView> {
    let presence = match c.presence {
        Some(p) => seq![ActionView::SetPresence(p)],
        None => Seq::empty(),
    };
    let registrations = match c.commands {
        Some((_, Some(cs))) => cs.map_values(
            |s: SlashCommandView| ActionView::RegisterCommand(s.0, s.1, c.guild_id),
        ),
        _ => Seq::empty(),
    };
    presence + registrations
}

/// The actions the resolver emits for an event; `Ready` is left to the
/// bootstrap.
pub open spec fn event_actions(c: ConfigView, e: EventView) -> Seq<ActionView> {
    match e {
        EventView::Ready => Seq::empty(),
        EventView::Message(m) => message_actions(c, m),
        EventView::Interaction(n) => interaction_actions(c, n),
    }
}

fn push_keyword_replies(rs: &Vec<KeywordResponse>, content: &str, out: &mut Vec<Action>)
    ensures
        final(out).deep_view() == old(out).deep_view() + keyword_replies(rs.deep_view(), content@),
{
    let ghost start = out.deep_view();
    let ghost v = rs.deep_view();
    let mut i: usize = 0;
    while i < rs.len()
        invariant
            0 <= i <= rs.len(),
            v == rs.deep_view(),
            out.deep_view() == start + keyword_replies(v.subrange(0, i as int), content@),
        decreases rs.len() - i,
    {
        assert(v.subrange(0, i + 1).drop_last() =~= v.subrange(0, i as int));
        assert(v.subrange(0, i + 1).last() == v[i as int]);
        assert(v[i as int] == rs@[i as int].deep_view());
        let ghost before = out.deep_view();
        if contains(content, rs[i].pattern.as_str()) {
            out.push(Action::ReplyToMessage(rs[i].reply.clone()));
            assert(out.deep_view() =~= before.push(ActionView::ReplyToMessage(v[i as int].1)));
        }
        assert(out.deep_view() =~= start + keyword_replies(v.subrange(0, i + 1), content@));
        i += 1;
    }
    assert(v.subrange(0, rs.len() as int) =~= v);
}

fn push_command_replies(text: &TextCommands, content: &str, out: &mut Vec<Action>)
    ensures
        final(out).deep_view() == old(out).deep_view() + command_replies(
            text.prefix,
            text.commands.deep_view(),
            content@,
        ),
{
    let ghost start = out.deep_view();
    let ghost v = text.commands.deep_view();
    let mut i: usize = 0;
    while i < text.commands.len()
        invariant
            0 <= i <= text.commands.len(),
            v == text.commands.deep_view(),
            out.deep_view() == start + command_replies(text.prefix, v.subrange(0, i as int), content@),
        decreases text.commands.len() - i,
    {
        assert(v.subrange(0, i + 1).drop_last() =~= v.subrange(0, i as int));
        assert(v.subrange(0, i + 1).last() == v[i as int]);
        assert(v[i as int] == text.commands@[i as int].deep_view());
        let ghost before = out.deep_view();
        let needle = prefixed(text.prefix, text.commands[i].name.as_str());
        if starts_with(content, needle.as_str()) {
            out.push(Action::ReplyToMessage(text.commands[i].response.clone()));
            assert(out.deep_view() =~= before.push(ActionView::ReplyToMessage(v[i as int].1)));
        }
        assert(out.deep_view() =~= start + command_replies(
            text.prefix,
            v.subrange(0, i + 1),
            content@,
        ));
        i += 1;
    }
    assert(v.subrange(0, text.commands.len() as int) =~= v);
}

/// Whether the content starts with the given character.
fn starts_with_char(content: &str, c: char) -> (r: bool)
    ensures
        r == (content@.len() > 0 && content@[0] == c),
{
    if content.unicode_len() == 0 {
        false
    } else {
        content.get_char(0) == c
    }
}

/// The replies to a message: one per keyword pattern that occurs in it, then,
/// when it starts with the text command prefix, one per text command whose
/// prefixed name starts it. Overlapping matches each fire.
pub fn resolve_message(config: &Config, content: &str) -> (r: Vec<Action>)
    ensures
        r.deep_view() == message_actions(config@, content@),
{
    let mut out: Vec<Action> = Vec::new();
    proof {
        assert(out.deep_view() =~= Seq::<ActionView>::empty());
    }
    if let Some(rs) = &config.responses {
        push_keyword_replies(rs, content, &mut out);
    }
    if let Some(commands) = &config.commands {
        if let Some(text) = &commands.text {
            if starts_with_char(content, text.prefix) {
                push_command_replies(text, content, &mut out);
            }
        }
    }
    assert(out.deep_view() =~= message_actions(config@, content@));
    out
}

/// The reply to an interaction: the reply of the slash command with its name,
/// or nothing when none has it.
pub fn resolve_interaction(config: &Config, name: &str) -> (r: Vec<Action>)
    ensures
        r.deep_view() == interaction_actions(config@, name@),
{
    let mut out: Vec<Action> = Vec::new();
    if let Some(commands) = &config.commands {
        if let Some(slash) = &commands.slash {
            let ghost v = slash.commands.deep_view();
            let wanted = String::from_str(name);
            let mut i: usize = 0;
            assert(v.subrange(0, v.len() as int) =~= v);
            while i < slash.commands.len()
                invariant
                    0 <= i <= slash.commands.len(),
                    v == slash.commands.deep_view(),
                    wanted@ == name@,
                    config.commands == Some(*commands),
                    commands.slash == Some(*slash),
                    out@.len() == 0,
                    slash_reply(v, name@) == slash_reply(v.subrange(i as int, v.len() as int), name@),
                decreases slash.commands.len() - i,
            {
                assert(v.subrange(i as int, v.len() as int).drop_first() =~= v.subrange(
                    i + 1,
                    v.len() as int,
                ));
                assert(v[i as int] == slash.commands@[i as int].deep_view());
                if slash.commands[i].name == wanted {
                    out.push(Action::ReplyToInteraction(slash.commands[i].response.clone()));
                    assert(v.subrange(i as int, v.len() as int)[0] == v[i as int]);
                    assert(out.deep_view() =~= seq![ActionView::ReplyToInteraction(v[i as int].2)]);
                    assert(out.deep_view() =~= interaction_actions(config@, name@));
                    return out;
                }
                i += 1;
            }
        }
    }
    assert(out.deep_view() =~= interaction_actions(config@, name@));
    out
}

/// The actions of the bootstrap: the presence, if configured, then one
/// registration per slash command, scoped to the guild if one is configured.
pub fn bootstrap(config: &Config) -> (r: Vec<Action>)
    ensures
        r.deep_view() == bootstrap_actions(config@),
{
    let mut out: Vec<Action> = Vec::new();
    if let Some(p) = &config.presence {
        out.push(
            Action::SetPresence(
                Presence {
                    status: p.status,
                    activity: p.activity,
                    description: p.description.clone(),
                },
            ),
        );
    }
    let ghost start = out.deep_view();
    if let Some(commands) = &config.commands {
        if let Some(slash) = &commands.slash {
            let ghost v = slash.commands.deep_view();
            let ghost f = |s: SlashCommandView|
                ActionView::RegisterCommand(s.0, s.1, config.guild_id);
            let mut i: usize = 0;
            assert(v.subrange(0, 0) =~= Seq::<SlashCommandView>::empty());
            assert(out.deep_view() =~= start + v.subrange(0, 0).map_values(f));
            while i < slash.commands.len()
                invariant
                    0 <= i <= slash.commands.len(),
                    v == slash.commands.deep_view(),
                    f == (|s: SlashCommandView|
                        ActionView::RegisterCommand(s.0, s.1, config.guild_id)),
                    out.deep_view() == start + v.subrange(0, i as int).map_values(f),
                decreases slash.commands.len() - i,
            {
                let ghost before = out.deep_view();
                assert(v[i as int] == slash.commands@[i as int].deep_view());
                out.push(
                    Action::RegisterCommand {
                        name: slash.commands[i].name.clone(),
                        description: slash.commands[i].description.clone(),
                        guild_id: config.guild_id,
                    },
                );
                assert(out.deep_view() =~= before.push(f(v[i as int])));
                assert(v.subrange(0, i + 1).map_values(f) =~= v.subrange(0, i as int).map_values(
                    f,
                ).push(f(v[i as int])));
                assert(out.deep_view() =~= start + v.subrange(0, i + 1).map_values(f));
                i += 1;
            }
            assert(v.subrange(0, v.len() as int) =~= v);
        }
    }
    assert(out.deep_view() =~= bootstrap_actions(config@));
    out
}

/// The actions for one event; `Ready` yields none here, its work being the
/// bootstrap's.
pub fn resolve(config: &Config, event: &InboundEvent) -> (r: Vec<Action>)
    ensures
        r.deep_view() == event_actions(config@, event.deep_view()),
{
    match event {
        InboundEvent::Ready => {
            let out: Vec<Action> = Vec::new();
            assert(out.deep_view() =~= Seq::<ActionView>::empty());
            out
        },
        InboundEvent::Message(m) => resolve_message(config, m.as_str()),
        InboundEvent::Interaction(n) => resolve_interaction(config, n.as_str()),
    }
}

/// The configured keyword patterns that occur in the content.
pub open spec fn matching_patterns(rs: Seq<KeywordView>, content: Seq<char>) -> Set<Seq<char>> {
    Set::new(
        |p: Seq<char>|
            is_substring(p, content) && exists|i: int| 0 <= i < rs.len() && (#[trigger] rs[i]).0 == p,
    )
}

/// Keyword matching fans out: a message gets one reply per configured
/// pattern that occurs in it, none merged with another.
pub proof fn lemma_keyword_fan_out(rs: Seq<KeywordView>, content: Seq<char>)
    requires
        !has_repeated_pattern(rs),
    ensures
        matching_patterns(rs, content).finite(),
        keyword_replies(rs, content).len() == matching_patterns(rs, content).len(),
        forall|i: int|
            0 <= i < keyword_replies(rs, content).len() ==> (#[trigger] keyword_replies(
                rs,
                content,
            )[i]) is ReplyToMessage,
    decreases rs.len(),
{
    if rs.len() == 0 {
        assert(matching_patterns(rs, content) =~= Set::<Seq<char>>::empty());
    } else {
        let pre = rs.drop_last();
        let last = rs.last();
        assert(!has_repeated_pattern(pre)) by {
            if has_repeated_pattern(pre) {
                let (a, b) = choose|a: int, b: int|
                    0 <= a < b < pre.len() && (#[trigger] pre[a]).0 == (#[trigger] pre[b]).0;
                assert(rs[a] == pre[a] && rs[b] == pre[b]);
            }
        }
        lemma_keyword_fan_out(pre, content);
        assert(!matching_patterns(pre, content).contains(last.0)) by {
            if matching_patterns(pre, content).contains(last.0) {
                let i = choose|i: int| 0 <= i < pre.len() && (#[trigger] pre[i]).0 == last.0;
                assert(rs[i] == pre[i]);
                assert(rs[rs.len() - 1] == last);
            }
        }
        if is_substring(last.0, content) {
            assert forall|p: Seq<char>|
                matching_patterns(rs, content).contains(p) <==> #[trigger] matching_patterns(
                    pre,
                    content,
                ).insert(last.0).contains(p) by {
                if matching_patterns(rs, content).contains(p) && p != last.0 {
                    let i = choose|i: int| 0 <= i < rs.len() && (#[trigger] rs[i]).0 == p;
                    assert(i < pre.len() && pre[i] == rs[i]);
                }
                if matching_patterns(pre, content).contains(p) {
                    let i = choose|i: int| 0 <= i < pre.len() && (#[trigger] pre[i]).0 == p;
                    assert(rs[i] == pre[i]);
                }
                if p == last.0 {
                    assert(rs[rs.len() - 1] == last);
                }
            }
            assert(matching_patterns(rs, content) =~= matching_patterns(pre, content).insert(
                last.0,
            ));
        } else {
            assert forall|p: Seq<char>|
                matching_patterns(rs, content).contains(p) <==> #[trigger] matching_patterns(
                    pre,
                    content,
                ).contains(p) by {
                if matching_patterns(rs, content).contains(p) {
                    let i = choose|i: int| 0 <= i < rs.len() && (#[trigger] rs[i]).0 == p;
                    assert(i < pre.len() && pre[i] == rs[i]);
                }
                if matching_patterns(pre, content).contains(p) {
                    let i = choose|i: int| 0 <= i < pre.len() && (#[trigger] pre[i]).0 == p;
                    assert(rs[i] == pre[i]);
                }
            }
            assert(matching_patterns(rs, content) =~= matching_patterns(pre, content));
        }
    }
}

} // verus!
