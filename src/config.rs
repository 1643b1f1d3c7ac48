//! The configuration model: its types, their mathematical views, the closed
//! vocabularies of presence strings, and validation of a parsed document.
use vstd::prelude::*;
use vstd::string::*;

verus! {

/// Displayed online status.
#[derive(Clone, Copy, Debug, PartialEq, Eq, Structural)]
pub enum Status {
    Online,
    Idle,
    DoNotDisturb,
    Invisible,
    Offline,
}

/// Kind of the displayed activity.
#[derive(Clone, Copy, Debug, PartialEq, Eq, Structural)]
pub enum ActivityKind {
    Playing,
    Watching,
    Listening,
    Streaming,
}

/// The field whose value breaks a rule of the configuration.
#[derive(Clone, Copy, Debug, PartialEq, Eq, Structural)]
pub enum FieldError {
    /// `presence.status` is outside the status vocabulary.
    Status,
    /// `presence.activity` is outside the activity vocabulary.
    Activity,
    /// A keyword pattern is empty.
    EmptyKeyword,
    /// Two keyword entries share a pattern.
    DuplicateKeyword,
    /// A slash command name is empty, or holds a whitespace or upper-case
    /// character (in Unicode's sense).
    SlashCommandName,
    /// Two slash commands share a name.
    DuplicateSlashCommand,
}

/// Why a configuration could not be loaded.
#[derive(Clone, Copy, Debug, PartialEq, Eq, Structural)]
pub enum ConfigError {
    /// The source could not be read.
    Unreadable,
    /// The source is not a structurally valid document.
    Malformed,
    /// A value breaks a rule of the configuration.
    InvalidField(FieldError),
}

/// The string that names each status.
pub open spec fn status_name(s: Status) -> Seq<char> {
    match s {
        Status::Online => "online"@,
        Status::Idle => "idle"@,
        Status::DoNotDisturb => "dnd"@,
        Status::Invisible => "invisible"@,
        Status::Offline => "offline"@,
    }
}

/// The status a string names, if any: an exact, case-sensitive match.
pub open spec fn status_of(s: Seq<char>) -> Option<Status> {
    if s == "online"@ {
        Some(Status::Online)
    } else if s == "idle"@ {
        Some(Status::Idle)
    } else if s == "dnd"@ {
        Some(Status::DoNotDisturb)
    } else if s == "invisible"@ {
        Some(Status::Invisible)
    } else if s == "offline"@ {
        Some(Status::Offline)
    } else {
        None
    }
}

/// The string that names each activity kind.
pub open spec fn activity_name(a: ActivityKind) -> Seq<char> {
    match a {
        ActivityKind::Playing => "playing"@,
        ActivityKind::Watching => "watching"@,
        ActivityKind::Listening => "listening"@,
        ActivityKind::Streaming => "streaming"@,
    }
}

/// The activity kind a string names, if any: an exact, case-sensitive match.
pub open spec fn activity_of(s: Seq<char>) -> Option<ActivityKind> {
    if s == "playing"@ {
        Some(ActivityKind::Playing)
    } else if s == "watching"@ {
        Some(ActivityKind::Watching)
    } else if s == "listening"@ {
        Some(ActivityKind::Listening)
    } else if s == "streaming"@ {
        Some(ActivityKind::Streaming)
    } else {
        None
    }
}

/// Maps a status string to its status, or fails on any other string.
pub fn status_from_string(s: &String) -> (r: Result<Status, FieldError>)
    ensures
        match status_of(s@) {
            Some(st) => r == Ok::<Status, FieldError>(st),
            None => r == Err::<Status, FieldError>(FieldError::Status),
        },
{
    if *s == String::from_str("online") {
        Ok(Status::Online)
    } else if *s == String::from_str("idle") {
        Ok(Status::Idle)
    } else if *s == String::from_str("dnd") {
        Ok(Status::DoNotDisturb)
    } else if *s == String::from_str("invisible") {
        Ok(Status::Invisible)
    } else if *s == String::from_str("offline") {
        Ok(Status::Offline)
    } else {
        Err(FieldError::Status)
    }
}

/// Maps an activity string to its kind, or fails on any other string.
pub fn activity_type_from_string(s: &String) -> (r: Result<ActivityKind, FieldError>)
    ensures
        match activity_of(s@) {
            Some(a) => r == Ok::<ActivityKind, FieldError>(a),
            None => r == Err::<ActivityKind, FieldError>(FieldError::Activity),
        },
{
    if *s == String::from_str("playing") {
        Ok(ActivityKind::Playing)
    } else if *s == String::from_str("watching") {
        Ok(ActivityKind::Watching)
    } else if *s == String::from_str("listening") {
        Ok(ActivityKind::Listening)
    } else if *s == String::from_str("streaming") {
        Ok(ActivityKind::Streaming)
    } else {
        Err(FieldError::Activity)
    }
}

/// The name of a status.
pub fn status_to_string(s: Status) -> (r: String)
    ensures
        r@ == status_name(s),
{
    match s {
        Status::Online => String::from_str("online"),
        Status::Idle => String::from_str("idle"),
        Status::DoNotDisturb => String::from_str("dnd"),
        Status::Invisible => String::from_str("invisible"),
        Status::Offline => String::from_str("offline"),
    }
}

/// The name of an activity kind.
pub fn activity_type_to_string(a: ActivityKind) -> (r: String)
    ensures
        r@ == activity_name(a),
{
    match a {
        ActivityKind::Playing => String::from_str("playing"),
        ActivityKind::Watching => String::from_str("watching"),
        ActivityKind::Listening => String::from_str("listening"),
        ActivityKind::Streaming => String::from_str("streaming"),
    }
}

/// Every status string names its status, and no other.
pub proof fn lemma_status_names(s: Status)
    ensures
        status_of(status_name(s)) == Some(s),
{
    reveal_strlit("online");
    reveal_strlit("idle");
    reveal_strlit("dnd");
    reveal_strlit("invisible");
    reveal_strlit("offline");
    assert("online"@.len() == 6 && "idle"@.len() == 4 && "dnd"@.len() == 3);
    assert("invisible"@.len() == 9 && "offline"@.len() == 7);
}

/// Every activity string names its kind, and no other.
pub proof fn lemma_activity_names(a: ActivityKind)
    ensures
        activity_of(activity_name(a)) == Some(a),
{
    reveal_strlit("playing");
    reveal_strlit("watching");
    reveal_strlit("listening");
    reveal_strlit("streaming");
    assert("playing"@.len() == 7 && "watching"@.len() == 8);
    assert("listening"@[0] != "streaming"@[0]);
}

/// A reply sent whenever a message holds `pattern`.
#[derive(Clone, Debug, PartialEq, Eq)]
pub struct KeywordResponse {
    pub pattern: String,
    pub reply: String,
}

/// A prefixed text command: `prefix` then `name` at the start of a message.
#[derive(Clone, Debug, PartialEq, Eq)]
pub struct TextCommand {
    pub name: String,
    pub response: String,
}

/// The text commands, with the character that introduces them.
#[derive(Clone, Debug, PartialEq, Eq)]
pub struct TextCommands {
    pub prefix: char,
    pub commands: Vec<TextCommand>,
}

/// A slash command, registered with the platform under `name`.
#[derive(Clone, Debug, PartialEq, Eq)]
pub struct SlashCommand {
    pub name: String,
    pub description: String,
    pub response: String,
}

/// The slash commands, in declaration order.
#[derive(Clone, Debug, PartialEq, Eq)]
pub struct SlashCommands {
    pub commands: Vec<SlashCommand>,
}

/// Text and slash commands, each optional.
#[derive(Clone, Debug, PartialEq, Eq)]
pub struct Commands {
    pub text: Option<TextCommands>,
    pub slash: Option<SlashCommands>,
}

/// The presence announced once per connection.
#[derive(Clone, Debug, PartialEq, Eq)]
pub struct Presence {
    pub status: Status,
    pub activity: ActivityKind,
    pub description: String,
}

/// A presence as the source writes it: status and activity still as strings.
#[derive(Clone, Debug, PartialEq, Eq)]
pub struct PresenceDocument {
    pub status: String,
    pub activity: String,
    pub description: String,
}

/// The validated configuration, read-only once loaded.
#[derive(Clone, Debug, PartialEq, Eq)]
pub struct Config {
    pub token: String,
    /// The guild that commands are registered in; `None` registers them globally.
    pub guild_id: Option<u64>,
    pub responses: Option<Vec<KeywordResponse>>,
    pub presence: Option<Presence>,
    pub commands: Option<Commands>,
}

/// A configuration as parsed from its source, not yet validated.
#[derive(Clone, Debug, PartialEq, Eq)]
pub struct ConfigDocument {
    pub token: String,
    pub guild_id: Option<u64>,
    pub responses: Option<Vec<KeywordResponse>>,
    pub presence: Option<PresenceDocument>,
    pub commands: Option<Commands>,
}

/// (pattern, reply)
pub type KeywordView = (Seq<char>, Seq<char>);

/// (name, response)
pub type TextCommandView = (Seq<char>, Seq<char>);

/// (name, description, response)
pub type SlashCommandView = (Seq<char>, Seq<char>, Seq<char>);

/// (prefix, commands)
pub type TextCommandsView = (char, Seq<TextCommandView>);

/// (text commands, slash commands)
pub type CommandsView = (Option<TextCommandsView>, Option<Seq<SlashCommandView>>);

/// (status, activity, description)
pub type PresenceView = (Status, ActivityKind, Seq<char>);

/// (status, activity, description), the first two as written.
pub type PresenceDocumentView = (Seq<char>, Seq<char>, Seq<char>);

impl DeepView for KeywordResponse {
    type V = KeywordView;

    open spec fn deep_view(&self) -> KeywordView {
        (self.pattern@, self.reply@)
    }
}

impl DeepView for TextCommand {
    type V = TextCommandView;

    open spec fn deep_view(&self) -> TextCommandView {
        (self.name@, self.response@)
    }
}

impl DeepView for TextCommands {
    type V = TextCommandsView;

    open spec fn deep_view(&self) -> TextCommandsView {
        (self.prefix, self.commands.deep_view())
    }
}

impl DeepView for SlashCommand {
    type V = SlashCommandView;

    open spec fn deep_view(&self) -> SlashCommandView {
        (self.name@, self.description@, self.response@)
    }
}

impl DeepView for SlashCommands {
    type V = Seq<SlashCommandView>;

    open spec fn deep_view(&self) -> Seq<SlashCommandView> {
        self.commands.deep_view()
    }
}

impl DeepView for Commands {
    type V = CommandsView;

    open spec fn deep_view(&self) -> CommandsView {
        (self.text.deep_view(), self.slash.deep_view())
    }
}

impl DeepView for Presence {
    type V = PresenceView;

    open spec fn deep_view(&self) -> PresenceView {
        (self.status, self.activity, self.description@)
    }
}

impl DeepView for PresenceDocument {
    type V = PresenceDocumentView;

    open spec fn deep_view(&self) -> PresenceDocumentView {
        (self.status@, self.activity@, self.description@)
    }
}

/// The mathematical value of a configuration, or of a document when `P` is
/// the written form of a presence.
pub struct Settings<P> {
    pub token: Seq<char>,
    pub guild_id: Option<u64>,
    pub responses: Option<Seq<KeywordView>>,
    pub presence: Option<P>,
    pub commands: Option<CommandsView>,
}

pub type ConfigView = Settings<PresenceView>;

pub type DocumentView = Settings<PresenceDocumentView>;

impl View for Config {
    type V = ConfigView;

    open spec fn view(&self) -> ConfigView {
        Settings {
            token: self.token@,
            guild_id: self.guild_id,
            responses: self.responses.deep_view(),
            presence: self.presence.deep_view(),
            commands: self.commands.deep_view(),
        }
    }
}

impl View for ConfigDocument {
    type V = DocumentView;

    open spec fn view(&self) -> DocumentView {
        Settings {
            token: self.token@,
            guild_id: self.guild_id,
            responses: self.responses.deep_view(),
            presence: self.presence.deep_view(),
            commands: self.commands.deep_view(),
        }
    }
}

/// Whether a character is upper-case, as Unicode's `Uppercase` property says.
pub uninterp spec fn is_upper(c: char) -> bool;

/// Whether a character is whitespace, as Unicode's `White_Space` property says.
pub uninterp spec fn is_space(c: char) -> bool;

/// Relies on `char::is_uppercase`: Unicode's `Uppercase` property, which
/// holds of the ASCII capitals.
#[verifier::external_body]
fn char_is_uppercase(c: char) -> (r: bool)
    ensures
        r == is_upper(c),
        ('A' <= c && c <= 'Z') ==> r,
{
    c.is_uppercase()
}

/// Relies on `char::is_whitespace`: Unicode's `White_Space` property, which
/// holds of space, tab, line feed and carriage return.
#[verifier::external_body]
fn char_is_whitespace(c: char) -> (r: bool)
    ensures
        r == is_space(c),
        (c == ' ' || c == '\t' || c == '\n' || c == '\r') ==> r,
{
    c.is_whitespace()
}

/// A character that a slash command name may hold: neither whitespace nor
/// upper-case, in Unicode's sense.
pub open spec fn is_name_char(c: char) -> bool {
    !is_space(c) && !is_upper(c)
}

/// A name the platform accepts for a slash command.
pub open spec fn valid_command_name(n: Seq<char>) -> bool {
    n.len() > 0 && forall|i: int| 0 <= i < n.len() ==> is_name_char(#[trigger] n[i])
}

pub open spec fn has_empty_pattern(rs: Seq<KeywordView>) -> bool {
    exists|i: int| 0 <= i < rs.len() && (#[trigger] rs[i]).0.len() == 0
}

pub open spec fn has_repeated_pattern(rs: Seq<KeywordView>) -> bool {
    exists|i: int, j: int| 0 <= i < j < rs.len() && (#[trigger] rs[i]).0 == (#[trigger] rs[j]).0
}

pub open spec fn has_invalid_name(cs: Seq<SlashCommandView>) -> bool {
    exists|i: int| 0 <= i < cs.len() && !valid_command_name((#[trigger] cs[i]).0)
}

pub open spec fn has_repeated_name(cs: Seq<SlashCommandView>) -> bool {
    exists|i: int, j: int| 0 <= i < j < cs.len() && (#[trigger] cs[i]).0 == (#[trigger] cs[j]).0
}

/// The first rule that the presence breaks, if any.
pub open spec fn presence_violation(p: Option<PresenceDocumentView>) -> Option<FieldError> {
    match p {
        Some(p) => if status_of(p.0) is None {
            Some(FieldError::Status)
        } else if activity_of(p.1) is None {
            Some(FieldError::Activity)
        } else {
            None
        },
        None => None,
    }
}

/// The first rule that the keyword table breaks, if any.
pub open spec fn keyword_violation(rs: Option<Seq<KeywordView>>) -> Option<FieldError> {
    match rs {
        Some(rs) => if has_empty_pattern(rs) {
            Some(FieldError::EmptyKeyword)
        } else if has_repeated_pattern(rs) {
            Some(FieldError::DuplicateKeyword)
        } else {
            None
        },
        None => None,
    }
}

/// The first rule that the slash commands break, if any.
pub open spec fn slash_violation(c: Option<CommandsView>) -> Option<FieldError> {
    match c {
        Some((_, Some(cs))) => if has_invalid_name(cs) {
            Some(FieldError::SlashCommandName)
        } else if has_repeated_name(cs) {
            Some(FieldError::DuplicateSlashCommand)
        } else {
            None
        },
        _ => None,
    }
}

/// The first rule that a document breaks, checking the presence, then the
/// keyword table, then the slash commands.
pub open spec fn first_violation(d: DocumentView) -> Option<FieldError> {
    if presence_violation(d.presence) is Some {
        presence_violation(d.presence)
    } else if keyword_violation(d.responses) is Some {
        keyword_violation(d.responses)
    } else {
        slash_violation(d.commands)
    }
}

/// A well-formed configuration: keyword patterns non-empty and unique, slash
/// command names valid and unique.
pub open spec fn config_wf(c: ConfigView) -> bool {
    keyword_violation(c.responses) is None && slash_violation(c.commands) is None
}

/// The configuration a valid document describes.
pub open spec fn config_of(d: DocumentView) -> ConfigView {
    Settings {
        token: d.token,
        guild_id: d.guild_id,
        responses: d.responses,
        presence: match d.presence {
            Some(p) => Some((status_of(p.0).unwrap(), activity_of(p.1).unwrap(), p.2)),
            None => None,
        },
        commands: d.commands,
    }
}

/// The document that writes a configuration out.
pub open spec fn document_of(c: ConfigView) -> DocumentView {
    Settings {
        token: c.token,
        guild_id: c.guild_id,
        responses: c.responses,
        presence: match c.presence {
            Some(p) => Some((status_name(p.0), activity_name(p.1), p.2)),
            None => None,
        },
        commands: c.commands,
    }
}

/// Whether a name is one the platform accepts for a slash command.
pub fn is_valid_command_name(name: &String) -> (r: bool)
    ensures
        r == valid_command_name(name@),
{
    let s = name.as_str();
    let n = s.unicode_len();
    if n == 0 {
        return false;
    }
    let mut i: usize = 0;
    while i < n
        invariant
            n == s@.len(),
            s@ == name@,
            0 <= i <= n,
            forall|k: int| 0 <= k < i ==> is_name_char(#[trigger] s@[k]),
        decreases n - i,
    {
        let c = s.get_char(i);
        if char_is_whitespace(c) || char_is_uppercase(c) {
            assert(!is_name_char(s@[i as int]));
            return false;
        }
        i += 1;
    }
    true
}

fn has_empty_keyword(rs: &Vec<KeywordResponse>) -> (r: bool)
    ensures
        r == has_empty_pattern(rs.deep_view()),
{
    let mut i: usize = 0;
    while i < rs.len()
        invariant
            0 <= i <= rs.len(),
            forall|k: int| 0 <= k < i ==> (#[trigger] rs.deep_view()[k]).0.len() > 0,
        decreases rs.len() - i,
    {
        if rs[i].pattern.as_str().is_empty() {
            assert(rs.deep_view()[i as int].0.len() == 0);
            return true;
        }
        i += 1;
    }
    false
}

fn has_duplicate_keyword(rs: &Vec<KeywordResponse>) -> (r: bool)
    ensures
        r == has_repeated_pattern(rs.deep_view()),
{
    let ghost v = rs.deep_view();
    let mut j: usize = 0;
    while j < rs.len()
        invariant
            0 <= j <= rs.len(),
            v == rs.deep_view(),
            forall|a: int, b: int| 0 <= a < b < j ==> (#[trigger] v[a]).0 != (#[trigger] v[b]).0,
        decreases rs.len() - j,
    {
        let mut i: usize = 0;
        while i < j
            invariant
                0 <= i <= j < rs.len(),
                v == rs.deep_view(),
                forall|a: int| 0 <= a < i ==> (#[trigger] v[a]).0 != v[j as int].0,
            decreases j - i,
        {
            if rs[i].pattern == rs[j].pattern {
                assert(v[i as int].0 == v[j as int].0);
                return true;
            }
            i += 1;
        }
        j += 1;
    }
    false
}

fn has_invalid_slash_name(cs: &Vec<SlashCommand>) -> (r: bool)
    ensures
        r == has_invalid_name(cs.deep_view()),
{
    let mut i: usize = 0;
    while i < cs.len()
        invariant
            0 <= i <= cs.len(),
            forall|k: int| 0 <= k < i ==> valid_command_name((#[trigger] cs.deep_view()[k]).0),
        decreases cs.len() - i,
    {
        if !is_valid_command_name(&cs[i].name) {
            assert(!valid_command_name(cs.deep_view()[i as int].0));
            return true;
        }
        i += 1;
    }
    false
}

fn has_duplicate_slash_name(cs: &Vec<SlashCommand>) -> (r: bool)
    ensures
        r == has_repeated_name(cs.deep_view()),
{
    let ghost v = cs.deep_view();
    let mut j: usize = 0;
    while j < cs.len()
        invariant
            0 <= j <= cs.len(),
            v == cs.deep_view(),
            forall|a: int, b: int| 0 <= a < b < j ==> (#[trigger] v[a]).0 != (#[trigger] v[b]).0,
        decreases cs.len() - j,
    {
        let mut i: usize = 0;
        while i < j
            invariant
                0 <= i <= j < cs.len(),
                v == cs.deep_view(),
                forall|a: int| 0 <= a < i ==> (#[trigger] v[a]).0 != v[j as int].0,
            decreases j - i,
        {
            if cs[i].name == cs[j].name {
                assert(v[i as int].0 == v[j as int].0);
                return true;
            }
            i += 1;
        }
        j += 1;
    }
    false
}

impl Config {
    /// Keyword patterns non-empty and unique, slash command names valid and
    /// unique.
    pub open spec fn wf(&self) -> bool {
        config_wf(self@)
    }

    /// Validates a parsed document. Fails with the first rule it breaks, in
    /// the order that `first_violation` checks them; otherwise the
    /// configuration holds the document's values, with the presence strings
    /// mapped to their variants.
    pub fn load(doc: ConfigDocument) -> (r: Result<Config, ConfigError>)
        ensures
            match first_violation(doc@) {
                Some(e) => r == Err::<Config, ConfigError>(ConfigError::InvalidField(e)),
                None => r is Ok && r->Ok_0@ == config_of(doc@) && r->Ok_0.wf(),
            },
    {
        let ghost d = doc@;
        let ConfigDocument { token, guild_id, responses, presence, commands } = doc;
        let presence = match presence {
            None => None,
            Some(p) => {
                let status = match status_from_string(&p.status) {
                    Ok(s) => s,
                    Err(e) => return Err(ConfigError::InvalidField(e)),
                };
                let activity = match activity_type_from_string(&p.activity) {
                    Ok(a) => a,
                    Err(e) => return Err(ConfigError::InvalidField(e)),
                };
                Some(Presence { status, activity, description: p.description })
            },
        };
        if let Some(rs) = &responses {
            if has_empty_keyword(rs) {
                return Err(ConfigError::InvalidField(FieldError::EmptyKeyword));
            }
            if has_duplicate_keyword(rs) {
                return Err(ConfigError::InvalidField(FieldError::DuplicateKeyword));
            }
        }
        if let Some(c) = &commands {
            if let Some(s) = &c.slash {
                if has_invalid_slash_name(&s.commands) {
                    return Err(ConfigError::InvalidField(FieldError::SlashCommandName));
                }
                if has_duplicate_slash_name(&s.commands) {
                    return Err(ConfigError::InvalidField(FieldError::DuplicateSlashCommand));
                }
            }
        }
        let r = Config { token, guild_id, responses, presence, commands };
        assert(r@ == config_of(d));
        Ok(r)
    }

    /// The document that writes this configuration out, presence variants
    /// as their strings.
    pub fn into_document(self) -> (d: ConfigDocument)
        ensures
            d@ == document_of(self@),
    {
        let Config { token, guild_id, responses, presence, commands } = self;
        let presence = match presence {
            None => None,
            Some(p) => Some(
                PresenceDocument {
                    status: status_to_string(p.status),
                    activity: activity_type_to_string(p.activity),
                    description: p.description,
                },
            ),
        };
        ConfigDocument { token, guild_id, responses, presence, commands }
    }
}

/// A valid document, loaded and written out again, is the same document:
/// every field, every sequence in its order.
pub proof fn lemma_document_round_trip(d: DocumentView)
    requires
        first_violation(d) is None,
    ensures
        config_wf(config_of(d)),
        document_of(config_of(d)) == d,
{
    reveal_strlit("online");
    reveal_strlit("idle");
    reveal_strlit("dnd");
    reveal_strlit("invisible");
    reveal_strlit("offline");
    reveal_strlit("playing");
    reveal_strlit("watching");
    reveal_strlit("listening");
    reveal_strlit("streaming");
}

/// A well-formed configuration, written out and loaded again, is the same
/// configuration.
pub proof fn lemma_config_round_trip(c: ConfigView)
    requires
        config_wf(c),
    ensures
        first_violation(document_of(c)) is None,
        config_of(document_of(c)) == c,
{
    if let Some(p) = c.presence {
        lemma_status_names(p.0);
        lemma_activity_names(p.1);
    }
}

} // verus!
