//! Parsing of one line of Twitch IRC into a [`TwitchMessage`].
//!
//! The line is cut at every single space into tokens. The first token decides the
//! shape: tags (`@...`), a source (`:nick!host` or a `:tmi...` server name), a bare
//! `PING`, or tags followed by a source. The contract of
//! [`TwitchMessage::parse_message`] is the spec function [`parse_spec`], written over
//! the characters of the line.
use vstd::prelude::*;

use crate::text::{
    char_is_whitespace, lemma_split_from_first_piece, lemma_split_from_first_piece_prefix,
    lemma_trim_ws, chars_of, contains_seq, contains_str, eq_str, join_spaced, join_spaced_from, parse_i32,
    parse_i32_spec, seqs_view, split, split_chars, starts_with_seq, starts_with_str, string_of,
    trim_chars, trim_start_char, trim_start_char_chars, trim_ws,
};

verus! {

/// The IRC commands the bot distinguishes; every other command is `UNKNOWN`.
#[derive(Debug, Clone, Copy, PartialEq, Eq, Structural)]
pub enum MessageTypes {
    PING,
    PRIVMSG,
    ROOMSTATE,
    CLEARCHAT,
    CLEARMSG,
    HOSTTARGET,
    RECONNECT,
    USERNOTICE,
    USERSTATE,
    GLOBALUSERSTATE,
    UNKNOWN,
}

/// A parsed line.
#[derive(Debug, Clone)]
pub struct TwitchMessage {
    pub tags: Vec<Tags>,
    pub command: Commands,
    pub params: Vec<String>,
    pub source: Option<Source>,
}

/// The command of a line, the channel it names and the rest of the line.
#[derive(Debug, Clone, PartialEq)]
pub struct Commands {
    pub command: MessageTypes,
    pub channel: String,
    pub message: String,
}

/// Who sent a line.
#[derive(Debug, Clone)]
pub struct Source {
    pub nick: String,
    pub host: String,
}

/// One emote entry of the `emotes` tag.
#[derive(Debug, Clone, PartialEq)]
pub struct Emote {
    pub id: String,
}

/// The tags the bot keeps.
#[derive(Debug, Clone, PartialEq)]
pub enum Tags {
    Badges(Vec<Badge>),
    Emotes(Vec<Emote>),
    Subscriber(bool),
    Turbo(bool),
    Color(String),
    Mod(bool),
    UserID(String),
    UserType(String),
    DisplayName(String),
    MessageID(String),
    TimeSent(String),
}

/// One badge of the `badges` tag.
#[derive(Debug, Clone, PartialEq)]
pub enum Badge {
    Broadcaster(BadgeInfo),
    Moderator(BadgeInfo),
    Subscriber(BadgeInfo),
    VIP(BadgeInfo),
    Bits(BadgeInfo),
    Premium(BadgeInfo),
    BitsLeader(BadgeInfo),
    Staff(BadgeInfo),
    Admin(BadgeInfo),
    GlobalMod(BadgeInfo),
    Unknown(BadgeInfo),
}

/// What a badge carries.
#[derive(Debug, Clone, PartialEq)]
pub struct BadgeInfo {
    pub name: String,
    pub version: String,
    pub amount: Option<i32>,
}

// ---------------------------------------------------------------------------
// Mathematical views
// ---------------------------------------------------------------------------

/// Which variant of [`Badge`] a badge is.
pub enum BadgeKind {
    Broadcaster,
    Moderator,
    Subscriber,
    VIP,
    Bits,
    Premium,
    BitsLeader,
    Staff,
    Admin,
    GlobalMod,
    Unknown,
}

pub struct BadgeInfoView {
    pub name: Seq<char>,
    pub version: Seq<char>,
    pub amount: Option<i32>,
}

pub struct BadgeView {
    pub kind: BadgeKind,
    pub info: BadgeInfoView,
}

pub enum TagsView {
    Badges(Seq<BadgeView>),
    Emotes(Seq<Seq<char>>),
    Subscriber(bool),
    Turbo(bool),
    Color(Seq<char>),
    Mod(bool),
    UserID(Seq<char>),
    UserType(Seq<char>),
    DisplayName(Seq<char>),
    MessageID(Seq<char>),
    TimeSent(Seq<char>),
}

pub struct SourceView {
    pub nick: Seq<char>,
    pub host: Seq<char>,
}

pub struct CommandsView {
    pub command: MessageTypes,
    pub channel: Seq<char>,
    pub message: Seq<char>,
}

pub struct TwitchMessageView {
    pub tags: Seq<TagsView>,
    pub command: CommandsView,
    pub params: Seq<Seq<char>>,
    pub source: Option<SourceView>,
}

impl View for BadgeInfo {
    type V = BadgeInfoView;

    open spec fn view(&self) -> BadgeInfoView {
        BadgeInfoView { name: self.name@, version: self.version@, amount: self.amount }
    }
}

impl View for Badge {
    type V = BadgeView;

    open spec fn view(&self) -> BadgeView {
        match self {
            Badge::Broadcaster(i) => BadgeView { kind: BadgeKind::Broadcaster, info: i@ },
            Badge::Moderator(i) => BadgeView { kind: BadgeKind::Moderator, info: i@ },
            Badge::Subscriber(i) => BadgeView { kind: BadgeKind::Subscriber, info: i@ },
            Badge::VIP(i) => BadgeView { kind: BadgeKind::VIP, info: i@ },
            Badge::Bits(i) => BadgeView { kind: BadgeKind::Bits, info: i@ },
            Badge::Premium(i) => BadgeView { kind: BadgeKind::Premium, info: i@ },
            Badge::BitsLeader(i) => BadgeView { kind: BadgeKind::BitsLeader, info: i@ },
            Badge::Staff(i) => BadgeView { kind: BadgeKind::Staff, info: i@ },
            Badge::Admin(i) => BadgeView { kind: BadgeKind::Admin, info: i@ },
            Badge::GlobalMod(i) => BadgeView { kind: BadgeKind::GlobalMod, info: i@ },
            Badge::Unknown(i) => BadgeView { kind: BadgeKind::Unknown, info: i@ },
        }
    }
}

impl View for Emote {
    type V = Seq<char>;

    open spec fn view(&self) -> Seq<char> {
        self.id@
    }
}

impl View for Tags {
    type V = TagsView;

    open spec fn view(&self) -> TagsView {
        match self {
            Tags::Badges(b) => TagsView::Badges(b@.map_values(|x: Badge| x@)),
            Tags::Emotes(e) => TagsView::Emotes(e@.map_values(|x: Emote| x@)),
            Tags::Subscriber(b) => TagsView::Subscriber(*b),
            Tags::Turbo(b) => TagsView::Turbo(*b),
            Tags::Color(s) => TagsView::Color(s@),
            Tags::Mod(b) => TagsView::Mod(*b),
            Tags::UserID(s) => TagsView::UserID(s@),
            Tags::UserType(s) => TagsView::UserType(s@),
            Tags::DisplayName(s) => TagsView::DisplayName(s@),
            Tags::MessageID(s) => TagsView::MessageID(s@),
            Tags::TimeSent(s) => TagsView::TimeSent(s@),
        }
    }
}

impl View for Source {
    type V = SourceView;

    open spec fn view(&self) -> SourceView {
        SourceView { nick: self.nick@, host: self.host@ }
    }
}

impl View for Commands {
    type V = CommandsView;

    open spec fn view(&self) -> CommandsView {
        CommandsView { command: self.command, channel: self.channel@, message: self.message@ }
    }
}

impl View for TwitchMessage {
    type V = TwitchMessageView;

    open spec fn view(&self) -> TwitchMessageView {
        TwitchMessageView {
            tags: self.tags@.map_values(|t: Tags| t@),
            command: self.command@,
            params: self.params@.map_values(|p: String| p@),
            source: match self.source {
                Some(s) => Some(s@),
                None => None,
            },
        }
    }
}

// ---------------------------------------------------------------------------
// What a line means
// ---------------------------------------------------------------------------

/// The command a token names.
pub open spec fn message_type_spec(tok: Seq<char>) -> MessageTypes {
    if tok == "PING"@ {
        MessageTypes::PING
    } else if tok == "PRIVMSG"@ {
        MessageTypes::PRIVMSG
    } else if tok == "ROOMSTATE"@ {
        MessageTypes::ROOMSTATE
    } else if tok == "CLEARCHAT"@ {
        MessageTypes::CLEARCHAT
    } else if tok == "CLEARMSG"@ {
        MessageTypes::CLEARMSG
    } else if tok == "HOSTTARGET"@ {
        MessageTypes::HOSTTARGET
    } else if tok == "RECONNECT"@ {
        MessageTypes::RECONNECT
    } else if tok == "USERNOTICE"@ {
        MessageTypes::USERNOTICE
    } else if tok == "USERSTATE"@ {
        MessageTypes::USERSTATE
    } else if tok == "GLOBALUSERSTATE"@ {
        MessageTypes::GLOBALUSERSTATE
    } else {
        MessageTypes::UNKNOWN
    }
}

/// The kind of badge a badge name stands for.
pub open spec fn badge_kind_spec(name: Seq<char>) -> BadgeKind {
    if name == "broadcaster"@ {
        BadgeKind::Broadcaster
    } else if name == "moderator"@ {
        BadgeKind::Moderator
    } else if name == "subscriber"@ {
        BadgeKind::Subscriber
    } else if name == "vip"@ {
        BadgeKind::VIP
    } else if name == "bits"@ {
        BadgeKind::Bits
    } else if name == "premium"@ {
        BadgeKind::Premium
    } else if name == "bits-leader"@ {
        BadgeKind::BitsLeader
    } else if name == "staff"@ {
        BadgeKind::Staff
    } else if name == "admin"@ {
        BadgeKind::Admin
    } else if name == "global_mod"@ {
        BadgeKind::GlobalMod
    } else {
        BadgeKind::Unknown
    }
}

/// The badge that an entry `name/amount` of the `badges` tag stands for; its version
/// is always `0` and its amount is the amount parsed as an `i32`, if it parses.
pub open spec fn badge_spec(entry: Seq<char>) -> BadgeView {
    let parts = split(entry, '/');
    BadgeView {
        kind: badge_kind_spec(parts[0]),
        info: BadgeInfoView { name: parts[0], version: "0"@, amount: parse_i32_spec(parts[1]) },
    }
}

/// The badges of the entries `entries[i..]`: reading stops at the first entry
/// without a `/`.
pub open spec fn badges_from(entries: Seq<Seq<char>>, i: int) -> Seq<BadgeView>
    decreases entries.len() - i,
{
    if i >= entries.len() {
        Seq::empty()
    } else if split(entries[i], '/').len() < 2 {
        Seq::empty()
    } else {
        seq![badge_spec(entries[i])] + badges_from(entries, i + 1)
    }
}

/// The emote ids of the value of an `emotes` tag.
pub open spec fn emotes_spec(value: Seq<char>) -> Seq<Seq<char>> {
    if value.len() == 0 {
        Seq::empty()
    } else {
        split(value, '/')
    }
}

/// The tag that one `key=value` piece stands for, if the bot keeps that key.
pub open spec fn tag_spec(piece: Seq<char>) -> Option<TagsView> {
    let kv = split(piece, '=');
    let key = kv[0];
    let value = kv[1];
    if key == "badges"@ {
        Some(TagsView::Badges(badges_from(split(value, ','), 0)))
    } else if key == "emotes"@ {
        Some(TagsView::Emotes(emotes_spec(value)))
    } else if key == "subscriber"@ {
        Some(TagsView::Subscriber(value == "1"@))
    } else if key == "turbo"@ {
        Some(TagsView::Turbo(value == "1"@))
    } else if key == "color"@ {
        Some(TagsView::Color(value))
    } else if key == "mod"@ {
        Some(TagsView::Mod(value == "1"@))
    } else if key == "user-id"@ {
        Some(TagsView::UserID(value))
    } else if key == "user-type"@ {
        Some(TagsView::UserType(value))
    } else if key == "display-name"@ {
        Some(TagsView::DisplayName(value))
    } else if key == "id"@ {
        Some(TagsView::MessageID(value))
    } else if key == "tmi-sent-ts"@ {
        Some(TagsView::TimeSent(value))
    } else {
        None
    }
}

/// The tags kept from the pieces `pieces[i..]`, in order.
pub open spec fn tags_from(pieces: Seq<Seq<char>>, i: int) -> Seq<TagsView>
    decreases pieces.len() - i,
{
    if i >= pieces.len() {
        Seq::empty()
    } else {
        match tag_spec(pieces[i]) {
            Some(t) => seq![t] + tags_from(pieces, i + 1),
            None => tags_from(pieces, i + 1),
        }
    }
}

/// Every piece has a `=`, so that it has a value.
pub open spec fn tags_parseable(pieces: Seq<Seq<char>>) -> bool {
    forall|i: int| 0 <= i < pieces.len() ==> (#[trigger] split(pieces[i], '=')).len() >= 2
}

/// The tags of a line whose first token is `first`.
pub open spec fn line_tags(first: Seq<char>) -> Seq<TagsView> {
    if starts_with_seq(first, "@"@) {
        tags_from(split(first, ';'), 0)
    } else {
        Seq::empty()
    }
}

/// The lines that can be parsed: where the tags' values, the command, the channel
/// and the host that the line's shape calls for are all there.
pub open spec fn parse_ok(line: Seq<char>) -> bool {
    let toks = split(line, ' ');
    let first = toks[0];
    &&& starts_with_seq(first, "@"@) ==> tags_parseable(split(first, ';'))
    &&& if starts_with_seq(first, ":"@) {
        toks.len() >= 3
    } else if starts_with_seq(first, "PING"@) {
        true
    } else {
        &&& toks.len() >= 4
        &&& contains_seq(toks[1], ":tmi"@) || split(toks[1], '!').len() >= 2
    }
}

/// A line with the given parts and no parameters.
pub open spec fn line_view(
    tags: Seq<TagsView>,
    command: MessageTypes,
    channel: Seq<char>,
    message: Seq<char>,
    source: Option<SourceView>,
) -> TwitchMessageView {
    TwitchMessageView {
        tags,
        command: CommandsView { command, channel, message },
        params: Seq::empty(),
        source,
    }
}

/// What a line means.
///
/// - First token `:name...`: the name before the first `!` is the nick. If it holds
///   `:tmi`, it is a server line: the source has an empty nick and the name as host.
///   Otherwise the host is what follows the first `!` (up to a second `!`), or empty.
///   Then come the command, the channel, and the rest, trimmed.
/// - First token starting with `PING`: a ping; the rest of the line, trimmed, is the
///   message, the channel is empty and there is no source.
/// - Otherwise the first token is the tags (when it starts with `@`) and the second
///   the source: a server name when it holds `:tmi`, else `:nick!host`, whose nick
///   loses its leading colons. Then come the command and the channel; the rest,
///   without its leading colons and trimmed, is the message.
pub open spec fn parse_spec(line: Seq<char>) -> TwitchMessageView {
    let toks = split(line, ' ');
    let first = toks[0];
    let tags = line_tags(first);
    if starts_with_seq(first, ":"@) {
        let nick = split(first, '!')[0];
        let source = if contains_seq(nick, ":tmi"@) {
            SourceView { nick: Seq::empty(), host: nick }
        } else {
            SourceView {
                nick,
                host: if split(first, '!').len() >= 2 {
                    split(first, '!')[1]
                } else {
                    Seq::empty()
                },
            }
        };
        line_view(
            tags,
            message_type_spec(toks[1]),
            toks[2],
            trim_ws(join_spaced_from(toks, 3)),
            Some(source),
        )
    } else if starts_with_seq(first, "PING"@) {
        line_view(tags, MessageTypes::PING, Seq::empty(), trim_ws(join_spaced_from(toks, 1)), None)
    } else if contains_seq(toks[1], ":tmi"@) {
        line_view(
            tags,
            message_type_spec(toks[2]),
            toks[3],
            trim_ws(join_spaced_from(toks, 4)),
            Some(SourceView { nick: Seq::empty(), host: toks[1] }),
        )
    } else {
        let parts = split(toks[1], '!');
        line_view(
            tags,
            message_type_spec(toks[2]),
            toks[3],
            trim_ws(trim_start_char(join_spaced_from(toks, 4), ':')),
            Some(SourceView { nick: trim_start_char(parts[0], ':'), host: parts[1] }),
        )
    }
}

// ---------------------------------------------------------------------------
// Parsing
// ---------------------------------------------------------------------------

/// The command a token names.
pub fn message_type_of(tok: &Vec<char>) -> (r: MessageTypes)
    ensures
        r == message_type_spec(tok@),
{
    if eq_str(tok, "PING") {
        MessageTypes::PING
    } else if eq_str(tok, "PRIVMSG") {
        MessageTypes::PRIVMSG
    } else if eq_str(tok, "ROOMSTATE") {
        MessageTypes::ROOMSTATE
    } else if eq_str(tok, "CLEARCHAT") {
        MessageTypes::CLEARCHAT
    } else if eq_str(tok, "CLEARMSG") {
        MessageTypes::CLEARMSG
    } else if eq_str(tok, "HOSTTARGET") {
        MessageTypes::HOSTTARGET
    } else if eq_str(tok, "RECONNECT") {
        MessageTypes::RECONNECT
    } else if eq_str(tok, "USERNOTICE") {
        MessageTypes::USERNOTICE
    } else if eq_str(tok, "USERSTATE") {
        MessageTypes::USERSTATE
    } else if eq_str(tok, "GLOBALUSERSTATE") {
        MessageTypes::GLOBALUSERSTATE
    } else {
        MessageTypes::UNKNOWN
    }
}

/// The badge of an entry `name/amount`.
fn badge_of(entry: &Vec<char>) -> (b: Badge)
    requires
        split(entry@, '/').len() >= 2,
    ensures
        b@ == badge_spec(entry@),
{
    let parts = split_chars(entry, '/');
    let name = &parts[0];
    let info = BadgeInfo { name: string_of(name), version: "0".to_owned(), amount: parse_i32(&parts[1]) };
    assert(parts@[0]@ == split(entry@, '/')[0]);
    assert(parts@[1]@ == split(entry@, '/')[1]);
    if eq_str(name, "broadcaster") {
        Badge::Broadcaster(info)
    } else if eq_str(name, "moderator") {
        Badge::Moderator(info)
    } else if eq_str(name, "subscriber") {
        Badge::Subscriber(info)
    } else if eq_str(name, "vip") {
        Badge::VIP(info)
    } else if eq_str(name, "bits") {
        Badge::Bits(info)
    } else if eq_str(name, "premium") {
        Badge::Premium(info)
    } else if eq_str(name, "bits-leader") {
        Badge::BitsLeader(info)
    } else if eq_str(name, "staff") {
        Badge::Staff(info)
    } else if eq_str(name, "admin") {
        Badge::Admin(info)
    } else if eq_str(name, "global_mod") {
        Badge::GlobalMod(info)
    } else {
        Badge::Unknown(info)
    }
}

/// The badges of the value of a `badges` tag.
fn badges_of(value: &Vec<char>) -> (r: Vec<Badge>)
    ensures
        r@.map_values(|x: Badge| x@) == badges_from(split(value@, ','), 0),
{
    let entries = split_chars(value, ',');
    let ghost ev = seqs_view(entries@);
    let mut out: Vec<Badge> = Vec::new();
    let mut i: usize = 0;
    loop
        invariant
            ev == seqs_view(entries@),
            ev == split(value@, ','),
            i <= entries.len(),
            out@.map_values(|x: Badge| x@) + badges_from(ev, i as int) == badges_from(ev, 0),
        decreases entries.len() - i,
    {
        if i == entries.len() {
            assert(out@.map_values(|x: Badge| x@) + badges_from(ev, i as int) =~= out@.map_values(
                |x: Badge| x@,
            ));
            return out;
        }
        let entry = &entries[i];
        assert(ev[i as int] == entry@);
        let parts = split_chars(entry, '/');
        if parts.len() < 2 {
            assert(out@.map_values(|x: Badge| x@) + badges_from(ev, i as int) =~= out@.map_values(
                |x: Badge| x@,
            ));
            return out;
        }
        let b = badge_of(entry);
        let ghost before = out@;
        out.push(b);
        assert(out@.map_values(|x: Badge| x@) =~= before.map_values(|x: Badge| x@).push(b@));
        assert(out@.map_values(|x: Badge| x@) + badges_from(ev, i + 1) =~= before.map_values(
            |x: Badge| x@,
        ) + badges_from(ev, i as int));
        i = i + 1;
    }
}

/// The emotes of the value of an `emotes` tag.
fn emotes_of(value: &Vec<char>) -> (r: Vec<Emote>)
    ensures
        r@.map_values(|x: Emote| x@) == emotes_spec(value@),
{
    let mut out: Vec<Emote> = Vec::new();
    if value.len() == 0 {
        assert(out@.map_values(|x: Emote| x@) =~= emotes_spec(value@));
        return out;
    }
    let ids = split_chars(value, '/');
    let mut i: usize = 0;
    while i < ids.len()
        invariant
            i <= ids.len(),
            seqs_view(ids@) == split(value@, '/'),
            out@.map_values(|x: Emote| x@) == seqs_view(ids@).take(i as int),
        decreases ids.len() - i,
    {
        let e = Emote { id: string_of(&ids[i]) };
        let ghost before = out@;
        assert(seqs_view(ids@)[i as int] == ids@[i as int]@);
        out.push(e);
        assert(out@.map_values(|x: Emote| x@) =~= before.map_values(|x: Emote| x@).push(e@));
        assert(out@.map_values(|x: Emote| x@) =~= seqs_view(ids@).take(i + 1));
        i = i + 1;
    }
    assert(seqs_view(ids@).take(ids.len() as int) =~= seqs_view(ids@));
    out
}

/// The tag of one `key=value` piece, if the key is one the bot keeps.
fn tag_of(piece: &Vec<char>) -> (r: Option<Tags>)
    requires
        split(piece@, '=').len() >= 2,
    ensures
        match r {
            Some(t) => tag_spec(piece@) == Some(t@),
            None => tag_spec(piece@) is None,
        },
{
    let kv = split_chars(piece, '=');
    let key = &kv[0];
    let value = &kv[1];
    assert(key@ == split(piece@, '=')[0]);
    assert(value@ == split(piece@, '=')[1]);
    if eq_str(key, "badges") {
        Some(Tags::Badges(badges_of(value)))
    } else if eq_str(key, "emotes") {
        Some(Tags::Emotes(emotes_of(value)))
    } else if eq_str(key, "subscriber") {
        Some(Tags::Subscriber(eq_str(value, "1")))
    } else if eq_str(key, "turbo") {
        Some(Tags::Turbo(eq_str(value, "1")))
    } else if eq_str(key, "color") {
        Some(Tags::Color(string_of(value)))
    } else if eq_str(key, "mod") {
        Some(Tags::Mod(eq_str(value, "1")))
    } else if eq_str(key, "user-id") {
        Some(Tags::UserID(string_of(value)))
    } else if eq_str(key, "user-type") {
        Some(Tags::UserType(string_of(value)))
    } else if eq_str(key, "display-name") {
        Some(Tags::DisplayName(string_of(value)))
    } else if eq_str(key, "id") {
        Some(Tags::MessageID(string_of(value)))
    } else if eq_str(key, "tmi-sent-ts") {
        Some(Tags::TimeSent(string_of(value)))
    } else {
        None
    }
}

/// The tags of a first token that starts with `@`.
fn tags_of(first: &Vec<char>) -> (r: Vec<Tags>)
    requires
        tags_parseable(split(first@, ';')),
    ensures
        r@.map_values(|t: Tags| t@) == tags_from(split(first@, ';'), 0),
{
    let pieces = split_chars(first, ';');
    let ghost pv = seqs_view(pieces@);
    let mut out: Vec<Tags> = Vec::new();
    let mut i: usize = 0;
    while i < pieces.len()
        invariant
            pv == seqs_view(pieces@),
            pv == split(first@, ';'),
            tags_parseable(pv),
            i <= pieces.len(),
            out@.map_values(|t: Tags| t@) + tags_from(pv, i as int) == tags_from(pv, 0),
        decreases pieces.len() - i,
    {
        let piece = &pieces[i];
        assert(pv[i as int] == piece@);
        assert(split(pv[i as int], '=').len() >= 2);
        let ghost before = out@;
        match tag_of(piece) {
            Some(t) => {
                out.push(t);
                assert(out@.map_values(|t: Tags| t@) =~= before.map_values(|t: Tags| t@).push(
                    t@,
                ));
                assert(out@.map_values(|t: Tags| t@) + tags_from(pv, i + 1) =~= before.map_values(
                    |t: Tags| t@,
                ) + tags_from(pv, i as int));
            },
            None => {},
        }
        i = i + 1;
    }
    assert(out@.map_values(|t: Tags| t@) + tags_from(pv, i as int) =~= out@.map_values(
        |t: Tags| t@,
    ));
    out
}

/// Whether [`TwitchMessage::parse_message`] can take `line`.
pub fn can_parse(line: &str) -> (r: bool)
    ensures
        r == parse_ok(line@),
{
    let chars = chars_of(line);
    let toks = split_chars(&chars, ' ');
    let ghost tv = seqs_view(toks@);
    let first = &toks[0];
    assert(tv[0] == first@);
    assert(tv == split(line@, ' '));
    if starts_with_str(first, "@") {
        let pieces = split_chars(first, ';');
        let mut i: usize = 0;
        while i < pieces.len()
            invariant
                i <= pieces.len(),
                starts_with_seq(first@, "@"@),
                first@ == split(line@, ' ')[0],
                seqs_view(pieces@) == split(first@, ';'),
                forall|j: int| 0 <= j < i ==> (#[trigger] split(seqs_view(pieces@)[j], '=')).len() >= 2,
            decreases pieces.len() - i,
        {
            let kv = split_chars(&pieces[i], '=');
            assert(seqs_view(pieces@)[i as int] == pieces@[i as int]@);
            if kv.len() < 2 {
                assert(split(split(first@, ';')[i as int], '=').len() < 2);
                assert(!tags_parseable(split(first@, ';')));
                return false;
            }
            i = i + 1;
        }
    }
    if starts_with_str(first, ":") {
        toks.len() >= 3
    } else if starts_with_str(first, "PING") {
        true
    } else {
        if toks.len() < 4 {
            return false;
        }
        assert(tv[1] == toks@[1]@);
        contains_str(&toks[1], ":tmi") || split_chars(&toks[1], '!').len() >= 2
    }
}

fn make_line(
    tags: Vec<Tags>,
    command: MessageTypes,
    channel: String,
    message: String,
    source: Option<Source>,
) -> (r: TwitchMessage)
    ensures
        r@ == line_view(
            tags@.map_values(|t: Tags| t@),
            command,
            channel@,
            message@,
            match source {
                Some(s) => Some(s@),
                None => None,
            },
        ),
{
    let params: Vec<String> = Vec::new();
    let r = TwitchMessage { tags, command: Commands { command, channel, message }, params, source };
    assert(r@.params =~= Seq::<Seq<char>>::empty());
    r
}

impl TwitchMessage {
    /// Parses one line of Twitch IRC; see [`parse_spec`] for what each shape of line
    /// gives. The line must be one that [`can_parse`] accepts.
    pub fn parse_message(message: String) -> (r: TwitchMessage)
        requires
            parse_ok(message@),
        ensures
            r@ == parse_spec(message@),
    {
        let chars = chars_of(message.as_str());
        let toks = split_chars(&chars, ' ');
        let ghost tv = seqs_view(toks@);
        assert(tv == split(message@, ' '));
        let first = &toks[0];
        assert(tv[0] == first@);
        let tags: Vec<Tags> = if starts_with_str(first, "@") {
            tags_of(first)
        } else {
            let t: Vec<Tags> = Vec::new();
            assert(t@.map_values(|t: Tags| t@) =~= Seq::<TagsView>::empty());
            t
        };
        assert(tags@.map_values(|t: Tags| t@) == line_tags(first@));
        if starts_with_str(first, ":") {
            assert(tv[1] == toks@[1]@);
            assert(tv[2] == toks@[2]@);
            let parts = split_chars(first, '!');
            let nick = &parts[0];
            assert(nick@ == split(first@, '!')[0]);
            let source = if contains_str(nick, ":tmi") {
                Source { nick: String::new(), host: string_of(nick) }
            } else {
                let host = if parts.len() >= 2 {
                    assert(parts@[1]@ == split(first@, '!')[1]);
                    string_of(&parts[1])
                } else {
                    String::new()
                };
                Source { nick: string_of(nick), host }
            };
            let command = message_type_of(&toks[1]);
            let channel = string_of(&toks[2]);
            let rest = join_spaced(&toks, 3);
            let message = string_of(&trim_chars(&rest));
            return make_line(tags, command, channel, message, Some(source));
        }
        if starts_with_str(first, "PING") {
            let rest = join_spaced(&toks, 1);
            let message = string_of(&trim_chars(&rest));
            return make_line(tags, MessageTypes::PING, String::new(), message, None);
        }
        let second = &toks[1];
        assert(tv[1] == second@);
        assert(tv[2] == toks@[2]@);
        assert(tv[3] == toks@[3]@);
        if contains_str(second, ":tmi") {
            let source = Source { nick: String::new(), host: string_of(second) };
            let command = message_type_of(&toks[2]);
            let channel = string_of(&toks[3]);
            let rest = join_spaced(&toks, 4);
            let message = string_of(&trim_chars(&rest));
            return make_line(tags, command, channel, message, Some(source));
        }
        let parts = split_chars(second, '!');
        assert(parts@[0]@ == split(second@, '!')[0]);
        assert(parts@[1]@ == split(second@, '!')[1]);
        let nick = string_of(&trim_start_char_chars(&parts[0], ':'));
        let host = string_of(&parts[1]);
        let command = message_type_of(&toks[2]);
        let channel = string_of(&toks[3]);
        let rest = join_spaced(&toks, 4);
        let message = string_of(&trim_chars(&trim_start_char_chars(&rest, ':')));
        make_line(tags, command, channel, message, Some(Source { nick, host }))
    }
}

// ---------------------------------------------------------------------------
// Laws
// ---------------------------------------------------------------------------

/// Every line that starts with `PING` (the lines the client answers with a `PONG`) can be
/// parsed, and parses as a ping with no tags, no channel and no source.
pub proof fn law_ping_line_parses_as_ping(line: Seq<char>)
    requires
        starts_with_seq(line, "PING"@),
    ensures
        parse_ok(line),
        parse_spec(line).command.command == MessageTypes::PING,
        parse_spec(line).command.channel.len() == 0,
        parse_spec(line).source is None,
        parse_spec(line).tags.len() == 0,
{
    reveal_strlit("PING");
    reveal_strlit("@");
    reveal_strlit(":");
    let p = line.subrange(0, 4);
    assert(p =~= "PING"@);
    assert forall|k: int| 0 <= k < 4 implies line[k] != ' ' by {
        assert(line[k] == p[k]);
    }
    lemma_split_from_first_piece(line, ' ', 0, Seq::empty(), 4);
    lemma_split_from_first_piece_prefix(line, ' ', 4, Seq::empty() + p);
    assert(Seq::<char>::empty() + p =~= p);
    let first = split(line, ' ')[0];
    assert(first.subrange(0, 4) == p);
    assert(first[0] == 'P') by {
        assert(first.subrange(0, 4)[0] == first[0]);
    }
    assert(starts_with_seq(first, "PING"@));
    assert(!starts_with_seq(first, "@"@)) by {
        assert(first.subrange(0, 1)[0] == first[0]);
    }
    assert(!starts_with_seq(first, ":"@)) by {
        assert(first.subrange(0, 1)[0] == first[0]);
    }
}

/// A badge is of a named kind exactly when its name is that kind's name as Twitch writes
/// it (`bits` for `Bits`, `bits-leader` for `BitsLeader`, and so on), and of no known
/// kind exactly when its name is none of the ten.
pub proof fn law_badge_kind_by_name(name: Seq<char>)
    ensures
        (badge_kind_spec(name) == BadgeKind::Broadcaster) <==> name == "broadcaster"@,
        (badge_kind_spec(name) == BadgeKind::Moderator) <==> name == "moderator"@,
        (badge_kind_spec(name) == BadgeKind::Subscriber) <==> name == "subscriber"@,
        (badge_kind_spec(name) == BadgeKind::VIP) <==> name == "vip"@,
        (badge_kind_spec(name) == BadgeKind::Bits) <==> name == "bits"@,
        (badge_kind_spec(name) == BadgeKind::Premium) <==> name == "premium"@,
        (badge_kind_spec(name) == BadgeKind::BitsLeader) <==> name == "bits-leader"@,
        (badge_kind_spec(name) == BadgeKind::Staff) <==> name == "staff"@,
        (badge_kind_spec(name) == BadgeKind::Admin) <==> name == "admin"@,
        (badge_kind_spec(name) == BadgeKind::GlobalMod) <==> name == "global_mod"@,
        (badge_kind_spec(name) == BadgeKind::Unknown) <==> (name != "broadcaster"@ && name
            != "moderator"@ && name != "subscriber"@ && name != "vip"@ && name != "bits"@
            && name != "premium"@ && name != "bits-leader"@ && name != "staff"@ && name
            != "admin"@ && name != "global_mod"@),
{
    reveal_strlit("broadcaster");
    reveal_strlit("moderator");
    reveal_strlit("subscriber");
    reveal_strlit("vip");
    reveal_strlit("bits");
    reveal_strlit("premium");
    reveal_strlit("bits-leader");
    reveal_strlit("staff");
    reveal_strlit("admin");
    reveal_strlit("global_mod");
    assert("broadcaster"@.len() == 11 && "broadcaster"@[0] == 'b' && "broadcaster"@[1] == 'r');
    assert("moderator"@.len() == 9 && "moderator"@[0] == 'm' && "moderator"@[1] == 'o');
    assert("subscriber"@.len() == 10 && "subscriber"@[0] == 's' && "subscriber"@[1] == 'u');
    assert("vip"@.len() == 3 && "vip"@[0] == 'v' && "vip"@[1] == 'i');
    assert("bits"@.len() == 4 && "bits"@[0] == 'b' && "bits"@[1] == 'i');
    assert("premium"@.len() == 7 && "premium"@[0] == 'p' && "premium"@[1] == 'r');
    assert("bits-leader"@.len() == 11 && "bits-leader"@[0] == 'b' && "bits-leader"@[1] == 'i');
    assert("staff"@.len() == 5 && "staff"@[0] == 's' && "staff"@[1] == 't');
    assert("admin"@.len() == 5 && "admin"@[0] == 'a' && "admin"@[1] == 'd');
    assert("global_mod"@.len() == 10 && "global_mod"@[0] == 'g' && "global_mod"@[1] == 'l');
}

/// Every badge read from a `badges` tag keeps the name written before its `/`, and its
/// kind is the kind that name stands for.
pub proof fn law_badges_keep_their_names(entries: Seq<Seq<char>>, i: int)
    requires
        0 <= i,
    ensures
        forall|k: int|
            0 <= k < badges_from(entries, i).len() ==> exists|j: int|
                i <= j < entries.len() && #[trigger] badges_from(entries, i)[k].info.name == split(
                    entries[j],
                    '/',
                )[0],
        forall|k: int|
            0 <= k < badges_from(entries, i).len() ==> #[trigger] badges_from(entries, i)[k].kind
                == badge_kind_spec(badges_from(entries, i)[k].info.name),
    decreases entries.len() - i,
{
    if i < entries.len() && split(entries[i], '/').len() >= 2 {
        law_badges_keep_their_names(entries, i + 1);
        let rest = badges_from(entries, i + 1);
        let all = badges_from(entries, i);
        assert(all == seq![badge_spec(entries[i])] + rest);
        assert forall|k: int| 0 <= k < all.len() implies exists|j: int|
            i <= j < entries.len() && #[trigger] all[k].info.name == split(entries[j], '/')[0] by {
            if k == 0 {
                assert(all[0].info.name == split(entries[i], '/')[0]);
            } else {
                assert(all[k] == rest[k - 1]);
                let j = choose|j: int|
                    i + 1 <= j < entries.len() && #[trigger] rest[k - 1].info.name == split(
                        entries[j],
                        '/',
                    )[0];
                assert(all[k].info.name == split(entries[j], '/')[0]);
            }
        }
        assert forall|k: int| 0 <= k < all.len() implies #[trigger] all[k].kind == badge_kind_spec(
            all[k].info.name,
        ) by {
            if k > 0 {
                assert(all[k] == rest[k - 1]);
            }
        }
    }
}

/// The text of every parsed line neither starts nor ends with whitespace.
pub proof fn law_message_is_trimmed(line: Seq<char>)
    ensures
        parse_spec(line).command.message.len() > 0 ==> !char_is_whitespace(
            parse_spec(line).command.message[0],
        ) && !char_is_whitespace(parse_spec(line).command.message.last()),
{
    let toks = split(line, ' ');
    lemma_trim_ws(join_spaced_from(toks, 3));
    lemma_trim_ws(join_spaced_from(toks, 1));
    lemma_trim_ws(join_spaced_from(toks, 4));
    lemma_trim_ws(trim_start_char(join_spaced_from(toks, 4), ':'));
}

} // verus!
