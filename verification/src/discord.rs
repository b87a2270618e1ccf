use vstd::prelude::*;
use crate::chars::{append_chars, append_str, chars_to_string, str_chars};
use crate::decimal::{dec_digits, u64_digits};
use crate::ical::{event_wf, Calendar, Event, Image, Organiser};
use crate::snowflake::{Snowflake, ID_EPOCH_MILLIS};
use crate::time::{civil_time, UtcTime};

verus! {

/// A user record, as supplied by the upstream API.
pub struct User {
    pub id: Snowflake,
    pub username: String,
    pub discriminator: String,
    pub avatar: Option<String>,
}

/// A guild record, as supplied by the upstream API.
pub struct Guild {
    pub id: Snowflake,
    pub name: String,
    pub icon: Option<String>,
    pub splash: Option<String>,
    pub discovery_splash: Option<String>,
    pub owner_id: Snowflake,
    pub description: Option<String>,
}

/// A channel record, as supplied by the upstream API.
pub struct Channel {
    pub id: Snowflake,
    pub guild_id: Option<Snowflake>,
    pub name: Option<String>,
    pub topic: Option<String>,
}

/// The location metadata of an external scheduled event.
pub struct GuildEventEntityMetadata {
    pub location: Option<String>,
}

/// The privacy level of a scheduled event.
pub enum GuildEventPrivacyLevel {
    GuildOnly,
}

/// The lifecycle status of a scheduled event.
pub enum GuildEventStatus {
    Scheduled,
    Active,
    Completed,
    Cancelled,
}

/// Where a scheduled event takes place.
pub enum GuildEventEntityType {
    Stage,
    Voice,
    External,
}

/// The upstream protocol's integer code of a privacy level.
pub open spec fn privacy_level_code(l: GuildEventPrivacyLevel) -> int {
    2
}

/// The upstream protocol's integer code of a status.
pub open spec fn status_code(s: GuildEventStatus) -> int {
    match s {
        GuildEventStatus::Scheduled => 1,
        GuildEventStatus::Active => 2,
        GuildEventStatus::Completed => 3,
        GuildEventStatus::Cancelled => 4,
    }
}

/// The upstream protocol's integer code of an entity type.
pub open spec fn entity_type_code(t: GuildEventEntityType) -> int {
    match t {
        GuildEventEntityType::Stage => 1,
        GuildEventEntityType::Voice => 2,
        GuildEventEntityType::External => 3,
    }
}

impl GuildEventPrivacyLevel {
    /// The integer code used on the wire.
    pub fn code(&self) -> (r: i32)
        ensures
            r == privacy_level_code(*self),
    {
        2
    }

    /// The privacy level of a wire code, if any.
    pub fn from_code(c: i32) -> (r: Option<GuildEventPrivacyLevel>)
        ensures
            match r {
                Some(l) => privacy_level_code(l) == c,
                None => c != 2,
            },
    {
        if c == 2 {
            Some(GuildEventPrivacyLevel::GuildOnly)
        } else {
            None
        }
    }
}

impl GuildEventStatus {
    /// The integer code used on the wire.
    pub fn code(&self) -> (r: i32)
        ensures
            r == status_code(*self),
    {
        match self {
            GuildEventStatus::Scheduled => 1,
            GuildEventStatus::Active => 2,
            GuildEventStatus::Completed => 3,
            GuildEventStatus::Cancelled => 4,
        }
    }

    /// The status of a wire code, if any.
    pub fn from_code(c: i32) -> (r: Option<GuildEventStatus>)
        ensures
            match r {
                Some(s) => status_code(s) == c,
                None => !(1 <= c <= 4),
            },
    {
        if c == 1 {
            Some(GuildEventStatus::Scheduled)
        } else if c == 2 {
            Some(GuildEventStatus::Active)
        } else if c == 3 {
            Some(GuildEventStatus::Completed)
        } else if c == 4 {
            Some(GuildEventStatus::Cancelled)
        } else {
            None
        }
    }
}

impl GuildEventEntityType {
    /// The integer code used on the wire.
    pub fn code(&self) -> (r: i32)
        ensures
            r == entity_type_code(*self),
    {
        match self {
            GuildEventEntityType::Stage => 1,
            GuildEventEntityType::Voice => 2,
            GuildEventEntityType::External => 3,
        }
    }

    /// The entity type of a wire code, if any.
    pub fn from_code(c: i32) -> (r: Option<GuildEventEntityType>)
        ensures
            match r {
                Some(t) => entity_type_code(t) == c,
                None => !(1 <= c <= 3),
            },
    {
        if c == 1 {
            Some(GuildEventEntityType::Stage)
        } else if c == 2 {
            Some(GuildEventEntityType::Voice)
        } else if c == 3 {
            Some(GuildEventEntityType::External)
        } else {
            None
        }
    }
}

/// A scheduled event record, as supplied by the upstream API; date-times are
/// already civil UTC values.
pub struct GuildEvent {
    pub id: Snowflake,
    pub guild_id: Snowflake,
    pub channel_id: Option<Snowflake>,
    pub creator_id: Option<Snowflake>,
    pub name: String,
    pub description: Option<String>,
    pub image: Option<String>,
    pub scheduled_start_time: UtcTime,
    pub scheduled_end_time: Option<UtcTime>,
    pub privacy_level: GuildEventPrivacyLevel,
    pub status: GuildEventStatus,
    pub entity_type: GuildEventEntityType,
    pub entity_id: Option<String>,
    pub entity_metadata: Option<GuildEventEntityMetadata>,
    pub creator: Option<User>,
}

/// The character view of an optional string.
pub open spec fn opt_str_view(o: Option<String>) -> Option<Seq<char>> {
    match o {
        Some(s) => Some(s@),
        None => None,
    }
}

/// The description chosen for an event: its own, else the channel's topic.
pub open spec fn description_view(d: Option<String>, channel: Option<Channel>) -> Option<
    Seq<char>,
> {
    match d {
        Some(s) => Some(s@),
        None => match channel {
            Some(c) => opt_str_view(c.topic),
            None => None,
        },
    }
}

/// The location chosen for an event: the metadata location for external
/// events, else the channel's name prefixed with `#`.
pub open spec fn location_view(e: GuildEvent, channel: Option<Channel>) -> Option<Seq<char>> {
    match e.entity_type {
        GuildEventEntityType::External => match e.entity_metadata {
            Some(m) => opt_str_view(m.location),
            None => None,
        },
        _ => match channel {
            Some(c) => match c.name {
                Some(n) => Some(seq!['#'] + n@),
                None => None,
            },
            None => None,
        },
    }
}

/// The organiser common name of an event creator: `username#discriminator`.
pub open spec fn creator_name_view(c: Option<User>) -> Option<Seq<char>> {
    match c {
        Some(u) => Some(u.username@ + seq!['#'] + u.discriminator@),
        None => None,
    }
}

/// The organiser sent-by address of an event creator.
pub open spec fn creator_sent_by_view(c: Option<User>) -> Option<Seq<char>> {
    match c {
        Some(u) => Some("https//discord.com/channels/@me/"@ + dec_digits(u.id.0 as nat)),
        None => None,
    }
}

/// The STATUS value of an event: CANCELLED for a cancelled event, else
/// CONFIRMED.
pub open spec fn status_text(s: GuildEventStatus) -> Seq<char> {
    match s {
        GuildEventStatus::Cancelled => "CANCELLED"@,
        _ => "CONFIRMED"@,
    }
}

fn opt_string_clone(o: &Option<String>) -> (r: Option<String>)
    ensures
        opt_str_view(r) == opt_str_view(*o),
{
    match o {
        Some(s) => Some(s.clone()),
        None => None,
    }
}

/// Maps one upstream scheduled-event record (and the channel it points at,
/// when one was found) to the calendar event that is published for it.
pub fn event_from_guild_event(event: GuildEvent, channel: Option<Channel>) -> (r: Event)
    ensures
        r.uid@ == dec_digits(event.id.0 as nat) + "@e.discord-events.magicalcodewit.ch"@,
        r.timestamp == civil_time((event.id.0 >> 22) + ID_EPOCH_MILLIS),
        r.start == event.scheduled_start_time,
        r.end == event.scheduled_end_time,
        r.created == Some(r.timestamp),
        opt_str_view(r.summary) == Some(event.name@),
        opt_str_view(r.description) == description_view(event.description, channel),
        opt_str_view(r.location) == location_view(event, channel),
        match r.organiser {
            Some(o) => {
                &&& o.address@ == "https//discord.com/channels/"@ + dec_digits(
                    event.guild_id.0 as nat,
                )
                &&& opt_str_view(o.common_name) == creator_name_view(event.creator)
                &&& opt_str_view(o.sent_by) == creator_sent_by_view(event.creator)
            },
            None => false,
        },
        opt_str_view(r.status) == Some(status_text(event.status)),
        match event.image {
            Some(i) => r.images@.len() == 1 && match r.images@[0] {
                Image::Url(u) => u@ == "https://cdn.discordapp.com/guild-events/"@ + dec_digits(
                    event.id.0 as nat,
                ) + "/"@ + i@ + ".png"@,
                Image::Binary(_) => false,
            },
            None => r.images@.len() == 0,
        },
        event_wf(r),
{
    let mut uidc = u64_digits(event.id.0);
    append_str(&mut uidc, "@e.discord-events.magicalcodewit.ch");
    let uid = chars_to_string(&uidc);

    let timestamp = event.id.timestamp();

    let description = match &event.description {
        Some(d) => Some(d.clone()),
        None => match &channel {
            Some(c) => opt_string_clone(&c.topic),
            None => None,
        },
    };

    let location = match &event.entity_type {
        GuildEventEntityType::External => match &event.entity_metadata {
            Some(m) => opt_string_clone(&m.location),
            None => None,
        },
        _ => match &channel {
            Some(c) => match &c.name {
                Some(n) => {
                    let mut lc = str_chars("#");
                    append_str(&mut lc, n.as_str());
                    proof {
                        reveal_strlit("#");
                        assert("#"@ =~= seq!['#']);
                        assert(lc@ =~= seq!['#'] + n@);
                    }
                    Some(chars_to_string(&lc))
                },
                None => None,
            },
            None => None,
        },
    };

    let mut addrc = str_chars("https//discord.com/channels/");
    let gd = u64_digits(event.guild_id.0);
    append_chars(&mut addrc, &gd);
    let address = chars_to_string(&addrc);

    let common_name = match &event.creator {
        Some(u) => {
            let mut cnc = str_chars(u.username.as_str());
            append_str(&mut cnc, "#");
            append_str(&mut cnc, u.discriminator.as_str());
            proof {
                reveal_strlit("#");
                assert("#"@ =~= seq!['#']);
                assert(cnc@ =~= u.username@ + seq!['#'] + u.discriminator@);
            }
            Some(chars_to_string(&cnc))
        },
        None => None,
    };

    let sent_by = match &event.creator {
        Some(u) => {
            let mut sbc = str_chars("https//discord.com/channels/@me/");
            let ud = u64_digits(u.id.0);
            append_chars(&mut sbc, &ud);
            Some(chars_to_string(&sbc))
        },
        None => None,
    };

    let status = match &event.status {
        GuildEventStatus::Cancelled => String::from_str("CANCELLED"),
        _ => String::from_str("CONFIRMED"),
    };

    let mut images: Vec<Image> = Vec::new();
    if let Some(i) = &event.image {
        let mut ic = str_chars("https://cdn.discordapp.com/guild-events/");
        let ed = u64_digits(event.id.0);
        append_chars(&mut ic, &ed);
        append_str(&mut ic, "/");
        append_str(&mut ic, i.as_str());
        append_str(&mut ic, ".png");
        proof {
            assert(ic@ =~= "https://cdn.discordapp.com/guild-events/"@ + dec_digits(
                event.id.0 as nat,
            ) + "/"@ + i@ + ".png"@);
        }
        images.push(Image::Url(chars_to_string(&ic)));
    }

    Event {
        uid,
        timestamp,
        start: event.scheduled_start_time,
        end: event.scheduled_end_time,
        created: Some(timestamp),
        description,
        summary: Some(event.name),
        location,
        organiser: Some(Organiser { address, common_name, sent_by }),
        status: Some(status),
        images,
    }
}

/// Assembles the published calendar for a guild: fixed product and version,
/// Gregorian scale, the guild's name with an `Events` suffix, the guild's
/// description, a guild-derived uid, the subscription url, and the events in
/// the order supplied.
pub fn calendar_from_guild(guild: Guild, events: Vec<Event>, product: String, url: Option<String>)
    -> (r: Calendar)
    ensures
        r.product@ == product@,
        r.version@ == "2.0"@,
        opt_str_view(r.scale) == Some("GREGORIAN"@),
        r.method is None,
        opt_str_view(r.name) == Some(guild.name@ + " Events"@),
        opt_str_view(r.description) == opt_str_view(guild.description),
        opt_str_view(r.uid) == Some(
            dec_digits(guild.id.0 as nat) + "@c.discord-events.magicalcodewit.ch"@,
        ),
        opt_str_view(r.url) == opt_str_view(url),
        r.events@ == events@,
{
    let mut namec = str_chars(guild.name.as_str());
    append_str(&mut namec, " Events");
    let name = chars_to_string(&namec);

    let mut uidc = u64_digits(guild.id.0);
    append_str(&mut uidc, "@c.discord-events.magicalcodewit.ch");
    let uid = chars_to_string(&uidc);

    Calendar {
        product,
        version: String::from_str("2.0"),
        scale: Some(String::from_str("GREGORIAN")),
        method: None,
        name: Some(name),
        description: guild.description,
        uid: Some(uid),
        url,
        events,
    }
}

} // verus!
