use discord_ical::discord::{
    calendar_from_guild, event_from_guild_event, Channel, Guild, GuildEvent,
    GuildEventEntityMetadata, GuildEventEntityType, GuildEventPrivacyLevel, GuildEventStatus, User,
};
use discord_ical::ical::Image;
use discord_ical::snowflake::Snowflake;
use discord_ical::time::UtcTime;

fn utc(year: u16, month: u8, day: u8, hour: u8, minute: u8, second: u8) -> UtcTime {
    UtcTime { year, month, day, hour, minute, second }
}

fn sample_event() -> GuildEvent {
    GuildEvent {
        id: Snowflake(175928847299117063),
        guild_id: Snowflake(41771983423143937),
        channel_id: Some(Snowflake(7)),
        creator_id: None,
        name: "Game night".to_string(),
        description: None,
        image: None,
        scheduled_start_time: utc(2024, 3, 1, 19, 0, 0),
        scheduled_end_time: Some(utc(2024, 3, 1, 21, 0, 0)),
        privacy_level: GuildEventPrivacyLevel::GuildOnly,
        status: GuildEventStatus::Scheduled,
        entity_type: GuildEventEntityType::Voice,
        entity_id: None,
        entity_metadata: None,
        creator: Some(User {
            id: Snowflake(80351110224678912),
            username: "Nelly".to_string(),
            discriminator: "1337".to_string(),
            avatar: None,
        }),
    }
}

fn sample_channel() -> Channel {
    Channel {
        id: Snowflake(7),
        guild_id: Some(Snowflake(41771983423143937)),
        name: Some("general".to_string()),
        topic: Some("All things general".to_string()),
    }
}

#[test]
fn event_mapping_basics() {
    let event = event_from_guild_event(sample_event(), Some(sample_channel()));
    assert_eq!(event.uid, "175928847299117063@e.discord-events.magicalcodewit.ch");
    assert_eq!(event.timestamp, utc(2016, 4, 30, 11, 18, 25));
    assert_eq!(event.created, Some(utc(2016, 4, 30, 11, 18, 25)));
    assert_eq!(event.start, utc(2024, 3, 1, 19, 0, 0));
    assert_eq!(event.end, Some(utc(2024, 3, 1, 21, 0, 0)));
    assert_eq!(event.summary.as_deref(), Some("Game night"));
    assert_eq!(event.status.as_deref(), Some("CONFIRMED"));
    assert!(event.images.is_empty());
}

#[test]
fn event_description_falls_back_to_channel_topic() {
    let event = event_from_guild_event(sample_event(), Some(sample_channel()));
    assert_eq!(event.description.as_deref(), Some("All things general"));

    let mut with_own = sample_event();
    with_own.description = Some("Own text".to_string());
    let event = event_from_guild_event(with_own, Some(sample_channel()));
    assert_eq!(event.description.as_deref(), Some("Own text"));

    let event = event_from_guild_event(sample_event(), None);
    assert_eq!(event.description, None);
}

#[test]
fn event_location_for_voice_and_external() {
    let event = event_from_guild_event(sample_event(), Some(sample_channel()));
    assert_eq!(event.location.as_deref(), Some("#general"));

    let mut external = sample_event();
    external.entity_type = GuildEventEntityType::External;
    external.entity_metadata =
        Some(GuildEventEntityMetadata { location: Some("Town hall".to_string()) });
    let event = event_from_guild_event(external, Some(sample_channel()));
    assert_eq!(event.location.as_deref(), Some("Town hall"));

    let mut bare = sample_event();
    bare.entity_type = GuildEventEntityType::Stage;
    let event = event_from_guild_event(bare, None);
    assert_eq!(event.location, None);
}

#[test]
fn event_organiser_carries_creator() {
    let event = event_from_guild_event(sample_event(), Some(sample_channel()));
    let organiser = event.organiser.unwrap();
    assert_eq!(organiser.address, "https//discord.com/channels/41771983423143937");
    assert_eq!(organiser.common_name.as_deref(), Some("Nelly#1337"));
    assert_eq!(
        organiser.sent_by.as_deref(),
        Some("https//discord.com/channels/@me/80351110224678912")
    );
}

#[test]
fn event_status_cancelled() {
    let mut cancelled = sample_event();
    cancelled.status = GuildEventStatus::Cancelled;
    let event = event_from_guild_event(cancelled, None);
    assert_eq!(event.status.as_deref(), Some("CANCELLED"));
}

#[test]
fn event_cover_image_url() {
    let mut with_image = sample_event();
    with_image.image = Some("abcdef".to_string());
    let event = event_from_guild_event(with_image, None);
    assert_eq!(event.images.len(), 1);
    match &event.images[0] {
        Image::Url(url) => assert_eq!(
            url,
            "https://cdn.discordapp.com/guild-events/175928847299117063/abcdef.png"
        ),
        Image::Binary(_) => panic!("expected a URL image"),
    }
}

#[test]
fn calendar_mapping() {
    let guild = Guild {
        id: Snowflake(41771983423143937),
        name: "My Guild".to_string(),
        icon: None,
        splash: None,
        discovery_splash: None,
        owner_id: Snowflake(1),
        description: Some("A guild".to_string()),
    };
    let calendar = calendar_from_guild(
        guild,
        vec![],
        "Product 1.0".to_string(),
        Some("https://example.com/cal.ics".to_string()),
    );
    assert_eq!(calendar.product, "Product 1.0");
    assert_eq!(calendar.version, "2.0");
    assert_eq!(calendar.scale.as_deref(), Some("GREGORIAN"));
    assert_eq!(calendar.method, None);
    assert_eq!(calendar.name.as_deref(), Some("My Guild Events"));
    assert_eq!(calendar.description.as_deref(), Some("A guild"));
    assert_eq!(
        calendar.uid.as_deref(),
        Some("41771983423143937@c.discord-events.magicalcodewit.ch")
    );
    assert_eq!(calendar.url.as_deref(), Some("https://example.com/cal.ics"));
    assert!(calendar.events.is_empty());
}

#[test]
fn enum_codes_round_trip() {
    assert_eq!(GuildEventPrivacyLevel::GuildOnly.code(), 2);
    assert!(GuildEventPrivacyLevel::from_code(1).is_none());
    assert_eq!(GuildEventStatus::Scheduled.code(), 1);
    assert_eq!(GuildEventStatus::Active.code(), 2);
    assert_eq!(GuildEventStatus::Completed.code(), 3);
    assert_eq!(GuildEventStatus::Cancelled.code(), 4);
    assert_eq!(GuildEventStatus::from_code(4).unwrap().code(), 4);
    assert!(GuildEventStatus::from_code(5).is_none());
    assert_eq!(GuildEventEntityType::Stage.code(), 1);
    assert_eq!(GuildEventEntityType::Voice.code(), 2);
    assert_eq!(GuildEventEntityType::External.code(), 3);
    assert_eq!(GuildEventEntityType::from_code(3).unwrap().code(), 3);
    assert!(GuildEventEntityType::from_code(0).is_none());
}
