use discord_ical::escape::{escape_param, escape_text, unescape_text};
use discord_ical::ical::{Calendar, Event, Image, Organiser};
use discord_ical::line::{ContentLine, Parameter};
use discord_ical::time::{format_datetime, UtcTime};

fn utc(year: u16, month: u8, day: u8, hour: u8, minute: u8, second: u8) -> UtcTime {
    UtcTime { year, month, day, hour, minute, second }
}

fn plain_event(uid: &str, t: UtcTime, summary: &str) -> Event {
    Event {
        uid: uid.to_string(),
        timestamp: t,
        start: t,
        end: None,
        created: None,
        description: None,
        summary: Some(summary.to_string()),
        location: None,
        organiser: None,
        status: None,
        images: vec![],
    }
}

#[test]
fn escape_round_trip() {
    let cases = vec![
        "",
        "plain",
        "a\\b;c,d\ne",
        "\\",
        ";;;",
        ",",
        "\n\n",
        "mixed \\; text, with\nbreaks",
        "unicode \u{e9}\u{65e5}\u{1f600}",
    ];
    for value in cases {
        let escaped = escape_text(value);
        assert_eq!(unescape_text(escaped.as_str()), value);
    }
}

#[test]
fn escape_text_exact() {
    assert_eq!(escape_text("a\\b;c,d\ne"), "a\\\\b\\;c\\,d\\ne");
    assert_eq!(escape_text("plain"), "plain");
}

#[test]
fn param_quoting() {
    assert_eq!(escape_param("plain"), "plain");
    assert_eq!(escape_param("a,b"), "\"a,b\"");
    assert_eq!(escape_param("a:b"), "\"a:b\"");
    assert_eq!(escape_param("a;b"), "\"a;b\"");
    // A double quote alone does not trigger quoting and is not escaped:
    // documented behaviour of the encoder, not guaranteed to be correct.
    assert_eq!(escape_param("a\"b"), "a\"b");
}

#[test]
fn format_datetime_exact() {
    assert_eq!(format_datetime(&utc(2023, 1, 1, 0, 0, 0)), "20230101T000000Z");
    assert_eq!(format_datetime(&utc(2016, 4, 30, 11, 18, 25)), "20160430T111825Z");
}

#[test]
fn content_line_with_parameters() {
    let line = ContentLine {
        name: "ORGANIZER".to_string(),
        params: vec![
            Parameter { name: "CN".to_string(), values: vec!["Alice".to_string()] },
            Parameter {
                name: "X-LIST".to_string(),
                values: vec!["one".to_string(), "t,wo".to_string()],
            },
        ],
        value: "mailto:alice@example.com".to_string(),
    };
    assert_eq!(
        line.render(),
        "ORGANIZER;CN=Alice;X-LIST=one,\"t,wo\":mailto:alice@example.com\r\n"
    );
}

#[test]
fn summary_of_100_ascii_chars_folds_into_two_lines() {
    let value: String = "x".repeat(100);
    let line = ContentLine { name: "SUMMARY".to_string(), params: vec![], value: value.clone() };
    let rendered = line.render();
    let physical: Vec<&str> = rendered.split("\r\n").filter(|p| !p.is_empty()).collect();
    assert_eq!(physical.len(), 2);
    assert!(physical[1].starts_with(' '));
    let rejoined = format!("{}{}", physical[0], &physical[1][1..]);
    assert_eq!(rejoined, format!("SUMMARY:{}", value));
}

#[test]
fn folded_lines_stay_within_75_octets() {
    let cases = vec![
        "x".repeat(500),
        "\u{e9}".repeat(100),
        "\u{65e5}\u{672c}".repeat(80),
        "word ".repeat(60),
        "semi;colon,comma\\and\nnewline".repeat(20),
    ];
    for value in cases {
        let line = ContentLine { name: "DESCRIPTION".to_string(), params: vec![], value };
        let rendered = line.render();
        for physical in rendered.split("\r\n") {
            assert!(physical.len() <= 75, "line too long: {}", physical.len());
        }
    }
}

#[test]
fn fold_unfold_round_trip() {
    let value = "abc,def;ghi\\jkl ".repeat(30);
    let line = ContentLine { name: "DESCRIPTION".to_string(), params: vec![], value };
    let rendered = line.render();
    let mut rejoined = String::new();
    for (i, physical) in rendered.split("\r\n").enumerate() {
        if physical.is_empty() {
            continue;
        }
        if i == 0 {
            rejoined.push_str(physical);
        } else {
            rejoined.push_str(&physical[1..]);
        }
    }
    // Rejoining must reconstruct the unfolded logical line exactly.
    let value = "abc,def;ghi\\jkl ".repeat(30);
    assert_eq!(rejoined, format!("DESCRIPTION:{}", escape_text(value.as_str())));
}

#[test]
fn organiser_line() {
    let organiser = Organiser {
        address: "https//discord.com/channels/1".to_string(),
        common_name: Some("Alice#0001".to_string()),
        sent_by: None,
    };
    let line = organiser.to_content_line();
    assert_eq!(
        line.render(),
        "ORGANIZER;CN=Alice#0001:https//discord.com/channels/1\r\n"
    );
}

#[test]
fn image_url_line() {
    let image = Image::Url("https://example.com/a.png".to_string());
    assert_eq!(
        image.to_content_line().render(),
        "IMAGE;VALUE=URI:https://example.com/a.png\r\n"
    );
}

#[test]
fn image_binary_line_carries_base64() {
    let image = Image::Binary(vec![b'h', b'e', b'l', b'l', b'o']);
    assert_eq!(
        image.to_content_line().render(),
        "IMAGE;VALUE=BINARY;ENCODING=BASE64:aGVsbG8=\r\n"
    );
}

#[test]
fn end_to_end_document() {
    let t = utc(2023, 1, 1, 0, 0, 0);
    let calendar = Calendar {
        product: "Test 1.0".to_string(),
        version: "2.0".to_string(),
        scale: None,
        method: None,
        name: Some("Test Cal".to_string()),
        description: None,
        uid: None,
        url: None,
        events: vec![plain_event("abc@example", t, "Hi")],
    };
    let expected = "BEGIN:VCALENDAR\r\n\
                    PRODID:Test 1.0\r\n\
                    VERSION:2.0\r\n\
                    NAME:Test Cal\r\n\
                    X-WR-CALNAME:Test Cal\r\n\
                    BEGIN:VEVENT\r\n\
                    UID:abc@example\r\n\
                    DTSTAMP:20230101T000000Z\r\n\
                    DTSTART:20230101T000000Z\r\n\
                    SUMMARY:Hi\r\n\
                    END:VEVENT\r\n\
                    END:VCALENDAR\r\n";
    assert_eq!(calendar.render(), expected);
}

#[test]
fn optional_fields_are_omitted_not_empty() {
    let calendar = Calendar {
        product: "P".to_string(),
        version: "2.0".to_string(),
        scale: None,
        method: None,
        name: None,
        description: None,
        uid: None,
        url: None,
        events: vec![],
    };
    assert_eq!(calendar.render(), "BEGIN:VCALENDAR\r\nPRODID:P\r\nVERSION:2.0\r\nEND:VCALENDAR\r\n");
}

#[test]
fn full_event_block_order() {
    let t = utc(2024, 6, 15, 18, 30, 0);
    let end = utc(2024, 6, 15, 20, 0, 0);
    let event = Event {
        uid: "u@example".to_string(),
        timestamp: t,
        start: t,
        end: Some(end),
        created: Some(t),
        description: Some("desc".to_string()),
        summary: Some("sum".to_string()),
        location: Some("loc".to_string()),
        organiser: Some(Organiser {
            address: "addr".to_string(),
            common_name: None,
            sent_by: None,
        }),
        status: Some("CONFIRMED".to_string()),
        images: vec![Image::Url("https://example.com/i.png".to_string())],
    };
    let calendar = Calendar {
        product: "P".to_string(),
        version: "2.0".to_string(),
        scale: Some("GREGORIAN".to_string()),
        method: None,
        name: None,
        description: None,
        uid: None,
        url: None,
        events: vec![event],
    };
    let expected = "BEGIN:VCALENDAR\r\n\
                    PRODID:P\r\n\
                    VERSION:2.0\r\n\
                    CALSCALE:GREGORIAN\r\n\
                    BEGIN:VEVENT\r\n\
                    UID:u@example\r\n\
                    DTSTAMP:20240615T183000Z\r\n\
                    DTSTART:20240615T183000Z\r\n\
                    DTEND:20240615T200000Z\r\n\
                    CREATED:20240615T183000Z\r\n\
                    DESCRIPTION:desc\r\n\
                    SUMMARY:sum\r\n\
                    LOCATION:loc\r\n\
                    ORGANIZER:addr\r\n\
                    STATUS:CONFIRMED\r\n\
                    IMAGE;VALUE=URI:https://example.com/i.png\r\n\
                    END:VEVENT\r\n\
                    END:VCALENDAR\r\n";
    assert_eq!(calendar.render(), expected);
}

#[test]
fn multibyte_characters_never_split() {
    let value = "\u{65e5}".repeat(60);
    let line = ContentLine { name: "SUMMARY".to_string(), params: vec![], value: value.clone() };
    let rendered = line.render();
    // Every physical line is valid UTF-8 of at most 75 octets (the renderer
    // never breaks inside a three-octet character), and rejoining the lines
    // reconstructs the logical line.
    let mut rejoined = String::new();
    for (i, physical) in rendered.split("\r\n").enumerate() {
        assert!(physical.len() <= 75);
        if physical.is_empty() {
            continue;
        }
        if i == 0 {
            rejoined.push_str(physical);
        } else {
            assert!(physical.starts_with(' '));
            rejoined.push_str(&physical[1..]);
        }
    }
    assert_eq!(rejoined, format!("SUMMARY:{}", value));
}
