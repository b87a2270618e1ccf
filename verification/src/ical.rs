use vstd::prelude::*;
use vstd::string::StringExecFns;
use crate::line::{line_models, rendered_line, ContentLine, LineModel, ParamModel, Parameter};
use crate::time::{datetime_text, format_datetime, UtcTime};

verus! {

/// Largest binary image payload accepted, so that the base64 output length
/// fits in `usize`.
pub const MAX_IMAGE_BYTES: u64 = 0x4000000000000000;

/// What base64 encoding (standard alphabet, with padding) returns for a byte
/// sequence.
pub uninterp spec fn base64_of(bytes: Seq<u8>) -> Seq<char>;

/// Relies on `base64::encode`: the standard alphabet with padding, four
/// characters for each started group of three bytes, a pure function of the
/// bytes alone.
#[verifier::external_body]
fn base64_encode(data: &Vec<u8>) -> (r: String)
    requires
        data@.len() <= MAX_IMAGE_BYTES,
    ensures
        r@ == base64_of(data@),
        r@.len() == 4 * ((data@.len() + 2) / 3),
{
    base64::encode(data)
}

/// A content line without parameters.
pub open spec fn simple_line(name: Seq<char>, value: Seq<char>) -> LineModel {
    LineModel { name, params: Seq::empty(), value }
}

/// The lines of one optional property: none when absent.
pub open spec fn opt_line(name: Seq<char>, v: Option<String>) -> Seq<LineModel> {
    match v {
        Some(s) => seq![simple_line(name, s@)],
        None => Seq::empty(),
    }
}

/// The lines of one optional date-time property: none when absent.
pub open spec fn opt_time_line(name: Seq<char>, v: Option<UtcTime>) -> Seq<LineModel> {
    match v {
        Some(t) => seq![simple_line(name, datetime_text(t))],
        None => Seq::empty(),
    }
}

/// An event organiser: address, optional common name, optional sender.
pub struct Organiser {
    pub address: String,
    pub common_name: Option<String>,
    pub sent_by: Option<String>,
}

/// The parameters of the single ORGANIZER line: CN, then SENT-BY, each only
/// when present.
pub open spec fn organiser_params(o: Organiser) -> Seq<ParamModel> {
    let cn = match o.common_name {
        Some(s) => seq![ParamModel { name: "CN"@, values: seq![s@] }],
        None => Seq::<ParamModel>::empty(),
    };
    let sb = match o.sent_by {
        Some(s) => seq![ParamModel { name: "SENT-BY"@, values: seq![s@] }],
        None => Seq::<ParamModel>::empty(),
    };
    cn + sb
}

/// The single content line of an organiser.
pub open spec fn organiser_model(o: Organiser) -> LineModel {
    LineModel { name: "ORGANIZER"@, params: organiser_params(o), value: o.address@ }
}

impl Organiser {
    /// Renders to exactly one ORGANIZER content-line with CN and SENT-BY
    /// parameters.
    pub fn to_content_line(&self) -> (r: ContentLine)
        ensures
            r@ == organiser_model(*self),
    {
        let mut params: Vec<Parameter> = Vec::new();
        if let Some(cn) = &self.common_name {
            let mut vs: Vec<String> = Vec::new();
            vs.push(cn.clone());
            params.push(Parameter { name: String::from_str("CN"), values: vs });
        }
        if let Some(sb) = &self.sent_by {
            let mut vs: Vec<String> = Vec::new();
            vs.push(sb.clone());
            params.push(Parameter { name: String::from_str("SENT-BY"), values: vs });
        }
        let r = ContentLine {
            name: String::from_str("ORGANIZER"),
            params,
            value: self.address.clone(),
        };
        proof {
            assert(r@.params =~~= organiser_params(*self));
            assert(r@ == organiser_model(*self));
        }
        r
    }
}

/// An event image: either a URL or a raw binary payload.
pub enum Image {
    Url(String),
    Binary(Vec<u8>),
}

/// A binary image payload small enough for its base64 buffer to be
/// addressable.
pub open spec fn image_wf(img: Image) -> bool {
    match img {
        Image::Url(_) => true,
        Image::Binary(d) => d@.len() <= MAX_IMAGE_BYTES,
    }
}

/// The single content line of an image: `VALUE=URI` for a URL,
/// `VALUE=BINARY;ENCODING=BASE64` with the base64 text for a payload.
pub open spec fn image_model(img: Image) -> LineModel {
    match img {
        Image::Url(u) => LineModel {
            name: "IMAGE"@,
            params: seq![ParamModel { name: "VALUE"@, values: seq!["URI"@] }],
            value: u@,
        },
        Image::Binary(d) => LineModel {
            name: "IMAGE"@,
            params: seq![
                ParamModel { name: "VALUE"@, values: seq!["BINARY"@] },
                ParamModel { name: "ENCODING"@, values: seq!["BASE64"@] },
            ],
            value: base64_of(d@),
        },
    }
}

impl Image {
    /// Renders to exactly one IMAGE content-line.
    pub fn to_content_line(&self) -> (r: ContentLine)
        requires
            image_wf(*self),
        ensures
            r@ == image_model(*self),
    {
        match self {
            Image::Url(url) => {
                let mut vs: Vec<String> = Vec::new();
                vs.push(String::from_str("URI"));
                let mut params: Vec<Parameter> = Vec::new();
                params.push(Parameter { name: String::from_str("VALUE"), values: vs });
                let r = ContentLine {
                    name: String::from_str("IMAGE"),
                    params,
                    value: url.clone(),
                };
                proof {
                    assert(r@.params =~~= image_model(*self).params);
                    assert(r@ == image_model(*self));
                }
                r
            },
            Image::Binary(data) => {
                let mut vs1: Vec<String> = Vec::new();
                vs1.push(String::from_str("BINARY"));
                let mut vs2: Vec<String> = Vec::new();
                vs2.push(String::from_str("BASE64"));
                let mut params: Vec<Parameter> = Vec::new();
                params.push(Parameter { name: String::from_str("VALUE"), values: vs1 });
                params.push(Parameter { name: String::from_str("ENCODING"), values: vs2 });
                let r = ContentLine {
                    name: String::from_str("IMAGE"),
                    params,
                    value: base64_encode(data),
                };
                proof {
                    assert(r@.params =~~= image_model(*self).params);
                    assert(r@ == image_model(*self));
                }
                r
            },
        }
    }
}

/// An event: one VEVENT block.
pub struct Event {
    pub uid: String,
    pub timestamp: UtcTime,
    pub start: UtcTime,
    pub end: Option<UtcTime>,
    pub created: Option<UtcTime>,
    pub description: Option<String>,
    pub summary: Option<String>,
    pub location: Option<String>,
    pub organiser: Option<Organiser>,
    pub status: Option<String>,
    pub images: Vec<Image>,
}

/// Every binary image payload of the event is addressable.
pub open spec fn event_wf(e: Event) -> bool {
    forall|i: int| 0 <= i < e.images@.len() ==> image_wf(#[trigger] e.images@[i])
}

/// The image lines, in the order the images were supplied.
pub open spec fn images_models(imgs: Seq<Image>) -> Seq<LineModel>
    decreases imgs.len(),
{
    if imgs.len() == 0 {
        Seq::empty()
    } else {
        images_models(imgs.drop_last()) + seq![image_model(imgs.last())]
    }
}

/// The organiser's line, when present.
pub open spec fn organiser_lines(o: Option<Organiser>) -> Seq<LineModel> {
    match o {
        Some(org) => seq![organiser_model(org)],
        None => Seq::empty(),
    }
}

/// The first half of a VEVENT block: the fixed prefix and the optional
/// date-time and text properties.
pub open spec fn event_head_models(e: Event) -> Seq<LineModel> {
    seq![
        simple_line("BEGIN"@, "VEVENT"@),
        simple_line("UID"@, e.uid@),
        simple_line("DTSTAMP"@, datetime_text(e.timestamp)),
        simple_line("DTSTART"@, datetime_text(e.start)),
    ] + opt_time_line("DTEND"@, e.end) + opt_time_line("CREATED"@, e.created) + opt_line(
        "DESCRIPTION"@,
        e.description,
    ) + opt_line("SUMMARY"@, e.summary) + opt_line("LOCATION"@, e.location)
}

/// The second half of a VEVENT block: organiser, status, images and the
/// closing line.
pub open spec fn event_tail_models(e: Event) -> Seq<LineModel> {
    organiser_lines(e.organiser) + opt_line("STATUS"@, e.status) + images_models(e.images@) + seq![
        simple_line("END"@, "VEVENT"@),
    ]
}

/// The content lines of one VEVENT block, in their fixed order; optional
/// properties are omitted entirely when absent.
pub open spec fn event_models(e: Event) -> Seq<LineModel> {
    event_head_models(e) + event_tail_models(e)
}

/// Appends one parameterless content line.
fn push_simple(out: &mut Vec<ContentLine>, name: &str, value: String)
    ensures
        line_models(final(out)@) == line_models(old(out)@) + seq![simple_line(name@, value@)],
{
    let ghost vv = value@;
    let cl = ContentLine { name: String::from_str(name), params: Vec::new(), value };
    out.push(cl);
    proof {
        assert(line_models(out@) =~~= line_models(old(out)@) + seq![simple_line(name@, vv)]);
    }
}

impl Event {
    /// The VEVENT block of this event, as content lines in their fixed
    /// order.
    pub fn to_content_lines(&self) -> (r: Vec<ContentLine>)
        requires
            event_wf(*self),
        ensures
            line_models(r@) == event_models(*self),
    {
        let mut out: Vec<ContentLine> = Vec::new();
        self.append_lines(&mut out);
        proof {
            assert(line_models(out@) =~~= event_models(*self));
        }
        out
    }

    /// Appends the VEVENT block of this event at the end of `out`.
    fn append_lines(&self, out: &mut Vec<ContentLine>)
        requires
            event_wf(*self),
        ensures
            line_models(final(out)@) == line_models(old(out)@) + event_models(*self),
    {
        let ghost base = line_models(old(out)@);
        self.append_head(out);
        self.append_tail(out);
        proof {
            assert((base + event_head_models(*self)) + event_tail_models(*self) =~= base
                + event_models(*self));
        }
    }

    /// Appends the first half of the VEVENT block.
    fn append_head(&self, out: &mut Vec<ContentLine>)
        ensures
            line_models(final(out)@) == line_models(old(out)@) + event_head_models(*self),
    {
        let ghost base = line_models(old(out)@);
        push_simple(out, "BEGIN", String::from_str("VEVENT"));
        push_simple(out, "UID", self.uid.clone());
        push_simple(out, "DTSTAMP", format_datetime(&self.timestamp));
        push_simple(out, "DTSTART", format_datetime(&self.start));
        let ghost m0 = base + seq![
            simple_line("BEGIN"@, "VEVENT"@),
            simple_line("UID"@, self.uid@),
            simple_line("DTSTAMP"@, datetime_text(self.timestamp)),
            simple_line("DTSTART"@, datetime_text(self.start)),
        ];
        proof {
            assert(line_models(out@) =~~= m0);
        }
        if let Some(t) = &self.end {
            push_simple(out, "DTEND", format_datetime(t));
        }
        let ghost m1 = m0 + opt_time_line("DTEND"@, self.end);
        proof {
            assert(line_models(out@) =~~= m1);
        }
        if let Some(t) = &self.created {
            push_simple(out, "CREATED", format_datetime(t));
        }
        let ghost m2 = m1 + opt_time_line("CREATED"@, self.created);
        proof {
            assert(line_models(out@) =~~= m2);
        }
        if let Some(s) = &self.description {
            push_simple(out, "DESCRIPTION", s.clone());
        }
        let ghost m3 = m2 + opt_line("DESCRIPTION"@, self.description);
        proof {
            assert(line_models(out@) =~~= m3);
        }
        if let Some(s) = &self.summary {
            push_simple(out, "SUMMARY", s.clone());
        }
        let ghost m4 = m3 + opt_line("SUMMARY"@, self.summary);
        proof {
            assert(line_models(out@) =~~= m4);
        }
        if let Some(s) = &self.location {
            push_simple(out, "LOCATION", s.clone());
        }
        let ghost m5 = m4 + opt_line("LOCATION"@, self.location);
        proof {
            assert(line_models(out@) =~~= m5);
            assert(line_models(out@) =~~= base + event_head_models(*self));
        }
    }

    /// Appends the second half of the VEVENT block.
    fn append_tail(&self, out: &mut Vec<ContentLine>)
        requires
            event_wf(*self),
        ensures
            line_models(final(out)@) == line_models(old(out)@) + event_tail_models(*self),
    {
        let ghost m5 = line_models(old(out)@);
        if let Some(o) = &self.organiser {
            let cl = o.to_content_line();
            out.push(cl);
        }
        let ghost m6 = m5 + organiser_lines(self.organiser);
        proof {
            assert(line_models(out@) =~~= m6);
        }
        if let Some(s) = &self.status {
            push_simple(out, "STATUS", s.clone());
        }
        let ghost m7 = m6 + opt_line("STATUS"@, self.status);
        proof {
            assert(line_models(out@) =~~= m7);
        }
        let ghost imgs = self.images@;
        let mut k: usize = 0;
        proof {
            assert(images_models(imgs.take(0)) == Seq::<LineModel>::empty());
            assert(line_models(out@) =~~= m7 + images_models(imgs.take(0)));
        }
        while k < self.images.len()
            invariant
                k <= self.images.len(),
                imgs == self.images@,
                forall|i: int| 0 <= i < imgs.len() ==> image_wf(#[trigger] imgs[i]),
                line_models(out@) == m7 + images_models(imgs.take(k as int)),
            decreases self.images.len() - k,
        {
            let cl = self.images[k].to_content_line();
            let ghost prev = out@;
            let ghost clm = cl@;
            out.push(cl);
            proof {
                crate::line::lemma_line_models_push(prev, clm, out@);
                assert(imgs.take(k + 1).drop_last() =~= imgs.take(k as int));
                assert(imgs.take(k + 1).last() == imgs[k as int]);
                assert(images_models(imgs.take(k + 1)) == images_models(imgs.take(k as int))
                    + seq![image_model(imgs[k as int])]);
                assert(line_models(out@) =~~= m7 + images_models(imgs.take(k + 1)));
            }
            k += 1;
        }
        let ghost m8 = m7 + images_models(imgs);
        proof {
            assert(imgs.take(imgs.len() as int) =~= imgs);
            assert(line_models(out@) =~~= m8);
        }
        push_simple(out, "END", String::from_str("VEVENT"));
        proof {
            assert(line_models(out@) =~~= line_models(old(out)@) + event_tail_models(*self));
        }
    }
}

/// A calendar: one VCALENDAR block wrapping its events' VEVENT blocks.
pub struct Calendar {
    pub product: String,
    pub version: String,
    pub scale: Option<String>,
    pub method: Option<String>,
    pub name: Option<String>,
    pub description: Option<String>,
    pub uid: Option<String>,
    pub url: Option<String>,
    pub events: Vec<Event>,
}

/// Every event of the calendar is well formed.
pub open spec fn calendar_wf(c: Calendar) -> bool {
    forall|i: int| 0 <= i < c.events@.len() ==> event_wf(#[trigger] c.events@[i])
}

/// The calendar's display name is emitted twice, as NAME and X-WR-CALNAME.
pub open spec fn name_lines(v: Option<String>) -> Seq<LineModel> {
    match v {
        Some(s) => seq![simple_line("NAME"@, s@), simple_line("X-WR-CALNAME"@, s@)],
        None => Seq::empty(),
    }
}

/// The VEVENT blocks of all events, in the order supplied.
pub open spec fn events_models(es: Seq<Event>) -> Seq<LineModel>
    decreases es.len(),
{
    if es.len() == 0 {
        Seq::empty()
    } else {
        events_models(es.drop_last()) + event_models(es.last())
    }
}

/// The content lines of the whole document, in their fixed order; optional
/// properties are omitted entirely when absent.
pub open spec fn calendar_models(c: Calendar) -> Seq<LineModel> {
    seq![
        simple_line("BEGIN"@, "VCALENDAR"@),
        simple_line("PRODID"@, c.product@),
        simple_line("VERSION"@, c.version@),
    ] + opt_line("CALSCALE"@, c.scale) + opt_line("METHOD"@, c.method) + name_lines(c.name)
        + opt_line("DESCRIPTION"@, c.description) + opt_line("UID"@, c.uid) + opt_line(
        "URL"@,
        c.url,
    ) + events_models(c.events@) + seq![simple_line("END"@, "VCALENDAR"@)]
}

/// The rendered text of a sequence of content lines, in order.
pub open spec fn lines_text(ms: Seq<LineModel>) -> Seq<char>
    decreases ms.len(),
{
    if ms.len() == 0 {
        Seq::empty()
    } else {
        lines_text(ms.drop_last()) + rendered_line(ms.last())
    }
}

/// The exact text of the whole document.
pub open spec fn calendar_text(c: Calendar) -> Seq<char> {
    lines_text(calendar_models(c))
}

impl Calendar {
    /// The content lines of the whole document, in their fixed order.
    pub fn to_content_lines(&self) -> (r: Vec<ContentLine>)
        requires
            calendar_wf(*self),
        ensures
            line_models(r@) == calendar_models(*self),
    {
        let mut out: Vec<ContentLine> = Vec::new();
        push_simple(&mut out, "BEGIN", String::from_str("VCALENDAR"));
        push_simple(&mut out, "PRODID", self.product.clone());
        push_simple(&mut out, "VERSION", self.version.clone());
        let ghost m0 = seq![
            simple_line("BEGIN"@, "VCALENDAR"@),
            simple_line("PRODID"@, self.product@),
            simple_line("VERSION"@, self.version@),
        ];
        proof {
            assert(line_models(out@) =~~= m0);
        }
        if let Some(s) = &self.scale {
            push_simple(&mut out, "CALSCALE", s.clone());
        }
        let ghost m1 = m0 + opt_line("CALSCALE"@, self.scale);
        proof {
            assert(line_models(out@) =~~= m1);
        }
        if let Some(s) = &self.method {
            push_simple(&mut out, "METHOD", s.clone());
        }
        let ghost m2 = m1 + opt_line("METHOD"@, self.method);
        proof {
            assert(line_models(out@) =~~= m2);
        }
        if let Some(s) = &self.name {
            push_simple(&mut out, "NAME", s.clone());
            push_simple(&mut out, "X-WR-CALNAME", s.clone());
        }
        let ghost m3 = m2 + name_lines(self.name);
        proof {
            assert(line_models(out@) =~~= m3);
        }
        if let Some(s) = &self.description {
            push_simple(&mut out, "DESCRIPTION", s.clone());
        }
        let ghost m4 = m3 + opt_line("DESCRIPTION"@, self.description);
        proof {
            assert(line_models(out@) =~~= m4);
        }
        if let Some(s) = &self.uid {
            push_simple(&mut out, "UID", s.clone());
        }
        let ghost m5 = m4 + opt_line("UID"@, self.uid);
        proof {
            assert(line_models(out@) =~~= m5);
        }
        if let Some(s) = &self.url {
            push_simple(&mut out, "URL", s.clone());
        }
        let ghost m6 = m5 + opt_line("URL"@, self.url);
        proof {
            assert(line_models(out@) =~~= m6);
        }
        let ghost es = self.events@;
        let mut k: usize = 0;
        proof {
            assert(events_models(es.take(0)) == Seq::<LineModel>::empty());
            assert(line_models(out@) =~~= m6 + events_models(es.take(0)));
        }
        while k < self.events.len()
            invariant
                k <= self.events.len(),
                es == self.events@,
                forall|i: int| 0 <= i < es.len() ==> event_wf(#[trigger] es[i]),
                line_models(out@) == m6 + events_models(es.take(k as int)),
            decreases self.events.len() - k,
        {
            self.events[k].append_lines(&mut out);
            proof {
                assert(es.take(k + 1).drop_last() =~= es.take(k as int));
                assert(es.take(k + 1).last() == es[k as int]);
                assert(events_models(es.take(k + 1)) == events_models(es.take(k as int))
                    + event_models(es[k as int]));
                assert(line_models(out@) =~~= m6 + events_models(es.take(k + 1)));
            }
            k += 1;
        }
        let ghost m7 = m6 + events_models(es);
        proof {
            assert(es.take(es.len() as int) =~= es);
            assert(line_models(out@) =~~= m7);
        }
        push_simple(&mut out, "END", String::from_str("VCALENDAR"));
        proof {
            assert(line_models(out@) =~~= calendar_models(*self));
        }
        out
    }

    /// The exact transmitted text of the whole document: every content line
    /// rendered in order, folded and CRLF-terminated.
    pub fn render(&self) -> (r: String)
        requires
            calendar_wf(*self),
        ensures
            r@ == calendar_text(*self),
    {
        let lines = self.to_content_lines();
        let ghost ms = line_models(lines@);
        let mut out = String::new();
        let mut k: usize = 0;
        proof {
            assert(lines_text(ms.take(0)) == Seq::<char>::empty());
            assert(out@ =~= lines_text(ms.take(0)));
        }
        while k < lines.len()
            invariant
                k <= lines.len(),
                ms == line_models(lines@),
                ms.len() == lines@.len(),
                out@ == lines_text(ms.take(k as int)),
            decreases lines.len() - k,
        {
            let s = lines[k].render();
            out.append(s.as_str());
            proof {
                assert(ms.take(k + 1).drop_last() =~= ms.take(k as int));
                assert(ms.take(k + 1).last() == ms[k as int]);
                assert(ms[k as int] == lines@[k as int]@);
                assert(lines_text(ms.take(k + 1)) == lines_text(ms.take(k as int)) + rendered_line(
                    ms[k as int],
                ));
                assert(out@ =~= lines_text(ms.take(k + 1)));
            }
            k += 1;
        }
        proof {
            assert(ms.take(ms.len() as int) =~= ms);
        }
        out
    }
}

} // verus!
