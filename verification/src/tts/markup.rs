//! The speech builder: assembles a sequence of rendering instructions and
//! encodes it as synthesis markup.
//!
//! The markup document itself is written by the `xml` crate's event writer,
//! which the library treats as a container being filled with markup events:
//! the contracts track exactly which events were written, and the rendered
//! document is a function of those events alone. No validation is
//! performed: the engine itself is lax about markup (it happily renders
//! improperly nested elements), so the builder faithfully encodes whatever
//! it is told.

use vstd::prelude::*;

use super::numtext::{decimal_string, decimal_string_signed, spec_decimal, spec_decimal_signed};
use super::speech::{Pitch, Rate, SayAs, Speech, Volume};
use super::voice::{Voice, VoiceSelector};

verus! {

/// The mathematical value of one markup event.
pub enum MarkupEventModel {
    /// An opening element with its attributes, in order.
    Open { name: Seq<char>, attrs: Seq<(Seq<char>, Seq<char>)> },
    /// Character content.
    Text(Seq<char>),
    /// A closing element.
    Close(Seq<char>),
}

/// One markup event: an element opened with its attributes, character
/// content, or an element closed.
#[derive(Debug)]
pub enum MarkupEvent {
    /// An opening element with its attributes, in order.
    Open {
        /// The element name.
        name: String,
        /// The attributes, in order: name and value.
        attrs: Vec<(String, String)>,
    },
    /// Character content.
    Text(String),
    /// A closing element.
    Close(String),
}

impl MarkupEvent {
    /// The event's mathematical value.
    pub open spec fn model(&self) -> MarkupEventModel {
        match self {
            MarkupEvent::Open { name, attrs } => MarkupEventModel::Open {
                name: name@,
                attrs: attrs@.map_values(|kv: (String, String)| (kv.0@, kv.1@)),
            },
            MarkupEvent::Text(text) => MarkupEventModel::Text(text@),
            MarkupEvent::Close(name) => MarkupEventModel::Close(name@),
        }
    }
}

#[verifier::external_type_specification]
#[verifier::external_body]
#[verifier::reject_recursive_types(W)]
pub struct ExEventWriter<W>(xml::writer::EventWriter<W>);

/// The markup events written to a writer so far, in order.
pub uninterp spec fn written_events(w: xml::writer::EventWriter<Vec<u8>>) -> Seq<MarkupEventModel>;

/// The markup document that a sequence of written events renders to: the
/// emitter's output depends on the events alone.
pub uninterp spec fn rendered_markup(events: Seq<MarkupEventModel>) -> Seq<char>;

/// Relies on the `xml` crate's `EventWriter::new_with_config`: a fresh
/// writer has written nothing. Configured to emit no document declaration
/// and to close elements by the names the caller provides rather than a
/// name stack.
#[verifier::external_body]
fn new_markup_writer() -> (w: xml::writer::EventWriter<Vec<u8>>)
    ensures
        written_events(w) == Seq::<MarkupEventModel>::empty(),
{
    xml::writer::EventWriter::new_with_config(
        Vec::new(),
        xml::EmitterConfig::new().keep_element_names_stack(false).write_document_declaration(
            false,
        ),
    )
}

/// Relies on the `xml` crate's `EventWriter::write`: appends one event to
/// the document. With an in-memory sink, closing elements carrying their
/// name and the name stack off, the emitter's error paths (an I/O failure,
/// a name mismatch, a missing name) cannot be reached.
#[verifier::external_body]
fn write_markup(w: &mut xml::writer::EventWriter<Vec<u8>>, ev: &MarkupEvent)
    ensures
        written_events(*final(w)) == written_events(*old(w)).push(ev.model()),
{
    match ev {
        MarkupEvent::Open { name, attrs } => {
            let mut b = xml::writer::XmlEvent::start_element(name.as_str());
            for (k, v) in attrs.iter() {
                b = b.attr(k.as_str(), v.as_str());
            }
            w.write(b).unwrap();
        },
        MarkupEvent::Text(text) => w.write(xml::writer::XmlEvent::characters(text.as_str())).unwrap(),
        MarkupEvent::Close(name) => {
            w.write(xml::writer::XmlEvent::end_element().name(name.as_str())).unwrap()
        },
    }
}

/// Relies on the `xml` crate's `EventWriter::into_inner`: hands back the
/// sink holding the document written so far, which the emitter wrote as
/// UTF-8.
#[verifier::external_body]
fn markup_into_string(w: xml::writer::EventWriter<Vec<u8>>) -> (r: String)
    ensures
        r@ == rendered_markup(written_events(w)),
{
    String::from_utf8(w.into_inner()).unwrap()
}

/// Helper type that constructs a [`Speech`] from a sequence of rendering
/// instructions.
///
/// Until the first markup instruction arrives, the builder accumulates
/// plain text and [`SpeechBuilder::build`] returns a plain-text speech;
/// the first markup instruction turns the accumulated text into character
/// content and every later instruction extends the markup document.
pub struct SpeechBuilder {
    plain: String,
    writer: Option<xml::writer::EventWriter<Vec<u8>>>,
}

impl SpeechBuilder {
    /// Whether a markup instruction has arrived, for contracts.
    pub closed spec fn in_markup(&self) -> bool {
        self.writer is Some
    }

    /// The plain text accumulated so far, while no markup instruction has
    /// arrived, for contracts.
    pub closed spec fn plain_text(&self) -> Seq<char> {
        self.plain@
    }

    /// The markup events written so far, for contracts.
    pub closed spec fn events(&self) -> Seq<MarkupEventModel> {
        written_events(self.writer->Some_0)
    }

    /// The markup events after entering markup mode: the accumulated plain
    /// text becomes the first character content.
    pub open spec fn events_on_markup(&self) -> Seq<MarkupEventModel> {
        if self.in_markup() {
            self.events()
        } else {
            seq![MarkupEventModel::Text(self.plain_text())]
        }
    }

    /// Constructs a new, empty instance.
    pub fn new() -> (r: Self)
        ensures
            !r.in_markup(),
            r.plain_text() == Seq::<char>::empty(),
    {
        SpeechBuilder { plain: String::new(), writer: None }
    }

    /// Appends one markup event, entering markup mode if need be.
    fn append_markup(&mut self, ev: MarkupEvent)
        ensures
            final(self).in_markup(),
            final(self).events() == old(self).events_on_markup().push(ev.model()),
    {
        match &mut self.writer {
            Some(w) => write_markup(w, &ev),
            None => {
                let mut text = String::new();
                core::mem::swap(&mut self.plain, &mut text);
                let mut w = new_markup_writer();
                write_markup(&mut w, &MarkupEvent::Text(text));
                proof {
                    assert(written_events(w) =~= old(self).events_on_markup());
                }
                write_markup(&mut w, &ev);
                self.writer = Some(w);
            },
        }
    }

    /// Emphasizes all subsequent speech until the corresponding
    /// [`end_emphasis`](SpeechBuilder::end_emphasis) call.
    pub fn start_emphasis(&mut self)
        ensures
            final(self).in_markup(),
            final(self).events() == old(self).events_on_markup().push(
                MarkupEventModel::Open { name: "emph"@, attrs: Seq::empty() },
            ),
    {
        let ev = MarkupEvent::Open { name: "emph".to_owned(), attrs: Vec::new() };
        proof {
            assert(ev.model()->Open_attrs =~= Seq::<(Seq<char>, Seq<char>)>::empty());
        }
        self.append_markup(ev);
    }

    /// Changes the pitch of all subsequent speech until the corresponding
    /// [`end_pitch`](SpeechBuilder::end_pitch) call.
    pub fn start_pitch(&mut self, pitch: Pitch)
        ensures
            final(self).in_markup(),
            final(self).events() == old(self).events_on_markup().push(
                MarkupEventModel::Open {
                    name: "pitch"@,
                    attrs: seq![("absmiddle"@, spec_decimal_signed(pitch.spec_value() as int))],
                },
            ),
    {
        let mut attrs: Vec<(String, String)> = Vec::new();
        attrs.push(("absmiddle".to_owned(), decimal_string_signed(pitch.value() as i64)));
        let ev = MarkupEvent::Open { name: "pitch".to_owned(), attrs };
        proof {
            assert(ev.model()->Open_attrs =~= seq![
                ("absmiddle"@, spec_decimal_signed(pitch.spec_value() as int)),
            ]);
        }
        self.append_markup(ev);
    }

    /// Changes the rate of all subsequent speech until the corresponding
    /// [`end_rate`](SpeechBuilder::end_rate) call.
    pub fn start_rate(&mut self, rate: Rate)
        ensures
            final(self).in_markup(),
            final(self).events() == old(self).events_on_markup().push(
                MarkupEventModel::Open {
                    name: "rate"@,
                    attrs: seq![("absspeed"@, spec_decimal_signed(rate.spec_value() as int))],
                },
            ),
    {
        let mut attrs: Vec<(String, String)> = Vec::new();
        attrs.push(("absspeed".to_owned(), decimal_string_signed(rate.value() as i64)));
        let ev = MarkupEvent::Open { name: "rate".to_owned(), attrs };
        proof {
            assert(ev.model()->Open_attrs =~= seq![
                ("absspeed"@, spec_decimal_signed(rate.spec_value() as int)),
            ]);
        }
        self.append_markup(ev);
    }

    /// Switches to the specified voice until the corresponding
    /// [`end_voice`](SpeechBuilder::end_voice) call: selects it by its
    /// name, or by no criterion at all when it has none.
    pub fn start_voice(&mut self, voice: &Voice)
        ensures
            final(self).in_markup(),
            final(self).events() == old(self).events_on_markup().push(
                MarkupEventModel::Open {
                    name: "voice"@,
                    attrs: voice_attrs(
                        match voice.name {
                            Some(n) => "name="@ + n@,
                            None => Seq::empty(),
                        },
                        None,
                    ),
                },
            ),
    {
        let mut selector = VoiceSelector::new();
        match &voice.name {
            Some(name) => {
                selector = selector.name_eq(name.as_str());
                proof {
                    assert(selector.spec_expr() =~= "name="@ + voice.name->Some_0@);
                }
            },
            None => {},
        }
        self.select_and_start_voice(selector, None);
    }

    /// Switches to a voice that matches the specified criteria until the
    /// corresponding [`end_voice`](SpeechBuilder::end_voice) call. An empty
    /// criterion is omitted from the element.
    pub fn select_and_start_voice(&mut self, required: VoiceSelector, optional: Option<
        VoiceSelector,
    >)
        ensures
            final(self).in_markup(),
            final(self).events() == old(self).events_on_markup().push(
                MarkupEventModel::Open {
                    name: "voice"@,
                    attrs: voice_attrs(
                        required.spec_expr(),
                        match optional {
                            Some(sel) => Some(sel.spec_expr()),
                            None => None,
                        },
                    ),
                },
            ),
    {
        let ghost required_expr = required.spec_expr();
        let ghost optional_expr: Option<Seq<char>> = match &optional {
            Some(sel) => Some(sel.spec_expr()),
            None => None,
        };
        let mut attrs: Vec<(String, String)> = Vec::new();
        let required_sapi = required.into_sapi_expr();
        if !required_sapi.as_str().is_empty() {
            attrs.push(("required".to_owned(), required_sapi));
        }
        match optional {
            Some(sel) => {
                let optional_sapi = sel.into_sapi_expr();
                if !optional_sapi.as_str().is_empty() {
                    attrs.push(("optional".to_owned(), optional_sapi));
                }
            },
            None => {},
        }
        let ev = MarkupEvent::Open { name: "voice".to_owned(), attrs };
        proof {
            assert(ev.model()->Open_attrs =~= voice_attrs(required_expr, optional_expr));
        }
        self.append_markup(ev);
    }

    /// Changes the volume of all subsequent speech until the corresponding
    /// [`end_volume`](SpeechBuilder::end_volume) call.
    pub fn start_volume(&mut self, volume: Volume)
        ensures
            final(self).in_markup(),
            final(self).events() == old(self).events_on_markup().push(
                MarkupEventModel::Open {
                    name: "volume"@,
                    attrs: seq![("level"@, spec_decimal(volume.spec_value() as nat))],
                },
            ),
    {
        let mut attrs: Vec<(String, String)> = Vec::new();
        attrs.push(("level".to_owned(), decimal_string(volume.value() as u64)));
        let ev = MarkupEvent::Open { name: "volume".to_owned(), attrs };
        proof {
            assert(ev.model()->Open_attrs =~= seq![
                ("level"@, spec_decimal(volume.spec_value() as nat)),
            ]);
        }
        self.append_markup(ev);
    }

    /// Appends text to pronounce.
    pub fn say(&mut self, text: &str)
        ensures
            final(self).in_markup() == old(self).in_markup(),
            old(self).in_markup() ==> final(self).events() == old(self).events().push(
                MarkupEventModel::Text(text@),
            ),
            !old(self).in_markup() ==> final(self).plain_text() == old(self).plain_text() + text@,
    {
        match &mut self.writer {
            Some(w) => write_markup(w, &MarkupEvent::Text(text.to_owned())),
            None => self.plain.append(text),
        }
    }

    /// Appends text to pronounce, along with a hint on how to pronounce it.
    pub fn say_as(&mut self, text: &str, ctx: SayAs<'_>)
        ensures
            final(self).in_markup(),
            final(self).events() == old(self).events_on_markup().push(
                MarkupEventModel::Open {
                    name: "context"@,
                    attrs: seq![("id"@, ctx.spec_sapi_id())],
                },
            ).push(MarkupEventModel::Text(text@)).push(MarkupEventModel::Close("context"@)),
    {
        let mut attrs: Vec<(String, String)> = Vec::new();
        attrs.push(("id".to_owned(), ctx.sapi_id().to_owned()));
        let ev = MarkupEvent::Open { name: "context".to_owned(), attrs };
        proof {
            assert(ev.model()->Open_attrs =~= seq![("id"@, ctx.spec_sapi_id())]);
        }
        self.append_markup(ev);
        self.append_markup(MarkupEvent::Text(text.to_owned()));
        self.append_markup(MarkupEvent::Close("context".to_owned()));
    }

    /// Appends a specific pronunciation to render. The pronunciation
    /// symbols depend on the language of the current voice.
    pub fn pronounce(&mut self, pronunciation: &str)
        ensures
            final(self).in_markup(),
            final(self).events() == old(self).events_on_markup().push(
                MarkupEventModel::Open {
                    name: "pron"@,
                    attrs: seq![("sym"@, pronunciation@)],
                },
            ).push(MarkupEventModel::Close("pron"@)),
    {
        let mut attrs: Vec<(String, String)> = Vec::new();
        attrs.push(("sym".to_owned(), pronunciation.to_owned()));
        let ev = MarkupEvent::Open { name: "pron".to_owned(), attrs };
        proof {
            assert(ev.model()->Open_attrs =~= seq![("sym"@, pronunciation@)]);
        }
        self.append_markup(ev);
        self.append_markup(MarkupEvent::Close("pron".to_owned()));
    }

    /// Appends a silence with the given duration in milliseconds. A
    /// zero-length silence changes nothing.
    pub fn silence(&mut self, millis: u64)
        ensures
            millis == 0 ==> final(self).in_markup() == old(self).in_markup() && final(self).events()
                == old(self).events() && final(self).plain_text() == old(self).plain_text(),
            millis > 0 ==> final(self).in_markup() && final(self).events() == old(
                self,
            ).events_on_markup().push(
                MarkupEventModel::Open {
                    name: "silence"@,
                    attrs: seq![("msec"@, spec_decimal(millis as nat))],
                },
            ).push(MarkupEventModel::Close("silence"@)),
    {
        if millis == 0 {
            return ;
        }
        let mut attrs: Vec<(String, String)> = Vec::new();
        attrs.push(("msec".to_owned(), decimal_string(millis)));
        let ev = MarkupEvent::Open { name: "silence".to_owned(), attrs };
        proof {
            assert(ev.model()->Open_attrs =~= seq![("msec"@, spec_decimal(millis as nat))]);
        }
        self.append_markup(ev);
        self.append_markup(MarkupEvent::Close("silence".to_owned()));
    }

    /// Ends the effect of the corresponding
    /// [`start_emphasis`](SpeechBuilder::start_emphasis) call.
    pub fn end_emphasis(&mut self)
        ensures
            final(self).in_markup(),
            final(self).events() == old(self).events_on_markup().push(
                MarkupEventModel::Close("emph"@),
            ),
    {
        self.append_markup(MarkupEvent::Close("emph".to_owned()));
    }

    /// Ends the effect of the corresponding
    /// [`start_pitch`](SpeechBuilder::start_pitch) call.
    pub fn end_pitch(&mut self)
        ensures
            final(self).in_markup(),
            final(self).events() == old(self).events_on_markup().push(
                MarkupEventModel::Close("pitch"@),
            ),
    {
        self.append_markup(MarkupEvent::Close("pitch".to_owned()));
    }

    /// Ends the effect of the corresponding
    /// [`start_rate`](SpeechBuilder::start_rate) call.
    pub fn end_rate(&mut self)
        ensures
            final(self).in_markup(),
            final(self).events() == old(self).events_on_markup().push(
                MarkupEventModel::Close("rate"@),
            ),
    {
        self.append_markup(MarkupEvent::Close("rate".to_owned()));
    }

    /// Ends the effect of the corresponding
    /// [`select_and_start_voice`](SpeechBuilder::select_and_start_voice)
    /// call.
    pub fn end_voice(&mut self)
        ensures
            final(self).in_markup(),
            final(self).events() == old(self).events_on_markup().push(
                MarkupEventModel::Close("voice"@),
            ),
    {
        self.append_markup(MarkupEvent::Close("voice".to_owned()));
    }

    /// Ends the effect of the corresponding
    /// [`start_volume`](SpeechBuilder::start_volume) call.
    pub fn end_volume(&mut self)
        ensures
            final(self).in_markup(),
            final(self).events() == old(self).events_on_markup().push(
                MarkupEventModel::Close("volume"@),
            ),
    {
        self.append_markup(MarkupEvent::Close("volume".to_owned()));
    }

    /// Builds the [`Speech`] from the instructions received so far and
    /// clears the builder: plain text gives a plain-text speech, anything
    /// else the rendered markup document.
    pub fn build(&mut self) -> (r: Speech)
        ensures
            old(self).in_markup() ==> (r matches Speech::Xml(s) && s@ == rendered_markup(
                old(self).events(),
            )),
            !old(self).in_markup() ==> (r matches Speech::Text(s) && s@ == old(
                self,
            ).plain_text()),
            !final(self).in_markup(),
            final(self).plain_text() == Seq::<char>::empty(),
    {
        match self.writer.take() {
            Some(w) => {
                let mut leftover = String::new();
                core::mem::swap(&mut self.plain, &mut leftover);
                Speech::Xml(markup_into_string(w))
            },
            None => {
                let mut text = String::new();
                core::mem::swap(&mut self.plain, &mut text);
                Speech::Text(text)
            },
        }
    }
}

/// The attributes of a voice-selection element: the required expression,
/// then the optional one, each omitted when empty.
pub open spec fn voice_attrs(required: Seq<char>, optional: Option<Seq<char>>) -> Seq<
    (Seq<char>, Seq<char>),
> {
    let first: Seq<(Seq<char>, Seq<char>)> = if required.len() == 0 {
        Seq::empty()
    } else {
        seq![("required"@, required)]
    };
    match optional {
        Some(e) => if e.len() == 0 {
            first
        } else {
            first.push(("optional"@, e))
        },
        None => first,
    }
}

} // verus!
