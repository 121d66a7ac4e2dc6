use sapi_lite::tts::{Pitch, Rate, SayAs, Speech, SpeechBuilder, Voice, Volume};
use sapi_lite::tts::{decimal_string, decimal_string_signed};
use sapi_lite::tts::SpeechTracker;

#[test]
fn plain_text_stays_plain() {
    let mut b = SpeechBuilder::new();
    b.say("have a ");
    b.say("good evening");
    match b.build() {
        Speech::Text(s) => assert_eq!(s, "have a good evening"),
        other => panic!("expected plain text, got {:?}", other),
    }
}

#[test]
fn builder_resets_after_build() {
    let mut b = SpeechBuilder::new();
    b.say("one");
    b.build();
    b.say("two");
    match b.build() {
        Speech::Text(s) => assert_eq!(s, "two"),
        other => panic!("expected plain text, got {:?}", other),
    }
}

#[test]
fn markup_encodes_emphasis() {
    let mut b = SpeechBuilder::new();
    b.say("hi ");
    b.start_emphasis();
    b.say("world");
    b.end_emphasis();
    match b.build() {
        Speech::Xml(s) => assert_eq!(s, "hi <emph>world</emph>"),
        other => panic!("expected markup, got {:?}", other),
    }
}

#[test]
fn markup_escapes_text() {
    let mut b = SpeechBuilder::new();
    b.start_emphasis();
    b.say("fish & chips");
    b.end_emphasis();
    match b.build() {
        Speech::Xml(s) => assert_eq!(s, "<emph>fish &amp; chips</emph>"),
        other => panic!("expected markup, got {:?}", other),
    }
}

#[test]
fn markup_encodes_pitch_rate_volume() {
    let mut b = SpeechBuilder::new();
    b.start_pitch(Pitch::new(-3));
    b.start_rate(Rate::new(4));
    b.start_volume(Volume::new(80));
    b.say("x");
    b.end_volume();
    b.end_rate();
    b.end_pitch();
    match b.build() {
        Speech::Xml(s) => assert_eq!(
            s,
            "<pitch absmiddle=\"-3\"><rate absspeed=\"4\"><volume level=\"80\">\
             x</volume></rate></pitch>"
        ),
        other => panic!("expected markup, got {:?}", other),
    }
}

#[test]
fn markup_encodes_say_as_and_pronounce_and_silence() {
    let mut b = SpeechBuilder::new();
    b.say_as("03/08/2000", SayAs::DateMDY);
    b.silence(250);
    b.silence(0);
    b.pronounce("m ah dh ax r");
    match b.build() {
        Speech::Xml(s) => {
            assert!(s.contains("<context id=\"date_mdy\">03/08/2000</context>"));
            assert!(s.contains("silence"));
            assert!(s.contains("msec=\"250\""));
            assert!(s.contains("sym=\"m ah dh ax r\""));
        }
        other => panic!("expected markup, got {:?}", other),
    }
}

#[test]
fn markup_selects_voice_by_name() {
    let voice = Voice {
        name: Some(String::from("Anna")),
        age: None,
        gender: None,
        language: None,
    };
    let mut b = SpeechBuilder::new();
    b.start_voice(&voice);
    b.say("x");
    b.end_voice();
    match b.build() {
        Speech::Xml(s) => assert_eq!(s, "<voice required=\"name=Anna\">x</voice>"),
        other => panic!("expected markup, got {:?}", other),
    }
}

#[test]
fn clamped_scales() {
    assert_eq!(Pitch::new(15).value(), 10);
    assert_eq!(Pitch::new(-15).value(), -10);
    assert_eq!(Rate::new(3).value(), 3);
    assert_eq!(Rate::from(-99).value(), -10);
    assert_eq!(Volume::new(250).value(), 100);
    assert_eq!(Volume::from_sapi(70).sapi_value(), 70);
    assert_eq!(Volume::from_sapi(60000).sapi_value(), 100);
}

#[test]
fn say_as_identifiers() {
    assert_eq!(SayAs::DateMDY.sapi_id(), "date_mdy");
    assert_eq!(SayAs::Time.sapi_id(), "time");
    assert_eq!(SayAs::NumberCardinal.sapi_id(), "number_cardinal");
    assert_eq!(SayAs::PhoneNumber.sapi_id(), "phone_number");
    assert_eq!(SayAs::Custom("web_address").sapi_id(), "web_address");
}

#[test]
fn speech_contents_and_kinds() {
    let t = Speech::from_text("hello");
    assert_eq!(t.contents(), "hello");
    assert!(!t.is_markup());
    let x = Speech::Xml(String::from("<emph>hello</emph>"));
    assert_eq!(x.contents(), "<emph>hello</emph>");
    assert!(x.is_markup());
    let from_string: Speech = String::from("hey").into();
    assert_eq!(from_string.contents(), "hey");
}

#[test]
fn decimal_rendering() {
    assert_eq!(decimal_string(0), "0");
    assert_eq!(decimal_string(9), "9");
    assert_eq!(decimal_string(10), "10");
    assert_eq!(decimal_string(48000), "48000");
    assert_eq!(decimal_string(u64::MAX), "18446744073709551615");
    assert_eq!(decimal_string_signed(-10), "-10");
    assert_eq!(decimal_string_signed(0), "0");
    assert_eq!(decimal_string_signed(i64::MIN), "-9223372036854775808");
}

#[test]
fn speech_finish_after_await_notifies() {
    let mut t = SpeechTracker::new();
    assert!(!t.begin_await(7)); // nothing finished yet: the consumer waits
    assert!(t.on_speech_finished(7)); // the waiter must be notified now
    assert!(!t.on_speech_finished(7)); // a repeat finds nobody waiting
}

#[test]
fn speech_finish_before_await_completes_immediately() {
    let mut t = SpeechTracker::new();
    assert!(!t.on_speech_finished(3)); // nobody waits yet: recorded
    assert!(t.begin_await(3)); // the wait completes immediately
    assert!(!t.begin_await(3)); // the identifier was settled: wait anew
}

#[test]
fn speech_tracker_keeps_identifiers_apart() {
    let mut t = SpeechTracker::new();
    assert!(!t.begin_await(1));
    assert!(!t.on_speech_finished(2));
    assert!(t.on_speech_finished(1));
    assert!(t.begin_await(2));
}
