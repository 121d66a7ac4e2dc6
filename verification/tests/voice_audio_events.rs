use sapi_lite::audio::{AudioFormat, BitRate, Channels, SampleRate, WAVE_FORMAT_PCM};
use sapi_lite::stt::{classify_event, interest_mask, EventOutcome, EventRecord, LparamKind};
use sapi_lite::stt::{EVENT_END_INPUT_STREAM, EVENT_RECOGNITION};
use sapi_lite::tts::{installed_voice_query, VoiceAge, VoiceGender, VoiceSelector};
use sapi_lite::Locale;

#[test]
fn selector_joins_conditions_with_semicolons() {
    let expr = VoiceSelector::new()
        .name_eq("Anna")
        .age_ne(VoiceAge::Child)
        .gender_eq(VoiceGender::Female)
        .language_eq("409")
        .into_sapi_expr();
    assert_eq!(expr, "name=Anna;age!=Child;gender=Female;language=409");
}

#[test]
fn selector_negations() {
    let expr = VoiceSelector::new()
        .name_ne("Sam")
        .gender_ne(VoiceGender::Neutral)
        .language_ne("809")
        .age_eq(VoiceAge::Senior)
        .into_sapi_expr();
    assert_eq!(expr, "name!=Sam;gender!=Neutral;language!=809;age=Senior");
}

#[test]
fn empty_selector_yields_empty_expression() {
    assert_eq!(VoiceSelector::new().into_sapi_expr(), "");
}

#[test]
fn voice_query_carries_both_expressions() {
    let (req, opt) = installed_voice_query(
        Some(VoiceSelector::new().age_eq(VoiceAge::Adult)),
        Some(VoiceSelector::new().gender_eq(VoiceGender::Male)),
    );
    assert_eq!(req.as_deref(), Some("age=Adult"));
    assert_eq!(opt.as_deref(), Some("gender=Male"));
    let (none_req, none_opt) = installed_voice_query(None, None);
    assert_eq!(none_req, None);
    assert_eq!(none_opt, None);
}

#[test]
fn wave_format_of_low_quality_mono() {
    let fmt = AudioFormat {
        sample_rate: SampleRate::Hz8000,
        bit_rate: BitRate::Bits8,
        channels: Channels::Mono,
    };
    let w = fmt.to_wave_format();
    assert_eq!(w.format_tag, WAVE_FORMAT_PCM);
    assert_eq!(w.channels, 1);
    assert_eq!(w.samples_per_sec, 8000);
    assert_eq!(w.block_align, 1);
    assert_eq!(w.avg_bytes_per_sec, 8000);
    assert_eq!(w.bits_per_sample, 8);
    assert_eq!(w.extra_size, 0);
}

#[test]
fn wave_format_of_high_quality_stereo() {
    let fmt = AudioFormat {
        sample_rate: SampleRate::Hz48000,
        bit_rate: BitRate::Bits16,
        channels: Channels::Stereo,
    };
    let w = fmt.to_wave_format();
    assert_eq!(w.channels, 2);
    assert_eq!(w.samples_per_sec, 48000);
    assert_eq!(w.block_align, 4);
    assert_eq!(w.avg_bytes_per_sec, 192_000);
    assert_eq!(w.bits_per_sample, 16);
}

#[test]
fn locale_round_trips_its_id() {
    let l = Locale::new(0x0409);
    assert_eq!(l.lcid(), 0x0409);
}

#[test]
fn recognition_event_is_classified() {
    let ev = EventRecord {
        id: EVENT_RECOGNITION,
        lparam_kind: LparamKind::Object,
        stream_num: 3,
    };
    assert_eq!(classify_event(&ev), EventOutcome::Recognition);
}

#[test]
fn speech_finished_reports_its_stream() {
    let ev = EventRecord {
        id: EVENT_END_INPUT_STREAM,
        lparam_kind: LparamKind::Undefined,
        stream_num: 7,
    };
    assert_eq!(classify_event(&ev), EventOutcome::SpeechFinished(7));
}

#[test]
fn other_events_pass_through_by_payload_kind() {
    let mk = |id, kind| EventRecord { id, lparam_kind: kind, stream_num: 0 };
    assert_eq!(classify_event(&mk(5, LparamKind::Object)), EventOutcome::OtherObject);
    assert_eq!(classify_event(&mk(5, LparamKind::Pointer)), EventOutcome::OtherValue);
    assert_eq!(classify_event(&mk(5, LparamKind::Str)), EventOutcome::OtherString);
    assert_eq!(classify_event(&mk(5, LparamKind::Token)), EventOutcome::OtherToken);
    assert_eq!(classify_event(&mk(5, LparamKind::Undefined)), EventOutcome::Other);
}

#[test]
fn interest_mask_sets_one_bit_per_code() {
    let mask = interest_mask(&vec![EVENT_END_INPUT_STREAM, 38, 30, 33]);
    assert_eq!(mask, (1u64 << 2) | (1u64 << 38) | (1u64 << 30) | (1u64 << 33));
    assert_eq!(interest_mask(&Vec::new()), 0);
}
