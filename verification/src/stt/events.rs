//! Classification of engine notifications.
//!
//! The engine reports events as a numeric event code plus a tag saying what
//! kind of payload rides along. The library classifies the pair; the
//! payloads themselves (interfaces, tokens, raw memory) stay on the engine
//! side.

use vstd::prelude::*;

verus! {

/// The engine's event code for a completed recognition.
pub const EVENT_RECOGNITION: u16 = 38;

/// The engine's event code for the end of a synthesis input stream: the
/// speech with the reported stream number has finished rendering.
pub const EVENT_END_INPUT_STREAM: u16 = 2;

/// What kind of payload an engine event carries.
#[derive(Debug, PartialEq, Eq, Structural, Clone, Copy)]
pub enum LparamKind {
    /// No payload.
    Undefined,
    /// An object token.
    Token,
    /// A COM object.
    Object,
    /// A pointer to a value.
    Pointer,
    /// A string.
    Str,
}

/// One engine event, reduced to the fields classification reads.
#[derive(Debug, PartialEq, Eq, Structural, Clone, Copy)]
pub struct EventRecord {
    /// The numeric event code.
    pub id: u16,
    /// What kind of payload the event carries.
    pub lparam_kind: LparamKind,
    /// The synthesis input stream the event belongs to.
    pub stream_num: u32,
}

/// What an engine event means to the library, and so what its receiver
/// should do with the payload.
#[derive(Debug, PartialEq, Eq, Structural, Clone, Copy)]
pub enum EventOutcome {
    /// A phrase was recognized: the payload is the recognition result.
    Recognition,
    /// Some other event carrying a COM object.
    OtherObject,
    /// Some other event carrying a pointed-to value.
    OtherValue,
    /// Some other event carrying a string.
    OtherString,
    /// Some other event carrying an object token.
    OtherToken,
    /// The speech with this stream number has finished rendering.
    SpeechFinished(u32),
    /// An event the library attaches no meaning to.
    Other,
}

/// The classification of an event record, for contracts.
pub open spec fn spec_classify(ev: EventRecord) -> EventOutcome {
    match ev.lparam_kind {
        LparamKind::Object => if ev.id == EVENT_RECOGNITION {
            EventOutcome::Recognition
        } else {
            EventOutcome::OtherObject
        },
        LparamKind::Pointer => EventOutcome::OtherValue,
        LparamKind::Str => EventOutcome::OtherString,
        LparamKind::Token => EventOutcome::OtherToken,
        LparamKind::Undefined => if ev.id == EVENT_END_INPUT_STREAM {
            EventOutcome::SpeechFinished(ev.stream_num)
        } else {
            EventOutcome::Other
        },
    }
}

/// Classifies an engine event: a recognition result is the object payload
/// of the recognition event code; a finished synthesis is the payloadless
/// end-of-input-stream event, reported with its stream number; everything
/// else is passed through by payload kind.
pub fn classify_event(ev: &EventRecord) -> (r: EventOutcome)
    ensures
        r == spec_classify(*ev),
{
    match ev.lparam_kind {
        LparamKind::Object => {
            if ev.id == EVENT_RECOGNITION {
                EventOutcome::Recognition
            } else {
                EventOutcome::OtherObject
            }
        },
        LparamKind::Pointer => EventOutcome::OtherValue,
        LparamKind::Str => EventOutcome::OtherString,
        LparamKind::Token => EventOutcome::OtherToken,
        LparamKind::Undefined => {
            if ev.id == EVENT_END_INPUT_STREAM {
                EventOutcome::SpeechFinished(ev.stream_num)
            } else {
                EventOutcome::Other
            }
        },
    }
}

/// Whether bit `b` of the mask is set.
pub open spec fn bit_set(mask: u64, b: u16) -> bool {
    (mask >> (b as u64)) & 1 == 1
}

/// The interest mask covering a list of event codes: the mask with exactly
/// one bit set per listed code.
pub fn interest_mask(ids: &Vec<u16>) -> (r: u64)
    requires
        forall|k: int| 0 <= k < ids@.len() ==> (#[trigger] ids@[k]) < 64,
    ensures
        forall|b: u16| b < 64 ==> #[trigger] bit_set(r, b) == ids@.contains(b),
{
    let n = ids.len();
    let mut mask: u64 = 0;
    proof {
        assert forall|b: u16| b < 64 implies !bit_set(0u64, b) by {
            let bb = b as u64;
            assert((0u64 >> bb) & 1 == 0) by (bit_vector);
        }
        assert(ids@.take(0).len() == 0);
    }
    for k in 0..n
        invariant
            n == ids@.len(),
            forall|j: int| 0 <= j < n ==> (#[trigger] ids@[j]) < 64,
            forall|b: u16|
                b < 64 ==> #[trigger] bit_set(mask, b) == ids@.take(k as int).contains(b),
        decreases n - k,
    {
        let id = ids[k];
        let ghost mask_before = mask;
        mask = mask | (1u64 << (id as u64));
        proof {
            assert forall|b: u16| b < 64 implies #[trigger] bit_set(mask, b) == ids@.take(
                k + 1,
            ).contains(b) by {
                let bb = b as u64;
                let ii = id as u64;
                let m0 = mask_before;
                assert(((m0 | (1u64 << ii)) >> bb) & 1 == (if bb == ii {
                    1u64
                } else {
                    (m0 >> bb) & 1
                })) by (bit_vector)
                    requires
                        bb < 64,
                        ii < 64,
                ;
                assert(bit_set(mask_before, b) == ids@.take(k as int).contains(b));
                assert(ids@.take(k + 1).drop_last() =~= ids@.take(k as int));
                assert(ids@.take(k + 1).last() == ids@[k as int]);
                if b == id {
                    assert(ids@.take(k + 1).contains(b)) by {
                        assert(ids@.take(k + 1)[k as int] == b);
                    }
                } else {
                    assert(ids@.take(k + 1).contains(b) == ids@.take(k as int).contains(b)) by {
                        if ids@.take(k as int).contains(b) {
                            let w = choose|w: int|
                                0 <= w < k && #[trigger] ids@.take(k as int)[w] == b;
                            assert(ids@.take(k + 1)[w] == b);
                        }
                        if ids@.take(k + 1).contains(b) {
                            let w = choose|w: int|
                                0 <= w < k + 1 && #[trigger] ids@.take(k + 1)[w] == b;
                            if w < k {
                                assert(ids@.take(k as int)[w] == b);
                            }
                        }
                    }
                }
            }
        }
    }
    proof {
        assert(ids@.take(ids@.len() as int) =~= ids@);
    }
    mask
}

} // verus!
