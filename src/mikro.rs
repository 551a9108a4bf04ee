//! The decode and encode state of one device: sixteen pads, the button
//! snapshot and the light report. The transport stays with the caller, which
//! hands each input report to `handle_report` and writes out `light_report`
//! and the screen-clear reports.
use vstd::prelude::*;

use crate::button::{MaschineButton, button_changes, button_report_events, groups_known, bit_changed, button_at, ENCODER_UNSET};
use crate::event::{MikroEvent, PadIndexError, ReportError};
use crate::lights::{
    button_light_offset, color_channel, light_offset, pad_channel, pad_light_offset, set_rgb_light,
    LIGHT_REPORT_KIND, LIGHT_REPORT_LEN, PAD_LIGHT_OFFSET,
};
use crate::pad::{next_state, run, sample_level, transition, MaschinePad, MaschinePadState, MaschinePadStateTransition};

verus! {

/// Kind byte of a button input report.
pub const BUTTON_REPORT_KIND: u8 = 0x01;

/// Kind byte of a pad input report.
pub const PAD_REPORT_KIND: u8 = 0x20;

/// Length of a button report's payload: four groups and the encoder byte.
pub const BUTTON_PAYLOAD_LEN: usize = 5;

/// Length of a pad report's payload: sixteen little-endian 16-bit samples.
pub const PAD_PAYLOAD_LEN: usize = 32;

/// Number of pads.
pub const PAD_COUNT: usize = 16;

/// The state of one device.
pub struct Mikro {
    light_buf: Vec<u8>,
    pads: Vec<MaschinePad>,
    buttons: Vec<u8>,
}

/// What a `Mikro` holds: the light report, the pads and the button snapshot.
pub struct MikroView {
    pub light: Seq<u8>,
    pub pads: Seq<MaschinePad>,
    pub buttons: Seq<u8>,
}

impl View for Mikro {
    type V = MikroView;

    closed spec fn view(&self) -> MikroView {
        MikroView { light: self.light_buf@, pads: self.pads@, buttons: self.buttons@ }
    }
}

/// Sample `i` of a pad payload, little-endian.
pub open spec fn pad_sample(payload: Seq<u8>, i: int) -> u16 {
    (payload[2 * i] as int + 256 * payload[2 * i + 1] as int) as u16
}

/// The events of one pad transition.
pub open spec fn pad_event(i: int, t: MaschinePadStateTransition, level: u16) -> Seq<MikroEvent> {
    match t {
        MaschinePadStateTransition::Pressed => seq![MikroEvent::PadPressed(i as usize, level)],
        MaschinePadStateTransition::Aftertouch => seq![MikroEvent::PadAftertouch(i as usize, level)],
        MaschinePadStateTransition::Released => seq![MikroEvent::PadReleased(i as usize)],
        MaschinePadStateTransition::NoChange => Seq::empty(),
    }
}

/// The events of the first `n` pads for a pad payload, pads in ascending order.
pub open spec fn pad_events(pads: Seq<MaschinePad>, payload: Seq<u8>, n: int) -> Seq<MikroEvent>
    decreases n,
{
    if n <= 0 {
        Seq::empty()
    } else {
        let level = sample_level(pad_sample(payload, n - 1));
        pad_events(pads, payload, n - 1) + pad_event(n - 1, transition(pads[n - 1].state, level), level)
    }
}

/// Pad `i` after reading its sample of `payload`.
pub open spec fn pad_after(pad: MaschinePad, payload: Seq<u8>, i: int) -> MaschinePad {
    let level = sample_level(pad_sample(payload, i));
    MaschinePad { state: next_state(pad.state, level), level }
}

/// The light report of a fresh device: its kind byte, then zeros.
pub open spec fn initial_light() -> Seq<u8> {
    Seq::new(LIGHT_REPORT_LEN as nat, |i: int| if i == 0 { LIGHT_REPORT_KIND } else { 0u8 })
}

/// Whether the light report has its length and kind byte, there are sixteen
/// pads with 12-bit levels, and the snapshot has five bytes.
pub open spec fn view_wf(v: MikroView) -> bool {
    &&& v.light.len() == LIGHT_REPORT_LEN
    &&& v.light[0] == LIGHT_REPORT_KIND
    &&& v.pads.len() == PAD_COUNT
    &&& forall|i: int| 0 <= i < v.pads.len() ==> (#[trigger] v.pads[i]).wf()
    &&& v.buttons.len() == BUTTON_PAYLOAD_LEN
}

/// The pad that an event is about, if any.
pub open spec fn event_pad(e: MikroEvent) -> Option<usize> {
    match e {
        MikroEvent::PadPressed(i, _) => Some(i),
        MikroEvent::PadAftertouch(i, _) => Some(i),
        MikroEvent::PadReleased(i) => Some(i),
        _ => None,
    }
}

/// The events of `events` that are about pad `i`.
pub open spec fn events_of_pad(events: Seq<MikroEvent>, i: int) -> Seq<MikroEvent> {
    events.filter(|e: MikroEvent| event_pad(e) == Some(i as usize))
}

proof fn lemma_pad_event_of_pad(j: int, t: MaschinePadStateTransition, level: u16, i: int)
    requires
        0 <= i < PAD_COUNT,
        0 <= j < PAD_COUNT,
    ensures
        events_of_pad(pad_event(j, t, level), i) == if i == j { pad_event(j, t, level) } else { Seq::empty() },
{
    reveal(Seq::filter);
    let ev = pad_event(j, t, level);
    if ev.len() > 0 {
        assert(ev.drop_last() =~= Seq::<MikroEvent>::empty());
        assert(ev.drop_last().filter(|e: MikroEvent| event_pad(e) == Some(i as usize)) =~= Seq::<MikroEvent>::empty());
        if i == j {
            assert(events_of_pad(ev, i) =~= ev);
        } else {
            assert(events_of_pad(ev, i) =~= Seq::<MikroEvent>::empty());
        }
    }
}

proof fn lemma_pad_events_of_pad(pads: Seq<MaschinePad>, payload: Seq<u8>, n: int, i: int)
    requires
        0 <= n <= PAD_COUNT,
        0 <= i < PAD_COUNT,
    ensures
        events_of_pad(pad_events(pads, payload, n), i) == if i < n {
            let level = sample_level(pad_sample(payload, i));
            pad_event(i, transition(pads[i].state, level), level)
        } else {
            Seq::empty()
        },
    decreases n,
{
    reveal(Seq::filter);
    if n > 0 {
        lemma_pad_events_of_pad(pads, payload, n - 1, i);
        let level = sample_level(pad_sample(payload, n - 1));
        let head = pad_events(pads, payload, n - 1);
        let tail = pad_event(n - 1, transition(pads[n - 1].state, level), level);
        Seq::filter_distributes_over_add(head, tail, |e: MikroEvent| event_pad(e) == Some(i as usize));
        lemma_pad_event_of_pad(n - 1, transition(pads[n - 1].state, level), level, i);
        if i < n - 1 {
            assert(events_of_pad(pad_events(pads, payload, n), i) =~= events_of_pad(head, i));
        } else if i == n - 1 {
            assert(events_of_pad(pad_events(pads, payload, n), i) =~= tail);
        } else {
            assert(events_of_pad(pad_events(pads, payload, n), i) =~= Seq::<MikroEvent>::empty());
        }
    }
}

/// A pad report moves each pad one step of its state machine: the events
/// about pad `i` are exactly the event of `transition` on its old state and
/// its sample's level, and its new state is `next_state` of the same. So the
/// pad reports read in turn give, for pad `i`, the transitions of `run` over
/// its levels.
pub proof fn lemma_pad_report_steps_each_pad(pads: Seq<MaschinePad>, payload: Seq<u8>, i: int)
    requires
        0 <= i < PAD_COUNT,
    ensures
        events_of_pad(pad_events(pads, payload, PAD_COUNT as int), i) == pad_event(
            i,
            transition(pads[i].state, sample_level(pad_sample(payload, i))),
            sample_level(pad_sample(payload, i)),
        ),
        pad_after(pads[i], payload, i).state == next_state(pads[i].state, sample_level(pad_sample(payload, i))),
        pad_after(pads[i], payload, i).level == sample_level(pad_sample(payload, i)),
{
    lemma_pad_events_of_pad(pads, payload, PAD_COUNT as int, i);
}

/// The pads after a pad report.
pub open spec fn pads_after(pads: Seq<MaschinePad>, payload: Seq<u8>) -> Seq<MaschinePad> {
    Seq::new(pads.len(), |j: int| pad_after(pads[j], payload, j))
}

/// The events of the pad reports `payloads` read in turn, from `pads`.
pub open spec fn reports_events(pads: Seq<MaschinePad>, payloads: Seq<Seq<u8>>) -> Seq<MikroEvent>
    decreases payloads.len(),
{
    if payloads.len() == 0 {
        Seq::empty()
    } else {
        pad_events(pads, payloads[0], PAD_COUNT as int) + reports_events(pads_after(pads, payloads[0]), payloads.drop_first())
    }
}

/// The levels that the pad reports `payloads` give pad `i`.
pub open spec fn pad_levels(payloads: Seq<Seq<u8>>, i: int) -> Seq<u16> {
    Seq::new(payloads.len(), |k: int| sample_level(pad_sample(payloads[k], i)))
}

/// The events of pad `i` for the transitions of `run(s, ls)`, each carrying its level.
pub open spec fn run_events(i: int, s: MaschinePadState, ls: Seq<u16>) -> Seq<MikroEvent>
    decreases ls.len(),
{
    if ls.len() == 0 {
        Seq::empty()
    } else {
        pad_event(i, run(s, ls)[0], ls[0]) + run_events(i, next_state(s, ls[0]), ls.drop_first())
    }
}

/// Over a series of pad reports, the events about pad `i` are those of the
/// pad state machine's `run` from the pad's state over the levels the reports
/// give it.
pub proof fn lemma_pad_reports_follow_run(pads: Seq<MaschinePad>, payloads: Seq<Seq<u8>>, i: int)
    requires
        pads.len() == PAD_COUNT,
        0 <= i < PAD_COUNT,
    ensures
        events_of_pad(reports_events(pads, payloads), i) == run_events(i, pads[i].state, pad_levels(payloads, i)),
    decreases payloads.len(),
{
    reveal(Seq::filter);
    let ls = pad_levels(payloads, i);
    if payloads.len() == 0 {
        assert(events_of_pad(reports_events(pads, payloads), i) =~= Seq::<MikroEvent>::empty());
    } else {
        let p0 = payloads[0];
        let rest = payloads.drop_first();
        let pads2 = pads_after(pads, p0);
        lemma_pad_reports_follow_run(pads2, rest, i);
        lemma_pad_events_of_pad(pads, p0, PAD_COUNT as int, i);
        Seq::filter_distributes_over_add(
            pad_events(pads, p0, PAD_COUNT as int),
            reports_events(pads2, rest),
            |e: MikroEvent| event_pad(e) == Some(i as usize),
        );
        assert(pad_levels(rest, i) =~= ls.drop_first());
        assert(pads2[i].state == next_state(pads[i].state, ls[0]));
    }
}

impl Mikro {
    /// Well formed, see `view_wf`.
    pub open spec fn wf(&self) -> bool {
        view_wf(self@)
    }

    /// Sixteen idle pads.
    fn sixteen_maschine_pads() -> (r: Vec<MaschinePad>)
        ensures
            r@.len() == PAD_COUNT,
            forall|i: int| 0 <= i < 16 ==> (#[trigger] r@[i]).state == MaschinePadState::Idle && r@[i].level == 0,
    {
        let mut pads: Vec<MaschinePad> = Vec::new();
        let mut i: usize = 0;
        while i < PAD_COUNT
            invariant
                i <= PAD_COUNT,
                pads@.len() == i,
                forall|j: int| 0 <= j < i ==> (#[trigger] pads@[j]).state == MaschinePadState::Idle && pads@[j].level == 0,
            decreases PAD_COUNT - i,
        {
            pads.push(MaschinePad::new());
            i = i + 1;
        }
        pads
    }

    /// A fresh device: idle pads, lights off, no button held, encoder unset.
    pub fn new() -> (r: Mikro)
        ensures
            r.wf(),
            r@.light == initial_light(),
            forall|i: int| 0 <= i < 16 ==> (#[trigger] r@.pads[i]).state == MaschinePadState::Idle && r@.pads[i].level == 0,
            r@.buttons == seq![0u8, 0u8, 0u8, 0u8, ENCODER_UNSET],
    {
        let mut light_buf: Vec<u8> = vec![0u8; LIGHT_REPORT_LEN];
        light_buf[0] = LIGHT_REPORT_KIND;
        let r = Mikro {
            light_buf,
            pads: Mikro::sixteen_maschine_pads(),
            buttons: vec![0u8, 0u8, 0u8, 0u8, ENCODER_UNSET],
        };
        assert(r@.light =~= initial_light());
        assert(r@.buttons =~= seq![0u8, 0u8, 0u8, 0u8, ENCODER_UNSET]);
        r
    }

    /// Decodes a button payload against the snapshot. On success the payload
    /// becomes the snapshot; on a changed bit that names no button nothing
    /// changes.
    fn read_buttons(&mut self, payload: &[u8]) -> (r: Result<Vec<MikroEvent>, ReportError>)
        requires
            old(self).wf(),
            payload@.len() >= BUTTON_PAYLOAD_LEN,
        ensures
            final(self).wf(),
            r is Ok <==> groups_known(old(self)@.buttons, payload@, 4),
            r matches Ok(ev) ==> {
                &&& ev@ == button_report_events(old(self)@.buttons, payload@)
                &&& final(self)@.buttons == payload@.subrange(0, 5)
                &&& final(self)@.light == old(self)@.light
                &&& final(self)@.pads == old(self)@.pads
            },
            r matches Err(e) ==> {
                &&& final(self)@ == old(self)@
                &&& e matches ReportError::UnknownButton { group, bit }
                &&& group < 4 && bit < 8
                &&& bit_changed(old(self)@.buttons[group as int], payload@[group as int], bit as int)
                &&& button_at(group as int, bit as int) is None
            },
    {
        match button_changes(self.buttons.as_slice(), payload) {
            Ok(events) => {
                let mut i: usize = 0;
                while i < BUTTON_PAYLOAD_LEN
                    invariant
                        i <= BUTTON_PAYLOAD_LEN,
                        payload@.len() >= BUTTON_PAYLOAD_LEN,
                        self.buttons@.len() == BUTTON_PAYLOAD_LEN,
                        forall|j: int| 0 <= j < i ==> self.buttons@[j] == payload@[j],
                        self.light_buf@ == old(self).light_buf@,
                        self.pads@ == old(self).pads@,
                    decreases BUTTON_PAYLOAD_LEN - i,
                {
                    self.buttons[i] = payload[i];
                    i = i + 1;
                }
                assert(self.buttons@ =~= payload@.subrange(0, 5));
                Ok(events)
            },
            Err((group, bit)) => Err(ReportError::UnknownButton { group, bit }),
        }
    }

    /// Decodes a pad payload: each pad reads its sample, in pad order.
    fn read_pads(&mut self, payload: &[u8]) -> (r: Vec<MikroEvent>)
        requires
            old(self).wf(),
            payload@.len() >= PAD_PAYLOAD_LEN,
        ensures
            final(self).wf(),
            r@ == pad_events(old(self)@.pads, payload@, 16),
            forall|i: int| 0 <= i < 16 ==> #[trigger] final(self)@.pads[i] == pad_after(old(self)@.pads[i], payload@, i),
            final(self)@.pads == pads_after(old(self)@.pads, payload@),
            final(self)@.light == old(self)@.light,
            final(self)@.buttons == old(self)@.buttons,
    {
        let mut events: Vec<MikroEvent> = Vec::new();
        let mut i: usize = 0;
        while i < PAD_COUNT
            invariant
                i <= PAD_COUNT,
                payload@.len() >= PAD_PAYLOAD_LEN,
                self.pads@.len() == PAD_COUNT,
                forall|j: int| 0 <= j < i ==> #[trigger] self.pads@[j] == pad_after(old(self)@.pads[j], payload@, j),
                forall|j: int| i <= j < PAD_COUNT ==> #[trigger] self.pads@[j] == old(self)@.pads[j],
                events@ == pad_events(old(self)@.pads, payload@, i as int),
                view_wf(old(self)@),
                forall|j: int| 0 <= j < PAD_COUNT ==> (#[trigger] self.pads@[j]).wf(),
                self.light_buf@ == old(self).light_buf@,
                self.buttons@ == old(self).buttons@,
            decreases PAD_COUNT - i,
        {
            let raw: u16 = payload[2 * i] as u16 + 256 * (payload[2 * i + 1] as u16);
            let mut pad = self.pads[i];
            let t = pad.pressure_val(raw);
            let level = pad.level;
            self.pads[i] = pad;
            match t {
                MaschinePadStateTransition::Pressed => events.push(MikroEvent::PadPressed(i, level)),
                MaschinePadStateTransition::Aftertouch => events.push(MikroEvent::PadAftertouch(i, level)),
                MaschinePadStateTransition::Released => events.push(MikroEvent::PadReleased(i)),
                MaschinePadStateTransition::NoChange => {},
            }
            assert(events@ =~= pad_events(old(self)@.pads, payload@, i as int + 1));
            i = i + 1;
        }
        assert(self.pads@ =~= pads_after(old(self)@.pads, payload@));
        events
    }

    /// Decodes one input report (kind byte, then payload) and lists its events.
    /// A button report needs five payload bytes and a pad report thirty-two;
    /// a shorter report is refused. A report of another kind is ignored.
    /// A refused report changes nothing.
    pub fn handle_report(&mut self, report: &[u8]) -> (r: Result<Vec<MikroEvent>, ReportError>)
        requires
            old(self).wf(),
        ensures
            final(self).wf(),
            r is Err ==> final(self)@ == old(self)@,
            report@.len() == 0 ==> r == Err::<Vec<MikroEvent>, ReportError>(ReportError::Truncated),
            report@.len() > 0 && report@[0] == BUTTON_REPORT_KIND ==> {
                let payload = report@.subrange(1, report@.len() as int);
                if payload.len() < BUTTON_PAYLOAD_LEN {
                    r == Err::<Vec<MikroEvent>, ReportError>(ReportError::Truncated)
                } else {
                    &&& (r is Ok <==> groups_known(old(self)@.buttons, payload, 4))
                    &&& r matches Ok(ev) ==> {
                        &&& ev@ == button_report_events(old(self)@.buttons, payload)
                        &&& final(self)@.buttons == payload.subrange(0, 5)
                        &&& final(self)@.light == old(self)@.light
                        &&& final(self)@.pads == old(self)@.pads
                    }
                    &&& r matches Err(e) ==> {
                        &&& e matches ReportError::UnknownButton { group, bit }
                        &&& group < 4 && bit < 8
                        &&& bit_changed(old(self)@.buttons[group as int], payload[group as int], bit as int)
                        &&& button_at(group as int, bit as int) is None
                    }
                }
            },
            report@.len() > 0 && report@[0] == PAD_REPORT_KIND ==> {
                let payload = report@.subrange(1, report@.len() as int);
                if payload.len() < PAD_PAYLOAD_LEN {
                    r == Err::<Vec<MikroEvent>, ReportError>(ReportError::Truncated)
                } else {
                    &&& r matches Ok(ev) && ev@ == pad_events(old(self)@.pads, payload, 16)
                    &&& forall|i: int| 0 <= i < 16 ==> #[trigger] final(self)@.pads[i] == pad_after(old(self)@.pads[i], payload, i)
                    &&& final(self)@.pads == pads_after(old(self)@.pads, payload)
                    &&& final(self)@.light == old(self)@.light
                    &&& final(self)@.buttons == old(self)@.buttons
                }
            },
            report@.len() > 0 && report@[0] != BUTTON_REPORT_KIND && report@[0] != PAD_REPORT_KIND ==> {
                &&& r matches Ok(ev) && ev@.len() == 0
                &&& final(self)@ == old(self)@
            },
    {
        if report.len() == 0 {
            return Err(ReportError::Truncated);
        }
        let kind = report[0];
        let payload = slice_from(report, 1);
        if kind == BUTTON_REPORT_KIND {
            if payload.len() < BUTTON_PAYLOAD_LEN {
                return Err(ReportError::Truncated);
            }
            self.read_buttons(payload)
        } else if kind == PAD_REPORT_KIND {
            if payload.len() < PAD_PAYLOAD_LEN {
                return Err(ReportError::Truncated);
            }
            Ok(self.read_pads(payload))
        } else {
            Ok(Vec::new())
        }
    }

    /// Sets the light of pad `pad` (`0..16`) to `color` (`0xRRGGBB`) at
    /// `brightness`; each channel is written at half strength,
    /// `floor(brightness / 255 * 0.5 * channel)`.
    pub fn set_pad_light(&mut self, pad: usize, color: u32, brightness: u8)
        requires
            old(self).wf(),
            pad < PAD_COUNT,
        ensures
            final(self).wf(),
            final(self)@.light == old(self)@.light
                .update(pad_light_offset(pad as int), pad_channel(brightness, color_channel(color, 2)))
                .update(pad_light_offset(pad as int) + 1, pad_channel(brightness, color_channel(color, 1)))
                .update(pad_light_offset(pad as int) + 2, pad_channel(brightness, color_channel(color, 0))),
            final(self)@.pads == old(self)@.pads,
            final(self)@.buttons == old(self)@.buttons,
    {
        let offset = PAD_LIGHT_OFFSET + pad * 3;
        set_rgb_light(&mut self.light_buf, offset, color, brightness);
    }

    /// Sets the light of a button to `brightness`; a button without a light
    /// leaves everything as it was.
    pub fn set_button_light(&mut self, btn: MaschineButton, brightness: u8)
        requires
            old(self).wf(),
        ensures
            final(self).wf(),
            light_offset(btn) matches Some(o) ==> final(self)@.light == old(self)@.light.update(o, brightness),
            light_offset(btn) is None ==> final(self)@.light == old(self)@.light,
            final(self)@.pads == old(self)@.pads,
            final(self)@.buttons == old(self)@.buttons,
    {
        match button_light_offset(btn) {
            Some(idx) => {
                self.light_buf[idx] = brightness;
            },
            None => {},
        }
    }

    /// The pressure level (`0..=4095`) last read for pad `pad_idx`; an index
    /// outside `0..16` is an error.
    pub fn get_pad_pressure(&self, pad_idx: usize) -> (r: Result<u16, PadIndexError>)
        requires
            self.wf(),
        ensures
            pad_idx < PAD_COUNT ==> r == Ok::<u16, PadIndexError>(self@.pads[pad_idx as int].level),
            pad_idx >= PAD_COUNT ==> r == Err::<u16, PadIndexError>(PadIndexError { index: pad_idx }),
    {
        if pad_idx < PAD_COUNT {
            Ok(self.pads[pad_idx].get_pressure())
        } else {
            Err(PadIndexError { index: pad_idx })
        }
    }

    /// The light report, ready to be written to the device.
    pub fn light_report(&self) -> (r: &[u8])
        ensures
            r@ == self@.light,
    {
        self.light_buf.as_slice()
    }

    /// The button snapshot: four group bytes, then the encoder byte.
    pub fn button_snapshot(&self) -> (r: &[u8])
        ensures
            r@ == self@.buttons,
    {
        self.buttons.as_slice()
    }
}

/// The bytes of `s` from `start` on.
fn slice_from(s: &[u8], start: usize) -> (r: &[u8])
    requires
        start <= s@.len(),
    ensures
        r@ == s@.subrange(start as int, s@.len() as int),
{
    vstd::slice::slice_subrange(s, start, s.len())
}

} // verus!
