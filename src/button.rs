//! Buttons, the table from report bits to buttons, and the edge detector that
//! turns two snapshots of the button report into events.
use vstd::prelude::*;

use crate::event::MikroEvent;

verus! {

/// Every button of the device.
#[derive(Clone, Copy, Debug, PartialEq, Eq, Structural)]
pub enum MaschineButton {
    Restart,
    StepLeft,
    StepRight,
    Grid,
    Play,
    Rec,
    Erase,
    Shift,
    Group,
    Browse,
    Sampling,
    NoteRepeat,
    Encoder,
    F1,
    F2,
    F3,
    Control,
    Nav,
    NavLeft,
    NavRight,
    Main,
    Scene,
    Pattern,
    PadMode,
    View,
    Duplicate,
    Select,
    Solo,
    Mute,
}

/// The encoder byte of a fresh snapshot: any value above 15 means that no
/// position has been seen yet.
pub const ENCODER_UNSET: u8 = 0x10;

/// The button table, one row of eight columns per group; `None` where no
/// button is wired. Column `c` of a row is bit `7 - c` of the group byte.
pub open spec fn table_column(group: int, column: int) -> Option<MaschineButton> {
    if group == 0 {
        if column == 0 { Some(MaschineButton::Restart) }
        else if column == 1 { Some(MaschineButton::StepLeft) }
        else if column == 2 { Some(MaschineButton::StepRight) }
        else if column == 3 { Some(MaschineButton::Grid) }
        else if column == 4 { Some(MaschineButton::Play) }
        else if column == 5 { Some(MaschineButton::Rec) }
        else if column == 6 { Some(MaschineButton::Erase) }
        else if column == 7 { Some(MaschineButton::Shift) }
        else { None }
    } else if group == 1 {
        if column == 0 { Some(MaschineButton::Group) }
        else if column == 1 { Some(MaschineButton::Browse) }
        else if column == 2 { Some(MaschineButton::Sampling) }
        else if column == 3 { Some(MaschineButton::NoteRepeat) }
        else if column == 4 { Some(MaschineButton::Encoder) }
        else { None }
    } else if group == 2 {
        if column == 0 { Some(MaschineButton::F1) }
        else if column == 1 { Some(MaschineButton::F2) }
        else if column == 2 { Some(MaschineButton::F3) }
        else if column == 3 { Some(MaschineButton::Control) }
        else if column == 4 { Some(MaschineButton::Nav) }
        else if column == 5 { Some(MaschineButton::NavLeft) }
        else if column == 6 { Some(MaschineButton::NavRight) }
        else if column == 7 { Some(MaschineButton::Main) }
        else { None }
    } else if group == 3 {
        if column == 0 { Some(MaschineButton::Scene) }
        else if column == 1 { Some(MaschineButton::Pattern) }
        else if column == 2 { Some(MaschineButton::PadMode) }
        else if column == 3 { Some(MaschineButton::View) }
        else if column == 4 { Some(MaschineButton::Duplicate) }
        else if column == 5 { Some(MaschineButton::Select) }
        else if column == 6 { Some(MaschineButton::Solo) }
        else if column == 7 { Some(MaschineButton::Mute) }
        else { None }
    } else {
        None
    }
}

/// Looks up an entry of the button table.
pub fn table_entry(group: usize, column: u8) -> (r: Option<MaschineButton>)
    ensures
        r == table_column(group as int, column as int),
{
    match (group, column) {
        (0, 0) => Some(MaschineButton::Restart),
        (0, 1) => Some(MaschineButton::StepLeft),
        (0, 2) => Some(MaschineButton::StepRight),
        (0, 3) => Some(MaschineButton::Grid),
        (0, 4) => Some(MaschineButton::Play),
        (0, 5) => Some(MaschineButton::Rec),
        (0, 6) => Some(MaschineButton::Erase),
        (0, 7) => Some(MaschineButton::Shift),
        (1, 0) => Some(MaschineButton::Group),
        (1, 1) => Some(MaschineButton::Browse),
        (1, 2) => Some(MaschineButton::Sampling),
        (1, 3) => Some(MaschineButton::NoteRepeat),
        (1, 4) => Some(MaschineButton::Encoder),
        (2, 0) => Some(MaschineButton::F1),
        (2, 1) => Some(MaschineButton::F2),
        (2, 2) => Some(MaschineButton::F3),
        (2, 3) => Some(MaschineButton::Control),
        (2, 4) => Some(MaschineButton::Nav),
        (2, 5) => Some(MaschineButton::NavLeft),
        (2, 6) => Some(MaschineButton::NavRight),
        (2, 7) => Some(MaschineButton::Main),
        (3, 0) => Some(MaschineButton::Scene),
        (3, 1) => Some(MaschineButton::Pattern),
        (3, 2) => Some(MaschineButton::PadMode),
        (3, 3) => Some(MaschineButton::View),
        (3, 4) => Some(MaschineButton::Duplicate),
        (3, 5) => Some(MaschineButton::Select),
        (3, 6) => Some(MaschineButton::Solo),
        (3, 7) => Some(MaschineButton::Mute),
        _ => None,
    }
}

/// The button reported by bit `bit` (`0..8`, least significant first) of
/// group `group`; `None` where the bit is unused.
pub open spec fn button_at(group: int, bit: int) -> Option<MaschineButton> {
    if 0 <= bit < 8 {
        table_column(group, 7 - bit)
    } else {
        None
    }
}

/// Looks up the button of a report bit.
pub fn button_for_bit(group: usize, bit: u8) -> (r: Option<MaschineButton>)
    requires
        bit < 8,
    ensures
        r == button_at(group as int, bit as int),
{
    table_entry(group, 7 - bit)
}

/// Whether bit `b` of `x` is set.
pub open spec fn bit_of(x: u8, b: int) -> bool {
    (x >> (b as u8)) & 1 == 1
}

/// Whether bit `b` differs between the stored and the cur group byte.
pub open spec fn bit_changed(prev: u8, cur: u8, b: int) -> bool {
    bit_of(prev, b) != bit_of(cur, b)
}

/// The event for a button that is now down (`down`) or up.
pub open spec fn button_event(btn: MaschineButton, down: bool) -> MikroEvent {
    if down {
        MikroEvent::ButtonDown(btn)
    } else {
        MikroEvent::ButtonUp(btn)
    }
}

/// The events of the first `n` bits of group `g`, in ascending bit order: one
/// for each bit that changed.
pub open spec fn group_events(g: int, prev: u8, cur: u8, n: int) -> Seq<MikroEvent>
    decreases n,
{
    if n <= 0 {
        Seq::empty()
    } else {
        group_events(g, prev, cur, n - 1) + if bit_changed(prev, cur, n - 1) {
            seq![button_event(button_at(g, n - 1).unwrap(), bit_of(cur, n - 1))]
        } else {
            Seq::<MikroEvent>::empty()
        }
    }
}

/// The events of the first `n` groups, groups in ascending order.
pub open spec fn groups_events(prev: Seq<u8>, cur: Seq<u8>, n: int) -> Seq<MikroEvent>
    decreases n,
{
    if n <= 0 {
        Seq::empty()
    } else {
        groups_events(prev, cur, n - 1) + group_events(n - 1, prev[n - 1], cur[n - 1], 8)
    }
}

/// Every changed bit of the first `n` groups names a button.
pub open spec fn groups_known(prev: Seq<u8>, cur: Seq<u8>, n: int) -> bool {
    forall|g: int, b: int|
        0 <= g < n && 0 <= b < 8 && bit_changed(prev[g], cur[g], b) ==> (#[trigger] button_at(g, b)).is_some()
}

/// The encoder events for a stored encoder byte and a cur one. An unset
/// store adopts the cur value silently; otherwise a change is one step,
/// clockwise exactly when the cur value is the stored one plus one, modulo 16.
pub open spec fn encoder_events(stored: u8, cur: u8) -> Seq<MikroEvent> {
    if stored > 15 || stored == cur {
        Seq::empty()
    } else if (stored + 1) % 16 == cur as int {
        seq![MikroEvent::EncoderStep(0, 1i8)]
    } else {
        seq![MikroEvent::EncoderStep(0, -1i8)]
    }
}

/// All events of a button report `cur` against the snapshot `prev`: the four
/// groups, then the encoder.
pub open spec fn button_report_events(prev: Seq<u8>, cur: Seq<u8>) -> Seq<MikroEvent> {
    groups_events(prev, cur, 4) + encoder_events(prev[4], cur[4])
}

proof fn lemma_xor_bit(a: u8, c: u8, b: u8)
    requires
        b < 8,
    ensures
        (((a ^ c) >> b) & 1 == 1) == (((a >> b) & 1 == 1) != ((c >> b) & 1 == 1)),
{
    assert((((a ^ c) >> b) & 1 == 1) == (((a >> b) & 1 == 1) != ((c >> b) & 1 == 1))) by (bit_vector)
        requires
            b < 8,
    ;
}

/// The events of one group byte, appended to `events`; on a changed bit that
/// names no button, the position of that bit.
fn group_changes(g: usize, prev: u8, cur: u8, events: &mut Vec<MikroEvent>) -> (r: Result<(), (usize, u8)>)
    ensures
        r is Ok <==> (forall|b: int| 0 <= b < 8 && bit_changed(prev, cur, b) ==> (#[trigger] button_at(g as int, b)).is_some()),
        r is Ok ==> final(events)@ == old(events)@ + group_events(g as int, prev, cur, 8),
        r matches Err((eg, eb)) ==> eg == g && eb < 8 && bit_changed(prev, cur, eb as int)
            && button_at(g as int, eb as int) is None
            && forall|c: int| 0 <= c < eb && bit_changed(prev, cur, c) ==> (#[trigger] button_at(g as int, c)).is_some(),
{
    let diff: u8 = prev ^ cur;
    let mut b: u8 = 0;
    while b < 8
        invariant
            b <= 8,
            diff == prev ^ cur,
            events@ == old(events)@ + group_events(g as int, prev, cur, b as int),
            forall|c: int| 0 <= c < b && bit_changed(prev, cur, c) ==> (#[trigger] button_at(g as int, c)).is_some(),
        decreases 8 - b,
    {
        proof {
            lemma_xor_bit(prev, cur, b);
        }
        if (diff >> b) & 1 == 1 {
            match button_for_bit(g, b) {
                Some(btn) => {
                    let down = (cur >> b) & 1 == 1;
                    if down {
                        events.push(MikroEvent::ButtonDown(btn));
                    } else {
                        events.push(MikroEvent::ButtonUp(btn));
                    }
                },
                None => {
                    return Err((g, b));
                },
            }
        }
        assert(events@ == old(events)@ + group_events(g as int, prev, cur, b as int + 1));
        b = b + 1;
    }
    Ok(())
}

/// The encoder event of a stored and a cur encoder byte, appended to `events`.
fn encoder_change(stored: u8, cur: u8, events: &mut Vec<MikroEvent>)
    ensures
        final(events)@ == old(events)@ + encoder_events(stored, cur),
{
    if stored > 15 || stored == cur {
        assert(encoder_events(stored, cur) =~= Seq::<MikroEvent>::empty());
        assert(final(events)@ =~= old(events)@ + encoder_events(stored, cur));
        return;
    }
    let next: u8 = (stored + 1) & 0xF;
    assert(((stored + 1) as u8) & 0xF == ((stored + 1) as u8) % 16) by (bit_vector);
    if next == cur {
        events.push(MikroEvent::EncoderStep(0, 1));
    } else {
        events.push(MikroEvent::EncoderStep(0, -1));
    }
}

/// Compares a button report (four group bytes, then the encoder byte) against
/// the stored snapshot and lists the events, or names the first changed bit
/// that maps to no button.
pub fn button_changes(snapshot: &[u8], report: &[u8]) -> (r: Result<Vec<MikroEvent>, (usize, u8)>)
    requires
        snapshot@.len() >= 5,
        report@.len() >= 5,
    ensures
        r is Ok <==> groups_known(snapshot@, report@, 4),
        r matches Ok(ev) ==> ev@ == button_report_events(snapshot@, report@),
        r matches Err((g, b)) ==> g < 4 && b < 8 && bit_changed(snapshot@[g as int], report@[g as int], b as int)
            && button_at(g as int, b as int) is None
            && groups_known(snapshot@, report@, g as int)
            && forall|c: int| 0 <= c < b && bit_changed(snapshot@[g as int], report@[g as int], c) ==> (#[trigger] button_at(g as int, c)).is_some(),
{
    let mut events: Vec<MikroEvent> = Vec::new();
    let mut g: usize = 0;
    while g < 4
        invariant
            g <= 4,
            snapshot@.len() >= 5,
            report@.len() >= 5,
            events@ == groups_events(snapshot@, report@, g as int),
            groups_known(snapshot@, report@, g as int),
        decreases 4 - g,
    {
        match group_changes(g, snapshot[g], report[g], &mut events) {
            Ok(()) => {},
            Err(pos) => {
                return Err(pos);
            },
        }
        assert(groups_known(snapshot@, report@, g as int + 1)) by {
            assert forall|h: int, b: int|
                0 <= h < g + 1 && 0 <= b < 8 && bit_changed(snapshot@[h], report@[h], b) implies (#[trigger] button_at(h, b)).is_some() by {
                if h < g {
                } else {
                    assert(h == g);
                }
            }
        }
        g = g + 1;
    }
    encoder_change(snapshot[4], report[4], &mut events);
    Ok(events)
}

proof fn lemma_unchanged_group_is_quiet(g: int, byte: u8, n: int)
    ensures
        group_events(g, byte, byte, n) =~= Seq::<MikroEvent>::empty(),
    decreases n,
{
    if n > 0 {
        lemma_unchanged_group_is_quiet(g, byte, n - 1);
    }
}

proof fn lemma_unchanged_groups_are_quiet(snapshot: Seq<u8>, report: Seq<u8>, n: int)
    requires
        0 <= n <= 4,
        report.len() >= 5,
        snapshot == report.subrange(0, 5),
    ensures
        groups_events(snapshot, report, n) =~= Seq::<MikroEvent>::empty(),
    decreases n,
{
    if n > 0 {
        lemma_unchanged_groups_are_quiet(snapshot, report, n - 1);
        assert(snapshot[n - 1] == report[n - 1]);
        lemma_unchanged_group_is_quiet(n - 1, report[n - 1], 8);
    }
}

/// A button report read against the snapshot that it left behind (the same
/// report read twice in a row) gives no events: no bit changed, and the
/// encoder stays where it is.
pub proof fn lemma_repeated_button_report_is_quiet(report: Seq<u8>)
    requires
        report.len() >= 5,
    ensures
        button_report_events(report.subrange(0, 5), report) =~= Seq::<MikroEvent>::empty(),
{
    lemma_unchanged_groups_are_quiet(report.subrange(0, 5), report, 4);
}

} // verus!
