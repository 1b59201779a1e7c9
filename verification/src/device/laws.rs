//! What holds of controllers of either make.

use super::{name_by_vendor, worth_opening, BackendRead, DeviceError, OpenSlot, Sample};
use crate::config::Config;
use crate::controller::ControllerState;
use crate::flydigi::handshake::FlydigiError;
use crate::flydigi::HidRead;
use crate::hid::HidInterface;
use crate::text::hex_text;
use crate::{flydigi, triton};
use vstd::prelude::*;

verus! {

/// Steam Controllers come first, as their backend picked them, and every pad of the
/// list behind them, in the order of the list.
pub proof fn both_makes_are_listed(valve: Seq<HidInterface>, infos: Seq<HidInterface>, i: int)
    ensures
        valve.is_prefix_of(worth_opening(valve, infos)),
        worth_opening(valve, infos).len() == valve.len() + flydigi::candidates(infos).len(),
        0 <= i < flydigi::candidates(infos).len() ==> worth_opening(valve, infos)[valve.len() + i]
            == flydigi::candidates(infos)[i],
{
}

/// A controller is called by its maker: what the Valve backend says for 28DE, always
/// the same for 37D7, and a question mark for anybody else.
pub proof fn names_go_by_the_vendor(vendor_id: u16, valve_label: Seq<char>)
    ensures
        vendor_id == 0x28DE ==> name_by_vendor(vendor_id, valve_label) == valve_label,
        vendor_id == 0x37D7 ==> name_by_vendor(vendor_id, valve_label) == "Flydigi Vader 5 Pro"@,
        vendor_id != 0x28DE && vendor_id != 0x37D7 ==> name_by_vendor(vendor_id, valve_label)
            == seq!['?'],
{
    reveal_strlit("?");
    assert("?"@ =~= seq!['?']);
}

/// An open controller has the numbers and the name that it was opened with, and what
/// its backend could not open stays unopened, for the backend's own reason.
pub proof fn opening_hands_the_slot_on(
    valve: Result<triton::OpenSlot, String>,
    pad: Result<flydigi::OpenSlot, FlydigiError>,
)
    ensures
        match valve {
            Ok(slot) => (OpenSlot::from_valve(valve) matches Ok(open) && open is Valve
                && open.spec_product_id() == slot.product_id && open.spec_interface_number()
                == slot.interface_number && open.spec_input_reports_seen()
                == slot.input_reports_seen && open.spec_label() == slot.label@
                && *open->Valve_0 == slot),
            Err(reason) => (OpenSlot::from_valve(valve) matches Err(e) && e.text() == reason@),
        },
        match pad {
            Ok(slot) => (OpenSlot::from_flydigi(pad) matches Ok(open) && open is Flydigi
                && open.spec_product_id() == slot.product_id && open.spec_interface_number()
                == slot.interface_number && open.spec_input_reports_seen()
                == slot.input_reports_seen && open.spec_label() == "Flydigi Vader 5 Pro"@
                && *open->Flydigi_0 == slot),
            Err(reason) => (OpenSlot::from_flydigi(pad) matches Err(e) && e.text()
                == reason.text()),
        },
{
}

/// A pad opened from an interface shows that interface's numbers.
pub proof fn an_opened_pad_shows_its_interface(
    info: HidInterface,
    now: u64,
    generation: u64,
    cfg: Config,
    sensitivity: u32,
)
    ensures
        ({
            let pad = flydigi::OpenSlot::fresh(info, now, generation, cfg, sensitivity);
            let open = OpenSlot::from_flydigi(Ok(pad)).unwrap();
            &&& open.spec_product_id() == info.product_id
            &&& open.spec_interface_number() == info.interface_number
            &&& open.spec_input_reports_seen() == 0
        }),
{
}

/// The message on a maker that is not known ends in its number, in four digits; other
/// messages are the backend's own.
pub proof fn messages_are_the_backends_own(vendor_id: u16, reason: String, e: FlydigiError)
    ensures
        DeviceError::UnsupportedVendor(vendor_id).text() == "unsupported vendor "@ + hex_text(
            vendor_id as nat,
            4,
        ),
        DeviceError::Valve(reason).text() == reason@,
        DeviceError::Flydigi(e).text() == e.text(),
{
}

/// What the Valve backend reads is handed on as it is: a sample unchanged, nothing as
/// nothing, a failure with its reason. Its count of reports is taken over, a reset is
/// done with, and nothing else of the slot moves.
pub proof fn valve_reads_are_handed_on<T>(
    slot: triton::OpenSlot,
    outcome: Result<Option<ControllerState<T>>, String>,
    input_reports_seen: u32,
    now: u64,
    sample: Result<Option<Sample<T>>, DeviceError>,
)
    requires
        OpenSlot::Valve(Box::new(slot)).gives(
            BackendRead::Valve { outcome, input_reports_seen },
            sample,
        ),
    ensures
        match outcome {
            Ok(Some(state)) => (sample matches Ok(Some(Sample::Finished(given))) && given == state),
            Ok(None) => (sample matches Ok(given) && given is None),
            Err(reason) => (sample matches Err(e) && e.text() == reason@),
        },
        (OpenSlot::Valve(Box::new(slot)).after(
            BackendRead::Valve { outcome, input_reports_seen },
            now,
        ) matches OpenSlot::Valve(after) && after.input_reports_seen == input_reports_seen
            && !after.reset_due && after.interface_number == slot.interface_number
            && after.product_id == slot.product_id && after.label == slot.label),
{
}

/// A pad's read gives a sample exactly when it holds an input report, nothing for any
/// other report or none, and fails exactly when the system did, with its reason. The
/// pad itself goes on as it would alone.
pub proof fn pads_are_read_as_they_would_be_alone<T>(
    slot: flydigi::OpenSlot,
    read: HidRead,
    now: u64,
    sample: Result<Option<Sample<T>>, DeviceError>,
)
    requires
        OpenSlot::Flydigi(Box::new(slot)).gives(BackendRead::Flydigi(read), sample),
    ensures
        sample is Err <==> read is Failed,
        read matches HidRead::Failed(reason) ==> (sample matches Err(e) && e.text() == "read: "@
            + reason@),
        read is Nothing ==> (sample matches Ok(given) && given is None),
        read is Report ==> (sample matches Ok(given) && (given is Some
            <==> flydigi::OpenSlot::input_report(read) is Some)),
        sample matches Ok(Some(given)) ==> (given matches Sample::Raw(reading) && slot.reads(
            flydigi::OpenSlot::input_report(read).unwrap(),
            reading,
        )),
        (OpenSlot::Flydigi(Box::new(slot)).after::<T>(
            BackendRead::Flydigi(read),
            now,
        ) matches OpenSlot::Flydigi(after) && *after == slot.after(read, now)),
{
}

/// Either make starts over once: recalibrating makes a reset due, and the next sample
/// carries it out.
pub proof fn either_make_resets_once<T>(
    slot: triton::OpenSlot,
    pad: flydigi::OpenSlot,
    read: BackendRead<T>,
    report: HidRead,
    now: u64,
)
    requires
        read is Valve,
        flydigi::OpenSlot::input_report(report) is Some,
    ensures
        ({
            let asked = OpenSlot::Valve(Box::new(slot)).recalibrating();
            &&& (asked matches OpenSlot::Valve(s) && s.reset_due)
            &&& (asked.after(read, now) matches OpenSlot::Valve(s) && !s.reset_due)
        }),
        ({
            let asked = OpenSlot::Flydigi(Box::new(pad)).recalibrating();
            &&& (asked matches OpenSlot::Flydigi(s) && s.reset_due)
            &&& (asked.after(BackendRead::<T>::Flydigi(report), now) matches OpenSlot::Flydigi(s)
                && !s.reset_due)
        }),
{
}

} // verus!
