//! The XM2w protocol: configuration layout, settings, device exchanges,
//! the firmware emulator and the pointer drift filter.

pub mod driftguard;
pub mod emu;
pub mod exchange;
pub mod layout;
pub mod settings;
pub mod text;

pub use exchange::Device;
pub use settings::{ButtonCfg, Config, CpiLevel, DeviceSettings};

use vstd::prelude::*;

use emu::EmuView;

verus! {

/// Feature-report exchange with a device.
///
/// A transport's state is the state of the device behind it (`device`), in the
/// emulator's model; `sent` and `read` say how that state and the result may
/// look after a send or a read, and the exec methods promise exactly that. A
/// transport that says nothing (a hardware device) may end in any state with
/// any result.
pub trait Transport {
    /// The state of the device behind this transport.
    open spec fn device(&self) -> EmuView {
        arbitrary()
    }

    /// Whether `self` and `r` can be the transport and result after feature
    /// report `report_id` with `payload` is sent to a device in state `before`.
    open spec fn sent(&self, before: EmuView, report_id: u8, payload: Seq<u8>, r: Result<(), String>) -> bool {
        true
    }

    /// Whether `self` and `r` can be the transport and result after feature
    /// report `report_id` is read, at most `size` bytes, from a device in state `before`.
    open spec fn read(&self, before: EmuView, report_id: u8, size: usize, r: Result<Vec<u8>, String>) -> bool {
        true
    }

    /// Sends a feature report `report_id` with `payload`.
    fn set_feature(&mut self, report_id: u8, payload: &[u8]) -> (r: Result<(), String>)
        ensures
            final(self).sent(old(self).device(), report_id, payload@, r),
    ;

    /// Reads feature report `report_id`, at most `size` bytes.
    fn get_feature(&mut self, report_id: u8, size: usize) -> (r: Result<Vec<u8>, String>)
        ensures
            final(self).read(old(self).device(), report_id, size, r),
    ;
}

/// A boxed transport behaves as the transport in the box.
impl<T: Transport + ?Sized> Transport for Box<T> {
    open spec fn device(&self) -> EmuView {
        (**self).device()
    }

    open spec fn sent(&self, before: EmuView, report_id: u8, payload: Seq<u8>, r: Result<(), String>) -> bool {
        (**self).sent(before, report_id, payload, r)
    }

    open spec fn read(&self, before: EmuView, report_id: u8, size: usize, r: Result<Vec<u8>, String>) -> bool {
        (**self).read(before, report_id, size, r)
    }

    fn set_feature(&mut self, report_id: u8, payload: &[u8]) -> (r: Result<(), String>) {
        (**self).set_feature(report_id, payload)
    }

    fn get_feature(&mut self, report_id: u8, size: usize) -> (r: Result<Vec<u8>, String>) {
        (**self).get_feature(report_id, size)
    }
}

} // verus!
