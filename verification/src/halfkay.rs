//! The HalfKay HID report format: the 1089-byte envelope that carries
//! one block write or the boot command, and the per-report write
//! timing that the bootloader's erase behaviour demands.

use vstd::prelude::*;

use crate::teensy41;

verus! {

/// A HalfKay HID device as enumeration reports it.
#[derive(Debug, Clone, PartialEq, Eq)]
pub struct HalfKayDeviceSummary {
    pub vid: u16,
    pub pid: u16,
    pub path: String,
}

/// Keeps the devices that carry the PJRC vendor id and the HalfKay
/// product id, in enumeration order.
pub fn filter_halfkay_devices(devs: Vec<HalfKayDeviceSummary>) -> (r: Vec<HalfKayDeviceSummary>)
    ensures
        r@ == devs@.filter(
            |d: HalfKayDeviceSummary| d.vid == teensy41::VID && d.pid == teensy41::PID_HALFKAY,
        ),
{
    let ghost pred = |d: HalfKayDeviceSummary| d.vid == teensy41::VID && d.pid
        == teensy41::PID_HALFKAY;
    let ghost all = devs@;
    let mut rest = devs;
    let mut out: Vec<HalfKayDeviceSummary> = Vec::new();
    proof {
        reveal(Seq::filter);
        assert(all.take(0) =~= Seq::<HalfKayDeviceSummary>::empty());
    }
    while rest.len() > 0
        invariant
            rest@.len() <= all.len(),
            rest@ == all.skip(all.len() - rest@.len()),
            out@ =~= all.take(all.len() - rest@.len()).filter(
                |d: HalfKayDeviceSummary| d.vid == teensy41::VID && d.pid
                    == teensy41::PID_HALFKAY,
            ),
        decreases rest@.len(),
    {
        let ghost k = all.len() - rest@.len();
        let d = rest.remove(0);
        proof {
            assert(d == all.skip(k)[0]);
            assert(d == all[k]);
            assert(rest@ =~= all.skip(k + 1));
            reveal(Seq::filter);
            assert(all.take(k + 1).drop_last() =~= all.take(k));
            assert(all.take(k + 1).last() == all[k]);
        }
        if d.vid == teensy41::VID && d.pid == teensy41::PID_HALFKAY {
            out.push(d);
        }
        assert(out@ =~= all.take(k + 1).filter(
            |d: HalfKayDeviceSummary| d.vid == teensy41::VID && d.pid == teensy41::PID_HALFKAY,
        ));
    }
    proof {
        assert(all.take(all.len() as int) =~= all);
    }
    out
}

/// Builds the block-write report: report id `0`, the block start
/// address as 24 bits little endian, zero padding to the header size,
/// then the 1024 block bytes.
pub fn build_block_report_teensy41(block_addr: usize, data: &[u8]) -> (r: Vec<u8>)
    requires
        data@.len() == teensy41::BLOCK_SIZE,
        block_addr < 0x100_0000,
    ensures
        r@.len() == teensy41::PACKET_SIZE + 1,
        r@[0] == 0,
        r@[1] == (block_addr % 256) as u8,
        r@[2] == ((block_addr / 256) % 256) as u8,
        r@[3] == ((block_addr / 65536) % 256) as u8,
        forall|i: int| 4 <= i < 1 + teensy41::HEADER_SIZE ==> r@[i] == 0,
        forall|i: int|
            1 + teensy41::HEADER_SIZE <= i < 1 + teensy41::PACKET_SIZE ==> r@[i] == data@[i - 1
                - teensy41::HEADER_SIZE],
{
    let mut r: Vec<u8> = Vec::new();
    r.push(0);
    r.push((block_addr % 256) as u8);
    r.push((block_addr / 256 % 256) as u8);
    r.push((block_addr / 65536 % 256) as u8);
    let mut i: usize = 4;
    while i < 1 + teensy41::HEADER_SIZE
        invariant
            4 <= i <= 1 + teensy41::HEADER_SIZE,
            r@.len() == i,
            r@[0] == 0,
            r@[1] == (block_addr % 256) as u8,
            r@[2] == ((block_addr / 256) % 256) as u8,
            r@[3] == ((block_addr / 65536) % 256) as u8,
            forall|k: int| 4 <= k < i ==> r@[k] == 0,
        decreases 1 + teensy41::HEADER_SIZE - i,
    {
        r.push(0);
        i = i + 1;
    }
    let mut j: usize = 0;
    while j < teensy41::BLOCK_SIZE
        invariant
            0 <= j <= teensy41::BLOCK_SIZE,
            data@.len() == teensy41::BLOCK_SIZE,
            r@.len() == 1 + teensy41::HEADER_SIZE + j,
            r@[0] == 0,
            r@[1] == (block_addr % 256) as u8,
            r@[2] == ((block_addr / 256) % 256) as u8,
            r@[3] == ((block_addr / 65536) % 256) as u8,
            forall|k: int| 4 <= k < 1 + teensy41::HEADER_SIZE ==> r@[k] == 0,
            forall|k: int|
                1 + teensy41::HEADER_SIZE <= k < r@.len() ==> r@[k] == data@[k - 1
                    - teensy41::HEADER_SIZE],
        decreases teensy41::BLOCK_SIZE - j,
    {
        r.push(data[j]);
        j = j + 1;
    }
    r
}

/// Builds the boot report: report id `0`, `FF FF FF` in the address
/// field, and zero padding to the packet size.
pub fn build_boot_report_teensy41() -> (r: Vec<u8>)
    ensures
        r@.len() == teensy41::PACKET_SIZE + 1,
        r@[0] == 0,
        r@[1] == 0xFF,
        r@[2] == 0xFF,
        r@[3] == 0xFF,
        forall|i: int| 4 <= i < 1 + teensy41::PACKET_SIZE ==> r@[i] == 0,
{
    let mut r: Vec<u8> = Vec::new();
    r.push(0);
    r.push(0xFF);
    r.push(0xFF);
    r.push(0xFF);
    let mut i: usize = 4;
    while i < 1 + teensy41::PACKET_SIZE
        invariant
            4 <= i <= 1 + teensy41::PACKET_SIZE,
            r@.len() == i,
            r@[0] == 0,
            r@[1] == 0xFF,
            r@[2] == 0xFF,
            r@[3] == 0xFF,
            forall|k: int| 4 <= k < i ==> r@[k] == 0,
        decreases 1 + teensy41::PACKET_SIZE - i,
    {
        r.push(0);
        i = i + 1;
    }
    r
}

/// The total write budget for one block report, in milliseconds: the
/// first five blocks trigger a bulk erase on the device and get the
/// long budget, later blocks the short one.
pub fn block_write_timeout_ms(write_index: usize) -> (r: u64)
    ensures
        r == if write_index <= 4 {
            45_000u64
        } else {
            500u64
        },
{
    if write_index <= 4 {
        45_000
    } else {
        500
    }
}

} // verus!
