//! What a resolution asks of the operating system, and what it takes as an
//! answer.
//!
//! The resolver never calls the operating system. It hands out a
//! [`Request`]; whoever drives it performs the call and hands back the
//! [`Response`].

use crate::error::Error;
use crate::info::{DirectInfo, Measurements};
use vstd::prelude::*;

verus! {

/// One call to the operating system.
#[derive(Debug, Clone, PartialEq, Eq)]
pub enum Request {
    /// Open the path read-only. Answered by `Opened`.
    OpenTarget,
    /// Ask the opened path, as a block device, for its logical block size.
    /// Answered by `Size`.
    LogicalSize,
    /// Ask the opened path, as a block device, for its physical block size.
    /// Answered by `Size`.
    PhysicalSize,
    /// Resolve the path to its canonical form. Answered by `Path`.
    Canonicalize,
    /// Open the directory `dir` read-only. Answered by `Opened`.
    OpenDirectory { dir: Vec<u8> },
    /// Query the extended status of the entry `name` of the opened directory
    /// `dir`, with the direct I/O alignment where `dio_align` is set, with
    /// the basic fields where not. Answered by `Status`.
    Status { dir: Vec<u8>, name: Vec<u8>, dio_align: bool },
    /// Resolve the entry of a device in the list of block devices to its
    /// canonical form. Answered by `Path`.
    CanonicalizeDevice { entry: Vec<u8> },
    /// Tell whether `file` exists. Answered by `Exists`.
    Exists { file: Vec<u8> },
    /// Open `file` read-only and read its first bytes, `limit` at most.
    /// Answered by `Content`.
    Read { file: Vec<u8>, limit: usize },
    /// Query the statistics of the filesystem that holds the path. Answered
    /// by `Statistics`.
    FilesystemStatistics,
    /// Find the mount point of the volume that holds the path, with a buffer
    /// of `capacity` units. Answered by `Wide`, the buffer as the call filled
    /// it.
    VolumePath { capacity: u32 },
    /// Query the free space of the volume mounted at `volume`. Answered by
    /// `Size`, the bytes per sector.
    FreeSpace { volume: Vec<u16> },
    /// Find the name of the volume mounted at `volume`, with a buffer of
    /// `capacity` units. Answered by `Wide`, the buffer as the call filled
    /// it.
    VolumeName { volume: Vec<u16>, capacity: u32 },
    /// Open the device `device` for shared reading. Answered by `Opened`.
    OpenVolume { device: Vec<u16> },
    /// Query the access alignment of the opened device. Answered by `Size`,
    /// the bytes per physical sector.
    AccessAlignment,
}

/// A [`Request`] as contracts see it.
pub enum RequestView {
    OpenTarget,
    LogicalSize,
    PhysicalSize,
    Canonicalize,
    OpenDirectory { dir: Seq<u8> },
    Status { dir: Seq<u8>, name: Seq<u8>, dio_align: bool },
    CanonicalizeDevice { entry: Seq<u8> },
    Exists { file: Seq<u8> },
    Read { file: Seq<u8>, limit: usize },
    FilesystemStatistics,
    VolumePath { capacity: u32 },
    FreeSpace { volume: Seq<u16> },
    VolumeName { volume: Seq<u16>, capacity: u32 },
    OpenVolume { device: Seq<u16> },
    AccessAlignment,
}

impl View for Request {
    type V = RequestView;

    open spec fn view(&self) -> RequestView {
        match *self {
            Request::OpenTarget => RequestView::OpenTarget,
            Request::LogicalSize => RequestView::LogicalSize,
            Request::PhysicalSize => RequestView::PhysicalSize,
            Request::Canonicalize => RequestView::Canonicalize,
            Request::OpenDirectory { dir } => RequestView::OpenDirectory { dir: dir@ },
            Request::Status { dir, name, dio_align } => RequestView::Status {
                dir: dir@,
                name: name@,
                dio_align,
            },
            Request::CanonicalizeDevice { entry } => RequestView::CanonicalizeDevice {
                entry: entry@,
            },
            Request::Exists { file } => RequestView::Exists { file: file@ },
            Request::Read { file, limit } => RequestView::Read { file: file@, limit },
            Request::FilesystemStatistics => RequestView::FilesystemStatistics,
            Request::VolumePath { capacity } => RequestView::VolumePath { capacity },
            Request::FreeSpace { volume } => RequestView::FreeSpace { volume: volume@ },
            Request::VolumeName { volume, capacity } => RequestView::VolumeName {
                volume: volume@,
                capacity,
            },
            Request::OpenVolume { device } => RequestView::OpenVolume { device: device@ },
            Request::AccessAlignment => RequestView::AccessAlignment,
        }
    }
}

/// What the operating system answered.
#[derive(Debug, Clone, PartialEq, Eq)]
pub enum Response {
    /// The call failed with this raw error code.
    Failed { code: i32 },
    /// The file, directory or device is open.
    Opened,
    /// A size in bytes.
    Size { bytes: u32 },
    /// A canonical path.
    Path { path: Vec<u8> },
    /// The extended status of an entry: the mask of the fields that were
    /// filled, the two alignments for direct I/O, and the numbers of the
    /// device that holds the entry.
    Status { mask: u32, mem_align: u32, offset_align: u32, major: u32, minor: u32 },
    /// Whether the file exists.
    Exists { found: bool },
    /// The first bytes of a file.
    Content { data: Vec<u8> },
    /// The statistics of a filesystem: its block size and the size of an
    /// optimal transfer.
    Statistics { block_size: u32, io_size: i32 },
    /// A buffer of wide characters.
    Wide { units: Vec<u16> },
}

/// A [`Response`] as contracts see it.
pub enum ResponseView {
    Failed { code: i32 },
    Opened,
    Size { bytes: u32 },
    Path { path: Seq<u8> },
    Status { mask: u32, mem_align: u32, offset_align: u32, major: u32, minor: u32 },
    Exists { found: bool },
    Content { data: Seq<u8> },
    Statistics { block_size: u32, io_size: i32 },
    Wide { units: Seq<u16> },
}

impl View for Response {
    type V = ResponseView;

    open spec fn view(&self) -> ResponseView {
        match *self {
            Response::Failed { code } => ResponseView::Failed { code },
            Response::Opened => ResponseView::Opened,
            Response::Size { bytes } => ResponseView::Size { bytes },
            Response::Path { path } => ResponseView::Path { path: path@ },
            Response::Status { mask, mem_align, offset_align, major, minor } => {
                ResponseView::Status { mask, mem_align, offset_align, major, minor }
            },
            Response::Exists { found } => ResponseView::Exists { found },
            Response::Content { data } => ResponseView::Content { data: data@ },
            Response::Statistics { block_size, io_size } => ResponseView::Statistics {
                block_size,
                io_size,
            },
            Response::Wide { units } => ResponseView::Wide { units: units@ },
        }
    }
}

/// What the resolver does next: ask, or end.
#[derive(Debug, Clone, PartialEq, Eq)]
pub enum Step {
    /// Perform this call and hand back its answer.
    Ask(Request),
    /// The resolution is done.
    Done(DirectInfo),
    /// The resolution failed.
    Fail(Error),
}

/// A [`Step`] as contracts see it.
pub enum StepView {
    Ask(RequestView),
    Done(Measurements),
    Fail(Error),
}

impl View for Step {
    type V = StepView;

    open spec fn view(&self) -> StepView {
        match *self {
            Step::Ask(request) => StepView::Ask(request@),
            Step::Done(info) => StepView::Done(info@),
            Step::Fail(error) => StepView::Fail(error),
        }
    }
}

} // verus!
