use std::cell::RefCell;

use dio_align::{
    fetch, DirectInfo, Error, ErrorKind, Request, Resolver, Response, Step, Strategy,
};

const ENOENT: i32 = 2;
const ENOTTY: i32 = 25;
const EACCES: i32 = 13;

fn b(s: &str) -> Vec<u8> {
    s.as_bytes().to_vec()
}

fn content(s: &str) -> Response {
    Response::Content { data: b(s) }
}

fn probe(file: &str) -> Request {
    Request::Exists { file: b(file) }
}

fn read(file: &str) -> Request {
    Request::Read { file: b(file), limit: 64 }
}

/// Runs a resolution against `system` and gives its end with the calls it
/// asked for.
fn resolve(strategy: Strategy, mut system: impl FnMut(&Request) -> Response) -> (Step, Vec<Request>) {
    let mut asked = Vec::new();
    let (mut resolver, mut step) = Resolver::new(strategy);
    for _ in 0..10_000 {
        let request = match step {
            Step::Ask(request) => request,
            end => return (end, asked),
        };
        let response = system(&request);
        asked.push(request);
        (resolver, step) = resolver.step(response);
    }
    panic!("the resolution did not end");
}

/// Feeds `answers` to a resolution in order and gives the step after the
/// last.
fn feed(strategy: Strategy, answers: Vec<Response>) -> Step {
    let (mut resolver, mut step) = Resolver::new(strategy);
    for answer in answers {
        (resolver, step) = resolver.step(answer);
    }
    step
}

/// A machine with one disk `vda` and a partition `vda1` that holds `/tmp`.
fn partitioned(request: &Request) -> Response {
    match request {
        Request::OpenTarget | Request::OpenDirectory { .. } => Response::Opened,
        Request::LogicalSize | Request::PhysicalSize => Response::Failed { code: ENOTTY },
        Request::Canonicalize => Response::Path { path: b("/tmp/data.bin") },
        Request::Status { dio_align, .. } => Response::Status {
            mask: if *dio_align { 0x2000 } else { 0x07ff },
            mem_align: if *dio_align { 4 } else { 0 },
            offset_align: if *dio_align { 512 } else { 0 },
            major: 254,
            minor: 1,
        },
        Request::CanonicalizeDevice { .. } => {
            Response::Path { path: b("/sys/devices/pci0000:00/virtio1/block/vda/vda1") }
        }
        Request::Exists { file } => Response::Exists {
            found: file.starts_with(b"/sys/devices/pci0000:00/virtio1/block/vda/queue/"),
        },
        Request::Read { file, .. } => {
            if file.ends_with(b"/logical_block_size") {
                content("512\n")
            } else {
                content("4096\n")
            }
        }
        _ => Response::Failed { code: ENOENT },
    }
}

#[test]
fn legacy_block_device_answers_for_itself() {
    let (end, asked) = resolve(Strategy::Legacy, |request| match request {
        Request::OpenTarget => Response::Opened,
        Request::LogicalSize => Response::Size { bytes: 512 },
        Request::PhysicalSize => Response::Size { bytes: 4096 },
        _ => Response::Failed { code: ENOENT },
    });
    assert_eq!(end, Step::Done(DirectInfo::new(None, 512, 4096)));
    assert_eq!(asked, vec![Request::OpenTarget, Request::LogicalSize, Request::PhysicalSize]);
}

#[test]
fn legacy_block_device_without_physical_size_reuses_the_logical() {
    let (end, asked) = resolve(Strategy::Legacy, |request| match request {
        Request::OpenTarget => Response::Opened,
        Request::LogicalSize => Response::Size { bytes: 4096 },
        _ => Response::Failed { code: ENOTTY },
    });
    assert_eq!(end, Step::Done(DirectInfo::new(None, 4096, 4096)));
    assert_eq!(asked.len(), 3);
}

#[test]
fn legacy_path_that_cannot_be_opened_fails_with_the_code() {
    let (end, asked) = resolve(Strategy::Legacy, |_| Response::Failed { code: ENOENT });
    assert_eq!(end, Step::Fail(Error::Os { code: ENOENT }));
    assert_eq!(asked, vec![Request::OpenTarget]);
}

#[test]
fn legacy_regular_file_is_resolved_through_its_disk() {
    let (end, asked) = resolve(Strategy::Legacy, partitioned);
    assert_eq!(end, Step::Done(DirectInfo::new(None, 512, 4096)));
    assert_eq!(
        asked,
        vec![
            Request::OpenTarget,
            Request::LogicalSize,
            Request::Canonicalize,
            Request::OpenDirectory { dir: b("/tmp") },
            Request::Status { dir: b("/tmp"), name: b("data.bin"), dio_align: false },
            Request::CanonicalizeDevice { entry: b("/sys/dev/block/254:1") },
            probe("/sys/devices/pci0000:00/virtio1/block/vda/vda1/queue/logical_block_size"),
            probe("/sys/devices/pci0000:00/virtio1/block/vda/queue/logical_block_size"),
            read("/sys/devices/pci0000:00/virtio1/block/vda/queue/logical_block_size"),
            read("/sys/devices/pci0000:00/virtio1/block/vda/queue/physical_block_size"),
        ]
    );
}

#[test]
fn dio_align_takes_alignment_from_the_status_and_physical_from_the_disk() {
    let (end, asked) = resolve(Strategy::DioAlign, partitioned);
    assert_eq!(end, Step::Done(DirectInfo::new(Some(4), 512, 4096)));
    assert_eq!(
        asked,
        vec![
            Request::Canonicalize,
            Request::OpenDirectory { dir: b("/tmp") },
            Request::Status { dir: b("/tmp"), name: b("data.bin"), dio_align: true },
            Request::CanonicalizeDevice { entry: b("/sys/dev/block/254:1") },
            probe("/sys/devices/pci0000:00/virtio1/block/vda/vda1/queue/physical_block_size"),
            probe("/sys/devices/pci0000:00/virtio1/block/vda/queue/physical_block_size"),
            read("/sys/devices/pci0000:00/virtio1/block/vda/queue/physical_block_size"),
        ]
    );
}

#[test]
fn direct_info_of_a_file_on_a_partition() {
    for strategy in [Strategy::Legacy, Strategy::DioAlign] {
        let (end, _) = resolve(strategy, partitioned);
        let info = match end {
            Step::Done(info) => info,
            other => panic!("the resolution failed: {:?}", other),
        };
        println!(
            "logical: {}, physical: {}",
            info.logical_block_size(),
            info.physical_block_size()
        );
        assert!(info.logical_block_size().is_power_of_two());
        assert!(info.physical_block_size().is_power_of_two());
        assert!(info.physical_block_size() % 2 == 0);
        assert!(info.logical_block_size() == 512 || info.logical_block_size() == 4096);
        assert!(info.physical_block_size() >= info.logical_block_size());
        match strategy {
            Strategy::DioAlign => assert!(info.mem_align().unwrap().is_power_of_two()),
            _ => assert_eq!(info.mem_align(), None),
        }
    }
}

fn status(mask: u32, mem_align: u32, offset_align: u32) -> Step {
    feed(
        Strategy::DioAlign,
        vec![
            Response::Path { path: b("/tmp/data.bin") },
            Response::Opened,
            Response::Status { mask, mem_align, offset_align, major: 8, minor: 0 },
        ],
    )
}

#[test]
fn status_counts_only_with_the_alignment_bit_set() {
    let proceeds = Step::Ask(Request::CanonicalizeDevice { entry: b("/sys/dev/block/8:0") });
    assert_eq!(status(0x2000, 4, 512), proceeds);
    assert_eq!(status(0x27ff, 4, 512), proceeds);
    assert_eq!(status(u32::MAX, 1, 1), proceeds);
    assert_eq!(status(0, 4, 512), Step::Fail(Error::DioAlignUnsupported));
    assert_eq!(status(0x07ff, 4, 512), Step::Fail(Error::DioAlignUnsupported));
    assert_eq!(status(0x1000, 4, 512), Step::Fail(Error::DioAlignUnsupported));
    assert_eq!(status(0x4000, 4, 512), Step::Fail(Error::DioAlignUnsupported));
    assert_eq!(status(!0x2000, 4, 512), Step::Fail(Error::DioAlignUnsupported));
}

#[test]
fn status_counts_only_with_both_alignments_positive() {
    assert_eq!(status(0x2000, 0, 512), Step::Fail(Error::DioAlignUnsupported));
    assert_eq!(status(0x2000, 4, 0), Step::Fail(Error::DioAlignUnsupported));
    assert_eq!(status(0x2000, 0, 0), Step::Fail(Error::DioAlignUnsupported));
    assert_eq!(Error::DioAlignUnsupported.kind(), ErrorKind::Unsupported);
}

#[test]
fn legacy_ignores_the_alignment_fields_of_the_status() {
    let step = feed(
        Strategy::Legacy,
        vec![
            Response::Opened,
            Response::Failed { code: ENOTTY },
            Response::Path { path: b("/tmp/data.bin") },
            Response::Opened,
            Response::Status { mask: 0, mem_align: 0, offset_align: 0, major: 7, minor: 3 },
        ],
    );
    assert_eq!(step, Step::Ask(Request::CanonicalizeDevice { entry: b("/sys/dev/block/7:3") }));
}

#[test]
fn root_has_no_parent() {
    let step = feed(Strategy::DioAlign, vec![Response::Path { path: b("/") }]);
    assert_eq!(step, Step::Fail(Error::NoParent));
    assert_eq!(Error::NoParent.kind(), ErrorKind::InvalidInput);
}

#[test]
fn path_that_ends_in_a_separator_has_no_file_name() {
    let after_path = feed(Strategy::DioAlign, vec![Response::Path { path: b("/a/") }]);
    assert_eq!(after_path, Step::Ask(Request::OpenDirectory { dir: b("/a") }));
    let step = feed(Strategy::DioAlign, vec![Response::Path { path: b("/a/") }, Response::Opened]);
    assert_eq!(step, Step::Fail(Error::NoFileName));
}

#[test]
fn failed_calls_of_the_locator_end_the_resolution() {
    let canonicalize = feed(Strategy::DioAlign, vec![Response::Failed { code: ENOENT }]);
    assert_eq!(canonicalize, Step::Fail(Error::Os { code: ENOENT }));
    let open_parent = feed(
        Strategy::DioAlign,
        vec![Response::Path { path: b("/tmp/x") }, Response::Failed { code: EACCES }],
    );
    assert_eq!(open_parent, Step::Fail(Error::Os { code: EACCES }));
    let stat = feed(
        Strategy::DioAlign,
        vec![Response::Path { path: b("/tmp/x") }, Response::Opened, Response::Failed { code: 5 }],
    );
    assert_eq!(stat, Step::Fail(Error::Os { code: 5 }));
    let device = feed(
        Strategy::DioAlign,
        vec![
            Response::Path { path: b("/tmp/x") },
            Response::Opened,
            Response::Status { mask: 0x2000, mem_align: 1, offset_align: 1, major: 0, minor: 40 },
            Response::Failed { code: ENOENT },
        ],
    );
    assert_eq!(device, Step::Fail(Error::Os { code: ENOENT }));
}

/// A hierarchy `/d1/d2/../dN` that the device entry resolves to, with the
/// attribute file under the directories listed in `holders`.
fn hierarchy(levels: usize, holders: Vec<usize>) -> impl FnMut(&Request) -> Response {
    let dir = |n: usize| -> String { (1..=n).map(|i| format!("/d{}", i)).collect() };
    let bottom = dir(levels);
    let files: Vec<Vec<u8>> =
        holders.iter().map(|&n| b(&format!("{}/queue/physical_block_size", dir(n)))).collect();
    move |request| match request {
        Request::Canonicalize => Response::Path { path: b("/tmp/data.bin") },
        Request::OpenDirectory { .. } => Response::Opened,
        Request::Status { .. } => {
            Response::Status { mask: 0x2000, mem_align: 8, offset_align: 512, major: 1, minor: 2 }
        }
        Request::CanonicalizeDevice { .. } => Response::Path { path: b(&bottom) },
        Request::Exists { file } => Response::Exists { found: files.contains(file) },
        Request::Read { .. } => content("1024"),
        _ => Response::Failed { code: ENOENT },
    }
}

fn probes(asked: &[Request]) -> usize {
    asked.iter().filter(|r| matches!(r, Request::Exists { .. })).count()
}

#[test]
fn walk_climbs_to_the_only_holder_of_the_attribute() {
    for levels in 1..=12 {
        let (end, asked) = resolve(Strategy::DioAlign, hierarchy(levels, vec![1]));
        assert_eq!(end, Step::Done(DirectInfo::new(Some(8), 512, 1024)));
        assert_eq!(probes(&asked), levels);
        assert_eq!(asked.last(), Some(&read("/d1/queue/physical_block_size")));
    }
}

#[test]
fn walk_stops_at_the_nearest_holder() {
    let (end, asked) = resolve(Strategy::DioAlign, hierarchy(6, vec![1, 3, 4]));
    assert_eq!(end, Step::Done(DirectInfo::new(Some(8), 512, 1024)));
    assert_eq!(probes(&asked), 3);
    assert_eq!(asked.last(), Some(&read("/d1/d2/d3/d4/queue/physical_block_size")));
    let (_, at_once) = resolve(Strategy::DioAlign, hierarchy(6, vec![6]));
    assert_eq!(probes(&at_once), 1);
}

#[test]
fn walk_without_any_attribute_gives_up() {
    for levels in 1..=12 {
        let (end, asked) = resolve(Strategy::DioAlign, hierarchy(levels, vec![]));
        assert_eq!(end, Step::Fail(Error::QueueNotFound));
        assert_eq!(probes(&asked), levels);
    }
    assert_eq!(Error::QueueNotFound.kind(), ErrorKind::Unsupported);
}

#[test]
fn walk_does_not_go_up_into_block() {
    let system = |request: &Request| match request {
        Request::CanonicalizeDevice { .. } => {
            Response::Path { path: b("/sys/devices/virtual/block/loop0") }
        }
        Request::Exists { file } => Response::Exists {
            found: file.starts_with(b"/sys/devices/virtual/block/queue/")
                || file.starts_with(b"/sys/devices/virtual/queue/"),
        },
        other => partitioned(other),
    };
    let (end, asked) = resolve(Strategy::Legacy, system);
    assert_eq!(end, Step::Fail(Error::QueueNotFound));
    assert_eq!(probes(&asked), 1);
    let (end, asked) = resolve(Strategy::DioAlign, system);
    assert_eq!(end, Step::Fail(Error::QueueNotFound));
    assert_eq!(probes(&asked), 1);
}

#[test]
fn legacy_needs_a_readable_logical_size() {
    let garbled = |request: &Request| match request {
        Request::Read { file, .. } if file.ends_with(b"/logical_block_size") => content("abc"),
        other => partitioned(other),
    };
    assert_eq!(resolve(Strategy::Legacy, garbled).0, Step::Fail(Error::NotANumber));
    let binary = |request: &Request| match request {
        Request::Read { file, .. } if file.ends_with(b"/logical_block_size") => {
            Response::Content { data: vec![0xFF, 0xFE] }
        }
        other => partitioned(other),
    };
    assert_eq!(resolve(Strategy::Legacy, binary).0, Step::Fail(Error::NotUtf8));
    let unreadable = |request: &Request| match request {
        Request::Read { file, .. } if file.ends_with(b"/logical_block_size") => {
            Response::Failed { code: EACCES }
        }
        other => partitioned(other),
    };
    assert_eq!(resolve(Strategy::Legacy, unreadable).0, Step::Fail(Error::Os { code: EACCES }));
}

#[test]
fn physical_size_that_cannot_be_read_is_the_logical() {
    for bad in [content("abc"), content(""), Response::Content { data: vec![0xC0] },
        Response::Failed { code: ENOENT }, content("4294967296")]
    {
        let system = |request: &Request| match request {
            Request::Read { file, .. } if file.ends_with(b"/physical_block_size") => bad.clone(),
            other => partitioned(other),
        };
        assert_eq!(
            resolve(Strategy::Legacy, system).0,
            Step::Done(DirectInfo::new(None, 512, 512))
        );
        assert_eq!(
            resolve(Strategy::DioAlign, system).0,
            Step::Done(DirectInfo::new(Some(4), 512, 512))
        );
    }
}

#[test]
fn only_the_first_bytes_of_an_attribute_file_count() {
    let long = |text: String| {
        move |request: &Request| match request {
            Request::Read { file, .. } if file.ends_with(b"/physical_block_size") => {
                content(&text)
            }
            other => partitioned(other),
        }
    };
    let padded = format!("{}{}", "0".repeat(60), "4096");
    assert_eq!(
        resolve(Strategy::Legacy, long(padded)).0,
        Step::Done(DirectInfo::new(None, 512, 4096))
    );
    let cut = format!("{}{}", "0".repeat(61), "4096");
    assert_eq!(
        resolve(Strategy::Legacy, long(cut)).0,
        Step::Done(DirectInfo::new(None, 512, 409))
    );
    let tail = format!("{}{}", "8".repeat(2), " ".repeat(62)) + "x";
    assert_eq!(
        resolve(Strategy::Legacy, long(tail)).0,
        Step::Done(DirectInfo::new(None, 512, 88))
    );
    let split = format!("{}{}", "7".repeat(63), "\u{a0}");
    assert_eq!(
        resolve(Strategy::Legacy, long(split)).0,
        Step::Done(DirectInfo::new(None, 512, 512))
    );
}

#[test]
fn apple_statistics_hold_both_sizes() {
    let (end, asked) = resolve(Strategy::Apple, |_| Response::Statistics {
        block_size: 4096,
        io_size: 1_048_576,
    });
    assert_eq!(end, Step::Done(DirectInfo::new(None, 4096, 1_048_576)));
    assert_eq!(asked, vec![Request::FilesystemStatistics]);
    let negative =
        feed(Strategy::Apple, vec![Response::Statistics { block_size: 512, io_size: -1 }]);
    assert_eq!(negative, Step::Done(DirectInfo::new(None, 512, u32::MAX)));
    let lowest =
        feed(Strategy::Apple, vec![Response::Statistics { block_size: 512, io_size: i32::MIN }]);
    assert_eq!(lowest, Step::Done(DirectInfo::new(None, 512, 0x8000_0000)));
    let failed = feed(Strategy::Apple, vec![Response::Failed { code: ENOENT }]);
    assert_eq!(failed, Step::Fail(Error::Os { code: ENOENT }));
}

fn wide(s: &str) -> Vec<u16> {
    s.encode_utf16().collect()
}

fn wide_z(s: &str) -> Vec<u16> {
    let mut w = wide(s);
    w.push(0);
    w
}

fn buffer(s: &str, capacity: usize) -> Response {
    let mut units = wide(s);
    units.resize(capacity, 0);
    Response::Wide { units }
}

fn windows(request: &Request) -> Response {
    match request {
        Request::VolumePath { capacity } => buffer(r"C:\", *capacity as usize),
        Request::FreeSpace { .. } => Response::Size { bytes: 512 },
        Request::VolumeName { capacity, .. } => {
            buffer(r"\\?\Volume{01234567-89ab-cdef-0123-456789abcdef}\", *capacity as usize)
        }
        Request::OpenVolume { .. } => Response::Opened,
        Request::AccessAlignment => Response::Size { bytes: 4096 },
        _ => Response::Failed { code: 1 },
    }
}

#[test]
fn windows_volume_and_device_give_the_two_sizes() {
    let (end, asked) = resolve(Strategy::Windows, windows);
    assert_eq!(end, Step::Done(DirectInfo::new(None, 512, 4096)));
    assert_eq!(
        asked,
        vec![
            Request::VolumePath { capacity: 260 },
            Request::FreeSpace { volume: wide_z(r"C:\") },
            Request::VolumeName { volume: wide_z(r"C:\"), capacity: 260 },
            Request::OpenVolume {
                device: wide_z(r"\\.\Volume{01234567-89ab-cdef-0123-456789abcdef}")
            },
            Request::AccessAlignment,
        ]
    );
}

#[test]
fn windows_buffer_that_is_too_small_is_doubled() {
    let system = |request: &Request| match request {
        Request::VolumePath { capacity } if *capacity < 1040 => Response::Failed { code: 234 },
        Request::VolumeName { capacity, .. } if *capacity < 520 => Response::Failed { code: 234 },
        other => windows(other),
    };
    let (end, asked) = resolve(Strategy::Windows, system);
    assert_eq!(end, Step::Done(DirectInfo::new(None, 512, 4096)));
    let capacities: Vec<u32> = asked
        .iter()
        .filter_map(|r| match r {
            Request::VolumePath { capacity } | Request::VolumeName { capacity, .. } => {
                Some(*capacity)
            }
            _ => None,
        })
        .collect();
    assert_eq!(capacities, vec![260, 520, 1040, 260, 520]);
}

#[test]
fn windows_buffer_cannot_grow_for_ever() {
    let (end, asked) = resolve(Strategy::Windows, |_| Response::Failed { code: 234 });
    assert_eq!(end, Step::Fail(Error::Os { code: 234 }));
    assert_eq!(asked.len(), 24);
    assert_eq!(asked.last(), Some(&Request::VolumePath { capacity: 260 << 23 }));
    let system = |request: &Request| match request {
        Request::VolumeName { .. } => Response::Failed { code: 234 },
        other => windows(other),
    };
    let (end, asked) = resolve(Strategy::Windows, system);
    assert_eq!(end, Step::Done(DirectInfo::new(None, 512, 512)));
    assert_eq!(asked.len(), 2 + 24);
}

#[test]
fn windows_logical_size_is_owed() {
    let no_volume = feed(Strategy::Windows, vec![Response::Failed { code: 3 }]);
    assert_eq!(no_volume, Step::Fail(Error::Os { code: 3 }));
    let no_space =
        feed(Strategy::Windows, vec![buffer(r"C:\", 260), Response::Failed { code: 5 }]);
    assert_eq!(no_space, Step::Fail(Error::Os { code: 5 }));
}

#[test]
fn windows_physical_size_degrades_to_the_logical() {
    let reuse = Step::Done(DirectInfo::new(None, 512, 512));
    let start = || vec![buffer(r"C:\", 260), Response::Size { bytes: 512 }];
    let mut no_name = start();
    no_name.push(Response::Failed { code: 1 });
    assert_eq!(feed(Strategy::Windows, no_name), reuse);
    let mut odd_name = start();
    odd_name.push(buffer(r"\\server\share\", 260));
    assert_eq!(feed(Strategy::Windows, odd_name), reuse);
    let mut locked = start();
    locked.extend([buffer(r"C:\", 260), Response::Failed { code: 5 }]);
    assert_eq!(feed(Strategy::Windows, locked), reuse);
    let mut no_property = start();
    no_property.extend([buffer(r"C:\", 260), Response::Opened, Response::Failed { code: 1 }]);
    assert_eq!(feed(Strategy::Windows, no_property), reuse);
    let mut zero = start();
    zero.extend([buffer(r"C:\", 260), Response::Opened, Response::Size { bytes: 0 }]);
    assert_eq!(feed(Strategy::Windows, zero), reuse);
    let mut odd = start();
    odd.extend([buffer(r"C:\", 260), Response::Opened, Response::Size { bytes: 520 }]);
    assert_eq!(feed(Strategy::Windows, odd), Step::Done(DirectInfo::new(None, 512, 520)));
}

#[test]
fn windows_drive_letter_names_its_device() {
    let step =
        feed(Strategy::Windows, vec![buffer(r"D:\", 260), Response::Size { bytes: 4096 }, buffer(r"D:\", 260)]);
    assert_eq!(step, Step::Ask(Request::OpenVolume { device: wide_z(r"\\.\D:") }));
}

#[test]
fn answer_of_the_wrong_sort_ends_the_resolution() {
    for strategy in [Strategy::Legacy, Strategy::DioAlign, Strategy::Apple, Strategy::Windows] {
        let step = feed(strategy, vec![Response::Exists { found: true }]);
        assert_eq!(step, Step::Fail(Error::UnexpectedAnswer));
    }
    let probing = vec![
        Response::Path { path: b("/tmp/x") },
        Response::Opened,
        Response::Status { mask: 0x2000, mem_align: 1, offset_align: 1, major: 0, minor: 40 },
        Response::Path { path: b("/sys/devices/virtual/block/loop0") },
    ];
    let mut failed_probe = probing.clone();
    failed_probe.push(Response::Failed { code: ENOENT });
    assert_eq!(feed(Strategy::DioAlign, failed_probe), Step::Fail(Error::UnexpectedAnswer));
    assert_eq!(Error::UnexpectedAnswer.kind(), ErrorKind::InvalidInput);
}

#[test]
fn ended_resolution_takes_no_further_answer() {
    let (resolver, step) = Resolver::new(Strategy::Apple);
    assert_eq!(step, Step::Ask(Request::FilesystemStatistics));
    let (resolver, step) = resolver.step(Response::Statistics { block_size: 512, io_size: 512 });
    assert_eq!(step, Step::Done(DirectInfo::new(None, 512, 512)));
    let (resolver, step) = resolver.step(Response::Statistics { block_size: 512, io_size: 512 });
    assert_eq!(step, Step::Fail(Error::UnexpectedAnswer));
    let (_, step) = resolver.step(Response::Opened);
    assert_eq!(step, Step::Fail(Error::UnexpectedAnswer));
}

#[test]
fn memory_alignment_is_there_under_dio_align_only() {
    assert_eq!(resolve(Strategy::DioAlign, partitioned).0, Step::Done(DirectInfo::new(Some(4), 512, 4096)));
    for (strategy, system) in [
        (Strategy::Legacy, partitioned as fn(&Request) -> Response),
        (Strategy::Windows, windows as fn(&Request) -> Response),
    ] {
        match resolve(strategy, system).0 {
            Step::Done(info) => assert_eq!(info.mem_align(), None),
            other => panic!("the resolution failed: {:?}", other),
        }
    }
}

#[test]
fn same_answers_give_the_same_resolution() {
    for strategy in [Strategy::Legacy, Strategy::DioAlign] {
        let first = resolve(strategy, partitioned);
        let second = resolve(strategy, partitioned);
        assert_eq!(first, second);
    }
    assert_eq!(resolve(Strategy::Windows, windows), resolve(Strategy::Windows, windows));
}

#[test]
fn fetch_runs_a_resolution_to_its_end() {
    assert_eq!(fetch(Strategy::Legacy, partitioned), Ok(DirectInfo::new(None, 512, 4096)));
    assert_eq!(fetch(Strategy::DioAlign, partitioned), Ok(DirectInfo::new(Some(4), 512, 4096)));
    assert_eq!(fetch(Strategy::Windows, windows), Ok(DirectInfo::new(None, 512, 4096)));
    assert_eq!(
        fetch(Strategy::Apple, |_| Response::Statistics { block_size: 4096, io_size: 4096 }),
        Ok(DirectInfo::new(None, 4096, 4096))
    );
    assert_eq!(
        fetch(Strategy::Legacy, |_| Response::Failed { code: EACCES }),
        Err(Error::Os { code: EACCES })
    );
    assert_eq!(fetch(Strategy::DioAlign, windows), Err(Error::Os { code: 1 }));
    assert_eq!(fetch(Strategy::Apple, |_| Response::Opened), Err(Error::UnexpectedAnswer));
}

#[test]
fn fetch_asks_what_the_resolver_asks() {
    for strategy in [Strategy::Legacy, Strategy::DioAlign, Strategy::Windows, Strategy::Apple] {
        for system in [partitioned as fn(&Request) -> Response, windows] {
            let asked = RefCell::new(Vec::new());
            let result = fetch(strategy, |request: &Request| {
                asked.borrow_mut().push(request.clone());
                system(request)
            });
            let (end, expected) = resolve(strategy, system);
            assert_eq!(asked.into_inner(), expected);
            match result {
                Ok(info) => assert_eq!(end, Step::Done(info)),
                Err(error) => assert_eq!(end, Step::Fail(error)),
            }
        }
    }
}

#[test]
fn fetch_ends_whatever_the_system_answers() {
    let answers = [
        Response::Opened,
        Response::Failed { code: 234 },
        Response::Exists { found: false },
        Response::Exists { found: true },
        Response::Size { bytes: 0 },
        Response::Path { path: b("/a/b/c/d/e/f/g/h") },
        Response::Content { data: b("512") },
        Response::Wide { units: wide_z(r"C:\") },
        Response::Status { mask: 0x2000, mem_align: 4, offset_align: 512, major: 8, minor: 1 },
    ];
    for strategy in [Strategy::Legacy, Strategy::DioAlign, Strategy::Windows, Strategy::Apple] {
        for seed in 0..200usize {
            let turn = RefCell::new(seed);
            let result = fetch(strategy, |_| {
                let mut turn = turn.borrow_mut();
                *turn = turn.wrapping_mul(31).wrapping_add(7);
                answers[*turn % answers.len()].clone()
            });
            match (strategy, result) {
                (Strategy::DioAlign, Ok(info)) => assert!(info.mem_align().unwrap() > 0),
                (_, Ok(info)) => assert_eq!(info.mem_align(), None),
                (_, Err(_)) => {}
            }
        }
    }
}
