use bulldog::apic::{
    apic_id_of, lapic_enabled, lapic_phys_base, msr_value, send_eoi, setup_apic, LapicRegister,
    LapicTimer, LapicWrite, LAPIC_VIRT_BASE,
};
use bulldog::elf::loader::{
    get_program_headers, load_segments, read_header, validate_elf_header, ElfError, Segment,
    SegmentFlags,
};
use bulldog::elf::types::{Elf64_Ehdr, Elf64_Phdr};
use bulldog::framebuffer::{boot_fb_info, pack_color, pixel_index, FbInfo, PixelFormat};
use bulldog::memory::{
    find_unused_frame, frame_containing, BootInfoFrameAllocator, EmptyFrameAllocator,
    FrameBitmap, MemoryRegion, PreHeapAllocator,
};
use bulldog::time::{get_ticks, health_check, tick, Ticks, Watchdog, WatchdogStatus};

fn good_header() -> Elf64_Ehdr {
    let mut ident = [0u8; 16];
    ident[..6].copy_from_slice(&[0x7f, b'E', b'L', b'F', 2, 1]);
    Elf64_Ehdr {
        e_ident: ident,
        e_type: 2,
        e_machine: 62,
        e_version: 1,
        e_entry: 0x40_0000,
        e_phoff: 64,
        e_shoff: 0,
        e_flags: 0,
        e_ehsize: 64,
        e_phentsize: 56,
        e_phnum: 2,
        e_shentsize: 0,
        e_shnum: 0,
        e_shstrndx: 0,
    }
}

#[test]
fn elf_header_checks_come_in_order() {
    assert_eq!(validate_elf_header(&good_header()), Ok(()));
    let mut h = good_header();
    h.e_ident[3] = b'X';
    h.e_ident[4] = 1;
    assert_eq!(validate_elf_header(&h), Err(ElfError::BadMagic));
    let mut h = good_header();
    h.e_ident[4] = 1;
    h.e_ident[5] = 2;
    assert_eq!(validate_elf_header(&h), Err(ElfError::BadClass));
    let mut h = good_header();
    h.e_ident[5] = 2;
    h.e_machine = 3;
    assert_eq!(validate_elf_header(&h), Err(ElfError::BadEndian));
    let mut h = good_header();
    h.e_machine = 3;
    h.e_type = 3;
    assert_eq!(validate_elf_header(&h), Err(ElfError::BadMachine));
    let mut h = good_header();
    h.e_type = 3;
    h.e_ehsize = 52;
    assert_eq!(validate_elf_header(&h), Err(ElfError::BadType));
    let mut h = good_header();
    h.e_ehsize = 52;
    h.e_phentsize = 32;
    assert_eq!(validate_elf_header(&h), Err(ElfError::BadHeaderSize));
    let mut h = good_header();
    h.e_phentsize = 32;
    assert_eq!(validate_elf_header(&h), Err(ElfError::BadPhSize));
}

fn phdr_bytes(p: &Elf64_Phdr) -> Vec<u8> {
    let mut v = Vec::new();
    v.extend_from_slice(&p.p_type.to_le_bytes());
    v.extend_from_slice(&p.p_flags.to_le_bytes());
    v.extend_from_slice(&p.p_offset.to_le_bytes());
    v.extend_from_slice(&p.p_vaddr.to_le_bytes());
    v.extend_from_slice(&p.p_paddr.to_le_bytes());
    v.extend_from_slice(&p.p_filesz.to_le_bytes());
    v.extend_from_slice(&p.p_memsz.to_le_bytes());
    v.extend_from_slice(&p.p_align.to_le_bytes());
    v
}

fn two_headers() -> (Elf64_Phdr, Elf64_Phdr) {
    (
        Elf64_Phdr {
            p_type: 1,
            p_flags: 5,
            p_offset: 0x100,
            p_vaddr: 0x40_0000,
            p_paddr: 0x40_0000,
            p_filesz: 0x20,
            p_memsz: 0x30,
            p_align: 0x1000,
        },
        Elf64_Phdr {
            p_type: 0x6474_e551,
            p_flags: 6,
            p_offset: 0xdead_beef_0000_0001,
            p_vaddr: 0x0123_4567_89ab_cdef,
            p_paddr: u64::MAX,
            p_filesz: 0,
            p_memsz: 0,
            p_align: 16,
        },
    )
}

#[test]
fn program_headers_are_parsed_little_endian() {
    let (a, b) = two_headers();
    let mut file = vec![0u8; 64];
    file.extend(phdr_bytes(&a));
    file.extend(phdr_bytes(&b));
    file.resize(0x200, 0);
    let hdr = good_header();
    assert_eq!(get_program_headers(&file, &hdr), Ok(vec![a, b]));
    let mut none = hdr;
    none.e_phnum = 0;
    assert_eq!(get_program_headers(&file, &none), Ok(vec![]));
    assert_eq!(get_program_headers(&file[..64 + 111], &hdr), Err(ElfError::PhOutOfBounds));
    assert_eq!(get_program_headers(&file[..64 + 112], &hdr), Ok(vec![a, b]));
    let mut far = hdr;
    far.e_phoff = u64::MAX - 10;
    assert_eq!(get_program_headers(&file, &far), Err(ElfError::PhOutOfBounds));
    let mut wide = hdr;
    wide.e_phentsize = 0x100;
    assert_eq!(get_program_headers(&file, &wide), Err(ElfError::PhOutOfBounds));
    let mut narrow = hdr;
    narrow.e_phentsize = 8;
    assert_eq!(get_program_headers(&file[..64 + 111], &narrow), Err(ElfError::PhOutOfBounds));
    assert_eq!(get_program_headers(&file, &narrow), Ok(vec![a, b]));
}

#[test]
fn segments_are_listed_for_loadable_headers() {
    let (a, b) = two_headers();
    let file = vec![0u8; 0x120];
    let hdr = good_header();
    let expected = Segment {
        vaddr: 0x40_0000,
        mem_size: 0x30,
        file_offset: 0x100,
        file_size: 0x20,
        flags: SegmentFlags { executable: true, writable: false, accessible: true },
    };
    assert_eq!(load_segments(&file, &hdr, &[a, b]), Ok(vec![expected]));
    assert_eq!(load_segments(&file, &hdr, &[b]), Ok(vec![]));
    assert_eq!(load_segments(&file, &hdr, &[]), Ok(vec![]));
    assert_eq!(load_segments(&file[..0x11f], &hdr, &[b, a]), Err(ElfError::PhOutOfBounds));
    let mut wraps = a;
    wraps.p_offset = u64::MAX;
    assert_eq!(load_segments(&file, &hdr, &[a, wraps]), Err(ElfError::PhOutOfBounds));
    let mut rw = a;
    rw.p_flags = 2;
    assert_eq!(
        load_segments(&file, &hdr, &[rw]).unwrap()[0].flags,
        SegmentFlags { executable: false, writable: true, accessible: false }
    );
}

#[test]
fn ticks_count_and_wrap() {
    let mut t = Ticks::new();
    assert_eq!(get_ticks(&t), 0);
    assert!(health_check(&t, 1000));
    tick(&mut t);
    tick(&mut t);
    assert_eq!(get_ticks(&t), 2);
    assert!(!health_check(&t, 1000));
    assert!(health_check(&t, 2));
    t.count = u64::MAX;
    tick(&mut t);
    assert_eq!(get_ticks(&t), 0);
}

#[test]
fn watchdog_waits_then_sees_progress() {
    let mut w = Watchdog::new(100, 5000, 3, 2);
    assert_eq!(w.check(100), WatchdogStatus::Waiting);
    assert_eq!(w.check(5099), WatchdogStatus::Waiting);
    assert_eq!(w.last_ticks, 100);
    assert_eq!(w.check(5100), WatchdogStatus::Progress);
    assert_eq!(w.last_ticks, 5100);
    assert_eq!(w.check(5100), WatchdogStatus::Waiting);
    let mut far = Watchdog::new(u64::MAX - 1, 5, 0, 1);
    assert_eq!(far.check(u64::MAX), WatchdogStatus::Waiting);
}

#[test]
fn watchdog_without_window_counts_stalls() {
    let mut w = Watchdog::new(7, 0, 2, 2);
    assert_eq!(w.check(7), WatchdogStatus::Grace);
    assert_eq!(w.check(7), WatchdogStatus::Grace);
    assert_eq!(w.grace_left, 0);
    assert_eq!(w.check(7), WatchdogStatus::Stalled);
    assert_eq!(w.consecutive_failures, 1);
    assert_eq!(w.check(8), WatchdogStatus::Progress);
    assert_eq!(w.consecutive_failures, 0);
    assert_eq!(w.check(8), WatchdogStatus::Stalled);
    assert_eq!(w.check(8), WatchdogStatus::Timeout);
    assert_eq!(w.consecutive_failures, 2);
    assert_eq!(w.check(8), WatchdogStatus::Timeout);
    w.consecutive_failures = u32::MAX;
    assert_eq!(w.check(8), WatchdogStatus::Timeout);
    assert_eq!(w.consecutive_failures, u32::MAX);
    let mut strict = Watchdog::new(0, 0, 0, 0);
    assert_eq!(strict.check(0), WatchdogStatus::Timeout);
}

#[test]
fn apic_registers_and_setup() {
    assert_eq!(LapicRegister::LVT_TIMER.offset(), 0x320);
    assert_eq!(LapicRegister::DIVIDE_CONFIG.offset(), 0x3E0);
    assert_eq!(LapicRegister::INITIAL_COUNT.offset(), 0x380);
    assert_eq!(LapicRegister::CURRENT_COUNT.offset(), 0x390);
    assert_eq!(LapicRegister::EOI.offset(), 0xB0);
    assert_eq!(LapicRegister::SVR.offset(), 0xF0);
    assert_eq!(LapicRegister::ID.offset(), 0x20);
    assert_eq!(LapicRegister::VERSION.offset(), 0x30);
    assert_eq!(LapicRegister::EOI.address(), LAPIC_VIRT_BASE + 0xB0);
    assert_eq!(LapicTimer::OneShot.bits(), 0);
    assert_eq!(LapicTimer::Periodic.bits(), 1 << 17);
    assert_eq!(LapicTimer::TscDeadline.bits(), 2 << 17);
    assert_eq!(msr_value(0xfee0_0900, 0), 0xfee0_0900);
    assert_eq!(msr_value(1, 2), 0x2_0000_0001);
    assert_eq!(apic_id_of(0x0500_1234), 5);
    assert_eq!(apic_id_of(0xff00_0000), 255);
    assert!(lapic_enabled(0xfee0_0900));
    assert!(!lapic_enabled(0xfee0_0100));
    assert_eq!(lapic_phys_base(0xfee0_0900), 0xfee0_0000);
    assert_eq!(lapic_phys_base(0x1_fee0_0900), 0xfee0_0000);
    assert_eq!(
        setup_apic(0xfee0_0900),
        vec![
            LapicWrite { reg: LapicRegister::SVR, value: 0x1FF },
            LapicWrite { reg: LapicRegister::DIVIDE_CONFIG, value: 3 },
            LapicWrite { reg: LapicRegister::LVT_TIMER, value: 0x31 | (1 << 17) },
            LapicWrite { reg: LapicRegister::INITIAL_COUNT, value: 500_000 },
        ]
    );
    assert_eq!(setup_apic(u64::MAX).len(), 4);
    assert_eq!(send_eoi(), LapicWrite { reg: LapicRegister::EOI, value: 0 });
}

#[test]
fn colors_are_packed_by_format() {
    assert_eq!(pack_color(PixelFormat::Rgb, 0x11, 0x22, 0x33), 0xFF11_2233);
    assert_eq!(pack_color(PixelFormat::Bgr, 0x11, 0x22, 0x33), 0xFF33_2211);
    assert_eq!(pack_color(PixelFormat::Other, 0x11, 0x22, 0x33), 0xFF11_2233);
    assert_eq!(pack_color(PixelFormat::Rgb, 0, 0, 0), 0xFF00_0000);
    assert_eq!(pack_color(PixelFormat::Bgr, 255, 255, 255), 0xFFFF_FFFF);
}

#[test]
fn framebuffer_geometry() {
    let info = boot_fb_info(0xb8000, 640, 480, 1024, 4).unwrap();
    assert_eq!(
        info,
        FbInfo { buffer_ptr: 0xb8000, size_bytes: 1024 * 4 * 480, width: 640, height: 480, pitch: 4096 }
    );
    assert_eq!(boot_fb_info(0, 1, 1, usize::MAX, 2), None);
    assert_eq!(boot_fb_info(0, 1, usize::MAX, 2, 2), None);
    assert_eq!(pixel_index(&info, 0, 0), Some(0));
    assert_eq!(pixel_index(&info, 639, 479), Some(479 * 1024 + 639));
    assert_eq!(pixel_index(&info, 3, 2), Some(2051));
    assert_eq!(pixel_index(&info, 640, 0), None);
    assert_eq!(pixel_index(&info, 0, 480), None);
}

#[test]
fn frame_bitmap_marks_and_finds() {
    assert_eq!(frame_containing(0x1234), 0x1000);
    assert_eq!(frame_containing(0x1000), 0x1000);
    assert_eq!(frame_containing(0xfff), 0);
    let mut b = FrameBitmap::new();
    assert_eq!(b.bits.len(), 32768);
    assert_eq!(b.base_address, 0x100000);
    assert_eq!(b.frame_count, 262_144);
    assert!(!b.contains(0x100000));
    assert!(!b.is_used(0x100000));
    assert_eq!(find_unused_frame(&b), Some(0x100000));
    assert!(b.mark_used(0x100000));
    assert!(b.contains(0x100000));
    assert!(b.is_used(0x100000));
    assert!(!b.contains(0x101000));
    assert!(!b.contains(0xff000));
    assert_eq!(b.bits[32], 1);
    assert_eq!(find_unused_frame(&b), Some(0x101000));
    assert!(b.mark_used(0x102000));
    assert!(b.mark_used(0x101fff));
    assert_eq!(b.bits[32], 7);
    assert_eq!(find_unused_frame(&b), Some(0x103000));
    assert!(b.mark_used(0x3fff_f000));
    assert_eq!(b.bits[32767], 0x80);
    assert!(!b.mark_used(0x4000_0000));
    assert!(!b.contains(0x4000_0000));
    assert!(!b.contains(u64::MAX));
    assert_eq!(b.frame_at(0), 0x100000);
    assert_eq!(b.frame_at(5), 0x105000);
    let mut full = FrameBitmap { bits: vec![0xff; 32768], base_address: 0, frame_count: 16 };
    assert_eq!(find_unused_frame(&full), None);
    full.bits[1] = 0xfb;
    assert_eq!(find_unused_frame(&full), Some(10 * 4096));
    full.frame_count = 10;
    assert_eq!(find_unused_frame(&full), None);
}

#[test]
fn boot_allocators_hand_out_frames_in_order() {
    assert_eq!(EmptyFrameAllocator.allocate_frame(), None);
    let mut pre = PreHeapAllocator {
        frames: vec![None, Some(0x10000), None, Some(0x12000), Some(0x13000)],
        next: 0,
    };
    assert_eq!(pre.allocate_frame(), Some(0x10000));
    assert_eq!(pre.next, 2);
    assert_eq!(pre.frames[1], None);
    assert_eq!(pre.allocate_frame(), Some(0x12000));
    assert_eq!(pre.into_vec(), vec![0x13000]);
    let mut done = PreHeapAllocator { frames: vec![None, None], next: 0 };
    assert_eq!(done.allocate_frame(), None);
    assert_eq!(done.next, 2);
    assert_eq!(done.allocate_frame(), None);
    let mut a = BootInfoFrameAllocator::new(Vec::new(), vec![0x200000, 0x300000]);
    assert!(!a.is_allocated(0x200000));
    assert_eq!(a.allocate_frame(), Some(0x200000));
    assert!(a.is_allocated(0x200000));
    assert!(!a.is_allocated(0x300000));
    assert_eq!(a.allocate_frame(), Some(0x300000));
    assert_eq!(a.allocate_frame(), None);
    assert_eq!(a.next, 2);
    assert_eq!(a.into_vec(), vec![0x200000, 0x300000]);
}

fn region(start: u64, end: u64, usable: bool) -> MemoryRegion {
    MemoryRegion { start, end, usable }
}

#[test]
fn frames_are_collected_from_the_memory_map() {
    let map = [
        region(0, 0x3000, true),
        region(0xf000, 0x12000, false),
        region(0x5000, 0x5000, true),
        region(0x9000, 0x8000, true),
        region(0x20800, 0x22000, true),
    ];
    let a = BootInfoFrameAllocator::init(&map);
    assert_eq!(a.frames, vec![0x10000, 0x11000, 0x20000, 0x21000]);
    assert_eq!(a.next, 0);
    assert_eq!(a.memory_map, map.to_vec());
    let table = BootInfoFrameAllocator::init_temp(&map);
    assert_eq!(table.len(), 512);
    assert_eq!(&table[..4], &[Some(0x10000), Some(0x11000), Some(0x20000), Some(0x21000)]);
    assert!(table[4..].iter().all(|f| f.is_none()));
    let big = [region(0x100000, 0x100000 + 600 * 4096, true), region(0x800000, 0x801000, true)];
    let table = BootInfoFrameAllocator::init_temp(&big);
    assert_eq!(table.len(), 512);
    assert_eq!(table[0], Some(0x100000));
    assert_eq!(table[511], Some(0x100000 + 511 * 4096));
    assert_eq!(BootInfoFrameAllocator::init(&big).frames.len(), 601);
    assert_eq!(BootInfoFrameAllocator::init_temp(&[]), vec![None; 512]);
    let top = [region(u64::MAX - 0x1800, u64::MAX, true)];
    assert_eq!(
        BootInfoFrameAllocator::init(&top).frames,
        vec![0xffff_ffff_ffff_e000, 0xffff_ffff_ffff_f000]
    );
}

#[test]
fn frames_of_unusable_regions_are_marked() {
    let map = vec![
        region(0x100000, 0x103000, false),
        region(0x200000, 0x202000, true),
        region(0x300800, 0x301000, false),
        region(0x500000, 0x400000, false),
        region(0x4000_0000, 0x4000_2000, false),
    ];
    let mut a = BootInfoFrameAllocator::new(map, Vec::new());
    a.mark_used_frames();
    assert!(a.is_allocated(0x100000));
    assert!(a.is_allocated(0x101000));
    assert!(a.is_allocated(0x102000));
    assert!(!a.is_allocated(0x103000));
    assert!(!a.is_allocated(0x200000));
    assert!(a.is_allocated(0x300000));
    assert!(!a.is_allocated(0x301000));
    assert!(!a.is_allocated(0x400000));
    assert!(!a.is_allocated(0x4000_0000));
    assert_eq!(a.allocated.bits.iter().map(|b| b.count_ones()).sum::<u32>(), 4);
}

#[test]
fn file_header_is_parsed_little_endian() {
    let mut file = vec![0u8; 64];
    file[..6].copy_from_slice(&[0x7f, b'E', b'L', b'F', 2, 1]);
    file[15] = 0xee;
    file[16..18].copy_from_slice(&2u16.to_le_bytes());
    file[18..20].copy_from_slice(&62u16.to_le_bytes());
    file[20..24].copy_from_slice(&0x0102_0304u32.to_le_bytes());
    file[24..32].copy_from_slice(&0x1122_3344_5566_7788u64.to_le_bytes());
    file[32..40].copy_from_slice(&64u64.to_le_bytes());
    file[40..48].copy_from_slice(&0xffff_ffff_ffff_fffeu64.to_le_bytes());
    file[48..52].copy_from_slice(&0xdead_beefu32.to_le_bytes());
    file[52..54].copy_from_slice(&64u16.to_le_bytes());
    file[54..56].copy_from_slice(&56u16.to_le_bytes());
    file[56..58].copy_from_slice(&0x0201u16.to_le_bytes());
    file[58..60].copy_from_slice(&0x0403u16.to_le_bytes());
    file[60..62].copy_from_slice(&0x0605u16.to_le_bytes());
    file[62..64].copy_from_slice(&0xffffu16.to_le_bytes());
    let hdr = read_header(&file).unwrap();
    assert_eq!(&hdr.e_ident[..], &file[..16]);
    assert_eq!(hdr.e_ident[15], 0xee);
    assert_eq!((hdr.e_type, hdr.e_machine, hdr.e_version), (2, 62, 0x0102_0304));
    assert_eq!(hdr.e_entry, 0x1122_3344_5566_7788);
    assert_eq!((hdr.e_phoff, hdr.e_shoff), (64, 0xffff_ffff_ffff_fffe));
    assert_eq!(hdr.e_flags, 0xdead_beef);
    assert_eq!((hdr.e_ehsize, hdr.e_phentsize, hdr.e_phnum), (64, 56, 0x0201));
    assert_eq!((hdr.e_shentsize, hdr.e_shnum, hdr.e_shstrndx), (0x0403, 0x0605, 0xffff));
    assert_eq!(validate_elf_header(&hdr), Ok(()));
    assert!(read_header(&file[..63]).is_none());
    assert!(read_header(&[]).is_none());
    file.push(9);
    assert!(read_header(&file).is_some());
}
