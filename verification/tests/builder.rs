use exe::{VecPE, PE};
use uki_manager::builder::{append_all, build, SectionSource};
use uki_manager::checksum::checksum;
use uki_manager::error::Error;
use uki_manager::image::UnifiedKernelImage;

const NT: usize = 0x80;

fn put16(b: &mut [u8], at: usize, v: u16) {
    b[at..at + 2].copy_from_slice(&v.to_le_bytes());
}

fn put32(b: &mut [u8], at: usize, v: u32) {
    b[at..at + 4].copy_from_slice(&v.to_le_bytes());
}

fn get32(b: &[u8], at: usize) -> u32 {
    u32::from_le_bytes([b[at], b[at + 1], b[at + 2], b[at + 3]])
}

/// A stub with `sections` sections of 512 raw bytes each, laid out behind
/// `size_of_headers` bytes of headers.
fn stub(
    plus: bool,
    sections: usize,
    file_alignment: u32,
    section_alignment: u32,
    size_of_headers: u32,
) -> Vec<u8> {
    let optional_size: usize = if plus { 240 } else { 224 };
    let mut b = vec![0u8; size_of_headers as usize + 512 * sections];
    put16(&mut b, 0, 0x5A4D);
    put32(&mut b, 60, NT as u32);
    put32(&mut b, NT, 0x4550);
    put16(&mut b, NT + 4, if plus { 0x8664 } else { 0x014C });
    put16(&mut b, NT + 6, sections as u16);
    put16(&mut b, NT + 20, optional_size as u16);
    put16(&mut b, NT + 22, 0x0022);
    put16(&mut b, NT + 24, if plus { 0x20B } else { 0x10B });
    put32(&mut b, NT + 32, 512 * sections as u32);
    put32(&mut b, NT + 56, section_alignment);
    put32(&mut b, NT + 60, file_alignment);
    put32(&mut b, NT + 80, 0x10000);
    put32(&mut b, NT + 84, size_of_headers);
    put32(&mut b, NT + 24 + if plus { 108 } else { 92 }, 16);
    let table = NT + 24 + optional_size;
    for i in 0..sections {
        let entry = table + 40 * i;
        let name = format!(".sec{}", i);
        b[entry..entry + name.len()].copy_from_slice(name.as_bytes());
        put32(&mut b, entry + 8, 100 + i as u32);
        put32(&mut b, entry + 12, 0x1000 * (i as u32 + 1));
        put32(&mut b, entry + 16, 512);
        put32(&mut b, entry + 20, size_of_headers + 512 * i as u32);
        put32(&mut b, entry + 36, 0x6000_0020);
        let start = size_of_headers as usize + 512 * i;
        for k in 0..512 {
            b[start + k] = (i as u8).wrapping_add(k as u8).wrapping_add(1);
        }
    }
    b
}

fn source(name: &str, parts: &[&[u8]]) -> SectionSource {
    SectionSource { name: name.to_string(), parts: parts.iter().map(|p| p.to_vec()).collect() }
}

fn canonical() -> Vec<SectionSource> {
    let kernel: Vec<u8> = (0..3000u32).map(|i| (i * 7 % 256) as u8).collect();
    let microcode = [0x11u8; 100];
    let initrd = [0x22u8; 200];
    vec![
        source(".osrel", &[b"NAME=\"Arch Linux\"\n"]),
        source(".uname", &[b"6.4.8-zen1-1-zen"]),
        source(".cmdline", &[b"root=/dev/sda1 rw"]),
        source(".initrd", &[&microcode, &initrd]),
        source(".linux", &[&kernel]),
    ]
}

#[test]
fn build_appends_every_section() {
    let bytes = stub(true, 6, 512, 4096, 1024);
    let sections = canonical();
    let out = build(bytes.clone(), &sections).unwrap();
    let image = UnifiedKernelImage::new(out, "").unwrap();
    assert_eq!(image.section_count() as usize, 6 + sections.len());
}

#[test]
fn build_without_sections_only_finishes_the_stub() {
    let bytes = stub(true, 6, 512, 4096, 1024);
    let out = build(bytes.clone(), &Vec::new()).unwrap();
    assert_eq!(out.len(), bytes.len());
    let image = UnifiedKernelImage::new(out.clone(), "").unwrap();
    assert_eq!(image.section_count(), 6);
    assert_eq!(&out[1024..], &bytes[1024..]);
}

#[test]
fn build_puts_each_payload_at_its_raw_offset() {
    let sections = canonical();
    let out = build(stub(true, 6, 512, 4096, 1024), &sections).unwrap();
    let image = UnifiedKernelImage::new(out.clone(), "").unwrap();
    let mut expected_start = 1024 + 6 * 512;
    for (i, section) in sections.iter().enumerate() {
        let payload: Vec<u8> = section.parts.concat();
        let found = image.section(6 + i).unwrap();
        let mut name = section.name.as_bytes().to_vec();
        name.resize(8, 0);
        assert_eq!(found.name, name);
        assert_eq!(found.virtual_size as usize, payload.len());
        assert_eq!(found.raw_size as usize, (payload.len() + 511) / 512 * 512);
        assert_eq!(found.raw_offset as usize, expected_start);
        let start = found.raw_offset as usize;
        assert_eq!(&out[start..start + payload.len()], &payload[..]);
        assert!(out[start + payload.len()..start + found.raw_size as usize]
            .iter()
            .all(|&b| b == 0));
        expected_start += found.raw_size as usize;
    }
    assert_eq!(out.len(), expected_start);
}

#[test]
fn build_joins_the_initrd_files() {
    let out = build(stub(true, 6, 512, 4096, 1024), &canonical()).unwrap();
    let image = UnifiedKernelImage::new(out.clone(), "").unwrap();
    let initrd = image.section(9).unwrap();
    assert_eq!(initrd.virtual_size, 300);
    let start = initrd.raw_offset as usize;
    assert_eq!(&out[start..start + 100], &[0x11u8; 100]);
    assert_eq!(&out[start + 100..start + 300], &[0x22u8; 200]);
}

#[test]
fn build_stores_a_checksum_that_holds() {
    for plus in [false, true] {
        let out = build(stub(plus, 6, 512, 4096, 1024), &canonical()).unwrap();
        let stored = get32(&out, NT + 88);
        let mut cleared = out.clone();
        put32(&mut cleared, NT + 88, 0);
        assert_eq!(checksum(&cleared), stored);
    }
}

#[test]
fn build_adds_the_raw_sizes_to_the_size_of_initialized_data() {
    let out = build(stub(true, 6, 512, 4096, 1024), &canonical()).unwrap();
    // the stub's 6 * 512, then 512 for each of the four small payloads and 3072 for the kernel
    assert_eq!(get32(&out, NT + 32), 6 * 512 + 4 * 512 + 3072);
    // the last section ends at 1024 + 6 * 512 + 4 * 512 + 3072 = 9216
    assert_eq!(get32(&out, NT + 80), 12288);
}

#[test]
fn build_is_deterministic() {
    let first = build(stub(true, 6, 512, 4096, 1024), &canonical()).unwrap();
    let second = build(stub(true, 6, 512, 4096, 1024), &canonical()).unwrap();
    assert_eq!(first, second);
}

#[test]
fn build_gives_what_the_single_steps_give() {
    let built = build(stub(true, 2, 512, 4096, 1024), &canonical()).unwrap();
    let mut image = UnifiedKernelImage::new(stub(true, 2, 512, 4096, 1024), "").unwrap();
    for section in canonical() {
        image.add_section_paths(&section.name, &section.parts).unwrap();
    }
    assert_eq!(image.output().unwrap(), built);
}

#[test]
fn build_reports_a_stub_that_is_no_image() {
    let failure = build(b"#!/bin/sh\n".to_vec(), &canonical()).unwrap_err();
    assert_eq!(failure.error, Error::InvalidFormat);
    assert_eq!(failure.section, None);
    let mut bytes = stub(true, 6, 512, 4096, 1024);
    put16(&mut bytes, NT + 24, 0x30B);
    let failure = build(bytes, &canonical()).unwrap_err();
    assert_eq!(failure.error, Error::UnsupportedVariant);
    assert_eq!(failure.section, None);
}

#[test]
fn build_reports_the_first_section_that_fails() {
    let mut sections = canonical();
    sections[2].name = ".cmdline2".to_string();
    sections[4].name = ".linux-zen".to_string();
    let failure = build(stub(true, 6, 512, 4096, 1024), &sections).unwrap_err();
    assert_eq!(failure.error, Error::NameTooLong);
    assert_eq!(failure.section, Some(".cmdline2".to_string()));
}

#[test]
fn build_reports_the_section_that_found_no_room() {
    // room for three entries, two of them taken
    let failure = build(stub(true, 2, 512, 4096, 512), &canonical()).unwrap_err();
    assert_eq!(failure.error, Error::HeaderSpaceExhausted);
    assert_eq!(failure.section, Some(".uname".to_string()));
}

#[test]
fn build_reports_a_bad_file_alignment_on_the_first_section() {
    let failure = build(stub(true, 2, 500, 4096, 1024), &canonical()).unwrap_err();
    assert_eq!(failure.error, Error::InvalidAlignment);
    assert_eq!(failure.section, Some(".osrel".to_string()));
}

#[test]
fn build_reports_a_bad_section_alignment_without_a_section() {
    let failure = build(stub(true, 2, 512, 0, 1024), &canonical()).unwrap_err();
    assert_eq!(failure.error, Error::InvalidAlignment);
    assert_eq!(failure.section, None);
}

#[test]
fn build_reports_a_size_that_leaves_32_bits() {
    let mut bytes = stub(true, 2, 512, 4096, 1024);
    put32(&mut bytes, NT + 32, 0xFFFF_FF00);
    let failure = build(bytes, &canonical()).unwrap_err();
    assert_eq!(failure.error, Error::PayloadTooLarge);
    assert_eq!(failure.section, Some(".osrel".to_string()));
}

#[test]
fn append_to_appends_one_section() {
    let mut image = UnifiedKernelImage::new(stub(true, 2, 512, 4096, 1024), "").unwrap();
    source(".splash", &[b"BM", b"\x00\x01"]).append_to(&mut image).unwrap();
    let added = image.section(2).unwrap();
    assert_eq!(added.name, b".splash\0".to_vec());
    assert_eq!(added.virtual_size, 4);
}

#[test]
fn exe_finds_a_built_image_valid() {
    let out = build(stub(false, 6, 512, 4096, 1024), &canonical()).unwrap();
    let pe = VecPE::from_disk_data(&out);
    assert!(pe.validate_checksum().unwrap());
    let table = pe.get_section_table().unwrap();
    assert_eq!(table.len(), 11);
    let linux = pe.get_section_by_name(".linux").unwrap();
    assert_eq!(linux.virtual_size, 3000);
    assert_eq!(linux.size_of_raw_data, 3072);
    let data = linux.read(&pe).unwrap();
    assert_eq!(data[7], 49);
    assert_eq!(pe.calculate_disk_size().unwrap(), out.len());
}

#[test]
fn append_all_stops_at_the_first_failure() {
    let mut image = UnifiedKernelImage::new(stub(true, 2, 512, 4096, 1024), "").unwrap();
    let mut sections = canonical();
    sections[3].name = ".initramfs".to_string();
    let failure = append_all(&mut image, &sections).unwrap_err();
    assert_eq!(failure.error, Error::NameTooLong);
    assert_eq!(failure.section, Some(".initramfs".to_string()));
    // the three sections before it stay
    assert_eq!(image.section_count(), 5);
    assert_eq!(image.section(4).unwrap().name, b".cmdline".to_vec());
}

#[test]
fn append_all_appends_in_order_without_overlap() {
    let mut image = UnifiedKernelImage::new(stub(true, 2, 512, 4096, 1024), "").unwrap();
    append_all(&mut image, &canonical()).unwrap();
    assert_eq!(image.section_count(), 7);
    let mut end = 1024 + 2 * 512;
    for i in 2..7 {
        let section = image.section(i).unwrap();
        assert!(section.raw_offset as usize >= end);
        assert_eq!(section.raw_offset % 512, 0);
        end = (section.raw_offset + section.raw_size) as usize;
    }
    assert_eq!(end, image.end_of_raw_data());
}
