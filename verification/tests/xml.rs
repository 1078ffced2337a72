//! Filling in the XML definitions of domains.

use thorium_reactor::error::Error;
use thorium_reactor::xml::{
    apply_replacements, convert_memory, detect_mem_units, has_readable_unit, memory_unit,
    try_mem_units,
};

// Sample VM XML template used across multiple tests
const VM_TEMPLATE: &str = r"<domain type='kvm'>
  <name>{NAME}</name>
  <memory>{MEMORY}</memory>
  <vcpu placement='static'>{CPU}</vcpu>
  <devices>
    <disk type='file' device='disk'>
      <source file='{FILE}'/>
    </disk>
  </devices>
</domain>";

#[test]
fn detects_mem_units_default() {
    // set memory to 1024 MiB
    let memory = 1024;
    // make sure we return None since there were no units specified
    let mem_units = detect_mem_units(VM_TEMPLATE, memory);
    assert_eq!(mem_units, None);
}

#[test]
#[allow(clippy::similar_names)]
fn detects_mem_units() {
    const BYTES_IN_MIB: u64 = 1 << 20;
    // set memory to 1024 MiB
    let memory = 1024;
    // see if we detect all units correctly
    let mem_b = detect_mem_units("<memory unit='b'>{MEMORY}</memory>", memory);
    assert_eq!(mem_b, Some(memory * BYTES_IN_MIB));
    let mem_kb = detect_mem_units("<memory unit='KB'>{MEMORY}</memory>", memory);
    assert_eq!(mem_kb, Some(memory * BYTES_IN_MIB / 1000));
    let mem_kib = detect_mem_units("<memory unit='KiB'>{MEMORY}</memory>", memory);
    assert_eq!(mem_kib, Some(memory * 1024));
    let mem_mb = detect_mem_units("<memory unit='mb'>{MEMORY}</memory>", memory);
    assert_eq!(mem_mb, Some(memory * BYTES_IN_MIB / 1_000_000));
    let mem_mib = detect_mem_units("<memory unit='m'>{MEMORY}</memory>", memory);
    assert_eq!(mem_mib, Some(memory));
    let mem_gb = detect_mem_units("<memory unit='gb'>{MEMORY}</memory>", memory);
    assert_eq!(mem_gb, Some(memory * BYTES_IN_MIB / 1_000_000_000));
    let mem_gib = detect_mem_units("<memory unit='gib'>{MEMORY}</memory>", memory);
    assert_eq!(mem_gib, Some(memory / 1024));
    let mem_bad = detect_mem_units("<memory unit='BAD'>{MEMORY}</memory>", memory);
    assert_eq!(mem_bad, None);
    // check with other elements
    let mem_mb = detect_mem_units(
        "<example><memory unit='mib'>{MEMORY}</memory></example>",
        memory,
    );
    assert_eq!(mem_mb, Some(memory));
    // check with double quotes
    let mem_mb = detect_mem_units(r#"<memory unit="mib">{MEMORY}</memory>"#, memory);
    assert_eq!(mem_mb, Some(memory));
}

#[test]
fn replaces_single_vm_placeholder() {
    let content = "<name>{NAME}</name>";
    let result = apply_replacements(content, &[("{NAME}", "ubuntu-vm")]).unwrap();
    assert_eq!(result, "<name>ubuntu-vm</name>");
}

#[test]
fn replaces_all_vm_placeholders() {
    let replacements = [
        ("{NAME}", "ubuntu-server"),
        ("{MEMORY}", "4194304"),
        ("{CPU}", "4"),
        ("{FILE}", "/var/lib/libvirt/images/ubuntu-server.qcow2"),
    ];
    let result = apply_replacements(VM_TEMPLATE, &replacements).unwrap();

    assert!(result.contains("<name>ubuntu-server</name>"));
    assert!(result.contains("<memory>4194304</memory>"));
    assert!(result.contains("<vcpu placement='static'>4</vcpu>"));
    assert!(result.contains("source file='/var/lib/libvirt/images/ubuntu-server.qcow2'"));
    // Make sure no placeholders are left behind
    assert!(!result.contains('{'));
}

#[test]
fn replacement_shorter_than_placeholder() {
    // {CUR_MEM} is 9 chars, "1024" is 4 — tests the underflow case
    let content = "<currentMemory>{CUR_MEM}</currentMemory><vcpu>{CPU}</vcpu>";
    let replacements = [("{CUR_MEM}", "1024"), ("{CPU}", "2")];
    let result = apply_replacements(content, &replacements).unwrap();
    assert_eq!(result, "<currentMemory>1024</currentMemory><vcpu>2</vcpu>");
}

#[test]
fn replacement_longer_than_placeholder() {
    // {FILE} is 6 chars, the path is much longer
    let content = "<source file='{FILE}'/>";
    let replacements = [(
        "{FILE}",
        "/var/lib/libvirt/images/very-long-vm-name-here.qcow2",
    )];
    let result = apply_replacements(content, &replacements).unwrap();
    assert_eq!(
        result,
        "<source file='/var/lib/libvirt/images/very-long-vm-name-here.qcow2'/>"
    );
}

#[test]
fn placeholders_in_reverse_order_in_content() {
    // Replacements declared NAME then FILE, but FILE appears first in content
    let content = "<source file='{FILE}'/><name>{NAME}</name>";
    let replacements = [("{NAME}", "test-vm"), ("{FILE}", "/images/test.qcow2")];
    let result = apply_replacements(content, &replacements).unwrap();
    assert_eq!(
        result,
        "<source file='/images/test.qcow2'/><name>test-vm</name>"
    );
}

#[test]
fn errors_when_placeholder_not_found() {
    // Template has {NAME} but we look for {HOSTNAME}
    let content = "<name>{NAME}</name>";
    let result = apply_replacements(content, &[("{HOSTNAME}", "vm-01")]);
    match result {
        Err(Error::Generic(err)) => assert!(err.contains("missing")),
        other => panic!("expected Generic error, got {other:?}"),
    }
}

#[test]
fn replaces_placeholder_appearing_multiple_times() {
    // {MEMORY} used for both memory and currentMemory
    let content = "<memory>{MEMORY}</memory><currentMemory>{MEMORY}</currentMemory>";
    let result = apply_replacements(content, &[("{MEMORY}", "8388608")]).unwrap();
    assert_eq!(
        result,
        "<memory>8388608</memory><currentMemory>8388608</currentMemory>"
    );
}

#[test]
fn replaces_mixed_single_and_multiple_occurrences() {
    let content =
        "<name>{NAME}</name><memory>{MEMORY}</memory><currentMemory>{MEMORY}</currentMemory>";
    let replacements = [("{NAME}", "vm-01"), ("{MEMORY}", "4194304")];
    let result = apply_replacements(content, &replacements).unwrap();
    assert_eq!(
        result,
        "<name>vm-01</name><memory>4194304</memory><currentMemory>4194304</currentMemory>"
    );
}

#[test]
fn errors_on_first_missing_placeholder() {
    // {NAME} exists, {DISK} does not
    let content = "<name>{NAME}</name>";
    let replacements = [("{NAME}", "vm-01"), ("{DISK}", "/images/vm.qcow2")];
    let result = apply_replacements(content, &replacements);
    match result {
        Err(Error::Generic(err)) => assert!(err.contains("missing")),
        other => panic!("expected Generic error, got {other:?}"),
    }
}

#[test]
fn empty_replacements_returns_unchanged() {
    let content = "<domain><name>static-vm</name></domain>";
    let result = apply_replacements(content, &[]).unwrap();
    assert_eq!(result, content);
}

#[test]
fn adjacent_placeholders() {
    // Edge case: placeholders directly next to each other
    let content = "{NAME}{CPU}";
    let replacements = [("{NAME}", "vm"), ("{CPU}", "4")];
    let result = apply_replacements(content, &replacements).unwrap();
    assert_eq!(result, "vm4");
}

#[test]
fn realistic_full_vm_definition() {
    // End-to-end test with realistic libvirt values
    let replacements = [
        ("{NAME}", "web-server-01"),
        ("{MEMORY}", "8388608"), // 8 GiB in KiB
        ("{CPU}", "8"),
        ("{FILE}", "/var/lib/libvirt/images/web-server-01.qcow2"),
    ];
    let result = apply_replacements(VM_TEMPLATE, &replacements).unwrap();

    // Spot-check a few key values landed in the right places
    assert!(result.contains("<name>web-server-01</name>"));
    assert!(result.contains("<vcpu placement='static'>8</vcpu>"));
    assert!(!result.contains('{'), "no placeholders should remain");
    assert!(!result.contains('}'), "no placeholders should remain");
}

#[test]
fn replaces_with_units() {
    // 4096 MiB
    let memory = 4096;
    let mem_units = detect_mem_units(VM_TEMPLATE, memory).unwrap_or(memory * 1024);
    let mem_str = mem_units.to_string();
    // End-to-end test with realistic libvirt values
    let replacements = [
        ("{NAME}", "web-server-01"),
        ("{MEMORY}", mem_str.as_str()),
        ("{CPU}", "8"),
        ("{FILE}", "/var/lib/libvirt/images/web-server-01.qcow2"),
    ];
    let result = apply_replacements(VM_TEMPLATE, &replacements).unwrap();
    // Spot-check a few key values landed in the right places
    assert!(result.contains("<name>web-server-01</name>"));
    assert!(result.contains(&format!("<memory>{mem_str}</memory>")));
    assert!(result.contains("<vcpu placement='static'>8</vcpu>"));
    assert!(!result.contains('{'), "no placeholders should remain");
    assert!(!result.contains('}'), "no placeholders should remain");
}

#[test]
fn names_the_first_missing_placeholder() {
    let error = apply_replacements("{A}", &[("{A}", "1"), ("{B}", "2"), ("{C}", "3")]).unwrap_err();
    assert_eq!(error.kind(), "Generic");
    assert_eq!(error.msg(), "XML is missing placeholder '{B}'");
}

#[test]
fn occurrences_are_found_from_the_left() {
    // the third letter starts no occurrence: the one before it ends there
    assert_eq!(apply_replacements("aaa-aa", &[("aa", "b")]).unwrap(), "ba-b");
    // an empty placeholder occurs at every position, the end included
    assert_eq!(apply_replacements("ab", &[("", "-")]).unwrap(), "-a-b-");
    // those that apply at one position come in the order they are listed
    assert_eq!(apply_replacements("ab", &[("", "-"), ("b", "c")]).unwrap(), "-a-c-");
    // characters of more than one byte
    assert_eq!(apply_replacements("ä{N}ö", &[("{N}", "ü")]).unwrap(), "äüö");
}

#[test]
fn units_stand_between_like_quotes() {
    assert_eq!(memory_unit("<memory unit='MiB'>"), Some("MiB".to_string()));
    assert_eq!(memory_unit("<vcpu/><memory dumpCore='off' unit=\"KiB\">"), Some("KiB".to_string()));
    // the unit of another element does not count
    assert_eq!(memory_unit("<memory>1</memory><cur unit='G'>"), None);
    assert_eq!(
        memory_unit("<memoryBacking><hugepages/></memoryBacking><memory unit='G'>"),
        Some("G".to_string())
    );
    assert_eq!(memory_unit("<memoryBacking unit='G'/>"), None);
    assert_eq!(memory_unit("<memory\n  unit='G'>"), Some("G".to_string()));
    assert_eq!(memory_unit("<memory/><cur unit='G'>"), None);
    assert_eq!(memory_unit("<memory unit=>1</memory>'"), None);
    // in quotes a tag does not end
    assert_eq!(memory_unit("<memory a='>' unit='MiB'>"), Some("MiB".to_string()));
    assert_eq!(memory_unit("<memory a='\">' b=\"'>\" unit='MiB'>"), Some("MiB".to_string()));
    assert_eq!(memory_unit("<memory a='>'>1</memory><cur unit='G'>"), None);
    assert_eq!(detect_mem_units("<memory a='>' unit='MiB'>", 1024), Some(1024));
    // nothing behind the unit, no end of it, no memory
    assert_eq!(memory_unit("<memory unit="), None);
    assert_eq!(memory_unit("<memory unit='MiB>"), None);
    assert_eq!(memory_unit("<vcpu unit='MiB'>"), None);
    // the unit of an element before the memory does not count
    assert_eq!(memory_unit("<a unit='b'/><memory>1</memory>"), None);
}

#[test]
fn converts_memory_to_units() {
    assert_eq!(convert_memory("b", 3), Some(3_145_728));
    assert_eq!(convert_memory("kb", 3), Some(3_145));
    assert_eq!(convert_memory("k", 3), Some(3_072));
    assert_eq!(convert_memory("kib", 3), Some(3_072));
    assert_eq!(convert_memory("m", 3), Some(3));
    assert_eq!(convert_memory("mib", 3), Some(3));
    assert_eq!(convert_memory("mb", 1000), Some(1_048));
    assert_eq!(convert_memory("gb", 2000), Some(2));
    assert_eq!(convert_memory("g", 2047), Some(1));
    assert_eq!(convert_memory("gib", 2048), Some(2));
    assert_eq!(convert_memory("KiB", 3), None);
    assert_eq!(convert_memory("t", 3), None);
}

#[test]
fn memory_that_does_not_fit_has_no_amount() {
    assert_eq!(try_mem_units("<memory unit='b'>", 1 << 44), None);
    assert_eq!(try_mem_units("<memory unit='b'>", (1 << 44) - 1), Some(Some(((1 << 44) - 1) << 20)));
    assert_eq!(try_mem_units("<memory unit='KiB'>", 1 << 54), None);
    assert_eq!(try_mem_units("<memory unit='MiB'>", u64::MAX), Some(Some(u64::MAX)));
    assert_eq!(try_mem_units("<memory>", u64::MAX), Some(None));
}

#[test]
fn quotes_of_units_are_one_byte_long() {
    assert!(has_readable_unit("<memory unit='KiB'>1</memory>"));
    assert!(has_readable_unit("<memory>1</memory>"));
    assert!(has_readable_unit("<memory unit="));
    assert!(!has_readable_unit("<memory unit=\u{201c}KiB\u{201d}>"));
}

#[test]
fn memory_without_a_unit_has_no_unit_of_another_element() {
    let xml = "<memory>{MEMORY}</memory><currentMemory unit='MiB'>{MEMORY}</currentMemory>";
    assert_eq!(detect_mem_units(xml, 1024), None);
    assert_eq!(try_mem_units(xml, 1024), Some(None));
}

#[test]
fn units_ignore_case_and_quotes() {
    for unit in ["KiB", "kib", "KIB", "kIb"] {
        for quote in ['\'', '"'] {
            let xml = format!("<memory unit={quote}{unit}{quote}>{{MEMORY}}</memory>");
            assert_eq!(detect_mem_units(&xml, 3), Some(3072), "{xml}");
        }
    }
    assert_eq!(detect_mem_units("<memory unit='TiB'>{MEMORY}</memory>", 3), None);
}

#[test]
fn the_order_of_replacements_is_free() {
    let content = "{A}-{B}-{A}{C}";
    let forth = apply_replacements(content, &[("{A}", "1"), ("{B}", "2"), ("{C}", "3")]);
    let back = apply_replacements(content, &[("{C}", "3"), ("{A}", "1"), ("{B}", "2")]);
    assert_eq!(forth.unwrap(), "1-2-13");
    assert_eq!(back.unwrap(), "1-2-13");
    let same = apply_replacements(content, &[("{B}", "{B}"), ("{A}", "{A}"), ("{C}", "{C}")]);
    assert_eq!(same.unwrap(), content);
}
