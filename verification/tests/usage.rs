use syncopate::usage::memory_usage_from_status;

#[test]
fn reads_the_resident_memory_line() {
    let status = "Name:\tbash\nVmPeak:\t  1000 kB\nVmRSS:\t    1234 kB\nVmData:\t 5 kB\n";
    assert_eq!(memory_usage_from_status(status), 1234);
}

#[test]
fn no_resident_memory_line_reads_zero() {
    assert_eq!(memory_usage_from_status(""), 0);
    assert_eq!(memory_usage_from_status("Name:\tbash\nVmPeak:\t1000 kB\n"), 0);
    assert_eq!(memory_usage_from_status("VmRSSx: 9 kB\n xVmRSS: 5 kB\nVmRSS:12"), 0);
}

#[test]
fn skips_lines_without_a_number() {
    assert_eq!(memory_usage_from_status("VmRSS:\nVmRSS: 77 kB\n"), 77);
    assert_eq!(memory_usage_from_status("VmRSS: abc kB\nVmRSS: 5 kB"), 5);
    assert_eq!(memory_usage_from_status("VmRSS: -5 kB\nVmRSS: +6 kB"), 6);
}

#[test]
fn handles_carriage_returns_and_unicode_space() {
    assert_eq!(memory_usage_from_status("VmRSS:\t12 kB\r\n"), 12);
    assert_eq!(memory_usage_from_status("VmRSS:\u{3000}42\u{a0}kB"), 42);
    assert_eq!(memory_usage_from_status("VmRSS:\t7\r"), 7);
}
