//! Frequency scaling: discovery decisions, file contents, display.

use waybar::cpufreq::{
    format_tooltip, max_freq, parse_frequency, CpuCandidate, Error, FrequencyDisplay, CPU,
};

fn candidate(path: &str) -> CpuCandidate {
    CpuCandidate {
        path: String::from(path),
        is_dir: true,
        has_cpufreq_dir: true,
        has_current: true,
        has_max: true,
        has_min: true,
    }
}

#[test]
fn frequencies_are_read_from_file_bytes() {
    assert_eq!(parse_frequency(&b"1200000\n".to_vec()), Ok(1200000));
    assert_eq!(parse_frequency(&b"  +42\t".to_vec()), Ok(42));
    assert_eq!(parse_frequency(&b"".to_vec()), Err(Error::InvalidFrequency));
    assert_eq!(parse_frequency(&b"12a\n".to_vec()), Err(Error::InvalidFrequency));
    assert_eq!(
        parse_frequency(&b"18446744073709551616".to_vec()),
        Err(Error::InvalidFrequency)
    );
    // only bytes that are not valid UTF-8 are malformed
    assert_eq!(parse_frequency(&vec![49, 50, 0xFF]), Err(Error::MalformedFrequency));
}

#[test]
fn frequency_text_is_unicode() {
    // trimming removes Unicode white space: a no-break space after the digits
    assert_eq!(parse_frequency(&b"42\xC2\xA0".to_vec()), Ok(42));
    // and a thin space before them
    assert_eq!(parse_frequency(&"\u{2009}7\n".as_bytes().to_vec()), Ok(7));
    // valid UTF-8 that is no number is an invalid frequency, not malformed
    assert_eq!(
        parse_frequency(&"4\u{e9}".as_bytes().to_vec()),
        Err(Error::InvalidFrequency)
    );
}

#[test]
fn cpu_paths_are_joined() {
    let cpu = CPU::new(&candidate("/sys/devices/system/cpu/cpu0")).unwrap();
    assert_eq!(
        cpu.current_path().as_str(),
        "/sys/devices/system/cpu/cpu0/cpufreq/scaling_cur_freq"
    );
    assert_eq!(
        cpu.max_path().as_str(),
        "/sys/devices/system/cpu/cpu0/cpufreq/scaling_max_freq"
    );
    assert_eq!(
        cpu.min_path().as_str(),
        "/sys/devices/system/cpu/cpu0/cpufreq/scaling_min_freq"
    );
    assert_eq!(cpu.current_freq(&b"1000\n".to_vec()), Ok(1000));
}

#[test]
fn missing_scaling_file_is_named() {
    let mut c = candidate("/sys/cpu1");
    c.has_max = false;
    assert_eq!(
        CPU::new(&c),
        Err(Error::MissingScalingFile(String::from("/sys/cpu1/cpufreq/scaling_max_freq")))
    );
}

#[test]
fn discover_keeps_processor_directories() {
    let mut plain_file = candidate("/sys/cpu/online");
    plain_file.is_dir = false;
    let mut no_cpufreq = candidate("/sys/cpu/power");
    no_cpufreq.has_cpufreq_dir = false;
    let entries = vec![plain_file, candidate("/sys/cpu/cpu0"), no_cpufreq, candidate("/sys/cpu/cpu1")];
    let cpus = CPU::discover(&entries).unwrap();
    assert_eq!(cpus.len(), 2);
    assert_eq!(cpus[0].current_path().as_str(), "/sys/cpu/cpu0/cpufreq/scaling_cur_freq");
    assert_eq!(cpus[1].current_path().as_str(), "/sys/cpu/cpu1/cpufreq/scaling_cur_freq");
}

#[test]
fn discover_reports_the_first_incomplete_entry() {
    let mut broken = candidate("/sys/cpu/cpu1");
    broken.has_current = false;
    let entries = vec![candidate("/sys/cpu/cpu0"), broken];
    assert_eq!(
        CPU::discover(&entries),
        Err(Error::MissingScalingFile(String::from("/sys/cpu/cpu1/cpufreq/scaling_cur_freq")))
    );
}

#[test]
fn frequencies_display_in_fitting_units() {
    assert_eq!(FrequencyDisplay(2400000).to_string().as_str(), "2.40 GHz");
    assert_eq!(FrequencyDisplay(2456789).to_string().as_str(), "2.46 GHz");
    assert_eq!(FrequencyDisplay(1005000).to_string().as_str(), "1.01 GHz");
    assert_eq!(FrequencyDisplay(500000).to_string().as_str(), "500 MHz");
    assert_eq!(FrequencyDisplay(1500).to_string().as_str(), "2 MHz");
    assert_eq!(FrequencyDisplay(800).to_string().as_str(), "800 kHz");
    assert_eq!(FrequencyDisplay(0).to_string().as_str(), "0 kHz");
}

#[test]
fn tooltip_names_count_and_range() {
    assert_eq!(
        format_tooltip(&vec![1200000, 2400000, 1800000]).as_str(),
        "3 cores; ranging from 1.20 GHz to 2.40 GHz"
    );
    assert_eq!(format_tooltip(&vec![800]).as_str(), "1 core; ranging from 800 kHz to 800 kHz");
}

#[test]
fn max_of_collected_frequencies() {
    assert!(max_freq(&Vec::new()).is_none());
    assert_eq!(max_freq(&vec![5, 9, 3]), Some(9));
}
