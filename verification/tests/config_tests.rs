use rustsy::argparse::args;
use rustsy::wavio::SampleError;
use rustsy::wavio::normalize_samples;

fn argv(parts: &[&str]) -> Vec<String> {
    parts.iter().map(|s| s.to_string()).collect()
}

#[test]
fn keyboard_alone_parses() {
    let o = args(&argv(&["--keyboard", "/dev/midi1"])).unwrap();
    assert_eq!(o.keyboard, "/dev/midi1");
    assert!(o.sampler.is_none());
    assert!(o.wave.is_none());
}

#[test]
fn short_keyboard_flag_and_wave() {
    let o = args(&argv(&["-k", "kbd", "--wave", "sine"])).unwrap();
    assert_eq!(o.keyboard, "kbd");
    assert_eq!(o.wave.as_deref(), Some("sine"));
}

#[test]
fn sampler_path_parses() {
    let o = args(&argv(&["--sampler", "loop.wav", "--keyboard", "kbd"])).unwrap();
    assert_eq!(o.sampler.as_deref(), Some("loop.wav"));
    assert_eq!(o.keyboard, "kbd");
}

#[test]
fn missing_keyboard_is_rejected() {
    assert!(args(&argv(&["--wave", "saw"])).is_none());
}

#[test]
fn duplicate_flag_is_rejected() {
    assert!(args(&argv(&["-k", "a", "--keyboard", "b"])).is_none());
}

#[test]
fn flag_without_value_is_rejected() {
    assert!(args(&argv(&["--keyboard"])).is_none());
}

#[test]
fn unknown_flag_is_rejected() {
    assert!(args(&argv(&["--keyboard", "kbd", "--volume", "11"])).is_none());
}

#[test]
fn empty_command_line_is_rejected() {
    assert!(args(&argv(&[])).is_none());
}

#[test]
fn normalize_accepts_the_supported_format() {
    let raw: Vec<i16> = vec![0, -32768, 32767, 100];
    let buf = normalize_samples(1, 16, 48000, &raw).unwrap();
    assert_eq!(buf, vec![0, -65536, 65534, 200]);
}

#[test]
fn normalize_rejects_other_formats() {
    let raw: Vec<i16> = vec![0];
    assert_eq!(
        normalize_samples(2, 16, 48000, &raw),
        Err(SampleError::UnsupportedFormat)
    );
    assert_eq!(
        normalize_samples(1, 8, 48000, &raw),
        Err(SampleError::UnsupportedFormat)
    );
    assert_eq!(
        normalize_samples(1, 16, 44100, &raw),
        Err(SampleError::UnsupportedFormat)
    );
}
