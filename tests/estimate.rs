use pitch_detection::detector::mcleod::McLeodDetector;
use pitch_detection::detector::PitchDetector;
use pitch_tracker::note::Note;
use pitch_tracker::window::WindowShape;

const POWER_THRESHOLD: f32 = 1.0;
const CLARITY_THRESHOLD: f32 = 0.3;

fn sine(freq: f32, rate: f32, len: usize) -> Vec<f32> {
    (0..len)
        .map(|i| (2.0 * std::f32::consts::PI * freq * i as f32 / rate).sin())
        .collect()
}

#[test]
fn silent_window_has_no_pitch() {
    let shape = WindowShape::default();
    let mut det = McLeodDetector::<f32>::new(shape.window_size(), shape.padding_size());
    let zeros = vec![0.0_f32; shape.window_size()];
    assert!(det.get_pitch(&zeros, 44100, POWER_THRESHOLD, CLARITY_THRESHOLD).is_none());
    let quiet = vec![0.001_f32; shape.window_size()];
    assert!(det.get_pitch(&quiet, 44100, POWER_THRESHOLD, CLARITY_THRESHOLD).is_none());
}

#[test]
fn sine_windows_give_a4() {
    let shape = WindowShape::default();
    let mut det = McLeodDetector::<f32>::new(shape.window_size(), shape.padding_size());
    let mut assembler = shape.assembler::<f32>();
    let signal = sine(440.0, 44100.0, 3 * 512 + 100);
    let mut estimates = Vec::new();
    for chunk in signal.chunks(333) {
        for w in assembler.feed(chunk) {
            let p = det
                .get_pitch(&w, 44100, POWER_THRESHOLD, CLARITY_THRESHOLD)
                .expect("a pitch");
            estimates.push((p.frequency, p.clarity));
        }
    }
    assert_eq!(estimates.len(), 3);
    assert_eq!(assembler.buffered_len(), 100);
    let c0 = 440.0_f32 * 2.0_f32.powf(-4.75);
    for (f, c) in estimates {
        assert!((f - 440.0).abs() <= 8.8, "estimated {} with clarity {}", f, c);
        assert!(c > CLARITY_THRESHOLD);
        let n = Note::from_semitone_index((12.0 * (f / c0).log2()).round() as i64);
        assert_eq!(n.label(), "A-4");
    }
}

#[test]
fn same_window_twice_gives_same_estimate() {
    let shape = WindowShape::default();
    let mut det = McLeodDetector::<f32>::new(shape.window_size(), shape.padding_size());
    let w = sine(330.0, 44100.0, shape.window_size());
    let first = det.get_pitch(&w, 44100, POWER_THRESHOLD, CLARITY_THRESHOLD).expect("a pitch");
    let second = det.get_pitch(&w, 44100, POWER_THRESHOLD, CLARITY_THRESHOLD).expect("a pitch");
    assert_eq!(first.frequency, second.frequency);
    assert_eq!(first.clarity, second.clarity);
}
