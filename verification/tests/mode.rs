use audio_bench::mode::{visqol_arguments, VisqolArg, VisqolFlag};
use audio_bench::VisqolMode;

#[test]
fn modes_choose_rates() {
    let m = VisqolMode::from_audio_flag(true);
    assert!(matches!(m, VisqolMode::Audio));
    assert_eq!(m.target_sample_rate(), 48000);
    assert!(!m.uses_speech_mode());
    assert_eq!(m.model_file_name(), "libsvm_nu_svr_model.txt");
    let m = VisqolMode::from_audio_flag(false);
    assert!(matches!(m, VisqolMode::Speech));
    assert_eq!(m.target_sample_rate(), 16000);
    assert!(m.uses_speech_mode());
    assert_eq!(
        m.model_file_name(),
        "lattice_tcditugenmeetpackhref_ls2_nl60_lr12_bs2048_learn.005_ep2400_train1_7_raw.tflite"
    );
}

fn render(args: Vec<VisqolArg<&str>>) -> Vec<String> {
    args.into_iter()
        .map(|a| match a {
            VisqolArg::Flag(f) => f.text().to_string(),
            VisqolArg::Path(p) => p.to_string(),
        })
        .collect()
}

#[test]
fn command_line_in_both_modes() {
    let audio = render(visqol_arguments(VisqolMode::Audio, "r.wav", "d.wav", "o.csv", "o.json", "m.txt"));
    assert_eq!(
        audio,
        vec![
            "--reference_file", "r.wav", "--degraded_file", "d.wav", "--results_csv", "o.csv",
            "--output_debug", "o.json", "--similarity_to_quality_model", "m.txt"
        ]
    );
    let speech = render(visqol_arguments(VisqolMode::Speech, "r.wav", "d.wav", "o.csv", "o.json", "m.tflite"));
    assert_eq!(speech.len(), 11);
    assert_eq!(speech[10], "--use_speech_mode");
    assert_eq!(VisqolFlag::UseSpeechMode.text(), "--use_speech_mode");
}
