//! The two ways ViSQOL is run (speech at 16 kHz, audio at 48 kHz), the model
//! each uses, and the command line the bench gives the ViSQOL program.

use vstd::prelude::*;

verus! {

/// The two ways ViSQOL can be run.
#[derive(Debug, Clone, Copy)]
pub enum VisqolMode {
    /// Speech mode: signals are resampled to 16 kHz.
    Speech,
    /// Audio mode: signals are resampled to 48 kHz.
    Audio,
}

impl VisqolMode {
    /// The sample rate that both signals are resampled to before ViSQOL sees them.
    pub open spec fn spec_target_sample_rate(self) -> u32 {
        match self {
            VisqolMode::Speech => 16000,
            VisqolMode::Audio => 48000,
        }
    }

    /// The mode the `--audio` command line flag selects.
    pub open spec fn spec_from_audio_flag(audio: bool) -> VisqolMode {
        if audio {
            VisqolMode::Audio
        } else {
            VisqolMode::Speech
        }
    }

    /// Chooses the mode from the `--audio` command line flag.
    pub fn from_audio_flag(audio: bool) -> (mode: VisqolMode)
        ensures
            mode == Self::spec_from_audio_flag(audio),
    {
        if audio {
            VisqolMode::Audio
        } else {
            VisqolMode::Speech
        }
    }

    /// The file name of the similarity to quality model ViSQOL uses in this
    /// mode: the SVM model for audio, the lattice model for speech.
    pub fn model_file_name(self) -> (r: &'static str)
        ensures
            self is Audio ==> r@ == "libsvm_nu_svr_model.txt"@,
            self is Speech ==> r@
                == "lattice_tcditugenmeetpackhref_ls2_nl60_lr12_bs2048_learn.005_ep2400_train1_7_raw.tflite"@,
    {
        match self {
            VisqolMode::Audio => "libsvm_nu_svr_model.txt",
            VisqolMode::Speech => "lattice_tcditugenmeetpackhref_ls2_nl60_lr12_bs2048_learn.005_ep2400_train1_7_raw.tflite",
        }
    }

    /// Whether ViSQOL is told to run in speech mode.
    pub fn uses_speech_mode(self) -> (r: bool)
        ensures
            r <==> self is Speech,
    {
        match self {
            VisqolMode::Speech => true,
            VisqolMode::Audio => false,
        }
    }

    /// The sample rate that both signals are resampled to for this mode.
    pub fn target_sample_rate(self) -> (rate: u32)
        ensures
            rate == self.spec_target_sample_rate(),
    {
        match self {
            VisqolMode::Speech => 16000,
            VisqolMode::Audio => 48000,
        }
    }
}


/// With `--audio` the signals are compared at 48 kHz in audio mode; without
/// it at 16 kHz in speech mode, and only then is ViSQOL given its speech flag.
pub proof fn lemma_audio_flag_selects_rate(audio: bool)
    ensures
        VisqolMode::spec_from_audio_flag(audio).spec_target_sample_rate() == if audio {
            48000u32
        } else {
            16000u32
        },
        (VisqolMode::spec_from_audio_flag(audio) is Speech) <==> !audio,
{
}

/// The flags this bench passes to the ViSQOL program.
#[derive(Debug, Clone, Copy)]
pub enum VisqolFlag {
    ReferenceFile,
    DegradedFile,
    ResultsCsv,
    OutputDebug,
    SimilarityToQualityModel,
    UseSpeechMode,
}

impl VisqolFlag {
    /// The flag as written on the command line.
    pub fn text(self) -> (r: &'static str)
        ensures
            self is ReferenceFile ==> r@ == "--reference_file"@,
            self is DegradedFile ==> r@ == "--degraded_file"@,
            self is ResultsCsv ==> r@ == "--results_csv"@,
            self is OutputDebug ==> r@ == "--output_debug"@,
            self is SimilarityToQualityModel ==> r@ == "--similarity_to_quality_model"@,
            self is UseSpeechMode ==> r@ == "--use_speech_mode"@,
    {
        match self {
            VisqolFlag::ReferenceFile => "--reference_file",
            VisqolFlag::DegradedFile => "--degraded_file",
            VisqolFlag::ResultsCsv => "--results_csv",
            VisqolFlag::OutputDebug => "--output_debug",
            VisqolFlag::SimilarityToQualityModel => "--similarity_to_quality_model",
            VisqolFlag::UseSpeechMode => "--use_speech_mode",
        }
    }
}

/// One argument of the ViSQOL command line: a flag, or a path of the caller's
/// path type.
#[derive(Debug)]
pub enum VisqolArg<P> {
    Flag(VisqolFlag),
    Path(P),
}

/// The ViSQOL command line for one comparison: the reference and degraded
/// files, where to write the results CSV and the debug JSON, the similarity
/// to quality model, and in speech mode the speech flag.
pub fn visqol_arguments<P>(
    mode: VisqolMode,
    reference: P,
    degraded: P,
    results_csv: P,
    debug_json: P,
    model: P,
) -> (r: Vec<VisqolArg<P>>)
    ensures
        r@ == seq![
            VisqolArg::Flag(VisqolFlag::ReferenceFile),
            VisqolArg::Path(reference),
            VisqolArg::Flag(VisqolFlag::DegradedFile),
            VisqolArg::Path(degraded),
            VisqolArg::Flag(VisqolFlag::ResultsCsv),
            VisqolArg::Path(results_csv),
            VisqolArg::Flag(VisqolFlag::OutputDebug),
            VisqolArg::Path(debug_json),
            VisqolArg::Flag(VisqolFlag::SimilarityToQualityModel),
            VisqolArg::Path(model),
        ] + if mode is Speech {
            seq![VisqolArg::Flag(VisqolFlag::UseSpeechMode)]
        } else {
            Seq::<VisqolArg<P>>::empty()
        },
{
    let mut r: Vec<VisqolArg<P>> = Vec::new();
    r.push(VisqolArg::Flag(VisqolFlag::ReferenceFile));
    r.push(VisqolArg::Path(reference));
    r.push(VisqolArg::Flag(VisqolFlag::DegradedFile));
    r.push(VisqolArg::Path(degraded));
    r.push(VisqolArg::Flag(VisqolFlag::ResultsCsv));
    r.push(VisqolArg::Path(results_csv));
    r.push(VisqolArg::Flag(VisqolFlag::OutputDebug));
    r.push(VisqolArg::Path(debug_json));
    r.push(VisqolArg::Flag(VisqolFlag::SimilarityToQualityModel));
    r.push(VisqolArg::Path(model));
    if let VisqolMode::Speech = mode {
        r.push(VisqolArg::Flag(VisqolFlag::UseSpeechMode));
    }
    assert(r@ =~= seq![
        VisqolArg::Flag(VisqolFlag::ReferenceFile),
        VisqolArg::Path(reference),
        VisqolArg::Flag(VisqolFlag::DegradedFile),
        VisqolArg::Path(degraded),
        VisqolArg::Flag(VisqolFlag::ResultsCsv),
        VisqolArg::Path(results_csv),
        VisqolArg::Flag(VisqolFlag::OutputDebug),
        VisqolArg::Path(debug_json),
        VisqolArg::Flag(VisqolFlag::SimilarityToQualityModel),
        VisqolArg::Path(model),
    ] + if mode is Speech {
        seq![VisqolArg::Flag(VisqolFlag::UseSpeechMode)]
    } else {
        Seq::<VisqolArg<P>>::empty()
    });
    r
}

} // verus!
