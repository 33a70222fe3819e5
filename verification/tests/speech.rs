use rekk::download::{
    begin_download, cancel_download, end_download, plan_download, plan_download_in, stage_result,
    DownloadAction, DownloadControl, DownloadEvent, DownloadPlan, DownloadRun, DownloadStage,
};
use rekk::models::{
    find_model, load_model, model_found, model_loaded, model_path, model_path_in, model_statuses,
    models, models_dir, models_dir_in, LoadedModel,
};
use rekk::paths::FilePath;
use rekk::protocol::Pending;
use rekk::transcript::{
    language_arg, next_transcribe_step, transcript_started, CachedModel, ProgressThrottle,
    TranscribeFacts, TranscribeTask, Transcript,
};

fn text(path: &str) -> FilePath {
    FilePath::Text(path.to_string())
}

fn plan(bytes: u64) -> DownloadPlan {
    DownloadPlan {
        model: "tiny".to_string(),
        url: String::new(),
        final_path: text(""),
        tmp_path: text(""),
        expected_bytes: bytes,
    }
}

#[test]
fn catalogue_of_models() {
    let ids: Vec<&str> = models().iter().map(|m| m.id).collect();
    assert_eq!(ids, vec!["tiny", "base", "small", "medium", "large-v3"]);
    let large = find_model("large-v3").unwrap();
    assert_eq!(large.label, "Large v3");
    assert_eq!(large.file, "ggml-large-v3.bin");
    assert_eq!(large.bytes, 3_100_000_000);
    assert!(large.multilingual);
    assert!(find_model("Tiny").is_none());
    assert!(find_model("").is_none());
    for m in models() {
        assert_eq!(find_model(m.id).unwrap().file, m.file);
    }
}

#[test]
fn model_paths() {
    let dir = models_dir_in(Some(text("/u/data")));
    assert_eq!(dir, Ok(text("/u/data/io.dbr.rekk/models")));
    assert_eq!(models_dir_in(None), Err("Could not resolve data directory".to_string()));
    assert_eq!(
        model_path_in("base", dir.clone()),
        Ok(text("/u/data/io.dbr.rekk/models/ggml-base.bin"))
    );
    assert_eq!(model_path_in("huge", dir), Err("Unknown model: huge".to_string()));
    assert_eq!(model_path_in("huge", Err("x".to_string())), Err("Unknown model: huge".to_string()));
    assert_eq!(model_path_in("tiny", Err("x".to_string())), Err("x".to_string()));
    assert_eq!(model_path("huge"), Err("Unknown model: huge".to_string()));
    match (models_dir(), model_path("tiny")) {
        (Ok(d), Ok(p)) => assert_eq!(p, d.join("ggml-tiny.bin")),
        (Err(a), Err(b)) => assert_eq!(a, b),
        _ => panic!(),
    }
}

#[test]
fn statuses_of_models() {
    let list = model_statuses(&vec![Some(62_160_000), Some(118_319_999), None, Some(u64::MAX)]);
    assert_eq!(list.len(), 5);
    assert!(list[0].downloaded);
    assert_eq!(list[0].local_bytes, 62_160_000);
    assert_eq!(list[0].bytes, 77_700_000);
    assert!(!list[1].downloaded);
    assert_eq!(list[1].local_bytes, 118_319_999);
    assert!(!list[2].downloaded);
    assert_eq!(list[2].local_bytes, 0);
    assert!(list[3].downloaded);
    assert!(!list[4].downloaded);
    assert_eq!(list[4].id, "large-v3");
    assert_eq!(list[4].label, "Large v3");
    assert_eq!(list[4].file, "ggml-large-v3.bin");
}

#[test]
fn loading_of_models() {
    assert_eq!(
        load_model("tiny", false, &LoadedModel::Locked),
        Err("Model tiny is not downloaded yet".to_string())
    );
    assert_eq!(
        load_model("huge", true, &LoadedModel::Empty),
        Err("Unknown model: huge".to_string())
    );
    assert_eq!(
        load_model("huge", false, &LoadedModel::Locked),
        Err("Unknown model: huge".to_string())
    );
    assert_eq!(model_found("huge", true), Err("Unknown model: huge".to_string()));
    assert_eq!(
        model_found("tiny", false),
        Err("Model tiny is not downloaded yet".to_string())
    );
    assert_eq!(model_found("tiny", true), Ok(()));
    assert_eq!(
        load_model("tiny", true, &LoadedModel::Locked),
        Err("Model cache is locked".to_string())
    );
    assert_eq!(load_model("tiny", true, &LoadedModel::Empty), Ok(true));
    assert_eq!(load_model("tiny", true, &LoadedModel::Holding("base".to_string())), Ok(true));
    assert_eq!(load_model("tiny", true, &LoadedModel::Holding("tiny".to_string())), Ok(false));
    assert_eq!(model_loaded("tiny", Ok(())), Ok(()));
    assert_eq!(
        model_loaded("tiny", Err("bad file".to_string())),
        Err("Could not load model tiny: bad file".to_string())
    );
}

#[test]
fn download_plans() {
    match plan_download_in("small", Ok(text("/m"))) {
        Ok(p) => {
            assert_eq!(p.model, "small");
            assert_eq!(
                p.url,
                "https://huggingface.co/ggerganov/whisper.cpp/resolve/main/ggml-small.bin"
            );
            assert_eq!(p.final_path, text("/m/ggml-small.bin"));
            assert_eq!(p.tmp_path, text("/m/ggml-small.bin.part"));
            assert_eq!(p.expected_bytes, 487_600_000);
        }
        Err(_) => panic!(),
    }
    assert!(plan_download_in("none", Ok(text("/m"))).is_err());
    match plan_download("none") {
        Err(m) => assert_eq!(m, "Unknown model: none"),
        Ok(_) => panic!(),
    }
}

#[test]
fn one_download_at_a_time() {
    let mut c = DownloadControl::new();
    cancel_download(&mut c);
    assert!(c.cancel);
    assert_eq!(begin_download(&mut c), Ok(()));
    assert!(c.in_flight && !c.cancel);
    cancel_download(&mut c);
    assert_eq!(begin_download(&mut c), Err("A download is already in progress".to_string()));
    assert!(c.cancel);
    end_download(&mut c);
    assert!(!c.in_flight);
    assert_eq!(begin_download(&mut c), Ok(()));
    assert!(!c.cancel);
}

#[test]
fn declared_length_of_a_download() {
    let total = |text: Option<&str>| DownloadRun::start(&plan(99), text).total;
    assert_eq!(total(None), 99);
    assert_eq!(total(Some("1234")), 1234);
    assert_eq!(total(Some("+7")), 7);
    assert_eq!(total(Some("0012")), 12);
    assert_eq!(total(Some("18446744073709551615")), u64::MAX);
    for bad in ["18446744073709551616", "", "+", "-0", " 5", "5 ", "1_000", "++1", "x"] {
        assert_eq!(total(Some(bad)), 99);
    }
}

#[test]
fn download_goes_piece_by_piece() {
    let mut c = DownloadControl::new();
    assert!(begin_download(&mut c).is_ok());
    let mut run = DownloadRun::start(&plan(99), Some("30"));
    assert!(matches!(run.advance(&mut c, DownloadEvent::Opened), (DownloadAction::Read, None)));
    assert!(matches!(
        run.advance(&mut c, DownloadEvent::Read(Ok(20))),
        (DownloadAction::Write(20), None)
    ));
    let (a, p) = run.advance(&mut c, DownloadEvent::Written(Ok(()), 1000));
    assert!(matches!(a, DownloadAction::Read));
    let p = p.unwrap();
    assert_eq!((p.model.as_str(), p.downloaded, p.total), ("tiny", 20, 30));
    assert_eq!(c.last_emit_ms, 1000);
    run.advance(&mut c, DownloadEvent::Read(Ok(5)));
    let (_, p) = run.advance(&mut c, DownloadEvent::Written(Ok(()), 1119));
    assert!(p.is_none());
    assert_eq!(run.downloaded, 25);
    assert_eq!(c.last_emit_ms, 1000);
    run.advance(&mut c, DownloadEvent::Read(Ok(5)));
    let (_, p) = run.advance(&mut c, DownloadEvent::Written(Ok(()), 1119));
    assert_eq!(p.unwrap().downloaded, 30);
    assert!(matches!(
        run.advance(&mut c, DownloadEvent::Read(Ok(0))),
        (DownloadAction::Finalize, None)
    ));
}

#[test]
fn download_fails_and_is_cancelled() {
    let mut c = DownloadControl::new();
    let mut run = DownloadRun::start(&plan(99), None);
    match run.advance(&mut c, DownloadEvent::Read(Err("reset".to_string()))).0 {
        DownloadAction::Fail(m) => assert_eq!(m, "Download read error: reset"),
        _ => panic!(),
    }
    run.advance(&mut c, DownloadEvent::Read(Ok(9)));
    match run.advance(&mut c, DownloadEvent::Written(Err("full".to_string()), 5)).0 {
        DownloadAction::Fail(m) => assert_eq!(m, "Download write error: full"),
        _ => panic!(),
    }
    assert_eq!(run.downloaded, 0);
    cancel_download(&mut c);
    match run.advance(&mut c, DownloadEvent::Opened).0 {
        DownloadAction::Discard(m) => assert_eq!(m, "Download cancelled"),
        _ => panic!(),
    }
    run.advance(&mut c, DownloadEvent::Read(Ok(9)));
    assert!(matches!(
        run.advance(&mut c, DownloadEvent::Written(Ok(()), 5)).0,
        DownloadAction::Discard(_)
    ));
    assert_eq!(run.downloaded, 9);
    let fail = |s: DownloadStage| stage_result::<u8>(s, Err("x".to_string())).unwrap_err();
    assert_eq!(fail(DownloadStage::Request), "Download request failed: x");
    assert_eq!(fail(DownloadStage::CreateFile), "Could not create temp file: x");
    assert_eq!(fail(DownloadStage::Finalize), "Could not finalize model: x");
    assert_eq!(stage_result(DownloadStage::Request, Ok(3u8)), Ok(3));
}

#[test]
fn languages() {
    assert_eq!(language_arg("auto"), None);
    assert_eq!(language_arg(""), None);
    assert_eq!(language_arg("es"), Some("es".to_string()));
    assert_eq!(language_arg("Auto"), Some("Auto".to_string()));
}

#[test]
fn segments_become_a_transcript() {
    let mut t = Transcript::new("/r/a.wav");
    let s = t.add_segment("  Hello there.\n", 0, 150).unwrap();
    assert_eq!((s.path.as_str(), s.index, s.start_cs, s.end_cs), ("/r/a.wav", 0, 0, 150));
    assert_eq!(s.text, "Hello there.");
    assert!(t.add_segment(" \t\u{a0}\u{3000}\r\n", 150, 200).is_none());
    let s = t.add_segment("\u{2003}Second \u{200b}one\u{85}", 200, 300).unwrap();
    assert_eq!(s.index, 1);
    assert_eq!(s.text, "Second \u{200b}one");
    let (done, result) = t.finish(Some("en"));
    assert_eq!(done.path, "/r/a.wav");
    assert_eq!(done.language, "en");
    assert_eq!(done.segment_count, 2);
    assert_eq!(result.text_path, "/r/a.txt");
    assert_eq!(result.text, "Hello there.\nSecond \u{200b}one");
    assert_eq!(result.language, "en");
    assert_eq!(result.segment_count, 2);
    let (done, result) = Transcript::new("/r/b.wav").finish(None);
    assert_eq!(done.language, "");
    assert_eq!(result.text, "");
    assert_eq!(result.segment_count, 0);
}

#[test]
fn progress_is_throttled() {
    let mut g = ProgressThrottle::new();
    let p = g.on_progress("/r/a.wav", -3, 1000).unwrap();
    assert_eq!((p.path.as_str(), p.percent), ("/r/a.wav", -3));
    assert!(g.on_progress("/r/a.wav", 0, 9000).is_none());
    assert!(g.on_progress("/r/a.wav", 1, 1079).is_none());
    assert_eq!(g.on_progress("/r/a.wav", 1, 1080).unwrap().percent, 1);
    assert_eq!(g.on_progress("/r/a.wav", 100, 1081).unwrap().percent, 100);
    assert!(g.on_progress("/r/a.wav", 140, 5000).is_none());
    assert!(g.on_progress("/r/a.wav", 50, 1000).is_none());
    let mut early = ProgressThrottle::new();
    assert!(early.on_progress("p", 5, 79).is_none());
    assert!(early.on_progress("p", 5, 80).is_some());
}

#[test]
fn transcription_goes_through_its_steps() {
    let task = |f: &TranscribeFacts| match next_transcribe_step(f) {
        Some(Pending::Do(t)) => Some(t),
        _ => None,
    };
    let failure = |f: &TranscribeFacts| match next_transcribe_step(f) {
        Some(Pending::Failed(m)) => m,
        _ => panic!(),
    };
    let mut f = TranscribeFacts::new();
    assert!(task(&f) == Some(TranscribeTask::FindModel));
    f.found = Some(Ok(()));
    assert!(task(&f) == Some(TranscribeTask::ReadAudio));
    f.audio = Some(Ok(16_000));
    assert!(task(&f) == Some(TranscribeTask::Announce));
    f.announced = true;
    assert!(task(&f) == Some(TranscribeTask::LoadModel));
    f.model = Some(Ok(()));
    assert!(task(&f) == Some(TranscribeTask::OpenModel));
    f.cached = Some(CachedModel::Ready);
    assert!(task(&f) == Some(TranscribeTask::CreateState));
    f.state = Some(Ok(()));
    assert!(task(&f) == Some(TranscribeTask::Infer));
    f.inference = Some(Ok(()));
    assert!(task(&f) == Some(TranscribeTask::WriteText));
    f.written = Some(Ok(()));
    assert!(next_transcribe_step(&f).is_none());
    f.written = Some(Err("full".to_string()));
    assert_eq!(failure(&f), "Could not write transcript: full");
    f.inference = Some(Err("oom".to_string()));
    assert_eq!(failure(&f), "Whisper inference failed: oom");
    f.state = Some(Err("oom".to_string()));
    assert_eq!(failure(&f), "Could not create whisper state: oom");
    f.cached = Some(CachedModel::Absent);
    assert_eq!(failure(&f), "Model not loaded");
    f.cached = Some(CachedModel::Locked);
    assert_eq!(failure(&f), "Model cache is locked");
    f.model = Some(Err("Could not load model tiny: bad".to_string()));
    assert_eq!(failure(&f), "Could not load model tiny: bad");
    f.audio = Some(Err("Could not open WAV: x".to_string()));
    assert_eq!(failure(&f), "Could not load model tiny: bad");
    f.model = Some(Ok(()));
    assert_eq!(failure(&f), "Could not open WAV: x");
    f.announced = false;
    f.model = None;
    assert!(task(&f) == Some(TranscribeTask::LoadModel));
    f.found = Some(Err("Unknown model: y".to_string()));
    assert_eq!(failure(&f), "Unknown model: y");
}

#[test]
fn models_do_not_share_a_path() {
    let raw = FilePath::Raw { base: vec![0xfe], below: vec!["models".to_string()] };
    for dir in [text("/d"), raw] {
        let paths: Vec<FilePath> =
            models().iter().map(|m| model_path_in(m.id, Ok(dir.clone())).unwrap()).collect();
        assert_eq!(paths[0], dir.join("ggml-tiny.bin"));
        for i in 0..paths.len() {
            for j in 0..i {
                assert_ne!(paths[i], paths[j]);
            }
        }
    }
}

#[test]
fn announcement_says_what_is_transcribed() {
    let s = transcript_started("/r/a.wav", "tiny", "auto", 24_000);
    assert_eq!((s.path.as_str(), s.model.as_str(), s.language.as_str()), ("/r/a.wav", "tiny", "auto"));
    assert_eq!(s.audio_samples, 24_000);
}
