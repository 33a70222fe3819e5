use rekk::deletion::{next_delete_step, DeleteFacts, DeleteTask};
use rekk::paths::FilePath;
use rekk::protocol::Pending;
use rekk::recordings::{
    delete_answer, delete_recording, entry_for, is_recording, is_wav,
    list_recordings, read_transcript, recording_dir, recording_dir_in, recording_name,
    recording_path, reveal_answer, reveal_recording, transcript_path, wav_duration_ms, FileMeta, ProbedFile, WavLength,
};

fn text(path: &str) -> FilePath {
    FilePath::Text(path.to_string())
}

fn file(path: &str, secs: Option<u64>) -> ProbedFile {
    ProbedFile {
        path: path.to_string(),
        name: Some(path.rsplit('/').next().unwrap().to_string()),
        meta: Some(FileMeta { size_bytes: 44, modified_secs: secs }),
        length: Some(WavLength { samples: 96_000, channels: 1, sample_rate: 48_000 }),
        has_transcript: false,
    }
}

#[test]
fn recordings_go_to_music_or_documents() {
    let s = |t: &str| Some(text(t));
    assert_eq!(recording_dir_in(s("/u/Music"), s("/u/Documents")), Ok(text("/u/Music/Rekk")));
    assert_eq!(recording_dir_in(None, s("/u/Documents")), Ok(text("/u/Documents/Rekk")));
    assert_eq!(
        recording_dir_in(None, None),
        Err("Could not find an audio/documents directory".to_string())
    );
    match recording_dir() {
        Ok(FilePath::Text(dir)) => assert!(dir.ends_with("/Rekk")),
        Ok(FilePath::Raw { below, .. }) => assert_eq!(below, vec!["Rekk".to_string()]),
        Err(m) => assert_eq!(m, "Could not find an audio/documents directory"),
    }
}

#[test]
fn recordings_are_named_by_time() {
    assert_eq!(recording_name("20240131-235959"), "rek-20240131-235959.wav");
    let dir = text("/u/Music/Rekk");
    let path = match recording_path(&dir) {
        FilePath::Text(path) => path,
        FilePath::Raw { .. } => panic!(),
    };
    assert!(path.starts_with("/u/Music/Rekk/rek-2"));
    assert_eq!(path.len(), "/u/Music/Rekk/rek-20240131-235959.wav".len());
    let stamp = &path["/u/Music/Rekk/rek-".len()..path.len() - ".wav".len()];
    assert!(stamp[4..6].parse::<u32>().unwrap() <= 12 && &stamp[8..9] == "-");
    assert!(is_recording(&path));
    assert!(delete_recording(&path, &dir).is_ok());
    assert_eq!(reveal_recording(&path, &dir, true), Ok(()));
}

#[test]
fn directories_that_are_not_text_are_kept() {
    let music = || FilePath::Raw { base: vec![b'/', 0xff, b'm'], below: Vec::new() };
    let dir = match recording_dir_in(Some(music()), None) {
        Ok(dir) => dir,
        Err(_) => panic!(),
    };
    assert_eq!(
        dir,
        FilePath::Raw { base: vec![b'/', 0xff, b'm'], below: vec!["Rekk".to_string()] }
    );
    match recording_path(&dir) {
        FilePath::Raw { base, below } => {
            assert_eq!(base, vec![b'/', 0xff, b'm']);
            assert_eq!(below.len(), 2);
            assert_eq!(below[0], "Rekk");
            assert!(below[1].starts_with("rek-") && below[1].ends_with(".wav"));
        }
        FilePath::Text(_) => panic!(),
    }
    assert!(delete_recording("/\u{fffd}m/Rekk/a.wav", &dir).is_err());
    assert!(reveal_recording("/\u{fffd}m/Rekk/a.wav", &dir, true).is_err());
}

#[test]
fn only_wav_files_are_recordings() {
    assert!(is_recording("/r/a.wav"));
    assert!(!is_recording("/r/a.WAV"));
    assert!(!is_recording("/r/a.txt"));
    assert!(!is_recording("/r/.wav"));
    assert!(!is_recording("/r/wav"));
    assert_eq!(transcript_path("/r/a.b.wav"), "/r/a.b.txt");
    assert_eq!(transcript_path("/r/plain"), "/r/plain.txt");
    assert!(!is_recording(&transcript_path("/r/a.wav")));
}

#[test]
fn durations() {
    let d = |samples: u32, channels: u16, sample_rate: u32| {
        wav_duration_ms(WavLength { samples, channels, sample_rate })
    };
    assert_eq!(d(96_000, 1, 48_000), 2000);
    assert_eq!(d(96_000, 2, 48_000), 1000);
    assert_eq!(d(1, 1, 48_000), 0);
    assert_eq!(d(5, 0, 1000), 5);
    assert_eq!(d(5, 1, 0), 0);
    assert_eq!(d(u32::MAX, 1, 1), 4_294_967_295_000);
}

#[test]
fn list_is_newest_first_and_stable() {
    let files = vec![
        file("/r/a.wav", Some(10)),
        file("/r/b.wav", Some(30)),
        file("/r/notes.txt", Some(99)),
        file("/r/c.wav", Some(10)),
        file("/r/d.wav", None),
        file("/r/e.wav", Some(30)),
    ];
    let names: Vec<String> = list_recordings(files).into_iter().map(|e| e.name).collect();
    assert_eq!(names, vec!["b.wav", "e.wav", "a.wav", "c.wav", "d.wav"]);
}

#[test]
fn list_entries_say_what_was_found() {
    let mut known = file("/r/a.wav", Some(u64::MAX));
    known.has_transcript = true;
    let mut bare = file("/r/b.wav", Some(7));
    bare.name = None;
    bare.length = None;
    let mut lost = file("/r/c.wav", Some(9));
    lost.meta = None;
    let list = list_recordings(vec![known, bare, lost]);
    assert_eq!(list.len(), 2);
    assert_eq!(list[0].name, "");
    assert_eq!(list[0].duration_ms, 0);
    assert_eq!(list[0].modified_secs, 7);
    assert_eq!(list[1].path, "/r/a.wav");
    assert_eq!(list[1].duration_ms, 2000);
    assert_eq!(list[1].size_bytes, 44);
    assert_eq!(list[1].modified_secs, -1);
    assert!(list[1].has_transcript && !list[0].has_transcript);
    assert!(list_recordings(Vec::new()).is_empty());
}

#[test]
fn nothing_outside_the_directory_is_touched() {
    for outside in ["/u/Music/Rekk2/a.wav", "/u/Music/a.wav", "Rekk/a.wav", "/etc/passwd"] {
        match delete_recording(outside, &text("/u/Music/Rekk")) {
            Err(m) => assert_eq!(m, "Refusing to delete file outside Rek directory"),
            Ok(_) => panic!(),
        }
        assert_eq!(
            reveal_recording(outside, &text("/u/Music/Rekk"), true),
            Err("Refusing to reveal file outside Rek directory".to_string())
        );
    }
    assert_eq!(
        reveal_recording("/u/Music/Rekk/a.wav", &text("/u/Music/Rekk"), false),
        Err("File does not exist".to_string())
    );
}

#[test]
fn deleting_takes_the_transcript_along() {
    match delete_recording("/u/Music/Rekk/a.wav", &text("/u/Music/Rekk")) {
        Ok(plan) => {
            assert_eq!(plan.audio, "/u/Music/Rekk/a.wav");
            assert_eq!(plan.transcript, "/u/Music/Rekk/a.txt");
        }
        Err(_) => panic!(),
    }
}

#[test]
fn transcripts_are_read() {
    assert_eq!(read_transcript(None), Ok(String::new()));
    assert_eq!(read_transcript(Some(Ok("hi".to_string()))), Ok("hi".to_string()));
    assert_eq!(
        read_transcript(Some(Err("denied".to_string()))),
        Err("Could not read transcript: denied".to_string())
    );
}

#[test]
fn decisions_follow_from_what_the_path_is() {
    assert!(is_wav(&Some("wav".to_string())));
    assert!(!is_wav(&Some("WAV".to_string())));
    assert!(!is_wav(&None));
    assert!(entry_for(file("/r/a.wav", Some(5)), false).is_none());
    let entry = entry_for(file("/r/a.wav", Some(5)), true).unwrap();
    assert_eq!((entry.name.as_str(), entry.modified_secs, entry.duration_ms), ("a.wav", 5, 2000));
    let outside = "Refusing to reveal file outside Rek directory".to_string();
    assert_eq!(reveal_answer(false, true), Err(outside.clone()));
    assert_eq!(reveal_answer(false, false), Err(outside));
    assert_eq!(reveal_answer(true, false), Err("File does not exist".to_string()));
    assert_eq!(reveal_answer(true, true), Ok(()));
    let plan = delete_answer(true, "/r/a.wav", "/r/a.txt".to_string()).unwrap();
    assert_eq!((plan.audio.as_str(), plan.transcript.as_str()), ("/r/a.wav", "/r/a.txt"));
    match delete_answer(false, "/x", "/x.txt".to_string()) {
        Ok(_) => panic!(),
        Err(m) => assert_eq!(m, "Refusing to delete file outside Rek directory"),
    }
}

/// Deletes `a.wav` and its transcript from a list of files.
fn delete(files: &mut Vec<&str>, audio_fault: bool, transcript_fault: bool) -> Result<(), String> {
    let mut facts = DeleteFacts::new();
    while let Some(step) = next_delete_step(&facts) {
        match step {
            Pending::Failed(message) => return Err(message),
            Pending::Do(DeleteTask::LookForAudio) => {
                facts.audio_there = Some(files.contains(&"a.wav"))
            }
            Pending::Do(DeleteTask::RemoveAudio) => {
                facts.audio_removed = Some(if audio_fault {
                    Err("busy".to_string())
                } else {
                    files.retain(|f| *f != "a.wav");
                    Ok(())
                })
            }
            Pending::Do(DeleteTask::LookForTranscript) => {
                facts.transcript_there = Some(files.contains(&"a.txt"))
            }
            Pending::Do(DeleteTask::RemoveTranscript) => {
                if !transcript_fault {
                    files.retain(|f| *f != "a.txt");
                }
                facts.transcript_tried = true;
            }
        }
    }
    Ok(())
}

#[test]
fn transcript_goes_only_after_the_recording() {
    let mut files = vec!["a.wav", "a.txt", "b.wav"];
    assert_eq!(
        delete(&mut files, true, false),
        Err("Could not delete recording: busy".to_string())
    );
    assert_eq!(files, vec!["a.wav", "a.txt", "b.wav"]);
    assert_eq!(delete(&mut files, false, true), Ok(()));
    assert_eq!(files, vec!["a.txt", "b.wav"]);
    assert_eq!(delete(&mut files, true, false), Ok(()));
    assert_eq!(files, vec!["b.wav"]);
    assert_eq!(delete(&mut files, true, true), Ok(()));
    assert_eq!(files, vec!["b.wav"]);
}
