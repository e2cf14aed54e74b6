use bili_audio::bv::{Bv, VideoInfo};
use bili_audio::json::read_json;
use bili_audio::decimal::{parse_u64, u64_to_decimal};
use bili_audio::ffmpeg::transcode_output;
use bili_audio::text::{remove_path_separators, replace_all_str, split_lines};
use bili_audio::upload::UploadProgress;

#[test]
fn different_numbers_have_different_texts() {
    let texts: Vec<String> = (0u64..200).map(u64_to_decimal).collect();
    for i in 0..texts.len() {
        for j in 0..i {
            assert_ne!(texts[i], texts[j]);
        }
        assert_eq!(parse_u64(&texts[i]), Some(i as u64));
    }
}

#[test]
fn clean_titles_stay_as_they_are() {
    assert_eq!(remove_path_separators("plain title"), "plain title");
    let once = remove_path_separators("a/b\\c//d");
    assert!(!once.contains('/') && !once.contains('\\'));
    assert_eq!(remove_path_separators(&once), once);
}

#[test]
fn same_length_replacement_keeps_length() {
    for s in ["x.m4s", ".m4s.m4s.m4", "m4s", "abc.m4sx"] {
        assert_eq!(replace_all_str(s, ".m4s", ".mp3").chars().count(), s.chars().count());
        assert_eq!(transcode_output(s).chars().count(), s.chars().count());
    }
    assert_eq!(transcode_output("song.flac"), "song.flac");
}

#[test]
fn no_line_holds_a_feed_and_a_final_feed_adds_none() {
    for s in ["a\nb", "a\r\n\nb\r", "x", "x\ny\nz"] {
        for l in split_lines(s) {
            assert!(!l.contains('\n'));
        }
        let with_feed = format!("{}\n", s);
        if !s.ends_with('\r') {
            assert_eq!(split_lines(&with_feed), split_lines(s));
        }
    }
}

#[test]
fn long_bv_is_identifier_separator_and_part() {
    for s in ["BV1xx411c7mD_3", "BV1xx411c7mD-", "BV1xx411c7mD?p=2"] {
        let q = Bv::new(s.to_string()).video_request().ok().unwrap();
        assert_eq!(format!("{}{}{}", q.bvid, &s[12..13], q.part), s);
    }
}

#[test]
fn parts_are_saved_apart_and_inside_the_directory() {
    let body = r#"{"data":{"title":"a/b","pic":"p","pages":[{"cid":1}]}}"#;
    let q = Bv::new("BV1xx411c7mD".to_string()).video_request().ok().unwrap();
    let j = read_json(body).ok().unwrap();
    assert!(q.check_description(&j));
    let v: VideoInfo = q.info_from_json(&j);
    let names: Vec<String> = (1usize..30).map(|p| v.audio_file_name(Some(p), "mp3")).collect();
    for i in 0..names.len() {
        assert!(!names[i].contains('/') && !names[i].contains('\\'));
        for j in 0..i {
            assert_ne!(names[i], names[j]);
        }
    }
}

#[test]
fn upload_count_never_passes_the_size() {
    let mut p = UploadProgress { uploaded: 3, total: 100 };
    let mut last = p.uploaded;
    for len in [10u64, 0, 50, 7, 90, 1] {
        p.advance(len);
        assert!(p.uploaded <= p.total);
        assert!(p.uploaded >= last);
        last = p.uploaded;
    }
    assert_eq!(p.uploaded, 100);
}
