use bili_audio::cli::Args;
use bili_audio::config::ConfigFile;
use bili_audio::bv::Bv;
use bili_audio::ffmpeg::{ffmpeg_program, transcode_args, transcode_output};
use bili_audio::json::read_json;
use bili_audio::upload::{
    check_key, check_qr, check_status, check_url, get_timestamp, key_from_json, key_url, login_step,
    qr_from_json, qr_url, status_from_json, upload_range_header, LoginStatus, LoginStep,
    UploadProgress, User, NETEAST_BASE_URL,
};

#[test]
fn login_addresses() {
    assert_eq!(key_url(1700000000), "http://129.211.15.249:3000/login/qr/key?timestamp=1700000000");
    assert_eq!(qr_url("k1", 5), "http://129.211.15.249:3000/login/qr/create?key=k1&timestamp=5");
    assert_eq!(check_url("k1", 6), "http://129.211.15.249:3000/login/qr/check?key=k1&timestamp=6");
    assert_eq!(NETEAST_BASE_URL, "http://129.211.15.249:3000");
}

#[test]
fn login_answers() {
    let j = read_json(r#"{"data":{"code":200,"unikey":"abc-123"},"code":200}"#).ok().unwrap();
    assert!(check_key(&j));
    assert_eq!(key_from_json(&j), "abc-123");
    assert!(!check_key(&read_json(r#"{"data":{}}"#).ok().unwrap()));
    assert!(read_json("oops").is_err());
    let j = read_json(r#"{"data":{"qrurl":"https://q/x?k=1","qrimg":""}}"#).ok().unwrap();
    assert!(check_qr(&j));
    assert_eq!(qr_from_json(&j), "https://q/x?k=1");
    assert!(!check_qr(&read_json(r#"{"data":{"qrurl":7}}"#).ok().unwrap()));
    let j = read_json(r#"{"code":803,"message":"ok","cookie":"MUSIC_U=1"}"#).ok().unwrap();
    assert!(check_status(&j));
    let st = status_from_json(&j);
    assert_eq!(st.code, 803);
    assert_eq!(st.message, "ok");
    assert_eq!(st.cookie.as_deref(), Some("MUSIC_U=1"));
    let j = read_json(r#"{"code":801,"message":"wait","cookie":null}"#).ok().unwrap();
    assert!(check_status(&j));
    assert!(status_from_json(&j).cookie.is_none());
    assert!(!check_status(&read_json(r#"{"message":"wait"}"#).ok().unwrap()));
    assert!(!check_status(&read_json(r#"{"code":801}"#).ok().unwrap()));
    assert!(!check_status(&read_json(r#"{"code":"801","message":"m"}"#).ok().unwrap()));
}

fn status(code: i64, cookie: Option<&str>) -> LoginStatus {
    LoginStatus { code, message: String::new(), cookie: cookie.map(|c| c.to_string()) }
}

#[test]
fn login_decisions() {
    assert!(matches!(login_step(status(803, Some("c"))), LoginStep::LoggedIn(c) if c == "c"));
    assert!(matches!(login_step(status(803, None)), LoginStep::Waiting));
    assert!(matches!(login_step(status(800, None)), LoginStep::Expired));
    assert!(matches!(login_step(status(800, Some("c"))), LoginStep::Expired));
    assert!(matches!(login_step(status(801, Some("c"))), LoginStep::Waiting));
    assert!(matches!(login_step(status(802, None)), LoginStep::Waiting));
}

#[test]
fn upload_addresses() {
    let u = User { cookie: "MUSIC_U=1".to_string() };
    assert_eq!(u.upload_url(9), "http://129.211.15.249:3000/cloud?cookie=MUSIC_U=1&timestramp=9");
    assert_eq!(upload_range_header(0), "bytes=0-");
    assert_eq!(upload_range_header(4096), "bytes=4096-");
}

#[test]
fn upload_progress() {
    let mut p = UploadProgress { uploaded: 0, total: 10 };
    assert!(!p.advance(4));
    assert_eq!(p.uploaded, 4);
    assert!(!p.advance(5));
    assert!(p.advance(5));
    assert_eq!(p.uploaded, 10);
    let mut q = UploadProgress { uploaded: 20, total: 10 };
    assert!(q.advance(1));
    assert_eq!(q.uploaded, 10);
    let mut e = UploadProgress { uploaded: 0, total: 0 };
    assert!(e.advance(0));
}

#[test]
fn clock_is_past_the_epoch() {
    assert!(get_timestamp().unwrap() > 1_600_000_000);
}

#[test]
fn list_file_and_arguments() {
    let from_file = ConfigFile::bv_list("BV1aaaaaaaaaa\r\nBV1bbbbbbbbbb_2\n\nBV1cccccccccc");
    let names: Vec<&str> = from_file.iter().map(|b| b.bv.as_str()).collect();
    assert_eq!(names, vec!["BV1aaaaaaaaaa", "BV1bbbbbbbbbb_2", "", "BV1cccccccccc"]);
    assert!(ConfigFile::bv_list("").is_empty());
    let args = Args {
        list: None,
        bv: vec!["BV1dddddddddd".to_string()],
        all: false,
        upload: false,
        format: Args::default_format(),
    };
    assert_eq!(args.format, "mp3");
    let all = args.bv_list(vec![Bv::new("x".to_string())]);
    let names: Vec<&str> = all.iter().map(|b| b.bv.as_str()).collect();
    assert_eq!(names, vec!["x", "BV1dddddddddd"]);
}

#[test]
fn transcoding() {
    assert_eq!(ffmpeg_program(), "bin\\win\\ffmpeg.exe");
    assert_eq!(transcode_output("download/a.m4s"), "download/a.mp3");
    assert_eq!(transcode_output("download/a_1.mp3"), "download/a_1.mp3");
    assert_eq!(
        transcode_args("x.m4s"),
        vec!["-i", "x.m4s", "-aq", "0", "-acodec", "libmp3lame", "x.mp3"]
            .into_iter()
            .map(|s| s.to_string())
            .collect::<Vec<String>>()
    );
}
