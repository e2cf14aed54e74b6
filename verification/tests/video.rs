use bili_audio::bv::{
    content_length_or_zero, resume_range, select_audio_urls, Bv, BvError, VideoInfo, VideoRequest,
};
use bili_audio::json::{read_json, Json};
use bili_audio::bv::numbered_parts;

/// Reads a description as the program does: `None` where the program would
/// stop, because the text is not JSON or lacks what is read from it.
fn describe(q: &VideoRequest, body: &str) -> Option<VideoInfo> {
    let j = read_json(body).ok()?;
    if q.check_description(&j) {
        Some(q.info_from_json(&j))
    } else {
        None
    }
}

fn listing(body: &str) -> Option<Vec<String>> {
    let j = read_json(body).ok()?;
    if VideoInfo::check_audio_listing(&j) {
        Some(VideoInfo::audio_urls_from_json(&j))
    } else {
        None
    }
}

const DESCRIPTION: &str = r#"{"code":0,"data":{"title":"Song/Name\\Live","pic":"http://i0.hdslb.com/cover.jpg","pages":[{"cid":111,"page":1},{"cid":-222,"page":2}]}}"#;

fn request(bv: &str) -> VideoRequest {
    Bv::new(bv.to_string()).video_request().ok().unwrap()
}

#[test]
fn bv_new_keeps_the_text() {
    let b = Bv::new("BV1xx411c7mD".to_string());
    assert_eq!(b.bv, "BV1xx411c7mD");
}

#[test]
fn short_bv_is_refused() {
    assert!(matches!(Bv::new("BV1xx411c7m".to_string()).video_request(), Err(BvError::TooShort)));
    assert!(matches!(Bv::new(String::new()).video_request(), Err(BvError::TooShort)));
}

#[test]
fn plain_bv_is_part_one() {
    let q = request("BV1xx411c7mD");
    assert_eq!(q.bvid, "BV1xx411c7mD");
    assert_eq!(q.part, "1");
    assert_eq!(q.view_url(), "https://api.bilibili.com/x/web-interface/view?bvid=BV1xx411c7mD");
}

#[test]
fn bv_with_part_is_split() {
    let q = request("BV1xx411c7mD_3");
    assert_eq!(q.bvid, "BV1xx411c7mD");
    assert_eq!(q.part, "3");
    let q = request("BV1xx411c7mD?p=12");
    assert_eq!(q.part, "p=12");
    let q = request("BV1xx411c7mD_");
    assert_eq!(q.part, "");
}

#[test]
fn description_gives_the_details() {
    let q = request("BV1xx411c7mD");
    let v = describe(&q, DESCRIPTION).unwrap();
    assert_eq!(v.title(), "Song/Name\\Live");
    assert_eq!(v.bv(), "BV1xx411c7mD");
    assert_eq!(v.cid(), "111");
    assert_eq!(v.cover(), "http://i0.hdslb.com/cover.jpg");
    let v2 = describe(&request("BV1xx411c7mD-2"), DESCRIPTION).unwrap();
    assert_eq!(v2.cid(), "-222");
}

#[test]
fn incomplete_descriptions_are_refused() {
    let q = request("BV1xx411c7mD");
    assert!(describe(&q, "not json").is_none());
    assert!(describe(&q, r#"{"data":{"title":"t","pages":[{"cid":1}]}}"#).is_none());
    assert!(describe(&q, r#"{"data":{"pic":"p","pages":[{"cid":1}]}}"#).is_none());
    assert!(describe(&q, r#"{"data":{"title":"t","pic":"p","pages":[{"cid":"1"}]}}"#).is_none());
    assert!(describe(&q, r#"{"data":{"title":"t","pic":"p","pages":[]}}"#).is_none());
    assert!(describe(&q, r#"{"data":{"title":"t","pic":"p","pages":[{"cid":18446744073709551615}]}}"#).is_none());
    assert!(describe(&request("BV1xx411c7mD_0"), DESCRIPTION).is_none());
    assert!(describe(&request("BV1xx411c7mD_3"), DESCRIPTION).is_none());
    assert!(describe(&request("BV1xx411c7mD_x"), DESCRIPTION).is_none());
}

fn info() -> VideoInfo {
    describe(&request("BV1xx411c7mD"), DESCRIPTION).unwrap()
}

#[test]
fn addresses_and_headers() {
    let v = info();
    assert_eq!(
        v.audio_urls_url(),
        "http://api.bilibili.com/x/player/playurl?fnval=16&cid=111&bvid=BV1xx411c7mD"
    );
    assert_eq!(v.referer(), "https://api.bilibili.com/x/web-interface/view?bvid=BV1xx411c7mD");
    let h = v.request_headers();
    assert_eq!(h.len(), 6);
    assert_eq!(h[0], ("Accept".to_string(), "*/*".to_string()));
    assert_eq!(h[1], ("Accept-Language".to_string(), "en-US,en;q=0.5".to_string()));
    assert_eq!(h[2], ("Accept-Encoding".to_string(), "gzip, deflate, br".to_string()));
    assert_eq!(h[3], ("Referer".to_string(), v.referer()));
    assert_eq!(h[4], ("Origin".to_string(), "https://www.bilibili.com".to_string()));
    assert_eq!(h[5], ("Connection".to_string(), "keep-alive".to_string()));
}

#[test]
fn file_names() {
    let v = info();
    assert_eq!(v.audio_file_name(None, "mp3"), "SongNameLive.mp3");
    assert_eq!(v.audio_file_name(Some(2), "mp3"), "SongNameLive_2.mp3");
    assert_eq!(v.audio_file_name(Some(10), "flac"), "SongNameLive_10.flac");
    assert_ne!(v.audio_file_name(Some(1), "mp3"), v.audio_file_name(Some(10), "mp3"));
    assert_eq!(v.cover_file_name(), "BV1xx411c7mD.jpg");
}

#[test]
fn audio_listing() {
    let body = r#"{"data":{"dash":{"audio":[{"baseUrl":"http://a/1.m4s","id":30280},{"baseUrl":"http://a/2.m4s"}]}}}"#;
    let urls = listing(body).unwrap();
    assert_eq!(urls, vec!["http://a/1.m4s".to_string(), "http://a/2.m4s".to_string()]);
    assert_eq!(listing(r#"{"data":{"dash":{"audio":[]}}}"#).unwrap().len(), 0);
    assert!(listing(r#"{"data":{"dash":{"audio":[{"base":"x"}]}}}"#).is_none());
    assert!(listing(r#"{"data":{"dash":null}}"#).is_none());
    assert!(listing("[").is_none());
}

#[test]
fn numbering_parts() {
    let parts = numbered_parts(vec!["a".to_string(), "b".to_string(), "c".to_string()]);
    assert_eq!(
        parts,
        vec![("a".to_string(), 1), ("b".to_string(), 2), ("c".to_string(), 3)]
    );
    assert!(numbered_parts(Vec::new()).is_empty());
}

#[test]
fn reading_json_text() {
    assert!(read_json("{").is_err());
    assert!(read_json("").is_err());
    let j = read_json(r#"{"b":1,"a":"x","a":"y"}"#).ok().unwrap();
    assert_eq!(j.get("a").unwrap().as_str().unwrap(), "y");
    assert_eq!(j.get("b").unwrap().as_i64(), Some(1));
    assert!(read_json("1.5").ok().unwrap().as_i64().is_none());
}

#[test]
fn choosing_streams() {
    let urls = vec!["a".to_string(), "b".to_string()];
    assert_eq!(select_audio_urls(urls.clone(), true), urls);
    assert_eq!(select_audio_urls(urls, false), vec!["a".to_string()]);
}

#[test]
fn resuming_a_download() {
    assert_eq!(resume_range(0), (0, "bytes=0-".to_string()));
    assert_eq!(resume_range(1), (0, "bytes=0-".to_string()));
    assert_eq!(resume_range(100), (99, "bytes=99-".to_string()));
}

#[test]
fn content_length() {
    assert_eq!(content_length_or_zero(Some("1234")), 1234);
    assert_eq!(content_length_or_zero(Some("12x")), 0);
    assert_eq!(content_length_or_zero(None), 0);
}

#[test]
fn json_navigation() {
    let j = Json::Object(vec![
        ("a".to_string(), Json::Str("x".to_string())),
        ("b".to_string(), Json::Array(vec![Json::Number(Some(5)), Json::Null])),
    ]);
    assert_eq!(j.get("a").unwrap().as_str().unwrap(), "x");
    assert!(j.get("c").is_none());
    let b = j.get("b").unwrap();
    assert_eq!(b.as_array().unwrap().len(), 2);
    assert_eq!(b.at(0).unwrap().as_i64(), Some(5));
    assert!(b.at(2).is_none());
    assert!(b.at(1).unwrap().as_i64().is_none());
    assert!(Json::Null.get("a").is_none());
}
