use vstd::prelude::*;
use vstd::utf8::{encode_utf8, is_char_boundary};
use crate::decimal::{
    decimal, decimal_injective, decimal_roundtrip_usize, i64_to_decimal, is_digit, lemma_decimal_reads_back,
    parse_u64, parse_usize, parsed_u64, parsed_usize, signed_decimal, u64_to_decimal,
};
use crate::json::{Json, member_of};
use crate::text::{
    is_path_separator, push_char, remove_path_separators, without_separators,
    without_separators_has_none,
};

verus! {

/// A video's BV identifier as the user gave it: twelve bytes of identifier,
/// optionally followed by one separator byte and a part number.
#[derive(Debug, Clone)]
pub struct Bv {
    pub bv: String,
}

/// Why a video's details cannot be asked for.
#[derive(Debug)]
pub enum BvError {
    /// The identifier has fewer than twelve bytes.
    TooShort,
}

/// The identifier and the part number of a video, split out of a `Bv`.
#[derive(Debug)]
pub struct VideoRequest {
    pub bvid: String,
    pub part: String,
}

/// The API that describes a video; its identifier follows.
pub open spec fn video_view_api() -> Seq<char> {
    "https://api.bilibili.com/x/web-interface/view?bvid="@
}

/// The UTF-8 bytes of a text.
pub open spec fn utf8(s: Seq<char>) -> Seq<u8> {
    encode_utf8(s)
}

impl Bv {
    /// Wraps an identifier as given.
    pub fn new(bv: String) -> (r: Self)
        ensures
            r.bv == bv,
    {
        Self { bv }
    }

    /// The identifier can be split without cutting a character: it has at
    /// most twelve bytes, or bytes 12 and 13 both start characters.
    pub open spec fn splittable(self) -> bool {
        let b = utf8(self.bv@);
        b.len() > 12 ==> is_char_boundary(b, 12) && is_char_boundary(b, 13)
    }

    /// Splits the identifier into the video's identifier and part number:
    /// an identifier of exactly twelve bytes is part `1`; a longer one gives
    /// its first twelve bytes and everything after the thirteenth.
    pub fn video_request(&self) -> (r: Result<VideoRequest, BvError>)
        requires
            self.splittable(),
        ensures
            utf8(self.bv@).len() < 12 <==> r is Err,
            utf8(self.bv@).len() == 12 ==> (r matches Ok(q) && q.bvid@ == self.bv@ && q.part@
                == seq!['1']),
            utf8(self.bv@).len() > 12 ==> (r matches Ok(q) && utf8(q.bvid@) == utf8(self.bv@).subrange(
                0,
                12,
            ) && utf8(q.part@) == utf8(self.bv@).subrange(13, utf8(self.bv@).len() as int)),
    {
        let s = self.bv.as_str();
        let len = s.as_bytes().len();
        if len < 12 {
            return Err(BvError::TooShort);
        }
        if len == 12 {
            let mut part = String::new();
            push_char(&mut part, '1');
            assert(part@ =~= seq!['1']);
            return Ok(VideoRequest { bvid: self.bv.clone(), part });
        }
        let (head, _) = s.split_at(12);
        let (_, tail) = s.split_at(13);
        Ok(VideoRequest { bvid: head.to_owned(), part: tail.to_owned() })
    }
}

/// Law: a long identifier is its video identifier, one separator byte, and
/// its part number, byte for byte.
pub proof fn video_request_loses_only_the_separator(b: Bv, q: VideoRequest)
    requires
        utf8(b.bv@).len() > 12,
        utf8(q.bvid@) == utf8(b.bv@).subrange(0, 12),
        utf8(q.part@) == utf8(b.bv@).subrange(13, utf8(b.bv@).len() as int),
    ensures
        utf8(b.bv@) == utf8(q.bvid@) + seq![utf8(b.bv@)[12]] + utf8(q.part@),
{
    assert(utf8(b.bv@) =~= utf8(q.bvid@) + seq![utf8(b.bv@)[12]] + utf8(q.part@));
}

/// The details of a video that the downloads need.
#[derive(Debug, Clone)]
pub struct VideoInfo {
    title: String,
    bv: String,
    cid: String,
    cover: String,
}

/// The details of a video, by their characters.
pub struct VideoInfoView {
    pub title: Seq<char>,
    pub bv: Seq<char>,
    pub cid: Seq<char>,
    pub cover: Seq<char>,
}

impl View for VideoInfo {
    type V = VideoInfoView;

    closed spec fn view(&self) -> VideoInfoView {
        VideoInfoView { title: self.title@, bv: self.bv@, cid: self.cid@, cover: self.cover@ }
    }
}

impl VideoRequest {
    /// The address that describes the video.
    pub fn view_url(&self) -> (r: String)
        ensures
            r@ == video_view_api() + self.bvid@,
    {
        let mut s = String::from_str("https://api.bilibili.com/x/web-interface/view?bvid=");
        s.append(self.bvid.as_str());
        s
    }

    /// The zero-based page that the part number names: the part number
    /// read as a `usize`, less one.
    pub open spec fn page_index(self) -> Option<nat> {
        match parsed_usize(self.part@) {
            Some(p) => if p >= 1 {
                Some((p - 1) as nat)
            } else {
                None
            },
            None => None,
        }
    }

    /// `data.title` of the description.
    pub open spec fn title_of(j: Json) -> Option<Seq<char>> {
        j.member("data"@).member("title"@).str_value()
    }

    /// `data.pic` of the description.
    pub open spec fn cover_of(j: Json) -> Option<Seq<char>> {
        j.member("data"@).member("pic"@).str_value()
    }

    /// `data.pages[page].cid` of the description.
    pub open spec fn cid_of(self, j: Json) -> Option<i64> {
        match self.page_index() {
            Some(i) => j.member("data"@).member("pages"@).element(i as int).member("cid"@).i64_value(),
            None => None,
        }
    }

    /// The description holds everything that is read from it: a part number
    /// of at least 1, a string title and cover, and an integer `cid` on the
    /// page that the part names.
    pub open spec fn describes(self, j: Json) -> bool {
        &&& self.page_index() is Some
        &&& Self::cover_of(j) is Some
        &&& Self::title_of(j) is Some
        &&& self.cid_of(j) is Some
    }

    /// Tells whether the description holds everything that is read from it.
    pub fn check_description(&self, j: &Json) -> (r: bool)
        ensures
            r == self.describes(*j),
    {
        let p = match parse_usize(self.part.as_str()) {
            Some(p) => p,
            None => return false,
        };
        if p < 1 {
            return false;
        }
        let data = j.get("data");
        let cover_ok = match member_of(data, "pic") {
            Some(c) => c.as_str().is_some(),
            None => false,
        };
        let title_ok = match member_of(data, "title") {
            Some(t) => t.as_str().is_some(),
            None => false,
        };
        let page = match member_of(data, "pages") {
            Some(pages) => pages.at(p - 1),
            None => None,
        };
        let cid_ok = match member_of(page, "cid") {
            Some(c) => c.as_i64().is_some(),
            None => false,
        };
        cover_ok && title_ok && cid_ok
    }

    /// Takes the video's details out of its description.
    pub fn info_from_json(&self, j: &Json) -> (r: VideoInfo)
        requires
            self.describes(*j),
        ensures
            Some(r@.title) == Self::title_of(*j),
            r@.bv == self.bvid@,
            r@.cid == signed_decimal(self.cid_of(*j)->0 as int),
            Some(r@.cover) == Self::cover_of(*j),
            Some(r@.title) == j.member("data"@).member("title"@).str_value(),
            Some(r@.cover) == j.member("data"@).member("pic"@).str_value(),
            r@.cid == signed_decimal(
                j.member("data"@).member("pages"@).element(parsed_usize(self.part@)->0 - 1).member(
                    "cid"@,
                ).i64_value()->0 as int,
            ),
    {
        let p = parse_usize(self.part.as_str()).unwrap();
        let data = j.get("data");
        let cover = member_of(data, "pic").unwrap().as_str().unwrap().clone();
        let title = member_of(data, "title").unwrap().as_str().unwrap().clone();
        let page = member_of(data, "pages").unwrap().at(p - 1);
        let cid = member_of(page, "cid").unwrap().as_i64().unwrap();
        VideoInfo { title, bv: self.bvid.clone(), cid: i64_to_decimal(cid), cover }
    }
}


/// The API that lists a video's audio streams; `cid=` follows.
pub open spec fn play_url_api() -> Seq<char> {
    "http://api.bilibili.com/x/player/playurl?fnval=16&"@
}

/// The name of an audio file: the title without path separators, then
/// `_` and the part number where there is one, then `.` and the format.
pub open spec fn audio_file_name(title: Seq<char>, part: Option<usize>, format: Seq<char>) -> Seq<char> {
    match part {
        None => without_separators(title) + seq!['.'] + format,
        Some(p) => without_separators(title) + seq!['_'] + decimal(p as nat) + seq!['.'] + format,
    }
}

/// The headers sent with every audio request, as (name, value).
pub open spec fn download_headers(bv: Seq<char>) -> Seq<(Seq<char>, Seq<char>)> {
    seq![
        ("Accept"@, "*/*"@),
        ("Accept-Language"@, "en-US,en;q=0.5"@),
        ("Accept-Encoding"@, "gzip, deflate, br"@),
        ("Referer"@, video_view_api() + bv),
        ("Origin"@, "https://www.bilibili.com"@),
        ("Connection"@, "keep-alive"@),
    ]
}

/// `data.dash.audio` of a stream listing, where it is an array.
pub open spec fn audio_list_of(j: Json) -> Option<Seq<Json>> {
    j.member("data"@).member("dash"@).member("audio"@).array_value()
}

/// The listing holds an array of audio streams, each with a string `baseUrl`.
pub open spec fn lists_audio(j: Json) -> bool {
    match audio_list_of(j) {
        Some(items) => forall|i: int|
            0 <= i < items.len() ==> (#[trigger] items[i]).member("baseUrl"@).str_value() is Some,
        None => false,
    }
}

/// The `baseUrl` of every audio stream, in order.
pub open spec fn audio_urls_of(j: Json, urls: Seq<String>) -> bool {
    &&& audio_list_of(j) is Some
    &&& urls.len() == audio_list_of(j)->0.len()
    &&& forall|i: int|
        0 <= i < urls.len() ==> Some((#[trigger] urls[i])@) == audio_list_of(j)->0[i].member(
            "baseUrl"@,
        ).str_value()
}

fn from_literal(s: &str) -> (r: String)
    ensures
        r@ == s@,
{
    String::from_str(s)
}

impl VideoInfo {
    /// The video's identifier.
    pub fn bv(&self) -> (r: &String)
        ensures
            r@ == self@.bv,
    {
        &self.bv
    }

    /// The video's title.
    pub fn title(&self) -> (r: &String)
        ensures
            r@ == self@.title,
    {
        &self.title
    }

    /// The page's content identifier, in decimal.
    pub fn cid(&self) -> (r: &String)
        ensures
            r@ == self@.cid,
    {
        &self.cid
    }

    /// The address of the cover picture.
    pub fn cover(&self) -> (r: &String)
        ensures
            r@ == self@.cover,
    {
        &self.cover
    }

    /// The address that lists the video's audio streams.
    pub fn audio_urls_url(&self) -> (r: String)
        ensures
            r@ == play_url_api() + "cid="@ + self@.cid + "&bvid="@ + self@.bv,
    {
        let mut s = from_literal("http://api.bilibili.com/x/player/playurl?fnval=16&");
        s.append("cid=");
        s.append(self.cid.as_str());
        s.append("&bvid=");
        s.append(self.bv.as_str());
        s
    }

    /// The page that refers the audio requests: the video's description.
    pub fn referer(&self) -> (r: String)
        ensures
            r@ == video_view_api() + self@.bv,
    {
        let mut s = from_literal("https://api.bilibili.com/x/web-interface/view?bvid=");
        s.append(self.bv.as_str());
        s
    }

    /// The headers of an audio request, as (name, value).
    pub fn request_headers(&self) -> (r: Vec<(String, String)>)
        ensures
            r@.len() == download_headers(self@.bv).len(),
            forall|i: int|
                0 <= i < r@.len() ==> (#[trigger] r@[i]).0@ == download_headers(self@.bv)[i].0
                    && r@[i].1@ == download_headers(self@.bv)[i].1,
    {
        let mut v: Vec<(String, String)> = Vec::new();
        v.push((from_literal("Accept"), from_literal("*/*")));
        v.push((from_literal("Accept-Language"), from_literal("en-US,en;q=0.5")));
        v.push((from_literal("Accept-Encoding"), from_literal("gzip, deflate, br")));
        v.push((from_literal("Referer"), self.referer()));
        v.push((from_literal("Origin"), from_literal("https://www.bilibili.com")));
        v.push((from_literal("Connection"), from_literal("keep-alive")));
        v
    }

    /// The name of the file that an audio stream is saved to.
    pub fn audio_file_name(&self, part: Option<usize>, format: &str) -> (r: String)
        ensures
            r@ == audio_file_name(self@.title, part, format@),
            part is None ==> r@ == without_separators(self@.title) + seq!['.'] + format@,
            part matches Some(p) ==> r@ == without_separators(self@.title) + seq!['_'] + decimal(
                p as nat,
            ) + seq!['.'] + format@,
    {
        let mut s = remove_path_separators(self.title.as_str());
        match part {
            None => {},
            Some(p) => {
                push_char(&mut s, '_');
                let digits = u64_to_decimal(p as u64);
                s.append(digits.as_str());
            },
        }
        push_char(&mut s, '.');
        s.append(format);
        s
    }

    /// The name of the file that the cover picture is saved to.
    pub fn cover_file_name(&self) -> (r: String)
        ensures
            r@ == self@.bv + ".jpg"@,
    {
        let mut s = self.bv.clone();
        s.append(".jpg");
        s
    }

    /// Tells whether a stream listing holds what is read from it.
    pub fn check_audio_listing(j: &Json) -> (r: bool)
        ensures
            r == lists_audio(*j),
            r == any_string_addresses(*j),
    {
        let list = member_of(member_of(j.get("data"), "dash"), "audio");
        let items = match list {
            Some(a) => match a.as_array() {
                Some(items) => items,
                None => return false,
            },
            None => return false,
        };
        let n = items.len();
        let mut i: usize = 0;
        while i < n
            invariant
                i <= n,
                n == items@.len(),
                audio_list_of(*j) == Some(items@),
                forall|k: int|
                    0 <= k < i ==> (#[trigger] items@[k]).member("baseUrl"@).str_value() is Some,
            decreases n - i,
        {
            let ok = match items[i].get("baseUrl") {
                Some(u) => u.as_str().is_some(),
                None => false,
            };
            if !ok {
                return false;
            }
            i = i + 1;
        }
        true
    }

    /// The `baseUrl` of every audio stream of a listing, in order.
    pub fn audio_urls_from_json(j: &Json) -> (r: Vec<String>)
        requires
            lists_audio(*j),
        ensures
            audio_urls_of(*j, r@),
    {
        let items = member_of(member_of(j.get("data"), "dash"), "audio").unwrap().as_array().unwrap();
        let n = items.len();
        let mut out: Vec<String> = Vec::new();
        let mut i: usize = 0;
        while i < n
            invariant
                i <= n,
                n == items@.len(),
                audio_list_of(*j) == Some(items@),
                lists_audio(*j),
                out@.len() == i,
                forall|k: int|
                    0 <= k < i ==> Some((#[trigger] out@[k])@) == items@[k].member(
                        "baseUrl"@,
                    ).str_value(),
            decreases n - i,
        {
            assert(items@[i as int].member("baseUrl"@).str_value() is Some);
            let u = items[i].get("baseUrl").unwrap().as_str().unwrap().clone();
            out.push(u);
            i = i + 1;
        }
        out
    }
}

/// The audio streams to fetch: all of them, or only the first.
pub fn select_audio_urls(urls: Vec<String>, all: bool) -> (r: Vec<String>)
    requires
        all || urls@.len() > 0,
    ensures
        all ==> r@ == urls@,
        !all ==> r@ == seq![urls@[0]],
{
    if all {
        urls
    } else {
        let mut r: Vec<String> = Vec::new();
        r.push(urls[0].clone());
        r
    }
}

/// The chosen streams, each with its part number: the first is part 1.
pub fn numbered_parts(urls: Vec<String>) -> (r: Vec<(String, usize)>)
    ensures
        r@.len() == urls@.len(),
        forall|i: int| 0 <= i < r@.len() ==> (#[trigger] r@[i]).0 == urls@[i] && r@[i].1 == i + 1,
{
    let n = urls.len();
    let mut r: Vec<(String, usize)> = Vec::new();
    let mut i: usize = 0;
    while i < n
        invariant
            i <= n,
            n == urls@.len(),
            r@.len() == i,
            forall|k: int| 0 <= k < i ==> (#[trigger] r@[k]).0 == urls@[k] && r@[k].1 == k + 1,
        decreases n - i,
    {
        r.push((urls[i].clone(), i + 1));
        i = i + 1;
    }
    r
}

/// How much of an audio file to fetch again, given the length of what is
/// already on disk: the last byte is fetched again, and the `Range` header
/// asks for everything from there on.
pub fn resume_range(existing_len: u64) -> (r: (u64, String))
    ensures
        r.0 == if existing_len == 0 {
            0
        } else {
            existing_len - 1
        },
        r.1@ == "bytes="@ + decimal(r.0 as nat) + "-"@,
{
    let skip = existing_len.saturating_sub(1);
    let mut h = from_literal("bytes=");
    let digits = u64_to_decimal(skip);
    h.append(digits.as_str());
    h.append("-");
    (skip, h)
}

/// The size that a `Content-Length` header gives: the value read as a
/// `u64`, and 0 where there is none or it is not a number.
pub fn content_length_or_zero(value: Option<&str>) -> (r: u64)
    ensures
        r == match value {
            Some(t) => match parsed_u64(t@) {
                Some(n) => n,
                None => 0,
            },
            None => 0,
        },
{
    match value {
        Some(t) => match parse_u64(t) {
            Some(n) => n,
            None => 0,
        },
        None => 0,
    }
}

/// Law: two parts of one video are saved to different files.
pub proof fn audio_file_names_differ(title: Seq<char>, p: usize, q: usize, format: Seq<char>)
    requires
        p != q,
    ensures
        audio_file_name(title, Some(p), format) != audio_file_name(title, Some(q), format),
{
    let t = without_separators(title) + seq!['_'];
    let a = decimal(p as nat);
    let b = decimal(q as nat);
    let tail = seq!['.'] + format;
    lemma_decimal_reads_back(p as nat);
    lemma_decimal_reads_back(q as nat);
    assert(audio_file_name(title, Some(p), format) =~= t + (a + tail));
    assert(audio_file_name(title, Some(q), format) =~= t + (b + tail));
    if audio_file_name(title, Some(p), format) == audio_file_name(title, Some(q), format) {
        assert((t + (a + tail)).skip(t.len() as int) =~= a + tail);
        assert((t + (b + tail)).skip(t.len() as int) =~= b + tail);
        assert(a + tail == b + tail);
        if a.len() == b.len() {
            assert(a =~= (a + tail).take(a.len() as int));
            assert(b =~= (b + tail).take(b.len() as int));
            decimal_injective(p as nat, q as nat);
        } else if a.len() < b.len() {
            assert((a + tail)[a.len() as int] == '.');
            assert(is_digit(b[a.len() as int]));
        } else {
            assert((b + tail)[b.len() as int] == '.');
            assert(is_digit(a[b.len() as int]));
        }
    }
}

/// Law: where the format holds no path separator, neither does the name of
/// an audio file, so it stays inside the download directory.
pub proof fn audio_file_name_has_no_separator(title: Seq<char>, part: Option<usize>, format: Seq<char>)
    requires
        forall|i: int| 0 <= i < format.len() ==> !is_path_separator(#[trigger] format[i]),
    ensures
        forall|i: int|
            0 <= i < audio_file_name(title, part, format).len() ==> !is_path_separator(
                #[trigger] audio_file_name(title, part, format)[i],
            ),
{
    without_separators_has_none(title);
    let t = without_separators(title);
    let name = audio_file_name(title, part, format);
    match part {
        None => {
            assert forall|i: int| 0 <= i < name.len() implies !is_path_separator(#[trigger] name[i]) by {
                if i < t.len() {
                    assert(name[i] == t[i]);
                } else if i == t.len() {
                    assert(name[i] == '.');
                } else {
                    assert(name[i] == format[i - t.len() - 1]);
                }
            }
        },
        Some(p) => {
            let d = decimal(p as nat);
            lemma_decimal_reads_back(p as nat);
            assert forall|i: int| 0 <= i < name.len() implies !is_path_separator(#[trigger] name[i]) by {
                if i < t.len() {
                    assert(name[i] == t[i]);
                } else if i == t.len() {
                    assert(name[i] == '_');
                } else if i < t.len() + 1 + d.len() {
                    assert(name[i] == d[i - t.len() - 1]);
                    assert(is_digit(d[i - t.len() - 1]));
                } else if i == t.len() + 1 + d.len() {
                    assert(name[i] == '.');
                } else {
                    assert(name[i] == format[i - t.len() - 2 - d.len()]);
                }
            }
        },
    }
}


/// The listing's `data.dash.audio` is an array and every element of it has a
/// string `baseUrl`, whatever that string says.
pub open spec fn any_string_addresses(j: Json) -> bool {
    match j.member("data"@).member("dash"@).member("audio"@) {
        Json::Array(items) => forall|i: int|
            0 <= i < items@.len() ==> (#[trigger] items@[i]).member("baseUrl"@) is Str,
        _ => false,
    }
}

/// Law: a stream listing is usable exactly when `data.dash.audio` is an
/// array whose every element has a string `baseUrl`, nothing being asked of
/// the text of those strings; the addresses read are those strings, one per
/// element, in order.
pub proof fn listing_takes_any_string_address(j: Json, urls: Seq<String>)
    ensures
        lists_audio(j) == any_string_addresses(j),
        lists_audio(j) && audio_urls_of(j, urls) ==> (j.member("data"@).member("dash"@).member(
            "audio"@,
        ) matches Json::Array(items) && urls.len() == items@.len() && forall|i: int|
            0 <= i < urls.len() ==> (#[trigger] items@[i]).member("baseUrl"@) is Str
                && items@[i].member("baseUrl"@)->Str_0@ == urls[i]@),
{
    match j.member("data"@).member("dash"@).member("audio"@) {
        Json::Array(items) => {
            assert(audio_list_of(j) == Some(items@));
            if lists_audio(j) {
                assert forall|i: int| 0 <= i < items@.len() implies (#[trigger] items@[i]).member(
                    "baseUrl"@,
                ) is Str by {
                    assert(items@[i].member("baseUrl"@).str_value() is Some);
                }
            }
            if any_string_addresses(j) {
                assert forall|i: int| 0 <= i < items@.len() implies (
                #[trigger] items@[i]).member("baseUrl"@).str_value() is Some by {
                    assert(items@[i].member("baseUrl"@) is Str);
                }
            }
        },
        _ => {
            assert(audio_list_of(j) is None);
        },
    }
}

/// Law: the details come from the answer's own fields: the title is
/// `data.title` and the cover `data.pic`, whatever the pages hold, and the cid
/// is that of `data.pages[p - 1]` for the part number `p` (the whole part text
/// read as a `usize`), whatever other members, such as `data.cid`, the answer
/// holds.
pub proof fn video_details_are_the_answers_fields(q: VideoRequest, j: Json)
    requires
        q.describes(j),
    ensures
        VideoRequest::title_of(j) == j.member("data"@).member("title"@).str_value(),
        VideoRequest::cover_of(j) == j.member("data"@).member("pic"@).str_value(),
        j.member("data"@).member("pic"@) is Str,
        j.member("data"@).member("title"@) is Str,
        (parsed_usize(q.part@) matches Some(p) && p >= 1 && q.cid_of(j) == j.member("data"@).member(
            "pages"@,
        ).element(p - 1).member("cid"@).i64_value()),
{
}

/// Law: a part number written in decimal chooses its own page: part `p`
/// reads `data.pages[p - 1]`, so that part 12 reads the twelfth page.
pub proof fn part_chooses_its_page(q: VideoRequest, p: usize, j: Json)
    requires
        p >= 1,
        q.part@ == decimal(p as nat),
    ensures
        q.page_index() == Some((p - 1) as nat),
        q.cid_of(j) == j.member("data"@).member("pages"@).element(p - 1).member("cid"@).i64_value(),
{
    decimal_roundtrip_usize(p);
}

/// Law: the name for part `p` is the cleaned title, `_`, `p` in decimal,
/// `.` and the format, and it is never the name given when there is no part,
/// part 1 included.
pub proof fn part_names_carry_their_number(title: Seq<char>, p: usize, format: Seq<char>)
    ensures
        audio_file_name(title, Some(p), format) == without_separators(title) + seq!['_'] + decimal(
            p as nat,
        ) + seq!['.'] + format,
        audio_file_name(title, None, format) == without_separators(title) + seq!['.'] + format,
        audio_file_name(title, Some(p), format) != audio_file_name(title, None, format),
{
    let w = without_separators(title);
    let with_part = w + seq!['_'] + decimal(p as nat) + seq!['.'] + format;
    let without = w + seq!['.'] + format;
    assert(with_part[w.len() as int] == '_');
    assert(without[w.len() as int] == '.');
}

} // verus!
