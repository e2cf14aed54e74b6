use vstd::prelude::*;
use crate::decimal::{decimal, u64_to_decimal};
use crate::json::{Json, member_of};

verus! {

/// The address of the cloud-music service that logs in and takes uploads.
pub const NETEAST_BASE_URL: &'static str = "http://129.211.15.249:3000";

/// A logged-in account of the cloud-music service.
#[derive(Debug, Clone)]
pub struct User {
    pub cookie: String,
}

/// What the service answers when asked whether a login code was scanned.
#[derive(Debug, Clone)]
pub struct LoginStatus {
    pub code: i64,
    pub message: String,
    pub cookie: Option<String>,
}

/// What to do after a login check.
#[derive(Debug)]
pub enum LoginStep {
    /// The code was confirmed: keep the cookie and stop.
    LoggedIn(String),
    /// The code expired: stop with an error.
    Expired,
    /// Nothing decided yet: wait a second and ask again.
    Waiting,
}

/// The count of bytes sent of an upload, against the file's size.
#[derive(Debug, Clone, Copy)]
pub struct UploadProgress {
    pub uploaded: u64,
    pub total: u64,
}

/// Seconds since the Unix epoch by the system clock; `None` where the clock
/// stands before the epoch.
/// Trusted: `SystemTime::now` and `SystemTime::duration_since(UNIX_EPOCH)`,
/// read out with `Duration::as_secs`.  The reading depends on the clock, so
/// nothing is stated of it.
#[verifier::external_body]
fn secs_since_epoch() -> (r: Option<u64>) {
    std::time::SystemTime::now().duration_since(std::time::UNIX_EPOCH).ok().map(|d| d.as_secs())
}

/// The current Unix time in seconds; `None` where the clock stands before
/// the epoch.
pub fn get_timestamp() -> (r: Option<u64>) {
    secs_since_epoch()
}

fn from_literal(s: &str) -> (r: String)
    ensures
        r@ == s@,
{
    String::from_str(s)
}

fn append_decimal(s: &mut String, n: u64)
    ensures
        final(s)@ == old(s)@ + decimal(n as nat),
{
    let digits = u64_to_decimal(n);
    s.append(digits.as_str());
}

/// The address that hands out a fresh login key.
pub fn key_url(timestamp: u64) -> (r: String)
    ensures
        r@ == NETEAST_BASE_URL@ + "/login/qr/key?timestamp="@ + decimal(timestamp as nat),
{
    let mut s = from_literal(NETEAST_BASE_URL);
    s.append("/login/qr/key?timestamp=");
    append_decimal(&mut s, timestamp);
    s
}

/// The address that turns a login key into the text of a QR code.
pub fn qr_url(key: &str, timestamp: u64) -> (r: String)
    ensures
        r@ == NETEAST_BASE_URL@ + "/login/qr/create?key="@ + key@ + "&timestamp="@ + decimal(
            timestamp as nat,
        ),
{
    let mut s = from_literal(NETEAST_BASE_URL);
    s.append("/login/qr/create?key=");
    s.append(key);
    s.append("&timestamp=");
    append_decimal(&mut s, timestamp);
    s
}

/// The address that tells whether the QR code of a login key was scanned.
pub fn check_url(key: &str, timestamp: u64) -> (r: String)
    ensures
        r@ == NETEAST_BASE_URL@ + "/login/qr/check?key="@ + key@ + "&timestamp="@ + decimal(
            timestamp as nat,
        ),
{
    let mut s = from_literal(NETEAST_BASE_URL);
    s.append("/login/qr/check?key=");
    s.append(key);
    s.append("&timestamp=");
    append_decimal(&mut s, timestamp);
    s
}

/// `data.unikey` of the key answer.
pub open spec fn key_of(j: Json) -> Option<Seq<char>> {
    j.member("data"@).member("unikey"@).str_value()
}

/// `data.qrurl` of the QR answer.
pub open spec fn qr_of(j: Json) -> Option<Seq<char>> {
    j.member("data"@).member("qrurl"@).str_value()
}

/// An optional string, by its characters.
pub open spec fn opt_view(s: Option<String>) -> Option<Seq<char>> {
    match s {
        Some(t) => Some(t@),
        None => None,
    }
}

/// Tells whether the key answer holds a string `data.unikey`.
pub fn check_key(j: &Json) -> (r: bool)
    ensures
        r == (key_of(*j) is Some),
{
    match member_of(j.get("data"), "unikey") {
        Some(k) => k.as_str().is_some(),
        None => false,
    }
}

/// Takes the login key out of the key answer.
pub fn key_from_json(j: &Json) -> (r: String)
    requires
        key_of(*j) is Some,
    ensures
        Some(r@) == key_of(*j),
{
    member_of(j.get("data"), "unikey").unwrap().as_str().unwrap().clone()
}

/// Tells whether the QR answer holds a string `data.qrurl`.
pub fn check_qr(j: &Json) -> (r: bool)
    ensures
        r == (qr_of(*j) is Some),
{
    match member_of(j.get("data"), "qrurl") {
        Some(k) => k.as_str().is_some(),
        None => false,
    }
}

/// Takes the text of the QR code out of the QR answer.
pub fn qr_from_json(j: &Json) -> (r: String)
    requires
        qr_of(*j) is Some,
    ensures
        Some(r@) == qr_of(*j),
{
    member_of(j.get("data"), "qrurl").unwrap().as_str().unwrap().clone()
}

/// The check answer holds an integer `code` and a string `message`.
pub open spec fn has_status(j: Json) -> bool {
    &&& j.member("code"@).i64_value() is Some
    &&& j.member("message"@).str_value() is Some
}

/// Tells whether the check answer holds an integer `code` and a string
/// `message`.
pub fn check_status(j: &Json) -> (r: bool)
    ensures
        r == has_status(*j),
{
    let code_ok = match j.get("code") {
        Some(c) => c.as_i64().is_some(),
        None => false,
    };
    let message_ok = match j.get("message") {
        Some(m) => m.as_str().is_some(),
        None => false,
    };
    code_ok && message_ok
}

/// Takes the login status out of the check answer: its code, its message,
/// and its `cookie` where that is a string.
pub fn status_from_json(j: &Json) -> (r: LoginStatus)
    requires
        has_status(*j),
    ensures
        Some(r.code) == j.member("code"@).i64_value(),
        Some(r.message@) == j.member("message"@).str_value(),
        opt_view(r.cookie) == j.member("cookie"@).str_value(),
{
    let code = j.get("code").unwrap().as_i64().unwrap();
    let message = j.get("message").unwrap().as_str().unwrap().clone();
    let cookie = match j.get("cookie") {
        Some(c) => match c.as_str() {
            Some(s) => Some(s.clone()),
            None => None,
        },
        None => None,
    };
    LoginStatus { code, message, cookie }
}

/// Decides what a login check means: code 803 with a cookie is a login,
/// code 800 an expired code, anything else a reason to wait.
pub fn login_step(status: LoginStatus) -> (r: LoginStep)
    ensures
        status.code == 803 && status.cookie is Some ==> r == LoginStep::LoggedIn(status.cookie->0),
        !(status.code == 803 && status.cookie is Some) && status.code == 800 ==> r == LoginStep::Expired,
        !(status.code == 803 && status.cookie is Some) && status.code != 800 ==> r == LoginStep::Waiting,
{
    if status.code == 803 && status.cookie.is_some() {
        LoginStep::LoggedIn(status.cookie.unwrap())
    } else if status.code == 800 {
        LoginStep::Expired
    } else {
        LoginStep::Waiting
    }
}

impl User {
    /// The address that takes an upload for this account.
    pub fn upload_url(&self, timestamp: u64) -> (r: String)
        ensures
            r@ == NETEAST_BASE_URL@ + "/cloud?cookie="@ + self.cookie@ + "&timestramp="@ + decimal(
                timestamp as nat,
            ),
    {
        let mut s = from_literal(NETEAST_BASE_URL);
        s.append("/cloud?cookie=");
        s.append(self.cookie.as_str());
        s.append("&timestramp=");
        append_decimal(&mut s, timestamp);
        s
    }
}

/// The `Range` header of an upload that has already sent `uploaded` bytes.
pub fn upload_range_header(uploaded: u64) -> (r: String)
    ensures
        r@ == "bytes="@ + decimal(uploaded as nat) + "-"@,
{
    let mut s = from_literal("bytes=");
    append_decimal(&mut s, uploaded);
    s.append("-");
    s
}

impl UploadProgress {
    /// Counts a chunk that was sent, never past the file's size; tells
    /// whether the whole file is now sent.  The count never exceeds the size,
    /// and a count that had not passed the size never goes down.
    pub fn advance(&mut self, chunk_len: u64) -> (finished: bool)
        requires
            old(self).uploaded + chunk_len <= u64::MAX,
        ensures
            final(self).total == old(self).total,
            final(self).uploaded == if old(self).uploaded + chunk_len <= old(self).total {
                old(self).uploaded + chunk_len
            } else {
                old(self).total as int
            },
            final(self).uploaded <= final(self).total,
            old(self).uploaded <= old(self).total ==> old(self).uploaded <= final(self).uploaded,
            finished == (final(self).uploaded >= final(self).total),
    {
        let sum = self.uploaded + chunk_len;
        self.uploaded = if sum <= self.total {
            sum
        } else {
            self.total
        };
        self.uploaded >= self.total
    }
}

} // verus!
